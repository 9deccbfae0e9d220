//! The generator surface: naming, layout self-tests, transaction counts,
//! set-to-clear behaviour, and variant totality on concrete blocks.

use ioreg::ioregs;
use ioreg::emit::{UnionItem, GetterKind};
use ioreg::machine::{BlockMem, Reader, Updater, variant_from_primitive};

const BASIC_TEST: &[u8] = b"BASIC_TEST @ 0x0 = {
    0x0 => reg32 reg1 {
        0      => field1,
        1..3   => field2,
        16..24 => field3,
        25     => field4: (set_to_clear),
    },
    0x4 => reg32 reg2 {
        0      => field1,
    },
    0x8 => reg32 wo_reg {
        0..15  => field1: (wo),
        16..31 => field2: (wo),
    }
}";

#[test]
fn basic_test() {
    println!("working?");
}

#[test]
fn emitted_names_are_cased() {
    let out = ioregs(BASIC_TEST, false, false).unwrap();
    assert_eq!(out.plan.mod_ident, b"basic_test".to_vec());
    assert_eq!(out.plan.union_ident, b"BasicTest".to_vec());
    let wo_reg = match &out.plan.items[2] {
        UnionItem::Reg(p) => p,
        _ => panic!(),
    };
    assert_eq!(wo_reg.mod_ident, b"wo_reg".to_vec());
    assert_eq!(wo_reg.idents.base, b"WoReg".to_vec());
    assert_eq!(wo_reg.idents.update, b"WoRegUpdate".to_vec());
    assert_eq!(wo_reg.idents.get, b"WoRegGet".to_vec());
    let reg1 = match &out.plan.items[0] {
        UnionItem::Reg(p) => p,
        _ => panic!(),
    };
    assert_eq!(reg1.getters[0].name, b"field1".to_vec());
    assert_eq!(reg1.setters[0].name, b"set_field1".to_vec());
    assert_eq!(reg1.clearers[0].name, b"clear_field4".to_vec());
}

#[test]
fn alignment_test_plan() {
    let out = ioregs(BASIC_TEST, false, true).unwrap();
    assert_eq!(out.plan.alignment.len(), 3);
    assert_eq!(out.plan.alignment[0].field_ident, b"reg1".to_vec());
    assert_eq!(out.plan.alignment[0].field_offset, 0x0);
    assert_eq!(out.plan.alignment[1].field_offset, 0x4);
    assert_eq!(out.plan.alignment[2].field_ident, b"wo_reg".to_vec());
    assert_eq!(out.plan.alignment[2].field_offset, 0x8);
    assert_eq!(
        out.plan.alignment[2].test_ident,
        b"test_align_basic_test_wo_reg".to_vec()
    );
    let without = ioregs(BASIC_TEST, false, false).unwrap();
    assert_eq!(without.plan.alignment.len(), 0);
}

#[test]
fn layout_padding_is_planned() {
    let src: &[u8] = b"PADDED @ 0x0 = {
        0x0 => reg8 a { 0 => f },
        0x8 => reg32 b { 0 => g },
    }";
    let out = ioregs(src, false, false).unwrap();
    assert_eq!(out.plan.layout.entries[0].pad_before, 0);
    assert_eq!(out.plan.layout.entries[0].field.offset, 0);
    assert_eq!(out.plan.layout.entries[0].field.size, 1);
    assert_eq!(out.plan.layout.entries[1].pad_before, 7);
    assert_eq!(out.plan.layout.entries[1].field.offset, 8);
    assert_eq!(out.plan.layout.size, 12);
}

#[test]
fn set_to_clear_reads_zero_afterwards() {
    let out = ioregs(BASIC_TEST, false, false).unwrap();
    let reg1 = match &out.plan.items[0] {
        UnionItem::Reg(p) => p,
        _ => panic!(),
    };
    assert_eq!(reg1.clear_mask, 1 << 25);
    let mut mem = BlockMem::new(out.plan.layout.size as usize);
    // the hardware raises the status bit
    mem.poke_word(0, 4, 1 << 25);
    let r = Reader::new(&mut mem, 0, 4);
    assert_eq!(r.get_bool(25), true);
    // the program clears it by writing a one
    let mut u = Updater::new();
    u.clear(25, 1);
    u.commit(&mut mem, 0, 4, reg1.clear_mask, reg1.write_only);
    let r = Reader::new(&mut mem, 0, 4);
    assert_eq!(r.get_bool(25), false);
    assert_eq!(mem.peek_word(0, 4), 0);
}

#[test]
fn single_transaction_counts() {
    let out = ioregs(BASIC_TEST, false, false).unwrap();
    let reg1 = match &out.plan.items[0] {
        UnionItem::Reg(p) => p,
        _ => panic!(),
    };
    let wo_reg = match &out.plan.items[2] {
        UnionItem::Reg(p) => p,
        _ => panic!(),
    };
    let mut mem = BlockMem::new(out.plan.layout.size as usize);
    // a reader is one load
    let _ = Reader::new(&mut mem, 0, 4);
    assert_eq!(mem.loads, 1);
    assert_eq!(mem.stores, 0);
    // an untouched updater commits nothing
    let u = Updater::new();
    u.commit(&mut mem, 0, 4, reg1.clear_mask, reg1.write_only);
    assert_eq!(mem.loads, 1);
    assert_eq!(mem.stores, 0);
    // a default commit is one load and one store
    let mut u = Updater::new();
    u.set_bool(0, true);
    u.commit(&mut mem, 0, 4, reg1.clear_mask, reg1.write_only);
    assert_eq!(mem.loads, 2);
    assert_eq!(mem.stores, 1);
    // a write-only commit never loads
    let mut u = Updater::new();
    u.set(0, 16, 7);
    u.commit(&mut mem, 0x8, 4, wo_reg.clear_mask, wo_reg.write_only);
    assert_eq!(mem.loads, 2);
    assert_eq!(mem.stores, 2);
}

#[test]
fn exhaustive_variants_convert_totally() {
    let src: &[u8] = b"TOTAL_TEST = {
        0x0 => reg32 r {
            4 => mode {
                0 => Off,
                1 => On,
            },
        },
    }";
    let out = ioregs(src, false, false).unwrap();
    let r = match &out.plan.items[0] {
        UnionItem::Reg(p) => p,
        _ => panic!(),
    };
    assert!(matches!(r.getters[0].kind, GetterKind::EnumTotal));
    assert!(r.enums[0].total);
    let ast_variants = match &out.ast.registers[0] {
        ioreg::ast::RegisterOrGroup::Single(reg) => reg.fields[0].variants.as_ref().unwrap(),
        _ => panic!(),
    };
    // every primitive the one-bit element can hold is a variant
    assert!(variant_from_primitive(ast_variants, 0).is_some());
    assert!(variant_from_primitive(ast_variants, 1).is_some());
}

#[test]
fn unchecked_variant_escape_hatch() {
    let src: &[u8] = b"PARTIAL_TEST = {
        0x0 => reg32 r {
            0..1 => mode {
                0 => A,
                1 => B,
            },
        },
    }";
    let checked = ioregs(src, false, false).unwrap();
    let r = match &checked.plan.items[0] {
        UnionItem::Reg(p) => p,
        _ => panic!(),
    };
    assert!(matches!(r.getters[0].kind, GetterKind::EnumChecked));
    let forced = ioregs(src, true, false).unwrap();
    let r = match &forced.plan.items[0] {
        UnionItem::Reg(p) => p,
        _ => panic!(),
    };
    assert!(matches!(r.getters[0].kind, GetterKind::EnumTotal));
}

#[test]
fn words_are_little_endian() {
    let mut mem = BlockMem::new(8);
    mem.poke_word(0, 4, 0x0403_0201);
    assert_eq!(mem.peek_word(0, 1), 0x01);
    assert_eq!(mem.peek_word(1, 1), 0x02);
    assert_eq!(mem.peek_word(2, 2), 0x0403);
}

#[test]
fn wide_and_narrow_registers_round_trip() {
    let src: &[u8] = b"WIDTHS = {
        0x0 => reg16 h { 0..15 => v },
        0x8 => reg64 q { 0..63 => v },
    }";
    let out = ioregs(src, false, false).unwrap();
    assert_eq!(out.plan.layout.size, 16);
    assert_eq!(out.plan.layout.entries[1].pad_before, 6);
    let mut mem = BlockMem::new(out.plan.layout.size as usize);
    let mut u = Updater::new();
    u.set(0, 16, 0xbeef);
    u.commit(&mut mem, 0, 2, 0, false);
    assert_eq!(mem.peek_word(0, 2), 0xbeef);
    let mut u = Updater::new();
    u.set(0, 64, 0xdead_beef_feed_f00d);
    u.commit(&mut mem, 8, 8, 0, false);
    assert_eq!(mem.peek_word(8, 8), 0xdead_beef_feed_f00d);
    let r = Reader::new(&mut mem, 8, 8);
    assert_eq!(r.get(0, 64), 0xdead_beef_feed_f00d);
}

#[test]
fn isolation_leaves_other_fields() {
    let out = ioregs(BASIC_TEST, false, false).unwrap();
    let reg1 = match &out.plan.items[0] {
        UnionItem::Reg(p) => p,
        _ => panic!(),
    };
    let mut mem = BlockMem::new(out.plan.layout.size as usize);
    // plant a value in field3 (bits 16..24) behind the program's back
    mem.poke_word(0, 4, 0xab << 16);
    // setting field2 does not change field3
    let mut u = Updater::new();
    u.set(1, 3, 0b111);
    u.commit(&mut mem, 0, 4, reg1.clear_mask, reg1.write_only);
    let r = Reader::new(&mut mem, 0, 4);
    assert_eq!(r.get(16, 9), 0xab);
    assert_eq!(r.get(1, 3), 0b111);
}
