//! The classic register-block descriptions, compiled and driven through
//! the machine model: round trips, layout, write-only behaviour, groups.

use ioreg::ioregs;
use ioreg::emit::{RegisterPlan, UnionItem, GetterKind};
use ioreg::machine::{BlockMem, Reader, Updater};

const BASIC_TEST: &[u8] = b"BASIC_TEST @ 0x0 = {
    0x0 => reg32 reg1 {
        0      => field1,
        1..3   => field2,
        16..24 => field3,
        25     => field4: (set_to_clear),
    },
    0x4 => reg32 reg2 {
        0      => field1,
    },
    0x8 => reg32 wo_reg {
        0..15  => field1: (wo),
        16..31 => field2: (wo),
    }
}";

const VARIANT_TEST: &[u8] = b"VARIANT_TEST @ 0x0 = {
    0x0    => reg32 cr {
        0      => rxe,
        1      => txe,
        2      => rxie,
        3      => txie,
        4..12  => br,
        14..15 => parity {
          0x0  => NoParity,
          0x2  => EvenParity,
          0x3  => OddParity,
        }
    },
    0x4    => reg32 sr {
        0      => rxne: ro,
        1      => txe: ro,
        2      => fe: set_to_clear,
    },
    0x8    => reg32 dr {
        0..7   => d
    }
}";

const GROUP_TEST: &[u8] = b"GROUP_TEST @ 0 = {
    0x0 => group regs[5] {
        0x0 => reg32 reg1 {
            0..31 => field1
        },
        0x4 => reg32 reg2 {
            0..31 => field2
        }
    },
    0x28 => reg32 reg3 {
        0 => field1,
    }
}";

fn reg_plan<'a>(plan: &'a ioreg::emit::UnionPlan, i: usize) -> &'a RegisterPlan {
    match &plan.items[i] {
        UnionItem::Reg(p) => p,
        UnionItem::Group(_) => panic!("expected a register"),
    }
}

fn get_value_u32(mem: &BlockMem, word_index: usize) -> u32 {
    mem.peek_word(word_index * 4, 4) as u32
}

#[test]
fn round_trip_simple_field_values_1() {
    let out = ioregs(BASIC_TEST, false, false).unwrap();
    let reg1 = reg_plan(&out.plan, 0);
    let mut mem = BlockMem::new(out.plan.layout.size as usize);

    // field1: bit 0 of reg1 at offset 0
    let r = Reader::new(&mut mem, 0, 4);
    assert_eq!(r.get_bool(0), false);
    let mut u = Updater::new();
    u.set_bool(0, true);
    u.commit(&mut mem, 0, 4, reg1.clear_mask, reg1.write_only);
    let r = Reader::new(&mut mem, 0, 4);
    assert_eq!(r.get_bool(0), true);
    assert_eq!(get_value_u32(&mem, 0), 0x1);
    assert_eq!(get_value_u32(&mem, 1), 0x0);

    // field2: bits 1..3
    let mut u = Updater::new();
    u.set(1, 3, 0b10);
    u.commit(&mut mem, 0, 4, reg1.clear_mask, reg1.write_only);
    let r = Reader::new(&mut mem, 0, 4);
    assert_eq!(r.get(1, 3), 0b10);
    assert_eq!(get_value_u32(&mem, 0), 0b101);
}

#[test]
fn round_trip_simple_field_values_2() {
    let out = ioregs(BASIC_TEST, false, false).unwrap();
    let reg2 = reg_plan(&out.plan, 1);
    assert_eq!(reg2.offset, 0x4);
    let mut mem = BlockMem::new(out.plan.layout.size as usize);

    let r = Reader::new(&mut mem, 0x4, 4);
    assert_eq!(r.get_bool(0), false);
    assert_eq!(mem.peek_word(0x4, 4), 0b0);
    let mut u = Updater::new();
    u.set_bool(0, true);
    u.commit(&mut mem, 0x4, 4, reg2.clear_mask, reg2.write_only);
    let r = Reader::new(&mut mem, 0x4, 4);
    assert_eq!(r.get_bool(0), true);
    assert_eq!(mem.peek_word(0x4, 4), 0b1);
}

#[test]
fn reg32_size_match() {
    let out = ioregs(BASIC_TEST, false, false).unwrap();
    // the storage type of wo_reg is exactly one 32-bit word
    match &out.plan.layout.entries[2].field.kind {
        ioreg::layout::PlannedKind::Register { width_bytes } => assert_eq!(*width_bytes, 4),
        _ => panic!("expected a register"),
    }
    assert_eq!(out.plan.layout.entries[2].field.size, 4);
}

#[test]
fn reg32_layout_match() {
    let out = ioregs(BASIC_TEST, false, false).unwrap();
    let entry = &out.plan.layout.entries[2];
    assert_eq!(entry.field.ident, b"wo_reg".to_vec());
    assert_eq!(entry.field.offset, 0x8);
}

#[test]
fn round_trip_variant_field_values() {
    let out = ioregs(VARIANT_TEST, false, false).unwrap();
    let cr = reg_plan(&out.plan, 0);
    // the parity getter is a checked enum conversion: three variants do
    // not cover the four two-bit values
    let parity_getter = &cr.getters[5];
    assert_eq!(parity_getter.name, b"parity".to_vec());
    assert_eq!(parity_getter.shift, 14);
    assert_eq!(parity_getter.elem_bits, 2);
    assert!(matches!(parity_getter.kind, GetterKind::EnumChecked));
    let parity_enum = &cr.enums[0];
    assert_eq!(parity_enum.ident, b"Parity".to_vec());

    let variants = &out.plan.items[0];
    let variants = match variants {
        UnionItem::Reg(p) => &p.enums[0].variants,
        _ => panic!(),
    };
    let ast_variants = match &out.ast.registers[0] {
        ioreg::ast::RegisterOrGroup::Single(r) => r.fields[5].variants.as_ref().unwrap(),
        _ => panic!(),
    };

    let mut mem = BlockMem::new(out.plan.layout.size as usize);
    let r = Reader::new(&mut mem, 0, 4);
    let idx = ioreg::machine::variant_from_primitive(ast_variants, r.get(14, 2)).unwrap();
    assert_eq!(variants[idx].name, b"NoParity".to_vec());

    let mut u = Updater::new();
    u.set(14, 2, 0x3);  // OddParity
    u.commit(&mut mem, 0, 4, cr.clear_mask, cr.write_only);
    let r = Reader::new(&mut mem, 0, 4);
    let idx = ioreg::machine::variant_from_primitive(ast_variants, r.get(14, 2)).unwrap();
    assert_eq!(variants[idx].name, b"OddParity".to_vec());

    let mut u = Updater::new();
    u.set(14, 2, 0x2);  // EvenParity
    u.commit(&mut mem, 0, 4, cr.clear_mask, cr.write_only);
    let r = Reader::new(&mut mem, 0, 4);
    let idx = ioreg::machine::variant_from_primitive(ast_variants, r.get(14, 2)).unwrap();
    assert_eq!(variants[idx].name, b"EvenParity".to_vec());
    assert_eq!(get_value_u32(&mem, 0), 0x2 << 14);
}

#[test]
fn write_only_register_write() {
    let out = ioregs(BASIC_TEST, false, false).unwrap();
    let wo_reg = reg_plan(&out.plan, 2);
    assert!(wo_reg.write_only);
    let mut mem = BlockMem::new(out.plan.layout.size as usize);

    let mut u = Updater::new();
    u.set(0, 16, 0x1);
    u.commit(&mut mem, 0x8, 4, wo_reg.clear_mask, wo_reg.write_only);
    assert_eq!(mem.peek_word(0x8, 4), 0x1);

    let mut u = Updater::new();
    u.set(16, 16, 0x1);
    u.commit(&mut mem, 0x8, 4, wo_reg.clear_mask, wo_reg.write_only);
    assert_eq!(mem.peek_word(0x8, 4), 0x1 << 16);
}

#[test]
fn set_groups_correctly() {
    let out = ioregs(GROUP_TEST, false, false).unwrap();
    let group = match &out.plan.items[0] {
        UnionItem::Group(u) => u,
        _ => panic!("expected a group"),
    };
    // five elements of two registers each: the element stride is eight
    let stride = group.layout.size as usize;
    assert_eq!(stride, 8);
    let reg2_off = group.layout.entries[1].field.offset as usize;
    assert_eq!(reg2_off, 4);
    let mut mem = BlockMem::new(out.plan.layout.size as usize);

    // regs[0].reg1.field1 = 0xdeadbeef
    let mut u = Updater::new();
    u.set(0, 32, 0xdeadbeef);
    u.commit(&mut mem, 0, 4, 0, false);
    let r = Reader::new(&mut mem, 0, 4);
    assert_eq!(r.get(0, 32), 0xdeadbeef);
    assert_eq!(get_value_u32(&mem, 0), 0xdeadbeef);
    for i in 1..10 {
        assert_eq!(get_value_u32(&mem, i), 0);
    }

    // regs[2].reg2.field2 = 0xfeedbeef: word index five
    let off = 2 * stride + reg2_off;
    let mut u = Updater::new();
    u.set(0, 32, 0xfeedbeef);
    u.commit(&mut mem, off, 4, 0, false);
    let r = Reader::new(&mut mem, off, 4);
    assert_eq!(r.get(0, 32), 0xfeedbeef);
    assert_eq!(get_value_u32(&mem, 5), 0xfeedbeef);
}
