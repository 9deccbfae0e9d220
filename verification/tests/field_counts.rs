//! Arrayed fields: elements of a counted field live at stride-spaced
//! shifts and round-trip independently.

use ioreg::ioregs;
use ioreg::emit::UnionItem;
use ioreg::machine::{BlockMem, Reader, Updater, variant_from_primitive};

const FIELD_COUNTS_TEST: &[u8] = b"FIELD_COUNTS_TEST @ 0x0 = {
    0x0 => reg32 reg1 {
        0..1 => field1[2],
        2..5 => field2[2] {
            0b00 => State1,
            0b01 => State2,
            0b11 => State3,
        },
        6..9 => field3[2]: wo,
    },
    0x4 => reg32 reg2 {
        0..31 => field1
    }
}";

#[test]
fn round_trip_counted_fields() {
    let out = ioregs(FIELD_COUNTS_TEST, false, false).unwrap();
    let reg1 = match &out.plan.items[0] {
        UnionItem::Reg(p) => p,
        _ => panic!(),
    };
    let f2 = &reg1.getters[1];
    assert_eq!(f2.name, b"field2".to_vec());
    assert_eq!(f2.shift, 2);
    assert_eq!(f2.elem_bits, 2);
    assert_eq!(f2.count, Some(2));
    let ast_variants = match &out.ast.registers[0] {
        ioreg::ast::RegisterOrGroup::Single(r) => r.fields[1].variants.as_ref().unwrap(),
        _ => panic!(),
    };
    let names = &reg1.enums[0].variants;

    let mut mem = BlockMem::new(out.plan.layout.size as usize);
    let r = Reader::new(&mut mem, 0, 4);
    let i0 = variant_from_primitive(ast_variants, r.get_indexed(2, 2, 0)).unwrap();
    let i1 = variant_from_primitive(ast_variants, r.get_indexed(2, 2, 1)).unwrap();
    assert_eq!(names[i0].name, b"State1".to_vec());
    assert_eq!(names[i1].name, b"State1".to_vec());

    // set element one to State2 (0b01): the word becomes 1 << (2 + 2*1)
    let mut u = Updater::new();
    u.set_indexed(2, 2, 1, 0b01);
    u.commit(&mut mem, 0, 4, reg1.clear_mask, reg1.write_only);
    let r = Reader::new(&mut mem, 0, 4);
    let i1 = variant_from_primitive(ast_variants, r.get_indexed(2, 2, 1)).unwrap();
    assert_eq!(names[i1].name, b"State2".to_vec());
    assert_eq!(mem.peek_word(0, 4), 0b10000);
    let i0 = variant_from_primitive(ast_variants, r.get_indexed(2, 2, 0)).unwrap();
    assert_eq!(names[i0].name, b"State1".to_vec());
    let i1 = variant_from_primitive(ast_variants, r.get_indexed(2, 2, 1)).unwrap();
    assert_eq!(names[i1].name, b"State2".to_vec());
}
