//! A read-only field of a byte-wide register: readable, and without a
//! setter.

use ioreg::ioregs;
use ioreg::emit::UnionItem;
use ioreg::machine::{BlockMem, Reader};

#[test]
fn can_read_readonly() {
    let src: &[u8] = b"READONLY_TEST = {
        0x0 => reg8 reg1 {
            0 => field1: ro,
        },
    }";
    let out = ioregs(src, false, false).unwrap();
    let reg1 = match &out.plan.items[0] {
        UnionItem::Reg(p) => p,
        _ => panic!(),
    };
    // a getter exists, a setter does not
    assert_eq!(reg1.getters.len(), 1);
    assert_eq!(reg1.setters.len(), 0);
    let mut mem = BlockMem::new(out.plan.layout.size as usize);
    let r = Reader::new(&mut mem, 0, 1);
    assert_eq!(r.get_bool(0), false);
}
