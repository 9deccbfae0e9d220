//! A range written backwards is a valid range literal, and the validator
//! rejects it.

use ioreg::{ioregs, BuildError};
use ioreg::validate::ValidateErrorKind;

#[test]
fn inverted_range() {
    let src: &[u8] = b"INVERTED_RANGE_TEST = {
        0x0 => reg32 reg1 {
            31..0 => field1,
        }
    }";
    match ioregs(src, false, false) {
        Err(BuildError::Validate(e)) => assert_eq!(e.kind, ValidateErrorKind::InvertedRange),
        _ => panic!("an inverted range must fail validation"),
    }
}
