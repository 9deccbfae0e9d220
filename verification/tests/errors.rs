//! Every build-time failure on an input that provokes it.

use ioreg::{ioregs, BuildError};
use ioreg::parser::ParseErrorKind;
use ioreg::validate::ValidateErrorKind;

fn parse_err(src: &[u8]) -> ioreg::parser::ParseError {
    match ioregs(src, false, false) {
        Err(BuildError::Parse(e)) => e,
        _ => panic!("expected a parse failure"),
    }
}

fn validate_err(src: &[u8]) -> ioreg::validate::ValidateError {
    match ioregs(src, false, false) {
        Err(BuildError::Validate(e)) => e,
        _ => panic!("expected a validation failure"),
    }
}

#[test]
fn unknown_width_token_is_rejected() {
    let e = parse_err(b"B = { 0 => reg24 r { 0 => f } }");
    assert_eq!(e.kind, ParseErrorKind::UnknownWidthToken);
}

#[test]
fn unknown_property_is_rejected() {
    let e = parse_err(b"B = { 0 => reg32 r { 0 => f: rx } }");
    assert_eq!(e.kind, ParseErrorKind::UnknownProperty);
}

#[test]
fn trailing_input_is_rejected() {
    let e = parse_err(b"B = { 0 => reg32 r { 0 => f } } extra");
    assert_eq!(e.kind, ParseErrorKind::TrailingInput);
}

#[test]
fn truncated_input_is_rejected() {
    let e = parse_err(b"B = { 0 => reg32 r {");
    assert_eq!(e.kind, ParseErrorKind::UnexpectedEnd);
}

#[test]
fn foreign_byte_is_a_lex_error() {
    let e = parse_err(b"B = { 0 => reg32 r { 0 => f ? } }");
    assert_eq!(e.kind, ParseErrorKind::Lex);
}

#[test]
fn missing_delimiter_is_rejected() {
    let e = parse_err(b"B = 0 => reg32 r { 0 => f } }");
    assert_eq!(e.kind, ParseErrorKind::ExpectedDelimiter);
}

#[test]
fn missing_offset_is_rejected() {
    let e = parse_err(b"B = { reg32 r { 0 => f } }");
    assert_eq!(e.kind, ParseErrorKind::ExpectedInt);
}

#[test]
fn oversized_literal_is_a_lex_error() {
    let e = parse_err(b"B = { 0x10000000000000000 => reg32 r { 0 => f } }");
    assert_eq!(e.kind, ParseErrorKind::Lex);
}

#[test]
fn multiple_access_modifiers_are_rejected() {
    let e = validate_err(b"B = { 0 => reg32 r { 0 => f: (ro, wo) } }");
    assert_eq!(e.kind, ValidateErrorKind::MultipleAccessModifiers);
}

#[test]
fn set_to_clear_with_read_only_is_rejected() {
    let e = validate_err(b"B = { 0 => reg32 r { 0 => f: (set_to_clear, ro) } }");
    assert_eq!(e.kind, ValidateErrorKind::SetToClearWithReadOnly);
}

#[test]
fn set_to_clear_with_write_only_is_accepted() {
    let out = ioregs(
        b"MULTI_PROP_TEST @ 0x0 = {
            0x0 => reg32 reg1 {
                0      => field1,
                1..3   => field2,
                16..24 => field3,
                25     => field4: (set_to_clear, wo),
            },
        }",
        false,
        false,
    );
    assert!(out.is_ok());
}

#[test]
fn field_bits_exceeding_width_are_rejected() {
    let e = validate_err(b"B = { 0 => reg8 r { 0..8 => f } }");
    assert_eq!(e.kind, ValidateErrorKind::FieldBitsExceedWidth);
}

#[test]
fn indivisible_field_count_is_rejected() {
    let e = validate_err(b"B = { 0 => reg32 r { 0..2 => f[2] } }");
    assert_eq!(e.kind, ValidateErrorKind::FieldCountMismatch);
}

#[test]
fn zero_count_is_rejected() {
    let e = validate_err(b"B = { 0 => reg32 r[0] { 0 => f } }");
    assert_eq!(e.kind, ValidateErrorKind::ZeroCount);
}

#[test]
fn oversized_variant_value_is_rejected() {
    let e = validate_err(b"B = { 0 => reg32 r { 0..1 => f { 4 => X } } }");
    assert_eq!(e.kind, ValidateErrorKind::VariantValueTooLarge);
}

#[test]
fn duplicate_variant_value_is_rejected() {
    let e = validate_err(b"B = { 0 => reg32 r { 0..1 => f { 1 => X, 1 => Y } } }");
    assert_eq!(e.kind, ValidateErrorKind::DuplicateVariantValue);
}

#[test]
fn duplicate_variant_ident_is_rejected() {
    let e = validate_err(b"B = { 0 => reg32 r { 0..1 => f { 1 => X, 2 => X } } }");
    assert_eq!(e.kind, ValidateErrorKind::DuplicateVariantIdent);
}

#[test]
fn non_monotonic_offsets_are_rejected() {
    let e = validate_err(
        b"B = { 0x4 => reg32 a { 0 => f }, 0x0 => reg32 b { 0 => g } }",
    );
    assert_eq!(e.kind, ValidateErrorKind::NonMonotonicOffset);
}

#[test]
fn overlapping_members_are_rejected() {
    let e = validate_err(
        b"B = { 0x0 => reg32 a { 0 => f }, 0x2 => reg32 b { 0 => g } }",
    );
    assert_eq!(e.kind, ValidateErrorKind::NonMonotonicOffset);
}

#[test]
fn oversized_group_is_rejected() {
    let e = validate_err(
        b"B = { 0 => group g[0xffffffffffffffff] { 0 => reg64 r[0xffffffff] { 0 => f } } }",
    );
    assert_eq!(e.kind, ValidateErrorKind::SizeOverflow);
}

#[test]
fn errors_carry_positions() {
    let e = validate_err(b"B = { 0 => reg8 r { 0..8 => f } }");
    // the position points into the field, inside the source text
    assert!(e.pos > 0 && e.pos < 40);
}
