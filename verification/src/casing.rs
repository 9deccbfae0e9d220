//! Identifier casing for the emitted names: registers become CamelCase
//! type names, fields become snake_case accessor names.
//!
//! The conversions themselves are done by the `heck` crate; their results
//! are named by the uninterpreted functions below, and every emitted name
//! is specified in terms of those names.

use vstd::prelude::*;

verus! {

/// The snake_case form of a byte string, as the case-conversion library
/// computes it.
pub uninterp spec fn snake_of(s: Seq<u8>) -> Seq<u8>;

/// The UpperCamelCase form of a byte string, as the case-conversion
/// library computes it.
pub uninterp spec fn camel_of(s: Seq<u8>) -> Seq<u8>;

/// Relies on heck's `ToSnakeCase` for `str`: the result is a pure function
/// of the characters alone.
#[verifier::external_body]
pub fn snake_bytes(s: &Vec<u8>) -> (r: Vec<u8>)
    ensures
        r@ == snake_of(s@),
{
    let text = String::from_utf8_lossy(s);
    heck::ToSnakeCase::to_snake_case(text.as_ref()).into_bytes()
}

/// Relies on heck's `ToUpperCamelCase` for `str`: the result is a pure
/// function of the characters alone.
#[verifier::external_body]
pub fn camel_bytes(s: &Vec<u8>) -> (r: Vec<u8>)
    ensures
        r@ == camel_of(s@),
{
    let text = String::from_utf8_lossy(s);
    heck::ToUpperCamelCase::to_upper_camel_case(text.as_ref()).into_bytes()
}

/// Case conversion for identifier-like values.
pub trait ToCasing: Sized {
    fn to_snake_case(&self) -> Self;

    fn to_camel_case(&self) -> Self;
}

impl ToCasing for Vec<u8> {
    fn to_snake_case(&self) -> Self {
        snake_bytes(self)
    }

    fn to_camel_case(&self) -> Self {
        camel_bytes(self)
    }
}

} // verus!
