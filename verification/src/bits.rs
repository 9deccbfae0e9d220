//! Bit-level arithmetic shared by the whole crate: masks of a given width,
//! field extraction and insertion on a register word, and the lemmas that
//! relate them.

use vstd::prelude::*;

verus! {

/// The mask with the low `bits` bits set.
pub open spec fn low_mask(bits: u64) -> u64 {
    if bits >= 64 {
        0xffff_ffff_ffff_ffffu64
    } else {
        (((1u64 << bits) - 1) as u64)
    }
}

/// The value of field (`shift`, `bits`) inside the register word `word`.
pub open spec fn field_get(word: u64, shift: u64, bits: u64) -> u64 {
    (word >> shift) & low_mask(bits)
}

/// `word` uses only the low `width` bits.
pub open spec fn fits(word: u64, width: u64) -> bool {
    word & !low_mask(width) == 0
}

/// Executable twin of `low_mask`.
pub fn mask_of(bits: u64) -> (r: u64)
    ensures
        r == low_mask(bits),
{
    if bits >= 64 {
        0xffff_ffff_ffff_ffffu64
    } else {
        proof {
            lemma_shl_bound(bits);
        }
        (1u64 << bits) - 1
    }
}

proof fn lemma_shl_bound(bits: u64)
    requires
        bits < 64,
    ensures
        1u64 << bits >= 1,
{
    assert(bits < 64 ==> 1u64 << bits >= 1) by (bit_vector);
}

/// Anything masked with zero is zero.
pub proof fn lemma_and_zero(x: u64)
    ensures
        x & 0u64 == 0,
{
    assert(x & 0u64 == 0) by (bit_vector);
}

/// The mask values of the small widths the peripheral models use.
pub proof fn lemma_low_mask_values()
    ensures
        low_mask(1) == 1u64,
        low_mask(2) == 3u64,
        low_mask(3) == 7u64,
        low_mask(8) == 0xffu64,
        low_mask(11) == 0x7ffu64,
        low_mask(12) == 0xfffu64,
        low_mask(16) == 0xffffu64,
        low_mask(32) == 0xffff_ffffu64,
{
    assert((((1u64 << 1) - 1) as u64) == 1u64 && (((1u64 << 2) - 1) as u64) == 3u64 && (((1u64
        << 3) - 1) as u64) == 7u64 && (((1u64 << 8) - 1) as u64) == 0xffu64 && (((1u64 << 11)
        - 1) as u64) == 0x7ffu64 && (((1u64 << 12) - 1) as u64) == 0xfffu64 && (((1u64 << 16)
        - 1) as u64) == 0xffffu64 && (((1u64 << 32) - 1) as u64) == 0xffff_ffffu64)
        by (bit_vector);
}

/// A field's context mask is never zero: the field has at least one bit.
pub proof fn lemma_ctx_nonzero(bits: u64, shift: u64)
    requires
        1 <= bits,
        shift + bits <= 64,
    ensures
        (low_mask(bits) << shift) != 0,
        (0u64 | (low_mask(bits) << shift)) != 0,
        (0u64 | (low_mask(bits) << shift)) == (low_mask(bits) << shift),
{
    assert((low_mask(bits) << shift) != 0 && (0u64 | (low_mask(bits) << shift)) == (low_mask(
        bits,
    ) << shift)) by (bit_vector)
        requires
            1 <= bits && shift + bits <= 64,
    ;
}

/// Masking can only shrink a value.
pub proof fn lemma_and_le(x: u64, m: u64)
    ensures
        x & m <= m,
{
    assert(x & m <= m) by (bit_vector);
}

/// A union with a non-zero value is non-zero.
pub proof fn lemma_or_nonzero(a: u64, b: u64)
    requires
        a != 0,
    ensures
        (a | b) != 0,
        (b | a) != 0,
{
    assert(a != 0 ==> ((a | b) != 0 && (b | a) != 0)) by (bit_vector);
}

/// A word change confined to one field leaves every non-overlapping field
/// reading the same.
pub proof fn lemma_disjoint_field_get(
    w1: u64,
    w0: u64,
    s1: u64,
    b1: u64,
    s2: u64,
    b2: u64,
)
    requires
        w1 & !(low_mask(b1) << s1) == w0 & !(low_mask(b1) << s1),
        s1 + b1 <= s2 || s2 + b2 <= s1,
        s1 + b1 <= 64,
        s2 + b2 <= 64,
    ensures
        field_get(w1, s2, b2) == field_get(w0, s2, b2),
{
    assert((w1 >> s2) & low_mask(b2) == (w0 >> s2) & low_mask(b2)) by (bit_vector)
        requires
            w1 & !(low_mask(b1) << s1) == w0 & !(low_mask(b1) << s1) && (s1 + b1 <= s2 || s2
                + b2 <= s1) && s1 + b1 <= 64 && s2 + b2 <= 64,
    ;
}

/// A value is within a field's domain exactly when it has no bits outside
/// the field's mask; masking such a value changes nothing.
pub proof fn lemma_le_mask_fits(v: u64, bits: u64)
    ensures
        (v <= low_mask(bits)) <==> (v & !low_mask(bits) == 0),
        v <= low_mask(bits) ==> v & low_mask(bits) == v,
{
    assert(((v <= low_mask(bits)) <==> (v & !low_mask(bits) == 0)) && (v <= low_mask(bits)
        ==> v & low_mask(bits) == v)) by (bit_vector);
}

} // verus!
