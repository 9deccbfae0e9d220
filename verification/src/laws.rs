//! The universal guarantees of the emitted accessors, stated over the
//! machine model and proved once for every register shape.
//!
//! The single-transaction guarantee needs no lemma of its own: it is the
//! stated contract of `machine::Reader::new` (exactly one load) and
//! `machine::Updater::commit` (at most one load and exactly one store when
//! the mask is non-zero, nothing at all when it is zero).

use vstd::prelude::*;
use crate::bits::{low_mask, field_get};
use crate::machine::{
    upd_new_spec, upd_new_ignoring_spec, upd_set_spec, upd_clear_spec, committed_word,
    stored_word,
};

verus! {

/// Round-trip: writing `v` to a read-write field and committing over any
/// register contents `w0` makes a subsequent read of the field return `v`.
/// The field must lie inside the word, `v` inside the field's domain, and
/// the field must not be set-to-clear.
pub proof fn lemma_round_trip_set(w0: u64, v: u64, shift: u64, bits: u64, clear_mask: u64)
    requires
        shift + bits <= 64,
        v & !low_mask(bits) == 0,
        (low_mask(bits) << shift) & clear_mask == 0,
    ensures
        ({
            let u = upd_set_spec(upd_new_spec(), shift, bits, v);
            let c = committed_word(u, w0, clear_mask, false);
            field_get(stored_word(w0, c, clear_mask), shift, bits) == v
        }),
{
    let ctx = low_mask(bits) << shift;
    let u = upd_set_spec(upd_new_spec(), shift, bits, v);
    assert(u.value == (0u64 & !ctx) | ((v & low_mask(bits)) << shift));
    assert(u.mask == 0u64 | ctx);
    let c = committed_word(u, w0, clear_mask, false);
    let s = stored_word(w0, c, clear_mask);
    assert((((((((0u64 & !(low_mask(bits) << shift)) | ((v & low_mask(bits)) << shift)) | (w0
        & !clear_mask & !(0u64 | (low_mask(bits) << shift)))) & !clear_mask) | (w0 & clear_mask
        & !(((0u64 & !(low_mask(bits) << shift)) | ((v & low_mask(bits)) << shift)) | (w0
        & !clear_mask & !(0u64 | (low_mask(bits) << shift)))))) >> shift) & low_mask(bits)) == v)
        by (bit_vector)
        requires
            shift + bits <= 64,
            v & !low_mask(bits) == 0,
            (low_mask(bits) << shift) & clear_mask == 0,
    ;
}

/// Round-trip for a set-to-clear field: after a clearer and a commit, every
/// bit of the field reads as zero, whatever the register held before.
pub proof fn lemma_round_trip_clear(w0: u64, shift: u64, bits: u64, clear_mask: u64)
    requires
        shift + bits <= 64,
        (low_mask(bits) << shift) & clear_mask == low_mask(bits) << shift,
    ensures
        ({
            let u = upd_clear_spec(upd_new_spec(), shift, bits);
            let c = committed_word(u, w0, clear_mask, false);
            field_get(stored_word(w0, c, clear_mask), shift, bits) == 0
        }),
{
    let u = upd_clear_spec(upd_new_spec(), shift, bits);
    assert(u.value == 0u64 | (low_mask(bits) << shift));
    assert(u.mask == 0u64 | (low_mask(bits) << shift));
    assert(((((((0u64 | (low_mask(bits) << shift)) | (w0 & !clear_mask & !(0u64 | (low_mask(
        bits,
    ) << shift)))) & !clear_mask) | (w0 & clear_mask & !((0u64 | (low_mask(bits) << shift)) | (
    w0 & !clear_mask & !(0u64 | (low_mask(bits) << shift)))))) >> shift) & low_mask(bits)) == 0)
        by (bit_vector)
        requires
            shift + bits <= 64,
            (low_mask(bits) << shift) & clear_mask == low_mask(bits) << shift,
    ;
}

/// Isolation: a commit whose only touched field is (`shift`, `bits`)
/// changes no bit outside that field's mask.
pub proof fn lemma_set_isolation(w0: u64, v: u64, shift: u64, bits: u64, clear_mask: u64)
    ensures
        ({
            let ctx = low_mask(bits) << shift;
            let u = upd_set_spec(upd_new_spec(), shift, bits, v);
            let c = committed_word(u, w0, clear_mask, false);
            stored_word(w0, c, clear_mask) & !ctx == w0 & !ctx
        }),
{
    let ctx = low_mask(bits) << shift;
    let u = upd_set_spec(upd_new_spec(), shift, bits, v);
    assert(u.value == (0u64 & !ctx) | ((v & low_mask(bits)) << shift));
    assert(u.mask == 0u64 | ctx);
    assert(((((((0u64 & !(low_mask(bits) << shift)) | ((v & low_mask(bits)) << shift)) | (w0
        & !clear_mask & !(0u64 | (low_mask(bits) << shift)))) & !clear_mask) | (w0 & clear_mask
        & !(((0u64 & !(low_mask(bits) << shift)) | ((v & low_mask(bits)) << shift)) | (w0
        & !clear_mask & !(0u64 | (low_mask(bits) << shift)))))) & !(low_mask(bits) << shift))
        == w0 & !(low_mask(bits) << shift)) by (bit_vector);
}

/// An updater built from setters and clearers accumulates value bits only
/// inside its write mask.
pub open spec fn value_in_mask(u: crate::machine::Updater) -> bool {
    u.value & !u.mask == 0
}

/// A fresh updater, and any updater after a setter or a clearer, keeps its
/// value inside its mask.
pub proof fn lemma_value_in_mask_preserved(
    u: crate::machine::Updater,
    shift: u64,
    bits: u64,
    v: u64,
)
    requires
        value_in_mask(u),
    ensures
        value_in_mask(upd_new_spec()),
        value_in_mask(upd_new_ignoring_spec()),
        value_in_mask(upd_set_spec(u, shift, bits, v)),
        value_in_mask(upd_clear_spec(u, shift, bits)),
{
    let a = u.value;
    let b = u.mask;
    assert(0u64 & !0u64 == 0 && (((a & !(low_mask(bits) << shift)) | ((v & low_mask(bits))
        << shift)) & !(b | (low_mask(bits) << shift)) == 0) && ((a | (low_mask(bits) << shift))
        & !(b | (low_mask(bits) << shift)) == 0)) by (bit_vector)
        requires
            a & !b == 0,
    ;
}

/// Isolation for a whole transaction: whatever combination of setters and
/// clearers an updater accumulated, its commit changes no bit outside the
/// accumulated write mask.
pub proof fn lemma_commit_isolation(w0: u64, u: crate::machine::Updater, clear_mask: u64)
    requires
        value_in_mask(u),
        !u.write_only,
    ensures
        stored_word(w0, committed_word(u, w0, clear_mask, false), clear_mask) & !u.mask == w0
            & !u.mask,
{
    let a = u.value;
    let b = u.mask;
    assert(((((a | (w0 & !clear_mask & !b)) & !clear_mask) | (w0 & clear_mask & !(a | (w0
        & !clear_mask & !b)))) & !b) == w0 & !b) by (bit_vector)
        requires
            a & !b == 0,
    ;
}

/// Write-only invisibility: on a wholly write-only register, a default
/// updater that sets exactly one field commits the field's value at its
/// shift and nothing else; bits never written are zero.
pub proof fn lemma_write_only_invisibility(w0: u64, v: u64, shift: u64, bits: u64)
    ensures
        ({
            let u = upd_set_spec(upd_new_spec(), shift, bits, v);
            let c = committed_word(u, w0, 0, true);
            stored_word(w0, c, 0) == (v & low_mask(bits)) << shift
        }),
{
    let u = upd_set_spec(upd_new_spec(), shift, bits, v);
    assert(u.value == (0u64 & !(low_mask(bits) << shift)) | ((v & low_mask(bits)) << shift));
    assert(u.mask == 0u64 | (low_mask(bits) << shift));
    let c = committed_word(u, w0, 0, true);
    assert(c == u.value | (0u64 & !0u64 & !u.mask));
    let s = stored_word(w0, c, 0);
    assert(s == (c & !0u64) | (w0 & 0u64 & !c));
    assert(((((0u64 & !(low_mask(bits) << shift)) | ((v & low_mask(bits)) << shift)) | (0u64
        & !0u64 & !(0u64 | (low_mask(bits) << shift)))) & !0u64) | (w0 & 0u64 & !(((0u64
        & !(low_mask(bits) << shift)) | ((v & low_mask(bits)) << shift)) | (0u64 & !0u64 & !(
    0u64 | (low_mask(bits) << shift))))) == (v & low_mask(bits)) << shift) by (bit_vector);
}

/// Some declared variant carries the value `p`.
pub open spec fn covers_value(vals: Seq<u64>, p: u64) -> bool {
    exists|i: int| 0 <= i < vals.len() && vals[i] == p
}

/// Variant totality: when a field's variants are pairwise distinct, all lie
/// in the field's domain, and there are as many of them as the domain has
/// values, then every primitive the field can hold is some variant's value
/// — no checked conversion can fail.
pub proof fn lemma_variant_totality(vals: Seq<u64>, bits: u64)
    requires
        bits < 64,
        forall|i: int, j: int|
            0 <= i < vals.len() && 0 <= j < vals.len() && i != j ==> vals[i] != vals[j],
        forall|i: int| 0 <= i < vals.len() ==> vals[i] <= low_mask(bits),
        vals.len() == low_mask(bits) + 1,
    ensures
        forall|p: u64| p <= low_mask(bits) ==> #[trigger] covers_value(vals, p),
{
    let ints = vals.map_values(|v: u64| v as int);
    assert(ints.no_duplicates()) by {
        assert forall|i: int, j: int|
            0 <= i < ints.len() && 0 <= j < ints.len() && i != j implies ints[i] != ints[j] by {
            assert(vals[i] != vals[j]);
        }
    }
    ints.unique_seq_to_set();
    let m = low_mask(bits) as int;
    let range = vstd::set_lib::set_int_range(0, m + 1);
    vstd::set_lib::lemma_int_range(0, m + 1);
    assert(ints.to_set().subset_of(range)) by {
        assert forall|x: int| ints.to_set().contains(x) implies range.contains(x) by {
            let i = choose|i: int| 0 <= i < ints.len() && ints[i] == x;
            assert(vals[i] <= m);
        }
    }
    vstd::set_lib::lemma_subset_equality(ints.to_set(), range);
    assert forall|p: u64| p <= low_mask(bits) implies #[trigger] covers_value(vals, p) by {
        assert(range.contains(p as int));
        assert(ints.to_set().contains(p as int));
        let i = choose|i: int| 0 <= i < ints.len() && ints[i] == p as int;
        assert(vals[i] == p);
    }
}

} // verus!
