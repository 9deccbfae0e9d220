//! The validator: structural, semantic and capacity checks on a parsed
//! block, surfaced with the position of the offending construct.
//!
//! `validate_block` succeeds exactly on well-formed blocks (`block_wf`):
//! access-modifier coherence, bit bounds within the register width,
//! divisibility of arrayed field spans, variant legality, offset
//! monotonicity, and size arithmetic that stays within the machine word.

use vstd::prelude::*;
use crate::ast::{
    IoRegs, Register, RegisterField, RegisterGroup, RegisterOrGroup, RegisterProperty,
    RegisterPropertyValue, RegisterVariant, member_size_int, members_sizes_fit,
    lemma_members_sizes_fit_index, lemma_member_size_nonneg,
};
use crate::bits::low_mask;

verus! {

/// What a validation failure is about.  The first three are structural,
/// the variant ones semantic, the last a capacity limit of the size
/// arithmetic.
#[derive(Clone, Copy, PartialEq, Eq, Structural, Debug)]
pub enum ValidateErrorKind {
    /// More than one of `ro`, `wo`, `rw` on one field.
    MultipleAccessModifiers,
    /// `set_to_clear` together with `ro`.
    SetToClearWithReadOnly,
    /// A range written `lo..hi` with `lo > hi`.
    InvertedRange,
    /// A field's high bit reaches past the register width.
    FieldBitsExceedWidth,
    /// An array count of zero.
    ZeroCount,
    /// A field span not evenly divisible by its element count.
    FieldCountMismatch,
    /// A variant value that does not fit the field element.
    VariantValueTooLarge,
    /// Two variants with the same value.
    DuplicateVariantValue,
    /// Two variants with the same identifier.
    DuplicateVariantIdent,
    /// A member that starts at or before the previous member's start, or
    /// inside the previous member.
    NonMonotonicOffset,
    /// A size computation that exceeds the machine word.
    SizeOverflow,
}

/// A validation failure, with the byte position of the offending entity.
#[derive(Clone, Copy, PartialEq, Eq, Structural, Debug)]
pub struct ValidateError {
    pub kind: ValidateErrorKind,
    pub pos: usize,
}

/// The two byte strings are equal.
pub fn bytes_eq(a: &Vec<u8>, b: &Vec<u8>) -> (r: bool)
    ensures
        r <==> a@ == b@,
{
    if a.len() != b.len() {
        return false;
    }
    let mut i: usize = 0;
    while i < a.len()
        invariant
            i <= a@.len(),
            a@.len() == b@.len(),
            forall|j: int| 0 <= j < i ==> a@[j] == b@[j],
        decreases a@.len() - i,
    {
        if a[i] != b[i] {
            return false;
        }
        i = i + 1;
    }
    proof {
        assert(a@ =~= b@);
    }
    true
}

/// At most one access modifier among the properties.
pub open spec fn props_coherent(props: Seq<RegisterProperty>) -> bool {
    forall|i: int, j: int|
        0 <= i < props.len() && 0 <= j < props.len() && i != j ==> !(
        props[i].value.is_access_modifier_spec()
            && props[j].value.is_access_modifier_spec())
}

/// The declared variants are legal for an element of `elem_bits` bits:
/// every value fits, and values and identifiers are pairwise distinct.
pub open spec fn variants_wf(vs: Seq<RegisterVariant>, elem_bits: u64) -> bool {
    (forall|i: int| 0 <= i < vs.len() ==> vs[i].value <= low_mask(elem_bits)) && (forall|
        i: int,
        j: int,
    |
        0 <= i < vs.len() && 0 <= j < vs.len() && i != j ==> vs[i].value != vs[j].value) && (
    forall|i: int, j: int|
        0 <= i < vs.len() && 0 <= j < vs.len() && i != j ==> vs[i].ident@ != vs[j].ident@)
}

/// A field is well-formed with respect to its register's width.
pub open spec fn field_wf(f: RegisterField, width: u64) -> bool {
    &&& props_coherent(f.properties@)
    &&& !(f.is_set_to_clear_spec() && f.is_read_only_spec())
    &&& !f.offset.is_inverted()
    &&& f.offset.high_bit() < width
    &&& f.count_value_spec() >= 1
    &&& f.bit_size_full_spec() as int % f.count_value_spec() as int == 0
    &&& match f.variants {
        Some(vs) => variants_wf(vs@, f.bit_size_single_spec()),
        None => true,
    }
}

/// A register is well-formed: a positive count and well-formed fields.
pub open spec fn register_wf(r: Register) -> bool {
    r.count_value_spec() >= 1 && (forall|i: int|
        0 <= i < r.fields@.len() ==> field_wf(#[trigger] r.fields@[i], r.ty.bit_width()))
}

/// Members start strictly after the previous member's start and at or
/// after its end.
pub open spec fn members_monotonic(ms: Seq<RegisterOrGroup>) -> bool {
    forall|i: int|
        1 <= i < ms.len() ==> (#[trigger] ms[i]).byte_start_spec() > ms[i - 1].byte_start_spec()
            && ms[i].byte_start_spec() >= ms[i - 1].byte_start_spec() + member_size_int(
            ms[i - 1],
        )
}

/// A member is well-formed; a group additionally needs a positive count
/// and well-formed, monotonic members.
pub open spec fn member_wf(m: RegisterOrGroup) -> bool
    decreases m,
{
    match m {
        RegisterOrGroup::Single(r) => register_wf(r),
        RegisterOrGroup::Group(g) => g.count_value_spec() >= 1 && members_wf(g.members@)
            && members_monotonic(g.members@) && members_sizes_fit(g.members@),
    }
}

/// All members of a list are well-formed.
pub open spec fn members_wf(ms: Seq<RegisterOrGroup>) -> bool
    decreases ms,
{
    if ms.len() == 0 {
        true
    } else {
        members_wf(ms.drop_last()) && member_wf(ms.last())
    }
}

/// The whole block is well-formed: this is exactly what `validate_block`
/// accepts.
pub open spec fn block_wf(b: IoRegs) -> bool {
    members_wf(b.registers@) && members_monotonic(b.registers@) && members_sizes_fit(
        b.registers@,
    )
}

/// Every element of a well-formed field lies inside the register word: its
/// element has at least one bit, and its shift plus its width stays within
/// the register.  This is what lets the round-trip, isolation and
/// write-only laws be instantiated at any field of a validated block.
pub proof fn lemma_field_element_in_range(f: RegisterField, width: u64, index: u64)
    requires
        field_wf(f, width),
        width <= 64,
        index < f.count_value_spec(),
    ensures
        1 <= f.bit_size_single_spec(),
        f.shift_spec(index) + f.bit_size_single_spec() <= width,
{
    let full = f.bit_size_full_spec() as int;
    let count = f.count_value_spec() as int;
    let single = full / count;
    assert(full >= 1);
    assert(single * count == full) by (nonlinear_arith)
        requires
            count >= 1 && full % count == 0 && single == full / count,
    ;
    assert(single >= 1) by (nonlinear_arith)
        requires
            single * count == full && full >= 1 && count >= 1,
    ;
    assert(single * (index + 1) <= single * count) by (nonlinear_arith)
        requires
            index + 1 <= count && single >= 0,
    ;
    assert(single * (index + 1) == single * index + single) by (nonlinear_arith);
    assert(f.bit_size_single_spec() == single);
    assert(f.shift_spec(index) == f.offset.low_bit() + single * index);
    assert(f.offset.low_bit() + full <= width);
}

/// What a failure of the given kind means for a variant list: the
/// corresponding violation is present.
pub open spec fn variants_err_cond(
    vs: Seq<RegisterVariant>,
    elem_bits: u64,
    kind: ValidateErrorKind,
) -> bool {
    match kind {
        ValidateErrorKind::VariantValueTooLarge => exists|i: int|
            0 <= i < vs.len() && (#[trigger] vs[i]).value > low_mask(elem_bits),
        ValidateErrorKind::DuplicateVariantValue => exists|i: int, j: int|
            0 <= i < j < vs.len() && (#[trigger] vs[i]).value == (#[trigger] vs[j]).value,
        ValidateErrorKind::DuplicateVariantIdent => exists|i: int, j: int|
            0 <= i < j < vs.len() && (#[trigger] vs[i]).ident@ == (#[trigger] vs[j]).ident@,
        _ => false,
    }
}

/// What a failure of the given kind means for one field: the
/// corresponding violation is present.
pub open spec fn field_err_cond(f: RegisterField, width: u64, kind: ValidateErrorKind)
    -> bool {
    match kind {
        ValidateErrorKind::MultipleAccessModifiers => !props_coherent(f.properties@),
        ValidateErrorKind::SetToClearWithReadOnly => f.is_set_to_clear_spec()
            && f.is_read_only_spec(),
        ValidateErrorKind::InvertedRange => f.offset.is_inverted(),
        ValidateErrorKind::FieldBitsExceedWidth => f.offset.high_bit() >= width,
        ValidateErrorKind::ZeroCount => f.count_value_spec() == 0,
        ValidateErrorKind::FieldCountMismatch => !f.offset.is_inverted()
            && f.count_value_spec() >= 1 && f.bit_size_full_spec() as int
            % f.count_value_spec() as int != 0,
        _ => match f.variants {
            Some(vs) => variants_err_cond(vs@, f.bit_size_single_spec(), kind),
            None => false,
        },
    }
}

/// What a failure of the given kind means for one register: a zero count,
/// or some field with the corresponding violation.
pub open spec fn register_err_cond(r: Register, kind: ValidateErrorKind) -> bool {
    (kind == ValidateErrorKind::ZeroCount && r.count_value_spec() == 0) || exists|i: int|
        0 <= i < r.fields@.len() && field_err_cond(
            #[trigger] r.fields@[i],
            r.ty.bit_width(),
            kind,
        )
}

/// What a failure of the given kind means for one member, at any depth.
pub open spec fn member_err_cond(m: RegisterOrGroup, kind: ValidateErrorKind) -> bool
    decreases m,
{
    match m {
        RegisterOrGroup::Single(r) => register_err_cond(r, kind),
        RegisterOrGroup::Group(g) => {
            ||| kind == ValidateErrorKind::ZeroCount && g.count_value_spec() == 0
            ||| kind == ValidateErrorKind::NonMonotonicOffset && !members_monotonic(g.members@)
            ||| kind == ValidateErrorKind::SizeOverflow && !members_sizes_fit(g.members@)
            ||| members_err_cond(g.members@, kind)
        },
    }
}

/// Some member of the list carries the corresponding violation.
pub open spec fn members_err_cond(ms: Seq<RegisterOrGroup>, kind: ValidateErrorKind) -> bool
    decreases ms,
{
    if ms.len() == 0 {
        false
    } else {
        members_err_cond(ms.drop_last(), kind) || member_err_cond(ms.last(), kind)
    }
}

/// What a failure of the given kind means for a member list: a violation
/// inside some member, or of the list's own order or size.
pub open spec fn list_err_cond(ms: Seq<RegisterOrGroup>, kind: ValidateErrorKind) -> bool {
    ||| kind == ValidateErrorKind::NonMonotonicOffset && !members_monotonic(ms)
    ||| kind == ValidateErrorKind::SizeOverflow && !members_sizes_fit(ms)
    ||| members_err_cond(ms, kind)
}

/// A violation of one member is a violation of its list.
pub proof fn lemma_members_err_cond_index(
    ms: Seq<RegisterOrGroup>,
    i: int,
    kind: ValidateErrorKind,
)
    requires
        0 <= i < ms.len(),
        member_err_cond(ms[i], kind),
    ensures
        members_err_cond(ms, kind),
    decreases ms.len(),
{
    if i == ms.len() - 1 {
        assert(ms.last() == ms[i]);
    } else {
        assert(ms.drop_last()[i] == ms[i]);
        lemma_members_err_cond_index(ms.drop_last(), i, kind);
    }
}

/// Every member of a well-formed list is well-formed.
pub proof fn lemma_members_wf_index(ms: Seq<RegisterOrGroup>, i: int)
    requires
        members_wf(ms),
        0 <= i < ms.len(),
    ensures
        member_wf(ms[i]),
    decreases ms.len(),
{
    if i == ms.len() - 1 {
        assert(ms.last() == ms[i]);
    } else {
        assert(ms.drop_last()[i] == ms[i]);
        lemma_members_wf_index(ms.drop_last(), i);
    }
}

fn validate_props(f: &RegisterField) -> (r: Result<(), ValidateError>)
    ensures
        r.is_ok() <==> (props_coherent(f.properties@) && !(f.is_set_to_clear_spec()
            && f.is_read_only_spec())),
        r matches Err(e) ==> (e.kind == ValidateErrorKind::MultipleAccessModifiers || e.kind
            == ValidateErrorKind::SetToClearWithReadOnly) && field_err_cond(
            *f,
            64,
            e.kind,
        ),
{
    let n = f.properties.len();
    let mut i: usize = 0;
    while i < n
        invariant
            i <= n,
            n == f.properties@.len(),
            forall|a: int, b: int|
                0 <= a < i && 0 <= b < n && a != b ==> !(
                f.properties@[a].value.is_access_modifier_spec()
                    && f.properties@[b].value.is_access_modifier_spec()),
        decreases n - i,
    {
        if f.properties[i].is_access_modifier() {
            let mut j: usize = i + 1;
            while j < n
                invariant
                    i < j <= n,
                    n == f.properties@.len(),
                    f.properties@[i as int].value.is_access_modifier_spec(),
                    forall|b: int|
                        i < b < j ==> !f.properties@[b].value.is_access_modifier_spec(),
                decreases n - j,
            {
                if f.properties[j].is_access_modifier() {
                    proof {
                        if props_coherent(f.properties@) {
                            assert(!(f.properties@[i as int].value.is_access_modifier_spec()
                                && f.properties@[j as int].value.is_access_modifier_spec()));
                        }
                    }
                    return Err(
                        ValidateError {
                            kind: ValidateErrorKind::MultipleAccessModifiers,
                            pos: f.properties[j].pos,
                        },
                    );
                }
                j = j + 1;
            }
        }
        i = i + 1;
    }
    if f.is_set_to_clear() && f.is_read_only() {
        return Err(
            ValidateError { kind: ValidateErrorKind::SetToClearWithReadOnly, pos: f.pos },
        );
    }
    Ok(())
}

fn validate_variants(vs: &Vec<RegisterVariant>, elem_bits: u64) -> (r: Result<
    (),
    ValidateError,
>)
    ensures
        r.is_ok() <==> variants_wf(vs@, elem_bits),
        r matches Err(e) ==> variants_err_cond(vs@, elem_bits, e.kind),
{
    let max = crate::bits::mask_of(elem_bits);
    let n = vs.len();
    let mut i: usize = 0;
    while i < n
        invariant
            i <= n,
            n == vs@.len(),
            max == low_mask(elem_bits),
            forall|a: int| 0 <= a < i ==> vs@[a].value <= low_mask(elem_bits),
            forall|a: int, b: int|
                0 <= a < b < i ==> vs@[a].value != vs@[b].value && vs@[a].ident@
                    != vs@[b].ident@,
        decreases n - i,
    {
        if vs[i].value > max {
            proof {
                assert(vs@[i as int].value > low_mask(elem_bits));
            }
            return Err(
                ValidateError { kind: ValidateErrorKind::VariantValueTooLarge, pos: vs[i].pos },
            );
        }
        let mut j: usize = 0;
        while j < i
            invariant
                j <= i < n,
                n == vs@.len(),
                forall|b: int| 0 <= b < j ==> vs@[b].value != vs@[i as int].value,
                forall|b: int| 0 <= b < j ==> vs@[b].ident@ != vs@[i as int].ident@,
            decreases i - j,
        {
            if vs[j].value == vs[i].value {
                proof {
                    assert(vs@[j as int].value == vs@[i as int].value);
                }
                return Err(
                    ValidateError {
                        kind: ValidateErrorKind::DuplicateVariantValue,
                        pos: vs[i].pos,
                    },
                );
            }
            if bytes_eq(&vs[j].ident, &vs[i].ident) {
                proof {
                    assert(vs@[j as int].ident@ == vs@[i as int].ident@);
                }
                return Err(
                    ValidateError {
                        kind: ValidateErrorKind::DuplicateVariantIdent,
                        pos: vs[i].pos,
                    },
                );
            }
            j = j + 1;
        }
        i = i + 1;
    }
    Ok(())
}

/// Validate one field against the register width.  Succeeds exactly on
/// well-formed fields.
pub fn validate_field(f: &RegisterField, width: u64) -> (r: Result<(), ValidateError>)
    requires
        width == 8 || width == 16 || width == 32 || width == 64,
    ensures
        r.is_ok() <==> field_wf(*f, width),
        r matches Err(e) ==> field_err_cond(*f, width, e.kind),
{
    validate_props(f)?;
    if f.offset.inverted() {
        return Err(ValidateError { kind: ValidateErrorKind::InvertedRange, pos: f.pos });
    }
    if f.offset.high() >= width {
        return Err(ValidateError { kind: ValidateErrorKind::FieldBitsExceedWidth, pos: f.pos });
    }
    let count = f.count_value();
    if count == 0 {
        return Err(ValidateError { kind: ValidateErrorKind::ZeroCount, pos: f.pos });
    }
    if f.bit_size_full() % count != 0 {
        return Err(ValidateError { kind: ValidateErrorKind::FieldCountMismatch, pos: f.pos });
    }
    match &f.variants {
        Some(vs) => validate_variants(vs, f.bit_size_single()),
        None => Ok(()),
    }
}

/// Validate one register.  Succeeds exactly on well-formed registers.
pub fn validate_register(r: &Register) -> (res: Result<(), ValidateError>)
    ensures
        res.is_ok() <==> register_wf(*r),
        res matches Err(e) ==> register_err_cond(*r, e.kind),
{
    if r.count_value() == 0 {
        return Err(ValidateError { kind: ValidateErrorKind::ZeroCount, pos: r.pos });
    }
    let width = r.ty.bits();
    let mut i: usize = 0;
    while i < r.fields.len()
        invariant
            i <= r.fields@.len(),
            width == r.ty.bit_width(),
            width == 8 || width == 16 || width == 32 || width == 64,
            forall|j: int| 0 <= j < i ==> field_wf(#[trigger] r.fields@[j], r.ty.bit_width()),
        decreases r.fields@.len() - i,
    {
        match validate_field(&r.fields[i], width) {
            Ok(_) => {},
            Err(e) => {
                proof {
                    if register_wf(*r) {
                        assert(field_wf(r.fields@[i as int], r.ty.bit_width()));
                    }
                    assert(field_err_cond(r.fields@[i as int], r.ty.bit_width(), e.kind));
                }
                return Err(e);
            },
        }
        i = i + 1;
    }
    Ok(())
}

/// The size in bytes of one member, or `None` where the computation would
/// overflow the machine word.
pub fn checked_member_size(m: &RegisterOrGroup) -> (r: Option<u64>)
    ensures
        r.is_some() <==> m.sizes_fit(),
        r.is_some() ==> r.unwrap() == m.byte_length_int(),
    decreases *m,
{
    match m {
        RegisterOrGroup::Single(reg) => {
            let bl = reg.ty.byte_length();
            let c = reg.count_value();
            if c > u64::MAX / bl {
                proof {
                    assert(c > u64::MAX as int / bl as int && bl >= 1 ==> bl as int * c as int
                        > u64::MAX) by (nonlinear_arith);
                }
                None
            } else {
                proof {
                    assert(c <= u64::MAX as int / bl as int && 1 <= bl <= 8 ==> bl as int
                        * c as int <= u64::MAX) by (nonlinear_arith);
                }
                Some(bl * c)
            }
        },
        RegisterOrGroup::Group(g) => {
            let inner = match checked_inner_size(&g.members) {
                Some(v) => v,
                None => {
                    return None;
                },
            };
            let c = g.count_value();
            if inner == 0 {
                proof {
                    assert(c as int * 0int == 0) by (nonlinear_arith);
                }
                Some(0)
            } else if c > u64::MAX / inner {
                proof {
                    assert(c > u64::MAX as int / inner as int && inner >= 1 ==> inner as int
                        * c as int > u64::MAX) by (nonlinear_arith);
                    assert(inner as int * c as int == c as int * inner as int);
                }
                None
            } else {
                proof {
                    assert(c <= u64::MAX as int / inner as int && inner >= 1 ==> inner as int
                        * c as int <= u64::MAX) by (nonlinear_arith);
                    assert(inner as int * c as int == c as int * inner as int);
                }
                Some(c * inner)
            }
        },
    }
}

/// The planned inner span of a member list, or `None` where a size
/// overflows.
pub fn checked_inner_size(ms: &Vec<RegisterOrGroup>) -> (r: Option<u64>)
    ensures
        r.is_some() <==> members_sizes_fit(ms@),
        r.is_some() ==> r.unwrap() == crate::ast::inner_size_int(ms@),
    decreases ms@,
{
    let n = ms.len();
    let mut i: usize = 0;
    let mut end: u64 = 0;
    proof {
        assert(ms@.take(0) =~= Seq::<RegisterOrGroup>::empty());
    }
    while i < n
        invariant
            i <= n,
            n == ms@.len(),
            members_sizes_fit(ms@.take(i as int)),
            end == crate::ast::inner_size_int(ms@.take(i as int)),
        decreases n - i,
    {
        let size = match checked_member_size(&ms[i]) {
            Some(s) => s,
            None => {
                proof {
                    if members_sizes_fit(ms@) {
                        lemma_members_sizes_fit_index(ms@, i as int);
                    }
                }
                return None;
            },
        };
        let start = ms[i].byte_start();
        if start > u64::MAX - size {
            proof {
                if members_sizes_fit(ms@) {
                    lemma_members_sizes_fit_index(ms@, i as int);
                }
            }
            return None;
        }
        end = start + size;
        i = i + 1;
        proof {
            let t = ms@.take(i as int);
            assert(t.drop_last() =~= ms@.take(i - 1));
            assert(t.last() == ms@[i - 1]);
        }
    }
    proof {
        assert(ms@.take(n as int) =~= ms@);
    }
    Some(end)
}

/// A monotonic prefix extended by one member in order stays monotonic.
pub proof fn lemma_members_monotonic_push(ms: Seq<RegisterOrGroup>, i: int)
    requires
        1 <= i <= ms.len(),
        members_monotonic(ms.take(i - 1)),
        i >= 2 ==> ms[i - 1].byte_start_spec() > ms[i - 2].byte_start_spec() && ms[i
            - 1].byte_start_spec() >= ms[i - 2].byte_start_spec() + member_size_int(ms[i - 2]),
    ensures
        members_monotonic(ms.take(i)),
{
    let t = ms.take(i);
    assert forall|k: int| 1 <= k < t.len() implies (#[trigger] t[k]).byte_start_spec()
        > t[k - 1].byte_start_spec() && t[k].byte_start_spec() >= t[k - 1].byte_start_spec()
        + member_size_int(t[k - 1]) by {
        assert(t[k] == ms[k]);
        assert(t[k - 1] == ms[k - 1]);
        if k < i - 1 {
            assert(ms.take(i - 1)[k] == ms[k]);
            assert(ms.take(i - 1)[k - 1] == ms[k - 1]);
        }
    }
}

/// A well-formed, well-sized prefix extended by one such member stays so.
pub proof fn lemma_members_wf_push(ms: Seq<RegisterOrGroup>, i: int)
    requires
        1 <= i <= ms.len(),
        members_wf(ms.take(i - 1)),
        member_wf(ms[i - 1]),
        members_sizes_fit(ms.take(i - 1)),
        ms[i - 1].sizes_fit(),
        ms[i - 1].byte_start_spec() + member_size_int(ms[i - 1]) <= u64::MAX,
    ensures
        members_wf(ms.take(i)),
        members_sizes_fit(ms.take(i)),
{
    let t = ms.take(i);
    assert(t.drop_last() =~= ms.take(i - 1));
    assert(t.last() == ms[i - 1]);
}

/// Validate a member list: every member well-formed, offsets monotonic,
/// sizes within range.
#[verifier::rlimit(50)]
pub fn validate_members(ms: &Vec<RegisterOrGroup>) -> (r: Result<(), ValidateError>)
    ensures
        r.is_ok() <==> (members_wf(ms@) && members_monotonic(ms@) && members_sizes_fit(ms@)),
        r matches Err(e) ==> list_err_cond(ms@, e.kind),
    decreases ms@,
{
    let n = ms.len();
    let mut i: usize = 0;
    let mut prev_start: u64 = 0;
    let mut prev_end: u64 = 0;
    proof {
        assert(ms@.take(0) =~= Seq::<RegisterOrGroup>::empty());
    }
    while i < n
        invariant
            i <= n,
            n == ms@.len(),
            members_wf(ms@.take(i as int)),
            members_monotonic(ms@.take(i as int)),
            members_sizes_fit(ms@.take(i as int)),
            i > 0 ==> prev_start == ms@[i - 1].byte_start_spec() && prev_end == ms@[i
                - 1].byte_start_spec() + member_size_int(ms@[i - 1]),
        decreases n - i,
    {
        match validate_member(&ms[i]) {
            Ok(_) => {},
            Err(e) => {
                proof {
                    if members_wf(ms@) {
                        lemma_members_wf_index(ms@, i as int);
                    }
                    lemma_members_err_cond_index(ms@, i as int, e.kind);
                }
                return Err(e);
            },
        }
        let size = match checked_member_size(&ms[i]) {
            Some(s) => s,
            None => {
                proof {
                    if members_sizes_fit(ms@) {
                        lemma_members_sizes_fit_index(ms@, i as int);
                    }
                }
                return Err(
                    ValidateError { kind: ValidateErrorKind::SizeOverflow, pos: ms[i].pos() },
                );
            },
        };
        let start = ms[i].byte_start();
        if start > u64::MAX - size {
            proof {
                if members_sizes_fit(ms@) {
                    lemma_members_sizes_fit_index(ms@, i as int);
                }
            }
            return Err(
                ValidateError { kind: ValidateErrorKind::SizeOverflow, pos: ms[i].pos() },
            );
        }
        if i > 0 {
            if !(start > prev_start && start >= prev_end) {
                proof {
                    if members_monotonic(ms@) {
                        assert(ms@[i as int].byte_start_spec() > ms@[i - 1].byte_start_spec()
                            && ms@[i as int].byte_start_spec() >= ms@[i - 1].byte_start_spec()
                            + member_size_int(ms@[i - 1]));
                    }
                }
                return Err(
                    ValidateError {
                        kind: ValidateErrorKind::NonMonotonicOffset,
                        pos: ms[i].pos(),
                    },
                );
            }
        }
        prev_start = start;
        prev_end = start + size;
        i = i + 1;
        proof {
            lemma_members_wf_push(ms@, i as int);
            lemma_members_monotonic_push(ms@, i as int);
        }
    }
    proof {
        assert(ms@.take(n as int) =~= ms@);
    }
    Ok(())
}

/// Validate one member.  Succeeds exactly on well-formed members.
pub fn validate_member(m: &RegisterOrGroup) -> (r: Result<(), ValidateError>)
    ensures
        r.is_ok() <==> member_wf(*m),
        r matches Err(e) ==> member_err_cond(*m, e.kind),
    decreases *m,
{
    match m {
        RegisterOrGroup::Single(reg) => {
            let res = validate_register(reg);
            proof {
                assert(member_wf(*m) == register_wf(*reg));
            }
            res
        },
        RegisterOrGroup::Group(g) => {
            if g.count_value() == 0 {
                return Err(ValidateError { kind: ValidateErrorKind::ZeroCount, pos: g.pos });
            }
            validate_members(&g.members)
        },
    }
}

/// Validate a whole block.  Succeeds if and only if the block is
/// well-formed.
pub fn validate_block(b: &IoRegs) -> (r: Result<(), ValidateError>)
    ensures
        r.is_ok() <==> block_wf(*b),
        r matches Err(e) ==> list_err_cond(b.registers@, e.kind),
{
    validate_members(&b.registers)
}

} // verus!
