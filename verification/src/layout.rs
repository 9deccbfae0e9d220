//! The layout planner: walks the members of a block in declared order with
//! a running cursor, records the padding needed in front of every member,
//! and yields the planned offset and size of each.  The planned offset of a
//! named member always equals its declared offset — layout fidelity — and
//! the plan tiles the block without gaps, which is what makes the emitted
//! C-layout struct land every register at its declared place.

use vstd::prelude::*;
use crate::ast::{
    RegisterOrGroup, member_size_int, inner_size_int, members_sizes_fit,
    lemma_members_sizes_fit_index, lemma_member_size_nonneg,
};
use crate::validate::{members_wf, members_monotonic, lemma_members_wf_index};
use crate::casing::{snake_of, snake_bytes};

verus! {

/// What a planned field is: one register (of `width_bytes`-byte words), or
/// a nested group with its own plan for one element.
pub enum PlannedKind {
    Register { width_bytes: u64 },
    Group(LayoutPlan),
}

/// One named field of the layout struct.
pub struct PlannedField {
    pub ident: Vec<u8>,
    /// Planned byte offset within the parent — equal to the declared one.
    pub offset: u64,
    /// Total size in bytes, array count included.
    pub size: u64,
    pub count: Option<u64>,
    pub kind: PlannedKind,
}

/// One member of the plan: the anonymous padding in front of the field,
/// then the field itself.
pub struct LayoutEntry {
    pub pad_before: u64,
    pub field: PlannedField,
}

/// The plan of one struct level: its entries in declaration order and its
/// total span in bytes.
pub struct LayoutPlan {
    pub entries: Vec<LayoutEntry>,
    pub size: u64,
}

/// The planned entry describes the member: same identifier, the declared
/// offset, the planned size, the declared count, and for a group a
/// matching plan of its children.
pub open spec fn entry_matches(e: LayoutEntry, m: RegisterOrGroup) -> bool
    decreases m,
{
    match m {
        RegisterOrGroup::Single(r) => {
            &&& e.field.ident@ == r.ident@
            &&& e.field.offset == r.offset
            &&& e.field.size == r.byte_length_int()
            &&& e.field.count == r.count
            &&& e.field.kind matches PlannedKind::Register { width_bytes }
                && width_bytes == r.ty.byte_length_spec()
        },
        RegisterOrGroup::Group(g) => {
            &&& e.field.ident@ == snake_of(g.ident@)
            &&& e.field.offset == g.offset
            &&& e.field.size == member_size_int(m)
            &&& e.field.count == g.count
            &&& e.field.kind matches PlannedKind::Group(inner) && plan_matches(
                inner,
                g.members@,
            )
        },
    }
}

/// The plan lays the members out faithfully: one entry per member, each
/// describing its member; entries tile the span contiguously (each field
/// begins where the padding after the previous field ends); and the plan's
/// size is the planned span of the list.
pub open spec fn plan_matches(p: LayoutPlan, ms: Seq<RegisterOrGroup>) -> bool
    decreases ms,
{
    &&& p.entries@.len() == ms.len()
    &&& forall|i: int|
        0 <= i < ms.len() ==> entry_matches(#[trigger] p.entries@[i], ms[i])
    &&& forall|i: int|
        0 <= i < ms.len() ==> (#[trigger] p.entries@[i]).field.offset == entry_end(
            p.entries@,
            i - 1,
        ) + p.entries@[i].pad_before
    &&& p.size == inner_size_int(ms)
}

/// Where entry `i` ends; the cursor starts at zero.
pub open spec fn entry_end(es: Seq<LayoutEntry>, i: int) -> int {
    if i < 0 {
        0
    } else {
        es[i].field.offset + es[i].field.size
    }
}

/// Layout fidelity: in a faithful plan, every named field's planned offset
/// equals its member's declared offset.
pub proof fn lemma_layout_fidelity(p: LayoutPlan, ms: Seq<RegisterOrGroup>, i: int)
    requires
        plan_matches(p, ms),
        0 <= i < ms.len(),
    ensures
        p.entries@[i].field.offset == ms[i].byte_start_spec(),
{
    assert(entry_matches(p.entries@[i], ms[i]));
}

/// Plan a member list.  The members must be validated: well-formed,
/// monotonic, and with sizes in range.
pub fn plan_members(ms: &Vec<RegisterOrGroup>) -> (p: LayoutPlan)
    requires
        members_wf(ms@),
        members_monotonic(ms@),
        members_sizes_fit(ms@),
    ensures
        plan_matches(p, ms@),
    decreases ms@,
{
    let n = ms.len();
    let mut entries: Vec<LayoutEntry> = Vec::new();
    let mut cursor: u64 = 0;
    let mut i: usize = 0;
    while i < n
        invariant
            i <= n,
            n == ms@.len(),
            members_wf(ms@),
            members_monotonic(ms@),
            members_sizes_fit(ms@),
            entries@.len() == i,
            forall|k: int| 0 <= k < i ==> entry_matches(#[trigger] entries@[k], ms@[k]),
            forall|k: int|
                0 <= k < i ==> (#[trigger] entries@[k]).field.offset == entry_end(
                    entries@,
                    k - 1,
                ) + entries@[k].pad_before,
            cursor == inner_size_int(ms@.take(i as int)),
            cursor == entry_end(entries@, i - 1),
        decreases n - i,
    {
        proof {
            lemma_members_wf_index(ms@, i as int);
            lemma_members_sizes_fit_index(ms@, i as int);
            lemma_member_size_nonneg(ms@[i as int]);
            if i > 0 {
                assert(ms@[i as int].byte_start_spec() >= ms@[i - 1].byte_start_spec()
                    + member_size_int(ms@[i - 1]));
                assert(ms@.take(i as int).last() == ms@[i - 1]);
            }
        }
        let m = &ms[i];
        let start = m.byte_start();
        let pad = start - cursor;
        let size = m.byte_length();
        let field = match m {
            RegisterOrGroup::Single(r) => PlannedField {
                ident: clone_bytes(&r.ident),
                offset: start,
                size,
                count: r.count,
                kind: PlannedKind::Register { width_bytes: r.ty.byte_length() },
            },
            RegisterOrGroup::Group(g) => {
                let inner = plan_members(&g.members);
                PlannedField {
                    ident: snake_bytes(&g.ident),
                    offset: start,
                    size,
                    count: g.count,
                    kind: PlannedKind::Group(inner),
                }
            },
        };
        let ghost old_entries = entries@;
        entries.push(LayoutEntry { pad_before: pad, field });
        cursor = start + size;
        i = i + 1;
        proof {
            assert(entries@.drop_last() =~= old_entries);
            assert forall|k: int| 0 <= k < i implies entry_matches(
                #[trigger] entries@[k],
                ms@[k],
            ) by {
                if k < i - 1 {
                    assert(entries@[k] == old_entries[k]);
                }
            }
            assert(ms@.take(i as int).last() == ms@[i - 1]);
        }
    }
    proof {
        assert(ms@.take(n as int) =~= ms@);
    }
    LayoutPlan { entries, size: cursor }
}

/// A copy of an identifier's bytes.
pub fn clone_bytes(a: &Vec<u8>) -> (r: Vec<u8>)
    ensures
        r@ == a@,
{
    let mut r: Vec<u8> = Vec::new();
    let mut i: usize = 0;
    while i < a.len()
        invariant
            i <= a@.len(),
            r@ == a@.take(i as int),
        decreases a@.len() - i,
    {
        r.push(a[i]);
        i = i + 1;
        proof {
            assert(a@.take(i as int) =~= a@.take(i - 1).push(a@[i - 1]));
        }
    }
    proof {
        assert(a@.take(a@.len() as int) =~= a@);
    }
    r
}

/// The concatenation of two byte strings.
pub fn concat_bytes(a: &Vec<u8>, b: &Vec<u8>) -> (r: Vec<u8>)
    ensures
        r@ == a@ + b@,
{
    let mut r = clone_bytes(a);
    let mut i: usize = 0;
    while i < b.len()
        invariant
            i <= b@.len(),
            r@ == a@ + b@.take(i as int),
        decreases b@.len() - i,
    {
        r.push(b[i]);
        i = i + 1;
        proof {
            assert(a@ + b@.take(i as int) =~= (a@ + b@.take(i - 1)).push(b@[i - 1]));
        }
    }
    proof {
        assert(b@.take(b@.len() as int) =~= b@);
    }
    r
}

/// `test_align_` as bytes.
pub open spec fn align_prefix() -> Seq<u8> {
    seq![
        0x74u8,
        0x65u8,
        0x73u8,
        0x74u8,
        0x5fu8,
        0x61u8,
        0x6cu8,
        0x69u8,
        0x67u8,
        0x6eu8,
        0x5fu8,
    ]
}

/// One planned offset self-test: the named field of the top struct and the
/// byte offset it must be found at.
pub struct AlignmentTest {
    pub test_ident: Vec<u8>,
    pub struct_ident: Vec<u8>,
    pub field_ident: Vec<u8>,
    pub field_offset: u64,
}

/// The offset self-tests of a plan's top level: one per named field,
/// asserting layout fidelity of that field.
pub fn alignment_tests(
    plan: &LayoutPlan,
    mod_ident: &Vec<u8>,
    struct_ident: &Vec<u8>,
) -> (ts: Vec<AlignmentTest>)
    ensures
        ts@.len() == plan.entries@.len(),
        forall|i: int|
            0 <= i < ts@.len() ==> (#[trigger] ts@[i]).field_ident@
                == plan.entries@[i].field.ident@ && ts@[i].field_offset
                == plan.entries@[i].field.offset && ts@[i].struct_ident@ == struct_ident@
                && ts@[i].test_ident@ == align_prefix() + mod_ident@ + seq![0x5fu8]
                + plan.entries@[i].field.ident@,
{
    let mut ts: Vec<AlignmentTest> = Vec::new();
    let mut i: usize = 0;
    // "test_align_" and "_", as ASCII bytes.
    let prefix: Vec<u8> = vec![116u8, 101, 115, 116, 95, 97, 108, 105, 103, 110, 95];
    let underscore: Vec<u8> = vec![95u8];
    proof {
        assert(prefix@ =~= align_prefix());
        assert(underscore@ =~= seq![0x5fu8]);
    }
    while i < plan.entries.len()
        invariant
            i <= plan.entries@.len(),
            ts@.len() == i,
            prefix@ == align_prefix(),
            underscore@ == seq![0x5fu8],
            forall|k: int|
                0 <= k < i ==> (#[trigger] ts@[k]).field_ident@
                    == plan.entries@[k].field.ident@ && ts@[k].field_offset
                    == plan.entries@[k].field.offset && ts@[k].struct_ident@ == struct_ident@
                    && ts@[k].test_ident@ == align_prefix() + mod_ident@ + seq![0x5fu8]
                    + plan.entries@[k].field.ident@,
        decreases plan.entries@.len() - i,
    {
        let e = &plan.entries[i];
        let name_head = concat_bytes(&prefix, mod_ident);
        let name_mid = concat_bytes(&name_head, &underscore);
        let test_ident = concat_bytes(&name_mid, &e.field.ident);
        ts.push(
            AlignmentTest {
                test_ident,
                struct_ident: clone_bytes(struct_ident),
                field_ident: clone_bytes(&e.field.ident),
                field_offset: e.field.offset,
            },
        );
        i = i + 1;
    }
    ts
}

} // verus!
