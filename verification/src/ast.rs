//! The data model of a register block: the product of parsing, consumed by
//! the validator, the layout planner and the emitter.
//!
//! Identifiers are kept as ASCII byte strings; every node carries the byte
//! position of its defining token so diagnostics can point at the source.

use vstd::prelude::*;
use crate::bits::low_mask;

verus! {

/// ASCII letter or underscore: what an identifier may start with.
pub open spec fn is_ident_start(b: u8) -> bool {
    (0x41 <= b <= 0x5a) || (0x61 <= b <= 0x7a) || b == 0x5f
}

/// ASCII letter, digit or underscore: what an identifier continues with.
pub open spec fn is_ident_continue(b: u8) -> bool {
    is_ident_start(b) || (0x30 <= b <= 0x39)
}

/// A well-formed identifier: non-empty, ASCII, an identifier head and
/// identifier tail bytes.
pub open spec fn ident_wf(s: Seq<u8>) -> bool {
    s.len() >= 1 && is_ident_start(s[0]) && forall|i: int|
        0 < i < s.len() ==> is_ident_continue(#[trigger] s[i])
}

/// Width of a register: the primitive storage type of its word.
#[derive(Clone, Copy, PartialEq, Eq, Structural, Debug)]
pub enum RegisterType {
    Reg8,
    Reg16,
    Reg32,
    Reg64,
}

impl RegisterType {
    /// Size in bytes of one register of this width.
    pub open spec fn byte_length_spec(self) -> u64 {
        match self {
            RegisterType::Reg8 => 1,
            RegisterType::Reg16 => 2,
            RegisterType::Reg32 => 4,
            RegisterType::Reg64 => 8,
        }
    }

    /// Width in bits of one register of this width.
    pub open spec fn bit_width(self) -> u64 {
        (self.byte_length_spec() * 8) as u64
    }

    pub fn byte_length(self) -> (r: u64)
        ensures
            r == self.byte_length_spec(),
    {
        match self {
            RegisterType::Reg8 => 1,
            RegisterType::Reg16 => 2,
            RegisterType::Reg32 => 4,
            RegisterType::Reg64 => 8,
        }
    }

    pub fn bits(self) -> (r: u64)
        ensures
            r == self.bit_width(),
    {
        self.byte_length() * 8
    }
}

/// The bit position of a field: a single bit, or an inclusive range written
/// `lo..hi`.  An inverted range (`lo > hi`) is representable — the grammar
/// accepts it as a range literal — and is rejected by the validator.
#[derive(Clone, Copy, PartialEq, Eq, Structural, Debug)]
pub enum RegisterFieldOffset {
    Bit(u64),
    BitRange(u64, u64),
}

impl RegisterFieldOffset {
    /// First bit of the field.
    pub open spec fn low_bit(self) -> u64 {
        match self {
            RegisterFieldOffset::Bit(b) => b,
            RegisterFieldOffset::BitRange(lo, _hi) => lo,
        }
    }

    /// Last bit of the field (inclusive).
    pub open spec fn high_bit(self) -> u64 {
        match self {
            RegisterFieldOffset::Bit(b) => b,
            RegisterFieldOffset::BitRange(_lo, hi) => hi,
        }
    }

    /// The range reads backwards (`lo > hi`): accepted by the grammar,
    /// rejected by the validator.
    pub open spec fn is_inverted(self) -> bool {
        self.low_bit() > self.high_bit()
    }

    /// Number of bits the full field spans.  Meaningful only when the range
    /// is not inverted.
    pub open spec fn bit_size_spec(self) -> u64 {
        (self.high_bit() - self.low_bit() + 1) as u64
    }

    pub fn bit_size(self) -> (r: u64)
        requires
            !self.is_inverted(),
            self.high_bit() < u64::MAX,
        ensures
            r == self.bit_size_spec(),
    {
        match self {
            RegisterFieldOffset::Bit(_b) => 1,
            RegisterFieldOffset::BitRange(lo, hi) => hi - lo + 1,
        }
    }

    pub fn low(self) -> (r: u64)
        ensures
            r == self.low_bit(),
    {
        match self {
            RegisterFieldOffset::Bit(b) => b,
            RegisterFieldOffset::BitRange(lo, _hi) => lo,
        }
    }

    pub fn high(self) -> (r: u64)
        ensures
            r == self.high_bit(),
    {
        match self {
            RegisterFieldOffset::Bit(b) => b,
            RegisterFieldOffset::BitRange(_lo, hi) => hi,
        }
    }

    pub fn inverted(self) -> (r: bool)
        ensures
            r == self.is_inverted(),
    {
        self.low() > self.high()
    }
}

/// One property of a field, written after a `:`.
#[derive(Clone, Copy, PartialEq, Eq, Structural, Debug)]
pub enum RegisterPropertyValue {
    SetToClear,
    WriteOnly,
    ReadOnly,
    ReadWrite,
}

impl RegisterPropertyValue {
    /// Whether the property is one of the three access modifiers
    /// (as opposed to the set-to-clear flag).
    pub open spec fn is_access_modifier_spec(self) -> bool {
        match self {
            RegisterPropertyValue::WriteOnly => true,
            RegisterPropertyValue::ReadOnly => true,
            RegisterPropertyValue::ReadWrite => true,
            RegisterPropertyValue::SetToClear => false,
        }
    }

    pub fn is_access_modifier(self) -> (r: bool)
        ensures
            r == self.is_access_modifier_spec(),
    {
        match self {
            RegisterPropertyValue::WriteOnly => true,
            RegisterPropertyValue::ReadOnly => true,
            RegisterPropertyValue::ReadWrite => true,
            RegisterPropertyValue::SetToClear => false,
        }
    }
}

/// A property together with the position of its keyword.
#[derive(Clone, Copy, PartialEq, Eq, Structural, Debug)]
pub struct RegisterProperty {
    pub value: RegisterPropertyValue,
    pub pos: usize,
}

impl RegisterProperty {
    pub fn is_access_modifier(&self) -> (r: bool)
        ensures
            r == self.value.is_access_modifier_spec(),
    {
        self.value.is_access_modifier()
    }
}

/// One declared variant of a field: `value => Ident`.
#[derive(Clone, PartialEq, Eq, Debug)]
pub struct RegisterVariant {
    pub value: u64,
    pub ident: Vec<u8>,
    pub pos: usize,
}

/// A bitfield of a register.
#[derive(Clone, Debug)]
pub struct RegisterField {
    pub ident: Vec<u8>,
    pub offset: RegisterFieldOffset,
    /// Element count for an arrayed field; `None` means a plain field.
    pub count: Option<u64>,
    /// Declared variants; `None` when the field has plain integer semantics.
    pub variants: Option<Vec<RegisterVariant>>,
    pub properties: Vec<RegisterProperty>,
    pub pos: usize,
}

impl RegisterField {
    /// Element count, defaulting to one.
    pub open spec fn count_value_spec(&self) -> u64 {
        match self.count {
            Some(n) => n,
            None => 1,
        }
    }

    pub fn count_value(&self) -> (r: u64)
        ensures
            r == self.count_value_spec(),
    {
        match self.count {
            Some(n) => n,
            None => 1,
        }
    }

    /// Whether some property equals `v`.
    pub open spec fn has_property(&self, v: RegisterPropertyValue) -> bool {
        exists|i: int| 0 <= i < self.properties@.len() && self.properties@[i].value == v
    }

    fn find_property(&self, v: RegisterPropertyValue) -> (r: bool)
        ensures
            r == self.has_property(v),
    {
        let mut i: usize = 0;
        while i < self.properties.len()
            invariant
                i <= self.properties@.len(),
                forall|j: int| 0 <= j < i ==> self.properties@[j].value != v,
            decreases self.properties@.len() - i,
        {
            if self.properties[i].value == v {
                return true;
            }
            i = i + 1;
        }
        false
    }

    pub open spec fn is_write_only_spec(&self) -> bool {
        self.has_property(RegisterPropertyValue::WriteOnly)
    }

    pub open spec fn is_read_only_spec(&self) -> bool {
        self.has_property(RegisterPropertyValue::ReadOnly)
    }

    pub open spec fn is_set_to_clear_spec(&self) -> bool {
        self.has_property(RegisterPropertyValue::SetToClear)
    }

    pub fn is_write_only(&self) -> (r: bool)
        ensures
            r == self.is_write_only_spec(),
    {
        self.find_property(RegisterPropertyValue::WriteOnly)
    }

    pub fn is_read_only(&self) -> (r: bool)
        ensures
            r == self.is_read_only_spec(),
    {
        self.find_property(RegisterPropertyValue::ReadOnly)
    }

    pub fn is_set_to_clear(&self) -> (r: bool)
        ensures
            r == self.is_set_to_clear_spec(),
    {
        self.find_property(RegisterPropertyValue::SetToClear)
    }

    /// Bits spanned by the whole field, elements included.
    pub open spec fn bit_size_full_spec(&self) -> u64 {
        self.offset.bit_size_spec()
    }

    /// Bits of one element of the field.
    pub open spec fn bit_size_single_spec(&self) -> u64 {
        (self.bit_size_full_spec() as int / self.count_value_spec() as int) as u64
    }

    pub fn bit_size_full(&self) -> (r: u64)
        requires
            !self.offset.is_inverted(),
            self.offset.high_bit() < u64::MAX,
        ensures
            r == self.bit_size_full_spec(),
    {
        self.offset.bit_size()
    }

    pub fn bit_size_single(&self) -> (r: u64)
        requires
            !self.offset.is_inverted(),
            self.offset.high_bit() < u64::MAX,
            self.count_value_spec() >= 1,
        ensures
            r == self.bit_size_single_spec(),
    {
        self.bit_size_full() / self.count_value()
    }

    /// Shift of element `index`: the field's low bit plus `index` elements.
    pub open spec fn shift_spec(&self, index: u64) -> int {
        self.offset.low_bit() + self.bit_size_single_spec() * index
    }

    pub fn shift(&self, index: u64) -> (r: u64)
        requires
            !self.offset.is_inverted(),
            self.offset.high_bit() < u64::MAX,
            self.count_value_spec() >= 1,
            self.shift_spec(index) <= u64::MAX,
        ensures
            r == self.shift_spec(index),
    {
        self.offset.low() + self.bit_size_single() * index
    }

    /// The ones-mask of a single element, at bit zero.
    pub open spec fn mask_single_spec(&self) -> u64 {
        low_mask(self.bit_size_single_spec())
    }

    /// Largest value one element can hold.
    pub fn max_value(&self) -> (r: u64)
        requires
            !self.offset.is_inverted(),
            self.offset.high_bit() < u64::MAX,
            self.count_value_spec() >= 1,
        ensures
            r == self.mask_single_spec(),
    {
        crate::bits::mask_of(self.bit_size_single())
    }
}

/// A register: a named word of the given width at a byte offset, with its
/// bitfields, optionally repeated `count` times.
#[derive(Clone, Debug)]
pub struct Register {
    pub ident: Vec<u8>,
    pub offset: u64,
    pub ty: RegisterType,
    pub count: Option<u64>,
    pub fields: Vec<RegisterField>,
    pub pos: usize,
}

impl Register {
    pub open spec fn count_value_spec(&self) -> u64 {
        match self.count {
            Some(n) => n,
            None => 1,
        }
    }

    pub fn count_value(&self) -> (r: u64)
        ensures
            r == self.count_value_spec(),
    {
        match self.count {
            Some(n) => n,
            None => 1,
        }
    }

    /// Total size in bytes: one word per element.
    pub open spec fn byte_length_int(&self) -> int {
        self.ty.byte_length_spec() * self.count_value_spec()
    }

    pub fn byte_length(&self) -> (r: u64)
        requires
            self.byte_length_int() <= u64::MAX,
        ensures
            r == self.byte_length_int(),
    {
        self.ty.byte_length() * self.count_value()
    }

    /// Declared byte offset of the register within its parent.
    pub open spec fn byte_start_spec(&self) -> u64 {
        self.offset
    }

    pub fn byte_start(&self) -> (r: u64)
        ensures
            r == self.byte_start_spec(),
    {
        self.offset
    }

    /// A register is wholly write-only when every field carries the
    /// write-only modifier.
    pub open spec fn is_write_only_spec(&self) -> bool {
        forall|i: int| 0 <= i < self.fields@.len() ==> self.fields@[i].is_write_only_spec()
    }

    pub fn is_write_only(&self) -> (r: bool)
        ensures
            r == self.is_write_only_spec(),
    {
        let mut i: usize = 0;
        while i < self.fields.len()
            invariant
                i <= self.fields@.len(),
                forall|j: int| 0 <= j < i ==> self.fields@[j].is_write_only_spec(),
            decreases self.fields@.len() - i,
        {
            if !self.fields[i].is_write_only() {
                return false;
            }
            i = i + 1;
        }
        true
    }
}

/// A group: a named sequence of members at a byte offset, optionally
/// repeated `count` times.
#[derive(Debug)]
pub struct RegisterGroup {
    pub ident: Vec<u8>,
    pub offset: u64,
    pub count: Option<u64>,
    pub members: Vec<RegisterOrGroup>,
    pub pos: usize,
}

/// A member of a block or group.
#[derive(Debug)]
pub enum RegisterOrGroup {
    Single(Register),
    Group(RegisterGroup),
}

impl RegisterGroup {
    pub open spec fn count_value_spec(&self) -> u64 {
        match self.count {
            Some(n) => n,
            None => 1,
        }
    }

    pub fn count_value(&self) -> (r: u64)
        ensures
            r == self.count_value_spec(),
    {
        match self.count {
            Some(n) => n,
            None => 1,
        }
    }
}

/// Planned size in bytes of one member, as the layout planner lays it out:
/// a register contributes word size times count; a group contributes its
/// planned inner span — the end of its last child, interior padding
/// included — times its count.
pub open spec fn member_size_int(m: RegisterOrGroup) -> int
    decreases m,
{
    match m {
        RegisterOrGroup::Single(r) => r.byte_length_int(),
        RegisterOrGroup::Group(g) => g.count_value_spec() * inner_size_int(g.members@),
    }
}

/// The planned span of a member list: from relative offset zero to the end
/// of the last member, interior padding included.
pub open spec fn inner_size_int(ms: Seq<RegisterOrGroup>) -> int
    decreases ms,
{
    if ms.len() == 0 {
        0
    } else {
        ms.last().byte_start_spec() + member_size_int(ms.last())
    }
}

impl RegisterOrGroup {
    pub open spec fn byte_start_spec(&self) -> u64 {
        match self {
            RegisterOrGroup::Single(r) => r.offset,
            RegisterOrGroup::Group(g) => g.offset,
        }
    }

    pub fn byte_start(&self) -> (r: u64)
        ensures
            r == self.byte_start_spec(),
    {
        match self {
            RegisterOrGroup::Single(r) => r.offset,
            RegisterOrGroup::Group(g) => g.offset,
        }
    }

    pub open spec fn byte_length_int(&self) -> int {
        member_size_int(*self)
    }

    /// The position of the member's defining token.
    pub fn pos(&self) -> usize {
        match self {
            RegisterOrGroup::Single(r) => r.pos,
            RegisterOrGroup::Group(g) => g.pos,
        }
    }

    /// All nested size computations stay within `u64`, so the executable
    /// size arithmetic cannot overflow.
    pub open spec fn sizes_fit(&self) -> bool
        decreases *self,
    {
        match self {
            RegisterOrGroup::Single(r) => r.byte_length_int() <= u64::MAX,
            RegisterOrGroup::Group(g) => {
                members_sizes_fit(g.members@) && g.count_value_spec() * inner_size_int(
                    g.members@,
                ) <= u64::MAX
            },
        }
    }

    pub fn byte_length(&self) -> (r: u64)
        requires
            self.sizes_fit(),
        ensures
            r == self.byte_length_int(),
        decreases *self,
    {
        match self {
            RegisterOrGroup::Single(r) => r.byte_length(),
            RegisterOrGroup::Group(g) => {
                let inner = members_inner_size(&g.members);
                g.count_value() * inner
            },
        }
    }
}

/// All members of a sequence have overflow-free sizes, ends included.
pub open spec fn members_sizes_fit(ms: Seq<RegisterOrGroup>) -> bool
    decreases ms,
{
    if ms.len() == 0 {
        true
    } else {
        ms.last().sizes_fit() && ms.last().byte_start_spec() + member_size_int(ms.last())
            <= u64::MAX && members_sizes_fit(ms.drop_last())
    }
}

/// Member sizes are never negative.
pub proof fn lemma_member_size_nonneg(m: RegisterOrGroup)
    ensures
        member_size_int(m) >= 0,
    decreases m,
{
    match m {
        RegisterOrGroup::Single(_r) => {},
        RegisterOrGroup::Group(g) => {
            lemma_inner_size_nonneg(g.members@);
            let c = g.count_value_spec() as int;
            let i = inner_size_int(g.members@);
            assert(c >= 0 && i >= 0 ==> c * i >= 0) by (nonlinear_arith);
        },
    }
}

pub proof fn lemma_inner_size_nonneg(ms: Seq<RegisterOrGroup>)
    ensures
        inner_size_int(ms) >= 0,
    decreases ms,
{
    if ms.len() > 0 {
        lemma_member_size_nonneg(ms.last());
    }
}

/// The planned span of a member list, executable.
pub fn members_inner_size(ms: &Vec<RegisterOrGroup>) -> (r: u64)
    requires
        members_sizes_fit(ms@),
    ensures
        r == inner_size_int(ms@),
    decreases ms@,
{
    if ms.len() == 0 {
        0
    } else {
        let last = &ms[ms.len() - 1];
        proof {
            assert(ms@.last() == ms@[ms@.len() - 1]);
            lemma_member_size_nonneg(ms@.last());
        }
        last.byte_start() + last.byte_length()
    }
}

/// A prefix of a well-sized member list is well-sized.
pub proof fn lemma_members_sizes_fit_prefix(ms: Seq<RegisterOrGroup>, i: int)
    requires
        members_sizes_fit(ms),
        0 <= i <= ms.len(),
    ensures
        members_sizes_fit(ms.take(i)),
    decreases ms.len() - i,
{
    if i == ms.len() {
        assert(ms.take(i) =~= ms);
    } else {
        lemma_members_sizes_fit_prefix(ms, i + 1);
        let t = ms.take(i + 1);
        assert(t.drop_last() =~= ms.take(i));
    }
}

/// Every member of a well-sized list is itself well-sized, with its end in
/// range.
pub proof fn lemma_members_sizes_fit_index(ms: Seq<RegisterOrGroup>, i: int)
    requires
        members_sizes_fit(ms),
        0 <= i < ms.len(),
    ensures
        ms[i].sizes_fit(),
        ms[i].byte_start_spec() + member_size_int(ms[i]) <= u64::MAX,
{
    lemma_members_sizes_fit_prefix(ms, i + 1);
    let t = ms.take(i + 1);
    assert(t.last() == ms[i]);
}

/// A whole block: the root of one description.
#[derive(Debug)]
pub struct IoRegs {
    pub name: Vec<u8>,
    /// Base byte offset of the block.  Recorded for the consumer; padding up
    /// to it is the linker's business, not the layout planner's.
    pub location: u64,
    pub registers: Vec<RegisterOrGroup>,
    pub pos: usize,
}

/// Every identifier of a field, variants included, is well-formed.
pub open spec fn field_names_wf(f: RegisterField) -> bool {
    ident_wf(f.ident@) && match f.variants {
        Some(vs) => forall|i: int| 0 <= i < vs@.len() ==> ident_wf((#[trigger] vs@[i]).ident@),
        None => true,
    }
}

/// Every identifier of a register and its fields is well-formed.
pub open spec fn register_names_wf(r: Register) -> bool {
    ident_wf(r.ident@) && forall|i: int|
        0 <= i < r.fields@.len() ==> field_names_wf(#[trigger] r.fields@[i])
}

/// Every identifier of a member is well-formed.
pub open spec fn member_names_wf(m: RegisterOrGroup) -> bool
    decreases m,
{
    match m {
        RegisterOrGroup::Single(r) => register_names_wf(r),
        RegisterOrGroup::Group(g) => ident_wf(g.ident@) && members_names_wf(g.members@),
    }
}

/// Every identifier of a member list is well-formed.
pub open spec fn members_names_wf(ms: Seq<RegisterOrGroup>) -> bool
    decreases ms,
{
    if ms.len() == 0 {
        true
    } else {
        members_names_wf(ms.drop_last()) && member_names_wf(ms.last())
    }
}

/// Every identifier of a block is well-formed: what the parser guarantees
/// of everything it builds.
pub open spec fn block_names_wf(b: IoRegs) -> bool {
    ident_wf(b.name@) && members_names_wf(b.registers@)
}

} // verus!
