//! The emitter: derives, from a validated block, the complete plan of the
//! code the generator stands for — per-register reader and updater facades
//! with one accessor per field, per-field variant enums, and the naming of
//! every emitted item.
//!
//! The plan is the semantic content of the emission: which accessors exist
//! (getters for everything readable, setters for everything writable,
//! clearers for set-to-clear fields), with which shifts, masks, element
//! widths and result types, under which names.  Every part of it is
//! specified as a function of the block's data model.

use vstd::prelude::*;
use crate::ast::{
    IoRegs, Register, RegisterField, RegisterOrGroup, RegisterType, RegisterVariant,
};
use crate::bits::low_mask;
use crate::casing::{snake_of, camel_of, snake_bytes, camel_bytes};
use crate::layout::{
    LayoutPlan, plan_members, plan_matches, clone_bytes, concat_bytes, AlignmentTest,
    alignment_tests,
};
use crate::validate::{
    register_wf, field_wf, members_wf, members_monotonic, block_wf, lemma_members_wf_index,
};
use crate::ast::members_sizes_fit;

verus! {

/// The primitive type an accessor works in: the smallest unsigned type
/// that holds the field element, or `bool` for a single bit.
#[derive(Clone, Copy, PartialEq, Eq, Structural, Debug)]
pub enum FieldPrim {
    Bool,
    U8,
    U16,
    U32,
    U64,
}

/// The smallest primitive for an element of `bits` bits.
pub open spec fn prim_of(bits: u64) -> FieldPrim {
    if bits == 1 {
        FieldPrim::Bool
    } else if bits <= 8 {
        FieldPrim::U8
    } else if bits <= 16 {
        FieldPrim::U16
    } else if bits <= 32 {
        FieldPrim::U32
    } else {
        FieldPrim::U64
    }
}

/// The primitive type of a field's accessors.  The element width must be
/// in range; the validator guarantees it.
pub fn register_field_primitive(f: &RegisterField) -> (r: FieldPrim)
    requires
        !f.offset.is_inverted(),
        f.offset.high_bit() < 64,
        f.count_value_spec() >= 1,
    ensures
        r == prim_of(f.bit_size_single_spec()),
{
    let bits = f.bit_size_single();
    if bits == 1 {
        FieldPrim::Bool
    } else if bits <= 8 {
        FieldPrim::U8
    } else if bits <= 16 {
        FieldPrim::U16
    } else if bits <= 32 {
        FieldPrim::U32
    } else {
        FieldPrim::U64
    }
}

/// How a getter presents the field: as a boolean, as an integer, or as the
/// field's variant enum — totally (every primitive is a variant) or with a
/// checked conversion.
#[derive(Clone, Copy, PartialEq, Eq, Structural, Debug)]
pub enum GetterKind {
    Bool,
    Int(FieldPrim),
    EnumTotal,
    EnumChecked,
}

/// What a setter accepts.
#[derive(Clone, Copy, PartialEq, Eq, Structural, Debug)]
pub enum SetterTakes {
    Bool,
    Prim(FieldPrim),
    Enum,
}

/// One reader accessor.  `enum_ident` names the variant enum a
/// variant-typed getter returns.
pub struct GetterPlan {
    pub name: Vec<u8>,
    pub shift: u64,
    pub elem_bits: u64,
    pub count: Option<u64>,
    pub kind: GetterKind,
    pub enum_ident: Option<Vec<u8>>,
}

/// The mathematical image of a getter plan.
pub ghost struct GetterSpec {
    pub name: Seq<u8>,
    pub shift: u64,
    pub elem_bits: u64,
    pub count: Option<u64>,
    pub kind: GetterKind,
    pub enum_ident: Option<Seq<u8>>,
}

impl View for GetterPlan {
    type V = GetterSpec;

    open spec fn view(&self) -> GetterSpec {
        GetterSpec {
            name: self.name@,
            shift: self.shift,
            elem_bits: self.elem_bits,
            count: self.count,
            kind: self.kind,
            enum_ident: match self.enum_ident {
                Some(e) => Some(e@),
                None => None,
            },
        }
    }
}

/// One updater setter.  `enum_ident` names the variant enum an enum-typed
/// setter accepts.
pub struct SetterPlan {
    pub name: Vec<u8>,
    pub shift: u64,
    pub elem_bits: u64,
    pub mask: u64,
    pub count: Option<u64>,
    pub takes: SetterTakes,
    pub enum_ident: Option<Vec<u8>>,
}

/// The mathematical image of a setter plan.
pub ghost struct SetterSpec {
    pub name: Seq<u8>,
    pub shift: u64,
    pub elem_bits: u64,
    pub mask: u64,
    pub count: Option<u64>,
    pub takes: SetterTakes,
    pub enum_ident: Option<Seq<u8>>,
}

impl View for SetterPlan {
    type V = SetterSpec;

    open spec fn view(&self) -> SetterSpec {
        SetterSpec {
            name: self.name@,
            shift: self.shift,
            elem_bits: self.elem_bits,
            mask: self.mask,
            count: self.count,
            takes: self.takes,
            enum_ident: match self.enum_ident {
                Some(e) => Some(e@),
                None => None,
            },
        }
    }
}

/// One updater clearer, for a set-to-clear field.
pub struct ClearPlan {
    pub name: Vec<u8>,
    pub shift: u64,
    pub elem_bits: u64,
    pub mask: u64,
    pub count: Option<u64>,
}

/// The mathematical image of a clearer plan.
pub ghost struct ClearSpec {
    pub name: Seq<u8>,
    pub shift: u64,
    pub elem_bits: u64,
    pub mask: u64,
    pub count: Option<u64>,
}

impl View for ClearPlan {
    type V = ClearSpec;

    open spec fn view(&self) -> ClearSpec {
        ClearSpec {
            name: self.name@,
            shift: self.shift,
            elem_bits: self.elem_bits,
            mask: self.mask,
            count: self.count,
        }
    }
}

/// One variant of an emitted enum.
pub struct EnumVariantPlan {
    pub value: u64,
    pub name: Vec<u8>,
}

/// The mathematical image of a variant.
pub ghost struct EnumVariantSpec {
    pub value: u64,
    pub name: Seq<u8>,
}

impl View for EnumVariantPlan {
    type V = EnumVariantSpec;

    open spec fn view(&self) -> EnumVariantSpec {
        EnumVariantSpec { value: self.value, name: self.name@ }
    }
}

/// One emitted variant enum: its CamelCase name, its primitive
/// representation (the register's storage width), whether the primitive to
/// variant conversion is total, and its variants.
pub struct EnumPlan {
    pub ident: Vec<u8>,
    pub prim: RegisterType,
    pub total: bool,
    pub variants: Vec<EnumVariantPlan>,
}

/// The mathematical image of an enum plan.
pub ghost struct EnumSpec {
    pub ident: Seq<u8>,
    pub prim: RegisterType,
    pub total: bool,
    pub variants: Seq<EnumVariantSpec>,
}

impl View for EnumPlan {
    type V = EnumSpec;

    open spec fn view(&self) -> EnumSpec {
        EnumSpec {
            ident: self.ident@,
            prim: self.prim,
            total: self.total,
            variants: variant_views(self.variants@),
        }
    }
}

/// The images of a variant list.
pub open spec fn variant_views(s: Seq<EnumVariantPlan>) -> Seq<EnumVariantSpec>
    decreases s,
{
    if s.len() == 0 {
        Seq::empty()
    } else {
        variant_views(s.drop_last()).push(s.last()@)
    }
}

/// The images of a getter list.
pub open spec fn getter_views(s: Seq<GetterPlan>) -> Seq<GetterSpec>
    decreases s,
{
    if s.len() == 0 {
        Seq::empty()
    } else {
        getter_views(s.drop_last()).push(s.last()@)
    }
}

/// The images of a setter list.
pub open spec fn setter_views(s: Seq<SetterPlan>) -> Seq<SetterSpec>
    decreases s,
{
    if s.len() == 0 {
        Seq::empty()
    } else {
        setter_views(s.drop_last()).push(s.last()@)
    }
}

/// The images of a clearer list.
pub open spec fn clear_views(s: Seq<ClearPlan>) -> Seq<ClearSpec>
    decreases s,
{
    if s.len() == 0 {
        Seq::empty()
    } else {
        clear_views(s.drop_last()).push(s.last()@)
    }
}

/// The images of an enum list.
pub open spec fn enum_views(s: Seq<EnumPlan>) -> Seq<EnumSpec>
    decreases s,
{
    if s.len() == 0 {
        Seq::empty()
    } else {
        enum_views(s.drop_last()).push(s.last()@)
    }
}

/// `set_` as bytes.
pub open spec fn set_prefix() -> Seq<u8> {
    seq![0x73u8, 0x65u8, 0x74u8, 0x5fu8]
}

/// `clear_` as bytes.
pub open spec fn clear_prefix() -> Seq<u8> {
    seq![0x63u8, 0x6cu8, 0x65u8, 0x61u8, 0x72u8, 0x5fu8]
}

/// `Update` as bytes.
pub open spec fn update_suffix() -> Seq<u8> {
    seq![0x55u8, 0x70u8, 0x64u8, 0x61u8, 0x74u8, 0x65u8]
}

/// `Get` as bytes.
pub open spec fn get_suffix() -> Seq<u8> {
    seq![0x47u8, 0x65u8, 0x74u8]
}

/// The variants of a field cover the element's whole domain.
pub open spec fn variants_total(f: RegisterField) -> bool {
    match f.variants {
        Some(vs) => vs@.len() == low_mask(f.bit_size_single_spec()) + 1,
        None => false,
    }
}

/// The getter a field gets, if any.  `force_unchecked` is the build-time
/// escape hatch that selects the total conversion even for non-exhaustive
/// variants.
pub open spec fn getter_kind_of(f: RegisterField, force_unchecked: bool) -> GetterKind {
    match f.variants {
        Some(_vs) => if force_unchecked || variants_total(f) {
            GetterKind::EnumTotal
        } else {
            GetterKind::EnumChecked
        },
        None => if f.bit_size_single_spec() == 1 {
            GetterKind::Bool
        } else {
            GetterKind::Int(prim_of(f.bit_size_single_spec()))
        },
    }
}

/// The enum name a field's variant accessors use, where it has variants.
pub open spec fn enum_ident_of(f: RegisterField) -> Option<Seq<u8>> {
    match f.variants {
        Some(_vs) => Some(camel_of(f.ident@)),
        None => None,
    }
}

/// The getter of one field.
pub open spec fn getter_of(f: RegisterField, force_unchecked: bool) -> GetterSpec {
    GetterSpec {
        name: snake_of(f.ident@),
        shift: f.offset.low_bit(),
        elem_bits: f.bit_size_single_spec(),
        count: f.count,
        kind: getter_kind_of(f, force_unchecked),
        enum_ident: enum_ident_of(f),
    }
}

/// The getters of a field list: one per field that is not write-only, in
/// declaration order.
pub open spec fn getters_of(fields: Seq<RegisterField>, force_unchecked: bool) -> Seq<
    GetterSpec,
>
    decreases fields,
{
    if fields.len() == 0 {
        Seq::empty()
    } else {
        let rest = getters_of(fields.drop_last(), force_unchecked);
        if fields.last().is_write_only_spec() {
            rest
        } else {
            rest.push(getter_of(fields.last(), force_unchecked))
        }
    }
}

/// What the setter of a field accepts.
pub open spec fn setter_takes_of(f: RegisterField) -> SetterTakes {
    match f.variants {
        Some(_vs) => SetterTakes::Enum,
        None => if f.bit_size_single_spec() == 1 {
            SetterTakes::Bool
        } else {
            SetterTakes::Prim(prim_of(f.bit_size_single_spec()))
        },
    }
}

/// The setter of one field.
pub open spec fn setter_of(f: RegisterField) -> SetterSpec {
    SetterSpec {
        name: set_prefix() + snake_of(f.ident@),
        shift: f.offset.low_bit(),
        elem_bits: f.bit_size_single_spec(),
        mask: low_mask(f.bit_size_single_spec()),
        count: f.count,
        takes: setter_takes_of(f),
        enum_ident: enum_ident_of(f),
    }
}

/// The setters of a field list: one per field that is neither read-only
/// nor set-to-clear, in declaration order.
pub open spec fn setters_of(fields: Seq<RegisterField>) -> Seq<SetterSpec>
    decreases fields,
{
    if fields.len() == 0 {
        Seq::empty()
    } else {
        let rest = setters_of(fields.drop_last());
        if fields.last().is_read_only_spec() || fields.last().is_set_to_clear_spec() {
            rest
        } else {
            rest.push(setter_of(fields.last()))
        }
    }
}

/// The clearer of one set-to-clear field.
pub open spec fn clear_of(f: RegisterField) -> ClearSpec {
    ClearSpec {
        name: clear_prefix() + snake_of(f.ident@),
        shift: f.offset.low_bit(),
        elem_bits: f.bit_size_single_spec(),
        mask: low_mask(f.bit_size_single_spec()),
        count: f.count,
    }
}

/// The clearers of a field list: one per set-to-clear field that is not
/// read-only, in declaration order.
pub open spec fn clearers_of(fields: Seq<RegisterField>) -> Seq<ClearSpec>
    decreases fields,
{
    if fields.len() == 0 {
        Seq::empty()
    } else {
        let rest = clearers_of(fields.drop_last());
        if fields.last().is_set_to_clear_spec() && !fields.last().is_read_only_spec() {
            rest.push(clear_of(fields.last()))
        } else {
            rest
        }
    }
}

/// The register-level clear mask: the union of the full masks of all
/// set-to-clear fields, at their shifts.
pub open spec fn clear_mask_of(fields: Seq<RegisterField>) -> u64
    decreases fields,
{
    if fields.len() == 0 {
        0u64
    } else {
        let rest = clear_mask_of(fields.drop_last());
        if fields.last().is_set_to_clear_spec() {
            rest | (low_mask(fields.last().bit_size_full_spec())
                << fields.last().offset.low_bit())
        } else {
            rest
        }
    }
}

/// The variant images of a declared variant list.
pub open spec fn enum_variants_of(vs: Seq<RegisterVariant>) -> Seq<EnumVariantSpec>
    decreases vs,
{
    if vs.len() == 0 {
        Seq::empty()
    } else {
        enum_variants_of(vs.drop_last()).push(
            EnumVariantSpec { value: vs.last().value, name: vs.last().ident@ },
        )
    }
}

/// The enum of one field with variants.
pub open spec fn enum_of(f: RegisterField, ty: RegisterType, force_unchecked: bool)
    -> EnumSpec {
    EnumSpec {
        ident: camel_of(f.ident@),
        prim: ty,
        total: force_unchecked || variants_total(f),
        variants: match f.variants {
            Some(vs) => enum_variants_of(vs@),
            None => Seq::empty(),
        },
    }
}

/// The enums of a field list: one per field with declared variants, in
/// declaration order.
pub open spec fn enums_of(
    fields: Seq<RegisterField>,
    ty: RegisterType,
    force_unchecked: bool,
) -> Seq<EnumSpec>
    decreases fields,
{
    if fields.len() == 0 {
        Seq::empty()
    } else {
        let rest = enums_of(fields.drop_last(), ty, force_unchecked);
        if fields.last().variants is Some {
            rest.push(enum_of(fields.last(), ty, force_unchecked))
        } else {
            rest
        }
    }
}

/// The three type names emitted for one register: the storage type, its
/// updater, its reader.
pub struct RegisterStructIdents {
    pub base: Vec<u8>,
    pub update: Vec<u8>,
    pub get: Vec<u8>,
}

/// The full emission plan of one register.
pub struct RegisterPlan {
    pub idents: RegisterStructIdents,
    pub mod_ident: Vec<u8>,
    pub ty: RegisterType,
    pub offset: u64,
    pub count: Option<u64>,
    pub getters: Vec<GetterPlan>,
    pub setters: Vec<SetterPlan>,
    pub clearers: Vec<ClearPlan>,
    pub enums: Vec<EnumPlan>,
    pub clear_mask: u64,
    pub write_only: bool,
}

/// The plan is exactly what the register calls for.
pub open spec fn register_plan_matches(
    p: RegisterPlan,
    r: Register,
    force_unchecked: bool,
) -> bool {
    &&& p.idents.base@ == camel_of(r.ident@)
    &&& p.idents.update@ == camel_of(r.ident@) + update_suffix()
    &&& p.idents.get@ == camel_of(r.ident@) + get_suffix()
    &&& p.mod_ident@ == snake_of(r.ident@)
    &&& p.ty == r.ty
    &&& p.offset == r.offset
    &&& p.count == r.count
    &&& getter_views(p.getters@) == getters_of(r.fields@, force_unchecked)
    &&& setter_views(p.setters@) == setters_of(r.fields@)
    &&& clear_views(p.clearers@) == clearers_of(r.fields@)
    &&& enum_views(p.enums@) == enums_of(r.fields@, r.ty, force_unchecked)
    &&& p.clear_mask == clear_mask_of(r.fields@)
    &&& p.write_only == r.is_write_only_spec()
}

/// The emitted enum of one field, where the field declares variants.
pub fn build_register_field_enum(
    f: &RegisterField,
    ty: RegisterType,
    force_unchecked: bool,
) -> (r: Option<EnumPlan>)
    requires
        !f.offset.is_inverted(),
        f.offset.high_bit() < 64,
        f.count_value_spec() >= 1,
    ensures
        match r {
            Some(p) => f.variants is Some && p@ == enum_of(*f, ty, force_unchecked),
            None => f.variants is None,
        },
{
    let vs = match &f.variants {
        Some(vs) => vs,
        None => {
            return None;
        },
    };
    let bits = f.bit_size_single();
    let max = crate::bits::mask_of(bits);
    let nvars = vs.len();
    let total = force_unchecked || (max < u64::MAX && nvars as u64 == max + 1);
    let mut variants: Vec<EnumVariantPlan> = Vec::new();
    let mut i: usize = 0;
    while i < vs.len()
        invariant
            i <= vs@.len(),
            variant_views(variants@) == enum_variants_of(vs@.take(i as int)),
        decreases vs@.len() - i,
    {
        let ghost before = variants@;
        variants.push(
            EnumVariantPlan { value: vs[i].value, name: clone_bytes(&vs[i].ident) },
        );
        i = i + 1;
        proof {
            assert(variants@.drop_last() =~= before);
            assert(vs@.take(i as int).drop_last() =~= vs@.take(i - 1));
            assert(vs@.take(i as int).last() == vs@[i - 1]);
        }
    }
    proof {
        assert(vs@.take(vs@.len() as int) =~= vs@);
        if max == u64::MAX {
            assert(vs@.len() < low_mask(bits) + 1);
        }
    }
    Some(EnumPlan { ident: camel_bytes(&f.ident), prim: ty, total, variants })
}

/// The emission plan of one register: its type names and every accessor.
pub fn build_register_struct(r: &Register, force_unchecked: bool) -> (res: (
    RegisterStructIdents,
    RegisterPlan,
))
    requires
        register_wf(*r),
    ensures
        register_plan_matches(res.1, *r, force_unchecked),
        res.0.base@ == camel_of(r.ident@),
        res.0.update@ == camel_of(r.ident@) + update_suffix(),
        res.0.get@ == camel_of(r.ident@) + get_suffix(),
{
    let base = camel_bytes(&r.ident);
    // "Update" and "Get", as ASCII bytes.
    let update_tail: Vec<u8> = vec![0x55u8, 0x70, 0x64, 0x61, 0x74, 0x65];
    let get_tail: Vec<u8> = vec![0x47u8, 0x65, 0x74];
    proof {
        assert(update_tail@ =~= update_suffix());
        assert(get_tail@ =~= get_suffix());
    }
    let update = concat_bytes(&base, &update_tail);
    let get = concat_bytes(&base, &get_tail);
    let idents = RegisterStructIdents { base, update, get };
    let idents2 = RegisterStructIdents {
        base: clone_bytes(&idents.base),
        update: clone_bytes(&idents.update),
        get: clone_bytes(&idents.get),
    };
    let mod_ident = snake_bytes(&r.ident);
    // "set_" and "clear_", as ASCII bytes.
    let set_pre: Vec<u8> = vec![0x73u8, 0x65, 0x74, 0x5f];
    let clear_pre: Vec<u8> = vec![0x63u8, 0x6c, 0x65, 0x61, 0x72, 0x5f];
    proof {
        assert(set_pre@ =~= set_prefix());
        assert(clear_pre@ =~= clear_prefix());
    }
    let mut getters: Vec<GetterPlan> = Vec::new();
    let mut setters: Vec<SetterPlan> = Vec::new();
    let mut clearers: Vec<ClearPlan> = Vec::new();
    let mut enums: Vec<EnumPlan> = Vec::new();
    let mut clear_mask: u64 = 0;
    let mut i: usize = 0;
    while i < r.fields.len()
        invariant
            i <= r.fields@.len(),
            register_wf(*r),
            set_pre@ == set_prefix(),
            clear_pre@ == clear_prefix(),
            getter_views(getters@) == getters_of(r.fields@.take(i as int), force_unchecked),
            setter_views(setters@) == setters_of(r.fields@.take(i as int)),
            clear_views(clearers@) == clearers_of(r.fields@.take(i as int)),
            enum_views(enums@) == enums_of(r.fields@.take(i as int), r.ty, force_unchecked),
            clear_mask == clear_mask_of(r.fields@.take(i as int)),
        decreases r.fields@.len() - i,
    {
        proof {
            assert(field_wf(r.fields@[i as int], r.ty.bit_width()));
        }
        let f = &r.fields[i];
        let name = snake_bytes(&f.ident);
        let shift = f.offset.low();
        let bits = f.bit_size_single();
        let mask = crate::bits::mask_of(bits);
        let enum_ident: Option<Vec<u8>> = match &f.variants {
            Some(_vs) => Some(camel_bytes(&f.ident)),
            None => None,
        };
        let ghost g_old = getters@;
        let ghost s_old = setters@;
        let ghost c_old = clearers@;
        let ghost e_old = enums@;
        if !f.is_write_only() {
            let kind = match &f.variants {
                Some(vs) => {
                    let max = mask;
                    let nvars = vs.len();
                    if force_unchecked || (max < u64::MAX && nvars as u64 == max + 1) {
                        GetterKind::EnumTotal
                    } else {
                        proof {
                            if max == u64::MAX {
                                assert(vs@.len() < low_mask(bits) + 1);
                            }
                        }
                        GetterKind::EnumChecked
                    }
                },
                None => {
                    if bits == 1 {
                        GetterKind::Bool
                    } else {
                        GetterKind::Int(register_field_primitive(f))
                    }
                },
            };
            let g_enum_ident: Option<Vec<u8>> = match &enum_ident {
                Some(e) => Some(clone_bytes(e)),
                None => None,
            };
            getters.push(
                GetterPlan {
                    name: clone_bytes(&name),
                    shift,
                    elem_bits: bits,
                    count: f.count,
                    kind,
                    enum_ident: g_enum_ident,
                },
            );
            proof {
                assert(getters@.drop_last() =~= g_old);
            }
        }
        if !f.is_read_only() {
            if f.is_set_to_clear() {
                clearers.push(
                    ClearPlan {
                        name: concat_bytes(&clear_pre, &name),
                        shift,
                        elem_bits: bits,
                        mask,
                        count: f.count,
                    },
                );
                proof {
                    assert(clearers@.drop_last() =~= c_old);
                }
            } else {
                let takes = match &f.variants {
                    Some(_vs) => SetterTakes::Enum,
                    None => {
                        if bits == 1 {
                            SetterTakes::Bool
                        } else {
                            SetterTakes::Prim(register_field_primitive(f))
                        }
                    },
                };
                let s_enum_ident: Option<Vec<u8>> = match &enum_ident {
                    Some(e) => Some(clone_bytes(e)),
                    None => None,
                };
                setters.push(
                    SetterPlan {
                        name: concat_bytes(&set_pre, &name),
                        shift,
                        elem_bits: bits,
                        mask,
                        count: f.count,
                        takes,
                        enum_ident: s_enum_ident,
                    },
                );
                proof {
                    assert(setters@.drop_last() =~= s_old);
                }
            }
        }
        if f.is_set_to_clear() {
            let full_mask = crate::bits::mask_of(f.bit_size_full());
            clear_mask = clear_mask | (full_mask << shift);
        }
        match build_register_field_enum(f, r.ty, force_unchecked) {
            Some(e) => {
                enums.push(e);
                proof {
                    assert(enums@.drop_last() =~= e_old);
                }
            },
            None => {},
        }
        i = i + 1;
        proof {
            assert(r.fields@.take(i as int).drop_last() =~= r.fields@.take(i - 1));
            assert(r.fields@.take(i as int).last() == r.fields@[i - 1]);
        }
    }
    proof {
        assert(r.fields@.take(r.fields@.len() as int) =~= r.fields@);
    }
    let write_only = r.is_write_only();
    let plan = RegisterPlan {
        idents: idents2,
        mod_ident,
        ty: r.ty,
        offset: r.offset,
        count: r.count,
        getters,
        setters,
        clearers,
        enums,
        clear_mask,
        write_only,
    };
    (idents, plan)
}

/// One member's place in the emitted module: a register plan, or a nested
/// module with its own union plan.
pub enum UnionItem {
    Reg(RegisterPlan),
    Group(UnionPlan),
}

/// The emission plan of one module level: the module and struct names, the
/// planned layout, one item per member, and the offset self-tests when
/// they were asked for.
pub struct UnionPlan {
    pub mod_ident: Vec<u8>,
    pub union_ident: Vec<u8>,
    pub layout: LayoutPlan,
    pub items: Vec<UnionItem>,
    pub alignment: Vec<AlignmentTest>,
}

/// The item describes the member.
pub open spec fn union_item_matches(
    it: UnionItem,
    m: RegisterOrGroup,
    force_unchecked: bool,
) -> bool
    decreases m, 1int,
{
    match m {
        RegisterOrGroup::Single(r) => it matches UnionItem::Reg(p) && register_plan_matches(
            p,
            r,
            force_unchecked,
        ),
        RegisterOrGroup::Group(g) => it matches UnionItem::Group(u) && union_plan_matches(
            u,
            g.ident@,
            g.members@,
            force_unchecked,
        ),
    }
}

/// One item per member, each describing its member.
pub open spec fn union_items_match(
    items: Seq<UnionItem>,
    ms: Seq<RegisterOrGroup>,
    force_unchecked: bool,
) -> bool
    decreases ms, 0int,
{
    if items.len() != ms.len() {
        false
    } else if ms.len() == 0 {
        true
    } else {
        union_items_match(items.drop_last(), ms.drop_last(), force_unchecked)
            && union_item_matches(items.last(), ms.last(), force_unchecked)
    }
}

/// The plan is exactly what the named member list calls for: names cased
/// from the given identifier, a faithful layout, and faithful items.
pub open spec fn union_plan_matches(
    u: UnionPlan,
    name: Seq<u8>,
    ms: Seq<RegisterOrGroup>,
    force_unchecked: bool,
) -> bool
    decreases ms, 2int,
{
    &&& u.mod_ident@ == snake_of(name)
    &&& u.union_ident@ == camel_of(name)
    &&& plan_matches(u.layout, ms)
    &&& union_items_match(u.items@, ms, force_unchecked)
}

/// Build the emission plan of one module level.
#[verifier::rlimit(60)]
fn build_union_level(
    name: &Vec<u8>,
    ms: &Vec<RegisterOrGroup>,
    force_unchecked: bool,
    with_alignment: bool,
) -> (u: UnionPlan)
    requires
        members_wf(ms@),
        members_monotonic(ms@),
        members_sizes_fit(ms@),
    ensures
        union_plan_matches(u, name@, ms@, force_unchecked),
        !with_alignment ==> u.alignment@.len() == 0,
        with_alignment ==> u.alignment@.len() == u.layout.entries@.len() && (forall|i: int|
            0 <= i < u.alignment@.len() ==> (#[trigger] u.alignment@[i]).field_ident@
                == u.layout.entries@[i].field.ident@ && u.alignment@[i].field_offset
                == u.layout.entries@[i].field.offset && u.alignment@[i].struct_ident@
                == u.union_ident@ && u.alignment@[i].test_ident@
                == crate::layout::align_prefix() + u.mod_ident@ + seq![0x5fu8]
                + u.layout.entries@[i].field.ident@),
    decreases ms@,
{
    let mod_ident = snake_bytes(name);
    let union_ident = camel_bytes(name);
    let layout = plan_members(ms);
    let mut items: Vec<UnionItem> = Vec::new();
    let mut i: usize = 0;
    while i < ms.len()
        invariant
            i <= ms@.len(),
            members_wf(ms@),
            members_monotonic(ms@),
            members_sizes_fit(ms@),
            union_items_match(items@, ms@.take(i as int), force_unchecked),
        decreases ms@.len() - i,
    {
        proof {
            lemma_members_wf_index(ms@, i as int);
        }
        let ghost before = items@;
        match &ms[i] {
            RegisterOrGroup::Single(r) => {
                let (_idents, plan) = build_register_struct(r, force_unchecked);
                items.push(UnionItem::Reg(plan));
                proof {
                    assert(ms@[i as int] == RegisterOrGroup::Single(*r));
                    assert(union_item_matches(items@.last(), ms@[i as int], force_unchecked));
                }
            },
            RegisterOrGroup::Group(g) => {
                let inner = build_union_level(
                    &g.ident,
                    &g.members,
                    force_unchecked,
                    with_alignment,
                );
                items.push(UnionItem::Group(inner));
                proof {
                    assert(ms@[i as int] == RegisterOrGroup::Group(*g));
                    assert(union_item_matches(items@.last(), ms@[i as int], force_unchecked));
                }
            },
        }
        i = i + 1;
        proof {
            assert(items@.drop_last() =~= before);
            assert(ms@.take(i as int).drop_last() =~= ms@.take(i - 1));
            assert(ms@.take(i as int).last() == ms@[i - 1]);
            assert(union_items_match(items@, ms@.take(i as int), force_unchecked));
        }
    }
    proof {
        assert(ms@.take(ms@.len() as int) =~= ms@);
    }
    let alignment = if with_alignment {
        alignment_tests(&layout, &mod_ident, &union_ident)
    } else {
        Vec::new()
    };
    UnionPlan { mod_ident, union_ident, layout, items, alignment }
}

/// Build the emission plan of a whole validated block.
pub fn build_union(b: &IoRegs, force_unchecked: bool, with_alignment: bool) -> (u: UnionPlan)
    requires
        block_wf(*b),
    ensures
        union_plan_matches(u, b.name@, b.registers@, force_unchecked),
        !with_alignment ==> u.alignment@.len() == 0,
        with_alignment ==> u.alignment@.len() == u.layout.entries@.len() && (forall|i: int|
            0 <= i < u.alignment@.len() ==> (#[trigger] u.alignment@[i]).field_ident@
                == u.layout.entries@[i].field.ident@ && u.alignment@[i].field_offset
                == u.layout.entries@[i].field.offset && u.alignment@[i].struct_ident@
                == u.union_ident@ && u.alignment@[i].test_ident@
                == crate::layout::align_prefix() + u.mod_ident@ + seq![0x5fu8]
                + u.layout.entries@[i].field.ident@),
{
    build_union_level(&b.name, &b.registers, force_unchecked, with_alignment)
}

} // verus!
