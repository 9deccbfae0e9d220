//! The text renderer: turns an emission plan into Rust source.
//!
//! Every function here appends to the output and states exactly what it
//! appends: each has a specification twin that builds the same text at the
//! specification level, so the whole rendered module is pinned as a
//! function of the plan — identifiers, shifts, masks, discriminants and
//! the fixed text around them.

use vstd::prelude::*;
use vstd::string::StringSliceAdditionalSpecFns;
use crate::emit::{
    EnumPlan, EnumVariantPlan, GetterKind, GetterPlan, ClearPlan, RegisterPlan, SetterPlan,
    SetterTakes, FieldPrim, UnionItem, UnionPlan,
};
use crate::layout::{AlignmentTest, LayoutEntry, LayoutPlan};
use crate::ast::RegisterType;

verus! {

/// The decimal digits of `v`, most significant first.
pub open spec fn dec_bytes(v: u64) -> Seq<u8>
    decreases v,
{
    if v < 10 {
        seq![(0x30 + v) as u8]
    } else {
        dec_bytes(v / 10).push((0x30 + v % 10) as u8)
    }
}

/// Append one byte slice.
pub fn push_slice(out: &mut Vec<u8>, s: &[u8])
    ensures
        final(out)@ == old(out)@ + s@,
{
    let mut i: usize = 0;
    while i < s.len()
        invariant
            i <= s@.len(),
            out@ == old(out)@ + s@.take(i as int),
        decreases s@.len() - i,
    {
        out.push(s[i]);
        i = i + 1;
        proof {
            assert(old(out)@ + s@.take(i as int) =~= (old(out)@ + s@.take(i - 1)).push(
                s@[i - 1],
            ));
        }
    }
    proof {
        assert(s@.take(s@.len() as int) =~= s@);
    }
}

/// Append a string literal's bytes.
pub fn push_str(out: &mut Vec<u8>, s: &str)
    ensures
        final(out)@ == old(out)@ + s.spec_bytes(),
{
    push_slice(out, s.as_bytes());
}

/// Append an identifier's bytes.
pub fn push_ident(out: &mut Vec<u8>, b: &Vec<u8>)
    ensures
        final(out)@ == old(out)@ + b@,
{
    push_slice(out, b.as_slice());
}

/// Append `v` in decimal.
pub fn push_dec(out: &mut Vec<u8>, v: u64)
    ensures
        final(out)@ == old(out)@ + dec_bytes(v),
    decreases v,
{
    if v >= 10 {
        push_dec(out, v / 10);
    }
    out.push(0x30 + ((v % 10) as u8));
    proof {
        if v >= 10 {
            assert(old(out)@ + dec_bytes(v) =~= (old(out)@ + dec_bytes(v / 10)).push(
                (0x30 + v % 10) as u8,
            ));
        } else {
            assert(old(out)@ + dec_bytes(v) =~= old(out)@.push((0x30 + v) as u8));
        }
    }
}

/// The Rust name of a register's primitive storage type.
pub open spec fn regty_bytes(ty: RegisterType) -> Seq<u8> {
    match ty {
        RegisterType::Reg8 => "u8".spec_bytes(),
        RegisterType::Reg16 => "u16".spec_bytes(),
        RegisterType::Reg32 => "u32".spec_bytes(),
        RegisterType::Reg64 => "u64".spec_bytes(),
    }
}

pub fn push_register_type(out: &mut Vec<u8>, ty: RegisterType)
    ensures
        final(out)@ == old(out)@ + regty_bytes(ty),
{
    match ty {
        RegisterType::Reg8 => push_str(out, "u8"),
        RegisterType::Reg16 => push_str(out, "u16"),
        RegisterType::Reg32 => push_str(out, "u32"),
        RegisterType::Reg64 => push_str(out, "u64"),
    }
}

/// The Rust name of a field primitive.
pub open spec fn prim_bytes(p: FieldPrim) -> Seq<u8> {
    match p {
        FieldPrim::Bool => "bool".spec_bytes(),
        FieldPrim::U8 => "u8".spec_bytes(),
        FieldPrim::U16 => "u16".spec_bytes(),
        FieldPrim::U32 => "u32".spec_bytes(),
        FieldPrim::U64 => "u64".spec_bytes(),
    }
}

pub fn push_field_prim(out: &mut Vec<u8>, p: FieldPrim)
    ensures
        final(out)@ == old(out)@ + prim_bytes(p),
{
    match p {
        FieldPrim::Bool => push_str(out, "bool"),
        FieldPrim::U8 => push_str(out, "u8"),
        FieldPrim::U16 => push_str(out, "u16"),
        FieldPrim::U32 => push_str(out, "u32"),
        FieldPrim::U64 => push_str(out, "u64"),
    }
}

/// An optional identifier; an absent one renders as a wildcard.
pub open spec fn opt_ident_text(p: Seq<u8>, b: Option<Vec<u8>>) -> Seq<u8> {
    match b {
        Some(name) => p + name@,
        None => p + "_".spec_bytes(),
    }
}

fn push_opt_ident(out: &mut Vec<u8>, b: &Option<Vec<u8>>)
    ensures
        final(out)@ == opt_ident_text(old(out)@, *b),
{
    match b {
        Some(name) => push_ident(out, name),
        None => push_str(out, "_"),
    }
}

/// An arrayed accessor takes an element index.
pub open spec fn is_counted(c: Option<u64>) -> bool {
    match c {
        Some(n) => n > 1,
        None => false,
    }
}

/// The text of one enum variant line.
pub open spec fn variant_line_text(p: Seq<u8>, v: EnumVariantPlan) -> Seq<u8> {
    p + "        ".spec_bytes() + v.name@ + " = ".spec_bytes() + dec_bytes(v.value)
        + ",\n".spec_bytes()
}

/// The variant lines, in order.
pub open spec fn variant_lines_text(p: Seq<u8>, vs: Seq<EnumVariantPlan>) -> Seq<u8>
    decreases vs,
{
    if vs.len() == 0 {
        p
    } else {
        variant_line_text(variant_lines_text(p, vs.drop_last()), vs.last())
    }
}

/// The text of one checked-conversion match arm.
pub open spec fn try_arm_text(p: Seq<u8>, v: EnumVariantPlan) -> Seq<u8> {
    p + "                ".spec_bytes() + dec_bytes(v.value) + " => Ok(Self::".spec_bytes()
        + v.name@ + "),\n".spec_bytes()
}

/// The checked-conversion arms, in order.
pub open spec fn try_arms_text(p: Seq<u8>, vs: Seq<EnumVariantPlan>) -> Seq<u8>
    decreases vs,
{
    if vs.len() == 0 {
        p
    } else {
        try_arm_text(try_arms_text(p, vs.drop_last()), vs.last())
    }
}

/// The text of one variant enum with its primitive conversion.
pub open spec fn enum_text(p: Seq<u8>, e: EnumPlan, ty: RegisterType) -> Seq<u8> {
    let head = p + "    #[derive(Clone, Copy, PartialEq, Eq, Debug)]\n    #[repr(".spec_bytes()
        + regty_bytes(ty) + ")]\n    pub enum ".spec_bytes() + e.ident@ + " {\n".spec_bytes();
    let body = variant_lines_text(head, e.variants@) + "    }\n".spec_bytes();
    if e.total {
        body
    } else {
        let conv = body + "    impl core::convert::TryFrom<".spec_bytes() + regty_bytes(ty)
            + "> for ".spec_bytes() + e.ident@ + " {\n        type Error = ".spec_bytes()
            + regty_bytes(ty) + ";\n        fn try_from(primitive: ".spec_bytes() + regty_bytes(
            ty,
        ) + ") -> Result<Self, Self::Error> {\n            match primitive {\n".spec_bytes();
        try_arms_text(conv, e.variants@)
            + "                v => Err(v),\n            }\n        }\n    }\n".spec_bytes()
    }
}

/// Render one variant enum.
fn render_enum(out: &mut Vec<u8>, e: &EnumPlan, ty: RegisterType)
    ensures
        final(out)@ == enum_text(old(out)@, *e, ty),
{
    push_str(out, "    #[derive(Clone, Copy, PartialEq, Eq, Debug)]\n    #[repr(");
    push_register_type(out, ty);
    push_str(out, ")]\n    pub enum ");
    push_ident(out, &e.ident);
    push_str(out, " {\n");
    let ghost head = out@;
    let mut i: usize = 0;
    while i < e.variants.len()
        invariant
            i <= e.variants@.len(),
            out@ == variant_lines_text(head, e.variants@.take(i as int)),
        decreases e.variants@.len() - i,
    {
        push_str(out, "        ");
        push_ident(out, &e.variants[i].name);
        push_str(out, " = ");
        push_dec(out, e.variants[i].value);
        push_str(out, ",\n");
        i = i + 1;
        proof {
            assert(e.variants@.take(i as int).drop_last() =~= e.variants@.take(i - 1));
            assert(e.variants@.take(i as int).last() == e.variants@[i - 1]);
        }
    }
    proof {
        assert(e.variants@.take(e.variants@.len() as int) =~= e.variants@);
    }
    push_str(out, "    }\n");
    if !e.total {
        // the checked conversion: unmatched primitives are handed back
        push_str(out, "    impl core::convert::TryFrom<");
        push_register_type(out, ty);
        push_str(out, "> for ");
        push_ident(out, &e.ident);
        push_str(out, " {\n        type Error = ");
        push_register_type(out, ty);
        push_str(out, ";\n        fn try_from(primitive: ");
        push_register_type(out, ty);
        push_str(out, ") -> Result<Self, Self::Error> {\n            match primitive {\n");
        let ghost conv = out@;
        let mut i: usize = 0;
        while i < e.variants.len()
            invariant
                i <= e.variants@.len(),
                out@ == try_arms_text(conv, e.variants@.take(i as int)),
            decreases e.variants@.len() - i,
        {
            push_str(out, "                ");
            push_dec(out, e.variants[i].value);
            push_str(out, " => Ok(Self::");
            push_ident(out, &e.variants[i].name);
            push_str(out, "),\n");
            i = i + 1;
            proof {
                assert(e.variants@.take(i as int).drop_last() =~= e.variants@.take(i - 1));
                assert(e.variants@.take(i as int).last() == e.variants@[i - 1]);
            }
        }
        proof {
            assert(e.variants@.take(e.variants@.len() as int) =~= e.variants@);
        }
        push_str(out, "                v => Err(v),\n            }\n        }\n    }\n");
    }
}

/// The shift expression of a possibly indexed accessor.
pub open spec fn shift_text(p: Seq<u8>, shift: u64, elem_bits: u64, counted: bool) -> Seq<
    u8,
> {
    if counted {
        p + "(".spec_bytes() + dec_bytes(shift) + " + ".spec_bytes() + dec_bytes(elem_bits)
            + " * index as u32)".spec_bytes()
    } else {
        p + dec_bytes(shift)
    }
}

fn push_shift(out: &mut Vec<u8>, shift: u64, elem_bits: u64, counted: bool)
    ensures
        final(out)@ == shift_text(old(out)@, shift, elem_bits, counted),
{
    if counted {
        push_str(out, "(");
        push_dec(out, shift);
        push_str(out, " + ");
        push_dec(out, elem_bits);
        push_str(out, " * index as u32)");
    } else {
        push_dec(out, shift);
    }
}

/// The text of one getter.
pub open spec fn getter_text(p: Seq<u8>, g: GetterPlan, mod_ident: Seq<u8>) -> Seq<u8> {
    let counted = is_counted(g.count);
    let head = p + "    pub fn ".spec_bytes() + g.name@ + (if counted {
        "(&self, index: usize) -> ".spec_bytes()
    } else {
        "(&self) -> ".spec_bytes()
    });
    let mask = crate::bits::low_mask(g.elem_bits);
    match g.kind {
        GetterKind::Bool => shift_text(
            head + "bool {\n        ((self.value >> ".spec_bytes(),
            g.shift,
            g.elem_bits,
            counted,
        ) + ") & ".spec_bytes() + dec_bytes(mask) + ") != 0\n    }\n".spec_bytes(),
        GetterKind::Int(pr) => shift_text(
            head + prim_bytes(pr) + " {\n        ((self.value >> ".spec_bytes(),
            g.shift,
            g.elem_bits,
            counted,
        ) + ") & ".spec_bytes() + dec_bytes(mask) + ") as ".spec_bytes() + prim_bytes(pr)
            + "\n    }\n".spec_bytes(),
        GetterKind::EnumTotal => shift_text(
            opt_ident_text(head + mod_ident + "::".spec_bytes(), g.enum_ident)
                + " {\n        unsafe { core::mem::transmute((self.value >> ".spec_bytes(),
            g.shift,
            g.elem_bits,
            counted,
        ) + ") & ".spec_bytes() + dec_bytes(mask) + ") }\n    }\n".spec_bytes(),
        GetterKind::EnumChecked => shift_text(
            opt_ident_text(head + mod_ident + "::".spec_bytes(), g.enum_ident)
                + " {\n        use core::convert::TryFrom;\n        TryFrom::try_from((self.value >> ".spec_bytes(),
            g.shift,
            g.elem_bits,
            counted,
        ) + ") & ".spec_bytes() + dec_bytes(mask) + ").unwrap()\n    }\n".spec_bytes(),
    }
}

/// Render one getter.
fn render_getter(out: &mut Vec<u8>, g: &GetterPlan, reg: &RegisterPlan)
    ensures
        final(out)@ == getter_text(old(out)@, *g, reg.mod_ident@),
{
    push_str(out, "    pub fn ");
    push_ident(out, &g.name);
    let counted = match g.count {
        Some(n) => n > 1,
        None => false,
    };
    if counted {
        push_str(out, "(&self, index: usize) -> ");
    } else {
        push_str(out, "(&self) -> ");
    }
    let mask = crate::bits::mask_of(g.elem_bits);
    match g.kind {
        GetterKind::Bool => {
            push_str(out, "bool {\n        ((self.value >> ");
            push_shift(out, g.shift, g.elem_bits, counted);
            push_str(out, ") & ");
            push_dec(out, mask);
            push_str(out, ") != 0\n    }\n");
        },
        GetterKind::Int(p) => {
            push_field_prim(out, p);
            push_str(out, " {\n        ((self.value >> ");
            push_shift(out, g.shift, g.elem_bits, counted);
            push_str(out, ") & ");
            push_dec(out, mask);
            push_str(out, ") as ");
            push_field_prim(out, p);
            push_str(out, "\n    }\n");
        },
        GetterKind::EnumTotal => {
            push_ident(out, &reg.mod_ident);
            push_str(out, "::");
            push_opt_ident(out, &g.enum_ident);
            push_str(out, " {\n        unsafe { core::mem::transmute((self.value >> ");
            push_shift(out, g.shift, g.elem_bits, counted);
            push_str(out, ") & ");
            push_dec(out, mask);
            push_str(out, ") }\n    }\n");
        },
        GetterKind::EnumChecked => {
            push_ident(out, &reg.mod_ident);
            push_str(out, "::");
            push_opt_ident(out, &g.enum_ident);
            push_str(
                out,
                " {\n        use core::convert::TryFrom;\n        TryFrom::try_from((self.value >> ",
            );
            push_shift(out, g.shift, g.elem_bits, counted);
            push_str(out, ") & ");
            push_dec(out, mask);
            push_str(out, ").unwrap()\n    }\n");
        },
    }
}

/// The text of one setter.  Under `count_checks`, an arrayed setter
/// begins with a runtime bounds check of its element index.
pub open spec fn setter_text(
    p: Seq<u8>,
    s: SetterPlan,
    mod_ident: Seq<u8>,
    ty: RegisterType,
    count_checks: bool,
) -> Seq<u8> {
    let counted = is_counted(s.count);
    let head = p + "    pub fn ".spec_bytes() + s.name@ + (if counted {
        "(&mut self, index: usize, new_value: ".spec_bytes()
    } else {
        "(&mut self, new_value: ".spec_bytes()
    });
    let typed = match s.takes {
        SetterTakes::Bool => head + "bool".spec_bytes(),
        SetterTakes::Prim(pr) => head + prim_bytes(pr),
        SetterTakes::Enum => opt_ident_text(head + mod_ident + "::".spec_bytes(), s.enum_ident),
    };
    let opened = typed + ") -> &mut Self {\n".spec_bytes();
    let checked = if counted && count_checks {
        match s.count {
            Some(n) => opened + "        assert!(index < ".spec_bytes() + dec_bytes(n)
                + ");\n".spec_bytes(),
            None => opened,
        }
    } else {
        opened
    };
    shift_text(
        shift_text(
            checked + "        let context_mask = ".spec_bytes() + dec_bytes(
                s.mask,
            ) + " << ".spec_bytes(),
            s.shift,
            s.elem_bits,
            counted,
        ) + ";\n        self.value = (self.value & !context_mask) | (((new_value as ".spec_bytes()
            + regty_bytes(ty) + ") & ".spec_bytes() + dec_bytes(s.mask) + ") << ".spec_bytes(),
        s.shift,
        s.elem_bits,
        counted,
    ) + ");\n        self.mask |= context_mask;\n        self\n    }\n".spec_bytes()
}

/// Render one setter.
fn render_setter(out: &mut Vec<u8>, s: &SetterPlan, reg: &RegisterPlan, count_checks: bool)
    ensures
        final(out)@ == setter_text(old(out)@, *s, reg.mod_ident@, reg.ty, count_checks),
{
    push_str(out, "    pub fn ");
    push_ident(out, &s.name);
    let counted = match s.count {
        Some(n) => n > 1,
        None => false,
    };
    if counted {
        push_str(out, "(&mut self, index: usize, new_value: ");
    } else {
        push_str(out, "(&mut self, new_value: ");
    }
    match s.takes {
        SetterTakes::Bool => push_str(out, "bool"),
        SetterTakes::Prim(p) => push_field_prim(out, p),
        SetterTakes::Enum => {
            push_ident(out, &reg.mod_ident);
            push_str(out, "::");
            push_opt_ident(out, &s.enum_ident);
        },
    }
    push_str(out, ") -> &mut Self {\n");
    if counted && count_checks {
        match s.count {
            Some(n) => {
                push_str(out, "        assert!(index < ");
                push_dec(out, n);
                push_str(out, ");\n");
            },
            None => {},
        }
    }
    push_str(out, "        let context_mask = ");
    push_dec(out, s.mask);
    push_str(out, " << ");
    push_shift(out, s.shift, s.elem_bits, counted);
    push_str(
        out,
        ";\n        self.value = (self.value & !context_mask) | (((new_value as ",
    );
    push_register_type(out, reg.ty);
    push_str(out, ") & ");
    push_dec(out, s.mask);
    push_str(out, ") << ");
    push_shift(out, s.shift, s.elem_bits, counted);
    push_str(out, ");\n        self.mask |= context_mask;\n        self\n    }\n");
}

/// The text of one clearer.
pub open spec fn clearer_text(p: Seq<u8>, c: ClearPlan) -> Seq<u8> {
    let counted = is_counted(c.count);
    let head = p + "    pub fn ".spec_bytes() + c.name@ + (if counted {
        "(&mut self, index: usize) -> &mut Self {\n        let bits = ".spec_bytes()
    } else {
        "(&mut self) -> &mut Self {\n        let bits = ".spec_bytes()
    });
    shift_text(head + dec_bytes(c.mask) + " << ".spec_bytes(), c.shift, c.elem_bits, counted)
        + ";\n        self.value |= bits;\n        self.mask |= bits;\n        self\n    }\n".spec_bytes()
}

/// Render one clearer.
fn render_clearer(out: &mut Vec<u8>, c: &ClearPlan)
    ensures
        final(out)@ == clearer_text(old(out)@, *c),
{
    push_str(out, "    pub fn ");
    push_ident(out, &c.name);
    let counted = match c.count {
        Some(n) => n > 1,
        None => false,
    };
    if counted {
        push_str(out, "(&mut self, index: usize) -> &mut Self {\n        let bits = ");
    } else {
        push_str(out, "(&mut self) -> &mut Self {\n        let bits = ");
    }
    push_dec(out, c.mask);
    push_str(out, " << ");
    push_shift(out, c.shift, c.elem_bits, counted);
    push_str(
        out,
        ";\n        self.value |= bits;\n        self.mask |= bits;\n        self\n    }\n",
    );
}

/// The getters of a register, in order.
pub open spec fn getters_text(p: Seq<u8>, gs: Seq<GetterPlan>, mod_ident: Seq<u8>) -> Seq<u8>
    decreases gs,
{
    if gs.len() == 0 {
        p
    } else {
        getter_text(getters_text(p, gs.drop_last(), mod_ident), gs.last(), mod_ident)
    }
}

/// The setters of a register, in order.
pub open spec fn setters_text(
    p: Seq<u8>,
    ss: Seq<SetterPlan>,
    mod_ident: Seq<u8>,
    ty: RegisterType,
    count_checks: bool,
) -> Seq<u8>
    decreases ss,
{
    if ss.len() == 0 {
        p
    } else {
        setter_text(
            setters_text(p, ss.drop_last(), mod_ident, ty, count_checks),
            ss.last(),
            mod_ident,
            ty,
            count_checks,
        )
    }
}

/// The clearers of a register, in order.
pub open spec fn clearers_text(p: Seq<u8>, cs: Seq<ClearPlan>) -> Seq<u8>
    decreases cs,
{
    if cs.len() == 0 {
        p
    } else {
        clearer_text(clearers_text(p, cs.drop_last()), cs.last())
    }
}

/// The text of one register: its storage struct, reader, and updater.
pub open spec fn register_text(p: Seq<u8>, reg: RegisterPlan, count_checks: bool) -> Seq<
    u8,
> {
    let storage = p + "#[repr(C)]\npub struct ".spec_bytes() + reg.idents.base@
        + " {\n    value: ::volatile_cell::VolatileCell<".spec_bytes() + regty_bytes(reg.ty)
        + ">,\n}\nimpl ".spec_bytes() + reg.idents.base@ + " {\n    pub fn get(&self) -> ".spec_bytes()
        + reg.idents.get@ + " {\n        ".spec_bytes() + reg.idents.get@
        + " { value: self.value.get() }\n    }\n    pub fn update(&self) -> ".spec_bytes()
        + reg.idents.update@ + " {\n        ".spec_bytes() + reg.idents.update@
        + " { value: 0, mask: 0, write_only: false, reg: self }\n    }\n}\n".spec_bytes();
    let reader_head = storage + "pub struct ".spec_bytes() + reg.idents.get@
        + " {\n    value: ".spec_bytes() + regty_bytes(reg.ty) + ",\n}\nimpl ".spec_bytes()
        + reg.idents.get@ + " {\n".spec_bytes();
    let updater_head = getters_text(reader_head, reg.getters@, reg.mod_ident@)
        + "}\n".spec_bytes() + "pub struct ".spec_bytes() + reg.idents.update@
        + "<'a> {\n    value: ".spec_bytes() + regty_bytes(reg.ty) + ",\n    mask: ".spec_bytes()
        + regty_bytes(reg.ty) + ",\n    write_only: bool,\n    reg: &'a ".spec_bytes()
        + reg.idents.base@ + ",\n}\nimpl<'a> ".spec_bytes() + reg.idents.update@
        + "<'a> {\n    const CLEAR_MASK: ".spec_bytes() + regty_bytes(reg.ty)
        + " = ".spec_bytes() + dec_bytes(reg.clear_mask) + ";\n".spec_bytes();
    let drop_head = clearers_text(
        setters_text(updater_head, reg.setters@, reg.mod_ident@, reg.ty, count_checks),
        reg.clearers@,
    ) + "}\nimpl<'a> Drop for ".spec_bytes() + reg.idents.update@
        + "<'a> {\n    fn drop(&mut self) {\n        if self.mask != 0 {\n".spec_bytes();
    let initial = if reg.write_only {
        drop_head + "            let initial = 0;\n".spec_bytes()
    } else {
        drop_head
            + "            let initial = if self.write_only { 0 } else { self.reg.value.get() };\n".spec_bytes()
    };
    initial
        + "            self.reg.value.set(self.value | (initial & !Self::CLEAR_MASK & !self.mask));\n        }\n    }\n}\n".spec_bytes()
}

/// Render one register.
fn render_register(out: &mut Vec<u8>, reg: &RegisterPlan, count_checks: bool)
    ensures
        final(out)@ == register_text(old(out)@, *reg, count_checks),
{
    // storage: one volatile word
    push_str(out, "#[repr(C)]\npub struct ");
    push_ident(out, &reg.idents.base);
    push_str(out, " {\n    value: ::volatile_cell::VolatileCell<");
    push_register_type(out, reg.ty);
    push_str(out, ">,\n}\nimpl ");
    push_ident(out, &reg.idents.base);
    push_str(out, " {\n    pub fn get(&self) -> ");
    push_ident(out, &reg.idents.get);
    push_str(out, " {\n        ");
    push_ident(out, &reg.idents.get);
    push_str(out, " { value: self.value.get() }\n    }\n    pub fn update(&self) -> ");
    push_ident(out, &reg.idents.update);
    push_str(out, " {\n        ");
    push_ident(out, &reg.idents.update);
    push_str(
        out,
        " { value: 0, mask: 0, write_only: false, reg: self }\n    }\n}\n",
    );
    // reader
    push_str(out, "pub struct ");
    push_ident(out, &reg.idents.get);
    push_str(out, " {\n    value: ");
    push_register_type(out, reg.ty);
    push_str(out, ",\n}\nimpl ");
    push_ident(out, &reg.idents.get);
    push_str(out, " {\n");
    let ghost reader_head = out@;
    let mut i: usize = 0;
    while i < reg.getters.len()
        invariant
            i <= reg.getters@.len(),
            out@ == getters_text(reader_head, reg.getters@.take(i as int), reg.mod_ident@),
        decreases reg.getters@.len() - i,
    {
        render_getter(out, &reg.getters[i], reg);
        i = i + 1;
        proof {
            assert(reg.getters@.take(i as int).drop_last() =~= reg.getters@.take(i - 1));
            assert(reg.getters@.take(i as int).last() == reg.getters@[i - 1]);
        }
    }
    proof {
        assert(reg.getters@.take(reg.getters@.len() as int) =~= reg.getters@);
    }
    push_str(out, "}\n");
    // updater
    push_str(out, "pub struct ");
    push_ident(out, &reg.idents.update);
    push_str(out, "<'a> {\n    value: ");
    push_register_type(out, reg.ty);
    push_str(out, ",\n    mask: ");
    push_register_type(out, reg.ty);
    push_str(out, ",\n    write_only: bool,\n    reg: &'a ");
    push_ident(out, &reg.idents.base);
    push_str(out, ",\n}\nimpl<'a> ");
    push_ident(out, &reg.idents.update);
    push_str(out, "<'a> {\n    const CLEAR_MASK: ");
    push_register_type(out, reg.ty);
    push_str(out, " = ");
    push_dec(out, reg.clear_mask);
    push_str(out, ";\n");
    let ghost updater_head = out@;
    let mut i: usize = 0;
    while i < reg.setters.len()
        invariant
            i <= reg.setters@.len(),
            out@ == setters_text(
                updater_head,
                reg.setters@.take(i as int),
                reg.mod_ident@,
                reg.ty,
                count_checks,
            ),
        decreases reg.setters@.len() - i,
    {
        render_setter(out, &reg.setters[i], reg, count_checks);
        i = i + 1;
        proof {
            assert(reg.setters@.take(i as int).drop_last() =~= reg.setters@.take(i - 1));
            assert(reg.setters@.take(i as int).last() == reg.setters@[i - 1]);
        }
    }
    proof {
        assert(reg.setters@.take(reg.setters@.len() as int) =~= reg.setters@);
    }
    let ghost clearers_head = out@;
    let mut i: usize = 0;
    while i < reg.clearers.len()
        invariant
            i <= reg.clearers@.len(),
            out@ == clearers_text(clearers_head, reg.clearers@.take(i as int)),
        decreases reg.clearers@.len() - i,
    {
        render_clearer(out, &reg.clearers[i]);
        i = i + 1;
        proof {
            assert(reg.clearers@.take(i as int).drop_last() =~= reg.clearers@.take(i - 1));
            assert(reg.clearers@.take(i as int).last() == reg.clearers@[i - 1]);
        }
    }
    proof {
        assert(reg.clearers@.take(reg.clearers@.len() as int) =~= reg.clearers@);
    }
    push_str(out, "}\nimpl<'a> Drop for ");
    push_ident(out, &reg.idents.update);
    push_str(out, "<'a> {\n    fn drop(&mut self) {\n        if self.mask != 0 {\n");
    if reg.write_only {
        push_str(out, "            let initial = 0;\n");
    } else {
        push_str(
            out,
            "            let initial = if self.write_only { 0 } else { self.reg.value.get() };\n",
        );
    }
    push_str(
        out,
        "            self.reg.value.set(self.value | (initial & !Self::CLEAR_MASK & !self.mask));\n        }\n    }\n}\n",
    );
}

/// The type of one layout field, from its member's plan.
pub open spec fn layout_field_type_text(p: Seq<u8>, items: Seq<UnionItem>) -> Seq<u8> {
    if items.len() > 0 {
        match items[0] {
            UnionItem::Reg(reg) => p + reg.idents.base@,
            UnionItem::Group(inner) => p + inner.mod_ident@ + "::".spec_bytes()
                + inner.union_ident@,
        }
    } else {
        p
    }
}

/// The text of one layout field, padding included.
pub open spec fn layout_entry_text(
    p: Seq<u8>,
    e: LayoutEntry,
    items: Seq<UnionItem>,
    pad: u64,
) -> Seq<u8> {
    let padded = if e.pad_before > 0 {
        p + "    _padding".spec_bytes() + dec_bytes(pad) + ": [u8; ".spec_bytes() + dec_bytes(
            e.pad_before,
        ) + "],\n".spec_bytes()
    } else {
        p
    };
    let named = padded + "    pub ".spec_bytes() + e.field.ident@ + ": ".spec_bytes();
    let opened = if e.field.count is Some {
        named + "[".spec_bytes()
    } else {
        named
    };
    let typed = layout_field_type_text(opened, items);
    let closed = match e.field.count {
        Some(n) => typed + "; ".spec_bytes() + dec_bytes(n) + "]".spec_bytes(),
        None => typed,
    };
    closed + ",\n".spec_bytes()
}

/// What remains of the member list after one layout field: the rest, or
/// nothing once the members are exhausted.
pub open spec fn rest_of(items: Seq<UnionItem>) -> Seq<UnionItem> {
    if items.len() > 0 {
        items.drop_first()
    } else {
        items
    }
}

/// The layout fields, in order, with the running padding number.
pub open spec fn layout_entries_text(
    p: Seq<u8>,
    entries: Seq<LayoutEntry>,
    items: Seq<UnionItem>,
    pad: u64,
) -> Seq<u8>
    decreases entries,
{
    if entries.len() == 0 {
        p
    } else {
        let stepped = layout_entry_text(p, entries[0], items, pad);
        let pad2 = if entries[0].pad_before > 0 && pad < u64::MAX {
            (pad + 1) as u64
        } else {
            pad
        };
        layout_entries_text(stepped, entries.drop_first(), rest_of(items), pad2)
    }
}

/// The text of the layout struct of one level.
pub open spec fn layout_text(
    p: Seq<u8>,
    union_ident: Seq<u8>,
    layout: LayoutPlan,
    items: Seq<UnionItem>,
) -> Seq<u8> {
    layout_entries_text(
        p + "#[repr(C)]\npub struct ".spec_bytes() + union_ident + " {\n".spec_bytes(),
        layout.entries@,
        items,
        0,
    ) + "}\n".spec_bytes()
}

/// Render the layout struct of one level: one field per planned member,
/// with anonymous padding arrays in front where the plan calls for them.
/// The field types come from the members' plans, in the same order.
fn render_layout(
    out: &mut Vec<u8>,
    union_ident: &Vec<u8>,
    layout: &LayoutPlan,
    items: &Vec<UnionItem>,
)
    ensures
        final(out)@ == layout_text(old(out)@, union_ident@, *layout, items@),
{
    push_str(out, "#[repr(C)]\npub struct ");
    push_ident(out, union_ident);
    push_str(out, " {\n");
    let ghost head = out@;
    let ghost mut rest = items@;
    proof {
        assert(layout.entries@.skip(0) =~= layout.entries@);
    }
    let mut padding: u64 = 0;
    let mut i: usize = 0;
    while i < layout.entries.len()
        invariant
            i <= layout.entries@.len(),
            rest =~= (if i <= items@.len() {
                items@.skip(i as int)
            } else {
                Seq::<UnionItem>::empty()
            }),
            layout_entries_text(out@, layout.entries@.skip(i as int), rest, padding)
                == layout_entries_text(head, layout.entries@, items@, 0),
        decreases layout.entries@.len() - i,
    {
        proof {
            assert(layout.entries@.skip(i as int)[0] == layout.entries@[i as int]);
            assert(layout.entries@.skip(i as int).drop_first() =~= layout.entries@.skip(
                i as int + 1,
            ));
            if i < items@.len() {
                assert(rest[0] == items@[i as int]);
                assert(rest.drop_first() =~= items@.skip(i as int + 1));
            }
        }
        let e = &layout.entries[i];
        if e.pad_before > 0 {
            push_str(out, "    _padding");
            push_dec(out, padding);
            push_str(out, ": [u8; ");
            push_dec(out, e.pad_before);
            push_str(out, "],\n");
        }
        push_str(out, "    pub ");
        push_ident(out, &e.field.ident);
        push_str(out, ": ");
        if e.field.count.is_some() {
            push_str(out, "[");
        }
        if i < items.len() {
            match &items[i] {
                UnionItem::Reg(reg) => {
                    push_ident(out, &reg.idents.base);
                },
                UnionItem::Group(inner) => {
                    push_ident(out, &inner.mod_ident);
                    push_str(out, "::");
                    push_ident(out, &inner.union_ident);
                },
            }
        }
        match e.field.count {
            Some(n) => {
                push_str(out, "; ");
                push_dec(out, n);
                push_str(out, "]");
            },
            None => {},
        }
        push_str(out, ",\n");
        if e.pad_before > 0 && padding < u64::MAX {
            padding = padding + 1;
        }
        i = i + 1;
        proof {
            rest = rest_of(rest);
        }
    }
    proof {
        assert(layout.entries@.skip(layout.entries@.len() as int).len() == 0);
    }
    push_str(out, "}\n");
}

/// The text of one offset self-test.
pub open spec fn align_test_text(p: Seq<u8>, t: AlignmentTest) -> Seq<u8> {
    p + "#[cfg(test)]\n#[test]\nfn ".spec_bytes() + t.test_ident@ + "() {\n    let test: ".spec_bytes()
        + t.struct_ident@ + " = unsafe { core::mem::zeroed() };\n    let base = &test as *const ".spec_bytes()
        + t.struct_ident@ + " as usize;\n    let location = &test.".spec_bytes()
        + t.field_ident@ + " as *const _ as usize;\n    assert_eq!(location - base, ".spec_bytes()
        + dec_bytes(t.field_offset) + ");\n}\n".spec_bytes()
}

/// The offset self-tests, in order.
pub open spec fn align_tests_text(p: Seq<u8>, ts: Seq<AlignmentTest>) -> Seq<u8>
    decreases ts,
{
    if ts.len() == 0 {
        p
    } else {
        align_test_text(align_tests_text(p, ts.drop_last()), ts.last())
    }
}

/// The nested enum module of a register, where it has variant enums.
pub open spec fn enums_text(p: Seq<u8>, es: Seq<EnumPlan>, ty: RegisterType) -> Seq<u8>
    decreases es,
{
    if es.len() == 0 {
        p
    } else {
        enum_text(enums_text(p, es.drop_last(), ty), es.last(), ty)
    }
}

/// The text of one member: a register with its enum module, or a nested
/// module.
pub open spec fn union_item_text(p: Seq<u8>, it: UnionItem, count_checks: bool) -> Seq<u8>
    decreases it, 2int,
{
    match it {
        UnionItem::Reg(reg) => {
            let prefixed = if reg.enums@.len() > 0 {
                enums_text(
                    p + "pub mod ".spec_bytes() + reg.mod_ident@ + " {\n".spec_bytes(),
                    reg.enums@,
                    reg.ty,
                ) + "}\n".spec_bytes()
            } else {
                p
            };
            register_text(prefixed, reg, count_checks)
        },
        UnionItem::Group(inner) => union_text(p, inner, count_checks),
    }
}

/// The members, in order.
pub open spec fn union_items_text(p: Seq<u8>, items: Seq<UnionItem>, count_checks: bool)
    -> Seq<u8>
    decreases items, 1int,
{
    if items.len() == 0 {
        p
    } else {
        union_item_text(
            union_items_text(p, items.drop_last(), count_checks),
            items.last(),
            count_checks,
        )
    }
}

/// The text of one module level: the members, the layout struct, and the
/// offset self-tests, inside `pub mod <name>`.
pub open spec fn union_text(p: Seq<u8>, plan: UnionPlan, count_checks: bool) -> Seq<u8>
    decreases plan, 3int,
{
    align_tests_text(
        layout_text(
            union_items_text(
                p + "pub mod ".spec_bytes() + plan.mod_ident@ + " {\n".spec_bytes(),
                plan.items@,
                count_checks,
            ),
            plan.union_ident@,
            plan.layout,
            plan.items@,
        ),
        plan.alignment@,
    ) + "}\n".spec_bytes()
}

/// Render one member: a register with its enum module, or a nested module.
fn render_item(out: &mut Vec<u8>, it: &UnionItem, count_checks: bool)
    ensures
        final(out)@ == union_item_text(old(out)@, *it, count_checks),
    decreases *it, 0int,
{
    match it {
        UnionItem::Reg(reg) => {
            if reg.enums.len() > 0 {
                push_str(out, "pub mod ");
                push_ident(out, &reg.mod_ident);
                push_str(out, " {\n");
                let ghost enums_head = out@;
                let mut j: usize = 0;
                while j < reg.enums.len()
                    invariant
                        j <= reg.enums@.len(),
                        out@ == enums_text(enums_head, reg.enums@.take(j as int), reg.ty),
                    decreases reg.enums@.len() - j,
                {
                    render_enum(out, &reg.enums[j], reg.ty);
                    j = j + 1;
                    proof {
                        assert(reg.enums@.take(j as int).drop_last() =~= reg.enums@.take(
                            j - 1,
                        ));
                        assert(reg.enums@.take(j as int).last() == reg.enums@[j - 1]);
                    }
                }
                proof {
                    assert(reg.enums@.take(reg.enums@.len() as int) =~= reg.enums@);
                }
                push_str(out, "}\n");
            }
            render_register(out, reg, count_checks);
        },
        UnionItem::Group(inner) => {
            render_union(out, inner, count_checks);
        },
    }
}

/// Render one module level.
#[verifier::rlimit(50)]
fn render_union(out: &mut Vec<u8>, plan: &UnionPlan, count_checks: bool)
    ensures
        final(out)@ == union_text(old(out)@, *plan, count_checks),
    decreases *plan, 1int,
{
    push_str(out, "pub mod ");
    push_ident(out, &plan.mod_ident);
    push_str(out, " {\n");
    let ghost items_head = out@;
    let mut i: usize = 0;
    while i < plan.items.len()
        invariant
            i <= plan.items@.len(),
            out@ == union_items_text(items_head, plan.items@.take(i as int), count_checks),
        decreases plan.items@.len() - i,
    {
        render_item(out, &plan.items[i], count_checks);
        i = i + 1;
        proof {
            assert(plan.items@.take(i as int).drop_last() =~= plan.items@.take(i - 1));
            assert(plan.items@.take(i as int).last() == plan.items@[i - 1]);
        }
    }
    proof {
        assert(plan.items@.take(plan.items@.len() as int) =~= plan.items@);
    }
    render_layout(out, &plan.union_ident, &plan.layout, &plan.items);
    let ghost tests_head = out@;
    let mut i: usize = 0;
    while i < plan.alignment.len()
        invariant
            i <= plan.alignment@.len(),
            out@ == align_tests_text(tests_head, plan.alignment@.take(i as int)),
        decreases plan.alignment@.len() - i,
    {
        let t = &plan.alignment[i];
        push_str(out, "#[cfg(test)]\n#[test]\nfn ");
        push_ident(out, &t.test_ident);
        push_str(out, "() {\n    let test: ");
        push_ident(out, &t.struct_ident);
        push_str(out, " = unsafe { core::mem::zeroed() };\n    let base = &test as *const ");
        push_ident(out, &t.struct_ident);
        push_str(out, " as usize;\n    let location = &test.");
        push_ident(out, &t.field_ident);
        push_str(out, " as *const _ as usize;\n    assert_eq!(location - base, ");
        push_dec(out, t.field_offset);
        push_str(out, ");\n}\n");
        i = i + 1;
        proof {
            assert(plan.alignment@.take(i as int).drop_last() =~= plan.alignment@.take(i - 1));
            assert(plan.alignment@.take(i as int).last() == plan.alignment@[i - 1]);
        }
    }
    proof {
        assert(plan.alignment@.take(plan.alignment@.len() as int) =~= plan.alignment@);
    }
    push_str(out, "}\n");
}

/// Render a whole block's plan as Rust source text: exactly the
/// serialization of the plan.  Under `count_checks`, arrayed setters carry
/// runtime index bounds checks.
pub fn render_block(plan: &UnionPlan, count_checks: bool) -> (r: Vec<u8>)
    ensures
        r@ == union_text(Seq::empty(), *plan, count_checks),
{
    let mut out: Vec<u8> = Vec::new();
    proof {
        assert(out@ =~= Seq::<u8>::empty());
    }
    render_union(&mut out, plan, count_checks);
    out
}

} // verus!
