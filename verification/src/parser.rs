//! The parser: a recursive descent over the token stream that builds the
//! block's data model.
//!
//! The grammar, one invocation per block:
//!
//! ```text
//! BLOCK_NAME (@ <base-offset>)? = {
//!   <offset> => <width-token> <reg-ident> ([count])? { <field>, ... },
//!   <offset> => group <group-ident> ([count])? { ...members... },
//! }
//! <field>: <bit> | <lo>..<hi> => <ident> ([count])? ({ <value> => <Ident>, ... })?
//!          (: <prop> | : ( <prop>, ... ))?
//! ```
//!
//! The grammar is specified: the `sp_` functions below are the
//! mathematical parse of a token sequence, and `parse_block` returns
//! exactly its result — the block's image where the text parses, an error
//! where it does not.  Parsing fails with a positioned error on an unknown
//! width token, an unknown property, a malformed construct, or trailing
//! input.  Everything the parser builds carries well-formed ASCII
//! identifiers.

use vstd::prelude::*;
use crate::ast::{
    IoRegs, Register, RegisterField, RegisterFieldOffset, RegisterGroup, RegisterOrGroup,
    RegisterProperty, RegisterPropertyValue, RegisterType, RegisterVariant, ident_wf,
    field_names_wf, member_names_wf, members_names_wf, block_names_wf,
};
use crate::lexer::{
    Token, TokenKind, TokenSpec, TokenKindSpec, token_wf, token_views, lex, spec_tokens,
};
use crate::layout::clone_bytes;

verus! {

/// What went wrong while parsing.
#[derive(Clone, Copy, PartialEq, Eq, Structural, Debug)]
pub enum ParseErrorKind {
    /// The input ended where a token was required.
    UnexpectedEnd,
    /// An integer literal was required.
    ExpectedInt,
    /// An identifier was required.
    ExpectedIdent,
    /// A specific punctuation token was required.
    ExpectedDelimiter,
    /// A width token other than `reg8`, `reg16`, `reg32`, `reg64`.
    UnknownWidthToken,
    /// A property other than `ro`, `wo`, `rw`, `set_to_clear`.
    UnknownProperty,
    /// Input after the closing brace of the block.
    TrailingInput,
    /// The text could not be tokenized.
    Lex,
}

/// A parsing failure at a byte position.
#[derive(Clone, Copy, PartialEq, Eq, Structural, Debug)]
pub struct ParseError {
    pub kind: ParseErrorKind,
    pub pos: usize,
}

/// The image of one property.
pub ghost struct PropView {
    pub value: RegisterPropertyValue,
    pub pos: int,
}

/// The image of one variant.
pub ghost struct VariantView {
    pub value: u64,
    pub ident: Seq<u8>,
    pub pos: int,
}

/// The image of one field.
pub ghost struct FieldView {
    pub ident: Seq<u8>,
    pub offset: RegisterFieldOffset,
    pub count: Option<u64>,
    pub variants: Option<Seq<VariantView>>,
    pub properties: Seq<PropView>,
    pub pos: int,
}

/// The image of one register.
pub ghost struct RegView {
    pub ident: Seq<u8>,
    pub offset: u64,
    pub ty: RegisterType,
    pub count: Option<u64>,
    pub fields: Seq<FieldView>,
    pub pos: int,
}

/// The image of one group.
pub ghost struct GroupView {
    pub ident: Seq<u8>,
    pub offset: u64,
    pub count: Option<u64>,
    pub members: Seq<MemberView>,
    pub pos: int,
}

/// The image of one member.
pub ghost enum MemberView {
    Single(RegView),
    Group(GroupView),
}

/// The image of a whole block.
pub ghost struct IoRegsView {
    pub name: Seq<u8>,
    pub location: u64,
    pub registers: Seq<MemberView>,
    pub pos: int,
}

/// The image of an executable property.
pub open spec fn prop_view(p: RegisterProperty) -> PropView {
    PropView { value: p.value, pos: p.pos as int }
}

/// The images of a property list.
pub open spec fn props_views(ps: Seq<RegisterProperty>) -> Seq<PropView>
    decreases ps,
{
    if ps.len() == 0 {
        Seq::empty()
    } else {
        props_views(ps.drop_last()).push(prop_view(ps.last()))
    }
}

/// The image of an executable variant.
pub open spec fn variant_view(v: RegisterVariant) -> VariantView {
    VariantView { value: v.value, ident: v.ident@, pos: v.pos as int }
}

/// The images of a variant list.
pub open spec fn variants_views(vs: Seq<RegisterVariant>) -> Seq<VariantView>
    decreases vs,
{
    if vs.len() == 0 {
        Seq::empty()
    } else {
        variants_views(vs.drop_last()).push(variant_view(vs.last()))
    }
}

/// The image of an executable field.
pub open spec fn field_view(f: RegisterField) -> FieldView {
    FieldView {
        ident: f.ident@,
        offset: f.offset,
        count: f.count,
        variants: match f.variants {
            Some(vs) => Some(variants_views(vs@)),
            None => None,
        },
        properties: props_views(f.properties@),
        pos: f.pos as int,
    }
}

/// The images of a field list.
pub open spec fn fields_views(fs: Seq<RegisterField>) -> Seq<FieldView>
    decreases fs,
{
    if fs.len() == 0 {
        Seq::empty()
    } else {
        fields_views(fs.drop_last()).push(field_view(fs.last()))
    }
}

/// The image of an executable member.
pub open spec fn member_view(m: RegisterOrGroup) -> MemberView
    decreases m,
{
    match m {
        RegisterOrGroup::Single(r) => MemberView::Single(
            RegView {
                ident: r.ident@,
                offset: r.offset,
                ty: r.ty,
                count: r.count,
                fields: fields_views(r.fields@),
                pos: r.pos as int,
            },
        ),
        RegisterOrGroup::Group(g) => MemberView::Group(
            GroupView {
                ident: g.ident@,
                offset: g.offset,
                count: g.count,
                members: members_views(g.members@),
                pos: g.pos as int,
            },
        ),
    }
}

/// The images of a member list.
pub open spec fn members_views(ms: Seq<RegisterOrGroup>) -> Seq<MemberView>
    decreases ms,
{
    if ms.len() == 0 {
        Seq::empty()
    } else {
        members_views(ms.drop_last()).push(member_view(ms.last()))
    }
}

/// The image of an executable block.
pub open spec fn ioregs_view(b: IoRegs) -> IoRegsView {
    IoRegsView {
        name: b.name@,
        location: b.location,
        registers: members_views(b.registers@),
        pos: b.pos as int,
    }
}

/// `group` as bytes.
pub open spec fn kw_group_bytes() -> Seq<u8> {
    seq![0x67u8, 0x72u8, 0x6fu8, 0x75u8, 0x70u8]
}

/// `reg8` as bytes.
pub open spec fn kw_reg8_bytes() -> Seq<u8> {
    seq![0x72u8, 0x65u8, 0x67u8, 0x38u8]
}

/// `reg16` as bytes.
pub open spec fn kw_reg16_bytes() -> Seq<u8> {
    seq![0x72u8, 0x65u8, 0x67u8, 0x31u8, 0x36u8]
}

/// `reg32` as bytes.
pub open spec fn kw_reg32_bytes() -> Seq<u8> {
    seq![0x72u8, 0x65u8, 0x67u8, 0x33u8, 0x32u8]
}

/// `reg64` as bytes.
pub open spec fn kw_reg64_bytes() -> Seq<u8> {
    seq![0x72u8, 0x65u8, 0x67u8, 0x36u8, 0x34u8]
}

/// `wo` as bytes.
pub open spec fn kw_wo_bytes() -> Seq<u8> {
    seq![0x77u8, 0x6fu8]
}

/// `ro` as bytes.
pub open spec fn kw_ro_bytes() -> Seq<u8> {
    seq![0x72u8, 0x6fu8]
}

/// `rw` as bytes.
pub open spec fn kw_rw_bytes() -> Seq<u8> {
    seq![0x72u8, 0x77u8]
}

/// `set_to_clear` as bytes.
pub open spec fn kw_set_to_clear_bytes() -> Seq<u8> {
    seq![
        0x73u8,
        0x65u8,
        0x74u8,
        0x5fu8,
        0x74u8,
        0x6fu8,
        0x5fu8,
        0x63u8,
        0x6cu8,
        0x65u8,
        0x61u8,
        0x72u8,
    ]
}

/// The property a keyword names, in the order the parser tries them.
pub open spec fn prop_of_kw(s: Seq<u8>) -> Option<RegisterPropertyValue> {
    if s == kw_set_to_clear_bytes() {
        Some(RegisterPropertyValue::SetToClear)
    } else if s == kw_wo_bytes() {
        Some(RegisterPropertyValue::WriteOnly)
    } else if s == kw_ro_bytes() {
        Some(RegisterPropertyValue::ReadOnly)
    } else if s == kw_rw_bytes() {
        Some(RegisterPropertyValue::ReadWrite)
    } else {
        None
    }
}

/// The register width a keyword names, in the order the parser tries
/// them.
pub open spec fn width_of_kw(s: Seq<u8>) -> Option<RegisterType> {
    if s == kw_reg8_bytes() {
        Some(RegisterType::Reg8)
    } else if s == kw_reg16_bytes() {
        Some(RegisterType::Reg16)
    } else if s == kw_reg32_bytes() {
        Some(RegisterType::Reg32)
    } else if s == kw_reg64_bytes() {
        Some(RegisterType::Reg64)
    } else {
        None
    }
}

/// The token kind is the given punctuation, selected by its ASCII byte.
pub open spec fn punct_is(k: TokenKindSpec, which: u8) -> bool {
    match k {
        TokenKindSpec::At => which == 0x40,
        TokenKindSpec::Eq => which == 0x3d,
        TokenKindSpec::FatArrow => which == 0x3e,
        TokenKindSpec::DotDot => which == 0x2e,
        TokenKindSpec::Comma => which == 0x2c,
        TokenKindSpec::Colon => which == 0x3a,
        TokenKindSpec::LBrace => which == 0x7b,
        TokenKindSpec::RBrace => which == 0x7d,
        TokenKindSpec::LBracket => which == 0x5b,
        TokenKindSpec::RBracket => which == 0x5d,
        TokenKindSpec::LParen => which == 0x28,
        TokenKindSpec::RParen => which == 0x29,
        _ => false,
    }
}

/// The given punctuation stands at position `i`.
pub open spec fn punct_at(toks: Seq<TokenSpec>, i: int, which: u8) -> bool {
    0 <= i < toks.len() && punct_is(toks[i].kind, which)
}

/// An integer literal at `i`: its value, its byte position, and the
/// position after it.
pub open spec fn sp_int(toks: Seq<TokenSpec>, i: int) -> Option<(u64, int, int)> {
    if 0 <= i < toks.len() {
        match toks[i].kind {
            TokenKindSpec::Int(v) => Some((v, toks[i].pos, i + 1)),
            _ => None,
        }
    } else {
        None
    }
}

/// An identifier at `i`: its bytes, its byte position, and the position
/// after it.
pub open spec fn sp_ident(toks: Seq<TokenSpec>, i: int) -> Option<(Seq<u8>, int, int)> {
    if 0 <= i < toks.len() {
        match toks[i].kind {
            TokenKindSpec::Ident(s) => Some((s, toks[i].pos, i + 1)),
            _ => None,
        }
    } else {
        None
    }
}

/// The given punctuation at `i`, consumed.
pub open spec fn sp_punct(toks: Seq<TokenSpec>, i: int, which: u8) -> Option<int> {
    if punct_at(toks, i, which) {
        Some(i + 1)
    } else {
        None
    }
}

/// A position that certainly advanced; every sub-parse consumes at least
/// one token, and the recursion measures lean on that.
pub open spec fn bump(j: int, i: int) -> int {
    if j > i {
        j
    } else {
        i + 1
    }
}

/// An optional `[count]` at `i`.
pub open spec fn sp_count(toks: Seq<TokenSpec>, i: int) -> Option<(Option<u64>, int)> {
    if punct_at(toks, i, 0x5b) {
        match sp_int(toks, i + 1) {
            None => None,
            Some(v) => match sp_punct(toks, v.2, 0x5d) {
                None => None,
                Some(k) => Some((Some(v.0), k)),
            },
        }
    } else {
        Some((None, i))
    }
}

/// One property keyword at `i`.
pub open spec fn sp_property(toks: Seq<TokenSpec>, i: int) -> Option<(PropView, int)> {
    match sp_ident(toks, i) {
        None => None,
        Some(name) => match prop_of_kw(name.0) {
            None => None,
            Some(v) => Some((PropView { value: v, pos: name.1 }, name.2)),
        },
    }
}

/// A comma-separated property list, up to (not including) the closing
/// parenthesis.
pub open spec fn sp_prop_list(toks: Seq<TokenSpec>, i: int, acc: Seq<PropView>) -> Option<
    (Seq<PropView>, int),
>
    decreases toks.len() - i,
{
    if punct_at(toks, i, 0x29) {
        Some((acc, i))
    } else {
        match sp_property(toks, i) {
            None => None,
            Some(p) => {
                let j = bump(p.1, i);
                if punct_at(toks, j, 0x2c) {
                    sp_prop_list(toks, j + 1, acc.push(p.0))
                } else {
                    Some((acc.push(p.0), j))
                }
            },
        }
    }
}

/// The optional `: prop` or `: (prop, prop, ...)` suffix at `i`.
pub open spec fn sp_opt_properties(toks: Seq<TokenSpec>, i: int) -> Option<
    (Seq<PropView>, int),
> {
    if !punct_at(toks, i, 0x3a) {
        Some((Seq::empty(), i))
    } else {
        if punct_at(toks, i + 1, 0x28) {
            match sp_prop_list(toks, i + 2, Seq::empty()) {
                None => None,
                Some(pl) => match sp_punct(toks, pl.1, 0x29) {
                    None => None,
                    Some(k) => Some((pl.0, k)),
                },
            }
        } else {
            match sp_property(toks, i + 1) {
                None => None,
                Some(p) => Some((seq![p.0], p.1)),
            }
        }
    }
}

/// One `value => Ident` variant at `i`.
pub open spec fn sp_variant(toks: Seq<TokenSpec>, i: int) -> Option<(VariantView, int)> {
    match sp_int(toks, i) {
        None => None,
        Some(v) => match sp_punct(toks, v.2, 0x3e) {
            None => None,
            Some(j1) => match sp_ident(toks, j1) {
                None => None,
                Some(nm) => Some(
                    (VariantView { value: v.0, ident: nm.0, pos: v.1 }, nm.2),
                ),
            },
        },
    }
}

/// A comma-separated variant list, up to (not including) the closing
/// brace.
pub open spec fn sp_variant_list(
    toks: Seq<TokenSpec>,
    i: int,
    acc: Seq<VariantView>,
) -> Option<(Seq<VariantView>, int)>
    decreases toks.len() - i,
{
    if punct_at(toks, i, 0x7d) {
        Some((acc, i))
    } else {
        match sp_variant(toks, i) {
            None => None,
            Some(v) => {
                let j = bump(v.1, i);
                if punct_at(toks, j, 0x2c) {
                    sp_variant_list(toks, j + 1, acc.push(v.0))
                } else {
                    Some((acc.push(v.0), j))
                }
            },
        }
    }
}

/// The optional `{ value => Ident, ... }` variant block at `i`.
pub open spec fn sp_opt_variants(toks: Seq<TokenSpec>, i: int) -> Option<
    (Option<Seq<VariantView>>, int),
> {
    if !punct_at(toks, i, 0x7b) {
        Some((None, i))
    } else {
        match sp_variant_list(toks, i + 1, Seq::empty()) {
            None => None,
            Some(vl) => match sp_punct(toks, vl.1, 0x7d) {
                None => None,
                Some(k) => Some((Some(vl.0), k)),
            },
        }
    }
}

/// One field at `i`: bit position, name, optional count, variants,
/// properties.
pub open spec fn sp_field(toks: Seq<TokenSpec>, i: int) -> Option<(FieldView, int)> {
    match sp_int(toks, i) {
        None => None,
        Some(lo) => {
            let ofs = if punct_at(toks, lo.2, 0x2e) {
                match sp_int(toks, lo.2 + 1) {
                    None => None,
                    Some(hi) => Some((RegisterFieldOffset::BitRange(lo.0, hi.0), hi.2)),
                }
            } else {
                Some((RegisterFieldOffset::Bit(lo.0), lo.2))
            };
            match ofs {
                None => None,
                Some(of) => match sp_punct(toks, of.1, 0x3e) {
                    None => None,
                    Some(j1) => match sp_ident(toks, j1) {
                        None => None,
                        Some(nm) => match sp_count(toks, nm.2) {
                            None => None,
                            Some(ct) => match sp_opt_variants(toks, ct.1) {
                                None => None,
                                Some(vr) => match sp_opt_properties(toks, vr.1) {
                                    None => None,
                                    Some(pr) => Some(
                                        (
                                            FieldView {
                                                ident: nm.0,
                                                offset: of.0,
                                                count: ct.0,
                                                variants: vr.0,
                                                properties: pr.0,
                                                pos: lo.1,
                                            },
                                            pr.1,
                                        ),
                                    ),
                                },
                            },
                        },
                    },
                },
            }
        },
    }
}

/// A comma-separated field list, up to (not including) the closing brace.
pub open spec fn sp_field_list(toks: Seq<TokenSpec>, i: int, acc: Seq<FieldView>) -> Option<
    (Seq<FieldView>, int),
>
    decreases toks.len() - i,
{
    if punct_at(toks, i, 0x7d) {
        Some((acc, i))
    } else {
        match sp_field(toks, i) {
            None => None,
            Some(f) => {
                let j = bump(f.1, i);
                if punct_at(toks, j, 0x2c) {
                    sp_field_list(toks, j + 1, acc.push(f.0))
                } else {
                    Some((acc.push(f.0), j))
                }
            },
        }
    }
}

/// One member at `i`: a register, or — under the `group` keyword — a
/// nested group of members.
pub open spec fn sp_member(toks: Seq<TokenSpec>, i: int) -> Option<(MemberView, int)>
    decreases toks.len() - i, 0int,
{
    match sp_int(toks, i) {
        None => None,
        Some(ofs) => match sp_punct(toks, ofs.2, 0x3e) {
            None => None,
            Some(j1) => match sp_ident(toks, j1) {
                None => None,
                Some(kw) => {
                    if kw.0 == kw_group_bytes() {
                        match sp_ident(toks, kw.2) {
                            None => None,
                            Some(nm) => match sp_count(toks, nm.2) {
                                None => None,
                                Some(ct) => match sp_punct(toks, ct.1, 0x7b) {
                                    None => None,
                                    Some(jb) => match sp_members(
                                        toks,
                                        bump(jb, i),
                                        Seq::empty(),
                                    ) {
                                        None => None,
                                        Some(ms) => match sp_punct(toks, ms.1, 0x7d) {
                                            None => None,
                                            Some(je) => Some(
                                                (
                                                    MemberView::Group(
                                                        GroupView {
                                                            ident: nm.0,
                                                            offset: ofs.0,
                                                            count: ct.0,
                                                            members: ms.0,
                                                            pos: ofs.1,
                                                        },
                                                    ),
                                                    je,
                                                ),
                                            ),
                                        },
                                    },
                                },
                            },
                        }
                    } else {
                        match width_of_kw(kw.0) {
                            None => None,
                            Some(ty) => match sp_ident(toks, kw.2) {
                                None => None,
                                Some(nm) => match sp_count(toks, nm.2) {
                                    None => None,
                                    Some(ct) => match sp_punct(toks, ct.1, 0x7b) {
                                        None => None,
                                        Some(jb) => match sp_field_list(
                                            toks,
                                            jb,
                                            Seq::empty(),
                                        ) {
                                            None => None,
                                            Some(fl) => match sp_punct(toks, fl.1, 0x7d) {
                                                None => None,
                                                Some(je) => Some(
                                                    (
                                                        MemberView::Single(
                                                            RegView {
                                                                ident: nm.0,
                                                                offset: ofs.0,
                                                                ty: ty,
                                                                count: ct.0,
                                                                fields: fl.0,
                                                                pos: ofs.1,
                                                            },
                                                        ),
                                                        je,
                                                    ),
                                                ),
                                            },
                                        },
                                    },
                                },
                            },
                        }
                    }
                },
            },
        },
    }
}

/// A comma-separated member list, up to the closing brace or the end of
/// the input.
pub open spec fn sp_members(toks: Seq<TokenSpec>, i: int, acc: Seq<MemberView>) -> Option<
    (Seq<MemberView>, int),
>
    decreases toks.len() - i, 1int,
{
    if punct_at(toks, i, 0x7d) || i >= toks.len() {
        Some((acc, i))
    } else {
        match sp_member(toks, i) {
            None => None,
            Some(m) => {
                let j = bump(m.1, i);
                if punct_at(toks, j, 0x2c) {
                    sp_members(toks, j + 1, acc.push(m.0))
                } else {
                    Some((acc.push(m.0), j))
                }
            },
        }
    }
}

/// The whole block at `i`: name, optional base offset, and the member
/// list in braces.
pub open spec fn sp_ioregs(toks: Seq<TokenSpec>, i: int) -> Option<(IoRegsView, int)>
    decreases toks.len() - i, 2int,
{
    match sp_ident(toks, i) {
        None => None,
        Some(nm) => {
            let loc = if punct_at(toks, nm.2, 0x40) {
                match sp_int(toks, nm.2 + 1) {
                    None => None,
                    Some(v) => Some((v.0, v.2)),
                }
            } else {
                Some((0u64, nm.2))
            };
            match loc {
                None => None,
                Some(lc) => match sp_punct(toks, bump(lc.1, i), 0x3d) {
                    None => None,
                    Some(j1) => match sp_punct(toks, j1, 0x7b) {
                        None => None,
                        Some(j2) => match sp_members(toks, j2, Seq::empty()) {
                            None => None,
                            Some(ms) => match sp_punct(toks, ms.1, 0x7d) {
                                None => None,
                                Some(je) => Some(
                                    (
                                        IoRegsView {
                                            name: nm.0,
                                            location: lc.0,
                                            registers: ms.0,
                                            pos: nm.1,
                                        },
                                        je,
                                    ),
                                ),
                            },
                        },
                    },
                },
            }
        },
    }
}

/// The parse of a whole token sequence: one block, nothing after it.
pub open spec fn sp_parse(toks: Seq<TokenSpec>) -> Option<IoRegsView> {
    match sp_ioregs(toks, 0) {
        None => None,
        Some(pr) => if pr.1 == toks.len() {
            Some(pr.0)
        } else {
            None
        },
    }
}

/// The parse of a whole text: its tokenization, then one block.
pub open spec fn spec_parse_src(s: Seq<u8>) -> Option<IoRegsView> {
    match spec_tokens(s) {
        None => None,
        Some(ts) => sp_parse(ts),
    }
}

/// The token images index like the tokens.
pub proof fn lemma_token_views_len(ts: Seq<Token>)
    ensures
        token_views(ts).len() == ts.len(),
    decreases ts,
{
    if ts.len() > 0 {
        lemma_token_views_len(ts.drop_last());
    }
}

/// The image of token `k` is token `k`'s image.
pub proof fn lemma_token_views_index(ts: Seq<Token>, k: int)
    requires
        0 <= k < ts.len(),
    ensures
        token_views(ts).len() == ts.len(),
        token_views(ts)[k] == ts[k]@,
    decreases ts,
{
    lemma_token_views_len(ts);
    if k == ts.len() - 1 {
        assert(ts.last() == ts[k]);
    } else {
        assert(ts.drop_last()[k] == ts[k]);
        lemma_token_views_index(ts.drop_last(), k);
    }
}

struct Parser {
    toks: Vec<Token>,
    i: usize,
}

impl Parser {
    spec fn wf(&self) -> bool {
        self.i <= self.toks@.len() && forall|k: int|
            0 <= k < self.toks@.len() ==> token_wf(#[trigger] self.toks@[k])
    }

    spec fn rem(&self) -> int {
        self.toks@.len() - self.i
    }

    /// The images of the tokens.
    spec fn tv(&self) -> Seq<TokenSpec> {
        token_views(self.toks@)
    }

    /// Position for an error at the current token, or at the end.
    fn here(&self) -> (r: usize)
        requires
            self.wf(),
    {
        if self.i < self.toks.len() {
            self.toks[self.i].pos
        } else if self.toks.len() > 0 {
            self.toks[self.toks.len() - 1].pos
        } else {
            0
        }
    }

    fn at_end(&self) -> (r: bool)
        requires
            self.wf(),
        ensures
            r == (self.rem() == 0),
            r == (self.i as int >= self.tv().len()),
    {
        proof {
            lemma_token_views_len(self.toks@);
        }
        self.i >= self.toks.len()
    }

    fn expect_int(&mut self) -> (r: Result<(u64, usize), ParseError>)
        requires
            old(self).wf(),
        ensures
            final(self).wf(),
            final(self).toks == old(self).toks,
            r.is_ok() ==> final(self).i == old(self).i + 1,
            r.is_err() ==> final(self).i == old(self).i,
            r matches Ok(v) ==> sp_int(old(self).tv(), old(self).i as int) == Some(
                (v.0, v.1 as int, final(self).i as int),
            ),
            r.is_err() ==> sp_int(old(self).tv(), old(self).i as int) is None,
    {
        proof {
            lemma_token_views_len(self.toks@);
            if (self.i as int) < self.toks@.len() {
                lemma_token_views_index(self.toks@, self.i as int);
            }
        }
        if self.i < self.toks.len() {
            let t = &self.toks[self.i];
            match &t.kind {
                TokenKind::Int(v) => {
                    let ret = (*v, t.pos);
                    self.i = self.i + 1;
                    Ok(ret)
                },
                _ => Err(ParseError { kind: ParseErrorKind::ExpectedInt, pos: t.pos }),
            }
        } else {
            Err(ParseError { kind: ParseErrorKind::UnexpectedEnd, pos: self.here() })
        }
    }

    fn expect_ident(&mut self) -> (r: Result<(Vec<u8>, usize), ParseError>)
        requires
            old(self).wf(),
        ensures
            final(self).wf(),
            final(self).toks == old(self).toks,
            r.is_ok() ==> final(self).i == old(self).i + 1 && ident_wf(r.unwrap().0@),
            r.is_err() ==> final(self).i == old(self).i,
            r matches Ok(v) ==> sp_ident(old(self).tv(), old(self).i as int) == Some(
                (v.0@, v.1 as int, final(self).i as int),
            ),
            r.is_err() ==> sp_ident(old(self).tv(), old(self).i as int) is None,
    {
        proof {
            lemma_token_views_len(self.toks@);
            if (self.i as int) < self.toks@.len() {
                lemma_token_views_index(self.toks@, self.i as int);
            }
        }
        if self.i < self.toks.len() {
            let pos = self.toks[self.i].pos;
            let s: Vec<u8> = match &self.toks[self.i].kind {
                TokenKind::Ident(s) => clone_bytes(s),
                _ => {
                    return Err(ParseError { kind: ParseErrorKind::ExpectedIdent, pos });
                },
            };
            proof {
                assert(token_wf(self.toks@[self.i as int]));
            }
            self.i = self.i + 1;
            Ok((s, pos))
        } else {
            Err(ParseError { kind: ParseErrorKind::UnexpectedEnd, pos: self.here() })
        }
    }

    /// Whether the current token is the given punctuation, selected by its
    /// ASCII byte.
    fn peek_punct(&self, which: u8) -> (r: bool)
        requires
            self.wf(),
        ensures
            r ==> self.rem() > 0,
            r == punct_at(self.tv(), self.i as int, which),
    {
        proof {
            lemma_token_views_len(self.toks@);
            if (self.i as int) < self.toks@.len() {
                lemma_token_views_index(self.toks@, self.i as int);
            }
        }
        if self.i < self.toks.len() {
            match &self.toks[self.i].kind {
                TokenKind::At => which == 0x40,
                TokenKind::Eq => which == 0x3d,
                TokenKind::FatArrow => which == 0x3e,
                TokenKind::DotDot => which == 0x2e,
                TokenKind::Comma => which == 0x2c,
                TokenKind::Colon => which == 0x3a,
                TokenKind::LBrace => which == 0x7b,
                TokenKind::RBrace => which == 0x7d,
                TokenKind::LBracket => which == 0x5b,
                TokenKind::RBracket => which == 0x5d,
                TokenKind::LParen => which == 0x28,
                TokenKind::RParen => which == 0x29,
                _ => false,
            }
        } else {
            false
        }
    }

    /// Consume the current token, which must be the given punctuation.
    fn expect_punct(&mut self, which: u8) -> (r: Result<(), ParseError>)
        requires
            old(self).wf(),
        ensures
            final(self).wf(),
            final(self).toks == old(self).toks,
            r.is_ok() ==> final(self).i == old(self).i + 1,
            r.is_err() ==> final(self).i == old(self).i,
            r.is_ok() ==> sp_punct(old(self).tv(), old(self).i as int, which) == Some(
                final(self).i as int,
            ),
            r.is_err() ==> sp_punct(old(self).tv(), old(self).i as int, which) is None,
    {
        if self.peek_punct(which) {
            let n = self.toks.len();
            assert(self.i < n);
            self.i = self.i + 1;
            Ok(())
        } else if self.i < self.toks.len() {
            Err(
                ParseError {
                    kind: ParseErrorKind::ExpectedDelimiter,
                    pos: self.toks[self.i].pos,
                },
            )
        } else {
            Err(ParseError { kind: ParseErrorKind::UnexpectedEnd, pos: self.here() })
        }
    }

    /// An optional `[count]`.
    fn parse_optional_count(&mut self) -> (r: Result<Option<u64>, ParseError>)
        requires
            old(self).wf(),
        ensures
            final(self).wf(),
            final(self).toks == old(self).toks,
            final(self).i >= old(self).i,
            r matches Ok(c) ==> sp_count(old(self).tv(), old(self).i as int) == Some(
                (c, final(self).i as int),
            ),
            r.is_err() ==> sp_count(old(self).tv(), old(self).i as int) is None,
    {
        if self.peek_punct(0x5b) {
            self.expect_punct(0x5b)?;
            let (v, _pos) = self.expect_int()?;
            self.expect_punct(0x5d)?;
            Ok(Some(v))
        } else {
            Ok(None)
        }
    }

    /// One property keyword.
    fn parse_property(&mut self) -> (r: Result<RegisterProperty, ParseError>)
        requires
            old(self).wf(),
        ensures
            final(self).wf(),
            final(self).toks == old(self).toks,
            r.is_ok() ==> final(self).i > old(self).i,
            final(self).i >= old(self).i,
            r matches Ok(p) ==> sp_property(old(self).tv(), old(self).i as int) == Some(
                (prop_view(p), final(self).i as int),
            ),
            r.is_err() ==> sp_property(old(self).tv(), old(self).i as int) is None,
    {
        let (name, pos) = self.expect_ident()?;
        let value = if is_kw_set_to_clear(&name) {
            RegisterPropertyValue::SetToClear
        } else if is_kw_wo(&name) {
            RegisterPropertyValue::WriteOnly
        } else if is_kw_ro(&name) {
            RegisterPropertyValue::ReadOnly
        } else if is_kw_rw(&name) {
            RegisterPropertyValue::ReadWrite
        } else {
            return Err(ParseError { kind: ParseErrorKind::UnknownProperty, pos });
        };
        Ok(RegisterProperty { value, pos })
    }

    /// The parenthesized property list, up to the closing parenthesis.
    fn parse_prop_list(&mut self) -> (r: Result<Vec<RegisterProperty>, ParseError>)
        requires
            old(self).wf(),
        ensures
            final(self).wf(),
            final(self).toks == old(self).toks,
            final(self).i >= old(self).i,
            r matches Ok(ps) ==> sp_prop_list(old(self).tv(), old(self).i as int, Seq::empty())
                == Some((props_views(ps@), final(self).i as int)),
            r.is_err() ==> sp_prop_list(old(self).tv(), old(self).i as int, Seq::empty())
                is None,
    {
        let mut props: Vec<RegisterProperty> = Vec::new();
        proof {
            assert(props_views(props@) =~= Seq::<PropView>::empty());
        }
        loop
            invariant_except_break
                sp_prop_list(old(self).tv(), old(self).i as int, Seq::empty())
                    == sp_prop_list(self.tv(), self.i as int, props_views(props@)),
            invariant
                self.wf(),
                self.toks == old(self).toks,
                self.i >= old(self).i,
            ensures
                self.wf(),
                self.toks == old(self).toks,
                self.i >= old(self).i,
                sp_prop_list(old(self).tv(), old(self).i as int, Seq::empty()) == Some(
                    (props_views(props@), self.i as int),
                ),
            decreases self.rem(),
        {
            if self.peek_punct(0x29) {
                break ;
            }
            let ghost before = props@;
            let p = self.parse_property()?;
            props.push(p);
            proof {
                assert(props@.drop_last() =~= before);
            }
            if self.peek_punct(0x2c) {
                self.expect_punct(0x2c)?;
            } else {
                break ;
            }
        }
        Ok(props)
    }

    /// The optional `: prop` or `: (prop, prop, ...)` suffix.
    fn parse_optional_properties(&mut self) -> (r: Result<Vec<RegisterProperty>, ParseError>)
        requires
            old(self).wf(),
        ensures
            final(self).wf(),
            final(self).toks == old(self).toks,
            final(self).i >= old(self).i,
            r matches Ok(ps) ==> sp_opt_properties(old(self).tv(), old(self).i as int) == Some(
                (props_views(ps@), final(self).i as int),
            ),
            r.is_err() ==> sp_opt_properties(old(self).tv(), old(self).i as int) is None,
    {
        let mut props: Vec<RegisterProperty> = Vec::new();
        proof {
            assert(props_views(props@) =~= Seq::<PropView>::empty());
        }
        if !self.peek_punct(0x3a) {
            return Ok(props);
        }
        self.expect_punct(0x3a)?;
        if self.peek_punct(0x28) {
            self.expect_punct(0x28)?;
            let ps = self.parse_prop_list()?;
            self.expect_punct(0x29)?;
            Ok(ps)
        } else {
            let p = self.parse_property()?;
            props.push(p);
            proof {
                assert(props@.drop_last() =~= Seq::<RegisterProperty>::empty());
                assert(props_views(props@) =~= seq![prop_view(p)]);
            }
            Ok(props)
        }
    }

    /// The optional `{ value => Ident, ... }` variant list.
    fn parse_optional_variants(&mut self) -> (r: Result<
        Option<Vec<RegisterVariant>>,
        ParseError,
    >)
        requires
            old(self).wf(),
        ensures
            final(self).wf(),
            final(self).toks == old(self).toks,
            final(self).i >= old(self).i,
            r matches Ok(vs) ==> match vs {
                Some(vs2) => (forall|k: int|
                    0 <= k < vs2@.len() ==> ident_wf((#[trigger] vs2@[k]).ident@))
                    && sp_opt_variants(old(self).tv(), old(self).i as int) == Some(
                    (Some(variants_views(vs2@)), final(self).i as int),
                ),
                None => sp_opt_variants(old(self).tv(), old(self).i as int) == Some(
                    (None::<Seq<VariantView>>, final(self).i as int),
                ),
            },
            r.is_err() ==> sp_opt_variants(old(self).tv(), old(self).i as int) is None,
    {
        if !self.peek_punct(0x7b) {
            return Ok(None);
        }
        self.expect_punct(0x7b)?;
        let mut vs: Vec<RegisterVariant> = Vec::new();
        proof {
            assert(variants_views(vs@) =~= Seq::<VariantView>::empty());
        }
        loop
            invariant_except_break
                sp_variant_list(old(self).tv(), old(self).i + 1, Seq::empty())
                    == sp_variant_list(self.tv(), self.i as int, variants_views(vs@)),
            invariant
                punct_at(old(self).tv(), old(self).i as int, 0x7b),
                self.wf(),
                self.toks == old(self).toks,
                self.i >= old(self).i,
                forall|k: int| 0 <= k < vs@.len() ==> ident_wf((#[trigger] vs@[k]).ident@),
            ensures
                self.wf(),
                self.toks == old(self).toks,
                self.i >= old(self).i,
                forall|k: int| 0 <= k < vs@.len() ==> ident_wf((#[trigger] vs@[k]).ident@),
                sp_variant_list(old(self).tv(), old(self).i + 1, Seq::empty()) == Some(
                    (variants_views(vs@), self.i as int),
                ),
            decreases self.rem(),
        {
            if self.peek_punct(0x7d) {
                break ;
            }
            let (value, pos) = self.expect_int()?;
            self.expect_punct(0x3e)?;
            let (ident, _ipos) = self.expect_ident()?;
            let ghost before = vs@;
            vs.push(RegisterVariant { value, ident, pos });
            proof {
                assert(vs@.drop_last() =~= before);
            }
            if self.peek_punct(0x2c) {
                self.expect_punct(0x2c)?;
            } else {
                break ;
            }
        }
        self.expect_punct(0x7d)?;
        Ok(Some(vs))
    }

    /// One field: bit position, name, optional count, variants, properties.
    fn parse_field(&mut self) -> (r: Result<RegisterField, ParseError>)
        requires
            old(self).wf(),
        ensures
            final(self).wf(),
            final(self).toks == old(self).toks,
            r.is_ok() ==> final(self).i > old(self).i && field_names_wf(r.unwrap()),
            final(self).i >= old(self).i,
            r matches Ok(f) ==> sp_field(old(self).tv(), old(self).i as int) == Some(
                (field_view(f), final(self).i as int),
            ),
            r.is_err() ==> sp_field(old(self).tv(), old(self).i as int) is None,
    {
        let (lo, pos) = self.expect_int()?;
        let offset = if self.peek_punct(0x2e) {
            self.expect_punct(0x2e)?;
            let (hi, _hpos) = self.expect_int()?;
            RegisterFieldOffset::BitRange(lo, hi)
        } else {
            RegisterFieldOffset::Bit(lo)
        };
        self.expect_punct(0x3e)?;
        let (ident, _ipos) = self.expect_ident()?;
        let count = self.parse_optional_count()?;
        let variants = self.parse_optional_variants()?;
        let properties = self.parse_optional_properties()?;
        Ok(RegisterField { ident, offset, count, variants, properties, pos })
    }

    /// The field list of a register, up to the closing brace.
    fn parse_field_list(&mut self) -> (r: Result<Vec<RegisterField>, ParseError>)
        requires
            old(self).wf(),
        ensures
            final(self).wf(),
            final(self).toks == old(self).toks,
            final(self).i >= old(self).i,
            r matches Ok(fs) ==> (forall|k: int|
                0 <= k < fs@.len() ==> field_names_wf(#[trigger] fs@[k])) && sp_field_list(
                old(self).tv(),
                old(self).i as int,
                Seq::empty(),
            ) == Some((fields_views(fs@), final(self).i as int)),
            r.is_err() ==> sp_field_list(old(self).tv(), old(self).i as int, Seq::empty())
                is None,
    {
        let mut fields: Vec<RegisterField> = Vec::new();
        proof {
            assert(fields_views(fields@) =~= Seq::<FieldView>::empty());
        }
        loop
            invariant_except_break
                sp_field_list(old(self).tv(), old(self).i as int, Seq::empty())
                    == sp_field_list(self.tv(), self.i as int, fields_views(fields@)),
            invariant
                self.wf(),
                self.toks == old(self).toks,
                self.i >= old(self).i,
                forall|k: int| 0 <= k < fields@.len() ==> field_names_wf(
                    #[trigger] fields@[k],
                ),
            ensures
                self.wf(),
                self.toks == old(self).toks,
                self.i >= old(self).i,
                forall|k: int| 0 <= k < fields@.len() ==> field_names_wf(
                    #[trigger] fields@[k],
                ),
                sp_field_list(old(self).tv(), old(self).i as int, Seq::empty()) == Some(
                    (fields_views(fields@), self.i as int),
                ),
            decreases self.rem(),
        {
            if self.peek_punct(0x7d) {
                break ;
            }
            let ghost before = fields@;
            let f = self.parse_field()?;
            fields.push(f);
            proof {
                assert(fields@.drop_last() =~= before);
            }
            if self.peek_punct(0x2c) {
                self.expect_punct(0x2c)?;
            } else {
                break ;
            }
        }
        Ok(fields)
    }

    /// One member: a register or a nested group.
    fn parse_member(&mut self) -> (r: Result<RegisterOrGroup, ParseError>)
        requires
            old(self).wf(),
        ensures
            final(self).wf(),
            final(self).toks == old(self).toks,
            r.is_ok() ==> final(self).i > old(self).i && member_names_wf(r.unwrap()),
            final(self).i >= old(self).i,
            r matches Ok(m) ==> sp_member(old(self).tv(), old(self).i as int) == Some(
                (member_view(m), final(self).i as int),
            ),
            r.is_err() ==> sp_member(old(self).tv(), old(self).i as int) is None,
        decreases old(self).rem(), 0int,
    {
        let (offset, pos) = self.expect_int()?;
        self.expect_punct(0x3e)?;
        let (kw, kwpos) = self.expect_ident()?;
        if is_kw_group(&kw) {
            let (ident, _ipos) = self.expect_ident()?;
            let count = self.parse_optional_count()?;
            self.expect_punct(0x7b)?;
            let members = self.parse_members()?;
            self.expect_punct(0x7d)?;
            Ok(RegisterOrGroup::Group(RegisterGroup { ident, offset, count, members, pos }))
        } else {
            let ty = if is_kw_reg8(&kw) {
                RegisterType::Reg8
            } else if is_kw_reg16(&kw) {
                RegisterType::Reg16
            } else if is_kw_reg32(&kw) {
                RegisterType::Reg32
            } else if is_kw_reg64(&kw) {
                RegisterType::Reg64
            } else {
                return Err(ParseError { kind: ParseErrorKind::UnknownWidthToken, pos: kwpos });
            };
            let (ident, _ipos) = self.expect_ident()?;
            let count = self.parse_optional_count()?;
            self.expect_punct(0x7b)?;
            let fields = self.parse_field_list()?;
            self.expect_punct(0x7d)?;
            Ok(RegisterOrGroup::Single(Register { ident, offset, ty, count, fields, pos }))
        }
    }

    /// A comma-separated member list, up to the closing brace.
    fn parse_members(&mut self) -> (r: Result<Vec<RegisterOrGroup>, ParseError>)
        requires
            old(self).wf(),
        ensures
            final(self).wf(),
            final(self).toks == old(self).toks,
            final(self).i >= old(self).i,
            r.is_ok() ==> members_names_wf(r.unwrap()@),
            r matches Ok(ms) ==> sp_members(old(self).tv(), old(self).i as int, Seq::empty())
                == Some((members_views(ms@), final(self).i as int)),
            r.is_err() ==> sp_members(old(self).tv(), old(self).i as int, Seq::empty())
                is None,
        decreases old(self).rem(), 1int,
    {
        let mut members: Vec<RegisterOrGroup> = Vec::new();
        proof {
            assert(members_views(members@) =~= Seq::<MemberView>::empty());
        }
        loop
            invariant_except_break
                sp_members(old(self).tv(), old(self).i as int, Seq::empty()) == sp_members(
                    self.tv(),
                    self.i as int,
                    members_views(members@),
                ),
            invariant
                self.wf(),
                self.toks == old(self).toks,
                self.i >= old(self).i,
                members_names_wf(members@),
            ensures
                self.wf(),
                self.toks == old(self).toks,
                self.i >= old(self).i,
                members_names_wf(members@),
                sp_members(old(self).tv(), old(self).i as int, Seq::empty()) == Some(
                    (members_views(members@), self.i as int),
                ),
            decreases self.rem(),
        {
            if self.peek_punct(0x7d) || self.at_end() {
                break ;
            }
            let ghost before = members@;
            let m = self.parse_member()?;
            members.push(m);
            proof {
                assert(members@.drop_last() =~= before);
            }
            if self.peek_punct(0x2c) {
                self.expect_punct(0x2c)?;
            } else {
                break ;
            }
        }
        Ok(members)
    }

    /// The whole block: name, optional base offset, and the member list in
    /// braces.  Anything after the closing brace is trailing input.
    fn parse_ioregs(&mut self) -> (r: Result<IoRegs, ParseError>)
        requires
            old(self).wf(),
            old(self).i == 0,
        ensures
            final(self).wf(),
            final(self).toks == old(self).toks,
            r.is_ok() ==> block_names_wf(r.unwrap()),
            r matches Ok(b) ==> sp_parse(old(self).tv()) == Some(ioregs_view(b)),
            r.is_err() ==> sp_parse(old(self).tv()) is None,
    {
        let (name, pos) = self.expect_ident()?;
        let location: u64 = if self.peek_punct(0x40) {
            self.expect_punct(0x40)?;
            let (v, _vpos) = self.expect_int()?;
            v
        } else {
            0
        };
        self.expect_punct(0x3d)?;
        self.expect_punct(0x7b)?;
        let registers = self.parse_members()?;
        self.expect_punct(0x7d)?;
        if !self.at_end() {
            return Err(ParseError { kind: ParseErrorKind::TrailingInput, pos: self.here() });
        }
        Ok(IoRegs { name, location, registers, pos })
    }
}

/// Parse one block from its description text: exactly the mathematical
/// parse — the block's image where it exists, an error where it does not.
pub fn parse_block(src: &[u8]) -> (r: Result<IoRegs, ParseError>)
    ensures
        r.is_ok() ==> block_names_wf(r.unwrap()),
        r matches Ok(b) ==> spec_parse_src(src@) == Some(ioregs_view(b)),
        r.is_err() ==> spec_parse_src(src@) is None,
{
    let toks = match lex(src) {
        Ok(toks) => toks,
        Err(e) => {
            return Err(ParseError { kind: ParseErrorKind::Lex, pos: e.pos });
        },
    };
    let mut p = Parser { toks, i: 0 };
    let r = p.parse_ioregs();
    proof {
        assert(spec_tokens(src@) == Some(token_views(p.toks@)));
    }
    r
}

/// `s` is the keyword `group`.
fn is_kw_group(s: &Vec<u8>) -> (r: bool)
    ensures
        r == (s@ == kw_group_bytes()),
{
    let r = s.len() == 5 && s[0] == 0x67 && s[1] == 0x72 && s[2] == 0x6f && s[3] == 0x75
        && s[4] == 0x70;
    proof {
        if r {
            assert(s@ =~= kw_group_bytes());
        } else {
            if s@ == kw_group_bytes() {
                assert(s@.len() == 5);
                assert(s@[0] == 0x67 && s@[1] == 0x72 && s@[2] == 0x6f && s@[3] == 0x75
                    && s@[4] == 0x70);
            }
        }
    }
    r
}

/// `s` is `reg8`.
fn is_kw_reg8(s: &Vec<u8>) -> (r: bool)
    ensures
        r == (s@ == kw_reg8_bytes()),
{
    let r = s.len() == 4 && s[0] == 0x72 && s[1] == 0x65 && s[2] == 0x67 && s[3] == 0x38;
    proof {
        if r {
            assert(s@ =~= kw_reg8_bytes());
        } else {
            if s@ == kw_reg8_bytes() {
                assert(s@.len() == 4);
                assert(s@[0] == 0x72 && s@[1] == 0x65 && s@[2] == 0x67 && s@[3] == 0x38);
            }
        }
    }
    r
}

/// `s` is `reg16`.
fn is_kw_reg16(s: &Vec<u8>) -> (r: bool)
    ensures
        r == (s@ == kw_reg16_bytes()),
{
    let r = s.len() == 5 && s[0] == 0x72 && s[1] == 0x65 && s[2] == 0x67 && s[3] == 0x31
        && s[4] == 0x36;
    proof {
        if r {
            assert(s@ =~= kw_reg16_bytes());
        } else {
            if s@ == kw_reg16_bytes() {
                assert(s@.len() == 5);
                assert(s@[0] == 0x72 && s@[1] == 0x65 && s@[2] == 0x67 && s@[3] == 0x31
                    && s@[4] == 0x36);
            }
        }
    }
    r
}

/// `s` is `reg32`.
fn is_kw_reg32(s: &Vec<u8>) -> (r: bool)
    ensures
        r == (s@ == kw_reg32_bytes()),
{
    let r = s.len() == 5 && s[0] == 0x72 && s[1] == 0x65 && s[2] == 0x67 && s[3] == 0x33
        && s[4] == 0x32;
    proof {
        if r {
            assert(s@ =~= kw_reg32_bytes());
        } else {
            if s@ == kw_reg32_bytes() {
                assert(s@.len() == 5);
                assert(s@[0] == 0x72 && s@[1] == 0x65 && s@[2] == 0x67 && s@[3] == 0x33
                    && s@[4] == 0x32);
            }
        }
    }
    r
}

/// `s` is `reg64`.
fn is_kw_reg64(s: &Vec<u8>) -> (r: bool)
    ensures
        r == (s@ == kw_reg64_bytes()),
{
    let r = s.len() == 5 && s[0] == 0x72 && s[1] == 0x65 && s[2] == 0x67 && s[3] == 0x36
        && s[4] == 0x34;
    proof {
        if r {
            assert(s@ =~= kw_reg64_bytes());
        } else {
            if s@ == kw_reg64_bytes() {
                assert(s@.len() == 5);
                assert(s@[0] == 0x72 && s@[1] == 0x65 && s@[2] == 0x67 && s@[3] == 0x36
                    && s@[4] == 0x34);
            }
        }
    }
    r
}

/// `s` is `wo`.
fn is_kw_wo(s: &Vec<u8>) -> (r: bool)
    ensures
        r == (s@ == kw_wo_bytes()),
{
    let r = s.len() == 2 && s[0] == 0x77 && s[1] == 0x6f;
    proof {
        if r {
            assert(s@ =~= kw_wo_bytes());
        } else {
            if s@ == kw_wo_bytes() {
                assert(s@.len() == 2);
                assert(s@[0] == 0x77 && s@[1] == 0x6f);
            }
        }
    }
    r
}

/// `s` is `ro`.
fn is_kw_ro(s: &Vec<u8>) -> (r: bool)
    ensures
        r == (s@ == kw_ro_bytes()),
{
    let r = s.len() == 2 && s[0] == 0x72 && s[1] == 0x6f;
    proof {
        if r {
            assert(s@ =~= kw_ro_bytes());
        } else {
            if s@ == kw_ro_bytes() {
                assert(s@.len() == 2);
                assert(s@[0] == 0x72 && s@[1] == 0x6f);
            }
        }
    }
    r
}

/// `s` is `rw`.
fn is_kw_rw(s: &Vec<u8>) -> (r: bool)
    ensures
        r == (s@ == kw_rw_bytes()),
{
    let r = s.len() == 2 && s[0] == 0x72 && s[1] == 0x77;
    proof {
        if r {
            assert(s@ =~= kw_rw_bytes());
        } else {
            if s@ == kw_rw_bytes() {
                assert(s@.len() == 2);
                assert(s@[0] == 0x72 && s@[1] == 0x77);
            }
        }
    }
    r
}

/// `s` is `set_to_clear`.
fn is_kw_set_to_clear(s: &Vec<u8>) -> (r: bool)
    ensures
        r == (s@ == kw_set_to_clear_bytes()),
{
    let r = s.len() == 12 && s[0] == 0x73 && s[1] == 0x65 && s[2] == 0x74 && s[3] == 0x5f
        && s[4] == 0x74 && s[5] == 0x6f && s[6] == 0x5f && s[7] == 0x63 && s[8] == 0x6c && s[9]
        == 0x65 && s[10] == 0x61 && s[11] == 0x72;
    proof {
        if r {
            assert(s@ =~= kw_set_to_clear_bytes());
        } else {
            if s@ == kw_set_to_clear_bytes() {
                assert(s@.len() == 12);
                assert(s@[0] == 0x73 && s@[1] == 0x65 && s@[2] == 0x74 && s@[3] == 0x5f
                    && s@[4] == 0x74 && s@[5] == 0x6f && s@[6] == 0x5f && s@[7] == 0x63
                    && s@[8] == 0x6c && s@[9] == 0x65 && s@[10] == 0x61 && s@[11] == 0x72);
            }
        }
    }
    r
}

} // verus!
