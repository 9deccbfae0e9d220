//! A register-map description language and its code generator.
//!
//! A peripheral's memory-mapped register block is described in a compact
//! declarative syntax (offsets, widths, bitfields, access policies).  The
//! library parses that description, validates it, plans a layout-compatible
//! struct with explicit padding, and derives per-register reader and updater
//! facades whose bit-level behaviour is specified and proved here.

use vstd::prelude::*;

pub mod ast;
pub mod bits;
pub mod board;
pub mod casing;
pub mod emit;
pub mod hal;
pub mod laws;
pub mod layout;
pub mod lexer;
pub mod machine;
pub mod parser;
pub mod render;
pub mod validate;

verus! {

/// Everything the generator produces for one block: the parsed and
/// validated data model, and the emission plan derived from it.
pub struct BuildOutput {
    pub ast: ast::IoRegs,
    pub plan: emit::UnionPlan,
}

/// A build-time failure: the description did not parse, or did not
/// validate.  Nothing is deferred to run time.
#[derive(Clone, Copy, PartialEq, Eq, Structural, Debug)]
pub enum BuildError {
    Parse(parser::ParseError),
    Validate(validate::ValidateError),
}

/// The generator: one block description in, its emission plan out.
///
/// `force_unchecked` selects the total primitive-to-variant conversion
/// even for non-exhaustive variant sets; `with_alignment` asks for the
/// offset self-test plan.  On success the returned block is exactly the
/// parse of the text, it is well-formed, and the plan is faithful to it;
/// a parse error comes exactly when the text has no parse, and a
/// validation error exactly when the parsed block is not well-formed.
pub fn ioregs(src: &[u8], force_unchecked: bool, with_alignment: bool) -> (r: Result<
    BuildOutput,
    BuildError,
>)
    ensures
        match r {
            Ok(out) => parser::spec_parse_src(src@) == Some(parser::ioregs_view(out.ast))
                && validate::block_wf(out.ast) && ast::block_names_wf(out.ast)
                && emit::union_plan_matches(
                out.plan,
                out.ast.name@,
                out.ast.registers@,
                force_unchecked,
            ) && layout::plan_matches(out.plan.layout, out.ast.registers@),
            Err(BuildError::Parse(_e)) => parser::spec_parse_src(src@) is None,
            Err(BuildError::Validate(e)) => exists|b: ast::IoRegs|
                parser::spec_parse_src(src@) == Some(parser::ioregs_view(b))
                    && ast::block_names_wf(b) && !validate::block_wf(b)
                    && validate::list_err_cond(b.registers@, e.kind),
        },
{
    let ast = match parser::parse_block(src) {
        Ok(a) => a,
        Err(e) => {
            return Err(BuildError::Parse(e));
        },
    };
    match validate::validate_block(&ast) {
        Ok(_u) => {},
        Err(e) => {
            proof {
                assert(parser::spec_parse_src(src@) == Some(parser::ioregs_view(ast))
                    && ast::block_names_wf(ast) && !validate::block_wf(ast)
                    && validate::list_err_cond(ast.registers@, e.kind));
            }
            return Err(BuildError::Validate(e));
        },
    }
    let plan = emit::build_union(&ast, force_unchecked, with_alignment);
    Ok(BuildOutput { ast, plan })
}

} // verus!
