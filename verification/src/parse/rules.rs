//! How the rules of the grammar call each other for what is nested.
use vstd::prelude::*;
use crate::parse::grammar_types;
use crate::parse::grammar_exprs;
use crate::parse::grammar_stmts;
use crate::parse::input::{Input, Parsed};
use crate::tree;

verus! {

/// The rules for what is nested in a construct.
pub struct Rules {
    pub ty: spec_fn(Input, bool, int) -> Parsed<tree::Type>,
    pub pattern: spec_fn(Input, int) -> Parsed<tree::Pattern>,
    pub expr: spec_fn(Input, int) -> Parsed<tree::Expr>,
    pub conditional: spec_fn(Input, int) -> Parsed<tree::Expr>,
    pub bin: spec_fn(Input, int, int) -> Parsed<tree::Expr>,
    pub block: spec_fn(Input, int, int) -> Parsed<tree::Block>,
}

/// The rules for constructs that are nested at most `depth` deep.
#[verifier::opaque]
pub open spec fn rules(depth: nat) -> Rules
    decreases depth,
{
    if depth == 0 {
        Rules {
            ty: |x: Input, m: bool, i: int| Err(i),
            pattern: |x: Input, i: int| Err(i),
            expr: |x: Input, i: int| Err(i),
            conditional: |x: Input, i: int| Err(i),
            bin: |x: Input, l: int, i: int| Err(i),
            block: |x: Input, s: int, i: int| Err(i),
        }
    } else {
        let nest = rules((depth - 1) as nat);
        Rules {
            ty: |x: Input, m: bool, i: int| grammar_types::ty(nest, x, m, i),
            pattern: |x: Input, i: int| grammar_types::pattern(nest, x, i),
            expr: |x: Input, i: int| grammar_exprs::expr(nest, x, i),
            conditional: |x: Input, i: int| grammar_exprs::conditional(nest, x, i),
            bin: |x: Input, l: int, i: int| grammar_exprs::bin(nest, x, l, i),
            block: |x: Input, s: int, i: int| grammar_stmts::block(nest, x, s, i),
        }
    }
}

} // verus!
