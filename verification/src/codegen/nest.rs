//! How the lowering of constructs calls itself for what is nested in them.
use vstd::prelude::*;
use crate::ast::{
    Block, Expr, Type,
};
use crate::codegen::ir::{
    Guess, Operand,
};
use crate::codegen::lower;
use crate::codegen::infer_types;
use crate::codegen::places;
use crate::codegen::exprs;
use crate::codegen::stmts;
use crate::codegen::state::{Failure, State, Trouble};
use crate::token::Span;

verus! {

/// How what is nested in a construct is lowered.
pub struct Nest<'a> {
    pub ty: spec_fn(State<'a>, &'a Type) -> Result<(usize, State<'a>), Failure<'a>>,
    pub held_ty: spec_fn(State<'a>, &'a Type) -> Result<(Option<usize>, State<'a>), Failure<'a>>,
    pub infer: spec_fn(State<'a>, &'a Expr) -> Result<Guess, Trouble>,
    pub place: spec_fn(State<'a>, &'a Expr) -> Result<(Operand, State<'a>), Failure<'a>>,
    pub expr: spec_fn(State<'a>, &'a Expr) -> Result<(Operand, State<'a>), Failure<'a>>,
    pub run_block: spec_fn(State<'a>, &'a Block) -> Result<(bool, State<'a>), Failure<'a>>,
}

/// What is wrong with a program whose constructs are nested too deeply.
pub open spec fn too_deep() -> Trouble {
    Trouble { message: "nested too deeply"@, span: Span { start: 0, end: 0 } }
}

/// How constructs that are nested at most `depth` deep are lowered.
#[verifier::opaque]
pub open spec fn nest<'a>(depth: nat) -> Nest<'a>
    decreases depth,
{
    if depth == 0 {
        Nest {
            ty: |st: State<'a>, t: &'a Type| Err(Failure { trouble: too_deep(), after: st }),
            held_ty: |st: State<'a>, t: &'a Type| Err(Failure { trouble: too_deep(), after: st }),
            infer: |st: State<'a>, e: &'a Expr| Err(too_deep()),
            place: |st: State<'a>, e: &'a Expr| Err(Failure { trouble: too_deep(), after: st }),
            expr: |st: State<'a>, e: &'a Expr| Err(Failure { trouble: too_deep(), after: st }),
            run_block: |st: State<'a>, b: &'a Block| Err(Failure { trouble: too_deep(), after: st }),
        }
    } else {
        let inner = nest((depth - 1) as nat);
        Nest {
            ty: |st: State<'a>, t: &'a Type| lower::ty(inner, st, t),
            held_ty: |st: State<'a>, t: &'a Type| lower::held_ty(inner, st, t),
            infer: |st: State<'a>, e: &'a Expr| infer_types::infer(inner, st, e),
            place: |st: State<'a>, e: &'a Expr| places::place(inner, st, e),
            expr: |st: State<'a>, e: &'a Expr| exprs::expr(inner, st, e),
            run_block: |st: State<'a>, b: &'a Block| stmts::run_block(inner, st, b),
        }
    }
}

} // verus!
