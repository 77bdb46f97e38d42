//! What the functions of `places` keep.
use vstd::prelude::*;
use crate::ast::Expr;
use crate::codegen::ir::Operand;
use crate::codegen::keep;
use crate::codegen::keep_lower;
use crate::codegen::places;
use crate::codegen::nest::Nest;
use crate::codegen::state::State;
use crate::token::Span;

verus! {

/// `this_ptr` keeps what was there.
pub broadcast proof fn keeps_this_ptr<'a>(base: State<'a>, st: State<'a>, span: Span)
    requires
        #[trigger] keep::kept(base, st),
    ensures
        match #[trigger] places::this_ptr(st, span) {
            Ok((_, after)) => keep::kept(base, after),
            Err(_) => true,
        },
{
    broadcast use {keep_lower::keeps_class_ty, keep_lower::keeps_load};

    reveal(places::this_ptr);
}

/// `struct_var` keeps what was there.
pub broadcast proof fn keeps_struct_var<'a>(base: State<'a>, st: State<'a>, v: Operand)
    requires
        #[trigger] keep::kept(base, st),
    ensures
        match #[trigger] places::struct_var(st, v) {
            Ok((_, after)) => keep::kept(base, after),
            Err(_) => true,
        },
{

    reveal(places::struct_var);
}

/// `base_ptr` keeps what was there.
pub broadcast proof fn keeps_base_ptr<'a>(base: State<'a>, nest: Nest<'a>, st: State<'a>, o: &'a Expr)
    requires
        #[trigger] keep::kept(base, st),
        keep::nest_keeps(nest),
    ensures
        match #[trigger] places::base_ptr(nest, st, o) {
            Ok((_, after)) => keep::kept(base, after),
            Err(_) => true,
        },
{
    broadcast use {keeps_struct_var, keeps_this_ptr};

    reveal(places::base_ptr);
}

/// `field_ptr` keeps what was there.
pub broadcast proof fn keeps_field_ptr<'a>(base: State<'a>, nest: Nest<'a>, st: State<'a>, o: &'a Expr, f: Seq<char>)
    requires
        #[trigger] keep::kept(base, st),
        keep::nest_keeps(nest),
    ensures
        match #[trigger] places::field_ptr(nest, st, o, f) {
            Ok((_, after)) => keep::kept(base, after),
            Err(_) => true,
        },
{
    broadcast use {keep_lower::keeps_field_at, keeps_base_ptr};

    reveal(places::field_ptr);
}

/// `place` keeps what was there.
pub broadcast proof fn keeps_place<'a>(base: State<'a>, nest: Nest<'a>, st: State<'a>, e: &'a Expr)
    requires
        #[trigger] keep::kept(base, st),
        keep::nest_keeps(nest),
    ensures
        match #[trigger] places::place(nest, st, e) {
            Ok((_, after)) => keep::kept(base, after),
            Err(_) => true,
        },
{
    broadcast use {keeps_field_ptr, keeps_this_ptr};

    reveal(places::place);
}

} // verus!
