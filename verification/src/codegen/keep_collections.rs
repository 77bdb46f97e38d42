//! What the functions of `collections` keep.
use vstd::prelude::*;
use crate::ast::CallArg;
use crate::codegen::ir::{
    Family, Operand, Val,
};
use crate::codegen::collections;
use crate::codegen::keep;
use crate::codegen::keep_calls;
use crate::codegen::keep_exprs;
use crate::codegen::keep_lower;
use crate::codegen::keep_state;
use crate::codegen::nest::Nest;
use crate::codegen::state::State;
use crate::token::Span;

verus! {

/// `trap_unless` keeps what was there.
pub broadcast proof fn keeps_trap_unless<'a>(base: State<'a>, st: State<'a>, c: Operand)
    requires
        #[trigger] keep::kept(base, st),
    ensures
        keep::kept(base, #[trigger] collections::trap_unless(st, c)),
{
    broadcast use {keep_lower::keeps_stop, keep_state::keeps_at, keep_state::keeps_block, keep_state::keeps_finish};

    reveal(collections::trap_unless);
}

/// `vec_push` keeps what was there.
pub broadcast proof fn keeps_vec_push<'a>(base: State<'a>, st: State<'a>, p: Operand, v: Operand)
    requires
        #[trigger] keep::kept(base, st),
    ensures
        keep::kept(base, #[trigger] collections::vec_push(st, p, v)),
{
    broadcast use {keep_lower::keeps_arith, keep_lower::keeps_coerce, keep_lower::keeps_compare, keep_lower::keeps_elem_at, keep_lower::keeps_field_at, keep_lower::keeps_load, keep_lower::keeps_stop, keep_lower::keeps_store, keep_state::keeps_at, keep_state::keeps_block, keep_state::keeps_finish};

    reveal(collections::vec_push);
}

/// `clear` keeps what was there.
pub broadcast proof fn keeps_clear<'a>(base: State<'a>, st: State<'a>, f: Family, p: Operand)
    requires
        #[trigger] keep::kept(base, st),
    ensures
        keep::kept(base, #[trigger] collections::clear(st, f, p)),
{
    broadcast use {keep_lower::keeps_field_at, keep_lower::keeps_store};

    reveal(collections::clear);
}

/// `buffer_has` keeps what was there.
pub broadcast proof fn keeps_buffer_has<'a>(base: State<'a>, st: State<'a>, buf: Val, t: usize, n: Operand, key: Operand)
    requires
        #[trigger] keep::kept(base, st),
    ensures
        keep::kept(base, (#[trigger] collections::buffer_has(st, buf, t, n, key)).1),
{
    broadcast use {keep_exprs::keeps_key_eq, keep_lower::keeps_arith, keep_lower::keeps_coerce, keep_lower::keeps_compare, keep_lower::keeps_elem_at, keep_lower::keeps_load, keep_lower::keeps_slot, keep_lower::keeps_store, keep_state::keeps_at, keep_state::keeps_block, keep_state::keeps_finish};

    reveal(collections::buffer_has);
}

/// `edge_of_array` keeps what was there.
pub broadcast proof fn keeps_edge_of_array<'a>(base: State<'a>, st: State<'a>, p: Operand, first: bool)
    requires
        #[trigger] keep::kept(base, st),
    ensures
        keep::kept(base, (#[trigger] collections::edge_of_array(st, p, first)).1),
{
    broadcast use {keeps_trap_unless, keep_lower::keeps_elem_at, keep_lower::keeps_load};

    reveal(collections::edge_of_array);
}

/// `method_arg` keeps what was there.
pub broadcast proof fn keeps_method_arg<'a>(base: State<'a>, nest: Nest<'a>, st: State<'a>, args: &'a Vec<CallArg>, i: usize, m: Seq<char>, span: Span)
    requires
        #[trigger] keep::kept(base, st),
        keep::nest_keeps(nest),
    ensures
        match #[trigger] collections::method_arg(nest, st, args, i, m, span) {
            Ok((_, after)) => keep::kept(base, after),
            Err(_) => true,
        },
{
    broadcast use keep_calls::keeps_call_arg;

    reveal(collections::method_arg);
}

/// `measure` keeps what was there.
pub broadcast proof fn keeps_measure<'a>(base: State<'a>, st: State<'a>, f: Family, p: Operand)
    requires
        #[trigger] keep::kept(base, st),
    ensures
        keep::kept(base, (#[trigger] collections::measure(st, f, p)).1),
{
    broadcast use {keep_lower::keeps_field_at, keep_lower::keeps_load};

    reveal(collections::measure);
}

/// `count_of` keeps what was there.
pub broadcast proof fn keeps_count_of<'a>(base: State<'a>, st: State<'a>, f: Family, n: Operand)
    requires
        #[trigger] keep::kept(base, st),
    ensures
        keep::kept(base, (#[trigger] collections::count_of(st, f, n)).1),
{
    broadcast use keep_lower::keeps_runtime1;

    reveal(collections::count_of);
}

/// `vec_pop` keeps what was there.
pub broadcast proof fn keeps_vec_pop<'a>(base: State<'a>, st: State<'a>, p: Operand, n: Operand)
    requires
        #[trigger] keep::kept(base, st),
    ensures
        keep::kept(base, (#[trigger] collections::vec_pop(st, p, n)).1),
{
    broadcast use {keeps_trap_unless, keep_lower::keeps_arith, keep_lower::keeps_compare, keep_lower::keeps_elem_at, keep_lower::keeps_field_at, keep_lower::keeps_load, keep_lower::keeps_store};

    reveal(collections::vec_pop);
}

/// `has_element` keeps what was there.
pub broadcast proof fn keeps_has_element<'a>(base: State<'a>, st: State<'a>, f: Family, p: Operand, n: Operand, key: Operand)
    requires
        #[trigger] keep::kept(base, st),
    ensures
        keep::kept(base, (#[trigger] collections::has_element(st, f, p, n, key)).1),
{
    broadcast use {keeps_buffer_has, keep_lower::keeps_field_at};

    reveal(collections::has_element);
}

/// `edge_of_vec` keeps what was there.
pub broadcast proof fn keeps_edge_of_vec<'a>(base: State<'a>, st: State<'a>, p: Operand, n: Operand, first: bool)
    requires
        #[trigger] keep::kept(base, st),
    ensures
        keep::kept(base, (#[trigger] collections::edge_of_vec(st, p, n, first)).1),
{
    broadcast use {keeps_trap_unless, keep_lower::keeps_arith, keep_lower::keeps_compare, keep_lower::keeps_elem_at, keep_lower::keeps_field_at, keep_lower::keeps_load};

    reveal(collections::edge_of_vec);
}

/// `map_remove` keeps what was there.
pub broadcast proof fn keeps_map_remove<'a>(base: State<'a>, st: State<'a>, p: Operand, n: Operand, key: Operand)
    requires
        #[trigger] keep::kept(base, st),
    ensures
        keep::kept(base, (#[trigger] collections::map_remove(st, p, n, key)).1),
{
    broadcast use {keep_exprs::keeps_map_find, keep_lower::keeps_arith, keep_lower::keeps_compare, keep_lower::keeps_elem_at, keep_lower::keeps_field_at, keep_lower::keeps_load, keep_lower::keeps_slot, keep_lower::keeps_store, keep_state::keeps_at, keep_state::keeps_block, keep_state::keeps_finish};

    reveal(collections::map_remove);
}

/// `run_method` keeps what was there.
pub broadcast proof fn keeps_run_method<'a>(base: State<'a>, nest: Nest<'a>, st: State<'a>, f: Family, p: Operand, m: Seq<char>, args: &'a Vec<CallArg>, span: Span)
    requires
        #[trigger] keep::kept(base, st),
        keep::nest_keeps(nest),
    ensures
        match #[trigger] collections::run_method(nest, st, f, p, m, args, span) {
            Ok((_, after)) => keep::kept(base, after),
            Err(_) => true,
        },
{
    broadcast use {keeps_clear, keeps_count_of, keeps_edge_of_array, keeps_edge_of_vec, keeps_has_element, keeps_map_remove, keeps_measure, keeps_method_arg, keeps_vec_pop, keep_exprs::keeps_map_get, keep_lower::keeps_compare};

    reveal(collections::run_method);
}

/// `collection_method` keeps what was there.
pub broadcast proof fn keeps_collection_method<'a>(base: State<'a>, nest: Nest<'a>, st: State<'a>, n: Seq<char>, m: Seq<char>, args: &'a Vec<CallArg>, span: Span)
    requires
        #[trigger] keep::kept(base, st),
        keep::nest_keeps(nest),
    ensures
        match #[trigger] collections::collection_method(nest, st, n, m, args, span) {
            Ok((_, after)) => keep::kept(base, after),
            Err(_) => true,
        },
{
    broadcast use keeps_run_method;

    reveal(collections::collection_method);
}

} // verus!
