//! What the functions of `lower` keep.
use vstd::prelude::*;
use crate::ast::Type;
use crate::codegen::ir::{
    Arith, Cast, Operand, Pred, Runtime, TyDef, Val,
};
use crate::codegen::keep;
use crate::codegen::keep_state;
use crate::codegen::lower;
use crate::codegen::state;
use crate::codegen::nest::Nest;
use crate::codegen::state::State;

verus! {

/// `array_of` keeps what was there.
pub broadcast proof fn keeps_array_of<'a>(base: State<'a>, st: State<'a>, t: usize, n: u64)
    requires
        #[trigger] keep::kept(base, st),
    ensures
        keep::kept(base, (#[trigger] lower::array_of(st, t, n)).1),
{
    broadcast use keep_state::keeps_intern;

    reveal(lower::array_of);
}

/// `pair_of` keeps what was there.
pub broadcast proof fn keeps_pair_of<'a>(base: State<'a>, st: State<'a>, a: usize, b: usize)
    requires
        #[trigger] keep::kept(base, st),
    ensures
        keep::kept(base, (#[trigger] lower::pair_of(st, a, b)).1),
{
    broadcast use keep_state::keeps_intern;

    reveal(lower::pair_of);
}

/// `vec_of` keeps what was there.
pub broadcast proof fn keeps_vec_of<'a>(base: State<'a>, st: State<'a>, e: usize)
    requires
        #[trigger] keep::kept(base, st),
    ensures
        keep::kept(base, (#[trigger] lower::vec_of(st, e)).1),
{
    broadcast use {keeps_array_of, keeps_pair_of};

    reveal(lower::vec_of);
}

/// `map_of` keeps what was there.
pub broadcast proof fn keeps_map_of<'a>(base: State<'a>, st: State<'a>, k: usize, v: usize)
    requires
        #[trigger] keep::kept(base, st),
    ensures
        keep::kept(base, (#[trigger] lower::map_of(st, k, v)).1),
{
    broadcast use {keeps_array_of, keeps_pair_of, keep_state::keeps_intern};

    reveal(lower::map_of);
}

/// `class_ty` keeps what was there.
pub broadcast proof fn keeps_class_ty<'a>(base: State<'a>, st: State<'a>, l: usize)
    requires
        #[trigger] keep::kept(base, st),
    ensures
        keep::kept(base, (#[trigger] lower::class_ty(st, l)).1),
{
    broadcast use keep_state::keeps_intern;

    reveal(lower::class_ty);
}

/// `named_ty` keeps what was there.
pub broadcast proof fn keeps_named_ty<'a>(base: State<'a>, st: State<'a>, n: Seq<char>)
    requires
        #[trigger] keep::kept(base, st),
    ensures
        match #[trigger] lower::named_ty(st, n) {
            Ok((_, after)) => keep::kept(base, after),
            Err(_) => true,
        },
{
    broadcast use {keeps_class_ty, keep_state::keeps_intern};

    reveal(lower::named_ty);
}

/// `generic_ty` keeps what was there.
pub broadcast proof fn keeps_generic_ty<'a>(base: State<'a>, st: State<'a>, n: Seq<char>)
    requires
        #[trigger] keep::kept(base, st),
    ensures
        match #[trigger] lower::generic_ty(st, n) {
            Ok((_, after)) => keep::kept(base, after),
            Err(_) => true,
        },
{
    broadcast use keeps_class_ty;

    reveal(lower::generic_ty);
}

/// `tuple_ty` keeps what was there.
pub broadcast proof fn keeps_tuple_ty<'a>(base: State<'a>, nest: Nest<'a>, st: State<'a>, ts: &'a Vec<Type>, i: usize)
    requires
        #[trigger] keep::kept(base, st),
        keep::nest_keeps(nest),
    ensures
        match #[trigger] lower::tuple_ty(nest, st, ts, i) {
            Ok((_, after)) => keep::kept(base, after),
            Err(_) => true,
        },
    decreases ts.len() - i,
{
    broadcast use keep_state::keeps_intern;

    reveal(lower::tuple_ty);
    if i >= ts.len() {
    } else {
        match (nest.ty)(st, &ts@[i as int]) {
            Ok((a, st)) => {
                keeps_tuple_ty(base, nest, st, ts, (i + 1) as usize);
                match lower::tuple_ty(nest, st, ts, (i + 1) as usize) {
                    Ok((b, st)) => {
                        let (r, st) = state::intern(st, TyDef::Cons(a, b));
                    },
                    Err(_) => {},
                }
            },
            Err(_) => {},
        }
    }
}

/// `slot_ty` keeps what was there.
pub broadcast proof fn keeps_slot_ty<'a>(base: State<'a>, nest: Nest<'a>, st: State<'a>, t: &'a Type, any: usize)
    requires
        #[trigger] keep::kept(base, st),
        keep::nest_keeps(nest),
    ensures
        match #[trigger] lower::slot_ty(nest, st, t, any) {
            Ok((_, after)) => keep::kept(base, after),
            Err(_) => true,
        },
{

    reveal(lower::slot_ty);
}

/// `ty` keeps what was there.
pub broadcast proof fn keeps_ty<'a>(base: State<'a>, nest: Nest<'a>, st: State<'a>, t: &'a Type)
    requires
        #[trigger] keep::kept(base, st),
        keep::nest_keeps(nest),
    ensures
        match #[trigger] lower::ty(nest, st, t) {
            Ok((_, after)) => keep::kept(base, after),
            Err(_) => true,
        },
{
    broadcast use {keeps_array_of, keeps_generic_ty, keeps_map_of, keeps_named_ty, keeps_pair_of, keeps_slot_ty, keeps_tuple_ty, keeps_vec_of};

    reveal(lower::ty);
}

/// `held_or` keeps what was there.
pub broadcast proof fn keeps_held_or<'a>(base: State<'a>, nest: Nest<'a>, st: State<'a>, t: &'a Type, other: usize)
    requires
        #[trigger] keep::kept(base, st),
        keep::nest_keeps(nest),
    ensures
        match #[trigger] lower::held_or(nest, st, t, other) {
            Ok((_, after)) => keep::kept(base, after),
            Err(_) => true,
        },
{

    reveal(lower::held_or);
}

/// `held_slot` keeps what was there.
pub broadcast proof fn keeps_held_slot<'a>(base: State<'a>, nest: Nest<'a>, st: State<'a>, t: &'a Type, any: usize)
    requires
        #[trigger] keep::kept(base, st),
        keep::nest_keeps(nest),
    ensures
        match #[trigger] lower::held_slot(nest, st, t, any) {
            Ok((_, after)) => keep::kept(base, after),
            Err(_) => true,
        },
{
    broadcast use keeps_held_or;

    reveal(lower::held_slot);
}

/// `held_tuple` keeps what was there.
pub broadcast proof fn keeps_held_tuple<'a>(base: State<'a>, nest: Nest<'a>, st: State<'a>, ts: &'a Vec<Type>, i: usize)
    requires
        #[trigger] keep::kept(base, st),
        keep::nest_keeps(nest),
    ensures
        match #[trigger] lower::held_tuple(nest, st, ts, i) {
            Ok((_, after)) => keep::kept(base, after),
            Err(_) => true,
        },
    decreases ts.len() - i,
{
    broadcast use keep_state::keeps_intern;

    reveal(lower::held_tuple);
    if i >= ts.len() {
    } else {
        match (nest.held_ty)(st, &ts@[i as int]) {
            Ok((a, st)) => {
                keeps_held_tuple(base, nest, st, ts, (i + 1) as usize);
                match lower::held_tuple(nest, st, ts, (i + 1) as usize) {
                    Ok((b, st)) => {
                        match a {
                            Some(x) => {
                                let (r, st) = state::intern(st, TyDef::Cons(x, b));
                            },
                            _ => {
                            },
                        }
                    },
                    Err(_) => {},
                }
            },
            Err(_) => {},
        }
    }
}

/// `held_generic` keeps what was there.
pub broadcast proof fn keeps_held_generic<'a>(base: State<'a>, nest: Nest<'a>, st: State<'a>, n: Seq<char>, ts: &'a Vec<Type>)
    requires
        #[trigger] keep::kept(base, st),
        keep::nest_keeps(nest),
    ensures
        match #[trigger] lower::held_generic(nest, st, n, ts) {
            Ok((_, after)) => keep::kept(base, after),
            Err(_) => true,
        },
{
    broadcast use keeps_class_ty;

    reveal(lower::held_generic);
}

/// `held_ty` keeps what was there.
pub broadcast proof fn keeps_held_ty<'a>(base: State<'a>, nest: Nest<'a>, st: State<'a>, t: &'a Type)
    requires
        #[trigger] keep::kept(base, st),
        keep::nest_keeps(nest),
    ensures
        match #[trigger] lower::held_ty(nest, st, t) {
            Ok((_, after)) => keep::kept(base, after),
            Err(_) => true,
        },
{
    broadcast use {keeps_array_of, keeps_held_generic, keeps_held_or, keeps_held_slot, keeps_held_tuple, keeps_map_of, keeps_pair_of, keeps_vec_of};

    reveal(lower::held_ty);
}

/// `ret_ty` keeps what was there.
pub broadcast proof fn keeps_ret_ty<'a>(base: State<'a>, nest: Nest<'a>, st: State<'a>, t: &'a Type)
    requires
        #[trigger] keep::kept(base, st),
        keep::nest_keeps(nest),
    ensures
        match #[trigger] lower::ret_ty(nest, st, t) {
            Ok((_, after)) => keep::kept(base, after),
            Err(_) => true,
        },
{
    broadcast use {keeps_array_of, keeps_ty};

    reveal(lower::ret_ty);
}

/// `note_kind` keeps what was there.
pub broadcast proof fn keeps_note_kind<'a>(base: State<'a>, st: State<'a>, name: Seq<char>, t: &'a Type)
    requires
        #[trigger] keep::kept(base, st),
    ensures
        keep::kept(base, #[trigger] lower::note_kind(st, name, t)),
{
    broadcast use {keep_state::keeps_note_map, keep_state::keeps_note_str, keep_state::keeps_note_vec};

    reveal(lower::note_kind);
}

/// `coerce` keeps what was there.
pub broadcast proof fn keeps_coerce<'a>(base: State<'a>, st: State<'a>, v: Operand, t: usize)
    requires
        #[trigger] keep::kept(base, st),
    ensures
        keep::kept(base, (#[trigger] lower::coerce(st, v, t)).1),
{
    broadcast use keep_state::keeps_emit;

    reveal(lower::coerce);
}

/// `unify` keeps what was there.
pub broadcast proof fn keeps_unify<'a>(base: State<'a>, st: State<'a>, l: Operand, r: Operand)
    requires
        #[trigger] keep::kept(base, st),
    ensures
        keep::kept(base, (#[trigger] lower::unify(st, l, r)).1),
{
    broadcast use keeps_coerce;

    reveal(lower::unify);
}

/// `load` keeps what was there.
pub broadcast proof fn keeps_load<'a>(base: State<'a>, st: State<'a>, p: Operand)
    requires
        #[trigger] keep::kept(base, st),
    ensures
        keep::kept(base, (#[trigger] lower::load(st, p)).1),
{
    broadcast use keep_state::keeps_emit;

    reveal(lower::load);
}

/// `store` keeps what was there.
pub broadcast proof fn keeps_store<'a>(base: State<'a>, st: State<'a>, p: Val, v: Operand)
    requires
        #[trigger] keep::kept(base, st),
    ensures
        keep::kept(base, #[trigger] lower::store(st, p, v)),
{
    broadcast use keep_state::keeps_perform;

    reveal(lower::store);
}

/// `slot` keeps what was there.
pub broadcast proof fn keeps_slot<'a>(base: State<'a>, st: State<'a>, t: usize)
    requires
        #[trigger] keep::kept(base, st),
    ensures
        keep::kept(base, (#[trigger] lower::slot(st, t)).1),
{
    broadcast use keep_state::keeps_emit;

    reveal(lower::slot);
}

/// `field_at` keeps what was there.
pub broadcast proof fn keeps_field_at<'a>(base: State<'a>, st: State<'a>, t: usize, p: Val, k: u32)
    requires
        #[trigger] keep::kept(base, st),
    ensures
        keep::kept(base, (#[trigger] lower::field_at(st, t, p, k)).1),
{
    broadcast use keep_state::keeps_emit;

    reveal(lower::field_at);
}

/// `elem_at` keeps what was there.
pub broadcast proof fn keeps_elem_at<'a>(base: State<'a>, st: State<'a>, t: usize, p: Val, i: Operand)
    requires
        #[trigger] keep::kept(base, st),
    ensures
        keep::kept(base, (#[trigger] lower::elem_at(st, t, p, i)).1),
{
    broadcast use keep_state::keeps_emit;

    reveal(lower::elem_at);
}

/// `arith` keeps what was there.
pub broadcast proof fn keeps_arith<'a>(base: State<'a>, st: State<'a>, op: Arith, a: Operand, b: Operand)
    requires
        #[trigger] keep::kept(base, st),
    ensures
        keep::kept(base, (#[trigger] lower::arith(st, op, a, b)).1),
{
    broadcast use keep_state::keeps_emit;

    reveal(lower::arith);
}

/// `compare` keeps what was there.
pub broadcast proof fn keeps_compare<'a>(base: State<'a>, st: State<'a>, p: Pred, a: Operand, b: Operand)
    requires
        #[trigger] keep::kept(base, st),
    ensures
        keep::kept(base, (#[trigger] lower::compare(st, p, a, b)).1),
{
    broadcast use keep_state::keeps_emit;

    reveal(lower::compare);
}

/// `convert` keeps what was there.
pub broadcast proof fn keeps_convert<'a>(base: State<'a>, st: State<'a>, c: Cast, v: Operand, t: usize)
    requires
        #[trigger] keep::kept(base, st),
    ensures
        keep::kept(base, (#[trigger] lower::convert(st, c, v, t)).1),
{
    broadcast use keep_state::keeps_emit;

    reveal(lower::convert);
}

/// `insert` keeps what was there.
pub broadcast proof fn keeps_insert<'a>(base: State<'a>, st: State<'a>, agg: Operand, v: Operand, k: u32)
    requires
        #[trigger] keep::kept(base, st),
    ensures
        keep::kept(base, (#[trigger] lower::insert(st, agg, v, k)).1),
{
    broadcast use keep_state::keeps_emit;

    reveal(lower::insert);
}

/// `extract` keeps what was there.
pub broadcast proof fn keeps_extract<'a>(base: State<'a>, st: State<'a>, agg: Operand, k: u32)
    requires
        #[trigger] keep::kept(base, st),
    ensures
        keep::kept(base, (#[trigger] lower::extract(st, agg, k)).1),
{
    broadcast use keep_state::keeps_emit;

    reveal(lower::extract);
}

/// `call` keeps what was there.
pub broadcast proof fn keeps_call<'a>(base: State<'a>, st: State<'a>, f: usize, n: usize)
    requires
        #[trigger] keep::kept(base, st),
    ensures
        keep::kept(base, (#[trigger] lower::call(st, f, n)).1),
{
    broadcast use {keep_state::keeps_emit, keep_state::keeps_perform};

    reveal(lower::call);
}

/// `runtime` keeps what was there.
pub broadcast proof fn keeps_runtime<'a>(base: State<'a>, st: State<'a>, f: Runtime, n: usize, t: usize)
    requires
        #[trigger] keep::kept(base, st),
    ensures
        keep::kept(base, (#[trigger] lower::runtime(st, f, n, t)).1),
{
    broadcast use keep_state::keeps_emit;

    reveal(lower::runtime);
}

/// `runtime1` keeps what was there.
pub broadcast proof fn keeps_runtime1<'a>(base: State<'a>, st: State<'a>, f: Runtime, a: Operand, t: usize)
    requires
        #[trigger] keep::kept(base, st),
    ensures
        keep::kept(base, (#[trigger] lower::runtime1(st, f, a, t)).1),
{
    broadcast use {keeps_runtime, keep_state::keeps_perform};

    reveal(lower::runtime1);
}

/// `runtime2` keeps what was there.
pub broadcast proof fn keeps_runtime2<'a>(base: State<'a>, st: State<'a>, f: Runtime, a: Operand, b: Operand, t: usize)
    requires
        #[trigger] keep::kept(base, st),
    ensures
        keep::kept(base, (#[trigger] lower::runtime2(st, f, a, b, t)).1),
{
    broadcast use {keeps_runtime, keep_state::keeps_perform};

    reveal(lower::runtime2);
}

/// `string` keeps what was there.
pub broadcast proof fn keeps_string<'a>(base: State<'a>, st: State<'a>, s: Seq<char>)
    requires
        #[trigger] keep::kept(base, st),
    ensures
        keep::kept(base, (#[trigger] lower::string(st, s)).1),
{
    broadcast use keep_state::keeps_text;

    reveal(lower::string);
}

/// `stop` keeps what was there.
pub broadcast proof fn keeps_stop<'a>(base: State<'a>, st: State<'a>)
    requires
        #[trigger] keep::kept(base, st),
    ensures
        keep::kept(base, #[trigger] lower::stop(st)),
{
    broadcast use {keep_state::keeps_finish, keep_state::keeps_perform};

    reveal(lower::stop);
}

/// `jump` keeps what was there.
pub broadcast proof fn keeps_jump<'a>(base: State<'a>, st: State<'a>, b: usize)
    requires
        #[trigger] keep::kept(base, st),
    ensures
        keep::kept(base, #[trigger] lower::jump(st, b)),
{
    broadcast use keep_state::keeps_finish;

    reveal(lower::jump);
}

} // verus!
