//! What the functions of `globals` keep.
use vstd::prelude::*;
use crate::ast::{
    ConstDecl, Expr, MapEntry, VarDecl,
};
use crate::codegen::globals;
use crate::codegen::keep;
use crate::codegen::keep_exprs;
use crate::codegen::keep_state;
use crate::codegen::keep_stmts;
use crate::codegen::state;
use crate::codegen::nest::Nest;
use crate::codegen::state::State;

verus! {

/// `text_const` keeps what was there.
pub broadcast proof fn keeps_text_const<'a>(base: State<'a>, st: State<'a>, s: Seq<char>)
    requires
        #[trigger] keep::kept(base, st),
    ensures
        keep::kept(base, (#[trigger] globals::text_const(st, s)).1),
{
    broadcast use keep_state::keeps_text;

    reveal(globals::text_const);
}

/// `int_elem` keeps what was there.
pub broadcast proof fn keeps_int_elem<'a>(base: State<'a>, st: State<'a>, e: &'a Expr, t: usize, chars: bool)
    requires
        #[trigger] keep::kept(base, st),
    ensures
        keep::kept(base, (#[trigger] globals::int_elem(st, e, t, chars)).1),
{

    reveal(globals::int_elem);
}

/// `ptr_elem` keeps what was there.
pub broadcast proof fn keeps_ptr_elem<'a>(base: State<'a>, st: State<'a>, e: &'a Expr)
    requires
        #[trigger] keep::kept(base, st),
    ensures
        keep::kept(base, (#[trigger] globals::ptr_elem(st, e)).1),
{
    broadcast use keeps_text_const;

    reveal(globals::ptr_elem);
}

/// `global_elem` keeps what was there.
pub broadcast proof fn keeps_global_elem<'a>(base: State<'a>, st: State<'a>, e: &'a Expr, t: usize, chars: bool)
    requires
        #[trigger] keep::kept(base, st),
    ensures
        keep::kept(base, (#[trigger] globals::global_elem(st, e, t, chars)).1),
{
    broadcast use {keeps_int_elem, keeps_ptr_elem};

    reveal(globals::global_elem);
}

/// `add_elems` keeps what was there.
pub broadcast proof fn keeps_add_elems<'a>(base: State<'a>, st: State<'a>, es: &'a Vec<Expr>, i: usize, end: usize, t: usize, chars: bool)
    requires
        #[trigger] keep::kept(base, st),
    ensures
        keep::kept(base, #[trigger] globals::add_elems(st, es, i, end, t, chars)),
    decreases es.len() - i,
{
    broadcast use {keeps_global_elem, keep_state::keeps_add_const};

    reveal(globals::add_elems);
    if i >= es.len() || i >= end {
    } else {
        let (v, st) = globals::global_elem(st, &es@[i as int], t, chars);
        let st = state::add_const(st, v);
        keeps_add_elems(base, st, es, (i + 1) as usize, end, t, chars);
        let st = globals::add_elems(st, es, (i + 1) as usize, end, t, chars);
    }
}

/// `add_entries` keeps what was there.
pub broadcast proof fn keeps_add_entries<'a>(base: State<'a>, st: State<'a>, es: &'a Vec<MapEntry>, i: usize, k: usize, v: usize)
    requires
        #[trigger] keep::kept(base, st),
    ensures
        keep::kept(base, #[trigger] globals::add_entries(st, es, i, k, v)),
    decreases es.len() - i,
{
    broadcast use {keeps_global_elem, keep_state::keeps_add_const};

    reveal(globals::add_entries);
    if i >= es.len() || i >= 16 {
    } else {
        let (a, st) = globals::global_elem(st, &es@[i as int].key, k, true);
        let st = state::add_const(st, a);
        let (b, st) = globals::global_elem(st, &es@[i as int].value, v, true);
        let st = state::add_const(st, b);
        keeps_add_entries(base, st, es, (i + 1) as usize, k, v);
        let st = globals::add_entries(st, es, (i + 1) as usize, k, v);
    }
}

/// `global_map` keeps what was there.
pub broadcast proof fn keeps_global_map<'a>(base: State<'a>, st: State<'a>, name: Seq<char>, t: usize, es: Option<&'a Vec<MapEntry>>, constant: bool)
    requires
        #[trigger] keep::kept(base, st),
    ensures
        keep::kept(base, #[trigger] globals::global_map(st, name, t, es, constant)),
{
    broadcast use {keeps_add_entries, keep_state::keeps_add_global, keep_state::keeps_note_map};

    reveal(globals::global_map);
}

/// `global_zero` keeps what was there.
pub broadcast proof fn keeps_global_zero<'a>(base: State<'a>, st: State<'a>, name: Seq<char>, t: usize, constant: bool)
    requires
        #[trigger] keep::kept(base, st),
    ensures
        keep::kept(base, #[trigger] globals::global_zero(st, name, t, constant)),
{
    broadcast use keep_state::keeps_add_global;

    reveal(globals::global_zero);
}

/// `global_vec` keeps what was there.
pub broadcast proof fn keeps_global_vec<'a>(base: State<'a>, st: State<'a>, name: Seq<char>, t: usize, es: &'a Vec<Expr>)
    requires
        #[trigger] keep::kept(base, st),
    ensures
        keep::kept(base, #[trigger] globals::global_vec(st, name, t, es)),
{
    broadcast use {keeps_add_elems, keep_state::keeps_add_global};

    reveal(globals::global_vec);
}

/// `global_array` keeps what was there.
pub broadcast proof fn keeps_global_array<'a>(base: State<'a>, st: State<'a>, name: Seq<char>, t: usize, es: &'a Vec<Expr>)
    requires
        #[trigger] keep::kept(base, st),
    ensures
        keep::kept(base, #[trigger] globals::global_array(st, name, t, es)),
{
    broadcast use {keeps_add_elems, keeps_global_zero, keep_state::keeps_add_global};

    reveal(globals::global_array);
}

/// `single` keeps what was there.
pub broadcast proof fn keeps_single<'a>(base: State<'a>, st: State<'a>, e: &'a Expr, t: usize, floats: bool)
    requires
        #[trigger] keep::kept(base, st),
    ensures
        keep::kept(base, (#[trigger] globals::single(st, e, t, floats)).1),
{
    broadcast use {keeps_text_const, keep_state::keeps_text};

    reveal(globals::single);
}

/// `global_single` keeps what was there.
pub broadcast proof fn keeps_global_single<'a>(base: State<'a>, st: State<'a>, name: Seq<char>, t: usize, e: &'a Expr, constant: bool)
    requires
        #[trigger] keep::kept(base, st),
    ensures
        keep::kept(base, #[trigger] globals::global_single(st, name, t, e, constant)),
{
    broadcast use {keeps_single, keep_state::keeps_add_const, keep_state::keeps_add_global};

    reveal(globals::global_single);
}

/// `declare_const` keeps what was there.
pub broadcast proof fn keeps_declare_const<'a>(base: State<'a>, nest: Nest<'a>, st: State<'a>, c: &'a ConstDecl)
    requires
        #[trigger] keep::kept(base, st),
        keep::nest_keeps(nest),
    ensures
        match #[trigger] globals::declare_const(nest, st, c) {
            Ok((_, after)) => keep::kept(base, after),
            Err(_) => true,
        },
{
    broadcast use {keep_exprs::keeps_lit_map_ty, keeps_global_map, keeps_global_single, keep_state::keeps_note_str, keep_stmts::keeps_map_ty};

    reveal(globals::declare_const);
}

/// `global_list` keeps what was there.
pub broadcast proof fn keeps_global_list<'a>(base: State<'a>, nest: Nest<'a>, st: State<'a>, v: &'a VarDecl, es: &'a Vec<Expr>)
    requires
        #[trigger] keep::kept(base, st),
        keep::nest_keeps(nest),
    ensures
        match #[trigger] globals::global_list(nest, st, v, es) {
            Ok((_, after)) => keep::kept(base, after),
            Err(_) => true,
        },
{
    broadcast use {keeps_global_array, keeps_global_vec, keeps_global_zero, keep_state::keeps_note_str, keep_state::keeps_note_vec, keep_stmts::keeps_var_ty};

    reveal(globals::global_list);
}

/// `declare_global` keeps what was there.
pub broadcast proof fn keeps_declare_global<'a>(base: State<'a>, nest: Nest<'a>, st: State<'a>, v: &'a VarDecl)
    requires
        #[trigger] keep::kept(base, st),
        keep::nest_keeps(nest),
    ensures
        match #[trigger] globals::declare_global(nest, st, v) {
            Ok((_, after)) => keep::kept(base, after),
            Err(_) => true,
        },
{
    broadcast use {keeps_global_list, keeps_global_map, keeps_global_single, keeps_global_zero, keep_state::keeps_note_str, keep_state::keeps_note_vec, keep_stmts::keeps_var_ty};

    reveal(globals::declare_global);
}

} // verus!
