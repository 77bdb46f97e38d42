//! What the functions of `stmts` keep.
use vstd::prelude::*;
use crate::ast::{
    Block, ConstDecl, DeferInner, Expr, MapEntry, Stmt, Target,
    Type, VarDecl,
};
use crate::codegen::ir::{
    Arith, Label, LoopInfo, Op, Operand, Pred, Val,
    I64, PTR,
};
use crate::codegen::calls;
use crate::codegen::exprs;
use crate::codegen::keep;
use crate::codegen::keep_collections;
use crate::codegen::keep_exprs;
use crate::codegen::keep_lower;
use crate::codegen::keep_state;
use crate::codegen::lower;
use crate::codegen::state;
use crate::codegen::stmts;
use crate::codegen::nest::Nest;
use crate::codegen::state::State;
use crate::token::Span;

verus! {

/// `deferred` keeps what was there.
pub broadcast proof fn keeps_deferred<'a>(base: State<'a>, nest: Nest<'a>, st: State<'a>, d: &'a DeferInner)
    requires
        #[trigger] keep::kept(base, st),
        keep::nest_keeps(nest),
    ensures
        match #[trigger] stmts::deferred(nest, st, d) {
            Ok((_, after)) => keep::kept(base, after),
            Err(_) => true,
        },
{

    reveal(stmts::deferred);
}

/// `run_level` keeps what was there.
pub broadcast proof fn keeps_run_level<'a>(base: State<'a>, nest: Nest<'a>, st: State<'a>, start: usize, end: usize)
    requires
        #[trigger] keep::kept(base, st),
        keep::nest_keeps(nest),
    ensures
        match #[trigger] stmts::run_level(nest, st, start, end) {
            Ok((_, after)) => keep::kept(base, after),
            Err(_) => true,
        },
    decreases end,
{
    broadcast use keeps_deferred;

    reveal(stmts::run_level);
    if end <= start {
    } else {
        match state::defer_at(st, (end - 1) as usize) {
            Some(d) => {
                match stmts::deferred(nest, st, d) {
                    Ok((_, st)) => {
                        if state::done(st) {
                        } else {
                            keeps_run_level(base, nest, st, start, (end - 1) as usize);
                            match stmts::run_level(nest, st, start, (end - 1) as usize) {
                                Ok((_, st)) => {
                                },
                                Err(_) => {},
                            }
                        }
                    },
                    Err(_) => {},
                }
            },
            _ => {
            },
        }
    }
}

/// `run_levels` keeps what was there.
pub broadcast proof fn keeps_run_levels<'a>(base: State<'a>, nest: Nest<'a>, st: State<'a>, target: usize, level: usize)
    requires
        #[trigger] keep::kept(base, st),
        keep::nest_keeps(nest),
    ensures
        match #[trigger] stmts::run_levels(nest, st, target, level) {
            Ok((_, after)) => keep::kept(base, after),
            Err(_) => true,
        },
    decreases level,
{
    broadcast use keeps_run_level;

    reveal(stmts::run_levels);
    if level <= target {
    } else {
        match stmts::run_level(nest, st, state::defer_start(st, (level - 1) as usize), state::defer_start(st, level)) {
            Ok((_, st)) => {
                keeps_run_levels(base, nest, st, target, (level - 1) as usize);
                match stmts::run_levels(nest, st, target, (level - 1) as usize) {
                    Ok((_, st)) => {
                    },
                    Err(_) => {},
                }
            },
            Err(_) => {},
        }
    }
}

/// `destroy` keeps what was there.
pub broadcast proof fn keeps_destroy<'a>(base: State<'a>, st: State<'a>, p: Val, l: usize, k: usize, left: usize)
    requires
        #[trigger] keep::kept(base, st),
    ensures
        keep::kept(base, #[trigger] stmts::destroy(st, p, l, k, left)),
    decreases left,
{
    broadcast use {keep_lower::keeps_call, keep_state::keeps_perform};

    reveal(stmts::destroy);
    if left == 0 {
    } else {
        match state::destructor(st, l, k) {
            Some(m) => {
                let info = state::member_info(st, m);
                let st = state::perform(st, Op::Push(Operand { val: p, ty: PTR }));
                let (x, st) = lower::call(st, info.func, 1);
                keeps_destroy(base, st, p, l, calls::more(k), (left - 1) as usize);
                let st = stmts::destroy(st, p, l, calls::more(k), (left - 1) as usize);
            },
            _ => {
            },
        }
    }
}

/// `run_dtors` keeps what was there.
pub broadcast proof fn keeps_run_dtors<'a>(base: State<'a>, st: State<'a>, start: usize, end: usize)
    requires
        #[trigger] keep::kept(base, st),
    ensures
        keep::kept(base, #[trigger] stmts::run_dtors(st, start, end)),
    decreases end,
{
    broadcast use keeps_destroy;

    reveal(stmts::run_dtors);
    if end <= start {
    } else {
        match state::dtor_at(st, (end - 1) as usize) {
            Some(v) => {
                let st = stmts::destroy(st, v.val, v.ty, 0, state::destructor_count(st, v.ty));
                keeps_run_dtors(base, st, start, (end - 1) as usize);
                let st = stmts::run_dtors(st, start, (end - 1) as usize);
            },
            _ => {
            },
        }
    }
}

/// `leave_to` keeps what was there.
pub broadcast proof fn keeps_leave_to<'a>(base: State<'a>, st: State<'a>, target: usize)
    requires
        #[trigger] keep::kept(base, st),
    ensures
        keep::kept(base, #[trigger] stmts::leave_to(st, target)),
{
    broadcast use keeps_run_dtors;

    reveal(stmts::leave_to);
}

/// `end_scope` keeps what was there.
pub broadcast proof fn keeps_end_scope<'a>(base: State<'a>, nest: Nest<'a>, st: State<'a>)
    requires
        #[trigger] keep::kept(base, st),
        keep::nest_keeps(nest),
    ensures
        match #[trigger] stmts::end_scope(nest, st) {
            Ok((_, after)) => keep::kept(base, after),
            Err(_) => true,
        },
{
    broadcast use {keeps_run_dtors, keeps_run_level};

    reveal(stmts::end_scope);
}

/// `dead_block` keeps what was there.
pub broadcast proof fn keeps_dead_block<'a>(base: State<'a>, st: State<'a>)
    requires
        #[trigger] keep::kept(base, st),
    ensures
        keep::kept(base, #[trigger] stmts::dead_block(st)),
{
    broadcast use {keep_state::keeps_at, keep_state::keeps_block};

    reveal(stmts::dead_block);
}

/// `key_ty` keeps what was there.
pub broadcast proof fn keeps_key_ty<'a>(base: State<'a>, nest: Nest<'a>, st: State<'a>, t: &'a Type, es: Option<&'a Vec<MapEntry>>)
    requires
        #[trigger] keep::kept(base, st),
        keep::nest_keeps(nest),
    ensures
        match #[trigger] stmts::key_ty(nest, st, t, es) {
            Ok((_, after)) => keep::kept(base, after),
            Err(_) => true,
        },
{
    broadcast use keep_lower::keeps_slot_ty;

    reveal(stmts::key_ty);
}

/// `value_ty` keeps what was there.
pub broadcast proof fn keeps_value_ty<'a>(base: State<'a>, nest: Nest<'a>, st: State<'a>, t: &'a Type, es: Option<&'a Vec<MapEntry>>)
    requires
        #[trigger] keep::kept(base, st),
        keep::nest_keeps(nest),
    ensures
        match #[trigger] stmts::value_ty(nest, st, t, es) {
            Ok((_, after)) => keep::kept(base, after),
            Err(_) => true,
        },
{
    broadcast use keep_lower::keeps_slot_ty;

    reveal(stmts::value_ty);
}

/// `map_ty` keeps what was there.
pub broadcast proof fn keeps_map_ty<'a>(base: State<'a>, nest: Nest<'a>, st: State<'a>, t: &'a Type, es: Option<&'a Vec<MapEntry>>)
    requires
        #[trigger] keep::kept(base, st),
        keep::nest_keeps(nest),
    ensures
        match #[trigger] stmts::map_ty(nest, st, t, es) {
            Ok((_, after)) => keep::kept(base, after),
            Err(_) => true,
        },
{
    broadcast use {keep_exprs::keeps_lit_map_ty, keep_lower::keeps_map_of, keeps_key_ty, keeps_value_ty};

    reveal(stmts::map_ty);
}

/// `array_ty` keeps what was there.
pub broadcast proof fn keeps_array_ty<'a>(base: State<'a>, nest: Nest<'a>, st: State<'a>, t: &'a Type, es: &'a Vec<Expr>)
    requires
        #[trigger] keep::kept(base, st),
        keep::nest_keeps(nest),
    ensures
        match #[trigger] stmts::array_ty(nest, st, t, es) {
            Ok((_, after)) => keep::kept(base, after),
            Err(_) => true,
        },
{
    broadcast use keep_lower::keeps_array_of;

    reveal(stmts::array_ty);
}

/// `var_ty` keeps what was there.
pub broadcast proof fn keeps_var_ty<'a>(base: State<'a>, nest: Nest<'a>, st: State<'a>, t: &'a Type, init: &'a Option<Expr>)
    requires
        #[trigger] keep::kept(base, st),
        keep::nest_keeps(nest),
    ensures
        match #[trigger] stmts::var_ty(nest, st, t, init) {
            Ok((_, after)) => keep::kept(base, after),
            Err(_) => true,
        },
{
    broadcast use {keep_lower::keeps_vec_of, keeps_array_ty, keeps_map_ty};

    reveal(stmts::var_ty);
}

/// `note_dtor` keeps what was there.
pub broadcast proof fn keeps_note_dtor<'a>(base: State<'a>, st: State<'a>, n: Seq<char>, t: &'a Type, p: Val)
    requires
        #[trigger] keep::kept(base, st),
    ensures
        keep::kept(base, #[trigger] stmts::note_dtor(st, n, t, p)),
{
    broadcast use keep_state::keeps_add_dtor;

    reveal(stmts::note_dtor);
}

/// `store_list` keeps what was there.
pub broadcast proof fn keeps_store_list<'a>(base: State<'a>, nest: Nest<'a>, st: State<'a>, es: &'a Vec<Expr>, i: usize, t: usize, p: Val)
    requires
        #[trigger] keep::kept(base, st),
        keep::nest_keeps(nest),
    ensures
        match #[trigger] stmts::store_list(nest, st, es, i, t, p) {
            Ok((_, after)) => keep::kept(base, after),
            Err(_) => true,
        },
    decreases es.len() - i,
{
    broadcast use {keep_lower::keeps_coerce, keep_lower::keeps_elem_at, keep_lower::keeps_store};

    reveal(stmts::store_list);
    if i >= es.len() {
    } else {
        match (nest.expr)(st, &es@[i as int]) {
            Ok((v, st)) => {
                let (c, st) = lower::coerce(st, v, lower::array_elem(st, t));
                let (e, st) = lower::elem_at(st, t, p, Operand { val: Val::Int(i as i64), ty: I64 });
                let st = lower::store(st, e, c);
                keeps_store_list(base, nest, st, es, (i + 1) as usize, t, p);
                match stmts::store_list(nest, st, es, (i + 1) as usize, t, p) {
                    Ok((_, st)) => {
                    },
                    Err(_) => {},
                }
            },
            Err(_) => {},
        }
    }
}

/// `store_vec` keeps what was there.
pub broadcast proof fn keeps_store_vec<'a>(base: State<'a>, nest: Nest<'a>, st: State<'a>, es: &'a Vec<Expr>, p: Operand)
    requires
        #[trigger] keep::kept(base, st),
        keep::nest_keeps(nest),
    ensures
        match #[trigger] stmts::store_vec(nest, st, es, p) {
            Ok((_, after)) => keep::kept(base, after),
            Err(_) => true,
        },
{
    broadcast use {keep_lower::keeps_field_at, keep_lower::keeps_store, keeps_store_list};

    reveal(stmts::store_vec);
}

/// `store_init` keeps what was there.
pub broadcast proof fn keeps_store_init<'a>(base: State<'a>, nest: Nest<'a>, st: State<'a>, t: &'a Type, e: &'a Expr, p: Operand)
    requires
        #[trigger] keep::kept(base, st),
        keep::nest_keeps(nest),
    ensures
        match #[trigger] stmts::store_init(nest, st, t, e, p) {
            Ok((_, after)) => keep::kept(base, after),
            Err(_) => true,
        },
{
    broadcast use {keep_exprs::keeps_store_entries, keep_lower::keeps_coerce, keep_lower::keeps_store, keeps_store_list, keeps_store_vec};

    reveal(stmts::store_init);
}

/// `var_decl` keeps what was there.
pub broadcast proof fn keeps_var_decl<'a>(base: State<'a>, nest: Nest<'a>, st: State<'a>, d: &'a VarDecl)
    requires
        #[trigger] keep::kept(base, st),
        keep::nest_keeps(nest),
    ensures
        match #[trigger] stmts::var_decl(nest, st, d) {
            Ok((_, after)) => keep::kept(base, after),
            Err(_) => true,
        },
{
    broadcast use {keep_lower::keeps_slot, keep_lower::keeps_store, keep_state::keeps_bind, keep_state::keeps_note_map, keep_state::keeps_note_str, keep_state::keeps_note_vec, keeps_note_dtor, keeps_store_init, keeps_var_ty};

    reveal(stmts::var_decl);
}

/// `const_map` keeps what was there.
pub broadcast proof fn keeps_const_map<'a>(base: State<'a>, nest: Nest<'a>, st: State<'a>, name: Seq<char>, t: usize, es: Option<&'a Vec<MapEntry>>)
    requires
        #[trigger] keep::kept(base, st),
        keep::nest_keeps(nest),
    ensures
        match #[trigger] stmts::const_map(nest, st, name, t, es) {
            Ok((_, after)) => keep::kept(base, after),
            Err(_) => true,
        },
{
    broadcast use {keep_exprs::keeps_store_entries, keep_lower::keeps_field_at, keep_lower::keeps_slot, keep_lower::keeps_store, keep_state::keeps_bind, keep_state::keeps_note_map};

    reveal(stmts::const_map);
}

/// `const_value` keeps what was there.
pub broadcast proof fn keeps_const_value<'a>(base: State<'a>, nest: Nest<'a>, st: State<'a>, name: Seq<char>, e: &'a Expr)
    requires
        #[trigger] keep::kept(base, st),
        keep::nest_keeps(nest),
    ensures
        match #[trigger] stmts::const_value(nest, st, name, e) {
            Ok((_, after)) => keep::kept(base, after),
            Err(_) => true,
        },
{
    broadcast use {keep_lower::keeps_slot, keep_lower::keeps_store, keep_state::keeps_bind};

    reveal(stmts::const_value);
}

/// `untyped_const` keeps what was there.
pub broadcast proof fn keeps_untyped_const<'a>(base: State<'a>, nest: Nest<'a>, st: State<'a>, c: &'a ConstDecl)
    requires
        #[trigger] keep::kept(base, st),
        keep::nest_keeps(nest),
    ensures
        match #[trigger] stmts::untyped_const(nest, st, c) {
            Ok((_, after)) => keep::kept(base, after),
            Err(_) => true,
        },
{
    broadcast use {keep_exprs::keeps_lit_map_ty, keep_state::keeps_note_vec, keeps_const_map, keeps_const_value};

    reveal(stmts::untyped_const);
}

/// `typed_const` keeps what was there.
pub broadcast proof fn keeps_typed_const<'a>(base: State<'a>, nest: Nest<'a>, st: State<'a>, c: &'a ConstDecl, t: &'a Type)
    requires
        #[trigger] keep::kept(base, st),
        keep::nest_keeps(nest),
    ensures
        match #[trigger] stmts::typed_const(nest, st, c, t) {
            Ok((_, after)) => keep::kept(base, after),
            Err(_) => true,
        },
{
    broadcast use {keep_lower::keeps_coerce, keep_lower::keeps_slot, keep_lower::keeps_store, keep_state::keeps_bind, keep_state::keeps_note_str, keep_state::keeps_note_vec, keeps_const_map, keeps_map_ty, keeps_store_vec};

    reveal(stmts::typed_const);
}

/// `const_decl` keeps what was there.
pub broadcast proof fn keeps_const_decl<'a>(base: State<'a>, nest: Nest<'a>, st: State<'a>, c: &'a ConstDecl)
    requires
        #[trigger] keep::kept(base, st),
        keep::nest_keeps(nest),
    ensures
        match #[trigger] stmts::const_decl(nest, st, c) {
            Ok((_, after)) => keep::kept(base, after),
            Err(_) => true,
        },
{
    broadcast use {keeps_typed_const, keeps_untyped_const};

    reveal(stmts::const_decl);
}

/// `part` keeps what was there.
pub broadcast proof fn keeps_part<'a>(base: State<'a>, st: State<'a>, v: Operand, i: usize)
    requires
        #[trigger] keep::kept(base, st),
    ensures
        keep::kept(base, (#[trigger] stmts::part(st, v, i)).1),
{
    broadcast use keep_lower::keeps_extract;

    reveal(stmts::part);
}

/// `bind_value` keeps what was there.
pub broadcast proof fn keeps_bind_value<'a>(base: State<'a>, st: State<'a>, n: Seq<char>, v: Operand)
    requires
        #[trigger] keep::kept(base, st),
    ensures
        keep::kept(base, #[trigger] stmts::bind_value(st, n, v)),
{
    broadcast use {keep_lower::keeps_slot, keep_lower::keeps_store, keep_state::keeps_bind};

    reveal(stmts::bind_value);
}

/// `put` keeps what was there.
pub broadcast proof fn keeps_put<'a>(base: State<'a>, st: State<'a>, n: Seq<char>, v: Operand)
    requires
        #[trigger] keep::kept(base, st),
    ensures
        keep::kept(base, #[trigger] stmts::put(st, n, v)),
{
    broadcast use {keep_lower::keeps_store, keeps_bind_value};

    reveal(stmts::put);
}

/// `destructure` keeps what was there.
pub broadcast proof fn keeps_destructure<'a>(base: State<'a>, st: State<'a>, ts: &'a Vec<Target>, i: usize, v: Operand)
    requires
        #[trigger] keep::kept(base, st),
    ensures
        keep::kept(base, #[trigger] stmts::destructure(st, ts, i, v)),
    decreases ts.len() - i,
{
    broadcast use {keeps_part, keeps_put};

    reveal(stmts::destructure);
    if i >= ts.len() {
    } else {
        match ts@[i as int] {
            Target::Name(n) => {
                let (x, st) = stmts::part(st, v, i);
                let st = stmts::put(st, n@, x);
                keeps_destructure(base, st, ts, (i + 1) as usize, v);
                let st = stmts::destructure(st, ts, (i + 1) as usize, v);
            },
            _ => {
                keeps_destructure(base, st, ts, (i + 1) as usize, v);
                let st = stmts::destructure(st, ts, (i + 1) as usize, v);
            },
        }
    }
}

/// `assert_message` keeps what was there.
pub broadcast proof fn keeps_assert_message<'a>(base: State<'a>, nest: Nest<'a>, st: State<'a>, m: &'a Option<Expr>)
    requires
        #[trigger] keep::kept(base, st),
        keep::nest_keeps(nest),
    ensures
        match #[trigger] stmts::assert_message(nest, st, m) {
            Ok((_, after)) => keep::kept(base, after),
            Err(_) => true,
        },
{
    broadcast use {keep_lower::keeps_runtime1, keep_lower::keeps_runtime2, keep_lower::keeps_string};

    reveal(stmts::assert_message);
}

/// `assertion` keeps what was there.
pub broadcast proof fn keeps_assertion<'a>(base: State<'a>, nest: Nest<'a>, st: State<'a>, c: &'a Expr, m: &'a Option<Expr>)
    requires
        #[trigger] keep::kept(base, st),
        keep::nest_keeps(nest),
    ensures
        match #[trigger] stmts::assertion(nest, st, c, m) {
            Ok((_, after)) => keep::kept(base, after),
            Err(_) => true,
        },
{
    broadcast use {keep_exprs::keeps_need_int, keep_lower::keeps_stop, keep_state::keeps_at, keep_state::keeps_block, keep_state::keeps_finish, keeps_assert_message};

    reveal(stmts::assertion);
}

/// `main_result` keeps what was there.
pub broadcast proof fn keeps_main_result<'a>(base: State<'a>, st: State<'a>, v: Operand)
    requires
        #[trigger] keep::kept(base, st),
    ensures
        keep::kept(base, (#[trigger] stmts::main_result(st, v)).1),
{
    broadcast use keep_lower::keeps_convert;

    reveal(stmts::main_result);
}

/// `fit_result` keeps what was there.
pub broadcast proof fn keeps_fit_result<'a>(base: State<'a>, st: State<'a>, v: Operand)
    requires
        #[trigger] keep::kept(base, st),
    ensures
        keep::kept(base, (#[trigger] stmts::fit_result(st, v)).1),
{
    broadcast use keep_lower::keeps_coerce;

    reveal(stmts::fit_result);
}

/// `leave_stmt` keeps what was there.
pub broadcast proof fn keeps_leave_stmt<'a>(base: State<'a>, nest: Nest<'a>, st: State<'a>, value: &'a Option<Expr>)
    requires
        #[trigger] keep::kept(base, st),
        keep::nest_keeps(nest),
    ensures
        match #[trigger] stmts::leave_stmt(nest, st, value) {
            Ok((_, after)) => keep::kept(base, after),
            Err(_) => true,
        },
{
    broadcast use {keeps_give_back, keeps_run_levels};

    reveal(stmts::leave_stmt);
}

/// `give_back` keeps what was there.
pub broadcast proof fn keeps_give_back<'a>(base: State<'a>, nest: Nest<'a>, st: State<'a>, value: &'a Option<Expr>)
    requires
        #[trigger] keep::kept(base, st),
        keep::nest_keeps(nest),
    ensures
        match #[trigger] stmts::give_back(nest, st, value) {
            Ok((_, after)) => keep::kept(base, after),
            Err(_) => true,
        },
{
    broadcast use {keep_state::keeps_finish, keeps_fit_result, keeps_leave_to, keeps_main_result};

    reveal(stmts::give_back);
}

/// `if_stmt` keeps what was there.
pub broadcast proof fn keeps_if_stmt<'a>(base: State<'a>, nest: Nest<'a>, st: State<'a>, c: &'a Expr, a: &'a Block, b: &'a Option<Block>)
    requires
        #[trigger] keep::kept(base, st),
        keep::nest_keeps(nest),
    ensures
        match #[trigger] stmts::if_stmt(nest, st, c, a, b) {
            Ok((_, after)) => keep::kept(base, after),
            Err(_) => true,
        },
{
    broadcast use {keep_exprs::keeps_need_int, keep_lower::keeps_jump, keep_state::keeps_at, keep_state::keeps_block, keep_state::keeps_finish};

    reveal(stmts::if_stmt);
}

/// `while_stmt` keeps what was there.
pub broadcast proof fn keeps_while_stmt<'a>(base: State<'a>, nest: Nest<'a>, st: State<'a>, c: &'a Expr, b: &'a Block)
    requires
        #[trigger] keep::kept(base, st),
        keep::nest_keeps(nest),
    ensures
        match #[trigger] stmts::while_stmt(nest, st, c, b) {
            Ok((_, after)) => keep::kept(base, after),
            Err(_) => true,
        },
{
    broadcast use {keep_exprs::keeps_need_int, keep_lower::keeps_jump, keep_state::keeps_at, keep_state::keeps_block, keep_state::keeps_finish};

    reveal(stmts::while_stmt);
    let (cond, st) = state::block(st, Label::WhileCond);
    let (body, st) = state::block(st, Label::WhileBody);
    let (exit, st) = state::block(st, Label::WhileExit);
    let st = state::finish(st, Op::Jump(cond));
    let st = state::at(st, cond);
    match (nest.expr)(st, c) {
        Ok((v, st)) => {
            match exprs::need_int(st, v, c.span) {
                Ok((i, st)) => {
                    let st = state::finish(st, Op::Branch(i, body, exit));
                    let arg0_0 = ""@;
                    let arg0_1 = LoopInfo { again: cond, exit: exit, depth: state::defer_depth(st) };
                    let outer0 = st;
                    let st = state::enter_loop(st, arg0_0, arg0_1);
                    let base0 = st;
                    keep::lemma_loop_opens(base, outer0, arg0_0, arg0_1);
                    let st = state::at(st, body);
                    match (nest.run_block)(st, b) {
                        Ok((x, st)) => {
                            let st = lower::jump(st, cond);
                            keep::lemma_loop(base, outer0, arg0_0, arg0_1, st);
                            let st = state::leave_loop(st);
                            let st = state::at(st, exit);
                        },
                        Err(_) => {},
                    }
                },
                Err(_) => {},
            }
        },
        Err(_) => {},
    }
}

/// `loop_stmt` keeps what was there.
pub broadcast proof fn keeps_loop_stmt<'a>(base: State<'a>, nest: Nest<'a>, st: State<'a>, l: &'a Option<String>, b: &'a Block)
    requires
        #[trigger] keep::kept(base, st),
        keep::nest_keeps(nest),
    ensures
        match #[trigger] stmts::loop_stmt(nest, st, l, b) {
            Ok((_, after)) => keep::kept(base, after),
            Err(_) => true,
        },
{
    broadcast use {keep_lower::keeps_jump, keep_state::keeps_at, keep_state::keeps_block, keep_state::keeps_finish};

    reveal(stmts::loop_stmt);
    let (header, st) = state::block(st, Label::LoopHeader);
    let (body, st) = state::block(st, Label::LoopBody);
    let (exit, st) = state::block(st, Label::LoopExit);
    let st = state::finish(st, Op::Jump(header));
    let st = state::at(st, header);
    let st = state::finish(st, Op::Jump(body));
    let arg0_0 = l;
    let arg0_1 = LoopInfo { again: header, exit: exit, depth: state::defer_depth(st) };
    let outer0 = st;
    let st = stmts::enter_labelled(st, arg0_0, arg0_1);
    let base0 = st;
    keep::lemma_labelled_opens(base, outer0, arg0_0, arg0_1);
    let st = state::at(st, body);
    match (nest.run_block)(st, b) {
        Ok((x, st)) => {
            let st = lower::jump(st, header);
            keep::lemma_labelled(base, outer0, arg0_0, arg0_1, st);
            let st = state::leave_loop(st);
            let st = state::at(st, exit);
        },
        Err(_) => {},
    }
}

/// `limit` keeps what was there.
pub broadcast proof fn keeps_limit<'a>(base: State<'a>, st: State<'a>, e: &'a Expr)
    requires
        #[trigger] keep::kept(base, st),
    ensures
        keep::kept(base, (#[trigger] stmts::limit(st, e)).1),
{
    broadcast use {keep_collections::keeps_measure, keep_lower::keeps_load, keep_lower::keeps_runtime1};

    reveal(stmts::limit);
}

/// `loop_value` keeps what was there.
pub broadcast proof fn keeps_loop_value<'a>(base: State<'a>, st: State<'a>, e: &'a Expr, i: Operand)
    requires
        #[trigger] keep::kept(base, st),
    ensures
        keep::kept(base, (#[trigger] stmts::loop_value(st, e, i)).1),
{
    broadcast use {keep_lower::keeps_convert, keep_lower::keeps_elem_at, keep_lower::keeps_field_at, keep_lower::keeps_load, keep_state::keeps_emit};

    reveal(stmts::loop_value);
}

/// `second_value` keeps what was there.
pub broadcast proof fn keeps_second_value<'a>(base: State<'a>, st: State<'a>, e: &'a Expr, n: Seq<char>, i: Operand)
    requires
        #[trigger] keep::kept(base, st),
    ensures
        keep::kept(base, #[trigger] stmts::second_value(st, e, n, i)),
{
    broadcast use {keep_lower::keeps_elem_at, keep_lower::keeps_field_at, keep_lower::keeps_load, keeps_bind_value};

    reveal(stmts::second_value);
}

/// `bind_second` keeps what was there.
pub broadcast proof fn keeps_bind_second<'a>(base: State<'a>, st: State<'a>, e: &'a Expr, n: &'a Option<String>, i: Operand)
    requires
        #[trigger] keep::kept(base, st),
    ensures
        keep::kept(base, #[trigger] stmts::bind_second(st, e, n, i)),
{
    broadcast use keeps_second_value;

    reveal(stmts::bind_second);
}

/// `for_stmt` keeps what was there.
pub broadcast proof fn keeps_for_stmt<'a>(base: State<'a>, nest: Nest<'a>, st: State<'a>, l: &'a Option<String>, var: Seq<char>, var2: &'a Option<String>, e: &'a Expr, b: &'a Block)
    requires
        #[trigger] keep::kept(base, st),
        keep::nest_keeps(nest),
    ensures
        match #[trigger] stmts::for_stmt(nest, st, l, var, var2, e, b) {
            Ok((_, after)) => keep::kept(base, after),
            Err(_) => true,
        },
{
    broadcast use {keep_lower::keeps_arith, keep_lower::keeps_compare, keep_lower::keeps_jump, keep_lower::keeps_load, keep_lower::keeps_slot, keep_lower::keeps_store, keep_state::keeps_at, keep_state::keeps_block, keep_state::keeps_finish, keeps_bind_second, keeps_bind_value, keeps_end_scope, keeps_limit, keeps_loop_value};

    reveal(stmts::for_stmt);
    let (cond, st) = state::block(st, Label::ForCond);
    let (body, st) = state::block(st, Label::ForBody);
    let (inc_bb, st) = state::block(st, Label::ForInc);
    let (exit, st) = state::block(st, Label::ForExit);
    let (ip, st) = lower::slot(st, I64);
    let st = lower::store(st, ip.val, Operand { val: Val::Int(0), ty: I64 });
    let st = state::finish(st, Op::Jump(cond));
    let st = state::at(st, cond);
    let (i, st) = lower::load(st, ip);
    let (n, st) = stmts::limit(st, e);
    let (c, st) = lower::compare(st, Pred::Less, i, n);
    let st = state::finish(st, Op::Branch(c, body, exit));
    let arg0_0 = l;
    let arg0_1 = LoopInfo { again: inc_bb, exit: exit, depth: state::defer_depth(st) };
    let outer0 = st;
    let st = stmts::enter_labelled(st, arg0_0, arg0_1);
    let base0 = st;
    keep::lemma_labelled_opens(base, outer0, arg0_0, arg0_1);
    let st = state::at(st, body);
    let outer1 = st;
    let st = state::open_scope(st);
    let base1 = st;
    keep::lemma_scope_opens(base0, outer1);
    let outer2 = st;
    let st = state::open_defers(st);
    let base2 = st;
    keep::lemma_defers_opens(base1, outer2);
    let (v, st) = stmts::loop_value(st, e, i);
    let st = stmts::bind_value(st, var, v);
    let st = stmts::bind_second(st, e, var2, i);
    match (nest.run_block)(st, b) {
        Ok((x, st)) => {
            match stmts::end_scope(nest, st) {
                Ok((_, st)) => {
                    keep::lemma_defers(base1, outer2, st);
                    let st = state::close_defers(st);
                    keep::lemma_scope(base0, outer1, st);
                    let st = state::close_scope(st);
                    let st = lower::jump(st, inc_bb);
                    let st = state::at(st, inc_bb);
                    let (j, st) = lower::load(st, ip);
                    let (k, st) = lower::arith(st, Arith::Add, j, Operand { val: Val::Int(1), ty: I64 });
                    let st = lower::store(st, ip.val, k);
                    let st = state::finish(st, Op::Jump(cond));
                    keep::lemma_labelled(base, outer0, arg0_0, arg0_1, st);
                    let st = state::leave_loop(st);
                    let st = state::at(st, exit);
                },
                Err(_) => {},
            }
        },
        Err(_) => {},
    }
}

/// `break_stmt` keeps what was there.
pub broadcast proof fn keeps_break_stmt<'a>(base: State<'a>, nest: Nest<'a>, st: State<'a>, l: &'a Option<String>, span: Span)
    requires
        #[trigger] keep::kept(base, st),
        keep::nest_keeps(nest),
    ensures
        match #[trigger] stmts::break_stmt(nest, st, l, span) {
            Ok((_, after)) => keep::kept(base, after),
            Err(_) => true,
        },
{
    broadcast use {keep_state::keeps_finish, keeps_leave_to, keeps_run_levels};

    reveal(stmts::break_stmt);
}

/// `continue_stmt` keeps what was there.
pub broadcast proof fn keeps_continue_stmt<'a>(base: State<'a>, nest: Nest<'a>, st: State<'a>, l: &'a Option<String>, span: Span)
    requires
        #[trigger] keep::kept(base, st),
        keep::nest_keeps(nest),
    ensures
        match #[trigger] stmts::continue_stmt(nest, st, l, span) {
            Ok((_, after)) => keep::kept(base, after),
            Err(_) => true,
        },
{
    broadcast use {keep_state::keeps_finish, keeps_leave_to, keeps_run_levels};

    reveal(stmts::continue_stmt);
}

/// `stmt` keeps what was there.
pub broadcast proof fn keeps_stmt<'a>(base: State<'a>, nest: Nest<'a>, st: State<'a>, s: &'a Stmt)
    requires
        #[trigger] keep::kept(base, st),
        keep::nest_keeps(nest),
    ensures
        match #[trigger] stmts::stmt(nest, st, s) {
            Ok((_, after)) => keep::kept(base, after),
            Err(_) => true,
        },
{
    broadcast use {keep_state::keeps_add_defer, keeps_assertion, keeps_break_stmt, keeps_const_decl, keeps_continue_stmt, keeps_destructure, keeps_for_stmt, keeps_if_stmt, keeps_leave_stmt, keeps_loop_stmt, keeps_var_decl, keeps_while_stmt};

    reveal(stmts::stmt);
}

/// `run_stmts` keeps what was there.
pub broadcast proof fn keeps_run_stmts<'a>(base: State<'a>, nest: Nest<'a>, st: State<'a>, ss: &'a Vec<Stmt>, i: usize)
    requires
        #[trigger] keep::kept(base, st),
        keep::nest_keeps(nest),
    ensures
        match #[trigger] stmts::run_stmts(nest, st, ss, i) {
            Ok((_, after)) => keep::kept(base, after),
            Err(_) => true,
        },
    decreases ss.len() - i,
{
    broadcast use {keeps_dead_block, keeps_stmt};

    reveal(stmts::run_stmts);
    if i >= ss.len() {
    } else {
        let st = if state::done(st) {
            stmts::dead_block(st)
        } else {
            st
        };
        match stmts::stmt(nest, st, &ss@[i as int]) {
            Ok((a, st)) => {
                keeps_run_stmts(base, nest, st, ss, (i + 1) as usize);
                match stmts::run_stmts(nest, st, ss, (i + 1) as usize) {
                    Ok((b, st)) => {
                    },
                    Err(_) => {},
                }
            },
            Err(_) => {},
        }
    }
}

/// `run_block` keeps what was there.
pub broadcast proof fn keeps_run_block<'a>(base: State<'a>, nest: Nest<'a>, st: State<'a>, b: &'a Block)
    requires
        #[trigger] keep::kept(base, st),
        keep::nest_keeps(nest),
    ensures
        match #[trigger] stmts::run_block(nest, st, b) {
            Ok((_, after)) => keep::kept(base, after),
            Err(_) => true,
        },
{
    broadcast use {keeps_end_scope, keeps_run_stmts};

    reveal(stmts::run_block);
    let outer0 = st;
    let st = state::open_scope(st);
    let base0 = st;
    keep::lemma_scope_opens(base, outer0);
    let outer1 = st;
    let st = state::open_defers(st);
    let base1 = st;
    keep::lemma_defers_opens(base0, outer1);
    match stmts::run_stmts(nest, st, &b.stmts, 0) {
        Ok((r, st)) => {
            match stmts::end_scope(nest, st) {
                Ok((_, st)) => {
                    keep::lemma_defers(base0, outer1, st);
                    let st = state::close_defers(st);
                    keep::lemma_scope(base, outer0, st);
                    let st = state::close_scope(st);
                },
                Err(_) => {},
            }
        },
        Err(_) => {},
    }
}

} // verus!
