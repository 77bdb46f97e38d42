//! What the functions of `calls` keep.
use vstd::prelude::*;
use crate::ast::{
    CallArg, Expr,
};
use crate::codegen::ir::{
    FuncInfo, Op, Operand, Runtime, Val, I64,
};
use crate::codegen::calls;
use crate::codegen::keep;
use crate::codegen::keep_collections;
use crate::codegen::keep_exprs;
use crate::codegen::keep_lower;
use crate::codegen::keep_places;
use crate::codegen::keep_state;
use crate::codegen::lower;
use crate::codegen::state;
use crate::codegen::nest::Nest;
use crate::codegen::state::State;
use crate::token::Span;

verus! {

/// `call_arg` keeps what was there.
pub broadcast proof fn keeps_call_arg<'a>(base: State<'a>, nest: Nest<'a>, st: State<'a>, a: &'a CallArg)
    requires
        #[trigger] keep::kept(base, st),
        keep::nest_keeps(nest),
    ensures
        match #[trigger] calls::call_arg(nest, st, a) {
            Ok((_, after)) => keep::kept(base, after),
            Err(_) => true,
        },
{

    reveal(calls::call_arg);
}

/// `push_values` keeps what was there.
pub broadcast proof fn keeps_push_values<'a>(base: State<'a>, nest: Nest<'a>, st: State<'a>, args: &'a Vec<CallArg>, i: usize, end: usize)
    requires
        #[trigger] keep::kept(base, st),
        keep::nest_keeps(nest),
    ensures
        match #[trigger] calls::push_values(nest, st, args, i, end) {
            Ok((_, after)) => keep::kept(base, after),
            Err(_) => true,
        },
    decreases args.len() - i,
{
    broadcast use {keeps_call_arg, keep_state::keeps_perform};

    reveal(calls::push_values);
    if i >= args.len() || i >= end {
    } else {
        match calls::call_arg(nest, st, &args@[i as int]) {
            Ok((v, st)) => {
                let st = state::perform(st, Op::Push(v));
                keeps_push_values(base, nest, st, args, (i + 1) as usize, end);
                match calls::push_values(nest, st, args, (i + 1) as usize, end) {
                    Ok((n, st)) => {
                    },
                    Err(_) => {},
                }
            },
            Err(_) => {},
        }
    }
}

/// `push_named` keeps what was there.
pub broadcast proof fn keeps_push_named<'a>(base: State<'a>, nest: Nest<'a>, st: State<'a>, f: FuncInfo, args: &'a Vec<CallArg>, k: usize, n: usize)
    requires
        #[trigger] keep::kept(base, st),
        keep::nest_keeps(nest),
    ensures
        match #[trigger] calls::push_named(nest, st, f, args, k, n) {
            Ok((_, after)) => keep::kept(base, after),
            Err(_) => true,
        },
    decreases n,
{
    broadcast use {keeps_call_arg, keep_state::keeps_perform};

    reveal(calls::push_named);
    if n == 0 {
    } else {
        match calls::named_arg(st, f, k, args, args.len()) {
            Some(i) => {
                if i < args.len() {
                    match calls::call_arg(nest, st, &args@[i as int]) {
                        Ok((v, st)) => {
                            let st = state::perform(st, Op::Push(v));
                            keeps_push_named(base, nest, st, f, args, calls::more(k), (n - 1) as usize);
                            match calls::push_named(nest, st, f, args, calls::more(k), (n - 1) as usize) {
                                Ok((m, st)) => {
                                },
                                Err(_) => {},
                            }
                        },
                        Err(_) => {},
                    }
                } else {
                }
            },
            _ => {
                let st = state::perform(st, Op::Push(Operand { val: Val::Int(0), ty: I64 }));
                keeps_push_named(base, nest, st, f, args, calls::more(k), (n - 1) as usize);
                match calls::push_named(nest, st, f, args, calls::more(k), (n - 1) as usize) {
                    Ok((m, st)) => {
                    },
                    Err(_) => {},
                }
            },
        }
    }
}

/// `fitted` keeps what was there.
pub broadcast proof fn keeps_fitted<'a>(base: State<'a>, st: State<'a>, f: FuncInfo, k: usize, v: Operand)
    requires
        #[trigger] keep::kept(base, st),
    ensures
        keep::kept(base, (#[trigger] calls::fitted(st, f, k, v)).1),
{
    broadcast use keep_lower::keeps_coerce;

    reveal(calls::fitted);
}

/// `push_fitted` keeps what was there.
pub broadcast proof fn keeps_push_fitted<'a>(base: State<'a>, nest: Nest<'a>, st: State<'a>, f: FuncInfo, args: &'a Vec<CallArg>, i: usize)
    requires
        #[trigger] keep::kept(base, st),
        keep::nest_keeps(nest),
    ensures
        match #[trigger] calls::push_fitted(nest, st, f, args, i) {
            Ok((_, after)) => keep::kept(base, after),
            Err(_) => true,
        },
    decreases args.len() - i,
{
    broadcast use {keeps_call_arg, keeps_fitted, keep_state::keeps_perform};

    reveal(calls::push_fitted);
    if i >= args.len() {
    } else {
        match calls::call_arg(nest, st, &args@[i as int]) {
            Ok((v, st)) => {
                let (c, st) = calls::fitted(st, f, i, v);
                let st = state::perform(st, Op::Push(c));
                keeps_push_fitted(base, nest, st, f, args, (i + 1) as usize);
                match calls::push_fitted(nest, st, f, args, (i + 1) as usize) {
                    Ok((n, st)) => {
                    },
                    Err(_) => {},
                }
            },
            Err(_) => {},
        }
    }
}

/// `gather` keeps what was there.
pub broadcast proof fn keeps_gather<'a>(base: State<'a>, nest: Nest<'a>, st: State<'a>, args: &'a Vec<CallArg>, i: usize, end: usize, k: u32, agg: Operand, span: Span)
    requires
        #[trigger] keep::kept(base, st),
        keep::nest_keeps(nest),
    ensures
        match #[trigger] calls::gather(nest, st, args, i, end, k, agg, span) {
            Ok((_, after)) => keep::kept(base, after),
            Err(_) => true,
        },
    decreases args.len() - i,
{
    broadcast use {keeps_call_arg, keep_lower::keeps_insert};

    reveal(calls::gather);
    if i >= args.len() || i >= end {
    } else {
        if k >= 16 {
        } else {
            match calls::call_arg(nest, st, &args@[i as int]) {
                Ok((v, st)) => {
                    let (a, st) = lower::insert(st, agg, v, k);
                    keeps_gather(base, nest, st, args, (i + 1) as usize, end, (k + 1) as u32, a, span);
                    match calls::gather(nest, st, args, (i + 1) as usize, end, (k + 1) as u32, a, span) {
                        Ok((r, st)) => {
                        },
                        Err(_) => {},
                    }
                },
                Err(_) => {},
            }
        }
    }
}

/// `push_variadic` keeps what was there.
pub broadcast proof fn keeps_push_variadic<'a>(base: State<'a>, nest: Nest<'a>, st: State<'a>, f: FuncInfo, args: &'a Vec<CallArg>, v: usize, span: Span)
    requires
        #[trigger] keep::kept(base, st),
        keep::nest_keeps(nest),
    ensures
        match #[trigger] calls::push_variadic(nest, st, f, args, v, span) {
            Ok((_, after)) => keep::kept(base, after),
            Err(_) => true,
        },
{
    broadcast use {keeps_gather, keeps_push_values, keep_lower::keeps_array_of, keep_state::keeps_perform};

    reveal(calls::push_variadic);
}

/// `push_method_variadic` keeps what was there.
pub broadcast proof fn keeps_push_method_variadic<'a>(base: State<'a>, nest: Nest<'a>, st: State<'a>, f: FuncInfo, args: &'a Vec<CallArg>, v: usize, span: Span)
    requires
        #[trigger] keep::kept(base, st),
        keep::nest_keeps(nest),
    ensures
        match #[trigger] calls::push_method_variadic(nest, st, f, args, v, span) {
            Ok((_, after)) => keep::kept(base, after),
            Err(_) => true,
        },
{
    broadcast use {keeps_gather, keeps_push_values, keep_lower::keeps_array_of, keep_state::keeps_perform};

    reveal(calls::push_method_variadic);
}

/// `push_args` keeps what was there.
pub broadcast proof fn keeps_push_args<'a>(base: State<'a>, nest: Nest<'a>, st: State<'a>, f: FuncInfo, args: &'a Vec<CallArg>, span: Span)
    requires
        #[trigger] keep::kept(base, st),
        keep::nest_keeps(nest),
    ensures
        match #[trigger] calls::push_args(nest, st, f, args, span) {
            Ok((_, after)) => keep::kept(base, after),
            Err(_) => true,
        },
{
    broadcast use {keeps_push_fitted, keeps_push_named, keeps_push_values, keeps_push_variadic};

    reveal(calls::push_args);
}

/// `push_method_args` keeps what was there.
pub broadcast proof fn keeps_push_method_args<'a>(base: State<'a>, nest: Nest<'a>, st: State<'a>, f: FuncInfo, args: &'a Vec<CallArg>, span: Span)
    requires
        #[trigger] keep::kept(base, st),
        keep::nest_keeps(nest),
    ensures
        match #[trigger] calls::push_method_args(nest, st, f, args, span) {
            Ok((_, after)) => keep::kept(base, after),
            Err(_) => true,
        },
{
    broadcast use {keeps_push_method_variadic, keeps_push_values};

    reveal(calls::push_method_args);
}

/// `construct` keeps what was there.
pub broadcast proof fn keeps_construct<'a>(base: State<'a>, nest: Nest<'a>, st: State<'a>, l: usize, args: &'a Vec<CallArg>, span: Span)
    requires
        #[trigger] keep::kept(base, st),
        keep::nest_keeps(nest),
    ensures
        match #[trigger] calls::construct(nest, st, l, args, span) {
            Ok((_, after)) => keep::kept(base, after),
            Err(_) => true,
        },
{
    broadcast use {keeps_push_values, keep_lower::keeps_call, keep_lower::keeps_class_ty, keep_lower::keeps_load, keep_state::keeps_emit, keep_state::keeps_perform};

    reveal(calls::construct);
}

/// `call_runtime` keeps what was there.
pub broadcast proof fn keeps_call_runtime<'a>(base: State<'a>, st: State<'a>, f: Runtime, n: usize)
    requires
        #[trigger] keep::kept(base, st),
    ensures
        keep::kept(base, (#[trigger] calls::call_runtime(st, f, n)).1),
{
    broadcast use {keep_lower::keeps_runtime, keep_state::keeps_perform};

    reveal(calls::call_runtime);
}

/// `call_expr` keeps what was there.
pub broadcast proof fn keeps_call_expr<'a>(base: State<'a>, nest: Nest<'a>, st: State<'a>, callee: Seq<char>, args: &'a Vec<CallArg>, span: Span)
    requires
        #[trigger] keep::kept(base, st),
        keep::nest_keeps(nest),
    ensures
        match #[trigger] calls::call_expr(nest, st, callee, args, span) {
            Ok((_, after)) => keep::kept(base, after),
            Err(_) => true,
        },
{
    broadcast use {keeps_call_runtime, keeps_construct, keeps_push_args, keeps_push_values, keep_lower::keeps_call, keep_lower::keeps_load, keep_state::keeps_emit};

    reveal(calls::call_expr);
}

/// `method_object` keeps what was there.
pub broadcast proof fn keeps_method_object<'a>(base: State<'a>, nest: Nest<'a>, st: State<'a>, o: &'a Expr, span: Span)
    requires
        #[trigger] keep::kept(base, st),
        keep::nest_keeps(nest),
    ensures
        match #[trigger] calls::method_object(nest, st, o, span) {
            Ok((_, after)) => keep::kept(base, after),
            Err(_) => true,
        },
{
    broadcast use {keep_lower::keeps_load, keep_places::keeps_field_ptr};

    reveal(calls::method_object);
}

/// `class_call` keeps what was there.
pub broadcast proof fn keeps_class_call<'a>(base: State<'a>, nest: Nest<'a>, st: State<'a>, o: &'a Expr, method: Seq<char>, args: &'a Vec<CallArg>, span: Span)
    requires
        #[trigger] keep::kept(base, st),
        keep::nest_keeps(nest),
    ensures
        match #[trigger] calls::class_call(nest, st, o, method, args, span) {
            Ok((_, after)) => keep::kept(base, after),
            Err(_) => true,
        },
{
    broadcast use {keeps_method_object, keeps_push_method_args, keep_lower::keeps_call, keep_state::keeps_perform};

    reveal(calls::class_call);
}

/// `push_call` keeps what was there.
pub broadcast proof fn keeps_push_call<'a>(base: State<'a>, nest: Nest<'a>, st: State<'a>, n: Seq<char>, args: &'a Vec<CallArg>, object_span: Span, span: Span)
    requires
        #[trigger] keep::kept(base, st),
        keep::nest_keeps(nest),
    ensures
        match #[trigger] calls::push_call(nest, st, n, args, object_span, span) {
            Ok((_, after)) => keep::kept(base, after),
            Err(_) => true,
        },
{
    broadcast use {keeps_call_arg, keep_collections::keeps_vec_push};

    reveal(calls::push_call);
}

/// `method_call` keeps what was there.
pub broadcast proof fn keeps_method_call<'a>(base: State<'a>, nest: Nest<'a>, st: State<'a>, o: &'a Expr, method: Seq<char>, args: &'a Vec<CallArg>, span: Span)
    requires
        #[trigger] keep::kept(base, st),
        keep::nest_keeps(nest),
    ensures
        match #[trigger] calls::method_call(nest, st, o, method, args, span) {
            Ok((_, after)) => keep::kept(base, after),
            Err(_) => true,
        },
{
    broadcast use {keeps_class_call, keeps_push_call, keep_collections::keeps_collection_method, keep_exprs::keeps_enum_value};

    reveal(calls::method_call);
}

} // verus!
