//! Lowering of calls.
use vstd::prelude::*;
use crate::ast::{
    CallArg, Expr, ExprKind,
};
use crate::codegen::ir::{
    FuncInfo, Guess, MemberKind, Op, Operand, Runtime, Val,
    I32, I64, PTR,
};
use crate::codegen::lower;
use crate::codegen::places;
use crate::codegen::exprs;
use crate::codegen::collections;
use crate::codegen::nest;
use crate::codegen::nest::Nest;
use crate::codegen::state;
use crate::codegen::state::{Codegen, CodegenError, Failure, State, Trouble, decimal_of, fault, fault_naming, fault_naming_two};
use crate::text;
use crate::token::Span;

verus! {

/// An argument: a value, or the address of what the callee may change.
#[verifier::opaque]
pub open spec fn call_arg<'a>(nest: Nest<'a>, st: State<'a>, a: &'a CallArg) -> Result<(Operand, State<'a>), Failure<'a>>
{
    match *a {
        CallArg::Value(e) => {
            (nest.expr)(st, &e)
        },
        CallArg::Named { name: _, value } => {
            (nest.expr)(st, &value)
        },
        CallArg::Out { ty: _, name, name_span } => {
            match state::lookup_var(st, name@) {
                Some(v) => {
                    Ok((Operand { val: v.val, ty: PTR }, st))
                },
                _ => {
                    Err(Failure { trouble: state::naming("undefined variable `"@, name@, "` for `out`"@, name_span), after: st })
                },
            }
        },
        CallArg::Ref(e) => {
            match (nest.place)(st, &e) {
                Ok((p, st)) => {
                    Ok((Operand { val: p.val, ty: PTR }, st))
                },
                Err(e) => Err(e),
            }
        },
    }
}

/// One more, as far as there are numbers.
#[verifier::opaque]
pub open spec fn more(n: usize) -> usize
{
    if n < usize::MAX {
        (n + 1) as usize
    } else {
        n
    }
}

/// What is left of `a`, or nothing.
#[verifier::opaque]
pub open spec fn minus(a: usize, b: usize) -> usize
{
    if a >= b {
        (a - b) as usize
    } else {
        0
    }
}

/// A sum, as far as there are numbers.
#[verifier::opaque]
pub open spec fn plus(a: usize, b: usize) -> usize
{
    if b <= usize::MAX - a {
        (a + b) as usize
    } else {
        usize::MAX
    }
}

/// Passes the arguments `i..end`; how many there were.
#[verifier::opaque]
pub open spec fn push_values<'a>(nest: Nest<'a>, st: State<'a>, args: &'a Vec<CallArg>, i: usize, end: usize) -> Result<(usize, State<'a>), Failure<'a>>
    decreases args.len() - i,
{
    if i >= args.len() || i >= end {
        Ok((0, st))
    } else {
        match call_arg(nest, st, &args@[i as int]) {
            Ok((v, st)) => {
                let st = state::perform(st, Op::Push(v));
                match push_values(nest, st, args, (i + 1) as usize, end) {
                    Ok((n, st)) => {
                        Ok((more(n), st))
                    },
                    Err(e) => Err(e),
                }
            },
            Err(e) => Err(e),
        }
    }
}

/// The first parameter from `i` on that gathers arguments; `n` is how many are left.
#[verifier::opaque]
pub open spec fn first_variadic<'a>(st: State<'a>, f: FuncInfo, i: usize, n: usize) -> Option<usize>
    decreases n,
{
    if n == 0 {
        None
    } else {
        let q = state::param_info(st, f, i);
        if q.is_variadic {
            Some(i)
        } else {
            first_variadic(st, f, more(i), (n - 1) as usize)
        }
    }
}

/// The elements that a parameter gathers.
#[verifier::opaque]
pub open spec fn gathered_elem<'a>(st: State<'a>, f: FuncInfo, i: usize) -> usize
{
    let q = state::param_info(st, f, i);
    match q.elem {
        Some(t) => {
            t
        },
        _ => {
            I64
        },
    }
}

/// Whether an argument from `i` on is named.
#[verifier::opaque]
pub open spec fn has_named<'a>(args: &'a Vec<CallArg>, i: usize) -> bool
    decreases args.len() - i,
{
    if i >= args.len() {
        false
    } else {
        match args@[i as int] {
            CallArg::Named { name: _, value: _ } => {
                true
            },
            _ => {
                has_named(args, (i + 1) as usize)
            },
        }
    }
}

/// The last of the first `n` arguments that names parameter `k`.
#[verifier::opaque]
pub open spec fn named_arg<'a>(st: State<'a>, f: FuncInfo, k: usize, args: &'a Vec<CallArg>, n: usize) -> Option<usize>
    decreases n,
{
    if n == 0 || n > args.len() {
        None
    } else {
        let i = (n - 1) as usize;
        match args@[i as int] {
            CallArg::Named { name, value: _ } => {
                if state::param_is(st, f, k, name@) {
                    Some((n - 1) as usize)
                } else {
                    named_arg(st, f, k, args, (n - 1) as usize)
                }
            },
            _ => {
                named_arg(st, f, k, args, (n - 1) as usize)
            },
        }
    }
}

/// Passes named arguments in the order of the parameters from `k` on, of which `n` are left; zero for one that is missing.
#[verifier::opaque]
pub open spec fn push_named<'a>(nest: Nest<'a>, st: State<'a>, f: FuncInfo, args: &'a Vec<CallArg>, k: usize, n: usize) -> Result<(usize, State<'a>), Failure<'a>>
    decreases n,
{
    if n == 0 {
        Ok((0, st))
    } else {
        match named_arg(st, f, k, args, args.len()) {
            Some(i) => {
                if i < args.len() {
                    match call_arg(nest, st, &args@[i as int]) {
                        Ok((v, st)) => {
                            let st = state::perform(st, Op::Push(v));
                            match push_named(nest, st, f, args, more(k), (n - 1) as usize) {
                                Ok((m, st)) => {
                                    Ok((more(m), st))
                                },
                                Err(e) => Err(e),
                            }
                        },
                        Err(e) => Err(e),
                    }
                } else {
                    Ok((0, st))
                }
            },
            _ => {
                let st = state::perform(st, Op::Push(Operand { val: Val::Int(0), ty: I64 }));
                match push_named(nest, st, f, args, more(k), (n - 1) as usize) {
                    Ok((m, st)) => {
                        Ok((more(m), st))
                    },
                    Err(e) => Err(e),
                }
            },
        }
    }
}

/// An argument as its parameter takes it.
#[verifier::opaque]
pub open spec fn fitted<'a>(st: State<'a>, f: FuncInfo, k: usize, v: Operand) -> (Operand, State<'a>)
{
    let q = state::param_info(st, f, k);
    match q.ty {
        Some(t) => {
            let (r, st) = lower::coerce(st, v, t);
            (r, st)
        },
        _ => {
            (v, st)
        },
    }
}

/// Passes arguments as their parameters take them.
#[verifier::opaque]
pub open spec fn push_fitted<'a>(nest: Nest<'a>, st: State<'a>, f: FuncInfo, args: &'a Vec<CallArg>, i: usize) -> Result<(usize, State<'a>), Failure<'a>>
    decreases args.len() - i,
{
    if i >= args.len() {
        Ok((0, st))
    } else {
        match call_arg(nest, st, &args@[i as int]) {
            Ok((v, st)) => {
                let (c, st) = fitted(st, f, i, v);
                let st = state::perform(st, Op::Push(c));
                match push_fitted(nest, st, f, args, (i + 1) as usize) {
                    Ok((n, st)) => {
                        Ok((more(n), st))
                    },
                    Err(e) => Err(e),
                }
            },
            Err(e) => Err(e),
        }
    }
}

/// The enum that an expression names.
#[verifier::opaque]
pub open spec fn enum_named<'a>(st: State<'a>, o: &'a Expr) -> Option<usize>
{
    match o.kind {
        ExprKind::Ident(n) => {
            if places::is_bound(st, n@) {
                None
            } else {
                match state::layout(st, n@) {
                    Some(l) => {
                        if state::is_enum(st, l) {
                            Some(l)
                        } else {
                            None
                        }
                    },
                    _ => {
                        None
                    },
                }
            }
        },
        _ => {
            None
        },
    }
}

/// An array with the arguments `i..end` from place `k` on.
#[verifier::opaque]
pub open spec fn gather<'a>(nest: Nest<'a>, st: State<'a>, args: &'a Vec<CallArg>, i: usize, end: usize, k: u32, agg: Operand, span: Span) -> Result<(Operand, State<'a>), Failure<'a>>
    decreases args.len() - i,
{
    if i >= args.len() || i >= end {
        Ok((agg, st))
    } else if k >= 16 {
        Err(Failure { trouble: Trouble { message: "a call gathers at most 16 values"@, span: span }, after: st })
    } else {
        match call_arg(nest, st, &args@[i as int]) {
            Ok((v, st)) => {
                let (a, st) = lower::insert(st, agg, v, k);
                gather(nest, st, args, (i + 1) as usize, end, (k + 1) as u32, a, span)
            },
            Err(e) => Err(e),
        }
    }
}

/// Passes arguments of which those from parameter `v` on are gathered in an array. Where parameters follow, the gathered arguments are computed twice.
#[verifier::opaque]
pub open spec fn push_variadic<'a>(nest: Nest<'a>, st: State<'a>, f: FuncInfo, args: &'a Vec<CallArg>, v: usize, span: Span) -> Result<(usize, State<'a>), Failure<'a>>
{
    match push_values(nest, st, args, 0, v) {
        Ok((a, st)) => {
            let e = gathered_elem(st, f, v);
            let (t, st) = lower::array_of(st, e, 16);
            match gather(nest, st, args, v, args.len(), 0, Operand { val: Val::Undef, ty: t }, span) {
                Ok((x, st)) => {
                    if more(v) >= f.count {
                        if args.len() <= v {
                            let st = state::perform(st, Op::Push(Operand { val: Val::Zero, ty: t }));
                            Ok((more(a), st))
                        } else {
                            let st = state::perform(st, Op::Push(x));
                            Ok((more(a), st))
                        }
                    } else if more(args.len()) < f.count {
                        Err(Failure { trouble: Trouble { message: "too few arguments"@, span: span }, after: st })
                    } else {
                        let n = minus(more(args.len()), f.count);
                        let end = plus(v, n);
                        match gather(nest, st, args, v, end, 0, Operand { val: Val::Zero, ty: t }, span) {
                            Ok((y, st)) => {
                                let st = state::perform(st, Op::Push(y));
                                match push_values(nest, st, args, end, args.len()) {
                                    Ok((b, st)) => {
                                        Ok((more(plus(a, b)), st))
                                    },
                                    Err(e) => Err(e),
                                }
                            },
                            Err(e) => Err(e),
                        }
                    }
                },
                Err(e) => Err(e),
            }
        },
        Err(e) => Err(e),
    }
}

/// Passes arguments of a method of which those from parameter `v` on are gathered in an array.
#[verifier::opaque]
pub open spec fn push_method_variadic<'a>(nest: Nest<'a>, st: State<'a>, f: FuncInfo, args: &'a Vec<CallArg>, v: usize, span: Span) -> Result<(usize, State<'a>), Failure<'a>>
{
    let fixed = minus(v, 1);
    match push_values(nest, st, args, 0, fixed) {
        Ok((a, st)) => {
            let e = gathered_elem(st, f, v);
            let (t, st) = lower::array_of(st, e, 16);
            let total = minus(f.count, 1);
            if more(fixed) >= total {
                if args.len() < fixed {
                    Err(Failure { trouble: Trouble { message: "too few arguments"@, span: span }, after: st })
                } else if args.len() == fixed {
                    let st = state::perform(st, Op::Push(Operand { val: Val::Zero, ty: t }));
                    Ok((more(a), st))
                } else {
                    match gather(nest, st, args, fixed, args.len(), 0, Operand { val: Val::Undef, ty: t }, span) {
                        Ok((x, st)) => {
                            let st = state::perform(st, Op::Push(x));
                            Ok((more(a), st))
                        },
                        Err(e) => Err(e),
                    }
                }
            } else if args.len() <= fixed || args.len() < total {
                let st = state::perform(st, Op::Push(Operand { val: Val::Zero, ty: t }));
                match push_values(nest, st, args, fixed, args.len()) {
                    Ok((b, st)) => {
                        Ok((more(plus(a, b)), st))
                    },
                    Err(e) => Err(e),
                }
            } else {
                let n = minus(more(args.len()), total);
                let end = plus(fixed, n);
                match gather(nest, st, args, fixed, end, 0, Operand { val: Val::Undef, ty: t }, span) {
                    Ok((x, st)) => {
                        let st = state::perform(st, Op::Push(x));
                        match push_values(nest, st, args, end, args.len()) {
                            Ok((b, st)) => {
                                Ok((more(plus(a, b)), st))
                            },
                            Err(e) => Err(e),
                        }
                    },
                    Err(e) => Err(e),
                }
            }
        },
        Err(e) => Err(e),
    }
}

/// Passes the arguments of a function.
#[verifier::opaque]
pub open spec fn push_args<'a>(nest: Nest<'a>, st: State<'a>, f: FuncInfo, args: &'a Vec<CallArg>, span: Span) -> Result<(usize, State<'a>), Failure<'a>>
{
    if !f.converts || f.c_varargs {
        push_values(nest, st, args, 0, args.len())
    } else {
        match first_variadic(st, f, 0, f.count) {
            Some(v) => {
                push_variadic(nest, st, f, args, v, span)
            },
            _ => {
                if has_named(args, 0) && f.count > 0 {
                    push_named(nest, st, f, args, 0, f.count)
                } else {
                    push_fitted(nest, st, f, args, 0)
                }
            },
        }
    }
}

/// Passes the arguments of a method.
#[verifier::opaque]
pub open spec fn push_method_args<'a>(nest: Nest<'a>, st: State<'a>, f: FuncInfo, args: &'a Vec<CallArg>, span: Span) -> Result<(usize, State<'a>), Failure<'a>>
{
    match first_variadic(st, f, 0, f.count) {
        Some(v) => {
            push_method_variadic(nest, st, f, args, v, span)
        },
        _ => {
            push_values(nest, st, args, 0, args.len())
        },
    }
}

/// The first constructor that takes `n` arguments, else the first of all.
#[verifier::opaque]
pub open spec fn pick_constructor<'a>(st: State<'a>, l: usize, n: usize) -> Option<usize>
{
    match state::constructor_for(st, l, n) {
        Some(k) => {
            Some(k)
        },
        _ => {
            state::first_constructor(st, l)
        },
    }
}

/// The class of a name, where it has constructors.
#[verifier::opaque]
pub open spec fn constructible<'a>(st: State<'a>, n: Seq<char>) -> Option<usize>
{
    match state::layout(st, n) {
        Some(l) => {
            match state::first_constructor(st, l) {
                Some(_) => {
                    Some(l)
                },
                _ => {
                    None
                },
            }
        },
        _ => {
            None
        },
    }
}

/// Makes an object.
#[verifier::opaque]
pub open spec fn construct<'a>(nest: Nest<'a>, st: State<'a>, l: usize, args: &'a Vec<CallArg>, span: Span) -> Result<(Operand, State<'a>), Failure<'a>>
{
    match pick_constructor(st, l, args.len()) {
        Some(k) => {
            let info = state::member_info(st, k);
            let (t, st) = lower::class_ty(st, l);
            let (p, st) = state::emit(st, Op::Temp(t), PTR);
            let st = state::perform(st, Op::Push(Operand { val: p.val, ty: PTR }));
            match push_values(nest, st, args, 0, args.len()) {
                Ok((n, st)) => {
                    let (x, st) = lower::call(st, info.func, more(n));
                    let (r, st) = lower::load(st, Operand { val: p.val, ty: t });
                    Ok((r, st))
                },
                Err(e) => Err(e),
            }
        },
        _ => {
            Err(Failure { trouble: Trouble { message: "no constructor"@, span: span }, after: st })
        },
    }
}

/// Calls a function of the C library with the last `n` arguments; zero where it returns nothing.
#[verifier::opaque]
pub open spec fn call_runtime<'a>(st: State<'a>, f: Runtime, n: usize) -> (Operand, State<'a>)
{
    match f {
        Runtime::Abort => {
            let st = state::perform(st, Op::CallRuntime(f, n));
            (Operand { val: Val::Int(0), ty: I64 }, st)
        },
        Runtime::Strlen => {
            let (r, st) = lower::runtime(st, f, n, I64);
            (r, st)
        },
        Runtime::Strcat => {
            let (r, st) = lower::runtime(st, f, n, PTR);
            (r, st)
        },
        Runtime::Strdup => {
            let (r, st) = lower::runtime(st, f, n, PTR);
            (r, st)
        },
        _ => {
            let (r, st) = lower::runtime(st, f, n, I32);
            (r, st)
        },
    }
}

/// A call of a constructor, of a function, of what the code so far has called of the C library, or of what a variable holds.
#[verifier::opaque]
pub open spec fn call_expr<'a>(nest: Nest<'a>, st: State<'a>, callee: Seq<char>, args: &'a Vec<CallArg>, span: Span) -> Result<(Operand, State<'a>), Failure<'a>>
{
    match constructible(st, callee) {
        Some(l) => {
            construct(nest, st, l, args, span)
        },
        _ => {
            match state::function(st, callee) {
                Some(f) => {
                    let info = state::func_info(st, f);
                    match push_args(nest, st, info, args, span) {
                        Ok((n, st)) => {
                            let (r, st) = lower::call(st, f, n);
                            Ok((r, st))
                        },
                        Err(e) => Err(e),
                    }
                },
                _ => {
                    match state::brought_in(st, callee) {
                        Some(f) => {
                            match push_values(nest, st, args, 0, args.len()) {
                                Ok((n, st)) => {
                                    let (r, st) = call_runtime(st, f, n);
                                    Ok((r, st))
                                },
                                Err(e) => Err(e),
                            }
                        },
                        _ => {
                            match state::lookup_var(st, callee) {
                                Some(p) => {
                                    if lower::is_ptr(st, p.ty) {
                                        let (v, st) = lower::load(st, p);
                                        match push_values(nest, st, args, 0, args.len()) {
                                            Ok((n, st)) => {
                                                let (r, st) = state::emit(st, Op::CallValue(v, n), I64);
                                                Ok((r, st))
                                            },
                                            Err(e) => Err(e),
                                        }
                                    } else {
                                        Err(Failure { trouble: state::naming("variable "@, callee, " holds no function"@, span), after: st })
                                    }
                                },
                                _ => {
                                    Err(Failure { trouble: state::naming("undefined function "@, callee, ""@, span), after: st })
                                },
                            }
                        },
                    }
                },
            }
        },
    }
}

/// The object that a method is called on.
#[verifier::opaque]
pub open spec fn method_object<'a>(nest: Nest<'a>, st: State<'a>, o: &'a Expr, span: Span) -> Result<(Val, State<'a>), Failure<'a>>
{
    match o.kind {
        ExprKind::Ident(n) => {
            match state::lookup_var(st, n@) {
                Some(v) => {
                    if lower::is_struct(st, v.ty) {
                        Ok((v.val, st))
                    } else if lower::is_ptr(st, v.ty) {
                        let (p, st) = lower::load(st, v);
                        Ok((p.val, st))
                    } else {
                        Err(Failure { trouble: state::naming("method call on non-class variable `"@, n@, "`"@, span), after: st })
                    }
                },
                _ => {
                    Err(Failure { trouble: state::naming("undefined var "@, n@, ""@, span), after: st })
                },
            }
        },
        ExprKind::This => {
            match state::lookup_var(st, "this"@) {
                Some(v) => {
                    let (p, st) = lower::load(st, v);
                    Ok((p.val, st))
                },
                _ => {
                    Err(Failure { trouble: Trouble { message: "`this` outside method"@, span: span }, after: st })
                },
            }
        },
        ExprKind::Member(i, f) => {
            match places::field_ptr(nest, st, &*i, f@) {
                Ok((p, st)) => {
                    Ok((p.val, st))
                },
                Err(e) => Err(e),
            }
        },
        _ => {
            Err(Failure { trouble: Trouble { message: "method call object must be variable or field access"@, span: span }, after: st })
        },
    }
}

/// A call of a method of a class.
#[verifier::opaque]
pub open spec fn class_call<'a>(nest: Nest<'a>, st: State<'a>, o: &'a Expr, method: Seq<char>, args: &'a Vec<CallArg>, span: Span) -> Result<(Operand, State<'a>), Failure<'a>>
{
    match method_object(nest, st, o, span) {
        Ok((p, st)) => {
            match (nest.infer)(st, o) {
                Ok(g) => {
                    match g {
                        Guess::Struct(l) => {
                            match state::member_entry(st, method, l, MemberKind::Method) {
                                Some(k) => {
                                    let m = state::member_info(st, k);
                                    let info = state::func_info(st, m.func);
                                    let st = state::perform(st, Op::Push(Operand { val: p, ty: PTR }));
                                    match push_method_args(nest, st, info, args, span) {
                                        Ok((n, st)) => {
                                            let (r, st) = lower::call(st, m.func, more(n));
                                            Ok((r, st))
                                        },
                                        Err(e) => Err(e),
                                    }
                                },
                                _ => {
                                    let c = state::layout_name(st, l);
                                    Err(Failure { trouble: state::naming_two("unknown method "@, method, " for class "@, c, ""@, span), after: st })
                                },
                            }
                        },
                        _ => {
                            Err(Failure { trouble: Trouble { message: "method call on non-class"@, span: span }, after: st })
                        },
                    }
                },
                Err(e) => Err(Failure { trouble: e, after: st }),
            }
        },
        Err(e) => Err(e),
    }
}

/// A call of the method of vectors that adds an element.
#[verifier::opaque]
pub open spec fn push_call<'a>(nest: Nest<'a>, st: State<'a>, n: Seq<char>, args: &'a Vec<CallArg>, object_span: Span, span: Span) -> Result<(Operand, State<'a>), Failure<'a>>
{
    if args.len() != 1 {
        let k = state::decimal_text(args.len());
        Err(Failure { trouble: state::naming("`push` expects 1 arg, found "@, k, ""@, span), after: st })
    } else {
        match state::lookup_var(st, n) {
            Some(p) => {
                if lower::is_struct(st, p.ty) {
                    match call_arg(nest, st, &args@[0 as int]) {
                        Ok((v, st)) => {
                            let st = collections::vec_push(st, p, v);
                            Ok((Operand { val: Val::Int(0), ty: I64 }, st))
                        },
                        Err(e) => Err(e),
                    }
                } else {
                    Err(Failure { trouble: state::naming("`push` on non-vector `"@, n, "`"@, object_span), after: st })
                }
            },
            _ => {
                Err(Failure { trouble: state::naming("undefined var "@, n, ""@, object_span), after: st })
            },
        }
    }
}

/// A call of a method, of a collection or of a class; or a variant of an enum with its payload.
#[verifier::opaque]
pub open spec fn method_call<'a>(nest: Nest<'a>, st: State<'a>, o: &'a Expr, method: Seq<char>, args: &'a Vec<CallArg>, span: Span) -> Result<(Operand, State<'a>), Failure<'a>>
{
    match enum_named(st, o) {
        Some(l) => {
            exprs::enum_value(nest, st, l, method, args, span)
        },
        _ => {
            match o.kind {
                ExprKind::Ident(n) => {
                    if (method == "push"@) && state::is_vec(st, n@) {
                        push_call(nest, st, n@, args, o.span, span)
                    } else {
                        match collections::collection_method(nest, st, n@, method, args, span) {
                            Ok((x, st)) => {
                                match x {
                                    Some(r) => {
                                        Ok((r, st))
                                    },
                                    _ => {
                                        class_call(nest, st, o, method, args, span)
                                    },
                                }
                            },
                            Err(e) => Err(e),
                        }
                    }
                },
                _ => {
                    class_call(nest, st, o, method, args, span)
                },
            }
        },
    }
}

impl<'a> Codegen<'a> {
    /// An argument: a value, or the address of what the callee may change.
    pub fn call_arg(&mut self, depth: usize, a: &'a CallArg) -> (out: Result<Operand, CodegenError>)
        ensures
            match out {
                Ok(made) => call_arg(nest::nest(depth as nat), old(self)@, a) == Ok::<(Operand, State<'a>), Failure<'a>>((made, final(self)@)),
                Err(trouble) => call_arg(nest::nest(depth as nat), old(self)@, a) == Err::<(Operand, State<'a>), Failure<'a>>(Failure { trouble: trouble@, after: final(self)@ }),
            },
        decreases depth, 1int, 0int,
    {
        reveal(call_arg);
        match a {
            CallArg::Value(e) => {
                let r = match self.nested_expr(depth, e) {
                    Ok(v) => v,
                    Err(e) => {
                        return Err(e);
                    },
                };
                return Ok(r);
            },
            CallArg::Named { name: _, value } => {
                let r = match self.nested_expr(depth, value) {
                    Ok(v) => v,
                    Err(e) => {
                        return Err(e);
                    },
                };
                return Ok(r);
            },
            CallArg::Out { ty: _, name, name_span } => {
                match self.lookup_var(name.as_str()) {
                    Some(v) => {
                        return Ok(Operand { val: v.val, ty: PTR });
                    },
                    _ => {},
                }
                return Err(fault_naming("undefined variable `", name.as_str(), "` for `out`", *name_span));
            },
            CallArg::Ref(e) => {
                let p = match self.nested_place(depth, e) {
                    Ok(v) => v,
                    Err(e) => {
                        return Err(e);
                    },
                };
                return Ok(Operand { val: p.val, ty: PTR });
            },
        }
    }

    /// One more, as far as there are numbers.
    pub fn more(&self, n: usize) -> (out: usize)
        ensures
            out == more(n),
    {
        reveal(more);
        if n < usize::MAX {
            return n + 1;
        }
        n
    }

    /// What is left of `a`, or nothing.
    pub fn minus(&self, a: usize, b: usize) -> (out: usize)
        ensures
            out == minus(a, b),
    {
        reveal(minus);
        if a >= b {
            return a - b;
        }
        0
    }

    /// A sum, as far as there are numbers.
    pub fn plus(&self, a: usize, b: usize) -> (out: usize)
        ensures
            out == plus(a, b),
    {
        reveal(plus);
        if b <= usize::MAX - a {
            return a + b;
        }
        usize::MAX
    }

    /// Passes the arguments `i..end`; how many there were.
    pub fn push_values(&mut self, depth: usize, args: &'a Vec<CallArg>, i: usize, end: usize) -> (out: Result<usize, CodegenError>)
        ensures
            match out {
                Ok(made) => push_values(nest::nest(depth as nat), old(self)@, args, i, end) == Ok::<(usize, State<'a>), Failure<'a>>((made, final(self)@)),
                Err(trouble) => push_values(nest::nest(depth as nat), old(self)@, args, i, end) == Err::<(usize, State<'a>), Failure<'a>>(Failure { trouble: trouble@, after: final(self)@ }),
            },
        decreases depth, 2int, args.len() - i,
    {
        reveal(push_values);
        if i >= args.len() || i >= end {
            return Ok(0);
        }
        let v = match self.call_arg(depth, &args[i]) {
            Ok(v) => v,
            Err(e) => {
                return Err(e);
            },
        };
        self.perform(Op::Push(v));
        let n = match self.push_values(depth, args, i + 1, end) {
            Ok(v) => v,
            Err(e) => {
                return Err(e);
            },
        };
        Ok(self.more(n))
    }

    /// The first parameter from `i` on that gathers arguments; `n` is how many are left.
    pub fn first_variadic(&self, f: FuncInfo, i: usize, n: usize) -> (out: Option<usize>)
        ensures
            out == first_variadic(self@, f, i, n),
        decreases n,
    {
        reveal(first_variadic);
        if n == 0 {
            return None;
        }
        let q = self.param_info(f, i);
        if q.is_variadic {
            return Some(i);
        }
        self.first_variadic(f, self.more(i), n - 1)
    }

    /// The elements that a parameter gathers.
    pub fn gathered_elem(&self, f: FuncInfo, i: usize) -> (out: usize)
        ensures
            out == gathered_elem(self@, f, i),
    {
        reveal(gathered_elem);
        let q = self.param_info(f, i);
        match q.elem {
            Some(t) => {
                return t;
            },
            _ => {},
        }
        I64
    }

    /// Whether an argument from `i` on is named.
    pub fn has_named(&self, args: &'a Vec<CallArg>, i: usize) -> (out: bool)
        ensures
            out == has_named(args, i),
        decreases args.len() - i,
    {
        reveal(has_named);
        if i >= args.len() {
            return false;
        }
        match &args[i] {
            CallArg::Named { name: _, value: _ } => {
                return true;
            },
            _ => {},
        }
        self.has_named(args, i + 1)
    }

    /// The last of the first `n` arguments that names parameter `k`.
    pub fn named_arg(&self, f: FuncInfo, k: usize, args: &'a Vec<CallArg>, n: usize) -> (out: Option<usize>)
        ensures
            out == named_arg(self@, f, k, args, n),
        decreases n,
    {
        reveal(named_arg);
        if n == 0 || n > args.len() {
            return None;
        }
        let i: usize = n - 1;
        match &args[i] {
            CallArg::Named { name, value: _ } => {
                if self.param_is(f, k, name.as_str()) {
                    return Some(n - 1);
                }
                return self.named_arg(f, k, args, n - 1);
            },
            _ => {},
        }
        self.named_arg(f, k, args, n - 1)
    }

    /// Passes named arguments in the order of the parameters from `k` on, of which `n` are left; zero for one that is missing.
    pub fn push_named(&mut self, depth: usize, f: FuncInfo, args: &'a Vec<CallArg>, k: usize, n: usize) -> (out: Result<usize, CodegenError>)
        ensures
            match out {
                Ok(made) => push_named(nest::nest(depth as nat), old(self)@, f, args, k, n) == Ok::<(usize, State<'a>), Failure<'a>>((made, final(self)@)),
                Err(trouble) => push_named(nest::nest(depth as nat), old(self)@, f, args, k, n) == Err::<(usize, State<'a>), Failure<'a>>(Failure { trouble: trouble@, after: final(self)@ }),
            },
        decreases depth, 2int, n,
    {
        reveal(push_named);
        if n == 0 {
            return Ok(0);
        }
        match self.named_arg(f, k, args, args.len()) {
            Some(i) => {
                if i < args.len() {
                    let v = match self.call_arg(depth, &args[i]) {
                        Ok(v) => v,
                        Err(e) => {
                            return Err(e);
                        },
                    };
                    self.perform(Op::Push(v));
                    let m = match self.push_named(depth, f, args, self.more(k), n - 1) {
                        Ok(v) => v,
                        Err(e) => {
                            return Err(e);
                        },
                    };
                    return Ok(self.more(m));
                }
                return Ok(0);
            },
            _ => {},
        }
        self.perform(Op::Push(Operand { val: Val::Int(0), ty: I64 }));
        let m = match self.push_named(depth, f, args, self.more(k), n - 1) {
            Ok(v) => v,
            Err(e) => {
                return Err(e);
            },
        };
        Ok(self.more(m))
    }

    /// An argument as its parameter takes it.
    pub fn fitted(&mut self, f: FuncInfo, k: usize, v: Operand) -> (out: Operand)
        ensures
            (out, final(self)@) == fitted(old(self)@, f, k, v),
    {
        reveal(fitted);
        let q = self.param_info(f, k);
        match q.ty {
            Some(t) => {
                let r = self.coerce(v, t);
                return r;
            },
            _ => {},
        }
        v
    }

    /// Passes arguments as their parameters take them.
    pub fn push_fitted(&mut self, depth: usize, f: FuncInfo, args: &'a Vec<CallArg>, i: usize) -> (out: Result<usize, CodegenError>)
        ensures
            match out {
                Ok(made) => push_fitted(nest::nest(depth as nat), old(self)@, f, args, i) == Ok::<(usize, State<'a>), Failure<'a>>((made, final(self)@)),
                Err(trouble) => push_fitted(nest::nest(depth as nat), old(self)@, f, args, i) == Err::<(usize, State<'a>), Failure<'a>>(Failure { trouble: trouble@, after: final(self)@ }),
            },
        decreases depth, 4int, args.len() - i,
    {
        reveal(push_fitted);
        if i >= args.len() {
            return Ok(0);
        }
        let v = match self.call_arg(depth, &args[i]) {
            Ok(v) => v,
            Err(e) => {
                return Err(e);
            },
        };
        let c = self.fitted(f, i, v);
        self.perform(Op::Push(c));
        let n = match self.push_fitted(depth, f, args, i + 1) {
            Ok(v) => v,
            Err(e) => {
                return Err(e);
            },
        };
        Ok(self.more(n))
    }

    /// The enum that an expression names.
    pub fn enum_named(&self, o: &'a Expr) -> (out: Option<usize>)
        ensures
            out == enum_named(self@, o),
    {
        reveal(enum_named);
        match &o.kind {
            ExprKind::Ident(n) => {
                if self.is_bound(n.as_str()) {
                    return None;
                }
                match self.layout(n.as_str()) {
                    Some(l) => {
                        if self.is_enum(l) {
                            return Some(l);
                        }
                        return None;
                    },
                    _ => {},
                }
                return None;
            },
            _ => {},
        }
        None
    }

    /// An array with the arguments `i..end` from place `k` on.
    pub fn gather(&mut self, depth: usize, args: &'a Vec<CallArg>, i: usize, end: usize, k: u32, agg: Operand, span: Span) -> (out: Result<Operand, CodegenError>)
        ensures
            match out {
                Ok(made) => gather(nest::nest(depth as nat), old(self)@, args, i, end, k, agg, span) == Ok::<(Operand, State<'a>), Failure<'a>>((made, final(self)@)),
                Err(trouble) => gather(nest::nest(depth as nat), old(self)@, args, i, end, k, agg, span) == Err::<(Operand, State<'a>), Failure<'a>>(Failure { trouble: trouble@, after: final(self)@ }),
            },
        decreases depth, 2int, args.len() - i,
    {
        reveal(gather);
        if i >= args.len() || i >= end {
            return Ok(agg);
        }
        if k >= 16 {
            return Err(fault("a call gathers at most 16 values", span));
        }
        let v = match self.call_arg(depth, &args[i]) {
            Ok(v) => v,
            Err(e) => {
                return Err(e);
            },
        };
        let a = self.insert(agg, v, k);
        let r = match self.gather(depth, args, i + 1, end, k + 1, a, span) {
            Ok(v) => v,
            Err(e) => {
                return Err(e);
            },
        };
        Ok(r)
    }

    /// Passes arguments of which those from parameter `v` on are gathered in an array. Where parameters follow, the gathered arguments are computed twice.
    pub fn push_variadic(&mut self, depth: usize, f: FuncInfo, args: &'a Vec<CallArg>, v: usize, span: Span) -> (out: Result<usize, CodegenError>)
        ensures
            match out {
                Ok(made) => push_variadic(nest::nest(depth as nat), old(self)@, f, args, v, span) == Ok::<(usize, State<'a>), Failure<'a>>((made, final(self)@)),
                Err(trouble) => push_variadic(nest::nest(depth as nat), old(self)@, f, args, v, span) == Err::<(usize, State<'a>), Failure<'a>>(Failure { trouble: trouble@, after: final(self)@ }),
            },
        decreases depth, 3int, 0int,
    {
        reveal(push_variadic);
        let a = match self.push_values(depth, args, 0, v) {
            Ok(v) => v,
            Err(e) => {
                return Err(e);
            },
        };
        let e: usize = self.gathered_elem(f, v);
        let t = self.array_of(e, 16);
        let x = match self.gather(depth, args, v, args.len(), 0, Operand { val: Val::Undef, ty: t }, span) {
            Ok(v) => v,
            Err(e) => {
                return Err(e);
            },
        };
        if self.more(v) >= f.count {
            if args.len() <= v {
                self.perform(Op::Push(Operand { val: Val::Zero, ty: t }));
                return Ok(self.more(a));
            }
            self.perform(Op::Push(x));
            return Ok(self.more(a));
        }
        if self.more(args.len()) < f.count {
            return Err(fault("too few arguments", span));
        }
        let n: usize = self.minus(self.more(args.len()), f.count);
        let end: usize = self.plus(v, n);
        let y = match self.gather(depth, args, v, end, 0, Operand { val: Val::Zero, ty: t }, span) {
            Ok(v) => v,
            Err(e) => {
                return Err(e);
            },
        };
        self.perform(Op::Push(y));
        let b = match self.push_values(depth, args, end, args.len()) {
            Ok(v) => v,
            Err(e) => {
                return Err(e);
            },
        };
        Ok(self.more(self.plus(a, b)))
    }

    /// Passes arguments of a method of which those from parameter `v` on are gathered in an array.
    pub fn push_method_variadic(&mut self, depth: usize, f: FuncInfo, args: &'a Vec<CallArg>, v: usize, span: Span) -> (out: Result<usize, CodegenError>)
        ensures
            match out {
                Ok(made) => push_method_variadic(nest::nest(depth as nat), old(self)@, f, args, v, span) == Ok::<(usize, State<'a>), Failure<'a>>((made, final(self)@)),
                Err(trouble) => push_method_variadic(nest::nest(depth as nat), old(self)@, f, args, v, span) == Err::<(usize, State<'a>), Failure<'a>>(Failure { trouble: trouble@, after: final(self)@ }),
            },
        decreases depth, 3int, 0int,
    {
        reveal(push_method_variadic);
        let fixed: usize = self.minus(v, 1);
        let a = match self.push_values(depth, args, 0, fixed) {
            Ok(v) => v,
            Err(e) => {
                return Err(e);
            },
        };
        let e: usize = self.gathered_elem(f, v);
        let t = self.array_of(e, 16);
        let total: usize = self.minus(f.count, 1);
        if self.more(fixed) >= total {
            if args.len() < fixed {
                return Err(fault("too few arguments", span));
            }
            if args.len() == fixed {
                self.perform(Op::Push(Operand { val: Val::Zero, ty: t }));
                return Ok(self.more(a));
            }
            let x = match self.gather(depth, args, fixed, args.len(), 0, Operand { val: Val::Undef, ty: t }, span) {
                Ok(v) => v,
                Err(e) => {
                    return Err(e);
                },
            };
            self.perform(Op::Push(x));
            return Ok(self.more(a));
        }
        if args.len() <= fixed || args.len() < total {
            self.perform(Op::Push(Operand { val: Val::Zero, ty: t }));
            let b = match self.push_values(depth, args, fixed, args.len()) {
                Ok(v) => v,
                Err(e) => {
                    return Err(e);
                },
            };
            return Ok(self.more(self.plus(a, b)));
        }
        let n: usize = self.minus(self.more(args.len()), total);
        let end: usize = self.plus(fixed, n);
        let x = match self.gather(depth, args, fixed, end, 0, Operand { val: Val::Undef, ty: t }, span) {
            Ok(v) => v,
            Err(e) => {
                return Err(e);
            },
        };
        self.perform(Op::Push(x));
        let b = match self.push_values(depth, args, end, args.len()) {
            Ok(v) => v,
            Err(e) => {
                return Err(e);
            },
        };
        Ok(self.more(self.plus(a, b)))
    }

    /// Passes the arguments of a function.
    pub fn push_args(&mut self, depth: usize, f: FuncInfo, args: &'a Vec<CallArg>, span: Span) -> (out: Result<usize, CodegenError>)
        ensures
            match out {
                Ok(made) => push_args(nest::nest(depth as nat), old(self)@, f, args, span) == Ok::<(usize, State<'a>), Failure<'a>>((made, final(self)@)),
                Err(trouble) => push_args(nest::nest(depth as nat), old(self)@, f, args, span) == Err::<(usize, State<'a>), Failure<'a>>(Failure { trouble: trouble@, after: final(self)@ }),
            },
        decreases depth, 5int, 0int,
    {
        reveal(push_args);
        if !f.converts || f.c_varargs {
            let n = match self.push_values(depth, args, 0, args.len()) {
                Ok(v) => v,
                Err(e) => {
                    return Err(e);
                },
            };
            return Ok(n);
        }
        match self.first_variadic(f, 0, f.count) {
            Some(v) => {
                let n = match self.push_variadic(depth, f, args, v, span) {
                    Ok(v) => v,
                    Err(e) => {
                        return Err(e);
                    },
                };
                return Ok(n);
            },
            _ => {},
        }
        if self.has_named(args, 0) && f.count > 0 {
            let n = match self.push_named(depth, f, args, 0, f.count) {
                Ok(v) => v,
                Err(e) => {
                    return Err(e);
                },
            };
            return Ok(n);
        }
        let n = match self.push_fitted(depth, f, args, 0) {
            Ok(v) => v,
            Err(e) => {
                return Err(e);
            },
        };
        Ok(n)
    }

    /// Passes the arguments of a method.
    pub fn push_method_args(&mut self, depth: usize, f: FuncInfo, args: &'a Vec<CallArg>, span: Span) -> (out: Result<usize, CodegenError>)
        ensures
            match out {
                Ok(made) => push_method_args(nest::nest(depth as nat), old(self)@, f, args, span) == Ok::<(usize, State<'a>), Failure<'a>>((made, final(self)@)),
                Err(trouble) => push_method_args(nest::nest(depth as nat), old(self)@, f, args, span) == Err::<(usize, State<'a>), Failure<'a>>(Failure { trouble: trouble@, after: final(self)@ }),
            },
        decreases depth, 4int, 0int,
    {
        reveal(push_method_args);
        match self.first_variadic(f, 0, f.count) {
            Some(v) => {
                let n = match self.push_method_variadic(depth, f, args, v, span) {
                    Ok(v) => v,
                    Err(e) => {
                        return Err(e);
                    },
                };
                return Ok(n);
            },
            _ => {},
        }
        let n = match self.push_values(depth, args, 0, args.len()) {
            Ok(v) => v,
            Err(e) => {
                return Err(e);
            },
        };
        Ok(n)
    }

    /// The first constructor that takes `n` arguments, else the first of all.
    pub fn pick_constructor(&self, l: usize, n: usize) -> (out: Option<usize>)
        ensures
            out == pick_constructor(self@, l, n),
    {
        reveal(pick_constructor);
        match self.constructor_for(l, n) {
            Some(k) => {
                return Some(k);
            },
            _ => {},
        }
        self.first_constructor(l)
    }

    /// The class of a name, where it has constructors.
    pub fn constructible(&self, n: &str) -> (out: Option<usize>)
        ensures
            out == constructible(self@, n@),
    {
        reveal(constructible);
        match self.layout(n) {
            Some(l) => {
                match self.first_constructor(l) {
                    Some(_) => {
                        return Some(l);
                    },
                    _ => {},
                }
                return None;
            },
            _ => {},
        }
        None
    }

    /// Makes an object.
    pub fn construct(&mut self, depth: usize, l: usize, args: &'a Vec<CallArg>, span: Span) -> (out: Result<Operand, CodegenError>)
        ensures
            match out {
                Ok(made) => construct(nest::nest(depth as nat), old(self)@, l, args, span) == Ok::<(Operand, State<'a>), Failure<'a>>((made, final(self)@)),
                Err(trouble) => construct(nest::nest(depth as nat), old(self)@, l, args, span) == Err::<(Operand, State<'a>), Failure<'a>>(Failure { trouble: trouble@, after: final(self)@ }),
            },
        decreases depth, 3int, 0int,
    {
        reveal(construct);
        match self.pick_constructor(l, args.len()) {
            Some(k) => {
                let info = self.member_info(k);
                let t = self.class_ty(l);
                let p = self.emit(Op::Temp(t), PTR);
                self.perform(Op::Push(Operand { val: p.val, ty: PTR }));
                let n = match self.push_values(depth, args, 0, args.len()) {
                    Ok(v) => v,
                    Err(e) => {
                        return Err(e);
                    },
                };
                let x = self.call(info.func, self.more(n));
                let r = self.load(Operand { val: p.val, ty: t });
                return Ok(r);
            },
            _ => {},
        }
        Err(fault("no constructor", span))
    }

    /// Calls a function of the C library with the last `n` arguments; zero where it returns nothing.
    pub fn call_runtime(&mut self, f: Runtime, n: usize) -> (out: Operand)
        ensures
            (out, final(self)@) == call_runtime(old(self)@, f, n),
    {
        reveal(call_runtime);
        match f {
            Runtime::Abort => {
                self.perform(Op::CallRuntime(f, n));
                return Operand { val: Val::Int(0), ty: I64 };
            },
            Runtime::Strlen => {
                let r = self.runtime(f, n, I64);
                return r;
            },
            Runtime::Strcat => {
                let r = self.runtime(f, n, PTR);
                return r;
            },
            Runtime::Strdup => {
                let r = self.runtime(f, n, PTR);
                return r;
            },
            _ => {},
        }
        let r = self.runtime(f, n, I32);
        r
    }

    /// A call of a constructor, of a function, of what the code so far has called of the C library, or of what a variable holds.
    pub fn call_expr(&mut self, depth: usize, callee: &str, args: &'a Vec<CallArg>, span: Span) -> (out: Result<Operand, CodegenError>)
        ensures
            match out {
                Ok(made) => call_expr(nest::nest(depth as nat), old(self)@, callee@, args, span) == Ok::<(Operand, State<'a>), Failure<'a>>((made, final(self)@)),
                Err(trouble) => call_expr(nest::nest(depth as nat), old(self)@, callee@, args, span) == Err::<(Operand, State<'a>), Failure<'a>>(Failure { trouble: trouble@, after: final(self)@ }),
            },
        decreases depth, 6int, 0int,
    {
        reveal(call_expr);
        match self.constructible(callee) {
            Some(l) => {
                let r = match self.construct(depth, l, args, span) {
                    Ok(v) => v,
                    Err(e) => {
                        return Err(e);
                    },
                };
                return Ok(r);
            },
            _ => {},
        }
        match self.function(callee) {
            Some(f) => {
                let info = self.func_info(f);
                let n = match self.push_args(depth, info, args, span) {
                    Ok(v) => v,
                    Err(e) => {
                        return Err(e);
                    },
                };
                let r = self.call(f, n);
                return Ok(r);
            },
            _ => {},
        }
        match self.brought_in(callee) {
            Some(f) => {
                let n = match self.push_values(depth, args, 0, args.len()) {
                    Ok(v) => v,
                    Err(e) => {
                        return Err(e);
                    },
                };
                let r = self.call_runtime(f, n);
                return Ok(r);
            },
            _ => {},
        }
        match self.lookup_var(callee) {
            Some(p) => {
                if self.is_ptr(p.ty) {
                    let v = self.load(p);
                    let n = match self.push_values(depth, args, 0, args.len()) {
                        Ok(v) => v,
                        Err(e) => {
                            return Err(e);
                        },
                    };
                    let r = self.emit(Op::CallValue(v, n), I64);
                    return Ok(r);
                }
                return Err(fault_naming("variable ", callee, " holds no function", span));
            },
            _ => {},
        }
        Err(fault_naming("undefined function ", callee, "", span))
    }

    /// The object that a method is called on.
    pub fn method_object(&mut self, depth: usize, o: &'a Expr, span: Span) -> (out: Result<Val, CodegenError>)
        ensures
            match out {
                Ok(made) => method_object(nest::nest(depth as nat), old(self)@, o, span) == Ok::<(Val, State<'a>), Failure<'a>>((made, final(self)@)),
                Err(trouble) => method_object(nest::nest(depth as nat), old(self)@, o, span) == Err::<(Val, State<'a>), Failure<'a>>(Failure { trouble: trouble@, after: final(self)@ }),
            },
        decreases depth, 5int, 0int,
    {
        reveal(method_object);
        match &o.kind {
            ExprKind::Ident(n) => {
                match self.lookup_var(n.as_str()) {
                    Some(v) => {
                        if self.is_struct(v.ty) {
                            return Ok(v.val);
                        }
                        if self.is_ptr(v.ty) {
                            let p = self.load(v);
                            return Ok(p.val);
                        }
                        return Err(fault_naming("method call on non-class variable `", n.as_str(), "`", span));
                    },
                    _ => {},
                }
                return Err(fault_naming("undefined var ", n.as_str(), "", span));
            },
            ExprKind::This => {
                match self.lookup_var("this") {
                    Some(v) => {
                        let p = self.load(v);
                        return Ok(p.val);
                    },
                    _ => {},
                }
                return Err(fault("`this` outside method", span));
            },
            ExprKind::Member(i, f) => {
                let p = match self.field_ptr(depth, i, f.as_str()) {
                    Ok(v) => v,
                    Err(e) => {
                        return Err(e);
                    },
                };
                return Ok(p.val);
            },
            _ => {},
        }
        Err(fault("method call object must be variable or field access", span))
    }

    /// A call of a method of a class.
    pub fn class_call(&mut self, depth: usize, o: &'a Expr, method: &str, args: &'a Vec<CallArg>, span: Span) -> (out: Result<Operand, CodegenError>)
        ensures
            match out {
                Ok(made) => class_call(nest::nest(depth as nat), old(self)@, o, method@, args, span) == Ok::<(Operand, State<'a>), Failure<'a>>((made, final(self)@)),
                Err(trouble) => class_call(nest::nest(depth as nat), old(self)@, o, method@, args, span) == Err::<(Operand, State<'a>), Failure<'a>>(Failure { trouble: trouble@, after: final(self)@ }),
            },
        decreases depth, 6int, 0int,
    {
        reveal(class_call);
        let p = match self.method_object(depth, o, span) {
            Ok(v) => v,
            Err(e) => {
                return Err(e);
            },
        };
        let g = match self.nested_infer(depth, o) {
            Ok(v) => v,
            Err(e) => {
                return Err(e);
            },
        };
        match g {
            Guess::Struct(l) => {
                match self.member_entry(method, l, MemberKind::Method) {
                    Some(k) => {
                        let m = self.member_info(k);
                        let info = self.func_info(m.func);
                        self.perform(Op::Push(Operand { val: p, ty: PTR }));
                        let n = match self.push_method_args(depth, info, args, span) {
                            Ok(v) => v,
                            Err(e) => {
                                return Err(e);
                            },
                        };
                        let r = self.call(m.func, self.more(n));
                        return Ok(r);
                    },
                    _ => {},
                }
                let c_text = self.layout_name_of(l);
                let c = c_text.as_str();
                return Err(fault_naming_two("unknown method ", method, " for class ", c, "", span));
            },
            _ => {},
        }
        Err(fault("method call on non-class", span))
    }

    /// A call of the method of vectors that adds an element.
    pub fn push_call(&mut self, depth: usize, n: &str, args: &'a Vec<CallArg>, object_span: Span, span: Span) -> (out: Result<Operand, CodegenError>)
        ensures
            match out {
                Ok(made) => push_call(nest::nest(depth as nat), old(self)@, n@, args, object_span, span) == Ok::<(Operand, State<'a>), Failure<'a>>((made, final(self)@)),
                Err(trouble) => push_call(nest::nest(depth as nat), old(self)@, n@, args, object_span, span) == Err::<(Operand, State<'a>), Failure<'a>>(Failure { trouble: trouble@, after: final(self)@ }),
            },
        decreases depth, 4int, 0int,
    {
        reveal(push_call);
        if args.len() != 1 {
            let k_text = decimal_of(args.len());
            let k = k_text.as_str();
            return Err(fault_naming("`push` expects 1 arg, found ", k, "", span));
        }
        match self.lookup_var(n) {
            Some(p) => {
                if self.is_struct(p.ty) {
                    let v = match self.call_arg(depth, &args[0]) {
                        Ok(v) => v,
                        Err(e) => {
                            return Err(e);
                        },
                    };
                    self.vec_push(p, v);
                    return Ok(Operand { val: Val::Int(0), ty: I64 });
                }
                return Err(fault_naming("`push` on non-vector `", n, "`", object_span));
            },
            _ => {},
        }
        Err(fault_naming("undefined var ", n, "", object_span))
    }

    /// A call of a method, of a collection or of a class; or a variant of an enum with its payload.
    pub fn method_call(&mut self, depth: usize, o: &'a Expr, method: &str, args: &'a Vec<CallArg>, span: Span) -> (out: Result<Operand, CodegenError>)
        ensures
            match out {
                Ok(made) => method_call(nest::nest(depth as nat), old(self)@, o, method@, args, span) == Ok::<(Operand, State<'a>), Failure<'a>>((made, final(self)@)),
                Err(trouble) => method_call(nest::nest(depth as nat), old(self)@, o, method@, args, span) == Err::<(Operand, State<'a>), Failure<'a>>(Failure { trouble: trouble@, after: final(self)@ }),
            },
        decreases depth, 8int, 0int,
    {
        reveal(method_call);
        match self.enum_named(o) {
            Some(l) => {
                let r = match self.enum_value(depth, l, method, args, span) {
                    Ok(v) => v,
                    Err(e) => {
                        return Err(e);
                    },
                };
                return Ok(r);
            },
            _ => {},
        }
        match &o.kind {
            ExprKind::Ident(n) => {
                if text::same_str(method, "push") && self.is_vec(n.as_str()) {
                    let r = match self.push_call(depth, n.as_str(), args, o.span, span) {
                        Ok(v) => v,
                        Err(e) => {
                            return Err(e);
                        },
                    };
                    return Ok(r);
                }
                let x = match self.collection_method(depth, n.as_str(), method, args, span) {
                    Ok(v) => v,
                    Err(e) => {
                        return Err(e);
                    },
                };
                match x {
                    Some(r) => {
                        return Ok(r);
                    },
                    _ => {},
                }
                let r = match self.class_call(depth, o, method, args, span) {
                    Ok(v) => v,
                    Err(e) => {
                        return Err(e);
                    },
                };
                return Ok(r);
            },
            _ => {},
        }
        let r = match self.class_call(depth, o, method, args, span) {
            Ok(v) => v,
            Err(e) => {
                return Err(e);
            },
        };
        Ok(r)
    }
}

} // verus!
