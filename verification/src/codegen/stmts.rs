//! Lowering of statements.
use vstd::prelude::*;
use crate::ast::{
    Block, ConstDecl, DeferInner, Expr, ExprKind, MapEntry, Stmt,
    Target, Type, VarDecl,
};
use crate::codegen::ir::{
    Arith, Cast, Family, Label, LoopInfo, Op, Operand,
    Pred, Runtime, Val, I32, I64, I8, PTR,
};
use crate::codegen::lower;
use crate::codegen::exprs;
use crate::codegen::calls;
use crate::codegen::collections;
use crate::codegen::nest;
use crate::codegen::nest::Nest;
use crate::codegen::state;
use crate::codegen::state::{Codegen, CodegenError, Failure, State, Trouble, fault, fault_naming};
use crate::text;
use crate::token::Span;

verus! {

/// Runs deferred code.
#[verifier::opaque]
pub open spec fn deferred<'a>(nest: Nest<'a>, st: State<'a>, d: &'a DeferInner) -> Result<((), State<'a>), Failure<'a>>
{
    match *d {
        DeferInner::Value(e) => {
            match (nest.expr)(st, &e) {
                Ok((x, st)) => {
                    Ok(((), st))
                },
                Err(e) => Err(e),
            }
        },
        DeferInner::Block(b) => {
            match (nest.run_block)(st, &b) {
                Ok((y, st)) => {
                    Ok(((), st))
                },
                Err(e) => Err(e),
            }
        },
    }
}

/// Runs the deferred code `start..end`, the last first, until the block is done.
#[verifier::opaque]
pub open spec fn run_level<'a>(nest: Nest<'a>, st: State<'a>, start: usize, end: usize) -> Result<((), State<'a>), Failure<'a>>
    decreases end,
{
    if end <= start {
        Ok(((), st))
    } else {
        match state::defer_at(st, (end - 1) as usize) {
            Some(d) => {
                match deferred(nest, st, d) {
                    Ok((_, st)) => {
                        if state::done(st) {
                            Ok(((), st))
                        } else {
                            match run_level(nest, st, start, (end - 1) as usize) {
                                Ok((_, st)) => {
                                    Ok(((), st))
                                },
                                Err(e) => Err(e),
                            }
                        }
                    },
                    Err(e) => Err(e),
                }
            },
            _ => {
                Ok(((), st))
            },
        }
    }
}

/// Runs the deferred code of the scopes `target..level`, the innermost first.
#[verifier::opaque]
pub open spec fn run_levels<'a>(nest: Nest<'a>, st: State<'a>, target: usize, level: usize) -> Result<((), State<'a>), Failure<'a>>
    decreases level,
{
    if level <= target {
        Ok(((), st))
    } else {
        match run_level(nest, st, state::defer_start(st, (level - 1) as usize), state::defer_start(st, level)) {
            Ok((_, st)) => {
                run_levels(nest, st, target, (level - 1) as usize)
            },
            Err(e) => Err(e),
        }
    }
}

/// Calls the destructors of an object from number `k` on, of which `left` are left.
#[verifier::opaque]
pub open spec fn destroy<'a>(st: State<'a>, p: Val, l: usize, k: usize, left: usize) -> State<'a>
    decreases left,
{
    if left == 0 {
        st
    } else {
        match state::destructor(st, l, k) {
            Some(m) => {
                let info = state::member_info(st, m);
                let st = state::perform(st, Op::Push(Operand { val: p, ty: PTR }));
                let (x, st) = lower::call(st, info.func, 1);
                let st = destroy(st, p, l, calls::more(k), (left - 1) as usize);
                st
            },
            _ => {
                st
            },
        }
    }
}

/// Destroys the variables `start..end`, the last first.
#[verifier::opaque]
pub open spec fn run_dtors<'a>(st: State<'a>, start: usize, end: usize) -> State<'a>
    decreases end,
{
    if end <= start {
        st
    } else {
        match state::dtor_at(st, (end - 1) as usize) {
            Some(v) => {
                let st = destroy(st, v.val, v.ty, 0, state::destructor_count(st, v.ty));
                let st = run_dtors(st, start, (end - 1) as usize);
                st
            },
            _ => {
                st
            },
        }
    }
}

/// Destroys the variables of all scopes inside scope `target`.
#[verifier::opaque]
pub open spec fn leave_to<'a>(st: State<'a>, target: usize) -> State<'a>
{
    let st = run_dtors(st, state::dtor_start(st, target), state::dtor_start(st, state::defer_depth(st)));
    st
}

/// Runs what is deferred in the innermost scope and destroys its variables, as far as control gets there.
#[verifier::opaque]
pub open spec fn end_scope<'a>(nest: Nest<'a>, st: State<'a>) -> Result<((), State<'a>), Failure<'a>>
{
    if state::done(st) {
        Ok(((), st))
    } else {
        let level = state::defer_depth(st);
        let top = calls::minus(level, 1);
        match run_level(nest, st, state::defer_start(st, top), state::defer_start(st, level)) {
            Ok((_, st)) => {
                if state::done(st) {
                    Ok(((), st))
                } else {
                    let st = run_dtors(st, state::dtor_start(st, top), state::dtor_start(st, level));
                    Ok(((), st))
                }
            },
            Err(e) => Err(e),
        }
    }
}

/// Starts a block that control never gets to.
#[verifier::opaque]
pub open spec fn dead_block<'a>(st: State<'a>) -> State<'a>
{
    let (b, st) = state::block(st, Label::Dead);
    let st = state::at(st, b);
    st
}

/// The elements of a list literal.
#[verifier::opaque]
pub open spec fn list_in<'a>(e: &'a Expr) -> Option<&'a Vec<Expr>>
{
    match e.kind {
        ExprKind::ArrayLit(es) => {
            Some(&es)
        },
        _ => {
            None
        },
    }
}

/// The entries of a map literal.
#[verifier::opaque]
pub open spec fn entries_in<'a>(e: &'a Expr) -> Option<&'a Vec<MapEntry>>
{
    match e.kind {
        ExprKind::MapLit { ty: _, entries } => {
            Some(&entries)
        },
        _ => {
            None
        },
    }
}

/// Whether an expression is the empty vector.
#[verifier::opaque]
pub open spec fn is_empty_vec<'a>(e: &'a Expr) -> bool
{
    match e.kind {
        ExprKind::VecEmpty => {
            true
        },
        _ => {
            false
        },
    }
}

/// The elements that a declaration starts with.
#[verifier::opaque]
pub open spec fn list_init<'a>(e: &'a Option<Expr>) -> Option<&'a Vec<Expr>>
{
    match *e {
        Some(x) => {
            list_in(&x)
        },
        _ => {
            None
        },
    }
}

/// The entries that a declaration starts with.
#[verifier::opaque]
pub open spec fn entries_init<'a>(e: &'a Option<Expr>) -> Option<&'a Vec<MapEntry>>
{
    match *e {
        Some(x) => {
            entries_in(&x)
        },
        _ => {
            None
        },
    }
}

/// Whether a declaration starts with the empty vector.
#[verifier::opaque]
pub open spec fn empty_vec_init<'a>(e: &'a Option<Expr>) -> bool
{
    match *e {
        Some(x) => {
            is_empty_vec(&x)
        },
        _ => {
            false
        },
    }
}

/// The type of the keys of a map; where any are allowed, as far as the first entry tells.
#[verifier::opaque]
pub open spec fn key_ty<'a>(nest: Nest<'a>, st: State<'a>, t: &'a Type, es: Option<&'a Vec<MapEntry>>) -> Result<(usize, State<'a>), Failure<'a>>
{
    match es {
        Some(v) => {
            if lower::is_any_ty(t) && v.len() > 0 {
                Ok((exprs::lit_ty(&v@[0 as int].key), st))
            } else {
                lower::slot_ty(nest, st, t, I64)
            }
        },
        _ => {
            lower::slot_ty(nest, st, t, I64)
        },
    }
}

/// The type of the values of a map; where any are allowed, as far as the first entry tells.
#[verifier::opaque]
pub open spec fn value_ty<'a>(nest: Nest<'a>, st: State<'a>, t: &'a Type, es: Option<&'a Vec<MapEntry>>) -> Result<(usize, State<'a>), Failure<'a>>
{
    match es {
        Some(v) => {
            if lower::is_any_ty(t) && v.len() > 0 {
                Ok((exprs::lit_ty(&v@[0 as int].value), st))
            } else {
                lower::slot_ty(nest, st, t, I64)
            }
        },
        _ => {
            lower::slot_ty(nest, st, t, I64)
        },
    }
}

/// The type of a map of a written type, which starts with some entries.
#[verifier::opaque]
pub open spec fn map_ty<'a>(nest: Nest<'a>, st: State<'a>, t: &'a Type, es: Option<&'a Vec<MapEntry>>) -> Result<(usize, State<'a>), Failure<'a>>
{
    match *t {
        Type::Mapping(k, v) => {
            match key_ty(nest, st, &*k, es) {
                Ok((a, st)) => {
                    match value_ty(nest, st, &*v, es) {
                        Ok((b, st)) => {
                            let (r, st) = lower::map_of(st, a, b);
                            Ok((r, st))
                        },
                        Err(e) => Err(e),
                    }
                },
                Err(e) => Err(e),
            }
        },
        Type::Any => {
            match es {
                Some(v) => {
                    let (r, st) = exprs::lit_map_ty(st, v);
                    Ok((r, st))
                },
                _ => {
                    let (r, st) = lower::map_of(st, I64, I64);
                    Ok((r, st))
                },
            }
        },
        _ => {
            let (r, st) = lower::map_of(st, I64, I64);
            Ok((r, st))
        },
    }
}

/// The length of an array, that of its literal where it is not written.
#[verifier::opaque]
pub open spec fn list_len<'a>(n: Option<u64>, es: &'a Vec<Expr>) -> u64
{
    match n {
        Some(k) => {
            k
        },
        _ => {
            es.len() as u64
        },
    }
}

/// The type of a variable that starts with a list.
#[verifier::opaque]
pub open spec fn array_ty<'a>(nest: Nest<'a>, st: State<'a>, t: &'a Type, es: &'a Vec<Expr>) -> Result<(usize, State<'a>), Failure<'a>>
{
    match *t {
        Type::FixedArray(el, size) => {
            match (nest.ty)(st, &*el) {
                Ok((e, st)) => {
                    let n = list_len(size, es);
                    let (r, st) = lower::array_of(st, e, n);
                    Ok((r, st))
                },
                Err(e) => Err(e),
            }
        },
        _ => {
            (nest.ty)(st, t)
        },
    }
}

/// The type of a variable of a written type, which starts with some value.
#[verifier::opaque]
pub open spec fn var_ty<'a>(nest: Nest<'a>, st: State<'a>, t: &'a Type, init: &'a Option<Expr>) -> Result<(usize, State<'a>), Failure<'a>>
{
    if lower::is_map_ty(t) {
        map_ty(nest, st, t, entries_init(init))
    } else if lower::is_any_ty(t) {
        if empty_vec_init(init) {
            let (r, st) = lower::vec_of(st, I64);
            Ok((r, st))
        } else {
            match entries_init(init) {
                Some(es) => {
                    map_ty(nest, st, t, Some(es))
                },
                _ => {
                    (nest.ty)(st, t)
                },
            }
        }
    } else {
        match list_init(init) {
            Some(es) => {
                array_ty(nest, st, t, es)
            },
            _ => {
                (nest.ty)(st, t)
            },
        }
    }
}

/// Whether a declaration starts with a map literal.
#[verifier::opaque]
pub open spec fn has_entries<'a>(init: &'a Option<Expr>) -> bool
{
    match entries_init(init) {
        Some(_) => {
            true
        },
        _ => {
            false
        },
    }
}

/// The layout that a written type names.
#[verifier::opaque]
pub open spec fn layout_named<'a>(st: State<'a>, t: &'a Type) -> Option<usize>
{
    match *t {
        Type::Named(n) => {
            state::base_layout(st, n@)
        },
        Type::Generic(n, _) => {
            state::base_layout(st, n@)
        },
        _ => {
            None
        },
    }
}

/// Notes that a variable has to be destroyed.
#[verifier::opaque]
pub open spec fn note_dtor<'a>(st: State<'a>, n: Seq<char>, t: &'a Type, p: Val) -> State<'a>
{
    if (n == "this"@) {
        st
    } else {
        match layout_named(st, t) {
            Some(l) => {
                let st = if state::destructor_count(st, l) > 0 {
                    state::add_dtor(st, Operand { val: p, ty: l })
                } else {
                    st
                };
                st
            },
            _ => {
                st
            },
        }
    }
}

/// Stores the values of a list from `i` on in an array.
#[verifier::opaque]
pub open spec fn store_list<'a>(nest: Nest<'a>, st: State<'a>, es: &'a Vec<Expr>, i: usize, t: usize, p: Val) -> Result<((), State<'a>), Failure<'a>>
    decreases es.len() - i,
{
    if i >= es.len() {
        Ok(((), st))
    } else {
        match (nest.expr)(st, &es@[i as int]) {
            Ok((v, st)) => {
                let (c, st) = lower::coerce(st, v, lower::array_elem(st, t));
                let (e, st) = lower::elem_at(st, t, p, Operand { val: Val::Int(i as i64), ty: I64 });
                let st = lower::store(st, e, c);
                store_list(nest, st, es, (i + 1) as usize, t, p)
            },
            Err(e) => Err(e),
        }
    }
}

/// Stores the values of a list in a vector.
#[verifier::opaque]
pub open spec fn store_vec<'a>(nest: Nest<'a>, st: State<'a>, es: &'a Vec<Expr>, p: Operand) -> Result<((), State<'a>), Failure<'a>>
{
    let buf = lower::struct_elem(st, p.ty, 0);
    let (b, st) = lower::field_at(st, p.ty, p.val, 0);
    match store_list(nest, st, es, 0, buf, b) {
        Ok((_, st)) => {
            let (lp, st) = lower::field_at(st, p.ty, p.val, 1);
            let st = lower::store(st, lp, Operand { val: Val::Int(es.len() as i64), ty: I64 });
            Ok(((), st))
        },
        Err(e) => Err(e),
    }
}

/// Whether a written type is that of arrays of a fixed length.
#[verifier::opaque]
pub open spec fn is_fixed<'a>(t: &'a Type) -> bool
{
    match *t {
        Type::FixedArray(_, _) => {
            true
        },
        _ => {
            false
        },
    }
}

/// Stores the first value of a variable.
#[verifier::opaque]
pub open spec fn store_init<'a>(nest: Nest<'a>, st: State<'a>, t: &'a Type, e: &'a Expr, p: Operand) -> Result<((), State<'a>), Failure<'a>>
{
    match list_in(e) {
        Some(es) => {
            if is_fixed(t) && lower::is_array(st, p.ty) {
                match store_list(nest, st, es, 0, p.ty, p.val) {
                    Ok((_, st)) => {
                        Ok(((), st))
                    },
                    Err(e) => Err(e),
                }
            } else if lower::is_vec_ty(t) {
                match store_vec(nest, st, es, p) {
                    Ok((_, st)) => {
                        Ok(((), st))
                    },
                    Err(e) => Err(e),
                }
            } else {
                match (nest.expr)(st, e) {
                    Ok((v, st)) => {
                        let (c, st) = lower::coerce(st, v, p.ty);
                        let st = lower::store(st, p.val, c);
                        Ok(((), st))
                    },
                    Err(e) => Err(e),
                }
            }
        },
        _ => {
            if is_empty_vec(e) {
                let st = lower::store(st, p.val, Operand { val: Val::Zero, ty: p.ty });
                Ok(((), st))
            } else {
                match entries_in(e) {
                    Some(es) => {
                        if lower::is_struct(st, p.ty) {
                            match exprs::store_entries(nest, st, es, 0, p) {
                                Ok((_, st)) => {
                                    Ok(((), st))
                                },
                                Err(e) => Err(e),
                            }
                        } else {
                            Err(Failure { trouble: Trouble { message: "a map literal needs a variable of a map type"@, span: e.span }, after: st })
                        }
                    },
                    _ => {
                        match (nest.expr)(st, e) {
                            Ok((v, st)) => {
                                let (c, st) = lower::coerce(st, v, p.ty);
                                let st = lower::store(st, p.val, c);
                                Ok(((), st))
                            },
                            Err(e) => Err(e),
                        }
                    },
                }
            }
        },
    }
}

/// Declares a variable.
#[verifier::opaque]
pub open spec fn var_decl<'a>(nest: Nest<'a>, st: State<'a>, d: &'a VarDecl) -> Result<((), State<'a>), Failure<'a>>
{
    match var_ty(nest, st, &d.ty, &d.init) {
        Ok((t, st)) => {
            let (p, st) = lower::slot(st, t);
            let st = state::bind(st, d.name@, p);
            let st = if lower::is_vec_ty(&d.ty) || lower::is_any_ty(&d.ty) && empty_vec_init(&d.init) {
                state::note_vec(st, d.name@)
            } else {
                st
            };
            let st = if lower::is_map_ty(&d.ty) || lower::is_any_ty(&d.ty) && has_entries(&d.init) {
                state::note_map(st, d.name@)
            } else {
                st
            };
            let st = if lower::is_str_ty(&d.ty) {
                state::note_str(st, d.name@)
            } else {
                st
            };
            let st = note_dtor(st, d.name@, &d.ty, p.val);
            match d.init {
                Some(e) => {
                    match store_init(nest, st, &d.ty, &e, p) {
                        Ok((_, st)) => {
                            Ok(((), st))
                        },
                        Err(e) => Err(e),
                    }
                },
                _ => {
                    let st = lower::store(st, p.val, Operand { val: Val::Zero, ty: t });
                    Ok(((), st))
                },
            }
        },
        Err(e) => Err(e),
    }
}

/// Declares a constant map.
#[verifier::opaque]
pub open spec fn const_map<'a>(nest: Nest<'a>, st: State<'a>, name: Seq<char>, t: usize, es: Option<&'a Vec<MapEntry>>) -> Result<((), State<'a>), Failure<'a>>
{
    let (p, st) = lower::slot(st, t);
    let st = state::bind(st, name, p);
    let st = state::note_map(st, name);
    match es {
        Some(v) => {
            match exprs::store_entries(nest, st, v, 0, p) {
                Ok((_, st)) => {
                    Ok(((), st))
                },
                Err(e) => Err(e),
            }
        },
        _ => {
            let (lp, st) = lower::field_at(st, t, p.val, 2);
            let st = lower::store(st, lp, Operand { val: Val::Int(0), ty: I64 });
            Ok(((), st))
        },
    }
}

/// Declares a constant that has the type of its value.
#[verifier::opaque]
pub open spec fn const_value<'a>(nest: Nest<'a>, st: State<'a>, name: Seq<char>, e: &'a Expr) -> Result<((), State<'a>), Failure<'a>>
{
    match (nest.expr)(st, e) {
        Ok((v, st)) => {
            let (p, st) = lower::slot(st, v.ty);
            let st = state::bind(st, name, p);
            let st = lower::store(st, p.val, v);
            Ok(((), st))
        },
        Err(e) => Err(e),
    }
}

/// Declares a constant without a written type.
#[verifier::opaque]
pub open spec fn untyped_const<'a>(nest: Nest<'a>, st: State<'a>, c: &'a ConstDecl) -> Result<((), State<'a>), Failure<'a>>
{
    match entries_in(&c.init) {
        Some(es) => {
            let (t, st) = exprs::lit_map_ty(st, es);
            match const_map(nest, st, c.name@, t, Some(es)) {
                Ok((_, st)) => {
                    Ok(((), st))
                },
                Err(e) => Err(e),
            }
        },
        _ => {
            let st = if is_empty_vec(&c.init) {
                state::note_vec(st, c.name@)
            } else {
                st
            };
            const_value(nest, st, c.name@, &c.init)
        },
    }
}

/// Declares a constant of a written type.
#[verifier::opaque]
pub open spec fn typed_const<'a>(nest: Nest<'a>, st: State<'a>, c: &'a ConstDecl, t: &'a Type) -> Result<((), State<'a>), Failure<'a>>
{
    if lower::is_map_ty(t) {
        match map_ty(nest, st, t, entries_in(&c.init)) {
            Ok((m, st)) => {
                match const_map(nest, st, c.name@, m, entries_in(&c.init)) {
                    Ok((_, st)) => {
                        Ok(((), st))
                    },
                    Err(e) => Err(e),
                }
            },
            Err(e) => Err(e),
        }
    } else {
        match (nest.ty)(st, t) {
            Ok((k, st)) => {
                let st = if lower::is_vec_ty(t) {
                    state::note_vec(st, c.name@)
                } else {
                    st
                };
                let st = if lower::is_str_ty(t) {
                    state::note_str(st, c.name@)
                } else {
                    st
                };
                match list_in(&c.init) {
                    Some(es) => {
                        if lower::is_vec_ty(t) {
                            let (p, st) = lower::slot(st, k);
                            let st = state::bind(st, c.name@, p);
                            match store_vec(nest, st, es, p) {
                                Ok((_, st)) => {
                                    Ok(((), st))
                                },
                                Err(e) => Err(e),
                            }
                        } else {
                            match (nest.expr)(st, &c.init) {
                                Ok((v, st)) => {
                                    let (p, st) = lower::slot(st, k);
                                    let st = state::bind(st, c.name@, p);
                                    let (w, st) = lower::coerce(st, v, k);
                                    let st = lower::store(st, p.val, w);
                                    Ok(((), st))
                                },
                                Err(e) => Err(e),
                            }
                        }
                    },
                    _ => {
                        match (nest.expr)(st, &c.init) {
                            Ok((v, st)) => {
                                let (p, st) = lower::slot(st, k);
                                let st = state::bind(st, c.name@, p);
                                let (w, st) = lower::coerce(st, v, k);
                                let st = lower::store(st, p.val, w);
                                Ok(((), st))
                            },
                            Err(e) => Err(e),
                        }
                    },
                }
            },
            Err(e) => Err(e),
        }
    }
}

/// Declares a constant.
#[verifier::opaque]
pub open spec fn const_decl<'a>(nest: Nest<'a>, st: State<'a>, c: &'a ConstDecl) -> Result<((), State<'a>), Failure<'a>>
{
    match c.ty {
        Some(t) => {
            match typed_const(nest, st, c, &t) {
                Ok((_, st)) => {
                    Ok(((), st))
                },
                Err(e) => Err(e),
            }
        },
        _ => {
            untyped_const(nest, st, c)
        },
    }
}

/// Part `i` of a struct or array; a plain value whole.
#[verifier::opaque]
pub open spec fn part<'a>(st: State<'a>, v: Operand, i: usize) -> (Operand, State<'a>)
{
    if lower::is_struct(st, v.ty) || lower::is_array(st, v.ty) {
        let (r, st) = lower::extract(st, v, i as u32);
        (r, st)
    } else {
        (v, st)
    }
}

/// Binds a name to a value.
#[verifier::opaque]
pub open spec fn bind_value<'a>(st: State<'a>, n: Seq<char>, v: Operand) -> State<'a>
{
    let (p, st) = lower::slot(st, v.ty);
    let st = lower::store(st, p.val, v);
    let st = state::bind(st, n, p);
    st
}

/// Stores a value in a variable, a new one where there is none.
#[verifier::opaque]
pub open spec fn put<'a>(st: State<'a>, n: Seq<char>, v: Operand) -> State<'a>
{
    match state::lookup_var(st, n) {
        Some(p) => {
            let st = lower::store(st, p.val, v);
            st
        },
        _ => {
            let st = bind_value(st, n, v);
            st
        },
    }
}

/// Stores the parts of a value from `i` on in the targets.
#[verifier::opaque]
pub open spec fn destructure<'a>(st: State<'a>, ts: &'a Vec<Target>, i: usize, v: Operand) -> State<'a>
    decreases ts.len() - i,
{
    if i >= ts.len() {
        st
    } else {
        match ts@[i as int] {
            Target::Name(n) => {
                let (x, st) = part(st, v, i);
                let st = put(st, n@, x);
                let st = destructure(st, ts, (i + 1) as usize, v);
                st
            },
            _ => {
                let st = destructure(st, ts, (i + 1) as usize, v);
                st
            },
        }
    }
}

/// Prints what a failed assertion says.
#[verifier::opaque]
pub open spec fn assert_message<'a>(nest: Nest<'a>, st: State<'a>, m: &'a Option<Expr>) -> Result<((), State<'a>), Failure<'a>>
{
    match *m {
        Some(e) => {
            match (nest.expr)(st, &e) {
                Ok((v, st)) => {
                    if lower::is_ptr(st, v.ty) {
                        let (x, st) = lower::runtime1(st, Runtime::Puts, v, I32);
                        Ok(((), st))
                    } else {
                        let (f, st) = lower::string(st, "assertion failed: %ld\n"@);
                        let (x, st) = lower::runtime2(st, Runtime::Printf, f, v, I32);
                        Ok(((), st))
                    }
                },
                Err(e) => Err(e),
            }
        },
        _ => {
            let (s, st) = lower::string(st, "assertion failed"@);
            let (x, st) = lower::runtime1(st, Runtime::Puts, s, I32);
            Ok(((), st))
        },
    }
}

/// Checks an assertion; ends the program where it does not hold.
#[verifier::opaque]
pub open spec fn assertion<'a>(nest: Nest<'a>, st: State<'a>, c: &'a Expr, m: &'a Option<Expr>) -> Result<((), State<'a>), Failure<'a>>
{
    match (nest.expr)(st, c) {
        Ok((v, st)) => {
            match exprs::need_int(st, v, c.span) {
                Ok((i, st)) => {
                    let (ok, st) = state::block(st, Label::AssertOk);
                    let (fail, st) = state::block(st, Label::AssertFail);
                    let st = state::finish(st, Op::Branch(i, ok, fail));
                    let st = state::at(st, fail);
                    match assert_message(nest, st, m) {
                        Ok((_, st)) => {
                            let st = lower::stop(st);
                            let st = state::at(st, ok);
                            Ok(((), st))
                        },
                        Err(e) => Err(e),
                    }
                },
                Err(e) => Err(e),
            }
        },
        Err(e) => Err(e),
    }
}

/// The result of the main function.
#[verifier::opaque]
pub open spec fn main_result<'a>(st: State<'a>, v: Operand) -> (Operand, State<'a>)
{
    if lower::is_int(st, v.ty) && lower::bits(st, v.ty) == 64 {
        let (r, st) = lower::convert(st, Cast::Trunc, v, I32);
        (r, st)
    } else if lower::is_int(st, v.ty) && lower::bits(st, v.ty) == 1 {
        let (r, st) = lower::convert(st, Cast::Zext, v, I32);
        (r, st)
    } else if lower::is_struct(st, v.ty) {
        (Operand { val: Val::Int(0), ty: I32 }, st)
    } else {
        (v, st)
    }
}

/// A result as the function returns it.
#[verifier::opaque]
pub open spec fn fit_result<'a>(st: State<'a>, v: Operand) -> (Operand, State<'a>)
{
    match state::this_function(st) {
        Some(f) => {
            let info = state::func_info(st, f);
            match info.ret {
                Some(t) => {
                    if lower::is_int(st, v.ty) {
                        let (r, st) = lower::coerce(st, v, t);
                        (r, st)
                    } else {
                        (v, st)
                    }
                },
                _ => {
                    (v, st)
                },
            }
        },
        _ => {
            (v, st)
        },
    }
}

/// Runs all that is deferred, destroys all variables, and returns.
#[verifier::opaque]
pub open spec fn leave_stmt<'a>(nest: Nest<'a>, st: State<'a>, value: &'a Option<Expr>) -> Result<((), State<'a>), Failure<'a>>
{
    match run_levels(nest, st, 0, state::defer_depth(st)) {
        Ok((_, st)) => {
            give_back(nest, st, value)
        },
        Err(e) => Err(e),
    }
}

/// Destroys all variables and returns.
#[verifier::opaque]
pub open spec fn give_back<'a>(nest: Nest<'a>, st: State<'a>, value: &'a Option<Expr>) -> Result<((), State<'a>), Failure<'a>>
{
    let st = if !state::done(st) {
        leave_to(st, 0)
    } else {
        st
    };
    match *value {
        Some(e) => {
            match (nest.expr)(st, &e) {
                Ok((v, st)) => {
                    if state::in_main(st) {
                        let (r, st) = main_result(st, v);
                        let st = state::finish(st, Op::Return(r));
                        Ok(((), st))
                    } else {
                        let (r, st) = fit_result(st, v);
                        let st = state::finish(st, Op::Return(r));
                        Ok(((), st))
                    }
                },
                Err(e) => Err(e),
            }
        },
        _ => {
            if state::in_main(st) {
                let st = state::finish(st, Op::Return(Operand { val: Val::Int(0), ty: I32 }));
                Ok(((), st))
            } else {
                let st = state::finish(st, Op::ReturnVoid);
                Ok(((), st))
            }
        },
    }
}

/// A conditional statement; whether both branches return.
#[verifier::opaque]
pub open spec fn if_stmt<'a>(nest: Nest<'a>, st: State<'a>, c: &'a Expr, a: &'a Block, b: &'a Option<Block>) -> Result<(bool, State<'a>), Failure<'a>>
{
    match (nest.expr)(st, c) {
        Ok((v, st)) => {
            match exprs::need_int(st, v, c.span) {
                Ok((i, st)) => {
                    let (then_bb, st) = state::block(st, Label::IfThen);
                    match *b {
                        Some(e) => {
                            let (else_bb, st) = state::block(st, Label::IfElse);
                            let (merge, st) = state::block(st, Label::IfMerge);
                            let st = state::finish(st, Op::Branch(i, then_bb, else_bb));
                            let st = state::at(st, then_bb);
                            match (nest.run_block)(st, a) {
                                Ok((x, st)) => {
                                    let st = lower::jump(st, merge);
                                    let st = state::at(st, else_bb);
                                    match (nest.run_block)(st, &e) {
                                        Ok((y, st)) => {
                                            let st = lower::jump(st, merge);
                                            let st = state::at(st, merge);
                                            Ok((x && y, st))
                                        },
                                        Err(e) => Err(e),
                                    }
                                },
                                Err(e) => Err(e),
                            }
                        },
                        _ => {
                            let (merge, st) = state::block(st, Label::IfMerge);
                            let st = state::finish(st, Op::Branch(i, then_bb, merge));
                            let st = state::at(st, then_bb);
                            match (nest.run_block)(st, a) {
                                Ok((x, st)) => {
                                    let st = lower::jump(st, merge);
                                    let st = state::at(st, merge);
                                    Ok((false, st))
                                },
                                Err(e) => Err(e),
                            }
                        },
                    }
                },
                Err(e) => Err(e),
            }
        },
        Err(e) => Err(e),
    }
}

/// A loop with a condition.
#[verifier::opaque]
pub open spec fn while_stmt<'a>(nest: Nest<'a>, st: State<'a>, c: &'a Expr, b: &'a Block) -> Result<((), State<'a>), Failure<'a>>
{
    let (cond, st) = state::block(st, Label::WhileCond);
    let (body, st) = state::block(st, Label::WhileBody);
    let (exit, st) = state::block(st, Label::WhileExit);
    let st = state::finish(st, Op::Jump(cond));
    let st = state::at(st, cond);
    match (nest.expr)(st, c) {
        Ok((v, st)) => {
            match exprs::need_int(st, v, c.span) {
                Ok((i, st)) => {
                    let st = state::finish(st, Op::Branch(i, body, exit));
                    let st = state::enter_loop(st, ""@, LoopInfo { again: cond, exit: exit, depth: state::defer_depth(st) });
                    let st = state::at(st, body);
                    match (nest.run_block)(st, b) {
                        Ok((x, st)) => {
                            let st = lower::jump(st, cond);
                            let st = state::leave_loop(st);
                            let st = state::at(st, exit);
                            Ok(((), st))
                        },
                        Err(e) => Err(e),
                    }
                },
                Err(e) => Err(e),
            }
        },
        Err(e) => Err(e),
    }
}

/// Enters a loop that may have a label.
#[verifier::opaque]
pub open spec fn enter_labelled<'a>(st: State<'a>, l: &'a Option<String>, info: LoopInfo) -> State<'a>
{
    match *l {
        Some(n) => {
            let st = state::enter_loop(st, n@, info);
            st
        },
        _ => {
            let st = state::enter_loop(st, ""@, info);
            st
        },
    }
}

/// A loop without a condition.
#[verifier::opaque]
pub open spec fn loop_stmt<'a>(nest: Nest<'a>, st: State<'a>, l: &'a Option<String>, b: &'a Block) -> Result<((), State<'a>), Failure<'a>>
{
    let (header, st) = state::block(st, Label::LoopHeader);
    let (body, st) = state::block(st, Label::LoopBody);
    let (exit, st) = state::block(st, Label::LoopExit);
    let st = state::finish(st, Op::Jump(header));
    let st = state::at(st, header);
    let st = state::finish(st, Op::Jump(body));
    let st = enter_labelled(st, l, LoopInfo { again: header, exit: exit, depth: state::defer_depth(st) });
    let st = state::at(st, body);
    match (nest.run_block)(st, b) {
        Ok((x, st)) => {
            let st = lower::jump(st, header);
            let st = state::leave_loop(st);
            let st = state::at(st, exit);
            Ok(((), st))
        },
        Err(e) => Err(e),
    }
}

/// The variable that a loop goes over.
#[verifier::opaque]
pub open spec fn iterated<'a>(st: State<'a>, e: &'a Expr) -> Option<Operand>
{
    match e.kind {
        ExprKind::Ident(n) => {
            state::lookup_var(st, n@)
        },
        _ => {
            None
        },
    }
}

/// Whether a loop goes over a vector.
#[verifier::opaque]
pub open spec fn over_vec<'a>(st: State<'a>, e: &'a Expr) -> bool
{
    match e.kind {
        ExprKind::Ident(n) => {
            state::is_vec(st, n@)
        },
        _ => {
            false
        },
    }
}

/// Whether a loop goes over a map.
#[verifier::opaque]
pub open spec fn over_map<'a>(st: State<'a>, e: &'a Expr) -> bool
{
    match e.kind {
        ExprKind::Ident(n) => {
            state::is_map(st, n@)
        },
        _ => {
            false
        },
    }
}

/// Whether a loop goes over a string.
#[verifier::opaque]
pub open spec fn over_str<'a>(st: State<'a>, e: &'a Expr) -> bool
{
    match e.kind {
        ExprKind::Ident(n) => {
            state::is_str(st, n@)
        },
        _ => {
            false
        },
    }
}

/// How often a loop over an expression runs.
#[verifier::opaque]
pub open spec fn limit<'a>(st: State<'a>, e: &'a Expr) -> (Operand, State<'a>)
{
    match iterated(st, e) {
        Some(p) => {
            if over_str(st, e) {
                let (s, st) = lower::load(st, p);
                let (r, st) = lower::runtime1(st, Runtime::Strlen, s, I64);
                (r, st)
            } else if over_vec(st, e) && lower::is_struct(st, p.ty) {
                let (r, st) = collections::measure(st, Family::Vector, p);
                (r, st)
            } else if over_map(st, e) && lower::is_struct(st, p.ty) {
                let (r, st) = collections::measure(st, Family::Mapping, p);
                (r, st)
            } else if lower::is_array(st, p.ty) {
                let (r, st) = collections::measure(st, Family::Array, p);
                (r, st)
            } else {
                (Operand { val: Val::Int(16), ty: I64 }, st)
            }
        },
        _ => {
            (Operand { val: Val::Int(16), ty: I64 }, st)
        },
    }
}

/// Element, key or character number `i` of what a loop goes over; zero where there is none.
#[verifier::opaque]
pub open spec fn loop_value<'a>(st: State<'a>, e: &'a Expr, i: Operand) -> (Operand, State<'a>)
{
    match iterated(st, e) {
        Some(p) => {
            if lower::is_array(st, p.ty) {
                let (q, st) = lower::elem_at(st, p.ty, p.val, i);
                let et = lower::array_elem(st, p.ty);
                let (r, st) = lower::load(st, Operand { val: q, ty: et });
                (r, st)
            } else if (over_vec(st, e) || over_map(st, e)) && lower::is_struct(st, p.ty) {
                let buf = lower::struct_elem(st, p.ty, 0);
                let (b, st) = lower::field_at(st, p.ty, p.val, 0);
                let (q, st) = lower::elem_at(st, buf, b, i);
                let et = lower::array_elem(st, buf);
                let (r, st) = lower::load(st, Operand { val: q, ty: et });
                (r, st)
            } else if lower::is_ptr(st, p.ty) {
                let (s, st) = lower::load(st, p);
                let (q, st) = state::emit(st, Op::Offset(I8, s.val, i), PTR);
                let (c, st) = lower::load(st, Operand { val: q.val, ty: I8 });
                let (r, st) = lower::convert(st, Cast::Zext, c, I32);
                (r, st)
            } else {
                (Operand { val: Val::Int(0), ty: I64 }, st)
            }
        },
        _ => {
            (Operand { val: Val::Int(0), ty: I64 }, st)
        },
    }
}

/// Binds the second variable of a loop: the value of an entry of a map, else the index.
#[verifier::opaque]
pub open spec fn second_value<'a>(st: State<'a>, e: &'a Expr, n: Seq<char>, i: Operand) -> State<'a>
{
    if over_map(st, e) {
        match iterated(st, e) {
            Some(p) => {
                if lower::is_struct(st, p.ty) {
                    let vals = lower::struct_elem(st, p.ty, 1);
                    let (b, st) = lower::field_at(st, p.ty, p.val, 1);
                    let (q, st) = lower::elem_at(st, vals, b, i);
                    let et = lower::array_elem(st, vals);
                    let (v, st) = lower::load(st, Operand { val: q, ty: et });
                    let st = bind_value(st, n, v);
                    st
                } else {
                    st
                }
            },
            _ => {
                st
            },
        }
    } else {
        let st = bind_value(st, n, i);
        st
    }
}

/// Binds the second variable of a loop, where it has one.
#[verifier::opaque]
pub open spec fn bind_second<'a>(st: State<'a>, e: &'a Expr, n: &'a Option<String>, i: Operand) -> State<'a>
{
    match *n {
        Some(s) => {
            let st = second_value(st, e, s@, i);
            st
        },
        _ => {
            st
        },
    }
}

/// A loop over a collection or string.
#[verifier::opaque]
pub open spec fn for_stmt<'a>(nest: Nest<'a>, st: State<'a>, l: &'a Option<String>, var: Seq<char>, var2: &'a Option<String>, e: &'a Expr, b: &'a Block) -> Result<((), State<'a>), Failure<'a>>
{
    let (cond, st) = state::block(st, Label::ForCond);
    let (body, st) = state::block(st, Label::ForBody);
    let (inc_bb, st) = state::block(st, Label::ForInc);
    let (exit, st) = state::block(st, Label::ForExit);
    let (ip, st) = lower::slot(st, I64);
    let st = lower::store(st, ip.val, Operand { val: Val::Int(0), ty: I64 });
    let st = state::finish(st, Op::Jump(cond));
    let st = state::at(st, cond);
    let (i, st) = lower::load(st, ip);
    let (n, st) = limit(st, e);
    let (c, st) = lower::compare(st, Pred::Less, i, n);
    let st = state::finish(st, Op::Branch(c, body, exit));
    let st = enter_labelled(st, l, LoopInfo { again: inc_bb, exit: exit, depth: state::defer_depth(st) });
    let st = state::at(st, body);
    let st = state::open_scope(st);
    let st = state::open_defers(st);
    let (v, st) = loop_value(st, e, i);
    let st = bind_value(st, var, v);
    let st = bind_second(st, e, var2, i);
    match (nest.run_block)(st, b) {
        Ok((x, st)) => {
            match end_scope(nest, st) {
                Ok((_, st)) => {
                    let st = state::close_defers(st);
                    let st = state::close_scope(st);
                    let st = lower::jump(st, inc_bb);
                    let st = state::at(st, inc_bb);
                    let (j, st) = lower::load(st, ip);
                    let (k, st) = lower::arith(st, Arith::Add, j, Operand { val: Val::Int(1), ty: I64 });
                    let st = lower::store(st, ip.val, k);
                    let st = state::finish(st, Op::Jump(cond));
                    let st = state::leave_loop(st);
                    let st = state::at(st, exit);
                    Ok(((), st))
                },
                Err(e) => Err(e),
            }
        },
        Err(e) => Err(e),
    }
}

/// The loop that a jump with or without a label is about.
#[verifier::opaque]
pub open spec fn target_loop<'a>(st: State<'a>, l: &'a Option<String>) -> Option<LoopInfo>
{
    match *l {
        Some(n) => {
            state::labelled_loop(st, n@)
        },
        _ => {
            state::inner_loop(st)
        },
    }
}

/// Leaves a loop.
#[verifier::opaque]
pub open spec fn break_stmt<'a>(nest: Nest<'a>, st: State<'a>, l: &'a Option<String>, span: Span) -> Result<((), State<'a>), Failure<'a>>
{
    match target_loop(st, l) {
        Some(t) => {
            match run_levels(nest, st, t.depth, state::defer_depth(st)) {
                Ok((_, st)) => {
                    let st = leave_to(st, t.depth);
                    let st = state::finish(st, Op::Jump(t.exit));
                    Ok(((), st))
                },
                Err(e) => Err(e),
            }
        },
        _ => {
            match *l {
                Some(n) => {
                    Err(Failure { trouble: state::naming("break label `"@, n@, "` not found"@, span), after: st })
                },
                _ => {
                    Err(Failure { trouble: Trouble { message: "break outside loop"@, span: span }, after: st })
                },
            }
        },
    }
}

/// Goes on with the next turn of a loop.
#[verifier::opaque]
pub open spec fn continue_stmt<'a>(nest: Nest<'a>, st: State<'a>, l: &'a Option<String>, span: Span) -> Result<((), State<'a>), Failure<'a>>
{
    match target_loop(st, l) {
        Some(t) => {
            match run_levels(nest, st, t.depth, state::defer_depth(st)) {
                Ok((_, st)) => {
                    let st = leave_to(st, t.depth);
                    let st = state::finish(st, Op::Jump(t.again));
                    Ok(((), st))
                },
                Err(e) => Err(e),
            }
        },
        _ => {
            match *l {
                Some(n) => {
                    Err(Failure { trouble: state::naming("continue label `"@, n@, "` not found"@, span), after: st })
                },
                _ => {
                    Err(Failure { trouble: Trouble { message: "continue outside loop"@, span: span }, after: st })
                },
            }
        },
    }
}

/// A statement; whether it always returns.
#[verifier::opaque]
pub open spec fn stmt<'a>(nest: Nest<'a>, st: State<'a>, s: &'a Stmt) -> Result<(bool, State<'a>), Failure<'a>>
{
    match *s {
        Stmt::VarDecl(d) => {
            match var_decl(nest, st, &d) {
                Ok((_, st)) => {
                    Ok((false, st))
                },
                Err(e) => Err(e),
            }
        },
        Stmt::Const(c) => {
            match const_decl(nest, st, &c) {
                Ok((_, st)) => {
                    Ok((false, st))
                },
                Err(e) => Err(e),
            }
        },
        Stmt::Destructure { targets, expr, span: _ } => {
            match (nest.expr)(st, &expr) {
                Ok((v, st)) => {
                    let st = destructure(st, &targets, 0, v);
                    Ok((false, st))
                },
                Err(e) => Err(e),
            }
        },
        Stmt::Assert { is_debug: _, cond, message, span: _ } => {
            match assertion(nest, st, &cond, &message) {
                Ok((_, st)) => {
                    Ok((false, st))
                },
                Err(e) => Err(e),
            }
        },
        Stmt::Expr { expr, span: _ } => {
            match (nest.expr)(st, &expr) {
                Ok((x, st)) => {
                    Ok((false, st))
                },
                Err(e) => Err(e),
            }
        },
        Stmt::Block(b) => {
            (nest.run_block)(st, &b)
        },
        Stmt::Return { value, span: _ } => {
            match leave_stmt(nest, st, &value) {
                Ok((_, st)) => {
                    Ok((true, st))
                },
                Err(e) => Err(e),
            }
        },
        Stmt::If { cond, then_block, else_block, span: _ } => {
            if_stmt(nest, st, &cond, &then_block, &else_block)
        },
        Stmt::While { cond, body, span: _ } => {
            match while_stmt(nest, st, &cond, &body) {
                Ok((_, st)) => {
                    Ok((false, st))
                },
                Err(e) => Err(e),
            }
        },
        Stmt::Loop { label, body, span: _ } => {
            match loop_stmt(nest, st, &label, &body) {
                Ok((_, st)) => {
                    Ok((false, st))
                },
                Err(e) => Err(e),
            }
        },
        Stmt::For { label, var, var2, iter, body, span: _ } => {
            match for_stmt(nest, st, &label, var@, &var2, &iter, &body) {
                Ok((_, st)) => {
                    Ok((false, st))
                },
                Err(e) => Err(e),
            }
        },
        Stmt::Defer { inner, span: _ } => {
            let st = state::add_defer(st, &inner);
            Ok((false, st))
        },
        Stmt::Break { label, span } => {
            match break_stmt(nest, st, &label, span) {
                Ok((_, st)) => {
                    Ok((false, st))
                },
                Err(e) => Err(e),
            }
        },
        Stmt::Continue { label, span } => {
            match continue_stmt(nest, st, &label, span) {
                Ok((_, st)) => {
                    Ok((false, st))
                },
                Err(e) => Err(e),
            }
        },
    }
}

/// The statements from `i` on; whether one of them always returns.
#[verifier::opaque]
pub open spec fn run_stmts<'a>(nest: Nest<'a>, st: State<'a>, ss: &'a Vec<Stmt>, i: usize) -> Result<(bool, State<'a>), Failure<'a>>
    decreases ss.len() - i,
{
    if i >= ss.len() {
        Ok((false, st))
    } else {
        let st = if state::done(st) {
            dead_block(st)
        } else {
            st
        };
        match stmt(nest, st, &ss@[i as int]) {
            Ok((a, st)) => {
                match run_stmts(nest, st, ss, (i + 1) as usize) {
                    Ok((b, st)) => {
                        Ok((a || b, st))
                    },
                    Err(e) => Err(e),
                }
            },
            Err(e) => Err(e),
        }
    }
}

/// A block: its statements, what they defer, and the end of its variables. Whether it always returns.
#[verifier::opaque]
pub open spec fn run_block<'a>(nest: Nest<'a>, st: State<'a>, b: &'a Block) -> Result<(bool, State<'a>), Failure<'a>>
{
    let st = state::open_scope(st);
    let st = state::open_defers(st);
    match run_stmts(nest, st, &b.stmts, 0) {
        Ok((r, st)) => {
            match end_scope(nest, st) {
                Ok((_, st)) => {
                    let st = state::close_defers(st);
                    let st = state::close_scope(st);
                    Ok((r, st))
                },
                Err(e) => Err(e),
            }
        },
        Err(e) => Err(e),
    }
}

impl<'a> Codegen<'a> {
    /// Runs deferred code.
    pub fn deferred(&mut self, depth: usize, d: &'a DeferInner) -> (out: Result<(), CodegenError>)
        ensures
            match out {
                Ok(made) => deferred(nest::nest(depth as nat), old(self)@, d) == Ok::<((), State<'a>), Failure<'a>>((made, final(self)@)),
                Err(trouble) => deferred(nest::nest(depth as nat), old(self)@, d) == Err::<((), State<'a>), Failure<'a>>(Failure { trouble: trouble@, after: final(self)@ }),
            },
        decreases depth, 1int, 0int,
    {
        reveal(deferred);
        match d {
            DeferInner::Value(e) => {
                let x = match self.nested_expr(depth, e) {
                    Ok(v) => v,
                    Err(e) => {
                        return Err(e);
                    },
                };
                return Ok(());
            },
            DeferInner::Block(b) => {
                let y = match self.nested_run_block(depth, b) {
                    Ok(v) => v,
                    Err(e) => {
                        return Err(e);
                    },
                };
                return Ok(());
            },
        }
    }

    /// Runs the deferred code `start..end`, the last first, until the block is done.
    pub fn run_level(&mut self, depth: usize, start: usize, end: usize) -> (out: Result<(), CodegenError>)
        ensures
            match out {
                Ok(made) => run_level(nest::nest(depth as nat), old(self)@, start, end) == Ok::<((), State<'a>), Failure<'a>>((made, final(self)@)),
                Err(trouble) => run_level(nest::nest(depth as nat), old(self)@, start, end) == Err::<((), State<'a>), Failure<'a>>(Failure { trouble: trouble@, after: final(self)@ }),
            },
        decreases depth, 2int, end,
    {
        reveal(run_level);
        if end <= start {
            return Ok(());
        }
        match self.defer_at(end - 1) {
            Some(d) => {
                if let Err(e) = self.deferred(depth, d) {
                    return Err(e);
                }
                if self.done() {
                    return Ok(());
                }
                if let Err(e) = self.run_level(depth, start, end - 1) {
                    return Err(e);
                }
                return Ok(());
            },
            _ => {},
        }
        Ok(())
    }

    /// Runs the deferred code of the scopes `target..level`, the innermost first.
    pub fn run_levels(&mut self, depth: usize, target: usize, level: usize) -> (out: Result<(), CodegenError>)
        ensures
            match out {
                Ok(made) => run_levels(nest::nest(depth as nat), old(self)@, target, level) == Ok::<((), State<'a>), Failure<'a>>((made, final(self)@)),
                Err(trouble) => run_levels(nest::nest(depth as nat), old(self)@, target, level) == Err::<((), State<'a>), Failure<'a>>(Failure { trouble: trouble@, after: final(self)@ }),
            },
        decreases depth, 3int, level,
    {
        reveal(run_levels);
        if level <= target {
            return Ok(());
        }
        if let Err(e) = self.run_level(depth, self.defer_start(level - 1), self.defer_start(level)) {
            return Err(e);
        }
        if let Err(e) = self.run_levels(depth, target, level - 1) {
            return Err(e);
        }
        Ok(())
    }

    /// Calls the destructors of an object from number `k` on, of which `left` are left.
    pub fn destroy(&mut self, p: Val, l: usize, k: usize, left: usize)
        ensures
            final(self)@ == destroy(old(self)@, p, l, k, left),
        decreases left,
    {
        reveal(destroy);
        if left == 0 {
            return;
        }
        match self.destructor(l, k) {
            Some(m) => {
                let info = self.member_info(m);
                self.perform(Op::Push(Operand { val: p, ty: PTR }));
                let x = self.call(info.func, 1);
                self.destroy(p, l, self.more(k), left - 1);
                return;
            },
            _ => {},
        }
        return;
    }

    /// Destroys the variables `start..end`, the last first.
    pub fn run_dtors(&mut self, start: usize, end: usize)
        ensures
            final(self)@ == run_dtors(old(self)@, start, end),
        decreases end,
    {
        reveal(run_dtors);
        if end <= start {
            return;
        }
        match self.dtor_at(end - 1) {
            Some(v) => {
                self.destroy(v.val, v.ty, 0, self.destructor_count(v.ty));
                self.run_dtors(start, end - 1);
                return;
            },
            _ => {},
        }
        return;
    }

    /// Destroys the variables of all scopes inside scope `target`.
    pub fn leave_to(&mut self, target: usize)
        ensures
            final(self)@ == leave_to(old(self)@, target),
    {
        reveal(leave_to);
        self.run_dtors(self.dtor_start(target), self.dtor_start(self.defer_depth()));
    }

    /// Runs what is deferred in the innermost scope and destroys its variables, as far as control gets there.
    pub fn end_scope(&mut self, depth: usize) -> (out: Result<(), CodegenError>)
        ensures
            match out {
                Ok(made) => end_scope(nest::nest(depth as nat), old(self)@) == Ok::<((), State<'a>), Failure<'a>>((made, final(self)@)),
                Err(trouble) => end_scope(nest::nest(depth as nat), old(self)@) == Err::<((), State<'a>), Failure<'a>>(Failure { trouble: trouble@, after: final(self)@ }),
            },
        decreases depth, 4int, 0int,
    {
        reveal(end_scope);
        if self.done() {
            return Ok(());
        }
        let level: usize = self.defer_depth();
        let top: usize = self.minus(level, 1);
        if let Err(e) = self.run_level(depth, self.defer_start(top), self.defer_start(level)) {
            return Err(e);
        }
        if self.done() {
            return Ok(());
        }
        self.run_dtors(self.dtor_start(top), self.dtor_start(level));
        Ok(())
    }

    /// Starts a block that control never gets to.
    pub fn dead_block(&mut self)
        ensures
            final(self)@ == dead_block(old(self)@),
    {
        reveal(dead_block);
        let b = self.block(Label::Dead);
        self.at(b);
    }

    /// The elements of a list literal.
    pub fn list_in(&self, e: &'a Expr) -> (out: Option<&'a Vec<Expr>>)
        ensures
            out == list_in(e),
    {
        reveal(list_in);
        match &e.kind {
            ExprKind::ArrayLit(es) => {
                return Some(es);
            },
            _ => {},
        }
        None
    }

    /// The entries of a map literal.
    pub fn entries_in(&self, e: &'a Expr) -> (out: Option<&'a Vec<MapEntry>>)
        ensures
            out == entries_in(e),
    {
        reveal(entries_in);
        match &e.kind {
            ExprKind::MapLit { ty: _, entries } => {
                return Some(entries);
            },
            _ => {},
        }
        None
    }

    /// Whether an expression is the empty vector.
    pub fn is_empty_vec(&self, e: &'a Expr) -> (out: bool)
        ensures
            out == is_empty_vec(e),
    {
        reveal(is_empty_vec);
        match &e.kind {
            ExprKind::VecEmpty => {
                return true;
            },
            _ => {},
        }
        false
    }

    /// The elements that a declaration starts with.
    pub fn list_init(&self, e: &'a Option<Expr>) -> (out: Option<&'a Vec<Expr>>)
        ensures
            out == list_init(e),
    {
        reveal(list_init);
        match e {
            Some(x) => {
                return self.list_in(x);
            },
            _ => {},
        }
        None
    }

    /// The entries that a declaration starts with.
    pub fn entries_init(&self, e: &'a Option<Expr>) -> (out: Option<&'a Vec<MapEntry>>)
        ensures
            out == entries_init(e),
    {
        reveal(entries_init);
        match e {
            Some(x) => {
                return self.entries_in(x);
            },
            _ => {},
        }
        None
    }

    /// Whether a declaration starts with the empty vector.
    pub fn empty_vec_init(&self, e: &'a Option<Expr>) -> (out: bool)
        ensures
            out == empty_vec_init(e),
    {
        reveal(empty_vec_init);
        match e {
            Some(x) => {
                return self.is_empty_vec(x);
            },
            _ => {},
        }
        false
    }

    /// The type of the keys of a map; where any are allowed, as far as the first entry tells.
    pub fn key_ty(&mut self, depth: usize, t: &'a Type, es: Option<&'a Vec<MapEntry>>) -> (out: Result<usize, CodegenError>)
        ensures
            match out {
                Ok(made) => key_ty(nest::nest(depth as nat), old(self)@, t, es) == Ok::<(usize, State<'a>), Failure<'a>>((made, final(self)@)),
                Err(trouble) => key_ty(nest::nest(depth as nat), old(self)@, t, es) == Err::<(usize, State<'a>), Failure<'a>>(Failure { trouble: trouble@, after: final(self)@ }),
            },
        decreases depth, 2int, 0int,
    {
        reveal(key_ty);
        match es {
            Some(v) => {
                if self.is_any_ty(t) && v.len() > 0 {
                    return Ok(self.lit_ty(&v[0].key));
                }
                let r = match self.slot_ty(depth, t, I64) {
                    Ok(v) => v,
                    Err(e) => {
                        return Err(e);
                    },
                };
                return Ok(r);
            },
            _ => {},
        }
        let r = match self.slot_ty(depth, t, I64) {
            Ok(v) => v,
            Err(e) => {
                return Err(e);
            },
        };
        Ok(r)
    }

    /// The type of the values of a map; where any are allowed, as far as the first entry tells.
    pub fn value_ty(&mut self, depth: usize, t: &'a Type, es: Option<&'a Vec<MapEntry>>) -> (out: Result<usize, CodegenError>)
        ensures
            match out {
                Ok(made) => value_ty(nest::nest(depth as nat), old(self)@, t, es) == Ok::<(usize, State<'a>), Failure<'a>>((made, final(self)@)),
                Err(trouble) => value_ty(nest::nest(depth as nat), old(self)@, t, es) == Err::<(usize, State<'a>), Failure<'a>>(Failure { trouble: trouble@, after: final(self)@ }),
            },
        decreases depth, 2int, 0int,
    {
        reveal(value_ty);
        match es {
            Some(v) => {
                if self.is_any_ty(t) && v.len() > 0 {
                    return Ok(self.lit_ty(&v[0].value));
                }
                let r = match self.slot_ty(depth, t, I64) {
                    Ok(v) => v,
                    Err(e) => {
                        return Err(e);
                    },
                };
                return Ok(r);
            },
            _ => {},
        }
        let r = match self.slot_ty(depth, t, I64) {
            Ok(v) => v,
            Err(e) => {
                return Err(e);
            },
        };
        Ok(r)
    }

    /// The type of a map of a written type, which starts with some entries.
    pub fn map_ty(&mut self, depth: usize, t: &'a Type, es: Option<&'a Vec<MapEntry>>) -> (out: Result<usize, CodegenError>)
        ensures
            match out {
                Ok(made) => map_ty(nest::nest(depth as nat), old(self)@, t, es) == Ok::<(usize, State<'a>), Failure<'a>>((made, final(self)@)),
                Err(trouble) => map_ty(nest::nest(depth as nat), old(self)@, t, es) == Err::<(usize, State<'a>), Failure<'a>>(Failure { trouble: trouble@, after: final(self)@ }),
            },
        decreases depth, 4int, 0int,
    {
        reveal(map_ty);
        match t {
            Type::Mapping(k, v) => {
                let a = match self.key_ty(depth, k, es) {
                    Ok(v) => v,
                    Err(e) => {
                        return Err(e);
                    },
                };
                let b = match self.value_ty(depth, v, es) {
                    Ok(v) => v,
                    Err(e) => {
                        return Err(e);
                    },
                };
                let r = self.map_of(a, b);
                return Ok(r);
            },
            Type::Any => {
                match es {
                    Some(v) => {
                        let r = self.lit_map_ty(v);
                        return Ok(r);
                    },
                    _ => {},
                }
                let r = self.map_of(I64, I64);
                return Ok(r);
            },
            _ => {},
        }
        let r = self.map_of(I64, I64);
        Ok(r)
    }

    /// The length of an array, that of its literal where it is not written.
    pub fn list_len(&self, n: Option<u64>, es: &'a Vec<Expr>) -> (out: u64)
        ensures
            out == list_len(n, es),
    {
        reveal(list_len);
        match n {
            Some(k) => {
                return k;
            },
            _ => {},
        }
        es.len() as u64
    }

    /// The type of a variable that starts with a list.
    pub fn array_ty(&mut self, depth: usize, t: &'a Type, es: &'a Vec<Expr>) -> (out: Result<usize, CodegenError>)
        ensures
            match out {
                Ok(made) => array_ty(nest::nest(depth as nat), old(self)@, t, es) == Ok::<(usize, State<'a>), Failure<'a>>((made, final(self)@)),
                Err(trouble) => array_ty(nest::nest(depth as nat), old(self)@, t, es) == Err::<(usize, State<'a>), Failure<'a>>(Failure { trouble: trouble@, after: final(self)@ }),
            },
        decreases depth, 2int, 0int,
    {
        reveal(array_ty);
        match t {
            Type::FixedArray(el, size) => {
                let e = match self.nested_ty(depth, el) {
                    Ok(v) => v,
                    Err(e) => {
                        return Err(e);
                    },
                };
                let n: u64 = self.list_len(*size, es);
                let r = self.array_of(e, n);
                return Ok(r);
            },
            _ => {},
        }
        let r = match self.nested_ty(depth, t) {
            Ok(v) => v,
            Err(e) => {
                return Err(e);
            },
        };
        Ok(r)
    }

    /// The type of a variable of a written type, which starts with some value.
    pub fn var_ty(&mut self, depth: usize, t: &'a Type, init: &'a Option<Expr>) -> (out: Result<usize, CodegenError>)
        ensures
            match out {
                Ok(made) => var_ty(nest::nest(depth as nat), old(self)@, t, init) == Ok::<(usize, State<'a>), Failure<'a>>((made, final(self)@)),
                Err(trouble) => var_ty(nest::nest(depth as nat), old(self)@, t, init) == Err::<(usize, State<'a>), Failure<'a>>(Failure { trouble: trouble@, after: final(self)@ }),
            },
        decreases depth, 5int, 0int,
    {
        reveal(var_ty);
        if self.is_map_ty(t) {
            let r = match self.map_ty(depth, t, self.entries_init(init)) {
                Ok(v) => v,
                Err(e) => {
                    return Err(e);
                },
            };
            return Ok(r);
        }
        if self.is_any_ty(t) {
            if self.empty_vec_init(init) {
                let r = self.vec_of(I64);
                return Ok(r);
            }
            match self.entries_init(init) {
                Some(es) => {
                    let r = match self.map_ty(depth, t, Some(es)) {
                        Ok(v) => v,
                        Err(e) => {
                            return Err(e);
                        },
                    };
                    return Ok(r);
                },
                _ => {},
            }
            let r = match self.nested_ty(depth, t) {
                Ok(v) => v,
                Err(e) => {
                    return Err(e);
                },
            };
            return Ok(r);
        }
        match self.list_init(init) {
            Some(es) => {
                let r = match self.array_ty(depth, t, es) {
                    Ok(v) => v,
                    Err(e) => {
                        return Err(e);
                    },
                };
                return Ok(r);
            },
            _ => {},
        }
        let r = match self.nested_ty(depth, t) {
            Ok(v) => v,
            Err(e) => {
                return Err(e);
            },
        };
        Ok(r)
    }

    /// Whether a declaration starts with a map literal.
    pub fn has_entries(&self, init: &'a Option<Expr>) -> (out: bool)
        ensures
            out == has_entries(init),
    {
        reveal(has_entries);
        match self.entries_init(init) {
            Some(_) => {
                return true;
            },
            _ => {},
        }
        false
    }

    /// The layout that a written type names.
    pub fn layout_named(&self, t: &'a Type) -> (out: Option<usize>)
        ensures
            out == layout_named(self@, t),
    {
        reveal(layout_named);
        match t {
            Type::Named(n) => {
                return self.base_layout(n.as_str());
            },
            Type::Generic(n, _) => {
                return self.base_layout(n.as_str());
            },
            _ => {},
        }
        None
    }

    /// Notes that a variable has to be destroyed.
    pub fn note_dtor(&mut self, n: &str, t: &'a Type, p: Val)
        ensures
            final(self)@ == note_dtor(old(self)@, n@, t, p),
    {
        reveal(note_dtor);
        if text::same_str(n, "this") {
            return;
        }
        match self.layout_named(t) {
            Some(l) => {
                if self.destructor_count(l) > 0 {
                    self.add_dtor(Operand { val: p, ty: l });
                }
                return;
            },
            _ => {},
        }
        return;
    }

    /// Stores the values of a list from `i` on in an array.
    pub fn store_list(&mut self, depth: usize, es: &'a Vec<Expr>, i: usize, t: usize, p: Val) -> (out: Result<(), CodegenError>)
        ensures
            match out {
                Ok(made) => store_list(nest::nest(depth as nat), old(self)@, es, i, t, p) == Ok::<((), State<'a>), Failure<'a>>((made, final(self)@)),
                Err(trouble) => store_list(nest::nest(depth as nat), old(self)@, es, i, t, p) == Err::<((), State<'a>), Failure<'a>>(Failure { trouble: trouble@, after: final(self)@ }),
            },
        decreases depth, 3int, es.len() - i,
    {
        reveal(store_list);
        if i >= es.len() {
            return Ok(());
        }
        let v = match self.nested_expr(depth, &es[i]) {
            Ok(v) => v,
            Err(e) => {
                return Err(e);
            },
        };
        let c = self.coerce(v, self.array_elem(t));
        let e = self.elem_at(t, p, Operand { val: Val::Int(i as i64), ty: I64 });
        self.store(e, c);
        if let Err(e) = self.store_list(depth, es, i + 1, t, p) {
            return Err(e);
        }
        Ok(())
    }

    /// Stores the values of a list in a vector.
    pub fn store_vec(&mut self, depth: usize, es: &'a Vec<Expr>, p: Operand) -> (out: Result<(), CodegenError>)
        ensures
            match out {
                Ok(made) => store_vec(nest::nest(depth as nat), old(self)@, es, p) == Ok::<((), State<'a>), Failure<'a>>((made, final(self)@)),
                Err(trouble) => store_vec(nest::nest(depth as nat), old(self)@, es, p) == Err::<((), State<'a>), Failure<'a>>(Failure { trouble: trouble@, after: final(self)@ }),
            },
        decreases depth, 4int, 0int,
    {
        reveal(store_vec);
        let buf: usize = self.struct_elem(p.ty, 0);
        let b = self.field_at(p.ty, p.val, 0);
        if let Err(e) = self.store_list(depth, es, 0, buf, b) {
            return Err(e);
        }
        let lp = self.field_at(p.ty, p.val, 1);
        self.store(lp, Operand { val: Val::Int(es.len() as i64), ty: I64 });
        Ok(())
    }

    /// Whether a written type is that of arrays of a fixed length.
    pub fn is_fixed(&self, t: &'a Type) -> (out: bool)
        ensures
            out == is_fixed(t),
    {
        reveal(is_fixed);
        match t {
            Type::FixedArray(_, _) => {
                return true;
            },
            _ => {},
        }
        false
    }

    /// Stores the first value of a variable.
    pub fn store_init(&mut self, depth: usize, t: &'a Type, e: &'a Expr, p: Operand) -> (out: Result<(), CodegenError>)
        ensures
            match out {
                Ok(made) => store_init(nest::nest(depth as nat), old(self)@, t, e, p) == Ok::<((), State<'a>), Failure<'a>>((made, final(self)@)),
                Err(trouble) => store_init(nest::nest(depth as nat), old(self)@, t, e, p) == Err::<((), State<'a>), Failure<'a>>(Failure { trouble: trouble@, after: final(self)@ }),
            },
        decreases depth, 5int, 0int,
    {
        reveal(store_init);
        match self.list_in(e) {
            Some(es) => {
                if self.is_fixed(t) && self.is_array(p.ty) {
                    if let Err(e) = self.store_list(depth, es, 0, p.ty, p.val) {
                        return Err(e);
                    }
                    return Ok(());
                }
                if self.is_vec_ty(t) {
                    if let Err(e) = self.store_vec(depth, es, p) {
                        return Err(e);
                    }
                    return Ok(());
                }
                let v = match self.nested_expr(depth, e) {
                    Ok(v) => v,
                    Err(e) => {
                        return Err(e);
                    },
                };
                let c = self.coerce(v, p.ty);
                self.store(p.val, c);
                return Ok(());
            },
            _ => {},
        }
        if self.is_empty_vec(e) {
            self.store(p.val, Operand { val: Val::Zero, ty: p.ty });
            return Ok(());
        }
        match self.entries_in(e) {
            Some(es) => {
                if self.is_struct(p.ty) {
                    if let Err(e) = self.store_entries(depth, es, 0, p) {
                        return Err(e);
                    }
                    return Ok(());
                }
                return Err(fault("a map literal needs a variable of a map type", e.span));
            },
            _ => {},
        }
        let v = match self.nested_expr(depth, e) {
            Ok(v) => v,
            Err(e) => {
                return Err(e);
            },
        };
        let c = self.coerce(v, p.ty);
        self.store(p.val, c);
        Ok(())
    }

    /// Declares a variable.
    pub fn var_decl(&mut self, depth: usize, d: &'a VarDecl) -> (out: Result<(), CodegenError>)
        ensures
            match out {
                Ok(made) => var_decl(nest::nest(depth as nat), old(self)@, d) == Ok::<((), State<'a>), Failure<'a>>((made, final(self)@)),
                Err(trouble) => var_decl(nest::nest(depth as nat), old(self)@, d) == Err::<((), State<'a>), Failure<'a>>(Failure { trouble: trouble@, after: final(self)@ }),
            },
        decreases depth, 6int, 0int,
    {
        reveal(var_decl);
        let t = match self.var_ty(depth, &d.ty, &d.init) {
            Ok(v) => v,
            Err(e) => {
                return Err(e);
            },
        };
        let p = self.slot(t);
        self.bind(d.name.as_str(), p);
        if self.is_vec_ty(&d.ty) || self.is_any_ty(&d.ty) && self.empty_vec_init(&d.init) {
            self.note_vec(d.name.as_str());
        }
        if self.is_map_ty(&d.ty) || self.is_any_ty(&d.ty) && self.has_entries(&d.init) {
            self.note_map(d.name.as_str());
        }
        if self.is_str_ty(&d.ty) {
            self.note_str(d.name.as_str());
        }
        self.note_dtor(d.name.as_str(), &d.ty, p.val);
        match &d.init {
            Some(e) => {
                if let Err(e) = self.store_init(depth, &d.ty, e, p) {
                    return Err(e);
                }
                return Ok(());
            },
            _ => {},
        }
        self.store(p.val, Operand { val: Val::Zero, ty: t });
        Ok(())
    }

    /// Declares a constant map.
    pub fn const_map(&mut self, depth: usize, name: &str, t: usize, es: Option<&'a Vec<MapEntry>>) -> (out: Result<(), CodegenError>)
        ensures
            match out {
                Ok(made) => const_map(nest::nest(depth as nat), old(self)@, name@, t, es) == Ok::<((), State<'a>), Failure<'a>>((made, final(self)@)),
                Err(trouble) => const_map(nest::nest(depth as nat), old(self)@, name@, t, es) == Err::<((), State<'a>), Failure<'a>>(Failure { trouble: trouble@, after: final(self)@ }),
            },
        decreases depth, 4int, 0int,
    {
        reveal(const_map);
        let p = self.slot(t);
        self.bind(name, p);
        self.note_map(name);
        match es {
            Some(v) => {
                if let Err(e) = self.store_entries(depth, v, 0, p) {
                    return Err(e);
                }
                return Ok(());
            },
            _ => {},
        }
        let lp = self.field_at(t, p.val, 2);
        self.store(lp, Operand { val: Val::Int(0), ty: I64 });
        Ok(())
    }

    /// Declares a constant that has the type of its value.
    pub fn const_value(&mut self, depth: usize, name: &str, e: &'a Expr) -> (out: Result<(), CodegenError>)
        ensures
            match out {
                Ok(made) => const_value(nest::nest(depth as nat), old(self)@, name@, e) == Ok::<((), State<'a>), Failure<'a>>((made, final(self)@)),
                Err(trouble) => const_value(nest::nest(depth as nat), old(self)@, name@, e) == Err::<((), State<'a>), Failure<'a>>(Failure { trouble: trouble@, after: final(self)@ }),
            },
        decreases depth, 2int, 0int,
    {
        reveal(const_value);
        let v = match self.nested_expr(depth, e) {
            Ok(v) => v,
            Err(e) => {
                return Err(e);
            },
        };
        let p = self.slot(v.ty);
        self.bind(name, p);
        self.store(p.val, v);
        Ok(())
    }

    /// Declares a constant without a written type.
    pub fn untyped_const(&mut self, depth: usize, c: &'a ConstDecl) -> (out: Result<(), CodegenError>)
        ensures
            match out {
                Ok(made) => untyped_const(nest::nest(depth as nat), old(self)@, c) == Ok::<((), State<'a>), Failure<'a>>((made, final(self)@)),
                Err(trouble) => untyped_const(nest::nest(depth as nat), old(self)@, c) == Err::<((), State<'a>), Failure<'a>>(Failure { trouble: trouble@, after: final(self)@ }),
            },
        decreases depth, 5int, 0int,
    {
        reveal(untyped_const);
        match self.entries_in(&c.init) {
            Some(es) => {
                let t = self.lit_map_ty(es);
                if let Err(e) = self.const_map(depth, c.name.as_str(), t, Some(es)) {
                    return Err(e);
                }
                return Ok(());
            },
            _ => {},
        }
        if self.is_empty_vec(&c.init) {
            self.note_vec(c.name.as_str());
        }
        if let Err(e) = self.const_value(depth, c.name.as_str(), &c.init) {
            return Err(e);
        }
        Ok(())
    }

    /// Declares a constant of a written type.
    pub fn typed_const(&mut self, depth: usize, c: &'a ConstDecl, t: &'a Type) -> (out: Result<(), CodegenError>)
        ensures
            match out {
                Ok(made) => typed_const(nest::nest(depth as nat), old(self)@, c, t) == Ok::<((), State<'a>), Failure<'a>>((made, final(self)@)),
                Err(trouble) => typed_const(nest::nest(depth as nat), old(self)@, c, t) == Err::<((), State<'a>), Failure<'a>>(Failure { trouble: trouble@, after: final(self)@ }),
            },
        decreases depth, 5int, 0int,
    {
        reveal(typed_const);
        if self.is_map_ty(t) {
            let m = match self.map_ty(depth, t, self.entries_in(&c.init)) {
                Ok(v) => v,
                Err(e) => {
                    return Err(e);
                },
            };
            if let Err(e) = self.const_map(depth, c.name.as_str(), m, self.entries_in(&c.init)) {
                return Err(e);
            }
            return Ok(());
        }
        let k = match self.nested_ty(depth, t) {
            Ok(v) => v,
            Err(e) => {
                return Err(e);
            },
        };
        if self.is_vec_ty(t) {
            self.note_vec(c.name.as_str());
        }
        if self.is_str_ty(t) {
            self.note_str(c.name.as_str());
        }
        match self.list_in(&c.init) {
            Some(es) => {
                if self.is_vec_ty(t) {
                    let p = self.slot(k);
                    self.bind(c.name.as_str(), p);
                    if let Err(e) = self.store_vec(depth, es, p) {
                        return Err(e);
                    }
                    return Ok(());
                }
                let v = match self.nested_expr(depth, &c.init) {
                    Ok(v) => v,
                    Err(e) => {
                        return Err(e);
                    },
                };
                let p = self.slot(k);
                self.bind(c.name.as_str(), p);
                let w = self.coerce(v, k);
                self.store(p.val, w);
                return Ok(());
            },
            _ => {},
        }
        let v = match self.nested_expr(depth, &c.init) {
            Ok(v) => v,
            Err(e) => {
                return Err(e);
            },
        };
        let p = self.slot(k);
        self.bind(c.name.as_str(), p);
        let w = self.coerce(v, k);
        self.store(p.val, w);
        Ok(())
    }

    /// Declares a constant.
    pub fn const_decl(&mut self, depth: usize, c: &'a ConstDecl) -> (out: Result<(), CodegenError>)
        ensures
            match out {
                Ok(made) => const_decl(nest::nest(depth as nat), old(self)@, c) == Ok::<((), State<'a>), Failure<'a>>((made, final(self)@)),
                Err(trouble) => const_decl(nest::nest(depth as nat), old(self)@, c) == Err::<((), State<'a>), Failure<'a>>(Failure { trouble: trouble@, after: final(self)@ }),
            },
        decreases depth, 6int, 0int,
    {
        reveal(const_decl);
        match &c.ty {
            Some(t) => {
                if let Err(e) = self.typed_const(depth, c, t) {
                    return Err(e);
                }
                return Ok(());
            },
            _ => {},
        }
        if let Err(e) = self.untyped_const(depth, c) {
            return Err(e);
        }
        Ok(())
    }

    /// Part `i` of a struct or array; a plain value whole.
    pub fn part(&mut self, v: Operand, i: usize) -> (out: Operand)
        ensures
            (out, final(self)@) == part(old(self)@, v, i),
    {
        reveal(part);
        if self.is_struct(v.ty) || self.is_array(v.ty) {
            let r = self.extract(v, i as u32);
            return r;
        }
        v
    }

    /// Binds a name to a value.
    pub fn bind_value(&mut self, n: &str, v: Operand)
        ensures
            final(self)@ == bind_value(old(self)@, n@, v),
    {
        reveal(bind_value);
        let p = self.slot(v.ty);
        self.store(p.val, v);
        self.bind(n, p);
    }

    /// Stores a value in a variable, a new one where there is none.
    pub fn put(&mut self, n: &str, v: Operand)
        ensures
            final(self)@ == put(old(self)@, n@, v),
    {
        reveal(put);
        match self.lookup_var(n) {
            Some(p) => {
                self.store(p.val, v);
                return;
            },
            _ => {},
        }
        self.bind_value(n, v);
    }

    /// Stores the parts of a value from `i` on in the targets.
    pub fn destructure(&mut self, ts: &'a Vec<Target>, i: usize, v: Operand)
        ensures
            final(self)@ == destructure(old(self)@, ts, i, v),
        decreases ts.len() - i,
    {
        reveal(destructure);
        if i >= ts.len() {
            return;
        }
        match &ts[i] {
            Target::Name(n) => {
                let x = self.part(v, i);
                self.put(n.as_str(), x);
                self.destructure(ts, i + 1, v);
                return;
            },
            _ => {},
        }
        self.destructure(ts, i + 1, v);
    }

    /// Prints what a failed assertion says.
    pub fn assert_message(&mut self, depth: usize, m: &'a Option<Expr>) -> (out: Result<(), CodegenError>)
        ensures
            match out {
                Ok(made) => assert_message(nest::nest(depth as nat), old(self)@, m) == Ok::<((), State<'a>), Failure<'a>>((made, final(self)@)),
                Err(trouble) => assert_message(nest::nest(depth as nat), old(self)@, m) == Err::<((), State<'a>), Failure<'a>>(Failure { trouble: trouble@, after: final(self)@ }),
            },
        decreases depth, 3int, 0int,
    {
        reveal(assert_message);
        match m {
            Some(e) => {
                let v = match self.nested_expr(depth, e) {
                    Ok(v) => v,
                    Err(e) => {
                        return Err(e);
                    },
                };
                if self.is_ptr(v.ty) {
                    let x = self.runtime1(Runtime::Puts, v, I32);
                    return Ok(());
                }
                let f = self.string("assertion failed: %ld\n");
                let x = self.runtime2(Runtime::Printf, f, v, I32);
                return Ok(());
            },
            _ => {},
        }
        let s = self.string("assertion failed");
        let x = self.runtime1(Runtime::Puts, s, I32);
        Ok(())
    }

    /// Checks an assertion; ends the program where it does not hold.
    pub fn assertion(&mut self, depth: usize, c: &'a Expr, m: &'a Option<Expr>) -> (out: Result<(), CodegenError>)
        ensures
            match out {
                Ok(made) => assertion(nest::nest(depth as nat), old(self)@, c, m) == Ok::<((), State<'a>), Failure<'a>>((made, final(self)@)),
                Err(trouble) => assertion(nest::nest(depth as nat), old(self)@, c, m) == Err::<((), State<'a>), Failure<'a>>(Failure { trouble: trouble@, after: final(self)@ }),
            },
        decreases depth, 4int, 0int,
    {
        reveal(assertion);
        let v = match self.nested_expr(depth, c) {
            Ok(v) => v,
            Err(e) => {
                return Err(e);
            },
        };
        let i = match self.need_int(v, c.span) {
            Ok(v) => v,
            Err(e) => {
                return Err(e);
            },
        };
        let ok = self.block(Label::AssertOk);
        let fail = self.block(Label::AssertFail);
        self.finish(Op::Branch(i, ok, fail));
        self.at(fail);
        if let Err(e) = self.assert_message(depth, m) {
            return Err(e);
        }
        self.stop();
        self.at(ok);
        Ok(())
    }

    /// The result of the main function.
    pub fn main_result(&mut self, v: Operand) -> (out: Operand)
        ensures
            (out, final(self)@) == main_result(old(self)@, v),
    {
        reveal(main_result);
        if self.is_int(v.ty) && self.bits(v.ty) == 64 {
            let r = self.convert(Cast::Trunc, v, I32);
            return r;
        }
        if self.is_int(v.ty) && self.bits(v.ty) == 1 {
            let r = self.convert(Cast::Zext, v, I32);
            return r;
        }
        if self.is_struct(v.ty) {
            return Operand { val: Val::Int(0), ty: I32 };
        }
        v
    }

    /// A result as the function returns it.
    pub fn fit_result(&mut self, v: Operand) -> (out: Operand)
        ensures
            (out, final(self)@) == fit_result(old(self)@, v),
    {
        reveal(fit_result);
        match self.this_function() {
            Some(f) => {
                let info = self.func_info(f);
                match info.ret {
                    Some(t) => {
                        if self.is_int(v.ty) {
                            let r = self.coerce(v, t);
                            return r;
                        }
                        return v;
                    },
                    _ => {},
                }
                return v;
            },
            _ => {},
        }
        v
    }

    /// Runs all that is deferred, destroys all variables, and returns.
    pub fn leave_stmt(&mut self, depth: usize, value: &'a Option<Expr>) -> (out: Result<(), CodegenError>)
        ensures
            match out {
                Ok(made) => leave_stmt(nest::nest(depth as nat), old(self)@, value) == Ok::<((), State<'a>), Failure<'a>>((made, final(self)@)),
                Err(trouble) => leave_stmt(nest::nest(depth as nat), old(self)@, value) == Err::<((), State<'a>), Failure<'a>>(Failure { trouble: trouble@, after: final(self)@ }),
            },
        decreases depth, 6int, 0int,
    {
        reveal(leave_stmt);
        if let Err(e) = self.run_levels(depth, 0, self.defer_depth()) {
            return Err(e);
        }
        if let Err(e) = self.give_back(depth, value) {
            return Err(e);
        }
        Ok(())
    }

    /// Destroys all variables and returns.
    pub fn give_back(&mut self, depth: usize, value: &'a Option<Expr>) -> (out: Result<(), CodegenError>)
        ensures
            match out {
                Ok(made) => give_back(nest::nest(depth as nat), old(self)@, value) == Ok::<((), State<'a>), Failure<'a>>((made, final(self)@)),
                Err(trouble) => give_back(nest::nest(depth as nat), old(self)@, value) == Err::<((), State<'a>), Failure<'a>>(Failure { trouble: trouble@, after: final(self)@ }),
            },
        decreases depth, 5int, 0int,
    {
        reveal(give_back);
        if !self.done() {
            self.leave_to(0);
        }
        match value {
            Some(e) => {
                let v = match self.nested_expr(depth, e) {
                    Ok(v) => v,
                    Err(e) => {
                        return Err(e);
                    },
                };
                if self.in_main() {
                    let r = self.main_result(v);
                    self.finish(Op::Return(r));
                    return Ok(());
                }
                let r = self.fit_result(v);
                self.finish(Op::Return(r));
                return Ok(());
            },
            _ => {},
        }
        if self.in_main() {
            self.finish(Op::Return(Operand { val: Val::Int(0), ty: I32 }));
            return Ok(());
        }
        self.finish(Op::ReturnVoid);
        Ok(())
    }

    /// A conditional statement; whether both branches return.
    pub fn if_stmt(&mut self, depth: usize, c: &'a Expr, a: &'a Block, b: &'a Option<Block>) -> (out: Result<bool, CodegenError>)
        ensures
            match out {
                Ok(made) => if_stmt(nest::nest(depth as nat), old(self)@, c, a, b) == Ok::<(bool, State<'a>), Failure<'a>>((made, final(self)@)),
                Err(trouble) => if_stmt(nest::nest(depth as nat), old(self)@, c, a, b) == Err::<(bool, State<'a>), Failure<'a>>(Failure { trouble: trouble@, after: final(self)@ }),
            },
        decreases depth, 3int, 0int,
    {
        reveal(if_stmt);
        let v = match self.nested_expr(depth, c) {
            Ok(v) => v,
            Err(e) => {
                return Err(e);
            },
        };
        let i = match self.need_int(v, c.span) {
            Ok(v) => v,
            Err(e) => {
                return Err(e);
            },
        };
        let then_bb = self.block(Label::IfThen);
        match b {
            Some(e) => {
                let else_bb = self.block(Label::IfElse);
                let merge = self.block(Label::IfMerge);
                self.finish(Op::Branch(i, then_bb, else_bb));
                self.at(then_bb);
                let x = match self.nested_run_block(depth, a) {
                    Ok(v) => v,
                    Err(e) => {
                        return Err(e);
                    },
                };
                self.jump(merge);
                self.at(else_bb);
                let y = match self.nested_run_block(depth, e) {
                    Ok(v) => v,
                    Err(e) => {
                        return Err(e);
                    },
                };
                self.jump(merge);
                self.at(merge);
                return Ok(x && y);
            },
            _ => {},
        }
        let merge = self.block(Label::IfMerge);
        self.finish(Op::Branch(i, then_bb, merge));
        self.at(then_bb);
        let x = match self.nested_run_block(depth, a) {
            Ok(v) => v,
            Err(e) => {
                return Err(e);
            },
        };
        self.jump(merge);
        self.at(merge);
        Ok(false)
    }

    /// A loop with a condition.
    pub fn while_stmt(&mut self, depth: usize, c: &'a Expr, b: &'a Block) -> (out: Result<(), CodegenError>)
        ensures
            match out {
                Ok(made) => while_stmt(nest::nest(depth as nat), old(self)@, c, b) == Ok::<((), State<'a>), Failure<'a>>((made, final(self)@)),
                Err(trouble) => while_stmt(nest::nest(depth as nat), old(self)@, c, b) == Err::<((), State<'a>), Failure<'a>>(Failure { trouble: trouble@, after: final(self)@ }),
            },
        decreases depth, 3int, 0int,
    {
        reveal(while_stmt);
        let cond = self.block(Label::WhileCond);
        let body = self.block(Label::WhileBody);
        let exit = self.block(Label::WhileExit);
        self.finish(Op::Jump(cond));
        self.at(cond);
        let v = match self.nested_expr(depth, c) {
            Ok(v) => v,
            Err(e) => {
                return Err(e);
            },
        };
        let i = match self.need_int(v, c.span) {
            Ok(v) => v,
            Err(e) => {
                return Err(e);
            },
        };
        self.finish(Op::Branch(i, body, exit));
        self.enter_loop("", LoopInfo { again: cond, exit: exit, depth: self.defer_depth() });
        self.at(body);
        let x = match self.nested_run_block(depth, b) {
            Ok(v) => v,
            Err(e) => {
                return Err(e);
            },
        };
        self.jump(cond);
        self.leave_loop();
        self.at(exit);
        Ok(())
    }

    /// Enters a loop that may have a label.
    pub fn enter_labelled(&mut self, l: &'a Option<String>, info: LoopInfo)
        ensures
            final(self)@ == enter_labelled(old(self)@, l, info),
    {
        reveal(enter_labelled);
        match l {
            Some(n) => {
                self.enter_loop(n.as_str(), info);
                return;
            },
            _ => {},
        }
        self.enter_loop("", info);
    }

    /// A loop without a condition.
    pub fn loop_stmt(&mut self, depth: usize, l: &'a Option<String>, b: &'a Block) -> (out: Result<(), CodegenError>)
        ensures
            match out {
                Ok(made) => loop_stmt(nest::nest(depth as nat), old(self)@, l, b) == Ok::<((), State<'a>), Failure<'a>>((made, final(self)@)),
                Err(trouble) => loop_stmt(nest::nest(depth as nat), old(self)@, l, b) == Err::<((), State<'a>), Failure<'a>>(Failure { trouble: trouble@, after: final(self)@ }),
            },
        decreases depth, 2int, 0int,
    {
        reveal(loop_stmt);
        let header = self.block(Label::LoopHeader);
        let body = self.block(Label::LoopBody);
        let exit = self.block(Label::LoopExit);
        self.finish(Op::Jump(header));
        self.at(header);
        self.finish(Op::Jump(body));
        self.enter_labelled(l, LoopInfo { again: header, exit: exit, depth: self.defer_depth() });
        self.at(body);
        let x = match self.nested_run_block(depth, b) {
            Ok(v) => v,
            Err(e) => {
                return Err(e);
            },
        };
        self.jump(header);
        self.leave_loop();
        self.at(exit);
        Ok(())
    }

    /// The variable that a loop goes over.
    pub fn iterated(&self, e: &'a Expr) -> (out: Option<Operand>)
        ensures
            out == iterated(self@, e),
    {
        reveal(iterated);
        match &e.kind {
            ExprKind::Ident(n) => {
                return self.lookup_var(n.as_str());
            },
            _ => {},
        }
        None
    }

    /// Whether a loop goes over a vector.
    pub fn over_vec(&self, e: &'a Expr) -> (out: bool)
        ensures
            out == over_vec(self@, e),
    {
        reveal(over_vec);
        match &e.kind {
            ExprKind::Ident(n) => {
                return self.is_vec(n.as_str());
            },
            _ => {},
        }
        false
    }

    /// Whether a loop goes over a map.
    pub fn over_map(&self, e: &'a Expr) -> (out: bool)
        ensures
            out == over_map(self@, e),
    {
        reveal(over_map);
        match &e.kind {
            ExprKind::Ident(n) => {
                return self.is_map(n.as_str());
            },
            _ => {},
        }
        false
    }

    /// Whether a loop goes over a string.
    pub fn over_str(&self, e: &'a Expr) -> (out: bool)
        ensures
            out == over_str(self@, e),
    {
        reveal(over_str);
        match &e.kind {
            ExprKind::Ident(n) => {
                return self.is_str(n.as_str());
            },
            _ => {},
        }
        false
    }

    /// How often a loop over an expression runs.
    pub fn limit(&mut self, e: &'a Expr) -> (out: Operand)
        ensures
            (out, final(self)@) == limit(old(self)@, e),
    {
        reveal(limit);
        match self.iterated(e) {
            Some(p) => {
                if self.over_str(e) {
                    let s = self.load(p);
                    let r = self.runtime1(Runtime::Strlen, s, I64);
                    return r;
                }
                if self.over_vec(e) && self.is_struct(p.ty) {
                    let r = self.measure(Family::Vector, p);
                    return r;
                }
                if self.over_map(e) && self.is_struct(p.ty) {
                    let r = self.measure(Family::Mapping, p);
                    return r;
                }
                if self.is_array(p.ty) {
                    let r = self.measure(Family::Array, p);
                    return r;
                }
                return Operand { val: Val::Int(16), ty: I64 };
            },
            _ => {},
        }
        Operand { val: Val::Int(16), ty: I64 }
    }

    /// Element, key or character number `i` of what a loop goes over; zero where there is none.
    pub fn loop_value(&mut self, e: &'a Expr, i: Operand) -> (out: Operand)
        ensures
            (out, final(self)@) == loop_value(old(self)@, e, i),
    {
        reveal(loop_value);
        match self.iterated(e) {
            Some(p) => {
                if self.is_array(p.ty) {
                    let q = self.elem_at(p.ty, p.val, i);
                    let et: usize = self.array_elem(p.ty);
                    let r = self.load(Operand { val: q, ty: et });
                    return r;
                }
                if (self.over_vec(e) || self.over_map(e)) && self.is_struct(p.ty) {
                    let buf: usize = self.struct_elem(p.ty, 0);
                    let b = self.field_at(p.ty, p.val, 0);
                    let q = self.elem_at(buf, b, i);
                    let et: usize = self.array_elem(buf);
                    let r = self.load(Operand { val: q, ty: et });
                    return r;
                }
                if self.is_ptr(p.ty) {
                    let s = self.load(p);
                    let q = self.emit(Op::Offset(I8, s.val, i), PTR);
                    let c = self.load(Operand { val: q.val, ty: I8 });
                    let r = self.convert(Cast::Zext, c, I32);
                    return r;
                }
                return Operand { val: Val::Int(0), ty: I64 };
            },
            _ => {},
        }
        Operand { val: Val::Int(0), ty: I64 }
    }

    /// Binds the second variable of a loop: the value of an entry of a map, else the index.
    pub fn second_value(&mut self, e: &'a Expr, n: &str, i: Operand)
        ensures
            final(self)@ == second_value(old(self)@, e, n@, i),
    {
        reveal(second_value);
        if self.over_map(e) {
            match self.iterated(e) {
                Some(p) => {
                    if self.is_struct(p.ty) {
                        let vals: usize = self.struct_elem(p.ty, 1);
                        let b = self.field_at(p.ty, p.val, 1);
                        let q = self.elem_at(vals, b, i);
                        let et: usize = self.array_elem(vals);
                        let v = self.load(Operand { val: q, ty: et });
                        self.bind_value(n, v);
                        return;
                    }
                    return;
                },
                _ => {},
            }
            return;
        }
        self.bind_value(n, i);
    }

    /// Binds the second variable of a loop, where it has one.
    pub fn bind_second(&mut self, e: &'a Expr, n: &'a Option<String>, i: Operand)
        ensures
            final(self)@ == bind_second(old(self)@, e, n, i),
    {
        reveal(bind_second);
        match n {
            Some(s) => {
                self.second_value(e, s.as_str(), i);
                return;
            },
            _ => {},
        }
        return;
    }

    /// A loop over a collection or string.
    pub fn for_stmt(&mut self, depth: usize, l: &'a Option<String>, var: &str, var2: &'a Option<String>, e: &'a Expr, b: &'a Block) -> (out: Result<(), CodegenError>)
        ensures
            match out {
                Ok(made) => for_stmt(nest::nest(depth as nat), old(self)@, l, var@, var2, e, b) == Ok::<((), State<'a>), Failure<'a>>((made, final(self)@)),
                Err(trouble) => for_stmt(nest::nest(depth as nat), old(self)@, l, var@, var2, e, b) == Err::<((), State<'a>), Failure<'a>>(Failure { trouble: trouble@, after: final(self)@ }),
            },
        decreases depth, 5int, 0int,
    {
        reveal(for_stmt);
        let cond = self.block(Label::ForCond);
        let body = self.block(Label::ForBody);
        let inc_bb = self.block(Label::ForInc);
        let exit = self.block(Label::ForExit);
        let ip = self.slot(I64);
        self.store(ip.val, Operand { val: Val::Int(0), ty: I64 });
        self.finish(Op::Jump(cond));
        self.at(cond);
        let i = self.load(ip);
        let n = self.limit(e);
        let c = self.compare(Pred::Less, i, n);
        self.finish(Op::Branch(c, body, exit));
        self.enter_labelled(l, LoopInfo { again: inc_bb, exit: exit, depth: self.defer_depth() });
        self.at(body);
        self.open_scope();
        self.open_defers();
        let v = self.loop_value(e, i);
        self.bind_value(var, v);
        self.bind_second(e, var2, i);
        let x = match self.nested_run_block(depth, b) {
            Ok(v) => v,
            Err(e) => {
                return Err(e);
            },
        };
        if let Err(e) = self.end_scope(depth) {
            return Err(e);
        }
        self.close_defers();
        self.close_scope();
        self.jump(inc_bb);
        self.at(inc_bb);
        let j = self.load(ip);
        let k = self.arith(Arith::Add, j, Operand { val: Val::Int(1), ty: I64 });
        self.store(ip.val, k);
        self.finish(Op::Jump(cond));
        self.leave_loop();
        self.at(exit);
        Ok(())
    }

    /// The loop that a jump with or without a label is about.
    pub fn target_loop(&self, l: &'a Option<String>) -> (out: Option<LoopInfo>)
        ensures
            out == target_loop(self@, l),
    {
        reveal(target_loop);
        match l {
            Some(n) => {
                return self.labelled_loop(n.as_str());
            },
            _ => {},
        }
        self.inner_loop()
    }

    /// Leaves a loop.
    pub fn break_stmt(&mut self, depth: usize, l: &'a Option<String>, span: Span) -> (out: Result<(), CodegenError>)
        ensures
            match out {
                Ok(made) => break_stmt(nest::nest(depth as nat), old(self)@, l, span) == Ok::<((), State<'a>), Failure<'a>>((made, final(self)@)),
                Err(trouble) => break_stmt(nest::nest(depth as nat), old(self)@, l, span) == Err::<((), State<'a>), Failure<'a>>(Failure { trouble: trouble@, after: final(self)@ }),
            },
        decreases depth, 5int, 0int,
    {
        reveal(break_stmt);
        match self.target_loop(l) {
            Some(t) => {
                if let Err(e) = self.run_levels(depth, t.depth, self.defer_depth()) {
                    return Err(e);
                }
                self.leave_to(t.depth);
                self.finish(Op::Jump(t.exit));
                return Ok(());
            },
            _ => {},
        }
        match l {
            Some(n) => {
                return Err(fault_naming("break label `", n.as_str(), "` not found", span));
            },
            _ => {},
        }
        Err(fault("break outside loop", span))
    }

    /// Goes on with the next turn of a loop.
    pub fn continue_stmt(&mut self, depth: usize, l: &'a Option<String>, span: Span) -> (out: Result<(), CodegenError>)
        ensures
            match out {
                Ok(made) => continue_stmt(nest::nest(depth as nat), old(self)@, l, span) == Ok::<((), State<'a>), Failure<'a>>((made, final(self)@)),
                Err(trouble) => continue_stmt(nest::nest(depth as nat), old(self)@, l, span) == Err::<((), State<'a>), Failure<'a>>(Failure { trouble: trouble@, after: final(self)@ }),
            },
        decreases depth, 5int, 0int,
    {
        reveal(continue_stmt);
        match self.target_loop(l) {
            Some(t) => {
                if let Err(e) = self.run_levels(depth, t.depth, self.defer_depth()) {
                    return Err(e);
                }
                self.leave_to(t.depth);
                self.finish(Op::Jump(t.again));
                return Ok(());
            },
            _ => {},
        }
        match l {
            Some(n) => {
                return Err(fault_naming("continue label `", n.as_str(), "` not found", span));
            },
            _ => {},
        }
        Err(fault("continue outside loop", span))
    }

    /// A statement; whether it always returns.
    pub fn stmt(&mut self, depth: usize, s: &'a Stmt) -> (out: Result<bool, CodegenError>)
        ensures
            match out {
                Ok(made) => stmt(nest::nest(depth as nat), old(self)@, s) == Ok::<(bool, State<'a>), Failure<'a>>((made, final(self)@)),
                Err(trouble) => stmt(nest::nest(depth as nat), old(self)@, s) == Err::<(bool, State<'a>), Failure<'a>>(Failure { trouble: trouble@, after: final(self)@ }),
            },
        decreases depth, 7int, 0int,
    {
        reveal(stmt);
        match s {
            Stmt::VarDecl(d) => {
                if let Err(e) = self.var_decl(depth, d) {
                    return Err(e);
                }
                return Ok(false);
            },
            Stmt::Const(c) => {
                if let Err(e) = self.const_decl(depth, c) {
                    return Err(e);
                }
                return Ok(false);
            },
            Stmt::Destructure { targets, expr, span: _ } => {
                let v = match self.nested_expr(depth, expr) {
                    Ok(v) => v,
                    Err(e) => {
                        return Err(e);
                    },
                };
                self.destructure(targets, 0, v);
                return Ok(false);
            },
            Stmt::Assert { is_debug: _, cond, message, span: _ } => {
                if let Err(e) = self.assertion(depth, cond, message) {
                    return Err(e);
                }
                return Ok(false);
            },
            Stmt::Expr { expr, span: _ } => {
                let x = match self.nested_expr(depth, expr) {
                    Ok(v) => v,
                    Err(e) => {
                        return Err(e);
                    },
                };
                return Ok(false);
            },
            Stmt::Block(b) => {
                let r = match self.nested_run_block(depth, b) {
                    Ok(v) => v,
                    Err(e) => {
                        return Err(e);
                    },
                };
                return Ok(r);
            },
            Stmt::Return { value, span: _ } => {
                if let Err(e) = self.leave_stmt(depth, value) {
                    return Err(e);
                }
                return Ok(true);
            },
            Stmt::If { cond, then_block, else_block, span: _ } => {
                let r = match self.if_stmt(depth, cond, then_block, else_block) {
                    Ok(v) => v,
                    Err(e) => {
                        return Err(e);
                    },
                };
                return Ok(r);
            },
            Stmt::While { cond, body, span: _ } => {
                if let Err(e) = self.while_stmt(depth, cond, body) {
                    return Err(e);
                }
                return Ok(false);
            },
            Stmt::Loop { label, body, span: _ } => {
                if let Err(e) = self.loop_stmt(depth, label, body) {
                    return Err(e);
                }
                return Ok(false);
            },
            Stmt::For { label, var, var2, iter, body, span: _ } => {
                if let Err(e) = self.for_stmt(depth, label, var.as_str(), var2, iter, body) {
                    return Err(e);
                }
                return Ok(false);
            },
            Stmt::Defer { inner, span: _ } => {
                self.add_defer(inner);
                return Ok(false);
            },
            Stmt::Break { label, span } => {
                if let Err(e) = self.break_stmt(depth, label, *span) {
                    return Err(e);
                }
                return Ok(false);
            },
            Stmt::Continue { label, span } => {
                if let Err(e) = self.continue_stmt(depth, label, *span) {
                    return Err(e);
                }
                return Ok(false);
            },
        }
    }

    /// The statements from `i` on; whether one of them always returns.
    pub fn run_stmts(&mut self, depth: usize, ss: &'a Vec<Stmt>, i: usize) -> (out: Result<bool, CodegenError>)
        ensures
            match out {
                Ok(made) => run_stmts(nest::nest(depth as nat), old(self)@, ss, i) == Ok::<(bool, State<'a>), Failure<'a>>((made, final(self)@)),
                Err(trouble) => run_stmts(nest::nest(depth as nat), old(self)@, ss, i) == Err::<(bool, State<'a>), Failure<'a>>(Failure { trouble: trouble@, after: final(self)@ }),
            },
        decreases depth, 8int, ss.len() - i,
    {
        reveal(run_stmts);
        if i >= ss.len() {
            return Ok(false);
        }
        if self.done() {
            self.dead_block();
        }
        let a = match self.stmt(depth, &ss[i]) {
            Ok(v) => v,
            Err(e) => {
                return Err(e);
            },
        };
        let b = match self.run_stmts(depth, ss, i + 1) {
            Ok(v) => v,
            Err(e) => {
                return Err(e);
            },
        };
        Ok(a || b)
    }

    /// A block: its statements, what they defer, and the end of its variables. Whether it always returns.
    pub fn run_block(&mut self, depth: usize, b: &'a Block) -> (out: Result<bool, CodegenError>)
        ensures
            match out {
                Ok(made) => run_block(nest::nest(depth as nat), old(self)@, b) == Ok::<(bool, State<'a>), Failure<'a>>((made, final(self)@)),
                Err(trouble) => run_block(nest::nest(depth as nat), old(self)@, b) == Err::<(bool, State<'a>), Failure<'a>>(Failure { trouble: trouble@, after: final(self)@ }),
            },
        decreases depth, 9int, 0int,
    {
        reveal(run_block);
        self.open_scope();
        self.open_defers();
        let r = match self.run_stmts(depth, &b.stmts, 0) {
            Ok(v) => v,
            Err(e) => {
                return Err(e);
            },
        };
        if let Err(e) = self.end_scope(depth) {
            return Err(e);
        }
        self.close_defers();
        self.close_scope();
        Ok(r)
    }

    /// As `run_block`, one level deeper; nothing can be lowered below the deepest level.
    pub fn nested_run_block(&mut self, depth: usize, b: &'a Block) -> (out: Result<bool, CodegenError>)
        ensures
            match out {
                Ok(made) => (nest::nest(depth as nat).run_block)(old(self)@, b) == Ok::<(bool, State<'a>), Failure<'a>>((made, final(self)@)),
                Err(trouble) => (nest::nest(depth as nat).run_block)(old(self)@, b) == Err::<(bool, State<'a>), Failure<'a>>(Failure { trouble: trouble@, after: final(self)@ }),
            },
        decreases depth, 0int, 0int,
    {
        reveal(nest::nest);
        if depth == 0 {
            Err(fault("nested too deeply", Span { start: 0, end: 0 }))
        } else {
            self.run_block(depth - 1, b)
        }
    }
}

} // verus!
