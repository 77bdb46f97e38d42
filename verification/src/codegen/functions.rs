//! Lowering of functions and programs.
use vstd::prelude::*;
use crate::ast::{
    Block, ConstructorDecl, ConversionDecl, DestructorDecl, ClassDecl, ExtensionDecl, ExtensionMember,
    Function, Item, OperatorDecl, Param, Program, PropertyDecl, Setter,
    Type, ParamMode,
};
use crate::codegen::ir::{
    FuncInfo, Label, MemberKind, Op, Operand, Val, I1,
    I64, PTR,
};
use crate::codegen::lower;
use crate::codegen::calls;
use crate::codegen::globals;
use crate::codegen::declare;
use crate::codegen::nest;
use crate::codegen::nest::Nest;
use crate::codegen::state;
use crate::codegen::state::{Codegen, CodegenError, Failure, State, Trouble, fault, fault_naming, fault_naming_two, join3, number3, op_word_of, type_word_of};
use crate::text;

verus! {

/// Starts the body of a function.
#[verifier::opaque]
pub open spec fn enter<'a>(st: State<'a>, f: usize, main: bool, class: Option<usize>) -> State<'a>
{
    let st = state::set_function(st, Some(f), main, class);
    let (entry, st) = state::block(st, Label::Entry);
    let st = state::at(st, entry);
    let st = state::open_scope(st);
    st
}

/// Ends the body of a function.
#[verifier::opaque]
pub open spec fn leave<'a>(st: State<'a>) -> State<'a>
{
    let st = state::close_scope(st);
    let st = state::set_function(st, None, false, None);
    st
}

/// Gives the object of a method a place in memory.
#[verifier::opaque]
pub open spec fn bind_this<'a>(st: State<'a>) -> State<'a>
{
    let (p, st) = lower::slot(st, PTR);
    let st = lower::store(st, p.val, Operand { val: Val::Arg(0), ty: PTR });
    let st = state::bind(st, "this"@, p);
    st
}

/// Gives parameter `k` of the function a place in memory.
#[verifier::opaque]
pub open spec fn bind_param<'a>(st: State<'a>, q: &'a Param, k: usize, t: usize) -> State<'a>
{
    let (p, st) = lower::slot(st, t);
    let st = lower::store(st, p.val, Operand { val: Val::Arg(k), ty: t });
    let st = state::bind(st, q.name@, p);
    let st = lower::note_kind(st, q.name@, &q.ty);
    st
}

/// Gives the parameters of a method from `i` on a place in memory, each as a value of its own.
#[verifier::opaque]
pub open spec fn bind_plain<'a>(nest: Nest<'a>, st: State<'a>, ps: &'a Vec<Param>, i: usize) -> Result<((), State<'a>), Failure<'a>>
    decreases ps.len() - i,
{
    if i >= ps.len() {
        Ok(((), st))
    } else {
        let q = &ps@[i as int];
        match (nest.ty)(st, &q.ty) {
            Ok((t, st)) => {
                let st = bind_param(st, q, calls::more(i), t);
                bind_plain(nest, st, ps, (i + 1) as usize)
            },
            Err(e) => Err(e),
        }
    }
}

/// Gives the parameters of a method or constructor from `i` on a place in memory.
#[verifier::opaque]
pub open spec fn bind_params<'a>(nest: Nest<'a>, st: State<'a>, ps: &'a Vec<Param>, i: usize, structs: bool) -> Result<((), State<'a>), Failure<'a>>
    decreases ps.len() - i,
{
    if i >= ps.len() {
        Ok(((), st))
    } else {
        let q = &ps@[i as int];
        if q.is_variadic {
            match declare::variadic_elem(nest, st, ps, i) {
                Ok((e, st)) => {
                    let (t, st) = declare::gathered(st, e, structs);
                    let st = bind_param(st, q, calls::more(i), t);
                    match bind_params(nest, st, ps, (i + 1) as usize, structs) {
                        Ok((_, st)) => {
                            Ok(((), st))
                        },
                        Err(e) => Err(e),
                    }
                },
                Err(e) => Err(e),
            }
        } else {
            match (nest.ty)(st, &q.ty) {
                Ok((t, st)) => {
                    let st = bind_param(st, q, calls::more(i), t);
                    bind_params(nest, st, ps, (i + 1) as usize, structs)
                },
                Err(e) => Err(e),
            }
        }
    }
}

/// Makes parameter `i` of a function a variable: the caller's own, or one in memory.
#[verifier::opaque]
pub open spec fn bind_arg<'a>(nest: Nest<'a>, st: State<'a>, ps: &'a Vec<Param>, i: usize) -> Result<((), State<'a>), Failure<'a>>
{
    if i < ps.len() {
        let q = &ps@[i as int];
        if q.mode != ParamMode::Plain {
            match (nest.ty)(st, &q.ty) {
                Ok((t, st)) => {
                    let st = state::bind(st, q.name@, Operand { val: Val::Arg(i), ty: t });
                    Ok(((), st))
                },
                Err(e) => Err(e),
            }
        } else if q.is_variadic {
            match declare::variadic_elem(nest, st, ps, i) {
                Ok((e, st)) => {
                    let (t, st) = declare::gathered(st, e, false);
                    let (p, st) = lower::slot(st, t);
                    let st = lower::store(st, p.val, Operand { val: Val::Arg(i), ty: t });
                    let st = state::bind(st, q.name@, p);
                    Ok(((), st))
                },
                Err(e) => Err(e),
            }
        } else {
            match (nest.ty)(st, &q.ty) {
                Ok((t, st)) => {
                    let st = bind_param(st, q, i, t);
                    Ok(((), st))
                },
                Err(e) => Err(e),
            }
        }
    } else {
        Ok(((), st))
    }
}

/// Makes the parameters of a function from `i` on variables.
#[verifier::opaque]
pub open spec fn bind_args<'a>(nest: Nest<'a>, st: State<'a>, ps: &'a Vec<Param>, i: usize) -> Result<((), State<'a>), Failure<'a>>
    decreases ps.len() - i,
{
    if i >= ps.len() {
        Ok(((), st))
    } else {
        match bind_arg(nest, st, ps, i) {
            Ok((_, st)) => {
                bind_args(nest, st, ps, (i + 1) as usize)
            },
            Err(e) => Err(e),
        }
    }
}

/// Makes the arguments of the program an empty list of strings.
#[verifier::opaque]
pub open spec fn bind_main_args<'a>(st: State<'a>) -> State<'a>
{
    let (t, st) = lower::array_of(st, PTR, 16);
    let (p, st) = lower::slot(st, t);
    let st = lower::store(st, p.val, Operand { val: Val::Zero, ty: t });
    let st = state::bind(st, "args"@, p);
    st
}

/// Makes the parameters of a function variables.
#[verifier::opaque]
pub open spec fn bind_function_args<'a>(nest: Nest<'a>, st: State<'a>, f: &'a Function) -> Result<((), State<'a>), Failure<'a>>
{
    if declare::takes_args(f) {
        let st = bind_main_args(st);
        Ok(((), st))
    } else {
        bind_args(nest, st, &f.params, 0)
    }
}

/// Returns zero, or nothing.
#[verifier::opaque]
pub open spec fn return_zero<'a>(st: State<'a>, r: Option<usize>) -> State<'a>
{
    match r {
        Some(t) => {
            let st = state::finish(st, Op::Return(Operand { val: Val::Zero, ty: t }));
            st
        },
        _ => {
            let st = state::finish(st, Op::ReturnVoid);
            st
        },
    }
}

/// The body of a function. Where its end is reached it returns zero.
#[verifier::opaque]
pub open spec fn lower_function<'a>(nest: Nest<'a>, st: State<'a>, f: &'a Function) -> Result<((), State<'a>), Failure<'a>>
{
    match state::function(st, f.name@) {
        Some(k) => {
            let info = state::func_info(st, k);
            let st = enter(st, k, (f.name@ == "main"@), None);
            match bind_function_args(nest, st, f) {
                Ok((_, st)) => {
                    match (nest.run_block)(st, &f.body) {
                        Ok((always, st)) => {
                            let st = if !always && !state::done(st) {
                                return_zero(st, info.ret)
                            } else {
                                st
                            };
                            let st = leave(st);
                            if state::is_sound(st, k) {
                                Ok(((), st))
                            } else {
                                Err(Failure { trouble: state::naming("function "@, f.name@, " failed verification"@, f.span), after: st })
                            }
                        },
                        Err(e) => Err(e),
                    }
                },
                Err(e) => Err(e),
            }
        },
        _ => {
            Err(Failure { trouble: state::naming("undeclared func "@, f.name@, ""@, f.name_span), after: st })
        },
    }
}

/// The body of a method.
#[verifier::opaque]
pub open spec fn lower_method<'a>(nest: Nest<'a>, st: State<'a>, c: Seq<char>, l: usize, f: &'a Function) -> Result<((), State<'a>), Failure<'a>>
{
    match state::member_entry(st, f.name@, l, MemberKind::Method) {
        Some(m) => {
            let info = state::member_info(st, m);
            let sig = state::func_info(st, info.func);
            let st = enter(st, info.func, false, Some(l));
            let st = bind_this(st);
            match bind_params(nest, st, &f.params, 0, true) {
                Ok((_, st)) => {
                    match (nest.run_block)(st, &f.body) {
                        Ok((always, st)) => {
                            let st = if !always && !state::done(st) {
                                return_zero(st, sig.ret)
                            } else {
                                st
                            };
                            let st = leave(st);
                            if state::is_sound(st, info.func) {
                                Ok(((), st))
                            } else {
                                Err(Failure { trouble: state::naming_two("method "@, c, "::"@, f.name@, " failed verification"@, f.span), after: st })
                            }
                        },
                        Err(e) => Err(e),
                    }
                },
                Err(e) => Err(e),
            }
        },
        _ => {
            Err(Failure { trouble: state::naming("unknown method "@, f.name@, ""@, f.name_span), after: st })
        },
    }
}

/// The bodies of the methods of a class from `i` on.
#[verifier::opaque]
pub open spec fn lower_methods<'a>(nest: Nest<'a>, st: State<'a>, c: Seq<char>, l: usize, fs: &'a Vec<Function>, i: usize) -> Result<((), State<'a>), Failure<'a>>
    decreases fs.len() - i,
{
    if i >= fs.len() {
        Ok(((), st))
    } else {
        match lower_method(nest, st, c, l, &fs@[i as int]) {
            Ok((_, st)) => {
                lower_methods(nest, st, c, l, fs, (i + 1) as usize)
            },
            Err(e) => Err(e),
        }
    }
}

/// Stores the parameter of a constructor that has the name of a field in it.
#[verifier::opaque]
pub open spec fn init_field<'a>(st: State<'a>, l: usize, n: Seq<char>) -> State<'a>
{
    match state::field_entry(st, n, l) {
        Some(k) => {
            let info = state::field_info(st, k);
            match state::lookup_var(st, "this"@) {
                Some(this) => {
                    match state::lookup_var(st, n) {
                        Some(v) => {
                            let (p, st) = lower::load(st, this);
                            let (t, st) = lower::class_ty(st, l);
                            let (q, st) = lower::field_at(st, t, p.val, info.index);
                            let (x, st) = lower::load(st, v);
                            let st = lower::store(st, q, x);
                            st
                        },
                        _ => {
                            st
                        },
                    }
                },
                _ => {
                    st
                },
            }
        },
        _ => {
            st
        },
    }
}

/// Stores the parameters of a constructor from `i` on that have the names of fields in them.
#[verifier::opaque]
pub open spec fn init_fields<'a>(st: State<'a>, l: usize, ps: &'a Vec<Param>, i: usize) -> State<'a>
    decreases ps.len() - i,
{
    if i >= ps.len() {
        st
    } else {
        let q = &ps@[i as int];
        let st = init_field(st, l, q.name@);
        let st = init_fields(st, l, ps, (i + 1) as usize);
        st
    }
}

/// A body, where there is one.
#[verifier::opaque]
pub open spec fn body_of<'a>(nest: Nest<'a>, st: State<'a>, b: &'a Option<Block>) -> Result<((), State<'a>), Failure<'a>>
{
    match *b {
        Some(x) => {
            match (nest.run_block)(st, &x) {
                Ok((y, st)) => {
                    Ok(((), st))
                },
                Err(e) => Err(e),
            }
        },
        _ => {
            Ok(((), st))
        },
    }
}

/// The body of a constructor: the fields that its parameters set, and its statements.
#[verifier::opaque]
pub open spec fn lower_ctor<'a>(nest: Nest<'a>, st: State<'a>, c: Seq<char>, l: usize, d: &'a ConstructorDecl, name: Seq<char>) -> Result<((), State<'a>), Failure<'a>>
{
    match state::function(st, name) {
        Some(k) => {
            let st = enter(st, k, false, Some(l));
            let st = bind_this(st);
            match bind_params(nest, st, &d.params, 0, false) {
                Ok((_, st)) => {
                    let st = init_fields(st, l, &d.params, 0);
                    match body_of(nest, st, &d.body) {
                        Ok((_, st)) => {
                            let st = if !state::done(st) {
                                return_zero(st, None)
                            } else {
                                st
                            };
                            let st = leave(st);
                            if state::is_sound(st, k) {
                                Ok(((), st))
                            } else {
                                Err(Failure { trouble: state::naming("ctor "@, c, " failed verify"@, d.span), after: st })
                            }
                        },
                        Err(e) => Err(e),
                    }
                },
                Err(e) => Err(e),
            }
        },
        _ => {
            Err(Failure { trouble: state::naming("ctor not declared "@, name, ""@, d.span), after: st })
        },
    }
}

/// The bodies of the constructors of a class from `i` on.
#[verifier::opaque]
pub open spec fn lower_ctors<'a>(nest: Nest<'a>, st: State<'a>, c: Seq<char>, l: usize, cs: &'a Vec<ConstructorDecl>, i: usize) -> Result<((), State<'a>), Failure<'a>>
    decreases cs.len() - i,
{
    if i >= cs.len() {
        Ok(((), st))
    } else {
        let name = state::numbered(c, "__ctor"@, cs.len() > 1, i);
        match lower_ctor(nest, st, c, l, &cs@[i as int], name) {
            Ok((_, st)) => {
                lower_ctors(nest, st, c, l, cs, (i + 1) as usize)
            },
            Err(e) => Err(e),
        }
    }
}

/// The body of a destructor.
#[verifier::opaque]
pub open spec fn lower_dtor<'a>(nest: Nest<'a>, st: State<'a>, c: Seq<char>, l: usize, d: &'a DestructorDecl, name: Seq<char>) -> Result<((), State<'a>), Failure<'a>>
{
    match state::function(st, name) {
        Some(k) => {
            let st = enter(st, k, false, Some(l));
            let st = bind_this(st);
            match (nest.run_block)(st, &d.body) {
                Ok((x, st)) => {
                    let st = if !state::done(st) {
                        return_zero(st, None)
                    } else {
                        st
                    };
                    let st = leave(st);
                    if state::is_sound(st, k) {
                        Ok(((), st))
                    } else {
                        Err(Failure { trouble: state::naming("dtor "@, c, " failed verify"@, d.span), after: st })
                    }
                },
                Err(e) => Err(e),
            }
        },
        _ => {
            Err(Failure { trouble: state::naming("dtor not declared "@, name, ""@, d.span), after: st })
        },
    }
}

/// The bodies of the destructors of a class from `i` on.
#[verifier::opaque]
pub open spec fn lower_dtors<'a>(nest: Nest<'a>, st: State<'a>, c: Seq<char>, l: usize, ds: &'a Vec<DestructorDecl>, i: usize) -> Result<((), State<'a>), Failure<'a>>
    decreases ds.len() - i,
{
    if i >= ds.len() {
        Ok(((), st))
    } else {
        let name = state::numbered(c, "__dtor"@, ds.len() > 1, i);
        match lower_dtor(nest, st, c, l, &ds@[i as int], name) {
            Ok((_, st)) => {
                lower_dtors(nest, st, c, l, ds, (i + 1) as usize)
            },
            Err(e) => Err(e),
        }
    }
}

/// Whether a written type is `bool`.
#[verifier::opaque]
pub open spec fn is_bool_ty<'a>(t: &'a Type) -> bool
{
    match *t {
        Type::Bool => {
            true
        },
        _ => {
            false
        },
    }
}

/// What a getter returns where its end is reached: an integer; in an extension, for a truth value one bit; nothing where the property has no written type.
#[verifier::opaque]
pub open spec fn getter_end<'a>(st: State<'a>, t: &'a Option<Type>, ext: bool) -> State<'a>
{
    match *t {
        Some(x) => {
            if ext && is_bool_ty(&x) {
                let st = state::finish(st, Op::Return(Operand { val: Val::Int(0), ty: I1 }));
                st
            } else {
                let st = state::finish(st, Op::Return(Operand { val: Val::Int(0), ty: I64 }));
                st
            }
        },
        _ => {
            let st = state::finish(st, Op::ReturnVoid);
            st
        },
    }
}

/// The body of a getter.
#[verifier::opaque]
pub open spec fn lower_getter<'a>(nest: Nest<'a>, st: State<'a>, name: Seq<char>, l: Option<usize>, p: &'a PropertyDecl, b: &'a Block, ext: bool) -> Result<((), State<'a>), Failure<'a>>
{
    match state::function(st, name) {
        Some(k) => {
            let st = enter(st, k, false, l);
            let st = bind_this(st);
            match (nest.run_block)(st, b) {
                Ok((always, st)) => {
                    let st = if (ext || !always) && !state::done(st) {
                        getter_end(st, &p.ty, ext)
                    } else {
                        st
                    };
                    let st = leave(st);
                    if state::is_sound(st, k) {
                        Ok(((), st))
                    } else if ext {
                        Err(Failure { trouble: state::naming("extension getter "@, name, " failed verify"@, p.span), after: st })
                    } else {
                        Err(Failure { trouble: state::naming("getter "@, name, " failed verify"@, p.span), after: st })
                    }
                },
                Err(e) => Err(e),
            }
        },
        _ => {
            if ext {
                Err(Failure { trouble: state::naming("extension getter not declared "@, name, ""@, p.span), after: st })
            } else {
                Err(Failure { trouble: state::naming("getter not declared "@, name, ""@, p.span), after: st })
            }
        },
    }
}

/// The body of a setter.
#[verifier::opaque]
pub open spec fn lower_setter<'a>(nest: Nest<'a>, st: State<'a>, name: Seq<char>, l: Option<usize>, p: &'a PropertyDecl, s: &'a Setter, ext: bool) -> Result<((), State<'a>), Failure<'a>>
{
    match state::function(st, name) {
        Some(k) => {
            let st = enter(st, k, false, l);
            let st = bind_this(st);
            match (nest.ty)(st, &s.param.ty) {
                Ok((t, st)) => {
                    let st = bind_param(st, &s.param, 1, t);
                    match (nest.run_block)(st, &s.body) {
                        Ok((x, st)) => {
                            let st = if !state::done(st) {
                                return_zero(st, None)
                            } else {
                                st
                            };
                            let st = leave(st);
                            if state::is_sound(st, k) {
                                Ok(((), st))
                            } else if ext {
                                Err(Failure { trouble: state::naming("extension setter "@, name, " failed verify"@, p.span), after: st })
                            } else {
                                Err(Failure { trouble: state::naming("setter "@, name, " failed verify"@, p.span), after: st })
                            }
                        },
                        Err(e) => Err(e),
                    }
                },
                Err(e) => Err(e),
            }
        },
        _ => {
            if ext {
                Err(Failure { trouble: state::naming("extension setter not declared "@, name, ""@, p.span), after: st })
            } else {
                Err(Failure { trouble: state::naming("setter not declared "@, name, ""@, p.span), after: st })
            }
        },
    }
}

/// The body of the getter of a property, where it has one.
#[verifier::opaque]
pub open spec fn lower_get<'a>(nest: Nest<'a>, st: State<'a>, c: Seq<char>, l: Option<usize>, p: &'a PropertyDecl, ext: bool) -> Result<((), State<'a>), Failure<'a>>
{
    match p.getter {
        Some(b) => {
            let name = state::joined(c, "__get_"@, p.name@);
            match lower_getter(nest, st, name, l, p, &b, ext) {
                Ok((_, st)) => {
                    Ok(((), st))
                },
                Err(e) => Err(e),
            }
        },
        _ => {
            Ok(((), st))
        },
    }
}

/// The body of the setter of a property, where it has one.
#[verifier::opaque]
pub open spec fn lower_set<'a>(nest: Nest<'a>, st: State<'a>, c: Seq<char>, l: Option<usize>, p: &'a PropertyDecl, ext: bool) -> Result<((), State<'a>), Failure<'a>>
{
    match p.setter {
        Some(s) => {
            let name = state::joined(c, "__set_"@, p.name@);
            match lower_setter(nest, st, name, l, p, &s, ext) {
                Ok((_, st)) => {
                    Ok(((), st))
                },
                Err(e) => Err(e),
            }
        },
        _ => {
            Ok(((), st))
        },
    }
}

/// The bodies of the accessors of a property.
#[verifier::opaque]
pub open spec fn lower_property<'a>(nest: Nest<'a>, st: State<'a>, c: Seq<char>, l: Option<usize>, p: &'a PropertyDecl, ext: bool) -> Result<((), State<'a>), Failure<'a>>
{
    match lower_get(nest, st, c, l, p, ext) {
        Ok((_, st)) => {
            lower_set(nest, st, c, l, p, ext)
        },
        Err(e) => Err(e),
    }
}

/// The bodies of the accessors of a class from property `i` on.
#[verifier::opaque]
pub open spec fn lower_properties<'a>(nest: Nest<'a>, st: State<'a>, c: Seq<char>, l: usize, ps: &'a Vec<PropertyDecl>, i: usize) -> Result<((), State<'a>), Failure<'a>>
    decreases ps.len() - i,
{
    if i >= ps.len() {
        Ok(((), st))
    } else {
        match lower_property(nest, st, c, Some(l), &ps@[i as int], false) {
            Ok((_, st)) => {
                lower_properties(nest, st, c, l, ps, (i + 1) as usize)
            },
            Err(e) => Err(e),
        }
    }
}

/// The body of an operator. Where its end is reached it returns zero.
#[verifier::opaque]
pub open spec fn operator_body<'a>(nest: Nest<'a>, st: State<'a>, k: usize, l: Option<usize>, o: &'a OperatorDecl) -> Result<((), State<'a>), Failure<'a>>
{
    let st = enter(st, k, false, l);
    let st = bind_this(st);
    match bind_plain(nest, st, &o.params, 0) {
        Ok((_, st)) => {
            match (nest.run_block)(st, &o.body) {
                Ok((x, st)) => {
                    let st = if !state::done(st) {
                        return_zero(st, Some(I64))
                    } else {
                        st
                    };
                    let st = leave(st);
                    Ok(((), st))
                },
                Err(e) => Err(e),
            }
        },
        Err(e) => Err(e),
    }
}

/// The body of an operator of a class.
#[verifier::opaque]
pub open spec fn lower_operator<'a>(nest: Nest<'a>, st: State<'a>, c: Seq<char>, l: usize, o: &'a OperatorDecl) -> Result<((), State<'a>), Failure<'a>>
{
    match state::member_entry(st, o.op@, l, MemberKind::Operator) {
        Some(m) => {
            let info = state::member_info(st, m);
            match operator_body(nest, st, info.func, Some(l), o) {
                Ok((_, st)) => {
                    if state::is_sound(st, info.func) {
                        Ok(((), st))
                    } else {
                        Err(Failure { trouble: state::naming("operator "@, o.op@, " failed verify"@, o.span), after: st })
                    }
                },
                Err(e) => Err(e),
            }
        },
        _ => {
            Err(Failure { trouble: state::naming("operator not declared for "@, c, ""@, o.span), after: st })
        },
    }
}

/// The bodies of the operators of a class from `i` on.
#[verifier::opaque]
pub open spec fn lower_operators<'a>(nest: Nest<'a>, st: State<'a>, c: Seq<char>, l: usize, os: &'a Vec<OperatorDecl>, i: usize) -> Result<((), State<'a>), Failure<'a>>
    decreases os.len() - i,
{
    if i >= os.len() {
        Ok(((), st))
    } else {
        match lower_operator(nest, st, c, l, &os@[i as int]) {
            Ok((_, st)) => {
                lower_operators(nest, st, c, l, os, (i + 1) as usize)
            },
            Err(e) => Err(e),
        }
    }
}

/// The function of a conversion, declared where it is not yet.
#[verifier::opaque]
pub open spec fn conversion_function<'a>(st: State<'a>, name: Seq<char>) -> (usize, State<'a>)
{
    match state::function(st, name) {
        Some(k) => {
            (k, st)
        },
        _ => {
            let (k, st) = declare::add_plain_method(st, name, Some(I64));
            (k, st)
        },
    }
}

/// The body of a conversion. Where its end is reached it returns zero.
#[verifier::opaque]
pub open spec fn lower_conversion<'a>(nest: Nest<'a>, st: State<'a>, c: Seq<char>, l: Option<usize>, d: &'a ConversionDecl) -> Result<((), State<'a>), Failure<'a>>
{
    let a = state::type_word(&d.from_ty);
    let b = state::type_word(&d.to_ty);
    let from = state::joined(c, "__conv_"@, a);
    let name = state::joined(from, "_to_"@, b);
    let (k, st) = conversion_function(st, name);
    let st = enter(st, k, false, l);
    let st = bind_this(st);
    match (nest.run_block)(st, &d.body) {
        Ok((x, st)) => {
            let st = if !state::done(st) {
                return_zero(st, Some(I64))
            } else {
                st
            };
            let st = leave(st);
            Ok(((), st))
        },
        Err(e) => Err(e),
    }
}

/// The bodies of the conversions of a class from `i` on.
#[verifier::opaque]
pub open spec fn lower_conversions<'a>(nest: Nest<'a>, st: State<'a>, c: Seq<char>, l: usize, ds: &'a Vec<ConversionDecl>, i: usize) -> Result<((), State<'a>), Failure<'a>>
    decreases ds.len() - i,
{
    if i >= ds.len() {
        Ok(((), st))
    } else {
        match lower_conversion(nest, st, c, Some(l), &ds@[i as int]) {
            Ok((_, st)) => {
                lower_conversions(nest, st, c, l, ds, (i + 1) as usize)
            },
            Err(e) => Err(e),
        }
    }
}

/// The bodies of the members of a class.
#[verifier::opaque]
pub open spec fn lower_class<'a>(nest: Nest<'a>, st: State<'a>, c: &'a ClassDecl) -> Result<((), State<'a>), Failure<'a>>
{
    match declare::struct_named(st, c.name@) {
        Some(l) => {
            match lower_methods(nest, st, c.name@, l, &c.methods, 0) {
                Ok((_, st)) => {
                    match lower_ctors(nest, st, c.name@, l, &c.constructors, 0) {
                        Ok((_, st)) => {
                            match lower_dtors(nest, st, c.name@, l, &c.destructors, 0) {
                                Ok((_, st)) => {
                                    match lower_properties(nest, st, c.name@, l, &c.properties, 0) {
                                        Ok((_, st)) => {
                                            match lower_operators(nest, st, c.name@, l, &c.operators, 0) {
                                                Ok((_, st)) => {
                                                    match lower_conversions(nest, st, c.name@, l, &c.conversions, 0) {
                                                        Ok((_, st)) => {
                                                            Ok(((), st))
                                                        },
                                                        Err(e) => Err(e),
                                                    }
                                                },
                                                Err(e) => Err(e),
                                            }
                                        },
                                        Err(e) => Err(e),
                                    }
                                },
                                Err(e) => Err(e),
                            }
                        },
                        Err(e) => Err(e),
                    }
                },
                Err(e) => Err(e),
            }
        },
        _ => {
            Err(Failure { trouble: state::naming("unknown class "@, c.name@, ""@, c.name_span), after: st })
        },
    }
}

/// The body of a function of an extension.
#[verifier::opaque]
pub open spec fn extension_function<'a>(nest: Nest<'a>, st: State<'a>, n: Seq<char>, l: Option<usize>, f: &'a Function) -> Result<((), State<'a>), Failure<'a>>
{
    let name = state::joined(n, "__"@, f.name@);
    match state::function(st, name) {
        Some(k) => {
            let sig = state::func_info(st, k);
            let st = enter(st, k, false, l);
            let st = bind_this(st);
            match bind_plain(nest, st, &f.params, 0) {
                Ok((_, st)) => {
                    match (nest.run_block)(st, &f.body) {
                        Ok((x, st)) => {
                            let st = if !state::done(st) {
                                return_zero(st, sig.ret)
                            } else {
                                st
                            };
                            let st = leave(st);
                            if state::is_sound(st, k) {
                                Ok(((), st))
                            } else {
                                Err(Failure { trouble: state::naming_two("extension "@, n, "::"@, f.name@, " verify failed"@, f.span), after: st })
                            }
                        },
                        Err(e) => Err(e),
                    }
                },
                Err(e) => Err(e),
            }
        },
        _ => {
            Err(Failure { trouble: state::naming("extension func not declared "@, name, ""@, f.span), after: st })
        },
    }
}

/// The body of an operator of an extension.
#[verifier::opaque]
pub open spec fn extension_operator<'a>(nest: Nest<'a>, st: State<'a>, n: Seq<char>, l: Option<usize>, o: &'a OperatorDecl) -> Result<((), State<'a>), Failure<'a>>
{
    let w = state::op_word(o.op@);
    let name = state::joined(n, "__op_"@, w);
    match state::function(st, name) {
        Some(k) => {
            match operator_body(nest, st, k, l, o) {
                Ok((_, st)) => {
                    if state::is_sound(st, k) {
                        Ok(((), st))
                    } else {
                        Err(Failure { trouble: state::naming("extension op "@, o.op@, " failed verify"@, o.span), after: st })
                    }
                },
                Err(e) => Err(e),
            }
        },
        _ => {
            Err(Failure { trouble: state::naming_two("extension op "@, o.op@, " not declared "@, name, ""@, o.span), after: st })
        },
    }
}

/// The body of a member of an extension.
#[verifier::opaque]
pub open spec fn extension_member<'a>(nest: Nest<'a>, st: State<'a>, n: Seq<char>, l: Option<usize>, m: &'a ExtensionMember) -> Result<((), State<'a>), Failure<'a>>
{
    match *m {
        ExtensionMember::Function(f) => {
            match extension_function(nest, st, n, l, &f) {
                Ok((_, st)) => {
                    Ok(((), st))
                },
                Err(e) => Err(e),
            }
        },
        ExtensionMember::Operator(o) => {
            match extension_operator(nest, st, n, l, &o) {
                Ok((_, st)) => {
                    Ok(((), st))
                },
                Err(e) => Err(e),
            }
        },
        ExtensionMember::Property(p) => {
            match lower_property(nest, st, n, l, &p, true) {
                Ok((_, st)) => {
                    Ok(((), st))
                },
                Err(e) => Err(e),
            }
        },
        ExtensionMember::Conversion(d) => {
            match lower_conversion(nest, st, n, l, &d) {
                Ok((_, st)) => {
                    Ok(((), st))
                },
                Err(e) => Err(e),
            }
        },
        _ => {
            Ok(((), st))
        },
    }
}

/// The bodies of the members of an extension from `i` on.
#[verifier::opaque]
pub open spec fn extension_members<'a>(nest: Nest<'a>, st: State<'a>, n: Seq<char>, l: Option<usize>, ms: &'a Vec<ExtensionMember>, i: usize) -> Result<((), State<'a>), Failure<'a>>
    decreases ms.len() - i,
{
    if i >= ms.len() {
        Ok(((), st))
    } else {
        match extension_member(nest, st, n, l, &ms@[i as int]) {
            Ok((_, st)) => {
                extension_members(nest, st, n, l, ms, (i + 1) as usize)
            },
            Err(e) => Err(e),
        }
    }
}

/// The bodies of the members of an extension.
#[verifier::opaque]
pub open spec fn lower_extension<'a>(nest: Nest<'a>, st: State<'a>, x: &'a ExtensionDecl) -> Result<((), State<'a>), Failure<'a>>
{
    match x.ty {
        Type::Named(n) => {
            match extension_members(nest, st, n@, state::layout(st, n@), &x.members, 0) {
                Ok((_, st)) => {
                    Ok(((), st))
                },
                Err(e) => Err(e),
            }
        },
        Type::Generic(n, _) => {
            match extension_members(nest, st, n@, state::layout(st, n@), &x.members, 0) {
                Ok((_, st)) => {
                    Ok(((), st))
                },
                Err(e) => Err(e),
            }
        },
        _ => {
            Ok(((), st))
        },
    }
}

/// The function of the `init` blocks, declared where it is not yet.
#[verifier::opaque]
pub open spec fn init_function<'a>(st: State<'a>) -> (usize, State<'a>)
{
    match state::function(st, "hella.init"@) {
        Some(k) => {
            (k, st)
        },
        _ => {
            let (first, st) = state::param_start(st);
            let (k, st) = state::add_function(st, "hella.init"@, FuncInfo { ret: None, c_varargs: false, converts: false, first: first, count: 0 });
            (k, st)
        },
    }
}

/// An `init` block.
#[verifier::opaque]
pub open spec fn lower_init<'a>(nest: Nest<'a>, st: State<'a>, b: &'a Block) -> Result<((), State<'a>), Failure<'a>>
{
    let (k, st) = init_function(st);
    let st = enter(st, k, false, None);
    match (nest.run_block)(st, b) {
        Ok((x, st)) => {
            let st = if !state::done(st) {
                return_zero(st, None)
            } else {
                st
            };
            let st = leave(st);
            Ok(((), st))
        },
        Err(e) => Err(e),
    }
}

/// A declaration without its attributes.
#[verifier::opaque]
pub open spec fn item_itself<'a>(it: &'a Item) -> &'a Item
{
    match *it {
        Item::Attributed { attrs: _, item } => {
            &*item
        },
        _ => {
            it
        },
    }
}

/// Declares what stands outside functions.
#[verifier::opaque]
pub open spec fn declare_item<'a>(nest: Nest<'a>, st: State<'a>, it: &'a Item) -> Result<((), State<'a>), Failure<'a>>
{
    match *it {
        Item::Struct(s) => {
            match declare::declare_struct(nest, st, &s) {
                Ok((_, st)) => {
                    Ok(((), st))
                },
                Err(e) => Err(e),
            }
        },
        Item::Class(c) => {
            match declare::declare_class(nest, st, &c) {
                Ok((_, st)) => {
                    Ok(((), st))
                },
                Err(e) => Err(e),
            }
        },
        Item::Enum(e) => {
            match declare::declare_enum(st, &e) {
                Ok((_, st)) => {
                    Ok(((), st))
                },
                Err(e) => Err(e),
            }
        },
        Item::Typedef(d) => {
            match declare::declare_alias(nest, st, &d) {
                Ok((_, st)) => {
                    Ok(((), st))
                },
                Err(e) => Err(e),
            }
        },
        Item::Distinct(d) => {
            match declare::declare_distinct(nest, st, &d) {
                Ok((_, st)) => {
                    Ok(((), st))
                },
                Err(e) => Err(e),
            }
        },
        Item::Extension(x) => {
            match declare::declare_extension(nest, st, &x) {
                Ok((_, st)) => {
                    Ok(((), st))
                },
                Err(e) => Err(e),
            }
        },
        Item::Extern(x) => {
            match declare::foreign_members(nest, st, &x.members, 0) {
                Ok((_, st)) => {
                    Ok(((), st))
                },
                Err(e) => Err(e),
            }
        },
        Item::Const(c) => {
            match globals::declare_const(nest, st, &c) {
                Ok((_, st)) => {
                    Ok(((), st))
                },
                Err(e) => Err(e),
            }
        },
        Item::Var(v) => {
            match globals::declare_global(nest, st, &v) {
                Ok((_, st)) => {
                    Ok(((), st))
                },
                Err(e) => Err(e),
            }
        },
        _ => {
            Ok(((), st))
        },
    }
}

/// Declares the types, globals and members of a program from item `i` on.
#[verifier::opaque]
pub open spec fn declare_items<'a>(nest: Nest<'a>, st: State<'a>, its: &'a Vec<Item>, i: usize) -> Result<((), State<'a>), Failure<'a>>
    decreases its.len() - i,
{
    if i >= its.len() {
        Ok(((), st))
    } else {
        match declare_item(nest, st, item_itself(&its@[i as int])) {
            Ok((_, st)) => {
                declare_items(nest, st, its, (i + 1) as usize)
            },
            Err(e) => Err(e),
        }
    }
}

/// Declares a function.
#[verifier::opaque]
pub open spec fn declare_if_function<'a>(nest: Nest<'a>, st: State<'a>, it: &'a Item) -> Result<((), State<'a>), Failure<'a>>
{
    match *it {
        Item::Function(f) => {
            match declare::declare_function(nest, st, &f) {
                Ok((_, st)) => {
                    Ok(((), st))
                },
                Err(e) => Err(e),
            }
        },
        _ => {
            Ok(((), st))
        },
    }
}

/// Declares the functions of a program from item `i` on.
#[verifier::opaque]
pub open spec fn declare_functions<'a>(nest: Nest<'a>, st: State<'a>, its: &'a Vec<Item>, i: usize) -> Result<((), State<'a>), Failure<'a>>
    decreases its.len() - i,
{
    if i >= its.len() {
        Ok(((), st))
    } else {
        match declare_if_function(nest, st, item_itself(&its@[i as int])) {
            Ok((_, st)) => {
                declare_functions(nest, st, its, (i + 1) as usize)
            },
            Err(e) => Err(e),
        }
    }
}

/// The bodies of an item.
#[verifier::opaque]
pub open spec fn lower_item<'a>(nest: Nest<'a>, st: State<'a>, it: &'a Item) -> Result<((), State<'a>), Failure<'a>>
{
    match *it {
        Item::Function(f) => {
            match lower_function(nest, st, &f) {
                Ok((_, st)) => {
                    Ok(((), st))
                },
                Err(e) => Err(e),
            }
        },
        Item::Class(c) => {
            match lower_class(nest, st, &c) {
                Ok((_, st)) => {
                    Ok(((), st))
                },
                Err(e) => Err(e),
            }
        },
        Item::Extension(x) => {
            match lower_extension(nest, st, &x) {
                Ok((_, st)) => {
                    Ok(((), st))
                },
                Err(e) => Err(e),
            }
        },
        Item::Init(b) => {
            match lower_init(nest, st, &b) {
                Ok((_, st)) => {
                    Ok(((), st))
                },
                Err(e) => Err(e),
            }
        },
        _ => {
            Ok(((), st))
        },
    }
}

/// The bodies of a program from item `i` on.
#[verifier::opaque]
pub open spec fn lower_items<'a>(nest: Nest<'a>, st: State<'a>, its: &'a Vec<Item>, i: usize) -> Result<((), State<'a>), Failure<'a>>
    decreases its.len() - i,
{
    if i >= its.len() {
        Ok(((), st))
    } else {
        match lower_item(nest, st, item_itself(&its@[i as int])) {
            Ok((_, st)) => {
                lower_items(nest, st, its, (i + 1) as usize)
            },
            Err(e) => Err(e),
        }
    }
}

/// A program: its types, globals and members, its functions, and then the bodies. Every block has to come to an end.
#[verifier::opaque]
pub open spec fn lower_program<'a>(nest: Nest<'a>, st: State<'a>, p: &'a Program) -> Result<((), State<'a>), Failure<'a>>
{
    match declare_items(nest, st, &p.items, 0) {
        Ok((_, st)) => {
            match declare_functions(nest, st, &p.items, 0) {
                Ok((_, st)) => {
                    match lower_items(nest, st, &p.items, 0) {
                        Ok((_, st)) => {
                            if state::all_sound(st) {
                                Ok(((), st))
                            } else {
                                Err(Failure { trouble: Trouble { message: "LLVM verify failed: a block has no last step"@, span: p.span }, after: st })
                            }
                        },
                        Err(e) => Err(e),
                    }
                },
                Err(e) => Err(e),
            }
        },
        Err(e) => Err(e),
    }
}

impl<'a> Codegen<'a> {
    /// Starts the body of a function.
    pub fn enter(&mut self, f: usize, main: bool, class: Option<usize>)
        ensures
            final(self)@ == enter(old(self)@, f, main, class),
    {
        reveal(enter);
        self.set_function(Some(f), main, class);
        let entry = self.block(Label::Entry);
        self.at(entry);
        self.open_scope();
    }

    /// Ends the body of a function.
    pub fn leave(&mut self)
        ensures
            final(self)@ == leave(old(self)@),
    {
        reveal(leave);
        self.close_scope();
        self.set_function(None, false, None);
    }

    /// Gives the object of a method a place in memory.
    pub fn bind_this(&mut self)
        ensures
            final(self)@ == bind_this(old(self)@),
    {
        reveal(bind_this);
        let p = self.slot(PTR);
        self.store(p.val, Operand { val: Val::Arg(0), ty: PTR });
        self.bind("this", p);
    }

    /// Gives parameter `k` of the function a place in memory.
    pub fn bind_param(&mut self, q: &'a Param, k: usize, t: usize)
        ensures
            final(self)@ == bind_param(old(self)@, q, k, t),
    {
        reveal(bind_param);
        let p = self.slot(t);
        self.store(p.val, Operand { val: Val::Arg(k), ty: t });
        self.bind(q.name.as_str(), p);
        self.note_kind(q.name.as_str(), &q.ty);
    }

    /// Gives the parameters of a method from `i` on a place in memory, each as a value of its own.
    pub fn bind_plain(&mut self, depth: usize, ps: &'a Vec<Param>, i: usize) -> (out: Result<(), CodegenError>)
        ensures
            match out {
                Ok(made) => bind_plain(nest::nest(depth as nat), old(self)@, ps, i) == Ok::<((), State<'a>), Failure<'a>>((made, final(self)@)),
                Err(trouble) => bind_plain(nest::nest(depth as nat), old(self)@, ps, i) == Err::<((), State<'a>), Failure<'a>>(Failure { trouble: trouble@, after: final(self)@ }),
            },
        decreases depth, 4int, ps.len() - i,
    {
        reveal(bind_plain);
        if i >= ps.len() {
            return Ok(());
        }
        let q = &ps[i];
        let t = match self.nested_ty(depth, &q.ty) {
            Ok(v) => v,
            Err(e) => {
                return Err(e);
            },
        };
        self.bind_param(q, self.more(i), t);
        if let Err(e) = self.bind_plain(depth, ps, i + 1) {
            return Err(e);
        }
        Ok(())
    }

    /// Gives the parameters of a method or constructor from `i` on a place in memory.
    pub fn bind_params(&mut self, depth: usize, ps: &'a Vec<Param>, i: usize, structs: bool) -> (out: Result<(), CodegenError>)
        ensures
            match out {
                Ok(made) => bind_params(nest::nest(depth as nat), old(self)@, ps, i, structs) == Ok::<((), State<'a>), Failure<'a>>((made, final(self)@)),
                Err(trouble) => bind_params(nest::nest(depth as nat), old(self)@, ps, i, structs) == Err::<((), State<'a>), Failure<'a>>(Failure { trouble: trouble@, after: final(self)@ }),
            },
        decreases depth, 4int, ps.len() - i,
    {
        reveal(bind_params);
        if i >= ps.len() {
            return Ok(());
        }
        let q = &ps[i];
        if q.is_variadic {
            let e = match self.variadic_elem(depth, ps, i) {
                Ok(v) => v,
                Err(e) => {
                    return Err(e);
                },
            };
            let t = self.gathered(e, structs);
            self.bind_param(q, self.more(i), t);
            if let Err(e) = self.bind_params(depth, ps, i + 1, structs) {
                return Err(e);
            }
            return Ok(());
        }
        let t = match self.nested_ty(depth, &q.ty) {
            Ok(v) => v,
            Err(e) => {
                return Err(e);
            },
        };
        self.bind_param(q, self.more(i), t);
        if let Err(e) = self.bind_params(depth, ps, i + 1, structs) {
            return Err(e);
        }
        Ok(())
    }

    /// Makes parameter `i` of a function a variable: the caller's own, or one in memory.
    pub fn bind_arg(&mut self, depth: usize, ps: &'a Vec<Param>, i: usize) -> (out: Result<(), CodegenError>)
        ensures
            match out {
                Ok(made) => bind_arg(nest::nest(depth as nat), old(self)@, ps, i) == Ok::<((), State<'a>), Failure<'a>>((made, final(self)@)),
                Err(trouble) => bind_arg(nest::nest(depth as nat), old(self)@, ps, i) == Err::<((), State<'a>), Failure<'a>>(Failure { trouble: trouble@, after: final(self)@ }),
            },
        decreases depth, 4int, 0int,
    {
        reveal(bind_arg);
        if i < ps.len() {
            let q = &ps[i];
            if q.mode != ParamMode::Plain {
                let t = match self.nested_ty(depth, &q.ty) {
                    Ok(v) => v,
                    Err(e) => {
                        return Err(e);
                    },
                };
                self.bind(q.name.as_str(), Operand { val: Val::Arg(i), ty: t });
                return Ok(());
            }
            if q.is_variadic {
                let e = match self.variadic_elem(depth, ps, i) {
                    Ok(v) => v,
                    Err(e) => {
                        return Err(e);
                    },
                };
                let t = self.gathered(e, false);
                let p = self.slot(t);
                self.store(p.val, Operand { val: Val::Arg(i), ty: t });
                self.bind(q.name.as_str(), p);
                return Ok(());
            }
            let t = match self.nested_ty(depth, &q.ty) {
                Ok(v) => v,
                Err(e) => {
                    return Err(e);
                },
            };
            self.bind_param(q, i, t);
            return Ok(());
        }
        Ok(())
    }

    /// Makes the parameters of a function from `i` on variables.
    pub fn bind_args(&mut self, depth: usize, ps: &'a Vec<Param>, i: usize) -> (out: Result<(), CodegenError>)
        ensures
            match out {
                Ok(made) => bind_args(nest::nest(depth as nat), old(self)@, ps, i) == Ok::<((), State<'a>), Failure<'a>>((made, final(self)@)),
                Err(trouble) => bind_args(nest::nest(depth as nat), old(self)@, ps, i) == Err::<((), State<'a>), Failure<'a>>(Failure { trouble: trouble@, after: final(self)@ }),
            },
        decreases depth, 5int, ps.len() - i,
    {
        reveal(bind_args);
        if i >= ps.len() {
            return Ok(());
        }
        if let Err(e) = self.bind_arg(depth, ps, i) {
            return Err(e);
        }
        if let Err(e) = self.bind_args(depth, ps, i + 1) {
            return Err(e);
        }
        Ok(())
    }

    /// Makes the arguments of the program an empty list of strings.
    pub fn bind_main_args(&mut self)
        ensures
            final(self)@ == bind_main_args(old(self)@),
    {
        reveal(bind_main_args);
        let t = self.array_of(PTR, 16);
        let p = self.slot(t);
        self.store(p.val, Operand { val: Val::Zero, ty: t });
        self.bind("args", p);
    }

    /// Makes the parameters of a function variables.
    pub fn bind_function_args(&mut self, depth: usize, f: &'a Function) -> (out: Result<(), CodegenError>)
        ensures
            match out {
                Ok(made) => bind_function_args(nest::nest(depth as nat), old(self)@, f) == Ok::<((), State<'a>), Failure<'a>>((made, final(self)@)),
                Err(trouble) => bind_function_args(nest::nest(depth as nat), old(self)@, f) == Err::<((), State<'a>), Failure<'a>>(Failure { trouble: trouble@, after: final(self)@ }),
            },
        decreases depth, 6int, 0int,
    {
        reveal(bind_function_args);
        if self.takes_args(f) {
            self.bind_main_args();
            return Ok(());
        }
        if let Err(e) = self.bind_args(depth, &f.params, 0) {
            return Err(e);
        }
        Ok(())
    }

    /// Returns zero, or nothing.
    pub fn return_zero(&mut self, r: Option<usize>)
        ensures
            final(self)@ == return_zero(old(self)@, r),
    {
        reveal(return_zero);
        match r {
            Some(t) => {
                self.finish(Op::Return(Operand { val: Val::Zero, ty: t }));
                return;
            },
            _ => {},
        }
        self.finish(Op::ReturnVoid);
    }

    /// The body of a function. Where its end is reached it returns zero.
    pub fn lower_function(&mut self, depth: usize, f: &'a Function) -> (out: Result<(), CodegenError>)
        ensures
            match out {
                Ok(made) => lower_function(nest::nest(depth as nat), old(self)@, f) == Ok::<((), State<'a>), Failure<'a>>((made, final(self)@)),
                Err(trouble) => lower_function(nest::nest(depth as nat), old(self)@, f) == Err::<((), State<'a>), Failure<'a>>(Failure { trouble: trouble@, after: final(self)@ }),
            },
        decreases depth, 7int, 0int,
    {
        reveal(lower_function);
        match self.function(f.name.as_str()) {
            Some(k) => {
                let info = self.func_info(k);
                self.enter(k, text::same_str(f.name.as_str(), "main"), None);
                if let Err(e) = self.bind_function_args(depth, f) {
                    return Err(e);
                }
                let always = match self.nested_run_block(depth, &f.body) {
                    Ok(v) => v,
                    Err(e) => {
                        return Err(e);
                    },
                };
                if !always && !self.done() {
                    self.return_zero(info.ret);
                }
                self.leave();
                if self.is_sound(k) {
                    return Ok(());
                }
                return Err(fault_naming("function ", f.name.as_str(), " failed verification", f.span));
            },
            _ => {},
        }
        Err(fault_naming("undeclared func ", f.name.as_str(), "", f.name_span))
    }

    /// The body of a method.
    pub fn lower_method(&mut self, depth: usize, c: &str, l: usize, f: &'a Function) -> (out: Result<(), CodegenError>)
        ensures
            match out {
                Ok(made) => lower_method(nest::nest(depth as nat), old(self)@, c@, l, f) == Ok::<((), State<'a>), Failure<'a>>((made, final(self)@)),
                Err(trouble) => lower_method(nest::nest(depth as nat), old(self)@, c@, l, f) == Err::<((), State<'a>), Failure<'a>>(Failure { trouble: trouble@, after: final(self)@ }),
            },
        decreases depth, 5int, 0int,
    {
        reveal(lower_method);
        match self.member_entry(f.name.as_str(), l, MemberKind::Method) {
            Some(m) => {
                let info = self.member_info(m);
                let sig = self.func_info(info.func);
                self.enter(info.func, false, Some(l));
                self.bind_this();
                if let Err(e) = self.bind_params(depth, &f.params, 0, true) {
                    return Err(e);
                }
                let always = match self.nested_run_block(depth, &f.body) {
                    Ok(v) => v,
                    Err(e) => {
                        return Err(e);
                    },
                };
                if !always && !self.done() {
                    self.return_zero(sig.ret);
                }
                self.leave();
                if self.is_sound(info.func) {
                    return Ok(());
                }
                return Err(fault_naming_two("method ", c, "::", f.name.as_str(), " failed verification", f.span));
            },
            _ => {},
        }
        Err(fault_naming("unknown method ", f.name.as_str(), "", f.name_span))
    }

    /// The bodies of the methods of a class from `i` on.
    pub fn lower_methods(&mut self, depth: usize, c: &str, l: usize, fs: &'a Vec<Function>, i: usize) -> (out: Result<(), CodegenError>)
        ensures
            match out {
                Ok(made) => lower_methods(nest::nest(depth as nat), old(self)@, c@, l, fs, i) == Ok::<((), State<'a>), Failure<'a>>((made, final(self)@)),
                Err(trouble) => lower_methods(nest::nest(depth as nat), old(self)@, c@, l, fs, i) == Err::<((), State<'a>), Failure<'a>>(Failure { trouble: trouble@, after: final(self)@ }),
            },
        decreases depth, 6int, fs.len() - i,
    {
        reveal(lower_methods);
        if i >= fs.len() {
            return Ok(());
        }
        if let Err(e) = self.lower_method(depth, c, l, &fs[i]) {
            return Err(e);
        }
        if let Err(e) = self.lower_methods(depth, c, l, fs, i + 1) {
            return Err(e);
        }
        Ok(())
    }

    /// Stores the parameter of a constructor that has the name of a field in it.
    pub fn init_field(&mut self, l: usize, n: &str)
        ensures
            final(self)@ == init_field(old(self)@, l, n@),
    {
        reveal(init_field);
        match self.field_entry(n, l) {
            Some(k) => {
                let info = self.field_info(k);
                match self.lookup_var("this") {
                    Some(this) => {
                        match self.lookup_var(n) {
                            Some(v) => {
                                let p = self.load(this);
                                let t = self.class_ty(l);
                                let q = self.field_at(t, p.val, info.index);
                                let x = self.load(v);
                                self.store(q, x);
                                return;
                            },
                            _ => {},
                        }
                        return;
                    },
                    _ => {},
                }
                return;
            },
            _ => {},
        }
        return;
    }

    /// Stores the parameters of a constructor from `i` on that have the names of fields in them.
    pub fn init_fields(&mut self, l: usize, ps: &'a Vec<Param>, i: usize)
        ensures
            final(self)@ == init_fields(old(self)@, l, ps, i),
        decreases ps.len() - i,
    {
        reveal(init_fields);
        if i >= ps.len() {
            return;
        }
        let q = &ps[i];
        self.init_field(l, q.name.as_str());
        self.init_fields(l, ps, i + 1);
    }

    /// A body, where there is one.
    pub fn body_of(&mut self, depth: usize, b: &'a Option<Block>) -> (out: Result<(), CodegenError>)
        ensures
            match out {
                Ok(made) => body_of(nest::nest(depth as nat), old(self)@, b) == Ok::<((), State<'a>), Failure<'a>>((made, final(self)@)),
                Err(trouble) => body_of(nest::nest(depth as nat), old(self)@, b) == Err::<((), State<'a>), Failure<'a>>(Failure { trouble: trouble@, after: final(self)@ }),
            },
        decreases depth, 1int, 0int,
    {
        reveal(body_of);
        match b {
            Some(x) => {
                let y = match self.nested_run_block(depth, x) {
                    Ok(v) => v,
                    Err(e) => {
                        return Err(e);
                    },
                };
                return Ok(());
            },
            _ => {},
        }
        Ok(())
    }

    /// The body of a constructor: the fields that its parameters set, and its statements.
    pub fn lower_ctor(&mut self, depth: usize, c: &str, l: usize, d: &'a ConstructorDecl, name: &str) -> (out: Result<(), CodegenError>)
        ensures
            match out {
                Ok(made) => lower_ctor(nest::nest(depth as nat), old(self)@, c@, l, d, name@) == Ok::<((), State<'a>), Failure<'a>>((made, final(self)@)),
                Err(trouble) => lower_ctor(nest::nest(depth as nat), old(self)@, c@, l, d, name@) == Err::<((), State<'a>), Failure<'a>>(Failure { trouble: trouble@, after: final(self)@ }),
            },
        decreases depth, 5int, 0int,
    {
        reveal(lower_ctor);
        match self.function(name) {
            Some(k) => {
                self.enter(k, false, Some(l));
                self.bind_this();
                if let Err(e) = self.bind_params(depth, &d.params, 0, false) {
                    return Err(e);
                }
                self.init_fields(l, &d.params, 0);
                if let Err(e) = self.body_of(depth, &d.body) {
                    return Err(e);
                }
                if !self.done() {
                    self.return_zero(None);
                }
                self.leave();
                if self.is_sound(k) {
                    return Ok(());
                }
                return Err(fault_naming("ctor ", c, " failed verify", d.span));
            },
            _ => {},
        }
        Err(fault_naming("ctor not declared ", name, "", d.span))
    }

    /// The bodies of the constructors of a class from `i` on.
    pub fn lower_ctors(&mut self, depth: usize, c: &str, l: usize, cs: &'a Vec<ConstructorDecl>, i: usize) -> (out: Result<(), CodegenError>)
        ensures
            match out {
                Ok(made) => lower_ctors(nest::nest(depth as nat), old(self)@, c@, l, cs, i) == Ok::<((), State<'a>), Failure<'a>>((made, final(self)@)),
                Err(trouble) => lower_ctors(nest::nest(depth as nat), old(self)@, c@, l, cs, i) == Err::<((), State<'a>), Failure<'a>>(Failure { trouble: trouble@, after: final(self)@ }),
            },
        decreases depth, 6int, cs.len() - i,
    {
        reveal(lower_ctors);
        if i >= cs.len() {
            return Ok(());
        }
        let name_text = number3(c, "__ctor", cs.len() > 1, i);
        let name = name_text.as_str();
        if let Err(e) = self.lower_ctor(depth, c, l, &cs[i], name) {
            return Err(e);
        }
        if let Err(e) = self.lower_ctors(depth, c, l, cs, i + 1) {
            return Err(e);
        }
        Ok(())
    }

    /// The body of a destructor.
    pub fn lower_dtor(&mut self, depth: usize, c: &str, l: usize, d: &'a DestructorDecl, name: &str) -> (out: Result<(), CodegenError>)
        ensures
            match out {
                Ok(made) => lower_dtor(nest::nest(depth as nat), old(self)@, c@, l, d, name@) == Ok::<((), State<'a>), Failure<'a>>((made, final(self)@)),
                Err(trouble) => lower_dtor(nest::nest(depth as nat), old(self)@, c@, l, d, name@) == Err::<((), State<'a>), Failure<'a>>(Failure { trouble: trouble@, after: final(self)@ }),
            },
        decreases depth, 3int, 0int,
    {
        reveal(lower_dtor);
        match self.function(name) {
            Some(k) => {
                self.enter(k, false, Some(l));
                self.bind_this();
                let x = match self.nested_run_block(depth, &d.body) {
                    Ok(v) => v,
                    Err(e) => {
                        return Err(e);
                    },
                };
                if !self.done() {
                    self.return_zero(None);
                }
                self.leave();
                if self.is_sound(k) {
                    return Ok(());
                }
                return Err(fault_naming("dtor ", c, " failed verify", d.span));
            },
            _ => {},
        }
        Err(fault_naming("dtor not declared ", name, "", d.span))
    }

    /// The bodies of the destructors of a class from `i` on.
    pub fn lower_dtors(&mut self, depth: usize, c: &str, l: usize, ds: &'a Vec<DestructorDecl>, i: usize) -> (out: Result<(), CodegenError>)
        ensures
            match out {
                Ok(made) => lower_dtors(nest::nest(depth as nat), old(self)@, c@, l, ds, i) == Ok::<((), State<'a>), Failure<'a>>((made, final(self)@)),
                Err(trouble) => lower_dtors(nest::nest(depth as nat), old(self)@, c@, l, ds, i) == Err::<((), State<'a>), Failure<'a>>(Failure { trouble: trouble@, after: final(self)@ }),
            },
        decreases depth, 4int, ds.len() - i,
    {
        reveal(lower_dtors);
        if i >= ds.len() {
            return Ok(());
        }
        let name_text = number3(c, "__dtor", ds.len() > 1, i);
        let name = name_text.as_str();
        if let Err(e) = self.lower_dtor(depth, c, l, &ds[i], name) {
            return Err(e);
        }
        if let Err(e) = self.lower_dtors(depth, c, l, ds, i + 1) {
            return Err(e);
        }
        Ok(())
    }

    /// Whether a written type is `bool`.
    pub fn is_bool_ty(&self, t: &'a Type) -> (out: bool)
        ensures
            out == is_bool_ty(t),
    {
        reveal(is_bool_ty);
        match t {
            Type::Bool => {
                return true;
            },
            _ => {},
        }
        false
    }

    /// What a getter returns where its end is reached: an integer; in an extension, for a truth value one bit; nothing where the property has no written type.
    pub fn getter_end(&mut self, t: &'a Option<Type>, ext: bool)
        ensures
            final(self)@ == getter_end(old(self)@, t, ext),
    {
        reveal(getter_end);
        match t {
            Some(x) => {
                if ext && self.is_bool_ty(x) {
                    self.finish(Op::Return(Operand { val: Val::Int(0), ty: I1 }));
                    return;
                }
                self.finish(Op::Return(Operand { val: Val::Int(0), ty: I64 }));
                return;
            },
            _ => {},
        }
        self.finish(Op::ReturnVoid);
    }

    /// The body of a getter.
    pub fn lower_getter(&mut self, depth: usize, name: &str, l: Option<usize>, p: &'a PropertyDecl, b: &'a Block, ext: bool) -> (out: Result<(), CodegenError>)
        ensures
            match out {
                Ok(made) => lower_getter(nest::nest(depth as nat), old(self)@, name@, l, p, b, ext) == Ok::<((), State<'a>), Failure<'a>>((made, final(self)@)),
                Err(trouble) => lower_getter(nest::nest(depth as nat), old(self)@, name@, l, p, b, ext) == Err::<((), State<'a>), Failure<'a>>(Failure { trouble: trouble@, after: final(self)@ }),
            },
        decreases depth, 3int, 0int,
    {
        reveal(lower_getter);
        match self.function(name) {
            Some(k) => {
                self.enter(k, false, l);
                self.bind_this();
                let always = match self.nested_run_block(depth, b) {
                    Ok(v) => v,
                    Err(e) => {
                        return Err(e);
                    },
                };
                if (ext || !always) && !self.done() {
                    self.getter_end(&p.ty, ext);
                }
                self.leave();
                if self.is_sound(k) {
                    return Ok(());
                }
                if ext {
                    return Err(fault_naming("extension getter ", name, " failed verify", p.span));
                }
                return Err(fault_naming("getter ", name, " failed verify", p.span));
            },
            _ => {},
        }
        if ext {
            return Err(fault_naming("extension getter not declared ", name, "", p.span));
        }
        Err(fault_naming("getter not declared ", name, "", p.span))
    }

    /// The body of a setter.
    pub fn lower_setter(&mut self, depth: usize, name: &str, l: Option<usize>, p: &'a PropertyDecl, s: &'a Setter, ext: bool) -> (out: Result<(), CodegenError>)
        ensures
            match out {
                Ok(made) => lower_setter(nest::nest(depth as nat), old(self)@, name@, l, p, s, ext) == Ok::<((), State<'a>), Failure<'a>>((made, final(self)@)),
                Err(trouble) => lower_setter(nest::nest(depth as nat), old(self)@, name@, l, p, s, ext) == Err::<((), State<'a>), Failure<'a>>(Failure { trouble: trouble@, after: final(self)@ }),
            },
        decreases depth, 4int, 0int,
    {
        reveal(lower_setter);
        match self.function(name) {
            Some(k) => {
                self.enter(k, false, l);
                self.bind_this();
                let t = match self.nested_ty(depth, &s.param.ty) {
                    Ok(v) => v,
                    Err(e) => {
                        return Err(e);
                    },
                };
                self.bind_param(&s.param, 1, t);
                let x = match self.nested_run_block(depth, &s.body) {
                    Ok(v) => v,
                    Err(e) => {
                        return Err(e);
                    },
                };
                if !self.done() {
                    self.return_zero(None);
                }
                self.leave();
                if self.is_sound(k) {
                    return Ok(());
                }
                if ext {
                    return Err(fault_naming("extension setter ", name, " failed verify", p.span));
                }
                return Err(fault_naming("setter ", name, " failed verify", p.span));
            },
            _ => {},
        }
        if ext {
            return Err(fault_naming("extension setter not declared ", name, "", p.span));
        }
        Err(fault_naming("setter not declared ", name, "", p.span))
    }

    /// The body of the getter of a property, where it has one.
    pub fn lower_get(&mut self, depth: usize, c: &str, l: Option<usize>, p: &'a PropertyDecl, ext: bool) -> (out: Result<(), CodegenError>)
        ensures
            match out {
                Ok(made) => lower_get(nest::nest(depth as nat), old(self)@, c@, l, p, ext) == Ok::<((), State<'a>), Failure<'a>>((made, final(self)@)),
                Err(trouble) => lower_get(nest::nest(depth as nat), old(self)@, c@, l, p, ext) == Err::<((), State<'a>), Failure<'a>>(Failure { trouble: trouble@, after: final(self)@ }),
            },
        decreases depth, 4int, 0int,
    {
        reveal(lower_get);
        match &p.getter {
            Some(b) => {
                let name_text = join3(c, "__get_", p.name.as_str());
                let name = name_text.as_str();
                if let Err(e) = self.lower_getter(depth, name, l, p, b, ext) {
                    return Err(e);
                }
                return Ok(());
            },
            _ => {},
        }
        Ok(())
    }

    /// The body of the setter of a property, where it has one.
    pub fn lower_set(&mut self, depth: usize, c: &str, l: Option<usize>, p: &'a PropertyDecl, ext: bool) -> (out: Result<(), CodegenError>)
        ensures
            match out {
                Ok(made) => lower_set(nest::nest(depth as nat), old(self)@, c@, l, p, ext) == Ok::<((), State<'a>), Failure<'a>>((made, final(self)@)),
                Err(trouble) => lower_set(nest::nest(depth as nat), old(self)@, c@, l, p, ext) == Err::<((), State<'a>), Failure<'a>>(Failure { trouble: trouble@, after: final(self)@ }),
            },
        decreases depth, 5int, 0int,
    {
        reveal(lower_set);
        match &p.setter {
            Some(s) => {
                let name_text = join3(c, "__set_", p.name.as_str());
                let name = name_text.as_str();
                if let Err(e) = self.lower_setter(depth, name, l, p, s, ext) {
                    return Err(e);
                }
                return Ok(());
            },
            _ => {},
        }
        Ok(())
    }

    /// The bodies of the accessors of a property.
    pub fn lower_property(&mut self, depth: usize, c: &str, l: Option<usize>, p: &'a PropertyDecl, ext: bool) -> (out: Result<(), CodegenError>)
        ensures
            match out {
                Ok(made) => lower_property(nest::nest(depth as nat), old(self)@, c@, l, p, ext) == Ok::<((), State<'a>), Failure<'a>>((made, final(self)@)),
                Err(trouble) => lower_property(nest::nest(depth as nat), old(self)@, c@, l, p, ext) == Err::<((), State<'a>), Failure<'a>>(Failure { trouble: trouble@, after: final(self)@ }),
            },
        decreases depth, 6int, 0int,
    {
        reveal(lower_property);
        if let Err(e) = self.lower_get(depth, c, l, p, ext) {
            return Err(e);
        }
        if let Err(e) = self.lower_set(depth, c, l, p, ext) {
            return Err(e);
        }
        Ok(())
    }

    /// The bodies of the accessors of a class from property `i` on.
    pub fn lower_properties(&mut self, depth: usize, c: &str, l: usize, ps: &'a Vec<PropertyDecl>, i: usize) -> (out: Result<(), CodegenError>)
        ensures
            match out {
                Ok(made) => lower_properties(nest::nest(depth as nat), old(self)@, c@, l, ps, i) == Ok::<((), State<'a>), Failure<'a>>((made, final(self)@)),
                Err(trouble) => lower_properties(nest::nest(depth as nat), old(self)@, c@, l, ps, i) == Err::<((), State<'a>), Failure<'a>>(Failure { trouble: trouble@, after: final(self)@ }),
            },
        decreases depth, 7int, ps.len() - i,
    {
        reveal(lower_properties);
        if i >= ps.len() {
            return Ok(());
        }
        if let Err(e) = self.lower_property(depth, c, Some(l), &ps[i], false) {
            return Err(e);
        }
        if let Err(e) = self.lower_properties(depth, c, l, ps, i + 1) {
            return Err(e);
        }
        Ok(())
    }

    /// The body of an operator. Where its end is reached it returns zero.
    pub fn operator_body(&mut self, depth: usize, k: usize, l: Option<usize>, o: &'a OperatorDecl) -> (out: Result<(), CodegenError>)
        ensures
            match out {
                Ok(made) => operator_body(nest::nest(depth as nat), old(self)@, k, l, o) == Ok::<((), State<'a>), Failure<'a>>((made, final(self)@)),
                Err(trouble) => operator_body(nest::nest(depth as nat), old(self)@, k, l, o) == Err::<((), State<'a>), Failure<'a>>(Failure { trouble: trouble@, after: final(self)@ }),
            },
        decreases depth, 5int, 0int,
    {
        reveal(operator_body);
        self.enter(k, false, l);
        self.bind_this();
        if let Err(e) = self.bind_plain(depth, &o.params, 0) {
            return Err(e);
        }
        let x = match self.nested_run_block(depth, &o.body) {
            Ok(v) => v,
            Err(e) => {
                return Err(e);
            },
        };
        if !self.done() {
            self.return_zero(Some(I64));
        }
        self.leave();
        Ok(())
    }

    /// The body of an operator of a class.
    pub fn lower_operator(&mut self, depth: usize, c: &str, l: usize, o: &'a OperatorDecl) -> (out: Result<(), CodegenError>)
        ensures
            match out {
                Ok(made) => lower_operator(nest::nest(depth as nat), old(self)@, c@, l, o) == Ok::<((), State<'a>), Failure<'a>>((made, final(self)@)),
                Err(trouble) => lower_operator(nest::nest(depth as nat), old(self)@, c@, l, o) == Err::<((), State<'a>), Failure<'a>>(Failure { trouble: trouble@, after: final(self)@ }),
            },
        decreases depth, 6int, 0int,
    {
        reveal(lower_operator);
        match self.member_entry(o.op.as_str(), l, MemberKind::Operator) {
            Some(m) => {
                let info = self.member_info(m);
                if let Err(e) = self.operator_body(depth, info.func, Some(l), o) {
                    return Err(e);
                }
                if self.is_sound(info.func) {
                    return Ok(());
                }
                return Err(fault_naming("operator ", o.op.as_str(), " failed verify", o.span));
            },
            _ => {},
        }
        Err(fault_naming("operator not declared for ", c, "", o.span))
    }

    /// The bodies of the operators of a class from `i` on.
    pub fn lower_operators(&mut self, depth: usize, c: &str, l: usize, os: &'a Vec<OperatorDecl>, i: usize) -> (out: Result<(), CodegenError>)
        ensures
            match out {
                Ok(made) => lower_operators(nest::nest(depth as nat), old(self)@, c@, l, os, i) == Ok::<((), State<'a>), Failure<'a>>((made, final(self)@)),
                Err(trouble) => lower_operators(nest::nest(depth as nat), old(self)@, c@, l, os, i) == Err::<((), State<'a>), Failure<'a>>(Failure { trouble: trouble@, after: final(self)@ }),
            },
        decreases depth, 7int, os.len() - i,
    {
        reveal(lower_operators);
        if i >= os.len() {
            return Ok(());
        }
        if let Err(e) = self.lower_operator(depth, c, l, &os[i]) {
            return Err(e);
        }
        if let Err(e) = self.lower_operators(depth, c, l, os, i + 1) {
            return Err(e);
        }
        Ok(())
    }

    /// The function of a conversion, declared where it is not yet.
    pub fn conversion_function(&mut self, name: &str) -> (out: usize)
        ensures
            (out, final(self)@) == conversion_function(old(self)@, name@),
    {
        reveal(conversion_function);
        match self.function(name) {
            Some(k) => {
                return k;
            },
            _ => {},
        }
        let k = self.add_plain_method(name, Some(I64));
        k
    }

    /// The body of a conversion. Where its end is reached it returns zero.
    pub fn lower_conversion(&mut self, depth: usize, c: &str, l: Option<usize>, d: &'a ConversionDecl) -> (out: Result<(), CodegenError>)
        ensures
            match out {
                Ok(made) => lower_conversion(nest::nest(depth as nat), old(self)@, c@, l, d) == Ok::<((), State<'a>), Failure<'a>>((made, final(self)@)),
                Err(trouble) => lower_conversion(nest::nest(depth as nat), old(self)@, c@, l, d) == Err::<((), State<'a>), Failure<'a>>(Failure { trouble: trouble@, after: final(self)@ }),
            },
        decreases depth, 3int, 0int,
    {
        reveal(lower_conversion);
        let a_text = type_word_of(&d.from_ty);
        let a = a_text.as_str();
        let b_text = type_word_of(&d.to_ty);
        let b = b_text.as_str();
        let from_text = join3(c, "__conv_", a);
        let from = from_text.as_str();
        let name_text = join3(from, "_to_", b);
        let name = name_text.as_str();
        let k = self.conversion_function(name);
        self.enter(k, false, l);
        self.bind_this();
        let x = match self.nested_run_block(depth, &d.body) {
            Ok(v) => v,
            Err(e) => {
                return Err(e);
            },
        };
        if !self.done() {
            self.return_zero(Some(I64));
        }
        self.leave();
        Ok(())
    }

    /// The bodies of the conversions of a class from `i` on.
    pub fn lower_conversions(&mut self, depth: usize, c: &str, l: usize, ds: &'a Vec<ConversionDecl>, i: usize) -> (out: Result<(), CodegenError>)
        ensures
            match out {
                Ok(made) => lower_conversions(nest::nest(depth as nat), old(self)@, c@, l, ds, i) == Ok::<((), State<'a>), Failure<'a>>((made, final(self)@)),
                Err(trouble) => lower_conversions(nest::nest(depth as nat), old(self)@, c@, l, ds, i) == Err::<((), State<'a>), Failure<'a>>(Failure { trouble: trouble@, after: final(self)@ }),
            },
        decreases depth, 4int, ds.len() - i,
    {
        reveal(lower_conversions);
        if i >= ds.len() {
            return Ok(());
        }
        if let Err(e) = self.lower_conversion(depth, c, Some(l), &ds[i]) {
            return Err(e);
        }
        if let Err(e) = self.lower_conversions(depth, c, l, ds, i + 1) {
            return Err(e);
        }
        Ok(())
    }

    /// The bodies of the members of a class.
    pub fn lower_class(&mut self, depth: usize, c: &'a ClassDecl) -> (out: Result<(), CodegenError>)
        ensures
            match out {
                Ok(made) => lower_class(nest::nest(depth as nat), old(self)@, c) == Ok::<((), State<'a>), Failure<'a>>((made, final(self)@)),
                Err(trouble) => lower_class(nest::nest(depth as nat), old(self)@, c) == Err::<((), State<'a>), Failure<'a>>(Failure { trouble: trouble@, after: final(self)@ }),
            },
        decreases depth, 8int, 0int,
    {
        reveal(lower_class);
        match self.struct_named(c.name.as_str()) {
            Some(l) => {
                if let Err(e) = self.lower_methods(depth, c.name.as_str(), l, &c.methods, 0) {
                    return Err(e);
                }
                if let Err(e) = self.lower_ctors(depth, c.name.as_str(), l, &c.constructors, 0) {
                    return Err(e);
                }
                if let Err(e) = self.lower_dtors(depth, c.name.as_str(), l, &c.destructors, 0) {
                    return Err(e);
                }
                if let Err(e) = self.lower_properties(depth, c.name.as_str(), l, &c.properties, 0) {
                    return Err(e);
                }
                if let Err(e) = self.lower_operators(depth, c.name.as_str(), l, &c.operators, 0) {
                    return Err(e);
                }
                if let Err(e) = self.lower_conversions(depth, c.name.as_str(), l, &c.conversions, 0) {
                    return Err(e);
                }
                return Ok(());
            },
            _ => {},
        }
        Err(fault_naming("unknown class ", c.name.as_str(), "", c.name_span))
    }

    /// The body of a function of an extension.
    pub fn extension_function(&mut self, depth: usize, n: &str, l: Option<usize>, f: &'a Function) -> (out: Result<(), CodegenError>)
        ensures
            match out {
                Ok(made) => extension_function(nest::nest(depth as nat), old(self)@, n@, l, f) == Ok::<((), State<'a>), Failure<'a>>((made, final(self)@)),
                Err(trouble) => extension_function(nest::nest(depth as nat), old(self)@, n@, l, f) == Err::<((), State<'a>), Failure<'a>>(Failure { trouble: trouble@, after: final(self)@ }),
            },
        decreases depth, 5int, 0int,
    {
        reveal(extension_function);
        let name_text = join3(n, "__", f.name.as_str());
        let name = name_text.as_str();
        match self.function(name) {
            Some(k) => {
                let sig = self.func_info(k);
                self.enter(k, false, l);
                self.bind_this();
                if let Err(e) = self.bind_plain(depth, &f.params, 0) {
                    return Err(e);
                }
                let x = match self.nested_run_block(depth, &f.body) {
                    Ok(v) => v,
                    Err(e) => {
                        return Err(e);
                    },
                };
                if !self.done() {
                    self.return_zero(sig.ret);
                }
                self.leave();
                if self.is_sound(k) {
                    return Ok(());
                }
                return Err(fault_naming_two("extension ", n, "::", f.name.as_str(), " verify failed", f.span));
            },
            _ => {},
        }
        Err(fault_naming("extension func not declared ", name, "", f.span))
    }

    /// The body of an operator of an extension.
    pub fn extension_operator(&mut self, depth: usize, n: &str, l: Option<usize>, o: &'a OperatorDecl) -> (out: Result<(), CodegenError>)
        ensures
            match out {
                Ok(made) => extension_operator(nest::nest(depth as nat), old(self)@, n@, l, o) == Ok::<((), State<'a>), Failure<'a>>((made, final(self)@)),
                Err(trouble) => extension_operator(nest::nest(depth as nat), old(self)@, n@, l, o) == Err::<((), State<'a>), Failure<'a>>(Failure { trouble: trouble@, after: final(self)@ }),
            },
        decreases depth, 6int, 0int,
    {
        reveal(extension_operator);
        let w_text = op_word_of(o.op.as_str());
        let w = w_text.as_str();
        let name_text = join3(n, "__op_", w);
        let name = name_text.as_str();
        match self.function(name) {
            Some(k) => {
                if let Err(e) = self.operator_body(depth, k, l, o) {
                    return Err(e);
                }
                if self.is_sound(k) {
                    return Ok(());
                }
                return Err(fault_naming("extension op ", o.op.as_str(), " failed verify", o.span));
            },
            _ => {},
        }
        Err(fault_naming_two("extension op ", o.op.as_str(), " not declared ", name, "", o.span))
    }

    /// The body of a member of an extension.
    pub fn extension_member(&mut self, depth: usize, n: &str, l: Option<usize>, m: &'a ExtensionMember) -> (out: Result<(), CodegenError>)
        ensures
            match out {
                Ok(made) => extension_member(nest::nest(depth as nat), old(self)@, n@, l, m) == Ok::<((), State<'a>), Failure<'a>>((made, final(self)@)),
                Err(trouble) => extension_member(nest::nest(depth as nat), old(self)@, n@, l, m) == Err::<((), State<'a>), Failure<'a>>(Failure { trouble: trouble@, after: final(self)@ }),
            },
        decreases depth, 7int, 0int,
    {
        reveal(extension_member);
        match m {
            ExtensionMember::Function(f) => {
                if let Err(e) = self.extension_function(depth, n, l, f) {
                    return Err(e);
                }
                return Ok(());
            },
            ExtensionMember::Operator(o) => {
                if let Err(e) = self.extension_operator(depth, n, l, o) {
                    return Err(e);
                }
                return Ok(());
            },
            ExtensionMember::Property(p) => {
                if let Err(e) = self.lower_property(depth, n, l, p, true) {
                    return Err(e);
                }
                return Ok(());
            },
            ExtensionMember::Conversion(d) => {
                if let Err(e) = self.lower_conversion(depth, n, l, d) {
                    return Err(e);
                }
                return Ok(());
            },
            _ => {},
        }
        Ok(())
    }

    /// The bodies of the members of an extension from `i` on.
    pub fn extension_members(&mut self, depth: usize, n: &str, l: Option<usize>, ms: &'a Vec<ExtensionMember>, i: usize) -> (out: Result<(), CodegenError>)
        ensures
            match out {
                Ok(made) => extension_members(nest::nest(depth as nat), old(self)@, n@, l, ms, i) == Ok::<((), State<'a>), Failure<'a>>((made, final(self)@)),
                Err(trouble) => extension_members(nest::nest(depth as nat), old(self)@, n@, l, ms, i) == Err::<((), State<'a>), Failure<'a>>(Failure { trouble: trouble@, after: final(self)@ }),
            },
        decreases depth, 8int, ms.len() - i,
    {
        reveal(extension_members);
        if i >= ms.len() {
            return Ok(());
        }
        if let Err(e) = self.extension_member(depth, n, l, &ms[i]) {
            return Err(e);
        }
        if let Err(e) = self.extension_members(depth, n, l, ms, i + 1) {
            return Err(e);
        }
        Ok(())
    }

    /// The bodies of the members of an extension.
    pub fn lower_extension(&mut self, depth: usize, x: &'a ExtensionDecl) -> (out: Result<(), CodegenError>)
        ensures
            match out {
                Ok(made) => lower_extension(nest::nest(depth as nat), old(self)@, x) == Ok::<((), State<'a>), Failure<'a>>((made, final(self)@)),
                Err(trouble) => lower_extension(nest::nest(depth as nat), old(self)@, x) == Err::<((), State<'a>), Failure<'a>>(Failure { trouble: trouble@, after: final(self)@ }),
            },
        decreases depth, 9int, 0int,
    {
        reveal(lower_extension);
        match &x.ty {
            Type::Named(n) => {
                if let Err(e) = self.extension_members(depth, n.as_str(), self.layout(n.as_str()), &x.members, 0) {
                    return Err(e);
                }
                return Ok(());
            },
            Type::Generic(n, _) => {
                if let Err(e) = self.extension_members(depth, n.as_str(), self.layout(n.as_str()), &x.members, 0) {
                    return Err(e);
                }
                return Ok(());
            },
            _ => {},
        }
        Ok(())
    }

    /// The function of the `init` blocks, declared where it is not yet.
    pub fn init_function(&mut self) -> (out: usize)
        ensures
            (out, final(self)@) == init_function(old(self)@),
    {
        reveal(init_function);
        match self.function("hella.init") {
            Some(k) => {
                return k;
            },
            _ => {},
        }
        let first = self.param_start();
        let k = self.add_function("hella.init", FuncInfo { ret: None, c_varargs: false, converts: false, first: first, count: 0 });
        k
    }

    /// An `init` block.
    pub fn lower_init(&mut self, depth: usize, b: &'a Block) -> (out: Result<(), CodegenError>)
        ensures
            match out {
                Ok(made) => lower_init(nest::nest(depth as nat), old(self)@, b) == Ok::<((), State<'a>), Failure<'a>>((made, final(self)@)),
                Err(trouble) => lower_init(nest::nest(depth as nat), old(self)@, b) == Err::<((), State<'a>), Failure<'a>>(Failure { trouble: trouble@, after: final(self)@ }),
            },
        decreases depth, 2int, 0int,
    {
        reveal(lower_init);
        let k = self.init_function();
        self.enter(k, false, None);
        let x = match self.nested_run_block(depth, b) {
            Ok(v) => v,
            Err(e) => {
                return Err(e);
            },
        };
        if !self.done() {
            self.return_zero(None);
        }
        self.leave();
        Ok(())
    }

    /// A declaration without its attributes.
    pub fn item_itself(&self, it: &'a Item) -> (out: &'a Item)
        ensures
            out == item_itself(it),
    {
        reveal(item_itself);
        match it {
            Item::Attributed { attrs: _, item } => {
                return item;
            },
            _ => {},
        }
        it
    }

    /// Declares what stands outside functions.
    pub fn declare_item(&mut self, depth: usize, it: &'a Item) -> (out: Result<(), CodegenError>)
        ensures
            match out {
                Ok(made) => declare_item(nest::nest(depth as nat), old(self)@, it) == Ok::<((), State<'a>), Failure<'a>>((made, final(self)@)),
                Err(trouble) => declare_item(nest::nest(depth as nat), old(self)@, it) == Err::<((), State<'a>), Failure<'a>>(Failure { trouble: trouble@, after: final(self)@ }),
            },
        decreases depth, 11int, 0int,
    {
        reveal(declare_item);
        match it {
            Item::Struct(s) => {
                if let Err(e) = self.declare_struct(depth, s) {
                    return Err(e);
                }
                return Ok(());
            },
            Item::Class(c) => {
                if let Err(e) = self.declare_class(depth, c) {
                    return Err(e);
                }
                return Ok(());
            },
            Item::Enum(e) => {
                if let Err(e) = self.declare_enum(e) {
                    return Err(e);
                }
                return Ok(());
            },
            Item::Typedef(d) => {
                if let Err(e) = self.declare_alias(depth, d) {
                    return Err(e);
                }
                return Ok(());
            },
            Item::Distinct(d) => {
                if let Err(e) = self.declare_distinct(depth, d) {
                    return Err(e);
                }
                return Ok(());
            },
            Item::Extension(x) => {
                if let Err(e) = self.declare_extension(depth, x) {
                    return Err(e);
                }
                return Ok(());
            },
            Item::Extern(x) => {
                if let Err(e) = self.foreign_members(depth, &x.members, 0) {
                    return Err(e);
                }
                return Ok(());
            },
            Item::Const(c) => {
                if let Err(e) = self.declare_const(depth, c) {
                    return Err(e);
                }
                return Ok(());
            },
            Item::Var(v) => {
                if let Err(e) = self.declare_global(depth, v) {
                    return Err(e);
                }
                return Ok(());
            },
            _ => {},
        }
        Ok(())
    }

    /// Declares the types, globals and members of a program from item `i` on.
    pub fn declare_items(&mut self, depth: usize, its: &'a Vec<Item>, i: usize) -> (out: Result<(), CodegenError>)
        ensures
            match out {
                Ok(made) => declare_items(nest::nest(depth as nat), old(self)@, its, i) == Ok::<((), State<'a>), Failure<'a>>((made, final(self)@)),
                Err(trouble) => declare_items(nest::nest(depth as nat), old(self)@, its, i) == Err::<((), State<'a>), Failure<'a>>(Failure { trouble: trouble@, after: final(self)@ }),
            },
        decreases depth, 12int, its.len() - i,
    {
        reveal(declare_items);
        if i >= its.len() {
            return Ok(());
        }
        if let Err(e) = self.declare_item(depth, self.item_itself(&its[i])) {
            return Err(e);
        }
        if let Err(e) = self.declare_items(depth, its, i + 1) {
            return Err(e);
        }
        Ok(())
    }

    /// Declares a function.
    pub fn declare_if_function(&mut self, depth: usize, it: &'a Item) -> (out: Result<(), CodegenError>)
        ensures
            match out {
                Ok(made) => declare_if_function(nest::nest(depth as nat), old(self)@, it) == Ok::<((), State<'a>), Failure<'a>>((made, final(self)@)),
                Err(trouble) => declare_if_function(nest::nest(depth as nat), old(self)@, it) == Err::<((), State<'a>), Failure<'a>>(Failure { trouble: trouble@, after: final(self)@ }),
            },
        decreases depth, 7int, 0int,
    {
        reveal(declare_if_function);
        match it {
            Item::Function(f) => {
                if let Err(e) = self.declare_function(depth, f) {
                    return Err(e);
                }
                return Ok(());
            },
            _ => {},
        }
        Ok(())
    }

    /// Declares the functions of a program from item `i` on.
    pub fn declare_functions(&mut self, depth: usize, its: &'a Vec<Item>, i: usize) -> (out: Result<(), CodegenError>)
        ensures
            match out {
                Ok(made) => declare_functions(nest::nest(depth as nat), old(self)@, its, i) == Ok::<((), State<'a>), Failure<'a>>((made, final(self)@)),
                Err(trouble) => declare_functions(nest::nest(depth as nat), old(self)@, its, i) == Err::<((), State<'a>), Failure<'a>>(Failure { trouble: trouble@, after: final(self)@ }),
            },
        decreases depth, 8int, its.len() - i,
    {
        reveal(declare_functions);
        if i >= its.len() {
            return Ok(());
        }
        if let Err(e) = self.declare_if_function(depth, self.item_itself(&its[i])) {
            return Err(e);
        }
        if let Err(e) = self.declare_functions(depth, its, i + 1) {
            return Err(e);
        }
        Ok(())
    }

    /// The bodies of an item.
    pub fn lower_item(&mut self, depth: usize, it: &'a Item) -> (out: Result<(), CodegenError>)
        ensures
            match out {
                Ok(made) => lower_item(nest::nest(depth as nat), old(self)@, it) == Ok::<((), State<'a>), Failure<'a>>((made, final(self)@)),
                Err(trouble) => lower_item(nest::nest(depth as nat), old(self)@, it) == Err::<((), State<'a>), Failure<'a>>(Failure { trouble: trouble@, after: final(self)@ }),
            },
        decreases depth, 10int, 0int,
    {
        reveal(lower_item);
        match it {
            Item::Function(f) => {
                if let Err(e) = self.lower_function(depth, f) {
                    return Err(e);
                }
                return Ok(());
            },
            Item::Class(c) => {
                if let Err(e) = self.lower_class(depth, c) {
                    return Err(e);
                }
                return Ok(());
            },
            Item::Extension(x) => {
                if let Err(e) = self.lower_extension(depth, x) {
                    return Err(e);
                }
                return Ok(());
            },
            Item::Init(b) => {
                if let Err(e) = self.lower_init(depth, b) {
                    return Err(e);
                }
                return Ok(());
            },
            _ => {},
        }
        Ok(())
    }

    /// The bodies of a program from item `i` on.
    pub fn lower_items(&mut self, depth: usize, its: &'a Vec<Item>, i: usize) -> (out: Result<(), CodegenError>)
        ensures
            match out {
                Ok(made) => lower_items(nest::nest(depth as nat), old(self)@, its, i) == Ok::<((), State<'a>), Failure<'a>>((made, final(self)@)),
                Err(trouble) => lower_items(nest::nest(depth as nat), old(self)@, its, i) == Err::<((), State<'a>), Failure<'a>>(Failure { trouble: trouble@, after: final(self)@ }),
            },
        decreases depth, 11int, its.len() - i,
    {
        reveal(lower_items);
        if i >= its.len() {
            return Ok(());
        }
        if let Err(e) = self.lower_item(depth, self.item_itself(&its[i])) {
            return Err(e);
        }
        if let Err(e) = self.lower_items(depth, its, i + 1) {
            return Err(e);
        }
        Ok(())
    }

    /// A program: its types, globals and members, its functions, and then the bodies. Every block has to come to an end.
    pub fn lower_program(&mut self, depth: usize, p: &'a Program) -> (out: Result<(), CodegenError>)
        ensures
            match out {
                Ok(made) => lower_program(nest::nest(depth as nat), old(self)@, p) == Ok::<((), State<'a>), Failure<'a>>((made, final(self)@)),
                Err(trouble) => lower_program(nest::nest(depth as nat), old(self)@, p) == Err::<((), State<'a>), Failure<'a>>(Failure { trouble: trouble@, after: final(self)@ }),
            },
        decreases depth, 13int, 0int,
    {
        reveal(lower_program);
        if let Err(e) = self.declare_items(depth, &p.items, 0) {
            return Err(e);
        }
        if let Err(e) = self.declare_functions(depth, &p.items, 0) {
            return Err(e);
        }
        if let Err(e) = self.lower_items(depth, &p.items, 0) {
            return Err(e);
        }
        if self.all_sound() {
            return Ok(());
        }
        Err(fault("LLVM verify failed: a block has no last step", p.span))
    }
}

} // verus!
