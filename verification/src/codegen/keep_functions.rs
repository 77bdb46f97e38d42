//! What the functions of `functions` keep.
use vstd::prelude::*;
use crate::ast::{
    Block, ConstructorDecl, ConversionDecl, DestructorDecl, ClassDecl, ExtensionDecl, ExtensionMember,
    Function, Item, OperatorDecl, Param, Program, PropertyDecl, Setter,
    Type,
};
use crate::codegen::ir::{
    MemberKind, I64,
};
use crate::codegen::calls;
use crate::codegen::declare;
use crate::codegen::functions;
use crate::codegen::keep;
use crate::codegen::keep_declare;
use crate::codegen::keep_globals;
use crate::codegen::keep_lower;
use crate::codegen::keep_state;
use crate::codegen::state;
use crate::codegen::nest::Nest;
use crate::codegen::state::State;

verus! {

/// `bind_this` keeps what was there.
pub broadcast proof fn keeps_bind_this<'a>(base: State<'a>, st: State<'a>)
    requires
        #[trigger] keep::kept(base, st),
    ensures
        keep::kept(base, #[trigger] functions::bind_this(st)),
{
    broadcast use {keep_lower::keeps_slot, keep_lower::keeps_store, keep_state::keeps_bind};

    reveal(functions::bind_this);
}

/// `bind_param` keeps what was there.
pub broadcast proof fn keeps_bind_param<'a>(base: State<'a>, st: State<'a>, q: &'a Param, k: usize, t: usize)
    requires
        #[trigger] keep::kept(base, st),
    ensures
        keep::kept(base, #[trigger] functions::bind_param(st, q, k, t)),
{
    broadcast use {keep_lower::keeps_note_kind, keep_lower::keeps_slot, keep_lower::keeps_store, keep_state::keeps_bind};

    reveal(functions::bind_param);
}

/// `bind_plain` keeps what was there.
pub broadcast proof fn keeps_bind_plain<'a>(base: State<'a>, nest: Nest<'a>, st: State<'a>, ps: &'a Vec<Param>, i: usize)
    requires
        #[trigger] keep::kept(base, st),
        keep::nest_keeps(nest),
    ensures
        match #[trigger] functions::bind_plain(nest, st, ps, i) {
            Ok((_, after)) => keep::kept(base, after),
            Err(_) => true,
        },
    decreases ps.len() - i,
{
    broadcast use keeps_bind_param;

    reveal(functions::bind_plain);
    if i >= ps.len() {
    } else {
        let q = &ps@[i as int];
        match (nest.ty)(st, &q.ty) {
            Ok((t, st)) => {
                let st = functions::bind_param(st, q, calls::more(i), t);
                keeps_bind_plain(base, nest, st, ps, (i + 1) as usize);
                match functions::bind_plain(nest, st, ps, (i + 1) as usize) {
                    Ok((_, st)) => {
                    },
                    Err(_) => {},
                }
            },
            Err(_) => {},
        }
    }
}

/// `bind_params` keeps what was there.
pub broadcast proof fn keeps_bind_params<'a>(base: State<'a>, nest: Nest<'a>, st: State<'a>, ps: &'a Vec<Param>, i: usize, structs: bool)
    requires
        #[trigger] keep::kept(base, st),
        keep::nest_keeps(nest),
    ensures
        match #[trigger] functions::bind_params(nest, st, ps, i, structs) {
            Ok((_, after)) => keep::kept(base, after),
            Err(_) => true,
        },
    decreases ps.len() - i,
{
    broadcast use {keep_declare::keeps_gathered, keep_declare::keeps_variadic_elem, keeps_bind_param};

    reveal(functions::bind_params);
    if i >= ps.len() {
    } else {
        let q = &ps@[i as int];
        if q.is_variadic {
            match declare::variadic_elem(nest, st, ps, i) {
                Ok((e, st)) => {
                    let (t, st) = declare::gathered(st, e, structs);
                    let st = functions::bind_param(st, q, calls::more(i), t);
                    keeps_bind_params(base, nest, st, ps, (i + 1) as usize, structs);
                    match functions::bind_params(nest, st, ps, (i + 1) as usize, structs) {
                        Ok((_, st)) => {
                        },
                        Err(_) => {},
                    }
                },
                Err(_) => {},
            }
        } else {
            match (nest.ty)(st, &q.ty) {
                Ok((t, st)) => {
                    let st = functions::bind_param(st, q, calls::more(i), t);
                    keeps_bind_params(base, nest, st, ps, (i + 1) as usize, structs);
                    match functions::bind_params(nest, st, ps, (i + 1) as usize, structs) {
                        Ok((_, st)) => {
                        },
                        Err(_) => {},
                    }
                },
                Err(_) => {},
            }
        }
    }
}

/// `bind_arg` keeps what was there.
pub broadcast proof fn keeps_bind_arg<'a>(base: State<'a>, nest: Nest<'a>, st: State<'a>, ps: &'a Vec<Param>, i: usize)
    requires
        #[trigger] keep::kept(base, st),
        keep::nest_keeps(nest),
    ensures
        match #[trigger] functions::bind_arg(nest, st, ps, i) {
            Ok((_, after)) => keep::kept(base, after),
            Err(_) => true,
        },
{
    broadcast use {keep_declare::keeps_gathered, keep_declare::keeps_variadic_elem, keeps_bind_param, keep_lower::keeps_slot, keep_lower::keeps_store, keep_state::keeps_bind};

    reveal(functions::bind_arg);
}

/// `bind_args` keeps what was there.
pub broadcast proof fn keeps_bind_args<'a>(base: State<'a>, nest: Nest<'a>, st: State<'a>, ps: &'a Vec<Param>, i: usize)
    requires
        #[trigger] keep::kept(base, st),
        keep::nest_keeps(nest),
    ensures
        match #[trigger] functions::bind_args(nest, st, ps, i) {
            Ok((_, after)) => keep::kept(base, after),
            Err(_) => true,
        },
    decreases ps.len() - i,
{
    broadcast use keeps_bind_arg;

    reveal(functions::bind_args);
    if i >= ps.len() {
    } else {
        match functions::bind_arg(nest, st, ps, i) {
            Ok((_, st)) => {
                keeps_bind_args(base, nest, st, ps, (i + 1) as usize);
                match functions::bind_args(nest, st, ps, (i + 1) as usize) {
                    Ok((_, st)) => {
                    },
                    Err(_) => {},
                }
            },
            Err(_) => {},
        }
    }
}

/// `bind_main_args` keeps what was there.
pub broadcast proof fn keeps_bind_main_args<'a>(base: State<'a>, st: State<'a>)
    requires
        #[trigger] keep::kept(base, st),
    ensures
        keep::kept(base, #[trigger] functions::bind_main_args(st)),
{
    broadcast use {keep_lower::keeps_array_of, keep_lower::keeps_slot, keep_lower::keeps_store, keep_state::keeps_bind};

    reveal(functions::bind_main_args);
}

/// `bind_function_args` keeps what was there.
pub broadcast proof fn keeps_bind_function_args<'a>(base: State<'a>, nest: Nest<'a>, st: State<'a>, f: &'a Function)
    requires
        #[trigger] keep::kept(base, st),
        keep::nest_keeps(nest),
    ensures
        match #[trigger] functions::bind_function_args(nest, st, f) {
            Ok((_, after)) => keep::kept(base, after),
            Err(_) => true,
        },
{
    broadcast use {keeps_bind_args, keeps_bind_main_args};

    reveal(functions::bind_function_args);
}

/// `return_zero` keeps what was there.
pub broadcast proof fn keeps_return_zero<'a>(base: State<'a>, st: State<'a>, r: Option<usize>)
    requires
        #[trigger] keep::kept(base, st),
    ensures
        keep::kept(base, #[trigger] functions::return_zero(st, r)),
{
    broadcast use keep_state::keeps_finish;

    reveal(functions::return_zero);
}

/// `lower_function` keeps what was there.
pub broadcast proof fn keeps_lower_function<'a>(base: State<'a>, nest: Nest<'a>, st: State<'a>, f: &'a Function)
    requires
        #[trigger] keep::kept(base, st),
        keep::nest_keeps(nest),
        keep::is_outside(base),
    ensures
        match #[trigger] functions::lower_function(nest, st, f) {
            Ok((_, after)) => keep::kept(base, after),
            Err(_) => true,
        },
{
    broadcast use {keeps_bind_function_args, keeps_return_zero};

    reveal(functions::lower_function);
    match state::function(st, f.name@) {
        Some(k) => {
            let info = state::func_info(st, k);
            let arg0_0 = k;
            let arg0_1 = (f.name@ == "main"@);
            let arg0_2 = None;
            let outer0 = st;
            let st = functions::enter(st, arg0_0, arg0_1, arg0_2);
            let base0 = st;
            keep::lemma_body_opens(base, outer0, arg0_0, arg0_1, arg0_2);
            match functions::bind_function_args(nest, st, f) {
                Ok((_, st)) => {
                    match (nest.run_block)(st, &f.body) {
                        Ok((always, st)) => {
                            let st = if !always && !state::done(st) {
                                functions::return_zero(st, info.ret)
                            } else {
                                st
                            };
                            keep::lemma_body(base, outer0, arg0_0, arg0_1, arg0_2, st);
                            let st = functions::leave(st);
                            if state::is_sound(st, k) {
                            } else {
                            }
                        },
                        Err(_) => {},
                    }
                },
                Err(_) => {},
            }
        },
        _ => {
        },
    }
}

/// `lower_method` keeps what was there.
pub broadcast proof fn keeps_lower_method<'a>(base: State<'a>, nest: Nest<'a>, st: State<'a>, c: Seq<char>, l: usize, f: &'a Function)
    requires
        #[trigger] keep::kept(base, st),
        keep::nest_keeps(nest),
        keep::is_outside(base),
    ensures
        match #[trigger] functions::lower_method(nest, st, c, l, f) {
            Ok((_, after)) => keep::kept(base, after),
            Err(_) => true,
        },
{
    broadcast use {keeps_bind_params, keeps_bind_this, keeps_return_zero};

    reveal(functions::lower_method);
    match state::member_entry(st, f.name@, l, MemberKind::Method) {
        Some(m) => {
            let info = state::member_info(st, m);
            let sig = state::func_info(st, info.func);
            let arg0_0 = info.func;
            let arg0_1 = false;
            let arg0_2 = Some(l);
            let outer0 = st;
            let st = functions::enter(st, arg0_0, arg0_1, arg0_2);
            let base0 = st;
            keep::lemma_body_opens(base, outer0, arg0_0, arg0_1, arg0_2);
            let st = functions::bind_this(st);
            match functions::bind_params(nest, st, &f.params, 0, true) {
                Ok((_, st)) => {
                    match (nest.run_block)(st, &f.body) {
                        Ok((always, st)) => {
                            let st = if !always && !state::done(st) {
                                functions::return_zero(st, sig.ret)
                            } else {
                                st
                            };
                            keep::lemma_body(base, outer0, arg0_0, arg0_1, arg0_2, st);
                            let st = functions::leave(st);
                            if state::is_sound(st, info.func) {
                            } else {
                            }
                        },
                        Err(_) => {},
                    }
                },
                Err(_) => {},
            }
        },
        _ => {
        },
    }
}

/// `lower_methods` keeps what was there.
pub broadcast proof fn keeps_lower_methods<'a>(base: State<'a>, nest: Nest<'a>, st: State<'a>, c: Seq<char>, l: usize, fs: &'a Vec<Function>, i: usize)
    requires
        #[trigger] keep::kept(base, st),
        keep::nest_keeps(nest),
        keep::is_outside(base),
    ensures
        match #[trigger] functions::lower_methods(nest, st, c, l, fs, i) {
            Ok((_, after)) => keep::kept(base, after),
            Err(_) => true,
        },
    decreases fs.len() - i,
{
    broadcast use keeps_lower_method;

    reveal(functions::lower_methods);
    if i >= fs.len() {
    } else {
        match functions::lower_method(nest, st, c, l, &fs@[i as int]) {
            Ok((_, st)) => {
                keeps_lower_methods(base, nest, st, c, l, fs, (i + 1) as usize);
                match functions::lower_methods(nest, st, c, l, fs, (i + 1) as usize) {
                    Ok((_, st)) => {
                    },
                    Err(_) => {},
                }
            },
            Err(_) => {},
        }
    }
}

/// `init_field` keeps what was there.
pub broadcast proof fn keeps_init_field<'a>(base: State<'a>, st: State<'a>, l: usize, n: Seq<char>)
    requires
        #[trigger] keep::kept(base, st),
    ensures
        keep::kept(base, #[trigger] functions::init_field(st, l, n)),
{
    broadcast use {keep_lower::keeps_class_ty, keep_lower::keeps_field_at, keep_lower::keeps_load, keep_lower::keeps_store};

    reveal(functions::init_field);
}

/// `init_fields` keeps what was there.
pub broadcast proof fn keeps_init_fields<'a>(base: State<'a>, st: State<'a>, l: usize, ps: &'a Vec<Param>, i: usize)
    requires
        #[trigger] keep::kept(base, st),
    ensures
        keep::kept(base, #[trigger] functions::init_fields(st, l, ps, i)),
    decreases ps.len() - i,
{
    broadcast use keeps_init_field;

    reveal(functions::init_fields);
    if i >= ps.len() {
    } else {
        let q = &ps@[i as int];
        let st = functions::init_field(st, l, q.name@);
        keeps_init_fields(base, st, l, ps, (i + 1) as usize);
        let st = functions::init_fields(st, l, ps, (i + 1) as usize);
    }
}

/// `body_of` keeps what was there.
pub broadcast proof fn keeps_body_of<'a>(base: State<'a>, nest: Nest<'a>, st: State<'a>, b: &'a Option<Block>)
    requires
        #[trigger] keep::kept(base, st),
        keep::nest_keeps(nest),
    ensures
        match #[trigger] functions::body_of(nest, st, b) {
            Ok((_, after)) => keep::kept(base, after),
            Err(_) => true,
        },
{

    reveal(functions::body_of);
}

/// `lower_ctor` keeps what was there.
pub broadcast proof fn keeps_lower_ctor<'a>(base: State<'a>, nest: Nest<'a>, st: State<'a>, c: Seq<char>, l: usize, d: &'a ConstructorDecl, name: Seq<char>)
    requires
        #[trigger] keep::kept(base, st),
        keep::nest_keeps(nest),
        keep::is_outside(base),
    ensures
        match #[trigger] functions::lower_ctor(nest, st, c, l, d, name) {
            Ok((_, after)) => keep::kept(base, after),
            Err(_) => true,
        },
{
    broadcast use {keeps_bind_params, keeps_bind_this, keeps_body_of, keeps_init_fields, keeps_return_zero};

    reveal(functions::lower_ctor);
    match state::function(st, name) {
        Some(k) => {
            let arg0_0 = k;
            let arg0_1 = false;
            let arg0_2 = Some(l);
            let outer0 = st;
            let st = functions::enter(st, arg0_0, arg0_1, arg0_2);
            let base0 = st;
            keep::lemma_body_opens(base, outer0, arg0_0, arg0_1, arg0_2);
            let st = functions::bind_this(st);
            match functions::bind_params(nest, st, &d.params, 0, false) {
                Ok((_, st)) => {
                    let st = functions::init_fields(st, l, &d.params, 0);
                    match functions::body_of(nest, st, &d.body) {
                        Ok((_, st)) => {
                            let st = if !state::done(st) {
                                functions::return_zero(st, None)
                            } else {
                                st
                            };
                            keep::lemma_body(base, outer0, arg0_0, arg0_1, arg0_2, st);
                            let st = functions::leave(st);
                            if state::is_sound(st, k) {
                            } else {
                            }
                        },
                        Err(_) => {},
                    }
                },
                Err(_) => {},
            }
        },
        _ => {
        },
    }
}

/// `lower_ctors` keeps what was there.
pub broadcast proof fn keeps_lower_ctors<'a>(base: State<'a>, nest: Nest<'a>, st: State<'a>, c: Seq<char>, l: usize, cs: &'a Vec<ConstructorDecl>, i: usize)
    requires
        #[trigger] keep::kept(base, st),
        keep::nest_keeps(nest),
        keep::is_outside(base),
    ensures
        match #[trigger] functions::lower_ctors(nest, st, c, l, cs, i) {
            Ok((_, after)) => keep::kept(base, after),
            Err(_) => true,
        },
    decreases cs.len() - i,
{
    broadcast use keeps_lower_ctor;

    reveal(functions::lower_ctors);
    if i >= cs.len() {
    } else {
        let name = state::numbered(c, "__ctor"@, cs.len() > 1, i);
        match functions::lower_ctor(nest, st, c, l, &cs@[i as int], name) {
            Ok((_, st)) => {
                keeps_lower_ctors(base, nest, st, c, l, cs, (i + 1) as usize);
                match functions::lower_ctors(nest, st, c, l, cs, (i + 1) as usize) {
                    Ok((_, st)) => {
                    },
                    Err(_) => {},
                }
            },
            Err(_) => {},
        }
    }
}

/// `lower_dtor` keeps what was there.
pub broadcast proof fn keeps_lower_dtor<'a>(base: State<'a>, nest: Nest<'a>, st: State<'a>, c: Seq<char>, l: usize, d: &'a DestructorDecl, name: Seq<char>)
    requires
        #[trigger] keep::kept(base, st),
        keep::nest_keeps(nest),
        keep::is_outside(base),
    ensures
        match #[trigger] functions::lower_dtor(nest, st, c, l, d, name) {
            Ok((_, after)) => keep::kept(base, after),
            Err(_) => true,
        },
{
    broadcast use {keeps_bind_this, keeps_return_zero};

    reveal(functions::lower_dtor);
    match state::function(st, name) {
        Some(k) => {
            let arg0_0 = k;
            let arg0_1 = false;
            let arg0_2 = Some(l);
            let outer0 = st;
            let st = functions::enter(st, arg0_0, arg0_1, arg0_2);
            let base0 = st;
            keep::lemma_body_opens(base, outer0, arg0_0, arg0_1, arg0_2);
            let st = functions::bind_this(st);
            match (nest.run_block)(st, &d.body) {
                Ok((x, st)) => {
                    let st = if !state::done(st) {
                        functions::return_zero(st, None)
                    } else {
                        st
                    };
                    keep::lemma_body(base, outer0, arg0_0, arg0_1, arg0_2, st);
                    let st = functions::leave(st);
                    if state::is_sound(st, k) {
                    } else {
                    }
                },
                Err(_) => {},
            }
        },
        _ => {
        },
    }
}

/// `lower_dtors` keeps what was there.
pub broadcast proof fn keeps_lower_dtors<'a>(base: State<'a>, nest: Nest<'a>, st: State<'a>, c: Seq<char>, l: usize, ds: &'a Vec<DestructorDecl>, i: usize)
    requires
        #[trigger] keep::kept(base, st),
        keep::nest_keeps(nest),
        keep::is_outside(base),
    ensures
        match #[trigger] functions::lower_dtors(nest, st, c, l, ds, i) {
            Ok((_, after)) => keep::kept(base, after),
            Err(_) => true,
        },
    decreases ds.len() - i,
{
    broadcast use keeps_lower_dtor;

    reveal(functions::lower_dtors);
    if i >= ds.len() {
    } else {
        let name = state::numbered(c, "__dtor"@, ds.len() > 1, i);
        match functions::lower_dtor(nest, st, c, l, &ds@[i as int], name) {
            Ok((_, st)) => {
                keeps_lower_dtors(base, nest, st, c, l, ds, (i + 1) as usize);
                match functions::lower_dtors(nest, st, c, l, ds, (i + 1) as usize) {
                    Ok((_, st)) => {
                    },
                    Err(_) => {},
                }
            },
            Err(_) => {},
        }
    }
}

/// `getter_end` keeps what was there.
pub broadcast proof fn keeps_getter_end<'a>(base: State<'a>, st: State<'a>, t: &'a Option<Type>, ext: bool)
    requires
        #[trigger] keep::kept(base, st),
    ensures
        keep::kept(base, #[trigger] functions::getter_end(st, t, ext)),
{
    broadcast use keep_state::keeps_finish;

    reveal(functions::getter_end);
}

/// `lower_getter` keeps what was there.
pub broadcast proof fn keeps_lower_getter<'a>(base: State<'a>, nest: Nest<'a>, st: State<'a>, name: Seq<char>, l: Option<usize>, p: &'a PropertyDecl, b: &'a Block, ext: bool)
    requires
        #[trigger] keep::kept(base, st),
        keep::nest_keeps(nest),
        keep::is_outside(base),
    ensures
        match #[trigger] functions::lower_getter(nest, st, name, l, p, b, ext) {
            Ok((_, after)) => keep::kept(base, after),
            Err(_) => true,
        },
{
    broadcast use {keeps_bind_this, keeps_getter_end};

    reveal(functions::lower_getter);
    match state::function(st, name) {
        Some(k) => {
            let arg0_0 = k;
            let arg0_1 = false;
            let arg0_2 = l;
            let outer0 = st;
            let st = functions::enter(st, arg0_0, arg0_1, arg0_2);
            let base0 = st;
            keep::lemma_body_opens(base, outer0, arg0_0, arg0_1, arg0_2);
            let st = functions::bind_this(st);
            match (nest.run_block)(st, b) {
                Ok((always, st)) => {
                    let st = if (ext || !always) && !state::done(st) {
                        functions::getter_end(st, &p.ty, ext)
                    } else {
                        st
                    };
                    keep::lemma_body(base, outer0, arg0_0, arg0_1, arg0_2, st);
                    let st = functions::leave(st);
                    if state::is_sound(st, k) {
                    } else {
                        if ext {
                        } else {
                        }
                    }
                },
                Err(_) => {},
            }
        },
        _ => {
            if ext {
            } else {
            }
        },
    }
}

/// `lower_setter` keeps what was there.
pub broadcast proof fn keeps_lower_setter<'a>(base: State<'a>, nest: Nest<'a>, st: State<'a>, name: Seq<char>, l: Option<usize>, p: &'a PropertyDecl, s: &'a Setter, ext: bool)
    requires
        #[trigger] keep::kept(base, st),
        keep::nest_keeps(nest),
        keep::is_outside(base),
    ensures
        match #[trigger] functions::lower_setter(nest, st, name, l, p, s, ext) {
            Ok((_, after)) => keep::kept(base, after),
            Err(_) => true,
        },
{
    broadcast use {keeps_bind_param, keeps_bind_this, keeps_return_zero};

    reveal(functions::lower_setter);
    match state::function(st, name) {
        Some(k) => {
            let arg0_0 = k;
            let arg0_1 = false;
            let arg0_2 = l;
            let outer0 = st;
            let st = functions::enter(st, arg0_0, arg0_1, arg0_2);
            let base0 = st;
            keep::lemma_body_opens(base, outer0, arg0_0, arg0_1, arg0_2);
            let st = functions::bind_this(st);
            match (nest.ty)(st, &s.param.ty) {
                Ok((t, st)) => {
                    let st = functions::bind_param(st, &s.param, 1, t);
                    match (nest.run_block)(st, &s.body) {
                        Ok((x, st)) => {
                            let st = if !state::done(st) {
                                functions::return_zero(st, None)
                            } else {
                                st
                            };
                            keep::lemma_body(base, outer0, arg0_0, arg0_1, arg0_2, st);
                            let st = functions::leave(st);
                            if state::is_sound(st, k) {
                            } else {
                                if ext {
                                } else {
                                }
                            }
                        },
                        Err(_) => {},
                    }
                },
                Err(_) => {},
            }
        },
        _ => {
            if ext {
            } else {
            }
        },
    }
}

/// `lower_get` keeps what was there.
pub broadcast proof fn keeps_lower_get<'a>(base: State<'a>, nest: Nest<'a>, st: State<'a>, c: Seq<char>, l: Option<usize>, p: &'a PropertyDecl, ext: bool)
    requires
        #[trigger] keep::kept(base, st),
        keep::nest_keeps(nest),
        keep::is_outside(base),
    ensures
        match #[trigger] functions::lower_get(nest, st, c, l, p, ext) {
            Ok((_, after)) => keep::kept(base, after),
            Err(_) => true,
        },
{
    broadcast use keeps_lower_getter;

    reveal(functions::lower_get);
}

/// `lower_set` keeps what was there.
pub broadcast proof fn keeps_lower_set<'a>(base: State<'a>, nest: Nest<'a>, st: State<'a>, c: Seq<char>, l: Option<usize>, p: &'a PropertyDecl, ext: bool)
    requires
        #[trigger] keep::kept(base, st),
        keep::nest_keeps(nest),
        keep::is_outside(base),
    ensures
        match #[trigger] functions::lower_set(nest, st, c, l, p, ext) {
            Ok((_, after)) => keep::kept(base, after),
            Err(_) => true,
        },
{
    broadcast use keeps_lower_setter;

    reveal(functions::lower_set);
}

/// `lower_property` keeps what was there.
pub broadcast proof fn keeps_lower_property<'a>(base: State<'a>, nest: Nest<'a>, st: State<'a>, c: Seq<char>, l: Option<usize>, p: &'a PropertyDecl, ext: bool)
    requires
        #[trigger] keep::kept(base, st),
        keep::nest_keeps(nest),
        keep::is_outside(base),
    ensures
        match #[trigger] functions::lower_property(nest, st, c, l, p, ext) {
            Ok((_, after)) => keep::kept(base, after),
            Err(_) => true,
        },
{
    broadcast use {keeps_lower_get, keeps_lower_set};

    reveal(functions::lower_property);
}

/// `lower_properties` keeps what was there.
pub broadcast proof fn keeps_lower_properties<'a>(base: State<'a>, nest: Nest<'a>, st: State<'a>, c: Seq<char>, l: usize, ps: &'a Vec<PropertyDecl>, i: usize)
    requires
        #[trigger] keep::kept(base, st),
        keep::nest_keeps(nest),
        keep::is_outside(base),
    ensures
        match #[trigger] functions::lower_properties(nest, st, c, l, ps, i) {
            Ok((_, after)) => keep::kept(base, after),
            Err(_) => true,
        },
    decreases ps.len() - i,
{
    broadcast use keeps_lower_property;

    reveal(functions::lower_properties);
    if i >= ps.len() {
    } else {
        match functions::lower_property(nest, st, c, Some(l), &ps@[i as int], false) {
            Ok((_, st)) => {
                keeps_lower_properties(base, nest, st, c, l, ps, (i + 1) as usize);
                match functions::lower_properties(nest, st, c, l, ps, (i + 1) as usize) {
                    Ok((_, st)) => {
                    },
                    Err(_) => {},
                }
            },
            Err(_) => {},
        }
    }
}

/// `operator_body` keeps what was there.
pub broadcast proof fn keeps_operator_body<'a>(base: State<'a>, nest: Nest<'a>, st: State<'a>, k: usize, l: Option<usize>, o: &'a OperatorDecl)
    requires
        #[trigger] keep::kept(base, st),
        keep::nest_keeps(nest),
        keep::is_outside(base),
    ensures
        match #[trigger] functions::operator_body(nest, st, k, l, o) {
            Ok((_, after)) => keep::kept(base, after),
            Err(_) => true,
        },
{
    broadcast use {keeps_bind_plain, keeps_bind_this, keeps_return_zero};

    reveal(functions::operator_body);
    let arg0_0 = k;
    let arg0_1 = false;
    let arg0_2 = l;
    let outer0 = st;
    let st = functions::enter(st, arg0_0, arg0_1, arg0_2);
    let base0 = st;
    keep::lemma_body_opens(base, outer0, arg0_0, arg0_1, arg0_2);
    let st = functions::bind_this(st);
    match functions::bind_plain(nest, st, &o.params, 0) {
        Ok((_, st)) => {
            match (nest.run_block)(st, &o.body) {
                Ok((x, st)) => {
                    let st = if !state::done(st) {
                        functions::return_zero(st, Some(I64))
                    } else {
                        st
                    };
                    keep::lemma_body(base, outer0, arg0_0, arg0_1, arg0_2, st);
                    let st = functions::leave(st);
                },
                Err(_) => {},
            }
        },
        Err(_) => {},
    }
}

/// `lower_operator` keeps what was there.
pub broadcast proof fn keeps_lower_operator<'a>(base: State<'a>, nest: Nest<'a>, st: State<'a>, c: Seq<char>, l: usize, o: &'a OperatorDecl)
    requires
        #[trigger] keep::kept(base, st),
        keep::nest_keeps(nest),
        keep::is_outside(base),
    ensures
        match #[trigger] functions::lower_operator(nest, st, c, l, o) {
            Ok((_, after)) => keep::kept(base, after),
            Err(_) => true,
        },
{
    broadcast use keeps_operator_body;

    reveal(functions::lower_operator);
}

/// `lower_operators` keeps what was there.
pub broadcast proof fn keeps_lower_operators<'a>(base: State<'a>, nest: Nest<'a>, st: State<'a>, c: Seq<char>, l: usize, os: &'a Vec<OperatorDecl>, i: usize)
    requires
        #[trigger] keep::kept(base, st),
        keep::nest_keeps(nest),
        keep::is_outside(base),
    ensures
        match #[trigger] functions::lower_operators(nest, st, c, l, os, i) {
            Ok((_, after)) => keep::kept(base, after),
            Err(_) => true,
        },
    decreases os.len() - i,
{
    broadcast use keeps_lower_operator;

    reveal(functions::lower_operators);
    if i >= os.len() {
    } else {
        match functions::lower_operator(nest, st, c, l, &os@[i as int]) {
            Ok((_, st)) => {
                keeps_lower_operators(base, nest, st, c, l, os, (i + 1) as usize);
                match functions::lower_operators(nest, st, c, l, os, (i + 1) as usize) {
                    Ok((_, st)) => {
                    },
                    Err(_) => {},
                }
            },
            Err(_) => {},
        }
    }
}

/// `conversion_function` keeps what was there.
pub broadcast proof fn keeps_conversion_function<'a>(base: State<'a>, st: State<'a>, name: Seq<char>)
    requires
        #[trigger] keep::kept(base, st),
    ensures
        keep::kept(base, (#[trigger] functions::conversion_function(st, name)).1),
{
    broadcast use keep_declare::keeps_add_plain_method;

    reveal(functions::conversion_function);
}

/// `lower_conversion` keeps what was there.
pub broadcast proof fn keeps_lower_conversion<'a>(base: State<'a>, nest: Nest<'a>, st: State<'a>, c: Seq<char>, l: Option<usize>, d: &'a ConversionDecl)
    requires
        #[trigger] keep::kept(base, st),
        keep::nest_keeps(nest),
        keep::is_outside(base),
    ensures
        match #[trigger] functions::lower_conversion(nest, st, c, l, d) {
            Ok((_, after)) => keep::kept(base, after),
            Err(_) => true,
        },
{
    broadcast use {keeps_bind_this, keeps_conversion_function, keeps_return_zero};

    reveal(functions::lower_conversion);
    let a = state::type_word(&d.from_ty);
    let b = state::type_word(&d.to_ty);
    let from = state::joined(c, "__conv_"@, a);
    let name = state::joined(from, "_to_"@, b);
    let (k, st) = functions::conversion_function(st, name);
    let arg0_0 = k;
    let arg0_1 = false;
    let arg0_2 = l;
    let outer0 = st;
    let st = functions::enter(st, arg0_0, arg0_1, arg0_2);
    let base0 = st;
    keep::lemma_body_opens(base, outer0, arg0_0, arg0_1, arg0_2);
    let st = functions::bind_this(st);
    match (nest.run_block)(st, &d.body) {
        Ok((x, st)) => {
            let st = if !state::done(st) {
                functions::return_zero(st, Some(I64))
            } else {
                st
            };
            keep::lemma_body(base, outer0, arg0_0, arg0_1, arg0_2, st);
            let st = functions::leave(st);
        },
        Err(_) => {},
    }
}

/// `lower_conversions` keeps what was there.
pub broadcast proof fn keeps_lower_conversions<'a>(base: State<'a>, nest: Nest<'a>, st: State<'a>, c: Seq<char>, l: usize, ds: &'a Vec<ConversionDecl>, i: usize)
    requires
        #[trigger] keep::kept(base, st),
        keep::nest_keeps(nest),
        keep::is_outside(base),
    ensures
        match #[trigger] functions::lower_conversions(nest, st, c, l, ds, i) {
            Ok((_, after)) => keep::kept(base, after),
            Err(_) => true,
        },
    decreases ds.len() - i,
{
    broadcast use keeps_lower_conversion;

    reveal(functions::lower_conversions);
    if i >= ds.len() {
    } else {
        match functions::lower_conversion(nest, st, c, Some(l), &ds@[i as int]) {
            Ok((_, st)) => {
                keeps_lower_conversions(base, nest, st, c, l, ds, (i + 1) as usize);
                match functions::lower_conversions(nest, st, c, l, ds, (i + 1) as usize) {
                    Ok((_, st)) => {
                    },
                    Err(_) => {},
                }
            },
            Err(_) => {},
        }
    }
}

/// `lower_class` keeps what was there.
pub broadcast proof fn keeps_lower_class<'a>(base: State<'a>, nest: Nest<'a>, st: State<'a>, c: &'a ClassDecl)
    requires
        #[trigger] keep::kept(base, st),
        keep::nest_keeps(nest),
        keep::is_outside(base),
    ensures
        match #[trigger] functions::lower_class(nest, st, c) {
            Ok((_, after)) => keep::kept(base, after),
            Err(_) => true,
        },
{
    broadcast use {keeps_lower_conversions, keeps_lower_ctors, keeps_lower_dtors, keeps_lower_methods, keeps_lower_operators, keeps_lower_properties};

    reveal(functions::lower_class);
}

/// `extension_function` keeps what was there.
pub broadcast proof fn keeps_extension_function<'a>(base: State<'a>, nest: Nest<'a>, st: State<'a>, n: Seq<char>, l: Option<usize>, f: &'a Function)
    requires
        #[trigger] keep::kept(base, st),
        keep::nest_keeps(nest),
        keep::is_outside(base),
    ensures
        match #[trigger] functions::extension_function(nest, st, n, l, f) {
            Ok((_, after)) => keep::kept(base, after),
            Err(_) => true,
        },
{
    broadcast use {keeps_bind_plain, keeps_bind_this, keeps_return_zero};

    reveal(functions::extension_function);
    let name = state::joined(n, "__"@, f.name@);
    match state::function(st, name) {
        Some(k) => {
            let sig = state::func_info(st, k);
            let arg0_0 = k;
            let arg0_1 = false;
            let arg0_2 = l;
            let outer0 = st;
            let st = functions::enter(st, arg0_0, arg0_1, arg0_2);
            let base0 = st;
            keep::lemma_body_opens(base, outer0, arg0_0, arg0_1, arg0_2);
            let st = functions::bind_this(st);
            match functions::bind_plain(nest, st, &f.params, 0) {
                Ok((_, st)) => {
                    match (nest.run_block)(st, &f.body) {
                        Ok((x, st)) => {
                            let st = if !state::done(st) {
                                functions::return_zero(st, sig.ret)
                            } else {
                                st
                            };
                            keep::lemma_body(base, outer0, arg0_0, arg0_1, arg0_2, st);
                            let st = functions::leave(st);
                            if state::is_sound(st, k) {
                            } else {
                            }
                        },
                        Err(_) => {},
                    }
                },
                Err(_) => {},
            }
        },
        _ => {
        },
    }
}

/// `extension_operator` keeps what was there.
pub broadcast proof fn keeps_extension_operator<'a>(base: State<'a>, nest: Nest<'a>, st: State<'a>, n: Seq<char>, l: Option<usize>, o: &'a OperatorDecl)
    requires
        #[trigger] keep::kept(base, st),
        keep::nest_keeps(nest),
        keep::is_outside(base),
    ensures
        match #[trigger] functions::extension_operator(nest, st, n, l, o) {
            Ok((_, after)) => keep::kept(base, after),
            Err(_) => true,
        },
{
    broadcast use keeps_operator_body;

    reveal(functions::extension_operator);
}

/// `extension_member` keeps what was there.
pub broadcast proof fn keeps_extension_member<'a>(base: State<'a>, nest: Nest<'a>, st: State<'a>, n: Seq<char>, l: Option<usize>, m: &'a ExtensionMember)
    requires
        #[trigger] keep::kept(base, st),
        keep::nest_keeps(nest),
        keep::is_outside(base),
    ensures
        match #[trigger] functions::extension_member(nest, st, n, l, m) {
            Ok((_, after)) => keep::kept(base, after),
            Err(_) => true,
        },
{
    broadcast use {keeps_extension_function, keeps_extension_operator, keeps_lower_conversion, keeps_lower_property};

    reveal(functions::extension_member);
}

/// `extension_members` keeps what was there.
pub broadcast proof fn keeps_extension_members<'a>(base: State<'a>, nest: Nest<'a>, st: State<'a>, n: Seq<char>, l: Option<usize>, ms: &'a Vec<ExtensionMember>, i: usize)
    requires
        #[trigger] keep::kept(base, st),
        keep::nest_keeps(nest),
        keep::is_outside(base),
    ensures
        match #[trigger] functions::extension_members(nest, st, n, l, ms, i) {
            Ok((_, after)) => keep::kept(base, after),
            Err(_) => true,
        },
    decreases ms.len() - i,
{
    broadcast use keeps_extension_member;

    reveal(functions::extension_members);
    if i >= ms.len() {
    } else {
        match functions::extension_member(nest, st, n, l, &ms@[i as int]) {
            Ok((_, st)) => {
                keeps_extension_members(base, nest, st, n, l, ms, (i + 1) as usize);
                match functions::extension_members(nest, st, n, l, ms, (i + 1) as usize) {
                    Ok((_, st)) => {
                    },
                    Err(_) => {},
                }
            },
            Err(_) => {},
        }
    }
}

/// `lower_extension` keeps what was there.
pub broadcast proof fn keeps_lower_extension<'a>(base: State<'a>, nest: Nest<'a>, st: State<'a>, x: &'a ExtensionDecl)
    requires
        #[trigger] keep::kept(base, st),
        keep::nest_keeps(nest),
        keep::is_outside(base),
    ensures
        match #[trigger] functions::lower_extension(nest, st, x) {
            Ok((_, after)) => keep::kept(base, after),
            Err(_) => true,
        },
{
    broadcast use keeps_extension_members;

    reveal(functions::lower_extension);
}

/// `init_function` keeps what was there.
pub broadcast proof fn keeps_init_function<'a>(base: State<'a>, st: State<'a>)
    requires
        #[trigger] keep::kept(base, st),
    ensures
        keep::kept(base, (#[trigger] functions::init_function(st)).1),
{
    broadcast use {keep_state::keeps_add_function, keep_state::keeps_param_start};

    reveal(functions::init_function);
}

/// `lower_init` keeps what was there.
pub broadcast proof fn keeps_lower_init<'a>(base: State<'a>, nest: Nest<'a>, st: State<'a>, b: &'a Block)
    requires
        #[trigger] keep::kept(base, st),
        keep::nest_keeps(nest),
        keep::is_outside(base),
    ensures
        match #[trigger] functions::lower_init(nest, st, b) {
            Ok((_, after)) => keep::kept(base, after),
            Err(_) => true,
        },
{
    broadcast use {keeps_init_function, keeps_return_zero};

    reveal(functions::lower_init);
    let (k, st) = functions::init_function(st);
    let arg0_0 = k;
    let arg0_1 = false;
    let arg0_2 = None;
    let outer0 = st;
    let st = functions::enter(st, arg0_0, arg0_1, arg0_2);
    let base0 = st;
    keep::lemma_body_opens(base, outer0, arg0_0, arg0_1, arg0_2);
    match (nest.run_block)(st, b) {
        Ok((x, st)) => {
            let st = if !state::done(st) {
                functions::return_zero(st, None)
            } else {
                st
            };
            keep::lemma_body(base, outer0, arg0_0, arg0_1, arg0_2, st);
            let st = functions::leave(st);
        },
        Err(_) => {},
    }
}

/// `declare_item` keeps what was there.
pub broadcast proof fn keeps_declare_item<'a>(base: State<'a>, nest: Nest<'a>, st: State<'a>, it: &'a Item)
    requires
        #[trigger] keep::kept(base, st),
        keep::nest_keeps(nest),
    ensures
        match #[trigger] functions::declare_item(nest, st, it) {
            Ok((_, after)) => keep::kept(base, after),
            Err(_) => true,
        },
{
    broadcast use {keep_declare::keeps_declare_alias, keep_declare::keeps_declare_class, keep_declare::keeps_declare_distinct, keep_declare::keeps_declare_enum, keep_declare::keeps_declare_extension, keep_declare::keeps_declare_struct, keep_declare::keeps_foreign_members, keep_globals::keeps_declare_const, keep_globals::keeps_declare_global};

    reveal(functions::declare_item);
}

/// `declare_items` keeps what was there.
pub broadcast proof fn keeps_declare_items<'a>(base: State<'a>, nest: Nest<'a>, st: State<'a>, its: &'a Vec<Item>, i: usize)
    requires
        #[trigger] keep::kept(base, st),
        keep::nest_keeps(nest),
    ensures
        match #[trigger] functions::declare_items(nest, st, its, i) {
            Ok((_, after)) => keep::kept(base, after),
            Err(_) => true,
        },
    decreases its.len() - i,
{
    broadcast use keeps_declare_item;

    reveal(functions::declare_items);
    if i >= its.len() {
    } else {
        match functions::declare_item(nest, st, functions::item_itself(&its@[i as int])) {
            Ok((_, st)) => {
                keeps_declare_items(base, nest, st, its, (i + 1) as usize);
                match functions::declare_items(nest, st, its, (i + 1) as usize) {
                    Ok((_, st)) => {
                    },
                    Err(_) => {},
                }
            },
            Err(_) => {},
        }
    }
}

/// `declare_if_function` keeps what was there.
pub broadcast proof fn keeps_declare_if_function<'a>(base: State<'a>, nest: Nest<'a>, st: State<'a>, it: &'a Item)
    requires
        #[trigger] keep::kept(base, st),
        keep::nest_keeps(nest),
    ensures
        match #[trigger] functions::declare_if_function(nest, st, it) {
            Ok((_, after)) => keep::kept(base, after),
            Err(_) => true,
        },
{
    broadcast use keep_declare::keeps_declare_function;

    reveal(functions::declare_if_function);
}

/// `declare_functions` keeps what was there.
pub broadcast proof fn keeps_declare_functions<'a>(base: State<'a>, nest: Nest<'a>, st: State<'a>, its: &'a Vec<Item>, i: usize)
    requires
        #[trigger] keep::kept(base, st),
        keep::nest_keeps(nest),
    ensures
        match #[trigger] functions::declare_functions(nest, st, its, i) {
            Ok((_, after)) => keep::kept(base, after),
            Err(_) => true,
        },
    decreases its.len() - i,
{
    broadcast use keeps_declare_if_function;

    reveal(functions::declare_functions);
    if i >= its.len() {
    } else {
        match functions::declare_if_function(nest, st, functions::item_itself(&its@[i as int])) {
            Ok((_, st)) => {
                keeps_declare_functions(base, nest, st, its, (i + 1) as usize);
                match functions::declare_functions(nest, st, its, (i + 1) as usize) {
                    Ok((_, st)) => {
                    },
                    Err(_) => {},
                }
            },
            Err(_) => {},
        }
    }
}

/// `lower_item` keeps what was there.
pub broadcast proof fn keeps_lower_item<'a>(base: State<'a>, nest: Nest<'a>, st: State<'a>, it: &'a Item)
    requires
        #[trigger] keep::kept(base, st),
        keep::nest_keeps(nest),
        keep::is_outside(base),
    ensures
        match #[trigger] functions::lower_item(nest, st, it) {
            Ok((_, after)) => keep::kept(base, after),
            Err(_) => true,
        },
{
    broadcast use {keeps_lower_class, keeps_lower_extension, keeps_lower_function, keeps_lower_init};

    reveal(functions::lower_item);
}

/// `lower_items` keeps what was there.
pub broadcast proof fn keeps_lower_items<'a>(base: State<'a>, nest: Nest<'a>, st: State<'a>, its: &'a Vec<Item>, i: usize)
    requires
        #[trigger] keep::kept(base, st),
        keep::nest_keeps(nest),
        keep::is_outside(base),
    ensures
        match #[trigger] functions::lower_items(nest, st, its, i) {
            Ok((_, after)) => keep::kept(base, after),
            Err(_) => true,
        },
    decreases its.len() - i,
{
    broadcast use keeps_lower_item;

    reveal(functions::lower_items);
    if i >= its.len() {
    } else {
        match functions::lower_item(nest, st, functions::item_itself(&its@[i as int])) {
            Ok((_, st)) => {
                keeps_lower_items(base, nest, st, its, (i + 1) as usize);
                match functions::lower_items(nest, st, its, (i + 1) as usize) {
                    Ok((_, st)) => {
                    },
                    Err(_) => {},
                }
            },
            Err(_) => {},
        }
    }
}

/// `lower_program` keeps what was there.
pub broadcast proof fn keeps_lower_program<'a>(base: State<'a>, nest: Nest<'a>, st: State<'a>, p: &'a Program)
    requires
        #[trigger] keep::kept(base, st),
        keep::nest_keeps(nest),
        keep::is_outside(base),
    ensures
        match #[trigger] functions::lower_program(nest, st, p) {
            Ok((_, after)) => keep::kept(base, after),
            Err(_) => true,
        },
{
    broadcast use {keeps_declare_functions, keeps_declare_items, keeps_lower_items};

    reveal(functions::lower_program);
}

} // verus!
