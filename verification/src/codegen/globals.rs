//! Declarations of constants and variables outside functions.
use vstd::prelude::*;
use crate::ast::{
    ConstDecl, Expr, ExprKind, MapEntry, VarDecl,
};
use crate::codegen::ir::{
    GlobalForm, GlobalInfo, Operand, Val, F64, I1, I32,
    I64, PTR,
};
use crate::codegen::lower;
use crate::codegen::exprs;
use crate::codegen::calls;
use crate::codegen::stmts;
use crate::codegen::patterns;
use crate::codegen::nest;
use crate::codegen::nest::Nest;
use crate::codegen::state;
use crate::codegen::state::{Codegen, CodegenError, Failure, State};

verus! {

/// The address of a constant string.
#[verifier::opaque]
pub open spec fn text_const<'a>(st: State<'a>, s: Seq<char>) -> (Operand, State<'a>)
{
    let (k, st) = state::text(st, s);
    (Operand { val: Val::Text(k), ty: PTR }, st)
}

/// An element of a global list of integers; `chars` tells whether characters count.
#[verifier::opaque]
pub open spec fn int_elem<'a>(st: State<'a>, e: &'a Expr, t: usize, chars: bool) -> (Operand, State<'a>)
{
    match e.kind {
        ExprKind::IntLit(v) => {
            (Operand { val: Val::Int(v), ty: t }, st)
        },
        ExprKind::BoolLit(b) => {
            let k = patterns::bit(b);
            (Operand { val: Val::Int(k), ty: t }, st)
        },
        ExprKind::CharLit(c) => {
            if chars {
                (Operand { val: Val::Int((c as u32) as i64), ty: I32 }, st)
            } else {
                (Operand { val: Val::Zero, ty: t }, st)
            }
        },
        _ => {
            (Operand { val: Val::Zero, ty: t }, st)
        },
    }
}

/// An element of a global list of addresses.
#[verifier::opaque]
pub open spec fn ptr_elem<'a>(st: State<'a>, e: &'a Expr) -> (Operand, State<'a>)
{
    match e.kind {
        ExprKind::StringLit(s) => {
            let (r, st) = text_const(st, s@);
            (r, st)
        },
        _ => {
            (Operand { val: Val::Null, ty: PTR }, st)
        },
    }
}

/// An element of a global list: a literal of its type, else zero.
#[verifier::opaque]
pub open spec fn global_elem<'a>(st: State<'a>, e: &'a Expr, t: usize, chars: bool) -> (Operand, State<'a>)
{
    if lower::is_int(st, t) {
        let (r, st) = int_elem(st, e, t, chars);
        (r, st)
    } else if lower::is_ptr(st, t) {
        let (r, st) = ptr_elem(st, e);
        (r, st)
    } else {
        (Operand { val: Val::Zero, ty: t }, st)
    }
}

/// Adds the elements `i..end` of a global list.
#[verifier::opaque]
pub open spec fn add_elems<'a>(st: State<'a>, es: &'a Vec<Expr>, i: usize, end: usize, t: usize, chars: bool) -> State<'a>
    decreases es.len() - i,
{
    if i >= es.len() || i >= end {
        st
    } else {
        let (v, st) = global_elem(st, &es@[i as int], t, chars);
        let st = state::add_const(st, v);
        let st = add_elems(st, es, (i + 1) as usize, end, t, chars);
        st
    }
}

/// Adds the entries of a global map from `i` on, as far as they fit.
#[verifier::opaque]
pub open spec fn add_entries<'a>(st: State<'a>, es: &'a Vec<MapEntry>, i: usize, k: usize, v: usize) -> State<'a>
    decreases es.len() - i,
{
    if i >= es.len() || i >= 16 {
        st
    } else {
        let (a, st) = global_elem(st, &es@[i as int].key, k, true);
        let st = state::add_const(st, a);
        let (b, st) = global_elem(st, &es@[i as int].value, v, true);
        let st = state::add_const(st, b);
        let st = add_entries(st, es, (i + 1) as usize, k, v);
        st
    }
}

/// The smaller of two numbers.
#[verifier::opaque]
pub open spec fn at_most(n: usize, m: usize) -> usize
{
    if n < m {
        n
    } else {
        m
    }
}

/// Declares a global map.
#[verifier::opaque]
pub open spec fn global_map<'a>(st: State<'a>, name: Seq<char>, t: usize, es: Option<&'a Vec<MapEntry>>, constant: bool) -> State<'a>
{
    let first = state::const_count(st);
    match es {
        Some(v) => {
            let keys = lower::struct_elem(st, t, 0);
            let vals = lower::struct_elem(st, t, 1);
            let st = add_entries(st, v, 0, lower::array_elem(st, keys), lower::array_elem(st, vals));
            let n = at_most(v.len(), 16);
            let st = state::add_global(st, name, GlobalInfo { ty: t, is_constant: constant, first: first, count: calls::minus(state::const_count(st), first), len: n as u64, form: GlobalForm::Mapping });
            let st = state::note_map(st, name);
            st
        },
        _ => {
            let st = state::add_global(st, name, GlobalInfo { ty: t, is_constant: constant, first: first, count: 0, len: 0, form: GlobalForm::Mapping });
            let st = state::note_map(st, name);
            st
        },
    }
}

/// Declares a global that starts as zero.
#[verifier::opaque]
pub open spec fn global_zero<'a>(st: State<'a>, name: Seq<char>, t: usize, constant: bool) -> State<'a>
{
    let st = state::add_global(st, name, GlobalInfo { ty: t, is_constant: constant, first: 0, count: 0, len: 0, form: GlobalForm::Zero });
    st
}

/// Declares a global vector with its elements, as far as they fit.
#[verifier::opaque]
pub open spec fn global_vec<'a>(st: State<'a>, name: Seq<char>, t: usize, es: &'a Vec<Expr>) -> State<'a>
{
    let buf = lower::struct_elem(st, t, 0);
    let first = state::const_count(st);
    let n = at_most(es.len(), 16);
    let st = add_elems(st, es, 0, n, lower::array_elem(st, buf), false);
    let st = state::add_global(st, name, GlobalInfo { ty: t, is_constant: false, first: first, count: n, len: n as u64, form: GlobalForm::Vector });
    st
}

/// Declares a global array; only integers keep their elements.
#[verifier::opaque]
pub open spec fn global_array<'a>(st: State<'a>, name: Seq<char>, t: usize, es: &'a Vec<Expr>) -> State<'a>
{
    let el = lower::array_elem(st, t);
    if lower::is_int(st, el) {
        let first = state::const_count(st);
        let n = fit_len(es.len(), lower::array_len(st, t));
        let st = add_elems(st, es, 0, n, el, true);
        let st = state::add_global(st, name, GlobalInfo { ty: t, is_constant: false, first: first, count: n, len: 0, form: GlobalForm::Elements });
        st
    } else {
        let st = global_zero(st, name, t, false);
        st
    }
}

/// How many of `n` elements fit in an array of `m`.
#[verifier::opaque]
pub open spec fn fit_len(n: usize, m: u64) -> usize
{
    if (n as u64) < m {
        n
    } else {
        m as usize
    }
}

/// The constant that a global starts with: a literal, else zero; `floats` tells whether floating-point numbers count.
#[verifier::opaque]
pub open spec fn single<'a>(st: State<'a>, e: &'a Expr, t: usize, floats: bool) -> (Operand, State<'a>)
{
    match e.kind {
        ExprKind::IntLit(v) => {
            if lower::is_int(st, t) {
                (Operand { val: Val::Int(v), ty: t }, st)
            } else {
                (Operand { val: Val::Int(v), ty: I64 }, st)
            }
        },
        ExprKind::BoolLit(b) => {
            (Operand { val: Val::Int(patterns::bit(b)), ty: I1 }, st)
        },
        ExprKind::StringLit(s) => {
            let (r, st) = text_const(st, s@);
            (r, st)
        },
        ExprKind::CharLit(c) => {
            (Operand { val: Val::Int((c as u32) as i64), ty: I32 }, st)
        },
        ExprKind::FloatLit(s) => {
            if floats {
                let (k, st) = state::text(st, s@);
                (Operand { val: Val::Float(k), ty: F64 }, st)
            } else {
                (Operand { val: Val::Zero, ty: t }, st)
            }
        },
        _ => {
            (Operand { val: Val::Zero, ty: t }, st)
        },
    }
}

/// Declares a global with one value.
#[verifier::opaque]
pub open spec fn global_single<'a>(st: State<'a>, name: Seq<char>, t: usize, e: &'a Expr, constant: bool) -> State<'a>
{
    let first = state::const_count(st);
    let (v, st) = single(st, e, t, !constant);
    let st = state::add_const(st, v);
    let st = state::add_global(st, name, GlobalInfo { ty: t, is_constant: constant, first: first, count: 1, len: 0, form: GlobalForm::Single });
    st
}

/// The type of a constant, as its literal tells.
#[verifier::opaque]
pub open spec fn const_ty<'a>(e: &'a Expr) -> usize
{
    exprs::lit_ty(e)
}

/// Declares a global constant.
#[verifier::opaque]
pub open spec fn declare_const<'a>(nest: Nest<'a>, st: State<'a>, c: &'a ConstDecl) -> Result<((), State<'a>), Failure<'a>>
{
    match c.ty {
        Some(t) => {
            if lower::is_map_ty(&t) {
                match stmts::map_ty(nest, st, &t, stmts::entries_in(&c.init)) {
                    Ok((m, st)) => {
                        let st = global_map(st, c.name@, m, stmts::entries_in(&c.init), true);
                        Ok(((), st))
                    },
                    Err(e) => Err(e),
                }
            } else {
                match (nest.ty)(st, &t) {
                    Ok((k, st)) => {
                        let st = global_single(st, c.name@, k, &c.init, true);
                        let st = if lower::is_str_ty(&t) {
                            state::note_str(st, c.name@)
                        } else {
                            st
                        };
                        Ok(((), st))
                    },
                    Err(e) => Err(e),
                }
            }
        },
        _ => {
            match stmts::entries_in(&c.init) {
                Some(es) => {
                    let (m, st) = exprs::lit_map_ty(st, es);
                    let st = global_map(st, c.name@, m, Some(es), true);
                    Ok(((), st))
                },
                _ => {
                    let st = global_single(st, c.name@, const_ty(&c.init), &c.init, true);
                    Ok(((), st))
                },
            }
        },
    }
}

/// Declares a global variable that starts with a list.
#[verifier::opaque]
pub open spec fn global_list<'a>(nest: Nest<'a>, st: State<'a>, v: &'a VarDecl, es: &'a Vec<Expr>) -> Result<((), State<'a>), Failure<'a>>
{
    match stmts::var_ty(nest, st, &v.ty, &v.init) {
        Ok((t, st)) => {
            if lower::is_vec_ty(&v.ty) {
                let st = global_vec(st, v.name@, t, es);
                let st = state::note_vec(st, v.name@);
                Ok(((), st))
            } else if stmts::is_fixed(&v.ty) && lower::is_array(st, t) {
                let st = global_array(st, v.name@, t, es);
                Ok(((), st))
            } else {
                let st = global_zero(st, v.name@, t, false);
                let st = if lower::is_str_ty(&v.ty) {
                    state::note_str(st, v.name@)
                } else {
                    st
                };
                Ok(((), st))
            }
        },
        Err(e) => Err(e),
    }
}

/// Declares a global variable.
#[verifier::opaque]
pub open spec fn declare_global<'a>(nest: Nest<'a>, st: State<'a>, v: &'a VarDecl) -> Result<((), State<'a>), Failure<'a>>
{
    match stmts::var_ty(nest, st, &v.ty, &v.init) {
        Ok((t, st)) => {
            if lower::is_map_ty(&v.ty) || lower::is_any_ty(&v.ty) && stmts::has_entries(&v.init) {
                let st = global_map(st, v.name@, t, stmts::entries_init(&v.init), false);
                Ok(((), st))
            } else {
                match stmts::list_init(&v.init) {
                    Some(es) => {
                        match global_list(nest, st, v, es) {
                            Ok((_, st)) => {
                                Ok(((), st))
                            },
                            Err(e) => Err(e),
                        }
                    },
                    _ => {
                        if lower::is_vec_ty(&v.ty) || lower::is_any_ty(&v.ty) && stmts::empty_vec_init(&v.init) {
                            let st = global_zero(st, v.name@, t, false);
                            let st = state::note_vec(st, v.name@);
                            Ok(((), st))
                        } else {
                            let st = if lower::is_str_ty(&v.ty) {
                                state::note_str(st, v.name@)
                            } else {
                                st
                            };
                            match v.init {
                                Some(e) => {
                                    let st = global_single(st, v.name@, t, &e, false);
                                    Ok(((), st))
                                },
                                _ => {
                                    let st = global_zero(st, v.name@, t, false);
                                    Ok(((), st))
                                },
                            }
                        }
                    },
                }
            }
        },
        Err(e) => Err(e),
    }
}

impl<'a> Codegen<'a> {
    /// The address of a constant string.
    pub fn text_const(&mut self, s: &str) -> (out: Operand)
        ensures
            (out, final(self)@) == text_const(old(self)@, s@),
    {
        reveal(text_const);
        let k = self.text(s);
        Operand { val: Val::Text(k), ty: PTR }
    }

    /// An element of a global list of integers; `chars` tells whether characters count.
    pub fn int_elem(&mut self, e: &'a Expr, t: usize, chars: bool) -> (out: Operand)
        ensures
            (out, final(self)@) == int_elem(old(self)@, e, t, chars),
    {
        reveal(int_elem);
        match &e.kind {
            ExprKind::IntLit(v) => {
                return Operand { val: Val::Int(*v), ty: t };
            },
            ExprKind::BoolLit(b) => {
                let k: i64 = self.bit(*b);
                return Operand { val: Val::Int(k), ty: t };
            },
            ExprKind::CharLit(c) => {
                if chars {
                    return Operand { val: Val::Int(*c as u32 as i64), ty: I32 };
                }
                return Operand { val: Val::Zero, ty: t };
            },
            _ => {},
        }
        Operand { val: Val::Zero, ty: t }
    }

    /// An element of a global list of addresses.
    pub fn ptr_elem(&mut self, e: &'a Expr) -> (out: Operand)
        ensures
            (out, final(self)@) == ptr_elem(old(self)@, e),
    {
        reveal(ptr_elem);
        match &e.kind {
            ExprKind::StringLit(s) => {
                let r = self.text_const(s.as_str());
                return r;
            },
            _ => {},
        }
        Operand { val: Val::Null, ty: PTR }
    }

    /// An element of a global list: a literal of its type, else zero.
    pub fn global_elem(&mut self, e: &'a Expr, t: usize, chars: bool) -> (out: Operand)
        ensures
            (out, final(self)@) == global_elem(old(self)@, e, t, chars),
    {
        reveal(global_elem);
        if self.is_int(t) {
            let r = self.int_elem(e, t, chars);
            return r;
        }
        if self.is_ptr(t) {
            let r = self.ptr_elem(e);
            return r;
        }
        Operand { val: Val::Zero, ty: t }
    }

    /// Adds the elements `i..end` of a global list.
    pub fn add_elems(&mut self, es: &'a Vec<Expr>, i: usize, end: usize, t: usize, chars: bool)
        ensures
            final(self)@ == add_elems(old(self)@, es, i, end, t, chars),
        decreases es.len() - i,
    {
        reveal(add_elems);
        if i >= es.len() || i >= end {
            return;
        }
        let v = self.global_elem(&es[i], t, chars);
        self.add_const(v);
        self.add_elems(es, i + 1, end, t, chars);
    }

    /// Adds the entries of a global map from `i` on, as far as they fit.
    pub fn add_entries(&mut self, es: &'a Vec<MapEntry>, i: usize, k: usize, v: usize)
        ensures
            final(self)@ == add_entries(old(self)@, es, i, k, v),
        decreases es.len() - i,
    {
        reveal(add_entries);
        if i >= es.len() || i >= 16 {
            return;
        }
        let a = self.global_elem(&es[i].key, k, true);
        self.add_const(a);
        let b = self.global_elem(&es[i].value, v, true);
        self.add_const(b);
        self.add_entries(es, i + 1, k, v);
    }

    /// The smaller of two numbers.
    pub fn at_most(&self, n: usize, m: usize) -> (out: usize)
        ensures
            out == at_most(n, m),
    {
        reveal(at_most);
        if n < m {
            return n;
        }
        m
    }

    /// Declares a global map.
    pub fn global_map(&mut self, name: &str, t: usize, es: Option<&'a Vec<MapEntry>>, constant: bool)
        ensures
            final(self)@ == global_map(old(self)@, name@, t, es, constant),
    {
        reveal(global_map);
        let first: usize = self.const_count();
        match es {
            Some(v) => {
                let keys: usize = self.struct_elem(t, 0);
                let vals: usize = self.struct_elem(t, 1);
                self.add_entries(v, 0, self.array_elem(keys), self.array_elem(vals));
                let n: usize = self.at_most(v.len(), 16);
                self.add_global(name, GlobalInfo { ty: t, is_constant: constant, first: first, count: self.minus(self.const_count(), first), len: n as u64, form: GlobalForm::Mapping });
                self.note_map(name);
                return;
            },
            _ => {},
        }
        self.add_global(name, GlobalInfo { ty: t, is_constant: constant, first: first, count: 0, len: 0, form: GlobalForm::Mapping });
        self.note_map(name);
    }

    /// Declares a global that starts as zero.
    pub fn global_zero(&mut self, name: &str, t: usize, constant: bool)
        ensures
            final(self)@ == global_zero(old(self)@, name@, t, constant),
    {
        reveal(global_zero);
        self.add_global(name, GlobalInfo { ty: t, is_constant: constant, first: 0, count: 0, len: 0, form: GlobalForm::Zero });
    }

    /// Declares a global vector with its elements, as far as they fit.
    pub fn global_vec(&mut self, name: &str, t: usize, es: &'a Vec<Expr>)
        ensures
            final(self)@ == global_vec(old(self)@, name@, t, es),
    {
        reveal(global_vec);
        let buf: usize = self.struct_elem(t, 0);
        let first: usize = self.const_count();
        let n: usize = self.at_most(es.len(), 16);
        self.add_elems(es, 0, n, self.array_elem(buf), false);
        self.add_global(name, GlobalInfo { ty: t, is_constant: false, first: first, count: n, len: n as u64, form: GlobalForm::Vector });
    }

    /// Declares a global array; only integers keep their elements.
    pub fn global_array(&mut self, name: &str, t: usize, es: &'a Vec<Expr>)
        ensures
            final(self)@ == global_array(old(self)@, name@, t, es),
    {
        reveal(global_array);
        let el: usize = self.array_elem(t);
        if self.is_int(el) {
            let first: usize = self.const_count();
            let n: usize = self.fit_len(es.len(), self.array_len(t));
            self.add_elems(es, 0, n, el, true);
            self.add_global(name, GlobalInfo { ty: t, is_constant: false, first: first, count: n, len: 0, form: GlobalForm::Elements });
            return;
        }
        self.global_zero(name, t, false);
    }

    /// How many of `n` elements fit in an array of `m`.
    pub fn fit_len(&self, n: usize, m: u64) -> (out: usize)
        ensures
            out == fit_len(n, m),
    {
        reveal(fit_len);
        if (n as u64) < m {
            return n;
        }
        m as usize
    }

    /// The constant that a global starts with: a literal, else zero; `floats` tells whether floating-point numbers count.
    pub fn single(&mut self, e: &'a Expr, t: usize, floats: bool) -> (out: Operand)
        ensures
            (out, final(self)@) == single(old(self)@, e, t, floats),
    {
        reveal(single);
        match &e.kind {
            ExprKind::IntLit(v) => {
                if self.is_int(t) {
                    return Operand { val: Val::Int(*v), ty: t };
                }
                return Operand { val: Val::Int(*v), ty: I64 };
            },
            ExprKind::BoolLit(b) => {
                return Operand { val: Val::Int(self.bit(*b)), ty: I1 };
            },
            ExprKind::StringLit(s) => {
                let r = self.text_const(s.as_str());
                return r;
            },
            ExprKind::CharLit(c) => {
                return Operand { val: Val::Int(*c as u32 as i64), ty: I32 };
            },
            ExprKind::FloatLit(s) => {
                if floats {
                    let k = self.text(s.as_str());
                    return Operand { val: Val::Float(k), ty: F64 };
                }
                return Operand { val: Val::Zero, ty: t };
            },
            _ => {},
        }
        Operand { val: Val::Zero, ty: t }
    }

    /// Declares a global with one value.
    pub fn global_single(&mut self, name: &str, t: usize, e: &'a Expr, constant: bool)
        ensures
            final(self)@ == global_single(old(self)@, name@, t, e, constant),
    {
        reveal(global_single);
        let first: usize = self.const_count();
        let v = self.single(e, t, !constant);
        self.add_const(v);
        self.add_global(name, GlobalInfo { ty: t, is_constant: constant, first: first, count: 1, len: 0, form: GlobalForm::Single });
    }

    /// The type of a constant, as its literal tells.
    pub fn const_ty(&self, e: &'a Expr) -> (out: usize)
        ensures
            out == const_ty(e),
    {
        reveal(const_ty);
        self.lit_ty(e)
    }

    /// Declares a global constant.
    pub fn declare_const(&mut self, depth: usize, c: &'a ConstDecl) -> (out: Result<(), CodegenError>)
        ensures
            match out {
                Ok(made) => declare_const(nest::nest(depth as nat), old(self)@, c) == Ok::<((), State<'a>), Failure<'a>>((made, final(self)@)),
                Err(trouble) => declare_const(nest::nest(depth as nat), old(self)@, c) == Err::<((), State<'a>), Failure<'a>>(Failure { trouble: trouble@, after: final(self)@ }),
            },
        decreases depth, 6int, 0int,
    {
        reveal(declare_const);
        match &c.ty {
            Some(t) => {
                if self.is_map_ty(t) {
                    let m = match self.map_ty(depth, t, self.entries_in(&c.init)) {
                        Ok(v) => v,
                        Err(e) => {
                            return Err(e);
                        },
                    };
                    self.global_map(c.name.as_str(), m, self.entries_in(&c.init), true);
                    return Ok(());
                }
                let k = match self.nested_ty(depth, t) {
                    Ok(v) => v,
                    Err(e) => {
                        return Err(e);
                    },
                };
                self.global_single(c.name.as_str(), k, &c.init, true);
                if self.is_str_ty(t) {
                    self.note_str(c.name.as_str());
                }
                return Ok(());
            },
            _ => {},
        }
        match self.entries_in(&c.init) {
            Some(es) => {
                let m = self.lit_map_ty(es);
                self.global_map(c.name.as_str(), m, Some(es), true);
                return Ok(());
            },
            _ => {},
        }
        self.global_single(c.name.as_str(), self.const_ty(&c.init), &c.init, true);
        Ok(())
    }

    /// Declares a global variable that starts with a list.
    pub fn global_list(&mut self, depth: usize, v: &'a VarDecl, es: &'a Vec<Expr>) -> (out: Result<(), CodegenError>)
        ensures
            match out {
                Ok(made) => global_list(nest::nest(depth as nat), old(self)@, v, es) == Ok::<((), State<'a>), Failure<'a>>((made, final(self)@)),
                Err(trouble) => global_list(nest::nest(depth as nat), old(self)@, v, es) == Err::<((), State<'a>), Failure<'a>>(Failure { trouble: trouble@, after: final(self)@ }),
            },
        decreases depth, 6int, 0int,
    {
        reveal(global_list);
        let t = match self.var_ty(depth, &v.ty, &v.init) {
            Ok(v) => v,
            Err(e) => {
                return Err(e);
            },
        };
        if self.is_vec_ty(&v.ty) {
            self.global_vec(v.name.as_str(), t, es);
            self.note_vec(v.name.as_str());
            return Ok(());
        }
        if self.is_fixed(&v.ty) && self.is_array(t) {
            self.global_array(v.name.as_str(), t, es);
            return Ok(());
        }
        self.global_zero(v.name.as_str(), t, false);
        if self.is_str_ty(&v.ty) {
            self.note_str(v.name.as_str());
        }
        Ok(())
    }

    /// Declares a global variable.
    pub fn declare_global(&mut self, depth: usize, v: &'a VarDecl) -> (out: Result<(), CodegenError>)
        ensures
            match out {
                Ok(made) => declare_global(nest::nest(depth as nat), old(self)@, v) == Ok::<((), State<'a>), Failure<'a>>((made, final(self)@)),
                Err(trouble) => declare_global(nest::nest(depth as nat), old(self)@, v) == Err::<((), State<'a>), Failure<'a>>(Failure { trouble: trouble@, after: final(self)@ }),
            },
        decreases depth, 7int, 0int,
    {
        reveal(declare_global);
        let t = match self.var_ty(depth, &v.ty, &v.init) {
            Ok(v) => v,
            Err(e) => {
                return Err(e);
            },
        };
        if self.is_map_ty(&v.ty) || self.is_any_ty(&v.ty) && self.has_entries(&v.init) {
            self.global_map(v.name.as_str(), t, self.entries_init(&v.init), false);
            return Ok(());
        }
        match self.list_init(&v.init) {
            Some(es) => {
                if let Err(e) = self.global_list(depth, v, es) {
                    return Err(e);
                }
                return Ok(());
            },
            _ => {},
        }
        if self.is_vec_ty(&v.ty) || self.is_any_ty(&v.ty) && self.empty_vec_init(&v.init) {
            self.global_zero(v.name.as_str(), t, false);
            self.note_vec(v.name.as_str());
            return Ok(());
        }
        if self.is_str_ty(&v.ty) {
            self.note_str(v.name.as_str());
        }
        match &v.init {
            Some(e) => {
                self.global_single(v.name.as_str(), t, e, false);
                return Ok(());
            },
            _ => {},
        }
        self.global_zero(v.name.as_str(), t, false);
        Ok(())
    }
}

} // verus!
