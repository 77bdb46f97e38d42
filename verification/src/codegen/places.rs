//! Addresses of variables and fields.
use vstd::prelude::*;
use crate::ast::{
    Expr, ExprKind,
};
use crate::codegen::ir::Operand;
use crate::codegen::lower;
use crate::codegen::nest;
use crate::codegen::nest::Nest;
use crate::codegen::state;
use crate::codegen::state::{Codegen, CodegenError, Failure, State, Trouble, base_of, fault, fault_naming, fault_naming_two};
use crate::token::Span;

verus! {

/// Whether a name stands for a variable.
#[verifier::opaque]
pub open spec fn is_bound<'a>(st: State<'a>, n: Seq<char>) -> bool
{
    match state::lookup_var(st, n) {
        Some(_) => {
            true
        },
        _ => {
            false
        },
    }
}

/// The object that a method works on.
#[verifier::opaque]
pub open spec fn this_ptr<'a>(st: State<'a>, span: Span) -> Result<(Operand, State<'a>), Failure<'a>>
{
    match state::lookup_var(st, "this"@) {
        Some(v) => {
            match state::this_class(st) {
                Some(l) => {
                    let (p, st) = lower::load(st, v);
                    let (t, st) = lower::class_ty(st, l);
                    Ok((Operand { val: p.val, ty: t }, st))
                },
                _ => {
                    Err(Failure { trouble: Trouble { message: "`this`/`super` outside method"@, span: span }, after: st })
                },
            }
        },
        _ => {
            Err(Failure { trouble: Trouble { message: "`this`/`super` outside method"@, span: span }, after: st })
        },
    }
}

/// A variable of a declared type.
#[verifier::opaque]
pub open spec fn struct_var<'a>(st: State<'a>, v: Operand) -> Result<(Operand, State<'a>), Failure<'a>>
{
    match lower::layout_of(st, v.ty) {
        Some(_) => {
            Ok((v, st))
        },
        _ => {
            if lower::is_struct(st, v.ty) {
                Err(Failure { trouble: Trouble { message: "struct type not found"@, span: Span { start: 0, end: 0 } }, after: st })
            } else {
                Err(Failure { trouble: Trouble { message: "variable is not struct"@, span: Span { start: 0, end: 0 } }, after: st })
            }
        },
    }
}

/// The struct whose field is accessed.
#[verifier::opaque]
pub open spec fn base_ptr<'a>(nest: Nest<'a>, st: State<'a>, o: &'a Expr) -> Result<(Operand, State<'a>), Failure<'a>>
{
    match o.kind {
        ExprKind::Ident(n) => {
            match state::lookup_var(st, n@) {
                Some(v) => {
                    struct_var(st, v)
                },
                _ => {
                    let b = state::base_name(n@);
                    match state::lookup_var(st, b) {
                        Some(v) => {
                            struct_var(st, v)
                        },
                        _ => {
                            Err(Failure { trouble: state::naming("undefined var "@, n@, ""@, o.span), after: st })
                        },
                    }
                },
            }
        },
        ExprKind::This => {
            this_ptr(st, o.span)
        },
        ExprKind::Super => {
            this_ptr(st, o.span)
        },
        ExprKind::Member(_, _) => {
            match (nest.place)(st, o) {
                Ok((v, st)) => {
                    match lower::layout_of(st, v.ty) {
                        Some(_) => {
                            Ok((v, st))
                        },
                        _ => {
                            Err(Failure { trouble: Trouble { message: "resolve base not struct"@, span: o.span }, after: st })
                        },
                    }
                },
                Err(e) => Err(e),
            }
        },
        _ => {
            Err(Failure { trouble: Trouble { message: "field access base must be variable or field"@, span: o.span }, after: st })
        },
    }
}

/// The address of a field.
#[verifier::opaque]
pub open spec fn field_ptr<'a>(nest: Nest<'a>, st: State<'a>, o: &'a Expr, f: Seq<char>) -> Result<(Operand, State<'a>), Failure<'a>>
{
    match base_ptr(nest, st, o) {
        Ok((p, st)) => {
            match lower::layout_of(st, p.ty) {
                Some(l) => {
                    if state::is_enum(st, l) {
                        let e = state::layout_name(st, l);
                        Err(Failure { trouble: state::naming("unknown struct "@, e, ""@, o.span), after: st })
                    } else {
                        match state::field_entry(st, f, l) {
                            Some(k) => {
                                let info = state::field_info(st, k);
                                let (r, st) = lower::field_at(st, p.ty, p.val, info.index);
                                Ok((Operand { val: r, ty: info.ty }, st))
                            },
                            _ => {
                                let s = state::layout_name(st, l);
                                Err(Failure { trouble: state::naming_two("struct "@, s, " has no field "@, f, ""@, o.span), after: st })
                            },
                        }
                    }
                },
                _ => {
                    Err(Failure { trouble: Trouble { message: "variable is not struct"@, span: Span { start: 0, end: 0 } }, after: st })
                },
            }
        },
        Err(e) => Err(e),
    }
}

/// The address of a variable, of the object of a method, or of a field.
#[verifier::opaque]
pub open spec fn place<'a>(nest: Nest<'a>, st: State<'a>, e: &'a Expr) -> Result<(Operand, State<'a>), Failure<'a>>
{
    match e.kind {
        ExprKind::Ident(n) => {
            match state::lookup_var(st, n@) {
                Some(v) => {
                    Ok((v, st))
                },
                _ => {
                    Err(Failure { trouble: state::naming("undefined var "@, n@, ""@, e.span), after: st })
                },
            }
        },
        ExprKind::This => {
            if is_bound(st, "this"@) {
                this_ptr(st, e.span)
            } else {
                Err(Failure { trouble: Trouble { message: "`this` outside method"@, span: e.span }, after: st })
            }
        },
        ExprKind::Member(o, f) => {
            field_ptr(nest, st, &*o, f@)
        },
        _ => {
            Err(Failure { trouble: Trouble { message: "cannot take pointer of expression for property/method"@, span: e.span }, after: st })
        },
    }
}

impl<'a> Codegen<'a> {
    /// Whether a name stands for a variable.
    pub fn is_bound(&self, n: &str) -> (out: bool)
        ensures
            out == is_bound(self@, n@),
    {
        reveal(is_bound);
        match self.lookup_var(n) {
            Some(_) => {
                return true;
            },
            _ => {},
        }
        false
    }

    /// The object that a method works on.
    pub fn this_ptr(&mut self, span: Span) -> (out: Result<Operand, CodegenError>)
        ensures
            match out {
                Ok(made) => this_ptr(old(self)@, span) == Ok::<(Operand, State<'a>), Failure<'a>>((made, final(self)@)),
                Err(trouble) => this_ptr(old(self)@, span) == Err::<(Operand, State<'a>), Failure<'a>>(Failure { trouble: trouble@, after: final(self)@ }),
            },
    {
        reveal(this_ptr);
        match self.lookup_var("this") {
            Some(v) => {
                match self.this_class() {
                    Some(l) => {
                        let p = self.load(v);
                        let t = self.class_ty(l);
                        return Ok(Operand { val: p.val, ty: t });
                    },
                    _ => {},
                }
                return Err(fault("`this`/`super` outside method", span));
            },
            _ => {},
        }
        Err(fault("`this`/`super` outside method", span))
    }

    /// A variable of a declared type.
    pub fn struct_var(&mut self, v: Operand) -> (out: Result<Operand, CodegenError>)
        ensures
            match out {
                Ok(made) => struct_var(old(self)@, v) == Ok::<(Operand, State<'a>), Failure<'a>>((made, final(self)@)),
                Err(trouble) => struct_var(old(self)@, v) == Err::<(Operand, State<'a>), Failure<'a>>(Failure { trouble: trouble@, after: final(self)@ }),
            },
    {
        reveal(struct_var);
        match self.layout_of(v.ty) {
            Some(_) => {
                return Ok(v);
            },
            _ => {},
        }
        if self.is_struct(v.ty) {
            return Err(fault("struct type not found", Span { start: 0, end: 0 }));
        }
        Err(fault("variable is not struct", Span { start: 0, end: 0 }))
    }

    /// The struct whose field is accessed.
    pub fn base_ptr(&mut self, depth: usize, o: &'a Expr) -> (out: Result<Operand, CodegenError>)
        ensures
            match out {
                Ok(made) => base_ptr(nest::nest(depth as nat), old(self)@, o) == Ok::<(Operand, State<'a>), Failure<'a>>((made, final(self)@)),
                Err(trouble) => base_ptr(nest::nest(depth as nat), old(self)@, o) == Err::<(Operand, State<'a>), Failure<'a>>(Failure { trouble: trouble@, after: final(self)@ }),
            },
        decreases depth, 3int, 0int,
    {
        reveal(base_ptr);
        match &o.kind {
            ExprKind::Ident(n) => {
                match self.lookup_var(n.as_str()) {
                    Some(v) => {
                        let r = match self.struct_var(v) {
                            Ok(v) => v,
                            Err(e) => {
                                return Err(e);
                            },
                        };
                        return Ok(r);
                    },
                    _ => {},
                }
                let b_text = base_of(n.as_str());
                let b = b_text.as_str();
                match self.lookup_var(b) {
                    Some(v) => {
                        let r = match self.struct_var(v) {
                            Ok(v) => v,
                            Err(e) => {
                                return Err(e);
                            },
                        };
                        return Ok(r);
                    },
                    _ => {},
                }
                return Err(fault_naming("undefined var ", n.as_str(), "", o.span));
            },
            ExprKind::This => {
                let r = match self.this_ptr(o.span) {
                    Ok(v) => v,
                    Err(e) => {
                        return Err(e);
                    },
                };
                return Ok(r);
            },
            ExprKind::Super => {
                let r = match self.this_ptr(o.span) {
                    Ok(v) => v,
                    Err(e) => {
                        return Err(e);
                    },
                };
                return Ok(r);
            },
            ExprKind::Member(_, _) => {
                let v = match self.nested_place(depth, o) {
                    Ok(v) => v,
                    Err(e) => {
                        return Err(e);
                    },
                };
                match self.layout_of(v.ty) {
                    Some(_) => {
                        return Ok(v);
                    },
                    _ => {},
                }
                return Err(fault("resolve base not struct", o.span));
            },
            _ => {},
        }
        Err(fault("field access base must be variable or field", o.span))
    }

    /// The address of a field.
    pub fn field_ptr(&mut self, depth: usize, o: &'a Expr, f: &str) -> (out: Result<Operand, CodegenError>)
        ensures
            match out {
                Ok(made) => field_ptr(nest::nest(depth as nat), old(self)@, o, f@) == Ok::<(Operand, State<'a>), Failure<'a>>((made, final(self)@)),
                Err(trouble) => field_ptr(nest::nest(depth as nat), old(self)@, o, f@) == Err::<(Operand, State<'a>), Failure<'a>>(Failure { trouble: trouble@, after: final(self)@ }),
            },
        decreases depth, 4int, 0int,
    {
        reveal(field_ptr);
        let p = match self.base_ptr(depth, o) {
            Ok(v) => v,
            Err(e) => {
                return Err(e);
            },
        };
        match self.layout_of(p.ty) {
            Some(l) => {
                if self.is_enum(l) {
                    let e_text = self.layout_name_of(l);
                    let e = e_text.as_str();
                    return Err(fault_naming("unknown struct ", e, "", o.span));
                }
                match self.field_entry(f, l) {
                    Some(k) => {
                        let info = self.field_info(k);
                        let r = self.field_at(p.ty, p.val, info.index);
                        return Ok(Operand { val: r, ty: info.ty });
                    },
                    _ => {},
                }
                let s_text = self.layout_name_of(l);
                let s = s_text.as_str();
                return Err(fault_naming_two("struct ", s, " has no field ", f, "", o.span));
            },
            _ => {},
        }
        Err(fault("variable is not struct", Span { start: 0, end: 0 }))
    }

    /// The address of a variable, of the object of a method, or of a field.
    pub fn place(&mut self, depth: usize, e: &'a Expr) -> (out: Result<Operand, CodegenError>)
        ensures
            match out {
                Ok(made) => place(nest::nest(depth as nat), old(self)@, e) == Ok::<(Operand, State<'a>), Failure<'a>>((made, final(self)@)),
                Err(trouble) => place(nest::nest(depth as nat), old(self)@, e) == Err::<(Operand, State<'a>), Failure<'a>>(Failure { trouble: trouble@, after: final(self)@ }),
            },
        decreases depth, 5int, 0int,
    {
        reveal(place);
        match &e.kind {
            ExprKind::Ident(n) => {
                match self.lookup_var(n.as_str()) {
                    Some(v) => {
                        return Ok(v);
                    },
                    _ => {},
                }
                return Err(fault_naming("undefined var ", n.as_str(), "", e.span));
            },
            ExprKind::This => {
                if self.is_bound("this") {
                    let r = match self.this_ptr(e.span) {
                        Ok(v) => v,
                        Err(e) => {
                            return Err(e);
                        },
                    };
                    return Ok(r);
                }
                return Err(fault("`this` outside method", e.span));
            },
            ExprKind::Member(o, f) => {
                let r = match self.field_ptr(depth, o, f.as_str()) {
                    Ok(v) => v,
                    Err(e) => {
                        return Err(e);
                    },
                };
                return Ok(r);
            },
            _ => {},
        }
        Err(fault("cannot take pointer of expression for property/method", e.span))
    }

    /// As `place`, one level deeper; nothing can be lowered below the deepest level.
    pub fn nested_place(&mut self, depth: usize, e: &'a Expr) -> (out: Result<Operand, CodegenError>)
        ensures
            match out {
                Ok(made) => (nest::nest(depth as nat).place)(old(self)@, e) == Ok::<(Operand, State<'a>), Failure<'a>>((made, final(self)@)),
                Err(trouble) => (nest::nest(depth as nat).place)(old(self)@, e) == Err::<(Operand, State<'a>), Failure<'a>>(Failure { trouble: trouble@, after: final(self)@ }),
            },
        decreases depth, 0int, 0int,
    {
        reveal(nest::nest);
        if depth == 0 {
            Err(fault("nested too deeply", Span { start: 0, end: 0 }))
        } else {
            self.place(depth - 1, e)
        }
    }
}

} // verus!
