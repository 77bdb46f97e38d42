//! What is known of the type of an expression without lowering it.
use vstd::prelude::*;
use crate::ast::{
    Expr, ExprKind,
};
use crate::codegen::ir::{
    Guess, TyDef,
};
use crate::codegen::nest;
use crate::codegen::nest::Nest;
use crate::codegen::state;
use crate::codegen::state::{Codegen, CodegenError, State, Trouble, base_of, fault, fault_naming, fault_naming_two};
use crate::token::Span;

verus! {

/// What a lowered type tells.
#[verifier::opaque]
pub open spec fn guess_ty<'a>(st: State<'a>, t: usize) -> Option<Guess>
{
    match state::def(st, t) {
        TyDef::Named(l) => {
            if state::is_enum(st, l) {
                Some(Guess::Enum(l))
            } else {
                Some(Guess::Struct(l))
            }
        },
        TyDef::Int(n) => {
            if n == 1 {
                Some(Guess::Bool)
            } else {
                Some(Guess::Int)
            }
        },
        TyDef::Ptr => {
            Some(Guess::Pointer)
        },
        TyDef::Array(_, _) => {
            Some(Guess::List)
        },
        _ => {
            None
        },
    }
}

/// What the name of a declared type tells.
#[verifier::opaque]
pub open spec fn guess_layout<'a>(st: State<'a>, n: Seq<char>) -> Option<Guess>
{
    match state::layout(st, n) {
        Some(l) => {
            if state::is_enum(st, l) {
                Some(Guess::Enum(l))
            } else {
                Some(Guess::Struct(l))
            }
        },
        _ => {
            None
        },
    }
}

/// What the type of a local variable tells.
#[verifier::opaque]
pub open spec fn guess_local<'a>(st: State<'a>, n: Seq<char>) -> Option<Guess>
{
    match state::local_var(st, n) {
        Some(v) => {
            guess_ty(st, v.ty)
        },
        _ => {
            None
        },
    }
}

/// What a name tells.
#[verifier::opaque]
pub open spec fn infer_name<'a>(st: State<'a>, n: Seq<char>, span: Span) -> Result<Guess, Trouble>
{
    if state::is_vec(st, n) {
        Ok(Guess::Vector)
    } else if state::is_map(st, n) {
        Ok(Guess::Mapping)
    } else {
        let b = state::base_name(n);
        match guess_local(st, n) {
            Some(g) => {
                Ok(g)
            },
            _ => {
                match guess_local(st, b) {
                    Some(g) => {
                        Ok(g)
                    },
                    _ => {
                        match guess_layout(st, n) {
                            Some(g) => {
                                Ok(g)
                            },
                            _ => {
                                match guess_layout(st, b) {
                                    Some(g) => {
                                        Ok(g)
                                    },
                                    _ => {
                                        Err(state::naming("cannot infer type of "@, n, ""@, span))
                                    },
                                }
                            },
                        }
                    },
                }
            },
        }
    }
}

/// What a field of a struct tells.
#[verifier::opaque]
pub open spec fn infer_field<'a>(st: State<'a>, l: usize, f: Seq<char>, span: Span) -> Result<Guess, Trouble>
{
    match state::field_entry(st, f, l) {
        Some(k) => {
            let info = state::field_info(st, k);
            match guess_ty(st, info.ty) {
                Some(Guess::Int) => {
                    Ok(Guess::Int)
                },
                Some(Guess::Bool) => {
                    Ok(Guess::Bool)
                },
                Some(Guess::Struct(m)) => {
                    Ok(Guess::Struct(m))
                },
                Some(Guess::Enum(m)) => {
                    Ok(Guess::Struct(m))
                },
                _ => {
                    Err(Trouble { message: "unsupported field type inference"@, span: span })
                },
            }
        },
        _ => {
            Err(state::naming("no field "@, f, ""@, span))
        },
    }
}

/// What a member access tells.
#[verifier::opaque]
pub open spec fn infer_member<'a>(nest: Nest<'a>, st: State<'a>, o: &'a Expr, f: Seq<char>, span: Span) -> Result<Guess, Trouble>
{
    match (nest.infer)(st, o) {
        Ok(g) => {
            match g {
                Guess::Struct(l) => {
                    infer_field(st, l, f, span)
                },
                Guess::Enum(l) => {
                    match state::tag_entry(st, f, l) {
                        Some(_) => {
                            Ok(Guess::Enum(l))
                        },
                        _ => {
                            let s = state::layout_name(st, l);
                            Err(state::naming_two("enum `"@, s, "` has no variant `"@, f, "`"@, span))
                        },
                    }
                },
                _ => {
                    Err(Trouble { message: "member access inference on non-struct"@, span: span })
                },
            }
        },
        Err(e) => Err(e),
    }
}

/// Whether the types of all expressions from `i` on can be told.
#[verifier::opaque]
pub open spec fn infer_all<'a>(nest: Nest<'a>, st: State<'a>, es: &'a Vec<Expr>, i: usize) -> Result<Guess, Trouble>
    decreases es.len() - i,
{
    if i >= es.len() {
        Ok(Guess::Tuple)
    } else {
        match (nest.infer)(st, &es@[i as int]) {
            Ok(g) => {
                infer_all(nest, st, es, (i + 1) as usize)
            },
            Err(e) => Err(e),
        }
    }
}

/// What is known of the type of an expression.
#[verifier::opaque]
pub open spec fn infer<'a>(nest: Nest<'a>, st: State<'a>, e: &'a Expr) -> Result<Guess, Trouble>
{
    match e.kind {
        ExprKind::Ident(n) => {
            infer_name(st, n@, e.span)
        },
        ExprKind::This => {
            match state::this_class(st) {
                Some(l) => {
                    Ok(Guess::Struct(l))
                },
                _ => {
                    Err(Trouble { message: "`this`/`super` outside method"@, span: e.span })
                },
            }
        },
        ExprKind::Super => {
            match state::this_class(st) {
                Some(l) => {
                    Ok(Guess::Struct(l))
                },
                _ => {
                    Err(Trouble { message: "`this`/`super` outside method"@, span: e.span })
                },
            }
        },
        ExprKind::Member(o, f) => {
            infer_member(nest, st, &*o, f@, e.span)
        },
        ExprKind::IntLit(_) => {
            Ok(Guess::Int)
        },
        ExprKind::FloatLit(_) => {
            Ok(Guess::Double)
        },
        ExprKind::BoolLit(_) => {
            Ok(Guess::Bool)
        },
        ExprKind::StringLit(_) => {
            Ok(Guess::Str)
        },
        ExprKind::CharLit(_) => {
            Ok(Guess::Char)
        },
        ExprKind::Null => {
            Ok(Guess::Any)
        },
        ExprKind::Tuple(es) => {
            infer_all(nest, st, &es, 0)
        },
        ExprKind::ArrayLit(es) => {
            if es.len() == 0 {
                Ok(Guess::List)
            } else {
                match (nest.infer)(st, &es@[0 as int]) {
                    Ok(g) => {
                        Ok(Guess::List)
                    },
                    Err(e) => Err(e),
                }
            }
        },
        ExprKind::VecEmpty => {
            Ok(Guess::Vector)
        },
        ExprKind::MapLit { ty: _, entries } => {
            if entries.len() == 0 {
                Ok(Guess::Mapping)
            } else {
                match (nest.infer)(st, &entries@[0 as int].key) {
                    Ok(a) => {
                        match (nest.infer)(st, &entries@[0 as int].value) {
                            Ok(b) => {
                                Ok(Guess::Mapping)
                            },
                            Err(e) => Err(e),
                        }
                    },
                    Err(e) => Err(e),
                }
            }
        },
        ExprKind::Paren(inner) => {
            (nest.infer)(st, &*inner)
        },
        _ => {
            Err(Trouble { message: "cannot infer type of this expr for struct GEP"@, span: e.span })
        },
    }
}

impl<'a> Codegen<'a> {
    /// What a lowered type tells.
    pub fn guess_ty(&self, t: usize) -> (out: Option<Guess>)
        ensures
            out == guess_ty(self@, t),
    {
        reveal(guess_ty);
        match self.def(t) {
            TyDef::Named(l) => {
                if self.is_enum(l) {
                    return Some(Guess::Enum(l));
                }
                return Some(Guess::Struct(l));
            },
            TyDef::Int(n) => {
                if n == 1 {
                    return Some(Guess::Bool);
                }
                return Some(Guess::Int);
            },
            TyDef::Ptr => {
                return Some(Guess::Pointer);
            },
            TyDef::Array(_, _) => {
                return Some(Guess::List);
            },
            _ => {},
        }
        None
    }

    /// What the name of a declared type tells.
    pub fn guess_layout(&self, n: &str) -> (out: Option<Guess>)
        ensures
            out == guess_layout(self@, n@),
    {
        reveal(guess_layout);
        match self.layout(n) {
            Some(l) => {
                if self.is_enum(l) {
                    return Some(Guess::Enum(l));
                }
                return Some(Guess::Struct(l));
            },
            _ => {},
        }
        None
    }

    /// What the type of a local variable tells.
    pub fn guess_local(&self, n: &str) -> (out: Option<Guess>)
        ensures
            out == guess_local(self@, n@),
    {
        reveal(guess_local);
        match self.local_var(n) {
            Some(v) => {
                return self.guess_ty(v.ty);
            },
            _ => {},
        }
        None
    }

    /// What a name tells.
    pub fn infer_name(&self, n: &str, span: Span) -> (out: Result<Guess, CodegenError>)
        ensures
            match out {
                Ok(made) => infer_name(self@, n@, span) == Ok::<Guess, Trouble>(made),
                Err(trouble) => infer_name(self@, n@, span) == Err::<Guess, Trouble>(trouble@),
            },
    {
        reveal(infer_name);
        if self.is_vec(n) {
            return Ok(Guess::Vector);
        }
        if self.is_map(n) {
            return Ok(Guess::Mapping);
        }
        let b_text = base_of(n);
        let b = b_text.as_str();
        match self.guess_local(n) {
            Some(g) => {
                return Ok(g);
            },
            _ => {},
        }
        match self.guess_local(b) {
            Some(g) => {
                return Ok(g);
            },
            _ => {},
        }
        match self.guess_layout(n) {
            Some(g) => {
                return Ok(g);
            },
            _ => {},
        }
        match self.guess_layout(b) {
            Some(g) => {
                return Ok(g);
            },
            _ => {},
        }
        Err(fault_naming("cannot infer type of ", n, "", span))
    }

    /// What a field of a struct tells.
    pub fn infer_field(&self, l: usize, f: &str, span: Span) -> (out: Result<Guess, CodegenError>)
        ensures
            match out {
                Ok(made) => infer_field(self@, l, f@, span) == Ok::<Guess, Trouble>(made),
                Err(trouble) => infer_field(self@, l, f@, span) == Err::<Guess, Trouble>(trouble@),
            },
    {
        reveal(infer_field);
        match self.field_entry(f, l) {
            Some(k) => {
                let info = self.field_info(k);
                match self.guess_ty(info.ty) {
                    Some(Guess::Int) => {
                        return Ok(Guess::Int);
                    },
                    Some(Guess::Bool) => {
                        return Ok(Guess::Bool);
                    },
                    Some(Guess::Struct(m)) => {
                        return Ok(Guess::Struct(m));
                    },
                    Some(Guess::Enum(m)) => {
                        return Ok(Guess::Struct(m));
                    },
                    _ => {},
                }
                return Err(fault("unsupported field type inference", span));
            },
            _ => {},
        }
        Err(fault_naming("no field ", f, "", span))
    }

    /// What a member access tells.
    pub fn infer_member(&self, depth: usize, o: &'a Expr, f: &str, span: Span) -> (out: Result<Guess, CodegenError>)
        ensures
            match out {
                Ok(made) => infer_member(nest::nest(depth as nat), self@, o, f@, span) == Ok::<Guess, Trouble>(made),
                Err(trouble) => infer_member(nest::nest(depth as nat), self@, o, f@, span) == Err::<Guess, Trouble>(trouble@),
            },
        decreases depth, 3int, 0int,
    {
        reveal(infer_member);
        let g = match self.nested_infer(depth, o) {
            Ok(v) => v,
            Err(e) => {
                return Err(e);
            },
        };
        match g {
            Guess::Struct(l) => {
                let r = match self.infer_field(l, f, span) {
                    Ok(v) => v,
                    Err(e) => {
                        return Err(e);
                    },
                };
                return Ok(r);
            },
            Guess::Enum(l) => {
                match self.tag_entry(f, l) {
                    Some(_) => {
                        return Ok(Guess::Enum(l));
                    },
                    _ => {},
                }
                let s_text = self.layout_name_of(l);
                let s = s_text.as_str();
                return Err(fault_naming_two("enum `", s, "` has no variant `", f, "`", span));
            },
            _ => {},
        }
        Err(fault("member access inference on non-struct", span))
    }

    /// Whether the types of all expressions from `i` on can be told.
    pub fn infer_all(&self, depth: usize, es: &'a Vec<Expr>, i: usize) -> (out: Result<Guess, CodegenError>)
        ensures
            match out {
                Ok(made) => infer_all(nest::nest(depth as nat), self@, es, i) == Ok::<Guess, Trouble>(made),
                Err(trouble) => infer_all(nest::nest(depth as nat), self@, es, i) == Err::<Guess, Trouble>(trouble@),
            },
        decreases depth, 1int, es.len() - i,
    {
        reveal(infer_all);
        if i >= es.len() {
            return Ok(Guess::Tuple);
        }
        let g = match self.nested_infer(depth, &es[i]) {
            Ok(v) => v,
            Err(e) => {
                return Err(e);
            },
        };
        let r = match self.infer_all(depth, es, i + 1) {
            Ok(v) => v,
            Err(e) => {
                return Err(e);
            },
        };
        Ok(r)
    }

    /// What is known of the type of an expression.
    pub fn infer(&self, depth: usize, e: &'a Expr) -> (out: Result<Guess, CodegenError>)
        ensures
            match out {
                Ok(made) => infer(nest::nest(depth as nat), self@, e) == Ok::<Guess, Trouble>(made),
                Err(trouble) => infer(nest::nest(depth as nat), self@, e) == Err::<Guess, Trouble>(trouble@),
            },
        decreases depth, 4int, 0int,
    {
        reveal(infer);
        match &e.kind {
            ExprKind::Ident(n) => {
                let r = match self.infer_name(n.as_str(), e.span) {
                    Ok(v) => v,
                    Err(e) => {
                        return Err(e);
                    },
                };
                return Ok(r);
            },
            ExprKind::This => {
                match self.this_class() {
                    Some(l) => {
                        return Ok(Guess::Struct(l));
                    },
                    _ => {},
                }
                return Err(fault("`this`/`super` outside method", e.span));
            },
            ExprKind::Super => {
                match self.this_class() {
                    Some(l) => {
                        return Ok(Guess::Struct(l));
                    },
                    _ => {},
                }
                return Err(fault("`this`/`super` outside method", e.span));
            },
            ExprKind::Member(o, f) => {
                let r = match self.infer_member(depth, o, f.as_str(), e.span) {
                    Ok(v) => v,
                    Err(e) => {
                        return Err(e);
                    },
                };
                return Ok(r);
            },
            ExprKind::IntLit(_) => {
                return Ok(Guess::Int);
            },
            ExprKind::FloatLit(_) => {
                return Ok(Guess::Double);
            },
            ExprKind::BoolLit(_) => {
                return Ok(Guess::Bool);
            },
            ExprKind::StringLit(_) => {
                return Ok(Guess::Str);
            },
            ExprKind::CharLit(_) => {
                return Ok(Guess::Char);
            },
            ExprKind::Null => {
                return Ok(Guess::Any);
            },
            ExprKind::Tuple(es) => {
                let r = match self.infer_all(depth, es, 0) {
                    Ok(v) => v,
                    Err(e) => {
                        return Err(e);
                    },
                };
                return Ok(r);
            },
            ExprKind::ArrayLit(es) => {
                if es.len() == 0 {
                    return Ok(Guess::List);
                }
                let g = match self.nested_infer(depth, &es[0]) {
                    Ok(v) => v,
                    Err(e) => {
                        return Err(e);
                    },
                };
                return Ok(Guess::List);
            },
            ExprKind::VecEmpty => {
                return Ok(Guess::Vector);
            },
            ExprKind::MapLit { ty: _, entries } => {
                if entries.len() == 0 {
                    return Ok(Guess::Mapping);
                }
                let a = match self.nested_infer(depth, &entries[0].key) {
                    Ok(v) => v,
                    Err(e) => {
                        return Err(e);
                    },
                };
                let b = match self.nested_infer(depth, &entries[0].value) {
                    Ok(v) => v,
                    Err(e) => {
                        return Err(e);
                    },
                };
                return Ok(Guess::Mapping);
            },
            ExprKind::Paren(inner) => {
                let r = match self.nested_infer(depth, inner) {
                    Ok(v) => v,
                    Err(e) => {
                        return Err(e);
                    },
                };
                return Ok(r);
            },
            _ => {},
        }
        Err(fault("cannot infer type of this expr for struct GEP", e.span))
    }

    /// As `infer`, one level deeper; nothing can be lowered below the deepest level.
    pub fn nested_infer(&self, depth: usize, e: &'a Expr) -> (out: Result<Guess, CodegenError>)
        ensures
            match out {
                Ok(made) => (nest::nest(depth as nat).infer)(self@, e) == Ok::<Guess, Trouble>(made),
                Err(trouble) => (nest::nest(depth as nat).infer)(self@, e) == Err::<Guess, Trouble>(trouble@),
            },
        decreases depth, 0int, 0int,
    {
        reveal(nest::nest);
        if depth == 0 {
            Err(fault("nested too deeply", Span { start: 0, end: 0 }))
        } else {
            self.infer(depth - 1, e)
        }
    }
}

} // verus!
