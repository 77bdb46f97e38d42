//! Lowering of types, and conversions between them.
use vstd::prelude::*;
use crate::ast::Type;
use crate::codegen::ir::{
    Arith, Cast, Op, Operand, Pred, Runtime, TyDef,
    Val, F32, F64, I1, I32, I64, NIL,
    PTR,
};
use crate::codegen::nest;
use crate::codegen::nest::Nest;
use crate::codegen::state;
use crate::codegen::state::{Codegen, CodegenError, Failure, State, Trouble, base_of, fault, fault_naming};
use crate::text;
use crate::token::Span;

verus! {

/// Whether a type is that of integers.
#[verifier::opaque]
pub open spec fn is_int<'a>(st: State<'a>, t: usize) -> bool
{
    match state::def(st, t) {
        TyDef::Int(_) => {
            true
        },
        _ => {
            false
        },
    }
}

/// Whether a type is that of addresses.
#[verifier::opaque]
pub open spec fn is_ptr<'a>(st: State<'a>, t: usize) -> bool
{
    match state::def(st, t) {
        TyDef::Ptr => {
            true
        },
        _ => {
            false
        },
    }
}

/// Whether a type is that of floating-point numbers.
#[verifier::opaque]
pub open spec fn is_float<'a>(st: State<'a>, t: usize) -> bool
{
    match state::def(st, t) {
        TyDef::F32 => {
            true
        },
        TyDef::F64 => {
            true
        },
        _ => {
            false
        },
    }
}

/// Whether a type is that of arrays.
#[verifier::opaque]
pub open spec fn is_array<'a>(st: State<'a>, t: usize) -> bool
{
    match state::def(st, t) {
        TyDef::Array(_, _) => {
            true
        },
        _ => {
            false
        },
    }
}

/// Whether a type is that of structs.
#[verifier::opaque]
pub open spec fn is_struct<'a>(st: State<'a>, t: usize) -> bool
{
    match state::def(st, t) {
        TyDef::Cons(_, _) => {
            true
        },
        TyDef::Nil => {
            true
        },
        TyDef::Named(_) => {
            true
        },
        _ => {
            false
        },
    }
}

/// The width of an integer type.
#[verifier::opaque]
pub open spec fn bits<'a>(st: State<'a>, t: usize) -> u32
{
    match state::def(st, t) {
        TyDef::Int(n) => {
            n
        },
        _ => {
            0
        },
    }
}

/// The elements of an array type.
#[verifier::opaque]
pub open spec fn elem_of<'a>(st: State<'a>, t: usize) -> Option<usize>
{
    match state::def(st, t) {
        TyDef::Array(e, _) => {
            Some(e)
        },
        _ => {
            None
        },
    }
}

/// The length of an array type.
#[verifier::opaque]
pub open spec fn array_len<'a>(st: State<'a>, t: usize) -> u64
{
    match state::def(st, t) {
        TyDef::Array(_, n) => {
            n
        },
        _ => {
            16
        },
    }
}

/// The layout of a declared type.
#[verifier::opaque]
pub open spec fn layout_of<'a>(st: State<'a>, t: usize) -> Option<usize>
{
    match state::def(st, t) {
        TyDef::Named(l) => {
            Some(l)
        },
        _ => {
            None
        },
    }
}

/// The length of an array, where it is not written.
#[verifier::opaque]
pub open spec fn or_default(n: Option<u64>) -> u64
{
    match n {
        Some(k) => {
            k
        },
        _ => {
            16
        },
    }
}

/// An array type.
#[verifier::opaque]
pub open spec fn array_of<'a>(st: State<'a>, t: usize, n: u64) -> (usize, State<'a>)
{
    let (r, st) = state::intern(st, TyDef::Array(t, n));
    (r, st)
}

/// A struct of two fields.
#[verifier::opaque]
pub open spec fn pair_of<'a>(st: State<'a>, a: usize, b: usize) -> (usize, State<'a>)
{
    let (x, st) = state::intern(st, TyDef::Cons(b, NIL));
    let (r, st) = state::intern(st, TyDef::Cons(a, x));
    (r, st)
}

/// A vector: its elements, and how many of them are in use.
#[verifier::opaque]
pub open spec fn vec_of<'a>(st: State<'a>, e: usize) -> (usize, State<'a>)
{
    let (buf, st) = array_of(st, e, 16);
    let (r, st) = pair_of(st, buf, I64);
    (r, st)
}

/// A map: its keys, its values, and how many of them are in use.
#[verifier::opaque]
pub open spec fn map_of<'a>(st: State<'a>, k: usize, v: usize) -> (usize, State<'a>)
{
    let (keys, st) = array_of(st, k, 16);
    let (vals, st) = array_of(st, v, 16);
    let (x, st) = pair_of(st, vals, I64);
    let (r, st) = state::intern(st, TyDef::Cons(keys, x));
    (r, st)
}

/// The type of a layout.
#[verifier::opaque]
pub open spec fn class_ty<'a>(st: State<'a>, l: usize) -> (usize, State<'a>)
{
    let (r, st) = state::intern(st, TyDef::Named(l));
    (r, st)
}

/// The type of a name: a built-in integer, a type parameter, or a declared type.
#[verifier::opaque]
pub open spec fn named_ty<'a>(st: State<'a>, n: Seq<char>) -> Result<(usize, State<'a>), Failure<'a>>
{
    if (n == "__derived__"@) {
        Ok((I64, st))
    } else {
        let b = state::base_name(n);
        match state::int_name(b) {
            Some(k) => {
                let (r, st) = state::intern(st, TyDef::Int(k));
                Ok((r, st))
            },
            _ => {
                if state::is_letter(b) {
                    Ok((I64, st))
                } else {
                    match state::layout(st, b) {
                        Some(l) => {
                            let (r, st) = class_ty(st, l);
                            Ok((r, st))
                        },
                        _ => {
                            Err(Failure { trouble: state::naming("unknown struct/enum type "@, n, ""@, Span { start: 0, end: 0 }), after: st })
                        },
                    }
                }
            },
        }
    }
}

/// The type of a name with type arguments, which do not matter for its layout.
#[verifier::opaque]
pub open spec fn generic_ty<'a>(st: State<'a>, n: Seq<char>) -> Result<(usize, State<'a>), Failure<'a>>
{
    let b = state::base_name(n);
    match state::layout(st, b) {
        Some(l) => {
            let (r, st) = class_ty(st, l);
            Ok((r, st))
        },
        _ => {
            Err(Failure { trouble: state::naming("unknown generic type "@, n, ""@, Span { start: 0, end: 0 }), after: st })
        },
    }
}

/// The struct of the types from `i` on.
#[verifier::opaque]
pub open spec fn tuple_ty<'a>(nest: Nest<'a>, st: State<'a>, ts: &'a Vec<Type>, i: usize) -> Result<(usize, State<'a>), Failure<'a>>
    decreases ts.len() - i,
{
    if i >= ts.len() {
        Ok((NIL, st))
    } else {
        match (nest.ty)(st, &ts@[i as int]) {
            Ok((a, st)) => {
                match tuple_ty(nest, st, ts, (i + 1) as usize) {
                    Ok((b, st)) => {
                        let (r, st) = state::intern(st, TyDef::Cons(a, b));
                        Ok((r, st))
                    },
                    Err(e) => Err(e),
                }
            },
            Err(e) => Err(e),
        }
    }
}

/// The type of an element; `any` is that of elements of any type.
#[verifier::opaque]
pub open spec fn slot_ty<'a>(nest: Nest<'a>, st: State<'a>, t: &'a Type, any: usize) -> Result<(usize, State<'a>), Failure<'a>>
{
    match *t {
        Type::Any => {
            Ok((any, st))
        },
        _ => {
            (nest.ty)(st, t)
        },
    }
}

/// The type that a written type is lowered to.
#[verifier::opaque]
pub open spec fn ty<'a>(nest: Nest<'a>, st: State<'a>, t: &'a Type) -> Result<(usize, State<'a>), Failure<'a>>
{
    match *t {
        Type::Int => {
            Ok((I64, st))
        },
        Type::Bool => {
            Ok((I1, st))
        },
        Type::Char => {
            Ok((I32, st))
        },
        Type::Str => {
            Ok((PTR, st))
        },
        Type::Float => {
            Ok((F32, st))
        },
        Type::Double => {
            Ok((F64, st))
        },
        Type::Void => {
            Err(Failure { trouble: Trouble { message: "void not a first-class type"@, span: Span { start: 0, end: 0 } }, after: st })
        },
        Type::Named(n) => {
            named_ty(st, n@)
        },
        Type::Generic(n, _) => {
            generic_ty(st, n@)
        },
        Type::Function(_, _) => {
            Ok((PTR, st))
        },
        Type::Any => {
            Ok((PTR, st))
        },
        Type::Pointer(_) => {
            Ok((PTR, st))
        },
        Type::Tuple(ts) => {
            tuple_ty(nest, st, &ts, 0)
        },
        Type::Array(el) => {
            match (nest.ty)(st, &*el) {
                Ok((e, st)) => {
                    let (r, st) = array_of(st, e, 16);
                    Ok((r, st))
                },
                Err(e) => Err(e),
            }
        },
        Type::FixedArray(el, size) => {
            match (nest.ty)(st, &*el) {
                Ok((e, st)) => {
                    let n = or_default(size);
                    let (r, st) = array_of(st, e, n);
                    Ok((r, st))
                },
                Err(e) => Err(e),
            }
        },
        Type::Vector(el) => {
            match slot_ty(nest, st, &*el, I64) {
                Ok((e, st)) => {
                    let (r, st) = vec_of(st, e);
                    Ok((r, st))
                },
                Err(e) => Err(e),
            }
        },
        Type::Mapping(k, v) => {
            match slot_ty(nest, st, &*k, I64) {
                Ok((a, st)) => {
                    match slot_ty(nest, st, &*v, PTR) {
                        Ok((b, st)) => {
                            let (r, st) = map_of(st, a, b);
                            Ok((r, st))
                        },
                        Err(e) => Err(e),
                    }
                },
                Err(e) => Err(e),
            }
        },
        Type::Optional(el) => {
            match (nest.ty)(st, &*el) {
                Ok((e, st)) => {
                    let (r, st) = pair_of(st, e, I1);
                    Ok((r, st))
                },
                Err(e) => Err(e),
            }
        },
    }
}

/// The type of an element of what a foreign function takes or gives, `other` where it is nothing.
#[verifier::opaque]
pub open spec fn held_or<'a>(nest: Nest<'a>, st: State<'a>, t: &'a Type, other: usize) -> Result<(usize, State<'a>), Failure<'a>>
{
    match (nest.held_ty)(st, t) {
        Ok((e, st)) => {
            match e {
                Some(x) => {
                    Ok((x, st))
                },
                _ => {
                    Ok((other, st))
                },
            }
        },
        Err(e) => Err(e),
    }
}

/// As `held_or`; `any` is the type of elements of any type.
#[verifier::opaque]
pub open spec fn held_slot<'a>(nest: Nest<'a>, st: State<'a>, t: &'a Type, any: usize) -> Result<(usize, State<'a>), Failure<'a>>
{
    match *t {
        Type::Any => {
            Ok((any, st))
        },
        _ => {
            held_or(nest, st, t, I64)
        },
    }
}

/// The struct of the types from `i` on that are something.
#[verifier::opaque]
pub open spec fn held_tuple<'a>(nest: Nest<'a>, st: State<'a>, ts: &'a Vec<Type>, i: usize) -> Result<(usize, State<'a>), Failure<'a>>
    decreases ts.len() - i,
{
    if i >= ts.len() {
        Ok((NIL, st))
    } else {
        match (nest.held_ty)(st, &ts@[i as int]) {
            Ok((a, st)) => {
                match held_tuple(nest, st, ts, (i + 1) as usize) {
                    Ok((b, st)) => {
                        match a {
                            Some(x) => {
                                let (r, st) = state::intern(st, TyDef::Cons(x, b));
                                Ok((r, st))
                            },
                            _ => {
                                Ok((b, st))
                            },
                        }
                    },
                    Err(e) => Err(e),
                }
            },
            Err(e) => Err(e),
        }
    }
}

/// A type with arguments that a foreign function takes or gives: a type parameter stands for its first argument, and a type that is not declared for a pointer.
#[verifier::opaque]
pub open spec fn held_generic<'a>(nest: Nest<'a>, st: State<'a>, n: Seq<char>, ts: &'a Vec<Type>) -> Result<(Option<usize>, State<'a>), Failure<'a>>
{
    let b = state::base_name(n);
    if state::is_letter(b) {
        if ts.len() > 0 {
            (nest.held_ty)(st, &ts@[0 as int])
        } else {
            Ok((Some(I64), st))
        }
    } else {
        match state::layout(st, b) {
            Some(l) => {
                let (r, st) = class_ty(st, l);
                Ok((Some(r), st))
            },
            _ => {
                Ok((Some(PTR), st))
            },
        }
    }
}

/// The type of what a foreign function takes or gives, `None` for nothing.
#[verifier::opaque]
pub open spec fn held_ty<'a>(nest: Nest<'a>, st: State<'a>, t: &'a Type) -> Result<(Option<usize>, State<'a>), Failure<'a>>
{
    match *t {
        Type::Void => {
            Ok((None, st))
        },
        Type::Generic(n, ts) => {
            held_generic(nest, st, n@, &ts)
        },
        Type::Tuple(ts) => {
            match held_tuple(nest, st, &ts, 0) {
                Ok((r, st)) => {
                    Ok((Some(r), st))
                },
                Err(e) => Err(e),
            }
        },
        Type::Array(el) => {
            match held_or(nest, st, &*el, I64) {
                Ok((e, st)) => {
                    let (r, st) = array_of(st, e, 16);
                    Ok((Some(r), st))
                },
                Err(e) => Err(e),
            }
        },
        Type::FixedArray(el, size) => {
            match held_or(nest, st, &*el, I64) {
                Ok((e, st)) => {
                    let n = or_default(size);
                    let (r, st) = array_of(st, e, n);
                    Ok((Some(r), st))
                },
                Err(e) => Err(e),
            }
        },
        Type::Vector(el) => {
            match held_slot(nest, st, &*el, I64) {
                Ok((e, st)) => {
                    let (r, st) = vec_of(st, e);
                    Ok((Some(r), st))
                },
                Err(e) => Err(e),
            }
        },
        Type::Mapping(k, v) => {
            match held_slot(nest, st, &*k, I64) {
                Ok((a, st)) => {
                    match held_slot(nest, st, &*v, PTR) {
                        Ok((b, st)) => {
                            let (r, st) = map_of(st, a, b);
                            Ok((Some(r), st))
                        },
                        Err(e) => Err(e),
                    }
                },
                Err(e) => Err(e),
            }
        },
        Type::Optional(el) => {
            match (nest.held_ty)(st, &*el) {
                Ok((e, st)) => {
                    match e {
                        Some(x) => {
                            let (r, st) = pair_of(st, x, I1);
                            Ok((Some(r), st))
                        },
                        _ => {
                            Err(Failure { trouble: Trouble { message: "void not a first-class type"@, span: Span { start: 0, end: 0 } }, after: st })
                        },
                    }
                },
                Err(e) => Err(e),
            }
        },
        _ => {
            match (nest.ty)(st, t) {
                Ok((r, st)) => {
                    Ok((Some(r), st))
                },
                Err(e) => Err(e),
            }
        },
    }
}

/// The result type of a function, `None` where it returns nothing.
#[verifier::opaque]
pub open spec fn ret_ty<'a>(nest: Nest<'a>, st: State<'a>, t: &'a Type) -> Result<(Option<usize>, State<'a>), Failure<'a>>
{
    match *t {
        Type::Void => {
            Ok((None, st))
        },
        Type::Array(_) => {
            let (r, st) = array_of(st, I64, 16);
            Ok((Some(r), st))
        },
        Type::Tuple(_) => {
            Ok((Some(PTR), st))
        },
        Type::Generic(n, _) => {
            if state::is_letter(n@) {
                Ok((Some(I64), st))
            } else {
                Ok((Some(PTR), st))
            }
        },
        _ => {
            match ty(nest, st, t) {
                Ok((r, st)) => {
                    Ok((Some(r), st))
                },
                Err(e) => Err(e),
            }
        },
    }
}

/// Whether a written type is that of vectors.
#[verifier::opaque]
pub open spec fn is_vec_ty<'a>(t: &'a Type) -> bool
{
    match *t {
        Type::Vector(_) => {
            true
        },
        _ => {
            false
        },
    }
}

/// Whether a written type is that of maps.
#[verifier::opaque]
pub open spec fn is_map_ty<'a>(t: &'a Type) -> bool
{
    match *t {
        Type::Mapping(_, _) => {
            true
        },
        _ => {
            false
        },
    }
}

/// Whether a written type is that of strings.
#[verifier::opaque]
pub open spec fn is_str_ty<'a>(t: &'a Type) -> bool
{
    match *t {
        Type::Str => {
            true
        },
        _ => {
            false
        },
    }
}

/// Whether a written type is `any`.
#[verifier::opaque]
pub open spec fn is_any_ty<'a>(t: &'a Type) -> bool
{
    match *t {
        Type::Any => {
            true
        },
        _ => {
            false
        },
    }
}

/// Whether a parameter has the type of the one before it.
#[verifier::opaque]
pub open spec fn is_derived<'a>(t: &'a Type) -> bool
{
    match *t {
        Type::Named(n) => {
            (n@ == "__derived__"@)
        },
        _ => {
            false
        },
    }
}

/// Notes that a variable of a written type holds a vector, a map or a string.
#[verifier::opaque]
pub open spec fn note_kind<'a>(st: State<'a>, name: Seq<char>, t: &'a Type) -> State<'a>
{
    let st = if is_vec_ty(t) {
        state::note_vec(st, name)
    } else {
        st
    };
    let st = if is_map_ty(t) {
        state::note_map(st, name)
    } else {
        st
    };
    let st = if is_str_ty(t) {
        state::note_str(st, name)
    } else {
        st
    };
    st
}

/// A value as one of another type: integers are cut or sign-extended, integers and addresses are converted, others stay.
#[verifier::opaque]
pub open spec fn coerce<'a>(st: State<'a>, v: Operand, t: usize) -> (Operand, State<'a>)
{
    if v.ty == t {
        (v, st)
    } else if is_int(st, v.ty) && is_int(st, t) {
        if bits(st, v.ty) > bits(st, t) {
            let (r, st) = state::emit(st, Op::Convert(Cast::Trunc, v, t), t);
            (r, st)
        } else if bits(st, v.ty) < bits(st, t) {
            let (r, st) = state::emit(st, Op::Convert(Cast::Sext, v, t), t);
            (r, st)
        } else {
            (v, st)
        }
    } else if is_int(st, v.ty) && is_ptr(st, t) {
        let (r, st) = state::emit(st, Op::Convert(Cast::IntToPtr, v, t), t);
        (r, st)
    } else if is_ptr(st, v.ty) && is_int(st, t) {
        let (r, st) = state::emit(st, Op::Convert(Cast::PtrToInt, v, t), t);
        (r, st)
    } else {
        (v, st)
    }
}

/// Two integers in the wider of their widths.
#[verifier::opaque]
pub open spec fn unify<'a>(st: State<'a>, l: Operand, r: Operand) -> ((Operand, Operand), State<'a>)
{
    if is_int(st, l.ty) && is_int(st, r.ty) {
        if bits(st, l.ty) < bits(st, r.ty) {
            let (a, st) = coerce(st, l, r.ty);
            ((a, r), st)
        } else if bits(st, l.ty) > bits(st, r.ty) {
            let (b, st) = coerce(st, r, l.ty);
            ((l, b), st)
        } else {
            ((l, r), st)
        }
    } else {
        ((l, r), st)
    }
}

/// What is at an address.
#[verifier::opaque]
pub open spec fn load<'a>(st: State<'a>, p: Operand) -> (Operand, State<'a>)
{
    let (r, st) = state::emit(st, Op::Load(p.val, p.ty), p.ty);
    (r, st)
}

/// Puts a value at an address.
#[verifier::opaque]
pub open spec fn store<'a>(st: State<'a>, p: Val, v: Operand) -> State<'a>
{
    let st = state::perform(st, Op::Store(p, v));
    st
}

/// Memory for a value, made at the start of the function.
#[verifier::opaque]
pub open spec fn slot<'a>(st: State<'a>, t: usize) -> (Operand, State<'a>)
{
    let (r, st) = state::emit(st, Op::Slot(t), PTR);
    (Operand { val: r.val, ty: t }, st)
}

/// The address of field `k` of a struct.
#[verifier::opaque]
pub open spec fn field_at<'a>(st: State<'a>, t: usize, p: Val, k: u32) -> (Val, State<'a>)
{
    let (r, st) = state::emit(st, Op::Field(t, p, k), PTR);
    (r.val, st)
}

/// The address of an element of an array.
#[verifier::opaque]
pub open spec fn elem_at<'a>(st: State<'a>, t: usize, p: Val, i: Operand) -> (Val, State<'a>)
{
    let (r, st) = state::emit(st, Op::Elem(t, p, i), PTR);
    (r.val, st)
}

/// The result of an operator.
#[verifier::opaque]
pub open spec fn arith<'a>(st: State<'a>, op: Arith, a: Operand, b: Operand) -> (Operand, State<'a>)
{
    let (r, st) = state::emit(st, Op::Arith(op, a, b), a.ty);
    (r, st)
}

/// The result of a comparison.
#[verifier::opaque]
pub open spec fn compare<'a>(st: State<'a>, p: Pred, a: Operand, b: Operand) -> (Operand, State<'a>)
{
    let (r, st) = state::emit(st, Op::Compare(p, a, b), I1);
    (r, st)
}

/// A converted value.
#[verifier::opaque]
pub open spec fn convert<'a>(st: State<'a>, c: Cast, v: Operand, t: usize) -> (Operand, State<'a>)
{
    let (r, st) = state::emit(st, Op::Convert(c, v, t), t);
    (r, st)
}

/// A struct or array with another value in one place.
#[verifier::opaque]
pub open spec fn insert<'a>(st: State<'a>, agg: Operand, v: Operand, k: u32) -> (Operand, State<'a>)
{
    let (r, st) = state::emit(st, Op::Insert(agg, v, k), agg.ty);
    (r, st)
}

/// One value of a struct or array.
#[verifier::opaque]
pub open spec fn extract<'a>(st: State<'a>, agg: Operand, k: u32) -> (Operand, State<'a>)
{
    if is_array(st, agg.ty) {
        let t = array_elem(st, agg.ty);
        let (r, st) = state::emit(st, Op::Extract(agg, k), t);
        (r, st)
    } else {
        let t = struct_elem(st, agg.ty, k);
        let (r, st) = state::emit(st, Op::Extract(agg, k), t);
        (r, st)
    }
}

/// The elements of an array type; integers where it is none.
#[verifier::opaque]
pub open spec fn array_elem<'a>(st: State<'a>, t: usize) -> usize
{
    match elem_of(st, t) {
        Some(e) => {
            e
        },
        _ => {
            I64
        },
    }
}

/// Field `k` of a struct type; an integer where it has none.
#[verifier::opaque]
pub open spec fn struct_elem<'a>(st: State<'a>, t: usize, k: u32) -> usize
{
    match state::member_ty(st, t, k) {
        Some(e) => {
            e
        },
        _ => {
            I64
        },
    }
}

/// Calls a function with the last `n` arguments; zero where it returns nothing.
#[verifier::opaque]
pub open spec fn call<'a>(st: State<'a>, f: usize, n: usize) -> (Operand, State<'a>)
{
    let info = state::func_info(st, f);
    match info.ret {
        Some(t) => {
            let (r, st) = state::emit(st, Op::Call(f, n), t);
            (r, st)
        },
        _ => {
            let st = state::perform(st, Op::Call(f, n));
            (Operand { val: Val::Int(0), ty: I64 }, st)
        },
    }
}

/// Calls a function of the C library with the last `n` arguments.
#[verifier::opaque]
pub open spec fn runtime<'a>(st: State<'a>, f: Runtime, n: usize, t: usize) -> (Operand, State<'a>)
{
    let (r, st) = state::emit(st, Op::CallRuntime(f, n), t);
    (r, st)
}

/// Calls a function of the C library with one argument.
#[verifier::opaque]
pub open spec fn runtime1<'a>(st: State<'a>, f: Runtime, a: Operand, t: usize) -> (Operand, State<'a>)
{
    let st = state::perform(st, Op::Push(a));
    let (r, st) = runtime(st, f, 1, t);
    (r, st)
}

/// Calls a function of the C library with two arguments.
#[verifier::opaque]
pub open spec fn runtime2<'a>(st: State<'a>, f: Runtime, a: Operand, b: Operand, t: usize) -> (Operand, State<'a>)
{
    let st = state::perform(st, Op::Push(a));
    let st = state::perform(st, Op::Push(b));
    let (r, st) = runtime(st, f, 2, t);
    (r, st)
}

/// The address of a string.
#[verifier::opaque]
pub open spec fn string<'a>(st: State<'a>, s: Seq<char>) -> (Operand, State<'a>)
{
    let (k, st) = state::text(st, s);
    (Operand { val: Val::Text(k), ty: PTR }, st)
}

/// Ends the program.
#[verifier::opaque]
pub open spec fn stop<'a>(st: State<'a>) -> State<'a>
{
    let st = state::perform(st, Op::CallRuntime(Runtime::Abort, 0));
    let st = state::finish(st, Op::Unreachable);
    st
}

/// Goes on in another block, unless the block has its last step.
#[verifier::opaque]
pub open spec fn jump<'a>(st: State<'a>, b: usize) -> State<'a>
{
    if state::done(st) {
        st
    } else {
        let st = state::finish(st, Op::Jump(b));
        st
    }
}

impl<'a> Codegen<'a> {
    /// Whether a type is that of integers.
    pub fn is_int(&self, t: usize) -> (out: bool)
        ensures
            out == is_int(self@, t),
    {
        reveal(is_int);
        match self.def(t) {
            TyDef::Int(_) => {
                return true;
            },
            _ => {},
        }
        false
    }

    /// Whether a type is that of addresses.
    pub fn is_ptr(&self, t: usize) -> (out: bool)
        ensures
            out == is_ptr(self@, t),
    {
        reveal(is_ptr);
        match self.def(t) {
            TyDef::Ptr => {
                return true;
            },
            _ => {},
        }
        false
    }

    /// Whether a type is that of floating-point numbers.
    pub fn is_float(&self, t: usize) -> (out: bool)
        ensures
            out == is_float(self@, t),
    {
        reveal(is_float);
        match self.def(t) {
            TyDef::F32 => {
                return true;
            },
            TyDef::F64 => {
                return true;
            },
            _ => {},
        }
        false
    }

    /// Whether a type is that of arrays.
    pub fn is_array(&self, t: usize) -> (out: bool)
        ensures
            out == is_array(self@, t),
    {
        reveal(is_array);
        match self.def(t) {
            TyDef::Array(_, _) => {
                return true;
            },
            _ => {},
        }
        false
    }

    /// Whether a type is that of structs.
    pub fn is_struct(&self, t: usize) -> (out: bool)
        ensures
            out == is_struct(self@, t),
    {
        reveal(is_struct);
        match self.def(t) {
            TyDef::Cons(_, _) => {
                return true;
            },
            TyDef::Nil => {
                return true;
            },
            TyDef::Named(_) => {
                return true;
            },
            _ => {},
        }
        false
    }

    /// The width of an integer type.
    pub fn bits(&self, t: usize) -> (out: u32)
        ensures
            out == bits(self@, t),
    {
        reveal(bits);
        match self.def(t) {
            TyDef::Int(n) => {
                return n;
            },
            _ => {},
        }
        0
    }

    /// The elements of an array type.
    pub fn elem_of(&self, t: usize) -> (out: Option<usize>)
        ensures
            out == elem_of(self@, t),
    {
        reveal(elem_of);
        match self.def(t) {
            TyDef::Array(e, _) => {
                return Some(e);
            },
            _ => {},
        }
        None
    }

    /// The length of an array type.
    pub fn array_len(&self, t: usize) -> (out: u64)
        ensures
            out == array_len(self@, t),
    {
        reveal(array_len);
        match self.def(t) {
            TyDef::Array(_, n) => {
                return n;
            },
            _ => {},
        }
        16
    }

    /// The layout of a declared type.
    pub fn layout_of(&self, t: usize) -> (out: Option<usize>)
        ensures
            out == layout_of(self@, t),
    {
        reveal(layout_of);
        match self.def(t) {
            TyDef::Named(l) => {
                return Some(l);
            },
            _ => {},
        }
        None
    }

    /// The length of an array, where it is not written.
    pub fn or_default(&self, n: Option<u64>) -> (out: u64)
        ensures
            out == or_default(n),
    {
        reveal(or_default);
        match n {
            Some(k) => {
                return k;
            },
            _ => {},
        }
        16
    }

    /// An array type.
    pub fn array_of(&mut self, t: usize, n: u64) -> (out: usize)
        ensures
            (out, final(self)@) == array_of(old(self)@, t, n),
    {
        reveal(array_of);
        let r = self.intern(TyDef::Array(t, n));
        r
    }

    /// A struct of two fields.
    pub fn pair_of(&mut self, a: usize, b: usize) -> (out: usize)
        ensures
            (out, final(self)@) == pair_of(old(self)@, a, b),
    {
        reveal(pair_of);
        let x = self.intern(TyDef::Cons(b, NIL));
        let r = self.intern(TyDef::Cons(a, x));
        r
    }

    /// A vector: its elements, and how many of them are in use.
    pub fn vec_of(&mut self, e: usize) -> (out: usize)
        ensures
            (out, final(self)@) == vec_of(old(self)@, e),
    {
        reveal(vec_of);
        let buf = self.array_of(e, 16);
        let r = self.pair_of(buf, I64);
        r
    }

    /// A map: its keys, its values, and how many of them are in use.
    pub fn map_of(&mut self, k: usize, v: usize) -> (out: usize)
        ensures
            (out, final(self)@) == map_of(old(self)@, k, v),
    {
        reveal(map_of);
        let keys = self.array_of(k, 16);
        let vals = self.array_of(v, 16);
        let x = self.pair_of(vals, I64);
        let r = self.intern(TyDef::Cons(keys, x));
        r
    }

    /// The type of a layout.
    pub fn class_ty(&mut self, l: usize) -> (out: usize)
        ensures
            (out, final(self)@) == class_ty(old(self)@, l),
    {
        reveal(class_ty);
        let r = self.intern(TyDef::Named(l));
        r
    }

    /// The type of a name: a built-in integer, a type parameter, or a declared type.
    pub fn named_ty(&mut self, n: &str) -> (out: Result<usize, CodegenError>)
        ensures
            match out {
                Ok(made) => named_ty(old(self)@, n@) == Ok::<(usize, State<'a>), Failure<'a>>((made, final(self)@)),
                Err(trouble) => named_ty(old(self)@, n@) == Err::<(usize, State<'a>), Failure<'a>>(Failure { trouble: trouble@, after: final(self)@ }),
            },
    {
        reveal(named_ty);
        if text::same_str(n, "__derived__") {
            return Ok(I64);
        }
        let b_text = base_of(n);
        let b = b_text.as_str();
        match self.int_name(b) {
            Some(k) => {
                let r = self.intern(TyDef::Int(k));
                return Ok(r);
            },
            _ => {},
        }
        if self.is_letter(b) {
            return Ok(I64);
        }
        match self.layout(b) {
            Some(l) => {
                let r = self.class_ty(l);
                return Ok(r);
            },
            _ => {},
        }
        Err(fault_naming("unknown struct/enum type ", n, "", Span { start: 0, end: 0 }))
    }

    /// The type of a name with type arguments, which do not matter for its layout.
    pub fn generic_ty(&mut self, n: &str) -> (out: Result<usize, CodegenError>)
        ensures
            match out {
                Ok(made) => generic_ty(old(self)@, n@) == Ok::<(usize, State<'a>), Failure<'a>>((made, final(self)@)),
                Err(trouble) => generic_ty(old(self)@, n@) == Err::<(usize, State<'a>), Failure<'a>>(Failure { trouble: trouble@, after: final(self)@ }),
            },
    {
        reveal(generic_ty);
        let b_text = base_of(n);
        let b = b_text.as_str();
        match self.layout(b) {
            Some(l) => {
                let r = self.class_ty(l);
                return Ok(r);
            },
            _ => {},
        }
        Err(fault_naming("unknown generic type ", n, "", Span { start: 0, end: 0 }))
    }

    /// The struct of the types from `i` on.
    pub fn tuple_ty(&mut self, depth: usize, ts: &'a Vec<Type>, i: usize) -> (out: Result<usize, CodegenError>)
        ensures
            match out {
                Ok(made) => tuple_ty(nest::nest(depth as nat), old(self)@, ts, i) == Ok::<(usize, State<'a>), Failure<'a>>((made, final(self)@)),
                Err(trouble) => tuple_ty(nest::nest(depth as nat), old(self)@, ts, i) == Err::<(usize, State<'a>), Failure<'a>>(Failure { trouble: trouble@, after: final(self)@ }),
            },
        decreases depth, 1int, ts.len() - i,
    {
        reveal(tuple_ty);
        if i >= ts.len() {
            return Ok(NIL);
        }
        let a = match self.nested_ty(depth, &ts[i]) {
            Ok(v) => v,
            Err(e) => {
                return Err(e);
            },
        };
        let b = match self.tuple_ty(depth, ts, i + 1) {
            Ok(v) => v,
            Err(e) => {
                return Err(e);
            },
        };
        let r = self.intern(TyDef::Cons(a, b));
        Ok(r)
    }

    /// The type of an element; `any` is that of elements of any type.
    pub fn slot_ty(&mut self, depth: usize, t: &'a Type, any: usize) -> (out: Result<usize, CodegenError>)
        ensures
            match out {
                Ok(made) => slot_ty(nest::nest(depth as nat), old(self)@, t, any) == Ok::<(usize, State<'a>), Failure<'a>>((made, final(self)@)),
                Err(trouble) => slot_ty(nest::nest(depth as nat), old(self)@, t, any) == Err::<(usize, State<'a>), Failure<'a>>(Failure { trouble: trouble@, after: final(self)@ }),
            },
        decreases depth, 1int, 0int,
    {
        reveal(slot_ty);
        match t {
            Type::Any => {
                return Ok(any);
            },
            _ => {},
        }
        let r = match self.nested_ty(depth, t) {
            Ok(v) => v,
            Err(e) => {
                return Err(e);
            },
        };
        Ok(r)
    }

    /// The type that a written type is lowered to.
    pub fn ty(&mut self, depth: usize, t: &'a Type) -> (out: Result<usize, CodegenError>)
        ensures
            match out {
                Ok(made) => ty(nest::nest(depth as nat), old(self)@, t) == Ok::<(usize, State<'a>), Failure<'a>>((made, final(self)@)),
                Err(trouble) => ty(nest::nest(depth as nat), old(self)@, t) == Err::<(usize, State<'a>), Failure<'a>>(Failure { trouble: trouble@, after: final(self)@ }),
            },
        decreases depth, 3int, 0int,
    {
        reveal(ty);
        match t {
            Type::Int => {
                return Ok(I64);
            },
            Type::Bool => {
                return Ok(I1);
            },
            Type::Char => {
                return Ok(I32);
            },
            Type::Str => {
                return Ok(PTR);
            },
            Type::Float => {
                return Ok(F32);
            },
            Type::Double => {
                return Ok(F64);
            },
            Type::Void => {
                return Err(fault("void not a first-class type", Span { start: 0, end: 0 }));
            },
            Type::Named(n) => {
                let r = match self.named_ty(n.as_str()) {
                    Ok(v) => v,
                    Err(e) => {
                        return Err(e);
                    },
                };
                return Ok(r);
            },
            Type::Generic(n, _) => {
                let r = match self.generic_ty(n.as_str()) {
                    Ok(v) => v,
                    Err(e) => {
                        return Err(e);
                    },
                };
                return Ok(r);
            },
            Type::Function(_, _) => {
                return Ok(PTR);
            },
            Type::Any => {
                return Ok(PTR);
            },
            Type::Pointer(_) => {
                return Ok(PTR);
            },
            Type::Tuple(ts) => {
                let r = match self.tuple_ty(depth, ts, 0) {
                    Ok(v) => v,
                    Err(e) => {
                        return Err(e);
                    },
                };
                return Ok(r);
            },
            Type::Array(el) => {
                let e = match self.nested_ty(depth, el) {
                    Ok(v) => v,
                    Err(e) => {
                        return Err(e);
                    },
                };
                let r = self.array_of(e, 16);
                return Ok(r);
            },
            Type::FixedArray(el, size) => {
                let e = match self.nested_ty(depth, el) {
                    Ok(v) => v,
                    Err(e) => {
                        return Err(e);
                    },
                };
                let n: u64 = self.or_default(*size);
                let r = self.array_of(e, n);
                return Ok(r);
            },
            Type::Vector(el) => {
                let e = match self.slot_ty(depth, el, I64) {
                    Ok(v) => v,
                    Err(e) => {
                        return Err(e);
                    },
                };
                let r = self.vec_of(e);
                return Ok(r);
            },
            Type::Mapping(k, v) => {
                let a = match self.slot_ty(depth, k, I64) {
                    Ok(v) => v,
                    Err(e) => {
                        return Err(e);
                    },
                };
                let b = match self.slot_ty(depth, v, PTR) {
                    Ok(v) => v,
                    Err(e) => {
                        return Err(e);
                    },
                };
                let r = self.map_of(a, b);
                return Ok(r);
            },
            Type::Optional(el) => {
                let e = match self.nested_ty(depth, el) {
                    Ok(v) => v,
                    Err(e) => {
                        return Err(e);
                    },
                };
                let r = self.pair_of(e, I1);
                return Ok(r);
            },
        }
    }

    /// As `ty`, one level deeper; nothing can be lowered below the deepest level.
    pub fn nested_ty(&mut self, depth: usize, t: &'a Type) -> (out: Result<usize, CodegenError>)
        ensures
            match out {
                Ok(made) => (nest::nest(depth as nat).ty)(old(self)@, t) == Ok::<(usize, State<'a>), Failure<'a>>((made, final(self)@)),
                Err(trouble) => (nest::nest(depth as nat).ty)(old(self)@, t) == Err::<(usize, State<'a>), Failure<'a>>(Failure { trouble: trouble@, after: final(self)@ }),
            },
        decreases depth, 0int, 0int,
    {
        reveal(nest::nest);
        if depth == 0 {
            Err(fault("nested too deeply", Span { start: 0, end: 0 }))
        } else {
            self.ty(depth - 1, t)
        }
    }

    /// The type of an element of what a foreign function takes or gives, `other` where it is nothing.
    pub fn held_or(&mut self, depth: usize, t: &'a Type, other: usize) -> (out: Result<usize, CodegenError>)
        ensures
            match out {
                Ok(made) => held_or(nest::nest(depth as nat), old(self)@, t, other) == Ok::<(usize, State<'a>), Failure<'a>>((made, final(self)@)),
                Err(trouble) => held_or(nest::nest(depth as nat), old(self)@, t, other) == Err::<(usize, State<'a>), Failure<'a>>(Failure { trouble: trouble@, after: final(self)@ }),
            },
        decreases depth, 1int, 0int,
    {
        reveal(held_or);
        let e = match self.nested_held_ty(depth, t) {
            Ok(v) => v,
            Err(e) => {
                return Err(e);
            },
        };
        match e {
            Some(x) => {
                return Ok(x);
            },
            _ => {},
        }
        Ok(other)
    }

    /// As `held_or`; `any` is the type of elements of any type.
    pub fn held_slot(&mut self, depth: usize, t: &'a Type, any: usize) -> (out: Result<usize, CodegenError>)
        ensures
            match out {
                Ok(made) => held_slot(nest::nest(depth as nat), old(self)@, t, any) == Ok::<(usize, State<'a>), Failure<'a>>((made, final(self)@)),
                Err(trouble) => held_slot(nest::nest(depth as nat), old(self)@, t, any) == Err::<(usize, State<'a>), Failure<'a>>(Failure { trouble: trouble@, after: final(self)@ }),
            },
        decreases depth, 2int, 0int,
    {
        reveal(held_slot);
        match t {
            Type::Any => {
                return Ok(any);
            },
            _ => {},
        }
        let r = match self.held_or(depth, t, I64) {
            Ok(v) => v,
            Err(e) => {
                return Err(e);
            },
        };
        Ok(r)
    }

    /// The struct of the types from `i` on that are something.
    pub fn held_tuple(&mut self, depth: usize, ts: &'a Vec<Type>, i: usize) -> (out: Result<usize, CodegenError>)
        ensures
            match out {
                Ok(made) => held_tuple(nest::nest(depth as nat), old(self)@, ts, i) == Ok::<(usize, State<'a>), Failure<'a>>((made, final(self)@)),
                Err(trouble) => held_tuple(nest::nest(depth as nat), old(self)@, ts, i) == Err::<(usize, State<'a>), Failure<'a>>(Failure { trouble: trouble@, after: final(self)@ }),
            },
        decreases depth, 1int, ts.len() - i,
    {
        reveal(held_tuple);
        if i >= ts.len() {
            return Ok(NIL);
        }
        let a = match self.nested_held_ty(depth, &ts[i]) {
            Ok(v) => v,
            Err(e) => {
                return Err(e);
            },
        };
        let b = match self.held_tuple(depth, ts, i + 1) {
            Ok(v) => v,
            Err(e) => {
                return Err(e);
            },
        };
        match a {
            Some(x) => {
                let r = self.intern(TyDef::Cons(x, b));
                return Ok(r);
            },
            _ => {},
        }
        Ok(b)
    }

    /// A type with arguments that a foreign function takes or gives: a type parameter stands for its first argument, and a type that is not declared for a pointer.
    pub fn held_generic(&mut self, depth: usize, n: &str, ts: &'a Vec<Type>) -> (out: Result<Option<usize>, CodegenError>)
        ensures
            match out {
                Ok(made) => held_generic(nest::nest(depth as nat), old(self)@, n@, ts) == Ok::<(Option<usize>, State<'a>), Failure<'a>>((made, final(self)@)),
                Err(trouble) => held_generic(nest::nest(depth as nat), old(self)@, n@, ts) == Err::<(Option<usize>, State<'a>), Failure<'a>>(Failure { trouble: trouble@, after: final(self)@ }),
            },
        decreases depth, 2int, 0int,
    {
        reveal(held_generic);
        let b_text = base_of(n);
        let b = b_text.as_str();
        if self.is_letter(b) {
            if ts.len() > 0 {
                let r = match self.nested_held_ty(depth, &ts[0]) {
                    Ok(v) => v,
                    Err(e) => {
                        return Err(e);
                    },
                };
                return Ok(r);
            }
            return Ok(Some(I64));
        }
        match self.layout(b) {
            Some(l) => {
                let r = self.class_ty(l);
                return Ok(Some(r));
            },
            _ => {},
        }
        Ok(Some(PTR))
    }

    /// The type of what a foreign function takes or gives, `None` for nothing.
    pub fn held_ty(&mut self, depth: usize, t: &'a Type) -> (out: Result<Option<usize>, CodegenError>)
        ensures
            match out {
                Ok(made) => held_ty(nest::nest(depth as nat), old(self)@, t) == Ok::<(Option<usize>, State<'a>), Failure<'a>>((made, final(self)@)),
                Err(trouble) => held_ty(nest::nest(depth as nat), old(self)@, t) == Err::<(Option<usize>, State<'a>), Failure<'a>>(Failure { trouble: trouble@, after: final(self)@ }),
            },
        decreases depth, 3int, 0int,
    {
        reveal(held_ty);
        match t {
            Type::Void => {
                return Ok(None);
            },
            Type::Generic(n, ts) => {
                let r = match self.held_generic(depth, n.as_str(), ts) {
                    Ok(v) => v,
                    Err(e) => {
                        return Err(e);
                    },
                };
                return Ok(r);
            },
            Type::Tuple(ts) => {
                let r = match self.held_tuple(depth, ts, 0) {
                    Ok(v) => v,
                    Err(e) => {
                        return Err(e);
                    },
                };
                return Ok(Some(r));
            },
            Type::Array(el) => {
                let e = match self.held_or(depth, el, I64) {
                    Ok(v) => v,
                    Err(e) => {
                        return Err(e);
                    },
                };
                let r = self.array_of(e, 16);
                return Ok(Some(r));
            },
            Type::FixedArray(el, size) => {
                let e = match self.held_or(depth, el, I64) {
                    Ok(v) => v,
                    Err(e) => {
                        return Err(e);
                    },
                };
                let n: u64 = self.or_default(*size);
                let r = self.array_of(e, n);
                return Ok(Some(r));
            },
            Type::Vector(el) => {
                let e = match self.held_slot(depth, el, I64) {
                    Ok(v) => v,
                    Err(e) => {
                        return Err(e);
                    },
                };
                let r = self.vec_of(e);
                return Ok(Some(r));
            },
            Type::Mapping(k, v) => {
                let a = match self.held_slot(depth, k, I64) {
                    Ok(v) => v,
                    Err(e) => {
                        return Err(e);
                    },
                };
                let b = match self.held_slot(depth, v, PTR) {
                    Ok(v) => v,
                    Err(e) => {
                        return Err(e);
                    },
                };
                let r = self.map_of(a, b);
                return Ok(Some(r));
            },
            Type::Optional(el) => {
                let e = match self.nested_held_ty(depth, el) {
                    Ok(v) => v,
                    Err(e) => {
                        return Err(e);
                    },
                };
                match e {
                    Some(x) => {
                        let r = self.pair_of(x, I1);
                        return Ok(Some(r));
                    },
                    _ => {},
                }
                return Err(fault("void not a first-class type", Span { start: 0, end: 0 }));
            },
            _ => {},
        }
        let r = match self.nested_ty(depth, t) {
            Ok(v) => v,
            Err(e) => {
                return Err(e);
            },
        };
        Ok(Some(r))
    }

    /// As `held_ty`, one level deeper; nothing can be lowered below the deepest level.
    pub fn nested_held_ty(&mut self, depth: usize, t: &'a Type) -> (out: Result<Option<usize>, CodegenError>)
        ensures
            match out {
                Ok(made) => (nest::nest(depth as nat).held_ty)(old(self)@, t) == Ok::<(Option<usize>, State<'a>), Failure<'a>>((made, final(self)@)),
                Err(trouble) => (nest::nest(depth as nat).held_ty)(old(self)@, t) == Err::<(Option<usize>, State<'a>), Failure<'a>>(Failure { trouble: trouble@, after: final(self)@ }),
            },
        decreases depth, 0int, 0int,
    {
        reveal(nest::nest);
        if depth == 0 {
            Err(fault("nested too deeply", Span { start: 0, end: 0 }))
        } else {
            self.held_ty(depth - 1, t)
        }
    }

    /// The result type of a function, `None` where it returns nothing.
    pub fn ret_ty(&mut self, depth: usize, t: &'a Type) -> (out: Result<Option<usize>, CodegenError>)
        ensures
            match out {
                Ok(made) => ret_ty(nest::nest(depth as nat), old(self)@, t) == Ok::<(Option<usize>, State<'a>), Failure<'a>>((made, final(self)@)),
                Err(trouble) => ret_ty(nest::nest(depth as nat), old(self)@, t) == Err::<(Option<usize>, State<'a>), Failure<'a>>(Failure { trouble: trouble@, after: final(self)@ }),
            },
        decreases depth, 4int, 0int,
    {
        reveal(ret_ty);
        match t {
            Type::Void => {
                return Ok(None);
            },
            Type::Array(_) => {
                let r = self.array_of(I64, 16);
                return Ok(Some(r));
            },
            Type::Tuple(_) => {
                return Ok(Some(PTR));
            },
            Type::Generic(n, _) => {
                if self.is_letter(n.as_str()) {
                    return Ok(Some(I64));
                }
                return Ok(Some(PTR));
            },
            _ => {},
        }
        let r = match self.ty(depth, t) {
            Ok(v) => v,
            Err(e) => {
                return Err(e);
            },
        };
        Ok(Some(r))
    }

    /// Whether a written type is that of vectors.
    pub fn is_vec_ty(&self, t: &'a Type) -> (out: bool)
        ensures
            out == is_vec_ty(t),
    {
        reveal(is_vec_ty);
        match t {
            Type::Vector(_) => {
                return true;
            },
            _ => {},
        }
        false
    }

    /// Whether a written type is that of maps.
    pub fn is_map_ty(&self, t: &'a Type) -> (out: bool)
        ensures
            out == is_map_ty(t),
    {
        reveal(is_map_ty);
        match t {
            Type::Mapping(_, _) => {
                return true;
            },
            _ => {},
        }
        false
    }

    /// Whether a written type is that of strings.
    pub fn is_str_ty(&self, t: &'a Type) -> (out: bool)
        ensures
            out == is_str_ty(t),
    {
        reveal(is_str_ty);
        match t {
            Type::Str => {
                return true;
            },
            _ => {},
        }
        false
    }

    /// Whether a written type is `any`.
    pub fn is_any_ty(&self, t: &'a Type) -> (out: bool)
        ensures
            out == is_any_ty(t),
    {
        reveal(is_any_ty);
        match t {
            Type::Any => {
                return true;
            },
            _ => {},
        }
        false
    }

    /// Whether a parameter has the type of the one before it.
    pub fn is_derived(&self, t: &'a Type) -> (out: bool)
        ensures
            out == is_derived(t),
    {
        reveal(is_derived);
        match t {
            Type::Named(n) => {
                return text::same_str(n.as_str(), "__derived__");
            },
            _ => {},
        }
        false
    }

    /// Notes that a variable of a written type holds a vector, a map or a string.
    pub fn note_kind(&mut self, name: &str, t: &'a Type)
        ensures
            final(self)@ == note_kind(old(self)@, name@, t),
    {
        reveal(note_kind);
        if self.is_vec_ty(t) {
            self.note_vec(name);
        }
        if self.is_map_ty(t) {
            self.note_map(name);
        }
        if self.is_str_ty(t) {
            self.note_str(name);
        }
    }

    /// A value as one of another type: integers are cut or sign-extended, integers and addresses are converted, others stay.
    pub fn coerce(&mut self, v: Operand, t: usize) -> (out: Operand)
        ensures
            (out, final(self)@) == coerce(old(self)@, v, t),
    {
        reveal(coerce);
        if v.ty == t {
            return v;
        }
        if self.is_int(v.ty) && self.is_int(t) {
            if self.bits(v.ty) > self.bits(t) {
                let r = self.emit(Op::Convert(Cast::Trunc, v, t), t);
                return r;
            }
            if self.bits(v.ty) < self.bits(t) {
                let r = self.emit(Op::Convert(Cast::Sext, v, t), t);
                return r;
            }
            return v;
        }
        if self.is_int(v.ty) && self.is_ptr(t) {
            let r = self.emit(Op::Convert(Cast::IntToPtr, v, t), t);
            return r;
        }
        if self.is_ptr(v.ty) && self.is_int(t) {
            let r = self.emit(Op::Convert(Cast::PtrToInt, v, t), t);
            return r;
        }
        v
    }

    /// Two integers in the wider of their widths.
    pub fn unify(&mut self, l: Operand, r: Operand) -> (out: (Operand, Operand))
        ensures
            (out, final(self)@) == unify(old(self)@, l, r),
    {
        reveal(unify);
        if self.is_int(l.ty) && self.is_int(r.ty) {
            if self.bits(l.ty) < self.bits(r.ty) {
                let a = self.coerce(l, r.ty);
                return (a, r);
            }
            if self.bits(l.ty) > self.bits(r.ty) {
                let b = self.coerce(r, l.ty);
                return (l, b);
            }
            return (l, r);
        }
        (l, r)
    }

    /// What is at an address.
    pub fn load(&mut self, p: Operand) -> (out: Operand)
        ensures
            (out, final(self)@) == load(old(self)@, p),
    {
        reveal(load);
        let r = self.emit(Op::Load(p.val, p.ty), p.ty);
        r
    }

    /// Puts a value at an address.
    pub fn store(&mut self, p: Val, v: Operand)
        ensures
            final(self)@ == store(old(self)@, p, v),
    {
        reveal(store);
        self.perform(Op::Store(p, v));
    }

    /// Memory for a value, made at the start of the function.
    pub fn slot(&mut self, t: usize) -> (out: Operand)
        ensures
            (out, final(self)@) == slot(old(self)@, t),
    {
        reveal(slot);
        let r = self.emit(Op::Slot(t), PTR);
        Operand { val: r.val, ty: t }
    }

    /// The address of field `k` of a struct.
    pub fn field_at(&mut self, t: usize, p: Val, k: u32) -> (out: Val)
        ensures
            (out, final(self)@) == field_at(old(self)@, t, p, k),
    {
        reveal(field_at);
        let r = self.emit(Op::Field(t, p, k), PTR);
        r.val
    }

    /// The address of an element of an array.
    pub fn elem_at(&mut self, t: usize, p: Val, i: Operand) -> (out: Val)
        ensures
            (out, final(self)@) == elem_at(old(self)@, t, p, i),
    {
        reveal(elem_at);
        let r = self.emit(Op::Elem(t, p, i), PTR);
        r.val
    }

    /// The result of an operator.
    pub fn arith(&mut self, op: Arith, a: Operand, b: Operand) -> (out: Operand)
        ensures
            (out, final(self)@) == arith(old(self)@, op, a, b),
    {
        reveal(arith);
        let r = self.emit(Op::Arith(op, a, b), a.ty);
        r
    }

    /// The result of a comparison.
    pub fn compare(&mut self, p: Pred, a: Operand, b: Operand) -> (out: Operand)
        ensures
            (out, final(self)@) == compare(old(self)@, p, a, b),
    {
        reveal(compare);
        let r = self.emit(Op::Compare(p, a, b), I1);
        r
    }

    /// A converted value.
    pub fn convert(&mut self, c: Cast, v: Operand, t: usize) -> (out: Operand)
        ensures
            (out, final(self)@) == convert(old(self)@, c, v, t),
    {
        reveal(convert);
        let r = self.emit(Op::Convert(c, v, t), t);
        r
    }

    /// A struct or array with another value in one place.
    pub fn insert(&mut self, agg: Operand, v: Operand, k: u32) -> (out: Operand)
        ensures
            (out, final(self)@) == insert(old(self)@, agg, v, k),
    {
        reveal(insert);
        let r = self.emit(Op::Insert(agg, v, k), agg.ty);
        r
    }

    /// One value of a struct or array.
    pub fn extract(&mut self, agg: Operand, k: u32) -> (out: Operand)
        ensures
            (out, final(self)@) == extract(old(self)@, agg, k),
    {
        reveal(extract);
        if self.is_array(agg.ty) {
            let t: usize = self.array_elem(agg.ty);
            let r = self.emit(Op::Extract(agg, k), t);
            return r;
        }
        let t: usize = self.struct_elem(agg.ty, k);
        let r = self.emit(Op::Extract(agg, k), t);
        r
    }

    /// The elements of an array type; integers where it is none.
    pub fn array_elem(&self, t: usize) -> (out: usize)
        ensures
            out == array_elem(self@, t),
    {
        reveal(array_elem);
        match self.elem_of(t) {
            Some(e) => {
                return e;
            },
            _ => {},
        }
        I64
    }

    /// Field `k` of a struct type; an integer where it has none.
    pub fn struct_elem(&self, t: usize, k: u32) -> (out: usize)
        ensures
            out == struct_elem(self@, t, k),
    {
        reveal(struct_elem);
        match self.member_ty(t, k) {
            Some(e) => {
                return e;
            },
            _ => {},
        }
        I64
    }

    /// Calls a function with the last `n` arguments; zero where it returns nothing.
    pub fn call(&mut self, f: usize, n: usize) -> (out: Operand)
        ensures
            (out, final(self)@) == call(old(self)@, f, n),
    {
        reveal(call);
        let info = self.func_info(f);
        match info.ret {
            Some(t) => {
                let r = self.emit(Op::Call(f, n), t);
                return r;
            },
            _ => {},
        }
        self.perform(Op::Call(f, n));
        Operand { val: Val::Int(0), ty: I64 }
    }

    /// Calls a function of the C library with the last `n` arguments.
    pub fn runtime(&mut self, f: Runtime, n: usize, t: usize) -> (out: Operand)
        ensures
            (out, final(self)@) == runtime(old(self)@, f, n, t),
    {
        reveal(runtime);
        let r = self.emit(Op::CallRuntime(f, n), t);
        r
    }

    /// Calls a function of the C library with one argument.
    pub fn runtime1(&mut self, f: Runtime, a: Operand, t: usize) -> (out: Operand)
        ensures
            (out, final(self)@) == runtime1(old(self)@, f, a, t),
    {
        reveal(runtime1);
        self.perform(Op::Push(a));
        let r = self.runtime(f, 1, t);
        r
    }

    /// Calls a function of the C library with two arguments.
    pub fn runtime2(&mut self, f: Runtime, a: Operand, b: Operand, t: usize) -> (out: Operand)
        ensures
            (out, final(self)@) == runtime2(old(self)@, f, a, b, t),
    {
        reveal(runtime2);
        self.perform(Op::Push(a));
        self.perform(Op::Push(b));
        let r = self.runtime(f, 2, t);
        r
    }

    /// The address of a string.
    pub fn string(&mut self, s: &str) -> (out: Operand)
        ensures
            (out, final(self)@) == string(old(self)@, s@),
    {
        reveal(string);
        let k = self.text(s);
        Operand { val: Val::Text(k), ty: PTR }
    }

    /// Ends the program.
    pub fn stop(&mut self)
        ensures
            final(self)@ == stop(old(self)@),
    {
        reveal(stop);
        self.perform(Op::CallRuntime(Runtime::Abort, 0));
        self.finish(Op::Unreachable);
    }

    /// Goes on in another block, unless the block has its last step.
    pub fn jump(&mut self, b: usize)
        ensures
            final(self)@ == jump(old(self)@, b),
    {
        reveal(jump);
        if self.done() {
            return;
        }
        self.finish(Op::Jump(b));
    }
}

} // verus!
