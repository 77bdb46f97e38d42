//! Lowering of expressions.
use vstd::prelude::*;
use crate::ast::{
    CallArg, ClosureBody, Expr, ExprKind, FieldInit, MapEntry, Param,
    StringPart, Type, BinOp, UnaryOp,
};
use crate::codegen::ir::{
    Arith, FuncInfo, Guess, Label, MemberKind, Op, Operand,
    ParamInfo, Pred, Runtime, TyDef, Val, F64, I1,
    I32, I64, I8, NIL, PTR,
};
use crate::codegen::lower;
use crate::codegen::places;
use crate::codegen::calls;
use crate::codegen::patterns;
use crate::codegen::nest;
use crate::codegen::nest::Nest;
use crate::codegen::state;
use crate::codegen::state::{Codegen, CodegenError, Failure, State, Trouble, closure_name, fault, fault_naming};
use crate::token::Span;

verus! {

/// A value that has to be an integer.
#[verifier::opaque]
pub open spec fn need_int<'a>(st: State<'a>, v: Operand, span: Span) -> Result<(Operand, State<'a>), Failure<'a>>
{
    if lower::is_int(st, v.ty) {
        Ok((v, st))
    } else {
        Err(Failure { trouble: Trouble { message: "an integer is needed here"@, span: span }, after: st })
    }
}

/// The value of a variable.
#[verifier::opaque]
pub open spec fn variable<'a>(st: State<'a>, n: Seq<char>, span: Span) -> Result<(Operand, State<'a>), Failure<'a>>
{
    match state::lookup_var(st, n) {
        Some(v) => {
            let (r, st) = lower::load(st, v);
            Ok((r, st))
        },
        _ => {
            Err(Failure { trouble: state::naming("undefined var "@, n, ""@, span), after: st })
        },
    }
}

/// Adds one to a variable or takes one from it; its value before and after.
#[verifier::opaque]
pub open spec fn step_by<'a>(nest: Nest<'a>, st: State<'a>, inner: &'a Expr, op: Arith) -> Result<((Operand, Operand), State<'a>), Failure<'a>>
{
    match (nest.place)(st, inner) {
        Ok((p, st)) => {
            let (a, st) = lower::load(st, Operand { val: p.val, ty: I64 });
            let (b, st) = lower::arith(st, op, a, Operand { val: Val::Int(1), ty: I64 });
            let st = lower::store(st, p.val, b);
            Ok(((a, b), st))
        },
        Err(e) => Err(e),
    }
}

/// A prefix operator.
#[verifier::opaque]
pub open spec fn unary<'a>(nest: Nest<'a>, st: State<'a>, op: UnaryOp, inner: &'a Expr, span: Span) -> Result<(Operand, State<'a>), Failure<'a>>
{
    match (nest.expr)(st, inner) {
        Ok((v, st)) => {
            match op {
                UnaryOp::Not => {
                    match need_int(st, v, span) {
                        Ok((i, st)) => {
                            let (r, st) = lower::arith(st, Arith::Xor, i, Operand { val: Val::Int(1), ty: I1 });
                            Ok((r, st))
                        },
                        Err(e) => Err(e),
                    }
                },
                UnaryOp::Neg => {
                    match need_int(st, v, span) {
                        Ok((i, st)) => {
                            let (r, st) = lower::arith(st, Arith::Sub, Operand { val: Val::Int(0), ty: I64 }, i);
                            Ok((r, st))
                        },
                        Err(e) => Err(e),
                    }
                },
                UnaryOp::Pos => {
                    Ok((v, st))
                },
                UnaryOp::BitNot => {
                    match need_int(st, v, span) {
                        Ok((i, st)) => {
                            let (r, st) = lower::arith(st, Arith::Xor, i, Operand { val: Val::Int(-1i64), ty: i.ty });
                            Ok((r, st))
                        },
                        Err(e) => Err(e),
                    }
                },
                UnaryOp::Inc => {
                    match step_by(nest, st, inner, Arith::Add) {
                        Ok((p, st)) => {
                            Ok((p.1, st))
                        },
                        Err(e) => Err(e),
                    }
                },
                UnaryOp::Dec => {
                    match step_by(nest, st, inner, Arith::Sub) {
                        Ok((p, st)) => {
                            Ok((p.1, st))
                        },
                        Err(e) => Err(e),
                    }
                },
            }
        },
        Err(e) => Err(e),
    }
}

/// A postfix operator.
#[verifier::opaque]
pub open spec fn postfix<'a>(nest: Nest<'a>, st: State<'a>, op: UnaryOp, inner: &'a Expr) -> Result<(Operand, State<'a>), Failure<'a>>
{
    match op {
        UnaryOp::Inc => {
            match step_by(nest, st, inner, Arith::Add) {
                Ok((p, st)) => {
                    Ok((p.0, st))
                },
                Err(e) => Err(e),
            }
        },
        UnaryOp::Dec => {
            match step_by(nest, st, inner, Arith::Sub) {
                Ok((p, st)) => {
                    Ok((p.0, st))
                },
                Err(e) => Err(e),
            }
        },
        _ => {
            match (nest.place)(st, inner) {
                Ok((p, st)) => {
                    let (a, st) = lower::load(st, Operand { val: p.val, ty: I64 });
                    let st = lower::store(st, p.val, a);
                    Ok((a, st))
                },
                Err(e) => Err(e),
            }
        },
    }
}

/// The operator of a class that stands for a binary operator.
#[verifier::opaque]
pub open spec fn class_op<'a>(st: State<'a>, op: BinOp, l: usize) -> Option<usize>
{
    match op {
        BinOp::Add => {
            state::member_entry(st, "+"@, l, MemberKind::Operator)
        },
        BinOp::Sub => {
            state::member_entry(st, "-"@, l, MemberKind::Operator)
        },
        BinOp::Mul => {
            state::member_entry(st, "*"@, l, MemberKind::Operator)
        },
        BinOp::Div => {
            state::member_entry(st, "/"@, l, MemberKind::Operator)
        },
        BinOp::Mod => {
            state::member_entry(st, "%"@, l, MemberKind::Operator)
        },
        BinOp::Lt => {
            state::member_entry(st, "<"@, l, MemberKind::Operator)
        },
        BinOp::Le => {
            state::member_entry(st, "<="@, l, MemberKind::Operator)
        },
        BinOp::Gt => {
            state::member_entry(st, ">"@, l, MemberKind::Operator)
        },
        BinOp::Ge => {
            state::member_entry(st, ">="@, l, MemberKind::Operator)
        },
        BinOp::Is => {
            state::member_entry(st, "is"@, l, MemberKind::Operator)
        },
        BinOp::IsNot => {
            state::member_entry(st, "is not"@, l, MemberKind::Operator)
        },
        BinOp::And => {
            state::member_entry(st, "and"@, l, MemberKind::Operator)
        },
        BinOp::Or => {
            state::member_entry(st, "or"@, l, MemberKind::Operator)
        },
        BinOp::BitAnd => {
            state::member_entry(st, "&"@, l, MemberKind::Operator)
        },
        BinOp::BitOr => {
            state::member_entry(st, "|"@, l, MemberKind::Operator)
        },
        BinOp::BitXor => {
            state::member_entry(st, "^"@, l, MemberKind::Operator)
        },
        BinOp::Shl => {
            state::member_entry(st, "<<"@, l, MemberKind::Operator)
        },
        BinOp::Shr => {
            state::member_entry(st, ">>"@, l, MemberKind::Operator)
        },
        BinOp::NullCoalesce => {
            state::member_entry(st, "??"@, l, MemberKind::Operator)
        },
    }
}

/// The address of the left operand of an operator of a class.
#[verifier::opaque]
pub open spec fn operand_ptr<'a>(nest: Nest<'a>, st: State<'a>, e: &'a Expr) -> Result<(Val, State<'a>), Failure<'a>>
{
    match e.kind {
        ExprKind::Ident(_) => {
            match (nest.place)(st, e) {
                Ok((p, st)) => {
                    Ok((p.val, st))
                },
                Err(e) => Err(e),
            }
        },
        ExprKind::This => {
            match (nest.place)(st, e) {
                Ok((p, st)) => {
                    Ok((p.val, st))
                },
                Err(e) => Err(e),
            }
        },
        ExprKind::Member(_, _) => {
            match (nest.place)(st, e) {
                Ok((p, st)) => {
                    Ok((p.val, st))
                },
                Err(e) => Err(e),
            }
        },
        _ => {
            match (nest.expr)(st, e) {
                Ok((v, st)) => {
                    let (t, st) = state::emit(st, Op::Temp(v.ty), PTR);
                    let st = lower::store(st, t.val, v);
                    Ok((t.val, st))
                },
                Err(e) => Err(e),
            }
        },
    }
}

/// A call of an operator of a class.
#[verifier::opaque]
pub open spec fn operator_call<'a>(nest: Nest<'a>, st: State<'a>, k: usize, lhs: &'a Expr, rhs: &'a Expr) -> Result<(Operand, State<'a>), Failure<'a>>
{
    let info = state::member_info(st, k);
    match operand_ptr(nest, st, lhs) {
        Ok((p, st)) => {
            match (nest.expr)(st, rhs) {
                Ok((v, st)) => {
                    let st = state::perform(st, Op::Push(Operand { val: p, ty: PTR }));
                    let st = state::perform(st, Op::Push(v));
                    let (r, st) = lower::call(st, info.func, 2);
                    Ok((r, st))
                },
                Err(e) => Err(e),
            }
        },
        Err(e) => Err(e),
    }
}

/// The first of two values, or the second where the first is nothing.
#[verifier::opaque]
pub open spec fn coalesce<'a>(st: State<'a>, l: Operand, r: Operand) -> (Operand, State<'a>)
{
    if lower::is_ptr(st, l.ty) {
        let (c, st) = state::emit(st, Op::IsNull(l), I1);
        let (v, st) = state::emit(st, Op::Select(c, r, l), r.ty);
        (v, st)
    } else {
        let (c, st) = lower::compare(st, Pred::Same, l, Operand { val: Val::Int(0), ty: I64 });
        let (v, st) = state::emit(st, Op::Select(c, r, l), r.ty);
        (v, st)
    }
}

/// The result of a binary operator on integers.
#[verifier::opaque]
pub open spec fn binary_op<'a>(st: State<'a>, op: BinOp, l: Operand, r: Operand) -> (Operand, State<'a>)
{
    match op {
        BinOp::Add => {
            let (v, st) = lower::arith(st, Arith::Add, l, r);
            (v, st)
        },
        BinOp::Sub => {
            let (v, st) = lower::arith(st, Arith::Sub, l, r);
            (v, st)
        },
        BinOp::Mul => {
            let (v, st) = lower::arith(st, Arith::Mul, l, r);
            (v, st)
        },
        BinOp::Div => {
            let (v, st) = lower::arith(st, Arith::Div, l, r);
            (v, st)
        },
        BinOp::Mod => {
            let (v, st) = lower::arith(st, Arith::Rem, l, r);
            (v, st)
        },
        BinOp::Lt => {
            let (v, st) = lower::compare(st, Pred::Less, l, r);
            (v, st)
        },
        BinOp::Le => {
            let (v, st) = lower::compare(st, Pred::LessOrSame, l, r);
            (v, st)
        },
        BinOp::Gt => {
            let (v, st) = lower::compare(st, Pred::Greater, l, r);
            (v, st)
        },
        BinOp::Ge => {
            let (v, st) = lower::compare(st, Pred::GreaterOrSame, l, r);
            (v, st)
        },
        BinOp::Is => {
            let (v, st) = lower::compare(st, Pred::Same, l, r);
            (v, st)
        },
        BinOp::IsNot => {
            let (v, st) = lower::compare(st, Pred::Differ, l, r);
            (v, st)
        },
        BinOp::And => {
            let (v, st) = lower::arith(st, Arith::And, l, r);
            (v, st)
        },
        BinOp::Or => {
            let (v, st) = lower::arith(st, Arith::Or, l, r);
            (v, st)
        },
        BinOp::BitAnd => {
            let (v, st) = lower::arith(st, Arith::And, l, r);
            (v, st)
        },
        BinOp::BitOr => {
            let (v, st) = lower::arith(st, Arith::Or, l, r);
            (v, st)
        },
        BinOp::BitXor => {
            let (v, st) = lower::arith(st, Arith::Xor, l, r);
            (v, st)
        },
        BinOp::Shl => {
            let (v, st) = lower::arith(st, Arith::Shl, l, r);
            (v, st)
        },
        BinOp::Shr => {
            let (v, st) = lower::arith(st, Arith::Shr, l, r);
            (v, st)
        },
        BinOp::NullCoalesce => {
            let (v, st) = coalesce(st, l, r);
            (v, st)
        },
    }
}

/// Whether an operator takes values of any type.
#[verifier::opaque]
pub open spec fn is_coalesce(op: BinOp) -> bool
{
    match op {
        BinOp::NullCoalesce => {
            true
        },
        _ => {
            false
        },
    }
}

/// A binary operator on integers.
#[verifier::opaque]
pub open spec fn plain_binary<'a>(nest: Nest<'a>, st: State<'a>, op: BinOp, lhs: &'a Expr, rhs: &'a Expr, span: Span) -> Result<(Operand, State<'a>), Failure<'a>>
{
    match (nest.expr)(st, lhs) {
        Ok((a, st)) => {
            match (nest.expr)(st, rhs) {
                Ok((b, st)) => {
                    let (p, st) = lower::unify(st, a, b);
                    if is_coalesce(op) {
                        let (v, st) = coalesce(st, p.0, p.1);
                        Ok((v, st))
                    } else {
                        match need_int(st, p.0, span) {
                            Ok((l, st)) => {
                                match need_int(st, p.1, span) {
                                    Ok((r, st)) => {
                                        let (v, st) = binary_op(st, op, l, r);
                                        Ok((v, st))
                                    },
                                    Err(e) => Err(e),
                                }
                            },
                            Err(e) => Err(e),
                        }
                    }
                },
                Err(e) => Err(e),
            }
        },
        Err(e) => Err(e),
    }
}

/// A binary operator, of a class or on integers.
#[verifier::opaque]
pub open spec fn binary<'a>(nest: Nest<'a>, st: State<'a>, op: BinOp, lhs: &'a Expr, rhs: &'a Expr, span: Span) -> Result<(Operand, State<'a>), Failure<'a>>
{
    let g = match (nest.infer)(st, lhs) {
        Ok(v) => Some(v),
        Err(_) => None,
    };
    match g {
        Some(Guess::Struct(l)) => {
            match class_op(st, op, l) {
                Some(k) => {
                    operator_call(nest, st, k, lhs, rhs)
                },
                _ => {
                    plain_binary(nest, st, op, lhs, rhs, span)
                },
            }
        },
        _ => {
            plain_binary(nest, st, op, lhs, rhs, span)
        },
    }
}

/// A conditional expression.
#[verifier::opaque]
pub open spec fn conditional<'a>(nest: Nest<'a>, st: State<'a>, c: &'a Expr, a: &'a Expr, b: &'a Expr, span: Span) -> Result<(Operand, State<'a>), Failure<'a>>
{
    match (nest.expr)(st, c) {
        Ok((v, st)) => {
            match need_int(st, v, span) {
                Ok((i, st)) => {
                    let (res, st) = lower::slot(st, I64);
                    let (then_bb, st) = state::block(st, Label::CondThen);
                    let (else_bb, st) = state::block(st, Label::CondElse);
                    let (merge, st) = state::block(st, Label::CondMerge);
                    let st = state::finish(st, Op::Branch(i, then_bb, else_bb));
                    let st = state::at(st, then_bb);
                    match (nest.expr)(st, a) {
                        Ok((x, st)) => {
                            let st = lower::store(st, res.val, x);
                            let st = state::finish(st, Op::Jump(merge));
                            let st = state::at(st, else_bb);
                            match (nest.expr)(st, b) {
                                Ok((y, st)) => {
                                    let st = lower::store(st, res.val, y);
                                    let st = state::finish(st, Op::Jump(merge));
                                    let st = state::at(st, merge);
                                    let (r, st) = lower::load(st, res);
                                    Ok((r, st))
                                },
                                Err(e) => Err(e),
                            }
                        },
                        Err(e) => Err(e),
                    }
                },
                Err(e) => Err(e),
            }
        },
        Err(e) => Err(e),
    }
}

/// A bound of a range, zero where there is none.
#[verifier::opaque]
pub open spec fn bound<'a>(nest: Nest<'a>, st: State<'a>, e: &'a Option<Box<Expr>>) -> Result<(Operand, State<'a>), Failure<'a>>
{
    match *e {
        Some(x) => {
            (nest.expr)(st, &*x)
        },
        None => {
            Ok((Operand { val: Val::Int(0), ty: I64 }, st))
        },
    }
}

/// A range: its bounds, and whether the end belongs to it.
#[verifier::opaque]
pub open spec fn range<'a>(nest: Nest<'a>, st: State<'a>, a: &'a Option<Box<Expr>>, b: &'a Option<Box<Expr>>, inclusive: bool) -> Result<(Operand, State<'a>), Failure<'a>>
{
    match bound(nest, st, a) {
        Ok((x, st)) => {
            match bound(nest, st, b) {
                Ok((y, st)) => {
                    let (t1, st) = lower::pair_of(st, I64, I1);
                    let (t, st) = state::intern(st, TyDef::Cons(I64, t1));
                    let (s0, st) = lower::insert(st, Operand { val: Val::Undef, ty: t }, x, 0);
                    let (s1, st) = lower::insert(st, s0, y, 1);
                    if inclusive {
                        let (s2, st) = lower::insert(st, s1, Operand { val: Val::Int(1), ty: I1 }, 2);
                        Ok((s2, st))
                    } else {
                        let (s2, st) = lower::insert(st, s1, Operand { val: Val::Int(0), ty: I1 }, 2);
                        Ok((s2, st))
                    }
                },
                Err(e) => Err(e),
            }
        },
        Err(e) => Err(e),
    }
}

/// The operation of a compound assignment.
#[verifier::opaque]
pub open spec fn arith_of(op: BinOp) -> Option<Arith>
{
    match op {
        BinOp::Add => {
            Some(Arith::Add)
        },
        BinOp::Sub => {
            Some(Arith::Sub)
        },
        BinOp::Mul => {
            Some(Arith::Mul)
        },
        BinOp::Div => {
            Some(Arith::Div)
        },
        BinOp::Mod => {
            Some(Arith::Rem)
        },
        BinOp::BitAnd => {
            Some(Arith::And)
        },
        BinOp::BitOr => {
            Some(Arith::Or)
        },
        BinOp::BitXor => {
            Some(Arith::Xor)
        },
        BinOp::Shl => {
            Some(Arith::Shl)
        },
        BinOp::Shr => {
            Some(Arith::Shr)
        },
        _ => {
            None
        },
    }
}

/// A compound assignment.
#[verifier::opaque]
pub open spec fn compound<'a>(nest: Nest<'a>, st: State<'a>, op: BinOp, lhs: &'a Expr, value: &'a Expr, span: Span) -> Result<(Operand, State<'a>), Failure<'a>>
{
    match (nest.expr)(st, value) {
        Ok((v, st)) => {
            match (nest.place)(st, lhs) {
                Ok((p, st)) => {
                    let (a, st) = lower::load(st, Operand { val: p.val, ty: I64 });
                    match need_int(st, v, span) {
                        Ok((b, st)) => {
                            match arith_of(op) {
                                Some(k) => {
                                    let (r, st) = lower::arith(st, k, a, b);
                                    let st = lower::store(st, p.val, r);
                                    Ok((r, st))
                                },
                                _ => {
                                    let st = lower::store(st, p.val, a);
                                    Ok((a, st))
                                },
                            }
                        },
                        Err(e) => Err(e),
                    }
                },
                Err(e) => Err(e),
            }
        },
        Err(e) => Err(e),
    }
}

/// A field of an object that may be missing; zero where it is.
#[verifier::opaque]
pub open spec fn nullable<'a>(nest: Nest<'a>, st: State<'a>, o: &'a Expr, f: Seq<char>) -> Result<(Operand, State<'a>), Failure<'a>>
{
    match (nest.expr)(st, o) {
        Ok((v, st)) => {
            if lower::is_ptr(st, v.ty) {
                let (c, st) = state::emit(st, Op::IsNull(v), I1);
                let (then_bb, st) = state::block(st, Label::NullableThen);
                let (else_bb, st) = state::block(st, Label::NullableElse);
                let (merge, st) = state::block(st, Label::NullableMerge);
                let st = state::finish(st, Op::Branch(c, else_bb, then_bb));
                let st = state::at(st, then_bb);
                match places::field_ptr(nest, st, o, f) {
                    Ok((p, st)) => {
                        let (x, st) = lower::load(st, Operand { val: p.val, ty: I64 });
                        let st = state::finish(st, Op::Jump(merge));
                        let st = state::at(st, else_bb);
                        let st = state::finish(st, Op::Jump(merge));
                        let st = state::at(st, merge);
                        let (r, st) = state::emit(st, Op::Merge(x, then_bb, Operand { val: Val::Int(0), ty: I64 }, else_bb), I64);
                        Ok((r, st))
                    },
                    Err(e) => Err(e),
                }
            } else {
                match places::field_ptr(nest, st, o, f) {
                    Ok((p, st)) => {
                        let (r, st) = lower::load(st, Operand { val: p.val, ty: I64 });
                        Ok((r, st))
                    },
                    Err(e) => Err(e),
                }
            }
        },
        Err(e) => Err(e),
    }
}

/// An assignment to a field, or to a property through its setter.
#[verifier::opaque]
pub open spec fn assign_member<'a>(nest: Nest<'a>, st: State<'a>, o: &'a Expr, f: Seq<char>, v: Operand) -> Result<(Operand, State<'a>), Failure<'a>>
{
    let g = match (nest.infer)(st, o) {
        Ok(v) => Some(v),
        Err(_) => None,
    };
    match g {
        Some(Guess::Struct(l)) => {
            match state::member_entry(st, f, l, MemberKind::Setter) {
                Some(k) => {
                    let info = state::member_info(st, k);
                    match (nest.place)(st, o) {
                        Ok((p, st)) => {
                            let st = state::perform(st, Op::Push(Operand { val: p.val, ty: PTR }));
                            let st = state::perform(st, Op::Push(v));
                            let (r, st) = lower::call(st, info.func, 2);
                            Ok((v, st))
                        },
                        Err(e) => Err(e),
                    }
                },
                _ => {
                    match places::field_ptr(nest, st, o, f) {
                        Ok((p, st)) => {
                            let st = lower::store(st, p.val, v);
                            Ok((v, st))
                        },
                        Err(e) => Err(e),
                    }
                },
            }
        },
        _ => {
            match places::field_ptr(nest, st, o, f) {
                Ok((p, st)) => {
                    let st = lower::store(st, p.val, v);
                    Ok((v, st))
                },
                Err(e) => Err(e),
            }
        },
    }
}

/// An assignment to an element of an array or vector, or behind an address.
#[verifier::opaque]
pub open spec fn assign_element<'a>(nest: Nest<'a>, st: State<'a>, n: Seq<char>, i: &'a Expr, v: Operand, span: Span) -> Result<(Operand, State<'a>), Failure<'a>>
{
    match (nest.expr)(st, i) {
        Ok((x, st)) => {
            match need_int(st, x, span) {
                Ok((k, st)) => {
                    match state::lookup_var(st, n) {
                        Some(p) => {
                            if lower::is_array(st, p.ty) {
                                let (e, st) = lower::elem_at(st, p.ty, p.val, k);
                                let st = lower::store(st, e, v);
                                Ok((v, st))
                            } else if state::is_vec(st, n) && lower::is_struct(st, p.ty) {
                                let buf = lower::struct_elem(st, p.ty, 0);
                                let (b, st) = lower::field_at(st, p.ty, p.val, 0);
                                let t = lower::array_elem(st, buf);
                                let (c, st) = lower::coerce(st, v, t);
                                let (e, st) = lower::elem_at(st, buf, b, k);
                                let st = lower::store(st, e, c);
                                Ok((c, st))
                            } else if lower::is_ptr(st, p.ty) {
                                let (a, st) = lower::load(st, p);
                                let (e, st) = state::emit(st, Op::Offset(I64, a.val, k), PTR);
                                let st = lower::store(st, e.val, v);
                                Ok((v, st))
                            } else {
                                Err(Failure { trouble: Trouble { message: "unsupported indexing assignment base; only direct array variable indexing supported"@, span: span }, after: st })
                            }
                        },
                        _ => {
                            Err(Failure { trouble: Trouble { message: "unsupported indexing assignment base; only direct array variable indexing supported"@, span: span }, after: st })
                        },
                    }
                },
                Err(e) => Err(e),
            }
        },
        Err(e) => Err(e),
    }
}

/// An assignment to an entry of a map or to an element.
#[verifier::opaque]
pub open spec fn assign_index<'a>(nest: Nest<'a>, st: State<'a>, o: &'a Expr, i: &'a Expr, value: &'a Expr, v: Operand, span: Span) -> Result<(Operand, State<'a>), Failure<'a>>
{
    match o.kind {
        ExprKind::Ident(n) => {
            if state::is_map(st, n@) {
                match state::lookup_var(st, n@) {
                    Some(p) => {
                        if lower::is_struct(st, p.ty) {
                            match (nest.expr)(st, i) {
                                Ok((key, st)) => {
                                    match (nest.expr)(st, value) {
                                        Ok((x, st)) => {
                                            let st = map_put(st, p, key, x);
                                            Ok((x, st))
                                        },
                                        Err(e) => Err(e),
                                    }
                                },
                                Err(e) => Err(e),
                            }
                        } else {
                            Err(Failure { trouble: state::naming("`"@, n@, "` is not a writable map"@, o.span), after: st })
                        }
                    },
                    _ => {
                        Err(Failure { trouble: state::naming("`"@, n@, "` is not a writable map"@, o.span), after: st })
                    },
                }
            } else {
                assign_element(nest, st, n@, i, v, span)
            }
        },
        _ => {
            Err(Failure { trouble: Trouble { message: "unsupported indexing assignment base; only direct array variable indexing supported"@, span: span }, after: st })
        },
    }
}

/// An assignment.
#[verifier::opaque]
pub open spec fn assign<'a>(nest: Nest<'a>, st: State<'a>, lhs: &'a Expr, value: &'a Expr) -> Result<(Operand, State<'a>), Failure<'a>>
{
    match (nest.expr)(st, value) {
        Ok((v, st)) => {
            match lhs.kind {
                ExprKind::Ident(n) => {
                    match state::lookup_var(st, n@) {
                        Some(p) => {
                            let (c, st) = lower::coerce(st, v, p.ty);
                            let st = lower::store(st, p.val, c);
                            Ok((c, st))
                        },
                        _ => {
                            Err(Failure { trouble: state::naming("undefined var "@, n@, ""@, lhs.span), after: st })
                        },
                    }
                },
                ExprKind::Member(o, f) => {
                    assign_member(nest, st, &*o, f@, v)
                },
                ExprKind::Index(o, i) => {
                    assign_index(nest, st, &*o, &*i, value, v, lhs.span)
                },
                _ => {
                    Err(Failure { trouble: Trouble { message: "invalid assignment target"@, span: lhs.span }, after: st })
                },
            }
        },
        Err(e) => Err(e),
    }
}

/// Whether two keys are equal; strings are compared by their characters.
#[verifier::opaque]
pub open spec fn key_eq<'a>(st: State<'a>, a: Operand, b: Operand) -> (Operand, State<'a>)
{
    if lower::is_int(st, a.ty) && a.ty == b.ty {
        let (r, st) = lower::compare(st, Pred::Same, a, b);
        (r, st)
    } else if lower::is_ptr(st, a.ty) && lower::is_ptr(st, b.ty) {
        let (c, st) = lower::runtime2(st, Runtime::Strcmp, a, b, I32);
        let (r, st) = lower::compare(st, Pred::Same, c, Operand { val: Val::Int(0), ty: I32 });
        (r, st)
    } else {
        (Operand { val: Val::Int(0), ty: I1 }, st)
    }
}

/// Looks a key up in a map: the address of its index, which is negative where it is not there.
#[verifier::opaque]
pub open spec fn map_find<'a>(st: State<'a>, p: Operand, key: Operand) -> (Operand, State<'a>)
{
    let keys = lower::struct_elem(st, p.ty, 0);
    let t = lower::array_elem(st, keys);
    let (k, st) = lower::coerce(st, key, t);
    let (lp, st) = lower::field_at(st, p.ty, p.val, 2);
    let (n, st) = lower::load(st, Operand { val: lp, ty: I64 });
    let (res, st) = lower::slot(st, I64);
    let st = lower::store(st, res.val, Operand { val: Val::Int(-1i64), ty: I64 });
    let (ip, st) = lower::slot(st, I64);
    let st = lower::store(st, ip.val, Operand { val: Val::Int(0), ty: I64 });
    let (loop_bb, st) = state::block(st, Label::SearchLoop);
    let (body, st) = state::block(st, Label::SearchBody);
    let (hit, st) = state::block(st, Label::SearchHit);
    let (next, st) = state::block(st, Label::SearchNext);
    let (exit, st) = state::block(st, Label::SearchExit);
    let st = state::finish(st, Op::Jump(loop_bb));
    let st = state::at(st, loop_bb);
    let (i, st) = lower::load(st, ip);
    let (c, st) = lower::compare(st, Pred::Below, i, n);
    let st = state::finish(st, Op::Branch(c, body, exit));
    let st = state::at(st, body);
    let (kb, st) = lower::field_at(st, p.ty, p.val, 0);
    let (kp, st) = lower::elem_at(st, keys, kb, i);
    let (x, st) = lower::load(st, Operand { val: kp, ty: t });
    let (q, st) = key_eq(st, x, k);
    let st = state::finish(st, Op::Branch(q, hit, next));
    let st = state::at(st, hit);
    let st = lower::store(st, res.val, i);
    let st = state::finish(st, Op::Jump(exit));
    let st = state::at(st, next);
    let (j, st) = lower::arith(st, Arith::Add, i, Operand { val: Val::Int(1), ty: I64 });
    let st = lower::store(st, ip.val, j);
    let st = state::finish(st, Op::Jump(loop_bb));
    let st = state::at(st, exit);
    (res, st)
}

/// Adds an entry to a map; ends the program where it is full.
#[verifier::opaque]
pub open spec fn map_append<'a>(st: State<'a>, p: Operand, key: Operand, v: Operand) -> State<'a>
{
    let keys = lower::struct_elem(st, p.ty, 0);
    let vals = lower::struct_elem(st, p.ty, 1);
    let (lp, st) = lower::field_at(st, p.ty, p.val, 2);
    let (n, st) = lower::load(st, Operand { val: lp, ty: I64 });
    let (c, st) = lower::compare(st, Pred::Below, n, Operand { val: Val::Int(16), ty: I64 });
    let (ok, st) = state::block(st, Label::MapOk);
    let (fail, st) = state::block(st, Label::MapFail);
    let st = state::finish(st, Op::Branch(c, ok, fail));
    let st = state::at(st, fail);
    let st = lower::stop(st);
    let st = state::at(st, ok);
    let (kb, st) = lower::field_at(st, p.ty, p.val, 0);
    let kt = lower::array_elem(st, keys);
    let (k, st) = lower::coerce(st, key, kt);
    let (kp, st) = lower::elem_at(st, keys, kb, n);
    let st = lower::store(st, kp, k);
    let vt = lower::array_elem(st, vals);
    let (w, st) = lower::coerce(st, v, vt);
    let (vb, st) = lower::field_at(st, p.ty, p.val, 1);
    let (vp, st) = lower::elem_at(st, vals, vb, n);
    let st = lower::store(st, vp, w);
    let (m, st) = lower::arith(st, Arith::Add, n, Operand { val: Val::Int(1), ty: I64 });
    let st = lower::store(st, lp, m);
    st
}

/// Sets an entry of a map.
#[verifier::opaque]
pub open spec fn map_put<'a>(st: State<'a>, p: Operand, key: Operand, v: Operand) -> State<'a>
{
    let vals = lower::struct_elem(st, p.ty, 1);
    let (res, st) = map_find(st, p, key);
    let (hit, st) = state::block(st, Label::MapHit);
    let (miss, st) = state::block(st, Label::MapMiss);
    let (merge, st) = state::block(st, Label::MapMerge);
    let (i, st) = lower::load(st, res);
    let (c, st) = lower::compare(st, Pred::GreaterOrSame, i, Operand { val: Val::Int(0), ty: I64 });
    let st = state::finish(st, Op::Branch(c, hit, miss));
    let st = state::at(st, hit);
    let vt = lower::array_elem(st, vals);
    let (w, st) = lower::coerce(st, v, vt);
    let (vb, st) = lower::field_at(st, p.ty, p.val, 1);
    let (vp, st) = lower::elem_at(st, vals, vb, i);
    let st = lower::store(st, vp, w);
    let st = state::finish(st, Op::Jump(merge));
    let st = state::at(st, miss);
    let st = map_append(st, p, key, v);
    let st = state::finish(st, Op::Jump(merge));
    let st = state::at(st, merge);
    st
}

/// An entry of a map, `other` where there is none.
#[verifier::opaque]
pub open spec fn map_get<'a>(st: State<'a>, p: Operand, key: Operand, other: Operand) -> (Operand, State<'a>)
{
    let vals = lower::struct_elem(st, p.ty, 1);
    let vt = lower::array_elem(st, vals);
    let (found, st) = map_find(st, p, key);
    let (hit, st) = state::block(st, Label::MapHit);
    let (miss, st) = state::block(st, Label::MapMiss);
    let (merge, st) = state::block(st, Label::MapMerge);
    let (res, st) = lower::slot(st, vt);
    let (d, st) = lower::coerce(st, other, vt);
    let st = lower::store(st, res.val, d);
    let (i, st) = lower::load(st, found);
    let (c, st) = lower::compare(st, Pred::GreaterOrSame, i, Operand { val: Val::Int(0), ty: I64 });
    let st = state::finish(st, Op::Branch(c, hit, miss));
    let st = state::at(st, hit);
    let (vb, st) = lower::field_at(st, p.ty, p.val, 1);
    let (vp, st) = lower::elem_at(st, vals, vb, i);
    let (x, st) = lower::load(st, Operand { val: vp, ty: vt });
    let st = lower::store(st, res.val, x);
    let st = state::finish(st, Op::Jump(merge));
    let st = state::at(st, miss);
    let st = state::finish(st, Op::Jump(merge));
    let st = state::at(st, merge);
    let (r, st) = lower::load(st, res);
    (r, st)
}

/// An element of an array or vector, or what is behind an address.
#[verifier::opaque]
pub open spec fn element<'a>(nest: Nest<'a>, st: State<'a>, n: Seq<char>, i: &'a Expr, span: Span) -> Result<(Operand, State<'a>), Failure<'a>>
{
    match (nest.expr)(st, i) {
        Ok((x, st)) => {
            match need_int(st, x, span) {
                Ok((k, st)) => {
                    match state::lookup_var(st, n) {
                        Some(p) => {
                            if lower::is_array(st, p.ty) {
                                let t = lower::array_elem(st, p.ty);
                                let (e, st) = lower::elem_at(st, p.ty, p.val, k);
                                let (r, st) = lower::load(st, Operand { val: e, ty: t });
                                Ok((r, st))
                            } else if state::is_vec(st, n) && lower::is_struct(st, p.ty) {
                                let buf = lower::struct_elem(st, p.ty, 0);
                                let t = lower::array_elem(st, buf);
                                let (b, st) = lower::field_at(st, p.ty, p.val, 0);
                                let (e, st) = lower::elem_at(st, buf, b, k);
                                let (r, st) = lower::load(st, Operand { val: e, ty: t });
                                Ok((r, st))
                            } else if lower::is_ptr(st, p.ty) {
                                let (a, st) = lower::load(st, p);
                                let (e, st) = state::emit(st, Op::Offset(I64, a.val, k), PTR);
                                let (r, st) = lower::load(st, Operand { val: e.val, ty: I64 });
                                Ok((r, st))
                            } else {
                                Err(Failure { trouble: Trouble { message: "unsupported indexing base; only direct array variable indexing supported in Phase 2"@, span: span }, after: st })
                            }
                        },
                        _ => {
                            Err(Failure { trouble: Trouble { message: "unsupported indexing base; only direct array variable indexing supported in Phase 2"@, span: span }, after: st })
                        },
                    }
                },
                Err(e) => Err(e),
            }
        },
        Err(e) => Err(e),
    }
}

/// An entry of a map, or an element.
#[verifier::opaque]
pub open spec fn index<'a>(nest: Nest<'a>, st: State<'a>, o: &'a Expr, i: &'a Expr, span: Span) -> Result<(Operand, State<'a>), Failure<'a>>
{
    match o.kind {
        ExprKind::Ident(n) => {
            if state::is_map(st, n@) {
                match state::lookup_var(st, n@) {
                    Some(p) => {
                        if lower::is_struct(st, p.ty) {
                            match (nest.expr)(st, i) {
                                Ok((key, st)) => {
                                    let vals = lower::struct_elem(st, p.ty, 1);
                                    let vt = lower::array_elem(st, vals);
                                    let (r, st) = map_get(st, p, key, Operand { val: Val::Zero, ty: vt });
                                    Ok((r, st))
                                },
                                Err(e) => Err(e),
                            }
                        } else {
                            Err(Failure { trouble: state::naming("`"@, n@, "` is not a readable map"@, o.span), after: st })
                        }
                    },
                    _ => {
                        Err(Failure { trouble: state::naming("`"@, n@, "` is not a readable map"@, o.span), after: st })
                    },
                }
            } else {
                element(nest, st, n@, i, span)
            }
        },
        _ => {
            Err(Failure { trouble: Trouble { message: "unsupported indexing base; only direct array variable indexing supported in Phase 2"@, span: span }, after: st })
        },
    }
}

/// A slice: its bounds are computed, and the whole is taken.
#[verifier::opaque]
pub open spec fn slice<'a>(nest: Nest<'a>, st: State<'a>, o: &'a Expr, a: &'a Option<Box<Expr>>, b: &'a Option<Box<Expr>>) -> Result<(Operand, State<'a>), Failure<'a>>
{
    match bound(nest, st, a) {
        Ok((x, st)) => {
            match bound(nest, st, b) {
                Ok((y, st)) => {
                    (nest.expr)(st, o)
                },
                Err(e) => Err(e),
            }
        },
        Err(e) => Err(e),
    }
}

/// A variant of an enum, a property through its getter, or a field.
#[verifier::opaque]
pub open spec fn member<'a>(nest: Nest<'a>, st: State<'a>, o: &'a Expr, f: Seq<char>, span: Span) -> Result<(Operand, State<'a>), Failure<'a>>
{
    match (nest.infer)(st, o) {
        Ok(g) => {
            match g {
                Guess::Enum(l) => {
                    match state::tag_entry(st, f, l) {
                        Some(k) => {
                            let info = state::tag_info(st, k);
                            let (t, st) = lower::class_ty(st, l);
                            let (r, st) = lower::insert(st, Operand { val: Val::Undef, ty: t }, Operand { val: Val::Int(info.tag as i64), ty: I32 }, 0);
                            Ok((r, st))
                        },
                        _ => {
                            match places::field_ptr(nest, st, o, f) {
                                Ok((p, st)) => {
                                    Err(Failure { trouble: Trouble { message: "field access on non-struct"@, span: span }, after: st })
                                },
                                Err(e) => Err(e),
                            }
                        },
                    }
                },
                Guess::Struct(l) => {
                    match state::member_entry(st, f, l, MemberKind::Getter) {
                        Some(k) => {
                            let info = state::member_info(st, k);
                            match (nest.place)(st, o) {
                                Ok((p, st)) => {
                                    let st = state::perform(st, Op::Push(Operand { val: p.val, ty: PTR }));
                                    let (r, st) = lower::call(st, info.func, 1);
                                    Ok((r, st))
                                },
                                Err(e) => Err(e),
                            }
                        },
                        _ => {
                            match places::field_ptr(nest, st, o, f) {
                                Ok((p, st)) => {
                                    let (r, st) = lower::load(st, p);
                                    Ok((r, st))
                                },
                                Err(e) => Err(e),
                            }
                        },
                    }
                },
                _ => {
                    match places::field_ptr(nest, st, o, f) {
                        Ok((p, st)) => {
                            Err(Failure { trouble: Trouble { message: "field access on non-struct"@, span: span }, after: st })
                        },
                        Err(e) => Err(e),
                    }
                },
            }
        },
        Err(e) => Err(Failure { trouble: e, after: st }),
    }
}

/// Stores the fields of a struct literal.
#[verifier::opaque]
pub open spec fn lit_fields<'a>(nest: Nest<'a>, st: State<'a>, fs: &'a Vec<FieldInit>, i: usize, l: usize, t: usize, p: Val, span: Span) -> Result<((), State<'a>), Failure<'a>>
    decreases fs.len() - i,
{
    if i >= fs.len() {
        Ok(((), st))
    } else {
        match state::field_entry(st, fs@[i as int].name@, l) {
            Some(k) => {
                let info = state::field_info(st, k);
                match (nest.expr)(st, &fs@[i as int].value) {
                    Ok((v, st)) => {
                        let (q, st) = lower::field_at(st, t, p, info.index);
                        let st = lower::store(st, q, v);
                        match lit_fields(nest, st, fs, (i + 1) as usize, l, t, p, span) {
                            Ok((_, st)) => {
                                Ok(((), st))
                            },
                            Err(e) => Err(e),
                        }
                    },
                    Err(e) => Err(e),
                }
            },
            _ => {
                let n = fs@[i as int].name@;
                Err(Failure { trouble: state::naming("unknown field "@, n, ""@, span), after: st })
            },
        }
    }
}

/// Whether a literal gives field entry `k`.
#[verifier::opaque]
pub open spec fn given<'a>(st: State<'a>, fs: &'a Vec<FieldInit>, i: usize, k: usize) -> bool
    decreases fs.len() - i,
{
    if i >= fs.len() {
        false
    } else if state::field_is(st, k, fs@[i as int].name@) {
        true
    } else {
        given(st, fs, (i + 1) as usize, k)
    }
}

/// Stores the defaults of the fields that a literal does not give, looked for in the first `n` field entries.
#[verifier::opaque]
pub open spec fn lit_defaults<'a>(nest: Nest<'a>, st: State<'a>, fs: &'a Vec<FieldInit>, n: usize, l: usize, t: usize, p: Val) -> Result<((), State<'a>), Failure<'a>>
    decreases n,
{
    if n == 0 {
        Ok(((), st))
    } else {
        let k = (n - 1) as usize;
        match lit_defaults(nest, st, fs, k, l, t, p) {
            Ok((_, st)) => {
                if state::field_layout(st, k) != Some(l) || given(st, fs, 0, k) {
                    Ok(((), st))
                } else {
                    match state::default_at(st, k) {
                        Some(e) => {
                            let info = state::field_info(st, k);
                            match (nest.expr)(st, e) {
                                Ok((v, st)) => {
                                    let (q, st) = lower::field_at(st, t, p, info.index);
                                    let st = lower::store(st, q, v);
                                    Ok(((), st))
                                },
                                Err(e) => Err(e),
                            }
                        },
                        _ => {
                            Ok(((), st))
                        },
                    }
                }
            },
            Err(e) => Err(e),
        }
    }
}

/// A struct literal.
#[verifier::opaque]
pub open spec fn struct_lit<'a>(nest: Nest<'a>, st: State<'a>, ty: &'a Type, fs: &'a Vec<FieldInit>, span: Span) -> Result<(Operand, State<'a>), Failure<'a>>
{
    match *ty {
        Type::Named(n) => {
            match state::layout(st, n@) {
                Some(l) => {
                    if state::is_enum(st, l) {
                        Err(Failure { trouble: state::naming("unknown struct "@, n@, ""@, span), after: st })
                    } else {
                        let (t, st) = lower::class_ty(st, l);
                        let (p, st) = state::emit(st, Op::Temp(t), PTR);
                        let st = lower::store(st, p.val, Operand { val: Val::Zero, ty: t });
                        match lit_fields(nest, st, fs, 0, l, t, p.val, span) {
                            Ok((_, st)) => {
                                let n_fields = state::field_count(st);
                                match lit_defaults(nest, st, fs, n_fields, l, t, p.val) {
                                    Ok((_, st)) => {
                                        let (r, st) = lower::load(st, Operand { val: p.val, ty: t });
                                        Ok((r, st))
                                    },
                                    Err(e) => Err(e),
                                }
                            },
                            Err(e) => Err(e),
                        }
                    }
                },
                _ => {
                    Err(Failure { trouble: state::naming("unknown struct "@, n@, ""@, span), after: st })
                },
            }
        },
        _ => {
            Err(Failure { trouble: Trouble { message: "struct literal requires named type"@, span: span }, after: st })
        },
    }
}

/// A value of an enum: the tag, and the payload where there is one.
#[verifier::opaque]
pub open spec fn enum_value<'a>(nest: Nest<'a>, st: State<'a>, l: usize, variant: Seq<char>, args: &'a Vec<CallArg>, span: Span) -> Result<(Operand, State<'a>), Failure<'a>>
{
    match state::tag_entry(st, variant, l) {
        Some(k) => {
            let info = state::tag_info(st, k);
            let (t, st) = lower::class_ty(st, l);
            let (a, st) = lower::insert(st, Operand { val: Val::Undef, ty: t }, Operand { val: Val::Int(info.tag as i64), ty: I32 }, 0);
            if args.len() > 0 {
                match calls::call_arg(nest, st, &args@[0 as int]) {
                    Ok((v, st)) => {
                        let (b, st) = lower::insert(st, a, v, 1);
                        Ok((b, st))
                    },
                    Err(e) => Err(e),
                }
            } else {
                Ok((a, st))
            }
        },
        _ => {
            Err(Failure { trouble: state::naming("enum has no variant `"@, variant, "`"@, span), after: st })
        },
    }
}

/// A value of the enum that is named, or of the one that has the variant.
#[verifier::opaque]
pub open spec fn enum_variant<'a>(nest: Nest<'a>, st: State<'a>, name: &'a Option<String>, variant: Seq<char>, args: &'a Vec<CallArg>, span: Span) -> Result<(Operand, State<'a>), Failure<'a>>
{
    match *name {
        Some(n) => {
            match state::layout(st, n@) {
                Some(l) => {
                    enum_value(nest, st, l, variant, args, span)
                },
                _ => {
                    Err(Failure { trouble: state::naming("unknown enum "@, n@, ""@, span), after: st })
                },
            }
        },
        None => {
            match state::any_tag(st, variant) {
                Some(k) => {
                    let info = state::tag_info(st, k);
                    enum_value(nest, st, info.layout, variant, args, span)
                },
                _ => {
                    Err(Failure { trouble: state::naming("enum has no variant `"@, variant, "`"@, span), after: st })
                },
            }
        },
    }
}

/// Appends a number to a string under construction.
#[verifier::opaque]
pub open spec fn join_number<'a>(st: State<'a>, buf: Val, v: Operand, format: Seq<char>) -> State<'a>
{
    let (t, st) = lower::array_of(st, I8, 64);
    let (b, st) = state::emit(st, Op::Temp(t), PTR);
    let (f, st) = lower::string(st, format);
    let st = state::perform(st, Op::Push(Operand { val: b.val, ty: PTR }));
    let st = state::perform(st, Op::Push(f));
    let st = state::perform(st, Op::Push(v));
    let (x, st) = lower::runtime(st, Runtime::Sprintf, 3, I32);
    let (y, st) = lower::runtime2(st, Runtime::Strcat, Operand { val: buf, ty: PTR }, Operand { val: b.val, ty: PTR }, PTR);
    st
}

/// Appends a value to a string under construction.
#[verifier::opaque]
pub open spec fn join_value<'a>(st: State<'a>, buf: Val, v: Operand) -> State<'a>
{
    if lower::is_int(st, v.ty) {
        let st = join_number(st, buf, v, "%ld"@);
        st
    } else if lower::is_ptr(st, v.ty) {
        let (x, st) = lower::runtime2(st, Runtime::Strcat, Operand { val: buf, ty: PTR }, v, PTR);
        st
    } else {
        let st = if lower::is_float(st, v.ty) {
            join_number(st, buf, v, "%f"@)
        } else {
            st
        };
        st
    }
}

/// Appends the pieces of a string from `i` on.
#[verifier::opaque]
pub open spec fn join_parts<'a>(nest: Nest<'a>, st: State<'a>, ps: &'a Vec<StringPart>, i: usize, buf: Val) -> Result<((), State<'a>), Failure<'a>>
    decreases ps.len() - i,
{
    if i >= ps.len() {
        Ok(((), st))
    } else {
        match ps@[i as int] {
            StringPart::Literal(s) => {
                let (a, st) = lower::string(st, s@);
                let (x, st) = lower::runtime2(st, Runtime::Strcat, Operand { val: buf, ty: PTR }, a, PTR);
                match join_parts(nest, st, ps, (i + 1) as usize, buf) {
                    Ok((_, st)) => {
                        Ok(((), st))
                    },
                    Err(e) => Err(e),
                }
            },
            StringPart::Hole(e) => {
                match (nest.expr)(st, &e) {
                    Ok((v, st)) => {
                        let st = join_value(st, buf, v);
                        match join_parts(nest, st, ps, (i + 1) as usize, buf) {
                            Ok((_, st)) => {
                                Ok(((), st))
                            },
                            Err(e) => Err(e),
                        }
                    },
                    Err(e) => Err(e),
                }
            },
        }
    }
}

/// A string with holes, put together in a buffer and copied.
#[verifier::opaque]
pub open spec fn interpolated<'a>(nest: Nest<'a>, st: State<'a>, ps: &'a Vec<StringPart>) -> Result<(Operand, State<'a>), Failure<'a>>
{
    let (t, st) = lower::array_of(st, I8, 512);
    let (b, st) = state::emit(st, Op::Temp(t), PTR);
    let (f, st) = lower::elem_at(st, t, b.val, Operand { val: Val::Int(0), ty: I32 });
    let st = lower::store(st, f, Operand { val: Val::Int(0), ty: I8 });
    match join_parts(nest, st, ps, 0, b.val) {
        Ok((_, st)) => {
            let (r, st) = lower::runtime1(st, Runtime::Strdup, Operand { val: b.val, ty: PTR }, PTR);
            Ok((r, st))
        },
        Err(e) => Err(e),
    }
}

/// Declares the parameters of a closure.
#[verifier::opaque]
pub open spec fn closure_params<'a>(nest: Nest<'a>, st: State<'a>, ps: &'a Vec<Param>, i: usize) -> Result<((), State<'a>), Failure<'a>>
    decreases ps.len() - i,
{
    if i >= ps.len() {
        Ok(((), st))
    } else {
        let q = &ps@[i as int];
        match lower::ty(nest, st, &q.ty) {
            Ok((t, st)) => {
                let st = state::add_param(st, q.name@, ParamInfo { ty: Some(t), elem: None, is_variadic: false });
                closure_params(nest, st, ps, (i + 1) as usize)
            },
            Err(e) => Err(e),
        }
    }
}

/// Gives the parameters of a closure a place in memory.
#[verifier::opaque]
pub open spec fn closure_slots<'a>(nest: Nest<'a>, st: State<'a>, ps: &'a Vec<Param>, i: usize) -> Result<((), State<'a>), Failure<'a>>
    decreases ps.len() - i,
{
    if i >= ps.len() {
        Ok(((), st))
    } else {
        let q = &ps@[i as int];
        match lower::ty(nest, st, &q.ty) {
            Ok((t, st)) => {
                let (s, st) = lower::slot(st, t);
                let st = lower::store(st, s.val, Operand { val: Val::Arg(i), ty: t });
                let st = state::bind(st, q.name@, s);
                closure_slots(nest, st, ps, (i + 1) as usize)
            },
            Err(e) => Err(e),
        }
    }
}

/// What a closure does and returns.
#[verifier::opaque]
pub open spec fn closure_body<'a>(nest: Nest<'a>, st: State<'a>, b: &'a ClosureBody) -> Result<((), State<'a>), Failure<'a>>
{
    match *b {
        ClosureBody::Value(e) => {
            match (nest.expr)(st, &e) {
                Ok((v, st)) => {
                    let st = state::finish(st, Op::Return(v));
                    Ok(((), st))
                },
                Err(e) => Err(e),
            }
        },
        ClosureBody::Block(x) => {
            match (nest.run_block)(st, &x) {
                Ok((y, st)) => {
                    if state::done(st) {
                        Ok(((), st))
                    } else {
                        let st = state::finish(st, Op::Return(Operand { val: Val::Int(0), ty: I64 }));
                        Ok(((), st))
                    }
                },
                Err(e) => Err(e),
            }
        },
    }
}

/// A closure: a function of its own, and its address.
#[verifier::opaque]
pub open spec fn closure<'a>(nest: Nest<'a>, st: State<'a>, ps: &'a Vec<Param>, b: &'a ClosureBody) -> Result<(Operand, State<'a>), Failure<'a>>
{
    let (id, st) = state::next_closure(st);
    let name = state::closure_text(id);
    let (first, st) = state::param_start(st);
    match closure_params(nest, st, ps, 0) {
        Ok((_, st)) => {
            let (f, st) = state::add_function(st, name, FuncInfo { ret: Some(I64), c_varargs: false, converts: false, first: first, count: ps.len() });
            let outer = state::this_function(st);
            let main = state::in_main(st);
            let class = state::this_class(st);
            let back = state::here(st);
            let st = state::set_function(st, Some(f), main, class);
            let (entry, st) = state::block(st, Label::Entry);
            let st = state::at(st, entry);
            let st = state::open_scope(st);
            match closure_slots(nest, st, ps, 0) {
                Ok((_, st)) => {
                    match closure_body(nest, st, b) {
                        Ok((_, st)) => {
                            let st = state::close_scope(st);
                            let st = state::set_function(st, outer, main, class);
                            let st = state::at(st, back);
                            Ok((Operand { val: Val::Func(f), ty: PTR }, st))
                        },
                        Err(e) => Err(e),
                    }
                },
                Err(e) => Err(e),
            }
        },
        Err(e) => Err(e),
    }
}

/// Computes the values from `i` on; the struct that they make up.
#[verifier::opaque]
pub open spec fn tuple_values<'a>(nest: Nest<'a>, st: State<'a>, es: &'a Vec<Expr>, i: usize) -> Result<(usize, State<'a>), Failure<'a>>
    decreases es.len() - i,
{
    if i >= es.len() {
        Ok((NIL, st))
    } else {
        match (nest.expr)(st, &es@[i as int]) {
            Ok((v, st)) => {
                let st = state::perform(st, Op::Push(v));
                match tuple_values(nest, st, es, (i + 1) as usize) {
                    Ok((rest, st)) => {
                        let (t, st) = state::intern(st, TyDef::Cons(v.ty, rest));
                        Ok((t, st))
                    },
                    Err(e) => Err(e),
                }
            },
            Err(e) => Err(e),
        }
    }
}

/// An array with the values from `i` on.
#[verifier::opaque]
pub open spec fn array_values<'a>(nest: Nest<'a>, st: State<'a>, es: &'a Vec<Expr>, i: usize, t: usize, agg: Operand) -> Result<(Operand, State<'a>), Failure<'a>>
    decreases es.len() - i,
{
    if i >= es.len() {
        Ok((agg, st))
    } else {
        match (nest.expr)(st, &es@[i as int]) {
            Ok((v, st)) => {
                let (c, st) = lower::coerce(st, v, t);
                let (a, st) = lower::insert(st, agg, c, i as u32);
                array_values(nest, st, es, (i + 1) as usize, t, a)
            },
            Err(e) => Err(e),
        }
    }
}

/// An array literal, whose elements have the type of the first.
#[verifier::opaque]
pub open spec fn array_lit<'a>(nest: Nest<'a>, st: State<'a>, es: &'a Vec<Expr>) -> Result<(Operand, State<'a>), Failure<'a>>
{
    if es.len() == 0 {
        let (t, st) = lower::array_of(st, I64, 0);
        Ok((Operand { val: Val::Zero, ty: t }, st))
    } else {
        match (nest.expr)(st, &es@[0 as int]) {
            Ok((v, st)) => {
                let (t, st) = lower::array_of(st, v.ty, es.len() as u64);
                let (a, st) = lower::insert(st, Operand { val: Val::Undef, ty: t }, v, 0);
                array_values(nest, st, es, 1, v.ty, a)
            },
            Err(e) => Err(e),
        }
    }
}

/// The type of a key or value of a map, as far as a literal tells.
#[verifier::opaque]
pub open spec fn lit_ty<'a>(e: &'a Expr) -> usize
{
    match e.kind {
        ExprKind::StringLit(_) => {
            PTR
        },
        ExprKind::BoolLit(_) => {
            I1
        },
        ExprKind::CharLit(_) => {
            I32
        },
        ExprKind::FloatLit(_) => {
            F64
        },
        _ => {
            I64
        },
    }
}

/// Stores the entries of a map literal from `i` on.
#[verifier::opaque]
pub open spec fn store_entries<'a>(nest: Nest<'a>, st: State<'a>, es: &'a Vec<MapEntry>, i: usize, p: Operand) -> Result<((), State<'a>), Failure<'a>>
    decreases es.len() - i,
{
    let keys = lower::struct_elem(st, p.ty, 0);
    let vals = lower::struct_elem(st, p.ty, 1);
    if i >= es.len() {
        let (lp, st) = lower::field_at(st, p.ty, p.val, 2);
        let st = lower::store(st, lp, Operand { val: Val::Int(i as i64), ty: I64 });
        Ok(((), st))
    } else {
        let kt = lower::array_elem(st, keys);
        let vt = lower::array_elem(st, vals);
        match (nest.expr)(st, &es@[i as int].key) {
            Ok((k, st)) => {
                let (kc, st) = lower::coerce(st, k, kt);
                let (kb, st) = lower::field_at(st, p.ty, p.val, 0);
                let (kp, st) = lower::elem_at(st, keys, kb, Operand { val: Val::Int(i as i64), ty: I64 });
                let st = lower::store(st, kp, kc);
                match (nest.expr)(st, &es@[i as int].value) {
                    Ok((v, st)) => {
                        let (vc, st) = lower::coerce(st, v, vt);
                        let (vb, st) = lower::field_at(st, p.ty, p.val, 1);
                        let (vp, st) = lower::elem_at(st, vals, vb, Operand { val: Val::Int(i as i64), ty: I64 });
                        let st = lower::store(st, vp, vc);
                        store_entries(nest, st, es, (i + 1) as usize, p)
                    },
                    Err(e) => Err(e),
                }
            },
            Err(e) => Err(e),
        }
    }
}

/// The type of a map, as far as its first entry tells.
#[verifier::opaque]
pub open spec fn lit_map_ty<'a>(st: State<'a>, es: &'a Vec<MapEntry>) -> (usize, State<'a>)
{
    if es.len() == 0 {
        let (t, st) = lower::map_of(st, I64, I64);
        (t, st)
    } else {
        let k = lit_ty(&es@[0 as int].key);
        let v = lit_ty(&es@[0 as int].value);
        let (t, st) = lower::map_of(st, k, v);
        (t, st)
    }
}

/// A map literal.
#[verifier::opaque]
pub open spec fn map_lit<'a>(nest: Nest<'a>, st: State<'a>, es: &'a Vec<MapEntry>) -> Result<(Operand, State<'a>), Failure<'a>>
{
    let (t, st) = lit_map_ty(st, es);
    let (p, st) = lower::slot(st, t);
    let st = lower::store(st, p.val, Operand { val: Val::Zero, ty: t });
    match store_entries(nest, st, es, 0, p) {
        Ok((_, st)) => {
            let (r, st) = lower::load(st, p);
            Ok((r, st))
        },
        Err(e) => Err(e),
    }
}

/// The value of an expression.
#[verifier::opaque]
pub open spec fn expr<'a>(nest: Nest<'a>, st: State<'a>, e: &'a Expr) -> Result<(Operand, State<'a>), Failure<'a>>
{
    match e.kind {
        ExprKind::IntLit(v) => {
            Ok((Operand { val: Val::Int(v), ty: I64 }, st))
        },
        ExprKind::FloatLit(s) => {
            let (k, st) = state::text(st, s@);
            Ok((Operand { val: Val::Float(k), ty: F64 }, st))
        },
        ExprKind::BoolLit(b) => {
            if b {
                Ok((Operand { val: Val::Int(1), ty: I1 }, st))
            } else {
                Ok((Operand { val: Val::Int(0), ty: I1 }, st))
            }
        },
        ExprKind::CharLit(c) => {
            Ok((Operand { val: Val::Int((c as u32) as i64), ty: I32 }, st))
        },
        ExprKind::StringLit(s) => {
            let (r, st) = lower::string(st, s@);
            Ok((r, st))
        },
        ExprKind::Null => {
            Ok((Operand { val: Val::Null, ty: PTR }, st))
        },
        ExprKind::Ident(n) => {
            variable(st, n@, e.span)
        },
        ExprKind::This => {
            match state::lookup_var(st, "this"@) {
                Some(v) => {
                    let (r, st) = lower::load(st, v);
                    Ok((r, st))
                },
                _ => {
                    Err(Failure { trouble: Trouble { message: "`this` outside method"@, span: e.span }, after: st })
                },
            }
        },
        ExprKind::Super => {
            match state::lookup_var(st, "this"@) {
                Some(v) => {
                    let (r, st) = lower::load(st, v);
                    Ok((r, st))
                },
                _ => {
                    Err(Failure { trouble: Trouble { message: "`super` outside class"@, span: e.span }, after: st })
                },
            }
        },
        ExprKind::Paren(x) => {
            (nest.expr)(st, &*x)
        },
        ExprKind::Unary(op, x) => {
            unary(nest, st, op, &*x, e.span)
        },
        ExprKind::Postfix(op, x) => {
            postfix(nest, st, op, &*x)
        },
        ExprKind::Binary(op, a, b) => {
            binary(nest, st, op, &*a, &*b, e.span)
        },
        ExprKind::Conditional(c, a, b) => {
            conditional(nest, st, &*c, &*a, &*b, e.span)
        },
        ExprKind::Range(a, b, inclusive) => {
            range(nest, st, &a, &b, inclusive)
        },
        ExprKind::Assign(a, b) => {
            assign(nest, st, &*a, &*b)
        },
        ExprKind::CompoundAssign(op, a, b) => {
            compound(nest, st, op, &*a, &*b, e.span)
        },
        _ => {
            expr_more(nest, st, e)
        },
    }
}

/// The value of an expression that calls, takes apart or builds something.
#[verifier::opaque]
pub open spec fn expr_more<'a>(nest: Nest<'a>, st: State<'a>, e: &'a Expr) -> Result<(Operand, State<'a>), Failure<'a>>
{
    match e.kind {
        ExprKind::NullableMember(o, f) => {
            nullable(nest, st, &*o, f@)
        },
        ExprKind::Call { callee, type_args: _, args } => {
            calls::call_expr(nest, st, callee@, &args, e.span)
        },
        ExprKind::MethodCall { object, method, args } => {
            calls::method_call(nest, st, &*object, method@, &args, e.span)
        },
        ExprKind::Member(o, f) => {
            member(nest, st, &*o, f@, e.span)
        },
        ExprKind::Index(o, i) => {
            index(nest, st, &*o, &*i, e.span)
        },
        ExprKind::Slice { object, start, end, inclusive: _ } => {
            slice(nest, st, &*object, &start, &end)
        },
        ExprKind::StructLit { ty, fields } => {
            struct_lit(nest, st, &ty, &fields, e.span)
        },
        ExprKind::EnumVariant { enum_name, variant, args } => {
            enum_variant(nest, st, &enum_name, variant@, &args, e.span)
        },
        ExprKind::Match(m) => {
            patterns::match_expr(nest, st, &*m)
        },
        ExprKind::Interpolated(ps) => {
            interpolated(nest, st, &ps)
        },
        ExprKind::Closure { params, body } => {
            closure(nest, st, &params, &*body)
        },
        ExprKind::Tuple(es) => {
            match tuple_values(nest, st, &es, 0) {
                Ok((t, st)) => {
                    let (r, st) = state::emit(st, Op::Pack(es.len()), t);
                    Ok((r, st))
                },
                Err(e) => Err(e),
            }
        },
        ExprKind::ArrayLit(es) => {
            array_lit(nest, st, &es)
        },
        ExprKind::VecEmpty => {
            let (t, st) = lower::vec_of(st, I64);
            Ok((Operand { val: Val::Zero, ty: t }, st))
        },
        ExprKind::MapLit { ty: _, entries } => {
            map_lit(nest, st, &entries)
        },
        _ => {
            Err(Failure { trouble: Trouble { message: "this expression cannot be lowered"@, span: e.span }, after: st })
        },
    }
}

impl<'a> Codegen<'a> {
    /// A value that has to be an integer.
    pub fn need_int(&mut self, v: Operand, span: Span) -> (out: Result<Operand, CodegenError>)
        ensures
            match out {
                Ok(made) => need_int(old(self)@, v, span) == Ok::<(Operand, State<'a>), Failure<'a>>((made, final(self)@)),
                Err(trouble) => need_int(old(self)@, v, span) == Err::<(Operand, State<'a>), Failure<'a>>(Failure { trouble: trouble@, after: final(self)@ }),
            },
    {
        reveal(need_int);
        if self.is_int(v.ty) {
            return Ok(v);
        }
        Err(fault("an integer is needed here", span))
    }

    /// The value of a variable.
    pub fn variable(&mut self, n: &str, span: Span) -> (out: Result<Operand, CodegenError>)
        ensures
            match out {
                Ok(made) => variable(old(self)@, n@, span) == Ok::<(Operand, State<'a>), Failure<'a>>((made, final(self)@)),
                Err(trouble) => variable(old(self)@, n@, span) == Err::<(Operand, State<'a>), Failure<'a>>(Failure { trouble: trouble@, after: final(self)@ }),
            },
    {
        reveal(variable);
        match self.lookup_var(n) {
            Some(v) => {
                let r = self.load(v);
                return Ok(r);
            },
            _ => {},
        }
        Err(fault_naming("undefined var ", n, "", span))
    }

    /// Adds one to a variable or takes one from it; its value before and after.
    pub fn step_by(&mut self, depth: usize, inner: &'a Expr, op: Arith) -> (out: Result<(Operand, Operand), CodegenError>)
        ensures
            match out {
                Ok(made) => step_by(nest::nest(depth as nat), old(self)@, inner, op) == Ok::<((Operand, Operand), State<'a>), Failure<'a>>((made, final(self)@)),
                Err(trouble) => step_by(nest::nest(depth as nat), old(self)@, inner, op) == Err::<((Operand, Operand), State<'a>), Failure<'a>>(Failure { trouble: trouble@, after: final(self)@ }),
            },
        decreases depth, 2int, 0int,
    {
        reveal(step_by);
        let p = match self.nested_place(depth, inner) {
            Ok(v) => v,
            Err(e) => {
                return Err(e);
            },
        };
        let a = self.load(Operand { val: p.val, ty: I64 });
        let b = self.arith(op, a, Operand { val: Val::Int(1), ty: I64 });
        self.store(p.val, b);
        Ok((a, b))
    }

    /// A prefix operator.
    pub fn unary(&mut self, depth: usize, op: UnaryOp, inner: &'a Expr, span: Span) -> (out: Result<Operand, CodegenError>)
        ensures
            match out {
                Ok(made) => unary(nest::nest(depth as nat), old(self)@, op, inner, span) == Ok::<(Operand, State<'a>), Failure<'a>>((made, final(self)@)),
                Err(trouble) => unary(nest::nest(depth as nat), old(self)@, op, inner, span) == Err::<(Operand, State<'a>), Failure<'a>>(Failure { trouble: trouble@, after: final(self)@ }),
            },
        decreases depth, 3int, 0int,
    {
        reveal(unary);
        let v = match self.nested_expr(depth, inner) {
            Ok(v) => v,
            Err(e) => {
                return Err(e);
            },
        };
        match op {
            UnaryOp::Not => {
                let i = match self.need_int(v, span) {
                    Ok(v) => v,
                    Err(e) => {
                        return Err(e);
                    },
                };
                let r = self.arith(Arith::Xor, i, Operand { val: Val::Int(1), ty: I1 });
                return Ok(r);
            },
            UnaryOp::Neg => {
                let i = match self.need_int(v, span) {
                    Ok(v) => v,
                    Err(e) => {
                        return Err(e);
                    },
                };
                let r = self.arith(Arith::Sub, Operand { val: Val::Int(0), ty: I64 }, i);
                return Ok(r);
            },
            UnaryOp::Pos => {
                return Ok(v);
            },
            UnaryOp::BitNot => {
                let i = match self.need_int(v, span) {
                    Ok(v) => v,
                    Err(e) => {
                        return Err(e);
                    },
                };
                let r = self.arith(Arith::Xor, i, Operand { val: Val::Int(-1i64), ty: i.ty });
                return Ok(r);
            },
            UnaryOp::Inc => {
                let p = match self.step_by(depth, inner, Arith::Add) {
                    Ok(v) => v,
                    Err(e) => {
                        return Err(e);
                    },
                };
                return Ok(p.1);
            },
            UnaryOp::Dec => {
                let p = match self.step_by(depth, inner, Arith::Sub) {
                    Ok(v) => v,
                    Err(e) => {
                        return Err(e);
                    },
                };
                return Ok(p.1);
            },
        }
    }

    /// A postfix operator.
    pub fn postfix(&mut self, depth: usize, op: UnaryOp, inner: &'a Expr) -> (out: Result<Operand, CodegenError>)
        ensures
            match out {
                Ok(made) => postfix(nest::nest(depth as nat), old(self)@, op, inner) == Ok::<(Operand, State<'a>), Failure<'a>>((made, final(self)@)),
                Err(trouble) => postfix(nest::nest(depth as nat), old(self)@, op, inner) == Err::<(Operand, State<'a>), Failure<'a>>(Failure { trouble: trouble@, after: final(self)@ }),
            },
        decreases depth, 3int, 0int,
    {
        reveal(postfix);
        match op {
            UnaryOp::Inc => {
                let p = match self.step_by(depth, inner, Arith::Add) {
                    Ok(v) => v,
                    Err(e) => {
                        return Err(e);
                    },
                };
                return Ok(p.0);
            },
            UnaryOp::Dec => {
                let p = match self.step_by(depth, inner, Arith::Sub) {
                    Ok(v) => v,
                    Err(e) => {
                        return Err(e);
                    },
                };
                return Ok(p.0);
            },
            _ => {},
        }
        let p = match self.nested_place(depth, inner) {
            Ok(v) => v,
            Err(e) => {
                return Err(e);
            },
        };
        let a = self.load(Operand { val: p.val, ty: I64 });
        self.store(p.val, a);
        Ok(a)
    }

    /// The operator of a class that stands for a binary operator.
    pub fn class_op(&self, op: BinOp, l: usize) -> (out: Option<usize>)
        ensures
            out == class_op(self@, op, l),
    {
        reveal(class_op);
        match op {
            BinOp::Add => {
                return self.member_entry("+", l, MemberKind::Operator);
            },
            BinOp::Sub => {
                return self.member_entry("-", l, MemberKind::Operator);
            },
            BinOp::Mul => {
                return self.member_entry("*", l, MemberKind::Operator);
            },
            BinOp::Div => {
                return self.member_entry("/", l, MemberKind::Operator);
            },
            BinOp::Mod => {
                return self.member_entry("%", l, MemberKind::Operator);
            },
            BinOp::Lt => {
                return self.member_entry("<", l, MemberKind::Operator);
            },
            BinOp::Le => {
                return self.member_entry("<=", l, MemberKind::Operator);
            },
            BinOp::Gt => {
                return self.member_entry(">", l, MemberKind::Operator);
            },
            BinOp::Ge => {
                return self.member_entry(">=", l, MemberKind::Operator);
            },
            BinOp::Is => {
                return self.member_entry("is", l, MemberKind::Operator);
            },
            BinOp::IsNot => {
                return self.member_entry("is not", l, MemberKind::Operator);
            },
            BinOp::And => {
                return self.member_entry("and", l, MemberKind::Operator);
            },
            BinOp::Or => {
                return self.member_entry("or", l, MemberKind::Operator);
            },
            BinOp::BitAnd => {
                return self.member_entry("&", l, MemberKind::Operator);
            },
            BinOp::BitOr => {
                return self.member_entry("|", l, MemberKind::Operator);
            },
            BinOp::BitXor => {
                return self.member_entry("^", l, MemberKind::Operator);
            },
            BinOp::Shl => {
                return self.member_entry("<<", l, MemberKind::Operator);
            },
            BinOp::Shr => {
                return self.member_entry(">>", l, MemberKind::Operator);
            },
            BinOp::NullCoalesce => {
                return self.member_entry("??", l, MemberKind::Operator);
            },
        }
    }

    /// The address of the left operand of an operator of a class.
    pub fn operand_ptr(&mut self, depth: usize, e: &'a Expr) -> (out: Result<Val, CodegenError>)
        ensures
            match out {
                Ok(made) => operand_ptr(nest::nest(depth as nat), old(self)@, e) == Ok::<(Val, State<'a>), Failure<'a>>((made, final(self)@)),
                Err(trouble) => operand_ptr(nest::nest(depth as nat), old(self)@, e) == Err::<(Val, State<'a>), Failure<'a>>(Failure { trouble: trouble@, after: final(self)@ }),
            },
        decreases depth, 2int, 0int,
    {
        reveal(operand_ptr);
        match &e.kind {
            ExprKind::Ident(_) => {
                let p = match self.nested_place(depth, e) {
                    Ok(v) => v,
                    Err(e) => {
                        return Err(e);
                    },
                };
                return Ok(p.val);
            },
            ExprKind::This => {
                let p = match self.nested_place(depth, e) {
                    Ok(v) => v,
                    Err(e) => {
                        return Err(e);
                    },
                };
                return Ok(p.val);
            },
            ExprKind::Member(_, _) => {
                let p = match self.nested_place(depth, e) {
                    Ok(v) => v,
                    Err(e) => {
                        return Err(e);
                    },
                };
                return Ok(p.val);
            },
            _ => {},
        }
        let v = match self.nested_expr(depth, e) {
            Ok(v) => v,
            Err(e) => {
                return Err(e);
            },
        };
        let t = self.emit(Op::Temp(v.ty), PTR);
        self.store(t.val, v);
        Ok(t.val)
    }

    /// A call of an operator of a class.
    pub fn operator_call(&mut self, depth: usize, k: usize, lhs: &'a Expr, rhs: &'a Expr) -> (out: Result<Operand, CodegenError>)
        ensures
            match out {
                Ok(made) => operator_call(nest::nest(depth as nat), old(self)@, k, lhs, rhs) == Ok::<(Operand, State<'a>), Failure<'a>>((made, final(self)@)),
                Err(trouble) => operator_call(nest::nest(depth as nat), old(self)@, k, lhs, rhs) == Err::<(Operand, State<'a>), Failure<'a>>(Failure { trouble: trouble@, after: final(self)@ }),
            },
        decreases depth, 3int, 0int,
    {
        reveal(operator_call);
        let info = self.member_info(k);
        let p = match self.operand_ptr(depth, lhs) {
            Ok(v) => v,
            Err(e) => {
                return Err(e);
            },
        };
        let v = match self.nested_expr(depth, rhs) {
            Ok(v) => v,
            Err(e) => {
                return Err(e);
            },
        };
        self.perform(Op::Push(Operand { val: p, ty: PTR }));
        self.perform(Op::Push(v));
        let r = self.call(info.func, 2);
        Ok(r)
    }

    /// The first of two values, or the second where the first is nothing.
    pub fn coalesce(&mut self, l: Operand, r: Operand) -> (out: Operand)
        ensures
            (out, final(self)@) == coalesce(old(self)@, l, r),
    {
        reveal(coalesce);
        if self.is_ptr(l.ty) {
            let c = self.emit(Op::IsNull(l), I1);
            let v = self.emit(Op::Select(c, r, l), r.ty);
            return v;
        }
        let c = self.compare(Pred::Same, l, Operand { val: Val::Int(0), ty: I64 });
        let v = self.emit(Op::Select(c, r, l), r.ty);
        v
    }

    /// The result of a binary operator on integers.
    pub fn binary_op(&mut self, op: BinOp, l: Operand, r: Operand) -> (out: Operand)
        ensures
            (out, final(self)@) == binary_op(old(self)@, op, l, r),
    {
        reveal(binary_op);
        match op {
            BinOp::Add => {
                let v = self.arith(Arith::Add, l, r);
                return v;
            },
            BinOp::Sub => {
                let v = self.arith(Arith::Sub, l, r);
                return v;
            },
            BinOp::Mul => {
                let v = self.arith(Arith::Mul, l, r);
                return v;
            },
            BinOp::Div => {
                let v = self.arith(Arith::Div, l, r);
                return v;
            },
            BinOp::Mod => {
                let v = self.arith(Arith::Rem, l, r);
                return v;
            },
            BinOp::Lt => {
                let v = self.compare(Pred::Less, l, r);
                return v;
            },
            BinOp::Le => {
                let v = self.compare(Pred::LessOrSame, l, r);
                return v;
            },
            BinOp::Gt => {
                let v = self.compare(Pred::Greater, l, r);
                return v;
            },
            BinOp::Ge => {
                let v = self.compare(Pred::GreaterOrSame, l, r);
                return v;
            },
            BinOp::Is => {
                let v = self.compare(Pred::Same, l, r);
                return v;
            },
            BinOp::IsNot => {
                let v = self.compare(Pred::Differ, l, r);
                return v;
            },
            BinOp::And => {
                let v = self.arith(Arith::And, l, r);
                return v;
            },
            BinOp::Or => {
                let v = self.arith(Arith::Or, l, r);
                return v;
            },
            BinOp::BitAnd => {
                let v = self.arith(Arith::And, l, r);
                return v;
            },
            BinOp::BitOr => {
                let v = self.arith(Arith::Or, l, r);
                return v;
            },
            BinOp::BitXor => {
                let v = self.arith(Arith::Xor, l, r);
                return v;
            },
            BinOp::Shl => {
                let v = self.arith(Arith::Shl, l, r);
                return v;
            },
            BinOp::Shr => {
                let v = self.arith(Arith::Shr, l, r);
                return v;
            },
            BinOp::NullCoalesce => {
                let v = self.coalesce(l, r);
                return v;
            },
        }
    }

    /// Whether an operator takes values of any type.
    pub fn is_coalesce(&self, op: BinOp) -> (out: bool)
        ensures
            out == is_coalesce(op),
    {
        reveal(is_coalesce);
        match op {
            BinOp::NullCoalesce => {
                return true;
            },
            _ => {},
        }
        false
    }

    /// A binary operator on integers.
    pub fn plain_binary(&mut self, depth: usize, op: BinOp, lhs: &'a Expr, rhs: &'a Expr, span: Span) -> (out: Result<Operand, CodegenError>)
        ensures
            match out {
                Ok(made) => plain_binary(nest::nest(depth as nat), old(self)@, op, lhs, rhs, span) == Ok::<(Operand, State<'a>), Failure<'a>>((made, final(self)@)),
                Err(trouble) => plain_binary(nest::nest(depth as nat), old(self)@, op, lhs, rhs, span) == Err::<(Operand, State<'a>), Failure<'a>>(Failure { trouble: trouble@, after: final(self)@ }),
            },
        decreases depth, 4int, 0int,
    {
        reveal(plain_binary);
        let a = match self.nested_expr(depth, lhs) {
            Ok(v) => v,
            Err(e) => {
                return Err(e);
            },
        };
        let b = match self.nested_expr(depth, rhs) {
            Ok(v) => v,
            Err(e) => {
                return Err(e);
            },
        };
        let p = self.unify(a, b);
        if self.is_coalesce(op) {
            let v = self.coalesce(p.0, p.1);
            return Ok(v);
        }
        let l = match self.need_int(p.0, span) {
            Ok(v) => v,
            Err(e) => {
                return Err(e);
            },
        };
        let r = match self.need_int(p.1, span) {
            Ok(v) => v,
            Err(e) => {
                return Err(e);
            },
        };
        let v = self.binary_op(op, l, r);
        Ok(v)
    }

    /// A binary operator, of a class or on integers.
    pub fn binary(&mut self, depth: usize, op: BinOp, lhs: &'a Expr, rhs: &'a Expr, span: Span) -> (out: Result<Operand, CodegenError>)
        ensures
            match out {
                Ok(made) => binary(nest::nest(depth as nat), old(self)@, op, lhs, rhs, span) == Ok::<(Operand, State<'a>), Failure<'a>>((made, final(self)@)),
                Err(trouble) => binary(nest::nest(depth as nat), old(self)@, op, lhs, rhs, span) == Err::<(Operand, State<'a>), Failure<'a>>(Failure { trouble: trouble@, after: final(self)@ }),
            },
        decreases depth, 5int, 0int,
    {
        reveal(binary);
        let g = match self.nested_infer(depth, lhs) {
            Ok(v) => Some(v),
            Err(_) => None,
        };
        match g {
            Some(Guess::Struct(l)) => {
                match self.class_op(op, l) {
                    Some(k) => {
                        let r = match self.operator_call(depth, k, lhs, rhs) {
                            Ok(v) => v,
                            Err(e) => {
                                return Err(e);
                            },
                        };
                        return Ok(r);
                    },
                    _ => {},
                }
                let r = match self.plain_binary(depth, op, lhs, rhs, span) {
                    Ok(v) => v,
                    Err(e) => {
                        return Err(e);
                    },
                };
                return Ok(r);
            },
            _ => {},
        }
        let r = match self.plain_binary(depth, op, lhs, rhs, span) {
            Ok(v) => v,
            Err(e) => {
                return Err(e);
            },
        };
        Ok(r)
    }

    /// A conditional expression.
    pub fn conditional(&mut self, depth: usize, c: &'a Expr, a: &'a Expr, b: &'a Expr, span: Span) -> (out: Result<Operand, CodegenError>)
        ensures
            match out {
                Ok(made) => conditional(nest::nest(depth as nat), old(self)@, c, a, b, span) == Ok::<(Operand, State<'a>), Failure<'a>>((made, final(self)@)),
                Err(trouble) => conditional(nest::nest(depth as nat), old(self)@, c, a, b, span) == Err::<(Operand, State<'a>), Failure<'a>>(Failure { trouble: trouble@, after: final(self)@ }),
            },
        decreases depth, 3int, 0int,
    {
        reveal(conditional);
        let v = match self.nested_expr(depth, c) {
            Ok(v) => v,
            Err(e) => {
                return Err(e);
            },
        };
        let i = match self.need_int(v, span) {
            Ok(v) => v,
            Err(e) => {
                return Err(e);
            },
        };
        let res = self.slot(I64);
        let then_bb = self.block(Label::CondThen);
        let else_bb = self.block(Label::CondElse);
        let merge = self.block(Label::CondMerge);
        self.finish(Op::Branch(i, then_bb, else_bb));
        self.at(then_bb);
        let x = match self.nested_expr(depth, a) {
            Ok(v) => v,
            Err(e) => {
                return Err(e);
            },
        };
        self.store(res.val, x);
        self.finish(Op::Jump(merge));
        self.at(else_bb);
        let y = match self.nested_expr(depth, b) {
            Ok(v) => v,
            Err(e) => {
                return Err(e);
            },
        };
        self.store(res.val, y);
        self.finish(Op::Jump(merge));
        self.at(merge);
        let r = self.load(res);
        Ok(r)
    }

    /// A bound of a range, zero where there is none.
    pub fn bound(&mut self, depth: usize, e: &'a Option<Box<Expr>>) -> (out: Result<Operand, CodegenError>)
        ensures
            match out {
                Ok(made) => bound(nest::nest(depth as nat), old(self)@, e) == Ok::<(Operand, State<'a>), Failure<'a>>((made, final(self)@)),
                Err(trouble) => bound(nest::nest(depth as nat), old(self)@, e) == Err::<(Operand, State<'a>), Failure<'a>>(Failure { trouble: trouble@, after: final(self)@ }),
            },
        decreases depth, 1int, 0int,
    {
        reveal(bound);
        match e {
            Some(x) => {
                let r = match self.nested_expr(depth, x) {
                    Ok(v) => v,
                    Err(e) => {
                        return Err(e);
                    },
                };
                return Ok(r);
            },
            None => {
                return Ok(Operand { val: Val::Int(0), ty: I64 });
            },
        }
    }

    /// A range: its bounds, and whether the end belongs to it.
    pub fn range(&mut self, depth: usize, a: &'a Option<Box<Expr>>, b: &'a Option<Box<Expr>>, inclusive: bool) -> (out: Result<Operand, CodegenError>)
        ensures
            match out {
                Ok(made) => range(nest::nest(depth as nat), old(self)@, a, b, inclusive) == Ok::<(Operand, State<'a>), Failure<'a>>((made, final(self)@)),
                Err(trouble) => range(nest::nest(depth as nat), old(self)@, a, b, inclusive) == Err::<(Operand, State<'a>), Failure<'a>>(Failure { trouble: trouble@, after: final(self)@ }),
            },
        decreases depth, 2int, 0int,
    {
        reveal(range);
        let x = match self.bound(depth, a) {
            Ok(v) => v,
            Err(e) => {
                return Err(e);
            },
        };
        let y = match self.bound(depth, b) {
            Ok(v) => v,
            Err(e) => {
                return Err(e);
            },
        };
        let t1 = self.pair_of(I64, I1);
        let t = self.intern(TyDef::Cons(I64, t1));
        let s0 = self.insert(Operand { val: Val::Undef, ty: t }, x, 0);
        let s1 = self.insert(s0, y, 1);
        if inclusive {
            let s2 = self.insert(s1, Operand { val: Val::Int(1), ty: I1 }, 2);
            return Ok(s2);
        }
        let s2 = self.insert(s1, Operand { val: Val::Int(0), ty: I1 }, 2);
        Ok(s2)
    }

    /// The operation of a compound assignment.
    pub fn arith_of(&self, op: BinOp) -> (out: Option<Arith>)
        ensures
            out == arith_of(op),
    {
        reveal(arith_of);
        match op {
            BinOp::Add => {
                return Some(Arith::Add);
            },
            BinOp::Sub => {
                return Some(Arith::Sub);
            },
            BinOp::Mul => {
                return Some(Arith::Mul);
            },
            BinOp::Div => {
                return Some(Arith::Div);
            },
            BinOp::Mod => {
                return Some(Arith::Rem);
            },
            BinOp::BitAnd => {
                return Some(Arith::And);
            },
            BinOp::BitOr => {
                return Some(Arith::Or);
            },
            BinOp::BitXor => {
                return Some(Arith::Xor);
            },
            BinOp::Shl => {
                return Some(Arith::Shl);
            },
            BinOp::Shr => {
                return Some(Arith::Shr);
            },
            _ => {},
        }
        None
    }

    /// A compound assignment.
    pub fn compound(&mut self, depth: usize, op: BinOp, lhs: &'a Expr, value: &'a Expr, span: Span) -> (out: Result<Operand, CodegenError>)
        ensures
            match out {
                Ok(made) => compound(nest::nest(depth as nat), old(self)@, op, lhs, value, span) == Ok::<(Operand, State<'a>), Failure<'a>>((made, final(self)@)),
                Err(trouble) => compound(nest::nest(depth as nat), old(self)@, op, lhs, value, span) == Err::<(Operand, State<'a>), Failure<'a>>(Failure { trouble: trouble@, after: final(self)@ }),
            },
        decreases depth, 3int, 0int,
    {
        reveal(compound);
        let v = match self.nested_expr(depth, value) {
            Ok(v) => v,
            Err(e) => {
                return Err(e);
            },
        };
        let p = match self.nested_place(depth, lhs) {
            Ok(v) => v,
            Err(e) => {
                return Err(e);
            },
        };
        let a = self.load(Operand { val: p.val, ty: I64 });
        let b = match self.need_int(v, span) {
            Ok(v) => v,
            Err(e) => {
                return Err(e);
            },
        };
        match self.arith_of(op) {
            Some(k) => {
                let r = self.arith(k, a, b);
                self.store(p.val, r);
                return Ok(r);
            },
            _ => {},
        }
        self.store(p.val, a);
        Ok(a)
    }

    /// A field of an object that may be missing; zero where it is.
    pub fn nullable(&mut self, depth: usize, o: &'a Expr, f: &str) -> (out: Result<Operand, CodegenError>)
        ensures
            match out {
                Ok(made) => nullable(nest::nest(depth as nat), old(self)@, o, f@) == Ok::<(Operand, State<'a>), Failure<'a>>((made, final(self)@)),
                Err(trouble) => nullable(nest::nest(depth as nat), old(self)@, o, f@) == Err::<(Operand, State<'a>), Failure<'a>>(Failure { trouble: trouble@, after: final(self)@ }),
            },
        decreases depth, 5int, 0int,
    {
        reveal(nullable);
        let v = match self.nested_expr(depth, o) {
            Ok(v) => v,
            Err(e) => {
                return Err(e);
            },
        };
        if self.is_ptr(v.ty) {
            let c = self.emit(Op::IsNull(v), I1);
            let then_bb = self.block(Label::NullableThen);
            let else_bb = self.block(Label::NullableElse);
            let merge = self.block(Label::NullableMerge);
            self.finish(Op::Branch(c, else_bb, then_bb));
            self.at(then_bb);
            let p = match self.field_ptr(depth, o, f) {
                Ok(v) => v,
                Err(e) => {
                    return Err(e);
                },
            };
            let x = self.load(Operand { val: p.val, ty: I64 });
            self.finish(Op::Jump(merge));
            self.at(else_bb);
            self.finish(Op::Jump(merge));
            self.at(merge);
            let r = self.emit(Op::Merge(x, then_bb, Operand { val: Val::Int(0), ty: I64 }, else_bb), I64);
            return Ok(r);
        }
        let p = match self.field_ptr(depth, o, f) {
            Ok(v) => v,
            Err(e) => {
                return Err(e);
            },
        };
        let r = self.load(Operand { val: p.val, ty: I64 });
        Ok(r)
    }

    /// An assignment to a field, or to a property through its setter.
    pub fn assign_member(&mut self, depth: usize, o: &'a Expr, f: &str, v: Operand) -> (out: Result<Operand, CodegenError>)
        ensures
            match out {
                Ok(made) => assign_member(nest::nest(depth as nat), old(self)@, o, f@, v) == Ok::<(Operand, State<'a>), Failure<'a>>((made, final(self)@)),
                Err(trouble) => assign_member(nest::nest(depth as nat), old(self)@, o, f@, v) == Err::<(Operand, State<'a>), Failure<'a>>(Failure { trouble: trouble@, after: final(self)@ }),
            },
        decreases depth, 5int, 0int,
    {
        reveal(assign_member);
        let g = match self.nested_infer(depth, o) {
            Ok(v) => Some(v),
            Err(_) => None,
        };
        match g {
            Some(Guess::Struct(l)) => {
                match self.member_entry(f, l, MemberKind::Setter) {
                    Some(k) => {
                        let info = self.member_info(k);
                        let p = match self.nested_place(depth, o) {
                            Ok(v) => v,
                            Err(e) => {
                                return Err(e);
                            },
                        };
                        self.perform(Op::Push(Operand { val: p.val, ty: PTR }));
                        self.perform(Op::Push(v));
                        let r = self.call(info.func, 2);
                        return Ok(v);
                    },
                    _ => {},
                }
                let p = match self.field_ptr(depth, o, f) {
                    Ok(v) => v,
                    Err(e) => {
                        return Err(e);
                    },
                };
                self.store(p.val, v);
                return Ok(v);
            },
            _ => {},
        }
        let p = match self.field_ptr(depth, o, f) {
            Ok(v) => v,
            Err(e) => {
                return Err(e);
            },
        };
        self.store(p.val, v);
        Ok(v)
    }

    /// An assignment to an element of an array or vector, or behind an address.
    pub fn assign_element(&mut self, depth: usize, n: &str, i: &'a Expr, v: Operand, span: Span) -> (out: Result<Operand, CodegenError>)
        ensures
            match out {
                Ok(made) => assign_element(nest::nest(depth as nat), old(self)@, n@, i, v, span) == Ok::<(Operand, State<'a>), Failure<'a>>((made, final(self)@)),
                Err(trouble) => assign_element(nest::nest(depth as nat), old(self)@, n@, i, v, span) == Err::<(Operand, State<'a>), Failure<'a>>(Failure { trouble: trouble@, after: final(self)@ }),
            },
        decreases depth, 3int, 0int,
    {
        reveal(assign_element);
        let x = match self.nested_expr(depth, i) {
            Ok(v) => v,
            Err(e) => {
                return Err(e);
            },
        };
        let k = match self.need_int(x, span) {
            Ok(v) => v,
            Err(e) => {
                return Err(e);
            },
        };
        match self.lookup_var(n) {
            Some(p) => {
                if self.is_array(p.ty) {
                    let e = self.elem_at(p.ty, p.val, k);
                    self.store(e, v);
                    return Ok(v);
                }
                if self.is_vec(n) && self.is_struct(p.ty) {
                    let buf: usize = self.struct_elem(p.ty, 0);
                    let b = self.field_at(p.ty, p.val, 0);
                    let t: usize = self.array_elem(buf);
                    let c = self.coerce(v, t);
                    let e = self.elem_at(buf, b, k);
                    self.store(e, c);
                    return Ok(c);
                }
                if self.is_ptr(p.ty) {
                    let a = self.load(p);
                    let e = self.emit(Op::Offset(I64, a.val, k), PTR);
                    self.store(e.val, v);
                    return Ok(v);
                }
                return Err(fault("unsupported indexing assignment base; only direct array variable indexing supported", span));
            },
            _ => {},
        }
        Err(fault("unsupported indexing assignment base; only direct array variable indexing supported", span))
    }

    /// An assignment to an entry of a map or to an element.
    pub fn assign_index(&mut self, depth: usize, o: &'a Expr, i: &'a Expr, value: &'a Expr, v: Operand, span: Span) -> (out: Result<Operand, CodegenError>)
        ensures
            match out {
                Ok(made) => assign_index(nest::nest(depth as nat), old(self)@, o, i, value, v, span) == Ok::<(Operand, State<'a>), Failure<'a>>((made, final(self)@)),
                Err(trouble) => assign_index(nest::nest(depth as nat), old(self)@, o, i, value, v, span) == Err::<(Operand, State<'a>), Failure<'a>>(Failure { trouble: trouble@, after: final(self)@ }),
            },
        decreases depth, 6int, 0int,
    {
        reveal(assign_index);
        match &o.kind {
            ExprKind::Ident(n) => {
                if self.is_map(n.as_str()) {
                    match self.lookup_var(n.as_str()) {
                        Some(p) => {
                            if self.is_struct(p.ty) {
                                let key = match self.nested_expr(depth, i) {
                                    Ok(v) => v,
                                    Err(e) => {
                                        return Err(e);
                                    },
                                };
                                let x = match self.nested_expr(depth, value) {
                                    Ok(v) => v,
                                    Err(e) => {
                                        return Err(e);
                                    },
                                };
                                self.map_put(p, key, x);
                                return Ok(x);
                            }
                            return Err(fault_naming("`", n.as_str(), "` is not a writable map", o.span));
                        },
                        _ => {},
                    }
                    return Err(fault_naming("`", n.as_str(), "` is not a writable map", o.span));
                }
                let r = match self.assign_element(depth, n.as_str(), i, v, span) {
                    Ok(v) => v,
                    Err(e) => {
                        return Err(e);
                    },
                };
                return Ok(r);
            },
            _ => {},
        }
        Err(fault("unsupported indexing assignment base; only direct array variable indexing supported", span))
    }

    /// An assignment.
    pub fn assign(&mut self, depth: usize, lhs: &'a Expr, value: &'a Expr) -> (out: Result<Operand, CodegenError>)
        ensures
            match out {
                Ok(made) => assign(nest::nest(depth as nat), old(self)@, lhs, value) == Ok::<(Operand, State<'a>), Failure<'a>>((made, final(self)@)),
                Err(trouble) => assign(nest::nest(depth as nat), old(self)@, lhs, value) == Err::<(Operand, State<'a>), Failure<'a>>(Failure { trouble: trouble@, after: final(self)@ }),
            },
        decreases depth, 7int, 0int,
    {
        reveal(assign);
        let v = match self.nested_expr(depth, value) {
            Ok(v) => v,
            Err(e) => {
                return Err(e);
            },
        };
        match &lhs.kind {
            ExprKind::Ident(n) => {
                match self.lookup_var(n.as_str()) {
                    Some(p) => {
                        let c = self.coerce(v, p.ty);
                        self.store(p.val, c);
                        return Ok(c);
                    },
                    _ => {},
                }
                return Err(fault_naming("undefined var ", n.as_str(), "", lhs.span));
            },
            ExprKind::Member(o, f) => {
                let r = match self.assign_member(depth, o, f.as_str(), v) {
                    Ok(v) => v,
                    Err(e) => {
                        return Err(e);
                    },
                };
                return Ok(r);
            },
            ExprKind::Index(o, i) => {
                let r = match self.assign_index(depth, o, i, value, v, lhs.span) {
                    Ok(v) => v,
                    Err(e) => {
                        return Err(e);
                    },
                };
                return Ok(r);
            },
            _ => {},
        }
        Err(fault("invalid assignment target", lhs.span))
    }

    /// Whether two keys are equal; strings are compared by their characters.
    pub fn key_eq(&mut self, a: Operand, b: Operand) -> (out: Operand)
        ensures
            (out, final(self)@) == key_eq(old(self)@, a, b),
    {
        reveal(key_eq);
        if self.is_int(a.ty) && a.ty == b.ty {
            let r = self.compare(Pred::Same, a, b);
            return r;
        }
        if self.is_ptr(a.ty) && self.is_ptr(b.ty) {
            let c = self.runtime2(Runtime::Strcmp, a, b, I32);
            let r = self.compare(Pred::Same, c, Operand { val: Val::Int(0), ty: I32 });
            return r;
        }
        Operand { val: Val::Int(0), ty: I1 }
    }

    /// Looks a key up in a map: the address of its index, which is negative where it is not there.
    pub fn map_find(&mut self, p: Operand, key: Operand) -> (out: Operand)
        ensures
            (out, final(self)@) == map_find(old(self)@, p, key),
    {
        reveal(map_find);
        let keys: usize = self.struct_elem(p.ty, 0);
        let t: usize = self.array_elem(keys);
        let k = self.coerce(key, t);
        let lp = self.field_at(p.ty, p.val, 2);
        let n = self.load(Operand { val: lp, ty: I64 });
        let res = self.slot(I64);
        self.store(res.val, Operand { val: Val::Int(-1i64), ty: I64 });
        let ip = self.slot(I64);
        self.store(ip.val, Operand { val: Val::Int(0), ty: I64 });
        let loop_bb = self.block(Label::SearchLoop);
        let body = self.block(Label::SearchBody);
        let hit = self.block(Label::SearchHit);
        let next = self.block(Label::SearchNext);
        let exit = self.block(Label::SearchExit);
        self.finish(Op::Jump(loop_bb));
        self.at(loop_bb);
        let i = self.load(ip);
        let c = self.compare(Pred::Below, i, n);
        self.finish(Op::Branch(c, body, exit));
        self.at(body);
        let kb = self.field_at(p.ty, p.val, 0);
        let kp = self.elem_at(keys, kb, i);
        let x = self.load(Operand { val: kp, ty: t });
        let q = self.key_eq(x, k);
        self.finish(Op::Branch(q, hit, next));
        self.at(hit);
        self.store(res.val, i);
        self.finish(Op::Jump(exit));
        self.at(next);
        let j = self.arith(Arith::Add, i, Operand { val: Val::Int(1), ty: I64 });
        self.store(ip.val, j);
        self.finish(Op::Jump(loop_bb));
        self.at(exit);
        res
    }

    /// Adds an entry to a map; ends the program where it is full.
    pub fn map_append(&mut self, p: Operand, key: Operand, v: Operand)
        ensures
            final(self)@ == map_append(old(self)@, p, key, v),
    {
        reveal(map_append);
        let keys: usize = self.struct_elem(p.ty, 0);
        let vals: usize = self.struct_elem(p.ty, 1);
        let lp = self.field_at(p.ty, p.val, 2);
        let n = self.load(Operand { val: lp, ty: I64 });
        let c = self.compare(Pred::Below, n, Operand { val: Val::Int(16), ty: I64 });
        let ok = self.block(Label::MapOk);
        let fail = self.block(Label::MapFail);
        self.finish(Op::Branch(c, ok, fail));
        self.at(fail);
        self.stop();
        self.at(ok);
        let kb = self.field_at(p.ty, p.val, 0);
        let kt: usize = self.array_elem(keys);
        let k = self.coerce(key, kt);
        let kp = self.elem_at(keys, kb, n);
        self.store(kp, k);
        let vt: usize = self.array_elem(vals);
        let w = self.coerce(v, vt);
        let vb = self.field_at(p.ty, p.val, 1);
        let vp = self.elem_at(vals, vb, n);
        self.store(vp, w);
        let m = self.arith(Arith::Add, n, Operand { val: Val::Int(1), ty: I64 });
        self.store(lp, m);
    }

    /// Sets an entry of a map.
    pub fn map_put(&mut self, p: Operand, key: Operand, v: Operand)
        ensures
            final(self)@ == map_put(old(self)@, p, key, v),
    {
        reveal(map_put);
        let vals: usize = self.struct_elem(p.ty, 1);
        let res = self.map_find(p, key);
        let hit = self.block(Label::MapHit);
        let miss = self.block(Label::MapMiss);
        let merge = self.block(Label::MapMerge);
        let i = self.load(res);
        let c = self.compare(Pred::GreaterOrSame, i, Operand { val: Val::Int(0), ty: I64 });
        self.finish(Op::Branch(c, hit, miss));
        self.at(hit);
        let vt: usize = self.array_elem(vals);
        let w = self.coerce(v, vt);
        let vb = self.field_at(p.ty, p.val, 1);
        let vp = self.elem_at(vals, vb, i);
        self.store(vp, w);
        self.finish(Op::Jump(merge));
        self.at(miss);
        self.map_append(p, key, v);
        self.finish(Op::Jump(merge));
        self.at(merge);
    }

    /// An entry of a map, `other` where there is none.
    pub fn map_get(&mut self, p: Operand, key: Operand, other: Operand) -> (out: Operand)
        ensures
            (out, final(self)@) == map_get(old(self)@, p, key, other),
    {
        reveal(map_get);
        let vals: usize = self.struct_elem(p.ty, 1);
        let vt: usize = self.array_elem(vals);
        let found = self.map_find(p, key);
        let hit = self.block(Label::MapHit);
        let miss = self.block(Label::MapMiss);
        let merge = self.block(Label::MapMerge);
        let res = self.slot(vt);
        let d = self.coerce(other, vt);
        self.store(res.val, d);
        let i = self.load(found);
        let c = self.compare(Pred::GreaterOrSame, i, Operand { val: Val::Int(0), ty: I64 });
        self.finish(Op::Branch(c, hit, miss));
        self.at(hit);
        let vb = self.field_at(p.ty, p.val, 1);
        let vp = self.elem_at(vals, vb, i);
        let x = self.load(Operand { val: vp, ty: vt });
        self.store(res.val, x);
        self.finish(Op::Jump(merge));
        self.at(miss);
        self.finish(Op::Jump(merge));
        self.at(merge);
        let r = self.load(res);
        r
    }

    /// An element of an array or vector, or what is behind an address.
    pub fn element(&mut self, depth: usize, n: &str, i: &'a Expr, span: Span) -> (out: Result<Operand, CodegenError>)
        ensures
            match out {
                Ok(made) => element(nest::nest(depth as nat), old(self)@, n@, i, span) == Ok::<(Operand, State<'a>), Failure<'a>>((made, final(self)@)),
                Err(trouble) => element(nest::nest(depth as nat), old(self)@, n@, i, span) == Err::<(Operand, State<'a>), Failure<'a>>(Failure { trouble: trouble@, after: final(self)@ }),
            },
        decreases depth, 3int, 0int,
    {
        reveal(element);
        let x = match self.nested_expr(depth, i) {
            Ok(v) => v,
            Err(e) => {
                return Err(e);
            },
        };
        let k = match self.need_int(x, span) {
            Ok(v) => v,
            Err(e) => {
                return Err(e);
            },
        };
        match self.lookup_var(n) {
            Some(p) => {
                if self.is_array(p.ty) {
                    let t: usize = self.array_elem(p.ty);
                    let e = self.elem_at(p.ty, p.val, k);
                    let r = self.load(Operand { val: e, ty: t });
                    return Ok(r);
                }
                if self.is_vec(n) && self.is_struct(p.ty) {
                    let buf: usize = self.struct_elem(p.ty, 0);
                    let t: usize = self.array_elem(buf);
                    let b = self.field_at(p.ty, p.val, 0);
                    let e = self.elem_at(buf, b, k);
                    let r = self.load(Operand { val: e, ty: t });
                    return Ok(r);
                }
                if self.is_ptr(p.ty) {
                    let a = self.load(p);
                    let e = self.emit(Op::Offset(I64, a.val, k), PTR);
                    let r = self.load(Operand { val: e.val, ty: I64 });
                    return Ok(r);
                }
                return Err(fault("unsupported indexing base; only direct array variable indexing supported in Phase 2", span));
            },
            _ => {},
        }
        Err(fault("unsupported indexing base; only direct array variable indexing supported in Phase 2", span))
    }

    /// An entry of a map, or an element.
    pub fn index(&mut self, depth: usize, o: &'a Expr, i: &'a Expr, span: Span) -> (out: Result<Operand, CodegenError>)
        ensures
            match out {
                Ok(made) => index(nest::nest(depth as nat), old(self)@, o, i, span) == Ok::<(Operand, State<'a>), Failure<'a>>((made, final(self)@)),
                Err(trouble) => index(nest::nest(depth as nat), old(self)@, o, i, span) == Err::<(Operand, State<'a>), Failure<'a>>(Failure { trouble: trouble@, after: final(self)@ }),
            },
        decreases depth, 6int, 0int,
    {
        reveal(index);
        match &o.kind {
            ExprKind::Ident(n) => {
                if self.is_map(n.as_str()) {
                    match self.lookup_var(n.as_str()) {
                        Some(p) => {
                            if self.is_struct(p.ty) {
                                let key = match self.nested_expr(depth, i) {
                                    Ok(v) => v,
                                    Err(e) => {
                                        return Err(e);
                                    },
                                };
                                let vals: usize = self.struct_elem(p.ty, 1);
                                let vt: usize = self.array_elem(vals);
                                let r = self.map_get(p, key, Operand { val: Val::Zero, ty: vt });
                                return Ok(r);
                            }
                            return Err(fault_naming("`", n.as_str(), "` is not a readable map", o.span));
                        },
                        _ => {},
                    }
                    return Err(fault_naming("`", n.as_str(), "` is not a readable map", o.span));
                }
                let r = match self.element(depth, n.as_str(), i, span) {
                    Ok(v) => v,
                    Err(e) => {
                        return Err(e);
                    },
                };
                return Ok(r);
            },
            _ => {},
        }
        Err(fault("unsupported indexing base; only direct array variable indexing supported in Phase 2", span))
    }

    /// A slice: its bounds are computed, and the whole is taken.
    pub fn slice(&mut self, depth: usize, o: &'a Expr, a: &'a Option<Box<Expr>>, b: &'a Option<Box<Expr>>) -> (out: Result<Operand, CodegenError>)
        ensures
            match out {
                Ok(made) => slice(nest::nest(depth as nat), old(self)@, o, a, b) == Ok::<(Operand, State<'a>), Failure<'a>>((made, final(self)@)),
                Err(trouble) => slice(nest::nest(depth as nat), old(self)@, o, a, b) == Err::<(Operand, State<'a>), Failure<'a>>(Failure { trouble: trouble@, after: final(self)@ }),
            },
        decreases depth, 2int, 0int,
    {
        reveal(slice);
        let x = match self.bound(depth, a) {
            Ok(v) => v,
            Err(e) => {
                return Err(e);
            },
        };
        let y = match self.bound(depth, b) {
            Ok(v) => v,
            Err(e) => {
                return Err(e);
            },
        };
        let r = match self.nested_expr(depth, o) {
            Ok(v) => v,
            Err(e) => {
                return Err(e);
            },
        };
        Ok(r)
    }

    /// A variant of an enum, a property through its getter, or a field.
    pub fn member(&mut self, depth: usize, o: &'a Expr, f: &str, span: Span) -> (out: Result<Operand, CodegenError>)
        ensures
            match out {
                Ok(made) => member(nest::nest(depth as nat), old(self)@, o, f@, span) == Ok::<(Operand, State<'a>), Failure<'a>>((made, final(self)@)),
                Err(trouble) => member(nest::nest(depth as nat), old(self)@, o, f@, span) == Err::<(Operand, State<'a>), Failure<'a>>(Failure { trouble: trouble@, after: final(self)@ }),
            },
        decreases depth, 5int, 0int,
    {
        reveal(member);
        let g = match self.nested_infer(depth, o) {
            Ok(v) => v,
            Err(e) => {
                return Err(e);
            },
        };
        match g {
            Guess::Enum(l) => {
                match self.tag_entry(f, l) {
                    Some(k) => {
                        let info = self.tag_info(k);
                        let t = self.class_ty(l);
                        let r = self.insert(Operand { val: Val::Undef, ty: t }, Operand { val: Val::Int(info.tag as i64), ty: I32 }, 0);
                        return Ok(r);
                    },
                    _ => {},
                }
                let p = match self.field_ptr(depth, o, f) {
                    Ok(v) => v,
                    Err(e) => {
                        return Err(e);
                    },
                };
                return Err(fault("field access on non-struct", span));
            },
            Guess::Struct(l) => {
                match self.member_entry(f, l, MemberKind::Getter) {
                    Some(k) => {
                        let info = self.member_info(k);
                        let p = match self.nested_place(depth, o) {
                            Ok(v) => v,
                            Err(e) => {
                                return Err(e);
                            },
                        };
                        self.perform(Op::Push(Operand { val: p.val, ty: PTR }));
                        let r = self.call(info.func, 1);
                        return Ok(r);
                    },
                    _ => {},
                }
                let p = match self.field_ptr(depth, o, f) {
                    Ok(v) => v,
                    Err(e) => {
                        return Err(e);
                    },
                };
                let r = self.load(p);
                return Ok(r);
            },
            _ => {},
        }
        let p = match self.field_ptr(depth, o, f) {
            Ok(v) => v,
            Err(e) => {
                return Err(e);
            },
        };
        Err(fault("field access on non-struct", span))
    }

    /// Stores the fields of a struct literal.
    pub fn lit_fields(&mut self, depth: usize, fs: &'a Vec<FieldInit>, i: usize, l: usize, t: usize, p: Val, span: Span) -> (out: Result<(), CodegenError>)
        ensures
            match out {
                Ok(made) => lit_fields(nest::nest(depth as nat), old(self)@, fs, i, l, t, p, span) == Ok::<((), State<'a>), Failure<'a>>((made, final(self)@)),
                Err(trouble) => lit_fields(nest::nest(depth as nat), old(self)@, fs, i, l, t, p, span) == Err::<((), State<'a>), Failure<'a>>(Failure { trouble: trouble@, after: final(self)@ }),
            },
        decreases depth, 2int, fs.len() - i,
    {
        reveal(lit_fields);
        if i >= fs.len() {
            return Ok(());
        }
        match self.field_entry(fs[i].name.as_str(), l) {
            Some(k) => {
                let info = self.field_info(k);
                let v = match self.nested_expr(depth, &fs[i].value) {
                    Ok(v) => v,
                    Err(e) => {
                        return Err(e);
                    },
                };
                let q = self.field_at(t, p, info.index);
                self.store(q, v);
                if let Err(e) = self.lit_fields(depth, fs, i + 1, l, t, p, span) {
                    return Err(e);
                }
                return Ok(());
            },
            _ => {},
        }
        let n = fs[i].name.as_str();
        Err(fault_naming("unknown field ", n, "", span))
    }

    /// Whether a literal gives field entry `k`.
    pub fn given(&self, fs: &'a Vec<FieldInit>, i: usize, k: usize) -> (out: bool)
        ensures
            out == given(self@, fs, i, k),
        decreases fs.len() - i,
    {
        reveal(given);
        if i >= fs.len() {
            return false;
        }
        if self.field_is(k, fs[i].name.as_str()) {
            return true;
        }
        self.given(fs, i + 1, k)
    }

    /// Stores the defaults of the fields that a literal does not give, looked for in the first `n` field entries.
    pub fn lit_defaults(&mut self, depth: usize, fs: &'a Vec<FieldInit>, n: usize, l: usize, t: usize, p: Val) -> (out: Result<(), CodegenError>)
        ensures
            match out {
                Ok(made) => lit_defaults(nest::nest(depth as nat), old(self)@, fs, n, l, t, p) == Ok::<((), State<'a>), Failure<'a>>((made, final(self)@)),
                Err(trouble) => lit_defaults(nest::nest(depth as nat), old(self)@, fs, n, l, t, p) == Err::<((), State<'a>), Failure<'a>>(Failure { trouble: trouble@, after: final(self)@ }),
            },
        decreases depth, 2int, n,
    {
        reveal(lit_defaults);
        if n == 0 {
            return Ok(());
        }
        let k: usize = n - 1;
        if let Err(e) = self.lit_defaults(depth, fs, k, l, t, p) {
            return Err(e);
        }
        if self.field_layout(k) != Some(l) || self.given(fs, 0, k) {
            return Ok(());
        }
        match self.default_at(k) {
            Some(e) => {
                let info = self.field_info(k);
                let v = match self.nested_expr(depth, e) {
                    Ok(v) => v,
                    Err(e) => {
                        return Err(e);
                    },
                };
                let q = self.field_at(t, p, info.index);
                self.store(q, v);
                return Ok(());
            },
            _ => {},
        }
        Ok(())
    }

    /// A struct literal.
    pub fn struct_lit(&mut self, depth: usize, ty: &'a Type, fs: &'a Vec<FieldInit>, span: Span) -> (out: Result<Operand, CodegenError>)
        ensures
            match out {
                Ok(made) => struct_lit(nest::nest(depth as nat), old(self)@, ty, fs, span) == Ok::<(Operand, State<'a>), Failure<'a>>((made, final(self)@)),
                Err(trouble) => struct_lit(nest::nest(depth as nat), old(self)@, ty, fs, span) == Err::<(Operand, State<'a>), Failure<'a>>(Failure { trouble: trouble@, after: final(self)@ }),
            },
        decreases depth, 3int, 0int,
    {
        reveal(struct_lit);
        match ty {
            Type::Named(n) => {
                match self.layout(n.as_str()) {
                    Some(l) => {
                        if self.is_enum(l) {
                            return Err(fault_naming("unknown struct ", n.as_str(), "", span));
                        }
                        let t = self.class_ty(l);
                        let p = self.emit(Op::Temp(t), PTR);
                        self.store(p.val, Operand { val: Val::Zero, ty: t });
                        if let Err(e) = self.lit_fields(depth, fs, 0, l, t, p.val, span) {
                            return Err(e);
                        }
                        let n_fields: usize = self.field_count();
                        if let Err(e) = self.lit_defaults(depth, fs, n_fields, l, t, p.val) {
                            return Err(e);
                        }
                        let r = self.load(Operand { val: p.val, ty: t });
                        return Ok(r);
                    },
                    _ => {},
                }
                return Err(fault_naming("unknown struct ", n.as_str(), "", span));
            },
            _ => {},
        }
        Err(fault("struct literal requires named type", span))
    }

    /// A value of an enum: the tag, and the payload where there is one.
    pub fn enum_value(&mut self, depth: usize, l: usize, variant: &str, args: &'a Vec<CallArg>, span: Span) -> (out: Result<Operand, CodegenError>)
        ensures
            match out {
                Ok(made) => enum_value(nest::nest(depth as nat), old(self)@, l, variant@, args, span) == Ok::<(Operand, State<'a>), Failure<'a>>((made, final(self)@)),
                Err(trouble) => enum_value(nest::nest(depth as nat), old(self)@, l, variant@, args, span) == Err::<(Operand, State<'a>), Failure<'a>>(Failure { trouble: trouble@, after: final(self)@ }),
            },
        decreases depth, 2int, 0int,
    {
        reveal(enum_value);
        match self.tag_entry(variant, l) {
            Some(k) => {
                let info = self.tag_info(k);
                let t = self.class_ty(l);
                let a = self.insert(Operand { val: Val::Undef, ty: t }, Operand { val: Val::Int(info.tag as i64), ty: I32 }, 0);
                if args.len() > 0 {
                    let v = match self.call_arg(depth, &args[0]) {
                        Ok(v) => v,
                        Err(e) => {
                            return Err(e);
                        },
                    };
                    let b = self.insert(a, v, 1);
                    return Ok(b);
                }
                return Ok(a);
            },
            _ => {},
        }
        Err(fault_naming("enum has no variant `", variant, "`", span))
    }

    /// A value of the enum that is named, or of the one that has the variant.
    pub fn enum_variant(&mut self, depth: usize, name: &'a Option<String>, variant: &str, args: &'a Vec<CallArg>, span: Span) -> (out: Result<Operand, CodegenError>)
        ensures
            match out {
                Ok(made) => enum_variant(nest::nest(depth as nat), old(self)@, name, variant@, args, span) == Ok::<(Operand, State<'a>), Failure<'a>>((made, final(self)@)),
                Err(trouble) => enum_variant(nest::nest(depth as nat), old(self)@, name, variant@, args, span) == Err::<(Operand, State<'a>), Failure<'a>>(Failure { trouble: trouble@, after: final(self)@ }),
            },
        decreases depth, 3int, 0int,
    {
        reveal(enum_variant);
        match name {
            Some(n) => {
                match self.layout(n.as_str()) {
                    Some(l) => {
                        let r = match self.enum_value(depth, l, variant, args, span) {
                            Ok(v) => v,
                            Err(e) => {
                                return Err(e);
                            },
                        };
                        return Ok(r);
                    },
                    _ => {},
                }
                return Err(fault_naming("unknown enum ", n.as_str(), "", span));
            },
            None => {
                match self.any_tag(variant) {
                    Some(k) => {
                        let info = self.tag_info(k);
                        let r = match self.enum_value(depth, info.layout, variant, args, span) {
                            Ok(v) => v,
                            Err(e) => {
                                return Err(e);
                            },
                        };
                        return Ok(r);
                    },
                    _ => {},
                }
                return Err(fault_naming("enum has no variant `", variant, "`", span));
            },
        }
    }

    /// Appends a number to a string under construction.
    pub fn join_number(&mut self, buf: Val, v: Operand, format: &str)
        ensures
            final(self)@ == join_number(old(self)@, buf, v, format@),
    {
        reveal(join_number);
        let t = self.array_of(I8, 64);
        let b = self.emit(Op::Temp(t), PTR);
        let f = self.string(format);
        self.perform(Op::Push(Operand { val: b.val, ty: PTR }));
        self.perform(Op::Push(f));
        self.perform(Op::Push(v));
        let x = self.runtime(Runtime::Sprintf, 3, I32);
        let y = self.runtime2(Runtime::Strcat, Operand { val: buf, ty: PTR }, Operand { val: b.val, ty: PTR }, PTR);
    }

    /// Appends a value to a string under construction.
    pub fn join_value(&mut self, buf: Val, v: Operand)
        ensures
            final(self)@ == join_value(old(self)@, buf, v),
    {
        reveal(join_value);
        if self.is_int(v.ty) {
            self.join_number(buf, v, "%ld");
            return;
        }
        if self.is_ptr(v.ty) {
            let x = self.runtime2(Runtime::Strcat, Operand { val: buf, ty: PTR }, v, PTR);
            return;
        }
        if self.is_float(v.ty) {
            self.join_number(buf, v, "%f");
        }
    }

    /// Appends the pieces of a string from `i` on.
    pub fn join_parts(&mut self, depth: usize, ps: &'a Vec<StringPart>, i: usize, buf: Val) -> (out: Result<(), CodegenError>)
        ensures
            match out {
                Ok(made) => join_parts(nest::nest(depth as nat), old(self)@, ps, i, buf) == Ok::<((), State<'a>), Failure<'a>>((made, final(self)@)),
                Err(trouble) => join_parts(nest::nest(depth as nat), old(self)@, ps, i, buf) == Err::<((), State<'a>), Failure<'a>>(Failure { trouble: trouble@, after: final(self)@ }),
            },
        decreases depth, 5int, ps.len() - i,
    {
        reveal(join_parts);
        if i >= ps.len() {
            return Ok(());
        }
        match &ps[i] {
            StringPart::Literal(s) => {
                let a = self.string(s.as_str());
                let x = self.runtime2(Runtime::Strcat, Operand { val: buf, ty: PTR }, a, PTR);
                if let Err(e) = self.join_parts(depth, ps, i + 1, buf) {
                    return Err(e);
                }
                return Ok(());
            },
            StringPart::Hole(e) => {
                let v = match self.nested_expr(depth, e) {
                    Ok(v) => v,
                    Err(e) => {
                        return Err(e);
                    },
                };
                self.join_value(buf, v);
                if let Err(e) = self.join_parts(depth, ps, i + 1, buf) {
                    return Err(e);
                }
                return Ok(());
            },
        }
    }

    /// A string with holes, put together in a buffer and copied.
    pub fn interpolated(&mut self, depth: usize, ps: &'a Vec<StringPart>) -> (out: Result<Operand, CodegenError>)
        ensures
            match out {
                Ok(made) => interpolated(nest::nest(depth as nat), old(self)@, ps) == Ok::<(Operand, State<'a>), Failure<'a>>((made, final(self)@)),
                Err(trouble) => interpolated(nest::nest(depth as nat), old(self)@, ps) == Err::<(Operand, State<'a>), Failure<'a>>(Failure { trouble: trouble@, after: final(self)@ }),
            },
        decreases depth, 6int, 0int,
    {
        reveal(interpolated);
        let t = self.array_of(I8, 512);
        let b = self.emit(Op::Temp(t), PTR);
        let f = self.elem_at(t, b.val, Operand { val: Val::Int(0), ty: I32 });
        self.store(f, Operand { val: Val::Int(0), ty: I8 });
        if let Err(e) = self.join_parts(depth, ps, 0, b.val) {
            return Err(e);
        }
        let r = self.runtime1(Runtime::Strdup, Operand { val: b.val, ty: PTR }, PTR);
        Ok(r)
    }

    /// Declares the parameters of a closure.
    pub fn closure_params(&mut self, depth: usize, ps: &'a Vec<Param>, i: usize) -> (out: Result<(), CodegenError>)
        ensures
            match out {
                Ok(made) => closure_params(nest::nest(depth as nat), old(self)@, ps, i) == Ok::<((), State<'a>), Failure<'a>>((made, final(self)@)),
                Err(trouble) => closure_params(nest::nest(depth as nat), old(self)@, ps, i) == Err::<((), State<'a>), Failure<'a>>(Failure { trouble: trouble@, after: final(self)@ }),
            },
        decreases depth, 4int, ps.len() - i,
    {
        reveal(closure_params);
        if i >= ps.len() {
            return Ok(());
        }
        let q = &ps[i];
        let t = match self.ty(depth, &q.ty) {
            Ok(v) => v,
            Err(e) => {
                return Err(e);
            },
        };
        self.add_param(q.name.as_str(), ParamInfo { ty: Some(t), elem: None, is_variadic: false });
        if let Err(e) = self.closure_params(depth, ps, i + 1) {
            return Err(e);
        }
        Ok(())
    }

    /// Gives the parameters of a closure a place in memory.
    pub fn closure_slots(&mut self, depth: usize, ps: &'a Vec<Param>, i: usize) -> (out: Result<(), CodegenError>)
        ensures
            match out {
                Ok(made) => closure_slots(nest::nest(depth as nat), old(self)@, ps, i) == Ok::<((), State<'a>), Failure<'a>>((made, final(self)@)),
                Err(trouble) => closure_slots(nest::nest(depth as nat), old(self)@, ps, i) == Err::<((), State<'a>), Failure<'a>>(Failure { trouble: trouble@, after: final(self)@ }),
            },
        decreases depth, 4int, ps.len() - i,
    {
        reveal(closure_slots);
        if i >= ps.len() {
            return Ok(());
        }
        let q = &ps[i];
        let t = match self.ty(depth, &q.ty) {
            Ok(v) => v,
            Err(e) => {
                return Err(e);
            },
        };
        let s = self.slot(t);
        self.store(s.val, Operand { val: Val::Arg(i), ty: t });
        self.bind(q.name.as_str(), s);
        if let Err(e) = self.closure_slots(depth, ps, i + 1) {
            return Err(e);
        }
        Ok(())
    }

    /// What a closure does and returns.
    pub fn closure_body(&mut self, depth: usize, b: &'a ClosureBody) -> (out: Result<(), CodegenError>)
        ensures
            match out {
                Ok(made) => closure_body(nest::nest(depth as nat), old(self)@, b) == Ok::<((), State<'a>), Failure<'a>>((made, final(self)@)),
                Err(trouble) => closure_body(nest::nest(depth as nat), old(self)@, b) == Err::<((), State<'a>), Failure<'a>>(Failure { trouble: trouble@, after: final(self)@ }),
            },
        decreases depth, 1int, 0int,
    {
        reveal(closure_body);
        match b {
            ClosureBody::Value(e) => {
                let v = match self.nested_expr(depth, e) {
                    Ok(v) => v,
                    Err(e) => {
                        return Err(e);
                    },
                };
                self.finish(Op::Return(v));
                return Ok(());
            },
            ClosureBody::Block(x) => {
                let y = match self.nested_run_block(depth, x) {
                    Ok(v) => v,
                    Err(e) => {
                        return Err(e);
                    },
                };
                if self.done() {
                    return Ok(());
                }
                self.finish(Op::Return(Operand { val: Val::Int(0), ty: I64 }));
                return Ok(());
            },
        }
    }

    /// A closure: a function of its own, and its address.
    pub fn closure(&mut self, depth: usize, ps: &'a Vec<Param>, b: &'a ClosureBody) -> (out: Result<Operand, CodegenError>)
        ensures
            match out {
                Ok(made) => closure(nest::nest(depth as nat), old(self)@, ps, b) == Ok::<(Operand, State<'a>), Failure<'a>>((made, final(self)@)),
                Err(trouble) => closure(nest::nest(depth as nat), old(self)@, ps, b) == Err::<(Operand, State<'a>), Failure<'a>>(Failure { trouble: trouble@, after: final(self)@ }),
            },
        decreases depth, 5int, 0int,
    {
        reveal(closure);
        let id = self.next_closure();
        let name_text = closure_name(id);
        let name = name_text.as_str();
        let first = self.param_start();
        if let Err(e) = self.closure_params(depth, ps, 0) {
            return Err(e);
        }
        let f = self.add_function(name, FuncInfo { ret: Some(I64), c_varargs: false, converts: false, first: first, count: ps.len() });
        let outer = self.this_function();
        let main: bool = self.in_main();
        let class = self.this_class();
        let back: usize = self.here();
        self.set_function(Some(f), main, class);
        let entry = self.block(Label::Entry);
        self.at(entry);
        self.open_scope();
        if let Err(e) = self.closure_slots(depth, ps, 0) {
            return Err(e);
        }
        if let Err(e) = self.closure_body(depth, b) {
            return Err(e);
        }
        self.close_scope();
        self.set_function(outer, main, class);
        self.at(back);
        Ok(Operand { val: Val::Func(f), ty: PTR })
    }

    /// Computes the values from `i` on; the struct that they make up.
    pub fn tuple_values(&mut self, depth: usize, es: &'a Vec<Expr>, i: usize) -> (out: Result<usize, CodegenError>)
        ensures
            match out {
                Ok(made) => tuple_values(nest::nest(depth as nat), old(self)@, es, i) == Ok::<(usize, State<'a>), Failure<'a>>((made, final(self)@)),
                Err(trouble) => tuple_values(nest::nest(depth as nat), old(self)@, es, i) == Err::<(usize, State<'a>), Failure<'a>>(Failure { trouble: trouble@, after: final(self)@ }),
            },
        decreases depth, 1int, es.len() - i,
    {
        reveal(tuple_values);
        if i >= es.len() {
            return Ok(NIL);
        }
        let v = match self.nested_expr(depth, &es[i]) {
            Ok(v) => v,
            Err(e) => {
                return Err(e);
            },
        };
        self.perform(Op::Push(v));
        let rest = match self.tuple_values(depth, es, i + 1) {
            Ok(v) => v,
            Err(e) => {
                return Err(e);
            },
        };
        let t = self.intern(TyDef::Cons(v.ty, rest));
        Ok(t)
    }

    /// An array with the values from `i` on.
    pub fn array_values(&mut self, depth: usize, es: &'a Vec<Expr>, i: usize, t: usize, agg: Operand) -> (out: Result<Operand, CodegenError>)
        ensures
            match out {
                Ok(made) => array_values(nest::nest(depth as nat), old(self)@, es, i, t, agg) == Ok::<(Operand, State<'a>), Failure<'a>>((made, final(self)@)),
                Err(trouble) => array_values(nest::nest(depth as nat), old(self)@, es, i, t, agg) == Err::<(Operand, State<'a>), Failure<'a>>(Failure { trouble: trouble@, after: final(self)@ }),
            },
        decreases depth, 3int, es.len() - i,
    {
        reveal(array_values);
        if i >= es.len() {
            return Ok(agg);
        }
        let v = match self.nested_expr(depth, &es[i]) {
            Ok(v) => v,
            Err(e) => {
                return Err(e);
            },
        };
        let c = self.coerce(v, t);
        let a = self.insert(agg, c, i as u32);
        let r = match self.array_values(depth, es, i + 1, t, a) {
            Ok(v) => v,
            Err(e) => {
                return Err(e);
            },
        };
        Ok(r)
    }

    /// An array literal, whose elements have the type of the first.
    pub fn array_lit(&mut self, depth: usize, es: &'a Vec<Expr>) -> (out: Result<Operand, CodegenError>)
        ensures
            match out {
                Ok(made) => array_lit(nest::nest(depth as nat), old(self)@, es) == Ok::<(Operand, State<'a>), Failure<'a>>((made, final(self)@)),
                Err(trouble) => array_lit(nest::nest(depth as nat), old(self)@, es) == Err::<(Operand, State<'a>), Failure<'a>>(Failure { trouble: trouble@, after: final(self)@ }),
            },
        decreases depth, 4int, 0int,
    {
        reveal(array_lit);
        if es.len() == 0 {
            let t = self.array_of(I64, 0);
            return Ok(Operand { val: Val::Zero, ty: t });
        }
        let v = match self.nested_expr(depth, &es[0]) {
            Ok(v) => v,
            Err(e) => {
                return Err(e);
            },
        };
        let t = self.array_of(v.ty, es.len() as u64);
        let a = self.insert(Operand { val: Val::Undef, ty: t }, v, 0);
        let r = match self.array_values(depth, es, 1, v.ty, a) {
            Ok(v) => v,
            Err(e) => {
                return Err(e);
            },
        };
        Ok(r)
    }

    /// The type of a key or value of a map, as far as a literal tells.
    pub fn lit_ty(&self, e: &'a Expr) -> (out: usize)
        ensures
            out == lit_ty(e),
    {
        reveal(lit_ty);
        match &e.kind {
            ExprKind::StringLit(_) => {
                return PTR;
            },
            ExprKind::BoolLit(_) => {
                return I1;
            },
            ExprKind::CharLit(_) => {
                return I32;
            },
            ExprKind::FloatLit(_) => {
                return F64;
            },
            _ => {},
        }
        I64
    }

    /// Stores the entries of a map literal from `i` on.
    pub fn store_entries(&mut self, depth: usize, es: &'a Vec<MapEntry>, i: usize, p: Operand) -> (out: Result<(), CodegenError>)
        ensures
            match out {
                Ok(made) => store_entries(nest::nest(depth as nat), old(self)@, es, i, p) == Ok::<((), State<'a>), Failure<'a>>((made, final(self)@)),
                Err(trouble) => store_entries(nest::nest(depth as nat), old(self)@, es, i, p) == Err::<((), State<'a>), Failure<'a>>(Failure { trouble: trouble@, after: final(self)@ }),
            },
        decreases depth, 3int, es.len() - i,
    {
        reveal(store_entries);
        let keys: usize = self.struct_elem(p.ty, 0);
        let vals: usize = self.struct_elem(p.ty, 1);
        if i >= es.len() {
            let lp = self.field_at(p.ty, p.val, 2);
            self.store(lp, Operand { val: Val::Int(i as i64), ty: I64 });
            return Ok(());
        }
        let kt: usize = self.array_elem(keys);
        let vt: usize = self.array_elem(vals);
        let k = match self.nested_expr(depth, &es[i].key) {
            Ok(v) => v,
            Err(e) => {
                return Err(e);
            },
        };
        let kc = self.coerce(k, kt);
        let kb = self.field_at(p.ty, p.val, 0);
        let kp = self.elem_at(keys, kb, Operand { val: Val::Int(i as i64), ty: I64 });
        self.store(kp, kc);
        let v = match self.nested_expr(depth, &es[i].value) {
            Ok(v) => v,
            Err(e) => {
                return Err(e);
            },
        };
        let vc = self.coerce(v, vt);
        let vb = self.field_at(p.ty, p.val, 1);
        let vp = self.elem_at(vals, vb, Operand { val: Val::Int(i as i64), ty: I64 });
        self.store(vp, vc);
        if let Err(e) = self.store_entries(depth, es, i + 1, p) {
            return Err(e);
        }
        Ok(())
    }

    /// The type of a map, as far as its first entry tells.
    pub fn lit_map_ty(&mut self, es: &'a Vec<MapEntry>) -> (out: usize)
        ensures
            (out, final(self)@) == lit_map_ty(old(self)@, es),
    {
        reveal(lit_map_ty);
        if es.len() == 0 {
            let t = self.map_of(I64, I64);
            return t;
        }
        let k: usize = self.lit_ty(&es[0].key);
        let v: usize = self.lit_ty(&es[0].value);
        let t = self.map_of(k, v);
        t
    }

    /// A map literal.
    pub fn map_lit(&mut self, depth: usize, es: &'a Vec<MapEntry>) -> (out: Result<Operand, CodegenError>)
        ensures
            match out {
                Ok(made) => map_lit(nest::nest(depth as nat), old(self)@, es) == Ok::<(Operand, State<'a>), Failure<'a>>((made, final(self)@)),
                Err(trouble) => map_lit(nest::nest(depth as nat), old(self)@, es) == Err::<(Operand, State<'a>), Failure<'a>>(Failure { trouble: trouble@, after: final(self)@ }),
            },
        decreases depth, 4int, 0int,
    {
        reveal(map_lit);
        let t = self.lit_map_ty(es);
        let p = self.slot(t);
        self.store(p.val, Operand { val: Val::Zero, ty: t });
        if let Err(e) = self.store_entries(depth, es, 0, p) {
            return Err(e);
        }
        let r = self.load(p);
        Ok(r)
    }

    /// The value of an expression.
    pub fn expr(&mut self, depth: usize, e: &'a Expr) -> (out: Result<Operand, CodegenError>)
        ensures
            match out {
                Ok(made) => expr(nest::nest(depth as nat), old(self)@, e) == Ok::<(Operand, State<'a>), Failure<'a>>((made, final(self)@)),
                Err(trouble) => expr(nest::nest(depth as nat), old(self)@, e) == Err::<(Operand, State<'a>), Failure<'a>>(Failure { trouble: trouble@, after: final(self)@ }),
            },
        decreases depth, 13int, 0int,
    {
        reveal(expr);
        match &e.kind {
            ExprKind::IntLit(v) => {
                return Ok(Operand { val: Val::Int(*v), ty: I64 });
            },
            ExprKind::FloatLit(s) => {
                let k = self.text(s.as_str());
                return Ok(Operand { val: Val::Float(k), ty: F64 });
            },
            ExprKind::BoolLit(b) => {
                if *b {
                    return Ok(Operand { val: Val::Int(1), ty: I1 });
                }
                return Ok(Operand { val: Val::Int(0), ty: I1 });
            },
            ExprKind::CharLit(c) => {
                return Ok(Operand { val: Val::Int(*c as u32 as i64), ty: I32 });
            },
            ExprKind::StringLit(s) => {
                let r = self.string(s.as_str());
                return Ok(r);
            },
            ExprKind::Null => {
                return Ok(Operand { val: Val::Null, ty: PTR });
            },
            ExprKind::Ident(n) => {
                let r = match self.variable(n.as_str(), e.span) {
                    Ok(v) => v,
                    Err(e) => {
                        return Err(e);
                    },
                };
                return Ok(r);
            },
            ExprKind::This => {
                match self.lookup_var("this") {
                    Some(v) => {
                        let r = self.load(v);
                        return Ok(r);
                    },
                    _ => {},
                }
                return Err(fault("`this` outside method", e.span));
            },
            ExprKind::Super => {
                match self.lookup_var("this") {
                    Some(v) => {
                        let r = self.load(v);
                        return Ok(r);
                    },
                    _ => {},
                }
                return Err(fault("`super` outside class", e.span));
            },
            ExprKind::Paren(x) => {
                let r = match self.nested_expr(depth, x) {
                    Ok(v) => v,
                    Err(e) => {
                        return Err(e);
                    },
                };
                return Ok(r);
            },
            ExprKind::Unary(op, x) => {
                let r = match self.unary(depth, *op, x, e.span) {
                    Ok(v) => v,
                    Err(e) => {
                        return Err(e);
                    },
                };
                return Ok(r);
            },
            ExprKind::Postfix(op, x) => {
                let r = match self.postfix(depth, *op, x) {
                    Ok(v) => v,
                    Err(e) => {
                        return Err(e);
                    },
                };
                return Ok(r);
            },
            ExprKind::Binary(op, a, b) => {
                let r = match self.binary(depth, *op, a, b, e.span) {
                    Ok(v) => v,
                    Err(e) => {
                        return Err(e);
                    },
                };
                return Ok(r);
            },
            ExprKind::Conditional(c, a, b) => {
                let r = match self.conditional(depth, c, a, b, e.span) {
                    Ok(v) => v,
                    Err(e) => {
                        return Err(e);
                    },
                };
                return Ok(r);
            },
            ExprKind::Range(a, b, inclusive) => {
                let r = match self.range(depth, a, b, *inclusive) {
                    Ok(v) => v,
                    Err(e) => {
                        return Err(e);
                    },
                };
                return Ok(r);
            },
            ExprKind::Assign(a, b) => {
                let r = match self.assign(depth, a, b) {
                    Ok(v) => v,
                    Err(e) => {
                        return Err(e);
                    },
                };
                return Ok(r);
            },
            ExprKind::CompoundAssign(op, a, b) => {
                let r = match self.compound(depth, *op, a, b, e.span) {
                    Ok(v) => v,
                    Err(e) => {
                        return Err(e);
                    },
                };
                return Ok(r);
            },
            _ => {},
        }
        let r = match self.expr_more(depth, e) {
            Ok(v) => v,
            Err(e) => {
                return Err(e);
            },
        };
        Ok(r)
    }

    /// As `expr`, one level deeper; nothing can be lowered below the deepest level.
    pub fn nested_expr(&mut self, depth: usize, e: &'a Expr) -> (out: Result<Operand, CodegenError>)
        ensures
            match out {
                Ok(made) => (nest::nest(depth as nat).expr)(old(self)@, e) == Ok::<(Operand, State<'a>), Failure<'a>>((made, final(self)@)),
                Err(trouble) => (nest::nest(depth as nat).expr)(old(self)@, e) == Err::<(Operand, State<'a>), Failure<'a>>(Failure { trouble: trouble@, after: final(self)@ }),
            },
        decreases depth, 0int, 0int,
    {
        reveal(nest::nest);
        if depth == 0 {
            Err(fault("nested too deeply", Span { start: 0, end: 0 }))
        } else {
            self.expr(depth - 1, e)
        }
    }

    /// The value of an expression that calls, takes apart or builds something.
    pub fn expr_more(&mut self, depth: usize, e: &'a Expr) -> (out: Result<Operand, CodegenError>)
        ensures
            match out {
                Ok(made) => expr_more(nest::nest(depth as nat), old(self)@, e) == Ok::<(Operand, State<'a>), Failure<'a>>((made, final(self)@)),
                Err(trouble) => expr_more(nest::nest(depth as nat), old(self)@, e) == Err::<(Operand, State<'a>), Failure<'a>>(Failure { trouble: trouble@, after: final(self)@ }),
            },
        decreases depth, 12int, 0int,
    {
        reveal(expr_more);
        match &e.kind {
            ExprKind::NullableMember(o, f) => {
                let r = match self.nullable(depth, o, f.as_str()) {
                    Ok(v) => v,
                    Err(e) => {
                        return Err(e);
                    },
                };
                return Ok(r);
            },
            ExprKind::Call { callee, type_args: _, args } => {
                let r = match self.call_expr(depth, callee.as_str(), args, e.span) {
                    Ok(v) => v,
                    Err(e) => {
                        return Err(e);
                    },
                };
                return Ok(r);
            },
            ExprKind::MethodCall { object, method, args } => {
                let r = match self.method_call(depth, object, method.as_str(), args, e.span) {
                    Ok(v) => v,
                    Err(e) => {
                        return Err(e);
                    },
                };
                return Ok(r);
            },
            ExprKind::Member(o, f) => {
                let r = match self.member(depth, o, f.as_str(), e.span) {
                    Ok(v) => v,
                    Err(e) => {
                        return Err(e);
                    },
                };
                return Ok(r);
            },
            ExprKind::Index(o, i) => {
                let r = match self.index(depth, o, i, e.span) {
                    Ok(v) => v,
                    Err(e) => {
                        return Err(e);
                    },
                };
                return Ok(r);
            },
            ExprKind::Slice { object, start, end, inclusive: _ } => {
                let r = match self.slice(depth, object, start, end) {
                    Ok(v) => v,
                    Err(e) => {
                        return Err(e);
                    },
                };
                return Ok(r);
            },
            ExprKind::StructLit { ty, fields } => {
                let r = match self.struct_lit(depth, ty, fields, e.span) {
                    Ok(v) => v,
                    Err(e) => {
                        return Err(e);
                    },
                };
                return Ok(r);
            },
            ExprKind::EnumVariant { enum_name, variant, args } => {
                let r = match self.enum_variant(depth, enum_name, variant.as_str(), args, e.span) {
                    Ok(v) => v,
                    Err(e) => {
                        return Err(e);
                    },
                };
                return Ok(r);
            },
            ExprKind::Match(m) => {
                let r = match self.match_expr(depth, m) {
                    Ok(v) => v,
                    Err(e) => {
                        return Err(e);
                    },
                };
                return Ok(r);
            },
            ExprKind::Interpolated(ps) => {
                let r = match self.interpolated(depth, ps) {
                    Ok(v) => v,
                    Err(e) => {
                        return Err(e);
                    },
                };
                return Ok(r);
            },
            ExprKind::Closure { params, body } => {
                let r = match self.closure(depth, params, body) {
                    Ok(v) => v,
                    Err(e) => {
                        return Err(e);
                    },
                };
                return Ok(r);
            },
            ExprKind::Tuple(es) => {
                let t = match self.tuple_values(depth, es, 0) {
                    Ok(v) => v,
                    Err(e) => {
                        return Err(e);
                    },
                };
                let r = self.emit(Op::Pack(es.len()), t);
                return Ok(r);
            },
            ExprKind::ArrayLit(es) => {
                let r = match self.array_lit(depth, es) {
                    Ok(v) => v,
                    Err(e) => {
                        return Err(e);
                    },
                };
                return Ok(r);
            },
            ExprKind::VecEmpty => {
                let t = self.vec_of(I64);
                return Ok(Operand { val: Val::Zero, ty: t });
            },
            ExprKind::MapLit { ty: _, entries } => {
                let r = match self.map_lit(depth, entries) {
                    Ok(v) => v,
                    Err(e) => {
                        return Err(e);
                    },
                };
                return Ok(r);
            },
            _ => {},
        }
        Err(fault("this expression cannot be lowered", e.span))
    }
}

} // verus!
