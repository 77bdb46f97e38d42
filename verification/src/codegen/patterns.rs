//! Lowering of `match`.
use vstd::prelude::*;
use crate::ast::{
    Expr, MatchArm, MatchExpr, ArmBody, Pattern,
};
use crate::codegen::ir::{
    Arith, Guess, Label, Op, Operand, Pred, Val,
    I1, I32, I64,
};
use crate::codegen::lower;
use crate::codegen::exprs;
use crate::codegen::stmts;
use crate::codegen::nest;
use crate::codegen::nest::Nest;
use crate::codegen::state;
use crate::codegen::state::{Codegen, CodegenError, Failure, State, Trouble, fault, fault_naming_two};
use crate::token::Span;

verus! {

/// Whether a pattern takes every value.
#[verifier::opaque]
pub open spec fn is_open<'a>(p: &'a Pattern) -> bool
{
    match *p {
        Pattern::Wildcard => {
            true
        },
        Pattern::Var(_) => {
            true
        },
        _ => {
            false
        },
    }
}

/// Whether a pattern from `i` on takes every value.
#[verifier::opaque]
pub open spec fn any_open<'a>(ps: &'a Vec<Pattern>, i: usize) -> bool
    decreases ps.len() - i,
{
    if i >= ps.len() {
        false
    } else if is_open(&ps@[i as int]) {
        true
    } else {
        any_open(ps, (i + 1) as usize)
    }
}

/// Whether an arm takes every value.
#[verifier::opaque]
pub open spec fn takes_all<'a>(p: &'a Pattern) -> bool
{
    match *p {
        Pattern::Alternative(ps) => {
            any_open(&ps, 0)
        },
        _ => {
            is_open(p)
        },
    }
}

/// Whether a value is a constant.
#[verifier::opaque]
pub open spec fn test_int<'a>(st: State<'a>, v: Operand, k: Operand, span: Span) -> Result<(Operand, State<'a>), Failure<'a>>
{
    match exprs::need_int(st, v, span) {
        Ok((i, st)) => {
            let (r, st) = lower::compare(st, Pred::Same, i, k);
            Ok((r, st))
        },
        Err(e) => Err(e),
    }
}

/// One for true, zero for false.
#[verifier::opaque]
pub open spec fn bit(b: bool) -> i64
{
    if b {
        1
    } else {
        0
    }
}

/// Whether a value is that of a literal; patterns of other kinds take it.
#[verifier::opaque]
pub open spec fn test_plain<'a>(st: State<'a>, p: &'a Pattern, v: Operand, span: Span) -> Result<(Operand, State<'a>), Failure<'a>>
{
    match *p {
        Pattern::LitInt(n) => {
            test_int(st, v, Operand { val: Val::Int(n), ty: I64 }, span)
        },
        Pattern::LitBool(b) => {
            let k = bit(b);
            test_int(st, v, Operand { val: Val::Int(k), ty: I1 }, span)
        },
        _ => {
            Ok((Operand { val: Val::Int(1), ty: I1 }, st))
        },
    }
}

/// Both of two conditions, the second alone where there is no first.
#[verifier::opaque]
pub open spec fn both<'a>(st: State<'a>, a: Option<Operand>, b: Operand) -> (Option<Operand>, State<'a>)
{
    match a {
        Some(x) => {
            let (r, st) = lower::arith(st, Arith::And, x, b);
            (Some(r), st)
        },
        _ => {
            (Some(b), st)
        },
    }
}

/// One of two conditions, the second alone where there is no first.
#[verifier::opaque]
pub open spec fn either<'a>(st: State<'a>, a: Option<Operand>, b: Operand) -> (Option<Operand>, State<'a>)
{
    match a {
        Some(x) => {
            let (r, st) = lower::arith(st, Arith::Or, x, b);
            (Some(r), st)
        },
        _ => {
            (Some(b), st)
        },
    }
}

/// A condition; a constant where there is none.
#[verifier::opaque]
pub open spec fn or_bit(a: Option<Operand>, k: i64) -> Operand
{
    match a {
        Some(x) => {
            x
        },
        _ => {
            Operand { val: Val::Int(k), ty: I1 }
        },
    }
}

/// Whether one of the integers from `i` on is a value; patterns of other kinds take it.
#[verifier::opaque]
pub open spec fn test_ints<'a>(st: State<'a>, ps: &'a Vec<Pattern>, i: usize, v: Operand, span: Span, acc: Option<Operand>) -> Result<(Operand, State<'a>), Failure<'a>>
    decreases ps.len() - i,
{
    if i >= ps.len() {
        Ok((or_bit(acc, 0), st))
    } else {
        match ps@[i as int] {
            Pattern::LitInt(n) => {
                match test_int(st, v, Operand { val: Val::Int(n), ty: I64 }, span) {
                    Ok((x, st)) => {
                        let (a, st) = either(st, acc, x);
                        test_ints(st, ps, (i + 1) as usize, v, span, a)
                    },
                    Err(e) => Err(e),
                }
            },
            _ => {
                let (a, st) = either(st, acc, Operand { val: Val::Int(1), ty: I1 });
                test_ints(st, ps, (i + 1) as usize, v, span, a)
            },
        }
    }
}

/// Whether a part of a tuple is taken; `deep` tells whether alternatives are tried.
#[verifier::opaque]
pub open spec fn test_part<'a>(st: State<'a>, p: &'a Pattern, v: Operand, deep: bool, span: Span) -> Result<(Operand, State<'a>), Failure<'a>>
{
    match *p {
        Pattern::Alternative(ps) => {
            if deep {
                test_ints(st, &ps, 0, v, span, None)
            } else {
                Ok((Operand { val: Val::Int(1), ty: I1 }, st))
            }
        },
        _ => {
            test_plain(st, p, v, span)
        },
    }
}

/// Whether the parts of a tuple from `i` on are taken.
#[verifier::opaque]
pub open spec fn test_parts<'a>(st: State<'a>, ps: &'a Vec<Pattern>, i: usize, v: Operand, deep: bool, span: Span, acc: Option<Operand>) -> Result<(Operand, State<'a>), Failure<'a>>
    decreases ps.len() - i,
{
    if i >= ps.len() {
        Ok((or_bit(acc, 1), st))
    } else {
        let (x, st) = lower::extract(st, v, i as u32);
        match test_part(st, &ps@[i as int], x, deep, span) {
            Ok((y, st)) => {
                let (a, st) = both(st, acc, y);
                test_parts(st, ps, (i + 1) as usize, v, deep, span, a)
            },
            Err(e) => Err(e),
        }
    }
}

/// Whether a value of an enum is of a variant.
#[verifier::opaque]
pub open spec fn test_tag<'a>(nest: Nest<'a>, st: State<'a>, variant: Seq<char>, v: Operand, e: &'a Expr) -> Result<(Operand, State<'a>), Failure<'a>>
{
    match (nest.infer)(st, e) {
        Ok(g) => {
            match g {
                Guess::Enum(l) => {
                    match state::tag_entry(st, variant, l) {
                        Some(k) => {
                            let info = state::tag_info(st, k);
                            let (x, st) = lower::extract(st, v, 0);
                            let (r, st) = lower::compare(st, Pred::Same, x, Operand { val: Val::Int(info.tag as i64), ty: I32 });
                            Ok((r, st))
                        },
                        _ => {
                            let s = state::layout_name(st, l);
                            Err(Failure { trouble: state::naming_two("enum `"@, s, "` has no variant `"@, variant, "`"@, e.span), after: st })
                        },
                    }
                },
                _ => {
                    Err(Failure { trouble: Trouble { message: "enum pattern on non-enum"@, span: e.span }, after: st })
                },
            }
        },
        Err(e) => Err(Failure { trouble: e, after: st }),
    }
}

/// Whether a value of an enum is of a variant, and its payload that of a literal.
#[verifier::opaque]
pub open spec fn test_variant<'a>(nest: Nest<'a>, st: State<'a>, variant: Seq<char>, payload: &'a Option<Vec<Pattern>>, v: Operand, e: &'a Expr) -> Result<(Operand, State<'a>), Failure<'a>>
{
    match test_tag(nest, st, variant, v, e) {
        Ok((q, st)) => {
            match *payload {
                Some(ps) => {
                    let (x, st) = lower::extract(st, v, 1);
                    if ps.len() == 1 {
                        match test_plain(st, &ps@[0 as int], x, e.span) {
                            Ok((y, st)) => {
                                let (r, st) = lower::arith(st, Arith::And, q, y);
                                Ok((r, st))
                            },
                            Err(e) => Err(e),
                        }
                    } else {
                        let (r, st) = lower::arith(st, Arith::And, q, Operand { val: Val::Int(1), ty: I1 });
                        Ok((r, st))
                    }
                },
                _ => {
                    Ok((q, st))
                },
            }
        },
        Err(e) => Err(e),
    }
}

/// The integer of a pattern.
#[verifier::opaque]
pub open spec fn lit_int<'a>(p: &'a Pattern) -> Option<i64>
{
    match *p {
        Pattern::LitInt(n) => {
            Some(n)
        },
        _ => {
            None
        },
    }
}

/// As `test_variant`, in an alternative, where only integers of the payload count.
#[verifier::opaque]
pub open spec fn test_other_variant<'a>(nest: Nest<'a>, st: State<'a>, variant: Seq<char>, payload: &'a Option<Vec<Pattern>>, v: Operand, e: &'a Expr) -> Result<(Operand, State<'a>), Failure<'a>>
{
    match test_tag(nest, st, variant, v, e) {
        Ok((q, st)) => {
            match *payload {
                Some(ps) => {
                    if ps.len() == 1 {
                        let (x, st) = lower::extract(st, v, 1);
                        match lit_int(&ps@[0 as int]) {
                            Some(n) => {
                                match test_int(st, x, Operand { val: Val::Int(n), ty: I64 }, e.span) {
                                    Ok((y, st)) => {
                                        let (r, st) = lower::arith(st, Arith::And, q, y);
                                        Ok((r, st))
                                    },
                                    Err(e) => Err(e),
                                }
                            },
                            _ => {
                                Ok((q, st))
                            },
                        }
                    } else {
                        Ok((q, st))
                    }
                },
                _ => {
                    Ok((q, st))
                },
            }
        },
        Err(e) => Err(e),
    }
}

/// Whether an alternative takes a value.
#[verifier::opaque]
pub open spec fn test_other<'a>(nest: Nest<'a>, st: State<'a>, p: &'a Pattern, v: Operand, e: &'a Expr) -> Result<(Operand, State<'a>), Failure<'a>>
{
    match *p {
        Pattern::Variant { variant, payload } => {
            test_other_variant(nest, st, variant@, &payload, v, e)
        },
        Pattern::Tuple(ps) => {
            let g = match (nest.infer)(st, e) {
                Ok(v) => Some(v),
                Err(_) => None,
            };
            match g {
                Some(Guess::Tuple) => {
                    test_parts(st, &ps, 0, v, false, e.span, None)
                },
                _ => {
                    Ok((Operand { val: Val::Int(0), ty: I1 }, st))
                },
            }
        },
        _ => {
            test_plain(st, p, v, e.span)
        },
    }
}

/// Whether an alternative from `i` on takes a value.
#[verifier::opaque]
pub open spec fn test_others<'a>(nest: Nest<'a>, st: State<'a>, ps: &'a Vec<Pattern>, i: usize, v: Operand, e: &'a Expr, acc: Option<Operand>) -> Result<(Operand, State<'a>), Failure<'a>>
    decreases ps.len() - i,
{
    if i >= ps.len() {
        Ok((or_bit(acc, 0), st))
    } else {
        match test_other(nest, st, &ps@[i as int], v, e) {
            Ok((x, st)) => {
                let (a, st) = either(st, acc, x);
                test_others(nest, st, ps, (i + 1) as usize, v, e, a)
            },
            Err(e) => Err(e),
        }
    }
}

/// Whether an arm takes the value of an expression.
#[verifier::opaque]
pub open spec fn test_pattern<'a>(nest: Nest<'a>, st: State<'a>, p: &'a Pattern, v: Operand, e: &'a Expr) -> Result<(Operand, State<'a>), Failure<'a>>
{
    if takes_all(p) {
        Ok((Operand { val: Val::Int(1), ty: I1 }, st))
    } else {
        match *p {
            Pattern::Alternative(ps) => {
                test_others(nest, st, &ps, 0, v, e, None)
            },
            Pattern::Tuple(ps) => {
                if lower::is_struct(st, v.ty) {
                    test_parts(st, &ps, 0, v, true, e.span, None)
                } else {
                    Err(Failure { trouble: Trouble { message: "tuple pattern on non-tuple"@, span: e.span }, after: st })
                }
            },
            Pattern::Variant { variant, payload } => {
                test_variant(nest, st, variant@, &payload, v, e)
            },
            _ => {
                test_plain(st, p, v, e.span)
            },
        }
    }
}

/// Binds the variables of a tuple inside another from `i` on.
#[verifier::opaque]
pub open spec fn bind_inner<'a>(st: State<'a>, ps: &'a Vec<Pattern>, i: usize, v: Operand) -> State<'a>
    decreases ps.len() - i,
{
    if i >= ps.len() || !lower::is_struct(st, v.ty) {
        st
    } else {
        match ps@[i as int] {
            Pattern::Var(n) => {
                let (x, st) = lower::extract(st, v, i as u32);
                let st = stmts::bind_value(st, n@, x);
                let st = bind_inner(st, ps, (i + 1) as usize, v);
                st
            },
            _ => {
                let st = bind_inner(st, ps, (i + 1) as usize, v);
                st
            },
        }
    }
}

/// Binds the variables of a tuple from `i` on, and those of tuples in it.
#[verifier::opaque]
pub open spec fn bind_outer<'a>(st: State<'a>, ps: &'a Vec<Pattern>, i: usize, v: Operand) -> State<'a>
    decreases ps.len() - i,
{
    if i >= ps.len() || !lower::is_struct(st, v.ty) {
        st
    } else {
        match ps@[i as int] {
            Pattern::Var(n) => {
                let (x, st) = lower::extract(st, v, i as u32);
                let st = stmts::bind_value(st, n@, x);
                let st = bind_outer(st, ps, (i + 1) as usize, v);
                st
            },
            Pattern::Tuple(inner) => {
                let (x, st) = lower::extract(st, v, i as u32);
                let st = bind_inner(st, &inner, 0, x);
                let st = bind_outer(st, ps, (i + 1) as usize, v);
                st
            },
            _ => {
                let st = bind_outer(st, ps, (i + 1) as usize, v);
                st
            },
        }
    }
}

/// Binds the variables of the first alternative from `i` on that is a variable or a tuple.
#[verifier::opaque]
pub open spec fn bind_other<'a>(st: State<'a>, ps: &'a Vec<Pattern>, i: usize, v: Operand) -> State<'a>
    decreases ps.len() - i,
{
    if i >= ps.len() {
        st
    } else {
        match ps@[i as int] {
            Pattern::Var(n) => {
                let st = stmts::bind_value(st, n@, v);
                st
            },
            Pattern::Tuple(inner) => {
                let st = bind_inner(st, &inner, 0, v);
                st
            },
            _ => {
                let st = bind_other(st, ps, (i + 1) as usize, v);
                st
            },
        }
    }
}

/// Binds the variables of the payload of an enum from `i` on; only the first stands for the payload itself.
#[verifier::opaque]
pub open spec fn bind_payload<'a>(st: State<'a>, ps: &'a Vec<Pattern>, i: usize, v: Operand) -> State<'a>
    decreases ps.len() - i,
{
    if i >= ps.len() {
        st
    } else {
        match ps@[i as int] {
            Pattern::Var(n) => {
                if i == 0 {
                    let (x, st) = lower::extract(st, v, 1);
                    let st = stmts::bind_value(st, n@, x);
                    let st = bind_payload(st, ps, (i + 1) as usize, v);
                    st
                } else {
                    let st = bind_payload(st, ps, (i + 1) as usize, v);
                    st
                }
            },
            Pattern::Tuple(inner) => {
                let (x, st) = lower::extract(st, v, 1);
                let st = bind_inner(st, &inner, 0, x);
                let st = bind_payload(st, ps, (i + 1) as usize, v);
                st
            },
            _ => {
                let st = bind_payload(st, ps, (i + 1) as usize, v);
                st
            },
        }
    }
}

/// Binds the variables of a pattern.
#[verifier::opaque]
pub open spec fn bind_pattern<'a>(st: State<'a>, p: &'a Pattern, v: Operand) -> State<'a>
{
    match *p {
        Pattern::Var(n) => {
            let st = stmts::bind_value(st, n@, v);
            st
        },
        Pattern::Tuple(ps) => {
            let st = bind_outer(st, &ps, 0, v);
            st
        },
        Pattern::Alternative(ps) => {
            let st = bind_other(st, &ps, 0, v);
            st
        },
        Pattern::Variant { variant: _, payload } => {
            match &payload {
                Some(ps) => {
                    let st = bind_payload(st, &ps, 0, v);
                    st
                },
                _ => {
                    st
                },
            }
        },
        _ => {
            st
        },
    }
}

/// Goes to an arm or past it, by its pattern and its guard.
#[verifier::opaque]
pub open spec fn choose_arm<'a>(nest: Nest<'a>, st: State<'a>, guard: &'a Option<Expr>, c: Operand, arm: usize, next: usize, i: usize) -> Result<((), State<'a>), Failure<'a>>
{
    match *guard {
        Some(e) => {
            let (g, st) = state::block(st, Label::MatchGuard(i));
            let st = state::finish(st, Op::Branch(c, g, next));
            let st = state::at(st, g);
            match (nest.expr)(st, &e) {
                Ok((v, st)) => {
                    match exprs::need_int(st, v, e.span) {
                        Ok((k, st)) => {
                            let st = state::finish(st, Op::Branch(k, arm, next));
                            Ok(((), st))
                        },
                        Err(e) => Err(e),
                    }
                },
                Err(e) => Err(e),
            }
        },
        _ => {
            let st = state::finish(st, Op::Branch(c, arm, next));
            Ok(((), st))
        },
    }
}

/// The value of an arm, where it has one.
#[verifier::opaque]
pub open spec fn arm_value<'a>(nest: Nest<'a>, st: State<'a>, b: &'a ArmBody) -> Result<(Option<Operand>, State<'a>), Failure<'a>>
{
    match *b {
        ArmBody::Value(e) => {
            match (nest.expr)(st, &e) {
                Ok((v, st)) => {
                    Ok((Some(v), st))
                },
                Err(e) => Err(e),
            }
        },
        ArmBody::Block(x) => {
            match (nest.run_block)(st, &x) {
                Ok((y, st)) => {
                    Ok((None, st))
                },
                Err(e) => Err(e),
            }
        },
    }
}

/// Stores the value of an arm where the values of arms are kept.
#[verifier::opaque]
pub open spec fn keep_value<'a>(st: State<'a>, v: Operand, res: Option<Operand>) -> (Operand, State<'a>)
{
    match res {
        Some(p) => {
            let st = if !state::done(st) {
                lower::store(st, p.val, v)
            } else {
                st
            };
            (p, st)
        },
        _ => {
            let (p, st) = lower::slot(st, v.ty);
            let st = if !state::done(st) {
                lower::store(st, p.val, v)
            } else {
                st
            };
            (p, st)
        },
    }
}

/// Keeps the value of an arm, where it has one.
#[verifier::opaque]
pub open spec fn keep<'a>(st: State<'a>, x: Option<Operand>, res: Option<Operand>) -> (Option<Operand>, State<'a>)
{
    match x {
        Some(v) => {
            let (p, st) = keep_value(st, v, res);
            (Some(p), st)
        },
        _ => {
            (res, st)
        },
    }
}

/// The block after an arm that does not take the value.
#[verifier::opaque]
pub open spec fn next_arm<'a>(st: State<'a>, i: usize, last: bool, merge: usize) -> (usize, State<'a>)
{
    if last {
        (merge, st)
    } else {
        let (b, st) = state::block(st, Label::MatchNext(i));
        (b, st)
    }
}

/// The arms from `i` on; where their values are kept.
#[verifier::opaque]
pub open spec fn match_arms<'a>(nest: Nest<'a>, st: State<'a>, e: &'a Expr, arms: &'a Vec<MatchArm>, i: usize, v: Operand, merge: usize, res: Option<Operand>) -> Result<(Option<Operand>, State<'a>), Failure<'a>>
    decreases arms.len() - i,
{
    if i >= arms.len() {
        Ok((res, st))
    } else {
        let a = &arms@[i as int];
        let (arm, st) = state::block(st, Label::MatchArm(i));
        let (next, st) = next_arm(st, i, (i + 1) as usize >= arms.len(), merge);
        match test_pattern(nest, st, &a.pattern, v, e) {
            Ok((c, st)) => {
                match choose_arm(nest, st, &a.guard, c, arm, next, i) {
                    Ok((_, st)) => {
                        let st = state::at(st, arm);
                        let st = state::open_scope(st);
                        let st = bind_pattern(st, &a.pattern, v);
                        match arm_value(nest, st, &a.body) {
                            Ok((x, st)) => {
                                let st = state::close_scope(st);
                                let (y, st) = keep(st, x, res);
                                let st = lower::jump(st, merge);
                                let st = state::at(st, next);
                                match_arms(nest, st, e, arms, (i + 1) as usize, v, merge, y)
                            },
                            Err(e) => Err(e),
                        }
                    },
                    Err(e) => Err(e),
                }
            },
            Err(e) => Err(e),
        }
    }
}

/// A `match`: its first arm that takes the value.
#[verifier::opaque]
pub open spec fn match_expr<'a>(nest: Nest<'a>, st: State<'a>, m: &'a MatchExpr) -> Result<(Operand, State<'a>), Failure<'a>>
{
    match (nest.expr)(st, &m.scrutinee) {
        Ok((v, st)) => {
            let (merge, st) = state::block(st, Label::MatchMerge);
            match match_arms(nest, st, &m.scrutinee, &m.arms, 0, v, merge, None) {
                Ok((p, st)) => {
                    let st = state::at(st, merge);
                    match p {
                        Some(x) => {
                            let (r, st) = lower::load(st, x);
                            Ok((r, st))
                        },
                        _ => {
                            Ok((Operand { val: Val::Int(0), ty: I64 }, st))
                        },
                    }
                },
                Err(e) => Err(e),
            }
        },
        Err(e) => Err(e),
    }
}

impl<'a> Codegen<'a> {
    /// Whether a pattern takes every value.
    pub fn is_open(&self, p: &'a Pattern) -> (out: bool)
        ensures
            out == is_open(p),
    {
        reveal(is_open);
        match p {
            Pattern::Wildcard => {
                return true;
            },
            Pattern::Var(_) => {
                return true;
            },
            _ => {},
        }
        false
    }

    /// Whether a pattern from `i` on takes every value.
    pub fn any_open(&self, ps: &'a Vec<Pattern>, i: usize) -> (out: bool)
        ensures
            out == any_open(ps, i),
        decreases ps.len() - i,
    {
        reveal(any_open);
        if i >= ps.len() {
            return false;
        }
        if self.is_open(&ps[i]) {
            return true;
        }
        self.any_open(ps, i + 1)
    }

    /// Whether an arm takes every value.
    pub fn takes_all(&self, p: &'a Pattern) -> (out: bool)
        ensures
            out == takes_all(p),
    {
        reveal(takes_all);
        match p {
            Pattern::Alternative(ps) => {
                return self.any_open(ps, 0);
            },
            _ => {},
        }
        self.is_open(p)
    }

    /// Whether a value is a constant.
    pub fn test_int(&mut self, v: Operand, k: Operand, span: Span) -> (out: Result<Operand, CodegenError>)
        ensures
            match out {
                Ok(made) => test_int(old(self)@, v, k, span) == Ok::<(Operand, State<'a>), Failure<'a>>((made, final(self)@)),
                Err(trouble) => test_int(old(self)@, v, k, span) == Err::<(Operand, State<'a>), Failure<'a>>(Failure { trouble: trouble@, after: final(self)@ }),
            },
    {
        reveal(test_int);
        let i = match self.need_int(v, span) {
            Ok(v) => v,
            Err(e) => {
                return Err(e);
            },
        };
        let r = self.compare(Pred::Same, i, k);
        Ok(r)
    }

    /// One for true, zero for false.
    pub fn bit(&self, b: bool) -> (out: i64)
        ensures
            out == bit(b),
    {
        reveal(bit);
        if b {
            return 1;
        }
        0
    }

    /// Whether a value is that of a literal; patterns of other kinds take it.
    pub fn test_plain(&mut self, p: &'a Pattern, v: Operand, span: Span) -> (out: Result<Operand, CodegenError>)
        ensures
            match out {
                Ok(made) => test_plain(old(self)@, p, v, span) == Ok::<(Operand, State<'a>), Failure<'a>>((made, final(self)@)),
                Err(trouble) => test_plain(old(self)@, p, v, span) == Err::<(Operand, State<'a>), Failure<'a>>(Failure { trouble: trouble@, after: final(self)@ }),
            },
    {
        reveal(test_plain);
        match p {
            Pattern::LitInt(n) => {
                let r = match self.test_int(v, Operand { val: Val::Int(*n), ty: I64 }, span) {
                    Ok(v) => v,
                    Err(e) => {
                        return Err(e);
                    },
                };
                return Ok(r);
            },
            Pattern::LitBool(b) => {
                let k: i64 = self.bit(*b);
                let r = match self.test_int(v, Operand { val: Val::Int(k), ty: I1 }, span) {
                    Ok(v) => v,
                    Err(e) => {
                        return Err(e);
                    },
                };
                return Ok(r);
            },
            _ => {},
        }
        Ok(Operand { val: Val::Int(1), ty: I1 })
    }

    /// Both of two conditions, the second alone where there is no first.
    pub fn both(&mut self, a: Option<Operand>, b: Operand) -> (out: Option<Operand>)
        ensures
            (out, final(self)@) == both(old(self)@, a, b),
    {
        reveal(both);
        match a {
            Some(x) => {
                let r = self.arith(Arith::And, x, b);
                return Some(r);
            },
            _ => {},
        }
        Some(b)
    }

    /// One of two conditions, the second alone where there is no first.
    pub fn either(&mut self, a: Option<Operand>, b: Operand) -> (out: Option<Operand>)
        ensures
            (out, final(self)@) == either(old(self)@, a, b),
    {
        reveal(either);
        match a {
            Some(x) => {
                let r = self.arith(Arith::Or, x, b);
                return Some(r);
            },
            _ => {},
        }
        Some(b)
    }

    /// A condition; a constant where there is none.
    pub fn or_bit(&self, a: Option<Operand>, k: i64) -> (out: Operand)
        ensures
            out == or_bit(a, k),
    {
        reveal(or_bit);
        match a {
            Some(x) => {
                return x;
            },
            _ => {},
        }
        Operand { val: Val::Int(k), ty: I1 }
    }

    /// Whether one of the integers from `i` on is a value; patterns of other kinds take it.
    pub fn test_ints(&mut self, ps: &'a Vec<Pattern>, i: usize, v: Operand, span: Span, acc: Option<Operand>) -> (out: Result<Operand, CodegenError>)
        ensures
            match out {
                Ok(made) => test_ints(old(self)@, ps, i, v, span, acc) == Ok::<(Operand, State<'a>), Failure<'a>>((made, final(self)@)),
                Err(trouble) => test_ints(old(self)@, ps, i, v, span, acc) == Err::<(Operand, State<'a>), Failure<'a>>(Failure { trouble: trouble@, after: final(self)@ }),
            },
        decreases ps.len() - i,
    {
        reveal(test_ints);
        if i >= ps.len() {
            return Ok(self.or_bit(acc, 0));
        }
        match &ps[i] {
            Pattern::LitInt(n) => {
                let x = match self.test_int(v, Operand { val: Val::Int(*n), ty: I64 }, span) {
                    Ok(v) => v,
                    Err(e) => {
                        return Err(e);
                    },
                };
                let a = self.either(acc, x);
                let r = match self.test_ints(ps, i + 1, v, span, a) {
                    Ok(v) => v,
                    Err(e) => {
                        return Err(e);
                    },
                };
                return Ok(r);
            },
            _ => {},
        }
        let a = self.either(acc, Operand { val: Val::Int(1), ty: I1 });
        let r = match self.test_ints(ps, i + 1, v, span, a) {
            Ok(v) => v,
            Err(e) => {
                return Err(e);
            },
        };
        Ok(r)
    }

    /// Whether a part of a tuple is taken; `deep` tells whether alternatives are tried.
    pub fn test_part(&mut self, p: &'a Pattern, v: Operand, deep: bool, span: Span) -> (out: Result<Operand, CodegenError>)
        ensures
            match out {
                Ok(made) => test_part(old(self)@, p, v, deep, span) == Ok::<(Operand, State<'a>), Failure<'a>>((made, final(self)@)),
                Err(trouble) => test_part(old(self)@, p, v, deep, span) == Err::<(Operand, State<'a>), Failure<'a>>(Failure { trouble: trouble@, after: final(self)@ }),
            },
    {
        reveal(test_part);
        match p {
            Pattern::Alternative(ps) => {
                if deep {
                    let r = match self.test_ints(ps, 0, v, span, None) {
                        Ok(v) => v,
                        Err(e) => {
                            return Err(e);
                        },
                    };
                    return Ok(r);
                }
                return Ok(Operand { val: Val::Int(1), ty: I1 });
            },
            _ => {},
        }
        let r = match self.test_plain(p, v, span) {
            Ok(v) => v,
            Err(e) => {
                return Err(e);
            },
        };
        Ok(r)
    }

    /// Whether the parts of a tuple from `i` on are taken.
    pub fn test_parts(&mut self, ps: &'a Vec<Pattern>, i: usize, v: Operand, deep: bool, span: Span, acc: Option<Operand>) -> (out: Result<Operand, CodegenError>)
        ensures
            match out {
                Ok(made) => test_parts(old(self)@, ps, i, v, deep, span, acc) == Ok::<(Operand, State<'a>), Failure<'a>>((made, final(self)@)),
                Err(trouble) => test_parts(old(self)@, ps, i, v, deep, span, acc) == Err::<(Operand, State<'a>), Failure<'a>>(Failure { trouble: trouble@, after: final(self)@ }),
            },
        decreases ps.len() - i,
    {
        reveal(test_parts);
        if i >= ps.len() {
            return Ok(self.or_bit(acc, 1));
        }
        let x = self.extract(v, i as u32);
        let y = match self.test_part(&ps[i], x, deep, span) {
            Ok(v) => v,
            Err(e) => {
                return Err(e);
            },
        };
        let a = self.both(acc, y);
        let r = match self.test_parts(ps, i + 1, v, deep, span, a) {
            Ok(v) => v,
            Err(e) => {
                return Err(e);
            },
        };
        Ok(r)
    }

    /// Whether a value of an enum is of a variant.
    pub fn test_tag(&mut self, depth: usize, variant: &str, v: Operand, e: &'a Expr) -> (out: Result<Operand, CodegenError>)
        ensures
            match out {
                Ok(made) => test_tag(nest::nest(depth as nat), old(self)@, variant@, v, e) == Ok::<(Operand, State<'a>), Failure<'a>>((made, final(self)@)),
                Err(trouble) => test_tag(nest::nest(depth as nat), old(self)@, variant@, v, e) == Err::<(Operand, State<'a>), Failure<'a>>(Failure { trouble: trouble@, after: final(self)@ }),
            },
        decreases depth, 4int, 0int,
    {
        reveal(test_tag);
        let g = match self.nested_infer(depth, e) {
            Ok(v) => v,
            Err(e) => {
                return Err(e);
            },
        };
        match g {
            Guess::Enum(l) => {
                match self.tag_entry(variant, l) {
                    Some(k) => {
                        let info = self.tag_info(k);
                        let x = self.extract(v, 0);
                        let r = self.compare(Pred::Same, x, Operand { val: Val::Int(info.tag as i64), ty: I32 });
                        return Ok(r);
                    },
                    _ => {},
                }
                let s_text = self.layout_name_of(l);
                let s = s_text.as_str();
                return Err(fault_naming_two("enum `", s, "` has no variant `", variant, "`", e.span));
            },
            _ => {},
        }
        Err(fault("enum pattern on non-enum", e.span))
    }

    /// Whether a value of an enum is of a variant, and its payload that of a literal.
    pub fn test_variant(&mut self, depth: usize, variant: &str, payload: &'a Option<Vec<Pattern>>, v: Operand, e: &'a Expr) -> (out: Result<Operand, CodegenError>)
        ensures
            match out {
                Ok(made) => test_variant(nest::nest(depth as nat), old(self)@, variant@, payload, v, e) == Ok::<(Operand, State<'a>), Failure<'a>>((made, final(self)@)),
                Err(trouble) => test_variant(nest::nest(depth as nat), old(self)@, variant@, payload, v, e) == Err::<(Operand, State<'a>), Failure<'a>>(Failure { trouble: trouble@, after: final(self)@ }),
            },
        decreases depth, 5int, 0int,
    {
        reveal(test_variant);
        let q = match self.test_tag(depth, variant, v, e) {
            Ok(v) => v,
            Err(e) => {
                return Err(e);
            },
        };
        match payload {
            Some(ps) => {
                let x = self.extract(v, 1);
                if ps.len() == 1 {
                    let y = match self.test_plain(&ps[0], x, e.span) {
                        Ok(v) => v,
                        Err(e) => {
                            return Err(e);
                        },
                    };
                    let r = self.arith(Arith::And, q, y);
                    return Ok(r);
                }
                let r = self.arith(Arith::And, q, Operand { val: Val::Int(1), ty: I1 });
                return Ok(r);
            },
            _ => {},
        }
        Ok(q)
    }

    /// The integer of a pattern.
    pub fn lit_int(&self, p: &'a Pattern) -> (out: Option<i64>)
        ensures
            out == lit_int(p),
    {
        reveal(lit_int);
        match p {
            Pattern::LitInt(n) => {
                return Some(*n);
            },
            _ => {},
        }
        None
    }

    /// As `test_variant`, in an alternative, where only integers of the payload count.
    pub fn test_other_variant(&mut self, depth: usize, variant: &str, payload: &'a Option<Vec<Pattern>>, v: Operand, e: &'a Expr) -> (out: Result<Operand, CodegenError>)
        ensures
            match out {
                Ok(made) => test_other_variant(nest::nest(depth as nat), old(self)@, variant@, payload, v, e) == Ok::<(Operand, State<'a>), Failure<'a>>((made, final(self)@)),
                Err(trouble) => test_other_variant(nest::nest(depth as nat), old(self)@, variant@, payload, v, e) == Err::<(Operand, State<'a>), Failure<'a>>(Failure { trouble: trouble@, after: final(self)@ }),
            },
        decreases depth, 5int, 0int,
    {
        reveal(test_other_variant);
        let q = match self.test_tag(depth, variant, v, e) {
            Ok(v) => v,
            Err(e) => {
                return Err(e);
            },
        };
        match payload {
            Some(ps) => {
                if ps.len() == 1 {
                    let x = self.extract(v, 1);
                    match self.lit_int(&ps[0]) {
                        Some(n) => {
                            let y = match self.test_int(x, Operand { val: Val::Int(n), ty: I64 }, e.span) {
                                Ok(v) => v,
                                Err(e) => {
                                    return Err(e);
                                },
                            };
                            let r = self.arith(Arith::And, q, y);
                            return Ok(r);
                        },
                        _ => {},
                    }
                    return Ok(q);
                }
                return Ok(q);
            },
            _ => {},
        }
        Ok(q)
    }

    /// Whether an alternative takes a value.
    pub fn test_other(&mut self, depth: usize, p: &'a Pattern, v: Operand, e: &'a Expr) -> (out: Result<Operand, CodegenError>)
        ensures
            match out {
                Ok(made) => test_other(nest::nest(depth as nat), old(self)@, p, v, e) == Ok::<(Operand, State<'a>), Failure<'a>>((made, final(self)@)),
                Err(trouble) => test_other(nest::nest(depth as nat), old(self)@, p, v, e) == Err::<(Operand, State<'a>), Failure<'a>>(Failure { trouble: trouble@, after: final(self)@ }),
            },
        decreases depth, 7int, 0int,
    {
        reveal(test_other);
        match p {
            Pattern::Variant { variant, payload } => {
                let r = match self.test_other_variant(depth, variant.as_str(), payload, v, e) {
                    Ok(v) => v,
                    Err(e) => {
                        return Err(e);
                    },
                };
                return Ok(r);
            },
            Pattern::Tuple(ps) => {
                let g = match self.nested_infer(depth, e) {
                    Ok(v) => Some(v),
                    Err(_) => None,
                };
                match g {
                    Some(Guess::Tuple) => {
                        let r = match self.test_parts(ps, 0, v, false, e.span, None) {
                            Ok(v) => v,
                            Err(e) => {
                                return Err(e);
                            },
                        };
                        return Ok(r);
                    },
                    _ => {},
                }
                return Ok(Operand { val: Val::Int(0), ty: I1 });
            },
            _ => {},
        }
        let r = match self.test_plain(p, v, e.span) {
            Ok(v) => v,
            Err(e) => {
                return Err(e);
            },
        };
        Ok(r)
    }

    /// Whether an alternative from `i` on takes a value.
    pub fn test_others(&mut self, depth: usize, ps: &'a Vec<Pattern>, i: usize, v: Operand, e: &'a Expr, acc: Option<Operand>) -> (out: Result<Operand, CodegenError>)
        ensures
            match out {
                Ok(made) => test_others(nest::nest(depth as nat), old(self)@, ps, i, v, e, acc) == Ok::<(Operand, State<'a>), Failure<'a>>((made, final(self)@)),
                Err(trouble) => test_others(nest::nest(depth as nat), old(self)@, ps, i, v, e, acc) == Err::<(Operand, State<'a>), Failure<'a>>(Failure { trouble: trouble@, after: final(self)@ }),
            },
        decreases depth, 8int, ps.len() - i,
    {
        reveal(test_others);
        if i >= ps.len() {
            return Ok(self.or_bit(acc, 0));
        }
        let x = match self.test_other(depth, &ps[i], v, e) {
            Ok(v) => v,
            Err(e) => {
                return Err(e);
            },
        };
        let a = self.either(acc, x);
        let r = match self.test_others(depth, ps, i + 1, v, e, a) {
            Ok(v) => v,
            Err(e) => {
                return Err(e);
            },
        };
        Ok(r)
    }

    /// Whether an arm takes the value of an expression.
    pub fn test_pattern(&mut self, depth: usize, p: &'a Pattern, v: Operand, e: &'a Expr) -> (out: Result<Operand, CodegenError>)
        ensures
            match out {
                Ok(made) => test_pattern(nest::nest(depth as nat), old(self)@, p, v, e) == Ok::<(Operand, State<'a>), Failure<'a>>((made, final(self)@)),
                Err(trouble) => test_pattern(nest::nest(depth as nat), old(self)@, p, v, e) == Err::<(Operand, State<'a>), Failure<'a>>(Failure { trouble: trouble@, after: final(self)@ }),
            },
        decreases depth, 9int, 0int,
    {
        reveal(test_pattern);
        if self.takes_all(p) {
            return Ok(Operand { val: Val::Int(1), ty: I1 });
        }
        match p {
            Pattern::Alternative(ps) => {
                let r = match self.test_others(depth, ps, 0, v, e, None) {
                    Ok(v) => v,
                    Err(e) => {
                        return Err(e);
                    },
                };
                return Ok(r);
            },
            Pattern::Tuple(ps) => {
                if self.is_struct(v.ty) {
                    let r = match self.test_parts(ps, 0, v, true, e.span, None) {
                        Ok(v) => v,
                        Err(e) => {
                            return Err(e);
                        },
                    };
                    return Ok(r);
                }
                return Err(fault("tuple pattern on non-tuple", e.span));
            },
            Pattern::Variant { variant, payload } => {
                let r = match self.test_variant(depth, variant.as_str(), payload, v, e) {
                    Ok(v) => v,
                    Err(e) => {
                        return Err(e);
                    },
                };
                return Ok(r);
            },
            _ => {},
        }
        let r = match self.test_plain(p, v, e.span) {
            Ok(v) => v,
            Err(e) => {
                return Err(e);
            },
        };
        Ok(r)
    }

    /// Binds the variables of a tuple inside another from `i` on.
    pub fn bind_inner(&mut self, ps: &'a Vec<Pattern>, i: usize, v: Operand)
        ensures
            final(self)@ == bind_inner(old(self)@, ps, i, v),
        decreases ps.len() - i,
    {
        reveal(bind_inner);
        if i >= ps.len() || !self.is_struct(v.ty) {
            return;
        }
        match &ps[i] {
            Pattern::Var(n) => {
                let x = self.extract(v, i as u32);
                self.bind_value(n.as_str(), x);
                self.bind_inner(ps, i + 1, v);
                return;
            },
            _ => {},
        }
        self.bind_inner(ps, i + 1, v);
    }

    /// Binds the variables of a tuple from `i` on, and those of tuples in it.
    pub fn bind_outer(&mut self, ps: &'a Vec<Pattern>, i: usize, v: Operand)
        ensures
            final(self)@ == bind_outer(old(self)@, ps, i, v),
        decreases ps.len() - i,
    {
        reveal(bind_outer);
        if i >= ps.len() || !self.is_struct(v.ty) {
            return;
        }
        match &ps[i] {
            Pattern::Var(n) => {
                let x = self.extract(v, i as u32);
                self.bind_value(n.as_str(), x);
                self.bind_outer(ps, i + 1, v);
                return;
            },
            Pattern::Tuple(inner) => {
                let x = self.extract(v, i as u32);
                self.bind_inner(inner, 0, x);
                self.bind_outer(ps, i + 1, v);
                return;
            },
            _ => {},
        }
        self.bind_outer(ps, i + 1, v);
    }

    /// Binds the variables of the first alternative from `i` on that is a variable or a tuple.
    pub fn bind_other(&mut self, ps: &'a Vec<Pattern>, i: usize, v: Operand)
        ensures
            final(self)@ == bind_other(old(self)@, ps, i, v),
        decreases ps.len() - i,
    {
        reveal(bind_other);
        if i >= ps.len() {
            return;
        }
        match &ps[i] {
            Pattern::Var(n) => {
                self.bind_value(n.as_str(), v);
                return;
            },
            Pattern::Tuple(inner) => {
                self.bind_inner(inner, 0, v);
                return;
            },
            _ => {},
        }
        self.bind_other(ps, i + 1, v);
    }

    /// Binds the variables of the payload of an enum from `i` on; only the first stands for the payload itself.
    pub fn bind_payload(&mut self, ps: &'a Vec<Pattern>, i: usize, v: Operand)
        ensures
            final(self)@ == bind_payload(old(self)@, ps, i, v),
        decreases ps.len() - i,
    {
        reveal(bind_payload);
        if i >= ps.len() {
            return;
        }
        match &ps[i] {
            Pattern::Var(n) => {
                if i == 0 {
                    let x = self.extract(v, 1);
                    self.bind_value(n.as_str(), x);
                    self.bind_payload(ps, i + 1, v);
                    return;
                }
                self.bind_payload(ps, i + 1, v);
                return;
            },
            Pattern::Tuple(inner) => {
                let x = self.extract(v, 1);
                self.bind_inner(inner, 0, x);
                self.bind_payload(ps, i + 1, v);
                return;
            },
            _ => {},
        }
        self.bind_payload(ps, i + 1, v);
    }

    /// Binds the variables of a pattern.
    pub fn bind_pattern(&mut self, p: &'a Pattern, v: Operand)
        ensures
            final(self)@ == bind_pattern(old(self)@, p, v),
    {
        reveal(bind_pattern);
        match p {
            Pattern::Var(n) => {
                self.bind_value(n.as_str(), v);
                return;
            },
            Pattern::Tuple(ps) => {
                self.bind_outer(ps, 0, v);
                return;
            },
            Pattern::Alternative(ps) => {
                self.bind_other(ps, 0, v);
                return;
            },
            Pattern::Variant { variant: _, payload } => {
                match payload {
                    Some(ps) => {
                        self.bind_payload(ps, 0, v);
                        return;
                    },
                    _ => {},
                }
                return;
            },
            _ => {},
        }
        return;
    }

    /// Goes to an arm or past it, by its pattern and its guard.
    pub fn choose_arm(&mut self, depth: usize, guard: &'a Option<Expr>, c: Operand, arm: usize, next: usize, i: usize) -> (out: Result<(), CodegenError>)
        ensures
            match out {
                Ok(made) => choose_arm(nest::nest(depth as nat), old(self)@, guard, c, arm, next, i) == Ok::<((), State<'a>), Failure<'a>>((made, final(self)@)),
                Err(trouble) => choose_arm(nest::nest(depth as nat), old(self)@, guard, c, arm, next, i) == Err::<((), State<'a>), Failure<'a>>(Failure { trouble: trouble@, after: final(self)@ }),
            },
        decreases depth, 3int, 0int,
    {
        reveal(choose_arm);
        match guard {
            Some(e) => {
                let g = self.block(Label::MatchGuard(i));
                self.finish(Op::Branch(c, g, next));
                self.at(g);
                let v = match self.nested_expr(depth, e) {
                    Ok(v) => v,
                    Err(e) => {
                        return Err(e);
                    },
                };
                let k = match self.need_int(v, e.span) {
                    Ok(v) => v,
                    Err(e) => {
                        return Err(e);
                    },
                };
                self.finish(Op::Branch(k, arm, next));
                return Ok(());
            },
            _ => {},
        }
        self.finish(Op::Branch(c, arm, next));
        Ok(())
    }

    /// The value of an arm, where it has one.
    pub fn arm_value(&mut self, depth: usize, b: &'a ArmBody) -> (out: Result<Option<Operand>, CodegenError>)
        ensures
            match out {
                Ok(made) => arm_value(nest::nest(depth as nat), old(self)@, b) == Ok::<(Option<Operand>, State<'a>), Failure<'a>>((made, final(self)@)),
                Err(trouble) => arm_value(nest::nest(depth as nat), old(self)@, b) == Err::<(Option<Operand>, State<'a>), Failure<'a>>(Failure { trouble: trouble@, after: final(self)@ }),
            },
        decreases depth, 1int, 0int,
    {
        reveal(arm_value);
        match b {
            ArmBody::Value(e) => {
                let v = match self.nested_expr(depth, e) {
                    Ok(v) => v,
                    Err(e) => {
                        return Err(e);
                    },
                };
                return Ok(Some(v));
            },
            ArmBody::Block(x) => {
                let y = match self.nested_run_block(depth, x) {
                    Ok(v) => v,
                    Err(e) => {
                        return Err(e);
                    },
                };
                return Ok(None);
            },
        }
    }

    /// Stores the value of an arm where the values of arms are kept.
    pub fn keep_value(&mut self, v: Operand, res: Option<Operand>) -> (out: Operand)
        ensures
            (out, final(self)@) == keep_value(old(self)@, v, res),
    {
        reveal(keep_value);
        match res {
            Some(p) => {
                if !self.done() {
                    self.store(p.val, v);
                }
                return p;
            },
            _ => {},
        }
        let p = self.slot(v.ty);
        if !self.done() {
            self.store(p.val, v);
        }
        p
    }

    /// Keeps the value of an arm, where it has one.
    pub fn keep(&mut self, x: Option<Operand>, res: Option<Operand>) -> (out: Option<Operand>)
        ensures
            (out, final(self)@) == keep(old(self)@, x, res),
    {
        reveal(keep);
        match x {
            Some(v) => {
                let p = self.keep_value(v, res);
                return Some(p);
            },
            _ => {},
        }
        res
    }

    /// The block after an arm that does not take the value.
    pub fn next_arm(&mut self, i: usize, last: bool, merge: usize) -> (out: usize)
        ensures
            (out, final(self)@) == next_arm(old(self)@, i, last, merge),
    {
        reveal(next_arm);
        if last {
            return merge;
        }
        let b = self.block(Label::MatchNext(i));
        b
    }

    /// The arms from `i` on; where their values are kept.
    pub fn match_arms(&mut self, depth: usize, e: &'a Expr, arms: &'a Vec<MatchArm>, i: usize, v: Operand, merge: usize, res: Option<Operand>) -> (out: Result<Option<Operand>, CodegenError>)
        ensures
            match out {
                Ok(made) => match_arms(nest::nest(depth as nat), old(self)@, e, arms, i, v, merge, res) == Ok::<(Option<Operand>, State<'a>), Failure<'a>>((made, final(self)@)),
                Err(trouble) => match_arms(nest::nest(depth as nat), old(self)@, e, arms, i, v, merge, res) == Err::<(Option<Operand>, State<'a>), Failure<'a>>(Failure { trouble: trouble@, after: final(self)@ }),
            },
        decreases depth, 10int, arms.len() - i,
    {
        reveal(match_arms);
        if i >= arms.len() {
            return Ok(res);
        }
        let a = &arms[i];
        let arm = self.block(Label::MatchArm(i));
        let next = self.next_arm(i, i + 1 >= arms.len(), merge);
        let c = match self.test_pattern(depth, &a.pattern, v, e) {
            Ok(v) => v,
            Err(e) => {
                return Err(e);
            },
        };
        if let Err(e) = self.choose_arm(depth, &a.guard, c, arm, next, i) {
            return Err(e);
        }
        self.at(arm);
        self.open_scope();
        self.bind_pattern(&a.pattern, v);
        let x = match self.arm_value(depth, &a.body) {
            Ok(v) => v,
            Err(e) => {
                return Err(e);
            },
        };
        self.close_scope();
        let y = self.keep(x, res);
        self.jump(merge);
        self.at(next);
        let r = match self.match_arms(depth, e, arms, i + 1, v, merge, y) {
            Ok(v) => v,
            Err(e) => {
                return Err(e);
            },
        };
        Ok(r)
    }

    /// A `match`: its first arm that takes the value.
    pub fn match_expr(&mut self, depth: usize, m: &'a MatchExpr) -> (out: Result<Operand, CodegenError>)
        ensures
            match out {
                Ok(made) => match_expr(nest::nest(depth as nat), old(self)@, m) == Ok::<(Operand, State<'a>), Failure<'a>>((made, final(self)@)),
                Err(trouble) => match_expr(nest::nest(depth as nat), old(self)@, m) == Err::<(Operand, State<'a>), Failure<'a>>(Failure { trouble: trouble@, after: final(self)@ }),
            },
        decreases depth, 11int, 0int,
    {
        reveal(match_expr);
        let v = match self.nested_expr(depth, &m.scrutinee) {
            Ok(v) => v,
            Err(e) => {
                return Err(e);
            },
        };
        let merge = self.block(Label::MatchMerge);
        let p = match self.match_arms(depth, &m.scrutinee, &m.arms, 0, v, merge, None) {
            Ok(v) => v,
            Err(e) => {
                return Err(e);
            },
        };
        self.at(merge);
        match p {
            Some(x) => {
                let r = self.load(x);
                return Ok(r);
            },
            _ => {},
        }
        Ok(Operand { val: Val::Int(0), ty: I64 })
    }
}

} // verus!
