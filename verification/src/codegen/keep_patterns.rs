//! What the functions of `patterns` keep.
use vstd::prelude::*;
use crate::ast::{
    Expr, MatchArm, MatchExpr, ArmBody, Pattern,
};
use crate::codegen::ir::{
    Label, Operand, Val, I1, I64,
};
use crate::codegen::keep;
use crate::codegen::keep_exprs;
use crate::codegen::keep_lower;
use crate::codegen::keep_state;
use crate::codegen::keep_stmts;
use crate::codegen::lower;
use crate::codegen::patterns;
use crate::codegen::state;
use crate::codegen::stmts;
use crate::codegen::nest::Nest;
use crate::codegen::state::State;
use crate::token::Span;

verus! {

/// `test_int` keeps what was there.
pub broadcast proof fn keeps_test_int<'a>(base: State<'a>, st: State<'a>, v: Operand, k: Operand, span: Span)
    requires
        #[trigger] keep::kept(base, st),
    ensures
        match #[trigger] patterns::test_int(st, v, k, span) {
            Ok((_, after)) => keep::kept(base, after),
            Err(_) => true,
        },
{
    broadcast use {keep_exprs::keeps_need_int, keep_lower::keeps_compare};

    reveal(patterns::test_int);
}

/// `test_plain` keeps what was there.
pub broadcast proof fn keeps_test_plain<'a>(base: State<'a>, st: State<'a>, p: &'a Pattern, v: Operand, span: Span)
    requires
        #[trigger] keep::kept(base, st),
    ensures
        match #[trigger] patterns::test_plain(st, p, v, span) {
            Ok((_, after)) => keep::kept(base, after),
            Err(_) => true,
        },
{
    broadcast use keeps_test_int;

    reveal(patterns::test_plain);
}

/// `both` keeps what was there.
pub broadcast proof fn keeps_both<'a>(base: State<'a>, st: State<'a>, a: Option<Operand>, b: Operand)
    requires
        #[trigger] keep::kept(base, st),
    ensures
        keep::kept(base, (#[trigger] patterns::both(st, a, b)).1),
{
    broadcast use keep_lower::keeps_arith;

    reveal(patterns::both);
}

/// `either` keeps what was there.
pub broadcast proof fn keeps_either<'a>(base: State<'a>, st: State<'a>, a: Option<Operand>, b: Operand)
    requires
        #[trigger] keep::kept(base, st),
    ensures
        keep::kept(base, (#[trigger] patterns::either(st, a, b)).1),
{
    broadcast use keep_lower::keeps_arith;

    reveal(patterns::either);
}

/// `test_ints` keeps what was there.
pub broadcast proof fn keeps_test_ints<'a>(base: State<'a>, st: State<'a>, ps: &'a Vec<Pattern>, i: usize, v: Operand, span: Span, acc: Option<Operand>)
    requires
        #[trigger] keep::kept(base, st),
    ensures
        match #[trigger] patterns::test_ints(st, ps, i, v, span, acc) {
            Ok((_, after)) => keep::kept(base, after),
            Err(_) => true,
        },
    decreases ps.len() - i,
{
    broadcast use {keeps_either, keeps_test_int};

    reveal(patterns::test_ints);
    if i >= ps.len() {
    } else {
        match ps@[i as int] {
            Pattern::LitInt(n) => {
                match patterns::test_int(st, v, Operand { val: Val::Int(n), ty: I64 }, span) {
                    Ok((x, st)) => {
                        let (a, st) = patterns::either(st, acc, x);
                        keeps_test_ints(base, st, ps, (i + 1) as usize, v, span, a);
                        match patterns::test_ints(st, ps, (i + 1) as usize, v, span, a) {
                            Ok((r, st)) => {
                            },
                            Err(_) => {},
                        }
                    },
                    Err(_) => {},
                }
            },
            _ => {
                let (a, st) = patterns::either(st, acc, Operand { val: Val::Int(1), ty: I1 });
                keeps_test_ints(base, st, ps, (i + 1) as usize, v, span, a);
                match patterns::test_ints(st, ps, (i + 1) as usize, v, span, a) {
                    Ok((r, st)) => {
                    },
                    Err(_) => {},
                }
            },
        }
    }
}

/// `test_part` keeps what was there.
pub broadcast proof fn keeps_test_part<'a>(base: State<'a>, st: State<'a>, p: &'a Pattern, v: Operand, deep: bool, span: Span)
    requires
        #[trigger] keep::kept(base, st),
    ensures
        match #[trigger] patterns::test_part(st, p, v, deep, span) {
            Ok((_, after)) => keep::kept(base, after),
            Err(_) => true,
        },
{
    broadcast use {keeps_test_ints, keeps_test_plain};

    reveal(patterns::test_part);
}

/// `test_parts` keeps what was there.
pub broadcast proof fn keeps_test_parts<'a>(base: State<'a>, st: State<'a>, ps: &'a Vec<Pattern>, i: usize, v: Operand, deep: bool, span: Span, acc: Option<Operand>)
    requires
        #[trigger] keep::kept(base, st),
    ensures
        match #[trigger] patterns::test_parts(st, ps, i, v, deep, span, acc) {
            Ok((_, after)) => keep::kept(base, after),
            Err(_) => true,
        },
    decreases ps.len() - i,
{
    broadcast use {keep_lower::keeps_extract, keeps_both, keeps_test_part};

    reveal(patterns::test_parts);
    if i >= ps.len() {
    } else {
        let (x, st) = lower::extract(st, v, i as u32);
        match patterns::test_part(st, &ps@[i as int], x, deep, span) {
            Ok((y, st)) => {
                let (a, st) = patterns::both(st, acc, y);
                keeps_test_parts(base, st, ps, (i + 1) as usize, v, deep, span, a);
                match patterns::test_parts(st, ps, (i + 1) as usize, v, deep, span, a) {
                    Ok((r, st)) => {
                    },
                    Err(_) => {},
                }
            },
            Err(_) => {},
        }
    }
}

/// `test_tag` keeps what was there.
pub broadcast proof fn keeps_test_tag<'a>(base: State<'a>, nest: Nest<'a>, st: State<'a>, variant: Seq<char>, v: Operand, e: &'a Expr)
    requires
        #[trigger] keep::kept(base, st),
        keep::nest_keeps(nest),
    ensures
        match #[trigger] patterns::test_tag(nest, st, variant, v, e) {
            Ok((_, after)) => keep::kept(base, after),
            Err(_) => true,
        },
{
    broadcast use {keep_lower::keeps_compare, keep_lower::keeps_extract};

    reveal(patterns::test_tag);
}

/// `test_variant` keeps what was there.
pub broadcast proof fn keeps_test_variant<'a>(base: State<'a>, nest: Nest<'a>, st: State<'a>, variant: Seq<char>, payload: &'a Option<Vec<Pattern>>, v: Operand, e: &'a Expr)
    requires
        #[trigger] keep::kept(base, st),
        keep::nest_keeps(nest),
    ensures
        match #[trigger] patterns::test_variant(nest, st, variant, payload, v, e) {
            Ok((_, after)) => keep::kept(base, after),
            Err(_) => true,
        },
{
    broadcast use {keep_lower::keeps_arith, keep_lower::keeps_extract, keeps_test_plain, keeps_test_tag};

    reveal(patterns::test_variant);
}

/// `test_other_variant` keeps what was there.
pub broadcast proof fn keeps_test_other_variant<'a>(base: State<'a>, nest: Nest<'a>, st: State<'a>, variant: Seq<char>, payload: &'a Option<Vec<Pattern>>, v: Operand, e: &'a Expr)
    requires
        #[trigger] keep::kept(base, st),
        keep::nest_keeps(nest),
    ensures
        match #[trigger] patterns::test_other_variant(nest, st, variant, payload, v, e) {
            Ok((_, after)) => keep::kept(base, after),
            Err(_) => true,
        },
{
    broadcast use {keep_lower::keeps_arith, keep_lower::keeps_extract, keeps_test_int, keeps_test_tag};

    reveal(patterns::test_other_variant);
}

/// `test_other` keeps what was there.
pub broadcast proof fn keeps_test_other<'a>(base: State<'a>, nest: Nest<'a>, st: State<'a>, p: &'a Pattern, v: Operand, e: &'a Expr)
    requires
        #[trigger] keep::kept(base, st),
        keep::nest_keeps(nest),
    ensures
        match #[trigger] patterns::test_other(nest, st, p, v, e) {
            Ok((_, after)) => keep::kept(base, after),
            Err(_) => true,
        },
{
    broadcast use {keeps_test_other_variant, keeps_test_parts, keeps_test_plain};

    reveal(patterns::test_other);
}

/// `test_others` keeps what was there.
pub broadcast proof fn keeps_test_others<'a>(base: State<'a>, nest: Nest<'a>, st: State<'a>, ps: &'a Vec<Pattern>, i: usize, v: Operand, e: &'a Expr, acc: Option<Operand>)
    requires
        #[trigger] keep::kept(base, st),
        keep::nest_keeps(nest),
    ensures
        match #[trigger] patterns::test_others(nest, st, ps, i, v, e, acc) {
            Ok((_, after)) => keep::kept(base, after),
            Err(_) => true,
        },
    decreases ps.len() - i,
{
    broadcast use {keeps_either, keeps_test_other};

    reveal(patterns::test_others);
    if i >= ps.len() {
    } else {
        match patterns::test_other(nest, st, &ps@[i as int], v, e) {
            Ok((x, st)) => {
                let (a, st) = patterns::either(st, acc, x);
                keeps_test_others(base, nest, st, ps, (i + 1) as usize, v, e, a);
                match patterns::test_others(nest, st, ps, (i + 1) as usize, v, e, a) {
                    Ok((r, st)) => {
                    },
                    Err(_) => {},
                }
            },
            Err(_) => {},
        }
    }
}

/// `test_pattern` keeps what was there.
pub broadcast proof fn keeps_test_pattern<'a>(base: State<'a>, nest: Nest<'a>, st: State<'a>, p: &'a Pattern, v: Operand, e: &'a Expr)
    requires
        #[trigger] keep::kept(base, st),
        keep::nest_keeps(nest),
    ensures
        match #[trigger] patterns::test_pattern(nest, st, p, v, e) {
            Ok((_, after)) => keep::kept(base, after),
            Err(_) => true,
        },
{
    broadcast use {keeps_test_others, keeps_test_parts, keeps_test_plain, keeps_test_variant};

    reveal(patterns::test_pattern);
}

/// `bind_inner` keeps what was there.
pub broadcast proof fn keeps_bind_inner<'a>(base: State<'a>, st: State<'a>, ps: &'a Vec<Pattern>, i: usize, v: Operand)
    requires
        #[trigger] keep::kept(base, st),
    ensures
        keep::kept(base, #[trigger] patterns::bind_inner(st, ps, i, v)),
    decreases ps.len() - i,
{
    broadcast use {keep_lower::keeps_extract, keep_stmts::keeps_bind_value};

    reveal(patterns::bind_inner);
    if i >= ps.len() || !lower::is_struct(st, v.ty) {
    } else {
        match ps@[i as int] {
            Pattern::Var(n) => {
                let (x, st) = lower::extract(st, v, i as u32);
                let st = stmts::bind_value(st, n@, x);
                keeps_bind_inner(base, st, ps, (i + 1) as usize, v);
                let st = patterns::bind_inner(st, ps, (i + 1) as usize, v);
            },
            _ => {
                keeps_bind_inner(base, st, ps, (i + 1) as usize, v);
                let st = patterns::bind_inner(st, ps, (i + 1) as usize, v);
            },
        }
    }
}

/// `bind_outer` keeps what was there.
pub broadcast proof fn keeps_bind_outer<'a>(base: State<'a>, st: State<'a>, ps: &'a Vec<Pattern>, i: usize, v: Operand)
    requires
        #[trigger] keep::kept(base, st),
    ensures
        keep::kept(base, #[trigger] patterns::bind_outer(st, ps, i, v)),
    decreases ps.len() - i,
{
    broadcast use {keep_lower::keeps_extract, keeps_bind_inner, keep_stmts::keeps_bind_value};

    reveal(patterns::bind_outer);
    if i >= ps.len() || !lower::is_struct(st, v.ty) {
    } else {
        match ps@[i as int] {
            Pattern::Var(n) => {
                let (x, st) = lower::extract(st, v, i as u32);
                let st = stmts::bind_value(st, n@, x);
                keeps_bind_outer(base, st, ps, (i + 1) as usize, v);
                let st = patterns::bind_outer(st, ps, (i + 1) as usize, v);
            },
            Pattern::Tuple(inner) => {
                let (x, st) = lower::extract(st, v, i as u32);
                let st = patterns::bind_inner(st, &inner, 0, x);
                keeps_bind_outer(base, st, ps, (i + 1) as usize, v);
                let st = patterns::bind_outer(st, ps, (i + 1) as usize, v);
            },
            _ => {
                keeps_bind_outer(base, st, ps, (i + 1) as usize, v);
                let st = patterns::bind_outer(st, ps, (i + 1) as usize, v);
            },
        }
    }
}

/// `bind_other` keeps what was there.
pub broadcast proof fn keeps_bind_other<'a>(base: State<'a>, st: State<'a>, ps: &'a Vec<Pattern>, i: usize, v: Operand)
    requires
        #[trigger] keep::kept(base, st),
    ensures
        keep::kept(base, #[trigger] patterns::bind_other(st, ps, i, v)),
    decreases ps.len() - i,
{
    broadcast use {keeps_bind_inner, keep_stmts::keeps_bind_value};

    reveal(patterns::bind_other);
    if i >= ps.len() {
    } else {
        match ps@[i as int] {
            Pattern::Var(n) => {
                let st = stmts::bind_value(st, n@, v);
            },
            Pattern::Tuple(inner) => {
                let st = patterns::bind_inner(st, &inner, 0, v);
            },
            _ => {
                keeps_bind_other(base, st, ps, (i + 1) as usize, v);
                let st = patterns::bind_other(st, ps, (i + 1) as usize, v);
            },
        }
    }
}

/// `bind_payload` keeps what was there.
pub broadcast proof fn keeps_bind_payload<'a>(base: State<'a>, st: State<'a>, ps: &'a Vec<Pattern>, i: usize, v: Operand)
    requires
        #[trigger] keep::kept(base, st),
    ensures
        keep::kept(base, #[trigger] patterns::bind_payload(st, ps, i, v)),
    decreases ps.len() - i,
{
    broadcast use {keep_lower::keeps_extract, keeps_bind_inner, keep_stmts::keeps_bind_value};

    reveal(patterns::bind_payload);
    if i >= ps.len() {
    } else {
        match ps@[i as int] {
            Pattern::Var(n) => {
                if i == 0 {
                    let (x, st) = lower::extract(st, v, 1);
                    let st = stmts::bind_value(st, n@, x);
                    keeps_bind_payload(base, st, ps, (i + 1) as usize, v);
                    let st = patterns::bind_payload(st, ps, (i + 1) as usize, v);
                } else {
                    keeps_bind_payload(base, st, ps, (i + 1) as usize, v);
                    let st = patterns::bind_payload(st, ps, (i + 1) as usize, v);
                }
            },
            Pattern::Tuple(inner) => {
                let (x, st) = lower::extract(st, v, 1);
                let st = patterns::bind_inner(st, &inner, 0, x);
                keeps_bind_payload(base, st, ps, (i + 1) as usize, v);
                let st = patterns::bind_payload(st, ps, (i + 1) as usize, v);
            },
            _ => {
                keeps_bind_payload(base, st, ps, (i + 1) as usize, v);
                let st = patterns::bind_payload(st, ps, (i + 1) as usize, v);
            },
        }
    }
}

/// `bind_pattern` keeps what was there.
pub broadcast proof fn keeps_bind_pattern<'a>(base: State<'a>, st: State<'a>, p: &'a Pattern, v: Operand)
    requires
        #[trigger] keep::kept(base, st),
    ensures
        keep::kept(base, #[trigger] patterns::bind_pattern(st, p, v)),
{
    broadcast use {keeps_bind_other, keeps_bind_outer, keeps_bind_payload, keep_stmts::keeps_bind_value};

    reveal(patterns::bind_pattern);
}

/// `choose_arm` keeps what was there.
pub broadcast proof fn keeps_choose_arm<'a>(base: State<'a>, nest: Nest<'a>, st: State<'a>, guard: &'a Option<Expr>, c: Operand, arm: usize, next: usize, i: usize)
    requires
        #[trigger] keep::kept(base, st),
        keep::nest_keeps(nest),
    ensures
        match #[trigger] patterns::choose_arm(nest, st, guard, c, arm, next, i) {
            Ok((_, after)) => keep::kept(base, after),
            Err(_) => true,
        },
{
    broadcast use {keep_exprs::keeps_need_int, keep_state::keeps_at, keep_state::keeps_block, keep_state::keeps_finish};

    reveal(patterns::choose_arm);
}

/// `arm_value` keeps what was there.
pub broadcast proof fn keeps_arm_value<'a>(base: State<'a>, nest: Nest<'a>, st: State<'a>, b: &'a ArmBody)
    requires
        #[trigger] keep::kept(base, st),
        keep::nest_keeps(nest),
    ensures
        match #[trigger] patterns::arm_value(nest, st, b) {
            Ok((_, after)) => keep::kept(base, after),
            Err(_) => true,
        },
{

    reveal(patterns::arm_value);
}

/// `keep_value` keeps what was there.
pub broadcast proof fn keeps_keep_value<'a>(base: State<'a>, st: State<'a>, v: Operand, res: Option<Operand>)
    requires
        #[trigger] keep::kept(base, st),
    ensures
        keep::kept(base, (#[trigger] patterns::keep_value(st, v, res)).1),
{
    broadcast use {keep_lower::keeps_slot, keep_lower::keeps_store};

    reveal(patterns::keep_value);
}

/// `keep` keeps what was there.
pub broadcast proof fn keeps_keep<'a>(base: State<'a>, st: State<'a>, x: Option<Operand>, res: Option<Operand>)
    requires
        #[trigger] keep::kept(base, st),
    ensures
        keep::kept(base, (#[trigger] patterns::keep(st, x, res)).1),
{
    broadcast use keeps_keep_value;

    reveal(patterns::keep);
}

/// `next_arm` keeps what was there.
pub broadcast proof fn keeps_next_arm<'a>(base: State<'a>, st: State<'a>, i: usize, last: bool, merge: usize)
    requires
        #[trigger] keep::kept(base, st),
    ensures
        keep::kept(base, (#[trigger] patterns::next_arm(st, i, last, merge)).1),
{
    broadcast use keep_state::keeps_block;

    reveal(patterns::next_arm);
}

/// `match_arms` keeps what was there.
pub broadcast proof fn keeps_match_arms<'a>(base: State<'a>, nest: Nest<'a>, st: State<'a>, e: &'a Expr, arms: &'a Vec<MatchArm>, i: usize, v: Operand, merge: usize, res: Option<Operand>)
    requires
        #[trigger] keep::kept(base, st),
        keep::nest_keeps(nest),
    ensures
        match #[trigger] patterns::match_arms(nest, st, e, arms, i, v, merge, res) {
            Ok((_, after)) => keep::kept(base, after),
            Err(_) => true,
        },
    decreases arms.len() - i,
{
    broadcast use {keep_lower::keeps_jump, keeps_arm_value, keeps_bind_pattern, keeps_choose_arm, keeps_keep, keeps_next_arm, keeps_test_pattern, keep_state::keeps_at, keep_state::keeps_block};

    reveal(patterns::match_arms);
    if i >= arms.len() {
    } else {
        let a = &arms@[i as int];
        let (arm, st) = state::block(st, Label::MatchArm(i));
        let (next, st) = patterns::next_arm(st, i, (i + 1) as usize >= arms.len(), merge);
        match patterns::test_pattern(nest, st, &a.pattern, v, e) {
            Ok((c, st)) => {
                match patterns::choose_arm(nest, st, &a.guard, c, arm, next, i) {
                    Ok((_, st)) => {
                        let st = state::at(st, arm);
                        let outer0 = st;
                        let st = state::open_scope(st);
                        let base0 = st;
                        keep::lemma_scope_opens(base, outer0);
                        let st = patterns::bind_pattern(st, &a.pattern, v);
                        match patterns::arm_value(nest, st, &a.body) {
                            Ok((x, st)) => {
                                keep::lemma_scope(base, outer0, st);
                                let st = state::close_scope(st);
                                let (y, st) = patterns::keep(st, x, res);
                                let st = lower::jump(st, merge);
                                let st = state::at(st, next);
                                keeps_match_arms(base, nest, st, e, arms, (i + 1) as usize, v, merge, y);
                                match patterns::match_arms(nest, st, e, arms, (i + 1) as usize, v, merge, y) {
                                    Ok((r, st)) => {
                                    },
                                    Err(_) => {},
                                }
                            },
                            Err(_) => {},
                        }
                    },
                    Err(_) => {},
                }
            },
            Err(_) => {},
        }
    }
}

/// `match_expr` keeps what was there.
pub broadcast proof fn keeps_match_expr<'a>(base: State<'a>, nest: Nest<'a>, st: State<'a>, m: &'a MatchExpr)
    requires
        #[trigger] keep::kept(base, st),
        keep::nest_keeps(nest),
    ensures
        match #[trigger] patterns::match_expr(nest, st, m) {
            Ok((_, after)) => keep::kept(base, after),
            Err(_) => true,
        },
{
    broadcast use {keep_lower::keeps_load, keeps_match_arms, keep_state::keeps_at, keep_state::keeps_block};

    reveal(patterns::match_expr);
}

} // verus!
