//! Which values the arms of a `match` take.
use vstd::prelude::*;
use crate::ast::{Expr, MatchArm, Pattern};
use crate::codegen::control_laws;
use crate::codegen::exprs;
use crate::codegen::ir::{Arith, Guess, Label, Op, Operand, TagInfo, Val, I1, I64};
use crate::codegen::keep;
use crate::codegen::keep_lower;
use crate::codegen::keep_patterns;
use crate::codegen::keep_state;
use crate::codegen::laws;
use crate::codegen::lower;
use crate::codegen::meaning;
use crate::codegen::meaning::Run;
use crate::codegen::nest;
use crate::codegen::nest::Nest;
use crate::codegen::patterns;
use crate::codegen::state;
use crate::codegen::state::State;
use crate::codegen::value_laws;
use crate::token::Span;

verus! {

/// Whether a literal takes a value; patterns of other kinds take all.
pub open spec fn literal_takes(p: Pattern, x: int) -> bool {
    match p {
        Pattern::LitInt(n) => x == n,
        Pattern::LitBool(b) => x == meaning::flag(b),
        _ => true,
    }
}

/// Whether an integer takes a value; patterns of other kinds take all.
pub open spec fn integer_takes(p: Pattern, x: int) -> bool {
    p is LitInt ==> x == p->LitInt_0
}

/// Whether a part of a tuple takes a value. Alternatives are tried where `deep` holds.
pub open spec fn part_takes(p: Pattern, x: int, deep: bool) -> bool {
    match p {
        Pattern::Alternative(ps) => deep ==> exists|i: int| 0 <= i < ps@.len() && #[trigger] integer_takes(ps@[i], x),
        _ => literal_takes(p, x),
    }
}

/// Whether the patterns take the parts of a tuple, each its own.
pub open spec fn parts_take(run: Run, ps: Seq<Pattern>, x: int, deep: bool) -> bool {
    forall|i: int| 0 <= i < ps.len() ==> part_takes(#[trigger] ps[i], (run.part)(x, i), deep)
}

/// Whether `t` is the tag of a variant of an enum: that of the last entry with its name.
pub open spec fn is_tag<'a>(st: State<'a>, l: usize, variant: Seq<char>, t: int) -> bool {
    exists|k: int|
        0 <= k < st.tags.len() && st.tag_names[k] == variant && (#[trigger] st.tags[k]).layout == l && st.tags[k].tag == t
            && forall|j: int|
            k < j < st.tags.len() && j < st.tag_names.len() ==> st.tag_names[j] != variant || (#[trigger] st.tags[j]).layout != l
}

/// Whether a value of an enum is of a variant, and a literal in its payload takes the payload.
pub open spec fn variant_takes<'a>(
    run: Run,
    st: State<'a>,
    l: usize,
    variant: Seq<char>,
    payload: Option<Vec<Pattern>>,
    x: int,
) -> bool {
    &&& is_tag(st, l, variant, (run.part)(x, 0))
    &&& payload is Some && payload->0@.len() == 1 ==> literal_takes(payload->0@[0], (run.part)(x, 1))
}

/// Whether an alternative takes a value; `l` is the enum that it is of, where it is of one.
pub open spec fn other_takes<'a>(run: Run, st: State<'a>, kind: Guess, p: Pattern, x: int) -> bool {
    match p {
        Pattern::Variant { variant, payload } => {
            &&& kind is Enum && is_tag(st, kind->Enum_0, variant@, (run.part)(x, 0))
            &&& payload is Some && payload->0@.len() == 1 ==> integer_takes(payload->0@[0], (run.part)(x, 1))
        },
        Pattern::Tuple(ps) => kind is Tuple && parts_take(run, ps@, x, false),
        _ => literal_takes(p, x),
    }
}

/// Whether a pattern is a name or `_`.
pub open spec fn is_name(p: Pattern) -> bool {
    p is Wildcard || p is Var
}

/// Whether an arm takes a value: a name takes all, a literal the value that it is, a tuple the
/// values whose parts its parts take, a variant the values of its kind, and alternatives what one
/// of them takes.
pub open spec fn takes<'a>(run: Run, st: State<'a>, kind: Guess, p: Pattern, x: int) -> bool {
    match p {
        Pattern::Wildcard => true,
        Pattern::Var(_) => true,
        Pattern::LitInt(n) => x == n,
        Pattern::LitBool(b) => x == meaning::flag(b),
        Pattern::Tuple(ps) => parts_take(run, ps@, x, true),
        Pattern::Variant { variant, payload } => kind is Enum && variant_takes(
            run,
            st,
            kind->Enum_0,
            variant@,
            payload,
            x,
        ),
        Pattern::Alternative(ps) => exists|i: int|
            0 <= i < ps@.len() && #[trigger] one_takes(run, st, kind, ps@[i], x),
    }
}

/// Whether one of several alternatives is a name, or takes a value.
pub open spec fn one_takes<'a>(run: Run, st: State<'a>, kind: Guess, p: Pattern, x: int) -> bool {
    is_name(p) || other_takes(run, st, kind, p, x)
}

/// Whether the code from `st` to `after` has been gone through.
pub open spec fn is_run<'a>(run: Run, st: State<'a>, after: State<'a>) -> bool {
    after.steps.len() <= usize::MAX && meaning::goes_through(
        run,
        after,
        st.steps.len() as int,
        after.steps.len() as int,
    )
}

/// Whether a condition that was there holds.
pub open spec fn is_one(run: Run, a: Option<Operand>) -> bool {
    a is Some && meaning::value(run, a->0.val) == 1
}

/// Whether a condition that was there is one.
pub open spec fn is_bit(run: Run, a: Option<Operand>) -> bool {
    a is Some ==> 0 <= meaning::value(run, a->0.val) <= 1
}

proof fn lemma_before<'a>(run: Run, st: State<'a>, one: State<'a>, after: State<'a>)
    requires
        value_laws::adds(st, one),
        value_laws::adds(one, after),
    ensures
        value_laws::adds(st, after),
        is_run(run, st, after) ==> is_run(run, st, one) && is_run(run, one, after),
{
    value_laws::lemma_then(st, one, after);
    if is_run(run, st, after) {
        value_laws::lemma_part(run, st, one, after);
    }
}

proof fn lemma_test_int<'a>(run: Run, st: State<'a>, v: Operand, k: Operand, span: Span)
    ensures
        match patterns::test_int(st, v, k, span) {
            Ok((c, after)) => {
                &&& value_laws::adds(st, after)
                &&& c.ty == I1
                &&& is_run(run, st, after) ==> meaning::value(run, c.val) == meaning::flag(
                    meaning::value(run, v.val) == meaning::value(run, k.val),
                )
            },
            Err(_) => true,
        },
{
    reveal(patterns::test_int);
    reveal(exprs::need_int);
    reveal(lower::compare);
    reveal(state::emit);
    match patterns::test_int(st, v, k, span) {
        Ok((c, after)) => {
            if is_run(run, st, after) {
                let n = st.steps.len() as int;
                assert(meaning::does(run, after.types, n, after.steps[n].op));
            }
        },
        Err(_) => {},
    }
}

/// The condition computed for a literal is one exactly when the value is that of the literal.
pub proof fn law_literal_is_tested<'a>(run: Run, st: State<'a>, p: &'a Pattern, v: Operand, span: Span)
    ensures
        match patterns::test_plain(st, p, v, span) {
            Ok((c, after)) => {
                &&& value_laws::adds(st, after)
                &&& c.ty == I1
                &&& is_run(run, st, after) ==> meaning::value(run, c.val) == meaning::flag(
                    literal_takes(*p, meaning::value(run, v.val)),
                )
            },
            Err(_) => true,
        },
{
    reveal(patterns::test_plain);
    reveal(patterns::bit);
    match *p {
        Pattern::LitInt(n) => lemma_test_int(run, st, v, Operand { val: Val::Int(n), ty: I64 }, span),
        Pattern::LitBool(b) => lemma_test_int(run, st, v, Operand { val: Val::Int(patterns::bit(b)), ty: I1 }, span),
        _ => {},
    }
}

/// One of two conditions holds exactly when the first or the second does.
pub proof fn law_either_is_or<'a>(run: Run, st: State<'a>, a: Option<Operand>, b: Operand)
    requires
        value_laws::has_basics(st.types),
        a is Some ==> a->0.ty == I1,
        b.ty == I1,
    ensures
        ({
            let (c, after) = patterns::either(st, a, b);
            &&& value_laws::adds(st, after)
            &&& c is Some && c->0.ty == I1
            &&& is_run(run, st, after) && is_bit(run, a) && is_bit(run, Some(b)) ==> meaning::value(run, c->0.val)
                == meaning::flag(is_one(run, a) || is_one(run, Some(b)))
        }),
{
    reveal(patterns::either);
    reveal(lower::arith);
    reveal(state::emit);
    let after = patterns::either(st, a, b).1;
    if is_run(run, st, after) && is_bit(run, a) && is_bit(run, Some(b)) && a is Some {
        let n = st.steps.len() as int;
        assert(meaning::does(run, after.types, n, after.steps[n].op));
        value_laws::lemma_flags(meaning::value(run, a->0.val), meaning::value(run, b.val));
    }
}

/// Both of two conditions hold exactly when the first and the second do.
pub proof fn law_both_is_and<'a>(run: Run, st: State<'a>, a: Option<Operand>, b: Operand)
    requires
        value_laws::has_basics(st.types),
        a is Some ==> a->0.ty == I1,
        b.ty == I1,
    ensures
        ({
            let (c, after) = patterns::both(st, a, b);
            &&& value_laws::adds(st, after)
            &&& c is Some && c->0.ty == I1
            &&& is_run(run, st, after) && is_bit(run, a) && is_bit(run, Some(b)) ==> meaning::value(run, c->0.val)
                == meaning::flag((a is Some ==> is_one(run, a)) && is_one(run, Some(b)))
        }),
{
    reveal(patterns::both);
    reveal(lower::arith);
    reveal(state::emit);
    let after = patterns::both(st, a, b).1;
    if is_run(run, st, after) && is_bit(run, a) && is_bit(run, Some(b)) && a is Some {
        let n = st.steps.len() as int;
        assert(meaning::does(run, after.types, n, after.steps[n].op));
        value_laws::lemma_flags(meaning::value(run, a->0.val), meaning::value(run, b.val));
    }
}

/// The condition computed for alternatives inside a tuple is one exactly when one of them takes the
/// value.
pub proof fn law_integers_are_tested<'a>(
    run: Run,
    st: State<'a>,
    ps: &'a Vec<Pattern>,
    i: usize,
    v: Operand,
    span: Span,
    acc: Option<Operand>,
)
    requires
        value_laws::has_basics(st.types),
        acc is Some ==> acc->0.ty == I1,
        i <= ps.len(),
    ensures
        match patterns::test_ints(st, ps, i, v, span, acc) {
            Ok((c, after)) => {
                &&& value_laws::adds(st, after)
                &&& c.ty == I1
                &&& is_run(run, st, after) && is_bit(run, acc) ==> meaning::value(run, c.val) == meaning::flag(
                    is_one(run, acc) || exists|j: int|
                        i <= j < ps@.len() && #[trigger] integer_takes(ps@[j], meaning::value(run, v.val)),
                )
            },
            Err(_) => true,
        },
    decreases ps@.len() - i,
{
    reveal(patterns::test_ints);
    reveal(patterns::or_bit);
    assert(ps.len() == ps@.len());
    let x = meaning::value(run, v.val);
    if i < ps@.len() {
        let p = ps@[i as int];
        let next = (i + 1) as usize;
        match p {
            Pattern::LitInt(n) => {
                let k = Operand { val: Val::Int(n), ty: I64 };
                lemma_test_int(run, st, v, k, span);
                match patterns::test_int(st, v, k, span) {
                    Ok((c, one)) => {
                        law_either_is_or(run, one, acc, c);
                        let (a, two) = patterns::either(one, acc, c);
                        law_integers_are_tested(run, two, ps, next, v, span, a);
                        match patterns::test_ints(two, ps, next, v, span, a) {
                            Ok((_, after)) => {
                                lemma_before(run, one, two, after);
                                lemma_before(run, st, one, after);
                            },
                            Err(_) => {},
                        }
                    },
                    Err(_) => {},
                }
            },
            _ => {
                let c = Operand { val: Val::Int(1), ty: I1 };
                law_either_is_or(run, st, acc, c);
                let (a, two) = patterns::either(st, acc, c);
                law_integers_are_tested(run, two, ps, next, v, span, a);
                match patterns::test_ints(two, ps, next, v, span, a) {
                    Ok((_, after)) => {
                        lemma_before(run, st, two, after);
                    },
                    Err(_) => {},
                }
            },
        }
        let here = integer_takes(p, x);
        assert((exists|j: int| i <= j < ps@.len() && #[trigger] integer_takes(ps@[j], x)) == (here || exists|j: int|
            next <= j < ps@.len() && #[trigger] integer_takes(ps@[j], x)));
    }
}

proof fn lemma_test_part<'a>(run: Run, st: State<'a>, p: &'a Pattern, v: Operand, deep: bool, span: Span)
    requires
        value_laws::has_basics(st.types),
    ensures
        match patterns::test_part(st, p, v, deep, span) {
            Ok((c, after)) => {
                &&& value_laws::adds(st, after)
                &&& c.ty == I1
                &&& is_run(run, st, after) ==> meaning::value(run, c.val) == meaning::flag(
                    part_takes(*p, meaning::value(run, v.val), deep),
                )
            },
            Err(_) => true,
        },
{
    reveal(patterns::test_part);
    match *p {
        Pattern::Alternative(ps) => {
            law_integers_are_tested(run, st, &ps, 0, v, span, None);
        },
        _ => {
            law_literal_is_tested(run, st, p, v, span);
        },
    }
}

pub proof fn lemma_extract<'a>(run: Run, st: State<'a>, v: Operand, k: u32)
    ensures
        ({
            let (x, after) = lower::extract(st, v, k);
            &&& value_laws::adds(st, after)
            &&& is_run(run, st, after) ==> meaning::value(run, x.val) == (run.part)(
                meaning::value(run, v.val),
                k as int,
            )
        }),
{
    reveal(lower::extract);
    reveal(state::emit);
    let after = lower::extract(st, v, k).1;
    if is_run(run, st, after) {
        let n = st.steps.len() as int;
        assert(meaning::does(run, after.types, n, after.steps[n].op));
    }
}

/// The condition computed for a tuple is one exactly when each of its patterns takes its part.
pub proof fn law_parts_are_tested<'a>(
    run: Run,
    st: State<'a>,
    ps: &'a Vec<Pattern>,
    i: usize,
    v: Operand,
    deep: bool,
    span: Span,
    acc: Option<Operand>,
)
    requires
        value_laws::has_basics(st.types),
        acc is Some ==> acc->0.ty == I1,
        i <= ps@.len() <= u32::MAX,
    ensures
        match patterns::test_parts(st, ps, i, v, deep, span, acc) {
            Ok((c, after)) => {
                &&& value_laws::adds(st, after)
                &&& c.ty == I1
                &&& is_run(run, st, after) && is_bit(run, acc) ==> meaning::value(run, c.val) == meaning::flag(
                    (acc is Some ==> is_one(run, acc)) && forall|j: int|
                        i <= j < ps@.len() ==> part_takes(
                            #[trigger] ps@[j],
                            (run.part)(meaning::value(run, v.val), j),
                            deep,
                        ),
                )
            },
            Err(_) => true,
        },
    decreases ps@.len() - i,
{
    reveal(patterns::test_parts);
    reveal(patterns::or_bit);
    let x = meaning::value(run, v.val);
    if i < ps@.len() {
        let p = &ps@[i as int];
        let next = (i + 1) as usize;
        lemma_extract(run, st, v, i as u32);
        let (y, zero) = lower::extract(st, v, i as u32);
        lemma_test_part(run, zero, p, y, deep, span);
        match patterns::test_part(zero, p, y, deep, span) {
            Ok((c, one)) => {
                law_both_is_and(run, one, acc, c);
                let (a, two) = patterns::both(one, acc, c);
                law_parts_are_tested(run, two, ps, next, v, deep, span, a);
                match patterns::test_parts(two, ps, next, v, deep, span, a) {
                    Ok((_, after)) => {
                        lemma_before(run, one, two, after);
                        lemma_before(run, zero, one, after);
                        lemma_before(run, st, zero, after);
                    },
                    Err(_) => {},
                }
            },
            Err(_) => {},
        }
        assert((forall|j: int| i <= j < ps@.len() ==> part_takes(#[trigger] ps@[j], (run.part)(x, j), deep)) == (
        part_takes(*p, (run.part)(x, i as int), deep) && forall|j: int|
            next <= j < ps@.len() ==> part_takes(#[trigger] ps@[j], (run.part)(x, j), deep)));
    }
}


pub proof fn lemma_tag_entry<'a>(names: Seq<Seq<char>>, tags: Seq<TagInfo>, variant: Seq<char>, l: usize, n: nat)
    requires
        n <= names.len() <= usize::MAX,
    ensures
        match state::tag_entry_from(names, tags, variant, l, n) {
            Some(k) => k < n && k < tags.len() && names[k as int] == variant && tags[k as int].layout == l
                && forall|j: int| k < j < n && j < tags.len() ==> names[j] != variant || (#[trigger] tags[j]).layout != l,
            None => forall|j: int| 0 <= j < n && j < tags.len() ==> names[j] != variant || (#[trigger] tags[j]).layout != l,
        },
    decreases n,
{
    if n > 0 {
        lemma_tag_entry(names, tags, variant, l, (n - 1) as nat);
    }
}

/// Whether a value is of an enum, whatever code is added.
pub open spec fn is_of<'a>(n: Nest<'a>, st: State<'a>, e: &'a Expr, kind: Guess) -> bool {
    forall|s: State<'a>| value_laws::is_more_code(st, s) ==> #[trigger] (n.infer)(s, e) == Ok::<Guess, state::Trouble>(kind)
}

/// Whether every variant has its name, and their number can be counted.
pub open spec fn has_tags<'a>(st: State<'a>) -> bool {
    st.tags.len() == st.tag_names.len() && st.tag_names.len() <= usize::MAX
}

/// The condition computed for a variant is one exactly when the value has the tag of that variant.
pub proof fn law_tag_is_tested<'a>(
    run: Run,
    n: Nest<'a>,
    st: State<'a>,
    variant: Seq<char>,
    v: Operand,
    e: &'a Expr,
    kind: Guess,
)
    requires
        is_of(n, st, e, kind),
        has_tags(st),
    ensures
        match patterns::test_tag(n, st, variant, v, e) {
            Ok((c, after)) => {
                &&& value_laws::adds(st, after)
                &&& c.ty == I1
                &&& kind is Enum
                &&& is_run(run, st, after) ==> meaning::value(run, c.val) == meaning::flag(
                    is_tag(st, kind->Enum_0, variant, (run.part)(meaning::value(run, v.val), 0)),
                )
            },
            Err(_) => true,
        },
{
    reveal(patterns::test_tag);
    reveal(lower::compare);
    reveal(state::emit);
    assert(value_laws::is_more_code(st, st));
    assert((n.infer)(st, e) == Ok::<Guess, state::Trouble>(kind));
    match patterns::test_tag(n, st, variant, v, e) {
        Ok((c, after)) => {
            let l = kind->Enum_0;
            lemma_tag_entry(st.tag_names, st.tags, variant, l, st.tag_names.len());
            let k = state::tag_entry(st, variant, l)->0;
            let t = st.tags[k as int].tag;
            lemma_extract(run, st, v, 0);
            let (x, one) = lower::extract(st, v, 0);
            assert(value_laws::adds(one, after));
            lemma_before(run, st, one, after);
            if is_run(run, st, after) {
                let j = one.steps.len() as int;
                assert(meaning::does(run, after.types, j, after.steps[j].op));
                let y = (run.part)(meaning::value(run, v.val), 0);
                assert(is_tag(st, l, variant, t as int)) by {
                    assert(st.tags[k as int].layout == l);
                }
                if is_tag(st, l, variant, y) {
                    let i = choose|i: int|
                        0 <= i < st.tags.len() && st.tag_names[i] == variant && (#[trigger] st.tags[i]).layout == l
                            && st.tags[i].tag == y && forall|j: int|
                            i < j < st.tags.len() && j < st.tag_names.len() ==> st.tag_names[j] != variant
                                || (#[trigger] st.tags[j]).layout != l;
                    if i < k {
                        assert(st.tags[k as int].layout != l);
                    }
                    if i > k {
                        assert(st.tags[i].layout != l);
                    }
                }
            }
        },
        Err(_) => {},
    }
}

proof fn lemma_tags_stay<'a>(run: Run, n: Nest<'a>, st: State<'a>, s: State<'a>, e: &'a Expr, kind: Guess)
    requires
        value_laws::adds(st, s),
        is_of(n, st, e, kind),
        has_tags(st),
    ensures
        is_of(n, s, e, kind),
        has_tags(s),
        forall|l: usize, name: Seq<char>, t: int| #[trigger] is_tag(s, l, name, t) == is_tag(st, l, name, t),
{
    assert forall|u: State<'a>| value_laws::is_more_code(s, u) implies #[trigger] (n.infer)(u, e) == Ok::<
        Guess,
        state::Trouble,
    >(kind) by {
        assert(value_laws::is_more_code(st, u));
    }
}

/// The condition computed for a variant with a payload is one exactly when the value has the tag of
/// the variant and the payload is that of a literal, where it is given by one.
pub proof fn law_variant_is_tested<'a>(
    run: Run,
    n: Nest<'a>,
    st: State<'a>,
    variant: Seq<char>,
    payload: &'a Option<Vec<Pattern>>,
    v: Operand,
    e: &'a Expr,
    kind: Guess,
)
    requires
        value_laws::has_basics(st.types),
        is_of(n, st, e, kind),
        has_tags(st),
    ensures
        match patterns::test_variant(n, st, variant, payload, v, e) {
            Ok((c, after)) => {
                &&& value_laws::adds(st, after)
                &&& c.ty == I1
                &&& kind is Enum
                &&& is_run(run, st, after) ==> meaning::value(run, c.val) == meaning::flag(
                    variant_takes(run, st, kind->Enum_0, variant, *payload, meaning::value(run, v.val)),
                )
            },
            Err(_) => true,
        },
{
    reveal(patterns::test_variant);
    law_tag_is_tested(run, n, st, variant, v, e, kind);
    match patterns::test_tag(n, st, variant, v, e) {
        Ok((q, one)) => {
            match *payload {
                Some(ps) => {
                    assert(ps.len() == ps@.len());
                    lemma_extract(run, one, v, 1);
                    let (x, two) = lower::extract(one, v, 1);
                    if ps.len() == 1 {
                        law_literal_is_tested(run, two, &ps@[0], x, e.span);
                        match patterns::test_plain(two, &ps@[0], x, e.span) {
                            Ok((y, three)) => {
                                lemma_and(run, three, q, y);
                                let after = lower::arith(three, Arith::And, q, y).1;
                                lemma_before(run, two, three, after);
                                lemma_before(run, one, two, after);
                                lemma_before(run, st, one, after);
                            },
                            Err(_) => {},
                        }
                    } else {
                        let y = Operand { val: Val::Int(1), ty: I1 };
                        lemma_and(run, two, q, y);
                        let after = lower::arith(two, Arith::And, q, y).1;
                        lemma_before(run, one, two, after);
                        lemma_before(run, st, one, after);
                    }
                },
                None => {},
            }
        },
        Err(_) => {},
    }
}

proof fn lemma_and<'a>(run: Run, st: State<'a>, a: Operand, b: Operand)
    requires
        value_laws::has_basics(st.types),
        a.ty == I1,
    ensures
        ({
            let (c, after) = lower::arith(st, Arith::And, a, b);
            &&& value_laws::adds(st, after)
            &&& c.ty == I1
            &&& is_run(run, st, after) && is_bit(run, Some(a)) && is_bit(run, Some(b)) ==> meaning::value(run, c.val)
                == meaning::flag(is_one(run, Some(a)) && is_one(run, Some(b)))
        }),
{
    reveal(lower::arith);
    reveal(state::emit);
    let after = lower::arith(st, Arith::And, a, b).1;
    if is_run(run, st, after) && is_bit(run, Some(a)) && is_bit(run, Some(b)) {
        let n = st.steps.len() as int;
        assert(meaning::does(run, after.types, n, after.steps[n].op));
        value_laws::lemma_flags(meaning::value(run, a.val), meaning::value(run, b.val));
    }
}

/// The condition computed for one of several alternatives is one exactly when it takes the value.
pub proof fn law_alternative_is_tested<'a>(
    run: Run,
    n: Nest<'a>,
    st: State<'a>,
    p: &'a Pattern,
    v: Operand,
    e: &'a Expr,
    kind: Guess,
)
    requires
        value_laws::has_basics(st.types),
        is_of(n, st, e, kind),
        has_tags(st),
        p is Tuple ==> p->Tuple_0.len() <= u32::MAX,
    ensures
        match patterns::test_other(n, st, p, v, e) {
            Ok((c, after)) => {
                &&& value_laws::adds(st, after)
                &&& c.ty == I1
                &&& is_run(run, st, after) ==> meaning::value(run, c.val) == meaning::flag(
                    other_takes(run, st, kind, *p, meaning::value(run, v.val)),
                )
            },
            Err(_) => true,
        },
{
    reveal(patterns::test_other);
    assert(value_laws::is_more_code(st, st));
    assert((n.infer)(st, e) == Ok::<Guess, state::Trouble>(kind));
    match *p {
        Pattern::Variant { variant, payload } => {
            reveal(patterns::test_other_variant);
            reveal(patterns::lit_int);
            law_tag_is_tested(run, n, st, variant@, v, e, kind);
            match patterns::test_tag(n, st, variant@, v, e) {
                Ok((q, one)) => {
                    match payload {
                        Some(ps) => {
                            assert(ps.len() == ps@.len());
                            if ps.len() == 1 {
                                lemma_extract(run, one, v, 1);
                                let (x, two) = lower::extract(one, v, 1);
                                match ps@[0] {
                                    Pattern::LitInt(k) => {
                                        let lit = Operand { val: Val::Int(k), ty: I64 };
                                        lemma_test_int(run, two, x, lit, e.span);
                                        match patterns::test_int(two, x, lit, e.span) {
                                            Ok((y, three)) => {
                                                lemma_and(run, three, q, y);
                                                let after = lower::arith(three, Arith::And, q, y).1;
                                                lemma_before(run, two, three, after);
                                                lemma_before(run, one, two, after);
                                                lemma_before(run, st, one, after);
                                            },
                                            Err(_) => {},
                                        }
                                    },
                                    _ => {
                                        lemma_before(run, st, one, two);
                                    },
                                }
                            }
                        },
                        None => {},
                    }
                },
                Err(_) => {},
            }
        },
        Pattern::Tuple(ps) => {
            law_parts_are_tested(run, st, &ps, 0, v, false, e.span, None);
        },
        _ => {
            law_literal_is_tested(run, st, p, v, e.span);
        },
    }
}

/// Whether the tuples among the patterns have parts that can be counted.
pub open spec fn are_small(ps: Seq<Pattern>) -> bool {
    forall|i: int| 0 <= i < ps.len() && (#[trigger] ps[i]) is Tuple ==> ps[i]->Tuple_0.len() <= u32::MAX
}

/// The condition computed for alternatives is one exactly when at least one of them takes the value.
pub proof fn law_alternatives_are_tested<'a>(
    run: Run,
    n: Nest<'a>,
    st: State<'a>,
    ps: &'a Vec<Pattern>,
    i: usize,
    v: Operand,
    e: &'a Expr,
    acc: Option<Operand>,
    kind: Guess,
)
    requires
        value_laws::has_basics(st.types),
        is_of(n, st, e, kind),
        has_tags(st),
        acc is Some ==> acc->0.ty == I1,
        are_small(ps@),
        i <= ps.len(),
    ensures
        match patterns::test_others(n, st, ps, i, v, e, acc) {
            Ok((c, after)) => {
                &&& value_laws::adds(st, after)
                &&& c.ty == I1
                &&& is_run(run, st, after) && is_bit(run, acc) ==> meaning::value(run, c.val) == meaning::flag(
                    is_one(run, acc) || exists|j: int|
                        i <= j < ps@.len() && #[trigger] other_takes(
                            run,
                            st,
                            kind,
                            ps@[j],
                            meaning::value(run, v.val),
                        ),
                )
            },
            Err(_) => true,
        },
    decreases ps@.len() - i,
{
    reveal(patterns::test_others);
    reveal(patterns::or_bit);
    assert(ps.len() == ps@.len());
    let x = meaning::value(run, v.val);
    if i < ps@.len() {
        let p = &ps@[i as int];
        let next = (i + 1) as usize;
        law_alternative_is_tested(run, n, st, p, v, e, kind);
        match patterns::test_other(n, st, p, v, e) {
            Ok((c, one)) => {
                law_either_is_or(run, one, acc, c);
                let (a, two) = patterns::either(one, acc, c);
                value_laws::lemma_then(st, one, two);
                lemma_tags_stay(run, n, st, two, e, kind);
                law_alternatives_are_tested(run, n, two, ps, next, v, e, a, kind);
                match patterns::test_others(n, two, ps, next, v, e, a) {
                    Ok((_, after)) => {
                        lemma_before(run, one, two, after);
                        lemma_before(run, st, one, after);
                        assert forall|j: int| 0 <= j < ps@.len() implies #[trigger] other_takes(
                            run,
                            two,
                            kind,
                            ps@[j],
                            x,
                        ) == other_takes(run, st, kind, ps@[j], x) by {}
                        let rest = exists|j: int|
                            next <= j < ps@.len() && #[trigger] other_takes(run, two, kind, ps@[j], x);
                        let all = exists|j: int|
                            i <= j < ps@.len() && #[trigger] other_takes(run, st, kind, ps@[j], x);
                        let here = other_takes(run, st, kind, *p, x);
                        if rest {
                            let j = choose|j: int|
                                next <= j < ps@.len() && #[trigger] other_takes(run, two, kind, ps@[j], x);
                            assert(other_takes(run, st, kind, ps@[j], x));
                        }
                        if all && !here {
                            let j = choose|j: int|
                                i <= j < ps@.len() && #[trigger] other_takes(run, st, kind, ps@[j], x);
                            assert(other_takes(run, two, kind, ps@[j], x));
                        }
                        assert(all == (here || rest));
                    },
                    Err(_) => {},
                }
            },
            Err(_) => {},
        }
    }
}

proof fn lemma_any_open<'a>(ps: &'a Vec<Pattern>, i: usize)
    requires
        i <= ps.len(),
    ensures
        patterns::any_open(ps, i) == exists|j: int| i <= j < ps@.len() && is_name(#[trigger] ps@[j]),
    decreases ps@.len() - i,
{
    reveal(patterns::any_open);
    reveal(patterns::is_open);
    assert(ps.len() == ps@.len());
    if i < ps@.len() {
        lemma_any_open(ps, (i + 1) as usize);
        let here = is_name(ps@[i as int]);
        assert((exists|j: int| i <= j < ps@.len() && is_name(#[trigger] ps@[j])) == (here || exists|j: int|
            i + 1 <= j < ps@.len() && is_name(#[trigger] ps@[j])));
    }
}

/// Whether the tuples of a pattern have parts that can be counted.
pub open spec fn is_small(p: Pattern) -> bool {
    &&& p is Tuple ==> p->Tuple_0.len() <= u32::MAX
    &&& p is Alternative ==> are_small(p->Alternative_0@)
}

/// The condition computed for an arm is one exactly when the arm takes the value.
pub proof fn law_pattern_is_tested<'a>(
    run: Run,
    n: Nest<'a>,
    st: State<'a>,
    p: &'a Pattern,
    v: Operand,
    e: &'a Expr,
    kind: Guess,
)
    requires
        value_laws::has_basics(st.types),
        is_of(n, st, e, kind),
        has_tags(st),
        is_small(*p),
    ensures
        match patterns::test_pattern(n, st, p, v, e) {
            Ok((c, after)) => {
                &&& value_laws::adds(st, after)
                &&& c.ty == I1
                &&& is_run(run, st, after) ==> meaning::value(run, c.val) == meaning::flag(
                    takes(run, st, kind, *p, meaning::value(run, v.val)),
                )
            },
            Err(_) => true,
        },
{
    reveal(patterns::test_pattern);
    reveal(patterns::takes_all);
    reveal(patterns::is_open);
    let x = meaning::value(run, v.val);
    match *p {
        Pattern::Alternative(ps) => {
            lemma_any_open(&ps, 0);
            law_alternatives_are_tested(run, n, st, &ps, 0, v, e, None, kind);
            if patterns::any_open(&ps, 0) {
                let j = choose|j: int| 0 <= j < ps@.len() && is_name(#[trigger] ps@[j]);
                assert(one_takes(run, st, kind, ps@[j], x));
                assert(takes(run, st, kind, *p, x));
            } else {
                let some = exists|j: int| 0 <= j < ps@.len() && #[trigger] other_takes(run, st, kind, ps@[j], x);
                if takes(run, st, kind, *p, x) {
                    let j = choose|j: int|
                        0 <= j < ps@.len() && #[trigger] one_takes(run, st, kind, ps@[j], x);
                    assert(!is_name(ps@[j]));
                    assert(other_takes(run, st, kind, ps@[j], x));
                }
                if some {
                    let j = choose|j: int| 0 <= j < ps@.len() && #[trigger] other_takes(run, st, kind, ps@[j], x);
                    assert(one_takes(run, st, kind, ps@[j], x));
                }
                assert(takes(run, st, kind, *p, x) == some);
            }
        },
        Pattern::Tuple(ps) => {
            law_parts_are_tested(run, st, &ps, 0, v, true, e.span, None);
        },
        Pattern::Variant { variant, payload } => {
            law_variant_is_tested(run, n, st, variant@, &payload, v, e, kind);
        },
        _ => {
            law_literal_is_tested(run, st, p, v, e.span);
        },
    }
}


/// A `match` goes to the block of an arm exactly when the arm takes the value: the branch after the
/// test of the pattern has as its operand a condition that is one where the pattern takes the value,
/// as its first target the block of the arm, or of its guard, and as its second that of the next
/// test. A guard goes on to the arm where it holds, and to the next test where it does not.
pub proof fn law_arm_is_reached<'a>(
    run: Run,
    depth: nat,
    st: State<'a>,
    e: &'a Expr,
    arms: &'a Vec<MatchArm>,
    i: usize,
    v: Operand,
    merge: usize,
    res: Option<Operand>,
    kind: Guess,
)
    requires
        laws::is_paired(st),
        i < arms.len(),
        st.blocks.len() + 2 < usize::MAX,
        value_laws::has_basics(st.types),
        forall|s: State<'a>|
            s == (State { steps: s.steps, blocks: s.blocks, ended: s.ended, ..st }) ==> #[trigger] (nest::nest::<'a>(
                depth,
            ).infer)(s, e) == Ok::<Guess, state::Trouble>(kind),
        has_tags(st),
        is_small(arms@[i as int].pattern),
    ensures
        match patterns::match_arms(nest::nest(depth), st, e, arms, i, v, merge, res) {
            Ok((_, after)) => exists|c: Operand, k: int, first: usize|
                {
                    let arm = st.blocks.len() as usize;
                    let next = laws::next_block(st.blocks.len(), i, arms@.len(), merge);
                    &&& st.steps.len() <= k
                    &&& #[trigger] control_laws::is_step(
                        after,
                        k,
                        st.block,
                        Op::Branch(c, first, laws::next_block(st.blocks.len(), i, arms@.len(), merge)),
                    )
                    &&& control_laws::is_for(after, arm, Label::MatchArm(i))
                    &&& k <= usize::MAX && (forall|j: int|
                        st.steps.len() <= j < k ==> meaning::does(run, st.types, j, (#[trigger] after.steps[j]).op))
                        ==> meaning::value(run, c.val) == meaning::flag(
                        takes(run, st, kind, arms@[i as int].pattern, meaning::value(run, v.val)),
                    )
                    &&& match arms@[i as int].guard {
                        None => first == arm,
                        Some(g) => control_laws::is_for(after, first, Label::MatchGuard(i)) && exists|
                            inside: State<'a>,
                        |
                            inside.block == first && match #[trigger] (nest::nest::<'a>(depth).expr)(inside, &g) {
                                Ok((w, tested)) => control_laws::is_step(
                                    after,
                                    tested.steps.len() as int,
                                    tested.block,
                                    Op::Branch(w, arm, next),
                                ),
                                Err(_) => false,
                            },
                    }
                },
            Err(_) => true,
        },
{
    broadcast use {
        keep_lower::keeps_jump,
        keep_patterns::keeps_arm_value,
        keep_patterns::keeps_bind_pattern,
        keep_patterns::keeps_choose_arm,
        keep_patterns::keeps_keep,
        keep_patterns::keeps_next_arm,
        keep_patterns::keeps_test_pattern,
        keep_patterns::keeps_match_arms,
        keep_state::keeps_at,
        keep_state::keeps_block,
    };

    let n = nest::nest::<'a>(depth);
    laws::lemma_nest_keeps(depth);
    keep::lemma_same(st);
    reveal(patterns::match_arms);
    let a = &arms@[i as int];
    let (arm, one) = state::block(st, Label::MatchArm(i));
    let (next, two) = patterns::next_arm(one, i, (i + 1) as usize >= arms.len(), merge);
    assert(arms.len() == arms@.len());
    assert(arm == st.blocks.len() && two.blocks.len() > arm && two.blocks[arm as int].label == Label::MatchArm(i)
        && two.steps == st.steps && two.types == st.types && two.tags == st.tags && two.tag_names == st.tag_names
        && two.block == st.block && two.blocks.len() <= arm + 2 && next == laws::next_block(
        st.blocks.len(),
        i,
        arms@.len(),
        merge,
    )) by {
        reveal(state::block);
        reveal(patterns::next_arm);
    }
    assert(two == (State { steps: two.steps, blocks: two.blocks, ended: two.ended, ..st })) by {
        reveal(state::block);
        reveal(patterns::next_arm);
    }
    assert forall|s: State<'a>| value_laws::is_more_code(two, s) implies #[trigger] (n.infer)(s, e) == Ok::<
        Guess,
        state::Trouble,
    >(kind) by {
        assert(s == (State { steps: s.steps, blocks: s.blocks, ended: s.ended, ..st }));
    }
    law_pattern_is_tested(run, n, two, &a.pattern, v, e, kind);
    match patterns::test_pattern(n, two, &a.pattern, v, e) {
        Ok((c, three)) => {
            assert(keep::kept(st, three));
            control_laws::lemma_stays(st, three);
            lemma_choose(n, three, &a.guard, c, arm, next, i);
            match patterns::choose_arm(n, three, &a.guard, c, arm, next, i) {
                Ok((_, four)) => {
                    assert(keep::kept(st, four));
                    control_laws::lemma_stays(st, four);
                    keep::lemma_same(four);
                    let inside = state::at(four, arm);
                    assert(keep::kept(four, inside));
                    control_laws::lemma_stays(four, inside);
                    keep::lemma_same(inside);
                    keep::lemma_scope_opens(inside, inside);
                    let bound = patterns::bind_pattern(state::open_scope(inside), &a.pattern, v);
                    match patterns::arm_value(n, bound, &a.body) {
                        Ok((x, lowered)) => {
                            keep::lemma_scope(four, inside, lowered);
                            let (y, body) = patterns::keep(state::close_scope(lowered), x, res);
                            assert(keep::kept(four, body));
                            let rest = state::at(lower::jump(body, merge), next);
                            assert(keep::kept(four, rest));
                            match patterns::match_arms(n, rest, e, arms, (i + 1) as usize, v, merge, y) {
                                Ok((r, after)) => {
                                    assert(keep::kept(four, after));
                                    control_laws::lemma_stays(four, after);
                                    control_laws::lemma_in(three, four, after);
                                    let k = three.steps.len() as int;
                                    let first = four.steps[k].op->Branch_1;
                                    assert(after.steps[k] == four.steps[k]);
                                    assert(after.blocks[arm as int] == three.blocks[arm as int]);
                                    assert(control_laws::is_step(after, k, st.block, Op::Branch(c, first, next)));
                                    if k <= usize::MAX && (forall|j: int|
                                        st.steps.len() <= j < k ==> meaning::does(
                                            run,
                                            st.types,
                                            j,
                                            (#[trigger] after.steps[j]).op,
                                        )) {
                                        assert forall|j: int| two.steps.len() <= j < three.steps.len() implies meaning::does(
                                            run,
                                            three.types,
                                            j,
                                            (#[trigger] three.steps[j]).op,
                                        ) by {
                                            assert(after.steps[j] == three.steps[j]);
                                        }
                                        assert(is_run(run, two, three));
                                        assert(takes(run, two, kind, a.pattern, meaning::value(run, v.val)) == takes(
                                            run,
                                            st,
                                            kind,
                                            a.pattern,
                                            meaning::value(run, v.val),
                                        )) by {
                                            lemma_same_tags(run, st, two, kind, a.pattern, meaning::value(run, v.val));
                                        }
                                    }
                                    match a.guard {
                                        Some(g) => {
                                            let s = choose|s: State<'a>| #[trigger] guards(n, s, &g, four, first, arm, next);
                                            assert(guards(n, s, &g, four, first, arm, next));
                                            let (w, tested) = (n.expr)(s, &g)->Ok_0;
                                            let t = tested.steps.len() as int;
                                            assert(after.steps[t] == four.steps[t]);
                                            assert(after.blocks[first as int] == four.blocks[first as int]);
                                        },
                                        None => {},
                                    }
                                },
                                Err(_) => {},
                            }
                        },
                        Err(_) => {},
                    }
                },
                Err(_) => {},
            }
        },
        Err(_) => {},
    }
}

/// Whether the code of a guard starts in a block and goes on to `arm` where it holds, else to `next`.
pub open spec fn guards<'a>(
    n: Nest<'a>,
    inside: State<'a>,
    g: &'a Expr,
    after: State<'a>,
    first: usize,
    arm: usize,
    next: usize,
) -> bool {
    inside.block == first && match (n.expr)(inside, g) {
        Ok((w, tested)) => control_laws::is_step(
            after,
            tested.steps.len() as int,
            tested.block,
            Op::Branch(w, arm, next),
        ),
        Err(_) => false,
    }
}

proof fn lemma_same_tags<'a>(run: Run, st: State<'a>, s: State<'a>, kind: Guess, p: Pattern, x: int)
    requires
        s.tags == st.tags,
        s.tag_names == st.tag_names,
    ensures
        takes(run, s, kind, p, x) == takes(run, st, kind, p, x),
{
    match p {
        Pattern::Alternative(ps) => {
            assert forall|i: int| 0 <= i < ps@.len() implies #[trigger] other_takes(run, s, kind, ps@[i], x)
                == other_takes(run, st, kind, ps@[i], x) by {}
            if takes(run, s, kind, p, x) {
                let j = choose|j: int|
                    0 <= j < ps@.len() && #[trigger] one_takes(run, s, kind, ps@[j], x);
                assert(one_takes(run, st, kind, ps@[j], x));
            }
            if takes(run, st, kind, p, x) {
                let j = choose|j: int|
                    0 <= j < ps@.len() && #[trigger] one_takes(run, st, kind, ps@[j], x);
                assert(one_takes(run, s, kind, ps@[j], x));
            }
        },
        _ => {},
    }
}

proof fn lemma_choose<'a>(
    n: Nest<'a>,
    st: State<'a>,
    guard: &'a Option<Expr>,
    c: Operand,
    arm: usize,
    next: usize,
    i: usize,
)
    requires
        keep::nest_keeps(n),
        laws::is_paired(st),
        st.blocks.len() < usize::MAX,
    ensures
        match patterns::choose_arm(n, st, guard, c, arm, next, i) {
            Ok((_, after)) => {
                &&& control_laws::is_in(st, after)
                &&& st.steps.len() < after.steps.len()
                &&& after.steps[st.steps.len() as int].block == st.block
                &&& after.steps[st.steps.len() as int].op is Branch
                &&& after.steps[st.steps.len() as int].op->Branch_0 == c
                &&& after.steps[st.steps.len() as int].op->Branch_2 == next
                &&& match *guard {
                    None => after.steps[st.steps.len() as int].op->Branch_1 == arm,
                    Some(g) => {
                        let first = after.steps[st.steps.len() as int].op->Branch_1;
                        control_laws::is_for(after, first, Label::MatchGuard(i)) && exists|s: State<'a>|
                            #[trigger] guards(n, s, &g, after, first, arm, next)
                    },
                }
            },
            Err(_) => true,
        },
{
    reveal(patterns::choose_arm);
    reveal(state::finish);
    reveal(state::block);
    reveal(state::at);
    match *guard {
        Some(g) => {
            let (b, one) = state::block(st, Label::MatchGuard(i));
            let two = state::at(state::finish(one, Op::Branch(c, b, next)), b);
            keep::lemma_same(two);
            match (n.expr)(two, &g) {
                Ok((w, three)) => {
                    assert(keep::kept(two, three));
                    control_laws::lemma_stays(two, three);
                    reveal(exprs::need_int);
                    match patterns::choose_arm(n, st, guard, c, arm, next, i) {
                        Ok((_, after)) => {
                            assert(control_laws::is_in(three, after));
                            control_laws::lemma_in(two, three, after);
                            let k = st.steps.len() as int;
                            assert(after.steps[k] == two.steps[k]);
                            assert(after.blocks[b as int] == two.blocks[b as int]);
                            assert(guards(n, two, &g, after, b, arm, next));
                            control_laws::lemma_in(st, two, after);
                        },
                        Err(_) => {},
                    }
                },
                Err(_) => {},
            }
        },
        None => {},
    }
}

} // verus!
