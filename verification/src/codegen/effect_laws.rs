//! What lowered assignments, declarations and steps do to memory.
use vstd::prelude::*;
use crate::ast::{BinOp, Expr, UnaryOp};
use crate::codegen::control_laws;
use crate::codegen::exprs;
use crate::codegen::ir::{Arith, Cast, Label, Op, Operand, Val, I32, I64};
use crate::codegen::keep;
use crate::codegen::laws;
use crate::codegen::lower;
use crate::codegen::meaning;
use crate::codegen::meaning::Run;
use crate::codegen::nest;
use crate::codegen::nest::Nest;
use crate::codegen::pattern_laws;
use crate::codegen::state;
use crate::codegen::state::State;
use crate::codegen::stmts;
use crate::codegen::value_laws;
use crate::codegen::value_laws::Datum;
use crate::token::Span;

verus! {

/// A value stored in memory, as a number.
pub open spec fn as_stored(d: Datum) -> int {
    match d {
        Datum::Num(n) => n,
        Datum::Flag(b) => meaning::flag(b),
    }
}

/// An assignment to a variable stores the value of its right side there, and is worth that value.
pub proof fn law_assignment_stores<'a>(
    run: Run,
    depth: nat,
    st: State<'a>,
    lhs: &'a Expr,
    value: &'a Expr,
    vars: spec_fn(Seq<char>) -> Option<Datum>,
)
    requires
        value_laws::has_basics(st.types),
        value_laws::has_no_operators(st),
        value_laws::are_typed(st, vars),
        value_laws::are_known(run, st, vars),
        value_laws::worth(*value, vars) is Some,
        lhs.kind is Ident,
        state::lookup_var(st, lhs.kind->Ident_0@) is Some,
        state::lookup_var(st, lhs.kind->Ident_0@)->0.ty == value_laws::ty_of(value_laws::worth(*value, vars)->0),
        match exprs::assign(nest::nest(depth), st, lhs, value) {
            Ok((_, after)) => pattern_laws::is_run(run, st, after),
            Err(_) => false,
        },
    ensures
        match exprs::assign(nest::nest(depth), st, lhs, value) {
            Ok((v, after)) => {
                let d = value_laws::worth(*value, vars)->0;
                &&& value_laws::adds(st, after)
                &&& value_laws::stands_for(run, v, d)
                &&& (run.mem)(
                    after.steps.len() as int,
                    meaning::value(run, state::lookup_var(st, lhs.kind->Ident_0@)->0.val),
                ) == as_stored(d)
            },
            Err(_) => false,
        },
{
    reveal(exprs::assign);
    reveal(lower::coerce);
    reveal(lower::store);
    reveal(state::perform);
    value_laws::lemma_inner(depth, st, value);
    let inner = (depth - 1) as nat;
    value_laws::lemma_added(inner, st, value, vars);
    let (v, one) = (nest::nest::<'a>(depth).expr)(st, value)->Ok_0;
    let after = exprs::assign(nest::nest(depth), st, lhs, value)->Ok_0.1;
    assert(value_laws::adds(one, after));
    value_laws::lemma_part(run, st, one, after);
    value_laws::law_expression_is_worth(run, inner, st, value, vars);
    let k = one.steps.len() as int;
    assert(meaning::does(run, after.types, k, after.steps[k].op));
}

/// What a compound assignment does where its variable holds `x` and its right side is worth `y`: the
/// variable holds the result of the operator on `x` and `y` afterwards, which the assignment is worth.
pub proof fn law_compound_assignment_updates<'a>(
    run: Run,
    n: Nest<'a>,
    st: State<'a>,
    op: BinOp,
    lhs: &'a Expr,
    value: &'a Expr,
    span: Span,
    x: int,
    y: int,
    z: int,
)
    requires
        value_laws::is_word(x),
        value_laws::is_word(y),
        value_laws::is_word(z),
        op != BinOp::And,
        op != BinOp::Or,
        op != BinOp::NullCoalesce,
        value_laws::of_numbers(op, x, y) == Some(Datum::Num(z)),
        match (n.expr)(st, value) {
            Ok((v, one)) => value_laws::stands_for(run, v, Datum::Num(y)) && match (n.place)(one, lhs) {
                Ok((p, two)) => value_laws::has_basics(two.types) && (run.mem)(
                    two.steps.len() as int,
                    meaning::value(run, p.val),
                ) == x && match exprs::compound(n, st, op, lhs, value, span) {
                    Ok((_, after)) => pattern_laws::is_run(run, two, after),
                    Err(_) => false,
                },
                Err(_) => false,
            },
            Err(_) => false,
        },
    ensures
        match exprs::compound(n, st, op, lhs, value, span) {
            Ok((r, after)) => value_laws::stands_for(run, r, Datum::Num(z)) && (run.mem)(
                after.steps.len() as int,
                meaning::value(run, (n.place)((n.expr)(st, value)->Ok_0.1, lhs)->Ok_0.0.val),
            ) == z,
            Err(_) => false,
        },
{
    reveal(exprs::compound);
    reveal(exprs::need_int);
    reveal(exprs::arith_of);
    reveal(lower::load);
    reveal(lower::arith);
    reveal(lower::store);
    reveal(state::emit);
    reveal(state::perform);
    let two = (n.place)((n.expr)(st, value)->Ok_0.1, lhs)->Ok_0.1;
    let after = exprs::compound(n, st, op, lhs, value, span)->Ok_0.1;
    let k = two.steps.len() as int;
    assert(meaning::does(run, after.types, k, after.steps[k].op));
    assert(meaning::does(run, after.types, k + 1, after.steps[k + 1].op));
    assert(meaning::does(run, after.types, k + 2, after.steps[k + 2].op));
    let p = (n.place)((n.expr)(st, value)->Ok_0.1, lhs)->Ok_0.0;
    assert((run.mem)(k + 1 + 1 + 1, meaning::value(run, p.val)) == z);
}

/// What is added to a variable by a step.
pub open spec fn stride(op: UnaryOp) -> int {
    match op {
        UnaryOp::Inc => 1,
        UnaryOp::Dec => -1,
        _ => 0,
    }
}

proof fn lemma_step<'a>(run: Run, n: Nest<'a>, st: State<'a>, inner: &'a Expr, op: Arith, x: int, d: int)
    requires
        op == Arith::Add && d == 1 || op == Arith::Sub && d == -1,
        value_laws::is_word(x),
        value_laws::is_word(x + d),
        match (n.place)(st, inner) {
            Ok((p, one)) => value_laws::has_basics(one.types) && (run.mem)(
                one.steps.len() as int,
                meaning::value(run, p.val),
            ) == x && match exprs::step_by(n, st, inner, op) {
                Ok((_, after)) => pattern_laws::is_run(run, one, after),
                Err(_) => false,
            },
            Err(_) => false,
        },
    ensures
        match exprs::step_by(n, st, inner, op) {
            Ok((r, after)) => value_laws::stands_for(run, r.0, Datum::Num(x)) && value_laws::stands_for(
                run,
                r.1,
                Datum::Num(x + d),
            ) && (run.mem)(after.steps.len() as int, meaning::value(run, (n.place)(st, inner)->Ok_0.0.val)) == x + d,
            Err(_) => false,
        },
{
    reveal(exprs::step_by);
    reveal(lower::load);
    reveal(lower::arith);
    reveal(lower::store);
    reveal(state::emit);
    reveal(state::perform);
    let one = (n.place)(st, inner)->Ok_0.1;
    let after = exprs::step_by(n, st, inner, op)->Ok_0.1;
    let k = one.steps.len() as int;
    assert(meaning::does(run, after.types, k, after.steps[k].op));
    assert(meaning::does(run, after.types, k + 1, after.steps[k + 1].op));
    assert(meaning::does(run, after.types, k + 2, after.steps[k + 2].op));
    let p = (n.place)(st, inner)->Ok_0.0;
    assert((run.mem)(k + 1 + 1 + 1, meaning::value(run, p.val)) == x + d);
}

/// `x++` and `x--` change the variable by one, and are worth what it held before.
pub proof fn law_postfix_steps<'a>(run: Run, n: Nest<'a>, st: State<'a>, op: UnaryOp, inner: &'a Expr, x: int)
    requires
        op == UnaryOp::Inc || op == UnaryOp::Dec,
        value_laws::is_word(x),
        value_laws::is_word(x + stride(op)),
        match (n.place)(st, inner) {
            Ok((p, one)) => value_laws::has_basics(one.types) && (run.mem)(
                one.steps.len() as int,
                meaning::value(run, p.val),
            ) == x && match exprs::postfix(n, st, op, inner) {
                Ok((_, after)) => pattern_laws::is_run(run, one, after),
                Err(_) => false,
            },
            Err(_) => false,
        },
    ensures
        match exprs::postfix(n, st, op, inner) {
            Ok((r, after)) => value_laws::stands_for(run, r, Datum::Num(x)) && (run.mem)(
                after.steps.len() as int,
                meaning::value(run, (n.place)(st, inner)->Ok_0.0.val),
            ) == x + stride(op),
            Err(_) => false,
        },
{
    reveal(exprs::postfix);
    if op == UnaryOp::Inc {
        lemma_step(run, n, st, inner, Arith::Add, x, 1);
    } else {
        lemma_step(run, n, st, inner, Arith::Sub, x, -1);
    }
}

/// `++x` and `--x` change the variable by one, and are worth what it holds then.
pub proof fn law_prefix_steps<'a>(
    run: Run,
    n: Nest<'a>,
    st: State<'a>,
    op: UnaryOp,
    inner: &'a Expr,
    span: Span,
    x: int,
)
    requires
        op == UnaryOp::Inc || op == UnaryOp::Dec,
        value_laws::is_word(x),
        value_laws::is_word(x + stride(op)),
        match (n.expr)(st, inner) {
            Ok((_, read)) => match (n.place)(read, inner) {
                Ok((p, one)) => value_laws::has_basics(one.types) && (run.mem)(
                    one.steps.len() as int,
                    meaning::value(run, p.val),
                ) == x && match exprs::unary(n, st, op, inner, span) {
                    Ok((_, after)) => pattern_laws::is_run(run, one, after),
                    Err(_) => false,
                },
                Err(_) => false,
            },
            Err(_) => false,
        },
    ensures
        match exprs::unary(n, st, op, inner, span) {
            Ok((r, after)) => value_laws::stands_for(run, r, Datum::Num(x + stride(op))) && (run.mem)(
                after.steps.len() as int,
                meaning::value(run, (n.place)((n.expr)(st, inner)->Ok_0.1, inner)->Ok_0.0.val),
            ) == x + stride(op),
            Err(_) => false,
        },
{
    reveal(exprs::unary);
    let read = (n.expr)(st, inner)->Ok_0.1;
    if op == UnaryOp::Inc {
        lemma_step(run, n, read, inner, Arith::Add, x, 1);
    } else {
        lemma_step(run, n, read, inner, Arith::Sub, x, -1);
    }
}

pub proof fn lemma_last_bound(names: Seq<Seq<char>>, name: Seq<char>)
    requires
        names.len() < usize::MAX,
    ensures
        state::last_named(names.push(name), name, names.len() + 1) == Some(names.len() as usize),
{
}

/// A name that is bound to a value stands for a variable of its own, which holds the value.
pub proof fn law_bound_name_holds<'a>(run: Run, st: State<'a>, name: Seq<char>, v: Operand)
    requires
        laws::is_paired(st),
        st.vars.len() < usize::MAX,
        pattern_laws::is_run(run, st, stmts::bind_value(st, name, v)),
    ensures
        ({
            let after = stmts::bind_value(st, name, v);
            &&& state::lookup_var(after, name) is Some
            &&& state::lookup_var(after, name)->0.ty == v.ty
            &&& state::lookup_var(after, name)->0.val == Val::Reg(st.steps.len() as usize)
            &&& control_laws::is_step(after, st.steps.len() as int, st.block, Op::Slot(v.ty))
            &&& (run.mem)(after.steps.len() as int, meaning::value(run, state::lookup_var(after, name)->0.val))
                == meaning::value(run, v.val)
        }),
{
    reveal(stmts::bind_value);
    reveal(lower::slot);
    reveal(lower::store);
    reveal(state::emit);
    reveal(state::perform);
    reveal(state::bind);
    let after = stmts::bind_value(st, name, v);
    lemma_last_bound(st.var_names, name);
    let k = st.steps.len() as int;
    assert(meaning::does(run, after.types, k + 1, after.steps[k + 1].op));
}

/// A conditional expression goes to the code of its first value where its condition holds, and to
/// that of its second where it does not; either is stored in one place, which is read afterwards.
pub proof fn law_conditional_chooses<'a>(
    depth: nat,
    st: State<'a>,
    c: &'a Expr,
    a: &'a Expr,
    b: &'a Expr,
    span: Span,
)
    requires
        laws::is_paired(st),
        match exprs::conditional(nest::nest(depth), st, c, a, b, span) {
            Ok((_, after)) => after.blocks.len() <= usize::MAX && after.steps.len() <= usize::MAX,
            Err(_) => true,
        },
    ensures
        match exprs::conditional(nest::nest(depth), st, c, a, b, span) {
            Ok((r, after)) => match (nest::nest::<'a>(depth).expr)(st, c) {
                Ok((v, tested)) => exists|yes: usize, no: usize, merge: usize, first: State<'a>, second: State<'a>|
                    {
                        let slot = Val::Reg(tested.steps.len() as usize);
                        &&& #[trigger] control_laws::is_step(
                            after,
                            (tested.steps.len() + 1) as int,
                            tested.block,
                            Op::Branch(v, yes, no),
                        )
                        &&& control_laws::is_for(after, yes, Label::CondThen)
                        &&& control_laws::is_for(after, no, Label::CondElse)
                        &&& #[trigger] control_laws::is_for(after, merge, Label::CondMerge)
                        &&& after.block == merge
                        &&& first.block == yes
                        &&& second.block == no
                        &&& match #[trigger] (nest::nest::<'a>(depth).expr)(first, a) {
                            Ok((x, ran)) => stores_in(after, ran, slot, x, merge),
                            Err(_) => false,
                        }
                        &&& match #[trigger] (nest::nest::<'a>(depth).expr)(second, b) {
                            Ok((y, ran)) => stores_in(after, ran, slot, y, merge),
                            Err(_) => false,
                        }
                        &&& after.steps.len() > 0 && r.val == Val::Reg((after.steps.len() - 1) as usize)
                        &&& control_laws::is_step(after, after.steps.len() - 1, merge, Op::Load(slot, I64))
                    },
                Err(_) => false,
            },
            Err(_) => true,
        },
{
    let n = nest::nest::<'a>(depth);
    laws::lemma_nest_keeps(depth);
    keep::lemma_same(st);
    reveal(exprs::conditional);
    reveal(lower::slot);
    reveal(lower::store);
    reveal(lower::load);
    reveal(state::emit);
    reveal(state::perform);
    reveal(state::at);
    reveal(state::block);
    reveal(state::finish);
    match (n.expr)(st, c) {
        Ok((v, tested)) => {
            assert(keep::kept(st, tested));
            control_laws::lemma_stays(st, tested);
            reveal(exprs::need_int);
            match exprs::conditional(n, st, c, a, b, span) {
                Ok((r, after)) => {
                    let (res, s0) = lower::slot(tested, I64);
                    let (yes, s1) = state::block(s0, Label::CondThen);
                    let (no, s2) = state::block(s1, Label::CondElse);
                    let (merge, s3) = state::block(s2, Label::CondMerge);
                    let first = state::at(state::finish(s3, Op::Branch(v, yes, no)), yes);
                    keep::lemma_same(first);
                    let (x, ran) = (n.expr)(first, a)->Ok_0;
                    assert(keep::kept(first, ran));
                    control_laws::lemma_stays(first, ran);
                    let second = state::at(
                        state::finish(lower::store(ran, res.val, x), Op::Jump(merge)),
                        no,
                    );
                    keep::lemma_same(second);
                    let (y, ran2) = (n.expr)(second, b)->Ok_0;
                    assert(keep::kept(second, ran2));
                    control_laws::lemma_stays(second, ran2);
                    assert(control_laws::is_in(ran, second));
                    assert(control_laws::is_in(ran2, after));
                    control_laws::lemma_in(first, ran, second);
                    control_laws::lemma_in(second, ran2, after);
                    control_laws::lemma_in(first, second, after);
                    let k = tested.steps.len() as int;
                    assert(after.steps[k + 1] == first.steps[k + 1]);
                    assert(after.blocks[yes as int] == first.blocks[yes as int]);
                    assert(after.blocks[no as int] == first.blocks[no as int]);
                    assert(after.blocks[merge as int] == first.blocks[merge as int]);
                    let j = ran.steps.len() as int;
                    assert(after.steps[j] == second.steps[j]);
                    assert(after.steps[j + 1] == second.steps[j + 1]);
                    assert(control_laws::is_step(after, k + 1, tested.block, Op::Branch(v, yes, no)));
                    assert(control_laws::is_for(after, merge, Label::CondMerge));
                    assert(stores_in(after, ran, res.val, x, merge));
                    assert(stores_in(after, ran2, res.val, y, merge));
                },
                Err(_) => {},
            }
        },
        Err(_) => {},
    }
}

/// Whether the code after that of `ran` stores a value and goes on to `target`.
pub open spec fn stores_in<'a>(after: State<'a>, ran: State<'a>, p: Val, v: Operand, target: usize) -> bool {
    &&& control_laws::is_step(after, ran.steps.len() as int, ran.block, Op::Store(p, v))
    &&& control_laws::is_step(after, ran.steps.len() as int + 1, ran.block, Op::Jump(target))
}

/// A `return` with a value returns that value, as one of the function's type. The main function
/// returns it as 32 bits.
pub proof fn law_return_gives_its_value<'a>(depth: nat, st: State<'a>, value: &'a Option<Expr>)
    requires
        value is Some,
    ensures
        match stmts::give_back(nest::nest(depth), st, value) {
            Ok((_, after)) => {
                let left = if !state::done(st) {
                    stmts::leave_to(st, 0)
                } else {
                    st
                };
                match (nest::nest::<'a>(depth).expr)(left, &value->0) {
                    Ok((v, made)) => {
                        &&& after.steps.len() > 0
                        &&& after.steps.last().op is Return
                        &&& after.steps.last().block == made.block
                        &&& !made.is_main && made.func is Some && state::func_info(made, made.func->0).ret == Some(
                            v.ty,
                        ) ==> after.steps.last().op->Return_0 == v
                        &&& made.is_main && lower::is_int(made, v.ty) && lower::bits(made, v.ty) == 64
                            ==> after.steps.len() == made.steps.len() + 2 && after.steps[made.steps.len() as int].op
                            == Op::Convert(Cast::Trunc, v, I32) && after.steps.last().op->Return_0.val == Val::Reg(
                            made.steps.len() as usize,
                        )
                    },
                    Err(_) => false,
                }
            },
            Err(_) => true,
        },
{
    reveal(stmts::give_back);
    reveal(stmts::main_result);
    reveal(stmts::fit_result);
    reveal(lower::convert);
    reveal(lower::coerce);
    reveal(state::emit);
    reveal(state::finish);
}

} // verus!
