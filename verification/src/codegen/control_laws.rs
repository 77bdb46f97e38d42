//! Where the code of statements goes.
use vstd::prelude::*;
use crate::ast::{Block, Expr};
use crate::codegen::exprs;
use crate::codegen::ir::{Label, LoopInfo, Op, Operand, Runtime, Step};
use crate::codegen::keep;
use crate::codegen::keep_lower;
use crate::codegen::keep_state;
use crate::codegen::keep_stmts;
use crate::codegen::laws;
use crate::codegen::lower;
use crate::codegen::nest;
use crate::codegen::nest::Nest;
use crate::codegen::state;
use crate::codegen::state::State;
use crate::codegen::stmts;

verus! {

/// Whether step `k` is this one.
pub open spec fn is_step<'a>(st: State<'a>, k: int, block: usize, op: Op) -> bool {
    0 <= k < st.steps.len() && st.steps[k] == (Step { block, op })
}

/// Whether a block is for this.
pub open spec fn is_for<'a>(st: State<'a>, b: usize, label: Label) -> bool {
    b < st.blocks.len() && st.blocks[b as int].label == label
}

/// Whether the code of `one` is in `after`.
pub open spec fn is_in<'a>(one: State<'a>, after: State<'a>) -> bool {
    &&& one.steps.len() <= after.steps.len()
    &&& forall|k: int| 0 <= k < one.steps.len() ==> #[trigger] after.steps[k] == one.steps[k]
    &&& one.blocks.len() <= after.blocks.len()
    &&& forall|b: int| 0 <= b < one.blocks.len() ==> #[trigger] after.blocks[b] == one.blocks[b]
}

/// Whether the code of `ran` is in `after`, and where it ends, control goes to `target`, unless it
/// has gone elsewhere by then.
pub open spec fn goes_to<'a>(ran: State<'a>, after: State<'a>, target: usize) -> bool {
    &&& is_in(ran, after)
    &&& !state::done(ran) ==> is_step(after, ran.steps.len() as int, ran.block, Op::Jump(target))
}

/// Whether `after` has the code of a block of statements: it starts in block `b` after the code of
/// `inside`, and goes on to `target`.
pub open spec fn runs_in<'a>(
    n: Nest<'a>,
    inside: State<'a>,
    code: &'a Block,
    after: State<'a>,
    b: usize,
    target: usize,
) -> bool {
    &&& inside.block == b
    &&& is_in(inside, after)
    &&& match (n.run_block)(inside, code) {
        Ok((_, ran)) => goes_to(ran, after, target),
        Err(_) => false,
    }
}

pub proof fn lemma_stays<'a>(one: State<'a>, after: State<'a>)
    requires
        keep::kept(one, after),
    ensures
        is_in(one, after),
        laws::is_paired(after),
        one.func == after.func,
        one.loops == after.loops,
        one.loop_labels == after.loop_labels,
{
    reveal(keep::kept);
    reveal(keep::starts);
    assert forall|k: int| 0 <= k < one.steps.len() implies #[trigger] after.steps[k] == one.steps[k] by {
        assert(after.steps.take(one.steps.len() as int)[k] == after.steps[k]);
    }
    assert forall|b: int| 0 <= b < one.blocks.len() implies #[trigger] after.blocks[b] == one.blocks[b] by {
        assert(after.blocks.take(one.blocks.len() as int)[b] == after.blocks[b]);
    }
}

/// A value that has to be an integer is that value.
proof fn lemma_need_int<'a>(st: State<'a>, v: Operand, e: &'a Expr)
    ensures
        match exprs::need_int(st, v, e.span) {
            Ok((i, after)) => i == v && after == st,
            Err(_) => true,
        },
{
    reveal(exprs::need_int);
}

/// A conditional statement goes to the code of its first block where its condition holds, and to
/// that of its second block, or past the statement where there is none, where it does not. The
/// code of both goes on past the statement.
pub proof fn law_if_goes_by_its_condition<'a>(
    depth: nat,
    st: State<'a>,
    c: &'a Expr,
    a: &'a Block,
    b: &'a Option<Block>,
)
    requires
        laws::is_paired(st),
        match stmts::if_stmt(nest::nest(depth), st, c, a, b) {
            Ok((_, after)) => after.blocks.len() <= usize::MAX,
            Err(_) => true,
        },
    ensures
        match stmts::if_stmt(nest::nest(depth), st, c, a, b) {
            Ok((_, after)) => match (nest::nest::<'a>(depth).expr)(st, c) {
                Ok((v, tested)) => exists|yes: usize, no: usize, merge: usize, first: State<'a>|
                    {
                        &&& #[trigger] is_step(
                            after,
                            tested.steps.len() as int,
                            tested.block,
                            Op::Branch(v, yes, no),
                        )
                        &&& is_for(after, yes, Label::IfThen)
                        &&& is_for(after, merge, Label::IfMerge)
                        &&& after.block == merge
                        &&& first.steps.len() == tested.steps.len() + 1
                        &&& #[trigger] runs_in(nest::nest(depth), first, a, after, yes, merge)
                        &&& match *b {
                            Some(other) => is_for(after, no, Label::IfElse) && exists|second: State<'a>|
                                #[trigger] runs_in(nest::nest(depth), second, &other, after, no, merge),
                            None => no == merge,
                        }
                    },
                Err(_) => false,
            },
            Err(_) => true,
        },
{
    broadcast use {keep_lower::keeps_jump, keep_state::keeps_at, keep_state::keeps_block, keep_state::keeps_finish};

    let n = nest::nest::<'a>(depth);
    laws::lemma_nest_keeps(depth);
    keep::lemma_same(st);
    reveal(stmts::if_stmt);
    reveal(state::at);
    reveal(state::block);
    reveal(state::finish);
    match (n.expr)(st, c) {
        Ok((v, tested)) => {
            assert(keep::kept(st, tested));
            lemma_stays(st, tested);
            keep::lemma_same(tested);
            lemma_need_int(tested, v, c);
            match exprs::need_int(tested, v, c.span) {
                Ok((i, _)) => {
                    let (yes, s1) = state::block(tested, Label::IfThen);
                    match *b {
                        Some(other) => {
                            let (no, s2) = state::block(s1, Label::IfElse);
                            let (merge, s3) = state::block(s2, Label::IfMerge);
                            let s4 = state::finish(s3, Op::Branch(i, yes, no));
                            let first = state::at(s4, yes);
                            keep::lemma_same(first);
                            match (n.run_block)(first, a) {
                                Ok((x, ran)) => {
                                    assert(keep::kept(first, ran));
                                    lemma_stays(first, ran);
                                    keep::lemma_same(ran);
                                    let s5 = lower::jump(ran, merge);
                                    assert(keep::kept(ran, s5));
                                    assert(keep::kept(first, s5));
                                    lemma_jump(ran, merge);
                                    lemma_stays(ran, s5);
                                    let second = state::at(s5, no);
                                    keep::lemma_same(s5);
                                    assert(keep::kept(s5, second));
                                    assert(keep::kept(ran, second));
                                    assert(keep::kept(first, second));
                                    keep::lemma_same(second);
                                    match (n.run_block)(second, &other) {
                                        Ok((y, ran2)) => {
                                            assert(keep::kept(second, ran2));
                                            assert(keep::kept(s5, ran2));
                                            assert(keep::kept(ran, ran2));
                                            assert(keep::kept(first, ran2));
                                            lemma_stays(second, ran2);
                                            keep::lemma_same(ran2);
                                            lemma_jump(ran2, merge);
                                            let s6 = lower::jump(ran2, merge);
                                            assert(keep::kept(ran2, s6));
                                            let after = state::at(s6, merge);
                                            assert(keep::kept(ran2, after));
                                            assert(keep::kept(second, after));
                                            assert(keep::kept(s5, after));
                                            assert(keep::kept(ran, after));
                                            assert(keep::kept(first, after));
                                            lemma_stays(first, after);
                                            lemma_stays(s5, after);
                                            lemma_stays(ran, after);
                                            lemma_stays(second, after);
                                            lemma_stays(ran2, after);
                                            let k = tested.steps.len() as int;
                                            assert(after.steps[k] == first.steps[k]);
                                            assert(after.blocks[yes as int] == first.blocks[yes as int]);
                                            assert(after.blocks[no as int] == first.blocks[no as int]);
                                            assert(after.blocks[merge as int] == first.blocks[merge as int]);
                                            assert(is_step(after, k, tested.block, Op::Branch(v, yes, no)));
                                            assert(runs_in(n, first, a, after, yes, merge));
                                            assert(runs_in(n, second, &other, after, no, merge));
                                        },
                                        Err(_) => {},
                                    }
                                },
                                Err(_) => {},
                            }
                        },
                        None => {
                            let (merge, s3) = state::block(s1, Label::IfMerge);
                            let s4 = state::finish(s3, Op::Branch(i, yes, merge));
                            let first = state::at(s4, yes);
                            keep::lemma_same(first);
                            match (n.run_block)(first, a) {
                                Ok((x, ran)) => {
                                    assert(keep::kept(first, ran));
                                    lemma_stays(first, ran);
                                    keep::lemma_same(ran);
                                    let s5 = lower::jump(ran, merge);
                                    assert(keep::kept(ran, s5));
                                    lemma_jump(ran, merge);
                                    let after = state::at(s5, merge);
                                    assert(keep::kept(ran, after));
                                    assert(keep::kept(first, s5));
                                    assert(keep::kept(first, after));
                                    lemma_stays(first, after);
                                    lemma_stays(ran, after);
                                    let k = tested.steps.len() as int;
                                    assert(after.steps[k] == first.steps[k]);
                                    assert(after.blocks[yes as int] == first.blocks[yes as int]);
                                    assert(after.blocks[merge as int] == first.blocks[merge as int]);
                                    assert(is_step(after, k, tested.block, Op::Branch(v, yes, merge)));
                                    assert(runs_in(n, first, a, after, yes, merge));
                                },
                                Err(_) => {},
                            }
                        },
                    }
                },
                Err(_) => {},
            }
        },
        Err(_) => {},
    }
}

/// A jump is the next step, where the block is open.
pub proof fn lemma_jump<'a>(st: State<'a>, b: usize)
    ensures
        !state::done(st) ==> is_step(lower::jump(st, b), st.steps.len() as int, st.block, Op::Jump(b)),
        lower::jump(st, b).steps.len() >= st.steps.len(),
        forall|k: int| 0 <= k < st.steps.len() ==> #[trigger] lower::jump(st, b).steps[k] == st.steps[k],
        lower::jump(st, b).blocks == st.blocks,
        lower::jump(st, b).block == st.block,
        lower::jump(st, b).loops == st.loops,
        lower::jump(st, b).loop_labels == st.loop_labels,
{
    reveal(lower::jump);
    reveal(state::finish);
}


pub proof fn lemma_in<'a>(a: State<'a>, b: State<'a>, c: State<'a>)
    requires
        is_in(a, b),
        is_in(b, c),
    ensures
        is_in(a, c),
{
    assert forall|k: int| 0 <= k < a.steps.len() implies #[trigger] c.steps[k] == a.steps[k] by {
        assert(b.steps[k] == a.steps[k]);
    }
    assert forall|k: int| 0 <= k < a.blocks.len() implies #[trigger] c.blocks[k] == a.blocks[k] by {
        assert(b.blocks[k] == a.blocks[k]);
    }
}

/// Whether `inside` is in a loop around which `st` is: `continue` goes to `again` and `break` to
/// `exit`.
pub open spec fn is_looping<'a>(st: State<'a>, inside: State<'a>, label: Seq<char>, again: usize, exit: usize) -> bool {
    &&& inside.loops.len() == st.loops.len() + 1
    &&& inside.loops.last().again == again
    &&& inside.loops.last().exit == exit
    &&& inside.loop_labels == st.loop_labels.push(label)
}

/// A loop with a condition tests it first. Where it holds, control goes to the body and then back to
/// the test, where `continue` goes too; where it does not, control goes past the loop, where
/// `break` goes.
pub proof fn law_while_repeats<'a>(depth: nat, st: State<'a>, c: &'a Expr, b: &'a Block)
    requires
        laws::is_paired(st),
        match stmts::while_stmt(nest::nest(depth), st, c, b) {
            Ok((_, after)) => after.blocks.len() <= usize::MAX,
            Err(_) => true,
        },
    ensures
        match stmts::while_stmt(nest::nest(depth), st, c, b) {
            Ok((_, after)) => exists|cond: usize, body: usize, exit: usize, test: State<'a>, inside: State<'a>|
                {
                    &&& #[trigger] is_step(after, st.steps.len() as int, st.block, Op::Jump(cond))
                    &&& test.block == cond && test.steps.len() == st.steps.len() + 1
                    &&& is_for(after, cond, Label::WhileCond)
                    &&& #[trigger] is_for(after, exit, Label::WhileExit)
                    &&& is_for(after, body, Label::WhileBody)
                    &&& match #[trigger] (nest::nest::<'a>(depth).expr)(test, c) {
                        Ok((v, tested)) => is_step(
                            after,
                            tested.steps.len() as int,
                            tested.block,
                            Op::Branch(v, body, exit),
                        ) && inside.steps.len() == tested.steps.len() + 1,
                        Err(_) => false,
                    }
                    &&& is_looping(st, inside, ""@, cond, exit)
                    &&& #[trigger] runs_in(nest::nest(depth), inside, b, after, body, cond)
                    &&& after.block == exit
                },
            Err(_) => true,
        },
{
    broadcast use {keep_lower::keeps_jump, keep_state::keeps_at, keep_state::keeps_block, keep_state::keeps_finish};

    let n = nest::nest::<'a>(depth);
    laws::lemma_nest_keeps(depth);
    reveal(stmts::while_stmt);
    reveal(state::at);
    reveal(state::block);
    reveal(state::finish);
    reveal(state::enter_loop);
    reveal(state::leave_loop);
    let (cond, s1) = state::block(st, Label::WhileCond);
    let (body, s2) = state::block(s1, Label::WhileBody);
    let (exit, s3) = state::block(s2, Label::WhileExit);
    let test = state::at(state::finish(s3, Op::Jump(cond)), cond);
    keep::lemma_same(test);
    match (n.expr)(test, c) {
        Ok((v, tested)) => {
            assert(keep::kept(test, tested));
            lemma_stays(test, tested);
            lemma_need_int(tested, v, c);
            match exprs::need_int(tested, v, c.span) {
                Ok((i, _)) => {
                    let s4 = state::finish(tested, Op::Branch(i, body, exit));
                    let s5 = state::enter_loop(
                        s4,
                        ""@,
                        LoopInfo { again: cond, exit, depth: state::defer_depth(s4) },
                    );
                    let inside = state::at(s5, body);
                    keep::lemma_same(inside);
                    match (n.run_block)(inside, b) {
                        Ok((x, ran)) => {
                            assert(keep::kept(inside, ran));
                            lemma_stays(inside, ran);
                            lemma_jump(ran, cond);
                            let s6 = lower::jump(ran, cond);
                            let after = state::at(state::leave_loop(s6), exit);
                            assert(is_in(ran, after));
                            assert(is_in(test, tested));
                            assert(is_in(tested, inside));
                            lemma_in(test, tested, inside);
                            lemma_in(inside, ran, after);
                            lemma_in(test, inside, after);
                            let k = st.steps.len() as int;
                            assert(after.steps[k] == test.steps[k]);
                            assert(after.blocks[cond as int] == test.blocks[cond as int]);
                            assert(after.blocks[body as int] == test.blocks[body as int]);
                            assert(after.blocks[exit as int] == test.blocks[exit as int]);
                            let j = tested.steps.len() as int;
                            assert(after.steps[j] == inside.steps[j]);
                            assert(is_step(after, k, st.block, Op::Jump(cond)));
                            assert(is_for(after, exit, Label::WhileExit));
                            assert(runs_in(n, inside, b, after, body, cond));
                        },
                        Err(_) => {},
                    }
                },
                Err(_) => {},
            }
        },
        Err(_) => {},
    }
}

/// A loop without a condition runs its body over and over; `continue` goes to the next turn and
/// `break` past the loop.
pub proof fn law_loop_repeats<'a>(depth: nat, st: State<'a>, l: &'a Option<String>, b: &'a Block)
    requires
        laws::is_paired(st),
        match stmts::loop_stmt(nest::nest(depth), st, l, b) {
            Ok((_, after)) => after.blocks.len() <= usize::MAX,
            Err(_) => true,
        },
    ensures
        match stmts::loop_stmt(nest::nest(depth), st, l, b) {
            Ok((_, after)) => exists|header: usize, body: usize, exit: usize, inside: State<'a>|
                {
                    &&& #[trigger] is_step(after, st.steps.len() as int, st.block, Op::Jump(header))
                    &&& is_step(after, (st.steps.len() + 1) as int, header, Op::Jump(body))
                    &&& is_for(after, header, Label::LoopHeader)
                    &&& #[trigger] is_for(after, exit, Label::LoopExit)
                    &&& is_for(after, body, Label::LoopBody)
                    &&& inside.steps.len() == st.steps.len() + 2
                    &&& is_looping(
                        st,
                        inside,
                        match *l {
                            Some(name) => name@,
                            None => ""@,
                        },
                        header,
                        exit,
                    )
                    &&& #[trigger] runs_in(nest::nest(depth), inside, b, after, body, header)
                    &&& after.block == exit
                },
            Err(_) => true,
        },
{
    let n = nest::nest::<'a>(depth);
    laws::lemma_nest_keeps(depth);
    reveal(stmts::loop_stmt);
    reveal(stmts::enter_labelled);
    reveal(state::at);
    reveal(state::block);
    reveal(state::finish);
    reveal(state::enter_loop);
    reveal(state::leave_loop);
    let (header, s1) = state::block(st, Label::LoopHeader);
    let (body, s2) = state::block(s1, Label::LoopBody);
    let (exit, s3) = state::block(s2, Label::LoopExit);
    let s4 = state::finish(state::at(state::finish(s3, Op::Jump(header)), header), Op::Jump(body));
    let s5 = stmts::enter_labelled(s4, l, LoopInfo { again: header, exit, depth: state::defer_depth(s4) });
    let inside = state::at(s5, body);
    keep::lemma_same(inside);
    match (n.run_block)(inside, b) {
        Ok((x, ran)) => {
            assert(keep::kept(inside, ran));
            lemma_stays(inside, ran);
            lemma_jump(ran, header);
            let s6 = lower::jump(ran, header);
            let after = state::at(state::leave_loop(s6), exit);
            assert(is_in(ran, after));
            lemma_in(inside, ran, after);
            let k = st.steps.len() as int;
            assert(after.steps[k] == inside.steps[k]);
            assert(after.steps[k + 1] == inside.steps[k + 1]);
            assert(after.blocks[header as int] == inside.blocks[header as int]);
            assert(after.blocks[body as int] == inside.blocks[body as int]);
            assert(after.blocks[exit as int] == inside.blocks[exit as int]);
            assert(is_step(after, k, st.block, Op::Jump(header)));
            assert(is_for(after, exit, Label::LoopExit));
            assert(runs_in(n, inside, b, after, body, header));
        },
        Err(_) => {},
    }
}

/// An assertion goes on where its condition holds; where it does not, it goes to code that ends the
/// program.
pub proof fn law_assertion_stops<'a>(depth: nat, st: State<'a>, c: &'a Expr, m: &'a Option<Expr>)
    requires
        laws::is_paired(st),
        match stmts::assertion(nest::nest(depth), st, c, m) {
            Ok((_, after)) => after.blocks.len() <= usize::MAX,
            Err(_) => true,
        },
    ensures
        match stmts::assertion(nest::nest(depth), st, c, m) {
            Ok((_, after)) => match (nest::nest::<'a>(depth).expr)(st, c) {
                Ok((v, tested)) => exists|ok: usize, fail: usize, said: State<'a>|
                    {
                        &&& #[trigger] is_step(
                            after,
                            tested.steps.len() as int,
                            tested.block,
                            Op::Branch(v, ok, fail),
                        )
                        &&& is_for(after, ok, Label::AssertOk)
                        &&& is_for(after, fail, Label::AssertFail)
                        &&& after.block == ok
                        &&& #[trigger] is_in(said, after)
                        &&& said.steps.len() > tested.steps.len()
                        &&& after.steps.len() == said.steps.len() + 2
                        &&& is_step(
                            after,
                            said.steps.len() as int,
                            said.block,
                            Op::CallRuntime(Runtime::Abort, 0),
                        )
                        &&& is_step(after, (said.steps.len() + 1) as int, said.block, Op::Unreachable)
                    },
                Err(_) => false,
            },
            Err(_) => true,
        },
{
    let n = nest::nest::<'a>(depth);
    laws::lemma_nest_keeps(depth);
    keep::lemma_same(st);
    reveal(stmts::assertion);
    reveal(lower::stop);
    reveal(state::perform);
    reveal(state::at);
    reveal(state::block);
    reveal(state::finish);
    match (n.expr)(st, c) {
        Ok((v, tested)) => {
            assert(keep::kept(st, tested));
            lemma_stays(st, tested);
            lemma_need_int(tested, v, c);
            match exprs::need_int(tested, v, c.span) {
                Ok((i, _)) => {
                    let (ok, s1) = state::block(tested, Label::AssertOk);
                    let (fail, s2) = state::block(s1, Label::AssertFail);
                    let s3 = state::at(state::finish(s2, Op::Branch(i, ok, fail)), fail);
                    keep::lemma_same(s3);
                    keep_stmts::keeps_assert_message(s3, n, s3, m);
                    match stmts::assert_message(n, s3, m) {
                        Ok((_, said)) => {
                            lemma_stays(s3, said);
                            let after = state::at(lower::stop(said), ok);
                            assert(is_in(said, after));
                            lemma_in(s3, said, after);
                            let k = tested.steps.len() as int;
                            assert(after.steps[k] == s3.steps[k]);
                            assert(after.blocks[ok as int] == s3.blocks[ok as int]);
                            assert(after.blocks[fail as int] == s3.blocks[fail as int]);
                            assert(is_step(after, k, tested.block, Op::Branch(v, ok, fail)));
                        },
                        Err(_) => {},
                    }
                },
                Err(_) => {},
            }
        },
        Err(_) => {},
    }
}

} // verus!
