//! What holds of every lowering.
use vstd::prelude::*;
use crate::ast::{Block, ClassDecl, Expr, MatchArm, Program, Type};
use crate::codegen;
use crate::codegen::calls;
use crate::codegen::collections;
use crate::codegen::declare;
use crate::codegen::exprs;
use crate::codegen::functions;
use crate::codegen::ir::{Label, LoopInfo, Member, MemberKind, Op, Operand, Pred, Runtime, Step, Val, I1, I64};
use crate::codegen::keep;
use crate::codegen::keep_exprs;
use crate::codegen::keep_functions;
use crate::codegen::keep_lower;
use crate::codegen::keep_patterns;
use crate::codegen::keep_places;
use crate::codegen::keep_state;
use crate::codegen::keep_stmts;
use crate::codegen::lower;
use crate::codegen::nest;
use crate::codegen::nest::Nest;
use crate::codegen::patterns;
use crate::codegen::state;
use crate::codegen::state::{Failure, State};
use crate::codegen::stmts;
use crate::token::Span;

verus! {

/// Whether each variable in scope has its name.
pub open spec fn is_paired<'a>(st: State<'a>) -> bool {
    st.vars.len() == st.var_names.len()
}

/// What is nested keeps what was there, however deep it is.
pub proof fn lemma_nest_keeps<'a>(depth: nat)
    ensures
        keep::nest_keeps(nest::nest::<'a>(depth)),
    decreases depth,
{
    reveal(nest::nest);
    if depth > 0 {
        let inner = nest::nest::<'a>((depth - 1) as nat);
        let n = nest::nest::<'a>(depth);
        lemma_nest_keeps((depth - 1) as nat);
        assert forall|base: State<'a>, st: State<'a>, t: &'a Type|
            #![trigger keep::kept(base, st), (n.ty)(st, t)]
            keep::kept(base, st) && (n.ty)(st, t) is Ok implies keep::kept(base, (n.ty)(st, t)->Ok_0.1) by {
            keep_lower::keeps_ty(base, inner, st, t);
        }
        assert forall|base: State<'a>, st: State<'a>, t: &'a Type|
            #![trigger keep::kept(base, st), (n.held_ty)(st, t)]
            keep::kept(base, st) && (n.held_ty)(st, t) is Ok implies keep::kept(
            base,
            (n.held_ty)(st, t)->Ok_0.1,
        ) by {
            keep_lower::keeps_held_ty(base, inner, st, t);
        }
        assert forall|base: State<'a>, st: State<'a>, e: &'a Expr|
            #![trigger keep::kept(base, st), (n.place)(st, e)]
            keep::kept(base, st) && (n.place)(st, e) is Ok implies keep::kept(base, (n.place)(st, e)->Ok_0.1) by {
            keep_places::keeps_place(base, inner, st, e);
        }
        assert forall|base: State<'a>, st: State<'a>, e: &'a Expr|
            #![trigger keep::kept(base, st), (n.expr)(st, e)]
            keep::kept(base, st) && (n.expr)(st, e) is Ok implies keep::kept(base, (n.expr)(st, e)->Ok_0.1) by {
            keep_exprs::keeps_expr(base, inner, st, e);
        }
        assert forall|base: State<'a>, st: State<'a>, b: &'a Block|
            #![trigger keep::kept(base, st), (n.run_block)(st, b)]
            keep::kept(base, st) && (n.run_block)(st, b) is Ok implies keep::kept(
            base,
            (n.run_block)(st, b)->Ok_0.1,
        ) by {
            keep_stmts::keeps_run_block(base, inner, st, b);
        }
    }
}

/// To lower a program only adds to a module: every type, step, block, function, layout, global
/// and text that was there is there still, under the index that it had, and nothing is left
/// open.
pub proof fn law_program_grows<'a>(st: State<'a>, prog: &'a Program)
    requires
        is_paired(st),
        keep::is_outside(st),
    ensures
        codegen::compiled(st, prog) is Ok ==> keep::kept(st, codegen::compiled(st, prog)->Ok_0),
{
    let depth = codegen::MAX_DEPTH as nat;
    lemma_nest_keeps(depth);
    keep::lemma_same(st);
    keep_functions::keeps_lower_program(st, nest::nest(depth), st, prog);
}

/// What a block declares, defers and opens ends with the block: the variables, the deferred
/// code, the loops and the function are afterwards those that they were before.
pub proof fn law_block_scope<'a>(depth: nat, st: State<'a>, b: &'a Block)
    requires
        is_paired(st),
    ensures
        match stmts::run_block(nest::nest(depth), st, b) {
            Ok((_, after)) => {
                &&& after.var_names == st.var_names
                &&& after.vars == st.vars
                &&& after.marks == st.marks
                &&& after.defers == st.defers
                &&& after.defer_marks == st.defer_marks
                &&& after.dtors == st.dtors
                &&& after.dtor_marks == st.dtor_marks
                &&& after.loops == st.loops
                &&& after.loop_labels == st.loop_labels
                &&& after.func == st.func
                &&& after.is_main == st.is_main
                &&& after.class == st.class
            },
            Err(_) => true,
        },
{
    broadcast use {keep_stmts::keeps_run_stmts, keep_stmts::keeps_end_scope};

    reveal(stmts::run_block);
    let n = nest::nest::<'a>(depth);
    lemma_nest_keeps(depth);
    keep::lemma_same(st);
    let scope = state::open_scope(st);
    keep::lemma_scope_opens(st, st);
    let open = state::open_defers(scope);
    keep::lemma_defers_opens(scope, scope);
    match stmts::run_stmts(n, open, &b.stmts, 0) {
        Ok((_, ran)) => {
            assert(keep::kept(open, ran));
            match stmts::end_scope(n, ran) {
                Ok((_, ended)) => {
                    keep::lemma_defers(scope, scope, ended);
                    let inner = state::close_defers(ended);
                    keep::lemma_scope(st, st, inner);
                    reveal(keep::kept);
                    reveal(state::open_scope);
                    reveal(state::close_scope);
                },
                Err(_) => {},
            }
        },
        Err(_) => {},
    }
}

proof fn lemma_all_closed<'a>(st: State<'a>, n: nat)
    requires
        state::all_closed_to(st, n),
    ensures
        forall|i: int| 0 <= i < n ==> i < st.ended.len() && #[trigger] st.ended[i],
    decreases n,
{
    if n > 0 {
        lemma_all_closed(st, (n - 1) as nat);
    }
}

proof fn lemma_all_give<'a>(st: State<'a>, n: nat)
    requires
        state::all_give_to(st, n),
    ensures
        forall|k: int| 0 <= k < n ==> #[trigger] state::step_gives(st, k),
    decreases n,
{
    if n > 0 {
        lemma_all_give(st, (n - 1) as nat);
    }
}

/// In a module that was lowered without error every block ends with a jump, a branch, a return
/// or a trap, and what a function returns is of its result type.
pub proof fn law_blocks_end<'a>(st: State<'a>, prog: &'a Program)
    ensures
        match codegen::compiled(st, prog) {
            Ok(after) => {
                &&& forall|i: int|
                    0 <= i < after.blocks.len() ==> i < after.ended.len() && #[trigger] after.ended[i]
                &&& forall|k: int| 0 <= k < after.steps.len() ==> #[trigger] state::step_gives(after, k)
            },
            Err(_) => true,
        },
{
    reveal(functions::lower_program);
    match codegen::compiled(st, prog) {
        Ok(after) => {
            lemma_all_closed(after, after.blocks.len());
            lemma_all_give(after, after.steps.len());
        },
        Err(_) => {},
    }
}

/// A class with the name of a struct or class that is there is refused, and nothing is declared.
pub proof fn law_duplicate_class_declares_nothing<'a>(n: Nest<'a>, st: State<'a>, c: &'a ClassDecl)
    requires
        declare::is_struct_name(st, c.name@),
    ensures
        declare::declare_class(n, st, c) == Err::<((), State<'a>), Failure<'a>>(
            Failure { trouble: state::naming("duplicate class/struct `"@, c.name@, "`"@, c.name_span), after: st },
        ),
{
    reveal(declare::declare_class);
}

// ── Deferred code ───────────────────────────────────────────────────────────

/// Whether the scopes of deferred code stand one inside the other. Their number, and that of what
/// is deferred, can be counted.
pub open spec fn has_scopes<'a>(st: State<'a>) -> bool {
    &&& st.defer_marks.len() <= usize::MAX
    &&& st.defers.len() <= usize::MAX
    &&& forall|i: int, j: int|
        0 <= i <= j < st.defer_marks.len() ==> #[trigger] st.defer_marks[i] <= #[trigger] st.defer_marks[j]
    &&& forall|i: int| 0 <= i < st.defer_marks.len() ==> #[trigger] st.defer_marks[i] <= st.defers.len()
}

/// What lowering the deferred code `lo..hi` gives, all of it, the last first.
pub open spec fn run_down<'a>(n: Nest<'a>, st: State<'a>, lo: int, hi: int) -> Result<State<'a>, Failure<'a>>
    decreases hi - lo,
{
    if hi <= lo {
        Ok(st)
    } else {
        match stmts::deferred(n, st, st.defers[hi - 1]) {
            Ok((_, after)) => run_down(n, after, lo, hi - 1),
            Err(f) => Err(f),
        }
    }
}

/// Whether control gets past each piece of the deferred code `lo..hi`.
pub open spec fn goes_on<'a>(n: Nest<'a>, st: State<'a>, lo: int, hi: int) -> bool
    decreases hi - lo,
{
    hi <= lo || match stmts::deferred(n, st, st.defers[hi - 1]) {
        Ok((_, after)) => !state::done(after) && goes_on(n, after, lo, hi - 1),
        Err(_) => true,
    }
}

proof fn lemma_defers_stay<'a>(base: State<'a>, st: State<'a>)
    requires
        keep::kept(base, st),
    ensures
        base.defers.len() <= st.defers.len(),
        base.defer_marks == st.defer_marks,
{
    reveal(keep::kept);
    reveal(keep::starts);
}

proof fn lemma_run_down_parts<'a>(n: Nest<'a>, st: State<'a>, lo: int, mid: int, hi: int)
    requires
        lo <= mid <= hi,
    ensures
        run_down(n, st, lo, hi) == match run_down(n, st, mid, hi) {
            Ok(s) => run_down(n, s, lo, mid),
            Err(f) => Err(f),
        },
        goes_on(n, st, lo, hi) ==> goes_on(n, st, mid, hi) && match run_down(n, st, mid, hi) {
            Ok(s) => goes_on(n, s, lo, mid),
            Err(_) => true,
        },
    decreases hi - mid,
{
    if mid < hi {
        match stmts::deferred(n, st, st.defers[hi - 1]) {
            Ok((_, after)) => lemma_run_down_parts(n, after, lo, mid, hi - 1),
            Err(_) => {},
        }
    }
}

proof fn lemma_run_level<'a>(base: State<'a>, n: Nest<'a>, st: State<'a>, lo: usize, hi: usize)
    requires
        keep::kept(base, st),
        keep::nest_keeps(n),
        hi <= base.defers.len(),
        goes_on(n, st, lo as int, hi as int),
    ensures
        match run_down(n, st, lo as int, hi as int) {
            Ok(s) => stmts::run_level(n, st, lo, hi) == Ok::<((), State<'a>), Failure<'a>>(((), s)) && keep::kept(
                base,
                s,
            ),
            Err(f) => stmts::run_level(n, st, lo, hi) == Err::<((), State<'a>), Failure<'a>>(f),
        },
    decreases hi,
{
    reveal(stmts::run_level);
    if lo < hi {
        lemma_defers_stay(base, st);
        let d = st.defers[hi - 1];
        keep_stmts::keeps_deferred(base, n, st, d);
        match stmts::deferred(n, st, d) {
            Ok((_, after)) => lemma_run_level(base, n, after, lo, (hi - 1) as usize),
            Err(_) => {},
        }
    }
}

proof fn lemma_run_levels<'a>(
    base: State<'a>,
    n: Nest<'a>,
    st: State<'a>,
    target: usize,
    level: usize,
    hi: usize,
)
    requires
        keep::kept(base, st),
        keep::nest_keeps(n),
        has_scopes(base),
        target <= level <= base.defer_marks.len(),
        hi == state::defer_start(st, level),
        level == base.defer_marks.len() ==> st.defers.len() == hi,
        hi <= base.defers.len(),
        goes_on(n, st, state::defer_start(base, target) as int, hi as int),
    ensures
        match run_down(n, st, state::defer_start(base, target) as int, hi as int) {
            Ok(s) => stmts::run_levels(n, st, target, level) == Ok::<((), State<'a>), Failure<'a>>(((), s)),
            Err(f) => stmts::run_levels(n, st, target, level) == Err::<((), State<'a>), Failure<'a>>(f),
        },
    decreases level,
{
    reveal(stmts::run_levels);
    lemma_defers_stay(base, st);
    let lo = state::defer_start(base, target);
    if target < level {
        let inner = (level - 1) as usize;
        let mid = state::defer_start(st, inner);
        assert(mid == base.defer_marks[inner as int]);
        assert(lo == base.defer_marks[target as int]);
        if level < base.defer_marks.len() {
            assert(hi == base.defer_marks[level as int]);
        }
        assert(mid <= hi);
        lemma_run_down_parts(n, st, lo as int, mid as int, hi as int);
        lemma_run_level(base, n, st, mid, hi);
        match run_down(n, st, mid as int, hi as int) {
            Ok(s) => {
                lemma_defers_stay(base, s);
                lemma_run_levels(base, n, s, target, inner, mid);
            },
            Err(_) => {},
        }
    } else {
        assert(lo >= hi);
    }
}

/// All that is deferred in the scopes that are left is lowered, the last first.
proof fn lemma_exit<'a>(depth: nat, st: State<'a>, target: usize)
    requires
        is_paired(st),
        has_scopes(st),
        target <= st.defer_marks.len(),
        goes_on(nest::nest(depth), st, state::defer_start(st, target) as int, st.defers.len() as int),
    ensures
        match run_down(nest::nest(depth), st, state::defer_start(st, target) as int, st.defers.len() as int) {
            Ok(s) => stmts::run_levels(nest::nest(depth), st, target, state::defer_depth(st)) == Ok::<
                ((), State<'a>),
                Failure<'a>,
            >(((), s)),
            Err(f) => stmts::run_levels(nest::nest(depth), st, target, state::defer_depth(st)) == Err::<
                ((), State<'a>),
                Failure<'a>,
            >(f),
        },
{
    lemma_nest_keeps(depth);
    keep::lemma_same(st);
    lemma_run_levels(
        st,
        nest::nest(depth),
        st,
        target,
        state::defer_depth(st),
        st.defers.len() as usize,
    );
}

/// A return first runs all that is deferred in the function, the last first; then it destroys the
/// variables and returns.
pub proof fn law_return_runs_deferred<'a>(depth: nat, st: State<'a>, value: &'a Option<Expr>)
    requires
        is_paired(st),
        has_scopes(st),
        goes_on(nest::nest(depth), st, state::defer_start(st, 0) as int, st.defers.len() as int),
    ensures
        stmts::leave_stmt(nest::nest(depth), st, value) == match run_down(
            nest::nest(depth),
            st,
            state::defer_start(st, 0) as int,
            st.defers.len() as int,
        ) {
            Ok(ran) => stmts::give_back(nest::nest(depth), ran, value),
            Err(f) => Err(f),
        },
{
    reveal(stmts::leave_stmt);
    lemma_exit(depth, st, 0);
}

/// A `break` first runs all that is deferred inside the loop, the last first; then it destroys the
/// variables and leaves the loop.
pub proof fn law_break_runs_deferred<'a>(
    depth: nat,
    st: State<'a>,
    label: &'a Option<String>,
    span: Span,
    t: LoopInfo,
)
    requires
        is_paired(st),
        has_scopes(st),
        stmts::target_loop(st, label) == Some(t),
        t.depth <= st.defer_marks.len(),
        goes_on(nest::nest(depth), st, state::defer_start(st, t.depth) as int, st.defers.len() as int),
    ensures
        stmts::break_stmt(nest::nest(depth), st, label, span) == match run_down(
            nest::nest(depth),
            st,
            state::defer_start(st, t.depth) as int,
            st.defers.len() as int,
        ) {
            Ok(ran) => Ok(((), state::finish(stmts::leave_to(ran, t.depth), Op::Jump(t.exit)))),
            Err(f) => Err(f),
        },
{
    reveal(stmts::break_stmt);
    lemma_exit(depth, st, t.depth);
}

/// A `continue` first runs all that is deferred inside the loop, the last first; then it destroys
/// the variables and goes to the next turn.
pub proof fn law_continue_runs_deferred<'a>(
    depth: nat,
    st: State<'a>,
    label: &'a Option<String>,
    span: Span,
    t: LoopInfo,
)
    requires
        is_paired(st),
        has_scopes(st),
        stmts::target_loop(st, label) == Some(t),
        t.depth <= st.defer_marks.len(),
        goes_on(nest::nest(depth), st, state::defer_start(st, t.depth) as int, st.defers.len() as int),
    ensures
        stmts::continue_stmt(nest::nest(depth), st, label, span) == match run_down(
            nest::nest(depth),
            st,
            state::defer_start(st, t.depth) as int,
            st.defers.len() as int,
        ) {
            Ok(ran) => Ok(((), state::finish(stmts::leave_to(ran, t.depth), Op::Jump(t.again)))),
            Err(f) => Err(f),
        },
{
    reveal(stmts::continue_stmt);
    lemma_exit(depth, st, t.depth);
}

/// The end of a block that control gets to runs all that is deferred in the block, the last first;
/// then it destroys the variables of the block.
pub proof fn law_end_runs_deferred<'a>(depth: nat, st: State<'a>)
    requires
        is_paired(st),
        has_scopes(st),
        st.defer_marks.len() > 0,
        !state::done(st),
        goes_on(nest::nest(depth), st, st.defer_marks.last() as int, st.defers.len() as int),
    ensures
        stmts::end_scope(nest::nest(depth), st) == match run_down(
            nest::nest(depth),
            st,
            st.defer_marks.last() as int,
            st.defers.len() as int,
        ) {
            Ok(ran) => Ok(
                (
                    (),
                    stmts::run_dtors(
                        ran,
                        state::dtor_start(ran, (st.defer_marks.len() - 1) as usize),
                        state::dtor_start(ran, st.defer_marks.len() as usize),
                    ),
                ),
            ),
            Err(f) => Err(f),
        },
{
    reveal(stmts::end_scope);
    reveal(calls::minus);
    let n = nest::nest::<'a>(depth);
    let lo = st.defer_marks.last() as usize;
    let hi = st.defers.len() as usize;
    lemma_nest_keeps(depth);
    keep::lemma_same(st);
    lemma_run_level(st, n, st, lo, hi);
    lemma_still_open(n, st, lo as int, hi as int);
}

proof fn lemma_still_open<'a>(n: Nest<'a>, st: State<'a>, lo: int, hi: int)
    requires
        !state::done(st),
        goes_on(n, st, lo, hi),
    ensures
        match run_down(n, st, lo, hi) {
            Ok(s) => !state::done(s),
            Err(_) => true,
        },
    decreases hi - lo,
{
    if lo < hi {
        match stmts::deferred(n, st, st.defers[hi - 1]) {
            Ok((_, after)) => lemma_still_open(n, after, lo, hi - 1),
            Err(_) => {},
        }
    }
}

// ── Empty vectors ───────────────────────────────────────────────────────────

/// Whether the code that was added reads nothing before it has tested that `n` is not zero, and
/// aborts where it is: the test at step `g`, the branch, the two steps of the block for failure,
/// and then only steps of the block for success.
pub open spec fn is_guarded<'a>(st: State<'a>, after: State<'a>, n: Operand, g: int) -> bool {
    let ok = st.blocks.len() as usize;
    let fail = (st.blocks.len() + 1) as usize;
    let v = after.steps;
    &&& st.steps.len() <= g && g + 4 <= v.len()
    &&& forall|j: int| st.steps.len() <= j < g ==> !(#[trigger] v[j].op is Load)
    &&& v[g].op == Op::Compare(Pred::Differ, n, Operand { val: Val::Int(0), ty: I64 })
    &&& v[g + 1].op == Op::Branch(Operand { val: Val::Reg(g as usize), ty: I1 }, ok, fail)
    &&& v[g + 2] == (Step { block: fail, op: Op::CallRuntime(Runtime::Abort, 0) })
    &&& v[g + 3] == (Step { block: fail, op: Op::Unreachable })
    &&& forall|j: int| g + 4 <= j < v.len() ==> #[trigger] v[j].block == ok
}

/// `first`, `last` and `pop` of a vector end the program where the vector is empty, before they
/// read an element.
pub proof fn law_empty_vector_aborts<'a>(st: State<'a>, p: Operand, n: Operand, first: bool)
    requires
        st.steps.len() + 16 <= usize::MAX,
        st.blocks.len() + 2 <= usize::MAX,
    ensures
        is_guarded(st, collections::edge_of_vec(st, p, n, first).1, n, st.steps.len() as int + 1),
        is_guarded(st, collections::vec_pop(st, p, n).1, n, st.steps.len() as int),
{
    reveal(collections::edge_of_vec);
    reveal(collections::vec_pop);
    reveal(collections::trap_unless);
    reveal(lower::stop);
    reveal(lower::field_at);
    reveal(lower::elem_at);
    reveal(lower::compare);
    reveal(lower::arith);
    reveal(lower::load);
    reveal(lower::store);
    reveal(state::emit);
    reveal(state::perform);
    reveal(state::finish);
    reveal(state::block);
    reveal(state::at);
}

// ── Matches ─────────────────────────────────────────────────────────────────

/// Whether a step from `from` on goes to `arm` where its test holds, and to `next` where it does
/// not.
pub open spec fn branches<'a>(st: State<'a>, from: nat, arm: usize, next: usize) -> bool {
    exists|k: int|
        from <= k < st.steps.len() && (#[trigger] st.steps[k]).op is Branch && st.steps[k].op->Branch_1 == arm
            && st.steps[k].op->Branch_2 == next
}

/// The block that is gone to where arm `i` does not take the value: the one that tests the next
/// arm, or the one after the match.
pub open spec fn next_block(arm: nat, i: usize, count: nat, merge: usize) -> usize {
    if i + 1 < count {
        (arm + 1) as usize
    } else {
        merge
    }
}

proof fn lemma_choose_arm<'a>(
    nest: Nest<'a>,
    st: State<'a>,
    guard: &'a Option<Expr>,
    c: Operand,
    arm: usize,
    next: usize,
    i: usize,
)
    requires
        keep::nest_keeps(nest),
        is_paired(st),
    ensures
        match patterns::choose_arm(nest, st, guard, c, arm, next, i) {
            Ok((_, after)) => after.steps.len() > st.steps.len() && after.steps.last().op is Branch
                && after.steps.last().op->Branch_1 == arm && after.steps.last().op->Branch_2 == next,
            Err(_) => true,
        },
{
    broadcast use keep_exprs::keeps_need_int;

    reveal(patterns::choose_arm);
    reveal(state::finish);
    reveal(state::block);
    reveal(state::at);
    match *guard {
        Some(e) => {
            let (g, one) = state::block(st, Label::MatchGuard(i));
            let two = state::at(state::finish(one, Op::Branch(c, g, next)), g);
            keep::lemma_same(two);
            match (nest.expr)(two, &e) {
                Ok((v, three)) => {
                    assert(keep::kept(two, three));
                    match exprs::need_int(three, v, e.span) {
                        Ok((_, four)) => {
                            assert(keep::kept(two, four));
                            reveal(keep::kept);
                            reveal(keep::starts);
                        },
                        Err(_) => {},
                    }
                },
                Err(_) => {},
            }
        },
        None => {},
    }
}

/// The arms of a match are tried in order, and the body of the first that takes the value is run.
/// Arm `i` has a block of its own, to which a branch goes where the arm takes the value; where it
/// does not, the branch goes on to the test of the next arm, or past the match. The body is
/// lowered in the block of the arm, and goes on after the match, so that no other body runs; the
/// arms after it are lowered where the branch goes on.
pub proof fn law_match_tries_arms_in_order<'a>(
    depth: nat,
    st: State<'a>,
    e: &'a Expr,
    arms: &'a Vec<MatchArm>,
    i: usize,
    v: Operand,
    merge: usize,
    res: Option<Operand>,
)
    requires
        is_paired(st),
        i < arms.len(),
        st.blocks.len() + 1 < usize::MAX,
    ensures
        match patterns::match_arms(nest::nest(depth), st, e, arms, i, v, merge, res) {
            Ok((r, after)) => {
                let arm = st.blocks.len() as usize;
                let next = next_block(st.blocks.len(), i, arms@.len(), merge);
                &&& arm < after.blocks.len() && after.blocks[arm as int].label == Label::MatchArm(i)
                &&& branches(after, st.steps.len(), arm, next)
                &&& exists|inside: State<'a>, body: State<'a>, y: Option<Operand>|
                    #![trigger keep::kept(inside, body), patterns::match_arms(
                        nest::nest(depth),
                        state::at(lower::jump(body, merge), next),
                        e,
                        arms,
                        (i + 1) as usize,
                        v,
                        merge,
                        y,
                    )]
                    inside.block == arm && keep::kept(inside, body) && patterns::match_arms(
                        nest::nest(depth),
                        state::at(lower::jump(body, merge), next),
                        e,
                        arms,
                        (i + 1) as usize,
                        v,
                        merge,
                        y,
                    ) == Ok::<(Option<Operand>, State<'a>), Failure<'a>>((r, after))
            },
            Err(_) => true,
        },
{
    broadcast use {
        keep_lower::keeps_jump,
        keep_patterns::keeps_arm_value,
        keep_patterns::keeps_bind_pattern,
        keep_patterns::keeps_choose_arm,
        keep_patterns::keeps_keep,
        keep_patterns::keeps_next_arm,
        keep_patterns::keeps_test_pattern,
        keep_patterns::keeps_match_arms,
        keep_state::keeps_at,
        keep_state::keeps_block,
    };

    let n = nest::nest(depth);
    lemma_nest_keeps(depth);
    keep::lemma_same(st);
    reveal(patterns::match_arms);
    let a = &arms@[i as int];
    let (arm, one) = state::block(st, Label::MatchArm(i));
    let (next, two) = patterns::next_arm(one, i, (i + 1) as usize >= arms.len(), merge);
    assert(arm == st.blocks.len() && one.blocks.len() == arm + 1 && one.blocks[arm as int].label == Label::MatchArm(
        i,
    )) by {
        reveal(state::block);
    }
    assert(next == next_block(st.blocks.len(), i, arms@.len(), merge)) by {
        reveal(patterns::next_arm);
        reveal(state::block);
    }
    match patterns::test_pattern(n, two, &a.pattern, v, e) {
        Ok((c, three)) => {
            assert(keep::kept(st, three));
            assert(is_paired(three) && st.steps.len() <= three.steps.len()) by {
                reveal(keep::kept);
                reveal(keep::starts);
            }
            lemma_choose_arm(n, three, &a.guard, c, arm, next, i);
            match patterns::choose_arm(n, three, &a.guard, c, arm, next, i) {
                Ok((_, four)) => {
                    assert(keep::kept(st, three));
                    assert(keep::kept(st, four));
                    assert(keep::kept(one, one) && keep::kept(one, four)) by {
                        reveal(keep::kept);
                        keep::lemma_same(one);
                    }
                    assert(is_paired(four)) by {
                        reveal(keep::kept);
                    }
                    keep::lemma_same(four);
                    let inside = state::at(four, arm);
                    assert(keep::kept(four, inside));
                    assert(inside.block == arm) by {
                        reveal(state::at);
                    }
                    assert(is_paired(inside)) by {
                        reveal(keep::kept);
                    }
                    keep::lemma_same(inside);
                    keep::lemma_scope_opens(inside, inside);
                    let bound = patterns::bind_pattern(state::open_scope(inside), &a.pattern, v);
                    match patterns::arm_value(n, bound, &a.body) {
                        Ok((x, lowered)) => {
                            keep::lemma_scope(inside, inside, lowered);
                            keep::lemma_scope(four, inside, lowered);
                            let (y, body) = patterns::keep(state::close_scope(lowered), x, res);
                            assert(keep::kept(inside, body));
                            assert(keep::kept(four, body));
                            let rest = state::at(lower::jump(body, merge), next);
                            assert(keep::kept(four, rest));
                            match patterns::match_arms(n, rest, e, arms, (i + 1) as usize, v, merge, y) {
                                Ok((r, after)) => {
                                    assert(keep::kept(four, after));
                                    lemma_kept_steps(st, four, after);
                                    lemma_kept_blocks(one, four, after);
                                },
                                Err(_) => {},
                            }
                        },
                        Err(_) => {},
                    }
                },
                Err(_) => {},
            }
        },
        Err(_) => {},
    }
}

proof fn lemma_kept_steps<'a>(st: State<'a>, four: State<'a>, after: State<'a>)
    requires
        keep::kept(st, four),
        keep::kept(four, after),
        four.steps.len() > st.steps.len(),
        four.steps.last().op is Branch,
    ensures
        branches(after, st.steps.len(), four.steps.last().op->Branch_1, four.steps.last().op->Branch_2),
{
    reveal(keep::kept);
    reveal(keep::starts);
    let k = four.steps.len() - 1;
    assert(after.steps.take(four.steps.len() as int)[k] == after.steps[k]);
}

proof fn lemma_kept_blocks<'a>(one: State<'a>, four: State<'a>, after: State<'a>)
    requires
        keep::kept(one, four),
        keep::kept(four, after),
    ensures
        one.blocks.len() <= after.blocks.len(),
        forall|b: int| 0 <= b < one.blocks.len() ==> #[trigger] after.blocks[b] == one.blocks[b],
{
    reveal(keep::kept);
    reveal(keep::starts);
    assert forall|b: int| 0 <= b < one.blocks.len() implies #[trigger] after.blocks[b] == one.blocks[b] by {
        assert(after.blocks.take(four.blocks.len() as int)[b] == after.blocks[b]);
        assert(four.blocks.take(one.blocks.len() as int)[b] == four.blocks[b]);
    }
}

// ── Classes ─────────────────────────────────────────────────────────────────

/// Whether class `l` gets member `k` of class `p`: a member that is passed on, and that the class
/// does not replace by one of its own. A getter and a setter replace each other: a property is
/// passed on as a whole or not at all.
pub open spec fn is_inherited<'a>(st: State<'a>, p: usize, l: usize, methods: bool, k: int) -> bool {
    &&& 0 <= k < st.members.len()
    &&& st.members[k].layout == p
    &&& declare::is_passed_on(st.members[k].kind, methods)
    &&& !state::like_in(st, k as usize, l, st.members.len())
}

/// Whether entry `j` of `after` is member `k` of `st`, given to class `l`.
pub open spec fn is_copy<'a>(st: State<'a>, after: State<'a>, l: usize, k: int, j: int) -> bool {
    after.members[j] == (Member { layout: l, ..st.members[k] }) && after.member_names[j] == st.member_names[k]
}

/// Whether entry `j` of `after` is a member that class `l` gets from class `p`.
pub open spec fn was_inherited<'a>(
    st: State<'a>,
    after: State<'a>,
    p: usize,
    l: usize,
    methods: bool,
    j: int,
) -> bool {
    exists|i: int| is_inherited(st, p, l, methods, i) && #[trigger] is_copy(st, after, l, i, j)
}

/// Whether an entry of `after` from `from` on is member `i` of `st`, given to class `l`.
pub open spec fn is_given<'a>(st: State<'a>, after: State<'a>, l: usize, i: int, from: nat) -> bool {
    exists|j: int| from <= j < after.members.len() && #[trigger] is_copy(st, after, l, i, j)
}

proof fn lemma_like_in<'a>(a: State<'a>, b: State<'a>, k: usize, l: usize, n: nat)
    requires
        n <= a.members.len() <= b.members.len(),
        a.members.len() == a.member_names.len(),
        b.members.len() == b.member_names.len(),
        k < a.members.len(),
        forall|j: int| 0 <= j < a.members.len() ==> #[trigger] b.members[j] == a.members[j],
        forall|j: int| 0 <= j < a.members.len() ==> #[trigger] b.member_names[j] == a.member_names[j],
    ensures
        state::like_in(b, k, l, n) == state::like_in(a, k, l, n),
    decreases n,
{
    if n > 0 {
        lemma_like_in(a, b, k, l, (n - 1) as nat);
    }
}

proof fn lemma_inherits<'a>(base: State<'a>, st: State<'a>, p: usize, l: usize, methods: bool, k: usize, n: usize)
    requires
        base.members.len() == n,
        base.member_names.len() == n,
        st.members.len() == st.member_names.len(),
        n <= st.members.len(),
        forall|j: int| 0 <= j < n ==> #[trigger] st.members[j] == base.members[j],
        forall|j: int| 0 <= j < n ==> #[trigger] st.member_names[j] == base.member_names[j],
        k <= n,
    ensures
        ({
            let after = declare::inherit_members(st, p, l, methods, k, n);
            &&& after.members.len() == after.member_names.len()
            &&& st.members.len() <= after.members.len()
            &&& forall|j: int| 0 <= j < st.members.len() ==> #[trigger] after.members[j] == st.members[j]
            &&& forall|j: int| 0 <= j < st.members.len() ==> #[trigger] after.member_names[j] == st.member_names[j]
            &&& forall|j: int|
                st.members.len() <= j < after.members.len() ==> #[trigger] was_inherited(
                    base,
                    after,
                    p,
                    l,
                    methods,
                    j,
                )
            &&& forall|i: int|
                k <= i < n && #[trigger] is_inherited(base, p, l, methods, i) ==> is_given(
                    base,
                    after,
                    l,
                    i,
                    st.members.len(),
                )
        }),
    decreases n - k,
{
    reveal(declare::inherit_members);
    let after = declare::inherit_members(st, p, l, methods, k, n);
    if k < n {
        let m = state::member_info(st, k);
        lemma_like_in(base, st, k, l, n as nat);
        assert(declare::is_passed_on(m.kind, methods) == declare::is_passed_on(m.kind, methods)) by {
            reveal(declare::is_passed_on);
        }
        let passes = m.layout == p && declare::is_passed_on(m.kind, methods) && !state::owns_like(st, k, l, n);
        assert(passes == is_inherited(base, p, l, methods, k as int));
        let mid = if passes {
            state::copy_member(st, k, l)
        } else {
            st
        };
        reveal(state::copy_member);
        lemma_inherits(base, mid, p, l, methods, (k + 1) as usize, n);
        let at = st.members.len() as int;
        if passes {
            assert(mid.members[at] == (Member { layout: l, ..st.members[k as int] }));
            assert(after.members[at] == mid.members[at]);
            assert(after.member_names[at] == mid.member_names[at]);
            assert(is_copy(base, after, l, k as int, at));
        }
        assert forall|j: int| st.members.len() <= j < after.members.len() implies #[trigger] was_inherited(
            base,
            after,
            p,
            l,
            methods,
            j,
        ) by {
            if passes && j == at {
                assert(is_copy(base, after, l, k as int, j));
            }
        }
        assert forall|i: int| k <= i < n && #[trigger] is_inherited(base, p, l, methods, i) implies is_given(
            base,
            after,
            l,
            i,
            st.members.len(),
        ) by {
            if i > k {
                assert(is_given(base, after, l, i, mid.members.len()));
                let j = choose|j: int| mid.members.len() <= j < after.members.len() && #[trigger] is_copy(base, after, l, i, j);
                assert(is_copy(base, after, l, i, j));
            }
        }
    }
}

/// A class has the members of the one that it extends, but for those that it has itself: what was
/// there stays, every entry that is added is a member that is passed on and that the class does
/// not replace, and every such member is added.
pub proof fn law_class_inherits<'a>(st: State<'a>, p: usize, l: usize, methods: bool)
    requires
        st.members.len() == st.member_names.len() <= usize::MAX,
    ensures
        ({
            let n = st.members.len();
            let after = declare::inherit_members(st, p, l, methods, 0, n as usize);
            &&& n <= after.members.len() == after.member_names.len()
            &&& forall|j: int| 0 <= j < n ==> #[trigger] after.members[j] == st.members[j]
            &&& forall|j: int| 0 <= j < n ==> #[trigger] after.member_names[j] == st.member_names[j]
            &&& forall|j: int|
                n <= j < after.members.len() ==> #[trigger] was_inherited(st, after, p, l, methods, j)
            &&& forall|i: int| #[trigger] is_inherited(st, p, l, methods, i) ==> is_given(st, after, l, i, n)
        }),
{
    lemma_inherits(st, st, p, l, methods, 0, st.members.len() as usize);
}

proof fn lemma_like<'a>(st: State<'a>, k: usize, l: usize, n: nat, own: int)
    requires
        n <= st.members.len(),
        st.members.len() == st.member_names.len(),
        k < st.members.len(),
        0 <= own < n,
        st.members[own].layout == l,
        st.member_names[own] == st.member_names[k as int],
        (st.members[own].kind == MemberKind::Method) == (st.members[k as int].kind == MemberKind::Method),
        state::passes_on(st.members[own].kind),
    ensures
        state::like_in(st, k, l, n),
    decreases n,
{
    if own < n - 1 {
        lemma_like(st, k, l, (n - 1) as nat, own);
    }
}

proof fn lemma_entry_same<'a>(st: State<'a>, after: State<'a>, name: Seq<char>, l: usize, kind: MemberKind, n: nat)
    requires
        st.members.len() == st.member_names.len() <= after.members.len(),
        after.members.len() == after.member_names.len(),
        n <= after.members.len(),
        forall|j: int| 0 <= j < st.members.len() ==> #[trigger] after.members[j] == st.members[j],
        forall|j: int| 0 <= j < st.members.len() ==> #[trigger] after.member_names[j] == st.member_names[j],
        forall|j: int|
            st.members.len() <= j < n ==> !(#[trigger] after.member_names[j] == name && after.members[j].layout == l
                && after.members[j].kind == kind),
    ensures
        state::member_entry_from(after.member_names, after.members, name, l, kind, n)
            == state::member_entry_from(st.member_names, st.members, name, l, kind, if n <= st.members.len() {
            n
        } else {
            st.members.len()
        }),
    decreases n,
{
    if n > 0 {
        lemma_entry_same(st, after, name, l, kind, (n - 1) as nat);
        let j = n - 1;
        if j >= st.members.len() {
            assert(!(after.member_names[j] == name && after.members[j].layout == l && after.members[j].kind == kind));
        }
    }
}

/// The members of a class win over those that it inherits: where it has a method of a name, or a
/// getter or setter of a name, looking up the method, or the getter and the setter, finds after
/// the inheritance what it found before.
pub proof fn law_own_members_win<'a>(
    st: State<'a>,
    p: usize,
    l: usize,
    methods: bool,
    own: int,
    kind: MemberKind,
)
    requires
        st.members.len() == st.member_names.len() <= usize::MAX,
        0 <= own < st.members.len(),
        st.members[own].layout == l,
        state::passes_on(st.members[own].kind),
        (st.members[own].kind == MemberKind::Method) == (kind == MemberKind::Method),
    ensures
        ({
            let after = declare::inherit_members(st, p, l, methods, 0, st.members.len() as usize);
            state::member_entry(after, st.member_names[own], l, kind) == state::member_entry(
                st,
                st.member_names[own],
                l,
                kind,
            )
        }),
{
    let n = st.members.len();
    let after = declare::inherit_members(st, p, l, methods, 0, n as usize);
    let name = st.member_names[own];
    law_class_inherits(st, p, l, methods);
    assert forall|j: int| n <= j < after.members.len() implies !(#[trigger] after.member_names[j] == name
        && after.members[j].layout == l && after.members[j].kind == kind) by {
        assert(was_inherited(st, after, p, l, methods, j));
        let i = choose|i: int| is_inherited(st, p, l, methods, i) && #[trigger] is_copy(st, after, l, i, j);
        if after.member_names[j] == name && after.members[j].kind == kind {
            lemma_like(st, i as usize, l, n, own);
        }
    }
    lemma_entry_same(st, after, name, l, kind, after.members.len());
}

} // verus!
