//! What lowered operations on collections do to memory.
use vstd::prelude::*;
use crate::codegen::collections;
use crate::codegen::control_laws;
use crate::codegen::exprs;
use crate::codegen::ir::{Family, Label, Op, Operand, Pred, Runtime, Val, I1, I64};
use crate::codegen::lower;
use crate::codegen::meaning;
use crate::codegen::meaning::Run;
use crate::codegen::pattern_laws;
use crate::codegen::state;
use crate::codegen::state::State;
use crate::codegen::value_laws;

verus! {

/// Whether a run goes from step `from` on to step `to`, which has nothing but code of other blocks
/// between them.
pub open spec fn skips(run: Run, from: int, to: int) -> bool {
    forall|p: int| #[trigger] (run.mem)(to, p) == (run.mem)(from, p)
}

/// Where a vector keeps its length.
pub open spec fn vec_len_at(run: Run, p: Operand) -> int {
    (run.field)(meaning::value(run, p.val), 1)
}

/// Where a vector keeps element `i`.
pub open spec fn vec_elem_at(run: Run, p: Operand, i: int) -> int {
    (run.elem)((run.field)(meaning::value(run, p.val), 0), i)
}

/// Where a map keeps its length.
pub open spec fn map_len_at(run: Run, p: Operand) -> int {
    (run.field)(meaning::value(run, p.val), 2)
}

/// Where a map keeps key `i`.
pub open spec fn map_key_at(run: Run, p: Operand, i: int) -> int {
    (run.elem)((run.field)(meaning::value(run, p.val), 0), i)
}

/// Where a map keeps value `i`.
pub open spec fn map_value_at(run: Run, p: Operand, i: int) -> int {
    (run.elem)((run.field)(meaning::value(run, p.val), 1), i)
}

/// A vector grows at its end: where its length is below sixteen, the code goes on, stores the element
/// behind the last, and makes the length one more; else it goes to code that ends the program.
pub proof fn law_push_appends<'a>(run: Run, st: State<'a>, p: Operand, v: Operand, n: int)
    requires
        value_laws::has_basics(st.types),
        v.ty == lower::array_elem(st, lower::struct_elem(st, p.ty, 0)),
        st.steps.len() + 11 <= usize::MAX,
        st.blocks.len() + 2 <= usize::MAX,
        (run.mem)(st.steps.len() as int, vec_len_at(run, p)) == n,
        0 <= n < i64::MAX,
        meaning::goes_through(
            run,
            collections::vec_push(st, p, v),
            st.steps.len() as int,
            (st.steps.len() + 3) as int,
        ),
        skips(run, (st.steps.len() + 3) as int, (st.steps.len() + 6) as int),
        meaning::goes_through(
            run,
            collections::vec_push(st, p, v),
            (st.steps.len() + 6) as int,
            collections::vec_push(st, p, v).steps.len() as int,
        ),
        (run.apart)(vec_len_at(run, p), vec_elem_at(run, p, n)),
    ensures
        ({
            let after = collections::vec_push(st, p, v);
            let k = st.steps.len() as int;
            &&& exists|c: Operand, ok: usize, fail: usize|
                {
                    &&& #[trigger] control_laws::is_step(after, k + 3, st.block, Op::Branch(c, ok, fail))
                    &&& meaning::value(run, c.val) == meaning::flag(n < 16)
                    &&& control_laws::is_for(after, ok, Label::PushOk)
                    &&& control_laws::is_for(after, fail, Label::PushFail)
                    &&& control_laws::is_step(after, k + 4, fail, Op::CallRuntime(Runtime::Abort, 0))
                    &&& control_laws::is_step(after, k + 5, fail, Op::Unreachable)
                    &&& after.steps[k + 6].block == ok
                    &&& after.block == ok
                }
            &&& after.steps.len() == k + 11
            &&& (run.mem)(k + 11, vec_elem_at(run, p, n)) == meaning::value(run, v.val)
            &&& (run.mem)(k + 11, vec_len_at(run, p)) == n + 1
        }),
{
    reveal(collections::vec_push);
    reveal(lower::coerce);
    reveal(lower::field_at);
    reveal(lower::elem_at);
    reveal(lower::load);
    reveal(lower::compare);
    reveal(lower::arith);
    reveal(lower::store);
    reveal(lower::stop);
    reveal(state::emit);
    reveal(state::perform);
    reveal(state::finish);
    reveal(state::block);
    reveal(state::at);
    let after = collections::vec_push(st, p, v);
    let k = st.steps.len() as int;
    assert(after.steps.len() == k + 11);
    assert(meaning::does(run, after.types, k, after.steps[k].op));
    assert(meaning::does(run, after.types, k + 1, after.steps[k + 1].op));
    assert(meaning::does(run, after.types, k + 2, after.steps[k + 2].op));
    assert(meaning::does(run, after.types, k + 6, after.steps[k + 6].op));
    assert(meaning::does(run, after.types, k + 7, after.steps[k + 7].op));
    assert(meaning::does(run, after.types, k + 8, after.steps[k + 8].op));
    assert(meaning::does(run, after.types, k + 9, after.steps[k + 9].op));
    assert(meaning::does(run, after.types, k + 10, after.steps[k + 10].op));
    let e = vec_elem_at(run, p, n);
    assert((run.mem)(k + 8 + 1, e) == meaning::value(run, v.val));
    assert((run.mem)(k + 9 + 1, e) == (run.mem)(k + 9, e));
    assert((run.mem)(k + 10 + 1, e) == (run.mem)(k + 10, e));
    let c = Operand { val: Val::Reg((k + 2) as usize), ty: I1 };
    let ok = st.blocks.len() as usize;
    let fail = (st.blocks.len() + 1) as usize;
    assert(control_laws::is_step(after, k + 3, st.block, Op::Branch(c, ok, fail)));
}

/// The length of a vector, a map or an array is what it keeps of it.
pub proof fn law_length_is_read<'a>(run: Run, st: State<'a>, f: Family, p: Operand)
    requires
        pattern_laws::is_run(run, st, collections::measure(st, f, p).1),
        f is Array ==> lower::array_len(st, p.ty) <= i64::MAX,
    ensures
        match f {
            Family::Vector => meaning::value(run, collections::measure(st, f, p).0.val) == (run.mem)(
                st.steps.len() as int,
                vec_len_at(run, p),
            ),
            Family::Mapping => meaning::value(run, collections::measure(st, f, p).0.val) == (run.mem)(
                st.steps.len() as int,
                map_len_at(run, p),
            ),
            Family::Array => meaning::value(run, collections::measure(st, f, p).0.val) == lower::array_len(st, p.ty),
            Family::Str => meaning::value(run, collections::measure(st, f, p).0.val) == (run.mem)(
                st.steps.len() as int,
                meaning::value(run, p.val),
            ),
        },
{
    reveal(collections::measure);
    reveal(lower::field_at);
    reveal(lower::load);
    reveal(state::emit);
    let after = collections::measure(st, f, p).1;
    let k = st.steps.len() as int;
    if !(f is Array) {
        assert(meaning::does(run, after.types, k, after.steps[k].op));
    }
    if f is Vector || f is Mapping {
        assert(meaning::does(run, after.types, k + 1, after.steps[k + 1].op));
    }
}

/// A vector or map that is cleared has no elements.
pub proof fn law_clear_empties<'a>(run: Run, st: State<'a>, f: Family, p: Operand)
    requires
        f is Vector || f is Mapping,
        pattern_laws::is_run(run, st, collections::clear(st, f, p)),
    ensures
        (run.mem)(
            collections::clear(st, f, p).steps.len() as int,
            if f is Mapping {
                map_len_at(run, p)
            } else {
                vec_len_at(run, p)
            },
        ) == 0,
{
    reveal(collections::clear);
    reveal(lower::field_at);
    reveal(lower::store);
    reveal(state::emit);
    reveal(state::perform);
    let after = collections::clear(st, f, p);
    let k = st.steps.len() as int;
    assert(meaning::does(run, after.types, k, after.steps[k].op));
    assert(meaning::does(run, after.types, k + 1, after.steps[k + 1].op));
}

/// A condition that has to hold: the branch goes on where it holds, and to code that ends the program
/// where it does not.
pub proof fn law_trap_ends<'a>(st: State<'a>, c: Operand)
    requires
        st.blocks.len() + 2 <= usize::MAX,
    ensures
        ({
            let after = collections::trap_unless(st, c);
            let ok = st.blocks.len() as usize;
            let fail = (st.blocks.len() + 1) as usize;
            let k = st.steps.len() as int;
            &&& after.steps.len() == k + 3
            &&& control_laws::is_in(st, after)
            &&& control_laws::is_step(after, k, st.block, Op::Branch(c, ok, fail))
            &&& control_laws::is_step(after, k + 1, fail, Op::CallRuntime(Runtime::Abort, 0))
            &&& control_laws::is_step(after, k + 2, fail, Op::Unreachable)
            &&& control_laws::is_for(after, ok, Label::TrapOk)
            &&& control_laws::is_for(after, fail, Label::TrapFail)
            &&& after.block == ok
            &&& after.types == st.types
            &&& after.fields == st.fields
        }),
{
    reveal(collections::trap_unless);
    reveal(lower::stop);
    reveal(state::perform);
    reveal(state::finish);
    reveal(state::block);
    reveal(state::at);
}

/// The last of `n` elements of a vector is taken: where there is one, the code goes on, makes the
/// length one less, and gives the element that was last; else the program ends.
pub proof fn law_pop_takes_the_last<'a>(run: Run, st: State<'a>, p: Operand, n: Operand)
    requires
        value_laws::has_basics(st.types),
        n.ty == I64,
        0 < meaning::value(run, n.val) <= i64::MAX,
        st.steps.len() + 10 <= usize::MAX,
        st.blocks.len() + 2 <= usize::MAX,
        meaning::goes_through(
            run,
            collections::vec_pop(st, p, n).1,
            st.steps.len() as int,
            (st.steps.len() + 1) as int,
        ),
        skips(run, (st.steps.len() + 1) as int, (st.steps.len() + 4) as int),
        meaning::goes_through(
            run,
            collections::vec_pop(st, p, n).1,
            (st.steps.len() + 4) as int,
            collections::vec_pop(st, p, n).1.steps.len() as int,
        ),
        (run.apart)(vec_len_at(run, p), vec_elem_at(run, p, meaning::value(run, n.val) - 1)),
    ensures
        ({
            let (r, after) = collections::vec_pop(st, p, n);
            let k = st.steps.len() as int;
            let last = meaning::value(run, n.val) - 1;
            &&& exists|c: Operand, ok: usize, fail: usize|
                {
                    &&& #[trigger] control_laws::is_step(after, k + 1, st.block, Op::Branch(c, ok, fail))
                    &&& meaning::value(run, c.val) == 1
                    &&& control_laws::is_for(after, ok, Label::TrapOk)
                    &&& control_laws::is_for(after, fail, Label::TrapFail)
                    &&& after.block == ok
                }
            &&& meaning::value(run, r.val) == (run.mem)(k, vec_elem_at(run, p, last))
            &&& (run.mem)(after.steps.len() as int, vec_len_at(run, p)) == last
        }),
{
    reveal(collections::vec_pop);
    reveal(lower::field_at);
    reveal(lower::elem_at);
    reveal(lower::load);
    reveal(lower::compare);
    reveal(lower::arith);
    reveal(lower::store);
    reveal(state::emit);
    reveal(state::perform);
    let (r, after) = collections::vec_pop(st, p, n);
    let k = st.steps.len() as int;
    let (c, one) = lower::compare(st, Pred::Differ, n, Operand { val: Val::Int(0), ty: I64 });
    law_trap_ends(one, c);
    let two = collections::trap_unless(one, c);
    assert(after.steps.len() == k + 10);
    assert(after.steps[k] == two.steps[k]);
    assert(after.steps[k + 1] == two.steps[k + 1]);
    assert(meaning::does(run, after.types, k, after.steps[k].op));
    assert(meaning::does(run, after.types, k + 4, after.steps[k + 4].op));
    assert(meaning::does(run, after.types, k + 5, after.steps[k + 5].op));
    assert(meaning::does(run, after.types, k + 6, after.steps[k + 6].op));
    assert(meaning::does(run, after.types, k + 7, after.steps[k + 7].op));
    assert(meaning::does(run, after.types, k + 8, after.steps[k + 8].op));
    assert(meaning::does(run, after.types, k + 9, after.steps[k + 9].op));
    let e = vec_elem_at(run, p, meaning::value(run, n.val) - 1);
    let l = vec_len_at(run, p);
    assert((run.mem)(k + 1, e) == (run.mem)(k, e));
    assert((run.mem)(k + 4, e) == (run.mem)(k + 1, e));
    assert((run.mem)(k + 4 + 1, e) == (run.mem)(k + 4, e));
    assert((run.mem)(k + 5 + 1, e) == (run.mem)(k + 5, e));
    assert((run.mem)(k + 6 + 1, e) == (run.mem)(k + 6, e));
    assert((run.mem)(k + 7 + 1, e) == (run.mem)(k + 7, e));
    assert((run.mem)(k + 8 + 1, e) == (run.mem)(k + 8, e));
    assert((run.mem)(k + 7 + 1, l) == (run.mem)(k + 7, l));
    assert((run.mem)(k + 8 + 1, l) == (run.mem)(k + 8, l));
    assert((run.mem)(k + 9 + 1, l) == (run.mem)(k + 9, l));
    let ok = one.blocks.len() as usize;
    let fail = (one.blocks.len() + 1) as usize;
    assert(control_laws::is_step(after, k + 1, st.block, Op::Branch(c, ok, fail)));
}

/// An entry that is added to a map stands behind the last: its key among the keys, its value among the
/// values, and the length is one more. A map of sixteen entries is full: the program ends.
pub proof fn law_entry_is_added<'a>(run: Run, st: State<'a>, p: Operand, key: Operand, v: Operand, n: int)
    requires
        value_laws::has_basics(st.types),
        key.ty == lower::array_elem(st, lower::struct_elem(st, p.ty, 0)),
        v.ty == lower::array_elem(st, lower::struct_elem(st, p.ty, 1)),
        st.steps.len() + 14 <= usize::MAX,
        st.blocks.len() + 2 <= usize::MAX,
        (run.mem)(st.steps.len() as int, map_len_at(run, p)) == n,
        0 <= n < i64::MAX,
        meaning::goes_through(
            run,
            exprs::map_append(st, p, key, v),
            st.steps.len() as int,
            (st.steps.len() + 3) as int,
        ),
        skips(run, (st.steps.len() + 3) as int, (st.steps.len() + 6) as int),
        meaning::goes_through(
            run,
            exprs::map_append(st, p, key, v),
            (st.steps.len() + 6) as int,
            exprs::map_append(st, p, key, v).steps.len() as int,
        ),
        (run.apart)(map_len_at(run, p), map_key_at(run, p, n)),
        (run.apart)(map_len_at(run, p), map_value_at(run, p, n)),
        (run.apart)(map_value_at(run, p, n), map_key_at(run, p, n)),
    ensures
        ({
            let after = exprs::map_append(st, p, key, v);
            let k = st.steps.len() as int;
            &&& exists|c: Operand, ok: usize, fail: usize|
                {
                    &&& #[trigger] control_laws::is_step(after, k + 3, st.block, Op::Branch(c, ok, fail))
                    &&& meaning::value(run, c.val) == meaning::flag(n < 16)
                    &&& control_laws::is_for(after, ok, Label::MapOk)
                    &&& control_laws::is_for(after, fail, Label::MapFail)
                    &&& control_laws::is_step(after, k + 5, fail, Op::Unreachable)
                    &&& after.block == ok
                }
            &&& (run.mem)(after.steps.len() as int, map_key_at(run, p, n)) == meaning::value(run, key.val)
            &&& (run.mem)(after.steps.len() as int, map_value_at(run, p, n)) == meaning::value(run, v.val)
            &&& (run.mem)(after.steps.len() as int, map_len_at(run, p)) == n + 1
        }),
{
    reveal(exprs::map_append);
    reveal(lower::coerce);
    reveal(lower::field_at);
    reveal(lower::elem_at);
    reveal(lower::load);
    reveal(lower::compare);
    reveal(lower::arith);
    reveal(lower::store);
    reveal(lower::stop);
    reveal(lower::array_elem);
    reveal(lower::elem_of);
    reveal(state::emit);
    reveal(state::perform);
    reveal(state::finish);
    reveal(state::block);
    reveal(state::at);
    let after = exprs::map_append(st, p, key, v);
    let k = st.steps.len() as int;
    assert(after.steps.len() == k + 14);
    assert(meaning::does(run, after.types, k, after.steps[k].op));
    assert(meaning::does(run, after.types, k + 1, after.steps[k + 1].op));
    assert(meaning::does(run, after.types, k + 2, after.steps[k + 2].op));
    assert(meaning::does(run, after.types, k + 6, after.steps[k + 6].op));
    assert(meaning::does(run, after.types, k + 7, after.steps[k + 7].op));
    assert(meaning::does(run, after.types, k + 8, after.steps[k + 8].op));
    assert(meaning::does(run, after.types, k + 9, after.steps[k + 9].op));
    assert(meaning::does(run, after.types, k + 10, after.steps[k + 10].op));
    assert(meaning::does(run, after.types, k + 11, after.steps[k + 11].op));
    assert(meaning::does(run, after.types, k + 12, after.steps[k + 12].op));
    assert(meaning::does(run, after.types, k + 13, after.steps[k + 13].op));
    let e = map_key_at(run, p, n);
    let f = map_value_at(run, p, n);
    assert((run.mem)(k + 8 + 1, e) == meaning::value(run, key.val));
    assert((run.mem)(k + 9 + 1, e) == (run.mem)(k + 9, e));
    assert((run.mem)(k + 10 + 1, e) == (run.mem)(k + 10, e));
    assert((run.mem)(k + 11 + 1, e) == (run.mem)(k + 11, e));
    assert((run.mem)(k + 12 + 1, e) == (run.mem)(k + 12, e));
    assert((run.mem)(k + 13 + 1, e) == (run.mem)(k + 13, e));
    assert((run.mem)(k + 11 + 1, f) == meaning::value(run, v.val));
    assert((run.mem)(k + 12 + 1, f) == (run.mem)(k + 12, f));
    assert((run.mem)(k + 13 + 1, f) == (run.mem)(k + 13, f));
    let c = Operand { val: Val::Reg((k + 2) as usize), ty: I1 };
    let ok = st.blocks.len() as usize;
    let fail = (st.blocks.len() + 1) as usize;
    assert(control_laws::is_step(after, k + 3, st.block, Op::Branch(c, ok, fail)));
}

} // verus!
