//! How lowered code looks keys up, goes over collections and takes values apart.
use vstd::prelude::*;
use crate::ast::{Expr, VarDecl};
use crate::codegen::collection_laws;
use crate::codegen::control_laws;
use crate::codegen::effect_laws;
use crate::codegen::exprs;
use crate::codegen::ir::{Family, I1, I64, Label, Op, Operand, Pred, Step, Val};
use crate::codegen::laws;
use crate::codegen::lower;
use crate::codegen::meaning;
use crate::codegen::meaning::Run;
use crate::codegen::nest::Nest;
use crate::codegen::pattern_laws;
use crate::codegen::state;
use crate::codegen::state::State;
use crate::codegen::stmts;
use crate::codegen::value_laws;

verus! {

/// The place of the result of a search: where the code of the search starts, plus two.
pub open spec fn result_at<'a>(st: State<'a>) -> Val {
    Val::Reg((st.steps.len() + 2) as usize)
}

/// The place of the count of a search.
pub open spec fn count_at<'a>(st: State<'a>) -> Val {
    Val::Reg((st.steps.len() + 4) as usize)
}

/// Whether the blocks of a search go from one to the next: the test goes to the body or out, the body
/// to the hit or to the next count, a hit out, and the next count to the test.
pub open spec fn is_search<'a>(
    st: State<'a>,
    after: State<'a>,
    test: usize,
    body: usize,
    hit: usize,
    next: usize,
    exit: usize,
) -> bool {
    let k = st.steps.len() as int;
    &&& control_laws::is_step(after, k + 6, st.block, Op::Jump(test))
    &&& control_laws::is_step(
        after,
        k + 9,
        test,
        Op::Branch(Operand { val: Val::Reg((k + 8) as usize), ty: I1 }, body, exit),
    )
    &&& control_laws::is_step(
        after,
        k + 14,
        body,
        Op::Branch(Operand { val: Val::Reg((k + 13) as usize), ty: I1 }, hit, next),
    )
    &&& control_laws::is_step(after, k + 16, hit, Op::Jump(exit))
    &&& control_laws::is_step(after, k + 19, next, Op::Jump(test))
    &&& control_laws::is_for(after, test, Label::SearchLoop)
    &&& control_laws::is_for(after, body, Label::SearchBody)
    &&& control_laws::is_for(after, hit, Label::SearchHit)
    &&& control_laws::is_for(after, next, Label::SearchNext)
    &&& control_laws::is_for(after, exit, Label::SearchExit)
    &&& after.block == exit
}

/// A key that is a number is looked for among the keys of a map, from the first on: the result is
/// negative at first; as long as the count is below the length, the key of that number is compared
/// with the one that is looked for; where they are equal the result is the count, else the count
/// becomes one more.
pub proof fn law_key_is_searched<'a>(run: Run, st: State<'a>, p: Operand, key: Operand)
    requires
        value_laws::has_basics(st.types),
        lower::is_int(st, key.ty),
        key.ty == lower::array_elem(st, lower::struct_elem(st, p.ty, 0)),
        st.steps.len() + 20 <= usize::MAX,
        st.blocks.len() + 5 <= usize::MAX,
    ensures
        ({
            let (r, after) = exprs::map_find(st, p, key);
            let k = st.steps.len() as int;
            let result = meaning::value(run, result_at(st));
            let count = meaning::value(run, count_at(st));
            let i = (run.mem)(k + 7, count);
            let n = meaning::value(run, Val::Reg((k + 1) as usize));
            &&& r == (Operand { val: result_at(st), ty: I64 })
            &&& after == (State { steps: after.steps, blocks: after.blocks, ended: after.ended, block: after.block, ..st })
            &&& after.blocks.len() == st.blocks.len() + 5
            &&& after.steps.len() == k + 20
            &&& exists|test: usize, body: usize, hit: usize, next: usize, exit: usize|
                is_search(st, after, test, body, hit, next, exit)
            &&& meaning::goes_through(run, after, k, k + 6) && (run.apart)(count, result) ==> {
                &&& n == (run.mem)(k, collection_laws::map_len_at(run, p))
                &&& (run.mem)(k + 6, result) < 0
                &&& (run.mem)(k + 6, count) == 0
            }
            &&& meaning::goes_through(run, after, k + 7, k + 9) && i >= 0 && n >= 0 ==> meaning::value(
                run,
                Val::Reg((k + 8) as usize),
            ) == meaning::flag(i < n)
            &&& meaning::goes_through(run, after, k + 7, k + 9) && meaning::goes_through(run, after, k + 10, k + 14)
                ==> meaning::value(run, Val::Reg((k + 13) as usize)) == meaning::flag(
                (run.mem)(k + 10, collection_laws::map_key_at(run, p, i)) == meaning::value(run, key.val),
            )
            &&& meaning::goes_through(run, after, k + 7, k + 9) && meaning::goes_through(run, after, k + 15, k + 16)
                ==> (run.mem)(k + 16, result) == i
            &&& meaning::goes_through(run, after, k + 7, k + 9) && meaning::goes_through(run, after, k + 17, k + 19)
                && value_laws::is_word(i + 1) ==> (run.mem)(k + 19, count) == i + 1
        }),
{
    reveal(exprs::map_find);
    reveal(exprs::key_eq);
    reveal(lower::coerce);
    reveal(lower::field_at);
    reveal(lower::elem_at);
    reveal(lower::slot);
    reveal(lower::load);
    reveal(lower::compare);
    reveal(lower::arith);
    reveal(lower::store);
    reveal(lower::is_int);
    reveal(state::emit);
    reveal(state::perform);
    reveal(state::finish);
    reveal(state::block);
    reveal(state::at);
    let (r, after) = exprs::map_find(st, p, key);
    let k = st.steps.len() as int;
    assert(after.steps.len() == k + 20);
    let result = meaning::value(run, result_at(st));
    let count = meaning::value(run, count_at(st));
    let b = st.blocks.len();
    assert(is_search(
        st,
        after,
        b as usize,
        (b + 1) as usize,
        (b + 2) as usize,
        (b + 3) as usize,
        (b + 4) as usize,
    ));
    if meaning::goes_through(run, after, k, k + 6) && (run.apart)(count, result) {
        assert(meaning::does(run, after.types, k, after.steps[k].op));
        assert(meaning::does(run, after.types, k + 1, after.steps[k + 1].op));
        assert(meaning::does(run, after.types, k + 2, after.steps[k + 2].op));
        assert(meaning::does(run, after.types, k + 3, after.steps[k + 3].op));
        assert(meaning::does(run, after.types, k + 4, after.steps[k + 4].op));
        assert(meaning::does(run, after.types, k + 5, after.steps[k + 5].op));
        assert((run.mem)(k + 4 + 1, result) == (run.mem)(k + 4, result));
        assert((run.mem)(k + 5 + 1, result) == (run.mem)(k + 5, result));
    }
    if meaning::goes_through(run, after, k + 7, k + 9) {
        assert(meaning::does(run, after.types, k + 7, after.steps[k + 7].op));
        assert(meaning::does(run, after.types, k + 8, after.steps[k + 8].op));
        if meaning::goes_through(run, after, k + 10, k + 14) {
            assert(meaning::does(run, after.types, k + 10, after.steps[k + 10].op));
            assert(meaning::does(run, after.types, k + 11, after.steps[k + 11].op));
            assert(meaning::does(run, after.types, k + 12, after.steps[k + 12].op));
            assert(meaning::does(run, after.types, k + 13, after.steps[k + 13].op));
            let q = collection_laws::map_key_at(run, p, (run.mem)(k + 7, count));
            assert((run.mem)(k + 10 + 1, q) == (run.mem)(k + 10, q));
            assert((run.mem)(k + 11 + 1, q) == (run.mem)(k + 11, q));
        }
        if meaning::goes_through(run, after, k + 15, k + 16) {
            assert(meaning::does(run, after.types, k + 15, after.steps[k + 15].op));
        }
        if meaning::goes_through(run, after, k + 17, k + 19) {
            assert(meaning::does(run, after.types, k + 17, after.steps[k + 17].op));
            assert(meaning::does(run, after.types, k + 18, after.steps[k + 18].op));
        }
    }
}

/// The variable of a loop over an array holds the element of the count; over a vector or a map, the
/// element or key of that number.
pub proof fn law_loop_takes_the_element<'a>(run: Run, st: State<'a>, e: &'a Expr, i: Operand, p: Operand)
    requires
        stmts::iterated(st, e) == Some(p),
        pattern_laws::is_run(run, st, stmts::loop_value(st, e, i).1),
    ensures
        ({
            let r = meaning::value(run, stmts::loop_value(st, e, i).0.val);
            let a = meaning::value(run, p.val);
            let k = meaning::value(run, i.val);
            &&& lower::is_array(st, p.ty) ==> r == (run.mem)(st.steps.len() as int, (run.elem)(a, k))
            &&& !lower::is_array(st, p.ty) && (stmts::over_vec(st, e) || stmts::over_map(st, e)) && lower::is_struct(
                st,
                p.ty,
            ) ==> r == (run.mem)(st.steps.len() as int, (run.elem)((run.field)(a, 0), k))
        }),
{
    reveal(stmts::loop_value);
    reveal(lower::elem_at);
    reveal(lower::field_at);
    reveal(lower::load);
    reveal(state::emit);
    let after = stmts::loop_value(st, e, i).1;
    let m = st.steps.len() as int;
    if lower::is_array(st, p.ty) {
        assert(meaning::does(run, after.types, m, after.steps[m].op));
        assert(meaning::does(run, after.types, m + 1, after.steps[m + 1].op));
    } else if (stmts::over_vec(st, e) || stmts::over_map(st, e)) && lower::is_struct(st, p.ty) {
        assert(meaning::does(run, after.types, m, after.steps[m].op));
        assert(meaning::does(run, after.types, m + 1, after.steps[m + 1].op));
        assert(meaning::does(run, after.types, m + 2, after.steps[m + 2].op));
        let q = (run.elem)((run.field)(meaning::value(run, p.val), 0), meaning::value(run, i.val));
        assert((run.mem)(m + 1 + 1, q) == (run.mem)(m + 1, q));
        assert((run.mem)(m + 1, q) == (run.mem)(m, q));
    }
}

/// A loop runs as often as the collection has elements.
pub proof fn law_loop_goes_to_the_end<'a>(run: Run, st: State<'a>, e: &'a Expr, p: Operand)
    requires
        stmts::iterated(st, e) == Some(p),
        !stmts::over_str(st, e),
        lower::is_array(st, p.ty) ==> lower::array_len(st, p.ty) <= i64::MAX,
        pattern_laws::is_run(run, st, stmts::limit(st, e).1),
    ensures
        ({
            let n = meaning::value(run, stmts::limit(st, e).0.val);
            let k = st.steps.len() as int;
            &&& stmts::over_vec(st, e) && lower::is_struct(st, p.ty) ==> n == (run.mem)(
                k,
                collection_laws::vec_len_at(run, p),
            )
            &&& !stmts::over_vec(st, e) && stmts::over_map(st, e) && lower::is_struct(st, p.ty) ==> n == (run.mem)(
                k,
                collection_laws::map_len_at(run, p),
            )
            &&& !lower::is_struct(st, p.ty) && lower::is_array(st, p.ty) ==> n == lower::array_len(st, p.ty)
        }),
{
    reveal(stmts::limit);
    if stmts::over_vec(st, e) && lower::is_struct(st, p.ty) {
        collection_laws::law_length_is_read(run, st, Family::Vector, p);
    } else if stmts::over_map(st, e) && lower::is_struct(st, p.ty) {
        collection_laws::law_length_is_read(run, st, Family::Mapping, p);
    } else if lower::is_array(st, p.ty) {
        collection_laws::law_length_is_read(run, st, Family::Array, p);
    }
}

/// A value that is taken apart gives its part of the number that is asked for.
pub proof fn law_part_is_taken<'a>(run: Run, st: State<'a>, v: Operand, i: usize)
    requires
        i <= u32::MAX,
        lower::is_struct(st, v.ty) || lower::is_array(st, v.ty),
        pattern_laws::is_run(run, st, stmts::part(st, v, i).1),
    ensures
        meaning::value(run, stmts::part(st, v, i).0.val) == (run.part)(meaning::value(run, v.val), i as int),
{
    reveal(stmts::part);
    pattern_laws::lemma_extract(run, st, v, i as u32);
}

/// A variable is in scope under its name before its first value is computed; that value is stored in
/// it, and where it has none, zero.
pub proof fn law_variable_gets_its_value<'a>(n: Nest<'a>, st: State<'a>, d: &'a VarDecl)
    requires
        laws::is_paired(st),
        st.vars.len() < usize::MAX,
        match stmts::var_ty(n, st, &d.ty, &d.init) {
            Ok((_, one)) => one.var_names == st.var_names && one.vars == st.vars,
            Err(_) => true,
        },
        match d.init {
            Some(e) => stmts::list_in(&e) is None && !stmts::is_empty_vec(&e) && stmts::entries_in(&e) is None,
            None => true,
        },
    ensures
        match stmts::var_decl(n, st, d) {
            Ok((_, after)) => match stmts::var_ty(n, st, &d.ty, &d.init) {
                Ok((t, one)) => {
                    let place = Val::Reg(one.steps.len() as usize);
                    match d.init {
                        Some(e) => exists|ready: State<'a>|
                            {
                                &&& ready.steps.len() == one.steps.len() + 1
                                &&& state::lookup_var(ready, d.name@) == Some(Operand { val: place, ty: t })
                                &&& match #[trigger] (n.expr)(ready, &e) {
                                    Ok((v, made)) => {
                                        &&& after.steps.len() > made.steps.len()
                                        &&& after.steps.last().op is Store
                                        &&& after.steps.last().op->Store_0 == place
                                        &&& v.ty == t ==> after.steps.last().op->Store_1 == v
                                    },
                                    Err(_) => false,
                                }
                            },
                        None => {
                            &&& after.steps.last().op == Op::Store(place, Operand { val: Val::Zero, ty: t })
                            &&& state::lookup_var(after, d.name@) == Some(Operand { val: place, ty: t })
                        },
                    }
                },
                Err(_) => false,
            },
            Err(_) => true,
        },
{
    reveal(stmts::var_decl);
    reveal(stmts::store_init);
    reveal(stmts::note_dtor);
    reveal(lower::slot);
    reveal(lower::store);
    reveal(lower::coerce);
    reveal(state::emit);
    reveal(state::perform);
    reveal(state::bind);
    reveal(state::note_vec);
    reveal(state::note_map);
    reveal(state::note_str);
    reveal(state::add_dtor);
    match stmts::var_ty(n, st, &d.ty, &d.init) {
        Ok((t, one)) => {
            effect_laws::lemma_last_bound(st.var_names, d.name@);
            let (p, s1) = lower::slot(one, t);
            let s2 = state::bind(s1, d.name@, p);
            assert(state::lookup_var(s2, d.name@) == Some(p));
            match d.init {
                Some(e) => {
                    let s3 = if lower::is_vec_ty(&d.ty) || lower::is_any_ty(&d.ty) && stmts::empty_vec_init(&d.init) {
                        state::note_vec(s2, d.name@)
                    } else {
                        s2
                    };
                    let s4 = if lower::is_map_ty(&d.ty) || lower::is_any_ty(&d.ty) && stmts::has_entries(&d.init) {
                        state::note_map(s3, d.name@)
                    } else {
                        s3
                    };
                    let s5 = if lower::is_str_ty(&d.ty) {
                        state::note_str(s4, d.name@)
                    } else {
                        s4
                    };
                    let ready = stmts::note_dtor(s5, d.name@, &d.ty, p.val);
                    assert(ready.steps.len() == one.steps.len() + 1);
                    assert(state::lookup_var(ready, d.name@) == Some(p));
                    match (n.expr)(ready, &e) {
                        Ok((v, made)) => {},
                        Err(_) => {},
                    }
                },
                None => {},
            }
        },
        Err(_) => {},
    }
}


/// An entry of a map is set: where the search has found the key, which is where its result is not
/// negative, the value is stored at that number; else the entry is added. Both go on behind it.
pub proof fn law_entry_is_set<'a>(run: Run, st: State<'a>, p: Operand, key: Operand, v: Operand)
    requires
        value_laws::has_basics(st.types),
        lower::is_int(st, key.ty),
        key.ty == lower::array_elem(st, lower::struct_elem(st, p.ty, 0)),
        v.ty == lower::array_elem(st, lower::struct_elem(st, p.ty, 1)),
        st.steps.len() + 50 <= usize::MAX,
        st.blocks.len() + 10 <= usize::MAX,
    ensures
        ({
            let found = exprs::map_find(st, p, key).1;
            let after = exprs::map_put(st, p, key, v);
            let m = found.steps.len() as int;
            let i = (run.mem)(m, meaning::value(run, result_at(st)));
            let c = Operand { val: Val::Reg((m + 1) as usize), ty: I1 };
            exists|hit: usize, miss: usize, merge: usize, missed: State<'a>|
                {
                    &&& #[trigger] control_laws::is_step(
                        after,
                        (found.steps.len() + 2) as int,
                        found.block,
                        Op::Branch(
                            Operand { val: Val::Reg((found.steps.len() + 1) as usize), ty: I1 },
                            hit,
                            miss,
                        ),
                    )
                    &&& control_laws::is_for(after, hit, Label::MapHit)
                    &&& control_laws::is_for(after, miss, Label::MapMiss)
                    &&& #[trigger] control_laws::is_for(after, merge, Label::MapMerge)
                    &&& control_laws::is_step(after, m + 6, hit, Op::Jump(merge))
                    &&& missed.block == miss
                    &&& missed.steps.len() == m + 7
                    &&& after.block == merge
                    &&& after.steps == (#[trigger] exprs::map_append(missed, p, key, v)).steps.push(
                        Step {
                            block: exprs::map_append(missed, p, key, v).block,
                            op: Op::Jump(merge),
                        },
                    )
                    &&& meaning::goes_through(run, after, m, m + 2) ==> meaning::value(run, c.val) == meaning::flag(
                        i >= 0,
                    )
                    &&& meaning::goes_through(run, after, m, m + 2) && meaning::goes_through(run, after, m + 3, m + 6)
                        ==> (run.mem)(m + 6, collection_laws::map_value_at(run, p, i)) == meaning::value(run, v.val)
                }
        }),
{
    law_key_is_searched(run, st, p, key);
    let (res, found) = exprs::map_find(st, p, key);
    let after = exprs::map_put(st, p, key, v);
    reveal(exprs::map_put);
    reveal(lower::coerce);
    reveal(lower::field_at);
    reveal(lower::elem_at);
    reveal(lower::load);
    reveal(lower::compare);
    reveal(lower::store);
    reveal(lower::array_elem);
    reveal(lower::elem_of);
    reveal(state::emit);
    reveal(state::perform);
    reveal(state::finish);
    reveal(state::block);
    reveal(state::at);
    let m = found.steps.len() as int;
    let (hit, s1) = state::block(found, Label::MapHit);
    let (miss, s2) = state::block(s1, Label::MapMiss);
    let (merge, s3) = state::block(s2, Label::MapMerge);
    let (i, s4) = lower::load(s3, res);
    let (c, s5) = lower::compare(s4, Pred::GreaterOrSame, i, Operand { val: Val::Int(0), ty: I64 });
    let s6 = state::at(state::finish(s5, Op::Branch(c, hit, miss)), hit);
    let (vb, s7) = lower::field_at(s6, p.ty, p.val, 1);
    let vals = lower::struct_elem(st, p.ty, 1);
    let (vp, s8) = lower::elem_at(s7, vals, vb, i);
    let s9 = lower::store(s8, vp, v);
    let missed = state::at(state::finish(s9, Op::Jump(merge)), miss);
    assert(missed.steps.len() == m + 7);
    lemma_append_grows(missed, p, key, v);
    let added = exprs::map_append(missed, p, key, v);
    assert(after == state::at(state::finish(added, Op::Jump(merge)), merge));
    assert(after.steps[m + 2] == missed.steps[m + 2]);
    assert(after.steps[m + 6] == missed.steps[m + 6]);
    assert(after.blocks[hit as int] == missed.blocks[hit as int]);
    assert(after.blocks[miss as int] == missed.blocks[miss as int]);
    assert(after.blocks[merge as int] == missed.blocks[merge as int]);
    assert(control_laws::is_step(after, m + 2, found.block, Op::Branch(c, hit, miss)));
    assert(control_laws::is_for(after, merge, Label::MapMerge));
    if meaning::goes_through(run, after, m, m + 2) {
        assert(after.steps[m] == missed.steps[m]);
        assert(after.steps[m + 1] == missed.steps[m + 1]);
        assert(meaning::does(run, after.types, m, after.steps[m].op));
        assert(meaning::does(run, after.types, m + 1, after.steps[m + 1].op));
        if meaning::goes_through(run, after, m + 3, m + 6) {
            assert(after.steps[m + 3] == missed.steps[m + 3]);
            assert(after.steps[m + 4] == missed.steps[m + 4]);
            assert(after.steps[m + 5] == missed.steps[m + 5]);
            assert(meaning::does(run, after.types, m + 3, after.steps[m + 3].op));
            assert(meaning::does(run, after.types, m + 4, after.steps[m + 4].op));
            assert(meaning::does(run, after.types, m + 5, after.steps[m + 5].op));
        }
    }
}

/// To add an entry only adds code and blocks.
proof fn lemma_append_grows<'a>(st: State<'a>, p: Operand, key: Operand, v: Operand)
    ensures
        control_laws::is_in(st, exprs::map_append(st, p, key, v)),
        exprs::map_append(st, p, key, v).types == st.types,
{
    reveal(exprs::map_append);
    reveal(lower::coerce);
    reveal(lower::field_at);
    reveal(lower::elem_at);
    reveal(lower::load);
    reveal(lower::compare);
    reveal(lower::arith);
    reveal(lower::store);
    reveal(lower::stop);
    reveal(state::emit);
    reveal(state::perform);
    reveal(state::finish);
    reveal(state::block);
    reveal(state::at);
}

} // verus!
