//! What every part of a lowering keeps.
use vstd::prelude::*;
use crate::ast::{Block, Expr, Type};
use crate::codegen::functions;
use crate::codegen::ir::{Label, LoopInfo};
use crate::codegen::keep_state;
use crate::codegen::nest::Nest;
use crate::codegen::state;
use crate::codegen::state::State;
use crate::codegen::stmts;

verus! {

/// Whether `a` is how `b` starts.
#[verifier::opaque]
pub open spec fn starts<T>(a: Seq<T>, b: Seq<T>) -> bool {
    a.len() <= b.len() && b.take(a.len() as int) == a
}

/// Whether what holds in `a` holds in `b`.
#[verifier::opaque]
pub open spec fn stays(a: Seq<bool>, b: Seq<bool>) -> bool {
    a.len() <= b.len() && forall|i: int| 0 <= i < a.len() && a[i] ==> #[trigger] b[i]
}

/// To add to a list keeps how it starts.
pub broadcast proof fn starts_push<T>(a: Seq<T>, b: Seq<T>, x: T)
    requires
        starts(a, b),
    ensures
        #[trigger] starts(a, b.push(x)),
{
    reveal(starts);
    assert(b.push(x).take(a.len() as int) =~= b.take(a.len() as int));
}

proof fn lemma_starts<T>(a: Seq<T>, b: Seq<T>, c: Seq<T>)
    ensures
        starts(a, a),
        starts(a, b) && starts(b, c) ==> starts(a, c),
        starts(a, b) ==> state::cut(b, a.len()) == a,
{
    reveal(starts);
    assert(a.take(a.len() as int) =~= a);
    if starts(a, b) {
        if a.len() == b.len() {
            assert(b.take(a.len() as int) =~= b);
        }
        if starts(b, c) {
            assert(c.take(a.len() as int) =~= c.take(b.len() as int).take(a.len() as int));
        }
    }
}

/// Whether a lowering holds all that another holds: the tables of the module have only grown,
/// and the scopes, loops and function are those that they were.
#[verifier::opaque]
pub open spec fn kept<'a>(a: State<'a>, b: State<'a>) -> bool {
    &&& a.module_name == b.module_name
    &&& starts(a.types, b.types)
    &&& starts(a.steps, b.steps)
    &&& starts(a.blocks, b.blocks)
    &&& stays(a.ended, b.ended)
    &&& starts(a.func_names, b.func_names)
    &&& starts(a.funcs, b.funcs)
    &&& starts(a.params, b.params)
    &&& starts(a.param_names, b.param_names)
    &&& starts(a.layout_names, b.layout_names)
    &&& starts(a.layout_enums, b.layout_enums)
    &&& starts(a.field_names, b.field_names)
    &&& starts(a.fields, b.fields)
    &&& starts(a.defaults, b.defaults)
    &&& starts(a.tag_names, b.tag_names)
    &&& starts(a.tags, b.tags)
    &&& starts(a.member_names, b.member_names)
    &&& starts(a.members, b.members)
    &&& starts(a.global_names, b.global_names)
    &&& starts(a.globals, b.globals)
    &&& starts(a.consts, b.consts)
    &&& starts(a.texts, b.texts)
    &&& starts(a.var_names, b.var_names)
    &&& starts(a.vars, b.vars)
    &&& starts(a.vec_vars, b.vec_vars)
    &&& starts(a.map_vars, b.map_vars)
    &&& starts(a.str_vars, b.str_vars)
    &&& starts(a.defers, b.defers)
    &&& starts(a.dtors, b.dtors)
    &&& a.marks == b.marks
    &&& a.loop_labels == b.loop_labels
    &&& a.loops == b.loops
    &&& a.defer_marks == b.defer_marks
    &&& a.dtor_marks == b.dtor_marks
    &&& a.func == b.func
    &&& a.is_main == b.is_main
    &&& a.class == b.class
    &&& a.closures <= b.closures
    &&& b.vars.len() == b.var_names.len()
}

/// Whether no function is being lowered.
pub open spec fn is_outside<'a>(st: State<'a>) -> bool {
    st.func is None && st.class is None && !st.is_main
}

/// A lowering holds all that it holds.
pub proof fn lemma_same<'a>(a: State<'a>)
    requires
        a.vars.len() == a.var_names.len(),
    ensures
        kept(a, a),
{
    reveal(kept);
    reveal(stays);
    lemma_starts(a.types, a.types, a.types);
    lemma_starts(a.steps, a.steps, a.steps);
    lemma_starts(a.blocks, a.blocks, a.blocks);
    lemma_starts(a.func_names, a.func_names, a.func_names);
    lemma_starts(a.funcs, a.funcs, a.funcs);
    lemma_starts(a.params, a.params, a.params);
    lemma_starts(a.layout_enums, a.layout_enums, a.layout_enums);
    lemma_starts(a.param_names, a.param_names, a.param_names);
    lemma_starts(a.layout_names, a.layout_names, a.layout_names);
    lemma_starts(a.field_names, a.field_names, a.field_names);
    lemma_starts(a.fields, a.fields, a.fields);
    lemma_starts(a.defaults, a.defaults, a.defaults);
    lemma_starts(a.tag_names, a.tag_names, a.tag_names);
    lemma_starts(a.tags, a.tags, a.tags);
    lemma_starts(a.member_names, a.member_names, a.member_names);
    lemma_starts(a.members, a.members, a.members);
    lemma_starts(a.global_names, a.global_names, a.global_names);
    lemma_starts(a.globals, a.globals, a.globals);
    lemma_starts(a.consts, a.consts, a.consts);
    lemma_starts(a.texts, a.texts, a.texts);
    lemma_starts(a.var_names, a.var_names, a.var_names);
    lemma_starts(a.vars, a.vars, a.vars);
    lemma_starts(a.vec_vars, a.vec_vars, a.vec_vars);
    lemma_starts(a.map_vars, a.map_vars, a.map_vars);
    lemma_starts(a.str_vars, a.str_vars, a.str_vars);
    lemma_starts(a.defers, a.defers, a.defers);
    lemma_starts(a.dtors, a.dtors, a.dtors);
}

/// What is kept twice is kept.
pub proof fn lemma_kept_on<'a>(a: State<'a>, b: State<'a>, c: State<'a>)
    requires
        kept(a, b),
        kept(b, c),
    ensures
        kept(a, c),
{
    reveal(kept);
    reveal(stays);
    lemma_starts(a.types, b.types, c.types);
    lemma_starts(a.steps, b.steps, c.steps);
    lemma_starts(a.blocks, b.blocks, c.blocks);
    lemma_starts(a.func_names, b.func_names, c.func_names);
    lemma_starts(a.funcs, b.funcs, c.funcs);
    lemma_starts(a.params, b.params, c.params);
    lemma_starts(a.param_names, b.param_names, c.param_names);
    lemma_starts(a.layout_names, b.layout_names, c.layout_names);
    lemma_starts(a.layout_enums, b.layout_enums, c.layout_enums);
    lemma_starts(a.field_names, b.field_names, c.field_names);
    lemma_starts(a.fields, b.fields, c.fields);
    lemma_starts(a.defaults, b.defaults, c.defaults);
    lemma_starts(a.tag_names, b.tag_names, c.tag_names);
    lemma_starts(a.tags, b.tags, c.tags);
    lemma_starts(a.member_names, b.member_names, c.member_names);
    lemma_starts(a.members, b.members, c.members);
    lemma_starts(a.global_names, b.global_names, c.global_names);
    lemma_starts(a.globals, b.globals, c.globals);
    lemma_starts(a.consts, b.consts, c.consts);
    lemma_starts(a.texts, b.texts, c.texts);
    lemma_starts(a.var_names, b.var_names, c.var_names);
    lemma_starts(a.vars, b.vars, c.vars);
    lemma_starts(a.vec_vars, b.vec_vars, c.vec_vars);
    lemma_starts(a.map_vars, b.map_vars, c.map_vars);
    lemma_starts(a.str_vars, b.str_vars, c.str_vars);
    lemma_starts(a.defers, b.defers, c.defers);
    lemma_starts(a.dtors, b.dtors, c.dtors);
}

/// A scope starts with what was there.
pub proof fn lemma_scope_opens<'a>(base: State<'a>, outer: State<'a>)
    requires
        kept(base, outer),
    ensures
        kept(state::open_scope(outer), state::open_scope(outer)),
{
    reveal(kept);
    reveal(state::open_scope);
    lemma_same(state::open_scope(outer));
}

/// A scope of deferred code starts with what was there.
pub proof fn lemma_defers_opens<'a>(base: State<'a>, outer: State<'a>)
    requires
        kept(base, outer),
    ensures
        kept(state::open_defers(outer), state::open_defers(outer)),
{
    reveal(kept);
    reveal(state::open_defers);
    lemma_same(state::open_defers(outer));
}

/// A loop starts with what was there.
pub proof fn lemma_loop_opens<'a>(base: State<'a>, outer: State<'a>, label: Seq<char>, info: LoopInfo)
    requires
        kept(base, outer),
    ensures
        kept(state::enter_loop(outer, label, info), state::enter_loop(outer, label, info)),
{
    reveal(kept);
    reveal(state::enter_loop);
    lemma_same(state::enter_loop(outer, label, info));
}

/// A function starts with what was there.
pub proof fn lemma_function_opens<'a>(base: State<'a>, outer: State<'a>, func: Option<usize>, is_main: bool, class: Option<usize>)
    requires
        kept(base, outer),
    ensures
        kept(state::set_function(outer, func, is_main, class), state::set_function(outer, func, is_main, class)),
{
    reveal(kept);
    reveal(state::set_function);
    lemma_same(state::set_function(outer, func, is_main, class));
}

/// A loop that may have a label starts with what was there.
pub proof fn lemma_labelled_opens<'a>(base: State<'a>, outer: State<'a>, l: &'a Option<String>, info: LoopInfo)
    requires
        kept(base, outer),
    ensures
        kept(stmts::enter_labelled(outer, l, info), stmts::enter_labelled(outer, l, info)),
{
    reveal(stmts::enter_labelled);
    match *l {
        Some(n) => lemma_loop_opens(base, outer, n@, info),
        None => lemma_loop_opens(base, outer, ""@, info),
    }
}

/// The body of a function starts with what was there.
pub proof fn lemma_body_opens<'a>(
    base: State<'a>,
    outer: State<'a>,
    f: usize,
    main: bool,
    class: Option<usize>,
)
    requires
        kept(base, outer),
    ensures
        kept(functions::enter(outer, f, main, class), functions::enter(outer, f, main, class)),
{
    reveal(functions::enter);
    broadcast use {keep_state::keeps_block, keep_state::keeps_at};

    let a = state::set_function(outer, Some(f), main, class);
    lemma_function_opens(base, outer, Some(f), main, class);
    let (entry, b) = state::block(a, Label::Entry);
    lemma_scope_opens(a, state::at(b, entry));
}

/// A scope that is opened and closed leaves the variables as they were.
pub proof fn lemma_scope<'a>(base: State<'a>, outer: State<'a>, st: State<'a>)
    requires
        kept(base, outer),
        kept(state::open_scope(outer), st),
    ensures
        kept(base, state::close_scope(st)),
        kept(outer, state::close_scope(st)),
        state::close_scope(st).var_names == outer.var_names,
        state::close_scope(st).vars == outer.vars,
{
    reveal(kept);
    reveal(state::open_scope);
    reveal(state::close_scope);
    let o = state::open_scope(outer);
    let c = state::close_scope(st);
    assert(st.marks.last() == outer.vars.len());
    assert(o.marks.drop_last() =~= outer.marks);
    lemma_starts(outer.vars, st.vars, st.vars);
    lemma_starts(outer.var_names, st.var_names, st.var_names);
    lemma_cut(outer.var_names, st.var_names, outer.vars.len());
    assert(stays(outer.ended, c.ended));
    lemma_starts(outer.vars, outer.vars, outer.vars);
    lemma_starts(outer.var_names, outer.var_names, outer.var_names);
    assert(kept(outer, c));
    lemma_kept_on(base, outer, c);
}

proof fn lemma_cut<T>(a: Seq<T>, b: Seq<T>, n: nat)
    requires
        starts(a, b),
    ensures
        n >= a.len() ==> starts(a, state::cut(b, n)),
        n == a.len() ==> state::cut(b, n) == a,
{
    reveal(starts);
    if n < b.len() && n >= a.len() {
        assert(b.take(n as int).take(a.len() as int) =~= b.take(a.len() as int));
    }
    if n == a.len() && n == b.len() {
        assert(b.take(n as int) =~= b);
    }
}

/// A scope of deferred code that is opened and closed leaves what is deferred as it was.
pub proof fn lemma_defers<'a>(base: State<'a>, outer: State<'a>, st: State<'a>)
    requires
        kept(base, outer),
        kept(state::open_defers(outer), st),
    ensures
        kept(base, state::close_defers(st)),
        kept(outer, state::close_defers(st)),
        state::close_defers(st).defers == outer.defers,
        state::close_defers(st).dtors == outer.dtors,
{
    reveal(kept);
    reveal(state::open_defers);
    reveal(state::close_defers);
    let o = state::open_defers(outer);
    assert(o.defer_marks.drop_last() =~= outer.defer_marks);
    assert(o.dtor_marks.drop_last() =~= outer.dtor_marks);
    lemma_cut(outer.defers, st.defers, outer.defers.len());
    lemma_cut(outer.dtors, st.dtors, outer.dtors.len());
    lemma_starts(outer.defers, outer.defers, outer.defers);
    lemma_starts(outer.dtors, outer.dtors, outer.dtors);
    lemma_kept_on(base, outer, state::close_defers(st));
}

/// A loop that is entered and left leaves the loops as they were.
pub proof fn lemma_loop<'a>(base: State<'a>, outer: State<'a>, label: Seq<char>, info: LoopInfo, st: State<'a>)
    requires
        kept(base, outer),
        kept(state::enter_loop(outer, label, info), st),
    ensures
        kept(base, state::leave_loop(st)),
{
    reveal(kept);
    reveal(state::enter_loop);
    reveal(state::leave_loop);
    let o = state::enter_loop(outer, label, info);
    assert(o.loops.drop_last() =~= outer.loops);
    assert(o.loop_labels.drop_last() =~= outer.loop_labels);
    lemma_kept_on(base, outer, state::leave_loop(st));
}

/// A loop that may have a label, entered and left, leaves the loops as they were.
pub proof fn lemma_labelled<'a>(
    base: State<'a>,
    outer: State<'a>,
    l: &'a Option<String>,
    info: LoopInfo,
    st: State<'a>,
)
    requires
        kept(base, outer),
        kept(stmts::enter_labelled(outer, l, info), st),
    ensures
        kept(base, state::leave_loop(st)),
{
    reveal(stmts::enter_labelled);
    match *l {
        Some(n) => lemma_loop(base, outer, n@, info, st),
        None => lemma_loop(base, outer, ""@, info, st),
    }
}

/// To go to another function and back leaves the function as it was.
pub proof fn lemma_function<'a>(
    base: State<'a>,
    outer: State<'a>,
    func: Option<usize>,
    is_main: bool,
    class: Option<usize>,
    st: State<'a>,
)
    requires
        kept(base, outer),
        kept(state::set_function(outer, func, is_main, class), st),
    ensures
        kept(base, state::set_function(st, outer.func, outer.is_main, outer.class)),
{
    reveal(kept);
    reveal(state::set_function);
    lemma_kept_on(base, outer, state::set_function(st, outer.func, outer.is_main, outer.class));
}

/// The body of a function, entered and left, leaves what is outside as it was.
pub proof fn lemma_body<'a>(
    base: State<'a>,
    outer: State<'a>,
    f: usize,
    main: bool,
    class: Option<usize>,
    st: State<'a>,
)
    requires
        is_outside(base),
        kept(base, outer),
        kept(functions::enter(outer, f, main, class), st),
    ensures
        kept(base, functions::leave(st)),
{
    reveal(functions::enter);
    reveal(functions::leave);
    broadcast use {keep_state::keeps_block, keep_state::keeps_at};

    let a = state::set_function(outer, Some(f), main, class);
    lemma_function_opens(base, outer, Some(f), main, class);
    let (entry, b) = state::block(a, Label::Entry);
    let c = state::at(b, entry);
    assert(kept(a, c));
    lemma_scope(a, c, st);
    lemma_function(base, outer, Some(f), main, class, state::close_scope(st));
    reveal(kept);
}

/// Whether what is nested keeps what was there.
pub open spec fn nest_keeps<'a>(nest: Nest<'a>) -> bool {
    &&& forall|base: State<'a>, st: State<'a>, t: &'a Type|
        #![trigger kept(base, st), (nest.ty)(st, t)]
        kept(base, st) && (nest.ty)(st, t) is Ok ==> kept(base, (nest.ty)(st, t)->Ok_0.1)
    &&& forall|base: State<'a>, st: State<'a>, t: &'a Type|
        #![trigger kept(base, st), (nest.held_ty)(st, t)]
        kept(base, st) && (nest.held_ty)(st, t) is Ok ==> kept(base, (nest.held_ty)(st, t)->Ok_0.1)
    &&& forall|base: State<'a>, st: State<'a>, e: &'a Expr|
        #![trigger kept(base, st), (nest.place)(st, e)]
        kept(base, st) && (nest.place)(st, e) is Ok ==> kept(base, (nest.place)(st, e)->Ok_0.1)
    &&& forall|base: State<'a>, st: State<'a>, e: &'a Expr|
        #![trigger kept(base, st), (nest.expr)(st, e)]
        kept(base, st) && (nest.expr)(st, e) is Ok ==> kept(base, (nest.expr)(st, e)->Ok_0.1)
    &&& forall|base: State<'a>, st: State<'a>, b: &'a Block|
        #![trigger kept(base, st), (nest.run_block)(st, b)]
        kept(base, st) && (nest.run_block)(st, b) is Ok ==> kept(base, (nest.run_block)(st, b)->Ok_0.1)
}

} // verus!
