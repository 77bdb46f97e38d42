//! What lowered accesses, literals, arguments and parameters refer to.
use vstd::prelude::*;
use crate::ast::{CallArg, Expr, FieldInit, Param};
use crate::codegen::calls;
use crate::codegen::effect_laws;
use crate::codegen::exprs;
use crate::codegen::functions;
use crate::codegen::ir::{FieldInfo, FuncInfo, I32, Op, Operand, Step, Val};
use crate::codegen::laws;
use crate::codegen::lower;
use crate::codegen::meaning;
use crate::codegen::meaning::Run;
use crate::codegen::nest::Nest;
use crate::codegen::pattern_laws;
use crate::codegen::state;
use crate::codegen::state::{Failure, State};
use crate::token::Span;

verus! {

/// An element of an array is what is at the place of its index, and of a vector what is there in its
/// buffer.
pub proof fn law_element_is_read<'a>(
    run: Run,
    n: Nest<'a>,
    st: State<'a>,
    name: Seq<char>,
    i: &'a Expr,
    span: Span,
)
    requires
        match exprs::element(n, st, name, i, span) {
            Ok((_, after)) => match (n.expr)(st, i) {
                Ok((_, one)) => pattern_laws::is_run(run, one, after),
                Err(_) => false,
            },
            Err(_) => false,
        },
    ensures
        ({
            let (x, one) = (n.expr)(st, i)->Ok_0;
            let (r, after) = exprs::element(n, st, name, i, span)->Ok_0;
            let p = state::lookup_var(one, name)->0;
            let a = meaning::value(run, p.val);
            let k = meaning::value(run, x.val);
            &&& state::lookup_var(one, name) is Some
            &&& lower::is_array(one, p.ty) ==> meaning::value(run, r.val) == (run.mem)(
                one.steps.len() as int,
                (run.elem)(a, k),
            )
            &&& !lower::is_array(one, p.ty) && state::is_vec(one, name) && lower::is_struct(one, p.ty)
                ==> meaning::value(run, r.val) == (run.mem)(
                one.steps.len() as int,
                (run.elem)((run.field)(a, 0), k),
            )
        }),
{
    reveal(exprs::element);
    reveal(exprs::need_int);
    reveal(lower::elem_at);
    reveal(lower::field_at);
    reveal(lower::load);
    reveal(state::emit);
    let (x, one) = (n.expr)(st, i)->Ok_0;
    let after = exprs::element(n, st, name, i, span)->Ok_0.1;
    let p = state::lookup_var(one, name)->0;
    let m = one.steps.len() as int;
    if lower::is_array(one, p.ty) {
        assert(meaning::does(run, after.types, m, after.steps[m].op));
        assert(meaning::does(run, after.types, m + 1, after.steps[m + 1].op));
    } else if state::is_vec(one, name) && lower::is_struct(one, p.ty) {
        assert(meaning::does(run, after.types, m, after.steps[m].op));
        assert(meaning::does(run, after.types, m + 1, after.steps[m + 1].op));
        assert(meaning::does(run, after.types, m + 2, after.steps[m + 2].op));
        let q = (run.elem)((run.field)(meaning::value(run, p.val), 0), meaning::value(run, x.val));
        assert((run.mem)(m + 1 + 1, q) == (run.mem)(m + 1, q));
        assert((run.mem)(m + 1, q) == (run.mem)(m, q));
    }
}

/// An assignment to an element of an array stores the value at the place of the index.
pub proof fn law_element_is_stored<'a>(
    run: Run,
    n: Nest<'a>,
    st: State<'a>,
    name: Seq<char>,
    i: &'a Expr,
    v: Operand,
    span: Span,
)
    requires
        match exprs::assign_element(n, st, name, i, v, span) {
            Ok((_, after)) => match (n.expr)(st, i) {
                Ok((_, one)) => pattern_laws::is_run(run, one, after) && state::lookup_var(one, name) is Some
                    && lower::is_array(one, state::lookup_var(one, name)->0.ty),
                Err(_) => false,
            },
            Err(_) => false,
        },
    ensures
        ({
            let (x, one) = (n.expr)(st, i)->Ok_0;
            let (r, after) = exprs::assign_element(n, st, name, i, v, span)->Ok_0;
            let p = state::lookup_var(one, name)->0;
            r == v && (run.mem)(
                after.steps.len() as int,
                (run.elem)(meaning::value(run, p.val), meaning::value(run, x.val)),
            ) == meaning::value(run, v.val)
        }),
{
    reveal(exprs::assign_element);
    reveal(exprs::need_int);
    reveal(lower::elem_at);
    reveal(lower::store);
    reveal(state::emit);
    reveal(state::perform);
    let (x, one) = (n.expr)(st, i)->Ok_0;
    let after = exprs::assign_element(n, st, name, i, v, span)->Ok_0.1;
    let m = one.steps.len() as int;
    assert(meaning::does(run, after.types, m, after.steps[m].op));
    assert(meaning::does(run, after.types, m + 1, after.steps[m + 1].op));
}

proof fn lemma_field_entry(names: Seq<Seq<char>>, fields: Seq<FieldInfo>, name: Seq<char>, l: usize, n: nat)
    requires
        n <= names.len() <= usize::MAX,
    ensures
        match state::field_entry_from(names, fields, name, l, n) {
            Some(k) => k < n && k < fields.len() && names[k as int] == name && fields[k as int].layout == l,
            None => forall|j: int| 0 <= j < n && j < fields.len() ==> names[j] != name || (#[trigger] fields[j]).layout != l,
        },
    decreases n,
{
    if n > 0 {
        lemma_field_entry(names, fields, name, l, (n - 1) as nat);
    }
}

/// Whether field `index` of a layout has this name.
pub open spec fn is_field<'a>(st: State<'a>, l: usize, name: Seq<char>, index: u32) -> bool {
    exists|k: int|
        0 <= k < st.fields.len() && k < st.field_names.len() && st.field_names[k] == name && (#[trigger] st.fields[k]).layout
            == l && st.fields[k].index == index
}

/// A field of a struct literal is stored in the field of its name; a field that the struct does not
/// have is refused. The fields after it follow.
pub proof fn law_literal_field_is_stored<'a>(
    n: Nest<'a>,
    st: State<'a>,
    fs: &'a Vec<FieldInit>,
    i: usize,
    l: usize,
    t: usize,
    p: Val,
    span: Span,
)
    requires
        i < fs.len(),
        st.field_names.len() <= usize::MAX,
    ensures
        match exprs::lit_fields(n, st, fs, i, l, t, p, span) {
            Ok((_, after)) => match (n.expr)(st, &fs@[i as int].value) {
                Ok((v, one)) => exists|index: u32|
                    {
                        let q = Val::Reg(one.steps.len() as usize);
                        &&& #[trigger] is_field(st, l, fs@[i as int].name@, index)
                        &&& exprs::lit_fields(
                            n,
                            State {
                                steps: one.steps.push(
                                    Step { block: one.block, op: Op::Field(t, p, index) },
                                ).push(Step { block: one.block, op: Op::Store(q, v) }),
                                ..one
                            },
                            fs,
                            (i + 1) as usize,
                            l,
                            t,
                            p,
                            span,
                        ) == Ok::<((), State<'a>), Failure<'a>>(((), after))
                    },
                Err(_) => false,
            },
            Err(_) => true,
        },
        (forall|index: u32| !#[trigger] is_field(st, l, fs@[i as int].name@, index)) ==> exprs::lit_fields(
            n,
            st,
            fs,
            i,
            l,
            t,
            p,
            span,
        ) is Err,
{
    reveal(exprs::lit_fields);
    reveal(lower::field_at);
    reveal(lower::store);
    reveal(state::emit);
    reveal(state::perform);
    let name = fs@[i as int].name@;
    assert(fs.len() == fs@.len());
    lemma_field_entry(st.field_names, st.fields, name, l, st.field_names.len());
    match state::field_entry(st, name, l) {
        Some(k) => {
            let info = state::field_info(st, k);
            assert(st.fields[k as int].index == info.index);
            assert(is_field(st, l, name, info.index));
        },
        None => {},
    }
}

/// A value of an enum has the tag of its variant, and its payload is the first argument.
pub proof fn law_enum_value_is_built<'a>(
    run: Run,
    n: Nest<'a>,
    st: State<'a>,
    l: usize,
    variant: Seq<char>,
    args: &'a Vec<CallArg>,
    span: Span,
)
    requires
        pattern_laws::has_tags(st),
        args.len() == 0,
        match exprs::enum_value(n, st, l, variant, args, span) {
            Ok((_, after)) => pattern_laws::is_run(run, lower::class_ty(st, l).1, after),
            Err(_) => false,
        },
    ensures
        pattern_laws::is_tag(
            st,
            l,
            variant,
            (run.part)(meaning::value(run, exprs::enum_value(n, st, l, variant, args, span)->Ok_0.0.val), 0),
        ),
{
    reveal(exprs::enum_value);
    reveal(lower::insert);
    reveal(state::emit);
    let after = exprs::enum_value(n, st, l, variant, args, span)->Ok_0.1;
    let one = lower::class_ty(st, l).1;
    let k = one.steps.len() as int;
    assert(meaning::does(run, after.types, k, after.steps[k].op));
    pattern_laws::lemma_tag_entry(st.tag_names, st.tags, variant, l, st.tag_names.len());
    let j = state::tag_entry(st, variant, l)->0;
    assert(st.tags[j as int].layout == l);
}

/// An enum value with a payload: the tag is that of the variant, and the payload is the value of the
/// argument.
pub proof fn law_enum_payload_is_built<'a>(
    run: Run,
    n: Nest<'a>,
    st: State<'a>,
    l: usize,
    variant: Seq<char>,
    args: &'a Vec<CallArg>,
    span: Span,
    a: Operand,
    given: State<'a>,
    v: Operand,
)
    requires
        pattern_laws::has_tags(st),
        args.len() > 0,
        state::tag_entry(st, variant, l) is Some,
        exprs::enum_value(n, st, l, variant, args, span) is Ok,
        ({
            let (t, one) = lower::class_ty(st, l);
            let tag = Operand { val: Val::Int(state::tag_info(st, state::tag_entry(st, variant, l)->0).tag as i64), ty: I32 };
            let (b, two) = lower::insert(one, Operand { val: Val::Undef, ty: t }, tag, 0);
            &&& a == b
            &&& calls::call_arg(n, two, &args@[0]) == Ok::<(Operand, State<'a>), Failure<'a>>((v, given))
        }),
        pattern_laws::is_run(run, given, exprs::enum_value(n, st, l, variant, args, span)->Ok_0.1),
    ensures
        (run.part)(meaning::value(run, exprs::enum_value(n, st, l, variant, args, span)->Ok_0.0.val), 1)
            == meaning::value(run, v.val),
        (run.part)(meaning::value(run, exprs::enum_value(n, st, l, variant, args, span)->Ok_0.0.val), 0) == (run.part)(
            meaning::value(run, a.val),
            0,
        ),
{
    reveal(exprs::enum_value);
    reveal(lower::insert);
    reveal(state::emit);
    let after = exprs::enum_value(n, st, l, variant, args, span)->Ok_0.1;
    let k = given.steps.len() as int;
    assert(meaning::does(run, after.types, k, after.steps[k].op));
}

/// Arguments are computed and passed in the order in which they are written: argument `i` is the next
/// that is passed, as the parameter in its place takes it, and the others follow.
pub proof fn law_arguments_keep_their_order<'a>(
    n: Nest<'a>,
    st: State<'a>,
    f: FuncInfo,
    args: &'a Vec<CallArg>,
    i: usize,
)
    requires
        i < args.len(),
    ensures
        match calls::push_fitted(n, st, f, args, i) {
            Ok((_, after)) => match calls::call_arg(n, st, &args@[i as int]) {
                Ok((v, one)) => exists|passed: State<'a>|
                    {
                        &&& (#[trigger] calls::push_fitted(n, passed, f, args, (i + 1) as usize)) is Ok
                        &&& calls::push_fitted(n, passed, f, args, (i + 1) as usize)->Ok_0.1 == after
                        &&& passed.block == one.block
                        &&& passed.steps.len() > one.steps.len()
                        &&& passed.steps.last().op is Push
                        &&& (state::param_info(one, f, i).ty is None || state::param_info(one, f, i).ty == Some(v.ty))
                            ==> passed.steps.last().op == Op::Push(v) && passed.steps.len() == one.steps.len() + 1
                    },
                Err(_) => false,
            },
            Err(_) => true,
        },
{
    reveal(calls::push_fitted);
    reveal(calls::fitted);
    reveal(lower::coerce);
    reveal(state::emit);
    reveal(state::perform);
    assert(args.len() == args@.len());
    match calls::call_arg(n, st, &args@[i as int]) {
        Ok((v, one)) => {
            let (c, two) = calls::fitted(one, f, i, v);
            let passed = state::perform(two, Op::Push(c));
            match calls::push_fitted(n, passed, f, args, (i + 1) as usize) {
                Ok((m, after)) => {
                    assert(calls::push_fitted(n, passed, f, args, (i + 1) as usize)->Ok_0.1 == after);
                },
                Err(_) => {},
            }
        },
        Err(_) => {},
    }
}

/// The argument that is passed for a parameter is one that is given under its name; there is none only
/// where no argument has the name.
pub proof fn law_named_argument_is_found<'a>(st: State<'a>, f: FuncInfo, k: usize, args: &'a Vec<CallArg>, n: usize)
    requires
        n <= args.len(),
    ensures
        match calls::named_arg(st, f, k, args, n) {
            Some(i) => i < n && args@[i as int] is Named && state::param_is(st, f, k, args@[i as int]->Named_name@),
            None => forall|i: int|
                0 <= i < n && (#[trigger] args@[i]) is Named ==> !state::param_is(st, f, k, args@[i]->Named_name@),
        },
    decreases n,
{
    reveal(calls::named_arg);
    assert(args.len() == args@.len());
    if n > 0 {
        law_named_argument_is_found(st, f, k, args, (n - 1) as usize);
    }
}

/// A parameter is a variable of its name that holds the argument in its place.
pub proof fn law_parameter_holds_its_argument<'a>(run: Run, st: State<'a>, q: &'a Param, k: usize, t: usize)
    requires
        laws::is_paired(st),
        st.vars.len() < usize::MAX,
        pattern_laws::is_run(run, st, functions::bind_param(st, q, k, t)),
    ensures
        ({
            let after = functions::bind_param(st, q, k, t);
            &&& state::lookup_var(after, q.name@) is Some
            &&& state::lookup_var(after, q.name@)->0.ty == t
            &&& (run.mem)(after.steps.len() as int, meaning::value(run, state::lookup_var(after, q.name@)->0.val))
                == (run.fixed)(Val::Arg(k))
        }),
{
    reveal(functions::bind_param);
    reveal(lower::slot);
    reveal(lower::store);
    reveal(lower::note_kind);
    reveal(state::emit);
    reveal(state::perform);
    reveal(state::bind);
    reveal(state::note_vec);
    reveal(state::note_map);
    reveal(state::note_str);
    let after = functions::bind_param(st, q, k, t);
    effect_laws::lemma_last_bound(st.var_names, q.name@);
    let m = st.steps.len() as int;
    assert(after.steps.len() == m + 2);
    assert(meaning::does(run, after.types, m + 1, after.steps[m + 1].op));
}

} // verus!
