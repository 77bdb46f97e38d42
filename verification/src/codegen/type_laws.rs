//! What written types and loops over collections are lowered to.
use vstd::prelude::*;
use crate::ast::{Block, Expr, Type};
use crate::codegen::control_laws;
use crate::codegen::ir::{
    Arith, Label, LoopInfo, Op, Operand, Pred, TyDef, Val, F32, F64, I1, I32, I64, I8, NIL, PTR,
};
use crate::codegen::keep;
use crate::codegen::keep_stmts;
use crate::codegen::laws;
use crate::codegen::lower;
use crate::codegen::nest;
use crate::codegen::nest::Nest;
use crate::codegen::state;
use crate::codegen::state::State;
use crate::codegen::stmts;

verus! {

/// Whether a table of types starts as every one does.
pub open spec fn has_all_basics(types: Seq<TyDef>) -> bool {
    &&& types.len() > 7
    &&& types[I1 as int] == TyDef::Int(1)
    &&& types[I8 as int] == TyDef::Int(8)
    &&& types[I32 as int] == TyDef::Int(32)
    &&& types[I64 as int] == TyDef::Int(64)
    &&& types[PTR as int] == TyDef::Ptr
    &&& types[F32 as int] == TyDef::F32
    &&& types[F64 as int] == TyDef::F64
    &&& types[NIL as int] == TyDef::Nil
}

/// Whether `after` is `st` with more types, none of which has another number.
pub open spec fn has_more_types<'a>(st: State<'a>, after: State<'a>) -> bool {
    &&& after == (State { types: after.types, ..st })
    &&& st.types.len() <= after.types.len()
    &&& forall|i: int| 0 <= i < st.types.len() ==> #[trigger] after.types[i] == st.types[i]
}

/// Whether entry `t` of the table is this type.
pub open spec fn is_ty<'a>(st: State<'a>, t: usize, d: TyDef) -> bool {
    t < st.types.len() && st.types[t as int] == d
}

proof fn lemma_find_type(types: Seq<TyDef>, d: TyDef, i: int)
    requires
        0 <= i,
        types.len() <= usize::MAX,
    ensures
        match state::find_type(types, d, i) {
            Some(t) => i <= t < types.len() && types[t as int] == d,
            None => true,
        },
    decreases types.len() - i,
{
    if i < types.len() {
        lemma_find_type(types, d, i + 1);
    }
}

/// The entry of a type is that type, and every entry stays what it is.
pub proof fn law_entry_is_its_type<'a>(st: State<'a>, d: TyDef)
    requires
        st.types.len() < usize::MAX,
    ensures
        is_ty(state::intern(st, d).1, state::intern(st, d).0, d),
        has_more_types(st, state::intern(st, d).1),
        state::intern(st, d).1.types.len() <= st.types.len() + 1,
{
    reveal(state::intern);
    lemma_find_type(st.types, d, 0);
}

/// The built-in types have their widths: an `int` 64 bits, a `bool` one, a `char` 32; strings,
/// pointers and functions are addresses. Nothing is of type `void`.
pub proof fn law_plain_types_have_their_widths<'a>(n: Nest<'a>, st: State<'a>, t: &'a Type)
    requires
        has_all_basics(st.types),
    ensures
        match *t {
            Type::Int => is_plain(n, st, t, TyDef::Int(64)),
            Type::Bool => is_plain(n, st, t, TyDef::Int(1)),
            Type::Char => is_plain(n, st, t, TyDef::Int(32)),
            Type::Str => is_plain(n, st, t, TyDef::Ptr),
            Type::Float => is_plain(n, st, t, TyDef::F32),
            Type::Double => is_plain(n, st, t, TyDef::F64),
            Type::Pointer(_) => is_plain(n, st, t, TyDef::Ptr),
            Type::Function(_, _) => is_plain(n, st, t, TyDef::Ptr),
            Type::Any => is_plain(n, st, t, TyDef::Ptr),
            Type::Void => lower::ty(n, st, t) is Err,
            _ => true,
        },
{
    reveal(lower::ty);
}

/// Whether a written type is this one, without a new entry.
pub open spec fn is_plain<'a>(n: Nest<'a>, st: State<'a>, t: &'a Type, d: TyDef) -> bool {
    match lower::ty(n, st, t) {
        Ok((r, after)) => after == st && is_ty(after, r, d),
        Err(_) => false,
    }
}

/// The integers of other widths have the width that their name says.
pub proof fn law_named_integers_have_their_widths<'a>(st: State<'a>, name: Seq<char>, w: u32)
    requires
        name != "__derived__"@,
        st.types.len() < usize::MAX,
        ({
            let b = state::base_name(name);
            ||| w == 8 && (b == "i8"@ || b == "u8"@)
            ||| w == 16 && (b == "i16"@ || b == "u16"@)
            ||| w == 32 && (b == "i32"@ || b == "u32"@)
            ||| w == 64 && (b == "i64"@ || b == "u64"@)
            ||| w == 128 && (b == "i128"@ || b == "u128"@)
        }),
    ensures
        match lower::named_ty(st, name) {
            Ok((r, after)) => is_ty(after, r, TyDef::Int(w)),
            Err(_) => false,
        },
{
    reveal(lower::named_ty);
    reveal_strlit("i8");
    reveal_strlit("u8");
    reveal_strlit("i16");
    reveal_strlit("u16");
    reveal_strlit("i32");
    reveal_strlit("u32");
    reveal_strlit("i64");
    reveal_strlit("u64");
    reveal_strlit("i128");
    reveal_strlit("u128");
    reveal_strlit("uint");
    assert("i16"@[1] != "i32"@[1] && "i16"@[1] != "i64"@[1] && "i32"@[1] != "i64"@[1]);
    assert("u16"@[1] != "u32"@[1] && "u16"@[1] != "u64"@[1] && "u32"@[1] != "u64"@[1]);
    assert("i16"@[0] != "u16"@[0] && "i32"@[0] != "u32"@[0] && "i64"@[0] != "u64"@[0]);
    assert("i16"@[0] != "u32"@[0] && "i16"@[0] != "u64"@[0] && "i32"@[0] != "u16"@[0]);
    assert("i32"@[0] != "u64"@[0] && "i64"@[0] != "u16"@[0] && "i64"@[0] != "u32"@[0]);
    assert("i8"@.len() == 2 && "u8"@.len() == 2 && "i16"@.len() == 3 && "i128"@.len() == 4 && "uint"@.len() == 4);
    assert("u128"@.len() == 4 && "uint"@[1] != "u128"@[1] && "uint"@[0] != "i128"@[0]);
    assert("u16"@.len() == 3 && "i32"@.len() == 3 && "u32"@.len() == 3 && "i64"@.len() == 3 && "u64"@.len() == 3);
    law_entry_is_its_type(st, TyDef::Int(w));
}

/// A vector is a struct of a buffer of sixteen elements and a length.
pub proof fn law_vector_has_its_shape<'a>(st: State<'a>, e: usize)
    requires
        st.types.len() + 3 <= usize::MAX,
    ensures
        exists|buf: usize, rest: usize|
            {
                let (r, after) = lower::vec_of(st, e);
                &&& has_more_types(st, after)
                &&& is_ty(after, r, TyDef::Cons(buf, rest))
                &&& #[trigger] is_ty(lower::vec_of(st, e).1, buf, TyDef::Array(e, 16))
                &&& #[trigger] is_ty(lower::vec_of(st, e).1, rest, TyDef::Cons(I64, NIL))
            },
{
    reveal(lower::vec_of);
    reveal(lower::array_of);
    reveal(lower::pair_of);
    law_entry_is_its_type(st, TyDef::Array(e, 16));
    let (buf, one) = state::intern(st, TyDef::Array(e, 16));
    law_entry_is_its_type(one, TyDef::Cons(I64, NIL));
    let (rest, two) = state::intern(one, TyDef::Cons(I64, NIL));
    law_entry_is_its_type(two, TyDef::Cons(buf, rest));
    let (r, after) = lower::vec_of(st, e);
    assert(one.types[buf as int] == two.types[buf as int]);
    assert(after.types[buf as int] == two.types[buf as int]);
    assert(after.types[rest as int] == two.types[rest as int]);
    assert forall|i: int| 0 <= i < st.types.len() implies #[trigger] after.types[i] == st.types[i] by {
        assert(one.types[i] == st.types[i]);
        assert(two.types[i] == one.types[i]);
    }
    assert(is_ty(after, buf, TyDef::Array(e, 16)));
    assert(is_ty(after, rest, TyDef::Cons(I64, NIL)));
}

/// A map is a struct of sixteen keys, sixteen values and a length.
pub proof fn law_map_has_its_shape<'a>(st: State<'a>, k: usize, v: usize)
    requires
        st.types.len() + 5 <= usize::MAX,
    ensures
        exists|keys: usize, vals: usize, rest: usize, end: usize|
            {
                let (r, after) = lower::map_of(st, k, v);
                &&& has_more_types(st, after)
                &&& is_ty(after, r, TyDef::Cons(keys, rest))
                &&& #[trigger] is_ty(lower::map_of(st, k, v).1, keys, TyDef::Array(k, 16))
                &&& #[trigger] is_ty(lower::map_of(st, k, v).1, vals, TyDef::Array(v, 16))
                &&& #[trigger] is_ty(lower::map_of(st, k, v).1, rest, TyDef::Cons(vals, end))
                &&& #[trigger] is_ty(lower::map_of(st, k, v).1, end, TyDef::Cons(I64, NIL))
            },
{
    reveal(lower::map_of);
    reveal(lower::array_of);
    reveal(lower::pair_of);
    law_entry_is_its_type(st, TyDef::Array(k, 16));
    let (keys, one) = state::intern(st, TyDef::Array(k, 16));
    law_entry_is_its_type(one, TyDef::Array(v, 16));
    let (vals, two) = state::intern(one, TyDef::Array(v, 16));
    law_entry_is_its_type(two, TyDef::Cons(I64, NIL));
    let (end, three) = state::intern(two, TyDef::Cons(I64, NIL));
    law_entry_is_its_type(three, TyDef::Cons(vals, end));
    let (rest, four) = state::intern(three, TyDef::Cons(vals, end));
    law_entry_is_its_type(four, TyDef::Cons(keys, rest));
    let (r, after) = lower::map_of(st, k, v);
    assert forall|i: int| 0 <= i < st.types.len() implies #[trigger] after.types[i] == st.types[i] by {
        assert(one.types[i] == st.types[i]);
        assert(two.types[i] == one.types[i]);
        assert(three.types[i] == two.types[i]);
        assert(four.types[i] == three.types[i]);
    }
    assert(two.types[keys as int] == one.types[keys as int]);
    assert(three.types[keys as int] == two.types[keys as int]);
    assert(four.types[keys as int] == three.types[keys as int]);
    assert(three.types[vals as int] == two.types[vals as int]);
    assert(four.types[vals as int] == three.types[vals as int]);
    assert(four.types[end as int] == three.types[end as int]);
    assert(is_ty(after, keys, TyDef::Array(k, 16)));
    assert(is_ty(after, vals, TyDef::Array(v, 16)));
    assert(is_ty(after, rest, TyDef::Cons(vals, end)));
    assert(is_ty(after, end, TyDef::Cons(I64, NIL)));
}

/// Whether the code of a loop over a collection counts: from zero, by one each turn, as long as the
/// count is below how often the loop runs.
pub open spec fn is_counted<'a>(
    st: State<'a>,
    after: State<'a>,
    e: &'a Expr,
    head: State<'a>,
    cond: usize,
    body: usize,
    inc: usize,
    exit: usize,
) -> bool {
    let k = st.steps.len() as int;
    let slot = Val::Reg(k as usize);
    let (n, measured) = stmts::limit(head, e);
    let m = measured.steps.len() as int;
    let z = after.steps.len() as int;
    &&& control_laws::is_step(after, k, st.block, Op::Slot(I64))
    &&& control_laws::is_step(after, k + 1, st.block, Op::Store(slot, Operand { val: Val::Int(0), ty: I64 }))
    &&& control_laws::is_step(after, k + 2, st.block, Op::Jump(cond))
    &&& control_laws::is_step(after, k + 3, cond, Op::Load(slot, I64))
    &&& head.block == cond
    &&& head.steps.len() == k + 4
    &&& control_laws::is_step(
        after,
        m,
        measured.block,
        Op::Compare(Pred::Less, Operand { val: Val::Reg((k + 3) as usize), ty: I64 }, n),
    )
    &&& control_laws::is_step(
        after,
        m + 1,
        measured.block,
        Op::Branch(Operand { val: Val::Reg(m as usize), ty: I1 }, body, exit),
    )
    &&& control_laws::is_step(after, z - 4, inc, Op::Load(slot, I64))
    &&& control_laws::is_step(
        after,
        z - 3,
        inc,
        Op::Arith(
            Arith::Add,
            Operand { val: Val::Reg((z - 4) as usize), ty: I64 },
            Operand { val: Val::Int(1), ty: I64 },
        ),
    )
    &&& control_laws::is_step(
        after,
        z - 2,
        inc,
        Op::Store(slot, Operand { val: Val::Reg((z - 3) as usize), ty: I64 }),
    )
    &&& control_laws::is_step(after, z - 1, inc, Op::Jump(cond))
}

/// The state in which the body of a loop is lowered: its variables are bound to element `i`.
pub open spec fn turn_of<'a>(
    turn: State<'a>,
    e: &'a Expr,
    var: Seq<char>,
    var2: &'a Option<String>,
    i: Operand,
) -> State<'a> {
    let (v, read) = stmts::loop_value(turn, e, i);
    stmts::bind_second(stmts::bind_value(read, var, v), e, var2, i)
}

/// A loop over a collection runs its body once for each count below its length, with the element of
/// that number; `continue` goes to the next count and `break` past the loop.
pub proof fn law_for_counts<'a>(
    depth: nat,
    st: State<'a>,
    l: &'a Option<String>,
    var: Seq<char>,
    var2: &'a Option<String>,
    e: &'a Expr,
    b: &'a Block,
)
    requires
        laws::is_paired(st),
        match stmts::for_stmt(nest::nest(depth), st, l, var, var2, e, b) {
            Ok((_, after)) => after.blocks.len() <= usize::MAX,
            Err(_) => true,
        },
    ensures
        match stmts::for_stmt(nest::nest(depth), st, l, var, var2, e, b) {
            Ok((_, after)) => exists|
                cond: usize,
                body: usize,
                inc: usize,
                exit: usize,
                head: State<'a>,
                turn: State<'a>,
                inside: State<'a>,
            |
                {
                    &&& #[trigger] is_counted(st, after, e, head, cond, body, inc, exit)
                    &&& control_laws::is_for(after, cond, Label::ForCond)
                    &&& control_laws::is_for(after, body, Label::ForBody)
                    &&& control_laws::is_for(after, inc, Label::ForInc)
                    &&& control_laws::is_for(after, exit, Label::ForExit)
                    &&& after.block == exit
                    &&& turn.block == body
                    &&& control_laws::is_looping(
                        st,
                        turn,
                        match *l {
                            Some(name) => name@,
                            None => ""@,
                        },
                        inc,
                        exit,
                    )
                    &&& inside == #[trigger] turn_of(
                        turn,
                        e,
                        var,
                        var2,
                        Operand { val: Val::Reg((st.steps.len() + 3) as usize), ty: I64 },
                    )
                    &&& match #[trigger] (nest::nest::<'a>(depth).run_block)(inside, b) {
                        Ok((_, ran)) => match stmts::end_scope(nest::nest(depth), ran) {
                            Ok((_, ended)) => !state::done(ended) ==> control_laws::is_step(
                                after,
                                ended.steps.len() as int,
                                ended.block,
                                Op::Jump(inc),
                            ),
                            Err(_) => false,
                        },
                        Err(_) => false,
                    }
                },
            Err(_) => true,
        },
{
    let n = nest::nest::<'a>(depth);
    laws::lemma_nest_keeps(depth);
    reveal(stmts::for_stmt);
    reveal(stmts::enter_labelled);
    reveal(lower::slot);
    reveal(lower::store);
    reveal(lower::load);
    reveal(lower::compare);
    reveal(lower::arith);
    reveal(state::emit);
    reveal(state::perform);
    reveal(state::at);
    reveal(state::block);
    reveal(state::finish);
    reveal(state::enter_loop);
    reveal(state::leave_loop);
    reveal(state::open_scope);
    reveal(state::open_defers);
    let (cond, s1) = state::block(st, Label::ForCond);
    let (body, s2) = state::block(s1, Label::ForBody);
    let (inc, s3) = state::block(s2, Label::ForInc);
    let (exit, s4) = state::block(s3, Label::ForExit);
    let (ip, s5) = lower::slot(s4, I64);
    let s6 = lower::store(s5, ip.val, Operand { val: Val::Int(0), ty: I64 });
    let s7 = state::at(state::finish(s6, Op::Jump(cond)), cond);
    let (i, head) = lower::load(s7, ip);
    keep::lemma_same(head);
    keep_stmts::keeps_limit(head, head, e);
    let (count, measured) = stmts::limit(head, e);
    control_laws::lemma_stays(head, measured);
    let (c, s8) = lower::compare(measured, Pred::Less, i, count);
    let s9 = state::finish(s8, Op::Branch(c, body, exit));
    let s10 = stmts::enter_labelled(s9, l, LoopInfo { again: inc, exit, depth: state::defer_depth(s9) });
    let turn = state::open_defers(state::open_scope(state::at(s10, body)));
    keep::lemma_same(turn);
    keep_stmts::keeps_loop_value(turn, turn, e, i);
    let (v, read) = stmts::loop_value(turn, e, i);
    keep_stmts::keeps_bind_value(turn, read, var, v);
    let bound = stmts::bind_value(read, var, v);
    keep_stmts::keeps_bind_second(turn, bound, e, var2, i);
    let inside = stmts::bind_second(bound, e, var2, i);
    control_laws::lemma_stays(turn, inside);
    match (n.run_block)(inside, b) {
        Ok((x, ran)) => {
            assert(keep::kept(turn, ran));
            keep_stmts::keeps_end_scope(turn, n, ran);
            match stmts::end_scope(n, ran) {
                Ok((_, ended)) => {
                    control_laws::lemma_stays(turn, ended);
                    let s11 = state::close_scope(state::close_defers(ended));
                    assert(s11.steps == ended.steps && s11.blocks == ended.blocks && s11.block == ended.block
                        && s11.ended == ended.ended) by {
                        reveal(state::close_scope);
                        reveal(state::close_defers);
                    }
                    control_laws::lemma_jump(s11, inc);
                    let s12 = lower::jump(s11, inc);
                    let after = stmts::for_stmt(n, st, l, var, var2, e, b)->Ok_0.1;
                    assert(control_laws::is_in(s12, after));
                    assert(control_laws::is_in(ended, s12));
                    assert(control_laws::is_in(head, measured));
                    assert(control_laws::is_in(measured, turn));
                    control_laws::lemma_in(head, measured, turn);
                    control_laws::lemma_in(turn, ended, s12);
                    control_laws::lemma_in(turn, s12, after);
                    control_laws::lemma_in(head, turn, after);
                    let k = st.steps.len() as int;
                    assert(after.steps[k] == head.steps[k]);
                    assert(after.steps[k + 1] == head.steps[k + 1]);
                    assert(after.steps[k + 2] == head.steps[k + 2]);
                    assert(after.steps[k + 3] == head.steps[k + 3]);
                    let m = measured.steps.len() as int;
                    assert(after.steps[m] == turn.steps[m]);
                    assert(after.steps[m + 1] == turn.steps[m + 1]);
                    assert(after.blocks[cond as int] == head.blocks[cond as int]);
                    assert(after.blocks[body as int] == head.blocks[body as int]);
                    assert(after.blocks[inc as int] == head.blocks[inc as int]);
                    assert(after.blocks[exit as int] == head.blocks[exit as int]);
                    let z = after.steps.len() as int;
                    assert(z == s12.steps.len() + 4);
                    if !state::done(ended) {
                        let q = ended.steps.len() as int;
                        assert(after.steps[q] == s12.steps[q]);
                    }
                    assert(is_counted(st, after, e, head, cond, body, inc, exit));
                    assert(inside == turn_of(turn, e, var, var2, i));
                },
                Err(_) => {},
            }
        },
        Err(_) => {},
    }
}

} // verus!
