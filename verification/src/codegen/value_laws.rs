//! What lowered expressions compute.
use vstd::prelude::*;
use vstd::arithmetic::power2::pow2;
use crate::ast::{BinOp, Expr, ExprKind, UnaryOp};
use crate::codegen::exprs;
use crate::codegen::ir::{Operand, TyDef, I1, I64};
use crate::codegen::lower;
use crate::codegen::meaning;
use crate::codegen::meaning::Run;
use crate::codegen::nest;
use crate::codegen::state;
use crate::codegen::state::{Failure, State};
use crate::token::Span;

verus! {

/// A value of the source: a number or a condition.
pub enum Datum {
    Num(int),
    Flag(bool),
}

/// Whether a number has 64 bits.
pub open spec fn is_word(n: int) -> bool {
    i64::MIN <= n <= i64::MAX
}

/// A number, where it has 64 bits.
pub open spec fn word(n: int) -> Option<Datum> {
    if is_word(n) {
        Some(Datum::Num(n))
    } else {
        None
    }
}

/// What a binary operator gives on two numbers, where it gives something.
pub open spec fn of_numbers(op: BinOp, x: int, y: int) -> Option<Datum> {
    match op {
        BinOp::Add => word(x + y),
        BinOp::Sub => word(x - y),
        BinOp::Mul => word(x * y),
        BinOp::Div => if y == 0 {
            None
        } else {
            word(meaning::quotient(x, y))
        },
        BinOp::Mod => if y == 0 {
            None
        } else {
            word(x - y * meaning::quotient(x, y))
        },
        BinOp::Lt => Some(Datum::Flag(x < y)),
        BinOp::Le => Some(Datum::Flag(x <= y)),
        BinOp::Gt => Some(Datum::Flag(x > y)),
        BinOp::Ge => Some(Datum::Flag(x >= y)),
        BinOp::Is => Some(Datum::Flag(x == y)),
        BinOp::IsNot => Some(Datum::Flag(x != y)),
        BinOp::And => Some(Datum::Num(((x as i64) & (y as i64)) as int)),
        BinOp::Or => Some(Datum::Num(((x as i64) | (y as i64)) as int)),
        BinOp::BitAnd => Some(Datum::Num(((x as i64) & (y as i64)) as int)),
        BinOp::BitOr => Some(Datum::Num(((x as i64) | (y as i64)) as int)),
        BinOp::BitXor => Some(Datum::Num(((x as i64) ^ (y as i64)) as int)),
        BinOp::Shl => if 0 <= y < 64 {
            word(x * pow2(y as nat))
        } else {
            None
        },
        BinOp::Shr => if 0 <= x && 0 <= y < 64 {
            word(x / pow2(y as nat) as int)
        } else {
            None
        },
        BinOp::NullCoalesce => Some(Datum::Num(if x == 0 {
            y
        } else {
            x
        })),
    }
}

/// What a binary operator gives on two conditions, where it gives something.
pub open spec fn of_flags(op: BinOp, x: bool, y: bool) -> Option<Datum> {
    match op {
        BinOp::And => Some(Datum::Flag(x && y)),
        BinOp::Or => Some(Datum::Flag(x || y)),
        BinOp::BitAnd => Some(Datum::Flag(x && y)),
        BinOp::BitOr => Some(Datum::Flag(x || y)),
        BinOp::BitXor => Some(Datum::Flag(x != y)),
        BinOp::Is => Some(Datum::Flag(x == y)),
        BinOp::IsNot => Some(Datum::Flag(x != y)),
        BinOp::NullCoalesce => Some(Datum::Flag(x || y)),
        _ => None,
    }
}

/// What a binary operator gives on two values, where it gives something.
pub open spec fn of_two(op: BinOp, a: Datum, b: Datum) -> Option<Datum> {
    match (a, b) {
        (Datum::Num(x), Datum::Num(y)) => of_numbers(op, x, y),
        (Datum::Flag(x), Datum::Flag(y)) => of_flags(op, x, y),
        _ => None,
    }
}

/// What a prefix operator gives, where it gives something.
pub open spec fn of_one(op: UnaryOp, a: Datum) -> Option<Datum> {
    match (op, a) {
        (UnaryOp::Neg, Datum::Num(x)) => word(-x),
        (UnaryOp::Not, Datum::Flag(x)) => Some(Datum::Flag(!x)),
        (UnaryOp::Pos, _) => Some(a),
        (UnaryOp::BitNot, Datum::Num(x)) => Some(Datum::Num(-x - 1)),
        _ => None,
    }
}

/// What an expression without effects is worth, where the variables are worth what `vars` says.
/// `None` for other expressions, and where a number does not fit.
pub open spec fn worth(e: Expr, vars: spec_fn(Seq<char>) -> Option<Datum>) -> Option<Datum>
    decreases e,
{
    match e.kind {
        ExprKind::IntLit(n) => Some(Datum::Num(n as int)),
        ExprKind::BoolLit(b) => Some(Datum::Flag(b)),
        ExprKind::Ident(n) => vars(n@),
        ExprKind::Paren(x) => worth(*x, vars),
        ExprKind::Unary(op, x) => match worth(*x, vars) {
            Some(a) => of_one(op, a),
            None => None,
        },
        ExprKind::Binary(op, x, y) => match (worth(*x, vars), worth(*y, vars)) {
            (Some(a), Some(b)) => of_two(op, a, b),
            _ => None,
        },
        _ => None,
    }
}

/// Whether an operand is what a value of the source is lowered to.
pub open spec fn stands_for(run: Run, v: Operand, d: Datum) -> bool {
    match d {
        Datum::Num(n) => v.ty == I64 && is_word(n) && meaning::value(run, v.val) == n,
        Datum::Flag(b) => v.ty == I1 && meaning::value(run, v.val) == meaning::flag(b),
    }
}

/// Whether the table of types starts with conditions and has the 64-bit integers in their place.
pub open spec fn has_basics(types: Seq<TyDef>) -> bool {
    types.len() > I64 && types[I1 as int] == TyDef::Int(1) && types[I64 as int] == TyDef::Int(64)
}

/// Whether two states differ in their code at most.
pub open spec fn is_more_code<'a>(st: State<'a>, s: State<'a>) -> bool {
    s == (State { steps: s.steps, ..st })
}

/// Whether `after` is `st` with more code in the same block.
pub open spec fn adds<'a>(st: State<'a>, after: State<'a>) -> bool {
    &&& is_more_code(st, after)
    &&& st.steps.len() <= after.steps.len()
    &&& forall|k: int| 0 <= k < st.steps.len() ==> #[trigger] after.steps[k] == st.steps[k]
    &&& forall|k: int| st.steps.len() <= k < after.steps.len() ==> (#[trigger] after.steps[k]).block == st.block
}

pub proof fn lemma_flags(x: int, y: int)
    requires
        0 <= x <= 1,
        0 <= y <= 1,
    ensures
        ((x as i64) & (y as i64)) as int == meaning::flag(x == 1 && y == 1),
        ((x as i64) | (y as i64)) as int == meaning::flag(x == 1 || y == 1),
        ((x as i64) ^ (y as i64)) as int == meaning::flag(x != y),
{
    let a = x as i64;
    let b = y as i64;
    assert((0 <= a <= 1 && 0 <= b <= 1) ==> (a & b) == (if a == 1 && b == 1 { 1i64 } else { 0i64 }) && (a | b) == (
    if a == 1 || b == 1 { 1i64 } else { 0i64 }) && (a ^ b) == (if a != b { 1i64 } else { 0i64 })) by (bit_vector);
}

proof fn lemma_turned(x: i64)
    ensures
        (x ^ -1i64) as int == -(x as int) - 1,
{
    assert((x ^ -1i64) == -x - 1) by (bit_vector);
}

/// A binary operator on two numbers or on two conditions yields the result of that operator on the
/// left value and the right value, in this order.
pub proof fn law_binary_operator<'a>(run: Run, st: State<'a>, op: BinOp, l: Operand, r: Operand, a: Datum, b: Datum)
    requires
        has_basics(st.types),
        stands_for(run, l, a),
        stands_for(run, r, b),
        exprs::binary_op(st, op, l, r).1.steps.len() <= usize::MAX,
        meaning::goes_through(
            run,
            exprs::binary_op(st, op, l, r).1,
            st.steps.len() as int,
            exprs::binary_op(st, op, l, r).1.steps.len() as int,
        ),
    ensures
        of_two(op, a, b) is Some ==> stands_for(run, exprs::binary_op(st, op, l, r).0, of_two(op, a, b)->0),
        adds(st, exprs::binary_op(st, op, l, r).1),
{
    reveal(exprs::binary_op);
    reveal(exprs::coalesce);
    reveal(lower::arith);
    reveal(lower::compare);
    reveal(lower::is_ptr);
    reveal(state::emit);
    let x = meaning::value(run, l.val);
    let y = meaning::value(run, r.val);
    let after = exprs::binary_op(st, op, l, r).1;
    let k = st.steps.len() as int;
    assert(meaning::does(run, after.types, k, after.steps[k].op));
    if op == BinOp::NullCoalesce {
        assert(meaning::does(run, after.types, k + 1, after.steps[k + 1].op));
    }
    if a is Flag && b is Flag {
        lemma_flags(x, y);
    }
}


/// The type that a value of the source is lowered to.
pub open spec fn ty_of(d: Datum) -> usize {
    match d {
        Datum::Num(_) => I64,
        Datum::Flag(_) => I1,
    }
}

/// Whether each variable that `vars` knows is in scope, with the type that its value has.
pub open spec fn are_typed<'a>(st: State<'a>, vars: spec_fn(Seq<char>) -> Option<Datum>) -> bool {
    forall|n: Seq<char>|
        (#[trigger] vars(n)) is Some ==> state::lookup_var(st, n) is Some && state::lookup_var(st, n)->0.ty == ty_of(
            vars(n)->0,
        )
}

/// Whether each variable that `vars` knows holds, before the next step, what `vars` says.
pub open spec fn are_known<'a>(run: Run, st: State<'a>, vars: spec_fn(Seq<char>) -> Option<Datum>) -> bool {
    forall|n: Seq<char>|
        (#[trigger] vars(n)) is Some ==> match vars(n)->0 {
            Datum::Num(x) => is_word(x) && (run.mem)(
                st.steps.len() as int,
                meaning::value(run, state::lookup_var(st, n)->0.val),
            ) == x,
            Datum::Flag(b) => (run.mem)(
                st.steps.len() as int,
                meaning::value(run, state::lookup_var(st, n)->0.val),
            ) == meaning::flag(b),
        }
}

/// Whether no class has operators of its own.
pub open spec fn has_no_operators<'a>(st: State<'a>) -> bool {
    forall|s: State<'a>, op: BinOp, l: usize|
        is_more_code(st, s) ==> (#[trigger] exprs::class_op(s, op, l)) is None
}

/// How a nested expression is lowered.
pub proof fn lemma_inner<'a>(depth: nat, st: State<'a>, e: &'a Expr)
    ensures
        (nest::nest::<'a>(depth).expr)(st, e) is Ok ==> depth > 0 && (nest::nest::<'a>(depth).expr)(st, e)
            == exprs::expr(nest::nest((depth - 1) as nat), st, e),
{
    reveal(nest::nest);
}

/// How a binary operator is lowered where both sides have one type.
proof fn lemma_two_sides<'a>(depth: nat, st: State<'a>, op: BinOp, x: &'a Expr, y: &'a Expr, span: Span)
    requires
        has_no_operators(st),
        has_basics(st.types),
        exprs::binary(nest::nest(depth), st, op, x, y, span) is Ok,
    ensures
        (nest::nest::<'a>(depth).expr)(st, x) is Ok,
        ({
            let (a, one) = (nest::nest::<'a>(depth).expr)(st, x)->Ok_0;
            &&& (nest::nest::<'a>(depth).expr)(one, y) is Ok
            &&& ({
                let (b, two) = (nest::nest::<'a>(depth).expr)(one, y)->Ok_0;
                a.ty == b.ty && (a.ty == I64 || a.ty == I1) && is_more_code(st, two) ==> exprs::binary(
                    nest::nest(depth),
                    st,
                    op,
                    x,
                    y,
                    span,
                ) == Ok::<(Operand, State<'a>), Failure<'a>>(exprs::binary_op(two, op, a, b))
            })
        }),
{
    reveal(exprs::binary);
    reveal(exprs::plain_binary);
    reveal(exprs::is_coalesce);
    reveal(exprs::need_int);
    reveal(lower::unify);
    reveal(lower::is_int);
    reveal(lower::bits);
    assert(is_more_code(st, st));
    assert(exprs::binary(nest::nest(depth), st, op, x, y, span) == exprs::plain_binary(
        nest::nest(depth),
        st,
        op,
        x,
        y,
        span,
    ));
    reveal(exprs::binary_op);
}

/// The code of an expression without effects is added in one piece.
pub proof fn lemma_added<'a>(depth: nat, st: State<'a>, e: &'a Expr, vars: spec_fn(Seq<char>) -> Option<Datum>)
    requires
        has_basics(st.types),
        has_no_operators(st),
        are_typed(st, vars),
        worth(*e, vars) is Some,
        exprs::expr(nest::nest(depth), st, e) is Ok,
    ensures
        adds(st, exprs::expr(nest::nest(depth), st, e)->Ok_0.1),
        exprs::expr(nest::nest(depth), st, e)->Ok_0.0.ty == ty_of(worth(*e, vars)->0),
    decreases e,
{
    reveal(exprs::expr);
    reveal(state::emit);
    match e.kind {
        ExprKind::Ident(n) => {
            reveal(exprs::variable);
            reveal(lower::load);
        },
        ExprKind::Paren(x) => {
            lemma_inner(depth, st, &*x);
            lemma_added((depth - 1) as nat, st, &*x, vars);
        },
        ExprKind::Unary(op, x) => {
            reveal(exprs::unary);
            reveal(exprs::need_int);
            reveal(lower::arith);
            lemma_inner(depth, st, &*x);
            lemma_added((depth - 1) as nat, st, &*x, vars);
        },
        ExprKind::Binary(op, x, y) => {
            lemma_two_sides(depth, st, op, &*x, &*y, e.span);
            lemma_inner(depth, st, &*x);
            lemma_added((depth - 1) as nat, st, &*x, vars);
            let (a, one) = (nest::nest::<'a>(depth).expr)(st, &*x)->Ok_0;
            lemma_inner(depth, one, &*y);
            lemma_added((depth - 1) as nat, one, &*y, vars);
            let (b, two) = (nest::nest::<'a>(depth).expr)(one, &*y)->Ok_0;
            lemma_one_code(two, op, a, b);
        },
        _ => {},
    }
}

proof fn lemma_one_code<'a>(st: State<'a>, op: BinOp, l: Operand, r: Operand)
    ensures
        adds(st, exprs::binary_op(st, op, l, r).1),
        l.ty == I64 && r.ty == I64 ==> exprs::binary_op(st, op, l, r).0.ty == (match op {
            BinOp::Lt | BinOp::Le | BinOp::Gt | BinOp::Ge | BinOp::Is | BinOp::IsNot => I1,
            _ => I64,
        }),
        l.ty == I1 && r.ty == I1 ==> exprs::binary_op(st, op, l, r).0.ty == I1,
{
    reveal(exprs::binary_op);
    reveal(exprs::coalesce);
    reveal(lower::arith);
    reveal(lower::compare);
    reveal(state::emit);
}

/// An expression without effects computes what it is worth: its operators are applied to the
/// values of their operands, in the order in which they are written, and a variable gives what
/// it holds. Memory stays as it is.
pub proof fn law_expression_is_worth<'a>(
    run: Run,
    depth: nat,
    st: State<'a>,
    e: &'a Expr,
    vars: spec_fn(Seq<char>) -> Option<Datum>,
)
    requires
        has_basics(st.types),
        has_no_operators(st),
        are_typed(st, vars),
        are_known(run, st, vars),
        worth(*e, vars) is Some,
        match exprs::expr(nest::nest(depth), st, e) {
            Ok((_, after)) => after.steps.len() <= usize::MAX && meaning::goes_through(
                run,
                after,
                st.steps.len() as int,
                after.steps.len() as int,
            ),
            Err(_) => false,
        },
    ensures
        match exprs::expr(nest::nest(depth), st, e) {
            Ok((v, after)) => {
                &&& stands_for(run, v, worth(*e, vars)->0)
                &&& adds(st, after)
                &&& forall|p: int|
                    #[trigger] (run.mem)(after.steps.len() as int, p) == (run.mem)(st.steps.len() as int, p)
            },
            Err(_) => false,
        },
    decreases e,
{
    lemma_added(depth, st, e, vars);
    reveal(exprs::expr);
    let (v, after) = exprs::expr(nest::nest(depth), st, e)->Ok_0;
    match e.kind {
        ExprKind::Ident(n) => {
            reveal(exprs::variable);
            reveal(lower::load);
            reveal(state::emit);
            let k = st.steps.len() as int;
            assert(meaning::does(run, after.types, k, after.steps[k].op));
        },
        ExprKind::Paren(x) => {
            lemma_inner(depth, st, &*x);
            law_expression_is_worth(run, (depth - 1) as nat, st, &*x, vars);
        },
        ExprKind::Unary(op, x) => {
            reveal(exprs::unary);
            reveal(exprs::need_int);
            reveal(lower::arith);
            reveal(state::emit);
            lemma_inner(depth, st, &*x);
            lemma_added((depth - 1) as nat, st, &*x, vars);
            let (a, one) = (nest::nest::<'a>(depth).expr)(st, &*x)->Ok_0;
            assert(adds(one, after));
            lemma_part(run, st, one, after);
            law_expression_is_worth(run, (depth - 1) as nat, st, &*x, vars);
            let k = one.steps.len() as int;
            let n = meaning::value(run, a.val);
            if op != UnaryOp::Pos {
                assert(meaning::does(run, after.types, k, after.steps[k].op));
                if op == UnaryOp::Not {
                    lemma_flags(n, 1);
                }
                if op == UnaryOp::BitNot {
                    lemma_turned(n as i64);
                }
            }
        },
        ExprKind::Binary(op, x, y) => {
            lemma_two_sides(depth, st, op, &*x, &*y, e.span);
            lemma_inner(depth, st, &*x);
            lemma_added((depth - 1) as nat, st, &*x, vars);
            let (a, one) = (nest::nest::<'a>(depth).expr)(st, &*x)->Ok_0;
            lemma_inner(depth, one, &*y);
            lemma_added((depth - 1) as nat, one, &*y, vars);
            let (b, two) = (nest::nest::<'a>(depth).expr)(one, &*y)->Ok_0;
            lemma_one_code(two, op, a, b);
            lemma_then(st, one, two);
            lemma_part(run, st, two, after);
            lemma_part(run, st, one, two);
            law_expression_is_worth(run, (depth - 1) as nat, st, &*x, vars);
            law_expression_is_worth(run, (depth - 1) as nat, one, &*y, vars);
            law_binary_operator(run, two, op, a, b, worth(*x, vars)->0, worth(*y, vars)->0);
            lemma_rests(run, two, op, a, b);
        },
        _ => {},
    }
}

pub proof fn lemma_then<'a>(st: State<'a>, one: State<'a>, after: State<'a>)
    requires
        adds(st, one),
        adds(one, after),
    ensures
        adds(st, after),
{
    assert forall|k: int| 0 <= k < st.steps.len() implies #[trigger] after.steps[k] == st.steps[k] by {
        assert(one.steps[k] == st.steps[k]);
    }
    assert forall|k: int| st.steps.len() <= k < after.steps.len() implies (#[trigger] after.steps[k]).block
        == st.block by {
        if k < one.steps.len() {
            assert(after.steps[k] == one.steps[k]);
        }
    }
}

pub proof fn lemma_part<'a>(run: Run, st: State<'a>, one: State<'a>, after: State<'a>)
    requires
        adds(st, one),
        adds(one, after),
        meaning::goes_through(run, after, st.steps.len() as int, after.steps.len() as int),
    ensures
        meaning::goes_through(run, one, st.steps.len() as int, one.steps.len() as int),
        meaning::goes_through(run, after, one.steps.len() as int, after.steps.len() as int),
        adds(st, after),
{
    assert forall|k: int| st.steps.len() <= k < one.steps.len() implies meaning::does(
        run,
        one.types,
        k,
        (#[trigger] one.steps[k]).op,
    ) by {
        assert(after.steps[k] == one.steps[k]);
    }
    lemma_then(st, one, after);
}

proof fn lemma_rests<'a>(run: Run, st: State<'a>, op: BinOp, l: Operand, r: Operand)
    requires
        meaning::goes_through(
            run,
            exprs::binary_op(st, op, l, r).1,
            st.steps.len() as int,
            exprs::binary_op(st, op, l, r).1.steps.len() as int,
        ),
    ensures
        forall|p: int|
            #[trigger] (run.mem)(exprs::binary_op(st, op, l, r).1.steps.len() as int, p) == (run.mem)(
                st.steps.len() as int,
                p,
            ),
{
    reveal(exprs::binary_op);
    reveal(exprs::coalesce);
    reveal(lower::arith);
    reveal(lower::compare);
    reveal(state::emit);
    let after = exprs::binary_op(st, op, l, r).1;
    let k = st.steps.len() as int;
    assert(meaning::does(run, after.types, k, after.steps[k].op));
    if op == BinOp::NullCoalesce {
        assert(meaning::does(run, after.types, k + 1, after.steps[k + 1].op));
        assert forall|p: int| #[trigger] (run.mem)(after.steps.len() as int, p) == (run.mem)(k, p) by {
            assert((run.mem)(k + 1, p) == (run.mem)(k, p));
            assert((run.mem)(k + 1 + 1, p) == (run.mem)(k + 1, p));
        }
    }
}

} // verus!
