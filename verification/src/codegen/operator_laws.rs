//! What the operators of classes and conversions between types are.
use vstd::prelude::*;
use crate::ast::{BinOp, Expr};
use crate::codegen::exprs;
use crate::codegen::ir::{MemberKind, Op, Operand, PTR};
use crate::codegen::lower;
use crate::codegen::meaning;
use crate::codegen::meaning::Run;
use crate::codegen::nest::Nest;
use crate::codegen::pattern_laws;
use crate::codegen::state;
use crate::codegen::state::State;
use crate::codegen::value_laws;
use crate::formatter::compact;

verus! {

/// The operator of a class that stands for a binary operator is the one that is declared with the
/// sign or word of that operator.
pub proof fn law_class_operator_has_its_sign<'a>(st: State<'a>, op: BinOp, l: usize)
    ensures
        exprs::class_op(st, op, l) == state::member_entry(st, compact::bin_op_text(op), l, MemberKind::Operator),
{
    reveal(exprs::class_op);
}

/// An operator of a class is called with the address of the left operand and the value of the right
/// one, in this order.
pub proof fn law_class_operator_takes_both_sides<'a>(
    n: Nest<'a>,
    st: State<'a>,
    k: usize,
    lhs: &'a Expr,
    rhs: &'a Expr,
)
    ensures
        match exprs::operator_call(n, st, k, lhs, rhs) {
            Ok((_, after)) => match exprs::operand_ptr(n, st, lhs) {
                Ok((p, one)) => match (n.expr)(one, rhs) {
                    Ok((v, two)) => {
                        let m = two.steps.len() as int;
                        &&& after.steps.len() == m + 3
                        &&& after.steps[m].op == Op::Push(Operand { val: p, ty: PTR })
                        &&& after.steps[m + 1].op == Op::Push(v)
                        &&& after.steps[m + 2].op == Op::Call(state::member_info(st, k).func, 2)
                    },
                    Err(_) => false,
                },
                Err(_) => false,
            },
            Err(_) => true,
        },
{
    reveal(exprs::operator_call);
    reveal(lower::call);
    reveal(state::emit);
    reveal(state::perform);
}

/// A number that is converted to another integer type keeps its value, where that type has it. The
/// condition that holds becomes the number whose bits are all one.
pub proof fn law_conversion_keeps_the_value<'a>(run: Run, st: State<'a>, v: Operand, t: usize)
    requires
        meaning::width(st.types, v.ty) > 0,
        meaning::width(st.types, t) > 1,
        meaning::fits(meaning::width(st.types, t), meaning::value(run, v.val)),
        pattern_laws::is_run(run, st, lower::coerce(st, v, t).1),
    ensures
        value_laws::adds(st, lower::coerce(st, v, t).1),
        meaning::width(st.types, v.ty) > 1 ==> meaning::value(run, lower::coerce(st, v, t).0.val) == meaning::value(
            run,
            v.val,
        ),
        meaning::width(st.types, v.ty) == 1 ==> meaning::value(run, lower::coerce(st, v, t).0.val)
            == -meaning::value(run, v.val),
        meaning::width(st.types, lower::coerce(st, v, t).0.ty) == meaning::width(st.types, t),
{
    reveal(lower::coerce);
    reveal(lower::is_int);
    reveal(lower::is_ptr);
    reveal(lower::bits);
    reveal(state::emit);
    let after = lower::coerce(st, v, t).1;
    let k = st.steps.len() as int;
    if after.steps.len() > k {
        assert(meaning::does(run, after.types, k, after.steps[k].op));
    }
}

/// Two numbers are brought to the wider of their widths, and keep their values.
pub proof fn law_operands_are_widened<'a>(run: Run, st: State<'a>, l: Operand, r: Operand)
    requires
        meaning::width(st.types, l.ty) > 1,
        meaning::width(st.types, r.ty) > 1,
        pattern_laws::is_run(run, st, lower::unify(st, l, r).1),
    ensures
        ({
            let ((a, b), after) = lower::unify(st, l, r);
            &&& meaning::value(run, a.val) == meaning::value(run, l.val)
            &&& meaning::value(run, b.val) == meaning::value(run, r.val)
            &&& meaning::width(after.types, a.ty) == meaning::width(after.types, b.ty)
            &&& meaning::width(after.types, a.ty) >= meaning::width(st.types, l.ty)
            &&& meaning::width(after.types, a.ty) >= meaning::width(st.types, r.ty)
        }),
{
    reveal(lower::unify);
    reveal(lower::coerce);
    reveal(lower::is_int);
    reveal(lower::bits);
    reveal(state::emit);
    let after = lower::unify(st, l, r).1;
    let k = st.steps.len() as int;
    if after.steps.len() > k {
        assert(meaning::does(run, after.types, k, after.steps[k].op));
    }
}

} // verus!
