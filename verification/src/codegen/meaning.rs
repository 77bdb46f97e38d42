//! What steps mean: a run gives every step of a stretch of code its value, and the memory that it
//! leaves.
//!
//! Values are integers: those of integer types in two's complement, conditions zero or one,
//! addresses and structs by a number that stands for them.
use vstd::prelude::*;
use vstd::arithmetic::power2::pow2;
use crate::codegen::ir::{Arith, Cast, Op, Pred, TyDef, Val};
use crate::codegen::state::State;

verus! {

/// One passage through a stretch of code.
pub struct Run {
    /// What each step made.
    pub reg: spec_fn(int) -> int,
    /// The parts of the struct that a number stands for.
    pub part: spec_fn(int, int) -> int,
    /// What is at each address before each step.
    pub mem: spec_fn(int, int) -> int,
    /// What a value is that no step made and that is not written as a number.
    pub fixed: spec_fn(Val) -> int,
    /// The address of a field of a struct, by the address of the struct.
    pub field: spec_fn(int, int) -> int,
    /// The address of an element of an array, by the address of the array.
    pub elem: spec_fn(int, int) -> int,
    /// Whether two addresses have no memory in common.
    pub apart: spec_fn(int, int) -> bool,
}

/// What a value is in a run.
pub open spec fn value(run: Run, v: Val) -> int {
    match v {
        Val::Int(n) => n as int,
        Val::Null => 0,
        Val::Zero => 0,
        Val::Reg(k) => (run.reg)(k as int),
        _ => (run.fixed)(v),
    }
}

/// The width of an integer type; 0 for others.
pub open spec fn width(types: Seq<TyDef>, t: usize) -> nat {
    if t < types.len() {
        match types[t as int] {
            TyDef::Int(n) => n as nat,
            _ => 0,
        }
    } else {
        0
    }
}

/// Whether a number is one of an integer type.
pub open spec fn fits(w: nat, n: int) -> bool {
    if w == 1 {
        0 <= n <= 1
    } else if w == 64 {
        i64::MIN <= n <= i64::MAX
    } else {
        w > 0 && -pow2((w - 1) as nat) <= n < pow2((w - 1) as nat)
    }
}

/// A number that is one for true.
pub open spec fn flag(b: bool) -> int {
    if b {
        1
    } else {
        0
    }
}

/// The quotient without its fraction.
pub open spec fn quotient(x: int, y: int) -> int {
    if x >= 0 && y > 0 {
        x / y
    } else if x >= 0 {
        -(x / (-y))
    } else if y > 0 {
        -((-x) / y)
    } else {
        (-x) / (-y)
    }
}

/// The result of an operator on numbers of width `w`, where it has one.
pub open spec fn arith_result(op: Arith, x: int, y: int, w: nat) -> Option<int> {
    match op {
        Arith::Add => Some(x + y),
        Arith::Sub => Some(x - y),
        Arith::Mul => Some(x * y),
        Arith::Div => if y != 0 {
            Some(quotient(x, y))
        } else {
            None
        },
        Arith::Rem => if y != 0 {
            Some(x - y * quotient(x, y))
        } else {
            None
        },
        Arith::And => if w <= 64 {
            Some(((x as i64) & (y as i64)) as int)
        } else {
            None
        },
        Arith::Or => if w <= 64 {
            Some(((x as i64) | (y as i64)) as int)
        } else {
            None
        },
        Arith::Xor => if w <= 64 {
            Some(((x as i64) ^ (y as i64)) as int)
        } else {
            None
        },
        Arith::Shl => if 0 <= y < w {
            Some(x * pow2(y as nat))
        } else {
            None
        },
        Arith::Shr => if 0 <= x && 0 <= y < w {
            Some(x / pow2(y as nat) as int)
        } else {
            None
        },
    }
}

/// Whether a comparison of numbers of width `w` holds. The order of conditions is left open.
pub open spec fn holds(p: Pred, x: int, y: int, w: nat) -> Option<bool> {
    match p {
        Pred::Same => Some(x == y),
        Pred::Differ => Some(x != y),
        Pred::Less => if w > 1 {
            Some(x < y)
        } else {
            None
        },
        Pred::LessOrSame => if w > 1 {
            Some(x <= y)
        } else {
            None
        },
        Pred::Greater => if w > 1 {
            Some(x > y)
        } else {
            None
        },
        Pred::GreaterOrSame => if w > 1 {
            Some(x >= y)
        } else {
            None
        },
        Pred::Below => if w > 1 {
            Some(if (x < 0) == (y < 0) {
                x < y
            } else {
                y < 0
            })
        } else {
            None
        },
    }
}

/// Whether a conversion of `x` from width `from` to width `to` can give `r`.
pub open spec fn converts(c: Cast, x: int, from: nat, to: nat, r: int) -> bool {
    match c {
        Cast::Trunc => fits(to, x) && to > 1 ==> r == x,
        Cast::Sext => if from == 1 {
            r == -x
        } else {
            r == x
        },
        Cast::Zext => x >= 0 ==> r == x,
        Cast::IntToPtr => r == x,
        Cast::PtrToInt => fits(to, x) ==> r == x,
    }
}

/// Whether the memory before step `k` is that after it.
pub open spec fn rests(run: Run, k: int) -> bool {
    forall|p: int| #[trigger] (run.mem)(k + 1, p) == (run.mem)(k, p)
}

/// Whether step `k` does what it says.
pub open spec fn does(run: Run, types: Seq<TyDef>, k: int, op: Op) -> bool {
    let r = (run.reg)(k);
    match op {
        Op::Slot(_) => rests(run, k),
        Op::Temp(_) => rests(run, k),
        Op::Load(p, _) => rests(run, k) && r == (run.mem)(k, value(run, p)),
        Op::Store(p, v) => {
            &&& (run.mem)(k + 1, value(run, p)) == value(run, v.val)
            &&& forall|q: int|
                (run.apart)(value(run, p), q) ==> #[trigger] (run.mem)(k + 1, q) == (run.mem)(k, q)
        },
        Op::Field(_, p, i) => rests(run, k) && r == (run.field)(value(run, p), i as int),
        Op::Elem(_, p, i) => rests(run, k) && r == (run.elem)(value(run, p), value(run, i.val)),
        Op::Arith(o, a, b) => {
            let w = width(types, a.ty);
            let z = arith_result(o, value(run, a.val), value(run, b.val), w);
            rests(run, k) && (z is Some && fits(w, z->0) ==> r == z->0)
        },
        Op::Compare(p, a, b) => {
            let z = holds(p, value(run, a.val), value(run, b.val), width(types, a.ty));
            rests(run, k) && 0 <= r <= 1 && (z is Some ==> r == flag(z->0))
        },
        Op::Convert(c, a, t) => rests(run, k) && converts(
            c,
            value(run, a.val),
            width(types, a.ty),
            width(types, t),
            r,
        ),
        Op::IsNull(a) => rests(run, k) && r == flag(value(run, a.val) == 0),
        Op::Select(c, a, b) => rests(run, k) && (value(run, c.val) == 1 ==> r == value(run, a.val)) && (value(
            run,
            c.val,
        ) == 0 ==> r == value(run, b.val)),
        Op::Insert(a, v, i) => {
            &&& rests(run, k)
            &&& (run.part)(r, i as int) == value(run, v.val)
            &&& forall|j: int|
                j != i ==> #[trigger] (run.part)(r, j) == (run.part)(value(run, a.val), j)
        },
        Op::Extract(a, i) => rests(run, k) && r == (run.part)(value(run, a.val), i as int),
        Op::Push(_) => rests(run, k),
        _ => true,
    }
}

/// Whether a run goes through the steps `lo..hi`, one after the other.
pub open spec fn goes_through<'a>(run: Run, st: State<'a>, lo: int, hi: int) -> bool {
    forall|k: int| lo <= k < hi ==> does(run, st.types, k, (#[trigger] st.steps[k]).op)
}

} // verus!
