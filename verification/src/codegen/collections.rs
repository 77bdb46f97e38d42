//! Methods of vectors, arrays, maps and strings.
use vstd::prelude::*;
use crate::ast::CallArg;
use crate::codegen::ir::{
    Arith, Family, Label, Op, Operand, Pred, Runtime,
    Val, I1, I64,
};
use crate::codegen::lower;
use crate::codegen::exprs;
use crate::codegen::calls;
use crate::codegen::nest;
use crate::codegen::nest::Nest;
use crate::codegen::state;
use crate::codegen::state::{Codegen, CodegenError, Failure, State, fault_naming, fault_naming_two};
use crate::text;
use crate::token::Span;

verus! {

/// The kind of collection that a variable holds.
#[verifier::opaque]
pub open spec fn family<'a>(st: State<'a>, n: Seq<char>, t: usize) -> Option<Family>
{
    if state::is_vec(st, n) && lower::is_struct(st, t) {
        Some(Family::Vector)
    } else if state::is_map(st, n) && lower::is_struct(st, t) {
        Some(Family::Mapping)
    } else if lower::is_array(st, t) {
        Some(Family::Array)
    } else if state::is_str(st, n) && lower::is_ptr(st, t) {
        Some(Family::Str)
    } else {
        None
    }
}

/// Whether a kind of collection has a method.
#[verifier::opaque]
pub open spec fn has_method(f: Family, m: Seq<char>) -> bool
{
    if (m == "len"@) || (m == "is_empty"@) {
        true
    } else {
        match f {
            Family::Vector => {
                (m == "pop"@) || (m == "clear"@) || (m == "contains"@) || (m == "first"@) || (m == "last"@)
            },
            Family::Array => {
                (m == "contains"@) || (m == "first"@) || (m == "last"@)
            },
            Family::Mapping => {
                (m == "contains"@) || (m == "remove"@) || (m == "clear"@) || (m == "get_or"@)
            },
            Family::Str => {
                false
            },
        }
    }
}

/// Ends the program unless a condition holds.
#[verifier::opaque]
pub open spec fn trap_unless<'a>(st: State<'a>, c: Operand) -> State<'a>
{
    let (ok, st) = state::block(st, Label::TrapOk);
    let (fail, st) = state::block(st, Label::TrapFail);
    let st = state::finish(st, Op::Branch(c, ok, fail));
    let st = state::at(st, fail);
    let st = lower::stop(st);
    let st = state::at(st, ok);
    st
}

/// Adds an element to a vector; ends the program where it is full.
#[verifier::opaque]
pub open spec fn vec_push<'a>(st: State<'a>, p: Operand, v: Operand) -> State<'a>
{
    let buf = lower::struct_elem(st, p.ty, 0);
    let t = lower::array_elem(st, buf);
    let (c, st) = lower::coerce(st, v, t);
    let (lp, st) = lower::field_at(st, p.ty, p.val, 1);
    let (n, st) = lower::load(st, Operand { val: lp, ty: I64 });
    let (q, st) = lower::compare(st, Pred::Below, n, Operand { val: Val::Int(16), ty: I64 });
    let (ok, st) = state::block(st, Label::PushOk);
    let (fail, st) = state::block(st, Label::PushFail);
    let st = state::finish(st, Op::Branch(q, ok, fail));
    let st = state::at(st, fail);
    let st = lower::stop(st);
    let st = state::at(st, ok);
    let (b, st) = lower::field_at(st, p.ty, p.val, 0);
    let (e, st) = lower::elem_at(st, buf, b, n);
    let st = lower::store(st, e, c);
    let (m, st) = lower::arith(st, Arith::Add, n, Operand { val: Val::Int(1), ty: I64 });
    let st = lower::store(st, lp, m);
    st
}

/// Empties a vector or a map.
#[verifier::opaque]
pub open spec fn clear<'a>(st: State<'a>, f: Family, p: Operand) -> State<'a>
{
    match f {
        Family::Mapping => {
            let (lp, st) = lower::field_at(st, p.ty, p.val, 2);
            let st = lower::store(st, lp, Operand { val: Val::Int(0), ty: I64 });
            st
        },
        _ => {
            let (lp, st) = lower::field_at(st, p.ty, p.val, 1);
            let st = lower::store(st, lp, Operand { val: Val::Int(0), ty: I64 });
            st
        },
    }
}

/// Whether one of the first `n` elements is `key`.
#[verifier::opaque]
pub open spec fn buffer_has<'a>(st: State<'a>, buf: Val, t: usize, n: Operand, key: Operand) -> (Operand, State<'a>)
{
    let et = lower::array_elem(st, t);
    let (k, st) = lower::coerce(st, key, et);
    let (found, st) = lower::slot(st, I1);
    let st = lower::store(st, found.val, Operand { val: Val::Int(0), ty: I1 });
    let (ip, st) = lower::slot(st, I64);
    let st = lower::store(st, ip.val, Operand { val: Val::Int(0), ty: I64 });
    let (loop_bb, st) = state::block(st, Label::ContainsLoop);
    let (body, st) = state::block(st, Label::ContainsBody);
    let (exit, st) = state::block(st, Label::ContainsExit);
    let st = state::finish(st, Op::Jump(loop_bb));
    let st = state::at(st, loop_bb);
    let (i, st) = lower::load(st, ip);
    let (c, st) = lower::compare(st, Pred::Below, i, n);
    let st = state::finish(st, Op::Branch(c, body, exit));
    let st = state::at(st, body);
    let (e, st) = lower::elem_at(st, t, buf, i);
    let (x, st) = lower::load(st, Operand { val: e, ty: et });
    let (q, st) = exprs::key_eq(st, x, k);
    let (before, st) = lower::load(st, found);
    let (any, st) = lower::arith(st, Arith::Or, before, q);
    let st = lower::store(st, found.val, any);
    let (j, st) = lower::arith(st, Arith::Add, i, Operand { val: Val::Int(1), ty: I64 });
    let st = lower::store(st, ip.val, j);
    let st = state::finish(st, Op::Jump(loop_bb));
    let st = state::at(st, exit);
    let (r, st) = lower::load(st, found);
    (r, st)
}

/// The first or last element of an array; the program ends where there is none.
#[verifier::opaque]
pub open spec fn edge_of_array<'a>(st: State<'a>, p: Operand, first: bool) -> (Operand, State<'a>)
{
    let t = lower::array_elem(st, p.ty);
    let n = lower::array_len(st, p.ty);
    let st = if n == 0 {
        trap_unless(st, Operand { val: Val::Int(0), ty: I1 })
    } else {
        st
    };
    if first || n == 0 {
        let (e, st) = lower::elem_at(st, p.ty, p.val, Operand { val: Val::Int(0), ty: I64 });
        let (r, st) = lower::load(st, Operand { val: e, ty: t });
        (r, st)
    } else {
        let (e, st) = lower::elem_at(st, p.ty, p.val, Operand { val: Val::Int((n - 1) as i64), ty: I64 });
        let (r, st) = lower::load(st, Operand { val: e, ty: t });
        (r, st)
    }
}

/// Argument `i` of a method of a collection.
#[verifier::opaque]
pub open spec fn method_arg<'a>(nest: Nest<'a>, st: State<'a>, args: &'a Vec<CallArg>, i: usize, m: Seq<char>, span: Span) -> Result<(Operand, State<'a>), Failure<'a>>
{
    if i >= args.len() {
        Err(Failure { trouble: state::naming("`"@, m, "` is missing an argument"@, span), after: st })
    } else {
        calls::call_arg(nest, st, &args@[i as int])
    }
}

/// The length of a vector, map or array; of a string, its address.
#[verifier::opaque]
pub open spec fn measure<'a>(st: State<'a>, f: Family, p: Operand) -> (Operand, State<'a>)
{
    match f {
        Family::Vector => {
            let (lp, st) = lower::field_at(st, p.ty, p.val, 1);
            let (r, st) = lower::load(st, Operand { val: lp, ty: I64 });
            (r, st)
        },
        Family::Mapping => {
            let (lp, st) = lower::field_at(st, p.ty, p.val, 2);
            let (r, st) = lower::load(st, Operand { val: lp, ty: I64 });
            (r, st)
        },
        Family::Array => {
            let n = lower::array_len(st, p.ty);
            (Operand { val: Val::Int(n as i64), ty: I64 }, st)
        },
        Family::Str => {
            let (r, st) = lower::load(st, p);
            (r, st)
        },
    }
}

/// The length of what has been measured.
#[verifier::opaque]
pub open spec fn count_of<'a>(st: State<'a>, f: Family, n: Operand) -> (Operand, State<'a>)
{
    match f {
        Family::Str => {
            let (r, st) = lower::runtime1(st, Runtime::Strlen, n, I64);
            (r, st)
        },
        _ => {
            (n, st)
        },
    }
}

/// Takes the last of `n` elements of a vector; ends the program where there is none.
#[verifier::opaque]
pub open spec fn vec_pop<'a>(st: State<'a>, p: Operand, n: Operand) -> (Operand, State<'a>)
{
    let buf = lower::struct_elem(st, p.ty, 0);
    let t = lower::array_elem(st, buf);
    let (c, st) = lower::compare(st, Pred::Differ, n, Operand { val: Val::Int(0), ty: I64 });
    let st = trap_unless(st, c);
    let (m, st) = lower::arith(st, Arith::Sub, n, Operand { val: Val::Int(1), ty: I64 });
    let (lp, st) = lower::field_at(st, p.ty, p.val, 1);
    let st = lower::store(st, lp, m);
    let (b, st) = lower::field_at(st, p.ty, p.val, 0);
    let (e, st) = lower::elem_at(st, buf, b, m);
    let (r, st) = lower::load(st, Operand { val: e, ty: t });
    (r, st)
}

/// Whether a collection of `n` elements holds an element or a key.
#[verifier::opaque]
pub open spec fn has_element<'a>(st: State<'a>, f: Family, p: Operand, n: Operand, key: Operand) -> (Operand, State<'a>)
{
    match f {
        Family::Array => {
            let (r, st) = buffer_has(st, p.val, p.ty, n, key);
            (r, st)
        },
        _ => {
            let t = lower::struct_elem(st, p.ty, 0);
            let (b, st) = lower::field_at(st, p.ty, p.val, 0);
            let (r, st) = buffer_has(st, b, t, n, key);
            (r, st)
        },
    }
}

/// The first or last of `n` elements of a vector; the program ends where there is none.
#[verifier::opaque]
pub open spec fn edge_of_vec<'a>(st: State<'a>, p: Operand, n: Operand, first: bool) -> (Operand, State<'a>)
{
    let buf = lower::struct_elem(st, p.ty, 0);
    let t = lower::array_elem(st, buf);
    let (b, st) = lower::field_at(st, p.ty, p.val, 0);
    let (c, st) = lower::compare(st, Pred::Differ, n, Operand { val: Val::Int(0), ty: I64 });
    let st = trap_unless(st, c);
    if first {
        let (e, st) = lower::elem_at(st, buf, b, Operand { val: Val::Int(0), ty: I64 });
        let (r, st) = lower::load(st, Operand { val: e, ty: t });
        (r, st)
    } else {
        let (k, st) = lower::arith(st, Arith::Sub, n, Operand { val: Val::Int(1), ty: I64 });
        let (e, st) = lower::elem_at(st, buf, b, k);
        let (r, st) = lower::load(st, Operand { val: e, ty: t });
        (r, st)
    }
}

/// Removes an entry of a map of `n` entries; the last entry takes its place. Whether it was there.
#[verifier::opaque]
pub open spec fn map_remove<'a>(st: State<'a>, p: Operand, n: Operand, key: Operand) -> (Operand, State<'a>)
{
    let keys = lower::struct_elem(st, p.ty, 0);
    let vals = lower::struct_elem(st, p.ty, 1);
    let kt = lower::array_elem(st, keys);
    let vt = lower::array_elem(st, vals);
    let (found, st) = exprs::map_find(st, p, key);
    let (hit, st) = state::block(st, Label::MapHit);
    let (miss, st) = state::block(st, Label::MapMiss);
    let (merge, st) = state::block(st, Label::MapMerge);
    let (res, st) = lower::slot(st, I1);
    let st = lower::store(st, res.val, Operand { val: Val::Int(0), ty: I1 });
    let (i, st) = lower::load(st, found);
    let (c, st) = lower::compare(st, Pred::GreaterOrSame, i, Operand { val: Val::Int(0), ty: I64 });
    let st = state::finish(st, Op::Branch(c, hit, miss));
    let st = state::at(st, hit);
    let (lp, st) = lower::field_at(st, p.ty, p.val, 2);
    let (m, st) = lower::arith(st, Arith::Sub, n, Operand { val: Val::Int(1), ty: I64 });
    let (kb, st) = lower::field_at(st, p.ty, p.val, 0);
    let (vb, st) = lower::field_at(st, p.ty, p.val, 1);
    let (lk, st) = lower::elem_at(st, keys, kb, m);
    let (lv, st) = lower::elem_at(st, vals, vb, m);
    let (k, st) = lower::load(st, Operand { val: lk, ty: kt });
    let (v, st) = lower::load(st, Operand { val: lv, ty: vt });
    let (dk, st) = lower::elem_at(st, keys, kb, i);
    let (dv, st) = lower::elem_at(st, vals, vb, i);
    let st = lower::store(st, dk, k);
    let st = lower::store(st, dv, v);
    let st = lower::store(st, lp, m);
    let st = lower::store(st, res.val, Operand { val: Val::Int(1), ty: I1 });
    let st = state::finish(st, Op::Jump(merge));
    let st = state::at(st, miss);
    let st = state::finish(st, Op::Jump(merge));
    let st = state::at(st, merge);
    let (r, st) = lower::load(st, res);
    (r, st)
}

/// A method that a kind of collection has. The collection is measured before arguments are computed.
#[verifier::opaque]
pub open spec fn run_method<'a>(nest: Nest<'a>, st: State<'a>, f: Family, p: Operand, m: Seq<char>, args: &'a Vec<CallArg>, span: Span) -> Result<(Operand, State<'a>), Failure<'a>>
{
    let (n, st) = measure(st, f, p);
    if (m == "len"@) {
        let (r, st) = count_of(st, f, n);
        Ok((r, st))
    } else if (m == "is_empty"@) {
        let (k, st) = count_of(st, f, n);
        let (r, st) = lower::compare(st, Pred::Same, k, Operand { val: Val::Int(0), ty: I64 });
        Ok((r, st))
    } else if (m == "pop"@) {
        let (r, st) = vec_pop(st, p, n);
        Ok((r, st))
    } else if (m == "clear"@) {
        let st = clear(st, f, p);
        Ok((Operand { val: Val::Int(0), ty: I64 }, st))
    } else if (m == "contains"@) {
        match method_arg(nest, st, args, 0, m, span) {
            Ok((v, st)) => {
                let (r, st) = has_element(st, f, p, n, v);
                Ok((r, st))
            },
            Err(e) => Err(e),
        }
    } else if (m == "remove"@) {
        match method_arg(nest, st, args, 0, m, span) {
            Ok((v, st)) => {
                let (r, st) = map_remove(st, p, n, v);
                Ok((r, st))
            },
            Err(e) => Err(e),
        }
    } else if (m == "get_or"@) {
        match method_arg(nest, st, args, 0, m, span) {
            Ok((k, st)) => {
                match method_arg(nest, st, args, 1, m, span) {
                    Ok((d, st)) => {
                        let (r, st) = exprs::map_get(st, p, k, d);
                        Ok((r, st))
                    },
                    Err(e) => Err(e),
                }
            },
            Err(e) => Err(e),
        }
    } else {
        let first = (m == "first"@);
        if lower::is_array(st, p.ty) {
            let (r, st) = edge_of_array(st, p, first);
            Ok((r, st))
        } else {
            let (r, st) = edge_of_vec(st, p, n, first);
            Ok((r, st))
        }
    }
}

/// A method of the collection that a variable holds; `None` where it holds none.
#[verifier::opaque]
pub open spec fn collection_method<'a>(nest: Nest<'a>, st: State<'a>, n: Seq<char>, m: Seq<char>, args: &'a Vec<CallArg>, span: Span) -> Result<(Option<Operand>, State<'a>), Failure<'a>>
{
    match state::lookup_var(st, n) {
        Some(p) => {
            match family(st, n, p.ty) {
                Some(f) => {
                    if has_method(f, m) {
                        match run_method(nest, st, f, p, m, args, span) {
                            Ok((r, st)) => {
                                Ok((Some(r), st))
                            },
                            Err(e) => Err(e),
                        }
                    } else {
                        Err(Failure { trouble: state::naming_two("unknown method `"@, m, "` for `"@, n, "`"@, span), after: st })
                    }
                },
                _ => {
                    Ok((None, st))
                },
            }
        },
        _ => {
            Ok((None, st))
        },
    }
}

impl<'a> Codegen<'a> {
    /// The kind of collection that a variable holds.
    pub fn family(&self, n: &str, t: usize) -> (out: Option<Family>)
        ensures
            out == family(self@, n@, t),
    {
        reveal(family);
        if self.is_vec(n) && self.is_struct(t) {
            return Some(Family::Vector);
        }
        if self.is_map(n) && self.is_struct(t) {
            return Some(Family::Mapping);
        }
        if self.is_array(t) {
            return Some(Family::Array);
        }
        if self.is_str(n) && self.is_ptr(t) {
            return Some(Family::Str);
        }
        None
    }

    /// Whether a kind of collection has a method.
    pub fn has_method(&self, f: Family, m: &str) -> (out: bool)
        ensures
            out == has_method(f, m@),
    {
        reveal(has_method);
        if text::same_str(m, "len") || text::same_str(m, "is_empty") {
            return true;
        }
        match f {
            Family::Vector => {
                return text::same_str(m, "pop") || text::same_str(m, "clear") || text::same_str(m, "contains") || text::same_str(m, "first") || text::same_str(m, "last");
            },
            Family::Array => {
                return text::same_str(m, "contains") || text::same_str(m, "first") || text::same_str(m, "last");
            },
            Family::Mapping => {
                return text::same_str(m, "contains") || text::same_str(m, "remove") || text::same_str(m, "clear") || text::same_str(m, "get_or");
            },
            Family::Str => {
                return false;
            },
        }
    }

    /// Ends the program unless a condition holds.
    pub fn trap_unless(&mut self, c: Operand)
        ensures
            final(self)@ == trap_unless(old(self)@, c),
    {
        reveal(trap_unless);
        let ok = self.block(Label::TrapOk);
        let fail = self.block(Label::TrapFail);
        self.finish(Op::Branch(c, ok, fail));
        self.at(fail);
        self.stop();
        self.at(ok);
    }

    /// Adds an element to a vector; ends the program where it is full.
    pub fn vec_push(&mut self, p: Operand, v: Operand)
        ensures
            final(self)@ == vec_push(old(self)@, p, v),
    {
        reveal(vec_push);
        let buf: usize = self.struct_elem(p.ty, 0);
        let t: usize = self.array_elem(buf);
        let c = self.coerce(v, t);
        let lp = self.field_at(p.ty, p.val, 1);
        let n = self.load(Operand { val: lp, ty: I64 });
        let q = self.compare(Pred::Below, n, Operand { val: Val::Int(16), ty: I64 });
        let ok = self.block(Label::PushOk);
        let fail = self.block(Label::PushFail);
        self.finish(Op::Branch(q, ok, fail));
        self.at(fail);
        self.stop();
        self.at(ok);
        let b = self.field_at(p.ty, p.val, 0);
        let e = self.elem_at(buf, b, n);
        self.store(e, c);
        let m = self.arith(Arith::Add, n, Operand { val: Val::Int(1), ty: I64 });
        self.store(lp, m);
    }

    /// Empties a vector or a map.
    pub fn clear(&mut self, f: Family, p: Operand)
        ensures
            final(self)@ == clear(old(self)@, f, p),
    {
        reveal(clear);
        match f {
            Family::Mapping => {
                let lp = self.field_at(p.ty, p.val, 2);
                self.store(lp, Operand { val: Val::Int(0), ty: I64 });
                return;
            },
            _ => {},
        }
        let lp = self.field_at(p.ty, p.val, 1);
        self.store(lp, Operand { val: Val::Int(0), ty: I64 });
    }

    /// Whether one of the first `n` elements is `key`.
    pub fn buffer_has(&mut self, buf: Val, t: usize, n: Operand, key: Operand) -> (out: Operand)
        ensures
            (out, final(self)@) == buffer_has(old(self)@, buf, t, n, key),
    {
        reveal(buffer_has);
        let et: usize = self.array_elem(t);
        let k = self.coerce(key, et);
        let found = self.slot(I1);
        self.store(found.val, Operand { val: Val::Int(0), ty: I1 });
        let ip = self.slot(I64);
        self.store(ip.val, Operand { val: Val::Int(0), ty: I64 });
        let loop_bb = self.block(Label::ContainsLoop);
        let body = self.block(Label::ContainsBody);
        let exit = self.block(Label::ContainsExit);
        self.finish(Op::Jump(loop_bb));
        self.at(loop_bb);
        let i = self.load(ip);
        let c = self.compare(Pred::Below, i, n);
        self.finish(Op::Branch(c, body, exit));
        self.at(body);
        let e = self.elem_at(t, buf, i);
        let x = self.load(Operand { val: e, ty: et });
        let q = self.key_eq(x, k);
        let before = self.load(found);
        let any = self.arith(Arith::Or, before, q);
        self.store(found.val, any);
        let j = self.arith(Arith::Add, i, Operand { val: Val::Int(1), ty: I64 });
        self.store(ip.val, j);
        self.finish(Op::Jump(loop_bb));
        self.at(exit);
        let r = self.load(found);
        r
    }

    /// The first or last element of an array; the program ends where there is none.
    pub fn edge_of_array(&mut self, p: Operand, first: bool) -> (out: Operand)
        ensures
            (out, final(self)@) == edge_of_array(old(self)@, p, first),
    {
        reveal(edge_of_array);
        let t: usize = self.array_elem(p.ty);
        let n: u64 = self.array_len(p.ty);
        if n == 0 {
            self.trap_unless(Operand { val: Val::Int(0), ty: I1 });
        }
        if first || n == 0 {
            let e = self.elem_at(p.ty, p.val, Operand { val: Val::Int(0), ty: I64 });
            let r = self.load(Operand { val: e, ty: t });
            return r;
        }
        let e = self.elem_at(p.ty, p.val, Operand { val: Val::Int((n - 1) as i64), ty: I64 });
        let r = self.load(Operand { val: e, ty: t });
        r
    }

    /// Argument `i` of a method of a collection.
    pub fn method_arg(&mut self, depth: usize, args: &'a Vec<CallArg>, i: usize, m: &str, span: Span) -> (out: Result<Operand, CodegenError>)
        ensures
            match out {
                Ok(made) => method_arg(nest::nest(depth as nat), old(self)@, args, i, m@, span) == Ok::<(Operand, State<'a>), Failure<'a>>((made, final(self)@)),
                Err(trouble) => method_arg(nest::nest(depth as nat), old(self)@, args, i, m@, span) == Err::<(Operand, State<'a>), Failure<'a>>(Failure { trouble: trouble@, after: final(self)@ }),
            },
        decreases depth, 2int, 0int,
    {
        reveal(method_arg);
        if i >= args.len() {
            return Err(fault_naming("`", m, "` is missing an argument", span));
        }
        let r = match self.call_arg(depth, &args[i]) {
            Ok(v) => v,
            Err(e) => {
                return Err(e);
            },
        };
        Ok(r)
    }

    /// The length of a vector, map or array; of a string, its address.
    pub fn measure(&mut self, f: Family, p: Operand) -> (out: Operand)
        ensures
            (out, final(self)@) == measure(old(self)@, f, p),
    {
        reveal(measure);
        match f {
            Family::Vector => {
                let lp = self.field_at(p.ty, p.val, 1);
                let r = self.load(Operand { val: lp, ty: I64 });
                return r;
            },
            Family::Mapping => {
                let lp = self.field_at(p.ty, p.val, 2);
                let r = self.load(Operand { val: lp, ty: I64 });
                return r;
            },
            Family::Array => {
                let n: u64 = self.array_len(p.ty);
                return Operand { val: Val::Int(n as i64), ty: I64 };
            },
            Family::Str => {
                let r = self.load(p);
                return r;
            },
        }
    }

    /// The length of what has been measured.
    pub fn count_of(&mut self, f: Family, n: Operand) -> (out: Operand)
        ensures
            (out, final(self)@) == count_of(old(self)@, f, n),
    {
        reveal(count_of);
        match f {
            Family::Str => {
                let r = self.runtime1(Runtime::Strlen, n, I64);
                return r;
            },
            _ => {},
        }
        n
    }

    /// Takes the last of `n` elements of a vector; ends the program where there is none.
    pub fn vec_pop(&mut self, p: Operand, n: Operand) -> (out: Operand)
        ensures
            (out, final(self)@) == vec_pop(old(self)@, p, n),
    {
        reveal(vec_pop);
        let buf: usize = self.struct_elem(p.ty, 0);
        let t: usize = self.array_elem(buf);
        let c = self.compare(Pred::Differ, n, Operand { val: Val::Int(0), ty: I64 });
        self.trap_unless(c);
        let m = self.arith(Arith::Sub, n, Operand { val: Val::Int(1), ty: I64 });
        let lp = self.field_at(p.ty, p.val, 1);
        self.store(lp, m);
        let b = self.field_at(p.ty, p.val, 0);
        let e = self.elem_at(buf, b, m);
        let r = self.load(Operand { val: e, ty: t });
        r
    }

    /// Whether a collection of `n` elements holds an element or a key.
    pub fn has_element(&mut self, f: Family, p: Operand, n: Operand, key: Operand) -> (out: Operand)
        ensures
            (out, final(self)@) == has_element(old(self)@, f, p, n, key),
    {
        reveal(has_element);
        match f {
            Family::Array => {
                let r = self.buffer_has(p.val, p.ty, n, key);
                return r;
            },
            _ => {},
        }
        let t: usize = self.struct_elem(p.ty, 0);
        let b = self.field_at(p.ty, p.val, 0);
        let r = self.buffer_has(b, t, n, key);
        r
    }

    /// The first or last of `n` elements of a vector; the program ends where there is none.
    pub fn edge_of_vec(&mut self, p: Operand, n: Operand, first: bool) -> (out: Operand)
        ensures
            (out, final(self)@) == edge_of_vec(old(self)@, p, n, first),
    {
        reveal(edge_of_vec);
        let buf: usize = self.struct_elem(p.ty, 0);
        let t: usize = self.array_elem(buf);
        let b = self.field_at(p.ty, p.val, 0);
        let c = self.compare(Pred::Differ, n, Operand { val: Val::Int(0), ty: I64 });
        self.trap_unless(c);
        if first {
            let e = self.elem_at(buf, b, Operand { val: Val::Int(0), ty: I64 });
            let r = self.load(Operand { val: e, ty: t });
            return r;
        }
        let k = self.arith(Arith::Sub, n, Operand { val: Val::Int(1), ty: I64 });
        let e = self.elem_at(buf, b, k);
        let r = self.load(Operand { val: e, ty: t });
        r
    }

    /// Removes an entry of a map of `n` entries; the last entry takes its place. Whether it was there.
    pub fn map_remove(&mut self, p: Operand, n: Operand, key: Operand) -> (out: Operand)
        ensures
            (out, final(self)@) == map_remove(old(self)@, p, n, key),
    {
        reveal(map_remove);
        let keys: usize = self.struct_elem(p.ty, 0);
        let vals: usize = self.struct_elem(p.ty, 1);
        let kt: usize = self.array_elem(keys);
        let vt: usize = self.array_elem(vals);
        let found = self.map_find(p, key);
        let hit = self.block(Label::MapHit);
        let miss = self.block(Label::MapMiss);
        let merge = self.block(Label::MapMerge);
        let res = self.slot(I1);
        self.store(res.val, Operand { val: Val::Int(0), ty: I1 });
        let i = self.load(found);
        let c = self.compare(Pred::GreaterOrSame, i, Operand { val: Val::Int(0), ty: I64 });
        self.finish(Op::Branch(c, hit, miss));
        self.at(hit);
        let lp = self.field_at(p.ty, p.val, 2);
        let m = self.arith(Arith::Sub, n, Operand { val: Val::Int(1), ty: I64 });
        let kb = self.field_at(p.ty, p.val, 0);
        let vb = self.field_at(p.ty, p.val, 1);
        let lk = self.elem_at(keys, kb, m);
        let lv = self.elem_at(vals, vb, m);
        let k = self.load(Operand { val: lk, ty: kt });
        let v = self.load(Operand { val: lv, ty: vt });
        let dk = self.elem_at(keys, kb, i);
        let dv = self.elem_at(vals, vb, i);
        self.store(dk, k);
        self.store(dv, v);
        self.store(lp, m);
        self.store(res.val, Operand { val: Val::Int(1), ty: I1 });
        self.finish(Op::Jump(merge));
        self.at(miss);
        self.finish(Op::Jump(merge));
        self.at(merge);
        let r = self.load(res);
        r
    }

    /// A method that a kind of collection has. The collection is measured before arguments are computed.
    pub fn run_method(&mut self, depth: usize, f: Family, p: Operand, m: &str, args: &'a Vec<CallArg>, span: Span) -> (out: Result<Operand, CodegenError>)
        ensures
            match out {
                Ok(made) => run_method(nest::nest(depth as nat), old(self)@, f, p, m@, args, span) == Ok::<(Operand, State<'a>), Failure<'a>>((made, final(self)@)),
                Err(trouble) => run_method(nest::nest(depth as nat), old(self)@, f, p, m@, args, span) == Err::<(Operand, State<'a>), Failure<'a>>(Failure { trouble: trouble@, after: final(self)@ }),
            },
        decreases depth, 6int, 0int,
    {
        reveal(run_method);
        let n = self.measure(f, p);
        if text::same_str(m, "len") {
            let r = self.count_of(f, n);
            return Ok(r);
        }
        if text::same_str(m, "is_empty") {
            let k = self.count_of(f, n);
            let r = self.compare(Pred::Same, k, Operand { val: Val::Int(0), ty: I64 });
            return Ok(r);
        }
        if text::same_str(m, "pop") {
            let r = self.vec_pop(p, n);
            return Ok(r);
        }
        if text::same_str(m, "clear") {
            self.clear(f, p);
            return Ok(Operand { val: Val::Int(0), ty: I64 });
        }
        if text::same_str(m, "contains") {
            let v = match self.method_arg(depth, args, 0, m, span) {
                Ok(v) => v,
                Err(e) => {
                    return Err(e);
                },
            };
            let r = self.has_element(f, p, n, v);
            return Ok(r);
        }
        if text::same_str(m, "remove") {
            let v = match self.method_arg(depth, args, 0, m, span) {
                Ok(v) => v,
                Err(e) => {
                    return Err(e);
                },
            };
            let r = self.map_remove(p, n, v);
            return Ok(r);
        }
        if text::same_str(m, "get_or") {
            let k = match self.method_arg(depth, args, 0, m, span) {
                Ok(v) => v,
                Err(e) => {
                    return Err(e);
                },
            };
            let d = match self.method_arg(depth, args, 1, m, span) {
                Ok(v) => v,
                Err(e) => {
                    return Err(e);
                },
            };
            let r = self.map_get(p, k, d);
            return Ok(r);
        }
        let first: bool = text::same_str(m, "first");
        if self.is_array(p.ty) {
            let r = self.edge_of_array(p, first);
            return Ok(r);
        }
        let r = self.edge_of_vec(p, n, first);
        Ok(r)
    }

    /// A method of the collection that a variable holds; `None` where it holds none.
    pub fn collection_method(&mut self, depth: usize, n: &str, m: &str, args: &'a Vec<CallArg>, span: Span) -> (out: Result<Option<Operand>, CodegenError>)
        ensures
            match out {
                Ok(made) => collection_method(nest::nest(depth as nat), old(self)@, n@, m@, args, span) == Ok::<(Option<Operand>, State<'a>), Failure<'a>>((made, final(self)@)),
                Err(trouble) => collection_method(nest::nest(depth as nat), old(self)@, n@, m@, args, span) == Err::<(Option<Operand>, State<'a>), Failure<'a>>(Failure { trouble: trouble@, after: final(self)@ }),
            },
        decreases depth, 7int, 0int,
    {
        reveal(collection_method);
        match self.lookup_var(n) {
            Some(p) => {
                match self.family(n, p.ty) {
                    Some(f) => {
                        if self.has_method(f, m) {
                            let r = match self.run_method(depth, f, p, m, args, span) {
                                Ok(v) => v,
                                Err(e) => {
                                    return Err(e);
                                },
                            };
                            return Ok(Some(r));
                        }
                        return Err(fault_naming_two("unknown method `", m, "` for `", n, "`", span));
                    },
                    _ => {},
                }
                return Ok(None);
            },
            _ => {},
        }
        Ok(None)
    }
}

} // verus!
