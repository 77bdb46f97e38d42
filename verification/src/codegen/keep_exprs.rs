//! What the functions of `exprs` keep.
use vstd::prelude::*;
use crate::ast::{
    CallArg, ClosureBody, Expr, FieldInit, MapEntry, Param, StringPart,
    Type, BinOp, UnaryOp,
};
use crate::codegen::ir::{
    Arith, FuncInfo, Label, Op, Operand, ParamInfo, Runtime,
    TyDef, Val, I64, PTR,
};
use crate::codegen::exprs;
use crate::codegen::keep;
use crate::codegen::keep_calls;
use crate::codegen::keep_lower;
use crate::codegen::keep_patterns;
use crate::codegen::keep_places;
use crate::codegen::keep_state;
use crate::codegen::lower;
use crate::codegen::state;
use crate::codegen::nest::Nest;
use crate::codegen::state::State;
use crate::token::Span;

verus! {

/// `need_int` keeps what was there.
pub broadcast proof fn keeps_need_int<'a>(base: State<'a>, st: State<'a>, v: Operand, span: Span)
    requires
        #[trigger] keep::kept(base, st),
    ensures
        match #[trigger] exprs::need_int(st, v, span) {
            Ok((_, after)) => keep::kept(base, after),
            Err(_) => true,
        },
{

    reveal(exprs::need_int);
}

/// `variable` keeps what was there.
pub broadcast proof fn keeps_variable<'a>(base: State<'a>, st: State<'a>, n: Seq<char>, span: Span)
    requires
        #[trigger] keep::kept(base, st),
    ensures
        match #[trigger] exprs::variable(st, n, span) {
            Ok((_, after)) => keep::kept(base, after),
            Err(_) => true,
        },
{
    broadcast use keep_lower::keeps_load;

    reveal(exprs::variable);
}

/// `step_by` keeps what was there.
pub broadcast proof fn keeps_step_by<'a>(base: State<'a>, nest: Nest<'a>, st: State<'a>, inner: &'a Expr, op: Arith)
    requires
        #[trigger] keep::kept(base, st),
        keep::nest_keeps(nest),
    ensures
        match #[trigger] exprs::step_by(nest, st, inner, op) {
            Ok((_, after)) => keep::kept(base, after),
            Err(_) => true,
        },
{
    broadcast use {keep_lower::keeps_arith, keep_lower::keeps_load, keep_lower::keeps_store};

    reveal(exprs::step_by);
}

/// `unary` keeps what was there.
pub broadcast proof fn keeps_unary<'a>(base: State<'a>, nest: Nest<'a>, st: State<'a>, op: UnaryOp, inner: &'a Expr, span: Span)
    requires
        #[trigger] keep::kept(base, st),
        keep::nest_keeps(nest),
    ensures
        match #[trigger] exprs::unary(nest, st, op, inner, span) {
            Ok((_, after)) => keep::kept(base, after),
            Err(_) => true,
        },
{
    broadcast use {keeps_need_int, keeps_step_by, keep_lower::keeps_arith};

    reveal(exprs::unary);
}

/// `postfix` keeps what was there.
pub broadcast proof fn keeps_postfix<'a>(base: State<'a>, nest: Nest<'a>, st: State<'a>, op: UnaryOp, inner: &'a Expr)
    requires
        #[trigger] keep::kept(base, st),
        keep::nest_keeps(nest),
    ensures
        match #[trigger] exprs::postfix(nest, st, op, inner) {
            Ok((_, after)) => keep::kept(base, after),
            Err(_) => true,
        },
{
    broadcast use {keeps_step_by, keep_lower::keeps_load, keep_lower::keeps_store};

    reveal(exprs::postfix);
}

/// `operand_ptr` keeps what was there.
pub broadcast proof fn keeps_operand_ptr<'a>(base: State<'a>, nest: Nest<'a>, st: State<'a>, e: &'a Expr)
    requires
        #[trigger] keep::kept(base, st),
        keep::nest_keeps(nest),
    ensures
        match #[trigger] exprs::operand_ptr(nest, st, e) {
            Ok((_, after)) => keep::kept(base, after),
            Err(_) => true,
        },
{
    broadcast use {keep_lower::keeps_store, keep_state::keeps_emit};

    reveal(exprs::operand_ptr);
}

/// `operator_call` keeps what was there.
pub broadcast proof fn keeps_operator_call<'a>(base: State<'a>, nest: Nest<'a>, st: State<'a>, k: usize, lhs: &'a Expr, rhs: &'a Expr)
    requires
        #[trigger] keep::kept(base, st),
        keep::nest_keeps(nest),
    ensures
        match #[trigger] exprs::operator_call(nest, st, k, lhs, rhs) {
            Ok((_, after)) => keep::kept(base, after),
            Err(_) => true,
        },
{
    broadcast use {keeps_operand_ptr, keep_lower::keeps_call, keep_state::keeps_perform};

    reveal(exprs::operator_call);
}

/// `coalesce` keeps what was there.
pub broadcast proof fn keeps_coalesce<'a>(base: State<'a>, st: State<'a>, l: Operand, r: Operand)
    requires
        #[trigger] keep::kept(base, st),
    ensures
        keep::kept(base, (#[trigger] exprs::coalesce(st, l, r)).1),
{
    broadcast use {keep_lower::keeps_compare, keep_state::keeps_emit};

    reveal(exprs::coalesce);
}

/// `binary_op` keeps what was there.
pub broadcast proof fn keeps_binary_op<'a>(base: State<'a>, st: State<'a>, op: BinOp, l: Operand, r: Operand)
    requires
        #[trigger] keep::kept(base, st),
    ensures
        keep::kept(base, (#[trigger] exprs::binary_op(st, op, l, r)).1),
{
    broadcast use {keeps_coalesce, keep_lower::keeps_arith, keep_lower::keeps_compare};

    reveal(exprs::binary_op);
}

/// `plain_binary` keeps what was there.
pub broadcast proof fn keeps_plain_binary<'a>(base: State<'a>, nest: Nest<'a>, st: State<'a>, op: BinOp, lhs: &'a Expr, rhs: &'a Expr, span: Span)
    requires
        #[trigger] keep::kept(base, st),
        keep::nest_keeps(nest),
    ensures
        match #[trigger] exprs::plain_binary(nest, st, op, lhs, rhs, span) {
            Ok((_, after)) => keep::kept(base, after),
            Err(_) => true,
        },
{
    broadcast use {keeps_binary_op, keeps_coalesce, keeps_need_int, keep_lower::keeps_unify};

    reveal(exprs::plain_binary);
}

/// `binary` keeps what was there.
pub broadcast proof fn keeps_binary<'a>(base: State<'a>, nest: Nest<'a>, st: State<'a>, op: BinOp, lhs: &'a Expr, rhs: &'a Expr, span: Span)
    requires
        #[trigger] keep::kept(base, st),
        keep::nest_keeps(nest),
    ensures
        match #[trigger] exprs::binary(nest, st, op, lhs, rhs, span) {
            Ok((_, after)) => keep::kept(base, after),
            Err(_) => true,
        },
{
    broadcast use {keeps_operator_call, keeps_plain_binary};

    reveal(exprs::binary);
}

/// `conditional` keeps what was there.
pub broadcast proof fn keeps_conditional<'a>(base: State<'a>, nest: Nest<'a>, st: State<'a>, c: &'a Expr, a: &'a Expr, b: &'a Expr, span: Span)
    requires
        #[trigger] keep::kept(base, st),
        keep::nest_keeps(nest),
    ensures
        match #[trigger] exprs::conditional(nest, st, c, a, b, span) {
            Ok((_, after)) => keep::kept(base, after),
            Err(_) => true,
        },
{
    broadcast use {keeps_need_int, keep_lower::keeps_load, keep_lower::keeps_slot, keep_lower::keeps_store, keep_state::keeps_at, keep_state::keeps_block, keep_state::keeps_finish};

    reveal(exprs::conditional);
}

/// `bound` keeps what was there.
pub broadcast proof fn keeps_bound<'a>(base: State<'a>, nest: Nest<'a>, st: State<'a>, e: &'a Option<Box<Expr>>)
    requires
        #[trigger] keep::kept(base, st),
        keep::nest_keeps(nest),
    ensures
        match #[trigger] exprs::bound(nest, st, e) {
            Ok((_, after)) => keep::kept(base, after),
            Err(_) => true,
        },
{

    reveal(exprs::bound);
}

/// `range` keeps what was there.
pub broadcast proof fn keeps_range<'a>(base: State<'a>, nest: Nest<'a>, st: State<'a>, a: &'a Option<Box<Expr>>, b: &'a Option<Box<Expr>>, inclusive: bool)
    requires
        #[trigger] keep::kept(base, st),
        keep::nest_keeps(nest),
    ensures
        match #[trigger] exprs::range(nest, st, a, b, inclusive) {
            Ok((_, after)) => keep::kept(base, after),
            Err(_) => true,
        },
{
    broadcast use {keeps_bound, keep_lower::keeps_insert, keep_lower::keeps_pair_of, keep_state::keeps_intern};

    reveal(exprs::range);
}

/// `compound` keeps what was there.
pub broadcast proof fn keeps_compound<'a>(base: State<'a>, nest: Nest<'a>, st: State<'a>, op: BinOp, lhs: &'a Expr, value: &'a Expr, span: Span)
    requires
        #[trigger] keep::kept(base, st),
        keep::nest_keeps(nest),
    ensures
        match #[trigger] exprs::compound(nest, st, op, lhs, value, span) {
            Ok((_, after)) => keep::kept(base, after),
            Err(_) => true,
        },
{
    broadcast use {keeps_need_int, keep_lower::keeps_arith, keep_lower::keeps_load, keep_lower::keeps_store};

    reveal(exprs::compound);
}

/// `nullable` keeps what was there.
pub broadcast proof fn keeps_nullable<'a>(base: State<'a>, nest: Nest<'a>, st: State<'a>, o: &'a Expr, f: Seq<char>)
    requires
        #[trigger] keep::kept(base, st),
        keep::nest_keeps(nest),
    ensures
        match #[trigger] exprs::nullable(nest, st, o, f) {
            Ok((_, after)) => keep::kept(base, after),
            Err(_) => true,
        },
{
    broadcast use {keep_lower::keeps_load, keep_places::keeps_field_ptr, keep_state::keeps_at, keep_state::keeps_block, keep_state::keeps_emit, keep_state::keeps_finish};

    reveal(exprs::nullable);
}

/// `assign_member` keeps what was there.
pub broadcast proof fn keeps_assign_member<'a>(base: State<'a>, nest: Nest<'a>, st: State<'a>, o: &'a Expr, f: Seq<char>, v: Operand)
    requires
        #[trigger] keep::kept(base, st),
        keep::nest_keeps(nest),
    ensures
        match #[trigger] exprs::assign_member(nest, st, o, f, v) {
            Ok((_, after)) => keep::kept(base, after),
            Err(_) => true,
        },
{
    broadcast use {keep_lower::keeps_call, keep_lower::keeps_store, keep_places::keeps_field_ptr, keep_state::keeps_perform};

    reveal(exprs::assign_member);
}

/// `assign_element` keeps what was there.
pub broadcast proof fn keeps_assign_element<'a>(base: State<'a>, nest: Nest<'a>, st: State<'a>, n: Seq<char>, i: &'a Expr, v: Operand, span: Span)
    requires
        #[trigger] keep::kept(base, st),
        keep::nest_keeps(nest),
    ensures
        match #[trigger] exprs::assign_element(nest, st, n, i, v, span) {
            Ok((_, after)) => keep::kept(base, after),
            Err(_) => true,
        },
{
    broadcast use {keeps_need_int, keep_lower::keeps_coerce, keep_lower::keeps_elem_at, keep_lower::keeps_field_at, keep_lower::keeps_load, keep_lower::keeps_store, keep_state::keeps_emit};

    reveal(exprs::assign_element);
}

/// `assign_index` keeps what was there.
pub broadcast proof fn keeps_assign_index<'a>(base: State<'a>, nest: Nest<'a>, st: State<'a>, o: &'a Expr, i: &'a Expr, value: &'a Expr, v: Operand, span: Span)
    requires
        #[trigger] keep::kept(base, st),
        keep::nest_keeps(nest),
    ensures
        match #[trigger] exprs::assign_index(nest, st, o, i, value, v, span) {
            Ok((_, after)) => keep::kept(base, after),
            Err(_) => true,
        },
{
    broadcast use {keeps_assign_element, keeps_map_put};

    reveal(exprs::assign_index);
}

/// `assign` keeps what was there.
pub broadcast proof fn keeps_assign<'a>(base: State<'a>, nest: Nest<'a>, st: State<'a>, lhs: &'a Expr, value: &'a Expr)
    requires
        #[trigger] keep::kept(base, st),
        keep::nest_keeps(nest),
    ensures
        match #[trigger] exprs::assign(nest, st, lhs, value) {
            Ok((_, after)) => keep::kept(base, after),
            Err(_) => true,
        },
{
    broadcast use {keeps_assign_index, keeps_assign_member, keep_lower::keeps_coerce, keep_lower::keeps_store};

    reveal(exprs::assign);
}

/// `key_eq` keeps what was there.
pub broadcast proof fn keeps_key_eq<'a>(base: State<'a>, st: State<'a>, a: Operand, b: Operand)
    requires
        #[trigger] keep::kept(base, st),
    ensures
        keep::kept(base, (#[trigger] exprs::key_eq(st, a, b)).1),
{
    broadcast use {keep_lower::keeps_compare, keep_lower::keeps_runtime2};

    reveal(exprs::key_eq);
}

/// `map_find` keeps what was there.
pub broadcast proof fn keeps_map_find<'a>(base: State<'a>, st: State<'a>, p: Operand, key: Operand)
    requires
        #[trigger] keep::kept(base, st),
    ensures
        keep::kept(base, (#[trigger] exprs::map_find(st, p, key)).1),
{
    broadcast use {keeps_key_eq, keep_lower::keeps_arith, keep_lower::keeps_coerce, keep_lower::keeps_compare, keep_lower::keeps_elem_at, keep_lower::keeps_field_at, keep_lower::keeps_load, keep_lower::keeps_slot, keep_lower::keeps_store, keep_state::keeps_at, keep_state::keeps_block, keep_state::keeps_finish};

    reveal(exprs::map_find);
}

/// `map_append` keeps what was there.
pub broadcast proof fn keeps_map_append<'a>(base: State<'a>, st: State<'a>, p: Operand, key: Operand, v: Operand)
    requires
        #[trigger] keep::kept(base, st),
    ensures
        keep::kept(base, #[trigger] exprs::map_append(st, p, key, v)),
{
    broadcast use {keep_lower::keeps_arith, keep_lower::keeps_coerce, keep_lower::keeps_compare, keep_lower::keeps_elem_at, keep_lower::keeps_field_at, keep_lower::keeps_load, keep_lower::keeps_stop, keep_lower::keeps_store, keep_state::keeps_at, keep_state::keeps_block, keep_state::keeps_finish};

    reveal(exprs::map_append);
}

/// `map_put` keeps what was there.
pub broadcast proof fn keeps_map_put<'a>(base: State<'a>, st: State<'a>, p: Operand, key: Operand, v: Operand)
    requires
        #[trigger] keep::kept(base, st),
    ensures
        keep::kept(base, #[trigger] exprs::map_put(st, p, key, v)),
{
    broadcast use {keeps_map_append, keeps_map_find, keep_lower::keeps_coerce, keep_lower::keeps_compare, keep_lower::keeps_elem_at, keep_lower::keeps_field_at, keep_lower::keeps_load, keep_lower::keeps_store, keep_state::keeps_at, keep_state::keeps_block, keep_state::keeps_finish};

    reveal(exprs::map_put);
}

/// `map_get` keeps what was there.
pub broadcast proof fn keeps_map_get<'a>(base: State<'a>, st: State<'a>, p: Operand, key: Operand, other: Operand)
    requires
        #[trigger] keep::kept(base, st),
    ensures
        keep::kept(base, (#[trigger] exprs::map_get(st, p, key, other)).1),
{
    broadcast use {keeps_map_find, keep_lower::keeps_coerce, keep_lower::keeps_compare, keep_lower::keeps_elem_at, keep_lower::keeps_field_at, keep_lower::keeps_load, keep_lower::keeps_slot, keep_lower::keeps_store, keep_state::keeps_at, keep_state::keeps_block, keep_state::keeps_finish};

    reveal(exprs::map_get);
}

/// `element` keeps what was there.
pub broadcast proof fn keeps_element<'a>(base: State<'a>, nest: Nest<'a>, st: State<'a>, n: Seq<char>, i: &'a Expr, span: Span)
    requires
        #[trigger] keep::kept(base, st),
        keep::nest_keeps(nest),
    ensures
        match #[trigger] exprs::element(nest, st, n, i, span) {
            Ok((_, after)) => keep::kept(base, after),
            Err(_) => true,
        },
{
    broadcast use {keeps_need_int, keep_lower::keeps_elem_at, keep_lower::keeps_field_at, keep_lower::keeps_load, keep_state::keeps_emit};

    reveal(exprs::element);
}

/// `index` keeps what was there.
pub broadcast proof fn keeps_index<'a>(base: State<'a>, nest: Nest<'a>, st: State<'a>, o: &'a Expr, i: &'a Expr, span: Span)
    requires
        #[trigger] keep::kept(base, st),
        keep::nest_keeps(nest),
    ensures
        match #[trigger] exprs::index(nest, st, o, i, span) {
            Ok((_, after)) => keep::kept(base, after),
            Err(_) => true,
        },
{
    broadcast use {keeps_element, keeps_map_get};

    reveal(exprs::index);
}

/// `slice` keeps what was there.
pub broadcast proof fn keeps_slice<'a>(base: State<'a>, nest: Nest<'a>, st: State<'a>, o: &'a Expr, a: &'a Option<Box<Expr>>, b: &'a Option<Box<Expr>>)
    requires
        #[trigger] keep::kept(base, st),
        keep::nest_keeps(nest),
    ensures
        match #[trigger] exprs::slice(nest, st, o, a, b) {
            Ok((_, after)) => keep::kept(base, after),
            Err(_) => true,
        },
{
    broadcast use keeps_bound;

    reveal(exprs::slice);
}

/// `member` keeps what was there.
pub broadcast proof fn keeps_member<'a>(base: State<'a>, nest: Nest<'a>, st: State<'a>, o: &'a Expr, f: Seq<char>, span: Span)
    requires
        #[trigger] keep::kept(base, st),
        keep::nest_keeps(nest),
    ensures
        match #[trigger] exprs::member(nest, st, o, f, span) {
            Ok((_, after)) => keep::kept(base, after),
            Err(_) => true,
        },
{
    broadcast use {keep_lower::keeps_call, keep_lower::keeps_class_ty, keep_lower::keeps_insert, keep_lower::keeps_load, keep_places::keeps_field_ptr, keep_state::keeps_perform};

    reveal(exprs::member);
}

/// `lit_fields` keeps what was there.
pub broadcast proof fn keeps_lit_fields<'a>(base: State<'a>, nest: Nest<'a>, st: State<'a>, fs: &'a Vec<FieldInit>, i: usize, l: usize, t: usize, p: Val, span: Span)
    requires
        #[trigger] keep::kept(base, st),
        keep::nest_keeps(nest),
    ensures
        match #[trigger] exprs::lit_fields(nest, st, fs, i, l, t, p, span) {
            Ok((_, after)) => keep::kept(base, after),
            Err(_) => true,
        },
    decreases fs.len() - i,
{
    broadcast use {keep_lower::keeps_field_at, keep_lower::keeps_store};

    reveal(exprs::lit_fields);
    if i >= fs.len() {
    } else {
        match state::field_entry(st, fs@[i as int].name@, l) {
            Some(k) => {
                let info = state::field_info(st, k);
                match (nest.expr)(st, &fs@[i as int].value) {
                    Ok((v, st)) => {
                        let (q, st) = lower::field_at(st, t, p, info.index);
                        let st = lower::store(st, q, v);
                        keeps_lit_fields(base, nest, st, fs, (i + 1) as usize, l, t, p, span);
                        match exprs::lit_fields(nest, st, fs, (i + 1) as usize, l, t, p, span) {
                            Ok((_, st)) => {
                            },
                            Err(_) => {},
                        }
                    },
                    Err(_) => {},
                }
            },
            _ => {
                let n = fs@[i as int].name@;
            },
        }
    }
}

/// `lit_defaults` keeps what was there.
pub broadcast proof fn keeps_lit_defaults<'a>(base: State<'a>, nest: Nest<'a>, st: State<'a>, fs: &'a Vec<FieldInit>, n: usize, l: usize, t: usize, p: Val)
    requires
        #[trigger] keep::kept(base, st),
        keep::nest_keeps(nest),
    ensures
        match #[trigger] exprs::lit_defaults(nest, st, fs, n, l, t, p) {
            Ok((_, after)) => keep::kept(base, after),
            Err(_) => true,
        },
    decreases n,
{
    broadcast use {keep_lower::keeps_field_at, keep_lower::keeps_store};

    reveal(exprs::lit_defaults);
    if n == 0 {
    } else {
        let k = (n - 1) as usize;
        keeps_lit_defaults(base, nest, st, fs, k, l, t, p);
        match exprs::lit_defaults(nest, st, fs, k, l, t, p) {
            Ok((_, st)) => {
                if state::field_layout(st, k) != Some(l) || exprs::given(st, fs, 0, k) {
                } else {
                    match state::default_at(st, k) {
                        Some(e) => {
                            let info = state::field_info(st, k);
                            match (nest.expr)(st, e) {
                                Ok((v, st)) => {
                                    let (q, st) = lower::field_at(st, t, p, info.index);
                                    let st = lower::store(st, q, v);
                                },
                                Err(_) => {},
                            }
                        },
                        _ => {
                        },
                    }
                }
            },
            Err(_) => {},
        }
    }
}

/// `struct_lit` keeps what was there.
pub broadcast proof fn keeps_struct_lit<'a>(base: State<'a>, nest: Nest<'a>, st: State<'a>, ty: &'a Type, fs: &'a Vec<FieldInit>, span: Span)
    requires
        #[trigger] keep::kept(base, st),
        keep::nest_keeps(nest),
    ensures
        match #[trigger] exprs::struct_lit(nest, st, ty, fs, span) {
            Ok((_, after)) => keep::kept(base, after),
            Err(_) => true,
        },
{
    broadcast use {keeps_lit_defaults, keeps_lit_fields, keep_lower::keeps_class_ty, keep_lower::keeps_load, keep_lower::keeps_store, keep_state::keeps_emit};

    reveal(exprs::struct_lit);
}

/// `enum_value` keeps what was there.
pub broadcast proof fn keeps_enum_value<'a>(base: State<'a>, nest: Nest<'a>, st: State<'a>, l: usize, variant: Seq<char>, args: &'a Vec<CallArg>, span: Span)
    requires
        #[trigger] keep::kept(base, st),
        keep::nest_keeps(nest),
    ensures
        match #[trigger] exprs::enum_value(nest, st, l, variant, args, span) {
            Ok((_, after)) => keep::kept(base, after),
            Err(_) => true,
        },
{
    broadcast use {keep_calls::keeps_call_arg, keep_lower::keeps_class_ty, keep_lower::keeps_insert};

    reveal(exprs::enum_value);
}

/// `enum_variant` keeps what was there.
pub broadcast proof fn keeps_enum_variant<'a>(base: State<'a>, nest: Nest<'a>, st: State<'a>, name: &'a Option<String>, variant: Seq<char>, args: &'a Vec<CallArg>, span: Span)
    requires
        #[trigger] keep::kept(base, st),
        keep::nest_keeps(nest),
    ensures
        match #[trigger] exprs::enum_variant(nest, st, name, variant, args, span) {
            Ok((_, after)) => keep::kept(base, after),
            Err(_) => true,
        },
{
    broadcast use keeps_enum_value;

    reveal(exprs::enum_variant);
}

/// `join_number` keeps what was there.
pub broadcast proof fn keeps_join_number<'a>(base: State<'a>, st: State<'a>, buf: Val, v: Operand, format: Seq<char>)
    requires
        #[trigger] keep::kept(base, st),
    ensures
        keep::kept(base, #[trigger] exprs::join_number(st, buf, v, format)),
{
    broadcast use {keep_lower::keeps_array_of, keep_lower::keeps_runtime, keep_lower::keeps_runtime2, keep_lower::keeps_string, keep_state::keeps_emit, keep_state::keeps_perform};

    reveal(exprs::join_number);
}

/// `join_value` keeps what was there.
pub broadcast proof fn keeps_join_value<'a>(base: State<'a>, st: State<'a>, buf: Val, v: Operand)
    requires
        #[trigger] keep::kept(base, st),
    ensures
        keep::kept(base, #[trigger] exprs::join_value(st, buf, v)),
{
    broadcast use {keeps_join_number, keep_lower::keeps_runtime2};

    reveal(exprs::join_value);
}

/// `join_parts` keeps what was there.
pub broadcast proof fn keeps_join_parts<'a>(base: State<'a>, nest: Nest<'a>, st: State<'a>, ps: &'a Vec<StringPart>, i: usize, buf: Val)
    requires
        #[trigger] keep::kept(base, st),
        keep::nest_keeps(nest),
    ensures
        match #[trigger] exprs::join_parts(nest, st, ps, i, buf) {
            Ok((_, after)) => keep::kept(base, after),
            Err(_) => true,
        },
    decreases ps.len() - i,
{
    broadcast use {keeps_join_value, keep_lower::keeps_runtime2, keep_lower::keeps_string};

    reveal(exprs::join_parts);
    if i >= ps.len() {
    } else {
        match ps@[i as int] {
            StringPart::Literal(s) => {
                let (a, st) = lower::string(st, s@);
                let (x, st) = lower::runtime2(st, Runtime::Strcat, Operand { val: buf, ty: PTR }, a, PTR);
                keeps_join_parts(base, nest, st, ps, (i + 1) as usize, buf);
                match exprs::join_parts(nest, st, ps, (i + 1) as usize, buf) {
                    Ok((_, st)) => {
                    },
                    Err(_) => {},
                }
            },
            StringPart::Hole(e) => {
                match (nest.expr)(st, &e) {
                    Ok((v, st)) => {
                        let st = exprs::join_value(st, buf, v);
                        keeps_join_parts(base, nest, st, ps, (i + 1) as usize, buf);
                        match exprs::join_parts(nest, st, ps, (i + 1) as usize, buf) {
                            Ok((_, st)) => {
                            },
                            Err(_) => {},
                        }
                    },
                    Err(_) => {},
                }
            },
        }
    }
}

/// `interpolated` keeps what was there.
pub broadcast proof fn keeps_interpolated<'a>(base: State<'a>, nest: Nest<'a>, st: State<'a>, ps: &'a Vec<StringPart>)
    requires
        #[trigger] keep::kept(base, st),
        keep::nest_keeps(nest),
    ensures
        match #[trigger] exprs::interpolated(nest, st, ps) {
            Ok((_, after)) => keep::kept(base, after),
            Err(_) => true,
        },
{
    broadcast use {keeps_join_parts, keep_lower::keeps_array_of, keep_lower::keeps_elem_at, keep_lower::keeps_runtime1, keep_lower::keeps_store, keep_state::keeps_emit};

    reveal(exprs::interpolated);
}

/// `closure_params` keeps what was there.
pub broadcast proof fn keeps_closure_params<'a>(base: State<'a>, nest: Nest<'a>, st: State<'a>, ps: &'a Vec<Param>, i: usize)
    requires
        #[trigger] keep::kept(base, st),
        keep::nest_keeps(nest),
    ensures
        match #[trigger] exprs::closure_params(nest, st, ps, i) {
            Ok((_, after)) => keep::kept(base, after),
            Err(_) => true,
        },
    decreases ps.len() - i,
{
    broadcast use {keep_lower::keeps_ty, keep_state::keeps_add_param};

    reveal(exprs::closure_params);
    if i >= ps.len() {
    } else {
        let q = &ps@[i as int];
        match lower::ty(nest, st, &q.ty) {
            Ok((t, st)) => {
                let st = state::add_param(st, q.name@, ParamInfo { ty: Some(t), elem: None, is_variadic: false });
                keeps_closure_params(base, nest, st, ps, (i + 1) as usize);
                match exprs::closure_params(nest, st, ps, (i + 1) as usize) {
                    Ok((_, st)) => {
                    },
                    Err(_) => {},
                }
            },
            Err(_) => {},
        }
    }
}

/// `closure_slots` keeps what was there.
pub broadcast proof fn keeps_closure_slots<'a>(base: State<'a>, nest: Nest<'a>, st: State<'a>, ps: &'a Vec<Param>, i: usize)
    requires
        #[trigger] keep::kept(base, st),
        keep::nest_keeps(nest),
    ensures
        match #[trigger] exprs::closure_slots(nest, st, ps, i) {
            Ok((_, after)) => keep::kept(base, after),
            Err(_) => true,
        },
    decreases ps.len() - i,
{
    broadcast use {keep_lower::keeps_slot, keep_lower::keeps_store, keep_lower::keeps_ty, keep_state::keeps_bind};

    reveal(exprs::closure_slots);
    if i >= ps.len() {
    } else {
        let q = &ps@[i as int];
        match lower::ty(nest, st, &q.ty) {
            Ok((t, st)) => {
                let (s, st) = lower::slot(st, t);
                let st = lower::store(st, s.val, Operand { val: Val::Arg(i), ty: t });
                let st = state::bind(st, q.name@, s);
                keeps_closure_slots(base, nest, st, ps, (i + 1) as usize);
                match exprs::closure_slots(nest, st, ps, (i + 1) as usize) {
                    Ok((_, st)) => {
                    },
                    Err(_) => {},
                }
            },
            Err(_) => {},
        }
    }
}

/// `closure_body` keeps what was there.
pub broadcast proof fn keeps_closure_body<'a>(base: State<'a>, nest: Nest<'a>, st: State<'a>, b: &'a ClosureBody)
    requires
        #[trigger] keep::kept(base, st),
        keep::nest_keeps(nest),
    ensures
        match #[trigger] exprs::closure_body(nest, st, b) {
            Ok((_, after)) => keep::kept(base, after),
            Err(_) => true,
        },
{
    broadcast use keep_state::keeps_finish;

    reveal(exprs::closure_body);
}

/// `closure` keeps what was there.
pub broadcast proof fn keeps_closure<'a>(base: State<'a>, nest: Nest<'a>, st: State<'a>, ps: &'a Vec<Param>, b: &'a ClosureBody)
    requires
        #[trigger] keep::kept(base, st),
        keep::nest_keeps(nest),
    ensures
        match #[trigger] exprs::closure(nest, st, ps, b) {
            Ok((_, after)) => keep::kept(base, after),
            Err(_) => true,
        },
{
    broadcast use {keeps_closure_body, keeps_closure_params, keeps_closure_slots, keep_state::keeps_add_function, keep_state::keeps_at, keep_state::keeps_block, keep_state::keeps_next_closure, keep_state::keeps_param_start};

    reveal(exprs::closure);
    let (id, st) = state::next_closure(st);
    let name = state::closure_text(id);
    let (first, st) = state::param_start(st);
    match exprs::closure_params(nest, st, ps, 0) {
        Ok((_, st)) => {
            let (f, st) = state::add_function(st, name, FuncInfo { ret: Some(I64), c_varargs: false, converts: false, first: first, count: ps.len() });
            let outer = state::this_function(st);
            let main = state::in_main(st);
            let class = state::this_class(st);
            let back = state::here(st);
            let arg0_0 = Some(f);
            let arg0_1 = main;
            let arg0_2 = class;
            let outer0 = st;
            let st = state::set_function(st, arg0_0, arg0_1, arg0_2);
            let base0 = st;
            keep::lemma_function_opens(base, outer0, arg0_0, arg0_1, arg0_2);
            let (entry, st) = state::block(st, Label::Entry);
            let st = state::at(st, entry);
            let outer1 = st;
            let st = state::open_scope(st);
            let base1 = st;
            keep::lemma_scope_opens(base0, outer1);
            match exprs::closure_slots(nest, st, ps, 0) {
                Ok((_, st)) => {
                    match exprs::closure_body(nest, st, b) {
                        Ok((_, st)) => {
                            keep::lemma_scope(base0, outer1, st);
                            let st = state::close_scope(st);
                            keep::lemma_function(base, outer0, arg0_0, arg0_1, arg0_2, st);
                            let st = state::set_function(st, outer, main, class);
                            let st = state::at(st, back);
                        },
                        Err(_) => {},
                    }
                },
                Err(_) => {},
            }
        },
        Err(_) => {},
    }
}

/// `tuple_values` keeps what was there.
pub broadcast proof fn keeps_tuple_values<'a>(base: State<'a>, nest: Nest<'a>, st: State<'a>, es: &'a Vec<Expr>, i: usize)
    requires
        #[trigger] keep::kept(base, st),
        keep::nest_keeps(nest),
    ensures
        match #[trigger] exprs::tuple_values(nest, st, es, i) {
            Ok((_, after)) => keep::kept(base, after),
            Err(_) => true,
        },
    decreases es.len() - i,
{
    broadcast use {keep_state::keeps_intern, keep_state::keeps_perform};

    reveal(exprs::tuple_values);
    if i >= es.len() {
    } else {
        match (nest.expr)(st, &es@[i as int]) {
            Ok((v, st)) => {
                let st = state::perform(st, Op::Push(v));
                keeps_tuple_values(base, nest, st, es, (i + 1) as usize);
                match exprs::tuple_values(nest, st, es, (i + 1) as usize) {
                    Ok((rest, st)) => {
                        let (t, st) = state::intern(st, TyDef::Cons(v.ty, rest));
                    },
                    Err(_) => {},
                }
            },
            Err(_) => {},
        }
    }
}

/// `array_values` keeps what was there.
pub broadcast proof fn keeps_array_values<'a>(base: State<'a>, nest: Nest<'a>, st: State<'a>, es: &'a Vec<Expr>, i: usize, t: usize, agg: Operand)
    requires
        #[trigger] keep::kept(base, st),
        keep::nest_keeps(nest),
    ensures
        match #[trigger] exprs::array_values(nest, st, es, i, t, agg) {
            Ok((_, after)) => keep::kept(base, after),
            Err(_) => true,
        },
    decreases es.len() - i,
{
    broadcast use {keep_lower::keeps_coerce, keep_lower::keeps_insert};

    reveal(exprs::array_values);
    if i >= es.len() {
    } else {
        match (nest.expr)(st, &es@[i as int]) {
            Ok((v, st)) => {
                let (c, st) = lower::coerce(st, v, t);
                let (a, st) = lower::insert(st, agg, c, i as u32);
                keeps_array_values(base, nest, st, es, (i + 1) as usize, t, a);
                match exprs::array_values(nest, st, es, (i + 1) as usize, t, a) {
                    Ok((r, st)) => {
                    },
                    Err(_) => {},
                }
            },
            Err(_) => {},
        }
    }
}

/// `array_lit` keeps what was there.
pub broadcast proof fn keeps_array_lit<'a>(base: State<'a>, nest: Nest<'a>, st: State<'a>, es: &'a Vec<Expr>)
    requires
        #[trigger] keep::kept(base, st),
        keep::nest_keeps(nest),
    ensures
        match #[trigger] exprs::array_lit(nest, st, es) {
            Ok((_, after)) => keep::kept(base, after),
            Err(_) => true,
        },
{
    broadcast use {keeps_array_values, keep_lower::keeps_array_of, keep_lower::keeps_insert};

    reveal(exprs::array_lit);
}

/// `store_entries` keeps what was there.
pub broadcast proof fn keeps_store_entries<'a>(base: State<'a>, nest: Nest<'a>, st: State<'a>, es: &'a Vec<MapEntry>, i: usize, p: Operand)
    requires
        #[trigger] keep::kept(base, st),
        keep::nest_keeps(nest),
    ensures
        match #[trigger] exprs::store_entries(nest, st, es, i, p) {
            Ok((_, after)) => keep::kept(base, after),
            Err(_) => true,
        },
    decreases es.len() - i,
{
    broadcast use {keep_lower::keeps_coerce, keep_lower::keeps_elem_at, keep_lower::keeps_field_at, keep_lower::keeps_store};

    reveal(exprs::store_entries);
    let keys = lower::struct_elem(st, p.ty, 0);
    let vals = lower::struct_elem(st, p.ty, 1);
    if i >= es.len() {
        let (lp, st) = lower::field_at(st, p.ty, p.val, 2);
        let st = lower::store(st, lp, Operand { val: Val::Int(i as i64), ty: I64 });
    } else {
        let kt = lower::array_elem(st, keys);
        let vt = lower::array_elem(st, vals);
        match (nest.expr)(st, &es@[i as int].key) {
            Ok((k, st)) => {
                let (kc, st) = lower::coerce(st, k, kt);
                let (kb, st) = lower::field_at(st, p.ty, p.val, 0);
                let (kp, st) = lower::elem_at(st, keys, kb, Operand { val: Val::Int(i as i64), ty: I64 });
                let st = lower::store(st, kp, kc);
                match (nest.expr)(st, &es@[i as int].value) {
                    Ok((v, st)) => {
                        let (vc, st) = lower::coerce(st, v, vt);
                        let (vb, st) = lower::field_at(st, p.ty, p.val, 1);
                        let (vp, st) = lower::elem_at(st, vals, vb, Operand { val: Val::Int(i as i64), ty: I64 });
                        let st = lower::store(st, vp, vc);
                        keeps_store_entries(base, nest, st, es, (i + 1) as usize, p);
                        match exprs::store_entries(nest, st, es, (i + 1) as usize, p) {
                            Ok((_, st)) => {
                            },
                            Err(_) => {},
                        }
                    },
                    Err(_) => {},
                }
            },
            Err(_) => {},
        }
    }
}

/// `lit_map_ty` keeps what was there.
pub broadcast proof fn keeps_lit_map_ty<'a>(base: State<'a>, st: State<'a>, es: &'a Vec<MapEntry>)
    requires
        #[trigger] keep::kept(base, st),
    ensures
        keep::kept(base, (#[trigger] exprs::lit_map_ty(st, es)).1),
{
    broadcast use keep_lower::keeps_map_of;

    reveal(exprs::lit_map_ty);
}

/// `map_lit` keeps what was there.
pub broadcast proof fn keeps_map_lit<'a>(base: State<'a>, nest: Nest<'a>, st: State<'a>, es: &'a Vec<MapEntry>)
    requires
        #[trigger] keep::kept(base, st),
        keep::nest_keeps(nest),
    ensures
        match #[trigger] exprs::map_lit(nest, st, es) {
            Ok((_, after)) => keep::kept(base, after),
            Err(_) => true,
        },
{
    broadcast use {keeps_lit_map_ty, keeps_store_entries, keep_lower::keeps_load, keep_lower::keeps_slot, keep_lower::keeps_store};

    reveal(exprs::map_lit);
}

/// `expr` keeps what was there.
pub broadcast proof fn keeps_expr<'a>(base: State<'a>, nest: Nest<'a>, st: State<'a>, e: &'a Expr)
    requires
        #[trigger] keep::kept(base, st),
        keep::nest_keeps(nest),
    ensures
        match #[trigger] exprs::expr(nest, st, e) {
            Ok((_, after)) => keep::kept(base, after),
            Err(_) => true,
        },
{
    broadcast use {keeps_assign, keeps_binary, keeps_compound, keeps_conditional, keeps_expr_more, keeps_postfix, keeps_range, keeps_unary, keeps_variable, keep_lower::keeps_load, keep_lower::keeps_string, keep_state::keeps_text};

    reveal(exprs::expr);
}

/// `expr_more` keeps what was there.
pub broadcast proof fn keeps_expr_more<'a>(base: State<'a>, nest: Nest<'a>, st: State<'a>, e: &'a Expr)
    requires
        #[trigger] keep::kept(base, st),
        keep::nest_keeps(nest),
    ensures
        match #[trigger] exprs::expr_more(nest, st, e) {
            Ok((_, after)) => keep::kept(base, after),
            Err(_) => true,
        },
{
    broadcast use {keep_calls::keeps_call_expr, keep_calls::keeps_method_call, keeps_array_lit, keeps_closure, keeps_enum_variant, keeps_index, keeps_interpolated, keeps_map_lit, keeps_member, keeps_nullable, keeps_slice, keeps_struct_lit, keeps_tuple_values, keep_lower::keeps_vec_of, keep_patterns::keeps_match_expr, keep_state::keeps_emit};

    reveal(exprs::expr_more);
}

} // verus!
