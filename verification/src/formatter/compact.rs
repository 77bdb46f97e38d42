//! One-line renderings: types, parameters, patterns, and expressions but for the blocks in them.
use vstd::prelude::*;
use crate::ast;
use crate::ast::{
    ArmBody, BinOp, Block, CallArg, ClosureBody, Constraint, Expr, ExprKind, FieldInit, GenericParam, MapEntry,
    MatchArm, MatchExpr, Param, ParamMode, Pattern, StringPart, Type, UnaryOp, Visibility, WhereClause,
};
use crate::formatter::layout;
use crate::formatter::layout::Context;
use crate::formatter::print::Formatter;
use crate::lexer;
use crate::text;
use crate::text::{chars_of, push_str, push_text};
use crate::tree;

verus! {

broadcast use ast::group_lists;

// ── Words ───────────────────────────────────────────────────────────────────

pub open spec fn vis_text(v: Visibility) -> Seq<char> {
    match v {
        Visibility::Public => "public "@,
        Visibility::Private => "private "@,
        Visibility::Default => ""@,
    }
}

pub open spec fn bin_op_text(op: BinOp) -> Seq<char> {
    match op {
        BinOp::Add => "+"@,
        BinOp::Sub => "-"@,
        BinOp::Mul => "*"@,
        BinOp::Div => "/"@,
        BinOp::Mod => "%"@,
        BinOp::Lt => "<"@,
        BinOp::Le => "<="@,
        BinOp::Gt => ">"@,
        BinOp::Ge => ">="@,
        BinOp::Is => "is"@,
        BinOp::IsNot => "is not"@,
        BinOp::And => "and"@,
        BinOp::Or => "or"@,
        BinOp::BitAnd => "&"@,
        BinOp::BitOr => "|"@,
        BinOp::BitXor => "^"@,
        BinOp::Shl => "<<"@,
        BinOp::Shr => ">>"@,
        BinOp::NullCoalesce => "??"@,
    }
}

pub open spec fn prefix_text(op: UnaryOp) -> Seq<char> {
    match op {
        UnaryOp::Neg => "-"@,
        UnaryOp::Not => "not "@,
        UnaryOp::Pos => "+"@,
        UnaryOp::BitNot => "~"@,
        UnaryOp::Inc => "++"@,
        UnaryOp::Dec => "--"@,
    }
}

/// Whether an operator is written with plus or minus signs.
pub open spec fn is_sign(op: UnaryOp) -> bool {
    op is Neg || op is Pos || op is Inc || op is Dec
}

/// What keeps a prefix operator apart from the one after it: `- -x` is no `--x`.
pub open spec fn sign_gap(op: UnaryOp, x: tree::Expr) -> Seq<char> {
    if is_sign(op) && x.kind is Unary && is_sign(x.kind->Unary_0) {
        " "@
    } else {
        ""@
    }
}

pub open spec fn postfix_text(op: UnaryOp) -> Seq<char> {
    match op {
        UnaryOp::Inc => "++"@,
        UnaryOp::Dec => "--"@,
        _ => ""@,
    }
}

/// A character of a string literal as it is written.
pub open spec fn escaped(c: char) -> Seq<char> {
    match c {
        '\n' => "\\n"@,
        '\r' => "\\r"@,
        '\t' => "\\t"@,
        '"' => "\\\""@,
        '\\' => "\\\\"@,
        _ => seq![c],
    }
}

/// Character `i` of a string literal as it is written: a brace that would open a hole is escaped.
pub open spec fn escaped_at(s: Seq<char>, i: int) -> Seq<char> {
    if s[i] == '{' && lexer::opens_hole(s, i + 1) {
        "\\{"@
    } else {
        escaped(s[i])
    }
}

/// The first `n` characters of a string literal as they are written.
pub open spec fn escaped_string(s: Seq<char>, n: nat) -> Seq<char>
    decreases n,
{
    if n == 0 {
        seq![]
    } else {
        escaped_string(s, (n - 1) as nat) + escaped_at(s, n - 1)
    }
}

/// A character literal as it is written, without its quotes.
pub open spec fn escaped_char(c: char) -> Seq<char> {
    match c {
        '\n' => "\\n"@,
        '\r' => "\\r"@,
        '\t' => "\\t"@,
        '\'' => "\\'"@,
        '\\' => "\\\\"@,
        _ => seq![c],
    }
}

pub open spec fn bool_text(b: bool) -> Seq<char> {
    if b {
        "true"@
    } else {
        "false"@
    }
}

/// `s` followed by the separator, unless nothing stands before item `n`.
pub open spec fn separated(s: Seq<char>, n: int, sep: Seq<char>) -> Seq<char> {
    if n > 0 {
        s + sep
    } else {
        s
    }
}

/// The first `n` names, separated.
pub open spec fn names_text(v: Seq<Seq<char>>, n: nat, sep: Seq<char>) -> Seq<char>
    decreases n,
{
    if n == 0 {
        seq![]
    } else {
        separated(names_text(v, (n - 1) as nat, sep), n - 1, sep) + v[n - 1]
    }
}

// ── Types ───────────────────────────────────────────────────────────────────

pub open spec fn type_text(t: tree::Type) -> Seq<char>
    decreases t, 0nat,
{
    match t {
        tree::Type::Int => "int"@,
        tree::Type::Bool => "bool"@,
        tree::Type::Void => "void"@,
        tree::Type::Str => "string"@,
        tree::Type::Char => "char"@,
        tree::Type::Float => "float"@,
        tree::Type::Double => "double"@,
        tree::Type::Any => "any"@,
        tree::Type::Named(n) => n,
        tree::Type::Generic(n, args) => n + "<"@ + types_text(args, args.len()) + ">"@,
        tree::Type::Function(ret, args) => "function<"@ + type_text(*ret) + "("@ + types_text(
            args,
            args.len(),
        ) + ")>"@,
        tree::Type::Tuple(tys) => "("@ + types_text(tys, tys.len()) + ")"@,
        tree::Type::Array(el) => type_text(*el) + "[]"@,
        tree::Type::FixedArray(el, size) => match size {
            Some(n) => type_text(*el) + " arr["@ + text::decimal(n as nat) + "]"@,
            None => type_text(*el) + " arr"@,
        },
        tree::Type::Vector(el) => type_text(*el) + " vec"@,
        tree::Type::Mapping(key, value) => type_text(*key) + ":"@ + type_text(*value),
        tree::Type::Pointer(el) => type_text(*el) + "*"@,
        tree::Type::Optional(el) => type_text(*el) + (if *el is Optional {
            " ?"@
        } else {
            "?"@
        }),
    }
}

/// The first `n` types, separated by commas.
pub open spec fn types_text(ts: Seq<tree::Type>, n: nat) -> Seq<char>
    decreases ts, n,
{
    if 0 < n <= ts.len() {
        separated(types_text(ts, (n - 1) as nat), n - 1, ", "@) + type_text(ts[n - 1])
    } else {
        seq![]
    }
}

pub open spec fn generic_text(p: tree::GenericParam) -> Seq<char> {
    if p.bounds.len() == 0 {
        p.name
    } else {
        p.name + ": "@ + types_text(p.bounds, p.bounds.len())
    }
}

pub open spec fn generic_list(ps: Seq<tree::GenericParam>, n: nat) -> Seq<char>
    decreases n,
{
    if 0 < n <= ps.len() {
        separated(generic_list(ps, (n - 1) as nat), n - 1, ", "@) + generic_text(ps[n - 1])
    } else {
        seq![]
    }
}

/// A generic parameter list, where there is one.
pub open spec fn generics_text(ps: Seq<tree::GenericParam>) -> Seq<char> {
    if ps.len() == 0 {
        seq![]
    } else {
        "<"@ + generic_list(ps, ps.len()) + ">"@
    }
}

pub open spec fn constraint_list(cs: Seq<tree::Constraint>, n: nat) -> Seq<char>
    decreases n,
{
    if 0 < n <= cs.len() {
        separated(constraint_list(cs, (n - 1) as nat), n - 1, ", "@) + type_text(cs[n - 1].ty) + ": "@
            + types_text(cs[n - 1].bounds, cs[n - 1].bounds.len())
    } else {
        seq![]
    }
}

/// A `where` clause with the space before it, where there is one.
pub open spec fn where_text(w: Option<tree::WhereClause>) -> Seq<char> {
    match w {
        None => seq![],
        Some(wc) => " where "@ + constraint_list(wc.constraints, wc.constraints.len()),
    }
}

/// Whether the type stands for the one that a `...name` parameter leaves out.
pub open spec fn is_derived(t: tree::Type) -> bool {
    match t {
        tree::Type::Named(n) => n == "__derived__"@,
        _ => false,
    }
}

pub open spec fn param_text(p: tree::Param) -> Seq<char> {
    let s = if p.is_variadic {
        "..."@
    } else {
        ""@
    };
    let s = match p.mode {
        ParamMode::Ref => s + "ref "@,
        ParamMode::Out => s + "out "@,
        ParamMode::Plain => s,
    };
    if is_derived(p.ty) {
        s + p.name
    } else {
        s + type_text(p.ty) + " "@ + p.name
    }
}

pub open spec fn params_text(ps: Seq<tree::Param>, n: nat) -> Seq<char>
    decreases n,
{
    if 0 < n <= ps.len() {
        separated(params_text(ps, (n - 1) as nat), n - 1, ", "@) + param_text(ps[n - 1])
    } else {
        seq![]
    }
}

// ── Patterns ────────────────────────────────────────────────────────────────

pub open spec fn pattern_text(p: tree::Pattern) -> Seq<char>
    decreases p, 0nat,
{
    match p {
        tree::Pattern::Wildcard => "_"@,
        tree::Pattern::Var(n) => n,
        tree::Pattern::LitInt(v) => text::signed_decimal(v as int),
        tree::Pattern::LitBool(b) => bool_text(b),
        tree::Pattern::Variant { variant, payload } => match payload {
            Some(ps) => "."@ + variant + "("@ + patterns_text(ps, ps.len(), ", "@) + ")"@,
            None => "."@ + variant,
        },
        tree::Pattern::Tuple(ps) => "("@ + patterns_text(ps, ps.len(), ", "@) + ")"@,
        tree::Pattern::Alternative(ps) => patterns_text(ps, ps.len(), " | "@),
    }
}

pub open spec fn patterns_text(ps: Seq<tree::Pattern>, n: nat, sep: Seq<char>) -> Seq<char>
    decreases ps, n,
{
    if 0 < n <= ps.len() {
        separated(patterns_text(ps, (n - 1) as nat, sep), n - 1, sep) + pattern_text(ps[n - 1])
    } else {
        seq![]
    }
}

// ── Expressions ─────────────────────────────────────────────────────────────

pub open spec fn range_op_text(inclusive: bool) -> Seq<char> {
    if inclusive {
        "..="@
    } else {
        ".."@
    }
}

/// Explicit type arguments of a call, where there are some.
pub open spec fn type_args_text(ts: Seq<tree::Type>) -> Seq<char> {
    if ts.len() == 0 {
        seq![]
    } else {
        "<"@ + types_text(ts, ts.len()) + ">"@
    }
}

/// An expression on one line, but for the blocks in it, which stand one step further in than `ind`.
pub open spec fn expr_text(cx: Context, ind: nat, e: tree::Expr) -> Seq<char>
    decreases e, 0nat, 0nat,
{
    match e.kind {
        tree::ExprKind::IntLit(v) => text::signed_decimal(v as int),
        tree::ExprKind::FloatLit(v) => v,
        tree::ExprKind::BoolLit(b) => bool_text(b),
        tree::ExprKind::StringLit(v) => "\""@ + escaped_string(v, v.len()) + "\""@,
        tree::ExprKind::Interpolated(parts) => parts_text(cx, ind, parts, parts.len()) + "\""@,
        tree::ExprKind::CharLit(c) => "'"@ + escaped_char(c) + "'"@,
        tree::ExprKind::Ident(n) => n,
        tree::ExprKind::This => "this"@,
        tree::ExprKind::Super => "super"@,
        tree::ExprKind::Null => "null"@,
        tree::ExprKind::Paren(x) => "("@ + expr_text(cx, ind, *x) + ")"@,
        tree::ExprKind::Tuple(es) => "("@ + exprs_text(cx, ind, es, es.len()) + ")"@,
        tree::ExprKind::Unary(op, x) => prefix_text(op) + sign_gap(op, *x) + expr_text(cx, ind, *x),
        tree::ExprKind::Postfix(op, x) => expr_text(cx, ind, *x) + postfix_text(op),
        tree::ExprKind::Binary(op, l, r) => expr_text(cx, ind, *l) + " "@ + bin_op_text(op) + " "@
            + expr_text(cx, ind, *r),
        tree::ExprKind::Assign(l, v) => expr_text(cx, ind, *l) + " = "@ + expr_text(cx, ind, *v),
        tree::ExprKind::CompoundAssign(op, l, v) => expr_text(cx, ind, *l) + " "@ + bin_op_text(op) + "= "@
            + expr_text(cx, ind, *v),
        tree::ExprKind::Conditional(c, a, b) => expr_text(cx, ind, *c) + " ? "@ + expr_text(cx, ind, *a) + " : "@
            + expr_text(cx, ind, *b),
        tree::ExprKind::Range(a, b, inclusive) => {
            let s = match a {
                Some(x) => expr_text(cx, ind, *x),
                None => seq![],
            };
            let s = s + range_op_text(inclusive);
            match b {
                Some(x) => s + expr_text(cx, ind, *x),
                None => s,
            }
        },
        tree::ExprKind::NullableMember(x, f) => expr_text(cx, ind, *x) + "?."@ + f,
        tree::ExprKind::Call { callee, type_args, args } => callee + type_args_text(type_args) + "("@
            + args_text(cx, ind, args, args.len()) + ")"@,
        tree::ExprKind::MethodCall { object, method, args } => expr_text(cx, ind, *object) + "."@ + method
            + "("@ + args_text(cx, ind, args, args.len()) + ")"@,
        tree::ExprKind::Member(x, f) => expr_text(cx, ind, *x) + "."@ + f,
        tree::ExprKind::Index(x, i) => expr_text(cx, ind, *x) + "["@ + expr_text(cx, ind, *i) + "]"@,
        tree::ExprKind::ArrayLit(es) => "["@ + exprs_text(cx, ind, es, es.len()) + "]"@,
        tree::ExprKind::VecEmpty => "vec[]"@,
        tree::ExprKind::MapLit { ty, entries } => type_text(ty) + " has "@ + entries_text(cx, ind, 
            entries,
            entries.len(),
        ) + " end"@,
        tree::ExprKind::Slice { object, start, end, inclusive } => {
            let s = expr_text(cx, ind, *object) + "["@;
            let s = match start {
                Some(x) => s + expr_text(cx, ind, *x),
                None => s,
            };
            let s = s + range_op_text(inclusive);
            let s = match end {
                Some(x) => s + expr_text(cx, ind, *x),
                None => s,
            };
            s + "]"@
        },
        tree::ExprKind::StructLit { ty, fields } => type_text(ty) + " has "@ + inits_text(cx, ind, 
            fields,
            fields.len(),
        ) + " end"@,
        tree::ExprKind::EnumVariant { enum_name, variant, args } => {
            let s = match enum_name {
                Some(n) => n,
                None => seq![],
            };
            let s = s + "."@ + variant;
            if args.len() == 0 {
                s
            } else {
                s + "("@ + args_text(cx, ind, args, args.len()) + ")"@
            }
        },
        tree::ExprKind::Match(m) => match_text(cx, ind, *m),
        tree::ExprKind::Closure { params, body } => {
            let s = "|"@ + params_text(params, params.len());
            match *body {
                tree::ClosureBody::Value(x) => s + "| => "@ + expr_text(cx, ind, x),
                tree::ClosureBody::Block(b) => s + "| do\n"@ + block_text(cx, ind, b),
            }
        },
    }
}

/// The statements of a block one step in, and its `end`. The comments in it stand after what the
/// block is a part of.
pub open spec fn block_text(cx: Context, ind: nat, b: tree::Block) -> Seq<char>
    decreases b, 2nat, 0nat,
{
    layout::block_inner(cx, ind, cx.notes.len() as int, b, 1).0 + layout::pad(cx, ind) + "end"@
}

pub open spec fn exprs_text(cx: Context, ind: nat, es: Seq<tree::Expr>, n: nat) -> Seq<char>
    decreases es, 0nat, n,
{
    if 0 < n <= es.len() {
        separated(exprs_text(cx, ind, es, (n - 1) as nat), n - 1, ", "@) + expr_text(cx, ind, es[n - 1])
    } else {
        seq![]
    }
}

/// The opening quote and the first `n` pieces of a string with holes.
pub open spec fn parts_text(cx: Context, ind: nat, ps: Seq<tree::StringPart>, n: nat) -> Seq<char>
    decreases ps, 0nat, n,
{
    if 0 < n <= ps.len() {
        let s = parts_text(cx, ind, ps, (n - 1) as nat);
        match ps[n - 1] {
            tree::StringPart::Literal(l) => s + l,
            tree::StringPart::Hole(x) => s + "{"@ + expr_text(cx, ind, x) + "}"@,
        }
    } else {
        "\""@
    }
}

pub open spec fn arg_text(cx: Context, ind: nat, a: tree::CallArg) -> Seq<char>
    decreases a, 0nat, 0nat,
{
    match a {
        tree::CallArg::Value(x) => expr_text(cx, ind, x),
        tree::CallArg::Named { name, value } => name + ": "@ + expr_text(cx, ind, value),
        tree::CallArg::Out { ty, name, .. } => match ty {
            Some(t) => "out "@ + type_text(t) + " "@ + name,
            None => "out "@ + name,
        },
        tree::CallArg::Ref(x) => "ref "@ + expr_text(cx, ind, x),
    }
}

pub open spec fn args_text(cx: Context, ind: nat, args: Seq<tree::CallArg>, n: nat) -> Seq<char>
    decreases args, 0nat, n,
{
    if 0 < n <= args.len() {
        separated(args_text(cx, ind, args, (n - 1) as nat), n - 1, ", "@) + arg_text(cx, ind, args[n - 1])
    } else {
        seq![]
    }
}

pub open spec fn entries_text(cx: Context, ind: nat, es: Seq<tree::MapEntry>, n: nat) -> Seq<char>
    decreases es, 0nat, n,
{
    if 0 < n <= es.len() {
        separated(entries_text(cx, ind, es, (n - 1) as nat), n - 1, ", "@) + expr_text(cx, ind, es[n - 1].key) + ": "@
            + expr_text(cx, ind, es[n - 1].value)
    } else {
        seq![]
    }
}

/// Field initializers are separated by `;`, which keeps the line parseable.
pub open spec fn inits_text(cx: Context, ind: nat, fs: Seq<tree::FieldInit>, n: nat) -> Seq<char>
    decreases fs, 0nat, n,
{
    if 0 < n <= fs.len() {
        separated(inits_text(cx, ind, fs, (n - 1) as nat), n - 1, "; "@) + fs[n - 1].name + " = "@ + expr_text(cx, ind, 
            fs[n - 1].value,
        )
    } else {
        seq![]
    }
}

/// The pattern of an arm and its guard.
pub open spec fn arm_head_text(cx: Context, ind: nat, a: tree::MatchArm) -> Seq<char>
    decreases a, 0nat, 0nat,
{
    match a.guard {
        Some(g) => pattern_text(a.pattern) + " if "@ + expr_text(cx, ind, g),
        None => pattern_text(a.pattern),
    }
}

pub open spec fn arm_text(cx: Context, ind: nat, a: tree::MatchArm) -> Seq<char>
    decreases a, 1nat, 0nat,
{
    let s = arm_head_text(cx, ind, a) + " -> "@;
    match a.body {
        tree::ArmBody::Value(x) => s + expr_text(cx, ind, x),
        tree::ArmBody::Block(b) => s + "do\n"@ + block_text(cx, ind, b),
    }
}

/// A `match` on one line.
pub open spec fn match_text(cx: Context, ind: nat, m: tree::MatchExpr) -> Seq<char>
    decreases m, 0nat, 0nat,
{
    "match "@ + expr_text(cx, ind, m.scrutinee) + " do "@ + arms_text(cx, ind, m.arms, m.arms.len()) + " end"@
}

pub open spec fn arms_text(cx: Context, ind: nat, arms: Seq<tree::MatchArm>, n: nat) -> Seq<char>
    decreases arms, 0nat, n,
{
    if 0 < n <= arms.len() {
        separated(arms_text(cx, ind, arms, (n - 1) as nat), n - 1, ", "@) + arm_text(cx, ind, arms[n - 1])
    } else {
        seq![]
    }
}


// ── Rendering ───────────────────────────────────────────────────────────────

/// The visibility and a space, where it is written.
pub fn vis_prefix(v: Visibility) -> (r: &'static str)
    ensures
        r@ == vis_text(v),
{
    match v {
        Visibility::Public => "public ",
        Visibility::Private => "private ",
        Visibility::Default => "",
    }
}

/// A binary operator as it is written.
pub fn bin_op(op: BinOp) -> (r: &'static str)
    ensures
        r@ == bin_op_text(op),
{
    match op {
        BinOp::Add => "+",
        BinOp::Sub => "-",
        BinOp::Mul => "*",
        BinOp::Div => "/",
        BinOp::Mod => "%",
        BinOp::Lt => "<",
        BinOp::Le => "<=",
        BinOp::Gt => ">",
        BinOp::Ge => ">=",
        BinOp::Is => "is",
        BinOp::IsNot => "is not",
        BinOp::And => "and",
        BinOp::Or => "or",
        BinOp::BitAnd => "&",
        BinOp::BitOr => "|",
        BinOp::BitXor => "^",
        BinOp::Shl => "<<",
        BinOp::Shr => ">>",
        BinOp::NullCoalesce => "??",
    }
}

/// A prefix operator as it is written.
pub fn unary_prefix(op: UnaryOp) -> (r: &'static str)
    ensures
        r@ == prefix_text(op),
{
    match op {
        UnaryOp::Neg => "-",
        UnaryOp::Not => "not ",
        UnaryOp::Pos => "+",
        UnaryOp::BitNot => "~",
        UnaryOp::Inc => "++",
        UnaryOp::Dec => "--",
    }
}

/// A postfix operator as it is written.
fn op_is_sign(op: UnaryOp) -> (r: bool)
    ensures
        r == is_sign(op),
{
    match op {
        UnaryOp::Neg | UnaryOp::Pos | UnaryOp::Inc | UnaryOp::Dec => true,
        _ => false,
    }
}

fn gap_after(op: UnaryOp, x: &Expr) -> (r: &'static str)
    ensures
        r@ == sign_gap(op, x.tree()),
{
    if op_is_sign(op) {
        match &x.kind {
            ExprKind::Unary(inner, _) => if op_is_sign(*inner) {
                " "
            } else {
                ""
            },
            _ => "",
        }
    } else {
        ""
    }
}

pub fn unary_postfix(op: UnaryOp) -> (r: &'static str)
    ensures
        r@ == postfix_text(op),
{
    match op {
        UnaryOp::Inc => "++",
        UnaryOp::Dec => "--",
        _ => "",
    }
}

fn bool_word(b: bool) -> (r: &'static str)
    ensures
        r@ == bool_text(b),
{
    if b {
        "true"
    } else {
        "false"
    }
}

fn range_op(inclusive: bool) -> (r: &'static str)
    ensures
        r@ == range_op_text(inclusive),
{
    if inclusive {
        "..="
    } else {
        ".."
    }
}

/// The text of a string literal with its special characters escaped.
pub fn escape_string(s: &str) -> (r: Vec<char>)
    ensures
        r@ == escaped_string(s@, s@.len()),
{
    let v = chars_of(s);
    let mut out: Vec<char> = Vec::new();
    let mut i: usize = 0;
    while i < v.len()
        invariant
            i <= v.len(),
            v@ == s@,
            out@ == escaped_string(s@, i as nat),
        decreases v.len() - i,
    {
        match v[i] {
            '{' => {
                if i + 1 < v.len() && (lexer::char_starts_word(v[i + 1]) || v[i + 1] == '(') {
                    push_str(&mut out, "\\{");
                } else {
                    out.push('{');
                    assert(out@ =~= escaped_string(s@, i as nat) + seq!['{']);
                }
            },
            '\n' => push_str(&mut out, "\\n"),
            '\r' => push_str(&mut out, "\\r"),
            '\t' => push_str(&mut out, "\\t"),
            '"' => push_str(&mut out, "\\\""),
            '\\' => push_str(&mut out, "\\\\"),
            c => {
                out.push(c);
                assert(out@ =~= escaped_string(s@, i as nat) + seq![c]);
            },
        }
        i = i + 1;
    }
    out
}

/// The text of a character literal.
pub fn escape_char(c: char) -> (r: Vec<char>)
    ensures
        r@ == escaped_char(c),
{
    match c {
        '\n' => chars_of("\\n"),
        '\r' => chars_of("\\r"),
        '\t' => chars_of("\\t"),
        '\'' => chars_of("\\'"),
        '\\' => chars_of("\\\\"),
        _ => {
            let mut out: Vec<char> = Vec::new();
            out.push(c);
            assert(out@ =~= seq![c]);
            out
        },
    }
}

/// The names with `sep` between them.
pub fn join_names(v: &Vec<String>, sep: &str) -> (r: Vec<char>)
    ensures
        r@ == names_text(ast::names_of(v@), v@.len(), sep@),
{
    let mut out: Vec<char> = Vec::new();
    let mut i: usize = 0;
    while i < v.len()
        invariant
            i <= v.len(),
            out@ == names_text(ast::names_of(v@), i as nat, sep@),
        decreases v.len() - i,
    {
        if i > 0 {
            push_str(&mut out, sep);
        }
        push_str(&mut out, v[i].as_str());
        i = i + 1;
    }
    out
}

/// A type.
pub fn fmt_type(t: &Type) -> (r: Vec<char>)
    ensures
        r@ == type_text(t.tree()),
    decreases t,
{
    match t {
        Type::Int => chars_of("int"),
        Type::Bool => chars_of("bool"),
        Type::Void => chars_of("void"),
        Type::Str => chars_of("string"),
        Type::Char => chars_of("char"),
        Type::Float => chars_of("float"),
        Type::Double => chars_of("double"),
        Type::Any => chars_of("any"),
        Type::Named(n) => chars_of(n.as_str()),
        Type::Generic(n, args) => {
            let mut s = chars_of(n.as_str());
            push_str(&mut s, "<");
            push_text(&mut s, &fmt_types(args));
            push_str(&mut s, ">");
            s
        },
        Type::Function(ret, args) => {
            let mut s = chars_of("function<");
            push_text(&mut s, &fmt_type(ret));
            push_str(&mut s, "(");
            push_text(&mut s, &fmt_types(args));
            push_str(&mut s, ")>");
            s
        },
        Type::Tuple(tys) => {
            let mut s = chars_of("(");
            push_text(&mut s, &fmt_types(tys));
            push_str(&mut s, ")");
            s
        },
        Type::Array(el) => {
            let mut s = fmt_type(el);
            push_str(&mut s, "[]");
            s
        },
        Type::FixedArray(el, size) => {
            let mut s = fmt_type(el);
            match size {
                Some(n) => {
                    push_str(&mut s, " arr[");
                    text::push_decimal(&mut s, *n);
                    push_str(&mut s, "]");
                },
                None => {
                    push_str(&mut s, " arr");
                },
            }
            s
        },
        Type::Vector(el) => {
            let mut s = fmt_type(el);
            push_str(&mut s, " vec");
            s
        },
        Type::Mapping(key, value) => {
            let mut s = fmt_type(key);
            push_str(&mut s, ":");
            push_text(&mut s, &fmt_type(value));
            s
        },
        Type::Pointer(el) => {
            let mut s = fmt_type(el);
            push_str(&mut s, "*");
            s
        },
        Type::Optional(el) => {
            let mut s = fmt_type(el);
            match **el {
                Type::Optional(_) => push_str(&mut s, " ?"),
                _ => push_str(&mut s, "?"),
            }
            s
        },
    }
}

/// Types separated by commas.
pub fn fmt_types(v: &Vec<Type>) -> (r: Vec<char>)
    ensures
        r@ == types_text(ast::types_of(v@), v@.len()),
    decreases v@,
{
    let mut s: Vec<char> = Vec::new();
    let mut i: usize = 0;
    while i < v.len()
        invariant
            i <= v.len(),
            s@ == types_text(ast::types_of(v@), i as nat),
        decreases v.len() - i,
    {
        if i > 0 {
            push_str(&mut s, ", ");
        }
        push_text(&mut s, &fmt_type(&v[i]));
        i = i + 1;
    }
    s
}

fn fmt_generic_param(p: &GenericParam) -> (r: Vec<char>)
    ensures
        r@ == generic_text(p.tree()),
{
    let mut s = chars_of(p.name.as_str());
    if p.bounds.len() > 0 {
        push_str(&mut s, ": ");
        push_text(&mut s, &fmt_types(&p.bounds));
    }
    s
}

/// Generic parameters separated by commas.
pub fn fmt_generic_list(v: &Vec<GenericParam>) -> (r: Vec<char>)
    ensures
        r@ == generic_list(ast::generics_of(v@), v@.len()),
{
    let mut s: Vec<char> = Vec::new();
    let mut i: usize = 0;
    while i < v.len()
        invariant
            i <= v.len(),
            s@ == generic_list(ast::generics_of(v@), i as nat),
        decreases v.len() - i,
    {
        if i > 0 {
            push_str(&mut s, ", ");
        }
        push_text(&mut s, &fmt_generic_param(&v[i]));
        i = i + 1;
    }
    s
}

/// A generic parameter list in angle brackets, where there is one.
pub fn fmt_generic_params(params: &Vec<GenericParam>) -> (r: Vec<char>)
    ensures
        r@ == generics_text(ast::generics_of(params@)),
{
    if params.len() == 0 {
        return Vec::new();
    }
    let mut s = chars_of("<");
    push_text(&mut s, &fmt_generic_list(params));
    push_str(&mut s, ">");
    s
}

/// Constraints separated by commas.
pub fn fmt_constraints(v: &Vec<Constraint>) -> (r: Vec<char>)
    ensures
        r@ == constraint_list(ast::constraints_of(v@), v@.len()),
{
    let mut s: Vec<char> = Vec::new();
    let mut i: usize = 0;
    while i < v.len()
        invariant
            i <= v.len(),
            s@ == constraint_list(ast::constraints_of(v@), i as nat),
        decreases v.len() - i,
    {
        if i > 0 {
            push_str(&mut s, ", ");
        }
        push_text(&mut s, &fmt_type(&v[i].ty));
        push_str(&mut s, ": ");
        push_text(&mut s, &fmt_types(&v[i].bounds));
        i = i + 1;
    }
    s
}

/// The `where` clause of a declaration, where it has one.
pub fn fmt_where_clause(w: &Option<WhereClause>) -> (r: Vec<char>)
    ensures
        r@ == where_text(
            match *w {
                Some(v) => Some(v.tree()),
                None => None,
            },
        ),
{
    match w {
        None => Vec::new(),
        Some(wc) => {
                    let mut s = chars_of(" where ");
            push_text(&mut s, &fmt_constraints(&wc.constraints));
            s
        },
    }
}

/// Whether a parameter leaves its type out.
pub fn has_derived_type(p: &Param) -> (r: bool)
    ensures
        r == is_derived(p.ty.tree()),
{
    match &p.ty {
        Type::Named(n) => text::same_str(n.as_str(), "__derived__"),
        _ => false,
    }
}

/// A parameter.
pub fn fmt_param(p: &Param) -> (r: Vec<char>)
    ensures
        r@ == param_text(p.tree()),
{
    let mut s = chars_of(
        if p.is_variadic {
            "..."
        } else {
            ""
        },
    );
    match p.mode {
        ParamMode::Ref => push_str(&mut s, "ref "),
        ParamMode::Out => push_str(&mut s, "out "),
        ParamMode::Plain => {},
    }
    if has_derived_type(p) {
        push_str(&mut s, p.name.as_str());
        return s;
    }
    push_text(&mut s, &fmt_type(&p.ty));
    push_str(&mut s, " ");
    push_str(&mut s, p.name.as_str());
    s
}

/// Parameters separated by commas.
pub fn fmt_params(v: &Vec<Param>) -> (r: Vec<char>)
    ensures
        r@ == params_text(ast::params_of(v@), v@.len()),
{
    let mut s: Vec<char> = Vec::new();
    let mut i: usize = 0;
    while i < v.len()
        invariant
            i <= v.len(),
            s@ == params_text(ast::params_of(v@), i as nat),
        decreases v.len() - i,
    {
        if i > 0 {
            push_str(&mut s, ", ");
        }
        push_text(&mut s, &fmt_param(&v[i]));
        i = i + 1;
    }
    s
}

/// A pattern.
pub fn fmt_pattern(p: &Pattern) -> (r: Vec<char>)
    ensures
        r@ == pattern_text(p.tree()),
    decreases p,
{
    match p {
        Pattern::Wildcard => chars_of("_"),
        Pattern::Var(n) => chars_of(n.as_str()),
        Pattern::LitInt(v) => fmt_int(*v),
        Pattern::LitBool(b) => chars_of(bool_word(*b)),
        Pattern::Variant { variant, payload } => {
            let mut s = chars_of(".");
            push_str(&mut s, variant.as_str());
            if let Some(ps) = payload {
                push_str(&mut s, "(");
                push_text(&mut s, &fmt_patterns(ps, ", "));
                push_str(&mut s, ")");
            }
            s
        },
        Pattern::Tuple(ps) => {
            let mut s = chars_of("(");
            push_text(&mut s, &fmt_patterns(ps, ", "));
            push_str(&mut s, ")");
            s
        },
        Pattern::Alternative(ps) => fmt_patterns(ps, " | "),
    }
}

fn fmt_int(v: i64) -> (r: Vec<char>)
    ensures
        r@ == text::signed_decimal(v as int),
{
    let mut s: Vec<char> = Vec::new();
    text::push_signed(&mut s, v);
    assert(s@ =~= text::signed_decimal(v as int));
    s
}

fn fmt_patterns(v: &Vec<Pattern>, sep: &str) -> (r: Vec<char>)
    ensures
        r@ == patterns_text(ast::patterns_of(v@), v@.len(), sep@),
    decreases v@,
{
    let mut s: Vec<char> = Vec::new();
    let mut i: usize = 0;
    while i < v.len()
        invariant
            i <= v.len(),
            s@ == patterns_text(ast::patterns_of(v@), i as nat, sep@),
        decreases v.len() - i,
    {
        if i > 0 {
            push_str(&mut s, sep);
        }
        push_text(&mut s, &fmt_pattern(&v[i]));
        i = i + 1;
    }
    s
}

/// Explicit type arguments in angle brackets, where there are some.
pub fn fmt_type_args(ts: &Vec<Type>) -> (r: Vec<char>)
    ensures
        r@ == type_args_text(ast::types_of(ts@)),
{
    if ts.len() == 0 {
        return Vec::new();
    }
    let mut s = chars_of("<");
    push_text(&mut s, &fmt_types(ts));
    push_str(&mut s, ">");
    s
}

/// An expression on one line, with canonical spacing.
pub fn fmt_expr_compact(f: &Formatter, ind: usize, e: &Expr) -> (r: Vec<char>)
    requires
        f.wf(),
    ensures
        r@ == expr_text(f@, ind as nat, e.tree()),
    decreases e, 0nat, 0nat,
{
    match &e.kind {
        ExprKind::IntLit(v) => fmt_int(*v),
        ExprKind::FloatLit(v) => chars_of(v.as_str()),
        ExprKind::BoolLit(b) => chars_of(bool_word(*b)),
        ExprKind::StringLit(v) => {
            let mut s = chars_of("\"");
            push_text(&mut s, &escape_string(v.as_str()));
            push_str(&mut s, "\"");
            s
        },
        ExprKind::Interpolated(parts) => {
            let mut s = fmt_parts(f, ind, parts);
            push_str(&mut s, "\"");
            s
        },
        ExprKind::CharLit(c) => {
            let mut s = chars_of("'");
            push_text(&mut s, &escape_char(*c));
            push_str(&mut s, "'");
            s
        },
        ExprKind::Ident(n) => chars_of(n.as_str()),
        ExprKind::This => chars_of("this"),
        ExprKind::Super => chars_of("super"),
        ExprKind::Null => chars_of("null"),
        ExprKind::Paren(x) => {
            let mut s = chars_of("(");
            push_text(&mut s, &fmt_expr_compact(f, ind, x));
            push_str(&mut s, ")");
            s
        },
        ExprKind::Tuple(es) => {
            let mut s = chars_of("(");
            push_text(&mut s, &fmt_exprs(f, ind, es));
            push_str(&mut s, ")");
            s
        },
        ExprKind::Unary(op, x) => {
            let mut s = chars_of(unary_prefix(*op));
            push_str(&mut s, gap_after(*op, x));
            push_text(&mut s, &fmt_expr_compact(f, ind, x));
            s
        },
        ExprKind::Postfix(op, x) => {
            let mut s = fmt_expr_compact(f, ind, x);
            push_str(&mut s, unary_postfix(*op));
            s
        },
        ExprKind::Binary(op, l, r) => {
            let mut s = fmt_expr_compact(f, ind, l);
            push_str(&mut s, " ");
            push_str(&mut s, bin_op(*op));
            push_str(&mut s, " ");
            push_text(&mut s, &fmt_expr_compact(f, ind, r));
            s
        },
        ExprKind::Assign(l, v) => {
            let mut s = fmt_expr_compact(f, ind, l);
            push_str(&mut s, " = ");
            push_text(&mut s, &fmt_expr_compact(f, ind, v));
            s
        },
        ExprKind::CompoundAssign(op, l, v) => {
            let mut s = fmt_expr_compact(f, ind, l);
            push_str(&mut s, " ");
            push_str(&mut s, bin_op(*op));
            push_str(&mut s, "= ");
            push_text(&mut s, &fmt_expr_compact(f, ind, v));
            s
        },
        ExprKind::Conditional(c, a, b) => {
            let mut s = fmt_expr_compact(f, ind, c);
            push_str(&mut s, " ? ");
            push_text(&mut s, &fmt_expr_compact(f, ind, a));
            push_str(&mut s, " : ");
            push_text(&mut s, &fmt_expr_compact(f, ind, b));
            s
        },
        ExprKind::Range(a, b, inclusive) => {
            let mut s = match a {
                Some(x) => fmt_expr_compact(f, ind, x),
                None => Vec::new(),
            };
            push_str(&mut s, range_op(*inclusive));
            if let Some(x) = b {
                push_text(&mut s, &fmt_expr_compact(f, ind, x));
            }
            s
        },
        ExprKind::NullableMember(x, n) => {
            let mut s = fmt_expr_compact(f, ind, x);
            push_str(&mut s, "?.");
            push_str(&mut s, n.as_str());
            s
        },
        ExprKind::Call { callee, type_args, args } => {
            let mut s = chars_of(callee.as_str());
            push_text(&mut s, &fmt_type_args(type_args));
            push_str(&mut s, "(");
            push_text(&mut s, &fmt_args(f, ind, args));
            push_str(&mut s, ")");
            s
        },
        ExprKind::MethodCall { object, method, args } => {
            let mut s = fmt_expr_compact(f, ind, object);
            push_str(&mut s, ".");
            push_str(&mut s, method.as_str());
            push_str(&mut s, "(");
            push_text(&mut s, &fmt_args(f, ind, args));
            push_str(&mut s, ")");
            s
        },
        ExprKind::Member(x, n) => {
            let mut s = fmt_expr_compact(f, ind, x);
            push_str(&mut s, ".");
            push_str(&mut s, n.as_str());
            s
        },
        ExprKind::Index(x, i) => {
            let mut s = fmt_expr_compact(f, ind, x);
            push_str(&mut s, "[");
            push_text(&mut s, &fmt_expr_compact(f, ind, i));
            push_str(&mut s, "]");
            s
        },
        ExprKind::ArrayLit(es) => {
            let mut s = chars_of("[");
            push_text(&mut s, &fmt_exprs(f, ind, es));
            push_str(&mut s, "]");
            s
        },
        ExprKind::VecEmpty => chars_of("vec[]"),
        ExprKind::MapLit { ty, entries } => {
            let mut s = fmt_type(ty);
            push_str(&mut s, " has ");
            push_text(&mut s, &fmt_entries(f, ind, entries));
            push_str(&mut s, " end");
            s
        },
        ExprKind::Slice { object, start, end, inclusive } => {
            let mut s = fmt_expr_compact(f, ind, object);
            push_str(&mut s, "[");
            if let Some(x) = start {
                push_text(&mut s, &fmt_expr_compact(f, ind, x));
            }
            push_str(&mut s, range_op(*inclusive));
            if let Some(x) = end {
                push_text(&mut s, &fmt_expr_compact(f, ind, x));
            }
            push_str(&mut s, "]");
            s
        },
        ExprKind::StructLit { ty, fields } => {
            let mut s = fmt_type(ty);
            push_str(&mut s, " has ");
            push_text(&mut s, &fmt_inits(f, ind, fields));
            push_str(&mut s, " end");
            s
        },
        ExprKind::EnumVariant { enum_name, variant, args } => {
            let mut s = match enum_name {
                Some(n) => chars_of(n.as_str()),
                None => Vec::new(),
            };
            push_str(&mut s, ".");
            push_str(&mut s, variant.as_str());
            assert(ast::args_of(args@).len() == args@.len());
            if args.len() > 0 {
                push_str(&mut s, "(");
                push_text(&mut s, &fmt_args(f, ind, args));
                push_str(&mut s, ")");
            }
            s
        },
        ExprKind::Match(m) => fmt_match_compact(f, ind, m),
        ExprKind::Closure { params, body } => {
            let mut s = chars_of("|");
            push_text(&mut s, &fmt_params(params));
            match &**body {
                ClosureBody::Value(x) => {
                    assert(body.tree() == tree::ClosureBody::Value(x.tree()));
                    push_str(&mut s, "| => ");
                    push_text(&mut s, &fmt_expr_compact(f, ind, x));
                },
                ClosureBody::Block(b) => {
                    assert(body.tree() == tree::ClosureBody::Block(b.tree()));
                    push_str(&mut s, "| do\n");
                    push_text(&mut s, &fmt_block(f, ind, b));
                },
            }
            s
        },
    }
}

fn fmt_block(f: &Formatter, ind: usize, b: &Block) -> (r: Vec<char>)
    requires
        f.wf(),
    ensures
        r@ == block_text(f@, ind as nat, b.tree()),
    decreases b, 2nat, 0nat,
{
    let mut at: usize = f.comments.len();
    let mut s = f.fmt_block_inner(b, 1, ind, &mut at);
    f.push_pad(&mut s, ind);
    push_str(&mut s, "end");
    s
}

/// Expressions separated by commas.
pub fn fmt_exprs(f: &Formatter, ind: usize, v: &Vec<Expr>) -> (r: Vec<char>)
    requires
        f.wf(),
    ensures
        r@ == exprs_text(f@, ind as nat, ast::exprs_of(v@), v@.len()),
    decreases v@, 0nat, 0nat,
{
    let mut s: Vec<char> = Vec::new();
    let mut i: usize = 0;
    while i < v.len()
        invariant
            f.wf(),
            i <= v.len(),
            s@ == exprs_text(f@, ind as nat, ast::exprs_of(v@), i as nat),
        decreases v.len() - i,
    {
        if i > 0 {
            push_str(&mut s, ", ");
        }
        push_text(&mut s, &fmt_expr_compact(f, ind, &v[i]));
        i = i + 1;
    }
    s
}

fn fmt_parts(f: &Formatter, ind: usize, v: &Vec<StringPart>) -> (r: Vec<char>)
    requires
        f.wf(),
    ensures
        r@ == parts_text(f@, ind as nat, ast::parts_of(v@), v@.len()),
    decreases v@, 0nat, 0nat,
{
    let mut s = chars_of("\"");
    let mut i: usize = 0;
    while i < v.len()
        invariant
            f.wf(),
            i <= v.len(),
            s@ == parts_text(f@, ind as nat, ast::parts_of(v@), i as nat),
        decreases v.len() - i,
    {
        match &v[i] {
            StringPart::Literal(l) => {
                push_str(&mut s, l.as_str());
            },
            StringPart::Hole(x) => {
                push_str(&mut s, "{");
                push_text(&mut s, &fmt_expr_compact(f, ind, x));
                push_str(&mut s, "}");
            },
        }
        i = i + 1;
    }
    s
}

/// An argument of a call.
pub fn fmt_call_arg(f: &Formatter, ind: usize, a: &CallArg) -> (r: Vec<char>)
    requires
        f.wf(),
    ensures
        r@ == arg_text(f@, ind as nat, a.tree()),
    decreases a, 0nat, 0nat,
{
    match a {
        CallArg::Value(x) => fmt_expr_compact(f, ind, x),
        CallArg::Named { name, value } => {
            let mut s = chars_of(name.as_str());
            push_str(&mut s, ": ");
            push_text(&mut s, &fmt_expr_compact(f, ind, value));
            s
        },
        CallArg::Out { ty, name, .. } => {
            let mut s = chars_of("out ");
            if let Some(t) = ty {
                push_text(&mut s, &fmt_type(t));
                push_str(&mut s, " ");
            }
            push_str(&mut s, name.as_str());
            s
        },
        CallArg::Ref(x) => {
            let mut s = chars_of("ref ");
            push_text(&mut s, &fmt_expr_compact(f, ind, x));
            s
        },
    }
}

/// Arguments separated by commas.
pub fn fmt_args(f: &Formatter, ind: usize, v: &Vec<CallArg>) -> (r: Vec<char>)
    requires
        f.wf(),
    ensures
        r@ == args_text(f@, ind as nat, ast::args_of(v@), v@.len()),
    decreases v@, 0nat, 0nat,
{
    let mut s: Vec<char> = Vec::new();
    let mut i: usize = 0;
    while i < v.len()
        invariant
            f.wf(),
            i <= v.len(),
            s@ == args_text(f@, ind as nat, ast::args_of(v@), i as nat),
        decreases v.len() - i,
    {
        if i > 0 {
            push_str(&mut s, ", ");
        }
        push_text(&mut s, &fmt_call_arg(f, ind, &v[i]));
        i = i + 1;
    }
    s
}

/// Map entries separated by commas.
pub fn fmt_entries(f: &Formatter, ind: usize, v: &Vec<MapEntry>) -> (r: Vec<char>)
    requires
        f.wf(),
    ensures
        r@ == entries_text(f@, ind as nat, ast::entries_of(v@), v@.len()),
    decreases v@, 0nat, 0nat,
{
    let mut s: Vec<char> = Vec::new();
    let mut i: usize = 0;
    while i < v.len()
        invariant
            f.wf(),
            i <= v.len(),
            s@ == entries_text(f@, ind as nat, ast::entries_of(v@), i as nat),
        decreases v.len() - i,
    {
        if i > 0 {
            push_str(&mut s, ", ");
        }
        push_text(&mut s, &fmt_expr_compact(f, ind, &v[i].key));
        push_str(&mut s, ": ");
        push_text(&mut s, &fmt_expr_compact(f, ind, &v[i].value));
        i = i + 1;
    }
    s
}

/// Field initializers separated by semicolons.
pub fn fmt_inits(f: &Formatter, ind: usize, v: &Vec<FieldInit>) -> (r: Vec<char>)
    requires
        f.wf(),
    ensures
        r@ == inits_text(f@, ind as nat, ast::inits_of(v@), v@.len()),
    decreases v@, 0nat, 0nat,
{
    let mut s: Vec<char> = Vec::new();
    let mut i: usize = 0;
    while i < v.len()
        invariant
            f.wf(),
            i <= v.len(),
            s@ == inits_text(f@, ind as nat, ast::inits_of(v@), i as nat),
        decreases v.len() - i,
    {
        if i > 0 {
            push_str(&mut s, "; ");
        }
        push_str(&mut s, v[i].name.as_str());
        push_str(&mut s, " = ");
        push_text(&mut s, &fmt_expr_compact(f, ind, &v[i].value));
        i = i + 1;
    }
    s
}

/// A `match` on one line.
pub fn fmt_match_compact(f: &Formatter, ind: usize, m: &MatchExpr) -> (r: Vec<char>)
    requires
        f.wf(),
    ensures
        r@ == match_text(f@, ind as nat, m.tree()),
    decreases m, 0nat, 0nat,
{
    let mut s = chars_of("match ");
    push_text(&mut s, &fmt_expr_compact(f, ind, &m.scrutinee));
    push_str(&mut s, " do ");
    push_text(&mut s, &fmt_arms(f, ind, &m.arms));
    push_str(&mut s, " end");
    s
}

/// The pattern of an arm, with its guard.
pub fn fmt_arm_head(f: &Formatter, ind: usize, a: &MatchArm) -> (r: Vec<char>)
    requires
        f.wf(),
    ensures
        r@ == arm_head_text(f@, ind as nat, a.tree()),
    decreases a, 0nat, 0nat,
{
    let mut s = fmt_pattern(&a.pattern);
    if let Some(g) = &a.guard {
        push_str(&mut s, " if ");
        push_text(&mut s, &fmt_expr_compact(f, ind, g));
    }
    s
}

/// An arm of a `match` on one line.
pub fn fmt_match_arm_compact(f: &Formatter, ind: usize, a: &MatchArm) -> (r: Vec<char>)
    requires
        f.wf(),
    ensures
        r@ == arm_text(f@, ind as nat, a.tree()),
    decreases a, 1nat, 0nat,
{
    let mut s = fmt_arm_head(f, ind, a);
    push_str(&mut s, " -> ");
    match &a.body {
        ArmBody::Value(x) => {
            push_text(&mut s, &fmt_expr_compact(f, ind, x));
        },
        ArmBody::Block(b) => {
            push_str(&mut s, "do\n");
            push_text(&mut s, &fmt_block(f, ind, b));
        },
    }
    s
}

/// Arms separated by commas.
pub fn fmt_arms(f: &Formatter, ind: usize, v: &Vec<MatchArm>) -> (r: Vec<char>)
    requires
        f.wf(),
    ensures
        r@ == arms_text(f@, ind as nat, ast::arms_of(v@), v@.len()),
    decreases v@, 0nat, 0nat,
{
    let mut s: Vec<char> = Vec::new();
    let mut i: usize = 0;
    while i < v.len()
        invariant
            f.wf(),
            i <= v.len(),
            s@ == arms_text(f@, ind as nat, ast::arms_of(v@), i as nat),
        decreases v.len() - i,
    {
        if i > 0 {
            push_str(&mut s, ", ");
        }
        push_text(&mut s, &fmt_match_arm_compact(f, ind, &v[i]));
        i = i + 1;
    }
    s
}


// ── Lines ───────────────────────────────────────────────────────────────────
//
// The layout of whole constructs speaks of these lines by name; what they hold is
// unfolded only where it is needed.

/// An expression on one line.
#[verifier::opaque]
pub open spec fn expr_line(cx: Context, ind: nat, e: tree::Expr) -> Seq<char>
    decreases e, 1nat, 0nat,
{
    expr_text(cx, ind, e)
}

/// Expressions on one line, separated by commas.
#[verifier::opaque]
pub open spec fn exprs_line(cx: Context, ind: nat, es: Seq<tree::Expr>) -> Seq<char>
    decreases es, 1nat, 0nat,
{
    exprs_text(cx, ind, es, es.len())
}

/// An argument on one line.
#[verifier::opaque]
pub open spec fn arg_line(cx: Context, ind: nat, a: tree::CallArg) -> Seq<char>
    decreases a, 1nat, 0nat,
{
    arg_text(cx, ind, a)
}

/// The pattern of an arm and its guard on one line.
#[verifier::opaque]
pub open spec fn arm_head_line(cx: Context, ind: nat, a: tree::MatchArm) -> Seq<char>
    decreases a, 1nat, 0nat,
{
    arm_head_text(cx, ind, a)
}

pub fn fmt_line(f: &Formatter, ind: usize, e: &Expr) -> (r: Vec<char>)
    requires
        f.wf(),
    ensures
        r@ == expr_line(f@, ind as nat, e.tree()),
    decreases e, 1nat, 0nat,
{
    reveal(expr_line);
    fmt_expr_compact(f, ind, e)
}

pub fn fmt_exprs_line(f: &Formatter, ind: usize, es: &Vec<Expr>) -> (r: Vec<char>)
    requires
        f.wf(),
    ensures
        r@ == exprs_line(f@, ind as nat, ast::exprs_of(es@)),
    decreases es@, 1nat, 0nat,
{
    reveal(exprs_line);
    fmt_exprs(f, ind, es)
}

pub fn fmt_arg_line(f: &Formatter, ind: usize, a: &CallArg) -> (r: Vec<char>)
    requires
        f.wf(),
    ensures
        r@ == arg_line(f@, ind as nat, a.tree()),
    decreases a, 1nat, 0nat,
{
    reveal(arg_line);
    fmt_call_arg(f, ind, a)
}

pub fn fmt_arm_head_line(f: &Formatter, ind: usize, a: &MatchArm) -> (r: Vec<char>)
    requires
        f.wf(),
    ensures
        r@ == arm_head_line(f@, ind as nat, a.tree()),
    decreases a, 1nat, 0nat,
{
    reveal(arm_head_line);
    fmt_arm_head(f, ind, a)
}

} // verus!
