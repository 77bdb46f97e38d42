//! What the formatter writes for declarations and whole programs.
use vstd::prelude::*;
use crate::formatter::compact;
use crate::formatter::layout;
use crate::formatter::layout::{Context, Laid};
use crate::text;
use crate::token::Span;
use crate::tree;

verus! {

/// A word that stands only where `b` holds.
pub open spec fn flag_text(b: bool, word: Seq<char>) -> Seq<char> {
    if b {
        word
    } else {
        ""@
    }
}

// ── Imports, attributes, aliases ────────────────────────────────────────────

#[verifier::opaque]
pub open spec fn import_text(d: tree::ImportDecl) -> Seq<char> {
    let s = "import "@ + compact::names_text(d.path, d.path.len(), "::"@);
    match d.symbols {
        Some(syms) => s + "::{"@ + compact::names_text(syms, syms.len(), ", "@) + "}"@,
        None => s,
    }
}

pub open spec fn attribute_args(cx: Context, ind: nat, args: Seq<tree::AttributeArg>, n: nat) -> Seq<char>
    decreases n,
{
    if 0 < n <= args.len() {
        let s = compact::separated(attribute_args(cx, ind, args, (n - 1) as nat), n - 1, ", "@);
        match args[n - 1] {
            tree::AttributeArg::Value(e) => s + compact::expr_line(cx, ind, e),
            tree::AttributeArg::Named { name, value } => s + name + ": "@ + compact::expr_line(cx, ind, value),
        }
    } else {
        seq![]
    }
}

pub open spec fn attribute_text(cx: Context, ind: nat, a: tree::Attribute) -> Seq<char> {
    let s = "@"@ + a.name;
    if a.args.len() == 0 {
        s
    } else {
        s + "("@ + attribute_args(cx, ind, a.args, a.args.len()) + ")"@
    }
}

/// The first `n` attributes, one on each line.
pub open spec fn attributes_text(cx: Context, ind: nat, v: Seq<tree::Attribute>, n: nat) -> Seq<char>
    decreases n,
{
    if 0 < n <= v.len() {
        (attributes_text(cx, ind, v, (n - 1) as nat) + attribute_text(cx, ind, v[n - 1])).push('\n')
    } else {
        seq![]
    }
}

#[verifier::opaque]
pub open spec fn typedef_text(d: tree::AliasDecl) -> Seq<char> {
    compact::vis_text(d.visibility) + "typedef "@ + compact::generics_text(d.generic_params) + d.name
        + " = "@ + compact::type_text(d.ty)
}

#[verifier::opaque]
pub open spec fn distinct_text(d: tree::AliasDecl) -> Seq<char> {
    compact::vis_text(d.visibility) + "distinct "@ + d.name + compact::generics_text(
        d.generic_params,
    ) + " = "@ + compact::type_text(d.ty)
}

// ── Functions ───────────────────────────────────────────────────────────────

/// A function up to its parameters.
pub open spec fn function_head(f: tree::Function) -> Seq<char> {
    compact::vis_text(f.visibility) + flag_text(f.is_static, "static "@) + flag_text(
        f.is_sealed,
        "sealed "@,
    ) + flag_text(f.is_override, "override "@) + compact::type_text(f.ret_ty) + " "@ + f.name
        + compact::generics_text(f.generic_params) + "("@
}

/// The first `n` parameters, one on each line, after `s`.
pub open spec fn param_lines(
    cx: Context,
    ind: nat,
    params: Seq<tree::Param>,
    n: nat,
    s: Seq<char>,
) -> Seq<char>
    decreases n,
{
    if 0 < n <= params.len() {
        let s = param_lines(cx, ind, params, (n - 1) as nat, s) + layout::pad(
            cx,
            layout::deeper(ind, 1),
        ) + compact::param_text(params[n - 1]);
        let s = if n < params.len() {
            s + ","@
        } else {
            s
        };
        s.push('\n')
    } else {
        s
    }
}

/// A function: its head on one line where it fits, else one parameter on each line.
#[verifier::opaque]
pub open spec fn function_text(cx: Context, ind: nat, ci: int, f: tree::Function) -> Laid {
    let head = function_head(f);
    let line = head + compact::params_text(f.params, f.params.len()) + ")"@ + compact::where_text(
        f.where_clause,
    ) + " do"@;
    let r = layout::block_inner(cx, ind, ci, f.body, 1);
    let s = if layout::head_fits(cx, ind, line) {
        line + "\n"@
    } else {
        param_lines(cx, ind, f.params, f.params.len(), head + "\n"@) + layout::pad(cx, ind) + ")"@
            + compact::where_text(f.where_clause) + " do\n"@
    };
    (s + r.0 + layout::pad(cx, ind) + "end"@, r.1)
}

/// The first `n` lines, with a margin before the first.
pub open spec fn indented_lines(ls: Seq<Seq<char>>, n: nat, margin: Seq<char>) -> Seq<char>
    decreases n,
{
    if n == 0 {
        seq![]
    } else {
        let s = compact::separated(indented_lines(ls, (n - 1) as nat, margin), n - 1, "\n"@);
        let l = ls[n - 1];
        if n == 1 && l.len() > 0 {
            s + margin + l
        } else {
            s + l
        }
    }
}

/// A method, one step in.
#[verifier::opaque]
pub open spec fn method_text(cx: Context, ind: nat, ci: int, f: tree::Function) -> Laid {
    let inner = layout::deeper(ind, 1);
    let r = function_text(cx, inner, ci, f);
    let ls = text::lines(r.0);
    (indented_lines(ls, ls.len(), layout::pad(cx, inner)), r.1)
}

// ── Members of classes and extensions ───────────────────────────────────────

/// A head, a block one step further in, and `end`.
pub open spec fn with_block(cx: Context, ind: nat, ci: int, head: Seq<char>, b: tree::Block) -> Laid {
    let r = layout::block_inner(cx, ind, ci, b, 1);
    (head + r.0 + layout::pad(cx, ind) + "end"@, r.1)
}

#[verifier::opaque]
pub open spec fn constructor_text(cx: Context, ind: nat, ci: int, c: tree::ConstructorDecl) -> Laid {
    let m = layout::deeper(ind, 1);
    let open = layout::pad(cx, m) + compact::vis_text(c.visibility) + c.name + "("@;
    let line = open + compact::params_text(c.params, c.params.len()) + ") initialize"@;
    let head = if text::byte_len(line) > cx.max && c.params.len() > 1 {
        param_lines(cx, m, c.params, c.params.len(), open + "\n"@) + layout::pad(cx, m)
            + ") initialize"@
    } else {
        line
    };
    match c.body {
        None => (head, ci),
        Some(b) => with_block(cx, m, ci, head + " do\n"@, b),
    }
}

#[verifier::opaque]
pub open spec fn destructor_text(cx: Context, ind: nat, ci: int, d: tree::DestructorDecl) -> Laid {
    let m = layout::deeper(ind, 1);
    with_block(
        cx,
        m,
        ci,
        layout::pad(cx, m) + compact::vis_text(d.visibility) + "~"@ + d.name + "() do\n"@,
        d.body,
    )
}

/// The name of a property with its visibility and type.
pub open spec fn property_head(cx: Context, m: nat, p: tree::PropertyDecl) -> Seq<char> {
    let s = layout::pad(cx, m) + compact::vis_text(p.visibility);
    let s = match p.ty {
        Some(t) => s + compact::type_text(t) + " "@,
        None => s,
    };
    s + p.name
}

#[verifier::opaque]
pub open spec fn property_text(cx: Context, ind: nat, ci: int, p: tree::PropertyDecl) -> Laid {
    let m = layout::deeper(ind, 1);
    let g = match p.getter {
        Some(b) => with_block(cx, m, ci, property_head(cx, m, p) + " get do\n"@, b),
        None => (seq![], ci),
    };
    match p.setter {
        Some(st) => {
            let head = if p.getter is Some {
                g.0 + "\n"@ + layout::pad(cx, m) + "set("@
            } else {
                property_head(cx, m, p) + " set("@
            };
            with_block(cx, m, g.1, head + compact::param_text(st.param) + ") do\n"@, st.body)
        },
        None => g,
    }
}

#[verifier::opaque]
pub open spec fn operator_text(cx: Context, ind: nat, ci: int, o: tree::OperatorDecl) -> Laid {
    let m = layout::deeper(ind, 1);
    let head = layout::pad(cx, m) + compact::vis_text(o.visibility) + flag_text(
        o.is_static,
        "static "@,
    ) + "operator "@ + o.op + "("@ + compact::params_text(o.params, o.params.len()) + ")"@
        + compact::where_text(o.where_clause) + " do\n"@;
    with_block(cx, m, ci, head, o.body)
}

#[verifier::opaque]
pub open spec fn conversion_text(cx: Context, ind: nat, ci: int, c: tree::ConversionDecl) -> Laid {
    let m = layout::deeper(ind, 1);
    let head = layout::pad(cx, m) + compact::vis_text(c.visibility) + flag_text(
        c.is_explicit,
        "explicit "@,
    ) + "convert "@ + compact::type_text(c.from_ty) + " to "@ + compact::type_text(c.to_ty) + " do\n"@;
    with_block(cx, m, ci, head, c.body)
}

// ── Fields ──────────────────────────────────────────────────────────────────

/// The comments of a member: those before it and those after it on its last line.
pub struct Attached {
    pub leads: Seq<char>,
    pub trail: Option<Seq<char>>,
}

/// The comments of the first `n` fields.
pub open spec fn attach_fields(
    cx: Context,
    ind: nat,
    ci: int,
    fields: Seq<tree::StructField>,
    n: nat,
) -> (Seq<Attached>, int)
    decreases n,
{
    if 0 < n <= fields.len() {
        let p = attach_fields(cx, ind, ci, fields, (n - 1) as nat);
        let f = fields[n - 1];
        let l = layout::leads(cx, layout::deeper(ind, 1), p.1, f.span.start as int);
        let t = layout::trailing(cx, l.1, f.span.end as int);
        (p.0.push(Attached { leads: l.0, trail: t.0 }), t.1)
    } else {
        (seq![], ci)
    }
}

/// Whether a new group of fields starts at `k`: the visibility changes, or the source
/// has a blank line.
pub open spec fn field_break(cx: Context, fields: Seq<tree::StructField>, k: int) -> bool {
    fields[k].visibility != fields[k - 1].visibility || layout::blank_between(
        cx,
        fields[k - 1].span.end as int,
        fields[k].span.start as int,
    )
}

pub open spec fn field_group_end(cx: Context, fields: Seq<tree::StructField>, k: int) -> int
    decreases fields.len() - k,
{
    if 0 < k < fields.len() && !field_break(cx, fields, k) {
        field_group_end(cx, fields, k + 1)
    } else {
        k
    }
}

pub open spec fn field_type(f: tree::StructField) -> Seq<char> {
    compact::vis_text(f.visibility) + compact::type_text(f.ty)
}

/// The width of the widest type of fields `i..j`.
pub open spec fn field_type_width(fields: Seq<tree::StructField>, i: int, j: int) -> nat
    decreases j - i,
{
    if i < j {
        layout::max(
            field_type_width(fields, i, j - 1),
            text::byte_len(field_type(fields[j - 1])),
        )
    } else {
        0
    }
}

pub open spec fn field_name_width(fields: Seq<tree::StructField>, i: int, j: int) -> nat
    decreases j - i,
{
    if i < j {
        layout::max(field_name_width(fields, i, j - 1), text::byte_len(fields[j - 1].name))
    } else {
        0
    }
}

/// Fields `i..j` after `s`, with columns `tw` and `nw` wide.
pub open spec fn field_lines(
    cx: Context,
    ind: nat,
    ci: int,
    fields: Seq<tree::StructField>,
    att: Seq<Attached>,
    i: int,
    j: int,
    tw: nat,
    nw: nat,
    s: Seq<char>,
) -> Laid
    decreases j - i,
{
    if i < j {
        let p = field_lines(cx, ind, ci, fields, att, i, j - 1, tw, nw, s);
        let f = fields[j - 1];
        let s = p.0 + att[j - 1].leads + layout::pad(cx, layout::deeper(ind, 1)) + text::padded(
            field_type(f),
            tw,
        ) + " "@;
        match f.default {
            Some(e) => {
                let v = layout::expr_wrapped(cx, ind, p.1, e, 1);
                (
                    layout::with_trail(
                        s + text::padded(f.name, nw) + " = "@ + v.0,
                        att[j - 1].trail,
                    ).push('\n'),
                    v.1,
                )
            },
            None => (layout::with_trail(s + f.name, att[j - 1].trail).push('\n'), p.1),
        }
    } else {
        (s, ci)
    }
}

/// Fields from `i` on after `s`, in groups with a blank line between them.
pub open spec fn fields_from(
    cx: Context,
    ind: nat,
    ci: int,
    fields: Seq<tree::StructField>,
    att: Seq<Attached>,
    i: int,
    s: Seq<char>,
) -> Laid
    decreases fields.len() - i,
{
    if 0 <= i < fields.len() {
        let j = field_group_end(cx, fields, i + 1);
        if i < j <= fields.len() {
            let s = if i > 0 {
                s.push('\n')
            } else {
                s
            };
            let aligned = j - i >= 2;
            let tw = if aligned {
                field_type_width(fields, i, j)
            } else {
                0
            };
            let nw = if aligned {
                field_name_width(fields, i, j)
            } else {
                0
            };
            let r = field_lines(cx, ind, ci, fields, att, i, j, tw, nw, s);
            fields_from(cx, ind, r.1, fields, att, j, r.0)
        } else {
            (s, ci)
        }
    } else {
        (s, ci)
    }
}

pub open spec fn fields_text(
    cx: Context,
    ind: nat,
    ci: int,
    fields: Seq<tree::StructField>,
    att: Seq<Attached>,
) -> Laid {
    fields_from(cx, ind, ci, fields, att, 0, seq![])
}

// ── Structs, enums, traits ──────────────────────────────────────────────────

/// `s`, the comments before `end` one step in, and `end`.
pub open spec fn closed_by_end(cx: Context, ind: nat, s: Seq<char>, ci: int, end: int) -> Laid {
    let t = layout::leads(cx, layout::deeper(ind, 1), ci, end);
    (s + t.0 + layout::pad(cx, ind) + "end"@, t.1)
}

/// A keyword, a name with its generic parameters, and its `where` clause.
pub open spec fn decl_head(
    word: Seq<char>,
    name: Seq<char>,
    generics: Seq<tree::GenericParam>,
    w: Option<tree::WhereClause>,
) -> Seq<char> {
    word + name + compact::generics_text(generics) + compact::where_text(w)
}

#[verifier::opaque]
pub open spec fn struct_text(cx: Context, ind: nat, ci: int, d: tree::StructDecl) -> Laid {
    let head = decl_head("struct "@, d.name, d.generic_params, d.where_clause) + " has\n"@;
    let att = attach_fields(cx, ind, ci, d.fields, d.fields.len());
    let r = fields_text(cx, ind, att.1, d.fields, att.0);
    closed_by_end(cx, ind, head + r.0, r.1, d.span.end as int)
}

pub open spec fn variant_text(cx: Context, ind: nat, v: tree::VariantDecl) -> Seq<char> {
    let s = v.name;
    let s = if v.payload.len() > 0 {
        s + "("@ + compact::params_text(v.payload, v.payload.len()) + ")"@
    } else {
        s
    };
    match v.discriminant {
        Some(e) => s + " = "@ + compact::expr_line(cx, ind, e),
        None => s,
    }
}

/// A line of a member with its comments, after `s`.
pub open spec fn member_line(
    cx: Context,
    ind: nat,
    ci: int,
    span: Span,
    line: Seq<char>,
    s: Seq<char>,
) -> Laid {
    let m = layout::deeper(ind, 1);
    let l = layout::leads(cx, m, ci, span.start as int);
    let t = layout::trailing(cx, l.1, span.end as int);
    (layout::with_trail(s + l.0 + layout::pad(cx, m) + line, t.0).push('\n'), t.1)
}

pub open spec fn variant_lines(
    cx: Context,
    ind: nat,
    ci: int,
    vs: Seq<tree::VariantDecl>,
    n: nat,
    s: Seq<char>,
) -> Laid
    decreases n,
{
    if 0 < n <= vs.len() {
        let p = variant_lines(cx, ind, ci, vs, (n - 1) as nat, s);
        member_line(cx, ind, p.1, vs[n - 1].span, variant_text(cx, layout::deeper(ind, 1), vs[n - 1]), p.0)
    } else {
        (s, ci)
    }
}

#[verifier::opaque]
pub open spec fn enum_text(cx: Context, ind: nat, ci: int, d: tree::EnumDecl) -> Laid {
    let head = decl_head("enum "@, d.name, d.generic_params, d.where_clause) + " has\n"@;
    let r = variant_lines(cx, ind, ci, d.variants, d.variants.len(), head);
    closed_by_end(cx, ind, r.0, r.1, d.span.end as int)
}

pub open spec fn trait_method_text(m: tree::TraitMethod) -> Seq<char> {
    flag_text(m.is_sealed, "sealed "@) + compact::type_text(m.ret_ty) + " "@ + m.name + "("@
        + compact::params_text(m.params, m.params.len()) + ")"@ + compact::where_text(m.where_clause)
}

pub open spec fn trait_method_lines(
    cx: Context,
    ind: nat,
    ci: int,
    ms: Seq<tree::TraitMethod>,
    n: nat,
    s: Seq<char>,
) -> Laid
    decreases n,
{
    if 0 < n <= ms.len() {
        let p = trait_method_lines(cx, ind, ci, ms, (n - 1) as nat, s);
        let s = if n > 1 {
            p.0.push('\n')
        } else {
            p.0
        };
        member_line(cx, ind, p.1, ms[n - 1].span, trait_method_text(ms[n - 1]), s)
    } else {
        (s, ci)
    }
}

#[verifier::opaque]
pub open spec fn trait_text(cx: Context, ind: nat, ci: int, d: tree::TraitDecl) -> Laid {
    let head = decl_head("trait "@, d.name, d.generic_params, d.where_clause) + " has\n"@;
    let r = trait_method_lines(cx, ind, ci, d.methods, d.methods.len(), head);
    closed_by_end(cx, ind, r.0, r.1, d.span.end as int)
}

// ── Extensions ──────────────────────────────────────────────────────────────

pub open spec fn extension_member_span(m: tree::ExtensionMember) -> Span {
    match m {
        tree::ExtensionMember::Field(f) => f.span,
        tree::ExtensionMember::Function(f) => f.span,
        tree::ExtensionMember::Operator(o) => o.span,
        tree::ExtensionMember::Property(p) => p.span,
        tree::ExtensionMember::Conversion(c) => c.span,
    }
}

pub open spec fn extension_member_text(
    cx: Context,
    ind: nat,
    ci: int,
    m: tree::ExtensionMember,
) -> Laid {
    match m {
        tree::ExtensionMember::Field(f) => {
            let s = layout::pad(cx, layout::deeper(ind, 1)) + compact::type_text(f.ty) + " "@ + f.name;
            match f.default {
                Some(e) => (s + " = "@ + compact::expr_line(cx, layout::deeper(ind, 1), e), ci),
                None => (s, ci),
            }
        },
        tree::ExtensionMember::Function(f) => method_text(cx, ind, ci, f),
        tree::ExtensionMember::Operator(o) => operator_text(cx, ind, ci, o),
        tree::ExtensionMember::Property(p) => property_text(cx, ind, ci, p),
        tree::ExtensionMember::Conversion(c) => conversion_text(cx, ind, ci, c),
    }
}

pub open spec fn extension_lines(
    cx: Context,
    ind: nat,
    ci: int,
    ms: Seq<tree::ExtensionMember>,
    n: nat,
    s: Seq<char>,
) -> Laid
    decreases n,
{
    if 0 < n <= ms.len() {
        let p = extension_lines(cx, ind, ci, ms, (n - 1) as nat, s);
        let s = if n > 1 {
            p.0.push('\n')
        } else {
            p.0
        };
        let sp = extension_member_span(ms[n - 1]);
        let l = layout::leads(cx, layout::deeper(ind, 1), p.1, sp.start as int);
        let b = extension_member_text(cx, ind, l.1, ms[n - 1]);
        let t = layout::trailing(cx, b.1, sp.end as int);
        (layout::with_trail(s + l.0 + b.0, t.0).push('\n'), t.1)
    } else {
        (s, ci)
    }
}

#[verifier::opaque]
pub open spec fn extension_text(cx: Context, ind: nat, ci: int, d: tree::ExtensionDecl) -> Laid {
    let head = "extend "@ + compact::type_text(d.ty) + " do\n"@;
    let r = extension_lines(cx, ind, ci, d.members, d.members.len(), head);
    closed_by_end(cx, ind, r.0, r.1, d.span.end as int)
}

// ── Foreign libraries ───────────────────────────────────────────────────────

/// A parameter of a foreign function; a bare `...` takes any arguments.
pub open spec fn foreign_param(p: tree::Param) -> Seq<char> {
    if p.name.len() == 0 {
        "..."@
    } else if p.is_variadic && compact::is_derived(p.ty) {
        "..."@ + p.name
    } else {
        flag_text(p.is_variadic, "..."@) + compact::type_text(p.ty) + " "@ + p.name
    }
}

pub open spec fn foreign_params(ps: Seq<tree::Param>, n: nat) -> Seq<char>
    decreases n,
{
    if 0 < n <= ps.len() {
        compact::separated(foreign_params(ps, (n - 1) as nat), n - 1, ", "@) + foreign_param(
            ps[n - 1],
        )
    } else {
        seq![]
    }
}

pub open spec fn foreign_span(m: tree::ExternMember) -> Span {
    match m {
        tree::ExternMember::Function { span, .. } => span,
        tree::ExternMember::Struct { span, .. } => span,
        tree::ExternMember::Enum { span, .. } => span,
        tree::ExternMember::Const { span, .. } => span,
    }
}

pub open spec fn foreign_field_lines(
    cx: Context,
    ind: nat,
    fs: Seq<tree::StructField>,
    n: nat,
    s: Seq<char>,
) -> Seq<char>
    decreases n,
{
    if 0 < n <= fs.len() {
        foreign_field_lines(cx, ind, fs, (n - 1) as nat, s) + layout::pad(cx, layout::deeper(ind, 2))
            + compact::type_text(fs[n - 1].ty) + " "@ + fs[n - 1].name + "\n"@
    } else {
        s
    }
}

pub open spec fn foreign_variant_lines(
    cx: Context,
    ind: nat,
    vs: Seq<tree::VariantDecl>,
    n: nat,
    s: Seq<char>,
) -> Seq<char>
    decreases n,
{
    if 0 < n <= vs.len() {
        foreign_variant_lines(cx, ind, vs, (n - 1) as nat, s) + layout::pad(
            cx,
            layout::deeper(ind, 2),
        ) + vs[n - 1].name + "\n"@
    } else {
        s
    }
}

/// A foreign declaration after `s`; comments follow only one-line declarations.
pub open spec fn foreign_member(
    cx: Context,
    ind: nat,
    ci: int,
    m: tree::ExternMember,
    s: Seq<char>,
) -> Laid {
    let inner = layout::deeper(ind, 1);
    let l = layout::leads(cx, inner, ci, foreign_span(m).start as int);
    let s = s + l.0 + layout::pad(cx, inner);
    match m {
        tree::ExternMember::Function { ty, name, params, span } => {
            let s = s + compact::type_text(ty) + " "@ + name + "("@ + foreign_params(
                params,
                params.len(),
            ) + ")"@;
            let t = layout::trailing(cx, l.1, span.end as int);
            (layout::with_trail(s, t.0).push('\n'), t.1)
        },
        tree::ExternMember::Struct { name, fields, .. } => {
            let s = s + "struct "@ + name;
            if fields.len() == 0 {
                (s.push('\n'), l.1)
            } else {
                (
                    foreign_field_lines(cx, ind, fields, fields.len(), s + " has\n"@) + layout::pad(
                        cx,
                        inner,
                    ) + "end\n"@,
                    l.1,
                )
            }
        },
        tree::ExternMember::Enum { name, variants, .. } => (
            foreign_variant_lines(
                cx,
                ind,
                variants,
                variants.len(),
                s + "enum "@ + name + " has\n"@,
            ) + layout::pad(cx, inner) + "end\n"@,
            l.1,
        ),
        tree::ExternMember::Const { ty, name, span } => {
            let s = s + "const "@ + compact::type_text(ty) + " "@ + name;
            let t = layout::trailing(cx, l.1, span.end as int);
            (layout::with_trail(s, t.0).push('\n'), t.1)
        },
    }
}

pub open spec fn foreign_members(
    cx: Context,
    ind: nat,
    ci: int,
    ms: Seq<tree::ExternMember>,
    n: nat,
    s: Seq<char>,
) -> Laid
    decreases n,
{
    if 0 < n <= ms.len() {
        let p = foreign_members(cx, ind, ci, ms, (n - 1) as nat, s);
        foreign_member(cx, ind, p.1, ms[n - 1], p.0)
    } else {
        (s, ci)
    }
}

#[verifier::opaque]
pub open spec fn foreign_text(cx: Context, ind: nat, ci: int, d: tree::ExternDecl) -> Laid {
    let head = "extern \""@ + d.lib + "\" from \""@ + d.file + "\" do\n"@;
    let r = foreign_members(cx, ind, ci, d.members, d.members.len(), head);
    closed_by_end(cx, ind, r.0, r.1, d.span.end as int)
}

// ── Classes ─────────────────────────────────────────────────────────────────

/// The kinds of class members, in the order in which they are written.
#[derive(Debug, Clone, Copy, PartialEq, Eq, Structural)]
pub enum MemberKind {
    Field,
    Constructor,
    Destructor,
    Property,
    Operator,
    Conversion,
    Method,
}

pub open spec fn kind_at(k: int) -> MemberKind {
    if k <= 0 {
        MemberKind::Field
    } else if k == 1 {
        MemberKind::Constructor
    } else if k == 2 {
        MemberKind::Destructor
    } else if k == 3 {
        MemberKind::Property
    } else if k == 4 {
        MemberKind::Operator
    } else if k == 5 {
        MemberKind::Conversion
    } else {
        MemberKind::Method
    }
}

/// Number of members of kind `k`.
pub open spec fn member_count(d: tree::ClassDecl, k: int) -> nat {
    match kind_at(k) {
        MemberKind::Field => d.fields.len(),
        MemberKind::Constructor => d.constructors.len(),
        MemberKind::Destructor => d.destructors.len(),
        MemberKind::Property => d.properties.len(),
        MemberKind::Operator => d.operators.len(),
        MemberKind::Conversion => d.conversions.len(),
        MemberKind::Method => d.methods.len(),
    }
}

pub open spec fn member_span(d: tree::ClassDecl, k: int, i: int) -> Span {
    match kind_at(k) {
        MemberKind::Field => d.fields[i].span,
        MemberKind::Constructor => d.constructors[i].span,
        MemberKind::Destructor => d.destructors[i].span,
        MemberKind::Property => d.properties[i].span,
        MemberKind::Operator => d.operators[i].span,
        MemberKind::Conversion => d.conversions[i].span,
        MemberKind::Method => d.methods[i].span,
    }
}

/// A member that is laid out at its place; fields are aligned later.
pub open spec fn member_text(cx: Context, ind: nat, ci: int, d: tree::ClassDecl, k: int, i: int) -> Laid {
    match kind_at(k) {
        MemberKind::Field => (seq![], ci),
        MemberKind::Constructor => constructor_text(cx, ind, ci, d.constructors[i]),
        MemberKind::Destructor => destructor_text(cx, ind, ci, d.destructors[i]),
        MemberKind::Property => property_text(cx, ind, ci, d.properties[i]),
        MemberKind::Operator => operator_text(cx, ind, ci, d.operators[i]),
        MemberKind::Conversion => conversion_text(cx, ind, ci, d.conversions[i]),
        MemberKind::Method => method_text(cx, ind, ci, d.methods[i]),
    }
}

/// Member `index` of kind `kind`, which starts at `start`.
#[derive(Debug, Clone, Copy, PartialEq, Eq, Structural)]
pub struct Event {
    pub start: usize,
    pub kind: u8,
    pub index: usize,
}

/// Source order; members that start together go by kind and index.
pub open spec fn before(a: Event, b: Event) -> bool {
    a.start < b.start || (a.start == b.start && (a.kind < b.kind || (a.kind == b.kind && a.index
        < b.index)))
}

/// `es`, which is in order, with `e` at its place.
pub open spec fn insert_event(es: Seq<Event>, e: Event) -> Seq<Event>
    decreases es.len(),
{
    if es.len() > 0 && before(e, es.last()) {
        insert_event(es.drop_last(), e).push(es.last())
    } else {
        es.push(e)
    }
}

/// `es` with the first `n` members of kind `k`.
pub open spec fn insert_members(d: tree::ClassDecl, es: Seq<Event>, k: int, n: nat) -> Seq<Event>
    decreases n,
{
    if n == 0 {
        es
    } else {
        insert_event(
            insert_members(d, es, k, (n - 1) as nat),
            Event {
                start: member_span(d, k, n - 1).start,
                kind: k as u8,
                index: (n - 1) as usize,
            },
        )
    }
}

/// The members of the first `k` kinds, in source order.
pub open spec fn events(d: tree::ClassDecl, k: int) -> Seq<Event>
    decreases k,
{
    if k <= 0 {
        seq![]
    } else {
        insert_members(d, events(d, k - 1), k - 1, member_count(d, k - 1))
    }
}

/// A member with its comments.
pub struct Placed {
    pub kind: int,
    pub index: int,
    pub leads: Seq<char>,
    pub body: Seq<char>,
    pub trail: Option<Seq<char>>,
}

/// The first `n` members in source order, with their comments.
pub open spec fn place(
    cx: Context,
    ind: nat,
    ci: int,
    d: tree::ClassDecl,
    es: Seq<Event>,
    n: nat,
) -> (Seq<Placed>, int)
    decreases n,
{
    if 0 < n <= es.len() {
        let p = place(cx, ind, ci, d, es, (n - 1) as nat);
        let k = es[n - 1].kind as int;
        let i = es[n - 1].index as int;
        let sp = member_span(d, k, i);
        let l = layout::leads(cx, layout::deeper(ind, 1), p.1, sp.start as int);
        let b = member_text(cx, ind, l.1, d, k, i);
        let t = layout::trailing(cx, b.1, sp.end as int);
        (
            p.0.push(Placed { kind: k, index: i, leads: l.0, body: b.0, trail: t.0 }),
            t.1,
        )
    } else {
        (seq![], ci)
    }
}

/// Member `i` of kind `k` among the first `n` of `ps`.
pub open spec fn find_placed(ps: Seq<Placed>, n: nat, k: int, i: int) -> Placed
    decreases n,
{
    if 0 < n <= ps.len() {
        if ps[n - 1].kind == k && ps[n - 1].index == i {
            ps[n - 1]
        } else {
            find_placed(ps, (n - 1) as nat, k, i)
        }
    } else {
        Placed { kind: k, index: i, leads: seq![], body: seq![], trail: None }
    }
}

/// The comments of the first `n` fields.
pub open spec fn field_comments(ps: Seq<Placed>, n: nat) -> Seq<Attached>
    decreases n,
{
    if n == 0 {
        seq![]
    } else {
        let p = find_placed(ps, ps.len(), 0, n - 1);
        field_comments(ps, (n - 1) as nat).push(Attached { leads: p.leads, trail: p.trail })
    }
}

/// `v` with the first `n` members of kind `k`, each a section of its own.
pub open spec fn kind_sections(ps: Seq<Placed>, v: Seq<Seq<char>>, k: int, n: nat) -> Seq<Seq<char>>
    decreases n,
{
    if n == 0 {
        v
    } else {
        let p = find_placed(ps, ps.len(), k, n - 1);
        kind_sections(ps, v, k, (n - 1) as nat).push(
            layout::with_trail(p.leads + p.body, p.trail),
        )
    }
}

/// The sections of a class: its fields, then the members of kinds `1..k`.
pub open spec fn sections(d: tree::ClassDecl, ps: Seq<Placed>, fields: Seq<char>, k: int) -> Seq<
    Seq<char>,
>
    decreases k,
{
    if k <= 1 {
        if d.fields.len() > 0 {
            seq![fields]
        } else {
            seq![]
        }
    } else {
        kind_sections(ps, sections(d, ps, fields, k - 1), k - 1, member_count(d, k - 1))
    }
}

/// The first `n` lines after `s`.
pub open spec fn push_lines(ls: Seq<Seq<char>>, n: nat, s: Seq<char>) -> Seq<char>
    decreases n,
{
    if n == 0 {
        s
    } else {
        (push_lines(ls, (n - 1) as nat, s) + ls[n - 1]).push('\n')
    }
}

/// The first `n` sections after `s`, with a blank line between them.
pub open spec fn section_lines(v: Seq<Seq<char>>, n: nat, s: Seq<char>) -> Seq<char>
    decreases n,
{
    if n == 0 {
        s
    } else {
        let p = section_lines(v, (n - 1) as nat, s);
        let p = if n > 1 {
            p.push('\n')
        } else {
            p
        };
        let ls = text::lines(text::trim_newlines(v[n - 1]));
        push_lines(ls, ls.len(), p)
    }
}

pub open spec fn class_head(d: tree::ClassDecl) -> Seq<char> {
    let s = flag_text(d.is_open, "open "@) + flag_text(d.is_sealed, "sealed "@) + decl_head(
        "class "@,
        d.name,
        d.generic_params,
        d.where_clause,
    );
    let s = match d.extends {
        Some(t) => s + " extends "@ + compact::type_text(t),
        None => s,
    };
    let s = if d.implements.len() > 0 {
        s + " implements "@ + compact::types_text(d.implements, d.implements.len())
    } else {
        s
    };
    s + " has\n"@
}

/// A class: fields, constructors, destructors, properties, operators, conversions and
/// methods, in this order, each with its comments.
#[verifier::opaque]
pub open spec fn class_text(cx: Context, ind: nat, ci: int, d: tree::ClassDecl) -> Laid {
    let es = events(d, 7);
    let ps = place(cx, ind, ci, d, es, es.len());
    let fs = fields_text(cx, ind, ps.1, d.fields, field_comments(ps.0, d.fields.len()));
    let v = sections(d, ps.0, fs.0, 7);
    closed_by_end(
        cx,
        ind,
        section_lines(v, v.len(), class_head(d)),
        fs.1,
        d.span.end as int,
    )
}

// ── Items and programs ──────────────────────────────────────────────────────

pub open spec fn item_span(item: tree::Item) -> Span
    decreases item,
{
    match item {
        tree::Item::Import(d) => d.span,
        tree::Item::Function(f) => f.span,
        tree::Item::Struct(d) => d.span,
        tree::Item::Class(d) => d.span,
        tree::Item::Enum(d) => d.span,
        tree::Item::Trait(d) => d.span,
        tree::Item::Typedef(d) => d.span,
        tree::Item::Distinct(d) => d.span,
        tree::Item::Extension(d) => d.span,
        tree::Item::Extern(d) => d.span,
        tree::Item::Init(b) => b.span,
        tree::Item::Const(d) => d.span,
        tree::Item::Var(d) => d.span,
        tree::Item::Attributed { item, .. } => item_span(*item),
    }
}

pub open spec fn item_text(cx: Context, ind: nat, ci: int, item: tree::Item) -> Laid
    decreases item,
{
    match item {
        tree::Item::Import(d) => (import_text(d), ci),
        tree::Item::Function(f) => function_text(cx, ind, ci, f),
        tree::Item::Struct(d) => struct_text(cx, ind, ci, d),
        tree::Item::Class(d) => class_text(cx, ind, ci, d),
        tree::Item::Enum(d) => enum_text(cx, ind, ci, d),
        tree::Item::Trait(d) => trait_text(cx, ind, ci, d),
        tree::Item::Typedef(d) => (typedef_text(d), ci),
        tree::Item::Distinct(d) => (distinct_text(d), ci),
        tree::Item::Extension(d) => extension_text(cx, ind, ci, d),
        tree::Item::Extern(d) => foreign_text(cx, ind, ci, d),
        tree::Item::Init(b) => with_block(cx, ind, ci, "init do\n"@, b),
        tree::Item::Const(d) => layout::const_text(cx, ind, ci, d),
        tree::Item::Var(d) => layout::var_text(cx, ind, ci, d),
        tree::Item::Attributed { attrs, item } => {
            let r = item_text(cx, ind, ci, *item);
            (attributes_text(cx, ind, attrs, attrs.len()) + r.0, r.1)
        },
    }
}

/// An import with the comments before it, after `s`.
#[verifier::opaque]
pub open spec fn import_item(cx: Context, ci: int, item: tree::Item, s: Seq<char>) -> Laid {
    let l = layout::top_leads(cx, ci, item_span(item).start as int, s);
    let r = item_text(cx, 0, l.1, item);
    let ls = text::lines(r.0);
    (push_lines(ls, ls.len(), l.0), r.1)
}

/// The imports among the first `n` items, after `s`.
pub open spec fn import_lines(cx: Context, ci: int, items: Seq<tree::Item>, n: nat, s: Seq<char>) -> Laid
    decreases n,
{
    if 0 < n <= items.len() {
        let p = import_lines(cx, ci, items, (n - 1) as nat, s);
        let item = items[n - 1];
        if item is Import {
            import_item(cx, p.1, item, p.0)
        } else {
            p
        }
    } else {
        (s, ci)
    }
}

/// Number of imports among the first `n` items.
pub open spec fn imports(items: Seq<tree::Item>, n: nat) -> nat
    decreases n,
{
    if n == 0 {
        0
    } else if items[n - 1] is Import {
        imports(items, (n - 1) as nat) + 1
    } else {
        imports(items, (n - 1) as nat)
    }
}

/// `s` with a blank line at its end, unless it is empty or has one.
pub open spec fn with_blank(s: Seq<char>) -> Seq<char> {
    if s.len() == 0 || (s.len() > 1 && s.last() == '\n' && s[s.len() - 2] == '\n') {
        s
    } else {
        s.push('\n')
    }
}

/// An item that is no import with its comments, after `s`.
#[verifier::opaque]
pub open spec fn rest_item(cx: Context, ci: int, item: tree::Item, s: Seq<char>) -> Laid {
    let sp = item_span(item);
    let l = layout::top_leads(cx, ci, sp.start as int, s);
    let r = item_text(cx, 0, l.1, item);
    let ls = text::lines(r.0);
    layout::top_trailing(cx, r.1, sp.end as int, push_lines(ls, ls.len(), l.0))
}

/// The items that are no imports among the first `n`, after `s`.
pub open spec fn rest_lines(cx: Context, ci: int, items: Seq<tree::Item>, n: nat, s: Seq<char>) -> Laid
    decreases n,
{
    if 0 < n <= items.len() {
        let p = rest_lines(cx, ci, items, (n - 1) as nat, s);
        let item = items[n - 1];
        if item is Import {
            p
        } else {
            let first = imports(items, (n - 1) as nat) == n - 1;
            let s = if first {
                p.0
            } else {
                with_blank(p.0)
            };
            rest_item(cx, p.1, item, s)
        }
    } else {
        (s, ci)
    }
}

/// A program: its imports, two blank lines, and the other items.
pub open spec fn program_text(cx: Context, p: tree::Program) -> Laid {
    let n = p.items.len();
    let r = import_lines(cx, 0, p.items, n, seq![]);
    let k = imports(p.items, n);
    let s = if 0 < k < n {
        r.0.push('\n').push('\n')
    } else {
        r.0
    };
    rest_lines(cx, r.1, p.items, n, s)
}

/// `s` with every run of line feeds cut to three.
pub open spec fn squeezed(s: Seq<char>) -> Seq<char>
    decreases s.len(),
{
    if s.len() == 0 {
        s
    } else {
        let t = squeezed(s.drop_last());
        if s.last() == '\n' && ends_with_three(t) {
            t
        } else {
            t.push(s.last())
        }
    }
}

pub open spec fn ends_with_three(s: Seq<char>) -> bool {
    s.len() >= 3 && s[s.len() - 1] == '\n' && s[s.len() - 2] == '\n' && s[s.len() - 3] == '\n'
}

/// `s` ended by a line feed.
pub open spec fn line_ended(s: Seq<char>) -> Seq<char> {
    if s.len() > 0 && s.last() == '\n' {
        s
    } else {
        s.push('\n')
    }
}

/// The formatted text of a program: its items, and the comments after the last.
pub open spec fn formatted(cx: Context, p: tree::Program) -> Seq<char> {
    let r = program_text(cx, p);
    line_ended(squeezed(layout::top_leads(cx, r.1, usize::MAX as int, r.0).0))
}

} // verus!
