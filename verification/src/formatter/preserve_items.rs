//! Every comment that the layout of declarations goes past stands in what it writes.
use vstd::prelude::*;
use crate::formatter::compact;
use crate::formatter::shown;
use crate::formatter::layout;
use crate::formatter::layout::Context;
use crate::formatter::layout_items;
use crate::formatter::layout_items::{Attached, Event, Placed};
use crate::formatter::preserve;
use crate::text;
use crate::token::Span;
use crate::tree;

verus! {

broadcast use {shown::occurs_add, shown::occurs_push, shown::says_add, shown::says_push};

// ── Functions and members ───────────────────────────────────────────────────

proof fn lemma_function_text(cx: Context, k: int, ind: nat, ci: int, f: tree::Function)
    ensures
        ({
            let r = layout_items::function_text(cx, ind, ci, f);
            ci <= r.1 && (ci <= k < r.1 ==> shown::says(cx, k, r.0))
        }),
{
    reveal(layout_items::function_text);
    preserve::lemma_block_inner(cx, k, ind, ci, f.body, 1);
}

proof fn lemma_indented_lines(ls: Seq<Seq<char>>, n: nat, margin: Seq<char>)
    ensures
        forall|j: int| 0 <= j < n ==> shown::carries(#[trigger] ls[j], layout_items::indented_lines(ls, n, margin)),
    decreases n,
{
    if n > 0 {
        let p = layout_items::indented_lines(ls, (n - 1) as nat, margin);
        let r = layout_items::indented_lines(ls, n, margin);
        lemma_indented_lines(ls, (n - 1) as nat, margin);
        assert(shown::carries(p, r));
        assert forall|j: int| 0 <= j < n implies shown::carries(#[trigger] ls[j], r) by {
            if j < n - 1 {
                assert(shown::carries(ls[j], p));
            }
        }
    }
}

proof fn lemma_method_text(cx: Context, k: int, ind: nat, ci: int, f: tree::Function)
    ensures
        ({
            let r = layout_items::method_text(cx, ind, ci, f);
            ci <= r.1 && (ci <= k < r.1 ==> shown::says(cx, k, r.0))
        }),
{
    reveal(layout_items::method_text);
    let inner = layout::deeper(ind, 1);
    let r = layout_items::function_text(cx, inner, ci, f);
    lemma_function_text(cx, k, inner, ci, f);
    let ls = text::lines(r.0);
    let w = layout_items::indented_lines(ls, ls.len(), layout::pad(cx, inner));
    lemma_indented_lines(ls, ls.len(), layout::pad(cx, inner));
    shown::lemma_lines_carry(r.0, w);
    shown::lemma_says_carried(cx, k, r.0, w);
}

proof fn lemma_with_block(cx: Context, k: int, ind: nat, ci: int, head: Seq<char>, b: tree::Block)
    ensures
        ({
            let r = layout_items::with_block(cx, ind, ci, head, b);
            ci <= r.1 && (shown::says(cx, k, head) || ci <= k < r.1 ==> shown::says(cx, k, r.0))
        }),
{
    preserve::lemma_block_inner(cx, k, ind, ci, b, 1);
}

proof fn lemma_constructor_text(cx: Context, k: int, ind: nat, ci: int, c: tree::ConstructorDecl)
    ensures
        ({
            let r = layout_items::constructor_text(cx, ind, ci, c);
            ci <= r.1 && (ci <= k < r.1 ==> shown::says(cx, k, r.0))
        }),
{
    reveal(layout_items::constructor_text);
    match c.body {
        None => {},
        Some(b) => {
            preserve::lemma_block_inner(cx, k, layout::deeper(ind, 1), ci, b, 1);
        },
    }
}

proof fn lemma_destructor_text(cx: Context, k: int, ind: nat, ci: int, d: tree::DestructorDecl)
    ensures
        ({
            let r = layout_items::destructor_text(cx, ind, ci, d);
            ci <= r.1 && (ci <= k < r.1 ==> shown::says(cx, k, r.0))
        }),
{
    reveal(layout_items::destructor_text);
    preserve::lemma_block_inner(cx, k, layout::deeper(ind, 1), ci, d.body, 1);
}

proof fn lemma_property_text(cx: Context, k: int, ind: nat, ci: int, p: tree::PropertyDecl)
    ensures
        ({
            let r = layout_items::property_text(cx, ind, ci, p);
            ci <= r.1 && (ci <= k < r.1 ==> shown::says(cx, k, r.0))
        }),
{
    reveal(layout_items::property_text);
    let m = layout::deeper(ind, 1);
    let g = match p.getter {
        Some(b) => layout_items::with_block(
            cx,
            m,
            ci,
            layout_items::property_head(cx, m, p) + " get do\n"@,
            b,
        ),
        None => (seq![], ci),
    };
    match p.getter {
        Some(b) => {
            lemma_with_block(cx, k, m, ci, layout_items::property_head(cx, m, p) + " get do\n"@, b);
        },
        None => {},
    }
    match p.setter {
        Some(st) => {
            let head = if p.getter is Some {
                g.0 + "\n"@ + layout::pad(cx, m) + "set("@
            } else {
                layout_items::property_head(cx, m, p) + " set("@
            };
            lemma_with_block(
                cx,
                k,
                m,
                g.1,
                head + compact::param_text(st.param) + ") do\n"@,
                st.body,
            );
        },
        None => {},
    }
}

proof fn lemma_operator_text(cx: Context, k: int, ind: nat, ci: int, o: tree::OperatorDecl)
    ensures
        ({
            let r = layout_items::operator_text(cx, ind, ci, o);
            ci <= r.1 && (ci <= k < r.1 ==> shown::says(cx, k, r.0))
        }),
{
    reveal(layout_items::operator_text);
    preserve::lemma_block_inner(cx, k, layout::deeper(ind, 1), ci, o.body, 1);
}

proof fn lemma_conversion_text(cx: Context, k: int, ind: nat, ci: int, c: tree::ConversionDecl)
    ensures
        ({
            let r = layout_items::conversion_text(cx, ind, ci, c);
            ci <= r.1 && (ci <= k < r.1 ==> shown::says(cx, k, r.0))
        }),
{
    reveal(layout_items::conversion_text);
    preserve::lemma_block_inner(cx, k, layout::deeper(ind, 1), ci, c.body, 1);
}

// ── Fields ──────────────────────────────────────────────────────────────────

spec fn att_says(cx: Context, k: int, a: Attached) -> bool {
    shown::says(cx, k, a.leads) || shown::says_some(cx, k, a.trail)
}

/// Whether comment `k` is one of fields `i..j`.
spec fn atts_say(cx: Context, k: int, att: Seq<Attached>, i: int, j: int) -> bool {
    exists|q: int| i <= q < j && att_says(cx, k, #[trigger] att[q])
}

proof fn lemma_attach_fields(
    cx: Context,
    k: int,
    ind: nat,
    ci: int,
    fields: Seq<tree::StructField>,
    n: nat,
)
    requires
        n <= fields.len(),
    ensures
        ({
            let r = layout_items::attach_fields(cx, ind, ci, fields, n);
            ci <= r.1 && r.0.len() == n && (ci <= k < r.1 ==> atts_say(cx, k, r.0, 0, n as int))
        }),
    decreases n,
{
    if n > 0 {
        let p = layout_items::attach_fields(cx, ind, ci, fields, (n - 1) as nat);
        lemma_attach_fields(cx, k, ind, ci, fields, (n - 1) as nat);
        let f = fields[n - 1];
        let m = layout::deeper(ind, 1);
        let l = layout::leads(cx, m, p.1, f.span.start as int);
        preserve::lemma_leads(cx, k, m, p.1, f.span.start as int);
        preserve::lemma_trailing(cx, k, l.1, f.span.end as int);
        let r = layout_items::attach_fields(cx, ind, ci, fields, n);
        if ci <= k < p.1 {
            let q = choose|q: int| 0 <= q < n - 1 && att_says(cx, k, #[trigger] p.0[q]);
            assert(r.0[q] == p.0[q]);
        } else if ci <= k < r.1 {
            assert(att_says(cx, k, r.0[n - 1]));
        }
    }
}

proof fn lemma_field_group_end(cx: Context, fields: Seq<tree::StructField>, i: int)
    requires
        i <= fields.len(),
    ensures
        i <= layout_items::field_group_end(cx, fields, i) <= fields.len(),
    decreases fields.len() - i,
{
    if 0 < i < fields.len() && !layout_items::field_break(cx, fields, i) {
        lemma_field_group_end(cx, fields, i + 1);
    }
}

proof fn lemma_field_lines(
    cx: Context,
    k: int,
    ind: nat,
    ci: int,
    fields: Seq<tree::StructField>,
    att: Seq<Attached>,
    i: int,
    j: int,
    tw: nat,
    nw: nat,
    s: Seq<char>,
)
    ensures
        ({
            let r = layout_items::field_lines(cx, ind, ci, fields, att, i, j, tw, nw, s);
            ci <= r.1 && (shown::says(cx, k, s) || atts_say(cx, k, att, i, j) || ci <= k < r.1 ==> shown::says(
                cx,
                k,
                r.0,
            ))
        }),
    decreases j - i,
{
    if i < j {
        let p = layout_items::field_lines(cx, ind, ci, fields, att, i, j - 1, tw, nw, s);
        lemma_field_lines(cx, k, ind, ci, fields, att, i, j - 1, tw, nw, s);
        if atts_say(cx, k, att, i, j) {
            let q = choose|q: int| i <= q < j && att_says(cx, k, #[trigger] att[q]);
            assert(q == j - 1 || atts_say(cx, k, att, i, j - 1));
        }
        match fields[j - 1].default {
            Some(e) => {
                preserve::lemma_expr_wrapped(cx, k, ind, p.1, e, 1);
            },
            None => {},
        }
    }
}

proof fn lemma_fields_from(
    cx: Context,
    k: int,
    ind: nat,
    ci: int,
    fields: Seq<tree::StructField>,
    att: Seq<Attached>,
    i: int,
    s: Seq<char>,
)
    requires
        0 <= i <= fields.len(),
    ensures
        ({
            let r = layout_items::fields_from(cx, ind, ci, fields, att, i, s);
            ci <= r.1 && (shown::says(cx, k, s) || atts_say(cx, k, att, i, fields.len() as int) || ci <= k < r.1
                ==> shown::says(cx, k, r.0))
        }),
    decreases fields.len() - i,
{
    if i < fields.len() {
        let j = layout_items::field_group_end(cx, fields, i + 1);
        lemma_field_group_end(cx, fields, i + 1);
        let s = if i > 0 {
            s.push('\n')
        } else {
            s
        };
        let aligned = j - i >= 2;
        let tw = if aligned {
            layout_items::field_type_width(fields, i, j)
        } else {
            0
        };
        let nw = if aligned {
            layout_items::field_name_width(fields, i, j)
        } else {
            0
        };
        let r = layout_items::field_lines(cx, ind, ci, fields, att, i, j, tw, nw, s);
        lemma_field_lines(cx, k, ind, ci, fields, att, i, j, tw, nw, s);
        lemma_fields_from(cx, k, ind, r.1, fields, att, j, r.0);
        if atts_say(cx, k, att, i, fields.len() as int) {
            let q = choose|q: int| i <= q < fields.len() && att_says(cx, k, #[trigger] att[q]);
            assert(atts_say(cx, k, att, i, j) || atts_say(cx, k, att, j, fields.len() as int));
        }
    }
}

// ── Structs, enums, traits ──────────────────────────────────────────────────

proof fn lemma_closed_by_end(cx: Context, k: int, ind: nat, s: Seq<char>, ci: int, end: int)
    ensures
        ({
            let r = layout_items::closed_by_end(cx, ind, s, ci, end);
            ci <= r.1 && (shown::says(cx, k, s) || ci <= k < r.1 ==> shown::says(cx, k, r.0))
        }),
{
    preserve::lemma_leads(cx, k, layout::deeper(ind, 1), ci, end);
}

proof fn lemma_struct_text(cx: Context, k: int, ind: nat, ci: int, d: tree::StructDecl)
    ensures
        ({
            let r = layout_items::struct_text(cx, ind, ci, d);
            ci <= r.1 && (ci <= k < r.1 ==> shown::says(cx, k, r.0))
        }),
{
    reveal(layout_items::struct_text);
    let head = layout_items::decl_head("struct "@, d.name, d.generic_params, d.where_clause) + " has\n"@;
    let att = layout_items::attach_fields(cx, ind, ci, d.fields, d.fields.len());
    lemma_attach_fields(cx, k, ind, ci, d.fields, d.fields.len());
    let r = layout_items::fields_text(cx, ind, att.1, d.fields, att.0);
    lemma_fields_from(cx, k, ind, att.1, d.fields, att.0, 0, seq![]);
    lemma_closed_by_end(cx, k, ind, head + r.0, r.1, d.span.end as int);
}

proof fn lemma_member_line(cx: Context, k: int, ind: nat, ci: int, span: Span, line: Seq<char>, s: Seq<char>)
    ensures
        ({
            let r = layout_items::member_line(cx, ind, ci, span, line, s);
            ci <= r.1 && (shown::says(cx, k, s) || ci <= k < r.1 ==> shown::says(cx, k, r.0))
        }),
{
    let m = layout::deeper(ind, 1);
    let l = layout::leads(cx, m, ci, span.start as int);
    preserve::lemma_leads(cx, k, m, ci, span.start as int);
    preserve::lemma_trailing(cx, k, l.1, span.end as int);
}

proof fn lemma_variant_lines(
    cx: Context,
    k: int,
    ind: nat,
    ci: int,
    vs: Seq<tree::VariantDecl>,
    n: nat,
    s: Seq<char>,
)
    ensures
        ({
            let r = layout_items::variant_lines(cx, ind, ci, vs, n, s);
            ci <= r.1 && (shown::says(cx, k, s) || ci <= k < r.1 ==> shown::says(cx, k, r.0))
        }),
    decreases n,
{
    if 0 < n <= vs.len() {
        let p = layout_items::variant_lines(cx, ind, ci, vs, (n - 1) as nat, s);
        lemma_variant_lines(cx, k, ind, ci, vs, (n - 1) as nat, s);
        lemma_member_line(
            cx,
            k,
            ind,
            p.1,
            vs[n - 1].span,
            layout_items::variant_text(cx, layout::deeper(ind, 1), vs[n - 1]),
            p.0,
        );
    }
}

proof fn lemma_enum_text(cx: Context, k: int, ind: nat, ci: int, d: tree::EnumDecl)
    ensures
        ({
            let r = layout_items::enum_text(cx, ind, ci, d);
            ci <= r.1 && (ci <= k < r.1 ==> shown::says(cx, k, r.0))
        }),
{
    reveal(layout_items::enum_text);
    let head = layout_items::decl_head("enum "@, d.name, d.generic_params, d.where_clause) + " has\n"@;
    let r = layout_items::variant_lines(cx, ind, ci, d.variants, d.variants.len(), head);
    lemma_variant_lines(cx, k, ind, ci, d.variants, d.variants.len(), head);
    lemma_closed_by_end(cx, k, ind, r.0, r.1, d.span.end as int);
}

proof fn lemma_trait_method_lines(
    cx: Context,
    k: int,
    ind: nat,
    ci: int,
    ms: Seq<tree::TraitMethod>,
    n: nat,
    s: Seq<char>,
)
    ensures
        ({
            let r = layout_items::trait_method_lines(cx, ind, ci, ms, n, s);
            ci <= r.1 && (shown::says(cx, k, s) || ci <= k < r.1 ==> shown::says(cx, k, r.0))
        }),
    decreases n,
{
    if 0 < n <= ms.len() {
        let p = layout_items::trait_method_lines(cx, ind, ci, ms, (n - 1) as nat, s);
        lemma_trait_method_lines(cx, k, ind, ci, ms, (n - 1) as nat, s);
        lemma_member_line(
            cx,
            k,
            ind,
            p.1,
            ms[n - 1].span,
            layout_items::trait_method_text(ms[n - 1]),
            if n > 1 {
                p.0.push('\n')
            } else {
                p.0
            },
        );
    }
}

proof fn lemma_trait_text(cx: Context, k: int, ind: nat, ci: int, d: tree::TraitDecl)
    ensures
        ({
            let r = layout_items::trait_text(cx, ind, ci, d);
            ci <= r.1 && (ci <= k < r.1 ==> shown::says(cx, k, r.0))
        }),
{
    reveal(layout_items::trait_text);
    let head = layout_items::decl_head("trait "@, d.name, d.generic_params, d.where_clause) + " has\n"@;
    let r = layout_items::trait_method_lines(cx, ind, ci, d.methods, d.methods.len(), head);
    lemma_trait_method_lines(cx, k, ind, ci, d.methods, d.methods.len(), head);
    lemma_closed_by_end(cx, k, ind, r.0, r.1, d.span.end as int);
}

// ── Extensions and foreign libraries ────────────────────────────────────────

proof fn lemma_extension_member_text(cx: Context, k: int, ind: nat, ci: int, m: tree::ExtensionMember)
    ensures
        ({
            let r = layout_items::extension_member_text(cx, ind, ci, m);
            ci <= r.1 && (ci <= k < r.1 ==> shown::says(cx, k, r.0))
        }),
{
    match m {
        tree::ExtensionMember::Field(_) => {},
        tree::ExtensionMember::Function(f) => {
            lemma_method_text(cx, k, ind, ci, f);
        },
        tree::ExtensionMember::Operator(o) => {
            lemma_operator_text(cx, k, ind, ci, o);
        },
        tree::ExtensionMember::Property(p) => {
            lemma_property_text(cx, k, ind, ci, p);
        },
        tree::ExtensionMember::Conversion(c) => {
            lemma_conversion_text(cx, k, ind, ci, c);
        },
    }
}

proof fn lemma_extension_lines(
    cx: Context,
    k: int,
    ind: nat,
    ci: int,
    ms: Seq<tree::ExtensionMember>,
    n: nat,
    s: Seq<char>,
)
    ensures
        ({
            let r = layout_items::extension_lines(cx, ind, ci, ms, n, s);
            ci <= r.1 && (shown::says(cx, k, s) || ci <= k < r.1 ==> shown::says(cx, k, r.0))
        }),
    decreases n,
{
    if 0 < n <= ms.len() {
        let p = layout_items::extension_lines(cx, ind, ci, ms, (n - 1) as nat, s);
        lemma_extension_lines(cx, k, ind, ci, ms, (n - 1) as nat, s);
        let m = layout::deeper(ind, 1);
        let sp = layout_items::extension_member_span(ms[n - 1]);
        let l = layout::leads(cx, m, p.1, sp.start as int);
        preserve::lemma_leads(cx, k, m, p.1, sp.start as int);
        let b = layout_items::extension_member_text(cx, ind, l.1, ms[n - 1]);
        lemma_extension_member_text(cx, k, ind, l.1, ms[n - 1]);
        preserve::lemma_trailing(cx, k, b.1, sp.end as int);
    }
}

proof fn lemma_extension_text(cx: Context, k: int, ind: nat, ci: int, d: tree::ExtensionDecl)
    ensures
        ({
            let r = layout_items::extension_text(cx, ind, ci, d);
            ci <= r.1 && (ci <= k < r.1 ==> shown::says(cx, k, r.0))
        }),
{
    reveal(layout_items::extension_text);
    let head = "extend "@ + compact::type_text(d.ty) + " do\n"@;
    let r = layout_items::extension_lines(cx, ind, ci, d.members, d.members.len(), head);
    lemma_extension_lines(cx, k, ind, ci, d.members, d.members.len(), head);
    lemma_closed_by_end(cx, k, ind, r.0, r.1, d.span.end as int);
}

proof fn lemma_foreign_fields(cx: Context, k: int, ind: nat, fs: Seq<tree::StructField>, n: nat, s: Seq<char>)
    ensures
        shown::says(cx, k, s) ==> shown::says(cx, k, layout_items::foreign_field_lines(cx, ind, fs, n, s)),
    decreases n,
{
    if 0 < n <= fs.len() {
        lemma_foreign_fields(cx, k, ind, fs, (n - 1) as nat, s);
    }
}

proof fn lemma_foreign_variants(
    cx: Context,
    k: int,
    ind: nat,
    vs: Seq<tree::VariantDecl>,
    n: nat,
    s: Seq<char>,
)
    ensures
        shown::says(cx, k, s) ==> shown::says(cx, k, layout_items::foreign_variant_lines(cx, ind, vs, n, s)),
    decreases n,
{
    if 0 < n <= vs.len() {
        lemma_foreign_variants(cx, k, ind, vs, (n - 1) as nat, s);
    }
}

proof fn lemma_foreign_member(cx: Context, k: int, ind: nat, ci: int, m: tree::ExternMember, s: Seq<char>)
    ensures
        ({
            let r = layout_items::foreign_member(cx, ind, ci, m, s);
            ci <= r.1 && (shown::says(cx, k, s) || ci <= k < r.1 ==> shown::says(cx, k, r.0))
        }),
{
    let inner = layout::deeper(ind, 1);
    let start = layout_items::foreign_span(m).start as int;
    let l = layout::leads(cx, inner, ci, start);
    preserve::lemma_leads(cx, k, inner, ci, start);
    let s = s + l.0 + layout::pad(cx, inner);
    match m {
        tree::ExternMember::Function { span, .. } => {
            preserve::lemma_trailing(cx, k, l.1, span.end as int);
        },
        tree::ExternMember::Struct { name, fields, .. } => {
            let h = s + "struct "@ + name + " has\n"@;
            lemma_foreign_fields(cx, k, ind, fields, fields.len(), h);
        },
        tree::ExternMember::Enum { name, variants, .. } => {
            let h = s + "enum "@ + name + " has\n"@;
            lemma_foreign_variants(cx, k, ind, variants, variants.len(), h);
        },
        tree::ExternMember::Const { span, .. } => {
            preserve::lemma_trailing(cx, k, l.1, span.end as int);
        },
    }
}

proof fn lemma_foreign_members(
    cx: Context,
    k: int,
    ind: nat,
    ci: int,
    ms: Seq<tree::ExternMember>,
    n: nat,
    s: Seq<char>,
)
    ensures
        ({
            let r = layout_items::foreign_members(cx, ind, ci, ms, n, s);
            ci <= r.1 && (shown::says(cx, k, s) || ci <= k < r.1 ==> shown::says(cx, k, r.0))
        }),
    decreases n,
{
    if 0 < n <= ms.len() {
        let p = layout_items::foreign_members(cx, ind, ci, ms, (n - 1) as nat, s);
        lemma_foreign_members(cx, k, ind, ci, ms, (n - 1) as nat, s);
        lemma_foreign_member(cx, k, ind, p.1, ms[n - 1], p.0);
    }
}

proof fn lemma_foreign_text(cx: Context, k: int, ind: nat, ci: int, d: tree::ExternDecl)
    ensures
        ({
            let r = layout_items::foreign_text(cx, ind, ci, d);
            ci <= r.1 && (ci <= k < r.1 ==> shown::says(cx, k, r.0))
        }),
{
    reveal(layout_items::foreign_text);
    let head = "extern \""@ + d.lib + "\" from \""@ + d.file + "\" do\n"@;
    let r = layout_items::foreign_members(cx, ind, ci, d.members, d.members.len(), head);
    lemma_foreign_members(cx, k, ind, ci, d.members, d.members.len(), head);
    lemma_closed_by_end(cx, k, ind, r.0, r.1, d.span.end as int);
}

// ── Classes ─────────────────────────────────────────────────────────────────

/// Whether the members of a class can be counted.
pub open spec fn class_fits(d: tree::ClassDecl) -> bool {
    forall|g: int| 0 <= g < 7 ==> #[trigger] layout_items::member_count(d, g) <= usize::MAX
}

spec fn same_member(a: Event, b: Event) -> bool {
    a.kind == b.kind && a.index == b.index
}

/// Whether no member occurs twice.
spec fn are_apart(es: Seq<Event>) -> bool {
    forall|i: int, j: int| 0 <= i < j < es.len() ==> !same_member(#[trigger] es[i], #[trigger] es[j])
}

/// Whether a member is one of kinds below `g`, or one of the first `n` of kind `g`.
spec fn is_below(d: tree::ClassDecl, e: Event, g: int, n: nat) -> bool {
    ||| (e.kind < g && e.index < layout_items::member_count(d, e.kind as int))
    ||| (e.kind == g && e.index < n)
}

spec fn all_below(d: tree::ClassDecl, es: Seq<Event>, g: int, n: nat) -> bool {
    forall|i: int| 0 <= i < es.len() ==> is_below(d, #[trigger] es[i], g, n)
}

proof fn lemma_insert_event(es: Seq<Event>, e: Event)
    ensures
        forall|j: int|
            0 <= j < layout_items::insert_event(es, e).len() ==> (#[trigger] layout_items::insert_event(es, e)[j]
                == e || es.contains(layout_items::insert_event(es, e)[j])),
    decreases es.len(),
{
    let r = layout_items::insert_event(es, e);
    if es.len() > 0 && layout_items::before(e, es.last()) {
        let w = es.drop_last();
        let p = layout_items::insert_event(w, e);
        lemma_insert_event(w, e);
        assert forall|j: int| 0 <= j < r.len() implies (#[trigger] r[j] == e || es.contains(r[j])) by {
            if j < p.len() {
                assert(r[j] == p[j]);
                if p[j] != e {
                    let i = choose|i: int| 0 <= i < w.len() && w[i] == p[j];
                    assert(es[i] == p[j]);
                }
            } else {
                assert(es[es.len() - 1] == r[j]);
            }
        }
    } else {
        assert forall|j: int| 0 <= j < r.len() implies (#[trigger] r[j] == e || es.contains(r[j])) by {
            if j < es.len() {
                assert(es[j] == r[j]);
            }
        }
    }
}

proof fn lemma_insert_apart(es: Seq<Event>, e: Event)
    requires
        are_apart(es),
        forall|i: int| 0 <= i < es.len() ==> !same_member(#[trigger] es[i], e),
    ensures
        are_apart(layout_items::insert_event(es, e)),
    decreases es.len(),
{
    let r = layout_items::insert_event(es, e);
    if es.len() > 0 && layout_items::before(e, es.last()) {
        let w = es.drop_last();
        let p = layout_items::insert_event(w, e);
        assert forall|i: int, j: int| 0 <= i < j < w.len() implies !same_member(
            #[trigger] w[i],
            #[trigger] w[j],
        ) by {
            assert(w[i] == es[i] && w[j] == es[j]);
        }
        assert forall|i: int| 0 <= i < w.len() implies !same_member(#[trigger] w[i], e) by {
            assert(w[i] == es[i]);
        }
        lemma_insert_apart(w, e);
        lemma_insert_event(w, e);
        let last = es.len() - 1;
        assert forall|i: int, j: int| 0 <= i < j < r.len() implies !same_member(
            #[trigger] r[i],
            #[trigger] r[j],
        ) by {
            assert(r[i] == p[i]);
            if j < p.len() {
                assert(r[j] == p[j]);
            } else {
                assert(r[j] == es[last]);
                if p[i] != e {
                    let q = choose|q: int| 0 <= q < w.len() && w[q] == p[i];
                    assert(es[q] == p[i]);
                }
            }
        }
    } else {
        assert forall|i: int, j: int| 0 <= i < j < r.len() implies !same_member(
            #[trigger] r[i],
            #[trigger] r[j],
        ) by {
            assert(r[i] == es[i]);
            if j < es.len() {
                assert(r[j] == es[j]);
            }
        }
    }
}

proof fn lemma_insert_members(d: tree::ClassDecl, es: Seq<Event>, g: int, n: nat)
    requires
        0 <= g < 7,
        n <= usize::MAX,
        are_apart(es),
        all_below(d, es, g, 0),
    ensures
        are_apart(layout_items::insert_members(d, es, g, n)),
        all_below(d, layout_items::insert_members(d, es, g, n), g, n),
    decreases n,
{
    if n > 0 {
        let p = layout_items::insert_members(d, es, g, (n - 1) as nat);
        lemma_insert_members(d, es, g, (n - 1) as nat);
        let e = Event {
            start: layout_items::member_span(d, g, n - 1).start,
            kind: g as u8,
            index: (n - 1) as usize,
        };
        assert(e.kind == g && e.index == n - 1);
        assert forall|i: int| 0 <= i < p.len() implies !same_member(#[trigger] p[i], e) by {
            assert(is_below(d, p[i], g, (n - 1) as nat));
        }
        lemma_insert_apart(p, e);
        lemma_insert_event(p, e);
        let r = layout_items::insert_members(d, es, g, n);
        assert(r == layout_items::insert_event(p, e));
        assert forall|i: int| 0 <= i < r.len() implies is_below(d, #[trigger] r[i], g, n) by {
            if r[i] != e {
                let q = choose|q: int| 0 <= q < p.len() && p[q] == r[i];
                assert(is_below(d, p[q], g, (n - 1) as nat));
            }
        }
    }
}

proof fn lemma_events(d: tree::ClassDecl, g: int)
    requires
        0 <= g <= 7,
        class_fits(d),
    ensures
        are_apart(layout_items::events(d, g)),
        all_below(d, layout_items::events(d, g), g, 0),
    decreases g,
{
    if g > 0 {
        let p = layout_items::events(d, g - 1);
        let n = layout_items::member_count(d, g - 1);
        lemma_events(d, g - 1);
        lemma_insert_members(d, p, g - 1, n);
        let r = layout_items::events(d, g);
        assert forall|i: int| 0 <= i < r.len() implies is_below(d, #[trigger] r[i], g, 0) by {
            assert(is_below(d, r[i], g - 1, n));
        }
    }
}

spec fn placed_says(cx: Context, k: int, p: Placed) -> bool {
    shown::says(cx, k, p.leads) || shown::says(cx, k, p.body) || shown::says_some(cx, k, p.trail)
}

proof fn lemma_member_text(cx: Context, k: int, ind: nat, ci: int, d: tree::ClassDecl, g: int, i: int)
    ensures
        ({
            let r = layout_items::member_text(cx, ind, ci, d, g, i);
            ci <= r.1 && (ci <= k < r.1 ==> shown::says(cx, k, r.0))
        }),
{
    match layout_items::kind_at(g) {
        layout_items::MemberKind::Field => {},
        layout_items::MemberKind::Constructor => {
            lemma_constructor_text(cx, k, ind, ci, d.constructors[i]);
        },
        layout_items::MemberKind::Destructor => {
            lemma_destructor_text(cx, k, ind, ci, d.destructors[i]);
        },
        layout_items::MemberKind::Property => {
            lemma_property_text(cx, k, ind, ci, d.properties[i]);
        },
        layout_items::MemberKind::Operator => {
            lemma_operator_text(cx, k, ind, ci, d.operators[i]);
        },
        layout_items::MemberKind::Conversion => {
            lemma_conversion_text(cx, k, ind, ci, d.conversions[i]);
        },
        layout_items::MemberKind::Method => {
            lemma_method_text(cx, k, ind, ci, d.methods[i]);
        },
    }
}

proof fn lemma_place(cx: Context, k: int, ind: nat, ci: int, d: tree::ClassDecl, es: Seq<Event>, n: nat)
    requires
        n <= es.len(),
    ensures
        ({
            let r = layout_items::place(cx, ind, ci, d, es, n);
            &&& ci <= r.1
            &&& r.0.len() == n
            &&& forall|q: int|
                0 <= q < n ==> (#[trigger] r.0[q]).kind == es[q].kind && r.0[q].index == es[q].index && (
                es[q].kind == 0 ==> r.0[q].body == Seq::<char>::empty())
            &&& ci <= k < r.1 ==> exists|q: int| 0 <= q < n && placed_says(cx, k, #[trigger] r.0[q])
        }),
    decreases n,
{
    if n > 0 {
        let p = layout_items::place(cx, ind, ci, d, es, (n - 1) as nat);
        lemma_place(cx, k, ind, ci, d, es, (n - 1) as nat);
        let g = es[n - 1].kind as int;
        let i = es[n - 1].index as int;
        let sp = layout_items::member_span(d, g, i);
        let m = layout::deeper(ind, 1);
        let l = layout::leads(cx, m, p.1, sp.start as int);
        preserve::lemma_leads(cx, k, m, p.1, sp.start as int);
        let b = layout_items::member_text(cx, ind, l.1, d, g, i);
        lemma_member_text(cx, k, ind, l.1, d, g, i);
        preserve::lemma_trailing(cx, k, b.1, sp.end as int);
        let r = layout_items::place(cx, ind, ci, d, es, n);
        assert forall|q: int| 0 <= q < n implies (#[trigger] r.0[q]).kind == es[q].kind && r.0[q].index
            == es[q].index && (es[q].kind == 0 ==> r.0[q].body == Seq::<char>::empty()) by {
            if q < n - 1 {
                assert(r.0[q] == p.0[q]);
            }
        }
        if ci <= k < p.1 {
            let q = choose|q: int| 0 <= q < n - 1 && placed_says(cx, k, #[trigger] p.0[q]);
            assert(r.0[q] == p.0[q]);
        } else if ci <= k < r.1 {
            assert(placed_says(cx, k, r.0[n - 1]));
        }
    }
}

proof fn lemma_find_placed(ps: Seq<Placed>, n: nat, q: int)
    requires
        0 <= q < n <= ps.len(),
        forall|i: int, j: int|
            0 <= i < j < ps.len() ==> !((#[trigger] ps[i]).kind == (#[trigger] ps[j]).kind && ps[i].index
                == ps[j].index),
    ensures
        layout_items::find_placed(ps, n, ps[q].kind, ps[q].index) == ps[q],
    decreases n,
{
    if q < n - 1 {
        assert(!(ps[q].kind == ps[n - 1].kind && ps[q].index == ps[n - 1].index));
        lemma_find_placed(ps, (n - 1) as nat, q);
    }
}

proof fn lemma_field_comments(ps: Seq<Placed>, n: nat, i: int)
    requires
        0 <= i < n,
    ensures
        layout_items::field_comments(ps, n).len() == n,
        layout_items::field_comments(ps, n)[i].leads == layout_items::find_placed(ps, ps.len(), 0, i).leads,
        layout_items::field_comments(ps, n)[i].trail == layout_items::find_placed(ps, ps.len(), 0, i).trail,
    decreases n,
{
    reveal_with_fuel(layout_items::field_comments, 2);
    if n > 1 {
        lemma_field_comments(
            ps,
            (n - 1) as nat,
            if i < n - 1 {
                i
            } else {
                0
            },
        );
    }
}

/// Whether comment `k` stands in a section.
spec fn sections_say(cx: Context, k: int, v: Seq<Seq<char>>) -> bool {
    exists|q: int| 0 <= q < v.len() && shown::says(cx, k, #[trigger] v[q])
}

proof fn lemma_sections_push(cx: Context, k: int, v: Seq<Seq<char>>, s: Seq<char>)
    ensures
        sections_say(cx, k, v) || shown::says(cx, k, s) ==> sections_say(cx, k, v.push(s)),
{
    if sections_say(cx, k, v) {
        let q = choose|q: int| 0 <= q < v.len() && shown::says(cx, k, #[trigger] v[q]);
        assert(v.push(s)[q] == v[q]);
    } else if shown::says(cx, k, s) {
        assert(v.push(s)[v.len() as int] == s);
    }
}

proof fn lemma_kind_sections(cx: Context, k: int, ps: Seq<Placed>, v: Seq<Seq<char>>, g: int, n: nat, i: int)
    ensures
        sections_say(cx, k, v) ==> sections_say(cx, k, layout_items::kind_sections(ps, v, g, n)),
        0 <= i < n && placed_says(cx, k, layout_items::find_placed(ps, ps.len(), g, i)) ==> sections_say(
            cx,
            k,
            layout_items::kind_sections(ps, v, g, n),
        ),
    decreases n,
{
    if n > 0 {
        let w = layout_items::kind_sections(ps, v, g, (n - 1) as nat);
        lemma_kind_sections(cx, k, ps, v, g, (n - 1) as nat, i);
        let p = layout_items::find_placed(ps, ps.len(), g, n - 1);
        lemma_sections_push(cx, k, w, layout::with_trail(p.leads + p.body, p.trail));
    }
}

proof fn lemma_sections(
    cx: Context,
    k: int,
    d: tree::ClassDecl,
    ps: Seq<Placed>,
    fields: Seq<char>,
    top: int,
    g: int,
    i: int,
)
    requires
        1 <= top <= 7,
    ensures
        d.fields.len() > 0 && shown::says(cx, k, fields) ==> sections_say(
            cx,
            k,
            layout_items::sections(d, ps, fields, top),
        ),
        1 <= g < top && 0 <= i < layout_items::member_count(d, g) && placed_says(
            cx,
            k,
            layout_items::find_placed(ps, ps.len(), g, i),
        ) ==> sections_say(cx, k, layout_items::sections(d, ps, fields, top)),
    decreases top,
{
    if top == 1 {
        let v = layout_items::sections(d, ps, fields, top);
        if d.fields.len() > 0 && shown::says(cx, k, fields) {
            assert(v[0] == fields);
        }
    } else {
        lemma_sections(cx, k, d, ps, fields, top - 1, g, i);
        let v = layout_items::sections(d, ps, fields, top - 1);
        lemma_kind_sections(cx, k, ps, v, top - 1, layout_items::member_count(d, top - 1), i);
    }
}

proof fn lemma_push_lines(ls: Seq<Seq<char>>, n: nat, s: Seq<char>)
    ensures
        shown::carries(s, layout_items::push_lines(ls, n, s)),
        forall|j: int| 0 <= j < n ==> shown::carries(#[trigger] ls[j], layout_items::push_lines(ls, n, s)),
    decreases n,
{
    if n > 0 {
        let p = layout_items::push_lines(ls, (n - 1) as nat, s);
        let r = layout_items::push_lines(ls, n, s);
        lemma_push_lines(ls, (n - 1) as nat, s);
        assert(shown::carries(p, r));
        assert forall|j: int| 0 <= j < n implies shown::carries(#[trigger] ls[j], r) by {
            if j < n - 1 {
                assert(shown::carries(ls[j], p));
            }
        }
    }
}

proof fn lemma_pushed(cx: Context, k: int, t: Seq<char>, s: Seq<char>)
    ensures
        ({
            let ls = text::lines(t);
            shown::says(cx, k, s) || shown::says(cx, k, t) ==> shown::says(
                cx,
                k,
                layout_items::push_lines(ls, ls.len(), s),
            )
        }),
{
    let ls = text::lines(t);
    let r = layout_items::push_lines(ls, ls.len(), s);
    lemma_push_lines(ls, ls.len(), s);
    shown::lemma_lines_carry(t, r);
    shown::lemma_says_carried(cx, k, t, r);
    shown::lemma_says_carried(cx, k, s, r);
}

proof fn lemma_section_lines(cx: Context, k: int, v: Seq<Seq<char>>, n: nat, s: Seq<char>, q: int)
    ensures
        shown::says(cx, k, s) || (0 <= q < n && shown::says(cx, k, v[q])) ==> shown::says(
            cx,
            k,
            layout_items::section_lines(v, n, s),
        ),
    decreases n,
{
    if n > 0 {
        let p = layout_items::section_lines(v, (n - 1) as nat, s);
        lemma_section_lines(cx, k, v, (n - 1) as nat, s, q);
        let p = if n > 1 {
            p.push('\n')
        } else {
            p
        };
        let t = text::trim_newlines(v[n - 1]);
        shown::lemma_carries_trim_newlines(v[n - 1]);
        shown::lemma_says_carried(cx, k, v[n - 1], t);
        lemma_pushed(cx, k, t, p);
    }
}

proof fn lemma_class_text(cx: Context, k: int, ind: nat, ci: int, d: tree::ClassDecl)
    requires
        class_fits(d),
    ensures
        ({
            let r = layout_items::class_text(cx, ind, ci, d);
            ci <= r.1 && (ci <= k < r.1 ==> shown::says(cx, k, r.0))
        }),
{
    reveal(layout_items::class_text);
    let es = layout_items::events(d, 7);
    lemma_events(d, 7);
    let ps = layout_items::place(cx, ind, ci, d, es, es.len());
    lemma_place(cx, k, ind, ci, d, es, es.len());
    let n = d.fields.len();
    let att = layout_items::field_comments(ps.0, n);
    let fs = layout_items::fields_text(cx, ind, ps.1, d.fields, att);
    lemma_fields_from(cx, k, ind, ps.1, d.fields, att, 0, seq![]);
    let v = layout_items::sections(d, ps.0, fs.0, 7);
    let body = layout_items::section_lines(v, v.len(), layout_items::class_head(d));
    lemma_closed_by_end(cx, k, ind, body, fs.1, d.span.end as int);
    if ci <= k < ps.1 {
        let q = choose|q: int| 0 <= q < es.len() && placed_says(cx, k, #[trigger] ps.0[q]);
        let g = ps.0[q].kind;
        let i = ps.0[q].index;
        assert(is_below(d, es[q], 7, 0));
        assert forall|a: int, b: int| 0 <= a < b < ps.0.len() implies !((#[trigger] ps.0[a]).kind == (
        #[trigger] ps.0[b]).kind && ps.0[a].index == ps.0[b].index) by {
            assert(!same_member(es[a], es[b]));
        }
        lemma_find_placed(ps.0, ps.0.len(), q);
        if g == 0 {
            lemma_field_comments(ps.0, n, i);
            assert(ps.0[q].body + att[i].leads =~= att[i].leads);
            assert(att_says(cx, k, att[i]));
            assert(atts_say(cx, k, att, 0, n as int));
        }
        lemma_sections(cx, k, d, ps.0, fs.0, 7, g, i);
        if sections_say(cx, k, v) {
            let j = choose|j: int| 0 <= j < v.len() && shown::says(cx, k, #[trigger] v[j]);
            lemma_section_lines(cx, k, v, v.len(), layout_items::class_head(d), j);
        }
    } else if ci <= k < fs.1 {
        lemma_sections(cx, k, d, ps.0, fs.0, 7, 0, 0);
        if sections_say(cx, k, v) {
            let j = choose|j: int| 0 <= j < v.len() && shown::says(cx, k, #[trigger] v[j]);
            lemma_section_lines(cx, k, v, v.len(), layout_items::class_head(d), j);
        }
    }
}

// ── Items and programs ──────────────────────────────────────────────────────

/// Whether the members of the class that an item declares can be counted.
pub open spec fn item_fits(item: tree::Item) -> bool
    decreases item,
{
    match item {
        tree::Item::Class(d) => class_fits(d),
        tree::Item::Attributed { item, .. } => item_fits(*item),
        _ => true,
    }
}

/// Whether the members of every class of a program can be counted.
pub open spec fn program_fits(p: tree::Program) -> bool {
    forall|i: int| 0 <= i < p.items.len() ==> item_fits(#[trigger] p.items[i])
}

proof fn lemma_item_text(cx: Context, k: int, ind: nat, ci: int, item: tree::Item)
    requires
        item_fits(item),
    ensures
        ({
            let r = layout_items::item_text(cx, ind, ci, item);
            ci <= r.1 && (ci <= k < r.1 ==> shown::says(cx, k, r.0))
        }),
    decreases item,
{
    match item {
        tree::Item::Import(_) => {},
        tree::Item::Function(f) => {
            lemma_function_text(cx, k, ind, ci, f);
        },
        tree::Item::Struct(d) => {
            lemma_struct_text(cx, k, ind, ci, d);
        },
        tree::Item::Class(d) => {
            lemma_class_text(cx, k, ind, ci, d);
        },
        tree::Item::Enum(d) => {
            lemma_enum_text(cx, k, ind, ci, d);
        },
        tree::Item::Trait(d) => {
            lemma_trait_text(cx, k, ind, ci, d);
        },
        tree::Item::Typedef(_) => {},
        tree::Item::Distinct(_) => {},
        tree::Item::Extension(d) => {
            lemma_extension_text(cx, k, ind, ci, d);
        },
        tree::Item::Extern(d) => {
            lemma_foreign_text(cx, k, ind, ci, d);
        },
        tree::Item::Init(b) => {
            lemma_with_block(cx, k, ind, ci, "init do\n"@, b);
        },
        tree::Item::Const(d) => {
            preserve::lemma_const_text(cx, k, ind, ci, d);
        },
        tree::Item::Var(d) => {
            preserve::lemma_var_text(cx, k, ind, ci, d);
        },
        tree::Item::Attributed { item, .. } => {
            lemma_item_text(cx, k, ind, ci, *item);
        },
    }
}

proof fn lemma_import_item(cx: Context, k: int, ci: int, item: tree::Item, s: Seq<char>)
    requires
        item_fits(item),
    ensures
        ({
            let r = layout_items::import_item(cx, ci, item, s);
            ci <= r.1 && (shown::says(cx, k, s) || ci <= k < r.1 ==> shown::says(cx, k, r.0))
        }),
{
    reveal(layout_items::import_item);
    let start = layout_items::item_span(item).start as int;
    let l = layout::top_leads(cx, ci, start, s);
    preserve::lemma_top_leads(cx, k, ci, start, s);
    let r = layout_items::item_text(cx, 0, l.1, item);
    lemma_item_text(cx, k, 0, l.1, item);
    lemma_pushed(cx, k, r.0, l.0);
}

proof fn lemma_import_lines(cx: Context, k: int, ci: int, p: tree::Program, n: nat, s: Seq<char>)
    requires
        program_fits(p),
    ensures
        ({
            let r = layout_items::import_lines(cx, ci, p.items, n, s);
            ci <= r.1 && (shown::says(cx, k, s) || ci <= k < r.1 ==> shown::says(cx, k, r.0))
        }),
    decreases n,
{
    if 0 < n <= p.items.len() {
        let q = layout_items::import_lines(cx, ci, p.items, (n - 1) as nat, s);
        lemma_import_lines(cx, k, ci, p, (n - 1) as nat, s);
        lemma_import_item(cx, k, q.1, p.items[n - 1], q.0);
    }
}

proof fn lemma_rest_item(cx: Context, k: int, ci: int, item: tree::Item, s: Seq<char>)
    requires
        item_fits(item),
    ensures
        ({
            let r = layout_items::rest_item(cx, ci, item, s);
            ci <= r.1 && (shown::says(cx, k, s) || ci <= k < r.1 ==> shown::says(cx, k, r.0))
        }),
{
    reveal(layout_items::rest_item);
    let sp = layout_items::item_span(item);
    let l = layout::top_leads(cx, ci, sp.start as int, s);
    preserve::lemma_top_leads(cx, k, ci, sp.start as int, s);
    let r = layout_items::item_text(cx, 0, l.1, item);
    lemma_item_text(cx, k, 0, l.1, item);
    lemma_pushed(cx, k, r.0, l.0);
    let ls = text::lines(r.0);
    let w = layout_items::push_lines(ls, ls.len(), l.0);
    preserve::lemma_top_trailing(cx, k, r.1, sp.end as int, w);
}

proof fn lemma_rest_lines(cx: Context, k: int, ci: int, p: tree::Program, n: nat, s: Seq<char>)
    requires
        program_fits(p),
    ensures
        ({
            let r = layout_items::rest_lines(cx, ci, p.items, n, s);
            ci <= r.1 && (shown::says(cx, k, s) || ci <= k < r.1 ==> shown::says(cx, k, r.0))
        }),
    decreases n,
{
    if 0 < n <= p.items.len() {
        let q = layout_items::rest_lines(cx, ci, p.items, (n - 1) as nat, s);
        lemma_rest_lines(cx, k, ci, p, (n - 1) as nat, s);
        let first = layout_items::imports(p.items, (n - 1) as nat) == n - 1;
        lemma_rest_item(
            cx,
            k,
            q.1,
            p.items[n - 1],
            if first {
                q.0
            } else {
                layout_items::with_blank(q.0)
            },
        );
    }
}

proof fn lemma_squeezed_tail(s: Seq<char>, m: nat)
    requires
        m <= s.len(),
        forall|i: int| s.len() - m <= i < s.len() ==> s[i] != '\n',
    ensures
        ({
            let t = layout_items::squeezed(s);
            m <= t.len() && t.skip(t.len() - m) == s.skip(s.len() - m)
        }),
    decreases s.len(),
{
    let t = layout_items::squeezed(s);
    if m > 0 {
        let w = s.drop_last();
        lemma_squeezed_tail(w, (m - 1) as nat);
        assert(s[s.len() - 1] != '\n');
        let u = layout_items::squeezed(w);
        assert(t.skip(t.len() - m) =~= u.skip(u.len() - (m - 1)).push(s.last()));
        assert(s.skip(s.len() - m) =~= w.skip(w.len() - (m - 1)).push(s.last()));
    } else {
        assert(t.skip(t.len() - m) =~= s.skip(s.len() - m));
    }
}

proof fn lemma_squeezed_carries(s: Seq<char>)
    ensures
        shown::carries(s, layout_items::squeezed(s)),
    decreases s.len(),
{
    if s.len() > 0 {
        let w = s.drop_last();
        let u = layout_items::squeezed(w);
        let t = layout_items::squeezed(s);
        lemma_squeezed_carries(w);
        assert forall|x: Seq<char>| shown::is_solid(x) && #[trigger] shown::occurs(x, s) implies shown::occurs(
            x,
            t,
        ) by {
            if s.last() == '\n' {
                shown::lemma_carries_drop_last(s);
                assert(shown::occurs(x, w));
            } else {
                lemma_last_part(x, s, t);
            }
        }
    }
}

proof fn lemma_last_part(x: Seq<char>, s: Seq<char>, t: Seq<char>)
    requires
        shown::is_solid(x),
        shown::occurs(x, s),
        s.len() > 0,
        s.last() != '\n',
        t == layout_items::squeezed(s),
        shown::carries(s.drop_last(), layout_items::squeezed(s.drop_last())),
    ensures
        shown::occurs(x, t),
{
    reveal(shown::occurs);
    let w = s.drop_last();
    let i = choose|i: int| 0 <= i && i + x.len() <= s.len() && #[trigger] s.subrange(i, i + x.len()) == x;
    if i + x.len() < s.len() {
        assert(w.subrange(i, i + x.len()) =~= x);
        assert(shown::occurs(x, w));
        assert(shown::occurs(x, layout_items::squeezed(w)));
        assert(t == layout_items::squeezed(w).push(s.last()));
        shown::occurs_push(x, layout_items::squeezed(w), s.last());
    } else {
        assert forall|j: int| s.len() - x.len() <= j < s.len() implies s[j] != '\n' by {
            assert(x[j - i] == s[j]);
        }
        lemma_squeezed_tail(s, x.len());
        let d = t.len() - x.len();
        assert(t.subrange(d, d + x.len()) =~= t.skip(d));
        assert(s.skip(s.len() - x.len()) =~= x);
    }
}

/// Every comment stands in the formatted text of a program.
pub proof fn lemma_formatted(cx: Context, p: tree::Program, k: int)
    requires
        program_fits(p),
        0 <= k < cx.notes.len(),
        forall|i: int| 0 <= i < cx.notes.len() ==> (#[trigger] cx.notes[i]).start < usize::MAX,
    ensures
        shown::shows(layout_items::formatted(cx, p), cx.notes[k].text),
{
    let n = p.items.len();
    let a = layout_items::import_lines(cx, 0, p.items, n, seq![]);
    lemma_import_lines(cx, k, 0, p, n, seq![]);
    let count = layout_items::imports(p.items, n);
    let s = if 0 < count < n {
        a.0.push('\n').push('\n')
    } else {
        a.0
    };
    let r = layout_items::rest_lines(cx, a.1, p.items, n, s);
    lemma_rest_lines(cx, k, a.1, p, n, s);
    assert(layout_items::program_text(cx, p) == r);
    let all = layout::top_leads(cx, r.1, usize::MAX as int, r.0);
    preserve::lemma_top_leads(cx, k, r.1, usize::MAX as int, r.0);
    preserve::lemma_top_leads_all(cx, r.1, usize::MAX as int, r.0);
    lemma_squeezed_carries(all.0);
    shown::lemma_says_carried(cx, k, all.0, layout_items::squeezed(all.0));
    assert(shown::says(cx, k, layout_items::formatted(cx, p)));
    reveal(shown::says);
}

} // verus!
