//! Every comment that the layout goes past stands in what it writes.
//!
//! Comments are set in anew, and blank space around their lines goes; their lines are kept. The
//! lemmas here follow the layout function by function: a comment between the index that
//! a function gets and the one that it gives stands in its text.
use vstd::prelude::*;
use crate::formatter::compact;
use crate::formatter::shown;
use crate::formatter::layout;
use crate::formatter::layout::{Context, Row};
use crate::text;
use crate::token::Span;
use crate::tree;

verus! {

broadcast use {shown::occurs_add, shown::occurs_push, shown::says_add, shown::says_push};

// ── Comments ────────────────────────────────────────────────────────────────

proof fn lemma_note_line(s: Seq<char>, l: Seq<char>, margin: Seq<char>)
    ensures
        shown::carries(s, layout::note_line(s, l, margin)),
        shown::carries(l, layout::note_line(s, l, margin)),
{
    shown::lemma_carries_trim(l);
    let r = layout::note_line(s, l, margin);
    assert forall|x: Seq<char>| shown::is_solid(x) && #[trigger] shown::occurs(x, l) implies shown::occurs(
        x,
        r,
    ) by {
        reveal(shown::occurs);
        assert(shown::occurs(x, text::trim(l)));
        assert(shown::occurs(x, text::trim_start(l)));
    }
}

proof fn lemma_note_lines(ls: Seq<Seq<char>>, n: nat, margin: Seq<char>, s: Seq<char>)
    ensures
        shown::carries(s, layout::note_lines(ls, n, margin, s)),
        forall|j: int| 0 <= j < n ==> shown::carries(#[trigger] ls[j], layout::note_lines(ls, n, margin, s)),
    decreases n,
{
    if n > 0 {
        let p = layout::note_lines(ls, (n - 1) as nat, margin, s);
        lemma_note_lines(ls, (n - 1) as nat, margin, s);
        lemma_note_line(p, ls[n - 1], margin);
        assert forall|j: int| 0 <= j < n implies shown::carries(#[trigger] ls[j], layout::note_lines(ls, n, margin, s)) by {
            if j < n - 1 {
                assert(shown::carries(ls[j], p));
            }
        }
    }
}

proof fn lemma_stripped_lines(ls: Seq<Seq<char>>, n: nat, s: Seq<char>)
    ensures
        shown::carries(s, layout::stripped_lines(ls, n, s)),
        forall|j: int| 0 <= j < n ==> shown::carries(#[trigger] ls[j], layout::stripped_lines(ls, n, s)),
    decreases n,
{
    if n > 0 {
        let p = layout::stripped_lines(ls, (n - 1) as nat, s);
        lemma_stripped_lines(ls, (n - 1) as nat, s);
        shown::lemma_carries_trim_end(ls[n - 1]);
        lemma_note_line(p, text::trim_end(ls[n - 1]), seq![]);
        assert forall|j: int| 0 <= j < n implies shown::carries(#[trigger] ls[j], layout::stripped_lines(ls, n, s)) by {
            if j < n - 1 {
                assert(shown::carries(ls[j], p));
            }
        }
    }
}

proof fn lemma_note_text(cx: Context, k: int, ind: nat, j: int, s: Seq<char>)
    ensures
        shown::says(cx, k, s) || j == k ==> shown::says(cx, k, layout::note_text(cx, ind, cx.notes[j], s)),
{
    let note = cx.notes[j];
    let ls = text::lines(note.text);
    let r = layout::note_text(cx, ind, note, s);
    lemma_note_lines(ls, ls.len(), layout::pad(cx, ind), s);
    shown::lemma_lines_carry(note.text, r);
    shown::lemma_says_carried(cx, k, s, r);
    if j == k {
        shown::lemma_says_itself(cx, k, r);
    }
}

proof fn lemma_lead_text(cx: Context, k: int, ind: nat, from: int, to: int)
    ensures
        from <= k < to ==> shown::says(cx, k, layout::lead_text(cx, ind, from, to)),
    decreases to - from,
{
    if from < to {
        lemma_lead_text(cx, k, ind, from, to - 1);
        lemma_note_text(cx, k, ind, to - 1, layout::lead_text(cx, ind, from, to - 1));
    }
}

proof fn lemma_leads_end(cx: Context, ci: int, pos: int)
    ensures
        ci <= layout::leads_end(cx, ci, pos),
    decreases cx.notes.len() - ci,
{
    if 0 <= ci < cx.notes.len() && cx.notes[ci].start < pos {
        lemma_leads_end(cx, ci + 1, pos);
    }
}

/// The comments before a place.
pub proof fn lemma_leads(cx: Context, k: int, ind: nat, ci: int, pos: int)
    ensures
        ci <= layout::leads(cx, ind, ci, pos).1,
        ci <= k < layout::leads(cx, ind, ci, pos).1 ==> shown::says(cx, k, layout::leads(cx, ind, ci, pos).0),
{
    lemma_leads_end(cx, ci, pos);
    lemma_lead_text(cx, k, ind, ci, layout::leads_end(cx, ci, pos));
}

proof fn lemma_says_trimmed(cx: Context, k: int)
    ensures
        shown::says(cx, k, text::trim(cx.notes[k].text)),
{
    shown::lemma_carries_trim(cx.notes[k].text);
    shown::lemma_says_itself(cx, k, text::trim(cx.notes[k].text));
}

proof fn lemma_says_whole(cx: Context, k: int)
    ensures
        shown::says(cx, k, layout::whole(cx.notes[k])),
{
    lemma_says_trimmed(cx, k);
    shown::lemma_says_itself(cx, k, cx.notes[k].text);
}

proof fn lemma_trailing_from(cx: Context, k: int, ci: int, end: int, done: Option<Seq<char>>)
    ensures
        ({
            let r = layout::trailing_from(cx, ci, end, done);
            ci <= r.1 && (shown::says_some(cx, k, done) || ci <= k < r.1 ==> shown::says_some(cx, k, r.0))
        }),
    decreases cx.notes.len() - ci,
{
    if layout::trails(cx, ci, end) {
        let t = text::trim(cx.notes[ci].text);
        lemma_says_trimmed(cx, ci);
        lemma_trailing_from(
            cx,
            k,
            ci + 1,
            end,
            match done {
                Some(s) => Some(s + "  "@ + t),
                None => Some(t),
            },
        );
    }
}

/// The comments after a place on its line.
pub proof fn lemma_trailing(cx: Context, k: int, ci: int, end: int)
    ensures
        ci <= layout::trailing(cx, ci, end).1,
        ci <= k < layout::trailing(cx, ci, end).1 ==> shown::says_some(cx, k, layout::trailing(cx, ci, end).0),
{
    lemma_trailing_from(cx, k, ci, end, None);
}

proof fn lemma_without_end(cx: Context, k: int, s: Seq<char>)
    requires
        s.len() > 0,
        s.last() == '\n',
    ensures
        shown::says(cx, k, s) ==> shown::says(cx, k, s.drop_last()),
{
    shown::lemma_carries_drop_last(s);
    shown::lemma_says_carried(cx, k, s, s.drop_last());
}

proof fn lemma_trail_inside(cx: Context, k: int, s: Seq<char>, t: Option<Seq<char>>)
    requires
        s.len() > 0,
        s.last() == '\n',
    ensures
        shown::says(cx, k, s) || shown::says_some(cx, k, t) ==> shown::says(cx, k, layout::with_trail_inside(s, t)),
        layout::with_trail_inside(s, t).last() == '\n',
{
    lemma_without_end(cx, k, s);
}

proof fn lemma_stmt_leads(cx: Context, k: int, ind: nat, from: int, to: int, s: Seq<char>)
    ensures
        shown::says(cx, k, s) || from <= k < to ==> shown::says(cx, k, layout::stmt_leads(cx, ind, from, to, s)),
    decreases to - from,
{
    if from < to {
        let p = layout::stmt_leads(cx, ind, from, to - 1, s);
        lemma_stmt_leads(cx, k, ind, from, to - 1, s);
        let t = layout::whole(cx.notes[to - 1]);
        let ls = text::lines(t);
        let r = layout::note_lines(ls, ls.len(), layout::pad(cx, ind), p);
        lemma_note_lines(ls, ls.len(), layout::pad(cx, ind), p);
        shown::lemma_lines_carry(t, r);
        lemma_says_whole(cx, to - 1);
        shown::lemma_says_carried(cx, k, p, r);
        shown::lemma_says_carried(cx, to - 1, t, r);
    }
}

proof fn lemma_stmt_trailing(cx: Context, k: int, ci: int, end: int, s: Seq<char>)
    ensures
        ({
            let r = layout::stmt_trailing(cx, ci, end, s);
            ci <= r.1 && (shown::says(cx, k, s) || ci <= k < r.1 ==> shown::says(cx, k, r.0))
        }),
    decreases cx.notes.len() - ci,
{
    if layout::trails(cx, ci, end) {
        lemma_says_trimmed(cx, ci);
        if s.len() > 0 && s.last() == '\n' {
            lemma_without_end(cx, k, s);
        }
        lemma_stmt_trailing(cx, k, ci + 1, end, layout::attached(s, cx.notes[ci].text));
    }
}

/// The comments before a place at the outermost level.
pub proof fn lemma_top_leads(cx: Context, k: int, ci: int, pos: int, s: Seq<char>)
    ensures
        ({
            let r = layout::top_leads(cx, ci, pos, s);
            ci <= r.1 && (shown::says(cx, k, s) || ci <= k < r.1 ==> shown::says(cx, k, r.0))
        }),
    decreases cx.notes.len() - ci,
{
    if 0 <= ci < cx.notes.len() && cx.notes[ci].start < pos {
        let t = layout::whole(cx.notes[ci]);
        let ls = text::lines(t);
        let r = layout::stripped_lines(ls, ls.len(), s);
        lemma_stripped_lines(ls, ls.len(), s);
        shown::lemma_lines_carry(t, r);
        lemma_says_whole(cx, ci);
        shown::lemma_says_carried(cx, k, s, r);
        shown::lemma_says_carried(cx, ci, t, r);
        lemma_top_leads(cx, k, ci + 1, pos, r);
    }
}

/// No comment from `ci` on that starts before `pos` is left.
pub proof fn lemma_top_leads_all(cx: Context, ci: int, pos: int, s: Seq<char>)
    requires
        0 <= ci,
        forall|i: int| 0 <= i < cx.notes.len() ==> (#[trigger] cx.notes[i]).start < pos,
    ensures
        layout::top_leads(cx, ci, pos, s).1 >= cx.notes.len(),
    decreases cx.notes.len() - ci,
{
    if ci < cx.notes.len() {
        let ls = text::lines(layout::whole(cx.notes[ci]));
        lemma_top_leads_all(cx, ci + 1, pos, layout::stripped_lines(ls, ls.len(), s));
    }
}

/// The comments on the line of an item.
pub proof fn lemma_top_trailing(cx: Context, k: int, ci: int, end: int, s: Seq<char>)
    ensures
        ({
            let r = layout::top_trailing(cx, ci, end, s);
            ci <= r.1 && (shown::says(cx, k, s) || ci <= k < r.1 ==> shown::says(cx, k, r.0))
        }),
    decreases cx.notes.len() - ci,
{
    if 0 <= ci < cx.notes.len() && layout::line_of(cx, cx.notes[ci].start) == layout::line_of(cx, end)
        && !cx.notes[ci].own_line {
        lemma_says_trimmed(cx, ci);
        if s.len() > 0 && s.last() == '\n' {
            lemma_without_end(cx, k, s);
        }
        lemma_top_trailing(cx, k, ci + 1, end, layout::attached(s, cx.notes[ci].text));
    }
}

// ── Expressions ─────────────────────────────────────────────────────────────

proof fn lemma_more_lines(ls: Seq<Seq<char>>, n: int, s: Seq<char>)
    requires
        s.len() > 0,
        s.last() == '\n',
    ensures
        shown::carries(s, layout::more_lines(ls, n, s)),
        forall|j: int| 1 <= j < n ==> shown::carries(#[trigger] ls[j], layout::more_lines(ls, n, s)),
        layout::more_lines(ls, n, s).len() > 0,
        layout::more_lines(ls, n, s).last() == '\n',
    decreases n,
{
    if n > 1 {
        let p = layout::more_lines(ls, n - 1, s);
        lemma_more_lines(ls, n - 1, s);
        assert forall|j: int| 1 <= j < n implies shown::carries(
            #[trigger] ls[j],
            layout::more_lines(ls, n, s),
        ) by {
            if j < n - 1 {
                assert(shown::carries(ls[j], p));
            }
        }
    }
}

proof fn lemma_value_lines(cx: Context, k: int, s: Seq<char>, value: Seq<char>)
    ensures
        shown::says(cx, k, s) || shown::says(cx, k, value) ==> shown::says(cx, k, layout::value_lines(s, value)),
        layout::value_lines(s, value).len() > 0,
        layout::value_lines(s, value).last() == '\n',
{
    let ls = text::lines(value);
    let t = (s + layout::first_line(ls)).push('\n');
    let r = layout::value_lines(s, value);
    lemma_more_lines(ls, ls.len() as int, t);
    assert(shown::carries(s, t));
    assert(shown::carries(layout::first_line(ls), t));
    assert forall|j: int| 0 <= j < ls.len() implies shown::carries(#[trigger] ls[j], r) by {
        if j == 0 {
            assert(ls[0] == layout::first_line(ls));
        }
    }
    shown::lemma_lines_carry(value, r);
    shown::lemma_says_carried(cx, k, value, r);
    shown::lemma_says_carried(cx, k, s, r);
}

/// An expression.
pub proof fn lemma_expr_wrapped(cx: Context, k: int, ind: nat, ci: int, e: tree::Expr, extra: nat)
    ensures
        ({
            let r = layout::expr_wrapped(cx, ind, ci, e, extra);
            ci <= r.1 && (ci <= k < r.1 ==> shown::says(cx, k, r.0))
        }),
    decreases e, 2nat, 0nat,
{
    match e.kind {
        tree::ExprKind::Call { callee, type_args, args } => {
            lemma_call_wrapped(cx, k, ind, ci, callee + compact::type_args_text(type_args), args);
        },
        tree::ExprKind::MethodCall { object, method, args } => {
            lemma_call_wrapped(cx, k, ind, ci, compact::expr_line(cx, ind, *object) + "."@ + method, args);
        },
        tree::ExprKind::MapLit { ty, entries } => {
            lemma_map_wrapped(cx, k, ind, ci, layout::literal_prefix(ty), entries, e.span.end as int);
        },
        tree::ExprKind::StructLit { ty, fields } => {
            lemma_struct_wrapped(cx, k, ind, ci, layout::literal_prefix(ty), fields, e.span.end as int);
        },
        tree::ExprKind::Match(m) => {
            lemma_match_wrapped(cx, k, ind, ci, *m);
        },
        tree::ExprKind::Closure { params, body } => match *body {
            tree::ClosureBody::Block(b) => {
                lemma_block_inner(cx, k, layout::deeper(ind, extra), ci, b, 1);
            },
            _ => {},
        },
        _ => {},
    }
}

proof fn lemma_call_wrapped(cx: Context, k: int, ind: nat, ci: int, head: Seq<char>, args: Seq<tree::CallArg>)
    ensures
        ({
            let r = layout::call_wrapped(cx, ind, ci, head, args);
            ci <= r.1 && (ci <= k < r.1 ==> shown::says(cx, k, r.0))
        }),
    decreases args, 1nat, 0nat,
{
    if args.len() > 0 {
        lemma_arg_lines(cx, k, ind, ci, args, args.len(), head + "(\n"@);
    }
}

proof fn lemma_arg_lines(
    cx: Context,
    k: int,
    ind: nat,
    ci: int,
    args: Seq<tree::CallArg>,
    n: nat,
    s: Seq<char>,
)
    ensures
        ({
            let r = layout::arg_lines(cx, ind, ci, args, n, s);
            ci <= r.1 && (shown::says(cx, k, s) || ci <= k < r.1 ==> shown::says(cx, k, r.0))
        }),
    decreases args, 0nat, n,
{
    if 0 < n <= args.len() {
        let p = layout::arg_lines(cx, ind, ci, args, (n - 1) as nat, s);
        lemma_arg_lines(cx, k, ind, ci, args, (n - 1) as nat, s);
        match args[n - 1] {
            tree::CallArg::Value(x) => {
                lemma_expr_wrapped(cx, k, ind, p.1, x, 1);
            },
            _ => {},
        }
    }
}

proof fn lemma_map_wrapped(
    cx: Context,
    k: int,
    ind: nat,
    ci: int,
    prefix: Seq<char>,
    entries: Seq<tree::MapEntry>,
    end: int,
)
    ensures
        ({
            let r = layout::map_wrapped(cx, ind, ci, prefix, entries, end);
            ci <= r.1 && (ci <= k < r.1 ==> shown::says(cx, k, r.0))
        }),
{
    let r = layout::entry_lines(cx, ind, ci, entries, entries.len(), prefix + "has\n"@);
    lemma_entry_lines(cx, k, ind, ci, entries, entries.len(), prefix + "has\n"@);
    lemma_leads(cx, k, layout::deeper(ind, 1), r.1, end);
}

proof fn lemma_entry_lines(
    cx: Context,
    k: int,
    ind: nat,
    ci: int,
    entries: Seq<tree::MapEntry>,
    n: nat,
    s: Seq<char>,
)
    ensures
        ({
            let r = layout::entry_lines(cx, ind, ci, entries, n, s);
            ci <= r.1 && (shown::says(cx, k, s) || ci <= k < r.1 ==> shown::says(cx, k, r.0))
        }),
    decreases n,
{
    if 0 < n <= entries.len() {
        let p = layout::entry_lines(cx, ind, ci, entries, (n - 1) as nat, s);
        lemma_entry_lines(cx, k, ind, ci, entries, (n - 1) as nat, s);
        let e = entries[n - 1];
        let l = layout::leads(cx, layout::deeper(ind, 1), p.1, e.key.span.start as int);
        lemma_leads(cx, k, layout::deeper(ind, 1), p.1, e.key.span.start as int);
        lemma_trailing(cx, k, l.1, e.value.span.end as int);
    }
}

proof fn lemma_struct_wrapped(
    cx: Context,
    k: int,
    ind: nat,
    ci: int,
    prefix: Seq<char>,
    fields: Seq<tree::FieldInit>,
    end: int,
)
    ensures
        ({
            let r = layout::struct_wrapped(cx, ind, ci, prefix, fields, end);
            ci <= r.1 && (ci <= k < r.1 ==> shown::says(cx, k, r.0))
        }),
    decreases fields, 1nat, 0nat,
{
    let r = layout::init_lines(cx, ind, ci, fields, fields.len(), prefix + "has\n"@);
    lemma_init_lines(cx, k, ind, ci, fields, fields.len(), prefix + "has\n"@);
    lemma_leads(cx, k, layout::deeper(ind, 1), r.1, end);
}

proof fn lemma_init_lines(
    cx: Context,
    k: int,
    ind: nat,
    ci: int,
    fields: Seq<tree::FieldInit>,
    n: nat,
    s: Seq<char>,
)
    ensures
        ({
            let r = layout::init_lines(cx, ind, ci, fields, n, s);
            ci <= r.1 && (shown::says(cx, k, s) || ci <= k < r.1 ==> shown::says(cx, k, r.0))
        }),
    decreases fields, 0nat, n,
{
    if 0 < n <= fields.len() {
        let p = layout::init_lines(cx, ind, ci, fields, (n - 1) as nat, s);
        lemma_init_lines(cx, k, ind, ci, fields, (n - 1) as nat, s);
        let f = fields[n - 1];
        let l = layout::leads(cx, layout::deeper(ind, 1), p.1, f.span.start as int);
        lemma_leads(cx, k, layout::deeper(ind, 1), p.1, f.span.start as int);
        let v = layout::expr_wrapped(cx, layout::deeper(ind, 1), l.1, f.value, 0);
        lemma_expr_wrapped(cx, k, layout::deeper(ind, 1), l.1, f.value, 0);
        let head = p.0 + l.0 + layout::pad(cx, layout::deeper(ind, 1)) + f.name + " = "@;
        lemma_value_lines(cx, k, head, v.0);
        let t = layout::trailing(cx, v.1, f.value.span.end as int);
        lemma_trailing(cx, k, v.1, f.value.span.end as int);
        lemma_trail_inside(cx, k, layout::value_lines(head, v.0), t.0);
    }
}

proof fn lemma_match_wrapped(cx: Context, k: int, ind: nat, ci: int, m: tree::MatchExpr)
    ensures
        ({
            let r = layout::match_wrapped(cx, ind, ci, m);
            ci <= r.1 && (ci <= k < r.1 ==> shown::says(cx, k, r.0))
        }),
    decreases m, 1nat, 0nat,
{
    let s = "match "@ + compact::expr_line(cx, ind, m.scrutinee) + " do\n"@;
    let r = layout::arm_lines(cx, ind, ci, m.arms, m.arms.len(), s);
    lemma_arm_lines(cx, k, ind, ci, m.arms, m.arms.len(), s);
    lemma_leads(cx, k, layout::deeper(ind, 1), r.1, m.span.end as int);
}

proof fn lemma_arm_lines(
    cx: Context,
    k: int,
    ind: nat,
    ci: int,
    arms: Seq<tree::MatchArm>,
    n: nat,
    s: Seq<char>,
)
    ensures
        ({
            let r = layout::arm_lines(cx, ind, ci, arms, n, s);
            ci <= r.1 && (shown::says(cx, k, s) || ci <= k < r.1 ==> shown::says(cx, k, r.0))
        }),
    decreases arms, 0nat, n,
{
    if 0 < n <= arms.len() {
        let p = layout::arm_lines(cx, ind, ci, arms, (n - 1) as nat, s);
        lemma_arm_lines(cx, k, ind, ci, arms, (n - 1) as nat, s);
        let a = arms[n - 1];
        let l = layout::leads(cx, layout::deeper(ind, 1), p.1, a.span.start as int);
        lemma_leads(cx, k, layout::deeper(ind, 1), p.1, a.span.start as int);
        match a.body {
            tree::ArmBody::Value(x) => {
                lemma_trailing(cx, k, l.1, a.span.end as int);
            },
            tree::ArmBody::Block(b) => {
                lemma_block_inner(cx, k, layout::deeper(ind, 1), l.1, b, 1);
            },
        }
    }
}

proof fn lemma_init_text(cx: Context, k: int, ind: nat, ci: int, e: tree::Expr, span: Span)
    ensures
        ({
            let r = layout::init_text(cx, ind, ci, e, span);
            ci <= r.1 && (ci <= k < r.1 ==> shown::says(cx, k, r.0))
        }),
    decreases e, 3nat, 0nat,
{
    if layout::omits_type(cx, span) && e.kind is StructLit {
        lemma_struct_wrapped(cx, k, ind, ci, seq![], e.kind->StructLit_fields, e.span.end as int);
    } else if layout::omits_type(cx, span) && e.kind is MapLit {
        lemma_map_wrapped(cx, k, ind, ci, seq![], e.kind->MapLit_entries, e.span.end as int);
    } else {
        lemma_expr_wrapped(cx, k, ind, ci, e, 0);
    }
}

// ── Statements ──────────────────────────────────────────────────────────────

/// A variable.
pub proof fn lemma_var_text(cx: Context, k: int, ind: nat, ci: int, d: tree::VarDecl)
    ensures
        ({
            let r = layout::var_text(cx, ind, ci, d);
            ci <= r.1 && (ci <= k < r.1 ==> shown::says(cx, k, r.0))
        }),
    decreases d, 0nat, 0nat,
{
    match d.init {
        Some(e) => {
            lemma_init_text(cx, k, ind, ci, e, d.span);
        },
        None => {},
    }
}

/// A constant.
pub proof fn lemma_const_text(cx: Context, k: int, ind: nat, ci: int, d: tree::ConstDecl)
    ensures
        ({
            let r = layout::const_text(cx, ind, ci, d);
            ci <= r.1 && (ci <= k < r.1 ==> shown::says(cx, k, r.0))
        }),
    decreases d, 0nat, 0nat,
{
    lemma_expr_wrapped(cx, k, ind, ci, d.init, 0);
}

proof fn lemma_strip_lead(cx: Context, k: int, s: Seq<char>)
    ensures
        shown::says(cx, k, s) ==> shown::says(cx, k, layout::strip_lead(s)),
    decreases s.len(),
{
    if s.len() > 0 && s[0] == '\n' {
        shown::lemma_carries_drop_first(s);
        shown::lemma_says_carried(cx, k, s, s.drop_first());
        lemma_strip_lead(cx, k, s.drop_first());
    }
}

proof fn lemma_strip_tail(cx: Context, k: int, s: Seq<char>)
    ensures
        shown::says(cx, k, s) ==> shown::says(cx, k, layout::strip_tail(s)),
    decreases s.len(),
{
    if s.len() > 1 && s.last() == '\n' && s[s.len() - 2] == '\n' {
        lemma_without_end(cx, k, s);
        lemma_strip_tail(cx, k, s.drop_last());
    }
}

/// The statements of a block.
pub proof fn lemma_block_inner(cx: Context, k: int, ind: nat, ci: int, b: tree::Block, rel: nat)
    ensures
        ({
            let r = layout::block_inner(cx, ind, ci, b, rel);
            ci <= r.1 && (ci <= k < r.1 ==> shown::says(cx, k, r.0))
        }),
    decreases b, 1nat, 0nat,
{
    let m = layout::deeper(ind, rel);
    let r = layout::stmts_from(cx, m, b.stmts, 0, None, seq![], ci);
    lemma_stmts_from(cx, k, m, b.stmts, 0, None, seq![], ci);
    lemma_strip_lead(cx, k, r.0);
    lemma_strip_tail(cx, k, layout::strip_lead(r.0));
    lemma_leads(cx, k, m, r.1, b.span.end as int);
}

proof fn lemma_block_contents(cx: Context, k: int, ind: nat, ci: int, b: tree::Block)
    ensures
        ({
            let r = layout::block_contents(cx, ind, ci, b);
            ci <= r.1 && (ci <= k < r.1 ==> shown::says(cx, k, r.0))
        }),
    decreases b, 2nat, 0nat,
{
    lemma_block_inner(cx, k, ind, ci, b, 1);
}

proof fn lemma_stmt_lines(ls: Seq<Seq<char>>, n: nat, margin: Seq<char>, s: Seq<char>)
    ensures
        shown::carries(s, layout::stmt_lines(ls, n, margin, s)),
        forall|j: int| 0 <= j < n ==> shown::carries(#[trigger] ls[j], layout::stmt_lines(ls, n, margin, s)),
    decreases n,
{
    if n > 0 {
        let p = layout::stmt_lines(ls, (n - 1) as nat, margin, s);
        let r = layout::stmt_lines(ls, n, margin, s);
        let l = ls[n - 1];
        lemma_stmt_lines(ls, (n - 1) as nat, margin, s);
        assert forall|x: Seq<char>| shown::is_solid(x) && #[trigger] shown::occurs(x, l) implies shown::occurs(
            x,
            r,
        ) by {
            reveal(shown::occurs);
        }
        assert forall|j: int| 0 <= j < n implies shown::carries(#[trigger] ls[j], r) by {
            if j < n - 1 {
                assert(shown::carries(ls[j], p));
            }
        }
    }
}

proof fn lemma_stmts_from(
    cx: Context,
    k: int,
    ind: nat,
    stmts: Seq<tree::Stmt>,
    i: int,
    prev: Option<int>,
    s: Seq<char>,
    ci: int,
)
    ensures
        ({
            let r = layout::stmts_from(cx, ind, stmts, i, prev, s, ci);
            ci <= r.1 && (shown::says(cx, k, s) || ci <= k < r.1 ==> shown::says(cx, k, r.0))
        }),
    decreases stmts, 1nat, stmts.len() - i,
{
    if 0 <= i < stmts.len() {
        let st = stmts[i];
        let sp = layout::stmt_span(st);
        let s = layout::keep_blank(cx, prev, sp.start as int, s);
        if layout::is_varlike(st) {
            let j = layout::group_end(cx, stmts, i + 1);
            if i < j <= stmts.len() {
                let r = layout::group_rows(cx, ind, ci, stmts, i, j);
                lemma_group_rows(cx, k, ind, ci, stmts, i, j);
                lemma_group_text(cx, k, ind, r.0);
                lemma_stmts_from(
                    cx,
                    k,
                    ind,
                    stmts,
                    j,
                    Some(layout::stmt_span(stmts[j - 1]).end as int),
                    s + layout::group_text(cx, ind, r.0),
                    r.1,
                );
            }
        } else {
            let e = layout::leads_end(cx, ci, sp.start as int);
            lemma_leads_end(cx, ci, sp.start as int);
            lemma_stmt_leads(cx, k, ind, ci, e, s);
            let s = layout::stmt_leads(cx, ind, ci, e, s);
            let r = layout::stmt_text(cx, ind, e, st);
            lemma_stmt_text(cx, k, ind, e, st);
            let ls = text::lines(r.0);
            lemma_stmt_lines(ls, ls.len(), layout::pad(cx, ind), s);
            let w = layout::stmt_lines(ls, ls.len(), layout::pad(cx, ind), s);
            shown::lemma_lines_carry(r.0, w);
            shown::lemma_says_carried(cx, k, r.0, w);
            shown::lemma_says_carried(cx, k, s, w);
            let t = layout::stmt_trailing(cx, r.1, sp.end as int, w);
            lemma_stmt_trailing(cx, k, r.1, sp.end as int, w);
            lemma_stmts_from(cx, k, ind, stmts, i + 1, Some(sp.end as int), t.0, t.1);
        }
    }
}

/// Whether comment `k` stands in a row.
spec fn row_says(cx: Context, k: int, r: Row) -> bool {
    shown::says(cx, k, r.leads) || shown::says_some(cx, k, r.init) || shown::says_some(cx, k, r.trail)
}

/// Whether comment `k` stands in one of the first `n` rows.
spec fn rows_say(cx: Context, k: int, rows: Seq<Row>, n: nat) -> bool
    decreases n,
{
    0 < n <= rows.len() && (row_says(cx, k, rows[n - 1]) || rows_say(cx, k, rows, (n - 1) as nat))
}

proof fn lemma_rows_push(cx: Context, k: int, rows: Seq<Row>, r: Row, n: nat)
    requires
        n <= rows.len(),
    ensures
        rows_say(cx, k, rows.push(r), n) == rows_say(cx, k, rows, n),
    decreases n,
{
    if n > 0 {
        lemma_rows_push(cx, k, rows, r, (n - 1) as nat);
    }
}

proof fn lemma_group_rows(cx: Context, k: int, ind: nat, ci: int, stmts: Seq<tree::Stmt>, i: int, j: int)
    ensures
        ({
            let r = layout::group_rows(cx, ind, ci, stmts, i, j);
            ci <= r.1 && (ci <= k < r.1 ==> rows_say(cx, k, r.0, r.0.len()))
        }),
    decreases stmts, 0nat, j - i,
{
    if 0 <= i < j <= stmts.len() {
        let p = layout::group_rows(cx, ind, ci, stmts, i, j - 1);
        lemma_group_rows(cx, k, ind, ci, stmts, i, j - 1);
        let r = layout::row(cx, ind, p.1, stmts[j - 1]);
        lemma_row(cx, k, ind, p.1, stmts[j - 1]);
        lemma_rows_push(cx, k, p.0, r.0, p.0.len());
        assert(p.0.push(r.0).len() - 1 == p.0.len());
    }
}

proof fn lemma_row(cx: Context, k: int, ind: nat, ci: int, st: tree::Stmt)
    ensures
        ({
            let r = layout::row(cx, ind, ci, st);
            ci <= r.1 && (ci <= k < r.1 ==> row_says(cx, k, r.0))
        }),
    decreases st, 0nat, 0nat,
{
    match st {
        tree::Stmt::VarDecl(d) => {
            let l = layout::leads(cx, ind, ci, d.span.start as int);
            lemma_leads(cx, k, ind, ci, d.span.start as int);
            match d.init {
                Some(e) => {
                    let r = layout::init_text(cx, ind, l.1, e, d.span);
                    lemma_init_text(cx, k, ind, l.1, e, d.span);
                    lemma_trailing(cx, k, r.1, d.span.end as int);
                },
                None => {
                    lemma_trailing(cx, k, l.1, d.span.end as int);
                },
            }
        },
        tree::Stmt::Const(d) => {
            let l = layout::leads(cx, ind, ci, d.span.start as int);
            lemma_leads(cx, k, ind, ci, d.span.start as int);
            let v = layout::expr_wrapped(cx, ind, l.1, d.init, 0);
            lemma_expr_wrapped(cx, k, ind, l.1, d.init, 0);
            lemma_trailing(cx, k, v.1, d.span.end as int);
        },
        _ => {},
    }
}

proof fn lemma_group_text(cx: Context, k: int, ind: nat, rows: Seq<Row>)
    ensures
        rows_say(cx, k, rows, rows.len()) ==> shown::says(cx, k, layout::group_text(cx, ind, rows)),
{
    let aligned = rows.len() >= 2;
    lemma_rows_text(
        cx,
        k,
        ind,
        rows,
        rows.len(),
        if aligned {
            layout::max_type_width(rows, rows.len())
        } else {
            0
        },
        if aligned {
            layout::max_name_width(rows, rows.len())
        } else {
            0
        },
    );
}

proof fn lemma_rows_text(
    cx: Context,
    k: int,
    ind: nat,
    rows: Seq<Row>,
    n: nat,
    ty_width: nat,
    name_width: nat,
)
    ensures
        rows_say(cx, k, rows, n) ==> shown::says(
            cx,
            k,
            layout::rows_text(cx, ind, rows, n, ty_width, name_width),
        ),
    decreases n,
{
    if 0 < n <= rows.len() {
        let r = rows[n - 1];
        lemma_rows_text(cx, k, ind, rows, (n - 1) as nat, ty_width, name_width);
        let s = layout::rows_text(cx, ind, rows, (n - 1) as nat, ty_width, name_width) + r.leads
            + layout::pad(cx, ind) + text::padded(r.ty, ty_width) + " "@;
        match r.init {
            Some(v) => {
                let head = s + text::padded(r.name, name_width) + " = "@;
                lemma_value_lines(cx, k, head, v);
                lemma_trail_inside(cx, k, layout::value_lines(head, v), r.trail);
            },
            None => {
                lemma_trail_inside(cx, k, (s + r.name).push('\n'), r.trail);
            },
        }
    }
}

/// A statement.
pub proof fn lemma_stmt_text(cx: Context, k: int, ind: nat, ci: int, st: tree::Stmt)
    ensures
        ({
            let r = layout::stmt_text(cx, ind, ci, st);
            ci <= r.1 && (ci <= k < r.1 ==> shown::says(cx, k, r.0))
        }),
    decreases st, 1nat, 0nat,
{
    match st {
        tree::Stmt::VarDecl(d) => {
            lemma_var_text(cx, k, ind, ci, d);
        },
        tree::Stmt::Const(d) => {
            lemma_const_text(cx, k, ind, ci, d);
        },
        tree::Stmt::Destructure { expr, .. } => {
            lemma_expr_wrapped(cx, k, ind, ci, expr, 0);
        },
        tree::Stmt::If { then_block, else_block, .. } => {
            let a = layout::block_inner(cx, ind, ci, then_block, 1);
            lemma_block_inner(cx, k, ind, ci, then_block, 1);
            match else_block {
                Some(eb) => {
                    lemma_block_inner(cx, k, ind, a.1, eb, 1);
                },
                None => {},
            }
        },
        tree::Stmt::While { body, .. } => {
            lemma_block_contents(cx, k, ind, ci, body);
        },
        tree::Stmt::Loop { body, .. } => {
            lemma_block_contents(cx, k, ind, ci, body);
        },
        tree::Stmt::For { body, .. } => {
            lemma_block_contents(cx, k, ind, ci, body);
        },
        tree::Stmt::Return { value, .. } => match value {
            Some(e) => {
                lemma_expr_wrapped(cx, k, ind, ci, e, 0);
            },
            None => {},
        },
        tree::Stmt::Expr { expr, .. } => {
            lemma_expr_wrapped(cx, k, ind, ci, expr, 0);
        },
        tree::Stmt::Block(b) => {
            lemma_block_contents(cx, k, ind, ci, b);
        },
        tree::Stmt::Defer { inner, .. } => match inner {
            tree::DeferInner::Block(b) => {
                lemma_block_contents(cx, k, ind, ci, b);
            },
            _ => {},
        },
        _ => {},
    }
}

} // verus!
