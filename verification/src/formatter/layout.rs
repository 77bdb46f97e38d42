//! What the formatter writes.
//!
//! Each function here says what a piece of syntax looks like at a given indentation.
//! Comments are taken in source order: a function gets the index of the next comment
//! and says, beside the text, which comment comes next after it.
use vstd::prelude::*;
use crate::formatter::comments::Note;
use crate::formatter::compact;
use crate::lexer;
use crate::source;
use crate::text;
use crate::token::Span;
use crate::tree;

verus! {

/// What the layout depends on beside the syntax tree.
pub struct Context {
    pub src: Seq<char>,
    pub notes: Seq<Note>,
    /// Width of one indentation step.
    pub step: nat,
    /// Width of a line.
    pub max: nat,
}

/// Text and the index of the next comment.
pub type Laid = (Seq<char>, int);

// ── Positions ───────────────────────────────────────────────────────────────

/// `k` steps further in.
pub open spec fn deeper(ind: nat, k: nat) -> nat {
    if ind + k <= usize::MAX {
        ind + k
    } else {
        usize::MAX as nat
    }
}

pub open spec fn pad(cx: Context, ind: nat) -> Seq<char> {
    text::spaces(ind * cx.step)
}

/// Number of line feeds in `s`.
pub open spec fn newlines(s: Seq<char>) -> nat
    decreases s.len(),
{
    if s.len() == 0 {
        0
    } else if s.last() == '\n' {
        newlines(s.drop_last()) + 1
    } else {
        newlines(s.drop_last())
    }
}

/// The line of a byte offset, counted from zero.
pub open spec fn line_of(cx: Context, pos: int) -> nat {
    newlines(cx.src.take(source::seek(cx.src, pos)))
}

/// Whether character `p` stands in comment `n`.
pub open spec fn covers(cx: Context, n: int, p: int) -> bool {
    cx.notes[n].start <= text::offset(cx.src, p) < cx.notes[n].end
}

/// Whether character `p` stands in a comment.
pub open spec fn in_note(cx: Context, p: int) -> bool {
    exists|n: int| 0 <= n < cx.notes.len() && #[trigger] covers(cx, n, p)
}

/// Whether a line that starts and ends in `i..j` holds only white space, and is no line of a
/// comment.
pub open spec fn has_blank_line(cx: Context, i: int, j: int) -> bool {
    exists|p: int, q: int|
        i <= p < q < j && #[trigger] cx.src[p] == '\n' && #[trigger] cx.src[q] == '\n' && !in_note(cx, p)
            && forall|k: int| p < k < q ==> text::is_white(#[trigger] cx.src[k])
}

/// Whether a blank line stands between two byte offsets.
pub open spec fn blank_between(cx: Context, a_end: int, b_start: int) -> bool {
    a_end < b_start && b_start <= text::byte_len(cx.src) && has_blank_line(
        cx,
        source::seek(cx.src, a_end),
        source::seek(cx.src, b_start),
    )
}

/// Whether `t` is one line, and fits on it at indentation `ind`.
pub open spec fn fits(cx: Context, ind: nat, t: Seq<char>) -> bool {
    newlines(t) == 0 && ind * cx.step + text::byte_len(t) <= cx.max
}

/// Whether a declaration head fits; its margin counts four columns a step.
pub open spec fn head_fits(cx: Context, ind: nat, t: Seq<char>) -> bool {
    ind * 4 + text::byte_len(t) <= cx.max
}

// ── Comments ────────────────────────────────────────────────────────────────

/// One line of a comment on a line of its own.
pub open spec fn note_line(s: Seq<char>, l: Seq<char>, margin: Seq<char>) -> Seq<char> {
    if text::trim(l).len() == 0 {
        s.push('\n')
    } else {
        (s + margin + text::trim_start(l)).push('\n')
    }
}

/// The first `n` lines of a comment after `s`.
pub open spec fn note_lines(ls: Seq<Seq<char>>, n: nat, margin: Seq<char>, s: Seq<char>) -> Seq<char>
    decreases n,
{
    if n == 0 {
        s
    } else {
        note_line(note_lines(ls, (n - 1) as nat, margin, s), ls[n - 1], margin)
    }
}

/// A comment on lines of its own after `s`.
pub open spec fn note_text(cx: Context, ind: nat, note: Note, s: Seq<char>) -> Seq<char> {
    let ls = text::lines(note.text);
    note_lines(ls, ls.len(), pad(cx, ind), s)
}

/// The comments `from..to` on lines of their own.
pub open spec fn lead_text(cx: Context, ind: nat, from: int, to: int) -> Seq<char>
    decreases to - from,
{
    if from < to {
        note_text(cx, ind, cx.notes[to - 1], lead_text(cx, ind, from, to - 1))
    } else {
        seq![]
    }
}

/// The first comment from `ci` on that does not start before `pos`.
pub open spec fn leads_end(cx: Context, ci: int, pos: int) -> int
    decreases cx.notes.len() - ci,
{
    if 0 <= ci < cx.notes.len() && cx.notes[ci].start < pos {
        leads_end(cx, ci + 1, pos)
    } else {
        ci
    }
}

/// The comments before `pos` on lines of their own.
pub open spec fn leads(cx: Context, ind: nat, ci: int, pos: int) -> Laid {
    let e = leads_end(cx, ci, pos);
    (lead_text(cx, ind, ci, e), e)
}

/// Whether comment `ci` follows `end` on its line.
pub open spec fn trails(cx: Context, ci: int, end: int) -> bool {
    &&& 0 <= ci < cx.notes.len()
    &&& cx.notes[ci].start >= end
    &&& line_of(cx, cx.notes[ci].start) == line_of(cx, end)
    &&& !cx.notes[ci].own_line
}

pub open spec fn trailing_from(cx: Context, ci: int, end: int, done: Option<Seq<char>>) -> (
    Option<Seq<char>>,
    int,
)
    decreases cx.notes.len() - ci,
{
    if trails(cx, ci, end) {
        let t = text::trim(cx.notes[ci].text);
        trailing_from(
            cx,
            ci + 1,
            end,
            match done {
                Some(s) => Some(s + "  "@ + t),
                None => Some(t),
            },
        )
    } else {
        (done, ci)
    }
}

/// The comments that follow `end` on its line, two spaces apart.
pub open spec fn trailing(cx: Context, ci: int, end: int) -> (Option<Seq<char>>, int) {
    trailing_from(cx, ci, end, None)
}

/// `s` with a trailing comment.
pub open spec fn with_trail(s: Seq<char>, t: Option<Seq<char>>) -> Seq<char> {
    match t {
        Some(c) => s + "  "@ + c,
        None => s,
    }
}

/// `s`, which ends with a line feed, with a trailing comment on its last line.
pub open spec fn with_trail_inside(s: Seq<char>, t: Option<Seq<char>>) -> Seq<char> {
    match t {
        Some(c) => (s.drop_last() + "  "@ + c).push('\n'),
        None => s,
    }
}

/// The text of a comment that gets lines of its own: one that shared its line with code loses the
/// white space at its end.
pub open spec fn whole(note: Note) -> Seq<char> {
    if note.own_line {
        note.text
    } else {
        text::trim(note.text)
    }
}

/// The comments `from..to` before a statement, after `s`.
pub open spec fn stmt_leads(cx: Context, ind: nat, from: int, to: int, s: Seq<char>) -> Seq<char>
    decreases to - from,
{
    if from < to {
        let s = stmt_leads(cx, ind, from, to - 1, s);
        let ls = text::lines(whole(cx.notes[to - 1]));
        note_lines(ls, ls.len(), pad(cx, ind), s)
    } else {
        s
    }
}

/// `s` with a comment on its last line.
pub open spec fn attached(s: Seq<char>, t: Seq<char>) -> Seq<char> {
    if s.len() > 0 && s.last() == '\n' {
        (s.drop_last() + "  "@ + text::trim(t)).push('\n')
    } else {
        s + "  "@ + text::trim(t)
    }
}

/// `s` with the comments that follow `end` on its line.
pub open spec fn stmt_trailing(cx: Context, ci: int, end: int, s: Seq<char>) -> Laid
    decreases cx.notes.len() - ci,
{
    if trails(cx, ci, end) {
        stmt_trailing(cx, ci + 1, end, attached(s, cx.notes[ci].text))
    } else {
        (s, ci)
    }
}

/// The comments before `pos` at the outermost level, after `s`.
pub open spec fn top_leads(cx: Context, ci: int, pos: int, s: Seq<char>) -> Laid
    decreases cx.notes.len() - ci,
{
    if 0 <= ci < cx.notes.len() && cx.notes[ci].start < pos {
        let ls = text::lines(whole(cx.notes[ci]));
        top_leads(cx, ci + 1, pos, stripped_lines(ls, ls.len(), s))
    } else {
        (s, ci)
    }
}

/// The first `n` lines of a comment at the outermost level, after `s`.
pub open spec fn stripped_lines(ls: Seq<Seq<char>>, n: nat, s: Seq<char>) -> Seq<char>
    decreases n,
{
    if n == 0 {
        s
    } else {
        note_line(stripped_lines(ls, (n - 1) as nat, s), text::trim_end(ls[n - 1]), seq![])
    }
}

/// `s` with the comments on the line of `end` on its last line.
pub open spec fn top_trailing(cx: Context, ci: int, end: int, s: Seq<char>) -> Laid
    decreases cx.notes.len() - ci,
{
    if 0 <= ci < cx.notes.len() && line_of(cx, cx.notes[ci].start) == line_of(cx, end)
        && !cx.notes[ci].own_line {
        top_trailing(cx, ci + 1, end, attached(s, cx.notes[ci].text))
    } else {
        (s, ci)
    }
}

// ── Omitted types ───────────────────────────────────────────────────────────

/// The first `=` of `s` in `i..end`.
pub open spec fn find_eq(s: Seq<char>, i: int, end: int) -> Option<int>
    decreases end - i,
{
    if 0 <= i < end {
        if s[i] == '=' {
            Some(i)
        } else {
            find_eq(s, i + 1, end)
        }
    } else {
        None
    }
}

/// The first index in `i..end` that is neither white space nor in a comment.
pub open spec fn skip_trivia(s: Seq<char>, i: int, end: int) -> int
    decreases end - i,
{
    if 0 <= i < end {
        let c = s[i];
        if c == ' ' || c == '\t' || c == '\n' || c == '\r' {
            skip_trivia(s, i + 1, end)
        } else if c == '/' && i + 1 < end && s[i + 1] == '/' {
            let k = text::line_end(s, i);
            if i < k < end {
                skip_trivia(s, k, end)
            } else {
                end
            }
        } else if c == '/' && i + 1 < end && s[i + 1] == '*' {
            match lexer::comment_end(s, i + 2) {
                Some(k) => if i < k < end {
                    skip_trivia(s, k, end)
                } else {
                    end
                },
                None => end,
            }
        } else {
            i
        }
    } else {
        i
    }
}

/// Whether the initializer of the variable at `span` is a literal without its type
/// (`User u = has .. end`).
pub open spec fn omits_type(cx: Context, span: Span) -> bool {
    let a = source::seek(cx.src, span.start as int);
    let b = source::seek(cx.src, span.end as int);
    match find_eq(cx.src, a, b) {
        Some(p) => {
            let i = skip_trivia(cx.src, p + 1, b);
            i + 3 <= b && text::has_at(cx.src, i, "has"@) && (i + 3 == b || !(text::is_alphanumeric(
                cx.src[i + 3],
            ) || cx.src[i + 3] == '_'))
        },
        None => false,
    }
}

// ── Expressions ─────────────────────────────────────────────────────────────

/// Literals with fields and `match` take several lines even where one would do.
pub open spec fn always_expanded(k: tree::ExprKind) -> bool {
    k is MapLit || k is StructLit || k is Match
}

/// An expression: on one line where it fits, else broken by its structure.
pub open spec fn expr_wrapped(cx: Context, ind: nat, ci: int, e: tree::Expr, extra: nat) -> Laid
    decreases e, 2nat, 0nat,
{
    let m = deeper(ind, extra);
    let c = compact::expr_line(cx, m, e);
    if fits(cx, m, c) && !always_expanded(e.kind) {
        (c, ci)
    } else {
        match e.kind {
            tree::ExprKind::Call { callee, type_args, args } => call_wrapped(
                cx,
                ind,
                ci,
                callee + compact::type_args_text(type_args),
                args,
            ),
            tree::ExprKind::MethodCall { object, method, args } => call_wrapped(
                cx,
                ind,
                ci,
                compact::expr_line(cx, ind, *object) + "."@ + method,
                args,
            ),
            tree::ExprKind::ArrayLit(es) => (array_wrapped(cx, ind, es), ci),
            tree::ExprKind::MapLit { ty, entries } => map_wrapped(
                cx,
                ind,
                ci,
                literal_prefix(ty),
                entries,
                e.span.end as int,
            ),
            tree::ExprKind::StructLit { ty, fields } => struct_wrapped(
                cx,
                ind,
                ci,
                literal_prefix(ty),
                fields,
                e.span.end as int,
            ),
            tree::ExprKind::Match(x) => match_wrapped(cx, ind, ci, *x),
            tree::ExprKind::Closure { params, body } => match *body {
                tree::ClosureBody::Block(b) => {
                    let s = "|"@ + compact::params_text(params, params.len()) + "| do\n"@;
                    let r = block_inner(cx, m, ci, b, 1);
                    (s + r.0 + pad(cx, m) + "end"@, r.1)
                },
                tree::ClosureBody::Value(_) => (c, ci),
            },
            _ => (c, ci),
        }
    }
}

/// A call with one argument on each line.
pub open spec fn call_wrapped(
    cx: Context,
    ind: nat,
    ci: int,
    head: Seq<char>,
    args: Seq<tree::CallArg>,
) -> Laid
    decreases args, 1nat, 0nat,
{
    if args.len() == 0 {
        (head + "()"@, ci)
    } else {
        let r = arg_lines(cx, ind, ci, args, args.len(), head + "(\n"@);
        (r.0 + pad(cx, ind) + ")"@, r.1)
    }
}

pub open spec fn arg_lines(
    cx: Context,
    ind: nat,
    ci: int,
    args: Seq<tree::CallArg>,
    n: nat,
    s: Seq<char>,
) -> Laid
    decreases args, 0nat, n,
{
    if 0 < n <= args.len() {
        let p = arg_lines(cx, ind, ci, args, (n - 1) as nat, s);
        let r = match args[n - 1] {
            tree::CallArg::Value(x) => expr_wrapped(cx, ind, p.1, x, 1),
            a => (compact::arg_line(cx, deeper(ind, 1), a), p.1),
        };
        let s = p.0 + pad(cx, deeper(ind, 1)) + r.0;
        let s = if n < args.len() {
            s + ","@
        } else {
            s
        };
        (s.push('\n'), r.1)
    } else {
        (s, ci)
    }
}

/// An array literal with one element on each line, where one line does not do.
pub open spec fn array_wrapped(cx: Context, ind: nat, es: Seq<tree::Expr>) -> Seq<char>
    decreases es, 2nat, 0nat,
{
    let c = "["@ + compact::exprs_line(cx, ind, es) + "]"@;
    if es.len() == 0 {
        "[]"@
    } else if fits(cx, ind, c) {
        c
    } else {
        element_lines(cx, ind, es, es.len()) + pad(cx, ind) + "]"@
    }
}

pub open spec fn element_lines(cx: Context, ind: nat, es: Seq<tree::Expr>, n: nat) -> Seq<char>
    decreases es, 0nat, n,
{
    if 0 < n <= es.len() {
        element_lines(cx, ind, es, (n - 1) as nat) + pad(cx, deeper(ind, 1)) + compact::expr_line(
            cx,
            deeper(ind, 1),
            es[n - 1],
        ) + ",\n"@
    } else {
        "[\n"@
    }
}

/// What stands before `has` in a literal.
pub open spec fn literal_prefix(ty: tree::Type) -> Seq<char> {
    compact::type_text(ty) + " "@
}

pub open spec fn map_wrapped(
    cx: Context,
    ind: nat,
    ci: int,
    prefix: Seq<char>,
    entries: Seq<tree::MapEntry>,
    end: int,
) -> Laid
    decreases entries, 1nat, 0nat,
{
    let r = entry_lines(cx, ind, ci, entries, entries.len(), prefix + "has\n"@);
    let t = leads(cx, deeper(ind, 1), r.1, end);
    (r.0 + t.0 + pad(cx, ind) + "end"@, t.1)
}

pub open spec fn entry_lines(
    cx: Context,
    ind: nat,
    ci: int,
    entries: Seq<tree::MapEntry>,
    n: nat,
    s: Seq<char>,
) -> Laid
    decreases entries, 0nat, n,
{
    if 0 < n <= entries.len() {
        let p = entry_lines(cx, ind, ci, entries, (n - 1) as nat, s);
        let e = entries[n - 1];
        let l = leads(cx, deeper(ind, 1), p.1, e.key.span.start as int);
        let s = p.0 + l.0 + pad(cx, deeper(ind, 1)) + compact::expr_line(cx, deeper(ind, 1), e.key) + ": "@
            + compact::expr_line(cx, deeper(ind, 1), e.value);
        let t = trailing(cx, l.1, e.value.span.end as int);
        (with_trail(s, t.0).push('\n'), t.1)
    } else {
        (s, ci)
    }
}

/// The first line of `ls`, or nothing.
pub open spec fn first_line(ls: Seq<Seq<char>>) -> Seq<char> {
    if ls.len() > 0 {
        ls[0]
    } else {
        ""@
    }
}

/// Lines `1..n` of `ls` after `s`.
pub open spec fn more_lines(ls: Seq<Seq<char>>, n: int, s: Seq<char>) -> Seq<char>
    decreases n,
{
    if n > 1 {
        (more_lines(ls, n - 1, s) + ls[n - 1]).push('\n')
    } else {
        s
    }
}

/// A value after `s`: its first line ends the line of `s`, the others stand as they are.
pub open spec fn value_lines(s: Seq<char>, value: Seq<char>) -> Seq<char> {
    let ls = text::lines(value);
    more_lines(ls, ls.len() as int, (s + first_line(ls)).push('\n'))
}

pub open spec fn struct_wrapped(
    cx: Context,
    ind: nat,
    ci: int,
    prefix: Seq<char>,
    fields: Seq<tree::FieldInit>,
    end: int,
) -> Laid
    decreases fields, 1nat, 0nat,
{
    let r = init_lines(cx, ind, ci, fields, fields.len(), prefix + "has\n"@);
    let t = leads(cx, deeper(ind, 1), r.1, end);
    (r.0 + t.0 + pad(cx, ind) + "end"@, t.1)
}

pub open spec fn init_lines(
    cx: Context,
    ind: nat,
    ci: int,
    fields: Seq<tree::FieldInit>,
    n: nat,
    s: Seq<char>,
) -> Laid
    decreases fields, 0nat, n,
{
    if 0 < n <= fields.len() {
        let p = init_lines(cx, ind, ci, fields, (n - 1) as nat, s);
        let f = fields[n - 1];
        let l = leads(cx, deeper(ind, 1), p.1, f.span.start as int);
        let v = expr_wrapped(cx, deeper(ind, 1), l.1, f.value, 0);
        let s = value_lines(p.0 + l.0 + pad(cx, deeper(ind, 1)) + f.name + " = "@, v.0);
        let t = trailing(cx, v.1, f.value.span.end as int);
        (with_trail_inside(s, t.0), t.1)
    } else {
        (s, ci)
    }
}

pub open spec fn match_wrapped(cx: Context, ind: nat, ci: int, m: tree::MatchExpr) -> Laid
    decreases m, 1nat, 0nat,
{
    let s = "match "@ + compact::expr_line(cx, ind, m.scrutinee) + " do\n"@;
    let r = arm_lines(cx, ind, ci, m.arms, m.arms.len(), s);
    let t = leads(cx, deeper(ind, 1), r.1, m.span.end as int);
    (r.0 + t.0 + pad(cx, ind) + "end"@, t.1)
}

pub open spec fn arm_lines(
    cx: Context,
    ind: nat,
    ci: int,
    arms: Seq<tree::MatchArm>,
    n: nat,
    s: Seq<char>,
) -> Laid
    decreases arms, 0nat, n,
{
    if 0 < n <= arms.len() {
        let p = arm_lines(cx, ind, ci, arms, (n - 1) as nat, s);
        let a = arms[n - 1];
        let l = leads(cx, deeper(ind, 1), p.1, a.span.start as int);
        let s = p.0 + l.0 + pad(cx, deeper(ind, 1)) + compact::arm_head_line(cx, deeper(ind, 1), a);
        match a.body {
            tree::ArmBody::Value(x) => {
                let s = s + " -> "@ + compact::expr_line(cx, deeper(ind, 1), x);
                let t = trailing(cx, l.1, a.span.end as int);
                (with_trail(s, t.0).push('\n'), t.1)
            },
            tree::ArmBody::Block(b) => {
                let r = block_inner(cx, deeper(ind, 1), l.1, b, 1);
                (s + " -> do\n"@ + r.0 + "\n"@ + pad(cx, deeper(ind, 1)) + "end\n"@, r.1)
            },
        }
    } else {
        (s, ci)
    }
}

/// The initializer of a variable; a literal without its type stays without it.
pub open spec fn init_text(cx: Context, ind: nat, ci: int, e: tree::Expr, span: Span) -> Laid
    decreases e, 3nat, 0nat,
{
    if omits_type(cx, span) && e.kind is StructLit {
        struct_wrapped(cx, ind, ci, seq![], e.kind->StructLit_fields, e.span.end as int)
    } else if omits_type(cx, span) && e.kind is MapLit {
        map_wrapped(cx, ind, ci, seq![], e.kind->MapLit_entries, e.span.end as int)
    } else {
        expr_wrapped(cx, ind, ci, e, 0)
    }
}

// ── Declarations of values ──────────────────────────────────────────────────

pub open spec fn var_text(cx: Context, ind: nat, ci: int, d: tree::VarDecl) -> Laid
    decreases d, 0nat, 0nat,
{
    let s = compact::vis_text(d.visibility) + compact::type_text(d.ty) + " "@ + d.name;
    match d.init {
        Some(e) => {
            let r = init_text(cx, ind, ci, e, d.span);
            (s + " = "@ + r.0, r.1)
        },
        None => (s, ci),
    }
}

pub open spec fn const_text(cx: Context, ind: nat, ci: int, d: tree::ConstDecl) -> Laid
    decreases d, 0nat, 0nat,
{
    let s = compact::vis_text(d.visibility) + "const "@;
    let s = match d.ty {
        Some(t) => s + compact::type_text(t) + " "@,
        None => s,
    };
    let r = expr_wrapped(cx, ind, ci, d.init, 0);
    (s + d.name + " = "@ + r.0, r.1)
}

// ── Statements ──────────────────────────────────────────────────────────────

pub open spec fn stmt_span(st: tree::Stmt) -> Span {
    match st {
        tree::Stmt::VarDecl(d) => d.span,
        tree::Stmt::Const(d) => d.span,
        tree::Stmt::Destructure { span, .. } => span,
        tree::Stmt::Assert { span, .. } => span,
        tree::Stmt::If { span, .. } => span,
        tree::Stmt::While { span, .. } => span,
        tree::Stmt::Loop { span, .. } => span,
        tree::Stmt::For { span, .. } => span,
        tree::Stmt::Return { span, .. } => span,
        tree::Stmt::Expr { span, .. } => span,
        tree::Stmt::Block(b) => b.span,
        tree::Stmt::Break { span, .. } => span,
        tree::Stmt::Continue { span, .. } => span,
        tree::Stmt::Defer { span, .. } => span,
    }
}

/// The statements of a block.
pub open spec fn block_inner(cx: Context, ind: nat, ci: int, b: tree::Block, rel: nat) -> Laid
    decreases b, 1nat, 0nat,
{
    let r = stmts_from(cx, deeper(ind, rel), b.stmts, 0, None, seq![], ci);
    let t = leads(cx, deeper(ind, rel), r.1, b.span.end as int);
    (strip_tail(strip_lead(r.0)) + t.0, t.1)
}

/// The statements of a block and the margin of its `end`.
pub open spec fn block_contents(cx: Context, ind: nat, ci: int, b: tree::Block) -> Laid
    decreases b, 2nat, 0nat,
{
    let r = block_inner(cx, ind, ci, b, 1);
    (r.0 + pad(cx, ind), r.1)
}

/// `s` without line feeds at its start.
pub open spec fn strip_lead(s: Seq<char>) -> Seq<char>
    decreases s.len(),
{
    if s.len() > 0 && s[0] == '\n' {
        strip_lead(s.drop_first())
    } else {
        s
    }
}

/// `s` without blank lines at its end.
pub open spec fn strip_tail(s: Seq<char>) -> Seq<char>
    decreases s.len(),
{
    if s.len() > 1 && s.last() == '\n' && s[s.len() - 2] == '\n' {
        strip_tail(s.drop_last())
    } else {
        s
    }
}

pub open spec fn is_varlike(st: tree::Stmt) -> bool {
    st is VarDecl || st is Const
}

/// The end of the run of declarations that goes on at `j`: a blank line ends it.
pub open spec fn group_end(cx: Context, stmts: Seq<tree::Stmt>, j: int) -> int
    decreases stmts.len() - j,
{
    if 0 < j < stmts.len() && is_varlike(stmts[j]) && !blank_between(
        cx,
        stmt_span(stmts[j - 1]).end as int,
        stmt_span(stmts[j]).start as int,
    ) {
        group_end(cx, stmts, j + 1)
    } else {
        j
    }
}

/// `s` with the blank line that the source has after `prev`.
pub open spec fn keep_blank(cx: Context, prev: Option<int>, start: int, s: Seq<char>) -> Seq<char> {
    match prev {
        Some(p) => if blank_between(cx, p, start) && s.len() > 0 {
            s.push('\n')
        } else {
            s
        },
        None => s,
    }
}

/// The first `n` lines of a statement after `s`; only the first needs a margin.
pub open spec fn stmt_lines(ls: Seq<Seq<char>>, n: nat, margin: Seq<char>, s: Seq<char>) -> Seq<char>
    decreases n,
{
    if n == 0 {
        s
    } else {
        let p = stmt_lines(ls, (n - 1) as nat, margin, s);
        let l = ls[n - 1];
        if l.len() == 0 {
            p.push('\n')
        } else if n == 1 {
            (p + margin + l).push('\n')
        } else {
            (p + l).push('\n')
        }
    }
}

/// Statements from `i` on, after `s`; `prev` is the end of the one before.
pub open spec fn stmts_from(
    cx: Context,
    ind: nat,
    stmts: Seq<tree::Stmt>,
    i: int,
    prev: Option<int>,
    s: Seq<char>,
    ci: int,
) -> Laid
    decreases stmts, 1nat, stmts.len() - i,
{
    if 0 <= i < stmts.len() {
        let st = stmts[i];
        let sp = stmt_span(st);
        let s = keep_blank(cx, prev, sp.start as int, s);
        if is_varlike(st) {
            let j = group_end(cx, stmts, i + 1);
            if i < j <= stmts.len() {
                let r = group_rows(cx, ind, ci, stmts, i, j);
                stmts_from(
                    cx,
                    ind,
                    stmts,
                    j,
                    Some(stmt_span(stmts[j - 1]).end as int),
                    s + group_text(cx, ind, r.0),
                    r.1,
                )
            } else {
                (s, ci)
            }
        } else {
            let e = leads_end(cx, ci, sp.start as int);
            let s = stmt_leads(cx, ind, ci, e, s);
            let r = stmt_text(cx, ind, e, st);
            let ls = text::lines(r.0);
            let s = stmt_lines(ls, ls.len(), pad(cx, ind), s);
            let t = stmt_trailing(cx, r.1, sp.end as int, s);
            stmts_from(cx, ind, stmts, i + 1, Some(sp.end as int), t.0, t.1)
        }
    } else {
        (s, ci)
    }
}

/// A declaration in a group, before it is aligned.
pub struct Row {
    pub ty: Seq<char>,
    pub name: Seq<char>,
    pub init: Option<Seq<char>>,
    /// The comments before it.
    pub leads: Seq<char>,
    pub trail: Option<Seq<char>>,
}

/// The rows of the declarations `i..j`.
pub open spec fn group_rows(
    cx: Context,
    ind: nat,
    ci: int,
    stmts: Seq<tree::Stmt>,
    i: int,
    j: int,
) -> (Seq<Row>, int)
    decreases stmts, 0nat, j - i,
{
    if 0 <= i < j <= stmts.len() {
        let p = group_rows(cx, ind, ci, stmts, i, j - 1);
        let r = row(cx, ind, p.1, stmts[j - 1]);
        (p.0.push(r.0), r.1)
    } else {
        (seq![], ci)
    }
}

pub open spec fn row(cx: Context, ind: nat, ci: int, st: tree::Stmt) -> (Row, int)
    decreases st, 0nat, 0nat,
{
    match st {
        tree::Stmt::VarDecl(d) => {
            let l = leads(cx, ind, ci, d.span.start as int);
            let v: (Option<Seq<char>>, int) = match d.init {
                Some(e) => {
                    let r = init_text(cx, ind, l.1, e, d.span);
                    (Some(r.0), r.1)
                },
                None => (None, l.1),
            };
            let t = trailing(cx, v.1, d.span.end as int);
            (
                Row {
                    ty: compact::vis_text(d.visibility) + compact::type_text(d.ty),
                    name: d.name,
                    init: v.0,
                    leads: l.0,
                    trail: t.0,
                },
                t.1,
            )
        },
        tree::Stmt::Const(d) => {
            let l = leads(cx, ind, ci, d.span.start as int);
            let v = expr_wrapped(cx, ind, l.1, d.init, 0);
            let t = trailing(cx, v.1, d.span.end as int);
            let ty = compact::vis_text(d.visibility) + "const "@;
            let ty = match d.ty {
                Some(x) => ty + compact::type_text(x) + " "@,
                None => ty,
            };
            (
                Row {
                    ty: text::trim_end(ty),
                    name: d.name,
                    init: Some(v.0),
                    leads: l.0,
                    trail: t.0,
                },
                t.1,
            )
        },
        _ => (Row { ty: seq![], name: seq![], init: None, leads: seq![], trail: None }, ci),
    }
}

/// The width of the widest type of the first `n` rows.
pub open spec fn max_type_width(rows: Seq<Row>, n: nat) -> nat
    decreases n,
{
    if n == 0 {
        0
    } else {
        max(max_type_width(rows, (n - 1) as nat), text::byte_len(rows[n - 1].ty))
    }
}

pub open spec fn max_name_width(rows: Seq<Row>, n: nat) -> nat
    decreases n,
{
    if n == 0 {
        0
    } else {
        max(max_name_width(rows, (n - 1) as nat), text::byte_len(rows[n - 1].name))
    }
}

pub open spec fn max(a: nat, b: nat) -> nat {
    if a >= b {
        a
    } else {
        b
    }
}

/// A group of declarations: two or more have their types and names in columns.
pub open spec fn group_text(cx: Context, ind: nat, rows: Seq<Row>) -> Seq<char> {
    let aligned = rows.len() >= 2;
    rows_text(
        cx,
        ind,
        rows,
        rows.len(),
        if aligned {
            max_type_width(rows, rows.len())
        } else {
            0
        },
        if aligned {
            max_name_width(rows, rows.len())
        } else {
            0
        },
    )
}

/// The first `n` rows, with columns `ty_width` and `name_width` wide.
pub open spec fn rows_text(
    cx: Context,
    ind: nat,
    rows: Seq<Row>,
    n: nat,
    ty_width: nat,
    name_width: nat,
) -> Seq<char>
    decreases n,
{
    if 0 < n <= rows.len() {
        let r = rows[n - 1];
        let s = rows_text(cx, ind, rows, (n - 1) as nat, ty_width, name_width) + r.leads + pad(
            cx,
            ind,
        ) + text::padded(r.ty, ty_width) + " "@;
        let s = match r.init {
            Some(v) => value_lines(s + text::padded(r.name, name_width) + " = "@, v),
            None => (s + r.name).push('\n'),
        };
        with_trail_inside(s, r.trail)
    } else {
        seq![]
    }
}

/// A label and its colon, where there is one.
pub open spec fn label_text(l: Option<Seq<char>>) -> Seq<char> {
    match l {
        Some(n) => n + ": "@,
        None => seq![],
    }
}

pub open spec fn target_text(t: tree::Target) -> Seq<char> {
    match t {
        tree::Target::Name(n) => n,
        tree::Target::Wildcard => "_"@,
    }
}

pub open spec fn targets_text(ts: Seq<tree::Target>, n: nat) -> Seq<char>
    decreases n,
{
    if 0 < n <= ts.len() {
        compact::separated(targets_text(ts, (n - 1) as nat), n - 1, ", "@) + target_text(ts[n - 1])
    } else {
        seq![]
    }
}

/// `break` or `continue`, with its label where it has one.
pub open spec fn jump_text(word: Seq<char>, label: Option<Seq<char>>) -> Seq<char> {
    match label {
        Some(l) => word + " "@ + l,
        None => word,
    }
}

/// A statement; its first line has no margin.
pub open spec fn stmt_text(cx: Context, ind: nat, ci: int, st: tree::Stmt) -> Laid
    decreases st, 1nat, 0nat,
{
    match st {
        tree::Stmt::VarDecl(d) => var_text(cx, ind, ci, d),
        tree::Stmt::Const(d) => const_text(cx, ind, ci, d),
        tree::Stmt::Destructure { targets, expr, .. } => {
            let r = expr_wrapped(cx, ind, ci, expr, 0);
            (targets_text(targets, targets.len()) + " = "@ + r.0, r.1)
        },
        tree::Stmt::Assert { is_debug, cond, message, .. } => {
            let s = if is_debug {
                "debug_assert "@
            } else {
                "assert "@
            };
            let s = s + compact::expr_line(cx, ind, cond);
            match message {
                Some(m) => (s + ", "@ + compact::expr_line(cx, ind, m), ci),
                None => (s, ci),
            }
        },
        tree::Stmt::If { cond, then_block, else_block, .. } => {
            let a = block_inner(cx, ind, ci, then_block, 1);
            let s = "if "@ + compact::expr_line(cx, ind, cond) + " do\n"@ + a.0 + pad(cx, ind) + "end"@;
            match else_block {
                Some(eb) => {
                    let b = block_inner(cx, ind, a.1, eb, 1);
                    (
                        s + "\n"@ + pad(cx, ind) + "else do\n"@ + b.0 + pad(cx, ind) + "end"@,
                        b.1,
                    )
                },
                None => (s, a.1),
            }
        },
        tree::Stmt::While { cond, body, .. } => {
            let r = block_contents(cx, ind, ci, body);
            ("while "@ + compact::expr_line(cx, ind, cond) + " do\n"@ + r.0 + "end"@, r.1)
        },
        tree::Stmt::Loop { label, body, .. } => {
            let r = block_contents(cx, ind, ci, body);
            (label_text(label) + "loop do\n"@ + r.0 + "end"@, r.1)
        },
        tree::Stmt::For { label, var, var2, iter, body, .. } => {
            let s = label_text(label) + "for "@ + var;
            let s = match var2 {
                Some(v) => s + ", "@ + v,
                None => s,
            };
            let r = block_contents(cx, ind, ci, body);
            (s + " in "@ + compact::expr_line(cx, ind, iter) + " do\n"@ + r.0 + "end"@, r.1)
        },
        tree::Stmt::Return { value, .. } => match value {
            Some(e) => {
                let r = expr_wrapped(cx, ind, ci, e, 0);
                ("return "@ + r.0, r.1)
            },
            None => ("return"@, ci),
        },
        tree::Stmt::Expr { expr, .. } => expr_wrapped(cx, ind, ci, expr, 0),
        tree::Stmt::Block(b) => {
            let r = block_contents(cx, ind, ci, b);
            ("do\n"@ + r.0 + "end"@, r.1)
        },
        tree::Stmt::Break { label, .. } => (jump_text("break"@, label), ci),
        tree::Stmt::Continue { label, .. } => (jump_text("continue"@, label), ci),
        tree::Stmt::Defer { inner, .. } => match inner {
            tree::DeferInner::Value(e) => ("defer "@ + compact::expr_line(cx, ind, e), ci),
            tree::DeferInner::Block(b) => {
                let r = block_contents(cx, ind, ci, b);
                ("defer do\n"@ + r.0 + "end"@, r.1)
            },
        },
    }
}

} // verus!
