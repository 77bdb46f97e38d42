//! The formatter: expressions, statements and blocks.
use vstd::prelude::*;
use crate::ast;
use crate::ast::{
    ArmBody, Block, CallArg, ClosureBody, ConstDecl, DeferInner, Expr, ExprKind, FieldInit, MapEntry,
    MatchExpr, Stmt, Target, Type, VarDecl,
};
use crate::formatter::comments;
use crate::formatter::comments::Comment;
use crate::formatter::compact::{
    fmt_arg_line, fmt_arm_head_line, fmt_exprs_line, fmt_line, fmt_params, fmt_type, fmt_type_args, vis_prefix,
};
use crate::formatter::layout;
use crate::lexer;
use crate::source;
use crate::source::Source;
use crate::text;
use crate::text::{chars_of, push_margin, push_str, push_text};
use crate::token::Span;
use crate::tree;

verus! {

broadcast use ast::group_lists;

/// Line and margin widths.
#[derive(Debug, Clone, Copy)]
pub struct FormatOptions {
    pub max_width: usize,
    pub indent_width: usize,
}

impl Default for FormatOptions {
    fn default() -> (r: Self)
        ensures
            r.max_width == 100,
            r.indent_width == 4,
    {
        FormatOptions { max_width: 100, indent_width: 4 }
    }
}

/// A source with its comments, ready to be laid out.
///
/// The index of the next comment is passed along by the methods, because each of them
/// writes the comments that stand before and inside what it lays out.
pub struct Formatter<'a> {
    pub source: &'a Source,
    /// The line of each character, and of the end.
    pub rows: Vec<usize>,
    pub comments: Vec<Comment>,
    pub opts: FormatOptions,
}

impl<'a> View for Formatter<'a> {
    type V = layout::Context;

    open spec fn view(&self) -> layout::Context {
        layout::Context {
            src: self.source@,
            notes: comments::notes_of(self.comments@),
            step: self.opts.indent_width as nat,
            max: self.opts.max_width as nat,
        }
    }
}

/// A declaration of a group, before it is aligned.
pub struct Row {
    pub ty: Vec<char>,
    pub name: Vec<char>,
    pub init: Option<Vec<char>>,
    pub leads: Vec<char>,
    pub trail: Option<Vec<char>>,
}

/// The text that a value holds, where there is one.
pub open spec fn text_of(v: Option<Vec<char>>) -> Option<Seq<char>> {
    match v {
        Some(t) => Some(t@),
        None => None,
    }
}

impl View for Row {
    type V = layout::Row;

    open spec fn view(&self) -> layout::Row {
        layout::Row {
            ty: self.ty@,
            name: self.name@,
            init: text_of(self.init),
            leads: self.leads@,
            trail: text_of(self.trail),
        }
    }
}

pub open spec fn rows_of(v: Seq<Row>) -> Seq<layout::Row> {
    Seq::new(v.len(), |i: int| v[i]@)
}

/// `k` steps further in.
pub fn deeper(ind: usize, k: usize) -> (r: usize)
    ensures
        r == layout::deeper(ind as nat, k as nat),
{
    if k <= usize::MAX - ind {
        ind + k
    } else {
        usize::MAX
    }
}

/// Appends a trailing comment after two spaces.
pub fn push_trail(s: &mut Vec<char>, t: &Option<Vec<char>>)
    ensures
        final(s)@ == layout::with_trail(old(s)@, text_of(*t)),
{
    if let Some(c) = t {
        push_str(s, "  ");
        push_text(s, c);
    }
}

/// Appends a trailing comment to the last line, which is already ended.
pub fn push_trail_inside(s: &mut Vec<char>, t: &Option<Vec<char>>)
    requires
        old(s)@.len() > 0,
    ensures
        final(s)@ == layout::with_trail_inside(old(s)@, text_of(*t)),
{
    if let Some(c) = t {
        s.pop();
        push_str(s, "  ");
        push_text(s, c);
        s.push('\n');
    }
}

/// Appends a value of one or more lines.
pub fn push_value(s: &mut Vec<char>, value: &Vec<char>)
    ensures
        final(s)@ == layout::value_lines(old(s)@, value@),
        final(s)@.len() > 0,
{
    let ls = text::split_lines(value);
    assert(text::texts(ls@).len() == ls@.len());
    if ls.len() > 0 {
        push_text(s, &ls[0]);
    } else {
        push_str(s, "");
    }
    s.push('\n');
    let ghost base = s@;
    let mut i: usize = 1;
    while i < ls.len()
        invariant
            1 <= i,
            i <= ls@.len() || i == 1,
            text::texts(ls@).len() == ls@.len(),
            s@ == layout::more_lines(text::texts(ls@), i as int, base),
            s@.len() > 0,
        decreases ls.len() - i,
    {
        push_text(s, &ls[i]);
        s.push('\n');
        i = i + 1;
    }
    assert(layout::more_lines(text::texts(ls@), ls@.len() as int, base) == s@);
}

/// Whether a text is one line.
fn has_no_newline(t: &Vec<char>) -> (r: bool)
    ensures
        r == (layout::newlines(t@) == 0),
{
    let mut i: usize = 0;
    assert(t@.take(0) =~= seq![]);
    while i < t.len()
        invariant
            i <= t.len(),
            layout::newlines(t@.take(i as int)) == 0,
        decreases t.len() - i,
    {
        assert(t@.take(i + 1).drop_last() =~= t@.take(i as int));
        if t[i] == '\n' {
            proof {
                lemma_newlines(t@, i + 1);
            }
            return false;
        }
        i = i + 1;
    }
    assert(t@.take(i as int) =~= t@);
    true
}

proof fn lemma_newlines(t: Seq<char>, i: int)
    requires
        0 <= i <= t.len(),
    ensures
        layout::newlines(t.take(i)) <= layout::newlines(t),
    decreases t.len(),
{
    if i < t.len() {
        assert(t.drop_last().take(i) =~= t.take(i));
        lemma_newlines(t.drop_last(), i);
    } else {
        assert(t.take(i) =~= t);
    }
}

impl<'a> Formatter<'a> {
    pub open spec fn wf(&self) -> bool {
        &&& self.source.wf()
        &&& self.rows@.len() == self.source@.len() + 1
        &&& forall|k: int|
            0 <= k <= self.source@.len() ==> #[trigger] self.rows@[k] == layout::newlines(
                self.source@.take(k),
            )
    }

    pub fn new(source: &'a Source, comments: Vec<Comment>, opts: FormatOptions) -> (r: Formatter<'a>)
        requires
            source.wf(),
        ensures
            r.wf(),
            r@ == (layout::Context {
                src: source@,
                notes: comments::notes_of(comments@),
                step: opts.indent_width as nat,
                max: opts.max_width as nat,
            }),
    {
        let mut rows: Vec<usize> = Vec::new();
        rows.push(0);
        let mut n: usize = 0;
        let mut i: usize = 0;
        while i < source.chars.len()
            invariant
                source.wf(),
                i <= source@.len(),
                n <= i,
                n == layout::newlines(source@.take(i as int)),
                rows@.len() == i + 1,
                forall|k: int|
                    0 <= k <= i ==> #[trigger] rows@[k] == layout::newlines(source@.take(k)),
            decreases source@.len() - i,
        {
            assert(source@.take(i + 1).drop_last() =~= source@.take(i as int));
            if source.chars[i] == '\n' {
                n = n + 1;
            }
            rows.push(n);
            i = i + 1;
        }
        Formatter { source, rows, comments, opts }
    }

    /// The line of a byte offset.
    pub fn line_of(&self, pos: usize) -> (n: usize)
        requires
            self.wf(),
        ensures
            n == layout::line_of(self@, pos as int),
    {
        let i = self.source.index_at(pos);
        self.rows[i]
    }

    /// Appends the margin of indentation `ind`.
    pub fn push_pad(&self, s: &mut Vec<char>, ind: usize)
        ensures
            final(s)@ == old(s)@ + layout::pad(self@, ind as nat),
    {
        push_margin(s, ind, self.opts.indent_width);
    }

    /// Whether the source has a blank line between two byte offsets.
    pub fn has_blank_between(&self, a_end: usize, b_start: usize) -> (r: bool)
        requires
            self.wf(),
        ensures
            r == layout::blank_between(self@, a_end as int, b_start as int),
    {
        if a_end >= b_start || b_start > self.source.size() {
            return false;
        }
        let i = self.source.index_at(a_end);
        let j = self.source.index_at(b_start);
        let ghost src = self.source@;
        let ghost cx = self@;
        let mut open = false;
        let mut k: usize = i;
        while k < j
            invariant
                self.wf(),
                src == self.source@,
                cx == self@,
                cx.src == src,
                i == source::seek(src, a_end as int),
                j == source::seek(src, b_start as int),
                a_end < b_start <= text::byte_len(src),
                i <= k,
                k <= j || k == i,
                j <= src.len(),
                !layout::has_blank_line(cx, i as int, k as int),
                open == exists|p: int|
                    i <= p < k && #[trigger] src[p] == '\n' && !layout::in_note(cx, p) && forall|x: int|
                        p < x < k ==> text::is_white(#[trigger] src[x]),
            decreases j - k,
        {
            let c = self.source.chars[k];
            assert(c == src[k as int]);
            if c == '\n' {
                if open {
                    proof {
                        let p = choose|p: int|
                            i <= p < k && #[trigger] src[p] == '\n' && !layout::in_note(cx, p) && forall|x: int|
                                p < x < k ==> text::is_white(#[trigger] src[x]);
                        assert(src[p] == '\n' && src[k as int] == '\n');
                        assert(layout::has_blank_line(cx, i as int, j as int));
                    }
                    return true;
                }
                open = !self.in_comment(k);
                assert(src[k as int] == '\n');
            } else if !text::char_is_white(c) {
                open = false;
            }
            k = k + 1;
        }
        false
    }

    /// Whether character `k` stands in a comment.
    fn in_comment(&self, k: usize) -> (r: bool)
        requires
            self.wf(),
            k < self.source.chars.len(),
        ensures
            r == layout::in_note(self@, k as int),
    {
        let at: usize = self.source.offsets[k];
        let mut n: usize = 0;
        while n < self.comments.len()
            invariant
                self.wf(),
                k < self.source.chars.len(),
                at == text::offset(self.source@, k as int),
                n <= self.comments.len(),
                forall|m: int| 0 <= m < n ==> !#[trigger] layout::covers(self@, m, k as int),
            decreases self.comments.len() - n,
        {
            assert(self@.notes[n as int] == self.comments@[n as int]@);
            if self.comments[n].span.start <= at && at < self.comments[n].span.end {
                assert(layout::covers(self@, n as int, k as int));
                return true;
            }
            n = n + 1;
        }
        false
    }

    /// Whether `t` is one line, and fits on it at indentation `ind`.
    pub fn fits_line(&self, ind: usize, t: &Vec<char>) -> (r: bool)
        ensures
            r == layout::fits(self@, ind as nat, t@),
    {
        let w: u128 = text::text_width(t);
        assert(0 <= ind * self.opts.indent_width <= usize::MAX * usize::MAX) by (nonlinear_arith)
            requires
                0 <= ind <= usize::MAX,
                0 <= self.opts.indent_width <= usize::MAX,
        ;
        assert(usize::MAX * usize::MAX <= u128::MAX) by (nonlinear_arith)
            requires
                usize::MAX <= 0xffff_ffff_ffff_ffff,
        ;
        let margin: u128 = ind as u128 * self.opts.indent_width as u128;
        let max: u128 = self.opts.max_width as u128;
        has_no_newline(t) && margin <= max && w <= max - margin
    }

    /// Whether a declaration head fits on a line.
    pub fn fits(&self, ind: usize, t: &Vec<char>) -> (r: bool)
        ensures
            r == layout::head_fits(self@, ind as nat, t@),
    {
        let w: u128 = text::text_width(t);
        let margin: u128 = ind as u128 * 4;
        let max: u128 = self.opts.max_width as u128;
        margin <= max && w <= max - margin
    }

    // ── Comments ──

    /// Appends a comment on lines of its own.
    fn push_note(&self, s: &mut Vec<char>, t: &Vec<char>, ind: usize)
        ensures
            final(s)@ == layout::note_lines(
                text::lines(t@),
                text::lines(t@).len(),
                layout::pad(self@, ind as nat),
                old(s)@,
            ),
    {
        let ls = text::split_lines(t);
        let ghost margin = layout::pad(self@, ind as nat);
        let ghost base = s@;
        assert(text::texts(ls@).len() == ls@.len());
        let mut i: usize = 0;
        while i < ls.len()
            invariant
                i <= ls@.len(),
                text::texts(ls@).len() == ls@.len(),
                margin == layout::pad(self@, ind as nat),
                s@ == layout::note_lines(text::texts(ls@), i as nat, margin, base),
            decreases ls.len() - i,
        {
            let l = &ls[i];
            assert(text::texts(ls@)[i as int] == l@);
            if text::trim_text(l).len() == 0 {
                s.push('\n');
            } else {
                self.push_pad(s, ind);
                push_text(s, &text::trim_start_text(l));
                s.push('\n');
            }
            i = i + 1;
        }
    }

    /// The comments before `pos`, on lines of their own.
    pub fn take_leading(&self, pos: usize, ind: usize, at: &mut usize) -> (r: Vec<char>)
        ensures
            (r@, *final(at) as int) == layout::leads(
                self@,
                ind as nat,
                *old(at) as int,
                pos as int,
            ),
    {
        let ghost from = *at as int;
        let mut s: Vec<char> = Vec::new();
        while *at < self.comments.len() && self.comments[*at].span.start < pos
            invariant
                from <= *at,
                s@ == layout::lead_text(self@, ind as nat, from, *at as int),
                layout::leads_end(self@, *at as int, pos as int) == layout::leads_end(
                    self@,
                    from,
                    pos as int,
                ),
            decreases self.comments.len() - *at,
        {
            assert(self@.notes[*at as int] == self.comments@[*at as int]@);
            self.push_note(&mut s, &self.comments[*at].text, ind);
            *at = *at + 1;
        }
        assert(*at < self.comments@.len() ==> self@.notes[*at as int] == self.comments@[*at as int]@);
        s
    }

    /// Whether comment `at` follows `end` on its line, which is `line`.
    fn trails(&self, at: usize, end: usize, line: usize) -> (r: bool)
        requires
            self.wf(),
            line == layout::line_of(self@, end as int),
        ensures
            r == layout::trails(self@, at as int, end as int),
    {
        if at < self.comments.len() {
            let c = &self.comments[at];
            assert(self@.notes[at as int] == c@);
            c.span.start >= end && self.line_of(c.span.start) == line && !c.own_line
        } else {
            false
        }
    }

    /// The comments that follow `end` on its line, two spaces apart.
    pub fn drain_same_line_trailing(&self, end: usize, at: &mut usize) -> (r: Option<Vec<char>>)
        requires
            self.wf(),
        ensures
            (text_of(r), *final(at) as int) == layout::trailing(self@, *old(at) as int, end as int),
    {
        let line = self.line_of(end);
        let ghost from = *at as int;
        let mut out: Option<Vec<char>> = None;
        while self.trails(*at, end, line)
            invariant
                self.wf(),
                line == layout::line_of(self@, end as int),
                layout::trailing_from(self@, *at as int, end as int, text_of(out))
                    == layout::trailing(self@, from, end as int),
            decreases self.comments.len() - *at,
        {
            let t = text::trim_text(&self.comments[*at].text);
            assert(self@.notes[*at as int] == self.comments@[*at as int]@);
            out = match out {
                Some(mut s) => {
                    push_str(&mut s, "  ");
                    push_text(&mut s, &t);
                    Some(s)
                },
                None => Some(t),
            };
            *at = *at + 1;
        }
        out
    }

    /// Appends the comments before a statement at `pos`.
    fn flush_leading_to(&self, pos: usize, s: &mut Vec<char>, ind: usize, at: &mut usize)
        ensures
            *final(at) == layout::leads_end(self@, *old(at) as int, pos as int),
            final(s)@ == layout::stmt_leads(
                self@,
                ind as nat,
                *old(at) as int,
                *final(at) as int,
                old(s)@,
            ),
    {
        let ghost from = *at as int;
        let ghost base = s@;
        while *at < self.comments.len() && self.comments[*at].span.start < pos
            invariant
                from <= *at,
                s@ == layout::stmt_leads(self@, ind as nat, from, *at as int, base),
                layout::leads_end(self@, *at as int, pos as int) == layout::leads_end(
                    self@,
                    from,
                    pos as int,
                ),
            decreases self.comments.len() - *at,
        {
            let c = &self.comments[*at];
            assert(self@.notes[*at as int] == c@);
            if c.own_line {
                self.push_note(s, &c.text, ind);
            } else {
                self.push_note(s, &text::trim_text(&c.text), ind);
            }
            *at = *at + 1;
        }
        assert(*at < self.comments@.len() ==> self@.notes[*at as int] == self.comments@[*at as int]@);
    }

    /// Moves the comments that follow `end` on its line to the last line of `s`.
    fn drain_trailing_to(&self, end: usize, s: &mut Vec<char>, at: &mut usize)
        requires
            self.wf(),
        ensures
            (final(s)@, *final(at) as int) == layout::stmt_trailing(
                self@,
                *old(at) as int,
                end as int,
                old(s)@,
            ),
    {
        let line = self.line_of(end);
        let ghost from = *at as int;
        let ghost base = s@;
        while self.trails(*at, end, line)
            invariant
                self.wf(),
                line == layout::line_of(self@, end as int),
                layout::stmt_trailing(self@, *at as int, end as int, s@) == layout::stmt_trailing(
                    self@,
                    from,
                    end as int,
                    base,
                ),
            decreases self.comments.len() - *at,
        {
            let t = text::trim_text(&self.comments[*at].text);
            assert(self@.notes[*at as int] == self.comments@[*at as int]@);
            attach(s, &t);
            *at = *at + 1;
        }
        assert(*at < self.comments@.len() ==> self@.notes[*at as int] == self.comments@[*at as int]@);
    }

    // ── Initializers ──

    fn find_eq(&self, from: usize, end: usize) -> (r: Option<usize>)
        requires
            end <= self.source@.len(),
        ensures
            match r {
                Some(k) => layout::find_eq(self.source@, from as int, end as int) == Some(k as int)
                    && from <= k < end,
                None => layout::find_eq(self.source@, from as int, end as int) is None,
            },
    {
        let mut i: usize = from;
        while i < end
            invariant
                from <= i,
                end <= self.source@.len(),
                layout::find_eq(self.source@, i as int, end as int) == layout::find_eq(
                    self.source@,
                    from as int,
                    end as int,
                ),
            decreases end - i,
        {
            if self.source.chars[i] == '=' {
                return Some(i);
            }
            i = i + 1;
        }
        None
    }

    fn skip_trivia(&self, from: usize, end: usize) -> (r: usize)
        requires
            end <= self.source@.len(),
            from <= end,
        ensures
            r == layout::skip_trivia(self.source@, from as int, end as int),
            r <= end,
    {
        let s = &self.source.chars;
        let mut i: usize = from;
        while i < end
            invariant
                i <= end <= s@.len(),
                s@ == self.source@,
                layout::skip_trivia(s@, i as int, end as int) == layout::skip_trivia(
                    s@,
                    from as int,
                    end as int,
                ),
            decreases end - i,
        {
            let c = s[i];
            if c == ' ' || c == '\t' || c == '\n' || c == '\r' {
                i = i + 1;
            } else if c == '/' && end - i > 1 && s[i + 1] == '/' {
                let k = text::find_line_end(s, i + 1);
                assert(text::line_end(s@, i as int) == k);
                if k < end {
                    i = k;
                } else {
                    return end;
                }
            } else if c == '/' && end - i > 1 && s[i + 1] == '*' {
                match lexer::find_comment_end(s, i + 2) {
                    Some(k) => {
                        if k < end {
                            i = k;
                        } else {
                            return end;
                        }
                    },
                    None => {
                        return end;
                    },
                }
            } else {
                return i;
            }
        }
        i
    }

    /// Whether the initializer of the variable at `span` leaves its type out.
    pub fn init_omits_type(&self, span: Span) -> (r: bool)
        requires
            self.wf(),
        ensures
            r == layout::omits_type(self@, span),
    {
        let a = self.source.index_at(span.start);
        let b = self.source.index_at(span.end);
        match self.find_eq(a, b) {
            Some(p) => {
                let i = self.skip_trivia(p + 1, b);
                b - i >= 3 && text::text_has_at(&self.source.chars, i, "has") && (b - i == 3
                    || !(text::char_is_alphanumeric(self.source.chars[i + 3]) || self.source.chars[i + 3] == '_'))
            },
            None => false,
        }
    }

    /// The initializer of a variable.
    pub fn fmt_init_expr(&self, e: &Expr, span: Span, ind: usize, at: &mut usize) -> (r: Vec<char>)
        requires
            self.wf(),
        ensures
            (r@, *final(at) as int) == layout::init_text(
                self@,
                ind as nat,
                *old(at) as int,
                e.tree(),
                span,
            ),
        decreases e, 3nat, 0nat,
    {
        if self.init_omits_type(span) {
            if let ExprKind::StructLit { fields, .. } = &e.kind {
                return self.fmt_struct_lit_wrapped(Vec::new(), fields, e.span.end, ind, at);
            }
            if let ExprKind::MapLit { entries, .. } = &e.kind {
                return self.fmt_map_wrapped(Vec::new(), entries, e.span.end, ind, at);
            }
        }
        self.fmt_expr_wrapped(e, 0, ind, at)
    }

    // ── Expressions ──

    /// The type of a literal and a space.
    fn literal_prefix(&self, ty: &Type) -> (r: Vec<char>)
        ensures
            r@ == layout::literal_prefix(ty.tree()),
    {
        let mut s = fmt_type(ty);
        push_str(&mut s, " ");
        s
    }

    /// An expression: on one line where it fits, else broken by its structure.
    #[verifier::rlimit(80)]
    pub fn fmt_expr_wrapped(&self, e: &Expr, extra: usize, ind: usize, at: &mut usize) -> (r: Vec<
        char,
    >)
        requires
            self.wf(),
        ensures
            (r@, *final(at) as int) == layout::expr_wrapped(
                self@,
                ind as nat,
                *old(at) as int,
                e.tree(),
                extra as nat,
            ),
        decreases e, 2nat, 0nat,
    {
        let m = deeper(ind, extra);
        let line = fmt_line(self, m, e);
        let expand = match &e.kind {
            ExprKind::MapLit { .. } => true,
            ExprKind::StructLit { .. } => true,
            ExprKind::Match(_) => true,
            _ => false,
        };
        assert(expand == layout::always_expanded(e.tree().kind));
        if self.fits_line(m, &line) && !expand {
            return line;
        }
        match &e.kind {
            ExprKind::Call { callee, type_args, args } => {
                let mut head = chars_of(callee.as_str());
                push_text(&mut head, &fmt_type_args(type_args));
                self.fmt_call_wrapped(head, args, ind, at)
            },
            ExprKind::MethodCall { object, method, args } => {
                let mut head = fmt_line(self, ind, object);
                push_str(&mut head, ".");
                push_str(&mut head, method.as_str());
                self.fmt_call_wrapped(head, args, ind, at)
            },
            ExprKind::ArrayLit(es) => self.fmt_array_wrapped(es, ind),
            ExprKind::MapLit { ty, entries } => {
                self.fmt_map_wrapped(self.literal_prefix(ty), entries, e.span.end, ind, at)
            },
            ExprKind::StructLit { ty, fields } => {
                self.fmt_struct_lit_wrapped(self.literal_prefix(ty), fields, e.span.end, ind, at)
            },
            ExprKind::Match(x) => self.fmt_match_wrapped(x, ind, at),
            ExprKind::Closure { params, body } => {
                match &**body {
                    ClosureBody::Block(b) => {
                        assert(body.tree() == tree::ClosureBody::Block(b.tree()));
                        let mut s = chars_of("|");
                        push_text(&mut s, &fmt_params(params));
                        push_str(&mut s, "| do\n");
                        push_text(&mut s, &self.fmt_block_inner(b, 1, m, at));
                        self.push_pad(&mut s, m);
                        push_str(&mut s, "end");
                        s
                    },
                    ClosureBody::Value(_) => {
                        assert(body.tree() is Value);
                        line
                    },
                }
            },
            _ => line,
        }
    }

    /// A call with one argument on each line.
    fn fmt_call_wrapped(
        &self,
        head: Vec<char>,
        args: &Vec<CallArg>,
        ind: usize,
        at: &mut usize,
    ) -> (r: Vec<char>)
        requires
            self.wf(),
        ensures
            (r@, *final(at) as int) == layout::call_wrapped(
                self@,
                ind as nat,
                *old(at) as int,
                head@,
                ast::args_of(args@),
            ),
        decreases args@, 1nat, 0nat,
    {
        let mut s = head;
        if args.len() == 0 {
            push_str(&mut s, "()");
            return s;
        }
        push_str(&mut s, "(\n");
        let ghost base = s@;
        let ghost from = *at as int;
        let ghost trees = ast::args_of(args@);
        let mut i: usize = 0;
        while i < args.len()
            invariant
                self.wf(),
                i <= args.len(),
                trees == ast::args_of(args@),
                (s@, *at as int) == layout::arg_lines(self@, ind as nat, from, trees, i as nat, base),
            decreases args.len() - i,
        {
            self.push_pad(&mut s, deeper(ind, 1));
            let t = match &args[i] {
                CallArg::Value(e) => self.fmt_expr_wrapped(e, 1, ind, at),
                a => fmt_arg_line(self, deeper(ind, 1), a),
            };
            push_text(&mut s, &t);
            if args.len() - i > 1 {
                push_str(&mut s, ",");
            }
            s.push('\n');
            i = i + 1;
        }
        self.push_pad(&mut s, ind);
        push_str(&mut s, ")");
        s
    }

    /// An array literal with one element on each line, where one line does not do.
    fn fmt_array_wrapped(&self, es: &Vec<Expr>, ind: usize) -> (r: Vec<char>)
        requires
            self.wf(),
        ensures
            r@ == layout::array_wrapped(self@, ind as nat, ast::exprs_of(es@)),
        decreases es@, 2nat, 0nat,
    {
        if es.len() == 0 {
            return chars_of("[]");
        }
        let mut line = chars_of("[");
        push_text(&mut line, &fmt_exprs_line(self, ind, es));
        push_str(&mut line, "]");
        if self.fits_line(ind, &line) {
            return line;
        }
        let mut s = chars_of("[\n");
        let mut i: usize = 0;
        while i < es.len()
            invariant
                self.wf(),
                i <= es.len(),
                s@ == layout::element_lines(self@, ind as nat, ast::exprs_of(es@), i as nat),
            decreases es.len() - i,
        {
            self.push_pad(&mut s, deeper(ind, 1));
            push_text(&mut s, &fmt_line(self, deeper(ind, 1), &es[i]));
            push_str(&mut s, ",\n");
            i = i + 1;
        }
        self.push_pad(&mut s, ind);
        push_str(&mut s, "]");
        s
    }

    /// A map literal with one entry on each line.
    fn fmt_map_wrapped(
        &self,
        prefix: Vec<char>,
        entries: &Vec<MapEntry>,
        end: usize,
        ind: usize,
        at: &mut usize,
    ) -> (r: Vec<char>)
        requires
            self.wf(),
        ensures
            (r@, *final(at) as int) == layout::map_wrapped(
                self@,
                ind as nat,
                *old(at) as int,
                prefix@,
                ast::entries_of(entries@),
                end as int,
            ),
        decreases entries@, 1nat, 0nat,
    {
        let mut s = prefix;
        push_str(&mut s, "has\n");
        let ghost base = s@;
        let ghost from = *at as int;
        let ghost trees = ast::entries_of(entries@);
        let inner = deeper(ind, 1);
        let mut i: usize = 0;
        while i < entries.len()
            invariant
                self.wf(),
                i <= entries.len(),
                inner == layout::deeper(ind as nat, 1),
                trees == ast::entries_of(entries@),
                (s@, *at as int) == layout::entry_lines(self@, ind as nat, from, trees, i as nat, base),
            decreases entries.len() - i,
        {
            let e = &entries[i];
            push_text(&mut s, &self.take_leading(e.key.span.start, inner, at));
            self.push_pad(&mut s, inner);
            push_text(&mut s, &fmt_line(self, deeper(ind, 1), &e.key));
            push_str(&mut s, ": ");
            push_text(&mut s, &fmt_line(self, deeper(ind, 1), &e.value));
            let t = self.drain_same_line_trailing(e.value.span.end, at);
            push_trail(&mut s, &t);
            s.push('\n');
            i = i + 1;
        }
        push_text(&mut s, &self.take_leading(end, inner, at));
        self.push_pad(&mut s, ind);
        push_str(&mut s, "end");
        s
    }

    /// A struct literal with one field on each line.
    fn fmt_struct_lit_wrapped(
        &self,
        prefix: Vec<char>,
        fields: &Vec<FieldInit>,
        end: usize,
        ind: usize,
        at: &mut usize,
    ) -> (r: Vec<char>)
        requires
            self.wf(),
        ensures
            (r@, *final(at) as int) == layout::struct_wrapped(
                self@,
                ind as nat,
                *old(at) as int,
                prefix@,
                ast::inits_of(fields@),
                end as int,
            ),
        decreases fields@, 1nat, 0nat,
    {
        let mut s = prefix;
        push_str(&mut s, "has\n");
        let ghost base = s@;
        let ghost from = *at as int;
        let ghost trees = ast::inits_of(fields@);
        let inner = deeper(ind, 1);
        let mut i: usize = 0;
        while i < fields.len()
            invariant
                self.wf(),
                i <= fields.len(),
                inner == layout::deeper(ind as nat, 1),
                trees == ast::inits_of(fields@),
                (s@, *at as int) == layout::init_lines(self@, ind as nat, from, trees, i as nat, base),
            decreases fields.len() - i,
        {
            let f = &fields[i];
            push_text(&mut s, &self.take_leading(f.span.start, inner, at));
            let v = self.fmt_expr_wrapped(&f.value, 0, inner, at);
            self.push_pad(&mut s, inner);
            push_str(&mut s, f.name.as_str());
            push_str(&mut s, " = ");
            push_value(&mut s, &v);
            let t = self.drain_same_line_trailing(f.value.span.end, at);
            push_trail_inside(&mut s, &t);
            i = i + 1;
        }
        push_text(&mut s, &self.take_leading(end, inner, at));
        self.push_pad(&mut s, ind);
        push_str(&mut s, "end");
        s
    }

    /// A `match` with one arm on each line.
    fn fmt_match_wrapped(&self, m: &MatchExpr, ind: usize, at: &mut usize) -> (r: Vec<char>)
        requires
            self.wf(),
        ensures
            (r@, *final(at) as int) == layout::match_wrapped(
                self@,
                ind as nat,
                *old(at) as int,
                m.tree(),
            ),
        decreases m, 1nat, 0nat,
    {
        let mut s = chars_of("match ");
        push_text(&mut s, &fmt_line(self, ind, &m.scrutinee));
        push_str(&mut s, " do\n");
        let ghost base = s@;
        let ghost from = *at as int;
        let ghost trees = ast::arms_of(m.arms@);
        let inner = deeper(ind, 1);
        let mut i: usize = 0;
        while i < m.arms.len()
            invariant
                self.wf(),
                i <= m.arms.len(),
                inner == layout::deeper(ind as nat, 1),
                trees == ast::arms_of(m.arms@),
                (s@, *at as int) == layout::arm_lines(self@, ind as nat, from, trees, i as nat, base),
            decreases m.arms.len() - i,
        {
            let a = &m.arms[i];
            push_text(&mut s, &self.take_leading(a.span.start, inner, at));
            self.push_pad(&mut s, inner);
            push_text(&mut s, &fmt_arm_head_line(self, deeper(ind, 1), a));
            match &a.body {
                ArmBody::Value(e) => {
                    push_str(&mut s, " -> ");
                    push_text(&mut s, &fmt_line(self, deeper(ind, 1), e));
                    let t = self.drain_same_line_trailing(a.span.end, at);
                    push_trail(&mut s, &t);
                    s.push('\n');
                },
                ArmBody::Block(b) => {
                    push_str(&mut s, " -> do\n");
                    push_text(&mut s, &self.fmt_block_inner(b, 1, inner, at));
                    push_str(&mut s, "\n");
                    self.push_pad(&mut s, inner);
                    push_str(&mut s, "end\n");
                },
            }
            i = i + 1;
        }
        push_text(&mut s, &self.take_leading(m.span.end, inner, at));
        self.push_pad(&mut s, ind);
        push_str(&mut s, "end");
        s
    }

    // ── Variables and constants ──

    pub fn fmt_var_decl_noalign(&self, d: &VarDecl, ind: usize, at: &mut usize) -> (r: Vec<char>)
        requires
            self.wf(),
        ensures
            (r@, *final(at) as int) == layout::var_text(
                self@,
                ind as nat,
                *old(at) as int,
                d.tree(),
            ),
        decreases d, 0nat, 0nat,
    {
        let mut s = chars_of(vis_prefix(d.visibility));
        push_text(&mut s, &fmt_type(&d.ty));
        push_str(&mut s, " ");
        push_str(&mut s, d.name.as_str());
        if let Some(e) = &d.init {
            push_str(&mut s, " = ");
            push_text(&mut s, &self.fmt_init_expr(e, d.span, ind, at));
        }
        s
    }

    pub fn fmt_const_decl(&self, d: &ConstDecl, ind: usize, at: &mut usize) -> (r: Vec<char>)
        requires
            self.wf(),
        ensures
            (r@, *final(at) as int) == layout::const_text(
                self@,
                ind as nat,
                *old(at) as int,
                d.tree(),
            ),
        decreases d, 0nat, 0nat,
    {
        let mut s = chars_of(vis_prefix(d.visibility));
        push_str(&mut s, "const ");
        if let Some(t) = &d.ty {
            push_text(&mut s, &fmt_type(t));
            push_str(&mut s, " ");
        }
        push_str(&mut s, d.name.as_str());
        push_str(&mut s, " = ");
        push_text(&mut s, &self.fmt_expr_wrapped(&d.init, 0, ind, at));
        s
    }

    // ── Blocks and statements ──

    /// The statements of a block, `rel` steps further in.
    pub fn fmt_block_inner(&self, b: &Block, rel: usize, ind: usize, at: &mut usize) -> (r: Vec<char>)
        requires
            self.wf(),
        ensures
            (r@, *final(at) as int) == layout::block_inner(
                self@,
                ind as nat,
                *old(at) as int,
                b.tree(),
                rel as nat,
            ),
        decreases b, 1nat, 0nat,
    {
        let inner = deeper(ind, rel);
        let mut s = self.fmt_stmts(&b.stmts, inner, at);
        push_text(&mut s, &self.take_leading(b.span.end, inner, at));
        s
    }

    /// The statements of a block and the margin of its `end`.
    fn fmt_block_contents(&self, b: &Block, ind: usize, at: &mut usize) -> (r: Vec<char>)
        requires
            self.wf(),
        ensures
            (r@, *final(at) as int) == layout::block_contents(
                self@,
                ind as nat,
                *old(at) as int,
                b.tree(),
            ),
        decreases b, 2nat, 0nat,
    {
        let mut s = self.fmt_block_inner(b, 1, ind, at);
        self.push_pad(&mut s, ind);
        s
    }

    fn fmt_stmts(&self, stmts: &Vec<Stmt>, ind: usize, at: &mut usize) -> (r: Vec<char>)
        requires
            self.wf(),
        ensures
            ({
                let laid = layout::stmts_from(
                    self@,
                    ind as nat,
                    ast::stmts_of(stmts@),
                    0,
                    None,
                    seq![],
                    *old(at) as int,
                );
                r@ == layout::strip_tail(layout::strip_lead(laid.0)) && *final(at) == laid.1
            }),
        decreases stmts@, 1nat, 0nat,
    {
        let ghost trees = ast::stmts_of(stmts@);
        let ghost all = layout::stmts_from(self@, ind as nat, trees, 0, None, seq![], *at as int);
        let mut s: Vec<char> = Vec::new();
        let mut prev: Option<usize> = None;
        let mut i: usize = 0;
        while i < stmts.len()
            invariant
                self.wf(),
                i <= stmts.len(),
                trees == ast::stmts_of(stmts@),
                layout::stmts_from(
                    self@,
                    ind as nat,
                    trees,
                    i as int,
                    match prev {
                        Some(p) => Some(p as int),
                        None => None,
                    },
                    s@,
                    *at as int,
                ) == all,
            decreases stmts.len() - i,
        {
            let st = &stmts[i];
            let sp = stmt_span(st);
            assert(trees[i as int] == st.tree());
            if let Some(p) = prev {
                if self.has_blank_between(p, sp.start) && s.len() > 0 {
                    s.push('\n');
                }
            }
            if is_varlike(st) {
                let j = self.group_end(stmts, i + 1);
                let rows = self.var_rows(stmts, i, j, ind, at);
                push_text(&mut s, &self.fmt_var_group(&rows, ind));
                prev = Some(stmt_span(&stmts[j - 1]).end);
                i = j;
            } else {
                self.flush_leading_to(sp.start, &mut s, ind, at);
                let t = self.fmt_stmt(st, ind, at);
                self.push_stmt_lines(&mut s, &t, ind);
                self.drain_trailing_to(sp.end, &mut s, at);
                prev = Some(sp.end);
                i = i + 1;
            }
        }
        strip_blank_ends(&mut s);
        s
    }

    /// Appends the lines of a statement; only the first needs a margin.
    fn push_stmt_lines(&self, s: &mut Vec<char>, t: &Vec<char>, ind: usize)
        ensures
            final(s)@ == layout::stmt_lines(
                text::lines(t@),
                text::lines(t@).len(),
                layout::pad(self@, ind as nat),
                old(s)@,
            ),
    {
        let ls = text::split_lines(t);
        let ghost base = s@;
        let ghost margin = layout::pad(self@, ind as nat);
        assert(text::texts(ls@).len() == ls@.len());
        let mut k: usize = 0;
        while k < ls.len()
            invariant
                k <= ls@.len(),
                text::texts(ls@).len() == ls@.len(),
                margin == layout::pad(self@, ind as nat),
                s@ == layout::stmt_lines(text::texts(ls@), k as nat, margin, base),
            decreases ls.len() - k,
        {
            let l = &ls[k];
            assert(text::texts(ls@)[k as int] == l@);
            if l.len() > 0 {
                if k == 0 {
                    self.push_pad(s, ind);
                }
                push_text(s, l);
            }
            s.push('\n');
            k = k + 1;
        }
    }

    /// The end of the run of declarations that goes on at `from`.
    fn group_end(&self, stmts: &Vec<Stmt>, from: usize) -> (j: usize)
        requires
            self.wf(),
            0 < from <= stmts.len(),
        ensures
            j == layout::group_end(self@, ast::stmts_of(stmts@), from as int),
            from <= j <= stmts.len(),
    {
        let ghost trees = ast::stmts_of(stmts@);
        let mut j: usize = from;
        while j < stmts.len() && is_varlike(&stmts[j]) && !self.has_blank_between(
            stmt_span(&stmts[j - 1]).end,
            stmt_span(&stmts[j]).start,
        )
            invariant
                self.wf(),
                0 < from <= j <= stmts.len(),
                trees == ast::stmts_of(stmts@),
                layout::group_end(self@, trees, j as int) == layout::group_end(
                    self@,
                    trees,
                    from as int,
                ),
            decreases stmts.len() - j,
        {
            assert(trees[j as int] == stmts@[j as int].tree());
            assert(trees[j - 1] == stmts@[j - 1].tree());
            j = j + 1;
        }
        assert(j < stmts.len() ==> trees[j as int] == stmts@[j as int].tree());
        assert(trees[j - 1] == stmts@[j - 1].tree());
        j
    }

    /// The declarations `i..j`, with their comments.
    fn var_rows(&self, stmts: &Vec<Stmt>, i: usize, j: usize, ind: usize, at: &mut usize) -> (r: Vec<
        Row,
    >)
        requires
            self.wf(),
            i <= j <= stmts.len(),
        ensures
            (rows_of(r@), *final(at) as int) == layout::group_rows(
                self@,
                ind as nat,
                *old(at) as int,
                ast::stmts_of(stmts@),
                i as int,
                j as int,
            ),
        decreases stmts@, 0nat, 0nat,
    {
        let ghost trees = ast::stmts_of(stmts@);
        let ghost from = *at as int;
        let mut rows: Vec<Row> = Vec::new();
        assert(rows_of(rows@) =~= seq![]);
        let mut k: usize = i;
        while k < j
            invariant
                self.wf(),
                i <= k <= j <= stmts.len(),
                trees == ast::stmts_of(stmts@),
                (rows_of(rows@), *at as int) == layout::group_rows(
                    self@,
                    ind as nat,
                    from,
                    trees,
                    i as int,
                    k as int,
                ),
            decreases j - k,
        {
            assert(trees.len() == stmts@.len());
            let ghost before = rows@;
            let r = self.var_row(&stmts[k], ind, at);
            rows.push(r);
            assert(rows_of(rows@) =~= rows_of(before).push(r@));
            k = k + 1;
        }
        rows
    }

    fn var_row(&self, st: &Stmt, ind: usize, at: &mut usize) -> (r: Row)
        requires
            self.wf(),
        ensures
            (r@, *final(at) as int) == layout::row(self@, ind as nat, *old(at) as int, st.tree()),
        decreases st, 0nat, 0nat,
    {
        match st {
            Stmt::VarDecl(d) => {
                let leads = self.take_leading(d.span.start, ind, at);
                let init = match &d.init {
                    Some(e) => Some(self.fmt_init_expr(e, d.span, ind, at)),
                    None => None,
                };
                let trail = self.drain_same_line_trailing(d.span.end, at);
                let mut ty = chars_of(vis_prefix(d.visibility));
                push_text(&mut ty, &fmt_type(&d.ty));
                Row { ty, name: chars_of(d.name.as_str()), init, leads, trail }
            },
            Stmt::Const(d) => {
                let leads = self.take_leading(d.span.start, ind, at);
                let init = self.fmt_expr_wrapped(&d.init, 0, ind, at);
                let trail = self.drain_same_line_trailing(d.span.end, at);
                let mut ty = chars_of(vis_prefix(d.visibility));
                push_str(&mut ty, "const ");
                if let Some(t) = &d.ty {
                    push_text(&mut ty, &fmt_type(t));
                    push_str(&mut ty, " ");
                }
                Row {
                    ty: text::trim_end_text(&ty),
                    name: chars_of(d.name.as_str()),
                    init: Some(init),
                    leads,
                    trail,
                }
            },
            _ => Row { ty: Vec::new(), name: Vec::new(), init: None, leads: Vec::new(), trail: None },
        }
    }

    /// A group of declarations: two or more have their types and names in columns.
    fn fmt_var_group(&self, rows: &Vec<Row>, ind: usize) -> (r: Vec<char>)
        ensures
            r@ == layout::group_text(self@, ind as nat, rows_of(rows@)),
    {
        let ghost views = rows_of(rows@);
        let mut ty_width: u128 = 0;
        let mut name_width: u128 = 0;
        if rows.len() >= 2 {
            let mut k: usize = 0;
            while k < rows.len()
                invariant
                    k <= rows.len(),
                    views == rows_of(rows@),
                    ty_width == layout::max_type_width(views, k as nat),
                    name_width == layout::max_name_width(views, k as nat),
                decreases rows.len() - k,
            {
                assert(views[k as int] == rows@[k as int]@);
                let t = text::text_width(&rows[k].ty);
                if t > ty_width {
                    ty_width = t;
                }
                let n = text::text_width(&rows[k].name);
                if n > name_width {
                    name_width = n;
                }
                k = k + 1;
            }
        }
        let mut s: Vec<char> = Vec::new();
        let mut i: usize = 0;
        while i < rows.len()
            invariant
                i <= rows.len(),
                views == rows_of(rows@),
                s@ == layout::rows_text(
                    self@,
                    ind as nat,
                    views,
                    i as nat,
                    ty_width as nat,
                    name_width as nat,
                ),
            decreases rows.len() - i,
        {
            let r = &rows[i];
            assert(views[i as int] == r@);
            push_text(&mut s, &r.leads);
            self.push_pad(&mut s, ind);
            text::push_padded(&mut s, &r.ty, ty_width);
            push_str(&mut s, " ");
            match &r.init {
                Some(v) => {
                    text::push_padded(&mut s, &r.name, name_width);
                    push_str(&mut s, " = ");
                    push_value(&mut s, v);
                },
                None => {
                    push_text(&mut s, &r.name);
                    s.push('\n');
                },
            }
            push_trail_inside(&mut s, &r.trail);
            i = i + 1;
        }
        s
    }

    /// A statement; its first line has no margin.
    #[verifier::rlimit(80)]
    fn fmt_stmt(&self, st: &Stmt, ind: usize, at: &mut usize) -> (r: Vec<char>)
        requires
            self.wf(),
        ensures
            (r@, *final(at) as int) == layout::stmt_text(
                self@,
                ind as nat,
                *old(at) as int,
                st.tree(),
            ),
        decreases st, 1nat, 0nat,
    {
        match st {
            Stmt::VarDecl(d) => self.fmt_var_decl_noalign(d, ind, at),
            Stmt::Const(d) => self.fmt_const_decl(d, ind, at),
            Stmt::Destructure { targets, expr, .. } => {
                let mut s = fmt_targets(targets);
                push_str(&mut s, " = ");
                push_text(&mut s, &self.fmt_expr_wrapped(expr, 0, ind, at));
                s
            },
            Stmt::Assert { is_debug, cond, message, .. } => {
                let mut s = chars_of(
                    if *is_debug {
                        "debug_assert "
                    } else {
                        "assert "
                    },
                );
                push_text(&mut s, &fmt_line(self, ind, cond));
                if let Some(m) = message {
                    push_str(&mut s, ", ");
                    push_text(&mut s, &fmt_line(self, ind, m));
                }
                s
            },
            Stmt::If { .. } => self.fmt_if(st, ind, at),
            Stmt::While { cond, body, .. } => {
                let mut s = chars_of("while ");
                push_text(&mut s, &fmt_line(self, ind, cond));
                push_str(&mut s, " do\n");
                push_text(&mut s, &self.fmt_block_contents(body, ind, at));
                push_str(&mut s, "end");
                s
            },
            Stmt::Loop { label, body, .. } => {
                let mut s = fmt_label(label);
                push_str(&mut s, "loop do\n");
                push_text(&mut s, &self.fmt_block_contents(body, ind, at));
                push_str(&mut s, "end");
                s
            },
            Stmt::For { label, var, var2, iter, body, .. } => {
                let mut s = fmt_label(label);
                push_str(&mut s, "for ");
                push_str(&mut s, var.as_str());
                if let Some(v) = var2 {
                    push_str(&mut s, ", ");
                    push_str(&mut s, v.as_str());
                }
                push_str(&mut s, " in ");
                push_text(&mut s, &fmt_line(self, ind, iter));
                push_str(&mut s, " do\n");
                push_text(&mut s, &self.fmt_block_contents(body, ind, at));
                push_str(&mut s, "end");
                s
            },
            Stmt::Return { value, .. } => {
                match value {
                    Some(e) => {
                        let mut s = chars_of("return ");
                        push_text(&mut s, &self.fmt_expr_wrapped(e, 0, ind, at));
                        s
                    },
                    None => chars_of("return"),
                }
            },
            Stmt::Expr { expr, .. } => self.fmt_expr_wrapped(expr, 0, ind, at),
            Stmt::Block(b) => {
                let mut s = chars_of("do\n");
                push_text(&mut s, &self.fmt_block_contents(b, ind, at));
                push_str(&mut s, "end");
                s
            },
            Stmt::Break { label, .. } => fmt_jump("break", label),
            Stmt::Continue { label, .. } => fmt_jump("continue", label),
            Stmt::Defer { inner, .. } => {
                match inner {
                    DeferInner::Value(e) => {
                        assert(inner.tree() == tree::DeferInner::Value(e.tree()));
                        let mut s = chars_of("defer ");
                        push_text(&mut s, &fmt_line(self, ind, e));
                        s
                    },
                    DeferInner::Block(b) => {
                        assert(inner.tree() == tree::DeferInner::Block(b.tree()));
                        let mut s = chars_of("defer do\n");
                        push_text(&mut s, &self.fmt_block_contents(b, ind, at));
                        push_str(&mut s, "end");
                        s
                    },
                }
            },
        }
    }

    fn fmt_if(&self, st: &Stmt, ind: usize, at: &mut usize) -> (r: Vec<char>)
        requires
            self.wf(),
            st is If,
        ensures
            (r@, *final(at) as int) == layout::stmt_text(
                self@,
                ind as nat,
                *old(at) as int,
                st.tree(),
            ),
        decreases st, 0nat, 0nat,
    {
        let mut s = chars_of("if ");
        if let Stmt::If { cond, then_block, else_block, .. } = st {
            push_text(&mut s, &fmt_line(self, ind, cond));
            push_str(&mut s, " do\n");
            push_text(&mut s, &self.fmt_block_inner(then_block, 1, ind, at));
            self.push_pad(&mut s, ind);
            push_str(&mut s, "end");
            if let Some(e) = else_block {
                push_str(&mut s, "\n");
                self.push_pad(&mut s, ind);
                push_str(&mut s, "else do\n");
                push_text(&mut s, &self.fmt_block_inner(e, 1, ind, at));
                self.push_pad(&mut s, ind);
                push_str(&mut s, "end");
            }
        }
        s
    }
}

/// Removes line feeds at the start and blank lines at the end.
fn strip_blank_ends(s: &mut Vec<char>)
    ensures
        final(s)@ == layout::strip_tail(layout::strip_lead(old(s)@)),
{
    let mut i: usize = 0;
    let ghost base = s@;
    assert(s@.skip(0) =~= s@);
    while i < s.len() && s[i] == '\n'
        invariant
            i <= s.len(),
            s@ == base,
            layout::strip_lead(s@.skip(i as int)) == layout::strip_lead(base),
        decreases s.len() - i,
    {
        assert(s@.skip(i as int).drop_first() =~= s@.skip(i + 1));
        i = i + 1;
    }
    if i > 0 {
        let t = text::copy_range(s, i, s.len());
        assert(t@ =~= s@.skip(i as int));
        *s = t;
    }
    let ghost lead = s@;
    while s.len() > 1 && s[s.len() - 1] == '\n' && s[s.len() - 2] == '\n'
        invariant
            layout::strip_tail(s@) == layout::strip_tail(lead),
        decreases s.len(),
    {
        s.pop();
    }
}

pub fn is_varlike(st: &Stmt) -> (r: bool)
    ensures
        r == layout::is_varlike(st.tree()),
{
    match st {
        Stmt::VarDecl(_) => true,
        Stmt::Const(_) => true,
        _ => false,
    }
}

/// The span of a statement.
pub fn stmt_span(st: &Stmt) -> (r: Span)
    ensures
        r == layout::stmt_span(st.tree()),
{
    match st {
        Stmt::VarDecl(d) => d.span,
        Stmt::Const(d) => d.span,
        Stmt::Destructure { span, .. } => *span,
        Stmt::Assert { span, .. } => *span,
        Stmt::If { span, .. } => *span,
        Stmt::While { span, .. } => *span,
        Stmt::Loop { span, .. } => *span,
        Stmt::For { span, .. } => *span,
        Stmt::Return { span, .. } => *span,
        Stmt::Expr { span, .. } => *span,
        Stmt::Block(b) => b.span,
        Stmt::Break { span, .. } => *span,
        Stmt::Continue { span, .. } => *span,
        Stmt::Defer { span, .. } => *span,
    }
}

/// The text of an optional name.
pub open spec fn name_of(v: Option<String>) -> Option<Seq<char>> {
    match v {
        Some(n) => Some(n@),
        None => None,
    }
}

fn fmt_label(label: &Option<String>) -> (r: Vec<char>)
    ensures
        r@ == layout::label_text(name_of(*label)),
{
    match label {
        Some(l) => {
            let mut s = chars_of(l.as_str());
            push_str(&mut s, ": ");
            s
        },
        None => Vec::new(),
    }
}

fn fmt_jump(word: &str, label: &Option<String>) -> (r: Vec<char>)
    ensures
        r@ == layout::jump_text(word@, name_of(*label)),
{
    let mut s = chars_of(word);
    if let Some(l) = label {
        push_str(&mut s, " ");
        push_str(&mut s, l.as_str());
    }
    s
}

fn fmt_targets(v: &Vec<Target>) -> (r: Vec<char>)
    ensures
        r@ == layout::targets_text(ast::targets_of(v@), v@.len()),
{
    let mut s: Vec<char> = Vec::new();
    let mut i: usize = 0;
    while i < v.len()
        invariant
            i <= v.len(),
            s@ == layout::targets_text(ast::targets_of(v@), i as nat),
        decreases v.len() - i,
    {
        if i > 0 {
            push_str(&mut s, ", ");
        }
        match &v[i] {
            Target::Name(n) => push_str(&mut s, n.as_str()),
            Target::Wildcard => push_str(&mut s, "_"),
        }
        i = i + 1;
    }
    s
}

/// Puts a comment on the last line.
pub fn attach(s: &mut Vec<char>, t: &Vec<char>)
    ensures
        final(s)@ == (if old(s)@.len() > 0 && old(s)@.last() == '\n' {
            (old(s)@.drop_last() + "  "@ + t@).push('\n')
        } else {
            old(s)@ + "  "@ + t@
        }),
{
    if s.len() > 0 && s[s.len() - 1] == '\n' {
        s.pop();
        push_str(s, "  ");
        push_text(s, t);
        s.push('\n');
    } else {
        push_str(s, "  ");
        push_text(s, t);
    }
}

} // verus!
