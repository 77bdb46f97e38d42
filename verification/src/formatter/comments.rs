//! Comments of a source text, in source order.
use vstd::prelude::*;
use crate::lexer;
use crate::lexer::{take_piece, Piece};
use crate::source::Source;
use crate::text;
use crate::token::Span;

verus! {

/// A `//` or `/* */` comment.
#[derive(Debug)]
pub struct Comment {
    pub span: Span,
    pub text: Vec<char>,
    /// Whether only white space stands before it on its line.
    pub own_line: bool,
}

/// A comment as a mathematical value.
pub struct Note {
    pub start: int,
    pub end: int,
    pub text: Seq<char>,
    pub own_line: bool,
}

impl View for Comment {
    type V = Note;

    open spec fn view(&self) -> Note {
        Note {
            start: self.span.start as int,
            end: self.span.end as int,
            text: self.text@,
            own_line: self.own_line,
        }
    }
}

pub open spec fn notes_of(v: Seq<Comment>) -> Seq<Note> {
    Seq::new(v.len(), |i: int| v[i]@)
}

// ── Specification ───────────────────────────────────────────────────────────

/// Whether only white space stands between the start of the line and `i`.
pub open spec fn starts_line(s: Seq<char>, i: int) -> bool
    decreases i,
{
    if i <= 0 || i > s.len() || s[i - 1] == '\n' {
        true
    } else {
        text::is_white(s[i - 1]) && starts_line(s, i - 1)
    }
}

pub open spec fn note_at(s: Seq<char>, i: int, k: int) -> Note {
    Note {
        start: text::offset(s, i) as int,
        end: text::offset(s, k) as int,
        text: s.subrange(i, k),
        own_line: starts_line(s, i),
    }
}

/// The comments from `i` on, after `done`: the pieces that the lexer skips and that are no blank
/// space.
pub open spec fn comments_from(s: Seq<char>, i: int, braces: Seq<bool>, done: Seq<Note>) -> Seq<Note>
    decreases s.len() - i,
{
    let r = lexer::scan(s, i, braces);
    if 0 <= i < s.len() && i < r.1 <= s.len() {
        comments_from(
            s,
            r.1,
            r.2,
            if r.0 is Trivia && s[i] == '/' {
                done.push(note_at(s, i, r.1))
            } else {
                done
            },
        )
    } else {
        done
    }
}

/// The comments of `s`.
pub open spec fn comments(s: Seq<char>) -> Seq<Note> {
    comments_from(s, 0, seq![], seq![])
}

// ── Collecting ──────────────────────────────────────────────────────────────

fn is_line_start(s: &Vec<char>, i: usize) -> (r: bool)
    requires
        i <= s.len(),
    ensures
        r == starts_line(s@, i as int),
{
    let mut k: usize = i;
    while k > 0 && s[k - 1] != '\n'
        invariant
            k <= i <= s.len(),
            starts_line(s@, k as int) == starts_line(s@, i as int),
        decreases k,
    {
        if !text::char_is_white(s[k - 1]) {
            return false;
        }
        k = k - 1;
    }
    true
}

/// The `//` and `/* */` comments of a source.
pub fn collect_comments(source: &Source) -> (r: Vec<Comment>)
    requires
        source.wf(),
    ensures
        notes_of(r@) == comments(source@),
{
    let s = &source.chars;
    let mut out: Vec<Comment> = Vec::new();
    let mut braces: Vec<bool> = Vec::new();
    let mut i: usize = 0;
    assert(notes_of(out@) =~= seq![]);
    while i < s.len()
        invariant
            source.wf(),
            s@ == source@,
            *s == source.chars,
            i <= s.len(),
            comments_from(s@, i as int, braces@, notes_of(out@)) == comments(s@),
        decreases s.len() - i,
    {
        let (p, k) = take_piece(s, i, &mut braces);
        if p == Piece::Trivia && s[i] == '/' {
            let ghost before = out@;
            let span = Span::new(source.offsets[i], source.offsets[k]);
            let own_line = is_line_start(s, i);
            out.push(Comment { span, text: text::copy_range(s, i, k), own_line });
            assert(notes_of(out@) =~= notes_of(before).push(note_at(s@, i as int, k as int)));
        }
        i = k;
    }
    out
}

} // verus!
