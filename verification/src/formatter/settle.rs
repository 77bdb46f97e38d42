//! Texts without code: how a comment is laid out, and that its layout is read back as it is.
//!
//! What a comment becomes on lines of its own has no white space at the ends of its lines. Laying
//! that out again changes nothing, and the comments of the result are those that were written.
use vstd::prelude::*;
use crate::formatter;
use crate::formatter::comments;
use crate::formatter::comments::Note;
use crate::formatter::layout;
use crate::formatter::layout::Context;
use crate::formatter::layout_items;
use crate::laws;
use crate::lexer;
use crate::lexer::Lexed;
use crate::parse::grammar_items;
use crate::parse::input;
use crate::parse::input::Input;
use crate::parse::program;
use crate::text;
use crate::tree;

verus! {

/// Whether only blank space, line ends, semicolons and comments stand in `s` from `i` on.
pub open spec fn is_bare(s: Seq<char>, i: int) -> bool
    decreases s.len() - i,
{
    if i < 0 || i >= s.len() {
        true
    } else if lexer::is_blank(s[i]) || s[i] == '\n' || s[i] == ';' {
        is_bare(s, i + 1)
    } else if s[i] == '/' && lexer::peek(s, i + 1) == '/' {
        i < text::line_end(s, i) <= s.len() && is_bare(s, text::line_end(s, i))
    } else if s[i] == '/' && lexer::peek(s, i + 1) == '*' {
        match lexer::comment_end(s, i + 2) {
            Some(k) => i < k <= s.len() && is_bare(s, k),
            None => false,
        }
    } else {
        false
    }
}

/// Whether `t` is a comment up to the end of a line.
pub open spec fn is_line_comment(t: Seq<char>) -> bool {
    &&& t.len() >= 2
    &&& t[0] == '/'
    &&& t[1] == '/'
    &&& forall|j: int| 0 <= j < t.len() ==> t[j] != '\n'
}

/// Whether `*/` stands at `j`.
pub open spec fn closes(t: Seq<char>, j: int) -> bool {
    0 <= j && j + 1 < t.len() && t[j] == '*' && t[j + 1] == '/'
}

/// Whether `t` is a comment between `/*` and the first `*/` after it.
pub open spec fn is_block_comment(t: Seq<char>) -> bool {
    &&& t.len() >= 4
    &&& t[0] == '/'
    &&& t[1] == '*'
    &&& closes(t, t.len() - 2)
    &&& forall|j: int| 2 <= j < t.len() - 2 ==> !#[trigger] closes(t, j)
}

pub open spec fn is_comment(t: Seq<char>) -> bool {
    is_line_comment(t) || is_block_comment(t)
}

/// A comment on lines of its own.
pub open spec fn strip(t: Seq<char>) -> Seq<char> {
    strip_from(t, 0)
}

/// The lines of a comment from `i` on.
#[verifier::opaque]
pub open spec fn strip_from(t: Seq<char>, i: int) -> Seq<char> {
    layout::stripped_lines(text::lines_from(t, i), text::lines_from(t, i).len(), seq![])
}

// ── White space ─────────────────────────────────────────────────────────────

proof fn lemma_trim_start(s: Seq<char>) -> (m: int)
    ensures
        0 <= m <= s.len(),
        text::trim_start(s) == s.skip(m),
        m < s.len() ==> !text::is_white(s[m]),
        s.len() > 0 && !text::is_white(s[0]) ==> m == 0,
        forall|j: int| 0 <= j < m ==> text::is_white(#[trigger] s[j]),
    decreases s.len(),
{
    if s.len() > 0 && text::is_white(s[0]) {
        let k = lemma_trim_start(s.drop_first());
        assert(s.drop_first().skip(k) =~= s.skip(k + 1));
        assert forall|j: int| 0 <= j < k + 1 implies text::is_white(#[trigger] s[j]) by {
            if j > 0 {
                assert(s.drop_first()[j - 1] == s[j]);
            }
        }
        if k < s.drop_first().len() {
            assert(s.drop_first()[k] == s[k + 1]);
        }
        k + 1
    } else {
        assert(s.skip(0) =~= s);
        0
    }
}

proof fn lemma_trim_end(s: Seq<char>) -> (m: int)
    ensures
        0 <= m <= s.len(),
        text::trim_end(s) == s.take(m),
        m > 0 ==> !text::is_white(s[m - 1]),
        s.len() > 0 && !text::is_white(s.last()) ==> m == s.len(),
        forall|j: int| m <= j < s.len() ==> text::is_white(#[trigger] s[j]),
    decreases s.len(),
{
    if s.len() > 0 && text::is_white(s.last()) {
        let k = lemma_trim_end(s.drop_last());
        assert(s.drop_last().take(k) =~= s.take(k));
        assert forall|j: int| k <= j < s.len() implies text::is_white(#[trigger] s[j]) by {
            if j < s.len() - 1 {
                assert(s.drop_last()[j] == s[j]);
            }
        }
        if k > 0 {
            assert(s.drop_last()[k - 1] == s[k - 1]);
        }
        k
    } else {
        assert(s.take(s.len() as int) =~= s);
        s.len() as int
    }
}

/// A line without the white space around it.
pub open spec fn bare_line(l: Seq<char>) -> Seq<char> {
    text::trim_start(text::trim_end(l))
}

/// Where the text of a line stands in it.
proof fn lemma_bare_line(l: Seq<char>) -> (r: (int, int))
    ensures
        0 <= r.0 <= r.1 <= l.len(),
        bare_line(l) == l.subrange(r.0, r.1),
        r.0 < r.1 ==> !text::is_white(l[r.0]) && !text::is_white(l[r.1 - 1]),
        l.len() > 0 && !text::is_white(l[0]) ==> r.0 == 0 && r.1 > 0,
        l.len() > 0 && !text::is_white(l.last()) ==> r.1 == l.len() && r.0 < r.1,
        forall|j: int| 0 <= j < r.0 ==> text::is_white(#[trigger] l[j]),
        forall|j: int| r.1 <= j < l.len() ==> text::is_white(#[trigger] l[j]),
{
    let b = lemma_trim_end(l);
    let e = l.take(b);
    let a = lemma_trim_start(e);
    assert(e.skip(a) =~= l.subrange(a, b));
    if b > 0 {
        assert(e[b - 1] == l[b - 1]);
    }
    if a < b {
        assert(e[a] == l[a]);
    }
    if l.len() > 0 && !text::is_white(l[0]) {
        if b == 0 {
            assert(text::is_white(l[0]));
        }
        assert(e[0] == l[0]);
    }
    assert forall|j: int| 0 <= j < a implies text::is_white(#[trigger] l[j]) by {
        assert(e[j] == l[j]);
    }
    if a == b && b > 0 {
        assert(text::is_white(e[b - 1]));
    }
    (a, b)
}

/// What one line adds.
proof fn lemma_note_line(s: Seq<char>, l: Seq<char>)
    ensures
        layout::note_line(s, text::trim_end(l), seq![]) == s + bare_line(l) + seq!['\n'],
{
    let e = text::trim_end(l);
    let t = text::trim_start(e);
    if text::trim(e).len() == 0 {
        let m = lemma_trim_end(t);
        let a = lemma_trim_start(e);
        if t.len() > 0 {
            assert(text::is_white(t[0]));
            assert(t[0] == e[a]);
        }
        assert(s.push('\n') =~= s + t + seq!['\n']);
    } else {
        assert((s + Seq::<char>::empty() + t).push('\n') =~= s + t + seq!['\n']);
    }
}

proof fn lemma_bare_line_cr(l: Seq<char>)
    ensures
        bare_line(text::without_cr(l)) == bare_line(l),
{
    if l.len() > 0 && l.last() == '\r' {
        assert(text::is_white('\r'));
    }
}

proof fn lemma_first_line(a: Seq<char>, r: Seq<Seq<char>>, n: nat, s: Seq<char>)
    requires
        n <= r.len(),
    ensures
        layout::stripped_lines(seq![a] + r, n + 1, s) == layout::stripped_lines(
            r,
            n,
            s + bare_line(a) + seq!['\n'],
        ),
    decreases n,
{
    let ls = seq![a] + r;
    if n == 0 {
        assert(layout::stripped_lines(ls, 0, s) == s);
        assert(ls[0] == a);
        lemma_note_line(s, a);
    } else {
        lemma_first_line(a, r, (n - 1) as nat, s);
        assert(ls[n as int] == r[n - 1]);
    }
}

proof fn lemma_stripped_after(ls: Seq<Seq<char>>, n: nat, s: Seq<char>)
    requires
        n <= ls.len(),
    ensures
        layout::stripped_lines(ls, n, s) == s + layout::stripped_lines(ls, n, seq![]),
    decreases n,
{
    if n == 0 {
        assert(s + Seq::<char>::empty() =~= s);
    } else {
        lemma_stripped_after(ls, (n - 1) as nat, s);
        let p = layout::stripped_lines(ls, (n - 1) as nat, seq![]);
        lemma_note_line(s + p, ls[n - 1]);
        lemma_note_line(p, ls[n - 1]);
        let b = bare_line(ls[n - 1]);
        assert(s + p + b + seq!['\n'] =~= s + (p + b + seq!['\n']));
    }
}

proof fn lemma_line_end(s: Seq<char>, i: int)
    requires
        0 <= i <= s.len(),
    ensures
        i <= text::line_end(s, i) <= s.len(),
        text::line_end(s, i) < s.len() ==> s[text::line_end(s, i)] == '\n',
        forall|j: int| i <= j < text::line_end(s, i) ==> #[trigger] s[j] != '\n',
    decreases s.len() - i,
{
    if i < s.len() && s[i] != '\n' {
        lemma_line_end(s, i + 1);
    }
}

/// The lines from `i` on are the first of them and those after it.
proof fn lemma_strip_step(t: Seq<char>, i: int)
    requires
        0 <= i < t.len(),
    ensures
        ({
            let k = text::line_end(t, i);
            strip_from(t, i) == bare_line(t.subrange(i, k)) + seq!['\n'] + (if k < t.len() {
                strip_from(t, k + 1)
            } else {
                seq![]
            })
        }),
{
    reveal(strip_from);
    lemma_line_end(t, i);
    let k = text::line_end(t, i);
    let l = t.subrange(i, k);
    let none = Seq::<char>::empty();
    if k < t.len() {
        let r = text::lines_from(t, k + 1);
        let a = text::without_cr(l);
        assert(text::lines_from(t, i) == seq![a] + r);
        lemma_first_line(a, r, r.len(), none);
        lemma_stripped_after(r, r.len(), none + bare_line(a) + seq!['\n']);
        lemma_bare_line_cr(l);
        assert(none + bare_line(l) + seq!['\n'] =~= bare_line(l) + seq!['\n']);
    } else {
        let r = Seq::<Seq<char>>::empty();
        assert(text::lines_from(t, i) =~= seq![l] + r);
        lemma_first_line(l, r, 0, none);
        assert(none + bare_line(l) + seq!['\n'] =~= bare_line(l) + seq!['\n'] + none);
    }
}

// ── Tidy texts ──────────────────────────────────────────────────────────────

/// Whether two characters may follow each other where no line starts or ends with white space.
pub open spec fn meet(a: char, b: char) -> bool {
    &&& a == '\n' && b != '\n' ==> !text::is_white(b)
    &&& b == '\n' && a != '\n' ==> !text::is_white(a)
}

/// Whether characters `i` and `i + 1` may follow each other.
pub open spec fn meets(x: Seq<char>, i: int) -> bool {
    meet(x[i], x[i + 1])
}

/// Whether no line of `x` starts or ends with white space.
pub open spec fn is_tidy(x: Seq<char>) -> bool {
    &&& x.len() > 0 ==> x[0] == '\n' || !text::is_white(x[0])
    &&& forall|i: int| 0 <= i && i + 1 < x.len() ==> #[trigger] meets(x, i)
}

proof fn lemma_strip_tidy(t: Seq<char>, i: int)
    requires
        0 <= i <= t.len(),
    ensures
        is_tidy(strip_from(t, i)),
        i < t.len() ==> strip_from(t, i).len() > 0 && strip_from(t, i).last() == '\n',
    decreases t.len() - i,
{
    let x = strip_from(t, i);
    if i < t.len() {
        lemma_strip_step(t, i);
        lemma_line_end(t, i);
        let k = text::line_end(t, i);
        let l = t.subrange(i, k);
        let (a, b) = lemma_bare_line(l);
        let z = bare_line(l);
        let rest = if k < t.len() {
            strip_from(t, k + 1)
        } else {
            seq![]
        };
        if k < t.len() {
            lemma_strip_tidy(t, k + 1);
        }
        let n = z.len() as int;
        assert(x == z + seq!['\n'] + rest);
        assert forall|j: int| 0 <= j && j + 1 < x.len() implies #[trigger] meets(x, j) by {
            if j + 1 < n {
                assert(x[j] == t[i + a + j]);
                assert(x[j + 1] == t[i + a + j + 1]);
            } else if j + 1 == n {
                assert(x[j] == l[b - 1]);
            } else if j == n {
                assert(j + 1 < x.len() ==> x[j + 1] == rest[0]);
            } else {
                assert(x[j] == rest[j - n - 1]);
                assert(x[j + 1] == rest[j - n]);
                assert(meets(rest, j - n - 1));
            }
        }
        if n > 0 {
            assert(x[0] == l[a]);
        }
        if rest.len() > 0 {
            if k + 1 == t.len() {
                reveal(strip_from);
            }
            assert(x.last() == rest.last());
        } else {
            assert(x.last() == x[n]);
        }
    } else {
        reveal(strip_from);
        assert(text::lines_from(t, i) =~= seq![]);
    }
}

/// Squeezing keeps the first and the last character.
proof fn lemma_squeezed_ends(x: Seq<char>)
    requires
        x.len() > 0,
    ensures
        layout_items::squeezed(x).len() > 0,
        layout_items::squeezed(x)[0] == x[0],
        layout_items::squeezed(x).last() == x.last(),
    decreases x.len(),
{
    let w = x.drop_last();
    if w.len() > 0 {
        lemma_squeezed_ends(w);
        assert(w[0] == x[0]);
    } else {
        assert(layout_items::squeezed(w) =~= seq![]);
    }
}

proof fn lemma_squeezed_tidy(x: Seq<char>)
    requires
        is_tidy(x),
    ensures
        is_tidy(layout_items::squeezed(x)),
    decreases x.len(),
{
    if x.len() > 0 {
        let w = x.drop_last();
        assert forall|i: int| 0 <= i && i + 1 < w.len() implies #[trigger] meets(w, i) by {
            assert(meets(x, i));
        }
        if w.len() > 0 {
            assert(w[0] == x[0]);
        }
        lemma_squeezed_tidy(w);
        let q = layout_items::squeezed(w);
        let r = layout_items::squeezed(x);
        lemma_squeezed_ends(x);
        if w.len() > 0 {
            lemma_squeezed_ends(w);
        }
        assert forall|i: int| 0 <= i && i + 1 < r.len() implies #[trigger] meets(r, i) by {
            if i + 1 < q.len() {
                assert(meets(q, i));
                assert(r[i] == q[i] && r[i + 1] == q[i + 1]);
            } else {
                assert(r[i] == q.last());
                assert(w.len() > 0);
                let m = w.len() - 1;
                assert(meets(x, m));
                assert(w.last() == x[m]);
            }
        }
    }
}

/// Squeezing two texts is squeezing each, where the second does not start with a line feed.
proof fn lemma_squeezed_add(a: Seq<char>, b: Seq<char>)
    requires
        b.len() > 0 ==> b[0] != '\n',
    ensures
        layout_items::squeezed(a + b) == layout_items::squeezed(a) + layout_items::squeezed(b),
    decreases b.len(),
{
    let sa = layout_items::squeezed(a);
    if b.len() == 0 {
        assert(a + b =~= a);
        assert(sa + layout_items::squeezed(b) =~= sa);
    } else {
        let c = b.drop_last();
        assert((a + b).drop_last() =~= a + c);
        lemma_squeezed_add(a, c);
        let sc = layout_items::squeezed(c);
        if c.len() > 0 {
            lemma_squeezed_ends(c);
            assert(c[0] == b[0]);
        } else {
            assert(sc =~= seq![]);
            assert(b.last() == b[0]);
        }
        let t = sa + sc;
        if c.len() > 0 && layout_items::ends_with_three(t) {
            if sc.len() < 3 {
                assert(t[sa.len() as int] == sc[0]);
                assert(t[t.len() - 1] == '\n' && t[t.len() - 2] == '\n' && t[t.len() - 3] == '\n');
                assert(sc[0] == '\n');
            } else {
                assert(t[t.len() - 1] == sc[sc.len() - 1]);
                assert(t[t.len() - 2] == sc[sc.len() - 2]);
                assert(t[t.len() - 3] == sc[sc.len() - 3]);
            }
        }
        if layout_items::ends_with_three(sc) {
            assert(t[t.len() - 1] == sc[sc.len() - 1]);
            assert(t[t.len() - 2] == sc[sc.len() - 2]);
            assert(t[t.len() - 3] == sc[sc.len() - 3]);
        }
        assert(sa + layout_items::squeezed(b) =~= layout_items::squeezed(a + b));
    }
}

/// A tidy text is what its lines are laid out as.
proof fn lemma_strip_again(x: Seq<char>, i: int)
    requires
        is_tidy(x),
        x.len() > 1,
        x.last() == '\n',
        x[x.len() - 2] != '\n',
        0 <= i < x.len() - 1,
        i > 0 ==> x[i - 1] == '\n',
    ensures
        strip_from(x.drop_last(), i) == x.skip(i),
    decreases x.len() - i,
{
    let u = x.drop_last();
    lemma_strip_step(u, i);
    lemma_line_end(u, i);
    let k = text::line_end(u, i);
    let w = u.subrange(i, k);
    let (a, b) = lemma_bare_line(w);
    assert(x[k] == '\n') by {
        if k < u.len() {
            assert(u[k] == x[k]);
        }
    }
    if w.len() > 0 {
        assert(w[0] == x[i]);
        assert(u[i] != '\n');
        if i > 0 {
            assert(meets(x, i - 1));
        }
        assert(w.last() == x[k - 1]);
        assert(u[k - 1] != '\n');
        assert(meets(x, k - 1));
        assert(w.subrange(0, w.len() as int) =~= w);
    } else {
        assert(bare_line(w) =~= w);
    }
    if k < u.len() {
        assert(k + 1 < u.len()) by {
            if k + 1 == u.len() {
                assert(x[x.len() - 2] == u[k]);
            }
        }
        lemma_strip_again(x, k + 1);
        assert(w + seq!['\n'] + x.skip(k + 1) =~= x.skip(i));
    } else {
        assert(w + seq!['\n'] + Seq::<char>::empty() =~= x.skip(i));
    }
}

// ── One comment ─────────────────────────────────────────────────────────────

/// The lines of a block comment after the first end with its only `*/`.
proof fn lemma_strip_closes(t: Seq<char>, i: int)
    requires
        is_block_comment(t),
        2 <= i < t.len(),
        t[i - 1] == '\n',
    ensures
        ({
            let r = strip_from(t, i);
            &&& r.len() >= 3
            &&& closes(r, r.len() - 3)
            &&& forall|j: int| 0 <= j < r.len() - 3 ==> !#[trigger] closes(r, j)
        }),
    decreases t.len() - i,
{
    let n = t.len() as int;
    let r = strip_from(t, i);
    lemma_strip_step(t, i);
    lemma_line_end(t, i);
    let k = text::line_end(t, i);
    let l = t.subrange(i, k);
    let (a, b) = lemma_bare_line(l);
    let z = bare_line(l);
    assert(t[n - 2] == '*' && t[n - 1] == '/');
    if k < n {
        assert(k < n - 2) by {
            assert(t[k] == '\n');
        }
        lemma_strip_closes(t, k + 1);
        let rest = strip_from(t, k + 1);
        let m = z.len() + 1;
        assert(r == z + seq!['\n'] + rest);
        assert(closes(rest, rest.len() - 3));
        assert forall|j: int| 0 <= j < r.len() - 3 implies !#[trigger] closes(r, j) by {
            if j + 1 < z.len() {
                assert(r[j] == t[i + a + j] && r[j + 1] == t[i + a + j + 1]);
                assert(!closes(t, i + a + j));
            } else if j + 1 == z.len() || j == z.len() {
                assert(r[z.len() as int] == '\n');
            } else {
                assert(r[j] == rest[j - m] && r[j + 1] == rest[j - m + 1]);
                assert(!closes(rest, j - m));
            }
        }
        assert(r[r.len() - 3] == rest[rest.len() - 3] && r[r.len() - 2] == rest[rest.len() - 2]);
    } else {
        assert(i <= n - 2) by {
            if i == n - 1 {
                assert(t[i - 1] == '*');
            }
        }
        assert(l.last() == '/');
        assert(!text::is_white('/') && !text::is_white('*'));
        let m = l.len() as int;
        assert(l[m - 2] == '*');
        assert(a <= m - 2);
        assert(r =~= z + seq!['\n']);
        assert forall|j: int| 0 <= j < r.len() - 3 implies !#[trigger] closes(r, j) by {
            assert(r[j] == t[i + a + j] && r[j + 1] == t[i + a + j + 1]);
            assert(!closes(t, i + a + j));
        }
        assert(r[r.len() - 3] == l[m - 2] && r[r.len() - 2] == l[m - 1]);
    }
}

/// Squeezing makes no `*/` that was not there, beside one right at the start.
proof fn lemma_squeezed_open(x: Seq<char>)
    requires
        forall|j: int| 2 <= j ==> !#[trigger] closes(x, j),
    ensures
        forall|j: int| 2 <= j ==> !#[trigger] closes(layout_items::squeezed(x), j),
    decreases x.len(),
{
    if x.len() > 0 {
        let w = x.drop_last();
        assert forall|j: int| 2 <= j implies !#[trigger] closes(w, j) by {
            assert(!closes(x, j));
        }
        lemma_squeezed_open(w);
        lemma_squeezed_short(w);
        let q = layout_items::squeezed(w);
        let r = layout_items::squeezed(x);
        assert forall|j: int| 2 <= j implies !#[trigger] closes(r, j) by {
            assert(!closes(q, j));
            if j + 1 == q.len() && r.len() == q.len() + 1 {
                lemma_squeezed_ends(w);
                assert(r[j] == w.last());
                assert(!closes(x, x.len() - 2));
            }
        }
    }
}

proof fn lemma_squeezed_short(x: Seq<char>)
    ensures
        layout_items::squeezed(x).len() <= x.len(),
    decreases x.len(),
{
    if x.len() > 0 {
        lemma_squeezed_short(x.drop_last());
    }
}

/// Whether `x` is a comment and a line feed.
pub open spec fn is_settled(x: Seq<char>) -> bool {
    &&& x.len() > 2
    &&& x.last() == '\n'
    &&& x[x.len() - 2] != '\n'
    &&& is_comment(x.drop_last())
}

/// The first line of a comment.
proof fn lemma_opening(t: Seq<char>)
    requires
        is_comment(t),
    ensures
        ({
            let k = text::line_end(t, 0);
            let z = bare_line(t.subrange(0, k));
            &&& 2 <= k <= t.len()
            &&& 2 <= z.len() <= k
            &&& z[0] == t[0]
            &&& z[1] == t[1]
            &&& z == t.subrange(0, z.len() as int)
            &&& k == t.len() && is_block_comment(t) ==> z == t
            &&& k < t.len() ==> is_block_comment(t) && t[k] == '\n' && k + 1 < t.len()
            &&& forall|j: int| 0 <= j < z.len() ==> #[trigger] z[j] != '\n'
        }),
{
    lemma_line_end(t, 0);
    let k = text::line_end(t, 0);
    if k < 2 {
        assert(t[k] == '\n');
    }
    let l = t.subrange(0, k);
    let (a, b) = lemma_bare_line(l);
    assert(!text::is_white('/') && !text::is_white('*'));
    assert(l[0] == t[0] && l[1] == t[1]);
    if b < 2 {
        assert(text::is_white(l[1]));
    }
    assert(l.subrange(0, b) =~= t.subrange(0, b));
    if is_block_comment(t) {
        assert(closes(t, t.len() - 2));
        if k == t.len() {
            assert(l.last() == '/');
            assert(t.subrange(0, b) =~= t);
        } else if k + 1 == t.len() {
            assert(t[k] == '/');
        }
    } else if k < t.len() {
        assert(t[k] != '\n');
    }
}

proof fn lemma_one_line_laid(t: Seq<char>)
    requires
        is_comment(t),
        text::line_end(t, 0) == t.len(),
    ensures
        is_settled(layout_items::squeezed(strip(t))),
{
    lemma_opening(t);
    lemma_strip_step(t, 0);
    let z = bare_line(t.subrange(0, t.len() as int));
    let r = strip(t);
    assert(r =~= z + seq!['\n']);
    lemma_no_gaps(z);
    assert(r.drop_last() =~= z);
    assert(r[r.len() - 2] == z[z.len() - 1]);
}

proof fn lemma_more_lines_laid(t: Seq<char>)
    requires
        is_comment(t),
        text::line_end(t, 0) < t.len(),
    ensures
        is_settled(layout_items::squeezed(strip(t))),
{
    lemma_opening(t);
    lemma_strip_step(t, 0);
    let k = text::line_end(t, 0);
    let z = bare_line(t.subrange(0, k));
    let rest = strip_from(t, k + 1);
    let r = strip(t);
    lemma_strip_closes(t, k + 1);
    lemma_strip_tidy(t, k + 1);
    assert(r == z + seq!['\n'] + rest);
    let n = r.len() as int;
    let m = rest.len() as int;
    assert(closes(rest, m - 3));
    assert(r[n - 3] == rest[m - 3] && r[n - 2] == rest[m - 2] && r[n - 1] == rest[m - 1]);
    let c = r.take(n - 3);
    let tail = seq!['*', '/', '\n'];
    assert(r =~= c + tail);
    lemma_squeezed_add(c, tail);
    lemma_tail_stays();
    let star = c.push('*');
    assert forall|j: int| 2 <= j implies !#[trigger] closes(star, j) by {
        if j + 1 < star.len() {
            assert(star[j] == r[j] && star[j + 1] == r[j + 1]);
            if j + 1 < z.len() {
                assert(r[j] == t[j] && r[j + 1] == t[j + 1]);
                assert(!closes(t, j));
            } else if j + 1 == z.len() || j == z.len() {
                assert(r[z.len() as int] == '\n');
            } else {
                let d = z.len() + 1;
                assert(r[j] == rest[j - d] && r[j + 1] == rest[j - d + 1]);
                assert(!closes(rest, j - d));
            }
        }
    }
    lemma_squeezed_open(star);
    assert(star.drop_last() =~= c);
    let s = layout_items::squeezed(c);
    assert(layout_items::squeezed(star) == s.push('*'));
    let x = layout_items::squeezed(r);
    assert(x == s + tail);
    assert(c[0] == r[0] && c[1] == r[1]);
    lemma_head_stays(c);
    let u = x.drop_last();
    assert(u =~= s + seq!['*', '/']);
    assert(u[0] == '/' && u[1] == '*');
    assert(closes(u, u.len() - 2));
    assert forall|j: int| 2 <= j < u.len() - 2 implies !#[trigger] closes(u, j) by {
        assert(!closes(s.push('*'), j));
        assert(u[j] == s.push('*')[j] && u[j + 1] == s.push('*')[j + 1]);
    }
    assert(is_block_comment(u));
    assert(x[x.len() - 2] == '/');
}

/// What a comment is laid out as is a comment and a line feed, and is tidy.
proof fn lemma_comment_laid(t: Seq<char>)
    requires
        is_comment(t),
    ensures
        is_settled(layout_items::squeezed(strip(t))),
        is_tidy(layout_items::squeezed(strip(t))),
        strip(t).len() > 0,
        strip(t)[0] != '\n',
{
    lemma_opening(t);
    lemma_strip_step(t, 0);
    lemma_strip_tidy(t, 0);
    lemma_squeezed_tidy(strip(t));
    if text::line_end(t, 0) == t.len() {
        lemma_one_line_laid(t);
    } else {
        lemma_more_lines_laid(t);
    }
    assert(strip(t)[0] == bare_line(t.subrange(0, text::line_end(t, 0)))[0]);
}

proof fn lemma_tail_stays()
    ensures
        layout_items::squeezed(seq!['*', '/', '\n']) == seq!['*', '/', '\n'],
{
    lemma_no_gaps(seq!['*', '/']);
    assert(seq!['*', '/'] + seq!['\n'] =~= seq!['*', '/', '\n']);
}

/// A line is squeezed to itself.
proof fn lemma_no_gaps(z: Seq<char>)
    requires
        z.len() > 0,
        forall|j: int| 0 <= j < z.len() ==> z[j] != '\n',
    ensures
        layout_items::squeezed(z) == z,
        layout_items::squeezed(z + seq!['\n']) == z + seq!['\n'],
    decreases z.len(),
{
    let w = z.drop_last();
    if w.len() > 0 {
        lemma_no_gaps(w);
    } else {
        assert(layout_items::squeezed(w) =~= seq![]);
    }
    assert(layout_items::squeezed(z) =~= z);
    assert((z + seq!['\n']).drop_last() =~= z);
    assert(z[z.len() - 1] != '\n');
    assert(layout_items::squeezed(z + seq!['\n']) =~= z + seq!['\n']);
}

/// Two characters at the start that are no line feeds stay.
proof fn lemma_head_stays(c: Seq<char>)
    requires
        c.len() >= 2,
        c[0] != '\n',
        c[1] != '\n',
    ensures
        layout_items::squeezed(c).len() >= 2,
        layout_items::squeezed(c)[0] == c[0],
        layout_items::squeezed(c)[1] == c[1],
{
    let a = c.take(1);
    let b = c.skip(1);
    assert(a + b =~= c);
    lemma_squeezed_add(a, b);
    lemma_no_gaps(a);
    lemma_squeezed_ends(b);
}

/// A comment without the white space after it is a comment.
proof fn lemma_whole(note: Note)
    requires
        is_comment(note.text),
    ensures
        is_comment(layout::whole(note)),
{
    let t = note.text;
    let a = lemma_trim_start(t);
    assert(!text::is_white('/') && !text::is_white('*'));
    assert(t.skip(0) =~= t);
    let b = lemma_trim_end(t);
    assert(text::trim(t) == t.take(b));
    if is_block_comment(t) {
        assert(closes(t, t.len() - 2));
        assert(t.take(b) =~= t);
    } else {
        assert(b >= 2) by {
            if b < 2 {
                assert(text::is_white(t[1]));
            }
        }
    }
}

// ── Reading a text without code ─────────────────────────────────────────────

proof fn lemma_comment_end(s: Seq<char>, i: int, k: int)
    requires
        0 <= i,
        lexer::comment_end(s, i) == Some(k),
    ensures
        i + 2 <= k <= s.len(),
        closes(s, k - 2),
        forall|j: int| i <= j < k - 2 ==> !#[trigger] closes(s, j),
    decreases s.len() - i,
{
    if i + 1 < s.len() && !(s[i] == '*' && s[i + 1] == '/') {
        lemma_comment_end(s, i + 1, k);
    }
}

proof fn lemma_finds_end(s: Seq<char>, i: int, k: int)
    requires
        0 <= i <= k - 2,
        closes(s, k - 2),
        forall|j: int| i <= j < k - 2 ==> !#[trigger] closes(s, j),
    ensures
        lexer::comment_end(s, i) == Some(k),
    decreases k - i,
{
    if i < k - 2 {
        assert(!closes(s, i));
        lemma_finds_end(s, i + 1, k);
    }
}

pub open spec fn all_terms(l: Lexed) -> bool {
    &&& l.errors.len() == 0
    &&& forall|j: int| 0 <= j < l.tokens.len() ==> input::is_term((#[trigger] l.tokens[j]).token)
}

proof fn lemma_bare_lexes(s: Seq<char>, i: int, done: Lexed)
    requires
        0 <= i <= s.len(),
        is_bare(s, i),
        all_terms(done),
    ensures
        all_terms(lexer::lex_from(s, i, seq![], done)),
    decreases s.len() - i,
{
    reveal(input::is_term);
    if i < s.len() {
        lemma_line_end(s, i);
        let r = lexer::scan(s, i, seq![]);
        if s[i] == '/' && lexer::peek(s, i + 1) == '*' {
            lemma_comment_end(s, i + 2, lexer::comment_end(s, i + 2)->0);
        }
        assert(r.2 == Seq::<bool>::empty());
        lemma_bare_lexes(s, r.1, done.add_piece(s, r.0, i, r.1));
    }
}

proof fn lemma_skips_all(x: Input, i: int)
    requires
        0 <= i <= x.len(),
        forall|j: int| 0 <= j < x.toks.len() ==> input::is_term((#[trigger] x.toks[j]).token),
    ensures
        input::skip_terms(x, i) == x.len(),
    decreases x.len() - i,
{
    if i < x.len() {
        assert(input::is_term(x.toks[i].token));
        lemma_skips_all(x, i + 1);
    }
}

/// A text without code is a program without items.
pub proof fn lemma_bare_parses(src: Seq<char>)
    requires
        is_bare(src, 0),
    ensures
        formatter::fault(src) is None,
        program::parsed(program::input_of(src)) is Ok,
        program::parsed(program::input_of(src))->Ok_0.items == Seq::<tree::Item>::empty(),
{
    lemma_bare_lexes(src, 0, Lexed { tokens: seq![], errors: seq![] });
    let x = program::input_of(src);
    assert(x.len() == x.toks.len());
    lemma_skips_all(x, 0);
    reveal(grammar_items::items);
}

/// The comments of a text without code are whole.
proof fn lemma_bare_notes(s: Seq<char>, i: int, done: Seq<Note>)
    requires
        0 <= i <= s.len(),
        is_bare(s, i),
        forall|k: int| 0 <= k < done.len() ==> is_comment((#[trigger] done[k]).text),
    ensures
        ({
            let r = comments::comments_from(s, i, seq![], done);
            forall|k: int| 0 <= k < r.len() ==> is_comment((#[trigger] r[k]).text)
        }),
    decreases s.len() - i,
{
    if i < s.len() {
        lemma_line_end(s, i);
        if s[i] == '/' && lexer::peek(s, i + 1) == '/' {
            let k = text::line_end(s, i);
            let n = comments::note_at(s, i, k);
            assert(k >= i + 2) by {
                if k < i + 2 {
                    assert(k == s.len() || s[k] == '\n');
                }
            }
            assert(is_line_comment(n.text));
            assert(comments::comments_from(s, i, seq![], done) == comments::comments_from(s, k, seq![], done.push(n)));
            lemma_bare_notes(s, k, done.push(n));
        } else if s[i] == '/' && lexer::peek(s, i + 1) == '*' {
            let k = lexer::comment_end(s, i + 2)->0;
            lemma_comment_end(s, i + 2, k);
            let n = comments::note_at(s, i, k);
            let t = n.text;
            assert forall|j: int| 2 <= j < t.len() - 2 implies !#[trigger] closes(t, j) by {
                assert(!closes(s, i + j));
            }
            assert(closes(s, k - 2));
            assert(is_block_comment(t));
            assert(comments::comments_from(s, i, seq![], done) == comments::comments_from(s, k, seq![], done.push(n)));
            lemma_bare_notes(s, k, done.push(n));
        } else {
            assert(comments::comments_from(s, i, seq![], done) == comments::comments_from(s, i + 1, seq![], done));
            lemma_bare_notes(s, i + 1, done);
        }
    }
}

/// The comments from `i` on, on lines of their own.
pub open spec fn laid(notes: Seq<Note>, i: int) -> Seq<char>
    decreases notes.len() - i,
{
    if 0 <= i < notes.len() {
        strip(layout::whole(notes[i])) + laid(notes, i + 1)
    } else {
        seq![]
    }
}

proof fn lemma_top_laid(cx: Context, i: int, s: Seq<char>)
    requires
        0 <= i <= cx.notes.len(),
        forall|k: int| 0 <= k < cx.notes.len() ==> (#[trigger] cx.notes[k]).start < usize::MAX,
    ensures
        layout::top_leads(cx, i, usize::MAX as int, s).0 == s + laid(cx.notes, i),
    decreases cx.notes.len() - i,
{
    if i < cx.notes.len() {
        let t = layout::whole(cx.notes[i]);
        let ls = text::lines(t);
        lemma_stripped_after(ls, ls.len(), s);
        reveal(strip_from);
        let next = s + strip(t);
        assert(cx.notes[i].start < usize::MAX);
        lemma_top_laid(cx, i + 1, next);
        assert(next + laid(cx.notes, i + 1) =~= s + (strip(t) + laid(cx.notes, i + 1)));
    } else {
        assert(s + laid(cx.notes, i) =~= s);
    }
}

/// What formatting a text without code gives.
proof fn lemma_bare_canonical(src: Seq<char>, options: formatter::FormatOptions)
    requires
        is_bare(src, 0),
        text::byte_len(src) <= usize::MAX,
    ensures
        formatter::canonical(src, options) == layout_items::line_ended(
            layout_items::squeezed(laid(comments::comments(src), 0)),
        ),
{
    lemma_bare_parses(src);
    let cx = Context {
        src,
        notes: comments::comments(src),
        step: options.indent_width as nat,
        max: options.max_width as nat,
    };
    let p = program::parsed(program::input_of(src))->Ok_0;
    laws::lemma_comments_from(src, 0, seq![], seq![]);
    let r = layout_items::program_text(cx, p);
    assert(r.0 == Seq::<char>::empty() && r.1 == 0);
    lemma_top_laid(cx, 0, seq![]);
    assert(Seq::<char>::empty() + laid(cx.notes, 0) =~= laid(cx.notes, 0));
}

/// The texts `us[i..]`, each ended by a line feed.
pub open spec fn joined(us: Seq<Seq<char>>, i: int) -> Seq<char>
    decreases us.len() - i,
{
    if 0 <= i < us.len() {
        us[i] + seq!['\n'] + joined(us, i + 1)
    } else {
        seq![]
    }
}

/// What the comments of a text without code become.
pub open spec fn settled(notes: Seq<Note>) -> Seq<Seq<char>> {
    Seq::new(notes.len(), |i: int| layout_items::squeezed(strip(layout::whole(notes[i]))).drop_last())
}

proof fn lemma_laid_squeezed(notes: Seq<Note>, i: int)
    requires
        0 <= i <= notes.len(),
        forall|k: int| 0 <= k < notes.len() ==> is_comment((#[trigger] notes[k]).text),
    ensures
        layout_items::squeezed(laid(notes, i)) == joined(settled(notes), i),
        laid(notes, i).len() > 0 ==> laid(notes, i)[0] != '\n',
    decreases notes.len() - i,
{
    if i < notes.len() {
        let t = layout::whole(notes[i]);
        assert(is_comment(notes[i].text));
        lemma_whole(notes[i]);
        lemma_comment_laid(t);
        lemma_laid_squeezed(notes, i + 1);
        lemma_squeezed_add(strip(t), laid(notes, i + 1));
        let x = layout_items::squeezed(strip(t));
        assert(x =~= settled(notes)[i] + seq!['\n']);
        assert(laid(notes, i)[0] == strip(t)[0]);
    } else {
        assert(layout_items::squeezed(laid(notes, i)) =~= seq![]);
    }
}

/// A comment after `p`, which is empty or ends a line, is read as it is, and the text goes on
/// after its line.
proof fn lemma_reads_one(p: Seq<char>, u: Seq<char>, rest: Seq<char>, done: Seq<Note>)
    requires
        p.len() > 0 ==> p.last() == '\n',
        is_comment(u),
    ensures
        ({
            let s = p + u + seq!['\n'] + rest;
            let a = p.len() as int;
            let b = a + u.len();
            let n = comments::note_at(s, a, b);
            &&& n.text == u
            &&& n.own_line
            &&& comments::comments_from(s, a, seq![], done) == comments::comments_from(s, b + 1, seq![], done.push(n))
            &&& is_bare(s, b + 1) ==> is_bare(s, a)
        }),
{
    let s = p + u + seq!['\n'] + rest;
    let a = p.len() as int;
    let b = a + u.len();
    let n = comments::note_at(s, a, b);
    assert(s[b] == '\n');
    assert(s.subrange(a, b) =~= u);
    if a > 0 {
        assert(s[a - 1] == p.last());
    }
    assert(n.own_line);
    assert(s[a] == u[0] && s[a + 1] == u[1]);
    if u[1] == '/' {
        assert forall|j: int| a <= j < b implies s[j] != '\n' by {
            assert(s[j] == u[j - a]);
        }
        lemma_line_stops(s, a, b);
        lemma_line_stops(s, a + 2, b);
    } else {
        assert(closes(u, u.len() - 2));
        assert(s[b - 2] == u[u.len() - 2] && s[b - 1] == u[u.len() - 1]);
        assert forall|j: int| a + 2 <= j < b - 2 implies !#[trigger] closes(s, j) by {
            assert(s[j] == u[j - a] && s[j + 1] == u[j + 1 - a]);
            assert(!closes(u, j - a));
        }
        lemma_finds_end(s, a + 2, b);
    }
    let more = done.push(n);
    assert(comments::comments_from(s, a, seq![], done) == comments::comments_from(s, b, seq![], more));
    assert(comments::comments_from(s, b, seq![], more) == comments::comments_from(s, b + 1, seq![], more));
    if is_bare(s, b + 1) {
        assert(is_bare(s, b));
    }
}

/// Comments on lines of their own after `p`, which is empty or ends a line, are read as they are.
proof fn lemma_reads(p: Seq<char>, us: Seq<Seq<char>>, i: int, done: Seq<Note>)
    requires
        0 <= i <= us.len(),
        p.len() > 0 ==> p.last() == '\n',
        forall|k: int| 0 <= k < us.len() ==> is_comment(#[trigger] us[k]),
    ensures
        is_bare(p + joined(us, i), p.len() as int),
        ({
            let r = comments::comments_from(p + joined(us, i), p.len() as int, seq![], done);
            &&& r.len() == done.len() + us.len() - i
            &&& forall|k: int| 0 <= k < done.len() ==> #[trigger] r[k] == done[k]
            &&& forall|k: int| i <= k < us.len() ==> is_note(r, done.len() + k - i, #[trigger] us[k])
        }),
    decreases us.len() - i,
{
    let s = p + joined(us, i);
    let a = p.len() as int;
    if i < us.len() {
        let u = us[i];
        let b = a + u.len();
        let q = p + u + seq!['\n'];
        let rest = joined(us, i + 1);
        assert(q + rest =~= s);
        assert(is_comment(u));
        lemma_reads_one(p, u, rest, done);
        let n = comments::note_at(s, a, b);
        let more = done.push(n);
        lemma_reads(q, us, i + 1, more);
        assert(q.len() == b + 1);
        let r = comments::comments_from(s, a, seq![], done);
        assert(r[done.len() as int] == more[done.len() as int]);
        assert forall|k: int| i <= k < us.len() implies is_note(r, done.len() + k - i, #[trigger] us[k]) by {
            if k > i {
                assert(is_note(r, more.len() + k - (i + 1), us[k]));
            }
        }
        assert forall|k: int| 0 <= k < done.len() implies #[trigger] r[k] == done[k] by {
            assert(r[k] == more[k]);
        }
    } else {
        assert(s =~= p);
    }
}

/// Whether comment `k` has the text `u` and a line of its own.
pub open spec fn is_note(notes: Seq<Note>, k: int, u: Seq<char>) -> bool {
    notes[k].text == u && notes[k].own_line
}

proof fn lemma_line_stops(s: Seq<char>, i: int, k: int)
    requires
        0 <= i <= k < s.len(),
        s[k] == '\n',
        forall|j: int| i <= j < k ==> s[j] != '\n',
    ensures
        text::line_end(s, i) == k,
    decreases k - i,
{
    if i < k {
        lemma_line_stops(s, i + 1, k);
    }
}

/// Comments that have settled are laid out as they are.
proof fn lemma_laid_again(us: Seq<Seq<char>>, notes: Seq<Note>, i: int)
    requires
        0 <= i <= us.len(),
        us.len() == notes.len(),
        forall|k: int|
            0 <= k < us.len() ==> (#[trigger] notes[k]).text == us[k] && notes[k].own_line && strip(us[k]) == us[k]
                + seq!['\n'],
    ensures
        laid(notes, i) == joined(us, i),
    decreases us.len() - i,
{
    if i < us.len() {
        lemma_laid_again(us, notes, i + 1);
        assert(layout::whole(notes[i]) == us[i]);
    }
}

/// Formatting a text without code once more changes nothing.
pub proof fn lemma_bare_settles(src: Seq<char>, options: formatter::FormatOptions)
    requires
        is_bare(src, 0),
        text::byte_len(src) <= usize::MAX,
        text::byte_len(formatter::canonical(src, options)) <= usize::MAX,
    ensures
        is_bare(formatter::canonical(src, options), 0),
        formatter::canonical(formatter::canonical(src, options), options) == formatter::canonical(src, options),
{
    let notes = comments::comments(src);
    let out = formatter::canonical(src, options);
    let us = settled(notes);
    lemma_bare_canonical(src, options);
    lemma_bare_notes(src, 0, seq![]);
    lemma_laid_squeezed(notes, 0);
    assert forall|k: int| 0 <= k < us.len() implies is_comment(#[trigger] us[k]) && strip(us[k]) == us[k] + seq!['\n']
        && layout_items::squeezed(us[k] + seq!['\n']) == us[k] + seq!['\n'] by {
        let t = layout::whole(notes[k]);
        assert(is_comment(notes[k].text));
        lemma_whole(notes[k]);
        lemma_comment_laid(t);
        let x = layout_items::squeezed(strip(t));
        assert(us[k] + seq!['\n'] =~= x);
        lemma_strip_again(x, 0);
        assert(x.skip(0) =~= x);
        laws::law_squeezing_is_stable(strip(t));
    }
    if us.len() == 0 {
        assert(joined(us, 0) =~= seq![]);
        assert(out =~= seq!['\n']);
        assert(is_bare(out, 1));
        assert(is_bare(out, 0));
        assert(comments::comments_from(out, 1, seq![], seq![]) =~= seq![]);
        assert(comments::comments(out) =~= seq![]);
        lemma_bare_canonical(out, options);
        assert(laid(comments::comments(out), 0) =~= seq![]);
        assert(layout_items::squeezed(laid(comments::comments(out), 0)) =~= seq![]);
        assert(layout_items::line_ended(Seq::<char>::empty()) =~= seq!['\n']);
    } else {
        lemma_joined_ends(us, 0);
        assert(out == joined(us, 0));
        let none = Seq::<char>::empty();
        assert(none + joined(us, 0) =~= out);
        lemma_reads(none, us, 0, seq![]);
        let again = comments::comments(out);
        assert forall|k: int| 0 <= k < us.len() implies (#[trigger] again[k]).text == us[k] && again[k].own_line
            && strip(us[k]) == us[k] + seq!['\n'] by {
            assert(is_comment(us[k]));
            assert(is_note(again, 0 + k - 0, us[k]));
        }
        lemma_laid_again(us, again, 0);
        lemma_bare_canonical(out, options);
        assert(layout_items::squeezed(out) == out) by {
            laws::law_squeezing_is_stable(laid(notes, 0));
        }
    }
}

proof fn lemma_joined_ends(us: Seq<Seq<char>>, i: int)
    requires
        0 <= i < us.len(),
    ensures
        joined(us, i).len() > 0,
        joined(us, i).last() == '\n',
    decreases us.len() - i,
{
    if i + 1 < us.len() {
        lemma_joined_ends(us, i + 1);
        assert(joined(us, i).last() == joined(us, i + 1).last());
    } else {
        assert(joined(us, i + 1) =~= seq![]);
        assert(joined(us, i) =~= us[i] + seq!['\n']);
    }
}

} // verus!
