//! Which lines of a comment a text shows.
//!
//! What the layout does to a comment that it has written leaves every line of it whole: it adds
//! text around lines, splits texts into lines and joins them again, and drops line ends.
use vstd::prelude::*;
use crate::formatter::layout::Context;
use crate::text;

verus! {

/// Whether `part` stands somewhere in `s`.
#[verifier::opaque]
pub open spec fn occurs(part: Seq<char>, s: Seq<char>) -> bool {
    exists|i: int| 0 <= i && i + part.len() <= s.len() && #[trigger] s.subrange(i, i + part.len()) == part
}

/// Whether `s` shows the lines of `part`: each of them that is not blank stands in `s`, without
/// the white space around it.
#[verifier::opaque]
pub open spec fn shows(s: Seq<char>, part: Seq<char>) -> bool {
    forall|j: int|
        0 <= j < text::lines(part).len() && text::trim(#[trigger] text::lines(part)[j]).len() > 0 ==> occurs(
            text::trim(text::lines(part)[j]),
            s,
        )
}

/// Whether `s` shows comment `k`.
#[verifier::opaque]
pub open spec fn says(cx: Context, k: int, s: Seq<char>) -> bool {
    shows(s, cx.notes[k].text)
}

/// Whether `s` shows comment `k`, where there is an `s`.
pub open spec fn says_some(cx: Context, k: int, s: Option<Seq<char>>) -> bool {
    s is Some && says(cx, k, s->0)
}

/// Whether `part` is within a line, and neither starts nor ends with white space.
pub open spec fn is_solid(part: Seq<char>) -> bool {
    &&& part.len() > 0
    &&& !text::is_white(part[0])
    &&& !text::is_white(part.last())
    &&& forall|i: int| 0 <= i < part.len() ==> part[i] != '\n'
}

/// Whether what stands within the lines of `a` stands in `b`.
pub open spec fn carries(a: Seq<char>, b: Seq<char>) -> bool {
    forall|l: Seq<char>|
        #![trigger occurs(l, a)]
        #![trigger occurs(l, b)]
        is_solid(l) && occurs(l, a) ==> occurs(l, b)
}

// ── Occurrences ─────────────────────────────────────────────────────────────

/// What stands in a part stands in the whole.
pub broadcast proof fn occurs_add(part: Seq<char>, a: Seq<char>, b: Seq<char>)
    ensures
        occurs(part, a) || occurs(part, b) ==> #[trigger] occurs(part, a + b),
{
    reveal(occurs);
    if occurs(part, a) {
        let i = choose|i: int|
            0 <= i && i + part.len() <= a.len() && #[trigger] a.subrange(i, i + part.len()) == part;
        assert((a + b).subrange(i, i + part.len()) =~= part);
    } else if occurs(part, b) {
        let i = choose|i: int|
            0 <= i && i + part.len() <= b.len() && #[trigger] b.subrange(i, i + part.len()) == part;
        let j = a.len() + i;
        assert((a + b).subrange(j, j + part.len()) =~= part);
    }
}

/// A further character hides nothing.
pub broadcast proof fn occurs_push(part: Seq<char>, a: Seq<char>, c: char)
    ensures
        occurs(part, a) ==> #[trigger] occurs(part, a.push(c)),
{
    assert(a.push(c) =~= a + seq![c]);
    occurs_add(part, a, seq![c]);
}

/// What stands within a line stands on one side of a line end.
pub proof fn lemma_split(part: Seq<char>, a: Seq<char>, b: Seq<char>)
    requires
        is_solid(part),
        occurs(part, a.push('\n') + b),
    ensures
        occurs(part, a) || occurs(part, b),
{
    reveal(occurs);
    let s = a.push('\n') + b;
    let i = choose|i: int|
        0 <= i && i + part.len() <= s.len() && #[trigger] s.subrange(i, i + part.len()) == part;
    let n = a.len() as int;
    if i <= n < i + part.len() {
        assert(part[n - i] == s[n]);
    }
    if i + part.len() <= n {
        assert(a.subrange(i, i + part.len()) =~= part);
    } else {
        let j = i - n - 1;
        assert(b.subrange(j, j + part.len()) =~= part);
    }
}

/// White space at an end can go.
pub proof fn lemma_without_white_end(part: Seq<char>, a: Seq<char>, c: char)
    requires
        is_solid(part),
        text::is_white(c),
        occurs(part, a.push(c)),
    ensures
        occurs(part, a),
{
    reveal(occurs);
    let s = a.push(c);
    let i = choose|i: int|
        0 <= i && i + part.len() <= s.len() && #[trigger] s.subrange(i, i + part.len()) == part;
    if i + part.len() == s.len() {
        assert(part.last() == s.last());
    }
    assert(a.subrange(i, i + part.len()) =~= part);
}

proof fn lemma_without_white_start(part: Seq<char>, s: Seq<char>)
    requires
        is_solid(part),
        s.len() > 0,
        text::is_white(s[0]),
        occurs(part, s),
    ensures
        occurs(part, s.drop_first()),
{
    reveal(occurs);
    let i = choose|i: int|
        0 <= i && i + part.len() <= s.len() && #[trigger] s.subrange(i, i + part.len()) == part;
    if i == 0 {
        assert(part[0] == s[0]);
    }
    let j = i - 1;
    assert(s.drop_first().subrange(j, j + part.len()) =~= part);
}

/// Dropping white space at the end keeps the lines.
pub proof fn lemma_carries_drop_last(s: Seq<char>)
    requires
        s.len() > 0,
        text::is_white(s.last()),
    ensures
        carries(s, s.drop_last()),
{
    assert forall|l: Seq<char>| is_solid(l) && #[trigger] occurs(l, s) implies occurs(l, s.drop_last()) by {
        assert(s =~= s.drop_last().push(s.last()));
        lemma_without_white_end(l, s.drop_last(), s.last());
    }
}

/// Dropping white space at the start keeps the lines.
pub proof fn lemma_carries_drop_first(s: Seq<char>)
    requires
        s.len() > 0,
        text::is_white(s[0]),
    ensures
        carries(s, s.drop_first()),
{
    assert forall|l: Seq<char>| is_solid(l) && #[trigger] occurs(l, s) implies occurs(l, s.drop_first()) by {
        lemma_without_white_start(l, s);
    }
}

proof fn lemma_carries_trim_start(s: Seq<char>)
    ensures
        carries(s, text::trim_start(s)),
    decreases s.len(),
{
    if s.len() > 0 && text::is_white(s[0]) {
        lemma_carries_drop_first(s);
        lemma_carries_trim_start(s.drop_first());
    }
}

/// Trimming the end keeps the lines.
pub proof fn lemma_carries_trim_end(s: Seq<char>)
    ensures
        carries(s, text::trim_end(s)),
    decreases s.len(),
{
    if s.len() > 0 && text::is_white(s.last()) {
        lemma_carries_drop_last(s);
        lemma_carries_trim_end(s.drop_last());
    }
}

/// Trimming keeps the lines.
pub proof fn lemma_carries_trim(s: Seq<char>)
    ensures
        carries(s, text::trim_start(s)),
        carries(s, text::trim(s)),
{
    lemma_carries_trim_start(s);
    lemma_carries_trim_end(text::trim_start(s));
}

/// Dropping line feeds at the end keeps the lines.
pub proof fn lemma_carries_trim_newlines(s: Seq<char>)
    ensures
        carries(s, text::trim_newlines(s)),
    decreases s.len(),
{
    if s.len() > 0 && s.last() == '\n' {
        lemma_carries_drop_last(s);
        lemma_carries_trim_newlines(s.drop_last());
    }
}

proof fn lemma_trimmed_start(s: Seq<char>)
    ensures
        text::trim_start(s).len() > 0 ==> !text::is_white(text::trim_start(s)[0]),
        forall|l: Seq<char>| #[trigger] occurs(l, text::trim_start(s)) ==> occurs(l, s),
        (forall|i: int| 0 <= i < s.len() ==> s[i] != '\n') ==> (forall|i: int|
            0 <= i < text::trim_start(s).len() ==> text::trim_start(s)[i] != '\n'),
    decreases s.len(),
{
    broadcast use {occurs_add, occurs_push};

    if s.len() > 0 && text::is_white(s[0]) {
        lemma_trimmed_start(s.drop_first());
        assert(s =~= seq![s[0]] + s.drop_first());
    }
}

proof fn lemma_trimmed_end(s: Seq<char>)
    ensures
        text::trim_end(s).len() > 0 ==> !text::is_white(text::trim_end(s).last()) && text::trim_end(s)[0] == s[0],
        forall|l: Seq<char>| #[trigger] occurs(l, text::trim_end(s)) ==> occurs(l, s),
        (forall|i: int| 0 <= i < s.len() ==> s[i] != '\n') ==> (forall|i: int|
            0 <= i < text::trim_end(s).len() ==> text::trim_end(s)[i] != '\n'),
    decreases s.len(),
{
    broadcast use {occurs_add, occurs_push};

    if s.len() > 0 && text::is_white(s.last()) {
        lemma_trimmed_end(s.drop_last());
        assert(s =~= s.drop_last().push(s.last()));
    }
}

/// A line without the white space around it stands in the line.
pub proof fn lemma_trimmed(l: Seq<char>)
    requires
        forall|i: int| 0 <= i < l.len() ==> l[i] != '\n',
        text::trim(l).len() > 0,
    ensures
        is_solid(text::trim(l)),
        occurs(text::trim(l), l),
{
    let a = text::trim_start(l);
    let t = text::trim(l);
    lemma_trimmed_start(l);
    lemma_trimmed_end(a);
    reveal(occurs);
    assert(t.subrange(0int, 0int + t.len()) =~= t);
    assert(occurs(t, t));
}

// ── Lines ───────────────────────────────────────────────────────────────────

proof fn lemma_line_end_range(s: Seq<char>, i: int)
    requires
        0 <= i <= s.len(),
    ensures
        i <= text::line_end(s, i) <= s.len(),
        text::line_end(s, i) < s.len() ==> s[text::line_end(s, i)] == '\n',
        forall|k: int| i <= k < text::line_end(s, i) ==> s[k] != '\n',
    decreases s.len() - i,
{
    if i < s.len() && s[i] != '\n' {
        lemma_line_end_range(s, i + 1);
    }
}

proof fn lemma_lines_from(s: Seq<char>, i: int)
    requires
        0 <= i <= s.len(),
    ensures
        forall|j: int, x: int|
            0 <= j < text::lines_from(s, i).len() && 0 <= x < text::lines_from(s, i)[j].len()
                ==> #[trigger] text::lines_from(s, i)[j][x] != '\n',
        forall|j: int|
            0 <= j < text::lines_from(s, i).len() ==> carries(#[trigger] text::lines_from(s, i)[j], s.skip(i)),
        forall|l: Seq<char>|
            is_solid(l) && #[trigger] occurs(l, s.skip(i)) ==> exists|j: int|
                0 <= j < text::lines_from(s, i).len() && occurs(l, #[trigger] text::lines_from(s, i)[j]),
    decreases s.len() - i,
{
    broadcast use {occurs_add, occurs_push};

    let k = text::line_end(s, i);
    let ls = text::lines_from(s, i);
    lemma_line_end_range(s, i);
    if i < s.len() {
        let a = s.subrange(i, k);
        if k < s.len() {
            let c = text::without_cr(a);
            let more = text::lines_from(s, k + 1);
            let tail = s.skip(k + 1);
            lemma_lines_from(s, k + 1);
            assert(ls == seq![c] + more);
            assert(s.skip(i) =~= a.push('\n') + tail);
            if a.len() > 0 && a.last() == '\r' {
                lemma_carries_drop_last(a);
                assert(a =~= c.push('\r'));
            }
            assert(carries(a, c));
            assert(carries(c, a));
            assert forall|j: int, x: int| 0 <= j < ls.len() && 0 <= x < ls[j].len() implies #[trigger] ls[j][x]
                != '\n' by {
                if j == 0 {
                    assert(c[x] == s[i + x]);
                } else {
                    assert(ls[j] == more[j - 1]);
                    assert(more[j - 1][x] != '\n');
                }
            }
            assert forall|j: int| 0 <= j < ls.len() implies carries(#[trigger] ls[j], s.skip(i)) by {
                if j > 0 {
                    assert(ls[j] == more[j - 1]);
                    assert(carries(more[j - 1], tail));
                }
            }
            assert forall|l: Seq<char>| is_solid(l) && #[trigger] occurs(l, s.skip(i)) implies exists|j: int|
                0 <= j < ls.len() && occurs(l, #[trigger] ls[j]) by {
                lemma_split(l, a, tail);
                if occurs(l, a) {
                    assert(occurs(l, ls[0]));
                } else {
                    let j = choose|j: int| 0 <= j < more.len() && occurs(l, #[trigger] more[j]);
                    assert(ls[j + 1] == more[j]);
                }
            }
        } else {
            assert(a =~= s.skip(i));
            assert(ls =~= seq![a]);
            assert forall|l: Seq<char>| is_solid(l) && #[trigger] occurs(l, s.skip(i)) implies exists|j: int|
                0 <= j < ls.len() && occurs(l, #[trigger] ls[j]) by {
                assert(occurs(l, ls[0]));
            }
            assert forall|j: int, x: int| 0 <= j < ls.len() && 0 <= x < ls[j].len() implies #[trigger] ls[j][x]
                != '\n' by {
                assert(a[x] == s[i + x]);
            }
        }
    } else {
        assert forall|l: Seq<char>| is_solid(l) && #[trigger] occurs(l, s.skip(i)) implies exists|j: int|
            0 <= j < ls.len() && occurs(l, #[trigger] ls[j]) by {
            reveal(occurs);
            assert(s.skip(i).len() == 0);
        }
    }
}

/// What carries each line of a text carries the text.
pub proof fn lemma_lines_carry(s: Seq<char>, r: Seq<char>)
    requires
        forall|j: int| 0 <= j < text::lines(s).len() ==> carries(#[trigger] text::lines(s)[j], r),
    ensures
        carries(s, r),
{
    lemma_lines_from(s, 0);
    assert(s.skip(0) =~= s);
    assert forall|l: Seq<char>| is_solid(l) && #[trigger] occurs(l, s) implies occurs(l, r) by {
        let j = choose|j: int| 0 <= j < text::lines(s).len() && occurs(l, #[trigger] text::lines(s)[j]);
        assert(carries(text::lines(s)[j], r));
    }
}

// ── Saying ──────────────────────────────────────────────────────────────────

/// What is shown stays shown where the lines are carried on.
pub proof fn lemma_says_carried(cx: Context, k: int, a: Seq<char>, b: Seq<char>)
    requires
        carries(a, b),
    ensures
        says(cx, k, a) ==> says(cx, k, b),
{
    reveal(says);
    reveal(shows);
    let note = cx.notes[k].text;
    let ls = text::lines(note);
    lemma_lines_from(note, 0);
    if says(cx, k, a) {
        assert forall|j: int| 0 <= j < ls.len() && text::trim(#[trigger] ls[j]).len() > 0 implies occurs(
            text::trim(ls[j]),
            b,
        ) by {
            assert forall|x: int| 0 <= x < ls[j].len() implies ls[j][x] != '\n' by {
                assert(text::lines_from(note, 0)[j][x] != '\n');
            }
            lemma_trimmed(ls[j]);
            assert(occurs(text::trim(ls[j]), a));
        }
    }
}

/// What is shown in a part is shown in the whole.
pub broadcast proof fn says_add(cx: Context, k: int, a: Seq<char>, b: Seq<char>)
    ensures
        says(cx, k, a) || says(cx, k, b) ==> #[trigger] says(cx, k, a + b),
{
    broadcast use occurs_add;

    lemma_says_carried(cx, k, a, a + b);
    lemma_says_carried(cx, k, b, a + b);
}

/// A further character hides no comment.
pub broadcast proof fn says_push(cx: Context, k: int, a: Seq<char>, c: char)
    ensures
        says(cx, k, a) ==> #[trigger] says(cx, k, a.push(c)),
{
    broadcast use occurs_push;

    lemma_says_carried(cx, k, a, a.push(c));
}

/// A text shows its own lines.
pub proof fn lemma_shows_itself(s: Seq<char>)
    ensures
        shows(s, s),
{
    reveal(shows);
    let ls = text::lines(s);
    lemma_lines_from(s, 0);
    assert(s.skip(0) =~= s);
    assert forall|j: int| 0 <= j < ls.len() && text::trim(#[trigger] ls[j]).len() > 0 implies occurs(
        text::trim(ls[j]),
        s,
    ) by {
        assert forall|x: int| 0 <= x < ls[j].len() implies ls[j][x] != '\n' by {
            assert(text::lines_from(s, 0)[j][x] != '\n');
        }
        lemma_trimmed(ls[j]);
        assert(carries(text::lines_from(s, 0)[j], s.skip(0)));
    }
}

/// What carries the lines of a comment shows the comment.
pub proof fn lemma_says_itself(cx: Context, k: int, s: Seq<char>)
    requires
        carries(cx.notes[k].text, s),
    ensures
        says(cx, k, s),
{
    lemma_shows_itself(cx.notes[k].text);
    assert(says(cx, k, cx.notes[k].text)) by {
        reveal(says);
    }
    lemma_says_carried(cx, k, cx.notes[k].text, s);
}

} // verus!
