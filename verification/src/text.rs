//! Character sequences: the buffers that the lexer reads and the formatter fills.
//!
//! Text under construction is a `Vec<char>`; its view is a `Seq<char>`, and the
//! specification functions of this module say what each operation makes of it.
use vstd::prelude::*;

verus! {

/// Appends one character to a string.
///
/// `String::push` is documented to append the given `char` to the end of the string.
pub assume_specification[ String::push ](s: &mut String, c: char)
    ensures
        final(s)@ == old(s)@.push(c),
;

// ── Widths ──────────────────────────────────────────────────────────────────

/// Number of bytes that `c` takes in UTF-8.
pub open spec fn char_width(c: char) -> nat {
    if (c as u32) < 0x80 {
        1
    } else if (c as u32) < 0x800 {
        2
    } else if (c as u32) < 0x10000 {
        3
    } else {
        4
    }
}

/// Number of bytes that `s` takes in UTF-8.
pub open spec fn byte_len(s: Seq<char>) -> nat
    decreases s.len(),
{
    if s.len() == 0 {
        0
    } else {
        byte_len(s.drop_last()) + char_width(s.last())
    }
}

/// The byte offset at which character `k` of `s` starts.
pub open spec fn offset(s: Seq<char>, k: int) -> nat {
    byte_len(s.take(k))
}

pub proof fn lemma_byte_len_add(a: Seq<char>, b: Seq<char>)
    ensures
        byte_len(a + b) == byte_len(a) + byte_len(b),
    decreases b.len(),
{
    if b.len() == 0 {
        assert(a + b =~= a);
    } else {
        lemma_byte_len_add(a, b.drop_last());
        assert((a + b).drop_last() =~= a + b.drop_last());
    }
}

pub proof fn lemma_byte_len_encoding(s: Seq<char>)
    ensures
        byte_len(s) == vstd::utf8::encode_utf8(s).len(),
    decreases s.len(),
{
    if s.len() > 0 {
        lemma_byte_len_encoding(s.drop_first());
        assert(s =~= seq![s[0]] + s.drop_first());
        lemma_byte_len_add(seq![s[0]], s.drop_first());
        assert(seq![s[0]].drop_last() =~= Seq::<char>::empty());
        assert(byte_len(seq![s[0]]) == byte_len(seq![s[0]].drop_last()) + char_width(s[0]));
        vstd::utf8::char_is_scalar(s[0]);
        assert(vstd::utf8::encode_scalar(s[0] as u32).len() == char_width(s[0]));
    }
}

pub proof fn lemma_byte_len_bound(s: Seq<char>)
    ensures
        s.len() <= byte_len(s) <= 4 * s.len(),
    decreases s.len(),
{
    if s.len() > 0 {
        lemma_byte_len_bound(s.drop_last());
    }
}

/// Offsets grow strictly with the character index.
pub proof fn lemma_offset_step(s: Seq<char>, k: int)
    requires
        0 <= k < s.len(),
    ensures
        offset(s, k + 1) == offset(s, k) + char_width(s[k]),
{
    assert(s.take(k + 1).drop_last() =~= s.take(k));
}

pub proof fn lemma_offset_monotone(s: Seq<char>, j: int, k: int)
    requires
        0 <= j <= k <= s.len(),
    ensures
        offset(s, j) + (k - j) <= offset(s, k),
    decreases k - j,
{
    if j < k {
        lemma_offset_monotone(s, j, k - 1);
        lemma_offset_step(s, k - 1);
    }
}

pub fn width_of(c: char) -> (n: u8)
    ensures
        n == char_width(c),
        1 <= n <= 4,
{
    let v: u32 = c as u32;
    if v < 0x80 {
        1
    } else if v < 0x800 {
        2
    } else if v < 0x10000 {
        3
    } else {
        4
    }
}

/// Size of `t` in UTF-8.
pub fn text_width(t: &Vec<char>) -> (n: u128)
    ensures
        n == byte_len(t@),
{
    let mut n: u128 = 0;
    let mut i: usize = 0;
    while i < t.len()
        invariant
            i <= t.len(),
            n == byte_len(t@.take(i as int)),
            n <= 4 * i,
        decreases t.len() - i,
    {
        proof {
            lemma_offset_step(t@, i as int);
        }
        n = n + width_of(t[i]) as u128;
        i = i + 1;
    }
    assert(t@.take(i as int) =~= t@);
    n
}

// ── Building ────────────────────────────────────────────────────────────────

/// `n` spaces.
pub open spec fn spaces(n: nat) -> Seq<char> {
    Seq::new(n, |i: int| ' ')
}

/// `s` filled up with spaces to at least `n` characters.
pub open spec fn padded(s: Seq<char>, n: nat) -> Seq<char> {
    if s.len() < n {
        s + spaces((n - s.len()) as nat)
    } else {
        s
    }
}

/// The characters of a string.
pub fn chars_of(s: &str) -> (r: Vec<char>)
    ensures
        r@ == s@,
{
    let mut out: Vec<char> = Vec::new();
    for c in it: s.chars()
        invariant
            out@ == s@.take(it.index()),
            it.seq() == s@,
    {
        out.push(c);
        assert(s@.take(it.index() + 1) =~= s@.take(it.index()).push(c));
    }
    assert(s@.take(s@.len() as int) =~= s@);
    out
}

/// The string that holds the characters of `t`.
pub fn to_text(t: &Vec<char>) -> (r: String)
    ensures
        r@ == t@,
{
    let mut out: String = String::new();
    let mut i: usize = 0;
    while i < t.len()
        invariant
            i <= t.len(),
            out@ == t@.take(i as int),
        decreases t.len() - i,
    {
        out.push(t[i]);
        assert(t@.take(i + 1) =~= t@.take(i as int).push(t@[i as int]));
        i = i + 1;
    }
    assert(t@.take(i as int) =~= t@);
    out
}

/// Appends the characters of `s`.
pub fn push_str(out: &mut Vec<char>, s: &str)
    ensures
        final(out)@ == old(out)@ + s@,
{
    for c in it: s.chars()
        invariant
            out@ == old(out)@ + s@.take(it.index()),
            it.seq() == s@,
    {
        out.push(c);
        assert(s@.take(it.index() + 1) =~= s@.take(it.index()).push(c));
        assert(out@ =~= old(out)@ + s@.take(it.index() + 1));
    }
    assert(s@.take(s@.len() as int) =~= s@);
}

/// Appends a copy of `t`.
pub fn push_text(out: &mut Vec<char>, t: &Vec<char>)
    ensures
        final(out)@ == old(out)@ + t@,
{
    let mut i: usize = 0;
    while i < t.len()
        invariant
            i <= t.len(),
            out@ == old(out)@ + t@.take(i as int),
        decreases t.len() - i,
    {
        out.push(t[i]);
        assert(out@ =~= old(out)@ + t@.take(i + 1));
        i = i + 1;
    }
    assert(t@.take(i as int) =~= t@);
}

/// Appends `n` spaces.
pub fn push_spaces(out: &mut Vec<char>, n: usize)
    ensures
        final(out)@ == old(out)@ + spaces(n as nat),
{
    let mut i: usize = 0;
    while i < n
        invariant
            i <= n,
            out@ == old(out)@ + spaces(i as nat),
        decreases n - i,
    {
        out.push(' ');
        i = i + 1;
        assert(out@ =~= old(out)@ + spaces(i as nat));
    }
}

/// Appends the margin of `levels` indentation steps, each `step` wide.
pub fn push_margin(out: &mut Vec<char>, levels: usize, step: usize)
    ensures
        final(out)@ == old(out)@ + spaces((levels * step) as nat),
{
    let mut i: usize = 0;
    assert(0 * step == 0) by (nonlinear_arith);
    assert(out@ =~= old(out)@ + spaces(0));
    while i < levels
        invariant
            i <= levels,
            0 <= i * step,
            out@ == old(out)@ + spaces((i * step) as nat),
        decreases levels - i,
    {
        assert((i + 1) * step == i * step + step) by (nonlinear_arith);
        push_spaces(out, step);
        i = i + 1;
        assert(out@ =~= old(out)@ + spaces((i * step) as nat));
    }
}

/// Appends `t`, filled up with spaces to `n` characters.
pub fn push_padded(out: &mut Vec<char>, t: &Vec<char>, n: u128)
    ensures
        final(out)@ == old(out)@ + padded(t@, n as nat),
{
    push_text(out, t);
    let mut k: u128 = t.len() as u128;
    while k < n
        invariant
            k >= t.len(),
            k <= n || k == t.len(),
            out@ == old(out)@ + (t@ + spaces((k - t.len()) as nat)),
        decreases n - k,
    {
        out.push(' ');
        k = k + 1;
        assert(out@ =~= old(out)@ + (t@ + spaces((k - t.len()) as nat)));
    }
    assert(t@ + spaces(0) =~= t@);
}

/// A copy of `t[from..to]`.
pub fn copy_range(t: &Vec<char>, from: usize, to: usize) -> (r: Vec<char>)
    requires
        from <= to <= t.len(),
    ensures
        r@ == t@.subrange(from as int, to as int),
{
    let mut out: Vec<char> = Vec::new();
    let mut i: usize = from;
    while i < to
        invariant
            from <= i <= to <= t.len(),
            out@ == t@.subrange(from as int, i as int),
        decreases to - i,
    {
        out.push(t[i]);
        assert(out@ =~= t@.subrange(from as int, i + 1));
        i = i + 1;
    }
    out
}

// ── Comparing ───────────────────────────────────────────────────────────────

/// Whether `t` and `u` hold the same characters.
pub fn same_text(t: &Vec<char>, u: &Vec<char>) -> (r: bool)
    ensures
        r == (t@ == u@),
{
    if t.len() != u.len() {
        return false;
    }
    let mut i: usize = 0;
    while i < t.len()
        invariant
            i <= t.len(),
            t.len() == u.len(),
            t@.take(i as int) == u@.take(i as int),
        decreases t.len() - i,
    {
        if t[i] != u[i] {
            return false;
        }
        assert(t@.take(i + 1) =~= t@.take(i as int).push(t@[i as int]));
        assert(u@.take(i + 1) =~= u@.take(i as int).push(u@[i as int]));
        i = i + 1;
    }
    assert(t@.take(i as int) =~= t@);
    assert(u@.take(i as int) =~= u@);
    true
}

/// Whether `t` holds the characters of `s`.
pub fn text_is(t: &Vec<char>, s: &str) -> (r: bool)
    ensures
        r == (t@ == s@),
{
    let u = chars_of(s);
    same_text(t, &u)
}

/// Whether two strings hold the same characters.
pub fn same_str(a: &str, b: &str) -> (r: bool)
    ensures
        r == (a@ == b@),
{
    let x = chars_of(a);
    let y = chars_of(b);
    same_text(&x, &y)
}

/// Whether `s` has the characters of `p` at index `i`.
pub open spec fn has_at(s: Seq<char>, i: int, p: Seq<char>) -> bool {
    0 <= i && i + p.len() <= s.len() && s.subrange(i, i + p.len()) == p
}

pub fn text_has_at(t: &Vec<char>, i: usize, p: &str) -> (r: bool)
    ensures
        r == has_at(t@, i as int, p@),
{
    let q = chars_of(p);
    if i > t.len() || t.len() - i < q.len() {
        return false;
    }
    let mut k: usize = 0;
    while k < q.len()
        invariant
            k <= q.len(),
            i + q.len() <= t.len(),
            q@ == p@,
            t@.subrange(i as int, i + k) == p@.take(k as int),
        decreases q.len() - k,
    {
        if t[i + k] != q[k] {
            assert(t@.subrange(i as int, i + q.len())[k as int] != p@[k as int]);
            return false;
        }
        assert(t@.subrange(i as int, i + k + 1) =~= t@.subrange(i as int, i + k).push(t@[i + k]));
        assert(p@.take(k + 1) =~= p@.take(k as int).push(p@[k as int]));
        k = k + 1;
    }
    assert(p@.take(k as int) =~= p@);
    true
}

// ── Trimming ────────────────────────────────────────────────────────────────

/// What `char::is_alphanumeric` says of a character.
pub uninterp spec fn is_alphanumeric(c: char) -> bool;

/// Whether a character is a letter or a digit: `char::is_alphanumeric` of the standard library,
/// which goes by tables of Unicode. Of the characters of ASCII it holds for `0` to `9`, `A` to `Z`
/// and `a` to `z`; of the others nothing but its name is stated.
#[verifier::external_body]
pub(crate) fn char_is_alphanumeric(c: char) -> (r: bool)
    ensures
        r == is_alphanumeric(c),
        c as u32 <= 127 ==> r == ('0' <= c <= '9' || 'A' <= c <= 'Z' || 'a' <= c <= 'z'),
{
    c.is_alphanumeric()
}

/// The characters with the Unicode property `White_Space`.
pub open spec fn is_white(c: char) -> bool {
    ||| 9 <= c as u32 <= 13
    ||| c as u32 == 0x20
    ||| c as u32 == 0x85
    ||| c as u32 == 0xa0
    ||| c as u32 == 0x1680
    ||| 0x2000 <= c as u32 <= 0x200a
    ||| c as u32 == 0x2028
    ||| c as u32 == 0x2029
    ||| c as u32 == 0x202f
    ||| c as u32 == 0x205f
    ||| c as u32 == 0x3000
}

pub fn char_is_white(c: char) -> (r: bool)
    ensures
        r == is_white(c),
{
    let v: u32 = c as u32;
    (9 <= v && v <= 13) || v == 0x20 || v == 0x85 || v == 0xa0 || v == 0x1680 || (0x2000 <= v && v
        <= 0x200a) || v == 0x2028 || v == 0x2029 || v == 0x202f || v == 0x205f || v == 0x3000
}

/// `s` without its leading white space.
pub open spec fn trim_start(s: Seq<char>) -> Seq<char>
    decreases s.len(),
{
    if s.len() > 0 && is_white(s[0]) {
        trim_start(s.drop_first())
    } else {
        s
    }
}

/// `s` without its trailing white space.
pub open spec fn trim_end(s: Seq<char>) -> Seq<char>
    decreases s.len(),
{
    if s.len() > 0 && is_white(s.last()) {
        trim_end(s.drop_last())
    } else {
        s
    }
}

/// `s` without white space at either end.
pub open spec fn trim(s: Seq<char>) -> Seq<char> {
    trim_end(trim_start(s))
}

pub fn trim_start_text(t: &Vec<char>) -> (r: Vec<char>)
    ensures
        r@ == trim_start(t@),
{
    let mut i: usize = 0;
    assert(t@.skip(0) =~= t@);
    while i < t.len() && char_is_white(t[i])
        invariant
            i <= t.len(),
            trim_start(t@.skip(i as int)) == trim_start(t@),
        decreases t.len() - i,
    {
        assert(t@.skip(i as int).drop_first() =~= t@.skip(i + 1));
        i = i + 1;
    }
    let r = copy_range(t, i, t.len());
    assert(r@ =~= t@.skip(i as int));
    r
}

pub fn trim_end_text(t: &Vec<char>) -> (r: Vec<char>)
    ensures
        r@ == trim_end(t@),
{
    let mut i: usize = t.len();
    assert(t@.take(i as int) =~= t@);
    while i > 0 && char_is_white(t[i - 1])
        invariant
            i <= t.len(),
            trim_end(t@.take(i as int)) == trim_end(t@),
        decreases i,
    {
        assert(t@.take(i as int).drop_last() =~= t@.take(i - 1));
        i = i - 1;
    }
    let r = copy_range(t, 0, i);
    assert(r@ =~= t@.take(i as int));
    r
}

pub fn trim_text(t: &Vec<char>) -> (r: Vec<char>)
    ensures
        r@ == trim(t@),
{
    let u = trim_start_text(t);
    trim_end_text(&u)
}

/// `s` without the line feeds at its end.
pub open spec fn trim_newlines(s: Seq<char>) -> Seq<char>
    decreases s.len(),
{
    if s.len() > 0 && s.last() == '\n' {
        trim_newlines(s.drop_last())
    } else {
        s
    }
}

pub fn trim_newlines_text(t: &mut Vec<char>)
    ensures
        final(t)@ == trim_newlines(old(t)@),
{
    while t.len() > 0 && t[t.len() - 1] == '\n'
        invariant
            trim_newlines(t@) == trim_newlines(old(t)@),
        decreases t.len(),
    {
        t.pop();
    }
}

// ── Lines ───────────────────────────────────────────────────────────────────

/// The index of the first line feed of `s` at or after `i`, or the length of `s`.
pub open spec fn line_end(s: Seq<char>, i: int) -> int
    decreases s.len() - i,
{
    if 0 <= i < s.len() && s[i] != '\n' {
        line_end(s, i + 1)
    } else if i < s.len() {
        i
    } else {
        s.len() as int
    }
}

/// A line that a line feed ended, without the carriage return of a `\r\n`.
pub open spec fn without_cr(s: Seq<char>) -> Seq<char> {
    if s.len() > 0 && s.last() == '\r' {
        s.drop_last()
    } else {
        s
    }
}

/// The lines of `s` from index `i` on: line feeds end them, and the last one needs none.
pub open spec fn lines_from(s: Seq<char>, i: int) -> Seq<Seq<char>>
    decreases s.len() - i,
{
    let k = line_end(s, i);
    if 0 <= i < s.len() && i <= k {
        if k < s.len() {
            seq![without_cr(s.subrange(i, k))] + lines_from(s, k + 1)
        } else {
            seq![s.subrange(i, k)]
        }
    } else {
        seq![]
    }
}

/// The lines of `s`.
pub open spec fn lines(s: Seq<char>) -> Seq<Seq<char>> {
    lines_from(s, 0)
}

/// The views of a list of texts.
pub open spec fn texts(v: Seq<Vec<char>>) -> Seq<Seq<char>> {
    Seq::new(v.len(), |i: int| v[i]@)
}

pub fn find_line_end(t: &Vec<char>, i: usize) -> (k: usize)
    requires
        i <= t.len(),
    ensures
        k == line_end(t@, i as int),
        i <= k <= t.len(),
{
    let mut k: usize = i;
    while k < t.len() && t[k] != '\n'
        invariant
            i <= k <= t.len(),
            line_end(t@, k as int) == line_end(t@, i as int),
        decreases t.len() - k,
    {
        k = k + 1;
    }
    k
}

pub fn split_lines(t: &Vec<char>) -> (r: Vec<Vec<char>>)
    ensures
        texts(r@) == lines(t@),
{
    let mut out: Vec<Vec<char>> = Vec::new();
    let mut i: usize = 0;
    assert(texts(out@) + lines_from(t@, 0) =~= lines(t@));
    while i < t.len()
        invariant
            i <= t.len(),
            texts(out@) + lines_from(t@, i as int) == lines(t@),
        decreases t.len() - i,
    {
        let k = find_line_end(t, i);
        let ghost before = out@;
        if k < t.len() {
            let mut e: usize = k;
            if k > i && t[k - 1] == '\r' {
                e = k - 1;
                assert(t@.subrange(i as int, k as int).drop_last() =~= t@.subrange(i as int, e as int));
            }
            let line = copy_range(t, i, e);
            out.push(line);
            i = k + 1;
        } else {
            let line = copy_range(t, i, k);
            out.push(line);
            i = k;
        }
        assert(texts(out@) =~= texts(before).push(out@.last()@));
        assert(texts(out@) + lines_from(t@, i as int) =~= lines(t@));
    }
    assert(lines_from(t@, i as int) =~= seq![]);
    assert(texts(out@) =~= lines(t@));
    out
}

// ── Numbers ─────────────────────────────────────────────────────────────────

/// The decimal digit `d`.
pub open spec fn digit(d: nat) -> char {
    (('0' as u32) + d) as char
}

/// `n` in decimal.
pub open spec fn decimal(n: nat) -> Seq<char>
    decreases n,
{
    if n < 10 {
        seq![digit(n)]
    } else {
        decimal(n / 10).push(digit(n % 10))
    }
}

/// `n` in decimal, with a minus sign where it is negative.
pub open spec fn signed_decimal(n: int) -> Seq<char> {
    if n < 0 {
        seq!['-'] + decimal((-n) as nat)
    } else {
        decimal(n as nat)
    }
}

fn digit_char(d: u64) -> (c: char)
    requires
        d < 10,
    ensures
        c == digit(d as nat),
{
    match d {
        0 => '0',
        1 => '1',
        2 => '2',
        3 => '3',
        4 => '4',
        5 => '5',
        6 => '6',
        7 => '7',
        8 => '8',
        _ => '9',
    }
}

/// Appends `n` in decimal.
pub fn push_decimal(out: &mut Vec<char>, n: u64)
    ensures
        final(out)@ == old(out)@ + decimal(n as nat),
    decreases n,
{
    if n >= 10 {
        push_decimal(out, n / 10);
    }
    out.push(digit_char(n % 10));
    assert(out@ =~= old(out)@ + decimal(n as nat));
}

/// Appends `n` in decimal, with its sign.
pub fn push_signed(out: &mut Vec<char>, n: i64)
    ensures
        final(out)@ == old(out)@ + signed_decimal(n as int),
{
    if n < 0 {
        out.push('-');
        if n == i64::MIN {
            push_decimal(out, 0x8000_0000_0000_0000);
        } else {
            push_decimal(out, (-n) as u64);
        }
        assert(out@ =~= old(out)@ + signed_decimal(n as int));
    } else {
        push_decimal(out, n as u64);
    }
}

} // verus!
