//! What holds of the library as a whole.
use vstd::prelude::*;
use crate::ast;
use crate::formatter;
use crate::formatter::comments;
use crate::formatter::comments::Note;
use crate::formatter::shown;
use crate::formatter::compact;
use crate::formatter::layout;
use crate::formatter::layout::Context;
use crate::formatter::layout_items;
use crate::formatter::preserve_items;
use crate::formatter::settle;
use crate::formatter::settle_imports;
use crate::lexer;
use crate::lexer::Lexed;
use crate::modules;
use crate::modules::{Known, Progress};
use crate::parse::input;
use crate::parse::program;
use crate::paths;
use crate::project;
use crate::text;
use crate::token;
use crate::token::{Span, Token};
use crate::tree;

verus! {

// ── Lexing ──────────────────────────────────────────────────────────────────

proof fn lemma_word_end(s: Seq<char>, i: int)
    requires
        0 <= i <= s.len(),
    ensures
        i <= lexer::word_end(s, i) <= s.len(),
    decreases s.len() - i,
{
    if i < s.len() && lexer::in_word(s[i]) {
        lemma_word_end(s, i + 1);
    }
}

proof fn lemma_digits_end(s: Seq<char>, i: int)
    requires
        0 <= i <= s.len(),
    ensures
        i <= lexer::digits_end(s, i) <= s.len(),
    decreases s.len() - i,
{
    if i < s.len() && lexer::is_digit(s[i]) {
        lemma_digits_end(s, i + 1);
    }
}

proof fn lemma_comment_end(s: Seq<char>, i: int)
    requires
        0 <= i,
    ensures
        lexer::comment_end(s, i) is Some ==> i < lexer::comment_end(s, i)->0 <= s.len(),
    decreases s.len() - i,
{
    if i + 1 < s.len() {
        lemma_comment_end(s, i + 1);
    }
}

proof fn lemma_string_stop(s: Seq<char>, i: int)
    requires
        0 <= i <= s.len(),
    ensures
        i <= lexer::string_stop(s, i).1 <= s.len(),
        !(lexer::string_stop(s, i).0 is Missing) ==> lexer::string_stop(s, i).1 < s.len(),
    decreases s.len() - i,
{
    if i < s.len() && s[i] != '\n' && s[i] != '"' && !(s[i] == '{' && lexer::opens_hole(s, i + 1)) {
        if s[i] == '\\' && i + 1 < s.len() && s[i + 1] != '\n' {
            lemma_string_stop(s, i + 2);
        } else {
            lemma_string_stop(s, i + 1);
        }
    }
}

proof fn lemma_block_string_stop(s: Seq<char>, i: int)
    requires
        0 <= i,
    ensures
        lexer::block_string_stop(s, i) is Some ==> i <= lexer::block_string_stop(s, i)->0
            && lexer::block_string_stop(s, i)->0 + 3 <= s.len(),
    decreases s.len() - i,
{
    if i < s.len() {
        if s[i] == '"' && lexer::peek(s, i + 1) == '"' && lexer::peek(s, i + 2) == '"' {
        } else if s[i] == '\\' && i + 1 < s.len() {
            lemma_block_string_stop(s, i + 2);
        } else {
            lemma_block_string_stop(s, i + 1);
        }
    }
}

proof fn lemma_line_end(s: Seq<char>, i: int)
    requires
        0 <= i <= s.len(),
    ensures
        i <= text::line_end(s, i) <= s.len(),
        i < s.len() && s[i] != '\n' ==> i < text::line_end(s, i),
    decreases s.len() - i,
{
    if i < s.len() && s[i] != '\n' {
        lemma_line_end(s, i + 1);
    }
}

/// The lexer never stands still and never runs over the end: every character of a source is
/// part of a token, of an error, of a comment, or of blank space.
pub proof fn law_lexer_moves_on(s: Seq<char>, i: int, braces: Seq<bool>)
    requires
        0 <= i < s.len(),
    ensures
        i < lexer::scan(s, i, braces).1 <= s.len(),
{
    lemma_word_end(s, i + 1);
    lemma_digits_end(s, i + 1);
    let k = lexer::digits_end(s, i);
    if lexer::is_digit(s[i]) {
        assert(k == lexer::digits_end(s, i + 1));
        if lexer::peek(s, k) == '.' && lexer::is_digit(lexer::peek(s, k + 1)) {
            lemma_digits_end(s, k + 1);
        }
    }
    lemma_comment_end(s, i + 2);
    lemma_string_stop(s, i + 1);
    lemma_block_string_stop(s, i + 3);
    lemma_line_end(s, i);
}

/// Whether spans follow one another inside the first `n` bytes, none of them empty.
pub open spec fn in_line(v: Seq<Span>, n: nat) -> bool {
    &&& forall|k: int| 0 <= k < v.len() ==> (#[trigger] v[k]).start < v[k].end && v[k].end <= n
    &&& forall|j: int, k: int|
        0 <= j < k < v.len() ==> (#[trigger] v[j]).end <= (#[trigger] v[k]).start
}

/// The spans of tokens.
pub open spec fn token_spans(l: Lexed) -> Seq<Span> {
    Seq::new(l.tokens.len(), |k: int| l.tokens[k].span)
}

/// The spans of errors.
pub open spec fn error_spans(l: Lexed) -> Seq<Span> {
    Seq::new(l.errors.len(), |k: int| l.errors[k].0)
}

proof fn lemma_offset(s: Seq<char>, i: int, k: int)
    requires
        0 <= i <= k <= s.len(),
    ensures
        text::offset(s, i) + (k - i) <= text::offset(s, k),
    decreases k - i,
{
    if i < k {
        lemma_offset(s, i, k - 1);
        assert(s.take(k).drop_last() =~= s.take(k - 1));
    }
}

proof fn lemma_lex_from(s: Seq<char>, i: int, braces: Seq<bool>, done: Lexed)
    requires
        0 <= i <= s.len(),
        text::byte_len(s) <= usize::MAX,
        in_line(token_spans(done), text::offset(s, i)),
        in_line(error_spans(done), text::offset(s, i)),
    ensures
        in_line(token_spans(lexer::lex_from(s, i, braces, done)), text::byte_len(s)),
        in_line(error_spans(lexer::lex_from(s, i, braces, done)), text::byte_len(s)),
    decreases s.len() - i,
{
    lemma_offset(s, i, s.len() as int);
    assert(s.take(s.len() as int) =~= s);
    if i < s.len() {
        law_lexer_moves_on(s, i, braces);
        let r = lexer::scan(s, i, braces);
        let next = done.add_piece(s, r.0, i, r.1);
        lemma_offset(s, i, r.1);
        lemma_offset(s, r.1, s.len() as int);
        let ts = token_spans(done);
        let es = error_spans(done);
        match r.0 {
            lexer::Piece::Trivia => {},
            lexer::Piece::Tok(_) => {
                assert(token_spans(next) =~= ts.push(lexer::char_span(s, i, r.1)));
                assert(error_spans(next) =~= es);
            },
            lexer::Piece::Bad => {
                assert(error_spans(next) =~= es.push(lexer::char_span(s, i, r.1)));
                assert(token_spans(next) =~= ts);
            },
        }
        lemma_lex_from(s, r.1, r.2, next);
    }
}

/// The tokens of a source follow one another, none of them empty, and so do its errors. The
/// source is one that fits in memory.
pub proof fn law_tokens_in_line(s: Seq<char>)
    requires
        text::byte_len(s) <= usize::MAX,
    ensures
        in_line(token_spans(lexer::lexed(s)), text::byte_len(s)),
        in_line(error_spans(lexer::lexed(s)), text::byte_len(s)),
{
    lemma_lex_from(s, 0, seq![], Lexed { tokens: seq![], errors: seq![] });
}

/// Whether `s` holds only a blank, or only a comment, from `p` to `q`.
pub open spec fn is_trivia(s: Seq<char>, p: int, q: int) -> bool {
    ||| q == p + 1 && lexer::is_blank(s[p])
    ||| p + 2 <= q && s[p] == '/' && s[p + 1] == '/' && q == text::line_end(s, p)
    ||| p + 4 <= q && s[p] == '/' && s[p + 1] == '*' && s[q - 2] == '*' && s[q - 1] == '/'
}

/// Whether a byte offset lies in one of the spans.
pub open spec fn lies_in(v: Seq<Span>, at: nat) -> bool {
    exists|k: int| 0 <= k < v.len() && (#[trigger] v[k]).start <= at < v[k].end
}

/// Whether no span of `v` meets a span of `w`.
pub open spec fn are_disjoint(v: Seq<Span>, w: Seq<Span>) -> bool {
    forall|a: int, b: int|
        0 <= a < v.len() && 0 <= b < w.len() ==> (#[trigger] v[a]).end <= (#[trigger] w[b]).start || w[b].end
            <= v[a].start
}

/// Whether the character at `j` is part of a token or an error, or of a blank or comment.
pub open spec fn is_kept(s: Seq<char>, l: Lexed, j: int) -> bool {
    ||| lies_in(token_spans(l), text::offset(s, j))
    ||| lies_in(error_spans(l), text::offset(s, j))
    ||| exists|p: int, q: int| p <= j < q <= s.len() && 0 <= p && #[trigger] is_trivia(s, p, q)
}

proof fn lemma_comment_stop(s: Seq<char>, i: int)
    ensures
        match lexer::comment_end(s, i) {
            Some(k) => i + 2 <= k <= s.len() && s[k - 2] == '*' && s[k - 1] == '/',
            None => true,
        },
    decreases s.len() - i,
{
    if 0 <= i && i + 1 < s.len() {
        lemma_comment_stop(s, i + 1);
    }
}

proof fn lemma_lies_in_push(v: Seq<Span>, x: Span, at: nat)
    ensures
        lies_in(v, at) || x.start <= at < x.end ==> lies_in(v.push(x), at),
{
    if lies_in(v, at) {
        let k = choose|k: int| 0 <= k < v.len() && (#[trigger] v[k]).start <= at < v[k].end;
        assert(v.push(x)[k] == v[k]);
    } else if x.start <= at < x.end {
        assert(v.push(x)[v.len() as int] == x);
    }
}

proof fn lemma_lex_whole(s: Seq<char>, i: int, braces: Seq<bool>, done: Lexed)
    requires
        0 <= i <= s.len(),
        text::byte_len(s) <= usize::MAX,
        in_line(token_spans(done), text::offset(s, i)),
        in_line(error_spans(done), text::offset(s, i)),
        are_disjoint(token_spans(done), error_spans(done)),
        forall|j: int| 0 <= j < i ==> #[trigger] is_kept(s, done, j),
    ensures
        are_disjoint(
            token_spans(lexer::lex_from(s, i, braces, done)),
            error_spans(lexer::lex_from(s, i, braces, done)),
        ),
        forall|j: int| 0 <= j < s.len() ==> #[trigger] is_kept(s, lexer::lex_from(s, i, braces, done), j),
    decreases s.len() - i,
{
    lemma_offset(s, i, s.len() as int);
    assert(s.take(s.len() as int) =~= s);
    if i < s.len() {
        law_lexer_moves_on(s, i, braces);
        let r = lexer::scan(s, i, braces);
        let next = done.add_piece(s, r.0, i, r.1);
        lemma_offset(s, i, r.1);
        lemma_offset(s, r.1, s.len() as int);
        let ts = token_spans(done);
        let es = error_spans(done);
        let here = lexer::char_span(s, i, r.1);
        match r.0 {
            lexer::Piece::Trivia => {
                lemma_comment_stop(s, i + 2);
                lemma_line_end(s, i + 1);
                assert(is_trivia(s, i, r.1));
            },
            lexer::Piece::Tok(_) => {
                assert(token_spans(next) =~= ts.push(here));
                assert(error_spans(next) =~= es);
            },
            lexer::Piece::Bad => {
                assert(error_spans(next) =~= es.push(here));
                assert(token_spans(next) =~= ts);
            },
        }
        assert forall|j: int| 0 <= j < r.1 implies #[trigger] is_kept(s, next, j) by {
            if j < i {
                assert(is_kept(s, done, j));
            } else {
                lemma_offset(s, i, j);
                lemma_offset(s, j, r.1);
            }
            lemma_lies_in_push(ts, here, text::offset(s, j));
            lemma_lies_in_push(es, here, text::offset(s, j));
        }
        assert(are_disjoint(token_spans(next), error_spans(next)));
        lemma_lex_whole(s, r.1, r.2, next);
    }
}

/// Lexing drops nothing: tokens and errors do not meet, and every character that is in none of
/// them is a blank or part of a comment. The source is one that fits in memory.
pub proof fn law_nothing_is_dropped(s: Seq<char>)
    requires
        text::byte_len(s) <= usize::MAX,
    ensures
        are_disjoint(token_spans(lexer::lexed(s)), error_spans(lexer::lexed(s))),
        forall|j: int| 0 <= j < s.len() ==> #[trigger] is_kept(s, lexer::lexed(s), j),
{
    lemma_lex_whole(s, 0, seq![], Lexed { tokens: seq![], errors: seq![] });
}

// ── Formatting ──────────────────────────────────────────────────────────────

/// Whether a text has no more than two empty lines in a row.
pub open spec fn has_short_gaps(s: Seq<char>) -> bool {
    forall|i: int|
        0 <= i && i + 3 < s.len() ==> !(#[trigger] s[i] == '\n' && s[i + 1] == '\n' && s[i + 2] == '\n'
            && s[i + 3] == '\n')
}

proof fn lemma_squeezed(s: Seq<char>)
    ensures
        has_short_gaps(layout_items::squeezed(s)),
    decreases s.len(),
{
    if s.len() > 0 {
        let t = layout_items::squeezed(s.drop_last());
        lemma_squeezed(s.drop_last());
        let r = layout_items::squeezed(s);
        assert forall|i: int| 0 <= i && i + 3 < r.len() implies !(#[trigger] r[i] == '\n' && r[i + 1] == '\n'
            && r[i + 2] == '\n' && r[i + 3] == '\n') by {
            if i + 3 < t.len() {
                assert(t[i] == r[i]);
            }
        }
    }
}

pub proof fn lemma_short_gaps_stay(s: Seq<char>)
    requires
        has_short_gaps(s),
    ensures
        layout_items::squeezed(s) == s,
    decreases s.len(),
{
    if s.len() > 0 {
        let w = s.drop_last();
        assert forall|i: int| 0 <= i && i + 3 < w.len() implies !(#[trigger] w[i] == '\n' && w[i + 1] == '\n'
            && w[i + 2] == '\n' && w[i + 3] == '\n') by {
            assert(s[i] == w[i]);
        }
        lemma_short_gaps_stay(w);
        if s.last() == '\n' && layout_items::ends_with_three(w) {
            assert(s[s.len() - 4] == '\n');
        }
        assert(w.push(s.last()) =~= s);
    }
}

/// Formatted text never has three empty lines in a row, and it ends with a line feed.
pub proof fn law_formatted_shape(cx: Context, p: tree::Program)
    ensures
        has_short_gaps(layout_items::formatted(cx, p)),
        layout_items::formatted(cx, p).last() == '\n',
        layout_items::formatted(cx, p).len() > 0,
{
    let r = layout_items::program_text(cx, p);
    let all = layout::top_leads(cx, r.1, usize::MAX as int, r.0).0;
    let t = layout_items::squeezed(all);
    lemma_squeezed(all);
    let f = layout_items::formatted(cx, p);
    assert forall|i: int| 0 <= i && i + 3 < f.len() implies !(#[trigger] f[i] == '\n' && f[i + 1] == '\n'
        && f[i + 2] == '\n' && f[i + 3] == '\n') by {
        if i + 3 < t.len() {
            assert(t[i] == f[i]);
        }
    }
}

/// What formatting gives for a source has that shape too.
pub proof fn law_format_shape(src: Seq<char>, options: formatter::FormatOptions)
    requires
        formatter::fault(src) is None,
    ensures
        has_short_gaps(formatter::canonical(src, options)),
        formatter::canonical(src, options).last() == '\n',
{
    law_formatted_shape(
        Context {
            src,
            notes: comments::comments(src),
            step: options.indent_width as nat,
            max: options.max_width as nat,
        },
        program::parsed(program::input_of(src))->Ok_0,
    );
}

/// Formatting a source without code once more changes nothing: what formatting gives for a source
/// of blank space and comments is such a source, has no fault, and is its own canonical form. Both
/// texts are no longer than memory holds.
pub proof fn law_comments_settle(src: Seq<char>, options: formatter::FormatOptions)
    requires
        settle::is_bare(src, 0),
        text::byte_len(src) <= usize::MAX,
        text::byte_len(formatter::canonical(src, options)) <= usize::MAX,
    ensures
        formatter::fault(src) is None,
        formatter::pass(formatter::canonical(src, options), options) == Ok::<Seq<char>, program::Fault>(
            formatter::canonical(src, options),
        ),
{
    settle::lemma_bare_settles(src, options);
    settle::lemma_bare_parses(src);
    settle::lemma_bare_parses(formatter::canonical(src, options));
}

/// Formatting a source of imports without comments once more changes nothing: what formatting
/// gives has no fault, and is its own canonical form. Both texts are no longer than memory holds.
pub proof fn law_imports_settle(src: Seq<char>, options: formatter::FormatOptions)
    requires
        formatter::fault(src) is None,
        comments::comments(src).len() == 0,
        settle_imports::are_imports(program::parsed(program::input_of(src))->Ok_0.items),
        program::parsed(program::input_of(src))->Ok_0.items.len() > 0,
        text::byte_len(src) <= usize::MAX,
        text::byte_len(formatter::canonical(src, options)) <= usize::MAX,
    ensures
        formatter::pass(formatter::canonical(src, options), options) == Ok::<Seq<char>, program::Fault>(
            formatter::canonical(src, options),
        ),
{
    settle_imports::lemma_imports_settle(src, options);
}

// ── Literals ────────────────────────────────────────────────────────────────

proof fn lemma_escaped_at(s: Seq<char>, k: int)
    requires
        0 <= k < s.len(),
    ensures
        ({
            let e = compact::escaped_at(s, k);
            ||| e.len() == 2 && e[0] == '\\' && e[1] != '\n' && input::escape_value(e[1]) == s[k]
            ||| e.len() == 1 && e[0] == s[k] && s[k] != '\\' && s[k] != '"' && s[k] != '\n'
                && !(s[k] == '{' && lexer::opens_hole(s, k + 1))
        }),
{
    reveal_strlit("\\n");
    reveal_strlit("\\r");
    reveal_strlit("\\t");
    reveal_strlit("\\\"");
    reveal_strlit("\\\\");
    reveal_strlit("\\{");
}

proof fn lemma_escaped_grows(s: Seq<char>, k: nat, n: nat)
    requires
        k <= n <= s.len(),
    ensures
        compact::escaped_string(s, k).len() <= compact::escaped_string(s, n).len(),
        compact::escaped_string(s, n).take(compact::escaped_string(s, k).len() as int)
            == compact::escaped_string(s, k),
    decreases n,
{
    let a = compact::escaped_string(s, k);
    let w = compact::escaped_string(s, n);
    if k < n {
        lemma_escaped_grows(s, k, (n - 1) as nat);
        let p = compact::escaped_string(s, (n - 1) as nat);
        assert(w.take(a.len() as int) =~= p.take(a.len() as int));
    } else {
        assert(w.take(a.len() as int) =~= a);
    }
}

/// What stands for character `k` in the written form of `s`.
proof fn lemma_escaped_part(s: Seq<char>, k: int)
    requires
        0 <= k < s.len(),
    ensures
        ({
            let w = compact::escaped_string(s, s.len());
            let a = compact::escaped_string(s, k as nat).len() as int;
            let b = compact::escaped_string(s, (k + 1) as nat).len() as int;
            let e = compact::escaped_at(s, k);
            &&& 0 <= a
            &&& b == a + e.len() <= w.len()
            &&& forall|j: int| 0 <= j < e.len() ==> #[trigger] e[j] == w[a + j]
        }),
{
    let w = compact::escaped_string(s, s.len());
    let p = compact::escaped_string(s, k as nat);
    let q = compact::escaped_string(s, (k + 1) as nat);
    let e = compact::escaped_at(s, k);
    lemma_escaped_grows(s, (k + 1) as nat, s.len());
    assert(q == p + e);
    assert forall|j: int| 0 <= j < e.len() implies #[trigger] e[j] == w[p.len() + j] by {
        assert(q[p.len() + j] == w.take(q.len() as int)[p.len() + j]);
    }
}

proof fn lemma_unescaped(s: Seq<char>, k: int)
    requires
        0 <= k <= s.len(),
    ensures
        input::unescaped(
            compact::escaped_string(s, s.len()),
            compact::escaped_string(s, k as nat).len() as int,
        ) == s.skip(k),
    decreases s.len() - k,
{
    let w = compact::escaped_string(s, s.len());
    let a = compact::escaped_string(s, k as nat).len() as int;
    if k < s.len() {
        let e = compact::escaped_at(s, k);
        lemma_escaped_at(s, k);
        lemma_escaped_part(s, k);
        lemma_unescaped(s, k + 1);
        assert(e[0] == w[a]);
        if e.len() == 2 {
            assert(e[1] == w[a + 1]);
        }
        assert(input::unescaped(w, a) =~= seq![s[k]] + s.skip(k + 1));
        assert(seq![s[k]] + s.skip(k + 1) =~= s.skip(k));
    } else {
        assert(s.skip(k) =~= seq![]);
    }
}

proof fn lemma_literal_stop(s: Seq<char>, rest: Seq<char>, k: int)
    requires
        0 <= k <= s.len(),
    ensures
        ({
            let w = compact::escaped_string(s, s.len());
            let t = seq!['"'] + w + seq!['"'] + rest;
            let a = compact::escaped_string(s, k as nat).len() as int;
            lexer::string_stop(t, 1 + a) == (lexer::StringStop::Close, w.len() as int + 1)
        }),
    decreases s.len() - k,
{
    let w = compact::escaped_string(s, s.len());
    let t = seq!['"'] + w + seq!['"'] + rest;
    let a = compact::escaped_string(s, k as nat).len() as int;
    assert(t[w.len() as int + 1] == '"');
    if k < s.len() {
        let e = compact::escaped_at(s, k);
        lemma_escaped_at(s, k);
        lemma_escaped_part(s, k);
        lemma_literal_stop(s, rest, k + 1);
        assert(e[0] == w[a]);
        assert(t[1 + a] == w[a]);
        if e.len() == 2 {
            assert(e[1] == w[a + 1]);
            assert(t[2 + a] == w[a + 1]);
        } else if s[k] == '{' {
            if k + 1 < s.len() {
                let f = compact::escaped_at(s, k + 1);
                lemma_escaped_at(s, k + 1);
                lemma_escaped_part(s, k + 1);
                assert(f[0] == w[a + 1]);
                assert(t[2 + a] == w[a + 1]);
            } else {
                assert(t[2 + a] == '"');
            }
            assert(!lexer::opens_hole(t, 2 + a));
        }
    }
}

/// What a string literal is written as is read back: it is one token, with no hole in it, and it
/// stands for the same text, whatever follows. Right after an empty literal no further quote may
/// stand, with which it would open a block string.
pub proof fn law_string_reads_back(s: Seq<char>, rest: Seq<char>, braces: Seq<bool>)
    requires
        s.len() > 0 || lexer::peek(rest, 0) != '"',
    ensures
        ({
            let t = "\""@ + compact::escaped_string(s, s.len()) + "\""@;
            &&& lexer::scan(t + rest, 0, braces) == (
                lexer::Piece::Tok(Token::StringLit),
                t.len() as int,
                braces,
            )
            &&& input::unescaped(input::inner(t, 1), 0) == s
        }),
{
    reveal_strlit("\"");
    let w = compact::escaped_string(s, s.len());
    let t = "\""@ + w + "\""@;
    assert(t + rest =~= seq!['"'] + w + seq!['"'] + rest);
    lemma_literal_stop(s, rest, 0);
    lemma_unescaped(s, 0);
    assert(compact::escaped_string(s, 0) =~= seq![]);
    assert(input::inner(t, 1) =~= w);
    assert(s.skip(0) =~= s);
    let u = t + rest;
    if s.len() > 0 {
        lemma_escaped_at(s, 0);
        lemma_escaped_part(s, 0);
        assert(compact::escaped_at(s, 0)[0] == w[0]);
        assert(u[1] == w[0]);
    } else {
        assert(w =~= seq![]);
        assert(lexer::peek(u, 2) == lexer::peek(rest, 0));
    }
}

/// A character literal as it is written is read back: it is one token, and it stands for the same
/// character, whatever follows.
pub proof fn law_char_reads_back(c: char, rest: Seq<char>, braces: Seq<bool>)
    ensures
        ({
            let t = "'"@ + compact::escaped_char(c) + "'"@;
            &&& lexer::scan(t + rest, 0, braces) == (lexer::Piece::Tok(Token::CharLit), t.len() as int, braces)
            &&& input::char_value(input::inner(t, 1)) == c
        }),
{
    reveal_strlit("'");
    reveal_strlit("\\n");
    reveal_strlit("\\r");
    reveal_strlit("\\t");
    reveal_strlit("\\'");
    reveal_strlit("\\\\");
    let e = compact::escaped_char(c);
    let t = "'"@ + e + "'"@;
    let u = t + rest;
    assert(input::inner(t, 1) =~= e);
    assert(u[0] == '\'' && u[1] == e[0]);
    if e.len() == 2 {
        assert(u[2] == e[1] && u[3] == '\'');
    } else {
        assert(u[2] == '\'');
    }
}

pub proof fn lemma_decimal(n: nat)
    ensures
        text::decimal(n).len() > 0,
        forall|i: int| 0 <= i < text::decimal(n).len() ==> lexer::is_digit(#[trigger] text::decimal(n)[i]),
        input::digits_value(text::decimal(n)) == n,
    decreases n,
{
    let s = text::decimal(n);
    assert(text::digit(n % 10) as u32 - '0' as u32 == n % 10);
    if n >= 10 {
        lemma_decimal(n / 10);
        assert(s.drop_last() =~= text::decimal(n / 10));
        assert forall|i: int| 0 <= i < s.len() implies lexer::is_digit(#[trigger] s[i]) by {
            if i < s.len() - 1 {
                assert(s[i] == text::decimal(n / 10)[i]);
            }
        }
    } else {
        assert(s.drop_last() =~= seq![]);
        assert(input::digits_value(s.drop_last()) == 0);
    }
}

pub proof fn lemma_digits_stop(s: Seq<char>, i: int, k: int)
    requires
        0 <= i <= k <= s.len(),
        forall|j: int| i <= j < k ==> lexer::is_digit(#[trigger] s[j]),
        k < s.len() ==> !lexer::is_digit(s[k]),
    ensures
        lexer::digits_end(s, i) == k,
    decreases k - i,
{
    if i < k {
        lemma_digits_stop(s, i + 1, k);
    }
}

/// An integer as it is written is read back: it is one token, and it has the same value. What
/// follows is no further digit, and no point with a digit after it.
pub proof fn law_integer_reads_back(n: nat, rest: Seq<char>, braces: Seq<bool>)
    requires
        !lexer::is_digit(lexer::peek(rest, 0)),
        !(lexer::peek(rest, 0) == '.' && lexer::is_digit(lexer::peek(rest, 1))),
    ensures
        lexer::scan(text::decimal(n) + rest, 0, braces) == (
            lexer::Piece::Tok(Token::IntLit),
            text::decimal(n).len() as int,
            braces,
        ),
        input::digits_value(text::decimal(n)) == n,
{
    let t = text::decimal(n);
    let u = t + rest;
    let k = t.len() as int;
    lemma_decimal(n);
    assert forall|j: int| 0 <= j < k implies lexer::is_digit(#[trigger] u[j]) by {
        assert(u[j] == t[j]);
    }
    assert(lexer::peek(u, k) == lexer::peek(rest, 0));
    assert(lexer::peek(u, k + 1) == lexer::peek(rest, 1));
    lemma_digits_stop(u, 0, k);
    assert(lexer::is_digit(u[0]));
}

pub proof fn lemma_word_stop(s: Seq<char>, i: int, k: int)
    requires
        0 <= i <= k <= s.len(),
        forall|j: int| i <= j < k ==> lexer::in_word(#[trigger] s[j]),
        k < s.len() ==> !lexer::in_word(s[k]),
    ensures
        lexer::word_end(s, i) == k,
    decreases k - i,
{
    if i < k {
        lemma_word_stop(s, i + 1, k);
    }
}

/// A word is read back as one token, the same wherever it stands, where no further character of a
/// word follows.
pub proof fn law_word_reads_back(w: Seq<char>, rest: Seq<char>, braces: Seq<bool>)
    requires
        w.len() > 0,
        lexer::starts_word(w[0]),
        forall|j: int| 0 <= j < w.len() ==> lexer::in_word(#[trigger] w[j]),
        !lexer::in_word(lexer::peek(rest, 0)),
    ensures
        lexer::scan(w + rest, 0, braces) == (
            lexer::Piece::Tok(token::word_token(w)),
            w.len() as int,
            braces,
        ),
{
    let u = w + rest;
    let k = w.len() as int;
    assert forall|j: int| 0 <= j < k implies lexer::in_word(#[trigger] u[j]) by {
        assert(u[j] == w[j]);
    }
    assert(lexer::peek(u, k) == lexer::peek(rest, 0));
    lemma_word_stop(u, 0, k);
    assert(u.subrange(0, k) =~= w);
    assert(u[0] == w[0]);
}

// ── Layout ──────────────────────────────────────────────────────────────────

proof fn lemma_newlines_add(a: Seq<char>, b: Seq<char>)
    ensures
        layout::newlines(a + b) == layout::newlines(a) + layout::newlines(b),
    decreases b.len(),
{
    if b.len() == 0 {
        assert(a + b =~= a);
    } else {
        assert((a + b).drop_last() =~= a + b.drop_last());
        lemma_newlines_add(a, b.drop_last());
    }
}

/// A closure with a block is always written with its block: `do`, the statements one step further
/// in, and `end`, however short they are.
pub proof fn law_block_closures_are_expanded(cx: Context, ind: nat, ci: int, e: tree::Expr, extra: nat)
    requires
        e.kind is Closure,
        *e.kind->Closure_body is Block,
    ensures
        ({
            let m = layout::deeper(ind, extra);
            let params = e.kind->Closure_params;
            let r = layout::block_inner(cx, m, ci, e.kind->Closure_body->Block_0, 1);
            layout::expr_wrapped(cx, ind, ci, e, extra) == (
                "|"@ + compact::params_text(params, params.len()) + "| do\n"@ + r.0 + layout::pad(cx, m) + "end"@,
                r.1,
            )
        }),
{
    reveal(compact::expr_line);
    reveal_strlit("| do\n");
    let m = layout::deeper(ind, extra);
    let params = e.kind->Closure_params;
    let b = e.kind->Closure_body->Block_0;
    let c = compact::expr_line(cx, m, e);
    let head = "|"@ + compact::params_text(params, params.len());
    let rest = compact::block_text(cx, m, b);
    assert(c == compact::expr_text(cx, m, e));
    assert(c == head + "| do\n"@ + rest);
    lemma_newlines_add(head + "| do\n"@, rest);
    lemma_newlines_add(head, "| do\n"@);
    assert("| do\n"@.last() == '\n');
    assert(layout::newlines("| do\n"@) > 0);
    assert(!layout::fits(cx, m, c));
}

/// Every comment starts within the text.
pub proof fn lemma_comments_from(s: Seq<char>, i: int, braces: Seq<bool>, done: Seq<Note>)
    requires
        0 <= i <= s.len(),
        forall|k: int| 0 <= k < done.len() ==> (#[trigger] done[k]).start < text::byte_len(s),
    ensures
        ({
            let r = comments::comments_from(s, i, braces, done);
            forall|k: int| 0 <= k < r.len() ==> (#[trigger] r[k]).start < text::byte_len(s)
        }),
    decreases s.len() - i,
{
    let r = lexer::scan(s, i, braces);
    if i < s.len() && i < r.1 <= s.len() {
        lemma_offset(s, i, s.len() as int);
        assert(s.take(s.len() as int) =~= s);
        let more = if r.0 is Trivia && s[i] == '/' {
            done.push(comments::note_at(s, i, r.1))
        } else {
            done
        };
        lemma_comments_from(s, r.1, r.2, more);
        assert(comments::comments_from(s, i, braces, done) == comments::comments_from(s, r.1, r.2, more));
    } else {
        assert(comments::comments_from(s, i, braces, done) == done);
    }
}

proof fn lemma_item_fits(item: ast::Item)
    ensures
        preserve_items::item_fits(item.tree()),
    decreases item,
{
    broadcast use ast::group_lists;

    match item {
        ast::Item::Class(d) => {
            let t = d.tree();
            assert forall|g: int| 0 <= g < 7 implies #[trigger] layout_items::member_count(t, g) <= usize::MAX by {
                assert(d.fields@.len() == d.fields.len());
                assert(d.constructors@.len() == d.constructors.len());
                assert(d.destructors@.len() == d.destructors.len());
                assert(d.properties@.len() == d.properties.len());
                assert(d.operators@.len() == d.operators.len());
                assert(d.conversions@.len() == d.conversions.len());
                assert(d.methods@.len() == d.methods.len());
            }
        },
        ast::Item::Attributed { item, .. } => {
            lemma_item_fits(*item);
        },
        _ => {},
    }
}

/// The members of the classes of any program can be counted.
pub proof fn law_programs_fit(p: ast::Program)
    ensures
        preserve_items::program_fits(p.tree()),
{
    broadcast use ast::group_lists;

    let t = p.tree();
    assert forall|i: int| 0 <= i < t.items.len() implies preserve_items::item_fits(#[trigger] t.items[i]) by {
        lemma_item_fits(p.items@[i]);
    }
}

/// Formatting keeps every comment: each line of a comment of the source that is not blank stands
/// in what is written, without the white space around it. The source, and the members of its
/// classes, are no more than memory holds, which is so of every program.
pub proof fn law_comments_kept(src: Seq<char>, options: formatter::FormatOptions, k: int)
    requires
        formatter::fault(src) is None,
        text::byte_len(src) <= usize::MAX,
        preserve_items::program_fits(program::parsed(program::input_of(src))->Ok_0),
        0 <= k < comments::comments(src).len(),
    ensures
        shown::shows(formatter::canonical(src, options), comments::comments(src)[k].text),
{
    let cx = Context {
        src,
        notes: comments::comments(src),
        step: options.indent_width as nat,
        max: options.max_width as nat,
    };
    lemma_comments_from(src, 0, seq![], seq![]);
    preserve_items::lemma_formatted(cx, program::parsed(program::input_of(src))->Ok_0, k);
}

/// To cut gaps twice is to cut them once.
pub proof fn law_squeezing_is_stable(s: Seq<char>)
    ensures
        layout_items::squeezed(layout_items::squeezed(s)) == layout_items::squeezed(s),
{
    lemma_squeezed(s);
    lemma_short_gaps_stay(layout_items::squeezed(s));
}

/// Whether a text holds no `\r\n`.
pub open spec fn has_unix_lines(s: Seq<char>) -> bool {
    forall|i: int| 0 <= i && i + 1 < s.len() ==> !(#[trigger] s[i] == '\r' && s[i + 1] == '\n')
}

proof fn lemma_unix_lines_stay(s: Seq<char>)
    requires
        has_unix_lines(s),
    ensures
        formatter::unix_lines(s) == s,
    decreases s.len(),
{
    if s.len() > 0 {
        let w = s.drop_last();
        if s.len() >= 2 {
            assert(!(s[s.len() - 2] == '\r' && s[s.len() - 1] == '\n'));
        }
        assert forall|i: int| 0 <= i && i + 1 < w.len() implies !(#[trigger] w[i] == '\r' && w[i + 1] == '\n') by {
            assert(s[i] == w[i]);
        }
        lemma_unix_lines_stay(w);
        assert(w.push(s.last()) =~= s);
    } else {
        assert(s =~= seq![]);
    }
}

proof fn lemma_without_last(s: Seq<char>)
    ensures
        ({
            let t = formatter::without_last_blank_lines(s);
            &&& t.len() <= s.len()
            &&& t =~= s.take(t.len() as int)
            &&& !(t.len() >= 2 && t[t.len() - 2] == '\n' && t.last() == '\n')
        }),
    decreases s.len(),
{
    if s.len() >= 2 && s[s.len() - 2] == '\n' && s.last() == '\n' {
        lemma_without_last(s.drop_last());
    }
}

/// To make line ends equal twice is to do it once, where the first time leaves no `\r\n`.
pub proof fn law_normalizing_is_stable(s: Seq<char>)
    requires
        has_unix_lines(formatter::normalized(s)),
    ensures
        formatter::normalized(formatter::normalized(s)) == formatter::normalized(s),
{
    let u = formatter::unix_lines(s);
    let n = formatter::normalized(s);
    lemma_without_last(u);
    lemma_unix_lines_stay(n);
    lemma_without_last(n);
}

// ── Imports ─────────────────────────────────────────────────────────────────

/// Whether no item is an import.
pub open spec fn is_expanded(items: Seq<tree::Item>) -> bool {
    forall|i: int| 0 <= i < items.len() ==> !(#[trigger] items[i] is Import)
}

/// Whether no two paths are the same.
pub open spec fn are_distinct(v: Seq<Seq<char>>) -> bool {
    forall|i: int, j: int| 0 <= i < j < v.len() ==> !paths::same(#[trigger] v[i], #[trigger] v[j])
}

proof fn lemma_brought(out: Seq<tree::Item>, items: Seq<tree::Item>, symbols: Option<Seq<Seq<char>>>, n: nat)
    requires
        is_expanded(out),
    ensures
        is_expanded(modules::brought(out, items, symbols, n)),
    decreases n,
{
    if n > 0 {
        lemma_brought(out, items, symbols, (n - 1) as nat);
    }
}

proof fn lemma_included(
    bases: Seq<Seq<char>>,
    store: Seq<Known>,
    importer: Seq<char>,
    items: Seq<tree::Item>,
    k: int,
    st: Progress,
    out: Seq<tree::Item>,
)
    requires
        is_expanded(out),
        are_distinct(st.visited),
    ensures
        is_expanded(modules::included(bases, store, importer, items, k, st, out).0),
        are_distinct(modules::included(bases, store, importer, items, k, st, out).1.visited),
    decreases modules::unvisited(store, st.visited), items.len() - k,
{
    reveal(modules::included);
    if 0 <= k < items.len() {
        match items[k] {
            tree::Item::Import(d) => {
                let s = modules::with_asked(st, d.path, bases, store);
                match modules::resolved(d.path, bases, 0, store) {
                    None => {
                        lemma_included(
                            bases,
                            store,
                            importer,
                            items,
                            k + 1,
                            modules::with_issue(s, modules::unresolved_text(d.path, bases), d.span, importer),
                            out,
                        );
                    },
                    Some(p) => {
                        if paths::holds(s.visited, p) {
                            lemma_included(bases, store, importer, items, k + 1, s, out);
                        } else {
                            let v = modules::with_visited(s, p);
                            modules::lemma_resolved(d.path, bases, 0, store);
                            modules::lemma_visit(store, s.visited, p);
                            assert forall|i: int, j: int| 0 <= i < j < v.visited.len() implies !paths::same(
                                #[trigger] v.visited[i],
                                #[trigger] v.visited[j],
                            ) by {
                                if j < s.visited.len() {
                                    assert(s.visited[i] == v.visited[i] && s.visited[j] == v.visited[j]);
                                } else {
                                    assert(s.visited[i] == v.visited[i]);
                                }
                            }
                            match modules::loaded(store, p) {
                                Err(m) => {
                                    lemma_included(
                                        bases,
                                        store,
                                        importer,
                                        items,
                                        k + 1,
                                        modules::with_issue(v, m, d.span, importer),
                                        out,
                                    );
                                },
                                Ok(inner) => {
                                    lemma_included(bases, store, p, inner, 0, v, seq![]);
                                    let (sub, w) = modules::included(bases, store, p, inner, 0, v, seq![]);
                                    if modules::unvisited(store, w.visited) <= modules::unvisited(
                                        store,
                                        v.visited,
                                    ) {
                                        lemma_brought(out, sub, d.symbols, sub.len());
                                        lemma_included(
                                            bases,
                                            store,
                                            importer,
                                            items,
                                            k + 1,
                                            w,
                                            modules::brought(out, sub, d.symbols, sub.len()),
                                        );
                                    }
                                },
                            }
                        }
                    },
                }
            },
            other => {
                lemma_included(bases, store, importer, items, k + 1, st, out.push(other));
            },
        }
    }
}

/// An expanded program holds no import, whatever could be found; the files that it depends on
/// are listed in order, each once, with the entry file among them.
pub proof fn law_expansion(p: tree::Program, importer: Seq<char>, bases: Seq<Seq<char>>, store: Seq<Known>)
    ensures
        is_expanded(modules::expansion(p, importer, bases, store).program.items),
        paths::in_order(modules::expansion(p, importer, bases, store).files),
        paths::holds(modules::expansion(p, importer, bases, store).files, importer),
{
    let start = Progress { visited: seq![], issues: seq![], wanted: seq![] };
    lemma_included(bases, store, importer, p.items, 0, start, seq![]);
    let end = modules::included(bases, store, importer, p.items, 0, start, seq![]).1;
    let all = end.visited.push(importer);
    paths::law_arranged(all, all.len());
    assert(all[all.len() - 1] == importer);
}

/// No file is reached twice, so cycles of imports come to an end and a file's items come along
/// once.
pub proof fn law_files_reached_once(
    bases: Seq<Seq<char>>,
    store: Seq<Known>,
    importer: Seq<char>,
    items: Seq<tree::Item>,
)
    ensures
        are_distinct(
            modules::included(
                bases,
                store,
                importer,
                items,
                0,
                Progress { visited: seq![], issues: seq![], wanted: seq![] },
                seq![],
            ).1.visited,
        ),
{
    lemma_included(
        bases,
        store,
        importer,
        items,
        0,
        Progress { visited: seq![], issues: seq![], wanted: seq![] },
        seq![],
    );
}

// ── Projects ────────────────────────────────────────────────────────────────

proof fn lemma_line_stops(s: Seq<char>, i: int, k: int)
    requires
        0 <= i <= k < s.len(),
        s[k] == '\n',
        forall|j: int| i <= j < k ==> s[j] != '\n',
    ensures
        text::line_end(s, i) == k,
    decreases k - i,
{
    if i < k {
        lemma_line_stops(s, i + 1, k);
    }
}

proof fn lemma_found(s: Seq<char>, c: char, i: int, k: int)
    requires
        0 <= i <= k < s.len(),
        s[k] == c,
        forall|j: int| i <= j < k ==> s[j] != c,
    ensures
        project::find(s, c, i) == k,
    decreases k - i,
{
    if i < k {
        lemma_found(s, c, i + 1, k);
    }
}

proof fn lemma_setting(key: Seq<char>, value: Seq<char>)
    requires
        key.len() > 0,
        key[0] != '#',
        forall|j: int| 0 <= j < key.len() ==> key[j] != '=' && !text::is_white(key[j]),
    ensures
        project::line_of(key + seq![' ', '=', ' ', '"'] + value + seq!['"']) == project::Line::Sets(key, value),
{
    let s = key + seq![' ', '=', ' ', '"'] + value + seq!['"'];
    let e = key.len() as int + 1;
    assert(s[0] == key[0]);
    assert(text::trim(s) == s);
    assert(s[e] == '=');
    assert forall|j: int| 0 <= j < e implies s[j] != '=' by {
        if j < key.len() {
            assert(s[j] == key[j]);
        }
    }
    lemma_found(s, '=', 0, e);
    let before = s.take(e);
    assert(before =~= key.push(' '));
    assert(before.drop_last() =~= key);
    assert(before[0] == key[0]);
    assert(text::trim_end(before) == text::trim_end(key));
    assert(key.last() == key[key.len() - 1]);
    assert(text::trim(before) == key);
    let after = s.skip(e + 1);
    let quoted = seq!['"'] + value + seq!['"'];
    assert(after.drop_first() =~= quoted);
    assert(after[0] == ' ');
    assert(quoted[0] == '"' && quoted.last() == '"');
    assert(text::trim_start(after) == text::trim_start(quoted));
    assert(text::trim(after) == quoted);
    assert(quoted.subrange(1, quoted.len() - 1) =~= value);
}

/// The manifest of a new project can be read, and gives back its name and version `0.1.0`. A
/// name does not go over a line.
pub proof fn law_new_manifest_reads(path: Seq<char>, name: Seq<char>)
    requires
        forall|i: int| 0 <= i < name.len() ==> name[i] != '\n',
    ensures
        project::settings(path, text::lines(project::new_manifest(name)), 0, None, None) == Ok::<
            project::Package,
            Seq<char>,
        >(project::Package { name, version: "0.1.0"@ }),
{
    reveal_strlit("name");
    reveal_strlit("version");
    reveal_strlit("0.1.0");
    reveal_strlit("name = \"");
    reveal_strlit("\"\nversion = \"0.1.0\"\n");
    let s = project::new_manifest(name);
    let a = "name"@ + seq![' ', '=', ' ', '"'] + name + seq!['"'];
    let b = "version"@ + seq![' ', '=', ' ', '"'] + "0.1.0"@ + seq!['"'];
    assert(s =~= a.push('\n') + b.push('\n'));
    let k = a.len() as int;
    assert forall|j: int| 0 <= j < k implies s[j] != '\n' by {
        if 8 <= j < 8 + name.len() {
            assert(s[j] == name[j - 8]);
        }
    }
    lemma_line_stops(s, 0, k);
    assert(s.subrange(0, k) =~= a);
    lemma_line_stops(s, k + 1, s.len() - 1);
    assert(s.subrange(k + 1, s.len() - 1) =~= b);
    let ls = text::lines(s);
    assert(text::lines_from(s, s.len() as int) =~= seq![]);
    assert(text::lines_from(s, k + 1) =~= seq![b]);
    assert(ls =~= seq![a, b]);
    lemma_setting("name"@, name);
    lemma_setting("version"@, "0.1.0"@);
    assert("name"@.len() != "version"@.len());
    reveal_with_fuel(project::settings, 3);
}

} // verus!
