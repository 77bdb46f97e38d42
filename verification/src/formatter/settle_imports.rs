//! Sources of imports: what is written for them is read back as it is.
use vstd::prelude::*;
use crate::formatter;
use crate::formatter::comments;
use crate::formatter::comments::Note;
use crate::formatter::compact;
use crate::formatter::layout;
use crate::formatter::layout::Context;
use crate::formatter::layout_items;
use crate::laws;
use crate::lexer;
use crate::lexer::{Lexed, Piece};
use crate::parse::grammar_items;
use crate::parse::input;
use crate::parse::input::Input;
use crate::parse::program;
use crate::parse::rules;
use crate::parse::rules::Rules;
use crate::source;
use crate::text;
use crate::token;
use crate::token::{SpannedToken, Token};
use crate::tree;

verus! {

broadcast use input::group_forward;

/// Whether `w` is a word that is read as a name.
pub open spec fn is_name_text(w: Seq<char>) -> bool {
    &&& w.len() > 0
    &&& lexer::starts_word(w[0])
    &&& forall|j: int| 0 <= j < w.len() ==> lexer::in_word(#[trigger] w[j])
    &&& input::is_name(token::word_token(w))
}

pub open spec fn are_names(v: Seq<Seq<char>>) -> bool {
    forall|j: int| 0 <= j < v.len() ==> is_name_text(#[trigger] v[j])
}

/// Whether an import names what it imports.
pub open spec fn is_named(d: tree::ImportDecl) -> bool {
    &&& d.path.len() > 0
    &&& are_names(d.path)
    &&& d.symbols matches Some(ss) ==> are_names(ss)
}

/// Whether every item is an import.
pub open spec fn are_imports(items: Seq<tree::Item>) -> bool {
    forall|j: int| 0 <= j < items.len() ==> #[trigger] items[j] is Import
}

// ── The names of a source ───────────────────────────────────────────────────

/// Whether `t` is what stands somewhere in `s`.
pub open spec fn is_read(s: Seq<char>, t: SpannedToken) -> bool {
    exists|i: int, b: Seq<bool>|
        0 <= i < s.len() && i < (#[trigger] lexer::scan(s, i, b)).1 <= s.len() && lexer::scan(s, i, b).0
            == Piece::Tok(t.token) && t.span == lexer::char_span(s, i, lexer::scan(s, i, b).1)
}

proof fn lemma_all_read(s: Seq<char>, i: int, b: Seq<bool>, done: Lexed)
    requires
        0 <= i,
        forall|j: int| 0 <= j < done.tokens.len() ==> is_read(s, #[trigger] done.tokens[j]),
    ensures
        ({
            let r = lexer::lex_from(s, i, b, done);
            forall|j: int| 0 <= j < r.tokens.len() ==> is_read(s, #[trigger] r.tokens[j])
        }),
    decreases s.len() - i,
{
    let r = lexer::scan(s, i, b);
    if 0 <= i < s.len() && i < r.1 <= s.len() {
        let more = done.add_piece(s, r.0, i, r.1);
        assert forall|j: int| 0 <= j < more.tokens.len() implies is_read(s, #[trigger] more.tokens[j]) by {
            if j < done.tokens.len() {
                assert(more.tokens[j] == done.tokens[j]);
            } else {
                assert(lexer::scan(s, i, b).0 == Piece::Tok(more.tokens[j].token));
            }
        }
        lemma_all_read(s, r.1, r.2, more);
        assert(lexer::lex_from(s, i, b, done) == lexer::lex_from(s, r.1, r.2, more));
    } else {
        assert(lexer::lex_from(s, i, b, done) == done);
    }
}

/// Only a word is read as a name.
proof fn lemma_scan_name(s: Seq<char>, i: int, b: Seq<bool>, t: Token)
    requires
        0 <= i < s.len(),
        lexer::scan(s, i, b).0 == Piece::Tok(t),
        input::is_name(t),
    ensures
        lexer::starts_word(s[i]),
{
}

proof fn lemma_word_chars(s: Seq<char>, i: int)
    requires
        0 <= i <= s.len(),
    ensures
        i <= lexer::word_end(s, i) <= s.len(),
        forall|j: int| i <= j < lexer::word_end(s, i) ==> lexer::in_word(#[trigger] s[j]),
    decreases s.len() - i,
{
    if i < s.len() && lexer::in_word(s[i]) {
        lemma_word_chars(s, i + 1);
    }
}

/// The text of the characters `i..k`.
pub proof fn lemma_span_text(s: Seq<char>, i: int, k: int)
    requires
        0 <= i <= k <= s.len(),
        text::byte_len(s) <= usize::MAX,
    ensures
        source::span_text(s, lexer::char_span(s, i, k)) == s.subrange(i, k),
{
    assert(s =~= s.take(i) + s.skip(i));
    text::lemma_byte_len_add(s.take(i), s.skip(i));
    assert(s =~= s.take(k) + s.skip(k));
    text::lemma_byte_len_add(s.take(k), s.skip(k));
    source::law_seek_offset(s, i);
    source::law_seek_offset(s, k);
}

proof fn lemma_name_text(src: Seq<char>, k: int)
    requires
        text::byte_len(src) <= usize::MAX,
        input::named(program::input_of(src), k),
    ensures
        is_name_text(input::word(program::input_of(src), k)),
{
    reveal(input::named);
    let x = program::input_of(src);
    lemma_all_read(src, 0, seq![], Lexed { tokens: seq![], errors: seq![] });
    let t = x.toks[k];
    assert(is_read(src, t));
    let (i, b) = choose|i: int, b: Seq<bool>|
        0 <= i < src.len() && i < (#[trigger] lexer::scan(src, i, b)).1 <= src.len() && lexer::scan(src, i, b).0
            == Piece::Tok(t.token) && t.span == lexer::char_span(src, i, lexer::scan(src, i, b).1);
    lemma_scan_name(src, i, b, t.token);
    lemma_word_chars(src, i);
    let e = lexer::word_end(src, i);
    lemma_span_text(src, i, e);
    let w = src.subrange(i, e);
    assert(w[0] == src[i]);
    assert forall|j: int| 0 <= j < w.len() implies lexer::in_word(#[trigger] w[j]) by {
        assert(w[j] == src[i + j]);
    }
}

proof fn lemma_path_named(src: Seq<char>, acc: Seq<Seq<char>>, i: int)
    requires
        text::byte_len(src) <= usize::MAX,
        are_names(acc),
    ensures
        grammar_items::path(program::input_of(src), acc, i) matches Ok((ns, _)) ==> are_names(ns) && ns.len() > 0,
    decreases program::input_of(src).len() - i,
{
    reveal(grammar_items::path);
    let x = program::input_of(src);
    if input::named(x, i) {
        lemma_name_text(src, i);
        if input::tk(x, i + 1) == Token::PathSep && input::named(x, i + 2) {
            lemma_path_named(src, acc.push(input::word(x, i)), i + 2);
        }
    }
}

proof fn lemma_symbols_named(src: Seq<char>, acc: Seq<Seq<char>>, i: int)
    requires
        text::byte_len(src) <= usize::MAX,
        are_names(acc),
    ensures
        grammar_items::symbols(program::input_of(src), acc, i) matches Ok((ns, _)) ==> are_names(ns),
    decreases program::input_of(src).len() - i,
{
    reveal(grammar_items::symbols);
    let x = program::input_of(src);
    let k = input::skip_newlines(x, i);
    if input::tk(x, k) != Token::RBrace && input::named(x, k) {
        lemma_name_text(src, k);
        let p = input::skip_newlines(x, k + 1);
        if input::tk(x, p) == Token::Comma {
            lemma_symbols_named(src, acc.push(input::word(x, k)), p + 1);
        }
    }
}

proof fn lemma_import_named(src: Seq<char>, i: int)
    requires
        text::byte_len(src) <= usize::MAX,
    ensures
        grammar_items::import(program::input_of(src), i) matches Ok((d, _)) ==> is_named(d),
{
    reveal(grammar_items::import);
    let x = program::input_of(src);
    lemma_path_named(src, seq![], i + 1);
    match grammar_items::path(x, seq![], i + 1) {
        Ok((ns, j)) => lemma_symbols_named(src, seq![], j + 2),
        Err(_) => {},
    }
}

proof fn lemma_item_named(nest: Rules, src: Seq<char>, i: int)
    requires
        text::byte_len(src) <= usize::MAX,
    ensures
        match grammar_items::item(nest, program::input_of(src), i) {
            Ok((it, _)) => it is Import ==> is_named(it->Import_0),
            Err(_) => true,
        },
{
    reveal(grammar_items::item);
    reveal(grammar_items::declaration);
    reveal(grammar_items::value_item);
    lemma_import_named(src, i);
}

proof fn lemma_items_named(nest: Rules, src: Seq<char>, acc: Seq<tree::Item>, i: int)
    requires
        text::byte_len(src) <= usize::MAX,
        forall|j: int| 0 <= j < acc.len() && #[trigger] acc[j] is Import ==> is_named(acc[j]->Import_0),
    ensures
        grammar_items::items(nest, program::input_of(src), acc, i) matches Ok((v, _)) ==> forall|j: int|
            0 <= j < v.len() && #[trigger] v[j] is Import ==> is_named(v[j]->Import_0),
    decreases program::input_of(src).len() - i,
{
    reveal(grammar_items::items);
    let x = program::input_of(src);
    let k = input::skip_terms(x, i);
    if input::tk(x, k) != Token::Eof {
        lemma_item_named(nest, src, k);
        match grammar_items::item(nest, x, k) {
            Ok((it, j)) => {
                if k < j <= x.len() {
                    lemma_items_named(nest, src, acc.push(it), j);
                }
            },
            Err(_) => {},
        }
    }
}

// ── What is written ─────────────────────────────────────────────────────────

/// Whether a character may stand in an import.
pub open spec fn is_plain(c: char) -> bool {
    lexer::in_word(c) || c == ' ' || c == ':' || c == '{' || c == '}' || c == ','
}

pub open spec fn are_plain(s: Seq<char>) -> bool {
    forall|j: int| 0 <= j < s.len() ==> is_plain(#[trigger] s[j])
}

proof fn lemma_plain_add(a: Seq<char>, b: Seq<char>)
    requires
        are_plain(a),
        are_plain(b),
    ensures
        are_plain(a + b),
{
    assert forall|j: int| 0 <= j < (a + b).len() implies is_plain(#[trigger] (a + b)[j]) by {
        if j < a.len() {
            assert((a + b)[j] == a[j]);
        } else {
            assert((a + b)[j] == b[j - a.len()]);
        }
    }
}

proof fn lemma_names_plain(v: Seq<Seq<char>>, n: nat, sep: Seq<char>)
    requires
        n <= v.len(),
        are_names(v),
        are_plain(sep),
    ensures
        are_plain(compact::names_text(v, n, sep)),
    decreases n,
{
    if n > 0 {
        lemma_names_plain(v, (n - 1) as nat, sep);
        let p = compact::names_text(v, (n - 1) as nat, sep);
        lemma_plain_add(p, sep);
        assert(is_name_text(v[n - 1]));
        assert(are_plain(v[n - 1]));
        lemma_plain_add(compact::separated(p, n - 1, sep), v[n - 1]);
    }
}

proof fn lemma_import_plain(d: tree::ImportDecl)
    requires
        is_named(d),
    ensures
        are_plain(layout_items::import_text(d)),
        layout_items::import_text(d).len() > 0,
        layout_items::import_text(d)[0] == 'i',
{
    reveal(layout_items::import_text);
    reveal_strlit("import ");
    reveal_strlit("::");
    reveal_strlit("::{");
    reveal_strlit(", ");
    reveal_strlit("}");
    let p = compact::names_text(d.path, d.path.len(), "::"@);
    lemma_names_plain(d.path, d.path.len(), "::"@);
    let s = "import "@ + p;
    assert(are_plain("import "@));
    lemma_plain_add("import "@, p);
    match d.symbols {
        Some(ss) => {
            let q = compact::names_text(ss, ss.len(), ", "@);
            lemma_names_plain(ss, ss.len(), ", "@);
            assert(are_plain("::{"@));
            assert(are_plain("}"@));
            lemma_plain_add(s, "::{"@);
            lemma_plain_add(s + "::{"@, q);
            lemma_plain_add(s + "::{"@ + q, "}"@);
        },
        None => {},
    }
}

/// The texts of the first `n` imports, each on its line.
pub open spec fn rows(items: Seq<tree::Item>, n: nat) -> Seq<char>
    decreases n,
{
    if n == 0 {
        seq![]
    } else {
        rows(items, (n - 1) as nat) + layout_items::import_text(items[n - 1]->Import_0) + seq!['\n']
    }
}

/// Whether every item is an import that names what it imports.
pub open spec fn are_named(items: Seq<tree::Item>) -> bool {
    forall|j: int| 0 <= j < items.len() ==> #[trigger] items[j] is Import && is_named(items[j]->Import_0)
}

proof fn lemma_one_line(t: Seq<char>)
    requires
        t.len() > 0,
        are_plain(t),
    ensures
        text::lines(t) == seq![t],
{
    assert forall|j: int| 0 <= j < t.len() implies t[j] != '\n' by {
        assert(is_plain(t[j]));
    }
    lemma_line_to_end(t, 0);
    assert(t.subrange(0, t.len() as int) =~= t);
}

proof fn lemma_line_to_end(t: Seq<char>, i: int)
    requires
        0 <= i <= t.len(),
        forall|j: int| 0 <= j < t.len() ==> t[j] != '\n',
    ensures
        text::line_end(t, i) == t.len(),
    decreases t.len() - i,
{
    if i < t.len() {
        lemma_line_to_end(t, i + 1);
    }
}

proof fn lemma_import_rows(cx: Context, items: Seq<tree::Item>, n: nat)
    requires
        cx.notes.len() == 0,
        are_named(items),
        n <= items.len(),
    ensures
        layout_items::import_lines(cx, 0, items, n, seq![]) == (rows(items, n), 0int),
        layout_items::imports(items, n) == n,
    decreases n,
{
    if n > 0 {
        lemma_import_rows(cx, items, (n - 1) as nat);
        reveal(layout_items::import_item);
        let it = items[n - 1];
        assert(it is Import && is_named(it->Import_0));
        let t = layout_items::import_text(it->Import_0);
        let s = rows(items, (n - 1) as nat);
        lemma_import_plain(it->Import_0);
        lemma_one_line(t);
        assert(layout_items::push_lines(seq![t], 1, s) =~= s + t + seq!['\n']) by {
            assert(layout_items::push_lines(seq![t], 0, s) == s);
        }
    }
}

proof fn lemma_rest_none(cx: Context, items: Seq<tree::Item>, n: nat, s: Seq<char>)
    requires
        are_named(items),
        n <= items.len(),
    ensures
        layout_items::rest_lines(cx, 0, items, n, s) == (s, 0int),
    decreases n,
{
    if n > 0 {
        lemma_rest_none(cx, items, (n - 1) as nat, s);
        assert(items[n - 1] is Import);
    }
}

proof fn lemma_rows(items: Seq<tree::Item>, n: nat)
    requires
        are_named(items),
        n <= items.len(),
    ensures
        forall|j: int| 0 <= j < rows(items, n).len() ==> #[trigger] rows(items, n)[j] == '\n' || is_plain(
            rows(items, n)[j],
        ),
        forall|j: int|
            0 <= j && j + 1 < rows(items, n).len() && #[trigger] rows(items, n)[j] == '\n' ==> rows(items, n)[j + 1]
                != '\n',
        n > 0 ==> rows(items, n).len() > 0 && rows(items, n).last() == '\n',
    decreases n,
{
    let s = rows(items, n);
    if n > 0 {
        lemma_rows(items, (n - 1) as nat);
        let p = rows(items, (n - 1) as nat);
        let d = items[n - 1]->Import_0;
        assert(items[n - 1] is Import);
        lemma_import_plain(d);
        let t = layout_items::import_text(d);
        assert forall|j: int| 0 <= j < s.len() implies #[trigger] s[j] == '\n' || is_plain(s[j]) by {
            if j < p.len() {
                assert(s[j] == p[j]);
            } else if j < p.len() + t.len() {
                assert(s[j] == t[j - p.len()]);
            }
        }
        assert forall|j: int| 0 <= j && j + 1 < s.len() && #[trigger] s[j] == '\n' implies s[j + 1] != '\n' by {
            if j + 1 < p.len() {
                assert(s[j] == p[j] && s[j + 1] == p[j + 1]);
            } else if j + 1 == p.len() {
                assert(s[j + 1] == t[0]);
            } else if j < p.len() + t.len() {
                assert(s[j] == t[j - p.len()]);
                assert(is_plain(t[j - p.len()]));
            }
        }
    }
}

proof fn lemma_no_notes(s: Seq<char>, i: int, b: Seq<bool>, done: Seq<Note>)
    requires
        0 <= i,
        forall|j: int| 0 <= j < s.len() ==> s[j] != '/',
    ensures
        comments::comments_from(s, i, b, done) == done,
    decreases s.len() - i,
{
    let r = lexer::scan(s, i, b);
    if 0 <= i < s.len() && i < r.1 <= s.len() {
        lemma_no_notes(s, r.1, r.2, done);
    }
}

// ── Reading it back ─────────────────────────────────────────────────────────

/// Whether token `t` is of kind `k` and spells `w`.
pub open spec fn spells(s: Seq<char>, t: SpannedToken, k: Token, w: Seq<char>) -> bool {
    t.token == k && source::span_text(s, t.span) == w
}

/// Whether `b` is `a` with one more token, and no more errors.
pub open spec fn has_one_more(a: Lexed, b: Lexed) -> bool {
    b.errors == a.errors && b.tokens.len() == a.tokens.len() + 1 && b.tokens.drop_last() == a.tokens
}

/// Whether the tokens of `a` are the first of `b`, which has no more errors.
pub open spec fn goes_on(a: Lexed, b: Lexed) -> bool {
    &&& b.errors == a.errors
    &&& a.tokens.len() <= b.tokens.len()
    &&& forall|j: int| 0 <= j < a.tokens.len() ==> #[trigger] b.tokens[j] == a.tokens[j]
}

proof fn lemma_one_more(a: Lexed, b: Lexed)
    requires
        has_one_more(a, b),
    ensures
        goes_on(a, b),
{
    assert forall|j: int| 0 <= j < a.tokens.len() implies #[trigger] b.tokens[j] == a.tokens[j] by {
        assert(b.tokens.drop_last()[j] == b.tokens[j]);
    }
}

/// The piece at `i` is read.
proof fn lemma_token_step(s: Seq<char>, i: int, k: int, t: Token, b: Seq<bool>, c: Seq<bool>, done: Lexed) -> (more: Lexed)
    requires
        0 <= i < k <= s.len(),
        lexer::scan(s, i, b) == (Piece::Tok(t), k, c),
        text::byte_len(s) <= usize::MAX,
    ensures
        lexer::lex_from(s, i, b, done) == lexer::lex_from(s, k, c, more),
        has_one_more(done, more),
        goes_on(done, more),
        spells(s, more.tokens.last(), t, s.subrange(i, k)),
{
    let more = done.add_piece(s, Piece::Tok(t), i, k);
    lemma_span_text(s, i, k);
    assert(more.tokens.drop_last() =~= done.tokens);
    lemma_one_more(done, more);
    more
}

proof fn lemma_word_at(s: Seq<char>, i: int, k: int, w: Seq<char>)
    requires
        0 <= i < k < s.len(),
        s.subrange(i, k) == w,
        is_name_text(w) || w == "import"@,
        !lexer::in_word(s[k]),
    ensures
        lexer::scan(s, i, seq![]) == (Piece::Tok(token::word_token(w)), k, Seq::<bool>::empty()),
        lexer::scan(s, i, seq![false]) == (Piece::Tok(token::word_token(w)), k, seq![false]),
{
    reveal_strlit("import");
    assert(w.len() == k - i);
    assert("import"@.len() == 6);
    assert forall|j: int| i <= j < k implies lexer::in_word(#[trigger] s[j]) by {
        assert(s[j] == w[j - i]);
        if w == "import"@ {
            let q = j - i;
            assert(q == 0 || q == 1 || q == 2 || q == 3 || q == 4 || q == 5);
        }
        assert(lexer::in_word(w[j - i]));
    }
    assert(s[i] == w[0]);
    laws::lemma_word_stop(s, i, k);
}

/// Two colons are read as one token.
proof fn lemma_colons_at(s: Seq<char>, i: int)
    requires
        0 <= i,
        i + 1 < s.len(),
        s[i] == ':',
        s[i + 1] == ':',
    ensures
        lexer::scan(s, i, seq![]) == (Piece::Tok(Token::PathSep), i + 2, Seq::<bool>::empty()),
{
}

proof fn lemma_mark_at(s: Seq<char>, i: int)
    requires
        0 <= i < s.len(),
    ensures
        s[i] == '{' ==> lexer::scan(s, i, seq![]) == (Piece::Tok(Token::LBrace), i + 1, seq![false]),
        s[i] == '}' ==> lexer::scan(s, i, seq![false]) == (Piece::Tok(Token::RBrace), i + 1, Seq::<bool>::empty()),
        s[i] == ',' ==> lexer::scan(s, i, seq![false]) == (Piece::Tok(Token::Comma), i + 1, seq![false]),
        s[i] == '\n' ==> lexer::scan(s, i, seq![]) == (Piece::Tok(Token::Newline), i + 1, Seq::<bool>::empty()),
        s[i] == ' ' ==> lexer::scan(s, i, seq![]) == (Piece::Trivia, i + 1, Seq::<bool>::empty()),
        s[i] == ' ' ==> lexer::scan(s, i, seq![false]) == (Piece::Trivia, i + 1, seq![false]),
{
    assert(Seq::<bool>::empty().push(false) =~= seq![false]);
    assert(seq![false].drop_last() =~= Seq::<bool>::empty());
}

proof fn lemma_names_grow(v: Seq<Seq<char>>, j: nat, n: nat, sep: Seq<char>)
    requires
        j <= n <= v.len(),
    ensures
        compact::names_text(v, j, sep).len() <= compact::names_text(v, n, sep).len(),
        compact::names_text(v, n, sep).take(compact::names_text(v, j, sep).len() as int) == compact::names_text(
            v,
            j,
            sep,
        ),
    decreases n,
{
    let a = compact::names_text(v, j, sep);
    let w = compact::names_text(v, n, sep);
    if j < n {
        lemma_names_grow(v, j, (n - 1) as nat, sep);
        let p = compact::names_text(v, (n - 1) as nat, sep);
        assert(w.take(a.len() as int) =~= p.take(a.len() as int));
    } else {
        assert(w.take(a.len() as int) =~= a);
    }
}

/// Where name `j` stands in the names from `p` on, and what is before it.
proof fn lemma_name_place(s: Seq<char>, p: int, v: Seq<Seq<char>>, j: int, sep: Seq<char>)
    requires
        0 <= j < v.len(),
        0 <= p,
        p + compact::names_text(v, v.len(), sep).len() <= s.len(),
        s.subrange(p, p + compact::names_text(v, v.len(), sep).len()) == compact::names_text(v, v.len(), sep),
    ensures
        ({
            let a = p + compact::names_text(v, j as nat, sep).len();
            let b = p + compact::names_text(v, (j + 1) as nat, sep).len();
            let g = if j > 0 {
                sep.len() as int
            } else {
                0
            };
            &&& b == a + g + v[j].len() <= s.len()
            &&& s.subrange(a + g, b) == v[j]
            &&& j > 0 ==> s.subrange(a, a + g) == sep
        }),
{
    let all = compact::names_text(v, v.len(), sep);
    let x = compact::names_text(v, j as nat, sep);
    let y = compact::names_text(v, (j + 1) as nat, sep);
    lemma_names_grow(v, (j + 1) as nat, v.len(), sep);
    let a = p + x.len();
    let b = p + y.len();
    let g = if j > 0 {
        sep.len() as int
    } else {
        0
    };
    let m = compact::separated(x, j, sep);
    assert(y == m + v[j]);
    assert forall|q: int| 0 <= q < y.len() implies s[p + q] == y[q] by {
        assert(y[q] == all.take(y.len() as int)[q]);
        assert(s.subrange(p, p + all.len())[q] == s[p + q]);
    }
    assert(s.subrange(a + g, b) =~= v[j]) by {
        assert forall|q: int| 0 <= q < v[j].len() implies s.subrange(a + g, b)[q] == v[j][q] by {
            assert(y[m.len() + q] == v[j][q]);
            assert(s[p + (m.len() + q)] == y[m.len() + q]);
        }
    }
    if j > 0 {
        assert(s.subrange(a, a + g) =~= sep) by {
            assert forall|q: int| 0 <= q < sep.len() implies s.subrange(a, a + g)[q] == sep[q] by {
                assert(y[x.len() + q] == sep[q]);
                assert(s[p + (x.len() + q)] == y[x.len() + q]);
            }
        }
    }
}

/// Whether the tokens from `lo` on are `v[j..]`, each after a token `k`.
pub open spec fn follow(s: Seq<char>, ts: Seq<SpannedToken>, lo: int, v: Seq<Seq<char>>, j: int, k: Token) -> bool {
    forall|m: int|
        j <= m < v.len() ==> ts[lo + 2 * (m - j)].token == k && spells(
            s,
            ts[lo + 2 * (m - j) + 1],
            token::word_token(#[trigger] v[m]),
            v[m],
        )
}

proof fn lemma_lex_path(s: Seq<char>, p: int, v: Seq<Seq<char>>, j: int, done: Lexed) -> (more: Lexed)
    requires
        1 <= j <= v.len(),
        are_names(v),
        0 <= p,
        p + compact::names_text(v, v.len(), "::"@).len() < s.len(),
        s.subrange(p, p + compact::names_text(v, v.len(), "::"@).len()) == compact::names_text(v, v.len(), "::"@),
        !lexer::in_word(s[p + compact::names_text(v, v.len(), "::"@).len()]),
        text::byte_len(s) <= usize::MAX,
    ensures
        lexer::lex_from(s, p + compact::names_text(v, j as nat, "::"@).len(), seq![], done) == lexer::lex_from(
            s,
            p + compact::names_text(v, v.len(), "::"@).len(),
            seq![],
            more,
        ),
        goes_on(done, more),
        more.tokens.len() == done.tokens.len() + 2 * (v.len() - j),
        follow(s, more.tokens, done.tokens.len() as int, v, j, Token::PathSep),
    decreases v.len() - j,
{
    if j < v.len() {
        reveal_strlit("::");
        let a = p + compact::names_text(v, j as nat, "::"@).len();
        let b = p + compact::names_text(v, (j + 1) as nat, "::"@).len();
        lemma_name_place(s, p, v, j, "::"@);
        assert(s.subrange(a, a + 2)[0] == ':' && s.subrange(a, a + 2)[1] == ':');
        lemma_colons_at(s, a);
        let one = lemma_token_step(s, a, a + 2, Token::PathSep, seq![], seq![], done);
        assert(is_name_text(v[j]));
        assert(b < s.len() && !lexer::in_word(s[b])) by {
            if j + 1 < v.len() {
                lemma_name_place(s, p, v, j + 1, "::"@);
                assert(s.subrange(b, b + 2)[0] == ':');
            }
        }
        lemma_word_at(s, a + 2, b, v[j]);
        let two = lemma_token_step(s, a + 2, b, token::word_token(v[j]), seq![], seq![], one);
        let more = lemma_lex_path(s, p, v, j + 1, two);
        let lo = done.tokens.len() as int;
        assert(more.tokens[lo] == two.tokens[lo] && two.tokens[lo] == one.tokens[lo]);
        assert(more.tokens[lo + 1] == two.tokens[lo + 1]);
        assert forall|q: int| 0 <= q < done.tokens.len() implies #[trigger] more.tokens[q] == done.tokens[q] by {
            assert(one.tokens[q] == done.tokens[q]);
            assert(two.tokens[q] == one.tokens[q]);
        }
        assert forall|m: int| j <= m < v.len() implies more.tokens[lo + 2 * (m - j)].token == Token::PathSep && spells(
            s,
            more.tokens[lo + 2 * (m - j) + 1],
            token::word_token(#[trigger] v[m]),
            v[m],
        ) by {
            if m > j {
                assert(two.tokens.len() + 2 * (m - (j + 1)) == lo + 2 * (m - j));
                assert(spells(s, more.tokens[two.tokens.len() + 2 * (m - (j + 1)) + 1], token::word_token(v[m]), v[m]));
            }
        }
        more
    } else {
        done
    }
}

proof fn lemma_lex_symbols(s: Seq<char>, p: int, v: Seq<Seq<char>>, j: int, done: Lexed) -> (more: Lexed)
    requires
        1 <= j <= v.len(),
        are_names(v),
        0 <= p,
        p + compact::names_text(v, v.len(), ", "@).len() < s.len(),
        s.subrange(p, p + compact::names_text(v, v.len(), ", "@).len()) == compact::names_text(v, v.len(), ", "@),
        !lexer::in_word(s[p + compact::names_text(v, v.len(), ", "@).len()]),
        text::byte_len(s) <= usize::MAX,
    ensures
        lexer::lex_from(s, p + compact::names_text(v, j as nat, ", "@).len(), seq![false], done) == lexer::lex_from(
            s,
            p + compact::names_text(v, v.len(), ", "@).len(),
            seq![false],
            more,
        ),
        goes_on(done, more),
        more.tokens.len() == done.tokens.len() + 2 * (v.len() - j),
        follow(s, more.tokens, done.tokens.len() as int, v, j, Token::Comma),
    decreases v.len() - j,
{
    if j < v.len() {
        reveal_strlit(", ");
        let a = p + compact::names_text(v, j as nat, ", "@).len();
        let b = p + compact::names_text(v, (j + 1) as nat, ", "@).len();
        lemma_name_place(s, p, v, j, ", "@);
        assert(s.subrange(a, a + 2)[0] == ',' && s.subrange(a, a + 2)[1] == ' ');
        lemma_mark_at(s, a);
        lemma_mark_at(s, a + 1);
        let one = lemma_token_step(s, a, a + 1, Token::Comma, seq![false], seq![false], done);
        assert(lexer::lex_from(s, a + 1, seq![false], one) == lexer::lex_from(s, a + 2, seq![false], one));
        assert(is_name_text(v[j]));
        assert(b < s.len() && !lexer::in_word(s[b])) by {
            if j + 1 < v.len() {
                lemma_name_place(s, p, v, j + 1, ", "@);
                assert(s.subrange(b, b + 2)[0] == ',');
            }
        }
        lemma_word_at(s, a + 2, b, v[j]);
        let two = lemma_token_step(s, a + 2, b, token::word_token(v[j]), seq![false], seq![false], one);
        let more = lemma_lex_symbols(s, p, v, j + 1, two);
        let lo = done.tokens.len() as int;
        assert(more.tokens[lo] == two.tokens[lo] && two.tokens[lo] == one.tokens[lo]);
        assert(more.tokens[lo + 1] == two.tokens[lo + 1]);
        assert forall|q: int| 0 <= q < done.tokens.len() implies #[trigger] more.tokens[q] == done.tokens[q] by {
            assert(one.tokens[q] == done.tokens[q]);
            assert(two.tokens[q] == one.tokens[q]);
        }
        assert forall|m: int| j <= m < v.len() implies more.tokens[lo + 2 * (m - j)].token == Token::Comma && spells(
            s,
            more.tokens[lo + 2 * (m - j) + 1],
            token::word_token(#[trigger] v[m]),
            v[m],
        ) by {
            if m > j {
                assert(two.tokens.len() + 2 * (m - (j + 1)) == lo + 2 * (m - j));
                assert(spells(s, more.tokens[two.tokens.len() + 2 * (m - (j + 1)) + 1], token::word_token(v[m]), v[m]));
            }
        }
        more
    } else {
        done
    }
}

/// Where the closing brace of the symbols stands, from their first token on.
pub open spec fn brace_place(m: nat) -> int {
    if m == 0 {
        0
    } else {
        2 * m - 1
    }
}

/// How many tokens an import is read as, with the end of its line.
pub open spec fn row_len(d: tree::ImportDecl) -> int {
    match d.symbols {
        Some(ss) => 2 * d.path.len() + 4 + brace_place(ss.len()),
        None => 2 * d.path.len() as int + 1,
    }
}

/// Whether the tokens from `k` on are those of an import on its line.
#[verifier::opaque]
pub open spec fn row_at(x: Input, k: int, d: tree::ImportDecl) -> bool {
    let e = k + 2 * d.path.len();
    &&& 0 <= k
    &&& k + row_len(d) <= x.toks.len()
    &&& x.toks[k].token == Token::Import
    &&& spells(x.src, x.toks[k + 1], token::word_token(d.path[0]), d.path[0])
    &&& follow(x.src, x.toks, k + 2, d.path, 1, Token::PathSep)
    &&& x.toks[k + row_len(d) - 1].token == Token::Newline
    &&& match d.symbols {
        Some(ss) => {
            &&& x.toks[e].token == Token::PathSep
            &&& x.toks[e + 1].token == Token::LBrace
            &&& ss.len() > 0 ==> spells(x.src, x.toks[e + 2], token::word_token(ss[0]), ss[0]) && follow(
                x.src,
                x.toks,
                e + 3,
                ss,
                1,
                Token::Comma,
            )
            &&& x.toks[e + 2 + brace_place(ss.len())].token == Token::RBrace
        },
        None => true,
    }
}

proof fn lemma_follow_stays(s: Seq<char>, a: Seq<SpannedToken>, b: Seq<SpannedToken>, lo: int, v: Seq<Seq<char>>, k: Token)
    requires
        0 <= lo,
        a.len() <= b.len(),
        forall|j: int| 0 <= j < a.len() ==> #[trigger] b[j] == a[j],
        lo + 2 * (v.len() - 1) <= a.len(),
        follow(s, a, lo, v, 1, k),
    ensures
        follow(s, b, lo, v, 1, k),
{
    assert forall|m: int| 1 <= m < v.len() implies b[lo + 2 * (m - 1)].token == k && spells(
        s,
        b[lo + 2 * (m - 1) + 1],
        token::word_token(#[trigger] v[m]),
        v[m],
    ) by {
        assert(a[lo + 2 * (m - 1)].token == k);
        assert(b[lo + 2 * (m - 1)] == a[lo + 2 * (m - 1)]);
        assert(b[lo + 2 * (m - 1) + 1] == a[lo + 2 * (m - 1) + 1]);
    }
}

proof fn lemma_row_stays(s: Seq<char>, a: Seq<SpannedToken>, b: Seq<SpannedToken>, k: int, d: tree::ImportDecl)
    requires
        is_named(d),
        a.len() <= b.len(),
        forall|j: int| 0 <= j < a.len() ==> #[trigger] b[j] == a[j],
        row_at(Input { toks: a, src: s }, k, d),
    ensures
        row_at(Input { toks: b, src: s }, k, d),
{
    reveal(row_at);
    lemma_follow_stays(s, a, b, k + 2, d.path, Token::PathSep);
    match d.symbols {
        Some(ss) => {
            if ss.len() > 0 {
                lemma_follow_stays(s, a, b, k + 2 * d.path.len() + 3, ss, Token::Comma);
            }
        },
        None => {},
    }
}

/// The head of an import: the keyword and the path.
proof fn lemma_lex_head(s: Seq<char>, a: int, v: Seq<Seq<char>>, done: Lexed) -> (more: Lexed)
    requires
        0 <= a,
        v.len() > 0,
        are_names(v),
        a + 7 + compact::names_text(v, v.len(), "::"@).len() < s.len(),
        s.subrange(a, a + 7) == "import "@,
        s.subrange(a + 7, a + 7 + compact::names_text(v, v.len(), "::"@).len()) == compact::names_text(
            v,
            v.len(),
            "::"@,
        ),
        !lexer::in_word(s[a + 7 + compact::names_text(v, v.len(), "::"@).len()]),
        text::byte_len(s) <= usize::MAX,
    ensures
        lexer::lex_from(s, a, seq![], done) == lexer::lex_from(
            s,
            a + 7 + compact::names_text(v, v.len(), "::"@).len(),
            seq![],
            more,
        ),
        goes_on(done, more),
        more.tokens.len() == done.tokens.len() + 2 * v.len(),
        more.tokens[done.tokens.len() as int].token == Token::Import,
        spells(s, more.tokens[done.tokens.len() as int + 1], token::word_token(v[0]), v[0]),
        follow(s, more.tokens, done.tokens.len() as int + 2, v, 1, Token::PathSep),
{
    reveal_strlit("import ");
    reveal_strlit("import");
    reveal_strlit("::");
    let p = a + 7;
    let n = v.len();
    let lo = done.tokens.len() as int;
    let h = s.subrange(a, a + 7);
    assert(h[6] == ' ' && h[6] == s[a + 6]);
    assert(s.subrange(a, a + 6) =~= "import"@) by {
        assert forall|j: int| 0 <= j < 6 implies s[a + j] == "import"@[j] by {
            assert(h[j] == s[a + j]);
        }
    }
    lemma_word_at(s, a, a + 6, "import"@);
    let one = lemma_token_step(s, a, a + 6, Token::Import, seq![], seq![], done);
    lemma_mark_at(s, a + 6);
    assert(lexer::lex_from(s, a + 6, seq![], one) == lexer::lex_from(s, p, seq![], one));
    lemma_name_place(s, p, v, 0, "::"@);
    let b = p + compact::names_text(v, 1, "::"@).len();
    assert(compact::names_text(v, 0, "::"@).len() == 0);
    assert(b < s.len() && !lexer::in_word(s[b])) by {
        if n > 1 {
            lemma_name_place(s, p, v, 1, "::"@);
            assert(s.subrange(b, b + 2)[0] == ':');
        }
    }
    assert(is_name_text(v[0]));
    lemma_word_at(s, p, b, v[0]);
    let two = lemma_token_step(s, p, b, token::word_token(v[0]), seq![], seq![], one);
    let more = lemma_lex_path(s, p, v, 1, two);
    assert(more.tokens[lo] == two.tokens[lo] && two.tokens[lo] == one.tokens[lo]);
    assert(more.tokens[lo + 1] == two.tokens[lo + 1]);
    assert forall|q: int| 0 <= q < done.tokens.len() implies #[trigger] more.tokens[q] == done.tokens[q] by {
        assert(one.tokens[q] == done.tokens[q]);
        assert(two.tokens[q] == one.tokens[q]);
    }
    more
}

/// The symbols of an import in their braces.
proof fn lemma_lex_tail(s: Seq<char>, e: int, ss: Seq<Seq<char>>, done: Lexed) -> (more: Lexed)
    requires
        0 <= e,
        are_names(ss),
        e + 3 + compact::names_text(ss, ss.len(), ", "@).len() < s.len(),
        s[e] == ':',
        s[e + 1] == ':',
        s[e + 2] == '{',
        s.subrange(e + 3, e + 3 + compact::names_text(ss, ss.len(), ", "@).len()) == compact::names_text(
            ss,
            ss.len(),
            ", "@,
        ),
        s[e + 3 + compact::names_text(ss, ss.len(), ", "@).len()] == '}',
        text::byte_len(s) <= usize::MAX,
    ensures
        lexer::lex_from(s, e, seq![], done) == lexer::lex_from(
            s,
            e + 4 + compact::names_text(ss, ss.len(), ", "@).len(),
            seq![],
            more,
        ),
        goes_on(done, more),
        more.tokens.len() == done.tokens.len() + 3 + brace_place(ss.len()),
        more.tokens[done.tokens.len() as int].token == Token::PathSep,
        more.tokens[done.tokens.len() as int + 1].token == Token::LBrace,
        ss.len() > 0 ==> spells(s, more.tokens[done.tokens.len() as int + 2], token::word_token(ss[0]), ss[0]) && follow(
            s,
            more.tokens,
            done.tokens.len() as int + 3,
            ss,
            1,
            Token::Comma,
        ),
        more.tokens[done.tokens.len() + 2 + brace_place(ss.len())].token == Token::RBrace,
{
    reveal_strlit(", ");
    let lo = done.tokens.len() as int;
    let p = e + 3;
    let q = p + compact::names_text(ss, ss.len(), ", "@).len();
    lemma_colons_at(s, e);
    let one = lemma_token_step(s, e, e + 2, Token::PathSep, seq![], seq![], done);
    lemma_mark_at(s, e + 2);
    let two = lemma_token_step(s, e + 2, p, Token::LBrace, seq![], seq![false], one);
    lemma_mark_at(s, q);
    if ss.len() > 0 {
        lemma_name_place(s, p, ss, 0, ", "@);
        let b = p + compact::names_text(ss, 1, ", "@).len();
        assert(compact::names_text(ss, 0, ", "@).len() == 0);
        assert(b < s.len() && !lexer::in_word(s[b])) by {
            if ss.len() > 1 {
                lemma_name_place(s, p, ss, 1, ", "@);
                assert(s.subrange(b, b + 2)[0] == ',');
            }
        }
        assert(is_name_text(ss[0]));
        lemma_word_at(s, p, b, ss[0]);
        let three = lemma_token_step(s, p, b, token::word_token(ss[0]), seq![false], seq![false], two);
        let four = lemma_lex_symbols(s, p, ss, 1, three);
        let more = lemma_token_step(s, q, q + 1, Token::RBrace, seq![false], seq![], four);
        assert forall|j: int| 0 <= j < four.tokens.len() implies #[trigger] more.tokens[j] == four.tokens[j] by {}
        lemma_follow_stays(s, four.tokens, more.tokens, lo + 3, ss, Token::Comma);
        assert(more.tokens[lo] == four.tokens[lo] && four.tokens[lo] == three.tokens[lo] && three.tokens[lo]
            == two.tokens[lo] && two.tokens[lo] == one.tokens[lo]);
        assert(more.tokens[lo + 1] == four.tokens[lo + 1] && four.tokens[lo + 1] == three.tokens[lo + 1]
            && three.tokens[lo + 1] == two.tokens[lo + 1]);
        assert(more.tokens[lo + 2] == four.tokens[lo + 2] && four.tokens[lo + 2] == three.tokens[lo + 2]);
        assert forall|j: int| 0 <= j < done.tokens.len() implies #[trigger] more.tokens[j] == done.tokens[j] by {
            assert(one.tokens[j] == done.tokens[j]);
            assert(two.tokens[j] == one.tokens[j]);
            assert(three.tokens[j] == two.tokens[j]);
            assert(four.tokens[j] == three.tokens[j]);
        }
        more
    } else {
        assert(q == p);
        let more = lemma_token_step(s, q, q + 1, Token::RBrace, seq![false], seq![], two);
        assert(more.tokens[lo] == two.tokens[lo] && two.tokens[lo] == one.tokens[lo]);
        assert(more.tokens[lo + 1] == two.tokens[lo + 1]);
        assert forall|j: int| 0 <= j < done.tokens.len() implies #[trigger] more.tokens[j] == done.tokens[j] by {
            assert(one.tokens[j] == done.tokens[j]);
            assert(two.tokens[j] == one.tokens[j]);
        }
        more
    }
}

/// The pieces of the text of an import.
proof fn lemma_import_parts(s: Seq<char>, a: int, d: tree::ImportDecl)
    requires
        0 <= a,
        a + layout_items::import_text(d).len() <= s.len(),
        s.subrange(a, a + layout_items::import_text(d).len()) == layout_items::import_text(d),
    ensures
        ({
            let np = compact::names_text(d.path, d.path.len(), "::"@);
            let e = a + 7 + np.len();
            &&& s.subrange(a, a + 7) == "import "@
            &&& s.subrange(a + 7, e) == np
            &&& match d.symbols {
                Some(ss) => {
                    let ns = compact::names_text(ss, ss.len(), ", "@);
                    &&& layout_items::import_text(d).len() == 7 + np.len() + 4 + ns.len()
                    &&& s[e] == ':'
                    &&& s[e + 1] == ':'
                    &&& s[e + 2] == '{'
                    &&& s.subrange(e + 3, e + 3 + ns.len()) == ns
                    &&& s[e + 3 + ns.len()] == '}'
                },
                None => layout_items::import_text(d).len() == 7 + np.len(),
            }
        }),
{
    reveal(layout_items::import_text);
    reveal_strlit("import ");
    reveal_strlit("::{");
    reveal_strlit("}");
    let t = layout_items::import_text(d);
    let np = compact::names_text(d.path, d.path.len(), "::"@);
    let e = a + 7 + np.len();
    assert forall|j: int| 0 <= j < t.len() implies s[a + j] == #[trigger] t[j] by {
        assert(s.subrange(a, a + t.len())[j] == s[a + j]);
    }
    assert(s.subrange(a, a + 7) =~= "import "@) by {
        assert forall|j: int| 0 <= j < 7 implies s[a + j] == "import "@[j] by {
            assert(t[j] == "import "@[j]);
        }
    }
    assert(s.subrange(a + 7, e) =~= np) by {
        assert forall|j: int| 0 <= j < np.len() implies s[a + 7 + j] == np[j] by {
            assert(t[7 + j] == np[j]);
        }
    }
    match d.symbols {
        Some(ss) => {
            let ns = compact::names_text(ss, ss.len(), ", "@);
            let h = 7 + np.len() as int;
            assert(t[h] == "::{"@[0] && t[h + 1] == "::{"@[1] && t[h + 2] == "::{"@[2]);
            assert(t[h + 3 + ns.len()] == "}"@[0]);
            assert(s.subrange(e + 3, e + 3 + ns.len()) =~= ns) by {
                assert forall|j: int| 0 <= j < ns.len() implies s[e + 3 + j] == ns[j] by {
                    assert(t[h + 3 + j] == ns[j]);
                }
            }
        },
        None => {},
    }
}

/// An import on its line is read.
proof fn lemma_lex_row(s: Seq<char>, a: int, d: tree::ImportDecl, done: Lexed) -> (more: Lexed)
    requires
        is_named(d),
        0 <= a,
        a + layout_items::import_text(d).len() < s.len(),
        s.subrange(a, a + layout_items::import_text(d).len()) == layout_items::import_text(d),
        s[a + layout_items::import_text(d).len()] == '\n',
        text::byte_len(s) <= usize::MAX,
    ensures
        lexer::lex_from(s, a, seq![], done) == lexer::lex_from(
            s,
            a + layout_items::import_text(d).len() + 1,
            seq![],
            more,
        ),
        goes_on(done, more),
        more.tokens.len() == done.tokens.len() + row_len(d),
        row_at(Input { toks: more.tokens, src: s }, done.tokens.len() as int, d),
{
    reveal(row_at);
    lemma_import_parts(s, a, d);
    let lo = done.tokens.len() as int;
    let one = lemma_lex_head(s, a, d.path, done);
    let z = a + layout_items::import_text(d).len();
    lemma_mark_at(s, z);
    match d.symbols {
        Some(ss) => {
            let e = a + 7 + compact::names_text(d.path, d.path.len(), "::"@).len();
            let two = lemma_lex_tail(s, e, ss, one);
            let more = lemma_token_step(s, z, z + 1, Token::Newline, seq![], seq![], two);
            assert forall|j: int| 0 <= j < one.tokens.len() implies #[trigger] more.tokens[j] == one.tokens[j] by {
                assert(two.tokens[j] == one.tokens[j]);
            }
            assert forall|j: int| 0 <= j < done.tokens.len() implies #[trigger] more.tokens[j] == done.tokens[j] by {
                assert(one.tokens[j] == done.tokens[j]);
            }
            lemma_follow_stays(s, one.tokens, more.tokens, lo + 2, d.path, Token::PathSep);
            if ss.len() > 0 {
                lemma_follow_stays(s, two.tokens, more.tokens, lo + 2 * d.path.len() + 3, ss, Token::Comma);
            }
            let k = one.tokens.len() as int;
            assert(more.tokens[k] == two.tokens[k] && more.tokens[k + 1] == two.tokens[k + 1]);
            assert(more.tokens[k + 2] == two.tokens[k + 2]);
            assert(more.tokens[k + 2 + brace_place(ss.len())] == two.tokens[k + 2 + brace_place(ss.len())]);
            more
        },
        None => {
            let more = lemma_token_step(s, z, z + 1, Token::Newline, seq![], seq![], one);
            assert forall|j: int| 0 <= j < done.tokens.len() implies #[trigger] more.tokens[j] == done.tokens[j] by {
                assert(one.tokens[j] == done.tokens[j]);
            }
            lemma_follow_stays(s, one.tokens, more.tokens, lo + 2, d.path, Token::PathSep);
            more
        },
    }
}

/// The first and the last token of an import on its line.
proof fn lemma_row_ends(x: Input, k: int, d: tree::ImportDecl)
    requires
        row_at(x, k, d),
    ensures
        0 <= k < k + row_len(d) <= x.toks.len(),
        x.toks[k].token == Token::Import,
        x.toks[k + row_len(d) - 1].token == Token::Newline,
{
    reveal(row_at);
}

/// Where the tokens of import `n` start.
pub open spec fn row_start(items: Seq<tree::Item>, n: nat) -> int
    decreases n,
{
    if n == 0 {
        0
    } else {
        row_start(items, (n - 1) as nat) + row_len(items[n - 1]->Import_0)
    }
}

/// Whether the first `n` imports stand on their rows.
pub open spec fn rows_at(x: Input, items: Seq<tree::Item>, n: nat) -> bool {
    forall|j: int| 0 <= j < n ==> row_at(x, row_start(items, j as nat), (#[trigger] items[j])->Import_0)
}

proof fn lemma_rows_grow(items: Seq<tree::Item>, i: nat, n: nat)
    requires
        i <= n <= items.len(),
    ensures
        rows(items, i).len() <= rows(items, n).len(),
        rows(items, n).take(rows(items, i).len() as int) == rows(items, i),
    decreases n,
{
    let a = rows(items, i);
    let w = rows(items, n);
    if i < n {
        lemma_rows_grow(items, i, (n - 1) as nat);
        let p = rows(items, (n - 1) as nat);
        assert(w.take(a.len() as int) =~= p.take(a.len() as int));
    } else {
        assert(w.take(a.len() as int) =~= a);
    }
}

proof fn lemma_lex_rows(items: Seq<tree::Item>, i: nat, done: Lexed) -> (more: Lexed)
    requires
        are_named(items),
        i <= items.len(),
        text::byte_len(rows(items, items.len())) <= usize::MAX,
        done.errors.len() == 0,
        done.tokens.len() == row_start(items, i),
        rows_at(Input { toks: done.tokens, src: rows(items, items.len()) }, items, i),
    ensures
        lexer::lex_from(rows(items, items.len()), rows(items, i).len() as int, seq![], done) == more,
        more.errors.len() == 0,
        more.tokens.len() == row_start(items, items.len()),
        rows_at(Input { toks: more.tokens, src: rows(items, items.len()) }, items, items.len()),
    decreases items.len() - i,
{
    let s = rows(items, items.len());
    if i < items.len() {
        let d = items[i as int]->Import_0;
        assert(items[i as int] is Import);
        let t = layout_items::import_text(d);
        let a = rows(items, i).len() as int;
        let q = rows(items, i + 1);
        lemma_rows_grow(items, i + 1, items.len());
        assert(q == rows(items, i) + t + seq!['\n']);
        assert forall|j: int| 0 <= j < q.len() implies s[j] == #[trigger] q[j] by {
            assert(s.take(q.len() as int)[j] == s[j]);
        }
        assert(s.subrange(a, a + t.len()) =~= t) by {
            assert forall|j: int| 0 <= j < t.len() implies s[a + j] == t[j] by {
                assert(q[a + j] == t[j]);
            }
        }
        assert(q[a + t.len()] == '\n');
        let one = lemma_lex_row(s, a, d, done);
        assert forall|j: int| 0 <= j < i + 1 implies row_at(
            Input { toks: one.tokens, src: s },
            row_start(items, j as nat),
            (#[trigger] items[j])->Import_0,
        ) by {
            if j < i {
                assert(items[j] is Import);
                lemma_row_stays(s, done.tokens, one.tokens, row_start(items, j as nat), items[j]->Import_0);
            }
        }
        lemma_lex_rows(items, i + 1, one)
    } else {
        done
    }
}

proof fn lemma_parse_path(x: Input, k: int, d: tree::ImportDecl, acc: Seq<Seq<char>>, j: int)
    requires
        is_named(d),
        row_at(x, k, d),
        0 <= j < d.path.len(),
        acc == d.path.take(j),
    ensures
        grammar_items::path(x, acc, k + 1 + 2 * j) == Ok::<(Seq<Seq<char>>, int), int>((d.path, k + 2 * d.path.len())),
    decreases d.path.len() - j,
{
    reveal(row_at);
    reveal(grammar_items::path);
    reveal(input::named);
    let v = d.path;
    let i = k + 1 + 2 * j;
    assert(is_name_text(v[j]));
    assert(spells(x.src, x.toks[i], token::word_token(v[j]), v[j])) by {
        if j > 0 {
            assert(x.toks[k + 2 + 2 * (j - 1) + 1] == x.toks[i]);
        }
    }
    assert(input::word(x, i) == v[j]);
    assert(v.take(j).push(v[j]) =~= v.take(j + 1));
    if j + 1 < v.len() {
        assert(is_name_text(v[j + 1]));
        assert(x.toks[k + 2 + 2 * (j + 1 - 1)] == x.toks[i + 1]);
        assert(x.toks[k + 2 + 2 * (j + 1 - 1) + 1] == x.toks[i + 2]);
        lemma_parse_path(x, k, d, v.take(j + 1), j + 1);
    } else {
        assert(v.take(j + 1) =~= v);
        assert(i + 1 == k + 2 * v.len());
    }
}

proof fn lemma_parse_symbols(x: Input, k: int, d: tree::ImportDecl, ss: Seq<Seq<char>>, acc: Seq<Seq<char>>, j: int)
    requires
        is_named(d),
        row_at(x, k, d),
        d.symbols == Some(ss),
        0 <= j <= ss.len(),
        j < ss.len() || j == 0,
        acc == ss.take(j),
    ensures
        grammar_items::symbols(x, acc, k + 2 * d.path.len() + 2 + 2 * j) == Ok::<(Seq<Seq<char>>, int), int>(
            (ss, k + 2 * d.path.len() + 3 + brace_place(ss.len())),
        ),
    decreases ss.len() - j,
{
    reveal(row_at);
    reveal(grammar_items::symbols);
    reveal(input::named);
    let e = k + 2 * d.path.len();
    let i = e + 2 + 2 * j;
    if j < ss.len() {
        assert(is_name_text(ss[j]));
        assert(spells(x.src, x.toks[i], token::word_token(ss[j]), ss[j])) by {
            if j > 0 {
                assert(x.toks[e + 3 + 2 * (j - 1) + 1] == x.toks[i]);
            }
        }
        assert(input::word(x, i) == ss[j]);
        assert(input::skip_newlines(x, i) == i);
        assert(ss.take(j).push(ss[j]) =~= ss.take(j + 1));
        if j + 1 < ss.len() {
            assert(is_name_text(ss[j + 1]));
            assert(x.toks[e + 3 + 2 * (j + 1 - 1)] == x.toks[i + 1]);
            assert(input::skip_newlines(x, i + 1) == i + 1);
            lemma_parse_symbols(x, k, d, ss, ss.take(j + 1), j + 1);
        } else {
            assert(i + 1 == e + 2 + brace_place(ss.len()));
            assert(input::skip_newlines(x, i + 1) == i + 1);
            assert(ss.take(j + 1) =~= ss);
        }
    } else {
        assert(input::skip_newlines(x, i) == i);
        assert(ss.take(0) =~= ss);
    }
}

/// Whether two items are imports of the same.
pub open spec fn same_import(a: tree::Item, b: tree::Item) -> bool {
    &&& a is Import
    &&& b is Import
    &&& a->Import_0.path == b->Import_0.path
    &&& a->Import_0.symbols == b->Import_0.symbols
}

proof fn lemma_parse_row(nest: Rules, x: Input, k: int, d: tree::ImportDecl)
    requires
        is_named(d),
        row_at(x, k, d),
    ensures
        grammar_items::item(nest, x, k) matches Ok((it, j)) && j == k + row_len(d) - 1 && same_import(
            it,
            tree::Item::Import(d),
        ),
{
    reveal(row_at);
    reveal(grammar_items::item);
    reveal(grammar_items::declaration);
    reveal(grammar_items::import);
    reveal(input::starts_declaration);
    let none = Seq::<Seq<char>>::empty();
    assert(d.path.take(0) =~= none);
    lemma_parse_path(x, k, d, none, 0);
    match d.symbols {
        Some(ss) => {
            assert(ss.take(0) =~= none);
            lemma_parse_symbols(x, k, d, ss, none, 0);
        },
        None => {},
    }
}

proof fn lemma_parse_rows(nest: Rules, x: Input, items: Seq<tree::Item>, acc: Seq<tree::Item>, i: nat, q: int)
    requires
        are_named(items),
        i <= items.len(),
        x.toks.len() == row_start(items, items.len()),
        rows_at(x, items, items.len()),
        0 <= q <= x.toks.len(),
        input::skip_terms(x, q) == row_start(items, i),
        acc.len() == i,
        forall|j: int| 0 <= j < i ==> same_import(#[trigger] acc[j], items[j]),
    ensures
        grammar_items::items(nest, x, acc, q) matches Ok((v, _)) && v.len() == items.len() && forall|j: int|
            0 <= j < items.len() ==> same_import(#[trigger] v[j], items[j]),
    decreases items.len() - i,
{
    reveal(grammar_items::items);
    reveal(input::is_term);
    let k = row_start(items, i);
    if i < items.len() {
        let d = items[i as int]->Import_0;
        assert(items[i as int] is Import);
        assert(row_at(x, k, d));
        lemma_parse_row(nest, x, k, d);
        lemma_row_ends(x, k, d);
        let r = grammar_items::item(nest, x, k);
        let it = r->Ok_0.0;
        let j = r->Ok_0.1;
        assert(x.toks[j].token == Token::Newline);
        assert(input::term(x, j));
        assert(input::skip_terms(x, j) == row_start(items, i + 1)) by {
            if i + 1 < items.len() {
                assert(items[i as int + 1] is Import);
                assert(row_at(x, row_start(items, i + 1), items[i as int + 1]->Import_0));
                lemma_row_ends(x, row_start(items, i + 1), items[i as int + 1]->Import_0);
                assert(!input::term(x, j + 1));
            }
            assert(row_start(items, i + 1) == j + 1);
            assert(input::skip_terms(x, j + 1) == j + 1);
            assert(input::skip_terms(x, j) == input::skip_terms(x, j + 1));
        }
        assert(same_import(it, items[i as int]));
        let more = acc.push(it);
        assert forall|m: int| 0 <= m < i + 1 implies same_import(#[trigger] more[m], items[m]) by {
            if m < i {
                assert(more[m] == acc[m]);
            }
        }
        lemma_parse_rows(nest, x, items, more, i + 1, j);
    }
}

proof fn lemma_same_rows(a: Seq<tree::Item>, b: Seq<tree::Item>, n: nat)
    requires
        n <= a.len(),
        a.len() == b.len(),
        forall|j: int| 0 <= j < a.len() ==> same_import(#[trigger] a[j], b[j]),
    ensures
        rows(a, n) == rows(b, n),
    decreases n,
{
    if n > 0 {
        lemma_same_rows(a, b, (n - 1) as nat);
        assert(same_import(a[n - 1], b[n - 1]));
        reveal(layout_items::import_text);
    }
}

/// What formatting imports without comments gives.
proof fn lemma_imports_laid(cx: Context, p: tree::Program)
    requires
        cx.notes.len() == 0,
        are_named(p.items),
        p.items.len() > 0,
    ensures
        layout_items::formatted(cx, p) == rows(p.items, p.items.len()),
{
    let n = p.items.len();
    let t = rows(p.items, n);
    lemma_import_rows(cx, p.items, n);
    lemma_rest_none(cx, p.items, n, t);
    lemma_rows(p.items, n);
    assert(layout_items::program_text(cx, p) == (t, 0int));
    assert(layout::top_leads(cx, 0, usize::MAX as int, t).0 == t);
    assert(laws::has_short_gaps(t));
    laws::lemma_short_gaps_stay(t);
}

/// Formatting imports without comments once more changes nothing.
pub proof fn lemma_imports_settle(src: Seq<char>, options: formatter::FormatOptions)
    requires
        formatter::fault(src) is None,
        comments::comments(src).len() == 0,
        are_imports(program::parsed(program::input_of(src))->Ok_0.items),
        program::parsed(program::input_of(src))->Ok_0.items.len() > 0,
        text::byte_len(src) <= usize::MAX,
        text::byte_len(formatter::canonical(src, options)) <= usize::MAX,
    ensures
        formatter::fault(formatter::canonical(src, options)) is None,
        formatter::canonical(formatter::canonical(src, options), options) == formatter::canonical(src, options),
{
    let x = program::input_of(src);
    let p = program::parsed(x)->Ok_0;
    let items = p.items;
    let cx = Context {
        src,
        notes: comments::comments(src),
        step: options.indent_width as nat,
        max: options.max_width as nat,
    };
    lemma_items_named(rules::rules(x.len() as nat), src, seq![], 0);
    assert(are_named(items)) by {
        assert forall|j: int| 0 <= j < items.len() implies #[trigger] items[j] is Import && is_named(
            items[j]->Import_0,
        ) by {
            assert(items[j] is Import);
        }
    }
    lemma_imports_laid(cx, p);
    let t = formatter::canonical(src, options);
    assert(t == rows(items, items.len()));
    let start = Lexed { tokens: seq![], errors: seq![] };
    assert(rows(items, 0) =~= seq![]);
    let end = lemma_lex_rows(items, 0, start);
    assert(lexer::lexed(t) == end);
    let y = program::input_of(t);
    assert(items[0] is Import);
    assert(row_at(y, row_start(items, 0), items[0]->Import_0));
    assert(input::skip_terms(y, 0) == 0) by {
        reveal(input::is_term);
        lemma_row_ends(y, 0, items[0]->Import_0);
    }
    lemma_parse_rows(rules::rules(y.len() as nat), y, items, seq![], 0, 0);
    let again = program::parsed(y)->Ok_0.items;
    assert(again.len() == items.len());
    lemma_same_rows(again, items, items.len());
    lemma_rows(items, items.len());
    assert forall|j: int| 0 <= j < t.len() implies t[j] != '/' by {
        assert(t[j] == '\n' || is_plain(t[j]));
    }
    lemma_no_notes(t, 0, seq![], seq![]);
    assert(are_named(again)) by {
        assert forall|j: int| 0 <= j < again.len() implies #[trigger] again[j] is Import && is_named(
            again[j]->Import_0,
        ) by {
            assert(same_import(again[j], items[j]));
            assert(items[j] is Import);
        }
    }
    let cy = Context {
        src: t,
        notes: comments::comments(t),
        step: options.indent_width as nat,
        max: options.max_width as nat,
    };
    lemma_imports_laid(cy, program::parsed(y)->Ok_0);
}

} // verus!
