//! The lexer: source text to spanned tokens and errors.
//!
//! White space and comments are skipped. Line ends are tokens, because they end
//! statements. A string with `{..}` holes is lexed in pieces: the text up to the first
//! hole, the tokens of each hole with the text between them, and the text after the last.
use vstd::prelude::*;
use crate::source::Source;
use crate::text;
use crate::token;
use crate::token::{Span, SpannedToken, Token};

verus! {

/// Tokens (with `Newline` and `;` terminators) and errors, in source order.
#[derive(Debug, Clone)]
pub struct LexOutput {
    pub tokens: Vec<SpannedToken>,
    pub errors: Vec<LexError>,
}

/// A piece of text that is no token.
#[derive(Debug, Clone)]
pub struct LexError {
    pub span: Span,
    pub slice: String,
}

/// What is found at one position of the source.
#[derive(Debug, Clone, Copy, PartialEq, Eq, Structural)]
pub enum Piece {
    /// White space or a comment.
    Trivia,
    Tok(Token),
    Bad,
}

/// Where the text of a string literal stops.
#[derive(Debug, Clone, Copy, PartialEq, Eq, Structural)]
pub enum StringStop {
    /// At the closing quote.
    Close,
    /// At the `{` of a hole.
    Hole,
    /// At the end of the line or of the source.
    Missing,
}

// ── Specification ───────────────────────────────────────────────────────────

/// Character `i` of `s`, or NUL past the end.
pub open spec fn peek(s: Seq<char>, i: int) -> char {
    if 0 <= i < s.len() {
        s[i]
    } else {
        '\0'
    }
}

pub open spec fn is_blank(c: char) -> bool {
    c == ' ' || c == '\t' || c == '\r' || c == '\x0c'
}

pub open spec fn is_digit(c: char) -> bool {
    '0' <= c && c <= '9'
}

pub open spec fn starts_word(c: char) -> bool {
    ('a' <= c && c <= 'z') || ('A' <= c && c <= 'Z') || c == '_'
}

pub open spec fn in_word(c: char) -> bool {
    starts_word(c) || is_digit(c)
}

/// The end of the run of word characters that starts at `i`.
pub open spec fn word_end(s: Seq<char>, i: int) -> int
    decreases s.len() - i,
{
    if 0 <= i < s.len() && in_word(s[i]) {
        word_end(s, i + 1)
    } else {
        i
    }
}

/// The end of the run of digits that starts at `i`.
pub open spec fn digits_end(s: Seq<char>, i: int) -> int
    decreases s.len() - i,
{
    if 0 <= i < s.len() && is_digit(s[i]) {
        digits_end(s, i + 1)
    } else {
        i
    }
}

/// The index after the first `*/` at or after `i`.
pub open spec fn comment_end(s: Seq<char>, i: int) -> Option<int>
    decreases s.len() - i,
{
    if 0 <= i && i + 1 < s.len() {
        if s[i] == '*' && s[i + 1] == '/' {
            Some(i + 2)
        } else {
            comment_end(s, i + 1)
        }
    } else {
        None
    }
}

/// Whether a `{` before index `i` opens a hole in a string.
pub open spec fn opens_hole(s: Seq<char>, i: int) -> bool {
    starts_word(peek(s, i)) || peek(s, i) == '('
}

/// Where the text of a one-line string that goes on at `i` stops.
pub open spec fn string_stop(s: Seq<char>, i: int) -> (StringStop, int)
    decreases s.len() - i,
{
    if i < 0 || i >= s.len() || s[i] == '\n' {
        (StringStop::Missing, i)
    } else if s[i] == '"' {
        (StringStop::Close, i)
    } else if s[i] == '{' && opens_hole(s, i + 1) {
        (StringStop::Hole, i)
    } else if s[i] == '\\' && i + 1 < s.len() && s[i + 1] != '\n' {
        string_stop(s, i + 2)
    } else {
        string_stop(s, i + 1)
    }
}

/// The index of the `"""` that closes a block string whose text goes on at `i`.
pub open spec fn block_string_stop(s: Seq<char>, i: int) -> Option<int>
    decreases s.len() - i,
{
    if i < 0 || i >= s.len() {
        None
    } else if s[i] == '"' && peek(s, i + 1) == '"' && peek(s, i + 2) == '"' {
        Some(i)
    } else if s[i] == '\\' && i + 1 < s.len() {
        block_string_stop(s, i + 2)
    } else {
        block_string_stop(s, i + 1)
    }
}

/// A number: digits, then a fraction where a point and a digit follow.
pub open spec fn scan_number(s: Seq<char>, i: int) -> (Piece, int) {
    let k = digits_end(s, i);
    if peek(s, k) == '.' && is_digit(peek(s, k + 1)) {
        (Piece::Tok(Token::FloatLit), digits_end(s, k + 1))
    } else {
        (Piece::Tok(Token::IntLit), k)
    }
}

/// A character between single quotes, or a backslash and one character.
pub open spec fn scan_char(s: Seq<char>, i: int) -> (Piece, int) {
    if peek(s, i + 1) == '\\' && i + 3 < s.len() && s[i + 3] == '\'' {
        (Piece::Tok(Token::CharLit), i + 4)
    } else if i + 2 < s.len() && s[i + 1] != '\\' && s[i + 1] != '\'' && s[i + 1] != '\n' && s[i + 2]
        == '\'' {
        (Piece::Tok(Token::CharLit), i + 3)
    } else {
        (Piece::Bad, i + 1)
    }
}

/// The longest operator or delimiter at `i`.
pub open spec fn scan_symbol(s: Seq<char>, i: int) -> (Piece, int) {
    let b = peek(s, i + 1);
    let c = peek(s, i + 2);
    match peek(s, i) {
        '(' => (Piece::Tok(Token::LParen), i + 1),
        ')' => (Piece::Tok(Token::RParen), i + 1),
        '[' => (Piece::Tok(Token::LBracket), i + 1),
        ']' => (Piece::Tok(Token::RBracket), i + 1),
        ',' => (Piece::Tok(Token::Comma), i + 1),
        ';' => (Piece::Tok(Token::Semicolon), i + 1),
        '@' => (Piece::Tok(Token::At), i + 1),
        '~' => (Piece::Tok(Token::Tilde), i + 1),
        ':' => if b == ':' {
            (Piece::Tok(Token::PathSep), i + 2)
        } else {
            (Piece::Tok(Token::Colon), i + 1)
        },
        '.' => if b == '.' && c == '=' {
            (Piece::Tok(Token::DotDotEq), i + 3)
        } else if b == '.' && c == '.' {
            (Piece::Tok(Token::Ellipsis), i + 3)
        } else if b == '.' {
            (Piece::Tok(Token::DotDot), i + 2)
        } else {
            (Piece::Tok(Token::Dot), i + 1)
        },
        '?' => if b == '?' {
            (Piece::Tok(Token::Coalesce), i + 2)
        } else if b == '.' {
            (Piece::Tok(Token::NullDot), i + 2)
        } else {
            (Piece::Tok(Token::Question), i + 1)
        },
        '+' => if b == '+' {
            (Piece::Tok(Token::PlusPlus), i + 2)
        } else if b == '=' {
            (Piece::Tok(Token::PlusEq), i + 2)
        } else {
            (Piece::Tok(Token::Plus), i + 1)
        },
        '-' => if b == '-' {
            (Piece::Tok(Token::MinusMinus), i + 2)
        } else if b == '=' {
            (Piece::Tok(Token::MinusEq), i + 2)
        } else if b == '>' {
            (Piece::Tok(Token::Arrow), i + 2)
        } else {
            (Piece::Tok(Token::Minus), i + 1)
        },
        '*' => if b == '=' {
            (Piece::Tok(Token::StarEq), i + 2)
        } else {
            (Piece::Tok(Token::Star), i + 1)
        },
        '/' => if b == '=' {
            (Piece::Tok(Token::SlashEq), i + 2)
        } else {
            (Piece::Tok(Token::Slash), i + 1)
        },
        '%' => if b == '=' {
            (Piece::Tok(Token::PercentEq), i + 2)
        } else {
            (Piece::Tok(Token::Percent), i + 1)
        },
        '&' => if b == '=' {
            (Piece::Tok(Token::AmpEq), i + 2)
        } else {
            (Piece::Tok(Token::Amp), i + 1)
        },
        '|' => if b == '=' {
            (Piece::Tok(Token::PipeEq), i + 2)
        } else {
            (Piece::Tok(Token::Pipe), i + 1)
        },
        '^' => if b == '=' {
            (Piece::Tok(Token::CaretEq), i + 2)
        } else {
            (Piece::Tok(Token::Caret), i + 1)
        },
        '<' => if b == '<' && c == '=' {
            (Piece::Tok(Token::ShlEq), i + 3)
        } else if b == '<' {
            (Piece::Tok(Token::Shl), i + 2)
        } else if b == '=' {
            (Piece::Tok(Token::Le), i + 2)
        } else {
            (Piece::Tok(Token::Lt), i + 1)
        },
        // `>` is never joined to another `>`: two of them may close two type lists.
        '>' => if b == '=' {
            (Piece::Tok(Token::Ge), i + 2)
        } else {
            (Piece::Tok(Token::Gt), i + 1)
        },
        '=' => if b == '=' {
            (Piece::Tok(Token::EqEq), i + 2)
        } else if b == '>' {
            (Piece::Tok(Token::FatArrow), i + 2)
        } else {
            (Piece::Tok(Token::Eq), i + 1)
        },
        '!' => if b == '=' {
            (Piece::Tok(Token::NotEq), i + 2)
        } else {
            (Piece::Bad, i + 1)
        },
        _ => (Piece::Bad, i + 1),
    }
}

/// The piece of `s` at `i`, its end, and the open braces after it: `true` stands for
/// a hole of a string, `false` for a brace of its own.
pub open spec fn scan(s: Seq<char>, i: int, braces: Seq<bool>) -> (Piece, int, Seq<bool>) {
    let c = peek(s, i);
    if is_blank(c) {
        (Piece::Trivia, i + 1, braces)
    } else if c == '\n' {
        (Piece::Tok(Token::Newline), i + 1, braces)
    } else if c == '/' && peek(s, i + 1) == '/' {
        (Piece::Trivia, text::line_end(s, i), braces)
    } else if c == '/' && peek(s, i + 1) == '*' {
        match comment_end(s, i + 2) {
            Some(k) => (Piece::Trivia, k, braces),
            None => (Piece::Bad, s.len() as int, braces),
        }
    } else if starts_word(c) {
        let k = word_end(s, i);
        (Piece::Tok(token::word_token(s.subrange(i, k))), k, braces)
    } else if is_digit(c) {
        let r = scan_number(s, i);
        (r.0, r.1, braces)
    } else if c == '\'' {
        let r = scan_char(s, i);
        (r.0, r.1, braces)
    } else if c == '"' && peek(s, i + 1) == '"' && peek(s, i + 2) == '"' {
        match block_string_stop(s, i + 3) {
            Some(k) => (Piece::Tok(Token::BlockStringLit), k + 3, braces),
            None => (Piece::Bad, s.len() as int, braces),
        }
    } else if c == '"' {
        let r = string_stop(s, i + 1);
        match r.0 {
            StringStop::Close => (Piece::Tok(Token::StringLit), r.1 + 1, braces),
            StringStop::Hole => (Piece::Tok(Token::StringHead), r.1 + 1, braces.push(true)),
            StringStop::Missing => (Piece::Bad, r.1, braces),
        }
    } else if c == '{' {
        (Piece::Tok(Token::LBrace), i + 1, braces.push(false))
    } else if c == '}' && braces.len() > 0 && braces.last() {
        let r = string_stop(s, i + 1);
        match r.0 {
            StringStop::Close => (Piece::Tok(Token::StringTail), r.1 + 1, braces.drop_last()),
            StringStop::Hole => (Piece::Tok(Token::StringMid), r.1 + 1, braces),
            StringStop::Missing => (Piece::Bad, r.1, braces.drop_last()),
        }
    } else if c == '}' {
        (
            Piece::Tok(Token::RBrace),
            i + 1,
            if braces.len() > 0 {
                braces.drop_last()
            } else {
                braces
            },
        )
    } else {
        let r = scan_symbol(s, i);
        (r.0, r.1, braces)
    }
}

/// The span of the characters from `i` to `k`.
pub open spec fn char_span(s: Seq<char>, i: int, k: int) -> Span {
    Span { start: text::offset(s, i) as usize, end: text::offset(s, k) as usize }
}

/// Tokens and errors of a source; an error is its span and its text.
pub struct Lexed {
    pub tokens: Seq<SpannedToken>,
    pub errors: Seq<(Span, Seq<char>)>,
}

impl Lexed {
    /// What one more piece from `i` to `k` adds.
    pub open spec fn add_piece(self, s: Seq<char>, p: Piece, i: int, k: int) -> Lexed {
        match p {
            Piece::Trivia => self,
            Piece::Tok(t) => Lexed {
                tokens: self.tokens.push(SpannedToken { token: t, span: char_span(s, i, k) }),
                errors: self.errors,
            },
            Piece::Bad => Lexed {
                tokens: self.tokens,
                errors: self.errors.push((char_span(s, i, k), s.subrange(i, k))),
            },
        }
    }
}

/// Lexes `s` from `i` on, after `done`.
pub open spec fn lex_from(s: Seq<char>, i: int, braces: Seq<bool>, done: Lexed) -> Lexed
    decreases s.len() - i,
{
    let r = scan(s, i, braces);
    if 0 <= i < s.len() && i < r.1 <= s.len() {
        lex_from(s, r.1, r.2, done.add_piece(s, r.0, i, r.1))
    } else {
        done
    }
}

/// The tokens and errors of `s`.
pub open spec fn lexed(s: Seq<char>) -> Lexed {
    lex_from(s, 0, seq![], Lexed { tokens: seq![], errors: seq![] })
}

/// The errors as spans and texts.
pub open spec fn error_views(v: Seq<LexError>) -> Seq<(Span, Seq<char>)> {
    Seq::new(v.len(), |i: int| (v[i].span, v[i].slice@))
}

impl View for LexOutput {
    type V = Lexed;

    open spec fn view(&self) -> Lexed {
        Lexed { tokens: self.tokens@, errors: error_views(self.errors@) }
    }
}

// ── Scanning ────────────────────────────────────────────────────────────────

fn char_at(s: &Vec<char>, i: usize) -> (c: char)
    ensures
        c == peek(s@, i as int),
{
    if i < s.len() {
        s[i]
    } else {
        '\0'
    }
}

/// Character `i + n`, where `n` is small.
fn char_after(s: &Vec<char>, i: usize, n: usize) -> (c: char)
    ensures
        c == peek(s@, i + n),
{
    if i < s.len() && n < s.len() - i {
        s[i + n]
    } else {
        '\0'
    }
}

fn char_is_digit(c: char) -> (r: bool)
    ensures
        r == is_digit(c),
{
    '0' <= c && c <= '9'
}

pub fn char_starts_word(c: char) -> (r: bool)
    ensures
        r == starts_word(c),
{
    ('a' <= c && c <= 'z') || ('A' <= c && c <= 'Z') || c == '_'
}

/// Whether a word may go on with `c`.
pub fn is_word_char(c: char) -> (r: bool)
    ensures
        r == in_word(c),
{
    char_starts_word(c) || char_is_digit(c)
}

fn find_word_end(s: &Vec<char>, i: usize) -> (k: usize)
    requires
        i <= s.len(),
    ensures
        k == word_end(s@, i as int),
        i <= k <= s.len(),
        i < s.len() && in_word(s@[i as int]) ==> i < k,
{
    let mut k: usize = i;
    while k < s.len() && (char_starts_word(s[k]) || char_is_digit(s[k]))
        invariant
            i <= k <= s.len(),
            word_end(s@, k as int) == word_end(s@, i as int),
            k == i || in_word(s@[i as int]),
        decreases s.len() - k,
    {
        k = k + 1;
    }
    k
}

fn find_digits_end(s: &Vec<char>, i: usize) -> (k: usize)
    requires
        i <= s.len(),
    ensures
        k == digits_end(s@, i as int),
        i <= k <= s.len(),
        i < s.len() && is_digit(s@[i as int]) ==> i < k,
{
    let mut k: usize = i;
    while k < s.len() && char_is_digit(s[k])
        invariant
            i <= k <= s.len(),
            digits_end(s@, k as int) == digits_end(s@, i as int),
            k == i || is_digit(s@[i as int]),
        decreases s.len() - k,
    {
        k = k + 1;
    }
    k
}

/// The index after the first `*/` at or after `i`.
pub fn find_comment_end(s: &Vec<char>, i: usize) -> (r: Option<usize>)
    ensures
        match r {
            Some(k) => comment_end(s@, i as int) == Some(k as int) && i + 2 <= k <= s.len(),
            None => comment_end(s@, i as int) is None,
        },
{
    let mut k: usize = i;
    while k < s.len() && 1 < s.len() - k
        invariant
            i <= k,
            comment_end(s@, k as int) == comment_end(s@, i as int),
        decreases s.len() - k,
    {
        if s[k] == '*' && s[k + 1] == '/' {
            return Some(k + 2);
        }
        k = k + 1;
    }
    None
}

fn find_string_stop(s: &Vec<char>, i: usize) -> (r: (StringStop, usize))
    requires
        i <= s.len(),
    ensures
        string_stop(s@, i as int) == (r.0, r.1 as int),
        i <= r.1 <= s.len(),
        r.0 != StringStop::Missing ==> r.1 < s.len(),
{
    let mut k: usize = i;
    while k < s.len()
        invariant
            i <= k <= s.len(),
            string_stop(s@, k as int) == string_stop(s@, i as int),
        decreases s.len() - k,
    {
        let c = s[k];
        if c == '\n' {
            return (StringStop::Missing, k);
        }
        if c == '"' {
            return (StringStop::Close, k);
        }
        if c == '{' {
            let d = char_after(s, k, 1);
            if char_starts_word(d) || d == '(' {
                return (StringStop::Hole, k);
            }
        }
        if c == '\\' && 1 < s.len() - k && s[k + 1] != '\n' {
            k = k + 2;
        } else {
            k = k + 1;
        }
    }
    (StringStop::Missing, k)
}

fn find_block_string_stop(s: &Vec<char>, i: usize) -> (r: Option<usize>)
    ensures
        match r {
            Some(k) => block_string_stop(s@, i as int) == Some(k as int) && i <= k && k + 3
                <= s.len(),
            None => block_string_stop(s@, i as int) is None,
        },
{
    let mut k: usize = i;
    while k < s.len()
        invariant
            i <= k,
            block_string_stop(s@, k as int) == block_string_stop(s@, i as int),
        decreases s.len() - k,
    {
        if s[k] == '"' && char_after(s, k, 1) == '"' && char_after(s, k, 2) == '"' {
            return Some(k);
        }
        if s[k] == '\\' && 1 < s.len() - k {
            k = k + 2;
        } else {
            k = k + 1;
        }
    }
    None
}

fn take_number(s: &Vec<char>, i: usize) -> (r: (Piece, usize))
    requires
        i < s.len(),
        is_digit(s@[i as int]),
    ensures
        (r.0, r.1 as int) == scan_number(s@, i as int),
        i < r.1 <= s.len(),
{
    let k = find_digits_end(s, i);
    if char_at(s, k) == '.' && char_is_digit(char_after(s, k, 1)) {
        (Piece::Tok(Token::FloatLit), find_digits_end(s, k + 1))
    } else {
        (Piece::Tok(Token::IntLit), k)
    }
}

fn take_char(s: &Vec<char>, i: usize) -> (r: (Piece, usize))
    requires
        i < s.len(),
    ensures
        (r.0, r.1 as int) == scan_char(s@, i as int),
        i < r.1 <= s.len(),
{
    let left: usize = s.len() - i;
    if char_after(s, i, 1) == '\\' && left > 3 && s[i + 3] == '\'' {
        (Piece::Tok(Token::CharLit), i + 4)
    } else if left > 2 && s[i + 1] != '\\' && s[i + 1] != '\'' && s[i + 1] != '\n' && s[i + 2]
        == '\'' {
        (Piece::Tok(Token::CharLit), i + 3)
    } else {
        (Piece::Bad, i + 1)
    }
}

fn take_symbol(s: &Vec<char>, i: usize) -> (r: (Piece, usize))
    requires
        i < s.len(),
    ensures
        (r.0, r.1 as int) == scan_symbol(s@, i as int),
        i < r.1 <= s.len(),
{
    let b = char_after(s, i, 1);
    let c = char_after(s, i, 2);
    let (p, n): (Piece, usize) = match s[i] {
        '(' => (Piece::Tok(Token::LParen), 1),
        ')' => (Piece::Tok(Token::RParen), 1),
        '[' => (Piece::Tok(Token::LBracket), 1),
        ']' => (Piece::Tok(Token::RBracket), 1),
        ',' => (Piece::Tok(Token::Comma), 1),
        ';' => (Piece::Tok(Token::Semicolon), 1),
        '@' => (Piece::Tok(Token::At), 1),
        '~' => (Piece::Tok(Token::Tilde), 1),
        ':' => if b == ':' {
            (Piece::Tok(Token::PathSep), 2)
        } else {
            (Piece::Tok(Token::Colon), 1)
        },
        '.' => if b == '.' && c == '=' {
            (Piece::Tok(Token::DotDotEq), 3)
        } else if b == '.' && c == '.' {
            (Piece::Tok(Token::Ellipsis), 3)
        } else if b == '.' {
            (Piece::Tok(Token::DotDot), 2)
        } else {
            (Piece::Tok(Token::Dot), 1)
        },
        '?' => if b == '?' {
            (Piece::Tok(Token::Coalesce), 2)
        } else if b == '.' {
            (Piece::Tok(Token::NullDot), 2)
        } else {
            (Piece::Tok(Token::Question), 1)
        },
        '+' => if b == '+' {
            (Piece::Tok(Token::PlusPlus), 2)
        } else if b == '=' {
            (Piece::Tok(Token::PlusEq), 2)
        } else {
            (Piece::Tok(Token::Plus), 1)
        },
        '-' => if b == '-' {
            (Piece::Tok(Token::MinusMinus), 2)
        } else if b == '=' {
            (Piece::Tok(Token::MinusEq), 2)
        } else if b == '>' {
            (Piece::Tok(Token::Arrow), 2)
        } else {
            (Piece::Tok(Token::Minus), 1)
        },
        '*' => if b == '=' {
            (Piece::Tok(Token::StarEq), 2)
        } else {
            (Piece::Tok(Token::Star), 1)
        },
        '/' => if b == '=' {
            (Piece::Tok(Token::SlashEq), 2)
        } else {
            (Piece::Tok(Token::Slash), 1)
        },
        '%' => if b == '=' {
            (Piece::Tok(Token::PercentEq), 2)
        } else {
            (Piece::Tok(Token::Percent), 1)
        },
        '&' => if b == '=' {
            (Piece::Tok(Token::AmpEq), 2)
        } else {
            (Piece::Tok(Token::Amp), 1)
        },
        '|' => if b == '=' {
            (Piece::Tok(Token::PipeEq), 2)
        } else {
            (Piece::Tok(Token::Pipe), 1)
        },
        '^' => if b == '=' {
            (Piece::Tok(Token::CaretEq), 2)
        } else {
            (Piece::Tok(Token::Caret), 1)
        },
        '<' => if b == '<' && c == '=' {
            (Piece::Tok(Token::ShlEq), 3)
        } else if b == '<' {
            (Piece::Tok(Token::Shl), 2)
        } else if b == '=' {
            (Piece::Tok(Token::Le), 2)
        } else {
            (Piece::Tok(Token::Lt), 1)
        },
        '>' => if b == '=' {
            (Piece::Tok(Token::Ge), 2)
        } else {
            (Piece::Tok(Token::Gt), 1)
        },
        '=' => if b == '=' {
            (Piece::Tok(Token::EqEq), 2)
        } else if b == '>' {
            (Piece::Tok(Token::FatArrow), 2)
        } else {
            (Piece::Tok(Token::Eq), 1)
        },
        '!' => if b == '=' {
            (Piece::Tok(Token::NotEq), 2)
        } else {
            (Piece::Bad, 1)
        },
        _ => (Piece::Bad, 1),
    };
    (p, i + n)
}

/// Scans the piece at `i`.
pub fn take_piece(s: &Vec<char>, i: usize, braces: &mut Vec<bool>) -> (r: (Piece, usize))
    requires
        i < s.len(),
    ensures
        (r.0, r.1 as int, final(braces)@) == scan(s@, i as int, old(braces)@),
        i < r.1 <= s.len(),
{
    let c = s[i];
    if c == ' ' || c == '\t' || c == '\r' || c == '\x0c' {
        (Piece::Trivia, i + 1)
    } else if c == '\n' {
        (Piece::Tok(Token::Newline), i + 1)
    } else if c == '/' && char_after(s, i, 1) == '/' {
        proof {
            assert(text::line_end(s@, i as int) == text::line_end(s@, i + 1));
        }
        (Piece::Trivia, text::find_line_end(s, i + 1))
    } else if c == '/' && char_after(s, i, 1) == '*' {
        match find_comment_end(s, i + 2) {
            Some(k) => (Piece::Trivia, k),
            None => (Piece::Bad, s.len()),
        }
    } else if char_starts_word(c) {
        let k = find_word_end(s, i);
        let w = text::copy_range(s, i, k);
        (Piece::Tok(token::token_of_word(&w)), k)
    } else if char_is_digit(c) {
        take_number(s, i)
    } else if c == '\'' {
        take_char(s, i)
    } else if c == '"' && char_after(s, i, 1) == '"' && char_after(s, i, 2) == '"' {
        match find_block_string_stop(s, i + 3) {
            Some(k) => (Piece::Tok(Token::BlockStringLit), k + 3),
            None => (Piece::Bad, s.len()),
        }
    } else if c == '"' {
        let (stop, k) = find_string_stop(s, i + 1);
        match stop {
            StringStop::Close => (Piece::Tok(Token::StringLit), k + 1),
            StringStop::Hole => {
                braces.push(true);
                (Piece::Tok(Token::StringHead), k + 1)
            },
            StringStop::Missing => (Piece::Bad, k),
        }
    } else if c == '{' {
        braces.push(false);
        (Piece::Tok(Token::LBrace), i + 1)
    } else if c == '}' && braces.len() > 0 && braces[braces.len() - 1] {
        let (stop, k) = find_string_stop(s, i + 1);
        match stop {
            StringStop::Close => {
                braces.pop();
                (Piece::Tok(Token::StringTail), k + 1)
            },
            StringStop::Hole => (Piece::Tok(Token::StringMid), k + 1),
            StringStop::Missing => {
                braces.pop();
                (Piece::Bad, k)
            },
        }
    } else if c == '}' {
        if braces.len() > 0 {
            braces.pop();
        }
        (Piece::Tok(Token::RBrace), i + 1)
    } else {
        take_symbol(s, i)
    }
}

/// Lexes a source that has been split into characters.
pub fn lex_source(source: &Source) -> (out: LexOutput)
    requires
        source.wf(),
    ensures
        out@ == lexed(source@),
{
    let mut tokens: Vec<SpannedToken> = Vec::new();
    let mut errors: Vec<LexError> = Vec::new();
    let mut braces: Vec<bool> = Vec::new();
    let mut i: usize = 0;
    let ghost s = source@;
    assert(error_views(errors@) =~= seq![]);
    while i < source.chars.len()
        invariant
            source.wf(),
            s == source@,
            i <= s.len(),
            lex_from(
                s,
                i as int,
                braces@,
                (Lexed { tokens: tokens@, errors: error_views(errors@) }),
            ) == lexed(s),
        decreases s.len() - i,
    {
        let (p, k) = take_piece(&source.chars, i, &mut braces);
        let span = Span::new(source.offsets[i], source.offsets[k]);
        assert(span == char_span(s, i as int, k as int));
        match p {
            Piece::Trivia => {},
            Piece::Tok(t) => {
                tokens.push(SpannedToken { token: t, span });
            },
            Piece::Bad => {
                let bad = text::copy_range(&source.chars, i, k);
                let ghost before = errors@;
                errors.push(LexError { span, slice: text::to_text(&bad) });
                assert(error_views(errors@) =~= error_views(before).push(
                    (span, s.subrange(i as int, k as int)),
                ));
            },
        }
        i = k;
    }
    LexOutput { tokens, errors }
}

/// Lexes a source text.
pub fn lex(source: &str) -> (out: LexOutput)
    ensures
        out@ == lexed(source@),
{
    let src = Source::new(source);
    lex_source(&src)
}

impl LexError {
    /// The error in one sentence.
    pub fn message(&self) -> (r: String)
        ensures
            r@ == "unexpected token `"@ + self.slice@ + "` at "@ + text::decimal(
                self.span.start as nat,
            ) + ".."@ + text::decimal(self.span.end as nat),
    {
        let mut out: Vec<char> = Vec::new();
        text::push_str(&mut out, "unexpected token `");
        assert(out@ =~= "unexpected token `"@);
        text::push_str(&mut out, self.slice.as_str());
        text::push_str(&mut out, "` at ");
        text::push_decimal(&mut out, self.span.start as u64);
        text::push_str(&mut out, "..");
        text::push_decimal(&mut out, self.span.end as u64);
        text::to_text(&out)
    }
}

} // verus!
