//! Expressions: what is written for them is read back as it is.
use vstd::prelude::*;
use crate::ast::{BinOp, UnaryOp};
use crate::formatter::compact;
use crate::formatter::layout::Context;
use crate::formatter::settle_imports;
use crate::laws;
use crate::lexer;
use crate::lexer::{Lexed, Piece};
use crate::parse::grammar_exprs;
use crate::parse::input;
use crate::parse::input::Input;
use crate::parse::rules;
use crate::source;
use crate::text;
use crate::token;
use crate::token::{SpannedToken, Token};
use crate::tree;

verus! {

broadcast use input::group_forward;

/// How tightly an operator binds.
pub open spec fn level(op: BinOp) -> int {
    match op {
        BinOp::NullCoalesce => 0,
        BinOp::Or => 1,
        BinOp::And => 2,
        BinOp::Is => 3,
        BinOp::IsNot => 3,
        BinOp::Lt => 4,
        BinOp::Le => 4,
        BinOp::Gt => 4,
        BinOp::Ge => 4,
        BinOp::BitOr => 6,
        BinOp::BitXor => 7,
        BinOp::BitAnd => 8,
        BinOp::Shl => 9,
        BinOp::Shr => 9,
        BinOp::Add => 10,
        BinOp::Sub => 10,
        BinOp::Mul => 11,
        BinOp::Div => 11,
        BinOp::Mod => 11,
    }
}

/// How tightly an expression binds.
pub open spec fn tightness(e: tree::Expr) -> int {
    match e.kind {
        tree::ExprKind::Assign(_, _) => -2,
        tree::ExprKind::CompoundAssign(_, _, _) => -2,
        tree::ExprKind::Conditional(_, _, _) => -1,
        tree::ExprKind::Binary(op, _, _) => level(op),
        tree::ExprKind::Unary(_, _) => 12,
        _ => 13,
    }
}

/// Whether an expression ends with a name: a `<` after it would open a list of types.
pub open spec fn ends_named(e: tree::Expr) -> bool
    decreases e,
{
    match e.kind {
        tree::ExprKind::Ident(_) => true,
        tree::ExprKind::Unary(_, x) => ends_named(*x),
        tree::ExprKind::Binary(_, _, y) => ends_named(*y),
        tree::ExprKind::Conditional(_, _, y) => ends_named(*y),
        tree::ExprKind::Assign(_, y) => ends_named(*y),
        tree::ExprKind::CompoundAssign(_, _, y) => ends_named(*y),
        _ => false,
    }
}

/// Whether an expression ends with a number: a point after it would open its fraction.
pub open spec fn ends_digit(e: tree::Expr) -> bool
    decreases e,
{
    match e.kind {
        tree::ExprKind::IntLit(_) => true,
        tree::ExprKind::Unary(_, x) => ends_digit(*x),
        tree::ExprKind::Binary(_, _, y) => ends_digit(*y),
        tree::ExprKind::Conditional(_, _, y) => ends_digit(*y),
        tree::ExprKind::Assign(_, y) => ends_digit(*y),
        tree::ExprKind::CompoundAssign(_, _, y) => ends_digit(*y),
        _ => false,
    }
}

/// Whether an operator has a compound assignment.
pub open spec fn is_compound(op: BinOp) -> bool {
    op == BinOp::Add || op == BinOp::Sub || op == BinOp::Mul || op == BinOp::Div || op == BinOp::Mod || op
        == BinOp::BitAnd || op == BinOp::BitOr || op == BinOp::BitXor || op == BinOp::Shl || op == BinOp::Shr
}

/// Whether an expression starts with `not`: after `is` it would be read as a part of the operator.
pub open spec fn starts_not(e: tree::Expr) -> bool
    decreases e,
{
    match e.kind {
        tree::ExprKind::Unary(op, _) => op == UnaryOp::Not,
        tree::ExprKind::Binary(_, x, _) => starts_not(*x),
        tree::ExprKind::Conditional(x, _, _) => starts_not(*x),
        tree::ExprKind::Assign(x, _) => starts_not(*x),
        tree::ExprKind::CompoundAssign(_, x, _) => starts_not(*x),
        _ => false,
    }
}

/// Whether an expression is made of numbers, names, conditions, members, elements, operators and
/// assignments, with brackets where they are needed: a left operand binds as tightly as its operator,
/// a right one more tightly.
pub open spec fn is_bracketed(e: tree::Expr) -> bool
    decreases e,
{
    match e.kind {
        tree::ExprKind::IntLit(n) => n >= 0,
        tree::ExprKind::BoolLit(_) => true,
        tree::ExprKind::Ident(n) => settle_imports::is_name_text(n),
        tree::ExprKind::Paren(x) => is_bracketed(*x),
        tree::ExprKind::Unary(_, x) => is_bracketed(*x) && tightness(*x) >= 12,
        tree::ExprKind::Binary(op, x, y) => {
            &&& is_bracketed(*x) && tightness(*x) >= level(op)
            &&& is_bracketed(*y) && tightness(*y) > level(op)
            &&& op == BinOp::Lt ==> !ends_named(*x)
            &&& op == BinOp::Is ==> !starts_not(*y)
        },
        tree::ExprKind::This => true,
        tree::ExprKind::Null => true,
        tree::ExprKind::Postfix(op, x) => (op == UnaryOp::Inc || op == UnaryOp::Dec) && is_bracketed(*x)
            && tightness(*x) == 13,
        tree::ExprKind::Member(x, f) => is_bracketed(*x) && tightness(*x) == 13 && !ends_digit(*x)
            && settle_imports::is_name_text(f),
        tree::ExprKind::Index(x, y) => is_bracketed(*x) && tightness(*x) == 13 && is_bracketed(*y),
        tree::ExprKind::Conditional(c, x, y) => {
            &&& is_bracketed(*c) && tightness(*c) >= 0
            &&& is_bracketed(*x) && tightness(*x) >= -1
            &&& is_bracketed(*y) && tightness(*y) >= -1
        },
        tree::ExprKind::Assign(x, y) => is_bracketed(*x) && tightness(*x) >= -1 && is_bracketed(*y),
        tree::ExprKind::CompoundAssign(op, x, y) => is_compound(op) && is_bracketed(*x) && tightness(*x) >= -1
            && is_bracketed(*y),
        _ => false,
    }
}

/// Whether two expressions of this kind are the same, wherever they stand.
pub open spec fn is_same(a: tree::Expr, b: tree::Expr) -> bool
    decreases a,
{
    match (a.kind, b.kind) {
        (tree::ExprKind::IntLit(n), tree::ExprKind::IntLit(m)) => n == m,
        (tree::ExprKind::BoolLit(n), tree::ExprKind::BoolLit(m)) => n == m,
        (tree::ExprKind::Ident(n), tree::ExprKind::Ident(m)) => n == m,
        (tree::ExprKind::Paren(x), tree::ExprKind::Paren(y)) => is_same(*x, *y),
        (tree::ExprKind::Unary(o, x), tree::ExprKind::Unary(p, y)) => o == p && is_same(*x, *y),
        (tree::ExprKind::Binary(o, x, y), tree::ExprKind::Binary(p, v, w)) => o == p && is_same(*x, *v) && is_same(
            *y,
            *w,
        ),
        (tree::ExprKind::This, tree::ExprKind::This) => true,
        (tree::ExprKind::Null, tree::ExprKind::Null) => true,
        (tree::ExprKind::Postfix(o, x), tree::ExprKind::Postfix(p, y)) => o == p && is_same(*x, *y),
        (tree::ExprKind::Member(x, f), tree::ExprKind::Member(y, g)) => f == g && is_same(*x, *y),
        (tree::ExprKind::Index(x, y), tree::ExprKind::Index(v, w)) => is_same(*x, *v) && is_same(*y, *w),
        (tree::ExprKind::Conditional(c, x, y), tree::ExprKind::Conditional(d, v, w)) => is_same(*c, *d) && is_same(
            *x,
            *v,
        ) && is_same(*y, *w),
        (tree::ExprKind::Assign(x, y), tree::ExprKind::Assign(v, w)) => is_same(*x, *v) && is_same(*y, *w),
        (tree::ExprKind::CompoundAssign(o, x, y), tree::ExprKind::CompoundAssign(p, v, w)) => o == p && is_same(
            *x,
            *v,
        ) && is_same(*y, *w),
        _ => false,
    }
}

// ── The tokens of an expression ─────────────────────────────────────────────

/// The number of tokens of an operator.
pub open spec fn op_count(op: BinOp) -> int {
    if op == BinOp::IsNot || op == BinOp::Shr {
        2
    } else {
        1
    }
}

/// The number of tokens of an expression.
pub open spec fn count(e: tree::Expr) -> int
    decreases e,
{
    match e.kind {
        tree::ExprKind::Paren(x) => count(*x) + 2,
        tree::ExprKind::Unary(_, x) => count(*x) + 1,
        tree::ExprKind::Binary(op, x, y) => count(*x) + op_count(op) + count(*y),
        tree::ExprKind::Postfix(_, x) => count(*x) + 1,
        tree::ExprKind::Member(x, _) => count(*x) + 2,
        tree::ExprKind::Index(x, y) => count(*x) + count(*y) + 2,
        tree::ExprKind::Conditional(c, x, y) => count(*c) + count(*x) + count(*y) + 2,
        tree::ExprKind::Assign(x, y) => count(*x) + count(*y) + 1,
        tree::ExprKind::CompoundAssign(op, x, y) => count(*x) + op_count(op) + count(*y),
        _ => 1,
    }
}

/// Whether the tokens of an operator stand at `k`.
pub open spec fn op_stands(x: Input, k: int, op: BinOp) -> bool {
    let t = input::tk(x, k);
    match op {
        BinOp::Add => t == Token::Plus,
        BinOp::Sub => t == Token::Minus,
        BinOp::Mul => t == Token::Star,
        BinOp::Div => t == Token::Slash,
        BinOp::Mod => t == Token::Percent,
        BinOp::Lt => t == Token::Lt,
        BinOp::Le => t == Token::Le,
        BinOp::Gt => t == Token::Gt,
        BinOp::Ge => t == Token::Ge,
        BinOp::Is => t == Token::Is,
        BinOp::IsNot => t == Token::Is && input::tk(x, k + 1) == Token::Not,
        BinOp::And => t == Token::And,
        BinOp::Or => t == Token::Or,
        BinOp::BitAnd => t == Token::Amp,
        BinOp::BitOr => t == Token::Pipe,
        BinOp::BitXor => t == Token::Caret,
        BinOp::Shl => t == Token::Shl,
        BinOp::Shr => t == Token::Gt && input::tk(x, k + 1) == Token::Gt && input::adjacent(x, k),
        BinOp::NullCoalesce => t == Token::Coalesce,
    }
}

/// Whether the token of a prefix operator is this one.
pub open spec fn is_prefix_token(t: Token, op: UnaryOp) -> bool {
    match op {
        UnaryOp::Neg => t == Token::Minus,
        UnaryOp::Not => t == Token::Not,
        UnaryOp::Pos => t == Token::Plus,
        UnaryOp::BitNot => t == Token::Tilde,
        UnaryOp::Inc => t == Token::PlusPlus,
        UnaryOp::Dec => t == Token::MinusMinus,
    }
}

/// Whether the tokens of a compound assignment stand at `k`.
pub open spec fn assign_stands(x: Input, k: int, op: BinOp) -> bool {
    let t = input::tk(x, k);
    match op {
        BinOp::Add => t == Token::PlusEq,
        BinOp::Sub => t == Token::MinusEq,
        BinOp::Mul => t == Token::StarEq,
        BinOp::Div => t == Token::SlashEq,
        BinOp::Mod => t == Token::PercentEq,
        BinOp::BitAnd => t == Token::AmpEq,
        BinOp::BitOr => t == Token::PipeEq,
        BinOp::BitXor => t == Token::CaretEq,
        BinOp::Shl => t == Token::ShlEq,
        BinOp::Shr => t == Token::Gt && input::tk(x, k + 1) == Token::Ge && input::adjacent(x, k),
        _ => false,
    }
}

/// Whether the tokens of an expression stand at `k`.
pub open spec fn stands(x: Input, k: int, e: tree::Expr) -> bool
    decreases e,
{
    &&& 0 <= k
    &&& k + count(e) <= x.len()
    &&& match e.kind {
        tree::ExprKind::IntLit(n) => input::tk(x, k) == Token::IntLit && input::digits_value(input::word(x, k)) == n,
        tree::ExprKind::BoolLit(b) => input::tk(x, k) == (if b {
            Token::True
        } else {
            Token::False
        }),
        tree::ExprKind::Ident(n) => input::is_name(input::tk(x, k)) && input::word(x, k) == n,
        tree::ExprKind::Paren(y) => input::tk(x, k) == Token::LParen && stands(x, k + 1, *y) && input::tk(
            x,
            k + 1 + count(*y),
        ) == Token::RParen,
        tree::ExprKind::Unary(op, y) => is_prefix_token(input::tk(x, k), op) && stands(x, k + 1, *y),
        tree::ExprKind::Binary(op, a, b) => {
            &&& stands(x, k, *a)
            &&& op_stands(x, k + count(*a), op)
            &&& stands(x, k + count(*a) + op_count(op), *b)
        },
        tree::ExprKind::This => input::tk(x, k) == Token::This,
        tree::ExprKind::Null => input::tk(x, k) == Token::Null,
        tree::ExprKind::Postfix(op, y) => stands(x, k, *y) && input::tk(x, k + count(*y)) == (if op == UnaryOp::Inc {
            Token::PlusPlus
        } else {
            Token::MinusMinus
        }),
        tree::ExprKind::Member(y, f) => {
            &&& stands(x, k, *y)
            &&& input::tk(x, k + count(*y)) == Token::Dot
            &&& input::word(x, k + count(*y) + 1) == f
        },
        tree::ExprKind::Index(y, z) => {
            &&& stands(x, k, *y)
            &&& input::tk(x, k + count(*y)) == Token::LBracket
            &&& stands(x, k + count(*y) + 1, *z)
            &&& input::tk(x, k + count(*y) + 1 + count(*z)) == Token::RBracket
        },
        tree::ExprKind::Conditional(c, y, z) => {
            &&& stands(x, k, *c)
            &&& input::tk(x, k + count(*c)) == Token::Question
            &&& stands(x, k + count(*c) + 1, *y)
            &&& input::tk(x, k + count(*c) + 1 + count(*y)) == Token::Colon
            &&& stands(x, k + count(*c) + count(*y) + 2, *z)
        },
        tree::ExprKind::Assign(y, z) => {
            &&& stands(x, k, *y)
            &&& input::tk(x, k + count(*y)) == Token::Eq
            &&& stands(x, k + count(*y) + 1, *z)
        },
        tree::ExprKind::CompoundAssign(op, y, z) => {
            &&& stands(x, k, *y)
            &&& assign_stands(x, k + count(*y), op)
            &&& stands(x, k + count(*y) + op_count(op), *z)
        },
        _ => false,
    }
}

proof fn lemma_count(e: tree::Expr)
    ensures
        count(e) >= 1,
    decreases e,
{
    match e.kind {
        tree::ExprKind::Paren(x) => lemma_count(*x),
        tree::ExprKind::Unary(_, x) => lemma_count(*x),
        tree::ExprKind::Binary(_, x, y) => {
            lemma_count(*x);
            lemma_count(*y);
        },
        tree::ExprKind::Postfix(_, x) => lemma_count(*x),
        tree::ExprKind::Member(x, _) => lemma_count(*x),
        tree::ExprKind::Index(x, y) => {
            lemma_count(*x);
            lemma_count(*y);
        },
        tree::ExprKind::Conditional(c, x, y) => {
            lemma_count(*c);
            lemma_count(*x);
            lemma_count(*y);
        },
        tree::ExprKind::Assign(x, y) => {
            lemma_count(*x);
            lemma_count(*y);
        },
        tree::ExprKind::CompoundAssign(_, x, y) => {
            lemma_count(*x);
            lemma_count(*y);
        },
        _ => {},
    }
}

/// Tokens stand where they stood when more follow.
proof fn lemma_stands_on(s: Seq<char>, a: Seq<SpannedToken>, b: Seq<SpannedToken>, k: int, e: tree::Expr)
    requires
        stands(Input { toks: a, src: s }, k, e),
        a.len() <= b.len(),
        forall|j: int| 0 <= j < a.len() ==> #[trigger] b[j] == a[j],
    ensures
        stands(Input { toks: b, src: s }, k, e),
    decreases e,
{
    lemma_count(e);
    let x = Input { toks: a, src: s };
    let y = Input { toks: b, src: s };
    assert(input::tk(y, k) == input::tk(x, k));
    assert(input::word(y, k) == input::word(x, k));
    match e.kind {
        tree::ExprKind::Paren(z) => {
            lemma_count(*z);
            lemma_stands_on(s, a, b, k + 1, *z);
            assert(input::tk(y, k + 1 + count(*z)) == input::tk(x, k + 1 + count(*z)));
        },
        tree::ExprKind::Unary(_, z) => {
            lemma_stands_on(s, a, b, k + 1, *z);
        },
        tree::ExprKind::Binary(op, l, r) => {
            lemma_count(*l);
            lemma_count(*r);
            lemma_stands_on(s, a, b, k, *l);
            lemma_stands_on(s, a, b, k + count(*l) + op_count(op), *r);
            let j = k + count(*l);
            assert(input::tk(y, j) == input::tk(x, j));
            if op_count(op) == 2 {
                assert(input::tk(y, j + 1) == input::tk(x, j + 1));
                assert(y.toks[j] == x.toks[j] && y.toks[j + 1] == x.toks[j + 1]);
            }
        },
        tree::ExprKind::Postfix(_, z) => {
            lemma_count(*z);
            lemma_stands_on(s, a, b, k, *z);
            assert(input::tk(y, k + count(*z)) == input::tk(x, k + count(*z)));
        },
        tree::ExprKind::Member(z, _) => {
            lemma_count(*z);
            lemma_stands_on(s, a, b, k, *z);
            let j = k + count(*z);
            assert(input::tk(y, j) == input::tk(x, j));
            assert(input::word(y, j + 1) == input::word(x, j + 1));
        },
        tree::ExprKind::Index(z, w) => {
            lemma_count(*z);
            lemma_count(*w);
            lemma_stands_on(s, a, b, k, *z);
            lemma_stands_on(s, a, b, k + count(*z) + 1, *w);
            let j = k + count(*z);
            assert(input::tk(y, j) == input::tk(x, j));
            assert(input::tk(y, j + 1 + count(*w)) == input::tk(x, j + 1 + count(*w)));
        },
        tree::ExprKind::Conditional(c, z, w) => {
            lemma_count(*c);
            lemma_count(*z);
            lemma_count(*w);
            lemma_stands_on(s, a, b, k, *c);
            lemma_stands_on(s, a, b, k + count(*c) + 1, *z);
            lemma_stands_on(s, a, b, k + count(*c) + count(*z) + 2, *w);
            let j = k + count(*c);
            assert(input::tk(y, j) == input::tk(x, j));
            assert(input::tk(y, j + 1 + count(*z)) == input::tk(x, j + 1 + count(*z)));
        },
        tree::ExprKind::Assign(z, w) => {
            lemma_count(*z);
            lemma_count(*w);
            lemma_stands_on(s, a, b, k, *z);
            lemma_stands_on(s, a, b, k + count(*z) + 1, *w);
            assert(input::tk(y, k + count(*z)) == input::tk(x, k + count(*z)));
        },
        tree::ExprKind::CompoundAssign(op, l, r) => {
            lemma_count(*l);
            lemma_count(*r);
            lemma_stands_on(s, a, b, k, *l);
            lemma_stands_on(s, a, b, k + count(*l) + op_count(op), *r);
            let j = k + count(*l);
            assert(input::tk(y, j) == input::tk(x, j));
            if op_count(op) == 2 {
                assert(input::tk(y, j + 1) == input::tk(x, j + 1));
                assert(y.toks[j] == x.toks[j] && y.toks[j + 1] == x.toks[j + 1]);
            }
        },
        _ => {},
    }
}

// ── Reading the text ────────────────────────────────────────────────────────

/// Whether `t` stands at `p` in `s`.
pub open spec fn is_at(s: Seq<char>, p: int, t: Seq<char>) -> bool {
    0 <= p && p + t.len() <= s.len() && s.subrange(p, p + t.len()) == t
}

pub proof fn lemma_split(s: Seq<char>, p: int, a: Seq<char>, b: Seq<char>)
    requires
        is_at(s, p, a + b),
    ensures
        is_at(s, p, a),
        is_at(s, p + a.len(), b),
{
    let t = s.subrange(p, p + (a + b).len());
    assert(s.subrange(p, p + a.len()) =~= t.subrange(0, a.len() as int));
    assert((a + b).subrange(0, a.len() as int) =~= a);
    assert(s.subrange(p + a.len(), p + a.len() + b.len()) =~= t.subrange(a.len() as int, (a + b).len() as int));
    assert((a + b).subrange(a.len() as int, (a + b).len() as int) =~= b);
}

pub proof fn lemma_char(s: Seq<char>, p: int, t: Seq<char>, i: int)
    requires
        is_at(s, p, t),
        0 <= i < t.len(),
    ensures
        s[p + i] == t[i],
{
    assert(s.subrange(p, p + t.len())[i] == s[p + i]);
}

/// Whether a character cannot go on with the last token of an expression.
pub open spec fn may_follow(e: tree::Expr, c: char) -> bool {
    is_stop(c) || c == '.' && !ends_digit(e)
}

/// Whether a character cannot go on with the token before it.
pub open spec fn is_stop(c: char) -> bool {
    !lexer::in_word(c) && !lexer::is_digit(c) && c != '.'
}

/// Whether reading goes from `i` to `k` and adds tokens.
#[verifier::opaque]
pub open spec fn reads(s: Seq<char>, i: int, k: int, b: Seq<bool>, done: Lexed, more: Lexed) -> bool {
    lexer::lex_from(s, i, b, done) == lexer::lex_from(s, k, b, more) && settle_imports::goes_on(done, more)
}

pub proof fn lemma_blank(s: Seq<char>, i: int, b: Seq<bool>, done: Lexed)
    requires
        0 <= i < s.len(),
        s[i] == ' ',
    ensures
        reads(s, i, i + 1, b, done, done),
{
    reveal(reads);
    assert(lexer::scan(s, i, b) == (Piece::Trivia, i + 1, b));
    assert(done.add_piece(s, Piece::Trivia, i, i + 1) == done);
}

pub proof fn lemma_reads_on(s: Seq<char>, i: int, j: int, k: int, b: Seq<bool>, done: Lexed, one: Lexed, more: Lexed)
    requires
        reads(s, i, j, b, done, one),
        reads(s, j, k, b, one, more),
    ensures
        reads(s, i, k, b, done, more),
        more.errors == done.errors,
        forall|n: int| 0 <= n < done.tokens.len() ==> #[trigger] more.tokens[n] == done.tokens[n],
        forall|n: int| 0 <= n < one.tokens.len() ==> #[trigger] more.tokens[n] == one.tokens[n],
        done.tokens.len() <= one.tokens.len() <= more.tokens.len(),
{
    reveal(reads);
    lemma_goes(done, one, more);
}

/// One token is read.
pub proof fn lemma_one(s: Seq<char>, i: int, k: int, t: Token, b: Seq<bool>, done: Lexed) -> (more: Lexed)
    requires
        0 <= i < k <= s.len(),
        lexer::scan(s, i, b) == (Piece::Tok(t), k, b),
        text::byte_len(s) <= usize::MAX,
    ensures
        reads(s, i, k, b, done, more),
        more.tokens.len() == done.tokens.len() + 1,
        more.tokens.last().token == t,
        more.tokens.last().span == lexer::char_span(s, i, k),
        source::span_text(s, more.tokens.last().span) == s.subrange(i, k),
{
    settle_imports::lemma_span_text(s, i, k);
    reveal(reads);
    let more = done.add_piece(s, Piece::Tok(t), i, k);
    assert forall|j: int| 0 <= j < done.tokens.len() implies #[trigger] more.tokens[j] == done.tokens[j] by {}
    more
}

pub proof fn lemma_word(s: Seq<char>, i: int, w: Seq<char>, b: Seq<bool>, done: Lexed) -> (more: Lexed)
    requires
        is_at(s, i, w),
        w.len() > 0,
        lexer::starts_word(w[0]),
        forall|j: int| 0 <= j < w.len() ==> lexer::in_word(#[trigger] w[j]),
        !lexer::in_word(lexer::peek(s, i + w.len())),
        text::byte_len(s) <= usize::MAX,
    ensures
        reads(s, i, i + w.len(), b, done, more),
        more.tokens.len() == done.tokens.len() + 1,
        more.tokens.last().token == token::word_token(w),
        source::span_text(s, more.tokens.last().span) == w,
{
    let k = i + w.len();
    assert forall|j: int| i <= j < k implies lexer::in_word(#[trigger] s[j]) by {
        lemma_char(s, i, w, j - i);
        assert(lexer::in_word(w[j - i]));
    }
    lemma_char(s, i, w, 0);
    laws::lemma_word_stop(s, i, k);
    lemma_one(s, i, k, token::word_token(w), b, done)
}


/// The character and the token of an operator of one character.
pub open spec fn mark(op: BinOp) -> Option<(char, Token)> {
    match op {
        BinOp::Add => Some(('+', Token::Plus)),
        BinOp::Sub => Some(('-', Token::Minus)),
        BinOp::Mul => Some(('*', Token::Star)),
        BinOp::Div => Some(('/', Token::Slash)),
        BinOp::Mod => Some(('%', Token::Percent)),
        BinOp::Lt => Some(('<', Token::Lt)),
        BinOp::Gt => Some(('>', Token::Gt)),
        BinOp::BitAnd => Some(('&', Token::Amp)),
        BinOp::BitOr => Some(('|', Token::Pipe)),
        BinOp::BitXor => Some(('^', Token::Caret)),
        _ => None,
    }
}

/// The characters and the token of an operator of two characters.
pub open spec fn pair(op: BinOp) -> Option<(char, char, Token)> {
    match op {
        BinOp::Le => Some(('<', '=', Token::Le)),
        BinOp::Ge => Some(('>', '=', Token::Ge)),
        BinOp::Shl => Some(('<', '<', Token::Shl)),
        BinOp::NullCoalesce => Some(('?', '?', Token::Coalesce)),
        _ => None,
    }
}

proof fn lemma_mark_text(op: BinOp)
    ensures
        mark(op) is Some ==> compact::bin_op_text(op).len() == 1 && compact::bin_op_text(op)[0] == (mark(op)->0).0,
{
    reveal_strlit("+");
    reveal_strlit("-");
    reveal_strlit("*");
    reveal_strlit("/");
    reveal_strlit("%");
    reveal_strlit("<");
    reveal_strlit(">");
    reveal_strlit("&");
    reveal_strlit("|");
    reveal_strlit("^");
}

proof fn lemma_pair_text(op: BinOp)
    ensures
        pair(op) is Some ==> compact::bin_op_text(op).len() == 2 && compact::bin_op_text(op)[0] == (pair(op)->0).0
            && compact::bin_op_text(op)[1] == (pair(op)->0).1,
{
    reveal_strlit("<=");
    reveal_strlit(">=");
    reveal_strlit("<<");
    reveal_strlit("??");
}

proof fn lemma_mark_scan(s: Seq<char>, i: int, b: Seq<bool>, op: BinOp)
    requires
        mark(op) is Some,
        0 <= i,
        i + 1 < s.len(),
        s[i] == (mark(op)->0).0,
        s[i + 1] == ' ',
    ensures
        lexer::scan(s, i, b) == (Piece::Tok((mark(op)->0).1), i + 1, b),
{
}

proof fn lemma_pair_scan(s: Seq<char>, i: int, b: Seq<bool>, op: BinOp)
    requires
        pair(op) is Some,
        0 <= i,
        i + 2 < s.len(),
        s[i] == (pair(op)->0).0,
        s[i + 1] == (pair(op)->0).1,
        s[i + 2] == ' ',
    ensures
        lexer::scan(s, i, b) == (Piece::Tok((pair(op)->0).2), i + 2, b),
{
}

proof fn lemma_greater_scan(s: Seq<char>, i: int, b: Seq<bool>)
    requires
        0 <= i,
        i + 1 < s.len(),
        s[i] == '>',
        s[i + 1] == '>' || s[i + 1] == ' ',
    ensures
        lexer::scan(s, i, b) == (Piece::Tok(Token::Gt), i + 1, b),
{
}

proof fn lemma_lex_is_not(s: Seq<char>, i: int, b: Seq<bool>, done: Lexed) -> (more: Lexed)
    requires
        is_at(s, i, "is not"@),
        lexer::peek(s, i + "is not"@.len()) == ' ',
        text::byte_len(s) <= usize::MAX,
    ensures
        reads(s, i, i + "is not"@.len(), b, done, more),
        more.tokens.len() == done.tokens.len() + 2,
        more.tokens[done.tokens.len() as int].token == Token::Is,
        more.tokens[done.tokens.len() as int + 1].token == Token::Not,
{
    reveal_strlit("is not");
    reveal_strlit("is");
    reveal_strlit("not");
    reveal_strlit(" ");
    assert("is not"@ =~= "is"@ + (" "@ + "not"@));
    lemma_split(s, i, "is"@, " "@ + "not"@);
    lemma_split(s, i + 2, " "@, "not"@);
    lemma_char(s, i + 2, " "@, 0);
    lemma_token_is();
    lemma_token_not();
    let n = done.tokens.len() as int;
    let one = lemma_word(s, i, "is"@, b, done);
    lemma_blank(s, i + 2, b, one);
    let more = lemma_word(s, i + 3, "not"@, b, one);
    lemma_reads_on(s, i, i + 2, i + 3, b, done, one, one);
    lemma_reads_on(s, i, i + 3, i + 6, b, done, one, more);
    assert(more.tokens[n] == one.tokens[n]);
    more
}

proof fn lemma_lex_shift(s: Seq<char>, i: int, b: Seq<bool>, done: Lexed) -> (more: Lexed)
    requires
        is_at(s, i, ">>"@),
        lexer::peek(s, i + ">>"@.len()) == ' ',
        text::byte_len(s) <= usize::MAX,
    ensures
        reads(s, i, i + ">>"@.len(), b, done, more),
        more.tokens.len() == done.tokens.len() + 2,
        op_stands(Input { toks: more.tokens, src: s }, done.tokens.len() as int, BinOp::Shr),
{
    reveal_strlit(">>");
    lemma_char(s, i, ">>"@, 0);
    lemma_char(s, i, ">>"@, 1);
    let n = done.tokens.len() as int;
    lemma_greater_scan(s, i, b);
    lemma_greater_scan(s, i + 1, b);
    let one = lemma_one(s, i, i + 1, Token::Gt, b, done);
    let more = lemma_one(s, i + 1, i + 2, Token::Gt, b, one);
    lemma_reads_on(s, i, i + 1, i + 2, b, done, one, more);
    assert(more.tokens[n] == one.tokens[n]);
    more
}

/// An operator with a space after it is read as its tokens.
proof fn lemma_lex_op(s: Seq<char>, i: int, op: BinOp, b: Seq<bool>, done: Lexed) -> (more: Lexed)
    requires
        is_at(s, i, compact::bin_op_text(op) + " "@),
        text::byte_len(s) <= usize::MAX,
    ensures
        reads(s, i, i + compact::bin_op_text(op).len(), b, done, more),
        more.tokens.len() == done.tokens.len() + op_count(op),
        op_stands(Input { toks: more.tokens, src: s }, done.tokens.len() as int, op),
{
    let t = compact::bin_op_text(op);
    let k = i + t.len();
    reveal_strlit(" ");
    lemma_split(s, i, t, " "@);
    lemma_char(s, k, " "@, 0);
    if mark(op) is Some {
        lemma_mark_text(op);
        lemma_char(s, i, t, 0);
        lemma_mark_scan(s, i, b, op);
        lemma_one(s, i, k, (mark(op)->0).1, b, done)
    } else if pair(op) is Some {
        lemma_pair_text(op);
        lemma_char(s, i, t, 0);
        lemma_char(s, i, t, 1);
        lemma_pair_scan(s, i, b, op);
        lemma_one(s, i, k, (pair(op)->0).2, b, done)
    } else if op == BinOp::IsNot {
        lemma_lex_is_not(s, i, b, done)
    } else if op == BinOp::Shr {
        lemma_lex_shift(s, i, b, done)
    } else {
        reveal_strlit("is");
        reveal_strlit("and");
        reveal_strlit("or");
        lemma_token_is();
        lemma_token_and();
        lemma_token_or();
        lemma_word(s, i, t, b, done)
    }
}

/// The word `is` is a token of its own.
proof fn lemma_token_is()
    ensures
        token::word_token("is"@) == Token::Is,
{
    reveal_strlit("is");
    reveal_strlit("import");
    assert("is"@.len() != "import"@.len());
    reveal_strlit("const");
    assert("is"@.len() != "const"@.len());
    reveal_strlit("typedef");
    assert("is"@.len() != "typedef"@.len());
    reveal_strlit("distinct");
    assert("is"@.len() != "distinct"@.len());
    reveal_strlit("struct");
    assert("is"@.len() != "struct"@.len());
    reveal_strlit("class");
    assert("is"@.len() != "class"@.len());
    reveal_strlit("enum");
    assert("is"@.len() != "enum"@.len());
    reveal_strlit("trait");
    assert("is"@.len() != "trait"@.len());
    reveal_strlit("extend");
    assert("is"@.len() != "extend"@.len());
    reveal_strlit("extern");
    assert("is"@.len() != "extern"@.len());
    reveal_strlit("init");
    assert("is"@.len() != "init"@.len());
    reveal_strlit("has");
    assert("is"@.len() != "has"@.len());
    reveal_strlit("do");
    assert("is"@[0] != "do"@[0]);
    reveal_strlit("end");
    assert("is"@.len() != "end"@.len());
    reveal_strlit("if");
    assert("is"@[1] != "if"@[1]);
    reveal_strlit("else");
    assert("is"@.len() != "else"@.len());
    reveal_strlit("while");
    assert("is"@.len() != "while"@.len());
    reveal_strlit("loop");
    assert("is"@.len() != "loop"@.len());
    reveal_strlit("for");
    assert("is"@.len() != "for"@.len());
    reveal_strlit("in");
    assert("is"@[1] != "in"@[1]);
    reveal_strlit("return");
    assert("is"@.len() != "return"@.len());
    reveal_strlit("break");
    assert("is"@.len() != "break"@.len());
    reveal_strlit("continue");
    assert("is"@.len() != "continue"@.len());
    reveal_strlit("defer");
    assert("is"@.len() != "defer"@.len());
    reveal_strlit("assert");
    assert("is"@.len() != "assert"@.len());
    reveal_strlit("debug_assert");
    assert("is"@.len() != "debug_assert"@.len());
    reveal_strlit("match");
    assert("is"@.len() != "match"@.len());
    reveal_strlit("public");
    assert("is"@.len() != "public"@.len());
    reveal_strlit("private");
    assert("is"@.len() != "private"@.len());
    reveal_strlit("static");
    assert("is"@.len() != "static"@.len());
    reveal_strlit("sealed");
    assert("is"@.len() != "sealed"@.len());
    reveal_strlit("open");
    assert("is"@.len() != "open"@.len());
    reveal_strlit("override");
    assert("is"@.len() != "override"@.len());
    reveal_strlit("extends");
    assert("is"@.len() != "extends"@.len());
    reveal_strlit("implements");
    assert("is"@.len() != "implements"@.len());
    reveal_strlit("initialize");
    assert("is"@.len() != "initialize"@.len());
    reveal_strlit("get");
    assert("is"@.len() != "get"@.len());
    reveal_strlit("set");
    assert("is"@.len() != "set"@.len());
    reveal_strlit("operator");
    assert("is"@.len() != "operator"@.len());
    reveal_strlit("convert");
    assert("is"@.len() != "convert"@.len());
    reveal_strlit("explicit");
    assert("is"@.len() != "explicit"@.len());
    reveal_strlit("to");
    assert("is"@[0] != "to"@[0]);
    reveal_strlit("where");
    assert("is"@.len() != "where"@.len());
    reveal_strlit("from");
    assert("is"@.len() != "from"@.len());
    reveal_strlit("ref");
    assert("is"@.len() != "ref"@.len());
    reveal_strlit("out");
    assert("is"@.len() != "out"@.len());
}

/// The word `not` is a token of its own.
proof fn lemma_token_not()
    ensures
        token::word_token("not"@) == Token::Not,
{
    reveal_strlit("not");
    reveal_strlit("import");
    assert("not"@.len() != "import"@.len());
    reveal_strlit("const");
    assert("not"@.len() != "const"@.len());
    reveal_strlit("typedef");
    assert("not"@.len() != "typedef"@.len());
    reveal_strlit("distinct");
    assert("not"@.len() != "distinct"@.len());
    reveal_strlit("struct");
    assert("not"@.len() != "struct"@.len());
    reveal_strlit("class");
    assert("not"@.len() != "class"@.len());
    reveal_strlit("enum");
    assert("not"@.len() != "enum"@.len());
    reveal_strlit("trait");
    assert("not"@.len() != "trait"@.len());
    reveal_strlit("extend");
    assert("not"@.len() != "extend"@.len());
    reveal_strlit("extern");
    assert("not"@.len() != "extern"@.len());
    reveal_strlit("init");
    assert("not"@.len() != "init"@.len());
    reveal_strlit("has");
    assert("not"@[0] != "has"@[0]);
    reveal_strlit("do");
    assert("not"@.len() != "do"@.len());
    reveal_strlit("end");
    assert("not"@[0] != "end"@[0]);
    reveal_strlit("if");
    assert("not"@.len() != "if"@.len());
    reveal_strlit("else");
    assert("not"@.len() != "else"@.len());
    reveal_strlit("while");
    assert("not"@.len() != "while"@.len());
    reveal_strlit("loop");
    assert("not"@.len() != "loop"@.len());
    reveal_strlit("for");
    assert("not"@[0] != "for"@[0]);
    reveal_strlit("in");
    assert("not"@.len() != "in"@.len());
    reveal_strlit("return");
    assert("not"@.len() != "return"@.len());
    reveal_strlit("break");
    assert("not"@.len() != "break"@.len());
    reveal_strlit("continue");
    assert("not"@.len() != "continue"@.len());
    reveal_strlit("defer");
    assert("not"@.len() != "defer"@.len());
    reveal_strlit("assert");
    assert("not"@.len() != "assert"@.len());
    reveal_strlit("debug_assert");
    assert("not"@.len() != "debug_assert"@.len());
    reveal_strlit("match");
    assert("not"@.len() != "match"@.len());
    reveal_strlit("public");
    assert("not"@.len() != "public"@.len());
    reveal_strlit("private");
    assert("not"@.len() != "private"@.len());
    reveal_strlit("static");
    assert("not"@.len() != "static"@.len());
    reveal_strlit("sealed");
    assert("not"@.len() != "sealed"@.len());
    reveal_strlit("open");
    assert("not"@.len() != "open"@.len());
    reveal_strlit("override");
    assert("not"@.len() != "override"@.len());
    reveal_strlit("extends");
    assert("not"@.len() != "extends"@.len());
    reveal_strlit("implements");
    assert("not"@.len() != "implements"@.len());
    reveal_strlit("initialize");
    assert("not"@.len() != "initialize"@.len());
    reveal_strlit("get");
    assert("not"@[0] != "get"@[0]);
    reveal_strlit("set");
    assert("not"@[0] != "set"@[0]);
    reveal_strlit("operator");
    assert("not"@.len() != "operator"@.len());
    reveal_strlit("convert");
    assert("not"@.len() != "convert"@.len());
    reveal_strlit("explicit");
    assert("not"@.len() != "explicit"@.len());
    reveal_strlit("to");
    assert("not"@.len() != "to"@.len());
    reveal_strlit("where");
    assert("not"@.len() != "where"@.len());
    reveal_strlit("from");
    assert("not"@.len() != "from"@.len());
    reveal_strlit("ref");
    assert("not"@[0] != "ref"@[0]);
    reveal_strlit("out");
    assert("not"@[0] != "out"@[0]);
    reveal_strlit("is");
    assert("not"@.len() != "is"@.len());
}

/// The word `and` is a token of its own.
proof fn lemma_token_and()
    ensures
        token::word_token("and"@) == Token::And,
{
    reveal_strlit("and");
    reveal_strlit("import");
    assert("and"@.len() != "import"@.len());
    reveal_strlit("const");
    assert("and"@.len() != "const"@.len());
    reveal_strlit("typedef");
    assert("and"@.len() != "typedef"@.len());
    reveal_strlit("distinct");
    assert("and"@.len() != "distinct"@.len());
    reveal_strlit("struct");
    assert("and"@.len() != "struct"@.len());
    reveal_strlit("class");
    assert("and"@.len() != "class"@.len());
    reveal_strlit("enum");
    assert("and"@.len() != "enum"@.len());
    reveal_strlit("trait");
    assert("and"@.len() != "trait"@.len());
    reveal_strlit("extend");
    assert("and"@.len() != "extend"@.len());
    reveal_strlit("extern");
    assert("and"@.len() != "extern"@.len());
    reveal_strlit("init");
    assert("and"@.len() != "init"@.len());
    reveal_strlit("has");
    assert("and"@[0] != "has"@[0]);
    reveal_strlit("do");
    assert("and"@.len() != "do"@.len());
    reveal_strlit("end");
    assert("and"@[0] != "end"@[0]);
    reveal_strlit("if");
    assert("and"@.len() != "if"@.len());
    reveal_strlit("else");
    assert("and"@.len() != "else"@.len());
    reveal_strlit("while");
    assert("and"@.len() != "while"@.len());
    reveal_strlit("loop");
    assert("and"@.len() != "loop"@.len());
    reveal_strlit("for");
    assert("and"@[0] != "for"@[0]);
    reveal_strlit("in");
    assert("and"@.len() != "in"@.len());
    reveal_strlit("return");
    assert("and"@.len() != "return"@.len());
    reveal_strlit("break");
    assert("and"@.len() != "break"@.len());
    reveal_strlit("continue");
    assert("and"@.len() != "continue"@.len());
    reveal_strlit("defer");
    assert("and"@.len() != "defer"@.len());
    reveal_strlit("assert");
    assert("and"@.len() != "assert"@.len());
    reveal_strlit("debug_assert");
    assert("and"@.len() != "debug_assert"@.len());
    reveal_strlit("match");
    assert("and"@.len() != "match"@.len());
    reveal_strlit("public");
    assert("and"@.len() != "public"@.len());
    reveal_strlit("private");
    assert("and"@.len() != "private"@.len());
    reveal_strlit("static");
    assert("and"@.len() != "static"@.len());
    reveal_strlit("sealed");
    assert("and"@.len() != "sealed"@.len());
    reveal_strlit("open");
    assert("and"@.len() != "open"@.len());
    reveal_strlit("override");
    assert("and"@.len() != "override"@.len());
    reveal_strlit("extends");
    assert("and"@.len() != "extends"@.len());
    reveal_strlit("implements");
    assert("and"@.len() != "implements"@.len());
    reveal_strlit("initialize");
    assert("and"@.len() != "initialize"@.len());
    reveal_strlit("get");
    assert("and"@[0] != "get"@[0]);
    reveal_strlit("set");
    assert("and"@[0] != "set"@[0]);
    reveal_strlit("operator");
    assert("and"@.len() != "operator"@.len());
    reveal_strlit("convert");
    assert("and"@.len() != "convert"@.len());
    reveal_strlit("explicit");
    assert("and"@.len() != "explicit"@.len());
    reveal_strlit("to");
    assert("and"@.len() != "to"@.len());
    reveal_strlit("where");
    assert("and"@.len() != "where"@.len());
    reveal_strlit("from");
    assert("and"@.len() != "from"@.len());
    reveal_strlit("ref");
    assert("and"@[0] != "ref"@[0]);
    reveal_strlit("out");
    assert("and"@[0] != "out"@[0]);
    reveal_strlit("is");
    assert("and"@.len() != "is"@.len());
    reveal_strlit("not");
    assert("and"@[0] != "not"@[0]);
}

/// The word `or` is a token of its own.
proof fn lemma_token_or()
    ensures
        token::word_token("or"@) == Token::Or,
{
    reveal_strlit("or");
    reveal_strlit("import");
    assert("or"@.len() != "import"@.len());
    reveal_strlit("const");
    assert("or"@.len() != "const"@.len());
    reveal_strlit("typedef");
    assert("or"@.len() != "typedef"@.len());
    reveal_strlit("distinct");
    assert("or"@.len() != "distinct"@.len());
    reveal_strlit("struct");
    assert("or"@.len() != "struct"@.len());
    reveal_strlit("class");
    assert("or"@.len() != "class"@.len());
    reveal_strlit("enum");
    assert("or"@.len() != "enum"@.len());
    reveal_strlit("trait");
    assert("or"@.len() != "trait"@.len());
    reveal_strlit("extend");
    assert("or"@.len() != "extend"@.len());
    reveal_strlit("extern");
    assert("or"@.len() != "extern"@.len());
    reveal_strlit("init");
    assert("or"@.len() != "init"@.len());
    reveal_strlit("has");
    assert("or"@.len() != "has"@.len());
    reveal_strlit("do");
    assert("or"@[0] != "do"@[0]);
    reveal_strlit("end");
    assert("or"@.len() != "end"@.len());
    reveal_strlit("if");
    assert("or"@[0] != "if"@[0]);
    reveal_strlit("else");
    assert("or"@.len() != "else"@.len());
    reveal_strlit("while");
    assert("or"@.len() != "while"@.len());
    reveal_strlit("loop");
    assert("or"@.len() != "loop"@.len());
    reveal_strlit("for");
    assert("or"@.len() != "for"@.len());
    reveal_strlit("in");
    assert("or"@[0] != "in"@[0]);
    reveal_strlit("return");
    assert("or"@.len() != "return"@.len());
    reveal_strlit("break");
    assert("or"@.len() != "break"@.len());
    reveal_strlit("continue");
    assert("or"@.len() != "continue"@.len());
    reveal_strlit("defer");
    assert("or"@.len() != "defer"@.len());
    reveal_strlit("assert");
    assert("or"@.len() != "assert"@.len());
    reveal_strlit("debug_assert");
    assert("or"@.len() != "debug_assert"@.len());
    reveal_strlit("match");
    assert("or"@.len() != "match"@.len());
    reveal_strlit("public");
    assert("or"@.len() != "public"@.len());
    reveal_strlit("private");
    assert("or"@.len() != "private"@.len());
    reveal_strlit("static");
    assert("or"@.len() != "static"@.len());
    reveal_strlit("sealed");
    assert("or"@.len() != "sealed"@.len());
    reveal_strlit("open");
    assert("or"@.len() != "open"@.len());
    reveal_strlit("override");
    assert("or"@.len() != "override"@.len());
    reveal_strlit("extends");
    assert("or"@.len() != "extends"@.len());
    reveal_strlit("implements");
    assert("or"@.len() != "implements"@.len());
    reveal_strlit("initialize");
    assert("or"@.len() != "initialize"@.len());
    reveal_strlit("get");
    assert("or"@.len() != "get"@.len());
    reveal_strlit("set");
    assert("or"@.len() != "set"@.len());
    reveal_strlit("operator");
    assert("or"@.len() != "operator"@.len());
    reveal_strlit("convert");
    assert("or"@.len() != "convert"@.len());
    reveal_strlit("explicit");
    assert("or"@.len() != "explicit"@.len());
    reveal_strlit("to");
    assert("or"@[0] != "to"@[0]);
    reveal_strlit("where");
    assert("or"@.len() != "where"@.len());
    reveal_strlit("from");
    assert("or"@.len() != "from"@.len());
    reveal_strlit("ref");
    assert("or"@.len() != "ref"@.len());
    reveal_strlit("out");
    assert("or"@.len() != "out"@.len());
    reveal_strlit("is");
    assert("or"@[0] != "is"@[0]);
    reveal_strlit("not");
    assert("or"@.len() != "not"@.len());
    reveal_strlit("and");
    assert("or"@.len() != "and"@.len());
}

/// The word `true` is a token of its own.
proof fn lemma_token_true()
    ensures
        token::word_token("true"@) == Token::True,
{
    reveal_strlit("true");
    reveal_strlit("import");
    assert("true"@.len() != "import"@.len());
    reveal_strlit("const");
    assert("true"@.len() != "const"@.len());
    reveal_strlit("typedef");
    assert("true"@.len() != "typedef"@.len());
    reveal_strlit("distinct");
    assert("true"@.len() != "distinct"@.len());
    reveal_strlit("struct");
    assert("true"@.len() != "struct"@.len());
    reveal_strlit("class");
    assert("true"@.len() != "class"@.len());
    reveal_strlit("enum");
    assert("true"@[0] != "enum"@[0]);
    reveal_strlit("trait");
    assert("true"@.len() != "trait"@.len());
    reveal_strlit("extend");
    assert("true"@.len() != "extend"@.len());
    reveal_strlit("extern");
    assert("true"@.len() != "extern"@.len());
    reveal_strlit("init");
    assert("true"@[0] != "init"@[0]);
    reveal_strlit("has");
    assert("true"@.len() != "has"@.len());
    reveal_strlit("do");
    assert("true"@.len() != "do"@.len());
    reveal_strlit("end");
    assert("true"@.len() != "end"@.len());
    reveal_strlit("if");
    assert("true"@.len() != "if"@.len());
    reveal_strlit("else");
    assert("true"@[0] != "else"@[0]);
    reveal_strlit("while");
    assert("true"@.len() != "while"@.len());
    reveal_strlit("loop");
    assert("true"@[0] != "loop"@[0]);
    reveal_strlit("for");
    assert("true"@.len() != "for"@.len());
    reveal_strlit("in");
    assert("true"@.len() != "in"@.len());
    reveal_strlit("return");
    assert("true"@.len() != "return"@.len());
    reveal_strlit("break");
    assert("true"@.len() != "break"@.len());
    reveal_strlit("continue");
    assert("true"@.len() != "continue"@.len());
    reveal_strlit("defer");
    assert("true"@.len() != "defer"@.len());
    reveal_strlit("assert");
    assert("true"@.len() != "assert"@.len());
    reveal_strlit("debug_assert");
    assert("true"@.len() != "debug_assert"@.len());
    reveal_strlit("match");
    assert("true"@.len() != "match"@.len());
    reveal_strlit("public");
    assert("true"@.len() != "public"@.len());
    reveal_strlit("private");
    assert("true"@.len() != "private"@.len());
    reveal_strlit("static");
    assert("true"@.len() != "static"@.len());
    reveal_strlit("sealed");
    assert("true"@.len() != "sealed"@.len());
    reveal_strlit("open");
    assert("true"@[0] != "open"@[0]);
    reveal_strlit("override");
    assert("true"@.len() != "override"@.len());
    reveal_strlit("extends");
    assert("true"@.len() != "extends"@.len());
    reveal_strlit("implements");
    assert("true"@.len() != "implements"@.len());
    reveal_strlit("initialize");
    assert("true"@.len() != "initialize"@.len());
    reveal_strlit("get");
    assert("true"@.len() != "get"@.len());
    reveal_strlit("set");
    assert("true"@.len() != "set"@.len());
    reveal_strlit("operator");
    assert("true"@.len() != "operator"@.len());
    reveal_strlit("convert");
    assert("true"@.len() != "convert"@.len());
    reveal_strlit("explicit");
    assert("true"@.len() != "explicit"@.len());
    reveal_strlit("to");
    assert("true"@.len() != "to"@.len());
    reveal_strlit("where");
    assert("true"@.len() != "where"@.len());
    reveal_strlit("from");
    assert("true"@[0] != "from"@[0]);
    reveal_strlit("ref");
    assert("true"@.len() != "ref"@.len());
    reveal_strlit("out");
    assert("true"@.len() != "out"@.len());
    reveal_strlit("is");
    assert("true"@.len() != "is"@.len());
    reveal_strlit("not");
    assert("true"@.len() != "not"@.len());
    reveal_strlit("and");
    assert("true"@.len() != "and"@.len());
    reveal_strlit("or");
    assert("true"@.len() != "or"@.len());
}

/// The word `false` is a token of its own.
proof fn lemma_token_false()
    ensures
        token::word_token("false"@) == Token::False,
{
    reveal_strlit("false");
    reveal_strlit("import");
    assert("false"@.len() != "import"@.len());
    reveal_strlit("const");
    assert("false"@[0] != "const"@[0]);
    reveal_strlit("typedef");
    assert("false"@.len() != "typedef"@.len());
    reveal_strlit("distinct");
    assert("false"@.len() != "distinct"@.len());
    reveal_strlit("struct");
    assert("false"@.len() != "struct"@.len());
    reveal_strlit("class");
    assert("false"@[0] != "class"@[0]);
    reveal_strlit("enum");
    assert("false"@.len() != "enum"@.len());
    reveal_strlit("trait");
    assert("false"@[0] != "trait"@[0]);
    reveal_strlit("extend");
    assert("false"@.len() != "extend"@.len());
    reveal_strlit("extern");
    assert("false"@.len() != "extern"@.len());
    reveal_strlit("init");
    assert("false"@.len() != "init"@.len());
    reveal_strlit("has");
    assert("false"@.len() != "has"@.len());
    reveal_strlit("do");
    assert("false"@.len() != "do"@.len());
    reveal_strlit("end");
    assert("false"@.len() != "end"@.len());
    reveal_strlit("if");
    assert("false"@.len() != "if"@.len());
    reveal_strlit("else");
    assert("false"@.len() != "else"@.len());
    reveal_strlit("while");
    assert("false"@[0] != "while"@[0]);
    reveal_strlit("loop");
    assert("false"@.len() != "loop"@.len());
    reveal_strlit("for");
    assert("false"@.len() != "for"@.len());
    reveal_strlit("in");
    assert("false"@.len() != "in"@.len());
    reveal_strlit("return");
    assert("false"@.len() != "return"@.len());
    reveal_strlit("break");
    assert("false"@[0] != "break"@[0]);
    reveal_strlit("continue");
    assert("false"@.len() != "continue"@.len());
    reveal_strlit("defer");
    assert("false"@[0] != "defer"@[0]);
    reveal_strlit("assert");
    assert("false"@.len() != "assert"@.len());
    reveal_strlit("debug_assert");
    assert("false"@.len() != "debug_assert"@.len());
    reveal_strlit("match");
    assert("false"@[0] != "match"@[0]);
    reveal_strlit("public");
    assert("false"@.len() != "public"@.len());
    reveal_strlit("private");
    assert("false"@.len() != "private"@.len());
    reveal_strlit("static");
    assert("false"@.len() != "static"@.len());
    reveal_strlit("sealed");
    assert("false"@.len() != "sealed"@.len());
    reveal_strlit("open");
    assert("false"@.len() != "open"@.len());
    reveal_strlit("override");
    assert("false"@.len() != "override"@.len());
    reveal_strlit("extends");
    assert("false"@.len() != "extends"@.len());
    reveal_strlit("implements");
    assert("false"@.len() != "implements"@.len());
    reveal_strlit("initialize");
    assert("false"@.len() != "initialize"@.len());
    reveal_strlit("get");
    assert("false"@.len() != "get"@.len());
    reveal_strlit("set");
    assert("false"@.len() != "set"@.len());
    reveal_strlit("operator");
    assert("false"@.len() != "operator"@.len());
    reveal_strlit("convert");
    assert("false"@.len() != "convert"@.len());
    reveal_strlit("explicit");
    assert("false"@.len() != "explicit"@.len());
    reveal_strlit("to");
    assert("false"@.len() != "to"@.len());
    reveal_strlit("where");
    assert("false"@[0] != "where"@[0]);
    reveal_strlit("from");
    assert("false"@.len() != "from"@.len());
    reveal_strlit("ref");
    assert("false"@.len() != "ref"@.len());
    reveal_strlit("out");
    assert("false"@.len() != "out"@.len());
    reveal_strlit("is");
    assert("false"@.len() != "is"@.len());
    reveal_strlit("not");
    assert("false"@.len() != "not"@.len());
    reveal_strlit("and");
    assert("false"@.len() != "and"@.len());
    reveal_strlit("or");
    assert("false"@.len() != "or"@.len());
    reveal_strlit("true");
    assert("false"@.len() != "true"@.len());
}

/// The word `this` is a token of its own.
proof fn lemma_token_this()
    ensures
        token::word_token("this"@) == Token::This,
{
    reveal_strlit("this");
    reveal_strlit("import");
    assert("this"@.len() != "import"@.len());
    reveal_strlit("const");
    assert("this"@.len() != "const"@.len());
    reveal_strlit("typedef");
    assert("this"@.len() != "typedef"@.len());
    reveal_strlit("distinct");
    assert("this"@.len() != "distinct"@.len());
    reveal_strlit("struct");
    assert("this"@.len() != "struct"@.len());
    reveal_strlit("class");
    assert("this"@.len() != "class"@.len());
    reveal_strlit("enum");
    assert("this"@[0] != "enum"@[0]);
    reveal_strlit("trait");
    assert("this"@.len() != "trait"@.len());
    reveal_strlit("extend");
    assert("this"@.len() != "extend"@.len());
    reveal_strlit("extern");
    assert("this"@.len() != "extern"@.len());
    reveal_strlit("init");
    assert("this"@[0] != "init"@[0]);
    reveal_strlit("has");
    assert("this"@.len() != "has"@.len());
    reveal_strlit("do");
    assert("this"@.len() != "do"@.len());
    reveal_strlit("end");
    assert("this"@.len() != "end"@.len());
    reveal_strlit("if");
    assert("this"@.len() != "if"@.len());
    reveal_strlit("else");
    assert("this"@[0] != "else"@[0]);
    reveal_strlit("while");
    assert("this"@.len() != "while"@.len());
    reveal_strlit("loop");
    assert("this"@[0] != "loop"@[0]);
    reveal_strlit("for");
    assert("this"@.len() != "for"@.len());
    reveal_strlit("in");
    assert("this"@.len() != "in"@.len());
    reveal_strlit("return");
    assert("this"@.len() != "return"@.len());
    reveal_strlit("break");
    assert("this"@.len() != "break"@.len());
    reveal_strlit("continue");
    assert("this"@.len() != "continue"@.len());
    reveal_strlit("defer");
    assert("this"@.len() != "defer"@.len());
    reveal_strlit("assert");
    assert("this"@.len() != "assert"@.len());
    reveal_strlit("debug_assert");
    assert("this"@.len() != "debug_assert"@.len());
    reveal_strlit("match");
    assert("this"@.len() != "match"@.len());
    reveal_strlit("public");
    assert("this"@.len() != "public"@.len());
    reveal_strlit("private");
    assert("this"@.len() != "private"@.len());
    reveal_strlit("static");
    assert("this"@.len() != "static"@.len());
    reveal_strlit("sealed");
    assert("this"@.len() != "sealed"@.len());
    reveal_strlit("open");
    assert("this"@[0] != "open"@[0]);
    reveal_strlit("override");
    assert("this"@.len() != "override"@.len());
    reveal_strlit("extends");
    assert("this"@.len() != "extends"@.len());
    reveal_strlit("implements");
    assert("this"@.len() != "implements"@.len());
    reveal_strlit("initialize");
    assert("this"@.len() != "initialize"@.len());
    reveal_strlit("get");
    assert("this"@.len() != "get"@.len());
    reveal_strlit("set");
    assert("this"@.len() != "set"@.len());
    reveal_strlit("operator");
    assert("this"@.len() != "operator"@.len());
    reveal_strlit("convert");
    assert("this"@.len() != "convert"@.len());
    reveal_strlit("explicit");
    assert("this"@.len() != "explicit"@.len());
    reveal_strlit("to");
    assert("this"@.len() != "to"@.len());
    reveal_strlit("where");
    assert("this"@.len() != "where"@.len());
    reveal_strlit("from");
    assert("this"@[0] != "from"@[0]);
    reveal_strlit("ref");
    assert("this"@.len() != "ref"@.len());
    reveal_strlit("out");
    assert("this"@.len() != "out"@.len());
    reveal_strlit("is");
    assert("this"@.len() != "is"@.len());
    reveal_strlit("not");
    assert("this"@.len() != "not"@.len());
    reveal_strlit("and");
    assert("this"@.len() != "and"@.len());
    reveal_strlit("or");
    assert("this"@.len() != "or"@.len());
    reveal_strlit("true");
    assert("this"@[1] != "true"@[1]);
    reveal_strlit("false");
    assert("this"@.len() != "false"@.len());
    reveal_strlit("null");
    assert("this"@[0] != "null"@[0]);
}

/// The word `null` is a token of its own.
proof fn lemma_token_null()
    ensures
        token::word_token("null"@) == Token::Null,
{
    reveal_strlit("null");
    reveal_strlit("import");
    assert("null"@.len() != "import"@.len());
    reveal_strlit("const");
    assert("null"@.len() != "const"@.len());
    reveal_strlit("typedef");
    assert("null"@.len() != "typedef"@.len());
    reveal_strlit("distinct");
    assert("null"@.len() != "distinct"@.len());
    reveal_strlit("struct");
    assert("null"@.len() != "struct"@.len());
    reveal_strlit("class");
    assert("null"@.len() != "class"@.len());
    reveal_strlit("enum");
    assert("null"@[0] != "enum"@[0]);
    reveal_strlit("trait");
    assert("null"@.len() != "trait"@.len());
    reveal_strlit("extend");
    assert("null"@.len() != "extend"@.len());
    reveal_strlit("extern");
    assert("null"@.len() != "extern"@.len());
    reveal_strlit("init");
    assert("null"@[0] != "init"@[0]);
    reveal_strlit("has");
    assert("null"@.len() != "has"@.len());
    reveal_strlit("do");
    assert("null"@.len() != "do"@.len());
    reveal_strlit("end");
    assert("null"@.len() != "end"@.len());
    reveal_strlit("if");
    assert("null"@.len() != "if"@.len());
    reveal_strlit("else");
    assert("null"@[0] != "else"@[0]);
    reveal_strlit("while");
    assert("null"@.len() != "while"@.len());
    reveal_strlit("loop");
    assert("null"@[0] != "loop"@[0]);
    reveal_strlit("for");
    assert("null"@.len() != "for"@.len());
    reveal_strlit("in");
    assert("null"@.len() != "in"@.len());
    reveal_strlit("return");
    assert("null"@.len() != "return"@.len());
    reveal_strlit("break");
    assert("null"@.len() != "break"@.len());
    reveal_strlit("continue");
    assert("null"@.len() != "continue"@.len());
    reveal_strlit("defer");
    assert("null"@.len() != "defer"@.len());
    reveal_strlit("assert");
    assert("null"@.len() != "assert"@.len());
    reveal_strlit("debug_assert");
    assert("null"@.len() != "debug_assert"@.len());
    reveal_strlit("match");
    assert("null"@.len() != "match"@.len());
    reveal_strlit("public");
    assert("null"@.len() != "public"@.len());
    reveal_strlit("private");
    assert("null"@.len() != "private"@.len());
    reveal_strlit("static");
    assert("null"@.len() != "static"@.len());
    reveal_strlit("sealed");
    assert("null"@.len() != "sealed"@.len());
    reveal_strlit("open");
    assert("null"@[0] != "open"@[0]);
    reveal_strlit("override");
    assert("null"@.len() != "override"@.len());
    reveal_strlit("extends");
    assert("null"@.len() != "extends"@.len());
    reveal_strlit("implements");
    assert("null"@.len() != "implements"@.len());
    reveal_strlit("initialize");
    assert("null"@.len() != "initialize"@.len());
    reveal_strlit("get");
    assert("null"@.len() != "get"@.len());
    reveal_strlit("set");
    assert("null"@.len() != "set"@.len());
    reveal_strlit("operator");
    assert("null"@.len() != "operator"@.len());
    reveal_strlit("convert");
    assert("null"@.len() != "convert"@.len());
    reveal_strlit("explicit");
    assert("null"@.len() != "explicit"@.len());
    reveal_strlit("to");
    assert("null"@.len() != "to"@.len());
    reveal_strlit("where");
    assert("null"@.len() != "where"@.len());
    reveal_strlit("from");
    assert("null"@[0] != "from"@[0]);
    reveal_strlit("ref");
    assert("null"@.len() != "ref"@.len());
    reveal_strlit("out");
    assert("null"@.len() != "out"@.len());
    reveal_strlit("is");
    assert("null"@.len() != "is"@.len());
    reveal_strlit("not");
    assert("null"@.len() != "not"@.len());
    reveal_strlit("and");
    assert("null"@.len() != "and"@.len());
    reveal_strlit("or");
    assert("null"@.len() != "or"@.len());
    reveal_strlit("true");
    assert("null"@[0] != "true"@[0]);
    reveal_strlit("false");
    assert("null"@.len() != "false"@.len());
}

/// The tokens of a compound assignment of one character.
pub open spec fn assign_mark(op: BinOp) -> Token {
    match op {
        BinOp::Add => Token::PlusEq,
        BinOp::Sub => Token::MinusEq,
        BinOp::Mul => Token::StarEq,
        BinOp::Div => Token::SlashEq,
        BinOp::Mod => Token::PercentEq,
        BinOp::BitAnd => Token::AmpEq,
        BinOp::BitOr => Token::PipeEq,
        _ => Token::CaretEq,
    }
}

proof fn lemma_assign_scan(s: Seq<char>, i: int, b: Seq<bool>, op: BinOp)
    requires
        is_compound(op),
        mark(op) is Some,
        0 <= i,
        i + 2 < s.len(),
        s[i] == (mark(op)->0).0,
        s[i + 1] == '=',
        s[i + 2] == ' ',
    ensures
        lexer::scan(s, i, b) == (Piece::Tok(assign_mark(op)), i + 2, b),
{
}

proof fn lemma_shift_scan(s: Seq<char>, i: int, b: Seq<bool>)
    requires
        0 <= i,
        i + 2 < s.len(),
    ensures
        s[i] == '<' && s[i + 1] == '<' && s[i + 2] == '=' ==> lexer::scan(s, i, b) == (
            Piece::Tok(Token::ShlEq),
            i + 3,
            b,
        ),
        s[i] == '>' && s[i + 1] == '=' ==> lexer::scan(s, i, b) == (Piece::Tok(Token::Ge), i + 2, b),
{
}

/// A compound assignment with a space after it is read as its tokens.
proof fn lemma_lex_compound(s: Seq<char>, i: int, op: BinOp, b: Seq<bool>, done: Lexed) -> (more: Lexed)
    requires
        is_compound(op),
        is_at(s, i, compact::bin_op_text(op) + "= "@),
        text::byte_len(s) <= usize::MAX,
    ensures
        reads(s, i, i + compact::bin_op_text(op).len() + 1, b, done, more),
        more.tokens.len() == done.tokens.len() + op_count(op),
        assign_stands(Input { toks: more.tokens, src: s }, done.tokens.len() as int, op),
{
    let t = compact::bin_op_text(op);
    let k = i + t.len();
    reveal_strlit("= ");
    lemma_split(s, i, t, "= "@);
    lemma_char(s, k, "= "@, 0);
    lemma_char(s, k, "= "@, 1);
    let n = done.tokens.len() as int;
    if mark(op) is Some {
        lemma_mark_text(op);
        lemma_char(s, i, t, 0);
        lemma_assign_scan(s, i, b, op);
        lemma_one(s, i, k + 1, assign_mark(op), b, done)
    } else if op == BinOp::Shl {
        lemma_pair_text(op);
        lemma_char(s, i, t, 0);
        lemma_char(s, i, t, 1);
        lemma_shift_scan(s, i, b);
        lemma_one(s, i, k + 1, Token::ShlEq, b, done)
    } else {
        reveal_strlit(">>");
        lemma_char(s, i, t, 0);
        lemma_char(s, i, t, 1);
        lemma_greater_scan(s, i, b);
        lemma_shift_scan(s, i + 1, b);
        let one = lemma_one(s, i, i + 1, Token::Gt, b, done);
        let more = lemma_one(s, i + 1, i + 3, Token::Ge, b, one);
        lemma_reads_on(s, i, i + 1, k + 1, b, done, one, more);
        assert(more.tokens[n] == one.tokens[n]);
        more
    }
}

/// A sign with a space after it, a point before a word, and brackets are read as their tokens.
proof fn lemma_sign_scan(s: Seq<char>, i: int, b: Seq<bool>)
    requires
        0 <= i < s.len(),
    ensures
        s[i] == '=' && lexer::peek(s, i + 1) == ' ' ==> lexer::scan(s, i, b) == (Piece::Tok(Token::Eq), i + 1, b),
        s[i] == '?' && lexer::peek(s, i + 1) == ' ' ==> lexer::scan(s, i, b) == (
            Piece::Tok(Token::Question),
            i + 1,
            b,
        ),
        s[i] == ':' && lexer::peek(s, i + 1) == ' ' ==> lexer::scan(s, i, b) == (Piece::Tok(Token::Colon), i + 1, b),
        s[i] == '.' && lexer::starts_word(lexer::peek(s, i + 1)) ==> lexer::scan(s, i, b) == (
            Piece::Tok(Token::Dot),
            i + 1,
            b,
        ),
        s[i] == '[' ==> lexer::scan(s, i, b) == (Piece::Tok(Token::LBracket), i + 1, b),
        s[i] == ']' ==> lexer::scan(s, i, b) == (Piece::Tok(Token::RBracket), i + 1, b),
        s[i] == '+' && lexer::peek(s, i + 1) == '+' ==> lexer::scan(s, i, b) == (
            Piece::Tok(Token::PlusPlus),
            i + 2,
            b,
        ),
        s[i] == '-' && lexer::peek(s, i + 1) == '-' ==> lexer::scan(s, i, b) == (
            Piece::Tok(Token::MinusMinus),
            i + 2,
            b,
        ),
{
}

/// A prefix operator is read as its token, where no sign follows a sign.
proof fn lemma_lex_prefix(s: Seq<char>, i: int, op: UnaryOp, b: Seq<bool>, done: Lexed) -> (more: Lexed)
    requires
        is_at(s, i, compact::prefix_text(op)),
        compact::is_sign(op) ==> {
            let c = lexer::peek(s, i + compact::prefix_text(op).len());
            c == ' ' || c == '(' || c == '~' || lexer::is_digit(c) || lexer::starts_word(c)
        },
        text::byte_len(s) <= usize::MAX,
    ensures
        reads(s, i, i + compact::prefix_text(op).len(), b, done, more),
        more.tokens.len() == done.tokens.len() + 1,
        is_prefix_token(more.tokens.last().token, op),
{
    let t = compact::prefix_text(op);
    let k = i + t.len();
    match op {
        UnaryOp::Neg => {
            reveal_strlit("-");
            lemma_char(s, i, t, 0);
            lemma_one(s, i, k, Token::Minus, b, done)
        },
        UnaryOp::Pos => {
            reveal_strlit("+");
            lemma_char(s, i, t, 0);
            lemma_one(s, i, k, Token::Plus, b, done)
        },
        UnaryOp::BitNot => {
            reveal_strlit("~");
            lemma_char(s, i, t, 0);
            lemma_one(s, i, k, Token::Tilde, b, done)
        },
        UnaryOp::Inc => {
            reveal_strlit("++");
            lemma_char(s, i, t, 0);
            lemma_char(s, i, t, 1);
            lemma_one(s, i, k, Token::PlusPlus, b, done)
        },
        UnaryOp::Dec => {
            reveal_strlit("--");
            lemma_char(s, i, t, 0);
            lemma_char(s, i, t, 1);
            lemma_one(s, i, k, Token::MinusMinus, b, done)
        },
        UnaryOp::Not => {
            reveal_strlit("not ");
            reveal_strlit("not");
            reveal_strlit(" ");
            assert("not "@ =~= "not"@ + " "@);
            lemma_split(s, i, "not"@, " "@);
            lemma_char(s, i + 3, " "@, 0);
            lemma_token_not();
            let more = lemma_word(s, i, "not"@, b, done);
            lemma_blank(s, i + 3, b, more);
            lemma_reads_on(s, i, i + 3, k, b, done, more, more);
            more
        },
    }
}

/// What an expression that is no operator's result starts with.
proof fn lemma_first(cx: Context, ind: nat, e: tree::Expr)
    requires
        is_bracketed(e),
        tightness(e) >= 12,
    ensures
        compact::expr_text(cx, ind, e).len() > 0,
        tightness(e) == 13 || !compact::is_sign(e.kind->Unary_0) ==> {
            let c = compact::expr_text(cx, ind, e)[0];
            c == '(' || c == '~' || lexer::is_digit(c) || lexer::starts_word(c)
        },
    decreases e,
{
    match e.kind {
        tree::ExprKind::This => reveal_strlit("this"),
        tree::ExprKind::Null => reveal_strlit("null"),
        tree::ExprKind::Postfix(_, y) => {
            lemma_first(cx, ind, *y);
            assert(compact::expr_text(cx, ind, e)[0] == compact::expr_text(cx, ind, *y)[0]);
        },
        tree::ExprKind::Member(y, _) => {
            lemma_first(cx, ind, *y);
            assert(compact::expr_text(cx, ind, e)[0] == compact::expr_text(cx, ind, *y)[0]);
        },
        tree::ExprKind::Index(y, _) => {
            lemma_first(cx, ind, *y);
            assert(compact::expr_text(cx, ind, e)[0] == compact::expr_text(cx, ind, *y)[0]);
        },
        tree::ExprKind::IntLit(n) => laws::lemma_decimal(n as nat),
        tree::ExprKind::BoolLit(_) => {
            reveal_strlit("true");
            reveal_strlit("false");
        },
        tree::ExprKind::Paren(_) => reveal_strlit("("),
        tree::ExprKind::Unary(_, _) => {
            reveal_strlit("-");
            reveal_strlit("+");
            reveal_strlit("~");
            reveal_strlit("++");
            reveal_strlit("--");
            reveal_strlit("not ");
        },
        _ => {},
    }
}

/// The text of brackets is read as its tokens.
proof fn lemma_lex_brackets(cx: Context, ind: nat, s: Seq<char>, p: int, b: Seq<bool>, e: tree::Expr, done: Lexed) -> (more:
    Lexed)
    requires
        e.kind is Paren,
        is_bracketed(e),
        is_at(s, p, compact::expr_text(cx, ind, e)),
        may_follow(e, lexer::peek(s, p + compact::expr_text(cx, ind, e).len())),
        text::byte_len(s) <= usize::MAX,
    ensures
        reads(s, p, p + compact::expr_text(cx, ind, e).len(), b, done, more),
        more.tokens.len() == done.tokens.len() + count(e),
        stands(Input { toks: more.tokens, src: s }, done.tokens.len() as int, e),
    decreases e, 0int,
{
    let t = compact::expr_text(cx, ind, e);
    let q = p + t.len();
    let n = done.tokens.len() as int;
    match e.kind {
        tree::ExprKind::Paren(x) => {
            let u = compact::expr_text(cx, ind, *x);
            reveal_strlit("(");
            reveal_strlit(")");
            assert(t =~= "("@ + (u + ")"@));
            lemma_split(s, p, "("@, u + ")"@);
            lemma_split(s, p + 1, u, ")"@);
            lemma_char(s, p, "("@, 0);
            lemma_char(s, p + 1 + u.len(), ")"@, 0);
            let one = lemma_one(s, p, p + 1, Token::LParen, b, done);
            let two = lemma_lex_expr(cx, ind, s, p + 1, b, *x, one);
            let more = lemma_one(s, q - 1, q, Token::RParen, b, two);
            lemma_reads_on(s, p, p + 1, q - 1, b, done, one, two);
            lemma_reads_on(s, p, q - 1, q, b, done, two, more);
            lemma_count(*x);
            lemma_stands_on(s, two.tokens, more.tokens, n + 1, *x);
            assert(more.tokens[n] == two.tokens[n]);
            assert(two.tokens[n] == one.tokens[n]);
            more
        },
        _ => done,
    }
}

/// The text of a prefix operator is read as its tokens.
proof fn lemma_lex_unary(cx: Context, ind: nat, s: Seq<char>, p: int, b: Seq<bool>, e: tree::Expr, done: Lexed) -> (more:
    Lexed)
    requires
        e.kind is Unary,
        is_bracketed(e),
        is_at(s, p, compact::expr_text(cx, ind, e)),
        may_follow(e, lexer::peek(s, p + compact::expr_text(cx, ind, e).len())),
        text::byte_len(s) <= usize::MAX,
    ensures
        reads(s, p, p + compact::expr_text(cx, ind, e).len(), b, done, more),
        more.tokens.len() == done.tokens.len() + count(e),
        stands(Input { toks: more.tokens, src: s }, done.tokens.len() as int, e),
    decreases e, 0int,
{
    let t = compact::expr_text(cx, ind, e);
    let q = p + t.len();
    let n = done.tokens.len() as int;
    match e.kind {
        tree::ExprKind::Unary(op, x) => {
            let u = compact::expr_text(cx, ind, *x);
            let o = compact::prefix_text(op);
            let g = compact::sign_gap(op, *x);
            assert(t =~= o + (g + u));
            lemma_split(s, p, o, g + u);
            lemma_split(s, p + o.len(), g, u);
            lemma_first(cx, ind, *x);
            reveal_strlit(" ");
            reveal_strlit("");
            let m = p + o.len() + g.len();
            lemma_char(s, m, u, 0);
            if g.len() > 0 {
                lemma_char(s, p + o.len(), g, 0);
            }
            let one = lemma_lex_prefix(s, p, op, b, done);
            if g.len() > 0 {
                lemma_blank(s, p + o.len(), b, one);
                lemma_reads_on(s, p, p + o.len(), m, b, done, one, one);
            }
            let more = lemma_lex_expr(cx, ind, s, m, b, *x, one);
            lemma_reads_on(s, p, m, q, b, done, one, more);
            assert(more.tokens[n] == one.tokens[n]);
            more
        },
        _ => done,
    }
}

/// The text of a binary operator is read as its tokens.
proof fn lemma_lex_binary(cx: Context, ind: nat, s: Seq<char>, p: int, b: Seq<bool>, e: tree::Expr, done: Lexed) -> (more:
    Lexed)
    requires
        e.kind is Binary,
        is_bracketed(e),
        is_at(s, p, compact::expr_text(cx, ind, e)),
        may_follow(e, lexer::peek(s, p + compact::expr_text(cx, ind, e).len())),
        text::byte_len(s) <= usize::MAX,
    ensures
        reads(s, p, p + compact::expr_text(cx, ind, e).len(), b, done, more),
        more.tokens.len() == done.tokens.len() + count(e),
        stands(Input { toks: more.tokens, src: s }, done.tokens.len() as int, e),
    decreases e, 0int,
{
    let t = compact::expr_text(cx, ind, e);
    let q = p + t.len();
    let n = done.tokens.len() as int;
    match e.kind {
        tree::ExprKind::Binary(op, l, r) => {
            let u = compact::expr_text(cx, ind, *l);
            let v = compact::expr_text(cx, ind, *r);
            let o = compact::bin_op_text(op);
            reveal_strlit(" ");
            assert(t =~= u + (" "@ + ((o + " "@) + v)));
            lemma_split(s, p, u, " "@ + ((o + " "@) + v));
            let i = p + u.len();
            lemma_split(s, i, " "@, (o + " "@) + v);
            lemma_split(s, i + 1, o + " "@, v);
            lemma_split(s, i + 1, o, " "@);
            lemma_char(s, i, " "@, 0);
            lemma_char(s, i + 1 + o.len(), " "@, 0);
            let one = lemma_lex_expr(cx, ind, s, p, b, *l, done);
            lemma_blank(s, i, b, one);
            let two = lemma_lex_op(s, i + 1, op, b, one);
            lemma_blank(s, i + 1 + o.len(), b, two);
            let more = lemma_lex_expr(cx, ind, s, i + 2 + o.len(), b, *r, two);
            lemma_count(*l);
            lemma_count(*r);
            lemma_reads_on(s, p, i, i + 1, b, done, one, one);
            lemma_reads_on(s, i + 1, i + 1 + o.len(), i + 2 + o.len(), b, one, two, two);
            lemma_reads_on(s, i + 1, i + 2 + o.len(), q, b, one, two, more);
            lemma_reads_on(s, p, i + 1, q, b, done, one, more);
            lemma_stands_on(s, one.tokens, more.tokens, n, *l);
            let j = n + count(*l);
            assert(more.tokens[j] == two.tokens[j]);
            if op_count(op) == 2 {
                assert(more.tokens[j + 1] == two.tokens[j + 1]);
            }
            more
        },
        _ => done,
    }
}

/// The text of a step is read as its tokens.
proof fn lemma_lex_step(cx: Context, ind: nat, s: Seq<char>, p: int, b: Seq<bool>, e: tree::Expr, done: Lexed) -> (more:
    Lexed)
    requires
        e.kind is Postfix,
        is_bracketed(e),
        is_at(s, p, compact::expr_text(cx, ind, e)),
        may_follow(e, lexer::peek(s, p + compact::expr_text(cx, ind, e).len())),
        text::byte_len(s) <= usize::MAX,
    ensures
        reads(s, p, p + compact::expr_text(cx, ind, e).len(), b, done, more),
        more.tokens.len() == done.tokens.len() + count(e),
        stands(Input { toks: more.tokens, src: s }, done.tokens.len() as int, e),
    decreases e, 0int,
{
    let t = compact::expr_text(cx, ind, e);
    let q = p + t.len();
    let n = done.tokens.len() as int;
    match e.kind {
        tree::ExprKind::Postfix(op, x) => {
            let u = compact::expr_text(cx, ind, *x);
            let o = compact::postfix_text(op);
            reveal_strlit("++");
            reveal_strlit("--");
            lemma_split(s, p, u, o);
            let i = p + u.len();
            lemma_char(s, i, o, 0);
            lemma_char(s, i, o, 1);
            lemma_sign_scan(s, i, b);
            let one = lemma_lex_expr(cx, ind, s, p, b, *x, done);
            let more = lemma_one(
                s,
                i,
                q,
                if op == UnaryOp::Inc {
                    Token::PlusPlus
                } else {
                    Token::MinusMinus
                },
                b,
                one,
            );
            lemma_reads_on(s, p, i, q, b, done, one, more);
            lemma_count(*x);
            lemma_stands_on(s, one.tokens, more.tokens, n, *x);
            more
        },
        _ => done,
    }
}

/// The text of a member is read as its tokens.
proof fn lemma_lex_member(cx: Context, ind: nat, s: Seq<char>, p: int, b: Seq<bool>, e: tree::Expr, done: Lexed) -> (more:
    Lexed)
    requires
        e.kind is Member,
        is_bracketed(e),
        is_at(s, p, compact::expr_text(cx, ind, e)),
        may_follow(e, lexer::peek(s, p + compact::expr_text(cx, ind, e).len())),
        text::byte_len(s) <= usize::MAX,
    ensures
        reads(s, p, p + compact::expr_text(cx, ind, e).len(), b, done, more),
        more.tokens.len() == done.tokens.len() + count(e),
        stands(Input { toks: more.tokens, src: s }, done.tokens.len() as int, e),
    decreases e, 0int,
{
    let t = compact::expr_text(cx, ind, e);
    let q = p + t.len();
    let n = done.tokens.len() as int;
    match e.kind {
        tree::ExprKind::Member(x, f) => {
            let u = compact::expr_text(cx, ind, *x);
            reveal_strlit(".");
            assert(t =~= u + ("."@ + f));
            lemma_split(s, p, u, "."@ + f);
            let i = p + u.len();
            lemma_split(s, i, "."@, f);
            lemma_char(s, i, "."@, 0);
            lemma_char(s, i + 1, f, 0);
            lemma_sign_scan(s, i, b);
            let one = lemma_lex_expr(cx, ind, s, p, b, *x, done);
            let two = lemma_one(s, i, i + 1, Token::Dot, b, one);
            let more = lemma_word(s, i + 1, f, b, two);
            lemma_reads_on(s, i, i + 1, q, b, one, two, more);
            lemma_reads_on(s, p, i, q, b, done, one, more);
            lemma_count(*x);
            lemma_stands_on(s, one.tokens, more.tokens, n, *x);
            let j = n + count(*x);
            assert(more.tokens[j] == two.tokens[j]);
            more
        },
        _ => done,
    }
}

/// The text of an element is read as its tokens.
proof fn lemma_lex_element(cx: Context, ind: nat, s: Seq<char>, p: int, b: Seq<bool>, e: tree::Expr, done: Lexed) -> (more:
    Lexed)
    requires
        e.kind is Index,
        is_bracketed(e),
        is_at(s, p, compact::expr_text(cx, ind, e)),
        may_follow(e, lexer::peek(s, p + compact::expr_text(cx, ind, e).len())),
        text::byte_len(s) <= usize::MAX,
    ensures
        reads(s, p, p + compact::expr_text(cx, ind, e).len(), b, done, more),
        more.tokens.len() == done.tokens.len() + count(e),
        stands(Input { toks: more.tokens, src: s }, done.tokens.len() as int, e),
    decreases e, 0int,
{
    let t = compact::expr_text(cx, ind, e);
    let q = p + t.len();
    let n = done.tokens.len() as int;
    match e.kind {
        tree::ExprKind::Index(x, y) => {
            let u = compact::expr_text(cx, ind, *x);
            let v = compact::expr_text(cx, ind, *y);
            reveal_strlit("[");
            reveal_strlit("]");
            assert(t =~= u + ("["@ + (v + "]"@)));
            lemma_split(s, p, u, "["@ + (v + "]"@));
            let i = p + u.len();
            lemma_split(s, i, "["@, v + "]"@);
            lemma_split(s, i + 1, v, "]"@);
            lemma_char(s, i, "["@, 0);
            lemma_char(s, q - 1, "]"@, 0);
            lemma_sign_scan(s, i, b);
            lemma_sign_scan(s, q - 1, b);
            let one = lemma_lex_expr(cx, ind, s, p, b, *x, done);
            let two = lemma_one(s, i, i + 1, Token::LBracket, b, one);
            let three = lemma_lex_expr(cx, ind, s, i + 1, b, *y, two);
            let more = lemma_one(s, q - 1, q, Token::RBracket, b, three);
            lemma_reads_on(s, i + 1, q - 1, q, b, two, three, more);
            lemma_reads_on(s, i, i + 1, q, b, one, two, more);
            lemma_reads_on(s, p, i, q, b, done, one, more);
            lemma_count(*x);
            lemma_count(*y);
            lemma_stands_on(s, one.tokens, more.tokens, n, *x);
            lemma_stands_on(s, three.tokens, more.tokens, n + count(*x) + 1, *y);
            let j = n + count(*x);
            assert(more.tokens[j] == two.tokens[j]);
            more
        },
        _ => done,
    }
}

/// The text of a choice is read as its tokens.
proof fn lemma_lex_choice(cx: Context, ind: nat, s: Seq<char>, p: int, b: Seq<bool>, e: tree::Expr, done: Lexed) -> (more:
    Lexed)
    requires
        e.kind is Conditional,
        is_bracketed(e),
        is_at(s, p, compact::expr_text(cx, ind, e)),
        may_follow(e, lexer::peek(s, p + compact::expr_text(cx, ind, e).len())),
        text::byte_len(s) <= usize::MAX,
    ensures
        reads(s, p, p + compact::expr_text(cx, ind, e).len(), b, done, more),
        more.tokens.len() == done.tokens.len() + count(e),
        stands(Input { toks: more.tokens, src: s }, done.tokens.len() as int, e),
    decreases e, 0int,
{
    let t = compact::expr_text(cx, ind, e);
    let q = p + t.len();
    let n = done.tokens.len() as int;
    match e.kind {
        tree::ExprKind::Conditional(c, x, y) => {
            let w = compact::expr_text(cx, ind, *c);
            let u = compact::expr_text(cx, ind, *x);
            let v = compact::expr_text(cx, ind, *y);
            reveal_strlit(" ? ");
            reveal_strlit(" : ");
            assert(t =~= w + (" ? "@ + (u + (" : "@ + v))));
            lemma_split(s, p, w, " ? "@ + (u + (" : "@ + v)));
            let i = p + w.len();
            lemma_split(s, i, " ? "@, u + (" : "@ + v));
            lemma_split(s, i + 3, u, " : "@ + v);
            let m = i + 3 + u.len();
            lemma_split(s, m, " : "@, v);
            let one = lemma_lex_between(s, i, " ? "@, Token::Question, cx, ind, p, b, *c, done);
            let two = lemma_lex_between(s, m, " : "@, Token::Colon, cx, ind, i + 3, b, *x, one);
            let more = lemma_lex_expr(cx, ind, s, m + 3, b, *y, two);
            lemma_reads_on(s, i + 3, m + 3, q, b, one, two, more);
            lemma_reads_on(s, p, i + 3, q, b, done, one, more);
            lemma_count(*c);
            lemma_count(*x);
            lemma_count(*y);
            lemma_stands_on(s, one.tokens, more.tokens, n, *c);
            lemma_stands_on(s, two.tokens, more.tokens, n + count(*c) + 1, *x);
            let j = n + count(*c);
            assert(more.tokens[j] == one.tokens[j]);
            assert(more.tokens[j + 1 + count(*x)] == two.tokens[j + 1 + count(*x)]);
            more
        },
        _ => done,
    }
}

/// The text of an assignment is read as its tokens.
proof fn lemma_lex_assignment(cx: Context, ind: nat, s: Seq<char>, p: int, b: Seq<bool>, e: tree::Expr, done: Lexed) -> (more:
    Lexed)
    requires
        e.kind is Assign,
        is_bracketed(e),
        is_at(s, p, compact::expr_text(cx, ind, e)),
        may_follow(e, lexer::peek(s, p + compact::expr_text(cx, ind, e).len())),
        text::byte_len(s) <= usize::MAX,
    ensures
        reads(s, p, p + compact::expr_text(cx, ind, e).len(), b, done, more),
        more.tokens.len() == done.tokens.len() + count(e),
        stands(Input { toks: more.tokens, src: s }, done.tokens.len() as int, e),
    decreases e, 0int,
{
    let t = compact::expr_text(cx, ind, e);
    let q = p + t.len();
    let n = done.tokens.len() as int;
    match e.kind {
        tree::ExprKind::Assign(x, y) => {
            let u = compact::expr_text(cx, ind, *x);
            let v = compact::expr_text(cx, ind, *y);
            reveal_strlit(" = ");
            assert(t =~= u + (" = "@ + v));
            lemma_split(s, p, u, " = "@ + v);
            let i = p + u.len();
            lemma_split(s, i, " = "@, v);
            let one = lemma_lex_between(s, i, " = "@, Token::Eq, cx, ind, p, b, *x, done);
            let more = lemma_lex_expr(cx, ind, s, i + 3, b, *y, one);
            lemma_reads_on(s, p, i + 3, q, b, done, one, more);
            lemma_count(*x);
            lemma_count(*y);
            lemma_stands_on(s, one.tokens, more.tokens, n, *x);
            let j = n + count(*x);
            assert(more.tokens[j] == one.tokens[j]);
            more
        },
        _ => done,
    }
}

/// The text of a compound assignment is read as its tokens.
proof fn lemma_lex_compound_assignment(cx: Context, ind: nat, s: Seq<char>, p: int, b: Seq<bool>, e: tree::Expr, done: Lexed) -> (more:
    Lexed)
    requires
        e.kind is CompoundAssign,
        is_bracketed(e),
        is_at(s, p, compact::expr_text(cx, ind, e)),
        may_follow(e, lexer::peek(s, p + compact::expr_text(cx, ind, e).len())),
        text::byte_len(s) <= usize::MAX,
    ensures
        reads(s, p, p + compact::expr_text(cx, ind, e).len(), b, done, more),
        more.tokens.len() == done.tokens.len() + count(e),
        stands(Input { toks: more.tokens, src: s }, done.tokens.len() as int, e),
    decreases e, 0int,
{
    let t = compact::expr_text(cx, ind, e);
    let q = p + t.len();
    let n = done.tokens.len() as int;
    match e.kind {
        tree::ExprKind::CompoundAssign(op, l, r) => {
            let u = compact::expr_text(cx, ind, *l);
            let v = compact::expr_text(cx, ind, *r);
            let o = compact::bin_op_text(op);
            reveal_strlit(" ");
            reveal_strlit("= ");
            assert(t =~= u + (" "@ + ((o + "= "@) + v)));
            lemma_split(s, p, u, " "@ + ((o + "= "@) + v));
            let i = p + u.len();
            lemma_split(s, i, " "@, (o + "= "@) + v);
            lemma_split(s, i + 1, o + "= "@, v);
            lemma_split(s, i + 1, o, "= "@);
            lemma_char(s, i, " "@, 0);
            lemma_char(s, i + 1 + o.len(), "= "@, 1);
            let one = lemma_lex_expr(cx, ind, s, p, b, *l, done);
            lemma_blank(s, i, b, one);
            let two = lemma_lex_compound(s, i + 1, op, b, one);
            lemma_blank(s, i + 2 + o.len(), b, two);
            let more = lemma_lex_expr(cx, ind, s, i + 3 + o.len(), b, *r, two);
            lemma_count(*l);
            lemma_count(*r);
            lemma_reads_on(s, p, i, i + 1, b, done, one, one);
            lemma_reads_on(s, i + 1, i + 2 + o.len(), i + 3 + o.len(), b, one, two, two);
            lemma_reads_on(s, i + 1, i + 3 + o.len(), q, b, one, two, more);
            lemma_reads_on(s, p, i + 1, q, b, done, one, more);
            lemma_stands_on(s, one.tokens, more.tokens, n, *l);
            let j = n + count(*l);
            assert(more.tokens[j] == two.tokens[j]);
            if op_count(op) == 2 {
                assert(more.tokens[j + 1] == two.tokens[j + 1]);
            }
            more
        },
        _ => done,
    }
}

/// The text of an expression is read as its tokens.
proof fn lemma_lex_expr(cx: Context, ind: nat, s: Seq<char>, p: int, b: Seq<bool>, e: tree::Expr, done: Lexed) -> (more:
    Lexed)
    requires
        is_bracketed(e),
        is_at(s, p, compact::expr_text(cx, ind, e)),
        may_follow(e, lexer::peek(s, p + compact::expr_text(cx, ind, e).len())),
        text::byte_len(s) <= usize::MAX,
    ensures
        reads(s, p, p + compact::expr_text(cx, ind, e).len(), b, done, more),
        more.tokens.len() == done.tokens.len() + count(e),
        stands(Input { toks: more.tokens, src: s }, done.tokens.len() as int, e),
    decreases e, 1int,
{
    let t = compact::expr_text(cx, ind, e);
    let q = p + t.len();
    match e.kind {
        tree::ExprKind::IntLit(v) => {
            laws::lemma_decimal(v as nat);
            assert forall|j: int| p <= j < q implies lexer::is_digit(#[trigger] s[j]) by {
                lemma_char(s, p, t, j - p);
                assert(lexer::is_digit(t[j - p]));
            }
            laws::lemma_digits_stop(s, p, q);
            lemma_one(s, p, q, Token::IntLit, b, done)
        },
        tree::ExprKind::BoolLit(v) => {
            reveal_strlit("true");
            reveal_strlit("false");
            lemma_token_true();
            lemma_token_false();
            lemma_word(s, p, t, b, done)
        },
        tree::ExprKind::Ident(w) => {
            lemma_word(s, p, w, b, done)
        },
        tree::ExprKind::Paren(_) => lemma_lex_brackets(cx, ind, s, p, b, e, done),
        tree::ExprKind::Unary(_, _) => lemma_lex_unary(cx, ind, s, p, b, e, done),
        tree::ExprKind::Binary(_, _, _) => lemma_lex_binary(cx, ind, s, p, b, e, done),
        tree::ExprKind::This => {
            reveal_strlit("this");
            lemma_token_this();
            lemma_word(s, p, t, b, done)
        },
        tree::ExprKind::Null => {
            reveal_strlit("null");
            lemma_token_null();
            lemma_word(s, p, t, b, done)
        },
        tree::ExprKind::Postfix(_, _) => lemma_lex_step(cx, ind, s, p, b, e, done),
        tree::ExprKind::Member(_, _) => lemma_lex_member(cx, ind, s, p, b, e, done),
        tree::ExprKind::Index(_, _) => lemma_lex_element(cx, ind, s, p, b, e, done),
        tree::ExprKind::Conditional(_, _, _) => lemma_lex_choice(cx, ind, s, p, b, e, done),
        tree::ExprKind::Assign(_, _) => lemma_lex_assignment(cx, ind, s, p, b, e, done),
        tree::ExprKind::CompoundAssign(_, _, _) => lemma_lex_compound_assignment(cx, ind, s, p, b, e, done),
        _ => done,
    }
}

/// An expression and a sign between spaces after it are read.
proof fn lemma_lex_between(
    s: Seq<char>,
    i: int,
    sign: Seq<char>,
    t: Token,
    cx: Context,
    ind: nat,
    p: int,
    b: Seq<bool>,
    e: tree::Expr,
    done: Lexed,
) -> (more: Lexed)
    requires
        is_bracketed(e),
        is_at(s, p, compact::expr_text(cx, ind, e)),
        i == p + compact::expr_text(cx, ind, e).len(),
        is_at(s, i, sign),
        sign.len() == 3,
        sign[0] == ' ',
        sign[2] == ' ',
        sign[1] == '=' && t == Token::Eq || sign[1] == '?' && t == Token::Question || sign[1] == ':' && t
            == Token::Colon,
        text::byte_len(s) <= usize::MAX,
    ensures
        reads(s, p, i + 3, b, done, more),
        more.tokens.len() == done.tokens.len() + count(e) + 1,
        more.tokens.last().token == t,
        stands(Input { toks: more.tokens, src: s }, done.tokens.len() as int, e),
    decreases e, 2int,
{
    lemma_char(s, i, sign, 0);
    lemma_char(s, i, sign, 1);
    lemma_char(s, i, sign, 2);
    let one = lemma_lex_expr(cx, ind, s, p, b, e, done);
    lemma_blank(s, i, b, one);
    lemma_sign_scan(s, i + 1, b);
    let more = lemma_one(s, i + 1, i + 2, t, b, one);
    lemma_blank(s, i + 2, b, more);
    lemma_reads_on(s, p, i, i + 1, b, done, one, one);
    lemma_reads_on(s, p, i + 1, i + 2, b, done, one, more);
    lemma_reads_on(s, p, i + 2, i + 3, b, done, more, more);
    lemma_count(e);
    lemma_stands_on(s, one.tokens, more.tokens, done.tokens.len() as int, e);
    more
}

proof fn lemma_goes(a: Lexed, b: Lexed, c: Lexed)
    requires
        settle_imports::goes_on(a, b),
        settle_imports::goes_on(b, c),
    ensures
        settle_imports::goes_on(a, c),
{
    assert forall|j: int| 0 <= j < a.tokens.len() implies #[trigger] c.tokens[j] == a.tokens[j] by {
        assert(b.tokens[j] == a.tokens[j]);
    }
}


// ── Parsing the tokens ──────────────────────────────────────────────────────

/// Whether a token ends an expression, but for the operators.
pub open spec fn is_end(t: Token) -> bool {
    t != Token::Dot && t != Token::NullDot && t != Token::LBracket && t != Token::PlusPlus && t != Token::MinusMinus && t
        != Token::LParen && t != Token::Has && t != Token::DotDot && t != Token::DotDotEq
}

/// Whether an expression ends at `j`, at which no operator of level `l` or a tighter one stands.
pub open spec fn is_over(x: Input, j: int, l: int, e: tree::Expr) -> bool {
    &&& is_end(input::tk(x, j))
    &&& ends_named(e) ==> input::tk(x, j) != Token::Lt
    &&& match input::op_info(x, j) {
        Some(o) => o.1 < l,
        None => true,
    }
}

/// The larger of two heights.
pub open spec fn taller(a: nat, b: nat) -> nat {
    if a > b {
        a
    } else {
        b
    }
}

/// How deeply the brackets and right operands of an expression are nested.
pub open spec fn height(e: tree::Expr) -> nat
    decreases e,
{
    match e.kind {
        tree::ExprKind::Paren(x) => height(*x) + 1,
        tree::ExprKind::Unary(_, x) => height(*x),
        tree::ExprKind::Binary(_, x, y) => taller(height(*x), height(*y) + 1),
        tree::ExprKind::Postfix(_, x) => height(*x),
        tree::ExprKind::Member(x, _) => height(*x),
        tree::ExprKind::Index(x, y) => taller(height(*x), height(*y) + 1),
        tree::ExprKind::Conditional(c, x, y) => taller(height(*c), taller(height(*x), height(*y)) + 1),
        tree::ExprKind::Assign(x, y) => taller(height(*x), height(*y) + 1),
        tree::ExprKind::CompoundAssign(_, x, y) => taller(height(*x), height(*y) + 1),
        _ => 0,
    }
}

/// What the first token of an expression is.
pub open spec fn is_start(t: Token) -> bool {
    t == Token::IntLit || t == Token::True || t == Token::False || input::is_name(t) || t == Token::LParen || t
        == Token::Minus || t == Token::Not || t == Token::Plus || t == Token::Tilde || t == Token::PlusPlus || t
        == Token::MinusMinus || t == Token::This || t == Token::Null
}

proof fn lemma_start(x: Input, k: int, e: tree::Expr)
    requires
        stands(x, k, e),
        is_bracketed(e),
    ensures
        is_start(input::tk(x, k)),
        !starts_not(e) ==> input::tk(x, k) != Token::Not,
    decreases e,
{
    match e.kind {
        tree::ExprKind::Binary(_, a, _) => lemma_start(x, k, *a),
        tree::ExprKind::Postfix(_, a) => lemma_start(x, k, *a),
        tree::ExprKind::Member(a, _) => lemma_start(x, k, *a),
        tree::ExprKind::Index(a, _) => lemma_start(x, k, *a),
        tree::ExprKind::Conditional(a, _, _) => lemma_start(x, k, *a),
        tree::ExprKind::Assign(a, _) => lemma_start(x, k, *a),
        tree::ExprKind::CompoundAssign(_, a, _) => lemma_start(x, k, *a),
        _ => {},
    }
}

/// The operator at the tokens of an operator is that operator.
proof fn lemma_op_info(x: Input, k: int, op: BinOp, e: tree::Expr)
    requires
        op_stands(x, k, op),
        stands(x, k + op_count(op), e),
        is_bracketed(e),
        op == BinOp::Is ==> !starts_not(e),
    ensures
        input::op_info(x, k) == Some((op, level(op), op_count(op))),
        input::after_op(x, k) == k + op_count(op),
        input::op_at(x, k) == op,
        is_end(input::tk(x, k)),
        input::tk(x, k) == Token::Lt ==> op == BinOp::Lt,
{
    reveal(input::op_info);
    lemma_start(x, k + op_count(op), e);
}

proof fn lemma_primary(d: nat, x: Input, k: int, e: tree::Expr) -> (r: tree::Expr)
    requires
        stands(x, k, e),
        is_bracketed(e),
        tightness(e) == 13,
        !(e.kind is Postfix) && !(e.kind is Member) && !(e.kind is Index),
        d >= height(e),
        input::tk(x, k + count(e)) != Token::LParen,
        input::tk(x, k + count(e)) != Token::Has,
        ends_named(e) ==> input::tk(x, k + count(e)) != Token::Lt,
    ensures
        grammar_exprs::primary(rules::rules(d), x, k) == Ok::<(tree::Expr, int), int>((r, k + count(e))),
        is_same(r, e),
    decreases e, 0int,
{
    reveal(grammar_exprs::primary);
    reveal(input::simple_token);
    reveal(input::simple);
    reveal(input::int_at);
    reveal(input::named);
    lemma_count(e);
    match e.kind {
        tree::ExprKind::IntLit(n) => {
            tree::Expr { kind: tree::ExprKind::IntLit(n), span: input::span_of(x, k, k + 1) }
        },
        tree::ExprKind::BoolLit(n) => {
            tree::Expr { kind: tree::ExprKind::BoolLit(n), span: input::span_of(x, k, k + 1) }
        },
        tree::ExprKind::Ident(n) => {
            reveal(grammar_exprs::name_expr);
            tree::Expr { kind: tree::ExprKind::Ident(n), span: input::span_of(x, k, k + 1) }
        },
        tree::ExprKind::Paren(y) => {
            reveal(grammar_exprs::parenthesized);
            reveal(grammar_exprs::exprs);
            reveal(input::op_info);
            reveal(input::assign_info);
            lemma_start(x, k + 1, *y);
            lemma_count(*y);
            let j = k + 1 + count(*y);
            let r = lemma_whole((d - 1) as nat, x, k + 1, *y);
            lemma_nested(d, x, 0, k + 1);
            let es = Seq::<tree::Expr>::empty().push(r);
            assert(es.len() == 1 && es[0] == r);
            tree::Expr { kind: tree::ExprKind::Paren(Box::new(r)), span: input::span_of(x, k, j + 1) }
        },
        tree::ExprKind::This => {
            tree::Expr { kind: tree::ExprKind::This, span: input::span_of(x, k, k + 1) }
        },
        tree::ExprKind::Null => {
            tree::Expr { kind: tree::ExprKind::Null, span: input::span_of(x, k, k + 1) }
        },
        _ => e,
    }
}

/// Members, elements and steps are read from the left: after the first value the rest goes on as
/// after the whole.
proof fn lemma_postfix_chain(d: nat, x: Input, k: int, e: tree::Expr) -> (r: (tree::Expr, int, tree::Expr))
    requires
        stands(x, k, e),
        is_bracketed(e),
        tightness(e) == 13,
        d >= height(e),
        input::tk(x, k + count(e)) != Token::LParen,
        input::tk(x, k + count(e)) != Token::Has,
        ends_named(e) ==> input::tk(x, k + count(e)) != Token::Lt,
    ensures
        grammar_exprs::primary(rules::rules(d), x, k) == Ok::<(tree::Expr, int), int>((r.0, r.1)),
        k < r.1 <= k + count(e),
        grammar_exprs::postfix(rules::rules(d), x, k, r.0, r.1) == grammar_exprs::postfix(
            rules::rules(d),
            x,
            k,
            r.2,
            k + count(e),
        ),
        is_same(r.2, e),
    decreases e, 1int,
{
    lemma_count(e);
    let z = k + count(e);
    match e.kind {
        tree::ExprKind::Postfix(op, y) => {
            lemma_count(*y);
            let j = k + count(*y);
            let (h, m, v) = lemma_postfix_chain(d, x, k, *y);
            let r = tree::Expr { kind: tree::ExprKind::Postfix(op, Box::new(v)), span: input::span_of(x, k, j + 1) };
            assert(grammar_exprs::postfix(rules::rules(d), x, k, v, j) == grammar_exprs::postfix(
                rules::rules(d),
                x,
                k,
                r,
                z,
            )) by {
                reveal(grammar_exprs::postfix);
            }
            (h, m, r)
        },
        tree::ExprKind::Member(y, f) => {
            lemma_count(*y);
            let j = k + count(*y);
            let (h, m, v) = lemma_postfix_chain(d, x, k, *y);
            let r = tree::Expr { kind: tree::ExprKind::Member(Box::new(v), f), span: input::span_of(x, k, j + 2) };
            assert(grammar_exprs::postfix(rules::rules(d), x, k, v, j) == grammar_exprs::postfix(
                rules::rules(d),
                x,
                k,
                r,
                z,
            )) by {
                reveal(grammar_exprs::postfix);
                reveal(input::worded);
            }
            (h, m, r)
        },
        tree::ExprKind::Index(y, w) => {
            lemma_count(*y);
            lemma_count(*w);
            let j = k + count(*y);
            let (h, m, v) = lemma_postfix_chain(d, x, k, *y);
            let u = lemma_whole((d - 1) as nat, x, j + 1, *w);
            lemma_nested(d, x, 0, j + 1);
            let r = tree::Expr {
                kind: tree::ExprKind::Index(Box::new(v), Box::new(u)),
                span: input::span_of(x, k, z),
            };
            assert(grammar_exprs::postfix(rules::rules(d), x, k, v, j) == grammar_exprs::postfix(
                rules::rules(d),
                x,
                k,
                r,
                z,
            )) by {
                reveal(grammar_exprs::postfix);
                reveal(input::indexed);
            }
            (h, m, r)
        },
        _ => {
            let r = lemma_primary(d, x, k, e);
            (r, z, r)
        },
    }
}

proof fn lemma_nested(d: nat, x: Input, l: int, i: int)
    requires
        d > 0,
    ensures
        (rules::rules(d).expr)(x, i) == grammar_exprs::expr(rules::rules((d - 1) as nat), x, i),
        (rules::rules(d).bin)(x, l, i) == grammar_exprs::bin(rules::rules((d - 1) as nat), x, l, i),
        (rules::rules(d).conditional)(x, i) == grammar_exprs::conditional(rules::rules((d - 1) as nat), x, i),
{
    reveal(rules::rules);
}

proof fn lemma_unary(d: nat, x: Input, k: int, e: tree::Expr) -> (r: tree::Expr)
    requires
        stands(x, k, e),
        is_bracketed(e),
        tightness(e) >= 12,
        d >= height(e),
        is_end(input::tk(x, k + count(e))),
        ends_named(e) ==> input::tk(x, k + count(e)) != Token::Lt,
    ensures
        grammar_exprs::unary(rules::rules(d), x, k) == Ok::<(tree::Expr, int), int>((r, k + count(e))),
        is_same(r, e),
    decreases e, 2int,
{
    reveal(grammar_exprs::unary);
    reveal(input::prefix_info);
    lemma_count(e);
    match e.kind {
        tree::ExprKind::Unary(op, y) => {
            lemma_count(*y);
            let r = lemma_unary(d, x, k + 1, *y);
            tree::Expr { kind: tree::ExprKind::Unary(op, Box::new(r)), span: input::span_of(x, k, k + count(e)) }
        },
        _ => {
            let (h, j, r) = lemma_postfix_chain(d, x, k, e);
            assert(grammar_exprs::postfix(rules::rules(d), x, k, r, k + count(e)) == Ok::<(tree::Expr, int), int>(
                (r, k + count(e)),
            )) by {
                reveal(grammar_exprs::postfix);
            }
            lemma_start(x, k, e);
            lemma_not_prefix(x, k, e);
            r
        },
    }
}

/// A value that binds most tightly starts with no prefix operator.
proof fn lemma_not_prefix(x: Input, k: int, e: tree::Expr)
    requires
        stands(x, k, e),
        is_bracketed(e),
        tightness(e) == 13,
    ensures
        !input::is_prefix(x, k),
    decreases e,
{
    reveal(input::prefix_info);
    match e.kind {
        tree::ExprKind::Postfix(_, a) => lemma_not_prefix(x, k, *a),
        tree::ExprKind::Member(a, _) => lemma_not_prefix(x, k, *a),
        tree::ExprKind::Index(a, _) => lemma_not_prefix(x, k, *a),
        _ => {},
    }
}

/// An expression that binds more tightly than level `l` is read as an operand of that level.
proof fn lemma_operand(d: nat, x: Input, l: int, k: int, e: tree::Expr) -> (r: tree::Expr)
    requires
        stands(x, k, e),
        is_bracketed(e),
        0 <= l <= 12,
        tightness(e) >= l,
        d >= height(e),
        is_over(x, k + count(e), l, e),
    ensures
        grammar_exprs::bin(rules::rules(d), x, l, k) == Ok::<(tree::Expr, int), int>((r, k + count(e))),
        is_same(r, e),
    decreases e, 40 - 2 * l,
{
    reveal(grammar_exprs::bin);
    lemma_count(e);
    lemma_start(x, k, e);
    let j = k + count(e);
    if l >= 12 {
        lemma_unary(d, x, k, e)
    } else if l == 5 {
        reveal(grammar_exprs::range_rest);
        lemma_operand(d, x, 6, k, e)
    } else {
        let (h, m, r) = lemma_chain(d, x, l, k, e);
        assert(grammar_exprs::bin_rest(rules::rules(d), x, k, l, r, j) == Ok::<(tree::Expr, int), int>((r, j))) by {
            reveal(grammar_exprs::bin_rest);
        }
        r
    }
}

/// A chain of operators of level `l` is read from the left: after its first operand the rest goes on
/// as after the whole.
proof fn lemma_chain(d: nat, x: Input, l: int, k: int, e: tree::Expr) -> (r: (tree::Expr, int, tree::Expr))
    requires
        stands(x, k, e),
        is_bracketed(e),
        0 <= l < 12,
        l != 5,
        tightness(e) >= l,
        d >= height(e),
        is_over(x, k + count(e), l + 1, e),
    ensures
        grammar_exprs::bin(rules::rules(d), x, l + 1, k) == Ok::<(tree::Expr, int), int>((r.0, r.1)),
        k < r.1 <= k + count(e),
        grammar_exprs::bin_rest(rules::rules(d), x, k, l, r.0, r.1) == grammar_exprs::bin_rest(
            rules::rules(d),
            x,
            k,
            l,
            r.2,
            k + count(e),
        ),
        is_same(r.2, e),
    decreases e, 39 - 2 * l,
{
    lemma_count(e);
    if tightness(e) > l {
        let r = lemma_operand(d, x, l + 1, k, e);
        (r, k + count(e), r)
    } else {
        match e.kind {
            tree::ExprKind::Binary(op, a, b) => {
                lemma_count(*a);
                lemma_count(*b);
                let m = k + count(*a);
                let p = m + op_count(op);
                lemma_op_info(x, m, op, *b);
                let (h, j, v) = lemma_chain(d, x, l, k, *a);
                let w = lemma_operand((d - 1) as nat, x, l + 1, p, *b);
                lemma_nested(d, x, l + 1, p);
                let r = tree::Expr {
                    kind: tree::ExprKind::Binary(op, Box::new(v), Box::new(w)),
                    span: input::span_of(x, k, k + count(e)),
                };
                assert(grammar_exprs::bin_rest(rules::rules(d), x, k, l, v, m) == grammar_exprs::bin_rest(
                    rules::rules(d),
                    x,
                    k,
                    l,
                    r,
                    k + count(e),
                )) by {
                    reveal(grammar_exprs::bin_rest);
                }
                (h, j, r)
            },
            _ => (e, k, e),
        }
    }
}

/// Whether a token can follow a conditional expression, but for those that close what is around it.
pub open spec fn is_past(x: Input, j: int) -> bool {
    is_end(input::tk(x, j)) && input::op_info(x, j) is None && input::tk(x, j) != Token::Question && input::tk(x, j)
        != Token::Lt
}

/// A conditional expression, or one that binds more tightly, is read as it is.
proof fn lemma_choice(d: nat, x: Input, k: int, e: tree::Expr) -> (r: tree::Expr)
    requires
        stands(x, k, e),
        is_bracketed(e),
        tightness(e) >= -1,
        d >= height(e),
        is_past(x, k + count(e)),
    ensures
        grammar_exprs::conditional(rules::rules(d), x, k) == Ok::<(tree::Expr, int), int>((r, k + count(e))),
        is_same(r, e),
    decreases e, 50int,
{
    reveal(grammar_exprs::conditional);
    lemma_count(e);
    match e.kind {
        tree::ExprKind::Conditional(c, a, b) => {
            lemma_count(*c);
            lemma_count(*a);
            lemma_count(*b);
            let j = k + count(*c);
            let m = j + 1 + count(*a);
            assert(input::op_info(x, j) is None && input::op_info(x, m) is None) by {
                reveal(input::op_info);
            }
            let u = lemma_operand(d, x, 0, k, *c);
            let v = lemma_choice((d - 1) as nat, x, j + 1, *a);
            let w = lemma_choice((d - 1) as nat, x, m + 1, *b);
            lemma_nested(d, x, 0, j + 1);
            lemma_nested(d, x, 0, m + 1);
            tree::Expr {
                kind: tree::ExprKind::Conditional(Box::new(u), Box::new(v), Box::new(w)),
                span: input::span_of(x, k, k + count(e)),
            }
        },
        _ => lemma_operand(d, x, 0, k, e),
    }
}

/// Whether a token closes what is around an expression.
pub open spec fn is_closer(t: Token) -> bool {
    t == Token::RParen || t == Token::RBracket || t == Token::Eof || t == Token::Newline
}

/// An expression before a closing bracket, or at the end, is read as it is.
proof fn lemma_whole(d: nat, x: Input, k: int, e: tree::Expr) -> (r: tree::Expr)
    requires
        stands(x, k, e),
        is_bracketed(e),
        d >= height(e),
        is_closer(input::tk(x, k + count(e))),
    ensures
        grammar_exprs::expr(rules::rules(d), x, k) == Ok::<(tree::Expr, int), int>((r, k + count(e))),
        is_same(r, e),
    decreases e, 60int,
{
    reveal(grammar_exprs::expr);
    lemma_count(e);
    match e.kind {
        tree::ExprKind::Assign(l, v) => {
            lemma_count(*l);
            lemma_count(*v);
            let j = k + count(*l);
            assert(input::op_info(x, j) is None) by {
                reveal(input::op_info);
            }
            let u = lemma_choice(d, x, k, *l);
            lemma_start(x, j + 1, *v);
            let w = lemma_whole((d - 1) as nat, x, j + 1, *v);
            lemma_nested(d, x, 0, j + 1);
            tree::Expr {
                kind: tree::ExprKind::Assign(Box::new(u), Box::new(w)),
                span: input::span_of(x, k, k + count(e)),
            }
        },
        tree::ExprKind::CompoundAssign(op, l, v) => {
            lemma_count(*l);
            lemma_count(*v);
            let j = k + count(*l);
            let p = j + op_count(op);
            assert(input::op_info(x, j) is None && input::assign_info(x, j) == Some((op, op_count(op)))) by {
                reveal(input::op_info);
                reveal(input::assign_info);
            }
            let u = lemma_choice(d, x, k, *l);
            lemma_start(x, p, *v);
            let w = lemma_whole((d - 1) as nat, x, p, *v);
            lemma_nested(d, x, 0, p);
            tree::Expr {
                kind: tree::ExprKind::CompoundAssign(op, Box::new(u), Box::new(w)),
                span: input::span_of(x, k, k + count(e)),
            }
        },
        _ => {
            let z = k + count(e);
            assert(input::op_info(x, z) is None && input::assign_info(x, z) is None) by {
                reveal(input::op_info);
                reveal(input::assign_info);
            }
            lemma_choice(d, x, k, e)
        },
    }
}

/// What is written for an expression is read back as that expression: its text has no errors, its
/// tokens are all used, and every operator has the operands that it had, in their order.
pub proof fn law_expression_reads_back(cx: Context, ind: nat, e: tree::Expr, depth: nat)
    requires
        is_bracketed(e),
        depth >= height(e),
        text::byte_len(compact::expr_text(cx, ind, e)) <= usize::MAX,
    ensures
        ({
            let s = compact::expr_text(cx, ind, e);
            let x = Input { toks: lexer::lexed(s).tokens, src: s };
            &&& lexer::lexed(s).errors.len() == 0
            &&& match grammar_exprs::expr(rules::rules(depth), x, 0) {
                Ok((r, end)) => is_same(r, e) && end == x.len(),
                Err(_) => false,
            }
        }),
{
    let s = compact::expr_text(cx, ind, e);
    let none = Lexed { tokens: seq![], errors: seq![] };
    assert(s.subrange(0, s.len() as int) =~= s);
    let more = lemma_lex_expr(cx, ind, s, 0, seq![], e, none);
    assert(lexer::lexed(s) == more && more.errors == none.errors) by {
        reveal(reads);
    }
    let x = Input { toks: more.tokens, src: s };
    lemma_count(e);
    lemma_whole(depth, x, 0, e);
}

} // verus!
