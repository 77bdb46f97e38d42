//! The input of the parser: tokens, and the source that they were read from.
use vstd::prelude::*;
use crate::ast;
use crate::ast::{BinOp, ClassDecl, Expr, ExprKind, Target, Type, UnaryOp};
use crate::lexer;
use crate::source;
use crate::source::Source;
use crate::text;
use crate::text::chars_of;
use crate::token::{Span, SpannedToken, Token};
use crate::tree;

verus! {

broadcast use ast::group_lists;

/// Tokens with their source.
pub struct Input {
    pub toks: Seq<SpannedToken>,
    pub src: Seq<char>,
}

/// A tree and the index after it, or the index of the token that does not fit.
pub type Parsed<T> = Result<(T, int), int>;

impl Input {
    pub open spec fn len(self) -> int {
        self.toks.len() as int
    }
}

/// Where a parse of something at `i` stopped.
pub open spec fn stop_of<T>(r: Parsed<T>, i: int) -> int {
    match r {
        Ok(_) => i,
        Err(k) => k,
    }
}

// ── Tokens ──────────────────────────────────────────────────────────────────

/// Token `i`, or `Eof` past the end.
pub open spec fn tk(x: Input, i: int) -> Token {
    if 0 <= i < x.len() {
        x.toks[i].token
    } else {
        Token::Eof
    }
}

/// The text of token `i`.
pub open spec fn word(x: Input, i: int) -> Seq<char> {
    if 0 <= i < x.len() {
        source::span_text(x.src, x.toks[i].span)
    } else {
        seq![]
    }
}

/// The span of the tokens `i..k`.
pub open spec fn span_of(x: Input, i: int, k: int) -> Span {
    Span {
        start: if 0 <= i < x.len() {
            x.toks[i].span.start
        } else {
            0
        },
        end: if 0 < k <= x.len() {
            x.toks[k - 1].span.end
        } else {
            0
        },
    }
}

/// Whether a name can stand for token `t`: an identifier, or a word with a meaning only
/// in some places.
pub open spec fn is_name(t: Token) -> bool {
    t == Token::Ident || t == Token::GetKw || t == Token::SetKw || t == Token::To || t == Token::From
        || t == Token::Open || t == Token::Initialize || t == Token::Explicit || t == Token::Convert
        || t == Token::Init
}

#[verifier::opaque]
pub open spec fn named(x: Input, i: int) -> bool {
    is_name(tk(x, i))
}

/// Whether token `i` is a word; after a dot every word is a name.
#[verifier::opaque]
pub open spec fn worded(x: Input, i: int) -> bool {
    word(x, i).len() > 0 && lexer::starts_word(word(x, i)[0])
}

#[verifier::opaque]
pub open spec fn is_term(t: Token) -> bool {
    t == Token::Newline || t == Token::Semicolon
}

/// Whether token `i` ends a statement.
pub open spec fn term(x: Input, i: int) -> bool {
    is_term(tk(x, i))
}

/// Whether token `i` separates entries.
pub open spec fn sep(x: Input, i: int) -> bool {
    is_term(tk(x, i)) || tk(x, i) == Token::Comma
}

#[verifier::opaque]
pub open spec fn ends_stmt(x: Input, i: int) -> bool {
    is_term(tk(x, i)) || tk(x, i) == Token::End || tk(x, i) == Token::Eof
}

#[verifier::opaque]
pub open spec fn closes_param(x: Input, i: int) -> bool {
    tk(x, i) == Token::Comma || tk(x, i) == Token::RParen || tk(x, i) == Token::Pipe || tk(x, i)
        == Token::Newline
}

#[verifier::opaque]
pub open spec fn is_wildcard(x: Input, i: int) -> bool {
    word(x, i) == "_"@
}

pub open spec fn skip_newlines(x: Input, i: int) -> int
    decreases x.len() - i,
{
    if 0 <= i < x.len() && tk(x, i) == Token::Newline {
        skip_newlines(x, i + 1)
    } else {
        i
    }
}

pub open spec fn skip_terms(x: Input, i: int) -> int
    decreases x.len() - i,
{
    if 0 <= i < x.len() && term(x, i) {
        skip_terms(x, i + 1)
    } else {
        i
    }
}

pub open spec fn skip_seps(x: Input, i: int) -> int
    decreases x.len() - i,
{
    if 0 <= i < x.len() && sep(x, i) {
        skip_seps(x, i + 1)
    } else {
        i
    }
}

/// The index after an optional word.
pub open spec fn after_word(x: Input, t: Token, i: int) -> int {
    if tk(x, i) == t && t != Token::Eof {
        i + 1
    } else {
        i
    }
}

/// Whether tokens `i` and `i + 1` touch.
pub open spec fn adjacent(x: Input, i: int) -> bool {
    0 <= i && i + 1 < x.len() && x.toks[i].span.end == x.toks[i + 1].span.start
}

// ── Operators ───────────────────────────────────────────────────────────────

/// A binary operator at `i`: the operator, its level, and its number of tokens.
#[verifier::opaque]
pub open spec fn op_info(x: Input, i: int) -> Option<(BinOp, int, int)> {
    match tk(x, i) {
        Token::Coalesce => Some((BinOp::NullCoalesce, 0, 1)),
        Token::Or => Some((BinOp::Or, 1, 1)),
        Token::And => Some((BinOp::And, 2, 1)),
        Token::Is => if tk(x, i + 1) == Token::Not {
            Some((BinOp::IsNot, 3, 2))
        } else {
            Some((BinOp::Is, 3, 1))
        },
        Token::Lt => Some((BinOp::Lt, 4, 1)),
        Token::Le => Some((BinOp::Le, 4, 1)),
        Token::Ge => Some((BinOp::Ge, 4, 1)),
        Token::Gt => if tk(x, i + 1) == Token::Gt && adjacent(x, i) {
            Some((BinOp::Shr, 9, 2))
        } else if tk(x, i + 1) == Token::Ge && adjacent(x, i) {
            None
        } else {
            Some((BinOp::Gt, 4, 1))
        },
        Token::Pipe => Some((BinOp::BitOr, 6, 1)),
        Token::Caret => Some((BinOp::BitXor, 7, 1)),
        Token::Amp => Some((BinOp::BitAnd, 8, 1)),
        Token::Shl => Some((BinOp::Shl, 9, 1)),
        Token::Plus => Some((BinOp::Add, 10, 1)),
        Token::Minus => Some((BinOp::Sub, 10, 1)),
        Token::Star => Some((BinOp::Mul, 11, 1)),
        Token::Slash => Some((BinOp::Div, 11, 1)),
        Token::Percent => Some((BinOp::Mod, 11, 1)),
        _ => None,
    }
}

/// Whether an operator of level `l` stands at `i`.
pub open spec fn binds(x: Input, l: int, i: int) -> bool {
    match op_info(x, i) {
        Some(o) => o.1 == l,
        None => false,
    }
}

pub open spec fn op_at(x: Input, i: int) -> BinOp {
    match op_info(x, i) {
        Some(o) => o.0,
        None => BinOp::Add,
    }
}

pub open spec fn after_op(x: Input, i: int) -> int {
    match op_info(x, i) {
        Some(o) => skip_newlines(x, i + o.2),
        None => i,
    }
}

/// A compound assignment at `i`: its operator and its number of tokens.
#[verifier::opaque]
pub open spec fn assign_info(x: Input, i: int) -> Option<(BinOp, int)> {
    match tk(x, i) {
        Token::PlusEq => Some((BinOp::Add, 1)),
        Token::MinusEq => Some((BinOp::Sub, 1)),
        Token::StarEq => Some((BinOp::Mul, 1)),
        Token::SlashEq => Some((BinOp::Div, 1)),
        Token::PercentEq => Some((BinOp::Mod, 1)),
        Token::AmpEq => Some((BinOp::BitAnd, 1)),
        Token::PipeEq => Some((BinOp::BitOr, 1)),
        Token::CaretEq => Some((BinOp::BitXor, 1)),
        Token::ShlEq => Some((BinOp::Shl, 1)),
        Token::Gt => if tk(x, i + 1) == Token::Ge && adjacent(x, i) {
            Some((BinOp::Shr, 2))
        } else {
            None
        },
        _ => None,
    }
}

pub open spec fn assigns(x: Input, i: int) -> bool {
    assign_info(x, i) is Some
}

pub open spec fn assign_op(x: Input, i: int) -> BinOp {
    match assign_info(x, i) {
        Some(o) => o.0,
        None => BinOp::Add,
    }
}

pub open spec fn after_assign(x: Input, i: int) -> int {
    match assign_info(x, i) {
        Some(o) => skip_newlines(x, i + o.1),
        None => i,
    }
}

#[verifier::opaque]
pub open spec fn prefix_info(t: Token) -> Option<UnaryOp> {
    match t {
        Token::Minus => Some(UnaryOp::Neg),
        Token::Not => Some(UnaryOp::Not),
        Token::Plus => Some(UnaryOp::Pos),
        Token::Tilde => Some(UnaryOp::BitNot),
        Token::PlusPlus => Some(UnaryOp::Inc),
        Token::MinusMinus => Some(UnaryOp::Dec),
        _ => None,
    }
}

pub open spec fn is_prefix(x: Input, i: int) -> bool {
    prefix_info(tk(x, i)) is Some
}

pub open spec fn prefix_op(x: Input, i: int) -> UnaryOp {
    match prefix_info(tk(x, i)) {
        Some(o) => o,
        None => UnaryOp::Pos,
    }
}

/// Whether an expression can start at `i`.
#[verifier::opaque]
pub open spec fn starts_expr(x: Input, i: int) -> bool {
    let t = tk(x, i);
    is_name(t) || is_prefix(x, i) || simple_token(t) || t == Token::IntLit || t == Token::StringHead
        || t == Token::Super || t == Token::LParen || t == Token::LBracket || t == Token::Match
}

// ── Literals ────────────────────────────────────────────────────────────────

/// The value of a run of decimal digits.
pub open spec fn digits_value(s: Seq<char>) -> nat
    decreases s.len(),
{
    if s.len() == 0 {
        0
    } else {
        10 * digits_value(s.drop_last()) + (if lexer::is_digit(s.last()) {
            (s.last() as u32 - '0' as u32) as nat
        } else {
            0
        })
    }
}

/// The integer at `i`, where it fits.
#[verifier::opaque]
pub open spec fn int_at(x: Input, i: int) -> Option<i64> {
    let v = digits_value(word(x, i));
    if v <= i64::MAX {
        Some(v as i64)
    } else {
        None
    }
}

/// The integer at `i` with a minus sign, where it fits.
#[verifier::opaque]
pub open spec fn neg_int_at(x: Input, i: int) -> Option<i64> {
    let v = digits_value(word(x, i));
    if v <= i64::MAX {
        Some((-v) as i64)
    } else {
        None
    }
}

#[verifier::opaque]
pub open spec fn size_at(x: Input, i: int) -> Option<u64> {
    let v = digits_value(word(x, i));
    if v <= u64::MAX {
        Some(v as u64)
    } else {
        None
    }
}

/// The character that `\c` stands for.
pub open spec fn escape_value(c: char) -> char {
    match c {
        'n' => '\n',
        'r' => '\r',
        't' => '\t',
        '0' => '\0',
        _ => c,
    }
}

/// The text that `s` stands for from `i` on.
pub open spec fn unescaped(s: Seq<char>, i: int) -> Seq<char>
    decreases s.len() - i,
{
    if 0 <= i < s.len() {
        if s[i] == '\\' && i + 1 < s.len() {
            seq![escape_value(s[i + 1])] + unescaped(s, i + 2)
        } else {
            seq![s[i]] + unescaped(s, i + 1)
        }
    } else {
        seq![]
    }
}

/// `s` without its first and last `n` characters.
pub open spec fn inner(s: Seq<char>, n: int) -> Seq<char> {
    if 2 * n <= s.len() {
        s.subrange(n, s.len() - n)
    } else {
        seq![]
    }
}

/// A piece of a string as it is written, without the quotes or braces around it.
#[verifier::opaque]
pub open spec fn piece(x: Input, i: int) -> Seq<char> {
    inner(word(x, i), 1)
}

pub open spec fn char_value(s: Seq<char>) -> char {
    if s.len() == 0 {
        '\0'
    } else if s[0] == '\\' && s.len() > 1 {
        escape_value(s[1])
    } else {
        s[0]
    }
}

/// Literals of one token, beside integers.
#[verifier::opaque]
pub open spec fn simple_token(t: Token) -> bool {
    t == Token::FloatLit || t == Token::True || t == Token::False || t == Token::StringLit || t
        == Token::BlockStringLit || t == Token::CharLit || t == Token::This || t == Token::Null
}

pub open spec fn is_simple(x: Input, i: int) -> bool {
    simple_token(tk(x, i))
}

#[verifier::opaque]
pub open spec fn simple(x: Input, i: int) -> tree::ExprKind {
    match tk(x, i) {
        Token::FloatLit => tree::ExprKind::FloatLit(word(x, i)),
        Token::True => tree::ExprKind::BoolLit(true),
        Token::False => tree::ExprKind::BoolLit(false),
        Token::StringLit => tree::ExprKind::StringLit(unescaped(inner(word(x, i), 1), 0)),
        Token::BlockStringLit => tree::ExprKind::StringLit(unescaped(inner(word(x, i), 3), 0)),
        Token::CharLit => tree::ExprKind::CharLit(char_value(inner(word(x, i), 1))),
        Token::This => tree::ExprKind::This,
        _ => tree::ExprKind::Null,
    }
}

/// An index, or a slice where the index is a range.
#[verifier::opaque]
pub open spec fn indexed(object: tree::Expr, index: tree::Expr) -> tree::ExprKind {
    match index.kind {
        tree::ExprKind::Range(start, end, inclusive) => tree::ExprKind::Slice {
            object: Box::new(object),
            start,
            end,
            inclusive,
        },
        _ => tree::ExprKind::Index(Box::new(object), Box::new(index)),
    }
}

#[verifier::opaque]
pub open spec fn target(x: Input, i: int) -> tree::Target {
    if is_wildcard(x, i) {
        tree::Target::Wildcard
    } else {
        tree::Target::Name(word(x, i))
    }
}

// ── Declarations ────────────────────────────────────────────────────────────

#[verifier::opaque]
pub open spec fn is_class(x: Input, i: int) -> bool {
    let t = tk(x, i);
    let u = tk(x, i + 1);
    t == Token::Class || ((t == Token::Open || t == Token::Sealed) && u == Token::Class) || (t
        == Token::Open && u == Token::Sealed && tk(x, i + 2) == Token::Class)
}

/// Whether a keyword at `i` starts a declaration.
#[verifier::opaque]
pub open spec fn starts_declaration(x: Input, i: int) -> bool {
    let t = tk(x, i);
    t == Token::Import || t == Token::Struct || t == Token::Enum || t == Token::Trait || t
        == Token::Extend || t == Token::Extern || (t == Token::Init && tk(x, i + 1) == Token::Do)
        || is_class(x, i)
}

#[verifier::opaque]
pub open spec fn is_conversion(x: Input, i: int) -> bool {
    tk(x, i) == Token::Convert || (tk(x, i) == Token::Explicit && tk(x, i + 1) == Token::Convert)
}

#[verifier::opaque]
pub open spec fn is_property(x: Input, i: int) -> bool {
    named(x, i) && ((tk(x, i + 1) == Token::GetKw && tk(x, i + 2) == Token::Do) || (tk(x, i + 1)
        == Token::SetKw && tk(x, i + 2) == Token::LParen))
}

#[verifier::opaque]
pub open spec fn is_constructor(x: Input, c: tree::ClassDecl, i: int) -> bool {
    named(x, i) && tk(x, i + 1) == Token::LParen && word(x, i) == c.name
}

/// The end of the operator symbol at `i`: the next parenthesis, up to three tokens on, on the same
/// line.
#[verifier::opaque]
pub open spec fn after_symbol(x: Input, i: int) -> int {
    if tk(x, i) == Token::Newline {
        i
    } else if tk(x, i + 1) == Token::LParen {
        i + 1
    } else if tk(x, i + 1) == Token::Newline {
        i
    } else if tk(x, i + 2) == Token::LParen {
        i + 2
    } else if tk(x, i + 2) == Token::Newline {
        i
    } else if tk(x, i + 3) == Token::LParen {
        i + 3
    } else {
        i
    }
}

/// `a` and `b`, apart where they are words.
pub open spec fn beside(a: Seq<char>, b: Seq<char>) -> Seq<char> {
    if a.len() > 0 && b.len() > 0 && lexer::in_word(a.last()) && lexer::in_word(b[0]) {
        a + seq![' '] + b
    } else {
        a + b
    }
}

/// The operator symbol of the tokens `i..k`: their texts side by side.
#[verifier::opaque]
pub open spec fn symbol(x: Input, i: int, k: int) -> Seq<char>
    decreases k - i,
{
    if i < k {
        beside(symbol(x, i, k - 1), word(x, k - 1))
    } else {
        seq![]
    }
}

/// A class whose `end` is token `k - 1`.
#[verifier::opaque]
pub open spec fn finished(x: Input, c: tree::ClassDecl, k: int) -> tree::ClassDecl {
    tree::ClassDecl {
        span: Span { start: c.span.start, end: span_of(x, k - 1, k).end },
        ..c
    }
}

pub broadcast proof fn skip_newlines_forward(x: Input, i: int)
    ensures
        i <= #[trigger] skip_newlines(x, i),
        i <= x.len() ==> skip_newlines(x, i) <= x.len(),
    decreases x.len() - i,
{
    if 0 <= i < x.len() {
        skip_newlines_forward(x, i + 1);
    }
}

pub broadcast proof fn skip_terms_forward(x: Input, i: int)
    ensures
        i <= #[trigger] skip_terms(x, i),
        i <= x.len() ==> skip_terms(x, i) <= x.len(),
    decreases x.len() - i,
{
    if 0 <= i < x.len() {
        skip_terms_forward(x, i + 1);
    }
}

pub broadcast proof fn skip_seps_forward(x: Input, i: int)
    ensures
        i <= #[trigger] skip_seps(x, i),
        i <= x.len() ==> skip_seps(x, i) <= x.len(),
    decreases x.len() - i,
{
    if 0 <= i < x.len() {
        skip_seps_forward(x, i + 1);
    }
}

pub broadcast proof fn named_inside(x: Input, i: int)
    ensures
        #[trigger] named(x, i) ==> 0 <= i < x.len(),
{
    reveal(named);
}

pub broadcast proof fn worded_inside(x: Input, i: int)
    ensures
        #[trigger] worded(x, i) ==> 0 <= i < x.len(),
{
    reveal(worded);
}

pub broadcast proof fn prefix_inside(x: Input, i: int)
    ensures
        #[trigger] is_prefix(x, i) ==> 0 <= i < x.len(),
{
    reveal(prefix_info);
}

pub broadcast proof fn simple_inside(x: Input, i: int)
    ensures
        #[trigger] is_simple(x, i) ==> 0 <= i < x.len(),
{
    reveal(simple_token);
}

pub broadcast proof fn term_inside(x: Input, i: int)
    ensures
        #[trigger] term(x, i) ==> 0 <= i < x.len(),
{
    reveal(is_term);
}

pub broadcast proof fn symbol_inside(x: Input, i: int)
    ensures
        i <= #[trigger] after_symbol(x, i),
        0 <= i <= x.len() ==> after_symbol(x, i) <= x.len(),
{
    reveal(after_symbol);
}

pub broadcast proof fn property_named(x: Input, i: int)
    ensures
        #[trigger] is_property(x, i) ==> named(x, i),
{
    reveal(is_property);
}

pub broadcast proof fn after_op_forward(x: Input, i: int)
    ensures
        op_info(x, i) is Some ==> i < #[trigger] after_op(x, i) <= x.len(),
{
    reveal(op_info);
    broadcast use skip_newlines_forward;

}

pub broadcast proof fn after_assign_forward(x: Input, i: int)
    ensures
        assign_info(x, i) is Some ==> i < #[trigger] after_assign(x, i) <= x.len(),
{
    reveal(assign_info);
    broadcast use skip_newlines_forward;

}

/// Skipping goes forward and stays in the input.
pub broadcast group group_forward {
    named_inside,
    worded_inside,
    prefix_inside,
    simple_inside,
    term_inside,
    symbol_inside,
    property_named,
    skip_newlines_forward,
    skip_terms_forward,
    skip_seps_forward,
    after_op_forward,
    after_assign_forward,
}

// ── Reading ─────────────────────────────────────────────────────────────────

/// The tokens of a source, to be parsed.
pub struct Parser<'a> {
    pub source: &'a Source,
    pub tokens: Vec<SpannedToken>,
}

impl<'a> View for Parser<'a> {
    type V = Input;

    open spec fn view(&self) -> Input {
        Input { toks: self.tokens@, src: self.source@ }
    }
}

/// A list of one element.
pub fn one<T>(a: T) -> (r: Vec<T>)
    ensures
        r@ == seq![a],
{
    let mut v: Vec<T> = Vec::new();
    v.push(a);
    v
}

/// The element of a list of one.
pub fn only(v: Vec<Expr>) -> (r: Expr)
    requires
        v@.len() == 1,
    ensures
        r.tree() == ast::exprs_of(v@)[0],
{
    let mut list = v;
    assert(ast::exprs_of(v@).len() == v@.len());
    match list.pop() {
        Some(e) => e,
        None => Expr { kind: ExprKind::Null, span: Span::new(0, 0) },
    }
}

pub fn is_map(t: &Type) -> (r: bool)
    ensures
        r == (t.tree() is Mapping),
{
    match t {
        Type::Mapping(_, _) => true,
        _ => false,
    }
}

/// A copy of a type.
pub fn copy_type(t: &Type) -> (r: Type)
    ensures
        r.tree() == t.tree(),
    decreases t,
{
    match t {
        Type::Int => Type::Int,
        Type::Bool => Type::Bool,
        Type::Void => Type::Void,
        Type::Str => Type::Str,
        Type::Char => Type::Char,
        Type::Float => Type::Float,
        Type::Double => Type::Double,
        Type::Any => Type::Any,
        Type::Named(n) => Type::Named(n.clone()),
        Type::Generic(n, args) => Type::Generic(n.clone(), copy_types(args)),
        Type::Function(ret, args) => Type::Function(Box::new(copy_type(ret)), copy_types(args)),
        Type::Tuple(ts) => Type::Tuple(copy_types(ts)),
        Type::Array(el) => Type::Array(Box::new(copy_type(el))),
        Type::FixedArray(el, size) => Type::FixedArray(Box::new(copy_type(el)), *size),
        Type::Vector(el) => Type::Vector(Box::new(copy_type(el))),
        Type::Mapping(k, v) => Type::Mapping(Box::new(copy_type(k)), Box::new(copy_type(v))),
        Type::Pointer(el) => Type::Pointer(Box::new(copy_type(el))),
        Type::Optional(el) => Type::Optional(Box::new(copy_type(el))),
    }
}

/// A copy of a list of types.
pub fn copy_types(v: &Vec<Type>) -> (r: Vec<Type>)
    ensures
        ast::types_of(r@) == ast::types_of(v@),
        r@.len() == v@.len(),
    decreases v@,
{
    let mut out: Vec<Type> = Vec::new();
    assert(ast::types_of(v@).len() == v@.len());
    let mut i: usize = 0;
    assert(ast::types_of(v@).take(0) =~= ast::types_of(out@));
    while i < v.len()
        invariant
            i <= v.len(),
            out@.len() == i,
            ast::types_of(v@).len() == v@.len(),
            ast::types_of(out@) == ast::types_of(v@).take(i as int),
        decreases v.len() - i,
    {
        let t = copy_type(&v[i]);
        out.push(t);
        assert(ast::types_of(v@).take(i + 1) =~= ast::types_of(v@).take(i as int).push(
            ast::types_of(v@)[i as int],
        ));
        i = i + 1;
    }
    assert(ast::types_of(v@).take(i as int) =~= ast::types_of(v@));
    out
}

pub fn is_name_token(t: Token) -> (r: bool)
    ensures
        r == is_name(t),
{
    t == Token::Ident || t == Token::GetKw || t == Token::SetKw || t == Token::To || t == Token::From
        || t == Token::Open || t == Token::Initialize || t == Token::Explicit || t == Token::Convert
        || t == Token::Init
}

pub fn is_term_token(t: Token) -> (r: bool)
    ensures
        r == is_term(t),
{
    proof {
        reveal(is_term);
    }
    t == Token::Newline || t == Token::Semicolon
}

fn is_simple_token(t: Token) -> (r: bool)
    ensures
        r == simple_token(t),
{
    proof {
        reveal(simple_token);
    }
    t == Token::FloatLit || t == Token::True || t == Token::False || t == Token::StringLit || t
        == Token::BlockStringLit || t == Token::CharLit || t == Token::This || t == Token::Null
}

fn prefix_of(t: Token) -> (r: Option<UnaryOp>)
    ensures
        r == prefix_info(t),
{
    proof {
        reveal(prefix_info);
    }
    match t {
        Token::Minus => Some(UnaryOp::Neg),
        Token::Not => Some(UnaryOp::Not),
        Token::Plus => Some(UnaryOp::Pos),
        Token::Tilde => Some(UnaryOp::BitNot),
        Token::PlusPlus => Some(UnaryOp::Inc),
        Token::MinusMinus => Some(UnaryOp::Dec),
        _ => None,
    }
}

fn escape_char_value(c: char) -> (r: char)
    ensures
        r == escape_value(c),
{
    match c {
        'n' => '\n',
        'r' => '\r',
        't' => '\t',
        '0' => '\0',
        _ => c,
    }
}

/// The text that a literal stands for.
pub fn unescape(s: &Vec<char>) -> (r: Vec<char>)
    ensures
        r@ == unescaped(s@, 0),
{
    let mut out: Vec<char> = Vec::new();
    let mut i: usize = 0;
    assert(out@ + unescaped(s@, 0) =~= unescaped(s@, 0));
    while i < s.len()
        invariant
            i <= s.len(),
            out@ + unescaped(s@, i as int) == unescaped(s@, 0),
        decreases s.len() - i,
    {
        let ghost before = out@;
        let ghost k = i as int;
        if s[i] == '\\' && s.len() - i > 1 {
            let c = escape_char_value(s[i + 1]);
            out.push(c);
            assert(out@ + unescaped(s@, k + 2) =~= before + (seq![c] + unescaped(s@, k + 2)));
            i = i + 2;
        } else {
            out.push(s[i]);
            assert(out@ + unescaped(s@, k + 1) =~= before + (seq![s@[k]] + unescaped(s@, k + 1)));
            i = i + 1;
        }
    }
    assert(out@ + unescaped(s@, i as int) =~= out@);
    out
}

fn inner_of(s: &Vec<char>, n: usize) -> (r: Vec<char>)
    requires
        n <= 3,
    ensures
        r@ == inner(s@, n as int),
{
    if s.len() / 2 >= n {
        text::copy_range(s, n, s.len() - n)
    } else {
        Vec::new()
    }
}

/// The value of a run of digits, where it fits.
fn parse_digits(s: &Vec<char>) -> (r: Option<u64>)
    ensures
        match r {
            Some(v) => digits_value(s@) == v,
            None => digits_value(s@) > u64::MAX,
        },
{
    let mut v: u64 = 0;
    let mut i: usize = 0;
    while i < s.len()
        invariant
            i <= s.len(),
            v == digits_value(s@.take(i as int)),
        decreases s.len() - i,
    {
        let c = s[i];
        let d: u64 = if '0' <= c && c <= '9' {
            (c as u32 - '0' as u32) as u64
        } else {
            0
        };
        assert(s@.take(i + 1).drop_last() =~= s@.take(i as int));
        if v > (u64::MAX - d) / 10 {
            proof {
                lemma_digits_grow(s@, i + 1);
            }
            return None;
        }
        v = v * 10 + d;
        i = i + 1;
    }
    assert(s@.take(i as int) =~= s@);
    Some(v)
}

proof fn lemma_digits_grow(s: Seq<char>, i: int)
    requires
        0 <= i <= s.len(),
    ensures
        digits_value(s.take(i)) <= digits_value(s),
    decreases s.len() - i,
{
    if i < s.len() {
        assert(s.take(i + 1).drop_last() =~= s.take(i));
        lemma_digits_grow(s, i + 1);
    } else {
        assert(s.take(i) =~= s);
    }
}

/// An index, or a slice where the index is a range.
pub fn make_index(object: Expr, index: Expr) -> (r: ExprKind)
    ensures
        r.tree() == indexed(object.tree(), index.tree()),
{
    proof {
        reveal(indexed);
    }
    match index.kind {
        ExprKind::Range(start, end, inclusive) => ExprKind::Slice {
            object: Box::new(object),
            start,
            end,
            inclusive,
        },
        kind => ExprKind::Index(Box::new(object), Box::new(Expr { kind, span: index.span })),
    }
}

impl<'a> Parser<'a> {
    pub open spec fn wf(&self) -> bool {
        self.source.wf() && self.tokens@.len() <= usize::MAX
    }

    pub fn tk(&self, i: usize) -> (t: Token)
        ensures
            t == tk(self@, i as int),
    {
        if i < self.tokens.len() {
            self.tokens[i].token
        } else {
            Token::Eof
        }
    }

    /// Token `i + n`.
    pub fn tk_after(&self, i: usize, n: usize) -> (t: Token)
        ensures
            t == tk(self@, i + n),
    {
        if i < self.tokens.len() && n < self.tokens.len() - i {
            self.tokens[i + n].token
        } else {
            Token::Eof
        }
    }

    fn chars(&self, i: usize) -> (r: Vec<char>)
        requires
            self.wf(),
        ensures
            r@ == word(self@, i as int),
    {
        if i < self.tokens.len() {
            let sp = self.tokens[i].span;
            self.source.text_between(sp.start, sp.end)
        } else {
            Vec::new()
        }
    }

    pub fn word(&self, i: usize) -> (r: String)
        requires
            self.wf(),
        ensures
            r@ == word(self@, i as int),
    {
        text::to_text(&self.chars(i))
    }

    pub fn span_of(&self, i: usize, k: usize) -> (r: Span)
        ensures
            r == span_of(self@, i as int, k as int),
    {
        let start: usize = if i < self.tokens.len() {
            self.tokens[i].span.start
        } else {
            0
        };
        let end: usize = if 0 < k && k <= self.tokens.len() {
            self.tokens[k - 1].span.end
        } else {
            0
        };
        Span::new(start, end)
    }

    pub fn named(&self, i: usize) -> (r: bool)
        ensures
            r == named(self@, i as int),
    {
        proof {
            reveal(named);
        }
        is_name_token(self.tk(i))
    }

    pub fn worded(&self, i: usize) -> (r: bool)
        requires
            self.wf(),
        ensures
            r == worded(self@, i as int),
            r ==> i < self@.len(),
    {
        proof {
            reveal(worded);
        }
        let w = self.chars(i);
        w.len() > 0 && lexer::char_starts_word(w[0])
    }

    pub fn term(&self, i: usize) -> (r: bool)
        ensures
            r == term(self@, i as int),
    {
        is_term_token(self.tk(i))
    }

    pub fn sep(&self, i: usize) -> (r: bool)
        ensures
            r == sep(self@, i as int),
    {
        is_term_token(self.tk(i)) || self.tk(i) == Token::Comma
    }

    pub fn ends_stmt(&self, i: usize) -> (r: bool)
        ensures
            r == ends_stmt(self@, i as int),
    {
        proof {
            reveal(ends_stmt);
        }
        let t = self.tk(i);
        is_term_token(t) || t == Token::End || t == Token::Eof
    }

    pub fn closes_param(&self, i: usize) -> (r: bool)
        ensures
            r == closes_param(self@, i as int),
    {
        proof {
            reveal(closes_param);
        }
        let t = self.tk(i);
        t == Token::Comma || t == Token::RParen || t == Token::Pipe || t == Token::Newline
    }

    pub fn is_wildcard(&self, i: usize) -> (r: bool)
        requires
            self.wf(),
        ensures
            r == is_wildcard(self@, i as int),
    {
        proof {
            reveal(is_wildcard);
        }
        text::text_is(&self.chars(i), "_")
    }

    pub fn skip_newlines(&self, from: usize) -> (i: usize)
        requires
            self.wf(),
            from <= self@.len(),
        ensures
            i == skip_newlines(self@, from as int),
            from <= i <= self@.len(),
    {
        let mut i: usize = from;
        while i < self.tokens.len() && self.tk(i) == Token::Newline
            invariant
                from <= i <= self@.len(),
                skip_newlines(self@, i as int) == skip_newlines(self@, from as int),
            decreases self@.len() - i,
        {
            i = i + 1;
        }
        i
    }

    pub fn skip_terms(&self, from: usize) -> (i: usize)
        requires
            self.wf(),
            from <= self@.len(),
        ensures
            i == skip_terms(self@, from as int),
            from <= i <= self@.len(),
    {
        let mut i: usize = from;
        while i < self.tokens.len() && self.term(i)
            invariant
                from <= i <= self@.len(),
                skip_terms(self@, i as int) == skip_terms(self@, from as int),
            decreases self@.len() - i,
        {
            i = i + 1;
        }
        i
    }

    pub fn skip_seps(&self, from: usize) -> (i: usize)
        requires
            self.wf(),
            from <= self@.len(),
        ensures
            i == skip_seps(self@, from as int),
            from <= i <= self@.len(),
    {
        let mut i: usize = from;
        while i < self.tokens.len() && self.sep(i)
            invariant
                from <= i <= self@.len(),
                skip_seps(self@, i as int) == skip_seps(self@, from as int),
            decreases self@.len() - i,
        {
            i = i + 1;
        }
        i
    }

    pub fn after_word(&self, t: Token, i: usize) -> (r: usize)
        requires
            self.wf(),
            i <= self@.len(),
        ensures
            r == after_word(self@, t, i as int),
            i <= r <= self@.len(),
    {
        if self.tk(i) == t && t != Token::Eof {
            i + 1
        } else {
            i
        }
    }

    fn adjacent(&self, i: usize) -> (r: bool)
        ensures
            r == adjacent(self@, i as int),
    {
        i < self.tokens.len() && self.tokens.len() - i > 1 && self.tokens[i].span.end
            == self.tokens[i + 1].span.start
    }

    /// The operator at `i`, its level, and its number of tokens.
    fn operator_info(&self, i: usize) -> (r: Option<(BinOp, u8, usize)>)
        ensures
            match r {
                Some(o) => op_info(self@, i as int) == Some((o.0, o.1 as int, o.2 as int)) && i + o.2
                    <= self@.len(),
                None => op_info(self@, i as int) is None,
            },
    {
        proof {
            reveal(op_info);
        }
        let next = self.tk_after(i, 1);
        match self.tk(i) {
            Token::Coalesce => Some((BinOp::NullCoalesce, 0, 1)),
            Token::Or => Some((BinOp::Or, 1, 1)),
            Token::And => Some((BinOp::And, 2, 1)),
            Token::Is => if next == Token::Not {
                Some((BinOp::IsNot, 3, 2))
            } else {
                Some((BinOp::Is, 3, 1))
            },
            Token::Lt => Some((BinOp::Lt, 4, 1)),
            Token::Le => Some((BinOp::Le, 4, 1)),
            Token::Ge => Some((BinOp::Ge, 4, 1)),
            Token::Gt => if next == Token::Gt && self.adjacent(i) {
                Some((BinOp::Shr, 9, 2))
            } else if next == Token::Ge && self.adjacent(i) {
                None
            } else {
                Some((BinOp::Gt, 4, 1))
            },
            Token::Pipe => Some((BinOp::BitOr, 6, 1)),
            Token::Caret => Some((BinOp::BitXor, 7, 1)),
            Token::Amp => Some((BinOp::BitAnd, 8, 1)),
            Token::Shl => Some((BinOp::Shl, 9, 1)),
            Token::Plus => Some((BinOp::Add, 10, 1)),
            Token::Minus => Some((BinOp::Sub, 10, 1)),
            Token::Star => Some((BinOp::Mul, 11, 1)),
            Token::Slash => Some((BinOp::Div, 11, 1)),
            Token::Percent => Some((BinOp::Mod, 11, 1)),
            _ => None,
        }
    }

    pub fn binds(&self, l: u8, i: usize) -> (r: bool)
        ensures
            r == binds(self@, l as int, i as int),
            r ==> i < self@.len(),
    {
        proof {
            reveal(op_info);
        }
        match self.operator_info(i) {
            Some(o) => o.1 == l,
            None => false,
        }
    }

    pub fn op_at(&self, i: usize) -> (r: BinOp)
        ensures
            r == op_at(self@, i as int),
    {
        match self.operator_info(i) {
            Some(o) => o.0,
            None => BinOp::Add,
        }
    }

    pub fn after_op(&self, i: usize) -> (r: usize)
        requires
            self.wf(),
            i <= self@.len(),
        ensures
            r == after_op(self@, i as int),
            i <= r <= self@.len(),
            op_info(self@, i as int) is Some ==> i < r,
    {
        proof {
            reveal(op_info);
        }
        match self.operator_info(i) {
            Some(o) => self.skip_newlines(i + o.2),
            None => i,
        }
    }

    fn compound_info(&self, i: usize) -> (r: Option<(BinOp, usize)>)
        ensures
            match r {
                Some(o) => assign_info(self@, i as int) == Some((o.0, o.1 as int)) && i + o.1
                    <= self@.len(),
                None => assign_info(self@, i as int) is None,
            },
    {
        proof {
            reveal(assign_info);
        }
        match self.tk(i) {
            Token::PlusEq => Some((BinOp::Add, 1)),
            Token::MinusEq => Some((BinOp::Sub, 1)),
            Token::StarEq => Some((BinOp::Mul, 1)),
            Token::SlashEq => Some((BinOp::Div, 1)),
            Token::PercentEq => Some((BinOp::Mod, 1)),
            Token::AmpEq => Some((BinOp::BitAnd, 1)),
            Token::PipeEq => Some((BinOp::BitOr, 1)),
            Token::CaretEq => Some((BinOp::BitXor, 1)),
            Token::ShlEq => Some((BinOp::Shl, 1)),
            Token::Gt => if self.tk_after(i, 1) == Token::Ge && self.adjacent(i) {
                Some((BinOp::Shr, 2))
            } else {
                None
            },
            _ => None,
        }
    }

    pub fn assigns(&self, i: usize) -> (r: bool)
        ensures
            r == assigns(self@, i as int),
    {
        self.compound_info(i).is_some()
    }

    pub fn assign_op(&self, i: usize) -> (r: BinOp)
        ensures
            r == assign_op(self@, i as int),
    {
        match self.compound_info(i) {
            Some(o) => o.0,
            None => BinOp::Add,
        }
    }

    pub fn after_assign(&self, i: usize) -> (r: usize)
        requires
            self.wf(),
            i <= self@.len(),
        ensures
            r == after_assign(self@, i as int),
            i <= r <= self@.len(),
            assign_info(self@, i as int) is Some ==> i < r,
    {
        proof {
            reveal(assign_info);
        }
        match self.compound_info(i) {
            Some(o) => self.skip_newlines(i + o.1),
            None => i,
        }
    }

    pub fn is_prefix(&self, i: usize) -> (r: bool)
        ensures
            r == is_prefix(self@, i as int),
    {
        prefix_of(self.tk(i)).is_some()
    }

    pub fn prefix_op(&self, i: usize) -> (r: UnaryOp)
        ensures
            r == prefix_op(self@, i as int),
    {
        match prefix_of(self.tk(i)) {
            Some(o) => o,
            None => UnaryOp::Pos,
        }
    }

    pub fn starts_expr(&self, i: usize) -> (r: bool)
        ensures
            r == starts_expr(self@, i as int),
    {
        proof {
            reveal(starts_expr);
        }
        let t = self.tk(i);
        is_name_token(t) || self.is_prefix(i) || is_simple_token(t) || t == Token::IntLit || t
            == Token::StringHead || t == Token::Super || t == Token::LParen || t == Token::LBracket
            || t == Token::Match
    }

    pub fn int_at(&self, i: usize) -> (r: Option<i64>)
        requires
            self.wf(),
        ensures
            r == int_at(self@, i as int),
    {
        proof {
            reveal(int_at);
        }
        match parse_digits(&self.chars(i)) {
            Some(v) => if v <= i64::MAX as u64 {
                Some(v as i64)
            } else {
                None
            },
            None => None,
        }
    }

    pub fn neg_int_at(&self, i: usize) -> (r: Option<i64>)
        requires
            self.wf(),
        ensures
            r == neg_int_at(self@, i as int),
    {
        proof {
            reveal(neg_int_at);
        }
        match parse_digits(&self.chars(i)) {
            Some(v) => if v <= i64::MAX as u64 {
                Some(-(v as i64))
            } else {
                None
            },
            None => None,
        }
    }

    pub fn size_at(&self, i: usize) -> (r: Option<u64>)
        requires
            self.wf(),
        ensures
            r == size_at(self@, i as int),
    {
        proof {
            reveal(size_at);
        }
        parse_digits(&self.chars(i))
    }

    pub fn piece(&self, i: usize) -> (r: String)
        requires
            self.wf(),
        ensures
            r@ == piece(self@, i as int),
    {
        proof {
            reveal(piece);
        }
        text::to_text(&inner_of(&self.chars(i), 1))
    }

    pub fn is_simple(&self, i: usize) -> (r: bool)
        ensures
            r == is_simple(self@, i as int),
    {
        is_simple_token(self.tk(i))
    }

    pub fn simple(&self, i: usize) -> (r: ExprKind)
        requires
            self.wf(),
        ensures
            r.tree() == simple(self@, i as int),
    {
        proof {
            reveal(simple);
        }
        match self.tk(i) {
            Token::FloatLit => ExprKind::FloatLit(self.word(i)),
            Token::True => ExprKind::BoolLit(true),
            Token::False => ExprKind::BoolLit(false),
            Token::StringLit => {
                ExprKind::StringLit(text::to_text(&unescape(&inner_of(&self.chars(i), 1))))
            },
            Token::BlockStringLit => {
                ExprKind::StringLit(text::to_text(&unescape(&inner_of(&self.chars(i), 3))))
            },
            Token::CharLit => {
                let s = inner_of(&self.chars(i), 1);
                let c = if s.len() == 0 {
                    '\0'
                } else if s[0] == '\\' && s.len() > 1 {
                    escape_char_value(s[1])
                } else {
                    s[0]
                };
                ExprKind::CharLit(c)
            },
            Token::This => ExprKind::This,
            _ => ExprKind::Null,
        }
    }

    pub fn target(&self, i: usize) -> (r: Target)
        requires
            self.wf(),
        ensures
            r.tree() == target(self@, i as int),
    {
        proof {
            reveal(target);
        }
        if self.is_wildcard(i) {
            Target::Wildcard
        } else {
            Target::Name(self.word(i))
        }
    }

    pub fn is_class(&self, i: usize) -> (r: bool)
        ensures
            r == is_class(self@, i as int),
    {
        proof {
            reveal(is_class);
        }
        let t = self.tk(i);
        let u = self.tk_after(i, 1);
        t == Token::Class || ((t == Token::Open || t == Token::Sealed) && u == Token::Class) || (t
            == Token::Open && u == Token::Sealed && self.tk_after(i, 2) == Token::Class)
    }

    pub fn starts_declaration(&self, i: usize) -> (r: bool)
        ensures
            r == starts_declaration(self@, i as int),
    {
        proof {
            reveal(starts_declaration);
        }
        let t = self.tk(i);
        t == Token::Import || t == Token::Struct || t == Token::Enum || t == Token::Trait || t
            == Token::Extend || t == Token::Extern || (t == Token::Init && self.tk_after(i, 1)
            == Token::Do) || self.is_class(i)
    }

    pub fn is_conversion(&self, i: usize) -> (r: bool)
        ensures
            r == is_conversion(self@, i as int),
    {
        proof {
            reveal(is_conversion);
        }
        self.tk(i) == Token::Convert || (self.tk(i) == Token::Explicit && self.tk_after(i, 1)
            == Token::Convert)
    }

    pub fn is_property(&self, i: usize) -> (r: bool)
        ensures
            r == is_property(self@, i as int),
    {
        proof {
            reveal(is_property);
        }
        let u = self.tk_after(i, 1);
        let v = self.tk_after(i, 2);
        self.named(i) && ((u == Token::GetKw && v == Token::Do) || (u == Token::SetKw && v
            == Token::LParen))
    }

    pub fn is_constructor(&self, c: &ClassDecl, i: usize) -> (r: bool)
        requires
            self.wf(),
        ensures
            r == is_constructor(self@, c.tree(), i as int),
    {
        proof {
            reveal(is_constructor);
        }
        self.named(i) && self.tk_after(i, 1) == Token::LParen && text::same_text(
            &self.chars(i),
            &chars_of(c.name.as_str()),
        )
    }

    pub fn after_symbol(&self, i: usize) -> (r: usize)
        requires
            self.wf(),
            i <= self@.len(),
        ensures
            r == after_symbol(self@, i as int),
            i <= r <= self@.len(),
    {
        proof {
            reveal(after_symbol);
        }
        if self.tk(i) == Token::Newline {
            i
        } else if self.tk_after(i, 1) == Token::LParen {
            i + 1
        } else if self.tk_after(i, 1) == Token::Newline {
            i
        } else if self.tk_after(i, 2) == Token::LParen {
            i + 2
        } else if self.tk_after(i, 2) == Token::Newline {
            i
        } else if self.tk_after(i, 3) == Token::LParen {
            i + 3
        } else {
            i
        }
    }

    pub fn symbol(&self, i: usize, k: usize) -> (r: String)
        requires
            self.wf(),
        ensures
            r@ == symbol(self@, i as int, k as int),
    {
        proof {
            reveal(symbol);
        }
        let mut out: Vec<char> = Vec::new();
        let mut j: usize = i;
        while j < k
            invariant
                self.wf(),
                i <= j,
                j <= k || j == i,
                out@ == symbol(self@, i as int, j as int),
            decreases k - j,
        {
            reveal(symbol);
            let w = self.chars(j);
            if out.len() > 0 && w.len() > 0 && lexer::is_word_char(out[out.len() - 1]) && lexer::is_word_char(w[0]) {
                let ghost before = out@;
                out.push(' ');
                assert(out@ =~= before + seq![' ']);
            }
            text::push_text(&mut out, &w);
            j = j + 1;
        }
        assert(k <= i ==> symbol(self@, i as int, k as int) == Seq::<char>::empty());
        text::to_text(&out)
    }

    pub fn finished(&self, c: ClassDecl, k: usize) -> (r: ClassDecl)
        requires
            0 < k,
        ensures
            r.tree() == finished(self@, c.tree(), k as int),
    {
        proof {
            reveal(finished);
        }
        let mut d = c;
        d.span = Span::new(d.span.start, self.span_of(k - 1, k).end);
        d
    }
}

} // verus!
