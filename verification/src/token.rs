//! Tokens of the Hella language.
use vstd::prelude::*;
use crate::text::text_is;

verus! {

/// A range of byte offsets in a source text.
#[derive(Debug, Clone, Copy, PartialEq, Eq, Structural)]
pub struct Span {
    pub start: usize,
    pub end: usize,
}

impl Span {
    pub fn new(start: usize, end: usize) -> (r: Span)
        ensures
            r == (Span { start, end }),
    {
        Span { start, end }
    }
}

/// The kind of a token. What a name or a literal holds is read from the source at its span.
#[derive(Debug, Clone, Copy, PartialEq, Eq, Structural)]
pub enum Token {
    Newline,
    Ident,
    IntLit,
    FloatLit,
    CharLit,
    StringLit,
    BlockStringLit,
    StringHead,
    StringMid,
    StringTail,
    Import,
    Const,
    Typedef,
    Distinct,
    Struct,
    Class,
    Enum,
    Trait,
    Extend,
    Extern,
    Init,
    Has,
    Do,
    End,
    If,
    Else,
    While,
    Loop,
    For,
    In,
    Return,
    Break,
    Continue,
    Defer,
    Assert,
    DebugAssert,
    Match,
    Public,
    Private,
    Static,
    Sealed,
    Open,
    Override,
    Extends,
    Implements,
    Initialize,
    GetKw,
    SetKw,
    Operator,
    Convert,
    Explicit,
    To,
    Where,
    From,
    Ref,
    Out,
    Is,
    Not,
    And,
    Or,
    True,
    False,
    Null,
    This,
    Super,
    Int,
    Bool,
    Void,
    Str,
    Char,
    Float,
    Double,
    Any,
    Function,
    Vector,
    Arr,
    LParen,
    RParen,
    LBracket,
    RBracket,
    LBrace,
    RBrace,
    Comma,
    Semicolon,
    Colon,
    PathSep,
    Dot,
    DotDot,
    DotDotEq,
    Ellipsis,
    Question,
    Coalesce,
    NullDot,
    Plus,
    PlusPlus,
    PlusEq,
    Minus,
    MinusMinus,
    MinusEq,
    Arrow,
    Star,
    StarEq,
    Slash,
    SlashEq,
    Percent,
    PercentEq,
    Amp,
    AmpEq,
    Pipe,
    PipeEq,
    Caret,
    CaretEq,
    Tilde,
    Shl,
    ShlEq,
    Lt,
    Le,
    Gt,
    Ge,
    Eq,
    EqEq,
    NotEq,
    FatArrow,
    At,
    /// Past the last token.
    Eof,
}

/// A token with the bytes that it covers.
#[derive(Debug, Clone, Copy, PartialEq, Eq, Structural)]
pub struct SpannedToken {
    pub token: Token,
    pub span: Span,
}

/// The token that the word `w` stands for: a keyword, or an identifier.
pub open spec fn word_token(w: Seq<char>) -> Token {
    if w == "import"@ {
        Token::Import
    } else if w == "const"@ {
        Token::Const
    } else if w == "typedef"@ {
        Token::Typedef
    } else if w == "distinct"@ {
        Token::Distinct
    } else if w == "struct"@ {
        Token::Struct
    } else if w == "class"@ {
        Token::Class
    } else if w == "enum"@ {
        Token::Enum
    } else if w == "trait"@ {
        Token::Trait
    } else if w == "extend"@ {
        Token::Extend
    } else if w == "extern"@ {
        Token::Extern
    } else if w == "init"@ {
        Token::Init
    } else if w == "has"@ {
        Token::Has
    } else if w == "do"@ {
        Token::Do
    } else if w == "end"@ {
        Token::End
    } else if w == "if"@ {
        Token::If
    } else if w == "else"@ {
        Token::Else
    } else if w == "while"@ {
        Token::While
    } else if w == "loop"@ {
        Token::Loop
    } else if w == "for"@ {
        Token::For
    } else if w == "in"@ {
        Token::In
    } else if w == "return"@ {
        Token::Return
    } else if w == "break"@ {
        Token::Break
    } else if w == "continue"@ {
        Token::Continue
    } else if w == "defer"@ {
        Token::Defer
    } else if w == "assert"@ {
        Token::Assert
    } else if w == "debug_assert"@ {
        Token::DebugAssert
    } else if w == "match"@ {
        Token::Match
    } else if w == "public"@ {
        Token::Public
    } else if w == "private"@ {
        Token::Private
    } else if w == "static"@ {
        Token::Static
    } else if w == "sealed"@ {
        Token::Sealed
    } else if w == "open"@ {
        Token::Open
    } else if w == "override"@ {
        Token::Override
    } else if w == "extends"@ {
        Token::Extends
    } else if w == "implements"@ {
        Token::Implements
    } else if w == "initialize"@ {
        Token::Initialize
    } else if w == "get"@ {
        Token::GetKw
    } else if w == "set"@ {
        Token::SetKw
    } else if w == "operator"@ {
        Token::Operator
    } else if w == "convert"@ {
        Token::Convert
    } else if w == "explicit"@ {
        Token::Explicit
    } else if w == "to"@ {
        Token::To
    } else if w == "where"@ {
        Token::Where
    } else if w == "from"@ {
        Token::From
    } else if w == "ref"@ {
        Token::Ref
    } else if w == "out"@ {
        Token::Out
    } else if w == "is"@ {
        Token::Is
    } else if w == "not"@ {
        Token::Not
    } else if w == "and"@ {
        Token::And
    } else if w == "or"@ {
        Token::Or
    } else if w == "true"@ {
        Token::True
    } else if w == "false"@ {
        Token::False
    } else if w == "null"@ {
        Token::Null
    } else if w == "this"@ {
        Token::This
    } else if w == "super"@ {
        Token::Super
    } else if w == "int"@ {
        Token::Int
    } else if w == "bool"@ {
        Token::Bool
    } else if w == "void"@ {
        Token::Void
    } else if w == "string"@ {
        Token::Str
    } else if w == "char"@ {
        Token::Char
    } else if w == "float"@ {
        Token::Float
    } else if w == "double"@ {
        Token::Double
    } else if w == "any"@ {
        Token::Any
    } else if w == "function"@ {
        Token::Function
    } else if w == "vec"@ {
        Token::Vector
    } else if w == "arr"@ {
        Token::Arr
    } else {
        Token::Ident
    }
}

/// What a token looks like in messages: keywords and symbols stand for themselves.
pub open spec fn token_text(t: Token) -> Seq<char> {
    match t {
        Token::Newline => "<newline>"@,
        Token::Eof => "<eof>"@,
        Token::Ident => "identifier"@,
        Token::IntLit => "integer"@,
        Token::FloatLit => "float"@,
        Token::CharLit => "char"@,
        Token::StringLit => "string"@,
        Token::BlockStringLit => "string"@,
        Token::StringHead => "string"@,
        Token::StringMid => "string"@,
        Token::StringTail => "string"@,
        Token::Import => "import"@,
        Token::Const => "const"@,
        Token::Typedef => "typedef"@,
        Token::Distinct => "distinct"@,
        Token::Struct => "struct"@,
        Token::Class => "class"@,
        Token::Enum => "enum"@,
        Token::Trait => "trait"@,
        Token::Extend => "extend"@,
        Token::Extern => "extern"@,
        Token::Init => "init"@,
        Token::Has => "has"@,
        Token::Do => "do"@,
        Token::End => "end"@,
        Token::If => "if"@,
        Token::Else => "else"@,
        Token::While => "while"@,
        Token::Loop => "loop"@,
        Token::For => "for"@,
        Token::In => "in"@,
        Token::Return => "return"@,
        Token::Break => "break"@,
        Token::Continue => "continue"@,
        Token::Defer => "defer"@,
        Token::Assert => "assert"@,
        Token::DebugAssert => "debug_assert"@,
        Token::Match => "match"@,
        Token::Public => "public"@,
        Token::Private => "private"@,
        Token::Static => "static"@,
        Token::Sealed => "sealed"@,
        Token::Open => "open"@,
        Token::Override => "override"@,
        Token::Extends => "extends"@,
        Token::Implements => "implements"@,
        Token::Initialize => "initialize"@,
        Token::GetKw => "get"@,
        Token::SetKw => "set"@,
        Token::Operator => "operator"@,
        Token::Convert => "convert"@,
        Token::Explicit => "explicit"@,
        Token::To => "to"@,
        Token::Where => "where"@,
        Token::From => "from"@,
        Token::Ref => "ref"@,
        Token::Out => "out"@,
        Token::Is => "is"@,
        Token::Not => "not"@,
        Token::And => "and"@,
        Token::Or => "or"@,
        Token::True => "true"@,
        Token::False => "false"@,
        Token::Null => "null"@,
        Token::This => "this"@,
        Token::Super => "super"@,
        Token::Int => "int"@,
        Token::Bool => "bool"@,
        Token::Void => "void"@,
        Token::Str => "string"@,
        Token::Char => "char"@,
        Token::Float => "float"@,
        Token::Double => "double"@,
        Token::Any => "any"@,
        Token::Function => "function"@,
        Token::Vector => "vec"@,
        Token::Arr => "arr"@,
        Token::LParen => "("@,
        Token::RParen => ")"@,
        Token::LBracket => "["@,
        Token::RBracket => "]"@,
        Token::LBrace => "{"@,
        Token::RBrace => "}"@,
        Token::Comma => ","@,
        Token::Semicolon => ";"@,
        Token::Colon => ":"@,
        Token::PathSep => "::"@,
        Token::Dot => "."@,
        Token::DotDot => ".."@,
        Token::DotDotEq => "..="@,
        Token::Ellipsis => "..."@,
        Token::Question => "?"@,
        Token::Coalesce => "??"@,
        Token::NullDot => "?."@,
        Token::Plus => "+"@,
        Token::PlusPlus => "++"@,
        Token::PlusEq => "+="@,
        Token::Minus => "-"@,
        Token::MinusMinus => "--"@,
        Token::MinusEq => "-="@,
        Token::Arrow => "->"@,
        Token::Star => "*"@,
        Token::StarEq => "*="@,
        Token::Slash => "/"@,
        Token::SlashEq => "/="@,
        Token::Percent => "%"@,
        Token::PercentEq => "%="@,
        Token::Amp => "&"@,
        Token::AmpEq => "&="@,
        Token::Pipe => "|"@,
        Token::PipeEq => "|="@,
        Token::Caret => "^"@,
        Token::CaretEq => "^="@,
        Token::Tilde => "~"@,
        Token::Shl => "<<"@,
        Token::ShlEq => "<<="@,
        Token::Lt => "<"@,
        Token::Le => "<="@,
        Token::Gt => ">"@,
        Token::Ge => ">="@,
        Token::Eq => "="@,
        Token::EqEq => "=="@,
        Token::NotEq => "!="@,
        Token::FatArrow => "=>"@,
        Token::At => "@"@,
    }
}

impl Token {
    /// The token as it is named in messages.
    pub fn describe(&self) -> (r: String)
        ensures
            r@ == token_text(*self),
    {
        let s: &str = match *self {
            Token::Newline => "<newline>",
            Token::Eof => "<eof>",
            Token::Ident => "identifier",
            Token::IntLit => "integer",
            Token::FloatLit => "float",
            Token::CharLit => "char",
            Token::StringLit => "string",
            Token::BlockStringLit => "string",
            Token::StringHead => "string",
            Token::StringMid => "string",
            Token::StringTail => "string",
            Token::Import => "import",
            Token::Const => "const",
            Token::Typedef => "typedef",
            Token::Distinct => "distinct",
            Token::Struct => "struct",
            Token::Class => "class",
            Token::Enum => "enum",
            Token::Trait => "trait",
            Token::Extend => "extend",
            Token::Extern => "extern",
            Token::Init => "init",
            Token::Has => "has",
            Token::Do => "do",
            Token::End => "end",
            Token::If => "if",
            Token::Else => "else",
            Token::While => "while",
            Token::Loop => "loop",
            Token::For => "for",
            Token::In => "in",
            Token::Return => "return",
            Token::Break => "break",
            Token::Continue => "continue",
            Token::Defer => "defer",
            Token::Assert => "assert",
            Token::DebugAssert => "debug_assert",
            Token::Match => "match",
            Token::Public => "public",
            Token::Private => "private",
            Token::Static => "static",
            Token::Sealed => "sealed",
            Token::Open => "open",
            Token::Override => "override",
            Token::Extends => "extends",
            Token::Implements => "implements",
            Token::Initialize => "initialize",
            Token::GetKw => "get",
            Token::SetKw => "set",
            Token::Operator => "operator",
            Token::Convert => "convert",
            Token::Explicit => "explicit",
            Token::To => "to",
            Token::Where => "where",
            Token::From => "from",
            Token::Ref => "ref",
            Token::Out => "out",
            Token::Is => "is",
            Token::Not => "not",
            Token::And => "and",
            Token::Or => "or",
            Token::True => "true",
            Token::False => "false",
            Token::Null => "null",
            Token::This => "this",
            Token::Super => "super",
            Token::Int => "int",
            Token::Bool => "bool",
            Token::Void => "void",
            Token::Str => "string",
            Token::Char => "char",
            Token::Float => "float",
            Token::Double => "double",
            Token::Any => "any",
            Token::Function => "function",
            Token::Vector => "vec",
            Token::Arr => "arr",
            Token::LParen => "(",
            Token::RParen => ")",
            Token::LBracket => "[",
            Token::RBracket => "]",
            Token::LBrace => "{",
            Token::RBrace => "}",
            Token::Comma => ",",
            Token::Semicolon => ";",
            Token::Colon => ":",
            Token::PathSep => "::",
            Token::Dot => ".",
            Token::DotDot => "..",
            Token::DotDotEq => "..=",
            Token::Ellipsis => "...",
            Token::Question => "?",
            Token::Coalesce => "??",
            Token::NullDot => "?.",
            Token::Plus => "+",
            Token::PlusPlus => "++",
            Token::PlusEq => "+=",
            Token::Minus => "-",
            Token::MinusMinus => "--",
            Token::MinusEq => "-=",
            Token::Arrow => "->",
            Token::Star => "*",
            Token::StarEq => "*=",
            Token::Slash => "/",
            Token::SlashEq => "/=",
            Token::Percent => "%",
            Token::PercentEq => "%=",
            Token::Amp => "&",
            Token::AmpEq => "&=",
            Token::Pipe => "|",
            Token::PipeEq => "|=",
            Token::Caret => "^",
            Token::CaretEq => "^=",
            Token::Tilde => "~",
            Token::Shl => "<<",
            Token::ShlEq => "<<=",
            Token::Lt => "<",
            Token::Le => "<=",
            Token::Gt => ">",
            Token::Ge => ">=",
            Token::Eq => "=",
            Token::EqEq => "==",
            Token::NotEq => "!=",
            Token::FatArrow => "=>",
            Token::At => "@",
        };
        s.to_owned()
    }
}

/// The token that the word `w` stands for.
pub fn token_of_word(w: &Vec<char>) -> (t: Token)
    ensures
        t == word_token(w@),
{
    if text_is(w, "import") {
        Token::Import
    } else if text_is(w, "const") {
        Token::Const
    } else if text_is(w, "typedef") {
        Token::Typedef
    } else if text_is(w, "distinct") {
        Token::Distinct
    } else if text_is(w, "struct") {
        Token::Struct
    } else if text_is(w, "class") {
        Token::Class
    } else if text_is(w, "enum") {
        Token::Enum
    } else if text_is(w, "trait") {
        Token::Trait
    } else if text_is(w, "extend") {
        Token::Extend
    } else if text_is(w, "extern") {
        Token::Extern
    } else if text_is(w, "init") {
        Token::Init
    } else if text_is(w, "has") {
        Token::Has
    } else if text_is(w, "do") {
        Token::Do
    } else if text_is(w, "end") {
        Token::End
    } else if text_is(w, "if") {
        Token::If
    } else if text_is(w, "else") {
        Token::Else
    } else if text_is(w, "while") {
        Token::While
    } else if text_is(w, "loop") {
        Token::Loop
    } else if text_is(w, "for") {
        Token::For
    } else if text_is(w, "in") {
        Token::In
    } else if text_is(w, "return") {
        Token::Return
    } else if text_is(w, "break") {
        Token::Break
    } else if text_is(w, "continue") {
        Token::Continue
    } else if text_is(w, "defer") {
        Token::Defer
    } else if text_is(w, "assert") {
        Token::Assert
    } else if text_is(w, "debug_assert") {
        Token::DebugAssert
    } else if text_is(w, "match") {
        Token::Match
    } else if text_is(w, "public") {
        Token::Public
    } else if text_is(w, "private") {
        Token::Private
    } else if text_is(w, "static") {
        Token::Static
    } else if text_is(w, "sealed") {
        Token::Sealed
    } else if text_is(w, "open") {
        Token::Open
    } else if text_is(w, "override") {
        Token::Override
    } else if text_is(w, "extends") {
        Token::Extends
    } else if text_is(w, "implements") {
        Token::Implements
    } else if text_is(w, "initialize") {
        Token::Initialize
    } else if text_is(w, "get") {
        Token::GetKw
    } else if text_is(w, "set") {
        Token::SetKw
    } else if text_is(w, "operator") {
        Token::Operator
    } else if text_is(w, "convert") {
        Token::Convert
    } else if text_is(w, "explicit") {
        Token::Explicit
    } else if text_is(w, "to") {
        Token::To
    } else if text_is(w, "where") {
        Token::Where
    } else if text_is(w, "from") {
        Token::From
    } else if text_is(w, "ref") {
        Token::Ref
    } else if text_is(w, "out") {
        Token::Out
    } else if text_is(w, "is") {
        Token::Is
    } else if text_is(w, "not") {
        Token::Not
    } else if text_is(w, "and") {
        Token::And
    } else if text_is(w, "or") {
        Token::Or
    } else if text_is(w, "true") {
        Token::True
    } else if text_is(w, "false") {
        Token::False
    } else if text_is(w, "null") {
        Token::Null
    } else if text_is(w, "this") {
        Token::This
    } else if text_is(w, "super") {
        Token::Super
    } else if text_is(w, "int") {
        Token::Int
    } else if text_is(w, "bool") {
        Token::Bool
    } else if text_is(w, "void") {
        Token::Void
    } else if text_is(w, "string") {
        Token::Str
    } else if text_is(w, "char") {
        Token::Char
    } else if text_is(w, "float") {
        Token::Float
    } else if text_is(w, "double") {
        Token::Double
    } else if text_is(w, "any") {
        Token::Any
    } else if text_is(w, "function") {
        Token::Function
    } else if text_is(w, "vec") {
        Token::Vector
    } else if text_is(w, "arr") {
        Token::Arr
    } else {
        Token::Ident
    }
}

} // verus!
