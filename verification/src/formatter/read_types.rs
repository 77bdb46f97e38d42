//! Types: what is written for them is read back as it is.
use vstd::prelude::*;
use crate::formatter::compact;
use crate::formatter::read_back;
use crate::formatter::settle_imports;
use crate::laws;
use crate::lexer;
use crate::lexer::{Lexed, Piece};
use crate::parse::grammar_types;
use crate::parse::input;
use crate::parse::input::Input;
use crate::parse::rules;
use crate::text;
use crate::token;
use crate::token::{SpannedToken, Token};
use crate::tree;

verus! {

broadcast use input::group_forward;

/// Whether a type is made of words and suffixes. What a suffix or a key stands after is no map type.
pub open spec fn is_suffixed(t: tree::Type) -> bool
    decreases t,
{
    match t {
        tree::Type::Named(n) => settle_imports::is_name_text(n),
        tree::Type::Array(e) => is_suffixed(*e) && !(*e is Mapping),
        tree::Type::FixedArray(e, _) => is_suffixed(*e) && !(*e is Mapping),
        tree::Type::Vector(e) => is_suffixed(*e) && !(*e is Mapping),
        tree::Type::Pointer(e) => is_suffixed(*e) && !(*e is Mapping),
        tree::Type::Optional(e) => is_suffixed(*e) && !(*e is Mapping),
        tree::Type::Mapping(k, v) => is_suffixed(*k) && !(*k is Mapping) && is_suffixed(*v),
        tree::Type::Generic(_, _) => false,
        tree::Type::Function(_, _) => false,
        tree::Type::Tuple(_) => false,
        _ => true,
    }
}

/// The number of tokens of a type.
pub open spec fn count(t: tree::Type) -> int
    decreases t,
{
    match t {
        tree::Type::Array(e) => count(*e) + 2,
        tree::Type::FixedArray(e, n) => count(*e) + (if n is Some {
            4int
        } else {
            1int
        }),
        tree::Type::Vector(e) => count(*e) + 1,
        tree::Type::Pointer(e) => count(*e) + 1,
        tree::Type::Optional(e) => count(*e) + 1,
        tree::Type::Mapping(k, v) => count(*k) + 1 + count(*v),
        _ => 1,
    }
}

/// Whether the tokens of a type stand at `k`.
pub open spec fn stands(x: Input, k: int, t: tree::Type) -> bool
    decreases t,
{
    let w = input::tk(x, k);
    &&& 0 <= k
    &&& k + count(t) <= x.len()
    &&& match t {
        tree::Type::Int => w == Token::Int,
        tree::Type::Bool => w == Token::Bool,
        tree::Type::Void => w == Token::Void,
        tree::Type::Str => w == Token::Str,
        tree::Type::Char => w == Token::Char,
        tree::Type::Float => w == Token::Float,
        tree::Type::Double => w == Token::Double,
        tree::Type::Any => w == Token::Any,
        tree::Type::Named(n) => input::is_name(w) && input::word(x, k) == n,
        tree::Type::Array(e) => {
            let j = k + count(*e);
            stands(x, k, *e) && input::tk(x, j) == Token::LBracket && input::tk(x, j + 1) == Token::RBracket
        },
        tree::Type::FixedArray(e, n) => {
            let j = k + count(*e);
            &&& stands(x, k, *e)
            &&& input::tk(x, j) == Token::Arr
            &&& n is Some ==> input::tk(x, j + 1) == Token::LBracket && input::tk(x, j + 2) == Token::IntLit
                && input::digits_value(input::word(x, j + 2)) == n->0 && input::tk(x, j + 3) == Token::RBracket
        },
        tree::Type::Vector(e) => stands(x, k, *e) && input::tk(x, k + count(*e)) == Token::Vector,
        tree::Type::Pointer(e) => stands(x, k, *e) && input::tk(x, k + count(*e)) == Token::Star,
        tree::Type::Optional(e) => stands(x, k, *e) && input::tk(x, k + count(*e)) == Token::Question,
        tree::Type::Mapping(a, v) => {
            let j = k + count(*a);
            stands(x, k, *a) && input::tk(x, j) == Token::Colon && stands(x, j + 1, *v)
        },
        _ => false,
    }
}

proof fn lemma_count(t: tree::Type)
    ensures
        count(t) >= 1,
    decreases t,
{
    match t {
        tree::Type::Array(e) => lemma_count(*e),
        tree::Type::FixedArray(e, _) => lemma_count(*e),
        tree::Type::Vector(e) => lemma_count(*e),
        tree::Type::Pointer(e) => lemma_count(*e),
        tree::Type::Optional(e) => lemma_count(*e),
        tree::Type::Mapping(k, v) => {
            lemma_count(*k);
            lemma_count(*v);
        },
        _ => {},
    }
}

/// Tokens stand where they stood when more follow.
proof fn lemma_stands_on(s: Seq<char>, a: Seq<SpannedToken>, b: Seq<SpannedToken>, k: int, t: tree::Type)
    requires
        stands(Input { toks: a, src: s }, k, t),
        a.len() <= b.len(),
        forall|j: int| 0 <= j < a.len() ==> #[trigger] b[j] == a[j],
    ensures
        stands(Input { toks: b, src: s }, k, t),
    decreases t,
{
    lemma_count(t);
    let x = Input { toks: a, src: s };
    let y = Input { toks: b, src: s };
    assert forall|j: int| 0 <= j < a.len() implies #[trigger] input::tk(y, j) == input::tk(x, j) && input::word(y, j)
        == input::word(x, j) by {
        assert(b[j] == a[j]);
    }
    assert(input::tk(y, k) == input::tk(x, k));
    match t {
        tree::Type::Array(e) => {
            lemma_count(*e);
            lemma_stands_on(s, a, b, k, *e);
            assert(input::tk(y, k + count(*e)) == input::tk(x, k + count(*e)));
            assert(input::tk(y, k + count(*e) + 1) == input::tk(x, k + count(*e) + 1));
        },
        tree::Type::FixedArray(e, n) => {
            lemma_count(*e);
            lemma_stands_on(s, a, b, k, *e);
            let j = k + count(*e);
            assert(input::tk(y, j) == input::tk(x, j));
            if n is Some {
                assert(input::tk(y, j + 1) == input::tk(x, j + 1));
                assert(input::tk(y, j + 2) == input::tk(x, j + 2));
                assert(input::tk(y, j + 3) == input::tk(x, j + 3));
            }
        },
        tree::Type::Vector(e) => {
            lemma_count(*e);
            lemma_stands_on(s, a, b, k, *e);
            assert(input::tk(y, k + count(*e)) == input::tk(x, k + count(*e)));
        },
        tree::Type::Pointer(e) => {
            lemma_count(*e);
            lemma_stands_on(s, a, b, k, *e);
            assert(input::tk(y, k + count(*e)) == input::tk(x, k + count(*e)));
        },
        tree::Type::Optional(e) => {
            lemma_count(*e);
            lemma_stands_on(s, a, b, k, *e);
            assert(input::tk(y, k + count(*e)) == input::tk(x, k + count(*e)));
        },
        tree::Type::Mapping(c, v) => {
            lemma_count(*c);
            lemma_count(*v);
            lemma_stands_on(s, a, b, k, *c);
            lemma_stands_on(s, a, b, k + count(*c) + 1, *v);
            assert(input::tk(y, k + count(*c)) == input::tk(x, k + count(*c)));
        },
        _ => {},
    }
}

/// The word `int` is a token of its own.
proof fn lemma_token_int()
    ensures
        token::word_token("int"@) == Token::Int,
{
    reveal_strlit("int");
    reveal_strlit("import");
    assert("int"@.len() != "import"@.len());
    reveal_strlit("const");
    assert("int"@.len() != "const"@.len());
    reveal_strlit("typedef");
    assert("int"@.len() != "typedef"@.len());
    reveal_strlit("distinct");
    assert("int"@.len() != "distinct"@.len());
    reveal_strlit("struct");
    assert("int"@.len() != "struct"@.len());
    reveal_strlit("class");
    assert("int"@.len() != "class"@.len());
    reveal_strlit("enum");
    assert("int"@.len() != "enum"@.len());
    reveal_strlit("trait");
    assert("int"@.len() != "trait"@.len());
    reveal_strlit("extend");
    assert("int"@.len() != "extend"@.len());
    reveal_strlit("extern");
    assert("int"@.len() != "extern"@.len());
    reveal_strlit("init");
    assert("int"@.len() != "init"@.len());
    reveal_strlit("has");
    assert("int"@[0] != "has"@[0]);
    reveal_strlit("do");
    assert("int"@.len() != "do"@.len());
    reveal_strlit("end");
    assert("int"@[0] != "end"@[0]);
    reveal_strlit("if");
    assert("int"@.len() != "if"@.len());
    reveal_strlit("else");
    assert("int"@.len() != "else"@.len());
    reveal_strlit("while");
    assert("int"@.len() != "while"@.len());
    reveal_strlit("loop");
    assert("int"@.len() != "loop"@.len());
    reveal_strlit("for");
    assert("int"@[0] != "for"@[0]);
    reveal_strlit("in");
    assert("int"@.len() != "in"@.len());
    reveal_strlit("return");
    assert("int"@.len() != "return"@.len());
    reveal_strlit("break");
    assert("int"@.len() != "break"@.len());
    reveal_strlit("continue");
    assert("int"@.len() != "continue"@.len());
    reveal_strlit("defer");
    assert("int"@.len() != "defer"@.len());
    reveal_strlit("assert");
    assert("int"@.len() != "assert"@.len());
    reveal_strlit("debug_assert");
    assert("int"@.len() != "debug_assert"@.len());
    reveal_strlit("match");
    assert("int"@.len() != "match"@.len());
    reveal_strlit("public");
    assert("int"@.len() != "public"@.len());
    reveal_strlit("private");
    assert("int"@.len() != "private"@.len());
    reveal_strlit("static");
    assert("int"@.len() != "static"@.len());
    reveal_strlit("sealed");
    assert("int"@.len() != "sealed"@.len());
    reveal_strlit("open");
    assert("int"@.len() != "open"@.len());
    reveal_strlit("override");
    assert("int"@.len() != "override"@.len());
    reveal_strlit("extends");
    assert("int"@.len() != "extends"@.len());
    reveal_strlit("implements");
    assert("int"@.len() != "implements"@.len());
    reveal_strlit("initialize");
    assert("int"@.len() != "initialize"@.len());
    reveal_strlit("get");
    assert("int"@[0] != "get"@[0]);
    reveal_strlit("set");
    assert("int"@[0] != "set"@[0]);
    reveal_strlit("operator");
    assert("int"@.len() != "operator"@.len());
    reveal_strlit("convert");
    assert("int"@.len() != "convert"@.len());
    reveal_strlit("explicit");
    assert("int"@.len() != "explicit"@.len());
    reveal_strlit("to");
    assert("int"@.len() != "to"@.len());
    reveal_strlit("where");
    assert("int"@.len() != "where"@.len());
    reveal_strlit("from");
    assert("int"@.len() != "from"@.len());
    reveal_strlit("ref");
    assert("int"@[0] != "ref"@[0]);
    reveal_strlit("out");
    assert("int"@[0] != "out"@[0]);
    reveal_strlit("is");
    assert("int"@.len() != "is"@.len());
    reveal_strlit("not");
    assert("int"@[0] != "not"@[0]);
    reveal_strlit("and");
    assert("int"@[0] != "and"@[0]);
    reveal_strlit("or");
    assert("int"@.len() != "or"@.len());
    reveal_strlit("true");
    assert("int"@.len() != "true"@.len());
    reveal_strlit("false");
    assert("int"@.len() != "false"@.len());
    reveal_strlit("null");
    assert("int"@.len() != "null"@.len());
    reveal_strlit("this");
    assert("int"@.len() != "this"@.len());
    reveal_strlit("super");
    assert("int"@.len() != "super"@.len());
}

/// The word `bool` is a token of its own.
proof fn lemma_token_bool()
    ensures
        token::word_token("bool"@) == Token::Bool,
{
    reveal_strlit("bool");
    reveal_strlit("import");
    assert("bool"@.len() != "import"@.len());
    reveal_strlit("const");
    assert("bool"@.len() != "const"@.len());
    reveal_strlit("typedef");
    assert("bool"@.len() != "typedef"@.len());
    reveal_strlit("distinct");
    assert("bool"@.len() != "distinct"@.len());
    reveal_strlit("struct");
    assert("bool"@.len() != "struct"@.len());
    reveal_strlit("class");
    assert("bool"@.len() != "class"@.len());
    reveal_strlit("enum");
    assert("bool"@[0] != "enum"@[0]);
    reveal_strlit("trait");
    assert("bool"@.len() != "trait"@.len());
    reveal_strlit("extend");
    assert("bool"@.len() != "extend"@.len());
    reveal_strlit("extern");
    assert("bool"@.len() != "extern"@.len());
    reveal_strlit("init");
    assert("bool"@[0] != "init"@[0]);
    reveal_strlit("has");
    assert("bool"@.len() != "has"@.len());
    reveal_strlit("do");
    assert("bool"@.len() != "do"@.len());
    reveal_strlit("end");
    assert("bool"@.len() != "end"@.len());
    reveal_strlit("if");
    assert("bool"@.len() != "if"@.len());
    reveal_strlit("else");
    assert("bool"@[0] != "else"@[0]);
    reveal_strlit("while");
    assert("bool"@.len() != "while"@.len());
    reveal_strlit("loop");
    assert("bool"@[0] != "loop"@[0]);
    reveal_strlit("for");
    assert("bool"@.len() != "for"@.len());
    reveal_strlit("in");
    assert("bool"@.len() != "in"@.len());
    reveal_strlit("return");
    assert("bool"@.len() != "return"@.len());
    reveal_strlit("break");
    assert("bool"@.len() != "break"@.len());
    reveal_strlit("continue");
    assert("bool"@.len() != "continue"@.len());
    reveal_strlit("defer");
    assert("bool"@.len() != "defer"@.len());
    reveal_strlit("assert");
    assert("bool"@.len() != "assert"@.len());
    reveal_strlit("debug_assert");
    assert("bool"@.len() != "debug_assert"@.len());
    reveal_strlit("match");
    assert("bool"@.len() != "match"@.len());
    reveal_strlit("public");
    assert("bool"@.len() != "public"@.len());
    reveal_strlit("private");
    assert("bool"@.len() != "private"@.len());
    reveal_strlit("static");
    assert("bool"@.len() != "static"@.len());
    reveal_strlit("sealed");
    assert("bool"@.len() != "sealed"@.len());
    reveal_strlit("open");
    assert("bool"@[0] != "open"@[0]);
    reveal_strlit("override");
    assert("bool"@.len() != "override"@.len());
    reveal_strlit("extends");
    assert("bool"@.len() != "extends"@.len());
    reveal_strlit("implements");
    assert("bool"@.len() != "implements"@.len());
    reveal_strlit("initialize");
    assert("bool"@.len() != "initialize"@.len());
    reveal_strlit("get");
    assert("bool"@.len() != "get"@.len());
    reveal_strlit("set");
    assert("bool"@.len() != "set"@.len());
    reveal_strlit("operator");
    assert("bool"@.len() != "operator"@.len());
    reveal_strlit("convert");
    assert("bool"@.len() != "convert"@.len());
    reveal_strlit("explicit");
    assert("bool"@.len() != "explicit"@.len());
    reveal_strlit("to");
    assert("bool"@.len() != "to"@.len());
    reveal_strlit("where");
    assert("bool"@.len() != "where"@.len());
    reveal_strlit("from");
    assert("bool"@[0] != "from"@[0]);
    reveal_strlit("ref");
    assert("bool"@.len() != "ref"@.len());
    reveal_strlit("out");
    assert("bool"@.len() != "out"@.len());
    reveal_strlit("is");
    assert("bool"@.len() != "is"@.len());
    reveal_strlit("not");
    assert("bool"@.len() != "not"@.len());
    reveal_strlit("and");
    assert("bool"@.len() != "and"@.len());
    reveal_strlit("or");
    assert("bool"@.len() != "or"@.len());
    reveal_strlit("true");
    assert("bool"@[0] != "true"@[0]);
    reveal_strlit("false");
    assert("bool"@.len() != "false"@.len());
    reveal_strlit("null");
    assert("bool"@[0] != "null"@[0]);
    reveal_strlit("this");
    assert("bool"@[0] != "this"@[0]);
    reveal_strlit("super");
    assert("bool"@.len() != "super"@.len());
    reveal_strlit("int");
    assert("bool"@.len() != "int"@.len());
}

/// The word `void` is a token of its own.
proof fn lemma_token_void()
    ensures
        token::word_token("void"@) == Token::Void,
{
    reveal_strlit("void");
    reveal_strlit("import");
    assert("void"@.len() != "import"@.len());
    reveal_strlit("const");
    assert("void"@.len() != "const"@.len());
    reveal_strlit("typedef");
    assert("void"@.len() != "typedef"@.len());
    reveal_strlit("distinct");
    assert("void"@.len() != "distinct"@.len());
    reveal_strlit("struct");
    assert("void"@.len() != "struct"@.len());
    reveal_strlit("class");
    assert("void"@.len() != "class"@.len());
    reveal_strlit("enum");
    assert("void"@[0] != "enum"@[0]);
    reveal_strlit("trait");
    assert("void"@.len() != "trait"@.len());
    reveal_strlit("extend");
    assert("void"@.len() != "extend"@.len());
    reveal_strlit("extern");
    assert("void"@.len() != "extern"@.len());
    reveal_strlit("init");
    assert("void"@[0] != "init"@[0]);
    reveal_strlit("has");
    assert("void"@.len() != "has"@.len());
    reveal_strlit("do");
    assert("void"@.len() != "do"@.len());
    reveal_strlit("end");
    assert("void"@.len() != "end"@.len());
    reveal_strlit("if");
    assert("void"@.len() != "if"@.len());
    reveal_strlit("else");
    assert("void"@[0] != "else"@[0]);
    reveal_strlit("while");
    assert("void"@.len() != "while"@.len());
    reveal_strlit("loop");
    assert("void"@[0] != "loop"@[0]);
    reveal_strlit("for");
    assert("void"@.len() != "for"@.len());
    reveal_strlit("in");
    assert("void"@.len() != "in"@.len());
    reveal_strlit("return");
    assert("void"@.len() != "return"@.len());
    reveal_strlit("break");
    assert("void"@.len() != "break"@.len());
    reveal_strlit("continue");
    assert("void"@.len() != "continue"@.len());
    reveal_strlit("defer");
    assert("void"@.len() != "defer"@.len());
    reveal_strlit("assert");
    assert("void"@.len() != "assert"@.len());
    reveal_strlit("debug_assert");
    assert("void"@.len() != "debug_assert"@.len());
    reveal_strlit("match");
    assert("void"@.len() != "match"@.len());
    reveal_strlit("public");
    assert("void"@.len() != "public"@.len());
    reveal_strlit("private");
    assert("void"@.len() != "private"@.len());
    reveal_strlit("static");
    assert("void"@.len() != "static"@.len());
    reveal_strlit("sealed");
    assert("void"@.len() != "sealed"@.len());
    reveal_strlit("open");
    assert("void"@[0] != "open"@[0]);
    reveal_strlit("override");
    assert("void"@.len() != "override"@.len());
    reveal_strlit("extends");
    assert("void"@.len() != "extends"@.len());
    reveal_strlit("implements");
    assert("void"@.len() != "implements"@.len());
    reveal_strlit("initialize");
    assert("void"@.len() != "initialize"@.len());
    reveal_strlit("get");
    assert("void"@.len() != "get"@.len());
    reveal_strlit("set");
    assert("void"@.len() != "set"@.len());
    reveal_strlit("operator");
    assert("void"@.len() != "operator"@.len());
    reveal_strlit("convert");
    assert("void"@.len() != "convert"@.len());
    reveal_strlit("explicit");
    assert("void"@.len() != "explicit"@.len());
    reveal_strlit("to");
    assert("void"@.len() != "to"@.len());
    reveal_strlit("where");
    assert("void"@.len() != "where"@.len());
    reveal_strlit("from");
    assert("void"@[0] != "from"@[0]);
    reveal_strlit("ref");
    assert("void"@.len() != "ref"@.len());
    reveal_strlit("out");
    assert("void"@.len() != "out"@.len());
    reveal_strlit("is");
    assert("void"@.len() != "is"@.len());
    reveal_strlit("not");
    assert("void"@.len() != "not"@.len());
    reveal_strlit("and");
    assert("void"@.len() != "and"@.len());
    reveal_strlit("or");
    assert("void"@.len() != "or"@.len());
    reveal_strlit("true");
    assert("void"@[0] != "true"@[0]);
    reveal_strlit("false");
    assert("void"@.len() != "false"@.len());
    reveal_strlit("null");
    assert("void"@[0] != "null"@[0]);
    reveal_strlit("this");
    assert("void"@[0] != "this"@[0]);
    reveal_strlit("super");
    assert("void"@.len() != "super"@.len());
    reveal_strlit("int");
    assert("void"@.len() != "int"@.len());
    reveal_strlit("bool");
    assert("void"@[0] != "bool"@[0]);
}

/// The word `string` is a token of its own.
proof fn lemma_token_string()
    ensures
        token::word_token("string"@) == Token::Str,
{
    reveal_strlit("string");
    reveal_strlit("import");
    assert("string"@[0] != "import"@[0]);
    reveal_strlit("const");
    assert("string"@.len() != "const"@.len());
    reveal_strlit("typedef");
    assert("string"@.len() != "typedef"@.len());
    reveal_strlit("distinct");
    assert("string"@.len() != "distinct"@.len());
    reveal_strlit("struct");
    assert("string"@[3] != "struct"@[3]);
    reveal_strlit("class");
    assert("string"@.len() != "class"@.len());
    reveal_strlit("enum");
    assert("string"@.len() != "enum"@.len());
    reveal_strlit("trait");
    assert("string"@.len() != "trait"@.len());
    reveal_strlit("extend");
    assert("string"@[0] != "extend"@[0]);
    reveal_strlit("extern");
    assert("string"@[0] != "extern"@[0]);
    reveal_strlit("init");
    assert("string"@.len() != "init"@.len());
    reveal_strlit("has");
    assert("string"@.len() != "has"@.len());
    reveal_strlit("do");
    assert("string"@.len() != "do"@.len());
    reveal_strlit("end");
    assert("string"@.len() != "end"@.len());
    reveal_strlit("if");
    assert("string"@.len() != "if"@.len());
    reveal_strlit("else");
    assert("string"@.len() != "else"@.len());
    reveal_strlit("while");
    assert("string"@.len() != "while"@.len());
    reveal_strlit("loop");
    assert("string"@.len() != "loop"@.len());
    reveal_strlit("for");
    assert("string"@.len() != "for"@.len());
    reveal_strlit("in");
    assert("string"@.len() != "in"@.len());
    reveal_strlit("return");
    assert("string"@[0] != "return"@[0]);
    reveal_strlit("break");
    assert("string"@.len() != "break"@.len());
    reveal_strlit("continue");
    assert("string"@.len() != "continue"@.len());
    reveal_strlit("defer");
    assert("string"@.len() != "defer"@.len());
    reveal_strlit("assert");
    assert("string"@[0] != "assert"@[0]);
    reveal_strlit("debug_assert");
    assert("string"@.len() != "debug_assert"@.len());
    reveal_strlit("match");
    assert("string"@.len() != "match"@.len());
    reveal_strlit("public");
    assert("string"@[0] != "public"@[0]);
    reveal_strlit("private");
    assert("string"@.len() != "private"@.len());
    reveal_strlit("static");
    assert("string"@[2] != "static"@[2]);
    reveal_strlit("sealed");
    assert("string"@[1] != "sealed"@[1]);
    reveal_strlit("open");
    assert("string"@.len() != "open"@.len());
    reveal_strlit("override");
    assert("string"@.len() != "override"@.len());
    reveal_strlit("extends");
    assert("string"@.len() != "extends"@.len());
    reveal_strlit("implements");
    assert("string"@.len() != "implements"@.len());
    reveal_strlit("initialize");
    assert("string"@.len() != "initialize"@.len());
    reveal_strlit("get");
    assert("string"@.len() != "get"@.len());
    reveal_strlit("set");
    assert("string"@.len() != "set"@.len());
    reveal_strlit("operator");
    assert("string"@.len() != "operator"@.len());
    reveal_strlit("convert");
    assert("string"@.len() != "convert"@.len());
    reveal_strlit("explicit");
    assert("string"@.len() != "explicit"@.len());
    reveal_strlit("to");
    assert("string"@.len() != "to"@.len());
    reveal_strlit("where");
    assert("string"@.len() != "where"@.len());
    reveal_strlit("from");
    assert("string"@.len() != "from"@.len());
    reveal_strlit("ref");
    assert("string"@.len() != "ref"@.len());
    reveal_strlit("out");
    assert("string"@.len() != "out"@.len());
    reveal_strlit("is");
    assert("string"@.len() != "is"@.len());
    reveal_strlit("not");
    assert("string"@.len() != "not"@.len());
    reveal_strlit("and");
    assert("string"@.len() != "and"@.len());
    reveal_strlit("or");
    assert("string"@.len() != "or"@.len());
    reveal_strlit("true");
    assert("string"@.len() != "true"@.len());
    reveal_strlit("false");
    assert("string"@.len() != "false"@.len());
    reveal_strlit("null");
    assert("string"@.len() != "null"@.len());
    reveal_strlit("this");
    assert("string"@.len() != "this"@.len());
    reveal_strlit("super");
    assert("string"@.len() != "super"@.len());
    reveal_strlit("int");
    assert("string"@.len() != "int"@.len());
    reveal_strlit("bool");
    assert("string"@.len() != "bool"@.len());
    reveal_strlit("void");
    assert("string"@.len() != "void"@.len());
}

/// The word `char` is a token of its own.
proof fn lemma_token_char()
    ensures
        token::word_token("char"@) == Token::Char,
{
    reveal_strlit("char");
    reveal_strlit("import");
    assert("char"@.len() != "import"@.len());
    reveal_strlit("const");
    assert("char"@.len() != "const"@.len());
    reveal_strlit("typedef");
    assert("char"@.len() != "typedef"@.len());
    reveal_strlit("distinct");
    assert("char"@.len() != "distinct"@.len());
    reveal_strlit("struct");
    assert("char"@.len() != "struct"@.len());
    reveal_strlit("class");
    assert("char"@.len() != "class"@.len());
    reveal_strlit("enum");
    assert("char"@[0] != "enum"@[0]);
    reveal_strlit("trait");
    assert("char"@.len() != "trait"@.len());
    reveal_strlit("extend");
    assert("char"@.len() != "extend"@.len());
    reveal_strlit("extern");
    assert("char"@.len() != "extern"@.len());
    reveal_strlit("init");
    assert("char"@[0] != "init"@[0]);
    reveal_strlit("has");
    assert("char"@.len() != "has"@.len());
    reveal_strlit("do");
    assert("char"@.len() != "do"@.len());
    reveal_strlit("end");
    assert("char"@.len() != "end"@.len());
    reveal_strlit("if");
    assert("char"@.len() != "if"@.len());
    reveal_strlit("else");
    assert("char"@[0] != "else"@[0]);
    reveal_strlit("while");
    assert("char"@.len() != "while"@.len());
    reveal_strlit("loop");
    assert("char"@[0] != "loop"@[0]);
    reveal_strlit("for");
    assert("char"@.len() != "for"@.len());
    reveal_strlit("in");
    assert("char"@.len() != "in"@.len());
    reveal_strlit("return");
    assert("char"@.len() != "return"@.len());
    reveal_strlit("break");
    assert("char"@.len() != "break"@.len());
    reveal_strlit("continue");
    assert("char"@.len() != "continue"@.len());
    reveal_strlit("defer");
    assert("char"@.len() != "defer"@.len());
    reveal_strlit("assert");
    assert("char"@.len() != "assert"@.len());
    reveal_strlit("debug_assert");
    assert("char"@.len() != "debug_assert"@.len());
    reveal_strlit("match");
    assert("char"@.len() != "match"@.len());
    reveal_strlit("public");
    assert("char"@.len() != "public"@.len());
    reveal_strlit("private");
    assert("char"@.len() != "private"@.len());
    reveal_strlit("static");
    assert("char"@.len() != "static"@.len());
    reveal_strlit("sealed");
    assert("char"@.len() != "sealed"@.len());
    reveal_strlit("open");
    assert("char"@[0] != "open"@[0]);
    reveal_strlit("override");
    assert("char"@.len() != "override"@.len());
    reveal_strlit("extends");
    assert("char"@.len() != "extends"@.len());
    reveal_strlit("implements");
    assert("char"@.len() != "implements"@.len());
    reveal_strlit("initialize");
    assert("char"@.len() != "initialize"@.len());
    reveal_strlit("get");
    assert("char"@.len() != "get"@.len());
    reveal_strlit("set");
    assert("char"@.len() != "set"@.len());
    reveal_strlit("operator");
    assert("char"@.len() != "operator"@.len());
    reveal_strlit("convert");
    assert("char"@.len() != "convert"@.len());
    reveal_strlit("explicit");
    assert("char"@.len() != "explicit"@.len());
    reveal_strlit("to");
    assert("char"@.len() != "to"@.len());
    reveal_strlit("where");
    assert("char"@.len() != "where"@.len());
    reveal_strlit("from");
    assert("char"@[0] != "from"@[0]);
    reveal_strlit("ref");
    assert("char"@.len() != "ref"@.len());
    reveal_strlit("out");
    assert("char"@.len() != "out"@.len());
    reveal_strlit("is");
    assert("char"@.len() != "is"@.len());
    reveal_strlit("not");
    assert("char"@.len() != "not"@.len());
    reveal_strlit("and");
    assert("char"@.len() != "and"@.len());
    reveal_strlit("or");
    assert("char"@.len() != "or"@.len());
    reveal_strlit("true");
    assert("char"@[0] != "true"@[0]);
    reveal_strlit("false");
    assert("char"@.len() != "false"@.len());
    reveal_strlit("null");
    assert("char"@[0] != "null"@[0]);
    reveal_strlit("this");
    assert("char"@[0] != "this"@[0]);
    reveal_strlit("super");
    assert("char"@.len() != "super"@.len());
    reveal_strlit("int");
    assert("char"@.len() != "int"@.len());
    reveal_strlit("bool");
    assert("char"@[0] != "bool"@[0]);
    reveal_strlit("void");
    assert("char"@[0] != "void"@[0]);
    reveal_strlit("string");
    assert("char"@.len() != "string"@.len());
}

/// The word `float` is a token of its own.
proof fn lemma_token_float()
    ensures
        token::word_token("float"@) == Token::Float,
{
    reveal_strlit("float");
    reveal_strlit("import");
    assert("float"@.len() != "import"@.len());
    reveal_strlit("const");
    assert("float"@[0] != "const"@[0]);
    reveal_strlit("typedef");
    assert("float"@.len() != "typedef"@.len());
    reveal_strlit("distinct");
    assert("float"@.len() != "distinct"@.len());
    reveal_strlit("struct");
    assert("float"@.len() != "struct"@.len());
    reveal_strlit("class");
    assert("float"@[0] != "class"@[0]);
    reveal_strlit("enum");
    assert("float"@.len() != "enum"@.len());
    reveal_strlit("trait");
    assert("float"@[0] != "trait"@[0]);
    reveal_strlit("extend");
    assert("float"@.len() != "extend"@.len());
    reveal_strlit("extern");
    assert("float"@.len() != "extern"@.len());
    reveal_strlit("init");
    assert("float"@.len() != "init"@.len());
    reveal_strlit("has");
    assert("float"@.len() != "has"@.len());
    reveal_strlit("do");
    assert("float"@.len() != "do"@.len());
    reveal_strlit("end");
    assert("float"@.len() != "end"@.len());
    reveal_strlit("if");
    assert("float"@.len() != "if"@.len());
    reveal_strlit("else");
    assert("float"@.len() != "else"@.len());
    reveal_strlit("while");
    assert("float"@[0] != "while"@[0]);
    reveal_strlit("loop");
    assert("float"@.len() != "loop"@.len());
    reveal_strlit("for");
    assert("float"@.len() != "for"@.len());
    reveal_strlit("in");
    assert("float"@.len() != "in"@.len());
    reveal_strlit("return");
    assert("float"@.len() != "return"@.len());
    reveal_strlit("break");
    assert("float"@[0] != "break"@[0]);
    reveal_strlit("continue");
    assert("float"@.len() != "continue"@.len());
    reveal_strlit("defer");
    assert("float"@[0] != "defer"@[0]);
    reveal_strlit("assert");
    assert("float"@.len() != "assert"@.len());
    reveal_strlit("debug_assert");
    assert("float"@.len() != "debug_assert"@.len());
    reveal_strlit("match");
    assert("float"@[0] != "match"@[0]);
    reveal_strlit("public");
    assert("float"@.len() != "public"@.len());
    reveal_strlit("private");
    assert("float"@.len() != "private"@.len());
    reveal_strlit("static");
    assert("float"@.len() != "static"@.len());
    reveal_strlit("sealed");
    assert("float"@.len() != "sealed"@.len());
    reveal_strlit("open");
    assert("float"@.len() != "open"@.len());
    reveal_strlit("override");
    assert("float"@.len() != "override"@.len());
    reveal_strlit("extends");
    assert("float"@.len() != "extends"@.len());
    reveal_strlit("implements");
    assert("float"@.len() != "implements"@.len());
    reveal_strlit("initialize");
    assert("float"@.len() != "initialize"@.len());
    reveal_strlit("get");
    assert("float"@.len() != "get"@.len());
    reveal_strlit("set");
    assert("float"@.len() != "set"@.len());
    reveal_strlit("operator");
    assert("float"@.len() != "operator"@.len());
    reveal_strlit("convert");
    assert("float"@.len() != "convert"@.len());
    reveal_strlit("explicit");
    assert("float"@.len() != "explicit"@.len());
    reveal_strlit("to");
    assert("float"@.len() != "to"@.len());
    reveal_strlit("where");
    assert("float"@[0] != "where"@[0]);
    reveal_strlit("from");
    assert("float"@.len() != "from"@.len());
    reveal_strlit("ref");
    assert("float"@.len() != "ref"@.len());
    reveal_strlit("out");
    assert("float"@.len() != "out"@.len());
    reveal_strlit("is");
    assert("float"@.len() != "is"@.len());
    reveal_strlit("not");
    assert("float"@.len() != "not"@.len());
    reveal_strlit("and");
    assert("float"@.len() != "and"@.len());
    reveal_strlit("or");
    assert("float"@.len() != "or"@.len());
    reveal_strlit("true");
    assert("float"@.len() != "true"@.len());
    reveal_strlit("false");
    assert("float"@[1] != "false"@[1]);
    reveal_strlit("null");
    assert("float"@.len() != "null"@.len());
    reveal_strlit("this");
    assert("float"@.len() != "this"@.len());
    reveal_strlit("super");
    assert("float"@[0] != "super"@[0]);
    reveal_strlit("int");
    assert("float"@.len() != "int"@.len());
    reveal_strlit("bool");
    assert("float"@.len() != "bool"@.len());
    reveal_strlit("void");
    assert("float"@.len() != "void"@.len());
    reveal_strlit("string");
    assert("float"@.len() != "string"@.len());
    reveal_strlit("char");
    assert("float"@.len() != "char"@.len());
}

/// The word `double` is a token of its own.
proof fn lemma_token_double()
    ensures
        token::word_token("double"@) == Token::Double,
{
    reveal_strlit("double");
    reveal_strlit("import");
    assert("double"@[0] != "import"@[0]);
    reveal_strlit("const");
    assert("double"@.len() != "const"@.len());
    reveal_strlit("typedef");
    assert("double"@.len() != "typedef"@.len());
    reveal_strlit("distinct");
    assert("double"@.len() != "distinct"@.len());
    reveal_strlit("struct");
    assert("double"@[0] != "struct"@[0]);
    reveal_strlit("class");
    assert("double"@.len() != "class"@.len());
    reveal_strlit("enum");
    assert("double"@.len() != "enum"@.len());
    reveal_strlit("trait");
    assert("double"@.len() != "trait"@.len());
    reveal_strlit("extend");
    assert("double"@[0] != "extend"@[0]);
    reveal_strlit("extern");
    assert("double"@[0] != "extern"@[0]);
    reveal_strlit("init");
    assert("double"@.len() != "init"@.len());
    reveal_strlit("has");
    assert("double"@.len() != "has"@.len());
    reveal_strlit("do");
    assert("double"@.len() != "do"@.len());
    reveal_strlit("end");
    assert("double"@.len() != "end"@.len());
    reveal_strlit("if");
    assert("double"@.len() != "if"@.len());
    reveal_strlit("else");
    assert("double"@.len() != "else"@.len());
    reveal_strlit("while");
    assert("double"@.len() != "while"@.len());
    reveal_strlit("loop");
    assert("double"@.len() != "loop"@.len());
    reveal_strlit("for");
    assert("double"@.len() != "for"@.len());
    reveal_strlit("in");
    assert("double"@.len() != "in"@.len());
    reveal_strlit("return");
    assert("double"@[0] != "return"@[0]);
    reveal_strlit("break");
    assert("double"@.len() != "break"@.len());
    reveal_strlit("continue");
    assert("double"@.len() != "continue"@.len());
    reveal_strlit("defer");
    assert("double"@.len() != "defer"@.len());
    reveal_strlit("assert");
    assert("double"@[0] != "assert"@[0]);
    reveal_strlit("debug_assert");
    assert("double"@.len() != "debug_assert"@.len());
    reveal_strlit("match");
    assert("double"@.len() != "match"@.len());
    reveal_strlit("public");
    assert("double"@[0] != "public"@[0]);
    reveal_strlit("private");
    assert("double"@.len() != "private"@.len());
    reveal_strlit("static");
    assert("double"@[0] != "static"@[0]);
    reveal_strlit("sealed");
    assert("double"@[0] != "sealed"@[0]);
    reveal_strlit("open");
    assert("double"@.len() != "open"@.len());
    reveal_strlit("override");
    assert("double"@.len() != "override"@.len());
    reveal_strlit("extends");
    assert("double"@.len() != "extends"@.len());
    reveal_strlit("implements");
    assert("double"@.len() != "implements"@.len());
    reveal_strlit("initialize");
    assert("double"@.len() != "initialize"@.len());
    reveal_strlit("get");
    assert("double"@.len() != "get"@.len());
    reveal_strlit("set");
    assert("double"@.len() != "set"@.len());
    reveal_strlit("operator");
    assert("double"@.len() != "operator"@.len());
    reveal_strlit("convert");
    assert("double"@.len() != "convert"@.len());
    reveal_strlit("explicit");
    assert("double"@.len() != "explicit"@.len());
    reveal_strlit("to");
    assert("double"@.len() != "to"@.len());
    reveal_strlit("where");
    assert("double"@.len() != "where"@.len());
    reveal_strlit("from");
    assert("double"@.len() != "from"@.len());
    reveal_strlit("ref");
    assert("double"@.len() != "ref"@.len());
    reveal_strlit("out");
    assert("double"@.len() != "out"@.len());
    reveal_strlit("is");
    assert("double"@.len() != "is"@.len());
    reveal_strlit("not");
    assert("double"@.len() != "not"@.len());
    reveal_strlit("and");
    assert("double"@.len() != "and"@.len());
    reveal_strlit("or");
    assert("double"@.len() != "or"@.len());
    reveal_strlit("true");
    assert("double"@.len() != "true"@.len());
    reveal_strlit("false");
    assert("double"@.len() != "false"@.len());
    reveal_strlit("null");
    assert("double"@.len() != "null"@.len());
    reveal_strlit("this");
    assert("double"@.len() != "this"@.len());
    reveal_strlit("super");
    assert("double"@.len() != "super"@.len());
    reveal_strlit("int");
    assert("double"@.len() != "int"@.len());
    reveal_strlit("bool");
    assert("double"@.len() != "bool"@.len());
    reveal_strlit("void");
    assert("double"@.len() != "void"@.len());
    reveal_strlit("string");
    assert("double"@[0] != "string"@[0]);
    reveal_strlit("char");
    assert("double"@.len() != "char"@.len());
    reveal_strlit("float");
    assert("double"@.len() != "float"@.len());
}

/// The word `any` is a token of its own.
proof fn lemma_token_any()
    ensures
        token::word_token("any"@) == Token::Any,
{
    reveal_strlit("any");
    reveal_strlit("import");
    assert("any"@.len() != "import"@.len());
    reveal_strlit("const");
    assert("any"@.len() != "const"@.len());
    reveal_strlit("typedef");
    assert("any"@.len() != "typedef"@.len());
    reveal_strlit("distinct");
    assert("any"@.len() != "distinct"@.len());
    reveal_strlit("struct");
    assert("any"@.len() != "struct"@.len());
    reveal_strlit("class");
    assert("any"@.len() != "class"@.len());
    reveal_strlit("enum");
    assert("any"@.len() != "enum"@.len());
    reveal_strlit("trait");
    assert("any"@.len() != "trait"@.len());
    reveal_strlit("extend");
    assert("any"@.len() != "extend"@.len());
    reveal_strlit("extern");
    assert("any"@.len() != "extern"@.len());
    reveal_strlit("init");
    assert("any"@.len() != "init"@.len());
    reveal_strlit("has");
    assert("any"@[0] != "has"@[0]);
    reveal_strlit("do");
    assert("any"@.len() != "do"@.len());
    reveal_strlit("end");
    assert("any"@[0] != "end"@[0]);
    reveal_strlit("if");
    assert("any"@.len() != "if"@.len());
    reveal_strlit("else");
    assert("any"@.len() != "else"@.len());
    reveal_strlit("while");
    assert("any"@.len() != "while"@.len());
    reveal_strlit("loop");
    assert("any"@.len() != "loop"@.len());
    reveal_strlit("for");
    assert("any"@[0] != "for"@[0]);
    reveal_strlit("in");
    assert("any"@.len() != "in"@.len());
    reveal_strlit("return");
    assert("any"@.len() != "return"@.len());
    reveal_strlit("break");
    assert("any"@.len() != "break"@.len());
    reveal_strlit("continue");
    assert("any"@.len() != "continue"@.len());
    reveal_strlit("defer");
    assert("any"@.len() != "defer"@.len());
    reveal_strlit("assert");
    assert("any"@.len() != "assert"@.len());
    reveal_strlit("debug_assert");
    assert("any"@.len() != "debug_assert"@.len());
    reveal_strlit("match");
    assert("any"@.len() != "match"@.len());
    reveal_strlit("public");
    assert("any"@.len() != "public"@.len());
    reveal_strlit("private");
    assert("any"@.len() != "private"@.len());
    reveal_strlit("static");
    assert("any"@.len() != "static"@.len());
    reveal_strlit("sealed");
    assert("any"@.len() != "sealed"@.len());
    reveal_strlit("open");
    assert("any"@.len() != "open"@.len());
    reveal_strlit("override");
    assert("any"@.len() != "override"@.len());
    reveal_strlit("extends");
    assert("any"@.len() != "extends"@.len());
    reveal_strlit("implements");
    assert("any"@.len() != "implements"@.len());
    reveal_strlit("initialize");
    assert("any"@.len() != "initialize"@.len());
    reveal_strlit("get");
    assert("any"@[0] != "get"@[0]);
    reveal_strlit("set");
    assert("any"@[0] != "set"@[0]);
    reveal_strlit("operator");
    assert("any"@.len() != "operator"@.len());
    reveal_strlit("convert");
    assert("any"@.len() != "convert"@.len());
    reveal_strlit("explicit");
    assert("any"@.len() != "explicit"@.len());
    reveal_strlit("to");
    assert("any"@.len() != "to"@.len());
    reveal_strlit("where");
    assert("any"@.len() != "where"@.len());
    reveal_strlit("from");
    assert("any"@.len() != "from"@.len());
    reveal_strlit("ref");
    assert("any"@[0] != "ref"@[0]);
    reveal_strlit("out");
    assert("any"@[0] != "out"@[0]);
    reveal_strlit("is");
    assert("any"@.len() != "is"@.len());
    reveal_strlit("not");
    assert("any"@[0] != "not"@[0]);
    reveal_strlit("and");
    assert("any"@[2] != "and"@[2]);
    reveal_strlit("or");
    assert("any"@.len() != "or"@.len());
    reveal_strlit("true");
    assert("any"@.len() != "true"@.len());
    reveal_strlit("false");
    assert("any"@.len() != "false"@.len());
    reveal_strlit("null");
    assert("any"@.len() != "null"@.len());
    reveal_strlit("this");
    assert("any"@.len() != "this"@.len());
    reveal_strlit("super");
    assert("any"@.len() != "super"@.len());
    reveal_strlit("int");
    assert("any"@[0] != "int"@[0]);
    reveal_strlit("bool");
    assert("any"@.len() != "bool"@.len());
    reveal_strlit("void");
    assert("any"@.len() != "void"@.len());
    reveal_strlit("string");
    assert("any"@.len() != "string"@.len());
    reveal_strlit("char");
    assert("any"@.len() != "char"@.len());
    reveal_strlit("float");
    assert("any"@.len() != "float"@.len());
    reveal_strlit("double");
    assert("any"@.len() != "double"@.len());
}

/// The word `vec` is a token of its own.
proof fn lemma_token_vec()
    ensures
        token::word_token("vec"@) == Token::Vector,
{
    reveal_strlit("vec");
    reveal_strlit("import");
    assert("vec"@.len() != "import"@.len());
    reveal_strlit("const");
    assert("vec"@.len() != "const"@.len());
    reveal_strlit("typedef");
    assert("vec"@.len() != "typedef"@.len());
    reveal_strlit("distinct");
    assert("vec"@.len() != "distinct"@.len());
    reveal_strlit("struct");
    assert("vec"@.len() != "struct"@.len());
    reveal_strlit("class");
    assert("vec"@.len() != "class"@.len());
    reveal_strlit("enum");
    assert("vec"@.len() != "enum"@.len());
    reveal_strlit("trait");
    assert("vec"@.len() != "trait"@.len());
    reveal_strlit("extend");
    assert("vec"@.len() != "extend"@.len());
    reveal_strlit("extern");
    assert("vec"@.len() != "extern"@.len());
    reveal_strlit("init");
    assert("vec"@.len() != "init"@.len());
    reveal_strlit("has");
    assert("vec"@[0] != "has"@[0]);
    reveal_strlit("do");
    assert("vec"@.len() != "do"@.len());
    reveal_strlit("end");
    assert("vec"@[0] != "end"@[0]);
    reveal_strlit("if");
    assert("vec"@.len() != "if"@.len());
    reveal_strlit("else");
    assert("vec"@.len() != "else"@.len());
    reveal_strlit("while");
    assert("vec"@.len() != "while"@.len());
    reveal_strlit("loop");
    assert("vec"@.len() != "loop"@.len());
    reveal_strlit("for");
    assert("vec"@[0] != "for"@[0]);
    reveal_strlit("in");
    assert("vec"@.len() != "in"@.len());
    reveal_strlit("return");
    assert("vec"@.len() != "return"@.len());
    reveal_strlit("break");
    assert("vec"@.len() != "break"@.len());
    reveal_strlit("continue");
    assert("vec"@.len() != "continue"@.len());
    reveal_strlit("defer");
    assert("vec"@.len() != "defer"@.len());
    reveal_strlit("assert");
    assert("vec"@.len() != "assert"@.len());
    reveal_strlit("debug_assert");
    assert("vec"@.len() != "debug_assert"@.len());
    reveal_strlit("match");
    assert("vec"@.len() != "match"@.len());
    reveal_strlit("public");
    assert("vec"@.len() != "public"@.len());
    reveal_strlit("private");
    assert("vec"@.len() != "private"@.len());
    reveal_strlit("static");
    assert("vec"@.len() != "static"@.len());
    reveal_strlit("sealed");
    assert("vec"@.len() != "sealed"@.len());
    reveal_strlit("open");
    assert("vec"@.len() != "open"@.len());
    reveal_strlit("override");
    assert("vec"@.len() != "override"@.len());
    reveal_strlit("extends");
    assert("vec"@.len() != "extends"@.len());
    reveal_strlit("implements");
    assert("vec"@.len() != "implements"@.len());
    reveal_strlit("initialize");
    assert("vec"@.len() != "initialize"@.len());
    reveal_strlit("get");
    assert("vec"@[0] != "get"@[0]);
    reveal_strlit("set");
    assert("vec"@[0] != "set"@[0]);
    reveal_strlit("operator");
    assert("vec"@.len() != "operator"@.len());
    reveal_strlit("convert");
    assert("vec"@.len() != "convert"@.len());
    reveal_strlit("explicit");
    assert("vec"@.len() != "explicit"@.len());
    reveal_strlit("to");
    assert("vec"@.len() != "to"@.len());
    reveal_strlit("where");
    assert("vec"@.len() != "where"@.len());
    reveal_strlit("from");
    assert("vec"@.len() != "from"@.len());
    reveal_strlit("ref");
    assert("vec"@[0] != "ref"@[0]);
    reveal_strlit("out");
    assert("vec"@[0] != "out"@[0]);
    reveal_strlit("is");
    assert("vec"@.len() != "is"@.len());
    reveal_strlit("not");
    assert("vec"@[0] != "not"@[0]);
    reveal_strlit("and");
    assert("vec"@[0] != "and"@[0]);
    reveal_strlit("or");
    assert("vec"@.len() != "or"@.len());
    reveal_strlit("true");
    assert("vec"@.len() != "true"@.len());
    reveal_strlit("false");
    assert("vec"@.len() != "false"@.len());
    reveal_strlit("null");
    assert("vec"@.len() != "null"@.len());
    reveal_strlit("this");
    assert("vec"@.len() != "this"@.len());
    reveal_strlit("super");
    assert("vec"@.len() != "super"@.len());
    reveal_strlit("int");
    assert("vec"@[0] != "int"@[0]);
    reveal_strlit("bool");
    assert("vec"@.len() != "bool"@.len());
    reveal_strlit("void");
    assert("vec"@.len() != "void"@.len());
    reveal_strlit("string");
    assert("vec"@.len() != "string"@.len());
    reveal_strlit("char");
    assert("vec"@.len() != "char"@.len());
    reveal_strlit("float");
    assert("vec"@.len() != "float"@.len());
    reveal_strlit("double");
    assert("vec"@.len() != "double"@.len());
    reveal_strlit("any");
    assert("vec"@[0] != "any"@[0]);
    reveal_strlit("function");
    assert("vec"@.len() != "function"@.len());
}

/// The word `arr` is a token of its own.
proof fn lemma_token_arr()
    ensures
        token::word_token("arr"@) == Token::Arr,
{
    reveal_strlit("arr");
    reveal_strlit("import");
    assert("arr"@.len() != "import"@.len());
    reveal_strlit("const");
    assert("arr"@.len() != "const"@.len());
    reveal_strlit("typedef");
    assert("arr"@.len() != "typedef"@.len());
    reveal_strlit("distinct");
    assert("arr"@.len() != "distinct"@.len());
    reveal_strlit("struct");
    assert("arr"@.len() != "struct"@.len());
    reveal_strlit("class");
    assert("arr"@.len() != "class"@.len());
    reveal_strlit("enum");
    assert("arr"@.len() != "enum"@.len());
    reveal_strlit("trait");
    assert("arr"@.len() != "trait"@.len());
    reveal_strlit("extend");
    assert("arr"@.len() != "extend"@.len());
    reveal_strlit("extern");
    assert("arr"@.len() != "extern"@.len());
    reveal_strlit("init");
    assert("arr"@.len() != "init"@.len());
    reveal_strlit("has");
    assert("arr"@[0] != "has"@[0]);
    reveal_strlit("do");
    assert("arr"@.len() != "do"@.len());
    reveal_strlit("end");
    assert("arr"@[0] != "end"@[0]);
    reveal_strlit("if");
    assert("arr"@.len() != "if"@.len());
    reveal_strlit("else");
    assert("arr"@.len() != "else"@.len());
    reveal_strlit("while");
    assert("arr"@.len() != "while"@.len());
    reveal_strlit("loop");
    assert("arr"@.len() != "loop"@.len());
    reveal_strlit("for");
    assert("arr"@[0] != "for"@[0]);
    reveal_strlit("in");
    assert("arr"@.len() != "in"@.len());
    reveal_strlit("return");
    assert("arr"@.len() != "return"@.len());
    reveal_strlit("break");
    assert("arr"@.len() != "break"@.len());
    reveal_strlit("continue");
    assert("arr"@.len() != "continue"@.len());
    reveal_strlit("defer");
    assert("arr"@.len() != "defer"@.len());
    reveal_strlit("assert");
    assert("arr"@.len() != "assert"@.len());
    reveal_strlit("debug_assert");
    assert("arr"@.len() != "debug_assert"@.len());
    reveal_strlit("match");
    assert("arr"@.len() != "match"@.len());
    reveal_strlit("public");
    assert("arr"@.len() != "public"@.len());
    reveal_strlit("private");
    assert("arr"@.len() != "private"@.len());
    reveal_strlit("static");
    assert("arr"@.len() != "static"@.len());
    reveal_strlit("sealed");
    assert("arr"@.len() != "sealed"@.len());
    reveal_strlit("open");
    assert("arr"@.len() != "open"@.len());
    reveal_strlit("override");
    assert("arr"@.len() != "override"@.len());
    reveal_strlit("extends");
    assert("arr"@.len() != "extends"@.len());
    reveal_strlit("implements");
    assert("arr"@.len() != "implements"@.len());
    reveal_strlit("initialize");
    assert("arr"@.len() != "initialize"@.len());
    reveal_strlit("get");
    assert("arr"@[0] != "get"@[0]);
    reveal_strlit("set");
    assert("arr"@[0] != "set"@[0]);
    reveal_strlit("operator");
    assert("arr"@.len() != "operator"@.len());
    reveal_strlit("convert");
    assert("arr"@.len() != "convert"@.len());
    reveal_strlit("explicit");
    assert("arr"@.len() != "explicit"@.len());
    reveal_strlit("to");
    assert("arr"@.len() != "to"@.len());
    reveal_strlit("where");
    assert("arr"@.len() != "where"@.len());
    reveal_strlit("from");
    assert("arr"@.len() != "from"@.len());
    reveal_strlit("ref");
    assert("arr"@[0] != "ref"@[0]);
    reveal_strlit("out");
    assert("arr"@[0] != "out"@[0]);
    reveal_strlit("is");
    assert("arr"@.len() != "is"@.len());
    reveal_strlit("not");
    assert("arr"@[0] != "not"@[0]);
    reveal_strlit("and");
    assert("arr"@[1] != "and"@[1]);
    reveal_strlit("or");
    assert("arr"@.len() != "or"@.len());
    reveal_strlit("true");
    assert("arr"@.len() != "true"@.len());
    reveal_strlit("false");
    assert("arr"@.len() != "false"@.len());
    reveal_strlit("null");
    assert("arr"@.len() != "null"@.len());
    reveal_strlit("this");
    assert("arr"@.len() != "this"@.len());
    reveal_strlit("super");
    assert("arr"@.len() != "super"@.len());
    reveal_strlit("int");
    assert("arr"@[0] != "int"@[0]);
    reveal_strlit("bool");
    assert("arr"@.len() != "bool"@.len());
    reveal_strlit("void");
    assert("arr"@.len() != "void"@.len());
    reveal_strlit("string");
    assert("arr"@.len() != "string"@.len());
    reveal_strlit("char");
    assert("arr"@.len() != "char"@.len());
    reveal_strlit("float");
    assert("arr"@.len() != "float"@.len());
    reveal_strlit("double");
    assert("arr"@.len() != "double"@.len());
    reveal_strlit("any");
    assert("arr"@[1] != "any"@[1]);
    reveal_strlit("function");
    assert("arr"@.len() != "function"@.len());
    reveal_strlit("vec");
    assert("arr"@[0] != "vec"@[0]);
}

/// Whether a type ends with a question mark.
pub open spec fn ends_optional(t: tree::Type) -> bool
    decreases t,
{
    match t {
        tree::Type::Optional(_) => true,
        tree::Type::Mapping(_, v) => ends_optional(*v),
        _ => false,
    }
}

/// Whether a character cannot go on with the last token of a type.
pub open spec fn may_follow(t: tree::Type, c: char) -> bool {
    !lexer::in_word(c) && !lexer::is_digit(c) && c != '.' && c != '=' && c != ':' && (ends_optional(t) ==> c != '?')
}

/// A suffix of signs, or the colon of a map type, is read as its tokens.
proof fn lemma_sign_scan(s: Seq<char>, i: int, b: Seq<bool>)
    requires
        0 <= i < s.len(),
    ensures
        s[i] == '*' && lexer::peek(s, i + 1) != '=' ==> lexer::scan(s, i, b) == (Piece::Tok(Token::Star), i + 1, b),
        s[i] == '?' && lexer::peek(s, i + 1) != '?' && lexer::peek(s, i + 1) != '.' ==> lexer::scan(s, i, b) == (
            Piece::Tok(Token::Question),
            i + 1,
            b,
        ),
        s[i] == ':' && lexer::peek(s, i + 1) != ':' ==> lexer::scan(s, i, b) == (Piece::Tok(Token::Colon), i + 1, b),
        s[i] == '[' ==> lexer::scan(s, i, b) == (Piece::Tok(Token::LBracket), i + 1, b),
        s[i] == ']' ==> lexer::scan(s, i, b) == (Piece::Tok(Token::RBracket), i + 1, b),
{
}

/// What a type starts with.
proof fn lemma_first(t: tree::Type)
    requires
        is_suffixed(t),
    ensures
        compact::type_text(t).len() > 0,
        lexer::starts_word(compact::type_text(t)[0]),
    decreases t,
{
    reveal_strlit("int");
    reveal_strlit("bool");
    reveal_strlit("void");
    reveal_strlit("string");
    reveal_strlit("char");
    reveal_strlit("float");
    reveal_strlit("double");
    reveal_strlit("any");
    match t {
        tree::Type::Array(e) => lemma_first(*e),
        tree::Type::FixedArray(e, _) => lemma_first(*e),
        tree::Type::Vector(e) => lemma_first(*e),
        tree::Type::Pointer(e) => lemma_first(*e),
        tree::Type::Optional(e) => lemma_first(*e),
        tree::Type::Mapping(k, _) => lemma_first(*k),
        _ => {},
    }
}

/// A type that is one word is read as its token.
proof fn lemma_lex_word(s: Seq<char>, p: int, b: Seq<bool>, t: tree::Type, done: Lexed) -> (more: Lexed)
    requires
        is_suffixed(t),
        count(t) == 1,
        read_back::is_at(s, p, compact::type_text(t)),
        !lexer::in_word(lexer::peek(s, p + compact::type_text(t).len())),
        text::byte_len(s) <= usize::MAX,
        t is Int || t is Bool || t is Void || t is Str || t is Char || t is Float || t is Double || t is Any || t is Named,
    ensures
        read_back::reads(s, p, p + compact::type_text(t).len(), b, done, more),
        more.tokens.len() == done.tokens.len() + 1,
        stands(Input { toks: more.tokens, src: s }, done.tokens.len() as int, t),
{
    reveal_strlit("int");
    reveal_strlit("bool");
    reveal_strlit("void");
    reveal_strlit("string");
    reveal_strlit("char");
    reveal_strlit("float");
    reveal_strlit("double");
    reveal_strlit("any");
    lemma_token_int();
    lemma_token_bool();
    lemma_token_void();
    lemma_token_string();
    lemma_token_char();
    lemma_token_float();
    lemma_token_double();
    lemma_token_any();
    read_back::lemma_word(s, p, compact::type_text(t), b, done)
}

/// The text of an array type is read as its tokens.
proof fn lemma_lex_list(s: Seq<char>, p: int, b: Seq<bool>, t: tree::Type, done: Lexed) -> (more: Lexed)
    requires
        t is Array,
        is_suffixed(t),
        read_back::is_at(s, p, compact::type_text(t)),
        may_follow(t, lexer::peek(s, p + compact::type_text(t).len())) || lexer::peek(
            s,
            p + compact::type_text(t).len(),
        ) == ':',
        text::byte_len(s) <= usize::MAX,
    ensures
        read_back::reads(s, p, p + compact::type_text(t).len(), b, done, more),
        more.tokens.len() == done.tokens.len() + count(t),
        stands(Input { toks: more.tokens, src: s }, done.tokens.len() as int, t),
    decreases t, 0int,
{
    let w = compact::type_text(t);
    let q = p + w.len();
    let n = done.tokens.len() as int;
    match t {
        tree::Type::Array(e) => {
            let u = compact::type_text(*e);
            reveal_strlit("[]");
            read_back::lemma_split(s, p, u, "[]"@);
            let i = p + u.len();
            read_back::lemma_char(s, i, "[]"@, 0);
            read_back::lemma_char(s, i, "[]"@, 1);
            lemma_sign_scan(s, i, b);
            lemma_sign_scan(s, i + 1, b);
            let one = lemma_lex_type(s, p, b, *e, done);
            let two = read_back::lemma_one(s, i, i + 1, Token::LBracket, b, one);
            let more = read_back::lemma_one(s, i + 1, q, Token::RBracket, b, two);
            read_back::lemma_reads_on(s, i, i + 1, q, b, one, two, more);
            read_back::lemma_reads_on(s, p, i, q, b, done, one, more);
            lemma_count(*e);
            lemma_stands_on(s, one.tokens, more.tokens, n, *e);
            assert(more.tokens[n + count(*e)] == two.tokens[n + count(*e)]);
            more
        },
        _ => done,
    }
}

/// The text of a pointer type is read as its tokens.
proof fn lemma_lex_pointer(s: Seq<char>, p: int, b: Seq<bool>, t: tree::Type, done: Lexed) -> (more: Lexed)
    requires
        t is Pointer,
        is_suffixed(t),
        read_back::is_at(s, p, compact::type_text(t)),
        may_follow(t, lexer::peek(s, p + compact::type_text(t).len())) || lexer::peek(
            s,
            p + compact::type_text(t).len(),
        ) == ':',
        text::byte_len(s) <= usize::MAX,
    ensures
        read_back::reads(s, p, p + compact::type_text(t).len(), b, done, more),
        more.tokens.len() == done.tokens.len() + count(t),
        stands(Input { toks: more.tokens, src: s }, done.tokens.len() as int, t),
    decreases t, 0int,
{
    let w = compact::type_text(t);
    let q = p + w.len();
    let n = done.tokens.len() as int;
    match t {
        tree::Type::Pointer(e) => {
            let u = compact::type_text(*e);
            reveal_strlit("*");
            read_back::lemma_split(s, p, u, "*"@);
            let i = p + u.len();
            read_back::lemma_char(s, i, "*"@, 0);
            lemma_sign_scan(s, i, b);
            let one = lemma_lex_type(s, p, b, *e, done);
            let more = read_back::lemma_one(s, i, q, Token::Star, b, one);
            read_back::lemma_reads_on(s, p, i, q, b, done, one, more);
            lemma_count(*e);
            lemma_stands_on(s, one.tokens, more.tokens, n, *e);
            more
        },
        _ => done,
    }
}

/// The text of an optional type is read as its tokens.
proof fn lemma_lex_optional(s: Seq<char>, p: int, b: Seq<bool>, t: tree::Type, done: Lexed) -> (more: Lexed)
    requires
        t is Optional,
        is_suffixed(t),
        read_back::is_at(s, p, compact::type_text(t)),
        may_follow(t, lexer::peek(s, p + compact::type_text(t).len())) || lexer::peek(
            s,
            p + compact::type_text(t).len(),
        ) == ':',
        text::byte_len(s) <= usize::MAX,
    ensures
        read_back::reads(s, p, p + compact::type_text(t).len(), b, done, more),
        more.tokens.len() == done.tokens.len() + count(t),
        stands(Input { toks: more.tokens, src: s }, done.tokens.len() as int, t),
    decreases t, 0int,
{
    let w = compact::type_text(t);
    let q = p + w.len();
    let n = done.tokens.len() as int;
    match t {
        tree::Type::Optional(e) => {
            let u = compact::type_text(*e);
            reveal_strlit("?");
            reveal_strlit(" ?");
            let g = if *e is Optional {
                " ?"@
            } else {
                "?"@
            };
            read_back::lemma_split(s, p, u, g);
            let i = p + u.len();
            read_back::lemma_char(s, i, g, 0);
            read_back::lemma_char(s, i, g, g.len() - 1);
            lemma_sign_scan(s, q - 1, b);
            let one = lemma_lex_type(s, p, b, *e, done);
            if *e is Optional {
                read_back::lemma_blank(s, i, b, one);
                read_back::lemma_reads_on(s, p, i, i + 1, b, done, one, one);
            }
            let more = read_back::lemma_one(s, q - 1, q, Token::Question, b, one);
            read_back::lemma_reads_on(s, p, q - 1, q, b, done, one, more);
            lemma_count(*e);
            lemma_stands_on(s, one.tokens, more.tokens, n, *e);
            more
        },
        _ => done,
    }
}

/// The text of a vector type is read as its tokens.
proof fn lemma_lex_vector(s: Seq<char>, p: int, b: Seq<bool>, t: tree::Type, done: Lexed) -> (more: Lexed)
    requires
        t is Vector,
        is_suffixed(t),
        read_back::is_at(s, p, compact::type_text(t)),
        may_follow(t, lexer::peek(s, p + compact::type_text(t).len())) || lexer::peek(
            s,
            p + compact::type_text(t).len(),
        ) == ':',
        text::byte_len(s) <= usize::MAX,
    ensures
        read_back::reads(s, p, p + compact::type_text(t).len(), b, done, more),
        more.tokens.len() == done.tokens.len() + count(t),
        stands(Input { toks: more.tokens, src: s }, done.tokens.len() as int, t),
    decreases t, 0int,
{
    let w = compact::type_text(t);
    let q = p + w.len();
    let n = done.tokens.len() as int;
    match t {
        tree::Type::Vector(e) => {
            let u = compact::type_text(*e);
            reveal_strlit(" vec");
            reveal_strlit("vec");
            reveal_strlit(" ");
            assert(" vec"@ =~= " "@ + "vec"@);
            read_back::lemma_split(s, p, u, " vec"@);
            let i = p + u.len();
            read_back::lemma_split(s, i, " "@, "vec"@);
            read_back::lemma_char(s, i, " "@, 0);
            lemma_token_vec();
            let one = lemma_lex_type(s, p, b, *e, done);
            read_back::lemma_blank(s, i, b, one);
            let more = read_back::lemma_word(s, i + 1, "vec"@, b, one);
            read_back::lemma_reads_on(s, p, i, i + 1, b, done, one, one);
            read_back::lemma_reads_on(s, p, i + 1, q, b, done, one, more);
            lemma_count(*e);
            lemma_stands_on(s, one.tokens, more.tokens, n, *e);
            more
        },
        _ => done,
    }
}

/// The text of an array type of a given length is read as its tokens.
proof fn lemma_lex_array(s: Seq<char>, p: int, b: Seq<bool>, t: tree::Type, done: Lexed) -> (more: Lexed)
    requires
        t is FixedArray,
        is_suffixed(t),
        read_back::is_at(s, p, compact::type_text(t)),
        may_follow(t, lexer::peek(s, p + compact::type_text(t).len())) || lexer::peek(
            s,
            p + compact::type_text(t).len(),
        ) == ':',
        text::byte_len(s) <= usize::MAX,
    ensures
        read_back::reads(s, p, p + compact::type_text(t).len(), b, done, more),
        more.tokens.len() == done.tokens.len() + count(t),
        stands(Input { toks: more.tokens, src: s }, done.tokens.len() as int, t),
    decreases t, 0int,
{
    let w = compact::type_text(t);
    let q = p + w.len();
    let n = done.tokens.len() as int;
    match t {
        tree::Type::FixedArray(e, size) => {
            let u = compact::type_text(*e);
            reveal_strlit(" arr");
            reveal_strlit(" arr[");
            reveal_strlit("arr");
            reveal_strlit("]");
            let i = p + u.len();
            let rest = match size {
                Some(m) => "["@ + (text::decimal(m as nat) + "]"@),
                None => seq![],
            };
            reveal_strlit("[");
            reveal_strlit(" ");
            assert(w =~= u + (" "@ + ("arr"@ + rest)));
            read_back::lemma_split(s, p, u, " "@ + ("arr"@ + rest));
            read_back::lemma_split(s, i, " "@, "arr"@ + rest);
            read_back::lemma_split(s, i + 1, "arr"@, rest);
            read_back::lemma_char(s, i, " "@, 0);
            lemma_token_arr();
            let one = lemma_lex_type(s, p, b, *e, done);
            read_back::lemma_blank(s, i, b, one);
            read_back::lemma_reads_on(s, p, i, i + 1, b, done, one, one);
            lemma_count(*e);
            match size {
                Some(m) => {
                    let d = text::decimal(m as nat);
                    read_back::lemma_split(s, i + 4, "["@, d + "]"@);
                    read_back::lemma_split(s, i + 5, d, "]"@);
                    read_back::lemma_char(s, i + 4, "["@, 0);
                    read_back::lemma_char(s, q - 1, "]"@, 0);
                    let two = read_back::lemma_word(s, i + 1, "arr"@, b, one);
                    lemma_sign_scan(s, i + 4, b);
                    lemma_sign_scan(s, q - 1, b);
                    let three = read_back::lemma_one(s, i + 4, i + 5, Token::LBracket, b, two);
                    laws::lemma_decimal(m as nat);
                    assert forall|j: int| i + 5 <= j < q - 1 implies lexer::is_digit(#[trigger] s[j]) by {
                        read_back::lemma_char(s, i + 5, d, j - (i + 5));
                        assert(lexer::is_digit(d[j - (i + 5)]));
                    }
                    laws::lemma_digits_stop(s, i + 5, q - 1);
                    let four = read_back::lemma_one(s, i + 5, q - 1, Token::IntLit, b, three);
                    let more = read_back::lemma_one(s, q - 1, q, Token::RBracket, b, four);
                    read_back::lemma_reads_on(s, i + 5, q - 1, q, b, three, four, more);
                    read_back::lemma_reads_on(s, i + 4, i + 5, q, b, two, three, more);
                    read_back::lemma_reads_on(s, i + 1, i + 4, q, b, one, two, more);
                    read_back::lemma_reads_on(s, p, i + 1, q, b, done, one, more);
                    lemma_stands_on(s, one.tokens, more.tokens, n, *e);
                    let j = n + count(*e);
                    assert(more.tokens[j] == two.tokens[j]);
                    assert(more.tokens[j + 1] == three.tokens[j + 1]);
                    assert(more.tokens[j + 2] == four.tokens[j + 2]);
                    more
                },
                None => {
                    let more = read_back::lemma_word(s, i + 1, "arr"@, b, one);
                    read_back::lemma_reads_on(s, p, i + 1, q, b, done, one, more);
                    lemma_stands_on(s, one.tokens, more.tokens, n, *e);
                    more
                },
            }
        },
        _ => done,
    }
}

/// The text of a map type is read as its tokens.
proof fn lemma_lex_map(s: Seq<char>, p: int, b: Seq<bool>, t: tree::Type, done: Lexed) -> (more: Lexed)
    requires
        t is Mapping,
        is_suffixed(t),
        read_back::is_at(s, p, compact::type_text(t)),
        may_follow(t, lexer::peek(s, p + compact::type_text(t).len())) || lexer::peek(
            s,
            p + compact::type_text(t).len(),
        ) == ':',
        text::byte_len(s) <= usize::MAX,
    ensures
        read_back::reads(s, p, p + compact::type_text(t).len(), b, done, more),
        more.tokens.len() == done.tokens.len() + count(t),
        stands(Input { toks: more.tokens, src: s }, done.tokens.len() as int, t),
    decreases t, 0int,
{
    let w = compact::type_text(t);
    let q = p + w.len();
    let n = done.tokens.len() as int;
    match t {
        tree::Type::Mapping(k, v) => {
            let u = compact::type_text(*k);
            let r = compact::type_text(*v);
            reveal_strlit(":");
            assert(w =~= u + (":"@ + r));
            read_back::lemma_split(s, p, u, ":"@ + r);
            let i = p + u.len();
            read_back::lemma_split(s, i, ":"@, r);
            read_back::lemma_char(s, i, ":"@, 0);
            lemma_first(*v);
            read_back::lemma_char(s, i + 1, r, 0);
            lemma_sign_scan(s, i, b);
            let one = lemma_lex_type(s, p, b, *k, done);
            let two = read_back::lemma_one(s, i, i + 1, Token::Colon, b, one);
            let more = lemma_lex_type(s, i + 1, b, *v, two);
            read_back::lemma_reads_on(s, i, i + 1, q, b, one, two, more);
            read_back::lemma_reads_on(s, p, i, q, b, done, one, more);
            lemma_count(*k);
            lemma_count(*v);
            lemma_stands_on(s, one.tokens, more.tokens, n, *k);
            assert(more.tokens[n + count(*k)] == two.tokens[n + count(*k)]);
            more
        },
        _ => done,
    }
}

/// The text of a type is read as its tokens.
proof fn lemma_lex_type(s: Seq<char>, p: int, b: Seq<bool>, t: tree::Type, done: Lexed) -> (more: Lexed)
    requires
        is_suffixed(t),
        read_back::is_at(s, p, compact::type_text(t)),
        may_follow(t, lexer::peek(s, p + compact::type_text(t).len())) || lexer::peek(
            s,
            p + compact::type_text(t).len(),
        ) == ':',
        text::byte_len(s) <= usize::MAX,
    ensures
        read_back::reads(s, p, p + compact::type_text(t).len(), b, done, more),
        more.tokens.len() == done.tokens.len() + count(t),
        stands(Input { toks: more.tokens, src: s }, done.tokens.len() as int, t),
    decreases t, 1int,
{
    match t {
        tree::Type::Array(_) => lemma_lex_list(s, p, b, t, done),
        tree::Type::Pointer(_) => lemma_lex_pointer(s, p, b, t, done),
        tree::Type::Optional(_) => lemma_lex_optional(s, p, b, t, done),
        tree::Type::Vector(_) => lemma_lex_vector(s, p, b, t, done),
        tree::Type::FixedArray(_, _) => lemma_lex_array(s, p, b, t, done),
        tree::Type::Mapping(_, _) => lemma_lex_map(s, p, b, t, done),
        _ => lemma_lex_word(s, p, b, t, done),
    }
}

/// How deeply map types are nested.
pub open spec fn height(t: tree::Type) -> nat
    decreases t,
{
    match t {
        tree::Type::Mapping(_, v) => height(*v) + 1,
        _ => 0,
    }
}

/// Whether a token ends a type.
pub open spec fn is_end(t: Token) -> bool {
    t != Token::LBracket && t != Token::Star && t != Token::Question && t != Token::Vector && t != Token::Arr && t
        != Token::Colon && t != Token::Lt
}

/// Suffixes are read from the left: after the first word the rest goes on as after the whole.
proof fn lemma_chain(d: nat, x: Input, k: int, t: tree::Type) -> (r: (tree::Type, int))
    requires
        stands(x, k, t),
        is_suffixed(t),
        !(t is Mapping),
        input::tk(x, k + count(t)) != Token::Lt,
        t is FixedArray && t->FixedArray_1 is None && input::tk(x, k + count(t)) == Token::LBracket ==> input::tk(
            x,
            k + count(t) + 1,
        ) != Token::IntLit,
    ensures
        grammar_types::type_base(rules::rules(d), x, k) == Ok::<(tree::Type, int), int>(r),
        k < r.1 <= k + count(t),
        grammar_types::type_rest(rules::rules(d), x, true, r.0, r.1) == grammar_types::type_rest(
            rules::rules(d),
            x,
            true,
            t,
            k + count(t),
        ),
    decreases t,
{
    lemma_count(t);
    reveal(input::named);
    match t {
        tree::Type::Array(e) => {
            lemma_count(*e);
            let r = lemma_chain(d, x, k, *e);
            assert(grammar_types::type_rest(rules::rules(d), x, true, *e, k + count(*e))
                == grammar_types::type_rest(rules::rules(d), x, true, t, k + count(t))) by {
                reveal(grammar_types::type_rest);
            }
            r
        },
        tree::Type::FixedArray(e, n) => {
            lemma_count(*e);
            let r = lemma_chain(d, x, k, *e);
            assert(grammar_types::type_rest(rules::rules(d), x, true, *e, k + count(*e))
                == grammar_types::type_rest(rules::rules(d), x, true, t, k + count(t))) by {
                reveal(grammar_types::type_rest);
                reveal(input::size_at);
            }
            r
        },
        tree::Type::Vector(e) => {
            lemma_count(*e);
            let r = lemma_chain(d, x, k, *e);
            assert(grammar_types::type_rest(rules::rules(d), x, true, *e, k + count(*e))
                == grammar_types::type_rest(rules::rules(d), x, true, t, k + count(t))) by {
                reveal(grammar_types::type_rest);
            }
            r
        },
        tree::Type::Pointer(e) => {
            lemma_count(*e);
            let r = lemma_chain(d, x, k, *e);
            assert(grammar_types::type_rest(rules::rules(d), x, true, *e, k + count(*e))
                == grammar_types::type_rest(rules::rules(d), x, true, t, k + count(t))) by {
                reveal(grammar_types::type_rest);
            }
            r
        },
        tree::Type::Optional(e) => {
            lemma_count(*e);
            let r = lemma_chain(d, x, k, *e);
            assert(grammar_types::type_rest(rules::rules(d), x, true, *e, k + count(*e))
                == grammar_types::type_rest(rules::rules(d), x, true, t, k + count(t))) by {
                reveal(grammar_types::type_rest);
            }
            r
        },
        _ => {
            reveal(grammar_types::type_base);
            (t, k + 1)
        },
    }
}

/// A type whose tokens stand in the input is read as it is.
proof fn lemma_type(d: nat, x: Input, k: int, t: tree::Type)
    requires
        stands(x, k, t),
        is_suffixed(t),
        d >= height(t),
        is_end(input::tk(x, k + count(t))),
    ensures
        grammar_types::ty(rules::rules(d), x, true, k) == Ok::<(tree::Type, int), int>((t, k + count(t))),
    decreases t,
{
    reveal(grammar_types::ty);
    lemma_count(t);
    match t {
        tree::Type::Mapping(a, v) => {
            lemma_count(*a);
            lemma_count(*v);
            let j = k + count(*a);
            let r = lemma_chain(d, x, k, *a);
            lemma_type((d - 1) as nat, x, j + 1, *v);
            assert((rules::rules(d).ty)(x, true, j + 1) == grammar_types::ty(
                rules::rules((d - 1) as nat),
                x,
                true,
                j + 1,
            )) by {
                reveal(rules::rules);
            }
            assert(grammar_types::type_rest(rules::rules(d), x, true, *a, j) == Ok::<(tree::Type, int), int>(
                (t, k + count(t)),
            )) by {
                reveal(grammar_types::type_rest);
            }
        },
        _ => {
            let r = lemma_chain(d, x, k, t);
            assert(grammar_types::type_rest(rules::rules(d), x, true, t, k + count(t)) == Ok::<
                (tree::Type, int),
                int,
            >((t, k + count(t)))) by {
                reveal(grammar_types::type_rest);
            }
        },
    }
}

/// What is written for a type is read back as that type: its text has no errors, and its tokens are
/// all used.
pub proof fn law_type_reads_back(t: tree::Type, depth: nat)
    requires
        is_suffixed(t),
        depth >= height(t),
        text::byte_len(compact::type_text(t)) <= usize::MAX,
    ensures
        ({
            let s = compact::type_text(t);
            let x = Input { toks: lexer::lexed(s).tokens, src: s };
            &&& lexer::lexed(s).errors.len() == 0
            &&& grammar_types::ty(rules::rules(depth), x, true, 0) == Ok::<(tree::Type, int), int>((t, x.len()))
        }),
{
    let s = compact::type_text(t);
    let none = Lexed { tokens: seq![], errors: seq![] };
    assert(s.subrange(0, s.len() as int) =~= s);
    let more = lemma_lex_type(s, 0, seq![], t, none);
    assert(lexer::lexed(s) == more && more.errors == none.errors) by {
        reveal(read_back::reads);
    }
    let x = Input { toks: more.tokens, src: s };
    lemma_count(t);
    lemma_type(depth, x, 0, t);
}

} // verus!
