//! The grammar of declarations.
use vstd::prelude::*;
use crate::ast::Visibility;
use crate::parse::grammar_types;
use crate::parse::grammar_exprs;
use crate::parse::grammar_stmts;
use crate::parse::input;
use crate::parse::input::{Input, Parsed};
use crate::parse::rules::Rules;
use crate::token::Token;
use crate::tree;

verus! {

broadcast use input::group_forward;

/// The names of an import path.
#[verifier::opaque]
pub open spec fn path(x: Input, acc: Seq<Seq<char>>, i: int) -> Parsed<Seq<Seq<char>>>
    decreases x.len() - i,
{
    if !input::named(x, i) {
        Err(i)
    } else if input::tk(x, i + 1) == Token::PathSep && input::named(x, i + 2) {
        path(x, acc.push(input::word(x, i)), i + 2)
    } else {
        Ok((acc.push(input::word(x, i)), i + 1))
    }
}

/// The symbols of an import up to the closing brace.
#[verifier::opaque]
pub open spec fn symbols(x: Input, acc: Seq<Seq<char>>, i: int) -> Parsed<Seq<Seq<char>>>
    decreases x.len() - i,
{
    let k = input::skip_newlines(x, i);
    if input::tk(x, k) == Token::RBrace {
        Ok((acc, k + 1))
    } else if !input::named(x, k) {
        Err(k)
    } else {
        let p = input::skip_newlines(x, k + 1);
        if input::tk(x, p) == Token::Comma {
            symbols(x, acc.push(input::word(x, k)), p + 1)
        } else if input::tk(x, p) == Token::RBrace {
            Ok((acc.push(input::word(x, k)), p + 1))
        } else {
            Err(p)
        }
    }
}

/// An import.
#[verifier::opaque]
pub open spec fn import(x: Input, i: int) -> Parsed<tree::ImportDecl>
{
    if input::tk(x, i) != Token::Import {
        Err(i)
    } else {
        match path(x, seq![], i + 1) {
            Ok((ns, j)) if i + 1 <= j <= x.len() => {
                if input::tk(x, j) == Token::PathSep && input::tk(x, j + 1) == Token::LBrace {
                    match symbols(x, seq![], j + 2) {
                        Ok((ss, k)) if j + 2 <= k <= x.len() => Ok((tree::ImportDecl { path: ns, symbols: Some(ss), span: input::span_of(x, i, k) }, k)),
                        other => Err(input::stop_of(other, j + 2)),
                    }
                } else {
                    Ok((tree::ImportDecl { path: ns, symbols: None, span: input::span_of(x, i, j) }, j))
                }
            },
            other => Err(input::stop_of(other, i + 1)),
        }
    }
}

/// An argument of an attribute.
#[verifier::opaque]
pub open spec fn attribute_arg(nest: Rules, x: Input, i: int) -> Parsed<tree::AttributeArg>
{
    if input::named(x, i) && input::tk(x, i + 1) == Token::Colon {
        match grammar_exprs::expr(nest, x, i + 2) {
            Ok((e, j)) if i + 2 < j <= x.len() => Ok((tree::AttributeArg::Named { name: input::word(x, i), value: e }, j)),
            other => Err(input::stop_of(other, i + 2)),
        }
    } else {
        match grammar_exprs::expr(nest, x, i) {
            Ok((e, j)) if i < j <= x.len() => Ok((tree::AttributeArg::Value(e), j)),
            other => Err(input::stop_of(other, i)),
        }
    }
}

/// Arguments of an attribute up to `close`.
#[verifier::opaque]
pub open spec fn attribute_args(nest: Rules, x: Input, close: Token, acc: Seq<tree::AttributeArg>, i: int) -> Parsed<Seq<tree::AttributeArg>>
    decreases x.len() - i,
{
    let k = input::skip_newlines(x, i);
    if input::tk(x, k) == close && close != Token::Eof {
        Ok((acc, k + 1))
    } else {
        match attribute_arg(nest, x, k) {
            Ok((a, j)) if k < j <= x.len() => {
                let p = input::skip_newlines(x, j);
                if input::tk(x, p) == Token::Comma {
                    attribute_args(nest, x, close, acc.push(a), p + 1)
                } else if input::tk(x, p) == close && close != Token::Eof {
                    Ok((acc.push(a), p + 1))
                } else {
                    Err(p)
                }
            },
            other => Err(input::stop_of(other, k)),
        }
    }
}

/// Attributes, one after another.
#[verifier::opaque]
pub open spec fn attributes(nest: Rules, x: Input, acc: Seq<tree::Attribute>, i: int) -> Parsed<Seq<tree::Attribute>>
    decreases x.len() - i,
{
    let k = input::skip_newlines(x, i);
    if input::tk(x, k) == Token::At && input::worded(x, k + 1) {
        if input::tk(x, k + 2) == Token::LParen {
            match attribute_args(nest, x, Token::RParen, seq![], k + 3) {
                Ok((xs, j)) if k + 3 <= j <= x.len() => attributes(nest, x, acc.push(tree::Attribute { name: input::word(x, k + 1), args: xs }), j),
                other => Err(input::stop_of(other, k + 3)),
            }
        } else {
            attributes(nest, x, acc.push(tree::Attribute { name: input::word(x, k + 1), args: seq![] }), k + 2)
        }
    } else {
        Ok((acc, k))
    }
}

/// A `typedef` or `distinct` declaration that starts at `s`.
#[verifier::opaque]
pub open spec fn alias(nest: Rules, x: Input, v: Visibility, s: int, i: int) -> Parsed<tree::AliasDecl>
{
    if input::tk(x, i) != Token::Typedef && input::tk(x, i) != Token::Distinct {
        Err(i)
    } else {
        match grammar_types::generics(nest, x, i + 1) {
            Ok((before, j)) if i + 1 <= j <= x.len() => {
                if !input::named(x, j) {
                    Err(j)
                } else if input::tk(x, j + 1) == Token::Eq {
                    match grammar_types::ty(nest, x, true, j + 2) {
                        Ok((t, k)) if j + 2 < k <= x.len() => Ok((tree::AliasDecl { visibility: v, name: input::word(x, j), generic_params: before, ty: t, span: input::span_of(x, s, k) }, k)),
                        other => Err(input::stop_of(other, j + 2)),
                    }
                } else {
                    match grammar_types::generics(nest, x, j + 1) {
                        Ok((after, p)) if j + 1 <= p <= x.len() => {
                            if input::tk(x, p) != Token::Eq {
                                Err(p)
                            } else {
                                match grammar_types::ty(nest, x, true, p + 1) {
                                    Ok((t, k)) if p + 1 < k <= x.len() => Ok((tree::AliasDecl { visibility: v, name: input::word(x, j), generic_params: after, ty: t, span: input::span_of(x, s, k) }, k)),
                                    other => Err(input::stop_of(other, p + 1)),
                                }
                            }
                        },
                        other => Err(input::stop_of(other, j + 1)),
                    }
                }
            },
            other => Err(input::stop_of(other, i + 1)),
        }
    }
}

/// A function from its modifiers on; it starts at `s`.
#[verifier::opaque]
pub open spec fn function(nest: Rules, x: Input, v: Visibility, s: int, i: int) -> Parsed<tree::Function>
{
    let a = input::after_word(x, Token::Static, i);
    let b = input::after_word(x, Token::Sealed, a);
    let c = input::after_word(x, Token::Override, b);
    match grammar_types::ty(nest, x, true, c) {
        Ok((t, j)) if c < j <= x.len() => {
            if !input::named(x, j) {
                Err(j)
            } else {
                match grammar_types::generics(nest, x, j + 1) {
                    Ok((gs, k)) if j + 1 <= k <= x.len() => {
                        if input::tk(x, k) != Token::LParen {
                            Err(k)
                        } else {
                            match grammar_types::params(nest, x, Token::RParen, seq![], k + 1) {
                                Ok((ps, p)) if k + 1 <= p <= x.len() => {
                                    let q = input::skip_newlines(x, p);
                                    match grammar_types::where_clause(nest, x, q) {
                                        Ok((w, d)) if q <= d <= x.len() => {
                                            if input::tk(x, d) != Token::Do {
                                                Err(d)
                                            } else {
                                                match grammar_stmts::block(nest, x, d, d + 1) {
                                                    Ok((body, e)) if d + 1 <= e <= x.len() => Ok((tree::Function { visibility: v, is_static: a > i, is_sealed: b > a, is_override: c > b, ret_ty: t, ret_span: input::span_of(x, c, j), name: input::word(x, j), name_span: input::span_of(x, j, j + 1), generic_params: gs, params: ps, where_clause: w, body, span: input::span_of(x, s, e) }, e)),
                                                    other => Err(input::stop_of(other, d + 1)),
                                                }
                                            }
                                        },
                                        other => Err(input::stop_of(other, q)),
                                    }
                                },
                                other => Err(input::stop_of(other, k + 1)),
                            }
                        }
                    },
                    other => Err(input::stop_of(other, j + 1)),
                }
            }
        },
        other => Err(input::stop_of(other, c)),
    }
}

/// A visibility, where one is written.
#[verifier::opaque]
pub open spec fn visibility(x: Input, i: int) -> Parsed<Visibility>
{
    if input::tk(x, i) == Token::Public {
        Ok((Visibility::Public, i + 1))
    } else if input::tk(x, i) == Token::Private {
        Ok((Visibility::Private, i + 1))
    } else {
        Ok((Visibility::Default, i))
    }
}

/// A field of type `t` from its name on; it starts at `s`.
#[verifier::opaque]
pub open spec fn field_rest(nest: Rules, x: Input, v: Visibility, s: int, t: tree::Type, i: int) -> Parsed<tree::StructField>
{
    if !input::named(x, i) {
        Err(i)
    } else if input::tk(x, i + 1) == Token::Eq {
        match grammar_exprs::expr(nest, x, i + 2) {
            Ok((e, k)) if i + 2 < k <= x.len() => Ok((tree::StructField { visibility: v, ty: t, name: input::word(x, i), default: Some(e), span: input::span_of(x, s, k) }, k)),
            other => Err(input::stop_of(other, i + 2)),
        }
    } else {
        Ok((tree::StructField { visibility: v, ty: t, name: input::word(x, i), default: None, span: input::span_of(x, s, i + 1) }, i + 1))
    }
}

/// A field.
#[verifier::opaque]
pub open spec fn field(nest: Rules, x: Input, i: int) -> Parsed<tree::StructField>
{
    match visibility(x, i) {
        Ok((v, a)) if i <= a <= x.len() => {
            match grammar_types::ty(nest, x, true, a) {
                Ok((t, j)) if a < j <= x.len() => {
                    match field_rest(nest, x, v, i, t, j) {
                        Ok((f, k)) if j < k <= x.len() => Ok((f, k)),
                        other => Err(input::stop_of(other, j)),
                    }
                },
                other => Err(input::stop_of(other, a)),
            }
        },
        other => Err(input::stop_of(other, i)),
    }
}

/// The fields of a struct.
#[verifier::opaque]
pub open spec fn fields(nest: Rules, x: Input, acc: Seq<tree::StructField>, i: int) -> Parsed<Seq<tree::StructField>>
    decreases x.len() - i,
{
    let k = input::skip_terms(x, i);
    if input::tk(x, k) == Token::End {
        Ok((acc, k + 1))
    } else {
        match field(nest, x, k) {
            Ok((a, j)) if k < j <= x.len() => {
                if input::term(x, j) || input::tk(x, j) == Token::End {
                    fields(nest, x, acc.push(a), j)
                } else {
                    Err(j)
                }
            },
            other => Err(input::stop_of(other, k)),
        }
    }
}

/// A struct.
#[verifier::opaque]
pub open spec fn struct_decl(nest: Rules, x: Input, i: int) -> Parsed<tree::StructDecl>
{
    if input::tk(x, i) != Token::Struct {
        Err(i)
    } else if !input::named(x, i + 1) {
        Err(i + 1)
    } else {
        match grammar_types::generics(nest, x, i + 2) {
            Ok((gs, j)) if i + 2 <= j <= x.len() => {
                match grammar_types::where_clause(nest, x, j) {
                    Ok((w, k)) if j <= k <= x.len() => {
                        if input::tk(x, k) != Token::Has {
                            Err(k)
                        } else {
                            match fields(nest, x, seq![], k + 1) {
                                Ok((fs, e)) if k + 1 <= e <= x.len() => Ok((tree::StructDecl { name: input::word(x, i + 1), name_span: input::span_of(x, i + 1, i + 2), generic_params: gs, where_clause: w, fields: fs, span: input::span_of(x, i, e) }, e)),
                                other => Err(input::stop_of(other, k + 1)),
                            }
                        }
                    },
                    other => Err(input::stop_of(other, j)),
                }
            },
            other => Err(input::stop_of(other, i + 2)),
        }
    }
}

/// A variant of an enum.
#[verifier::opaque]
pub open spec fn variant(nest: Rules, x: Input, i: int) -> Parsed<tree::VariantDecl>
{
    if !input::named(x, i) {
        Err(i)
    } else if input::tk(x, i + 1) == Token::LParen {
        match grammar_types::params(nest, x, Token::RParen, seq![], i + 2) {
            Ok((ps, j)) if i + 2 <= j <= x.len() => {
                match discriminant(nest, x, j) {
                    Ok((d, k)) if j <= k <= x.len() => Ok((tree::VariantDecl { name: input::word(x, i), payload: ps, discriminant: d, span: input::span_of(x, i, k) }, k)),
                    other => Err(input::stop_of(other, j)),
                }
            },
            other => Err(input::stop_of(other, i + 2)),
        }
    } else {
        match discriminant(nest, x, i + 1) {
            Ok((d, k)) if i + 1 <= k <= x.len() => Ok((tree::VariantDecl { name: input::word(x, i), payload: seq![], discriminant: d, span: input::span_of(x, i, k) }, k)),
            other => Err(input::stop_of(other, i + 1)),
        }
    }
}

/// The value of a variant, where it has one.
#[verifier::opaque]
pub open spec fn discriminant(nest: Rules, x: Input, i: int) -> Parsed<Option<tree::Expr>>
{
    if input::tk(x, i) == Token::Eq {
        match grammar_exprs::expr(nest, x, i + 1) {
            Ok((e, j)) if i + 1 < j <= x.len() => Ok((Some(e), j)),
            other => Err(input::stop_of(other, i + 1)),
        }
    } else {
        Ok((None, i))
    }
}

/// The variants of an enum.
#[verifier::opaque]
pub open spec fn variants(nest: Rules, x: Input, acc: Seq<tree::VariantDecl>, i: int) -> Parsed<Seq<tree::VariantDecl>>
    decreases x.len() - i,
{
    let k = input::skip_seps(x, i);
    if input::tk(x, k) == Token::End {
        Ok((acc, k + 1))
    } else {
        match variant(nest, x, k) {
            Ok((a, j)) if k < j <= x.len() => {
                if input::sep(x, j) || input::tk(x, j) == Token::End {
                    variants(nest, x, acc.push(a), j)
                } else {
                    Err(j)
                }
            },
            other => Err(input::stop_of(other, k)),
        }
    }
}

/// An enum.
#[verifier::opaque]
pub open spec fn enum_decl(nest: Rules, x: Input, i: int) -> Parsed<tree::EnumDecl>
{
    if input::tk(x, i) != Token::Enum {
        Err(i)
    } else if !input::named(x, i + 1) {
        Err(i + 1)
    } else {
        match grammar_types::generics(nest, x, i + 2) {
            Ok((gs, j)) if i + 2 <= j <= x.len() => {
                match grammar_types::where_clause(nest, x, j) {
                    Ok((w, k)) if j <= k <= x.len() => {
                        if input::tk(x, k) != Token::Has {
                            Err(k)
                        } else {
                            match variants(nest, x, seq![], k + 1) {
                                Ok((vs, e)) if k + 1 <= e <= x.len() => Ok((tree::EnumDecl { name: input::word(x, i + 1), name_span: input::span_of(x, i + 1, i + 2), generic_params: gs, where_clause: w, variants: vs, span: input::span_of(x, i, e) }, e)),
                                other => Err(input::stop_of(other, k + 1)),
                            }
                        }
                    },
                    other => Err(input::stop_of(other, j)),
                }
            },
            other => Err(input::stop_of(other, i + 2)),
        }
    }
}

/// A method that a trait asks for.
#[verifier::opaque]
pub open spec fn trait_method(nest: Rules, x: Input, i: int) -> Parsed<tree::TraitMethod>
{
    let a = input::after_word(x, Token::Sealed, i);
    match grammar_types::ty(nest, x, true, a) {
        Ok((t, j)) if a < j <= x.len() => {
            if !input::named(x, j) {
                Err(j)
            } else if input::tk(x, j + 1) != Token::LParen {
                Err(j + 1)
            } else {
                match grammar_types::params(nest, x, Token::RParen, seq![], j + 2) {
                    Ok((ps, k)) if j + 2 <= k <= x.len() => {
                        match grammar_types::where_clause(nest, x, k) {
                            Ok((w, e)) if k <= e <= x.len() => Ok((tree::TraitMethod { is_sealed: a > i, ret_ty: t, name: input::word(x, j), params: ps, where_clause: w, span: input::span_of(x, i, e) }, e)),
                            other => Err(input::stop_of(other, k)),
                        }
                    },
                    other => Err(input::stop_of(other, j + 2)),
                }
            }
        },
        other => Err(input::stop_of(other, a)),
    }
}

/// The methods of a trait.
#[verifier::opaque]
pub open spec fn trait_methods(nest: Rules, x: Input, acc: Seq<tree::TraitMethod>, i: int) -> Parsed<Seq<tree::TraitMethod>>
    decreases x.len() - i,
{
    let k = input::skip_terms(x, i);
    if input::tk(x, k) == Token::End {
        Ok((acc, k + 1))
    } else {
        match trait_method(nest, x, k) {
            Ok((a, j)) if k < j <= x.len() => {
                if input::term(x, j) || input::tk(x, j) == Token::End {
                    trait_methods(nest, x, acc.push(a), j)
                } else {
                    Err(j)
                }
            },
            other => Err(input::stop_of(other, k)),
        }
    }
}

/// A trait.
#[verifier::opaque]
pub open spec fn trait_decl(nest: Rules, x: Input, i: int) -> Parsed<tree::TraitDecl>
{
    if input::tk(x, i) != Token::Trait {
        Err(i)
    } else if !input::named(x, i + 1) {
        Err(i + 1)
    } else {
        match grammar_types::generics(nest, x, i + 2) {
            Ok((gs, j)) if i + 2 <= j <= x.len() => {
                match grammar_types::where_clause(nest, x, j) {
                    Ok((w, k)) if j <= k <= x.len() => {
                        if input::tk(x, k) != Token::Has {
                            Err(k)
                        } else {
                            match trait_methods(nest, x, seq![], k + 1) {
                                Ok((ms, e)) if k + 1 <= e <= x.len() => Ok((tree::TraitDecl { name: input::word(x, i + 1), generic_params: gs, where_clause: w, methods: ms, span: input::span_of(x, i, e) }, e)),
                                other => Err(input::stop_of(other, k + 1)),
                            }
                        }
                    },
                    other => Err(input::stop_of(other, j)),
                }
            },
            other => Err(input::stop_of(other, i + 2)),
        }
    }
}

/// A destructor that starts at `s`.
#[verifier::opaque]
pub open spec fn destructor(nest: Rules, x: Input, v: Visibility, s: int, i: int) -> Parsed<tree::DestructorDecl>
{
    if input::tk(x, i) != Token::Tilde {
        Err(i)
    } else if !input::named(x, i + 1) {
        Err(i + 1)
    } else if input::tk(x, i + 2) != Token::LParen {
        Err(i + 2)
    } else if input::tk(x, i + 3) != Token::RParen {
        Err(i + 3)
    } else if input::tk(x, i + 4) != Token::Do {
        Err(i + 4)
    } else {
        match grammar_stmts::block(nest, x, i + 4, i + 5) {
            Ok((b, k)) if i + 5 <= k <= x.len() => Ok((tree::DestructorDecl { visibility: v, name: input::word(x, i + 1), body: b, span: input::span_of(x, s, k) }, k)),
            other => Err(input::stop_of(other, i + 5)),
        }
    }
}

/// A constructor that starts at `s`.
#[verifier::opaque]
pub open spec fn constructor(nest: Rules, x: Input, v: Visibility, s: int, i: int) -> Parsed<tree::ConstructorDecl>
{
    if !input::named(x, i) {
        Err(i)
    } else if input::tk(x, i + 1) != Token::LParen {
        Err(i + 1)
    } else {
        match grammar_types::params(nest, x, Token::RParen, seq![], i + 2) {
            Ok((ps, j)) if i + 2 <= j <= x.len() => {
                if input::tk(x, j) != Token::Initialize {
                    Err(j)
                } else if input::tk(x, j + 1) == Token::Do {
                    match grammar_stmts::block(nest, x, j + 1, j + 2) {
                        Ok((b, k)) if j + 2 <= k <= x.len() => Ok((tree::ConstructorDecl { visibility: v, name: input::word(x, i), params: ps, body: Some(b), span: input::span_of(x, s, k) }, k)),
                        other => Err(input::stop_of(other, j + 2)),
                    }
                } else {
                    Ok((tree::ConstructorDecl { visibility: v, name: input::word(x, i), params: ps, body: None, span: input::span_of(x, s, j + 1) }, j + 1))
                }
            },
            other => Err(input::stop_of(other, i + 2)),
        }
    }
}

/// An operator that starts at `s`.
#[verifier::opaque]
pub open spec fn operator(nest: Rules, x: Input, v: Visibility, s: int, i: int) -> Parsed<tree::OperatorDecl>
{
    let a = input::after_word(x, Token::Static, i);
    if input::tk(x, a) != Token::Operator {
        Err(a)
    } else {
        let k = input::after_symbol(x, a + 1);
        if input::tk(x, k) != Token::LParen {
            Err(k)
        } else {
            match grammar_types::params(nest, x, Token::RParen, seq![], k + 1) {
                Ok((ps, p)) if k + 1 <= p <= x.len() => {
                    match grammar_types::where_clause(nest, x, p) {
                        Ok((w, d)) if p <= d <= x.len() => {
                            if input::tk(x, d) != Token::Do {
                                Err(d)
                            } else {
                                match grammar_stmts::block(nest, x, d, d + 1) {
                                    Ok((b, e)) if d + 1 <= e <= x.len() => Ok((tree::OperatorDecl { visibility: v, is_static: a > i, op: input::symbol(x, a + 1, k), params: ps, where_clause: w, body: b, span: input::span_of(x, s, e) }, e)),
                                    other => Err(input::stop_of(other, d + 1)),
                                }
                            }
                        },
                        other => Err(input::stop_of(other, p)),
                    }
                },
                other => Err(input::stop_of(other, k + 1)),
            }
        }
    }
}

/// A conversion that starts at `s`.
#[verifier::opaque]
pub open spec fn conversion(nest: Rules, x: Input, v: Visibility, s: int, i: int) -> Parsed<tree::ConversionDecl>
{
    let a = input::after_word(x, Token::Explicit, i);
    if input::tk(x, a) != Token::Convert {
        Err(a)
    } else {
        match grammar_types::ty(nest, x, true, a + 1) {
            Ok((f, j)) if a + 1 < j <= x.len() => {
                if input::tk(x, j) != Token::To {
                    Err(j)
                } else {
                    match grammar_types::ty(nest, x, true, j + 1) {
                        Ok((t, k)) if j + 1 < k <= x.len() => {
                            if input::tk(x, k) != Token::Do {
                                Err(k)
                            } else {
                                match grammar_stmts::block(nest, x, k, k + 1) {
                                    Ok((b, e)) if k + 1 <= e <= x.len() => Ok((tree::ConversionDecl { visibility: v, is_explicit: a > i, from_ty: f, to_ty: t, body: b, span: input::span_of(x, s, e) }, e)),
                                    other => Err(input::stop_of(other, k + 1)),
                                }
                            }
                        },
                        other => Err(input::stop_of(other, j + 1)),
                    }
                }
            },
            other => Err(input::stop_of(other, a + 1)),
        }
    }
}

/// A property from its name on; it starts at `s`.
#[verifier::opaque]
pub open spec fn property(nest: Rules, x: Input, v: Visibility, s: int, t: Option<tree::Type>, i: int) -> Parsed<tree::PropertyDecl>
{
    if !input::named(x, i) {
        Err(i)
    } else if input::tk(x, i + 1) == Token::GetKw {
        if input::tk(x, i + 2) != Token::Do {
            Err(i + 2)
        } else {
            match grammar_stmts::block(nest, x, i + 2, i + 3) {
                Ok((g, k)) if i + 3 <= k <= x.len() => {
                    let p = input::skip_newlines(x, k);
                    if input::tk(x, p) == Token::SetKw && input::tk(x, p + 1) == Token::LParen {
                        match setter(nest, x, p) {
                            Ok((st, e)) if p < e <= x.len() => Ok((tree::PropertyDecl { visibility: v, ty: t, name: input::word(x, i), getter: Some(g), setter: Some(st), span: input::span_of(x, s, e) }, e)),
                            other => Err(input::stop_of(other, p)),
                        }
                    } else {
                        Ok((tree::PropertyDecl { visibility: v, ty: t, name: input::word(x, i), getter: Some(g), setter: None, span: input::span_of(x, s, k) }, k))
                    }
                },
                other => Err(input::stop_of(other, i + 3)),
            }
        }
    } else if input::tk(x, i + 1) != Token::SetKw {
        Err(i + 1)
    } else {
        match setter(nest, x, i + 1) {
            Ok((st, e)) if i + 1 < e <= x.len() => Ok((tree::PropertyDecl { visibility: v, ty: t, name: input::word(x, i), getter: None, setter: Some(st), span: input::span_of(x, s, e) }, e)),
            other => Err(input::stop_of(other, i + 1)),
        }
    }
}

/// The setter of a property.
#[verifier::opaque]
pub open spec fn setter(nest: Rules, x: Input, i: int) -> Parsed<tree::Setter>
{
    if input::tk(x, i) != Token::SetKw {
        Err(i)
    } else if input::tk(x, i + 1) != Token::LParen {
        Err(i)
    } else {
        match grammar_types::param(nest, x, i + 2) {
            Ok((p, j)) if i + 2 < j <= x.len() => {
                if input::tk(x, j) != Token::RParen {
                    Err(j)
                } else if input::tk(x, j + 1) != Token::Do {
                    Err(j + 1)
                } else {
                    match grammar_stmts::block(nest, x, j + 1, j + 2) {
                        Ok((b, k)) if j + 2 <= k <= x.len() => Ok((tree::Setter { param: p, body: b }, k)),
                        other => Err(input::stop_of(other, j + 2)),
                    }
                }
            },
            other => Err(input::stop_of(other, i + 2)),
        }
    }
}

/// The class with one more member, which starts at `s`.
#[verifier::opaque]
pub open spec fn member(nest: Rules, x: Input, acc: tree::ClassDecl, v: Visibility, s: int, i: int) -> Parsed<tree::ClassDecl>
{
    if input::tk(x, i) == Token::Tilde {
        match destructor(nest, x, v, s, i) {
            Ok((m, j)) if i < j <= x.len() => Ok((tree::ClassDecl { destructors: acc.destructors.push(m), ..acc }, j)),
            other => Err(input::stop_of(other, i)),
        }
    } else if input::is_conversion(x, i) {
        match conversion(nest, x, v, s, i) {
            Ok((m, j)) if i < j <= x.len() => Ok((tree::ClassDecl { conversions: acc.conversions.push(m), ..acc }, j)),
            other => Err(input::stop_of(other, i)),
        }
    } else if input::tk(x, i) == Token::Operator || (input::tk(x, i) == Token::Static && input::tk(x, i + 1) == Token::Operator) {
        match operator(nest, x, v, s, i) {
            Ok((m, j)) if i < j <= x.len() => Ok((tree::ClassDecl { operators: acc.operators.push(m), ..acc }, j)),
            other => Err(input::stop_of(other, i)),
        }
    } else if input::is_constructor(x, acc, i) {
        match constructor(nest, x, v, s, i) {
            Ok((m, j)) if i < j <= x.len() => Ok((tree::ClassDecl { constructors: acc.constructors.push(m), ..acc }, j)),
            other => Err(input::stop_of(other, i)),
        }
    } else if input::is_property(x, i) {
        match property(nest, x, v, s, None, i) {
            Ok((m, j)) if i < j <= x.len() => Ok((tree::ClassDecl { properties: acc.properties.push(m), ..acc }, j)),
            other => Err(input::stop_of(other, i)),
        }
    } else {
        match typed_member(nest, x, acc, v, s, i) {
            Ok((c, j)) if i < j <= x.len() => Ok((c, j)),
            other => Err(input::stop_of(other, i)),
        }
    }
}

/// The class with one more property, field or method, which starts at `s`.
#[verifier::opaque]
pub open spec fn typed_member(nest: Rules, x: Input, acc: tree::ClassDecl, v: Visibility, s: int, i: int) -> Parsed<tree::ClassDecl>
{
    match grammar_types::ty(nest, x, true, i) {
        Ok((t, p)) if i < p <= x.len() && input::is_property(x, p) => {
            match property(nest, x, v, s, Some(t), p) {
                Ok((m, j)) if p < j <= x.len() => Ok((tree::ClassDecl { properties: acc.properties.push(m), ..acc }, j)),
                other => Err(input::stop_of(other, p)),
            }
        },
        _ => {
            match grammar_types::ty(nest, x, true, i) {
                Ok((t, p)) if i < p <= x.len() && input::named(x, p) && input::tk(x, p + 1) != Token::LParen && input::tk(x, p + 1) != Token::Lt => {
                    match field_rest(nest, x, v, s, t, p) {
                        Ok((m, j)) if p < j <= x.len() => Ok((tree::ClassDecl { fields: acc.fields.push(m), ..acc }, j)),
                        other => Err(input::stop_of(other, p)),
                    }
                },
                _ => {
                    match function(nest, x, v, s, i) {
                        Ok((m, j)) if i < j <= x.len() => Ok((tree::ClassDecl { methods: acc.methods.push(m), ..acc }, j)),
                        other => Err(input::stop_of(other, i)),
                    }
                },
            }
        },
    }
}

/// The members of a class up to its `end`.
#[verifier::opaque]
pub open spec fn members(nest: Rules, x: Input, acc: tree::ClassDecl, i: int) -> Parsed<tree::ClassDecl>
    decreases x.len() - i,
{
    let k = input::skip_terms(x, i);
    if input::tk(x, k) == Token::End {
        Ok((input::finished(x, acc, k + 1), k + 1))
    } else {
        match visibility(x, k) {
            Ok((v, a)) if k <= a <= x.len() => {
                match member(nest, x, acc, v, k, a) {
                    Ok((c, j)) if a < j <= x.len() => members(nest, x, c, j),
                    other => Err(input::stop_of(other, a)),
                }
            },
            other => Err(input::stop_of(other, k)),
        }
    }
}

/// A class.
#[verifier::opaque]
pub open spec fn class_decl(nest: Rules, x: Input, i: int) -> Parsed<tree::ClassDecl>
{
    let a = input::after_word(x, Token::Open, i);
    let b = input::after_word(x, Token::Sealed, a);
    if input::tk(x, b) != Token::Class {
        Err(b)
    } else if !input::named(x, b + 1) {
        Err(b + 1)
    } else {
        match grammar_types::generics(nest, x, b + 2) {
            Ok((gs, j)) if b + 2 <= j <= x.len() => {
                match grammar_types::where_clause(nest, x, j) {
                    Ok((w, k)) if j <= k <= x.len() => {
                        match extends(nest, x, k) {
                            Ok((ex, p)) if k <= p <= x.len() => {
                                match implements(nest, x, p) {
                                    Ok((im, q)) if p <= q <= x.len() => {
                                        if input::tk(x, q) != Token::Has {
                                            Err(q)
                                        } else {
                                            match members(nest, x, tree::ClassDecl { is_open: a > i, is_sealed: b > a, name: input::word(x, b + 1), name_span: input::span_of(x, b + 1, b + 2), generic_params: gs, where_clause: w, extends: ex, implements: im, fields: seq![], constructors: seq![], destructors: seq![], properties: seq![], operators: seq![], conversions: seq![], methods: seq![], span: input::span_of(x, i, b + 2) }, q + 1) {
                                                Ok((c, e)) if q + 1 <= e <= x.len() => Ok((c, e)),
                                                other => Err(input::stop_of(other, q + 1)),
                                            }
                                        }
                                    },
                                    other => Err(input::stop_of(other, p)),
                                }
                            },
                            other => Err(input::stop_of(other, k)),
                        }
                    },
                    other => Err(input::stop_of(other, j)),
                }
            },
            other => Err(input::stop_of(other, b + 2)),
        }
    }
}

/// The base of a class, where it has one.
#[verifier::opaque]
pub open spec fn extends(nest: Rules, x: Input, i: int) -> Parsed<Option<tree::Type>>
{
    if input::tk(x, i) == Token::Extends {
        match grammar_types::ty(nest, x, true, i + 1) {
            Ok((t, j)) if i + 1 < j <= x.len() => Ok((Some(t), j)),
            other => Err(input::stop_of(other, i + 1)),
        }
    } else {
        Ok((None, i))
    }
}

/// Types separated by commas.
#[verifier::opaque]
pub open spec fn type_list(nest: Rules, x: Input, acc: Seq<tree::Type>, i: int) -> Parsed<Seq<tree::Type>>
    decreases x.len() - i,
{
    match grammar_types::ty(nest, x, true, i) {
        Ok((t, j)) if i < j <= x.len() => {
            if input::tk(x, j) == Token::Comma {
                type_list(nest, x, acc.push(t), j + 1)
            } else {
                Ok((acc.push(t), j))
            }
        },
        other => Err(input::stop_of(other, i)),
    }
}

/// The traits of a class.
#[verifier::opaque]
pub open spec fn implements(nest: Rules, x: Input, i: int) -> Parsed<Seq<tree::Type>>
{
    if input::tk(x, i) == Token::Implements {
        match type_list(nest, x, seq![], i + 1) {
            Ok((ts, j)) if i + 1 <= j <= x.len() => Ok((ts, j)),
            other => Err(input::stop_of(other, i + 1)),
        }
    } else {
        Ok((seq![], i))
    }
}

/// A member of an extension.
#[verifier::opaque]
pub open spec fn extension_member(nest: Rules, x: Input, i: int) -> Parsed<tree::ExtensionMember>
{
    match visibility(x, i) {
        Ok((v, a)) if i <= a <= x.len() => {
            if input::is_conversion(x, a) {
                match conversion(nest, x, v, i, a) {
                    Ok((m, j)) if a < j <= x.len() => Ok((tree::ExtensionMember::Conversion(m), j)),
                    other => Err(input::stop_of(other, a)),
                }
            } else if input::tk(x, a) == Token::Operator || (input::tk(x, a) == Token::Static && input::tk(x, a + 1) == Token::Operator) {
                match operator(nest, x, v, i, a) {
                    Ok((m, j)) if a < j <= x.len() => Ok((tree::ExtensionMember::Operator(m), j)),
                    other => Err(input::stop_of(other, a)),
                }
            } else if input::is_property(x, a) {
                match property(nest, x, v, i, None, a) {
                    Ok((m, j)) if a < j <= x.len() => Ok((tree::ExtensionMember::Property(m), j)),
                    other => Err(input::stop_of(other, a)),
                }
            } else {
                match grammar_types::ty(nest, x, true, a) {
                    Ok((t, p)) if a < p <= x.len() && input::is_property(x, p) => {
                        match property(nest, x, v, i, Some(t), p) {
                            Ok((m, j)) if p < j <= x.len() => Ok((tree::ExtensionMember::Property(m), j)),
                            other => Err(input::stop_of(other, p)),
                        }
                    },
                    _ => {
                        match grammar_types::ty(nest, x, true, a) {
                            Ok((t, p)) if a < p <= x.len() && input::named(x, p) && input::tk(x, p + 1) != Token::LParen && input::tk(x, p + 1) != Token::Lt => {
                                match field_rest(nest, x, v, i, t, p) {
                                    Ok((m, j)) if p < j <= x.len() => Ok((tree::ExtensionMember::Field(m), j)),
                                    other => Err(input::stop_of(other, p)),
                                }
                            },
                            _ => {
                                match function(nest, x, v, i, a) {
                                    Ok((m, j)) if a < j <= x.len() => Ok((tree::ExtensionMember::Function(m), j)),
                                    other => Err(input::stop_of(other, a)),
                                }
                            },
                        }
                    },
                }
            }
        },
        other => Err(input::stop_of(other, i)),
    }
}

/// The members of an extension.
#[verifier::opaque]
pub open spec fn extension_members(nest: Rules, x: Input, acc: Seq<tree::ExtensionMember>, i: int) -> Parsed<Seq<tree::ExtensionMember>>
    decreases x.len() - i,
{
    let k = input::skip_terms(x, i);
    if input::tk(x, k) == Token::End {
        Ok((acc, k + 1))
    } else {
        match extension_member(nest, x, k) {
            Ok((a, j)) if k < j <= x.len() => {
                if input::term(x, j) || input::tk(x, j) == Token::End {
                    extension_members(nest, x, acc.push(a), j)
                } else {
                    Err(j)
                }
            },
            other => Err(input::stop_of(other, k)),
        }
    }
}

/// An extension.
#[verifier::opaque]
pub open spec fn extension(nest: Rules, x: Input, i: int) -> Parsed<tree::ExtensionDecl>
{
    if input::tk(x, i) != Token::Extend {
        Err(i)
    } else {
        match grammar_types::ty(nest, x, true, i + 1) {
            Ok((t, j)) if i + 1 < j <= x.len() => {
                if input::tk(x, j) != Token::Do {
                    Err(j)
                } else {
                    match extension_members(nest, x, seq![], j + 1) {
                        Ok((ms, e)) if j + 1 <= e <= x.len() => Ok((tree::ExtensionDecl { ty: t, members: ms, span: input::span_of(x, i, e) }, e)),
                        other => Err(input::stop_of(other, j + 1)),
                    }
                }
            },
            other => Err(input::stop_of(other, i + 1)),
        }
    }
}

/// A declaration of a foreign library.
#[verifier::opaque]
pub open spec fn extern_member(nest: Rules, x: Input, i: int) -> Parsed<tree::ExternMember>
{
    if input::tk(x, i) == Token::Struct {
        if !input::named(x, i + 1) {
            Err(i + 1)
        } else if input::tk(x, i + 2) == Token::Has {
            match fields(nest, x, seq![], i + 3) {
                Ok((fs, e)) if i + 3 <= e <= x.len() => Ok((tree::ExternMember::Struct { name: input::word(x, i + 1), fields: fs, span: input::span_of(x, i, e) }, e)),
                other => Err(input::stop_of(other, i + 3)),
            }
        } else {
            Ok((tree::ExternMember::Struct { name: input::word(x, i + 1), fields: seq![], span: input::span_of(x, i, i + 2) }, i + 2))
        }
    } else if input::tk(x, i) == Token::Enum {
        if !input::named(x, i + 1) {
            Err(i + 1)
        } else if input::tk(x, i + 2) != Token::Has {
            Err(i + 2)
        } else {
            match variants(nest, x, seq![], i + 3) {
                Ok((vs, e)) if i + 3 <= e <= x.len() => Ok((tree::ExternMember::Enum { name: input::word(x, i + 1), variants: vs, span: input::span_of(x, i, e) }, e)),
                other => Err(input::stop_of(other, i + 3)),
            }
        }
    } else if input::tk(x, i) == Token::Const {
        match grammar_types::ty(nest, x, true, i + 1) {
            Ok((t, j)) if i + 1 < j <= x.len() => {
                if !input::named(x, j) {
                    Err(j)
                } else {
                    Ok((tree::ExternMember::Const { ty: t, name: input::word(x, j), span: input::span_of(x, i, j + 1) }, j + 1))
                }
            },
            other => Err(input::stop_of(other, i + 1)),
        }
    } else {
        match grammar_types::ty(nest, x, true, i) {
            Ok((t, j)) if i < j <= x.len() => {
                if !input::named(x, j) {
                    Err(j)
                } else if input::tk(x, j + 1) != Token::LParen {
                    Err(j + 1)
                } else {
                    match grammar_types::params(nest, x, Token::RParen, seq![], j + 2) {
                        Ok((ps, e)) if j + 2 <= e <= x.len() => Ok((tree::ExternMember::Function { ty: t, name: input::word(x, j), params: ps, span: input::span_of(x, i, e) }, e)),
                        other => Err(input::stop_of(other, j + 2)),
                    }
                }
            },
            other => Err(input::stop_of(other, i)),
        }
    }
}

/// The declarations of a foreign library.
#[verifier::opaque]
pub open spec fn extern_members(nest: Rules, x: Input, acc: Seq<tree::ExternMember>, i: int) -> Parsed<Seq<tree::ExternMember>>
    decreases x.len() - i,
{
    let k = input::skip_terms(x, i);
    if input::tk(x, k) == Token::End {
        Ok((acc, k + 1))
    } else {
        match extern_member(nest, x, k) {
            Ok((a, j)) if k < j <= x.len() => {
                if input::term(x, j) || input::tk(x, j) == Token::End {
                    extern_members(nest, x, acc.push(a), j)
                } else {
                    Err(j)
                }
            },
            other => Err(input::stop_of(other, k)),
        }
    }
}

/// A block of foreign declarations.
#[verifier::opaque]
pub open spec fn foreign(nest: Rules, x: Input, i: int) -> Parsed<tree::ExternDecl>
{
    if input::tk(x, i) != Token::Extern {
        Err(i)
    } else if input::tk(x, i + 1) != Token::StringLit {
        Err(i + 1)
    } else if input::tk(x, i + 2) != Token::From {
        Err(i + 2)
    } else if input::tk(x, i + 3) != Token::StringLit {
        Err(i + 3)
    } else if input::tk(x, i + 4) != Token::Do {
        Err(i + 4)
    } else {
        match extern_members(nest, x, seq![], i + 5) {
            Ok((ms, e)) if i + 5 <= e <= x.len() => Ok((tree::ExternDecl { lib: input::piece(x, i + 1), file: input::piece(x, i + 3), members: ms, span: input::span_of(x, i, e) }, e)),
            other => Err(input::stop_of(other, i + 5)),
        }
    }
}

/// An item that a keyword starts.
#[verifier::opaque]
pub open spec fn declaration(nest: Rules, x: Input, i: int) -> Parsed<tree::Item>
{
    if input::tk(x, i) == Token::Import {
        match import(x, i) {
            Ok((d, j)) if i < j <= x.len() => Ok((tree::Item::Import(d), j)),
            other => Err(input::stop_of(other, i)),
        }
    } else if input::tk(x, i) == Token::Struct {
        match struct_decl(nest, x, i) {
            Ok((d, j)) if i < j <= x.len() => Ok((tree::Item::Struct(d), j)),
            other => Err(input::stop_of(other, i)),
        }
    } else if input::is_class(x, i) {
        match class_decl(nest, x, i) {
            Ok((d, j)) if i < j <= x.len() => Ok((tree::Item::Class(d), j)),
            other => Err(input::stop_of(other, i)),
        }
    } else if input::tk(x, i) == Token::Enum {
        match enum_decl(nest, x, i) {
            Ok((d, j)) if i < j <= x.len() => Ok((tree::Item::Enum(d), j)),
            other => Err(input::stop_of(other, i)),
        }
    } else if input::tk(x, i) == Token::Trait {
        match trait_decl(nest, x, i) {
            Ok((d, j)) if i < j <= x.len() => Ok((tree::Item::Trait(d), j)),
            other => Err(input::stop_of(other, i)),
        }
    } else if input::tk(x, i) == Token::Extend {
        match extension(nest, x, i) {
            Ok((d, j)) if i < j <= x.len() => Ok((tree::Item::Extension(d), j)),
            other => Err(input::stop_of(other, i)),
        }
    } else if input::tk(x, i) == Token::Extern {
        match foreign(nest, x, i) {
            Ok((d, j)) if i < j <= x.len() => Ok((tree::Item::Extern(d), j)),
            other => Err(input::stop_of(other, i)),
        }
    } else if input::tk(x, i) == Token::Init && input::tk(x, i + 1) == Token::Do {
        match grammar_stmts::block(nest, x, i, i + 2) {
            Ok((b, k)) if i + 2 <= k <= x.len() => Ok((tree::Item::Init(b), k)),
            other => Err(input::stop_of(other, i + 2)),
        }
    } else {
        Err(i)
    }
}

/// An item.
#[verifier::opaque]
pub open spec fn item(nest: Rules, x: Input, i: int) -> Parsed<tree::Item>
    decreases x.len() - i,
{
    if input::tk(x, i) == Token::At {
        match attributes(nest, x, seq![], i) {
            Ok((xs, j)) if i <= j <= x.len() => {
                if j == i {
                    Err(i)
                } else {
                    match item(nest, x, j) {
                        Ok((it, k)) if j < k <= x.len() => Ok((tree::Item::Attributed { attrs: xs, item: Box::new(it) }, k)),
                        other => Err(input::stop_of(other, j)),
                    }
                }
            },
            other => Err(input::stop_of(other, i)),
        }
    } else if input::starts_declaration(x, i) {
        match declaration(nest, x, i) {
            Ok((it, j)) if i < j <= x.len() => Ok((it, j)),
            other => Err(input::stop_of(other, i)),
        }
    } else {
        match visibility(x, i) {
            Ok((v, a)) if i <= a <= x.len() => {
                match value_item(nest, x, v, i, a) {
                    Ok((it, j)) if a < j <= x.len() => Ok((it, j)),
                    other => Err(input::stop_of(other, a)),
                }
            },
            other => Err(input::stop_of(other, i)),
        }
    }
}

/// A constant, an alias, a variable or a function that starts at `s`.
#[verifier::opaque]
pub open spec fn value_item(nest: Rules, x: Input, v: Visibility, s: int, i: int) -> Parsed<tree::Item>
{
    if input::tk(x, i) == Token::Const {
        match grammar_stmts::const_decl(nest, x, v, s, i) {
            Ok((d, j)) if i < j <= x.len() => Ok((tree::Item::Const(d), j)),
            other => Err(input::stop_of(other, i)),
        }
    } else if input::tk(x, i) == Token::Typedef {
        match alias(nest, x, v, s, i) {
            Ok((d, j)) if i < j <= x.len() => Ok((tree::Item::Typedef(d), j)),
            other => Err(input::stop_of(other, i)),
        }
    } else if input::tk(x, i) == Token::Distinct {
        match alias(nest, x, v, s, i) {
            Ok((d, j)) if i < j <= x.len() => Ok((tree::Item::Distinct(d), j)),
            other => Err(input::stop_of(other, i)),
        }
    } else {
        match grammar_types::ty(nest, x, true, i) {
            Ok((t, p)) if i < p <= x.len() && input::named(x, p) && input::tk(x, p + 1) != Token::LParen && input::tk(x, p + 1) != Token::Lt => {
                match grammar_stmts::var_rest(nest, x, s, v, t, p) {
                    Ok((d, j)) if p < j <= x.len() => Ok((tree::Item::Var(d), j)),
                    other => Err(input::stop_of(other, p)),
                }
            },
            _ => {
                match function(nest, x, v, s, i) {
                    Ok((f, j)) if i < j <= x.len() => Ok((tree::Item::Function(f), j)),
                    other => Err(input::stop_of(other, i)),
                }
            },
        }
    }
}

/// The items of a program.
#[verifier::opaque]
pub open spec fn items(nest: Rules, x: Input, acc: Seq<tree::Item>, i: int) -> Parsed<Seq<tree::Item>>
    decreases x.len() - i,
{
    let k = input::skip_terms(x, i);
    if input::tk(x, k) == Token::Eof {
        Ok((acc, k))
    } else {
        match item(nest, x, k) {
            Ok((it, j)) if k < j <= x.len() => {
                if input::term(x, j) || input::tk(x, j) == Token::Eof {
                    items(nest, x, acc.push(it), j)
                } else {
                    Err(j)
                }
            },
            other => Err(input::stop_of(other, k)),
        }
    }
}

} // verus!
