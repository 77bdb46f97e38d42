//! The grammar of types, parameters and patterns.
//!
//! Each function says what stands at token `i`: the tree and the index after it, or the
//! token that does not fit. What is nested in it is read by the rules in `nest`.
use vstd::prelude::*;
use crate::ast::ParamMode;
use crate::parse::input;
use crate::parse::input::{Input, Parsed};
use crate::parse::rules::Rules;
use crate::token::Token;
use crate::tree;

verus! {

broadcast use input::group_forward;

/// A type; `m` allows a map type.
#[verifier::opaque]
pub open spec fn ty(nest: Rules, x: Input, m: bool, i: int) -> Parsed<tree::Type>
{
    match type_base(nest, x, i) {
        Ok((t, j)) if i < j <= x.len() => {
            match type_rest(nest, x, m, t, j) {
                Ok((r, k)) if j <= k <= x.len() => Ok((r, k)),
                other => Err(input::stop_of(other, j)),
            }
        },
        other => Err(input::stop_of(other, i)),
    }
}

/// A type without suffixes.
#[verifier::opaque]
pub open spec fn type_base(nest: Rules, x: Input, i: int) -> Parsed<tree::Type>
{
    if input::tk(x, i) == Token::Int {
        Ok((tree::Type::Int, i + 1))
    } else if input::tk(x, i) == Token::Bool {
        Ok((tree::Type::Bool, i + 1))
    } else if input::tk(x, i) == Token::Void {
        Ok((tree::Type::Void, i + 1))
    } else if input::tk(x, i) == Token::Str {
        Ok((tree::Type::Str, i + 1))
    } else if input::tk(x, i) == Token::Char {
        Ok((tree::Type::Char, i + 1))
    } else if input::tk(x, i) == Token::Float {
        Ok((tree::Type::Float, i + 1))
    } else if input::tk(x, i) == Token::Double {
        Ok((tree::Type::Double, i + 1))
    } else if input::tk(x, i) == Token::Any {
        Ok((tree::Type::Any, i + 1))
    } else if input::tk(x, i) == Token::Function && input::tk(x, i + 1) == Token::Lt {
        match (nest.ty)(x, false, i + 2) {
            Ok((t, j)) if i + 2 < j <= x.len() => {
                if input::tk(x, j) != Token::LParen {
                    Err(j)
                } else {
                    match types(nest, x, Token::RParen, seq![], j + 1) {
                        Ok((ts, k)) if j + 1 <= k <= x.len() => {
                            if input::tk(x, k) != Token::Gt {
                                Err(k)
                            } else {
                                Ok((tree::Type::Function(Box::new(t), ts), k + 1))
                            }
                        },
                        other => Err(input::stop_of(other, j + 1)),
                    }
                }
            },
            other => Err(input::stop_of(other, i + 2)),
        }
    } else if input::tk(x, i) == Token::LParen {
        match types(nest, x, Token::RParen, seq![], i + 1) {
            Ok((ts, k)) if i + 1 <= k <= x.len() => Ok((tree::Type::Tuple(ts), k)),
            other => Err(input::stop_of(other, i + 1)),
        }
    } else if input::named(x, i) {
        if input::tk(x, i + 1) == Token::Lt {
            match types(nest, x, Token::Gt, seq![], i + 2) {
                Ok((ts, k)) if i + 2 <= k <= x.len() => Ok((tree::Type::Generic(input::word(x, i), ts), k)),
                other => Err(input::stop_of(other, i + 2)),
            }
        } else {
            Ok((tree::Type::Named(input::word(x, i)), i + 1))
        }
    } else {
        Err(i)
    }
}

/// The suffixes of a type.
#[verifier::opaque]
pub open spec fn type_rest(nest: Rules, x: Input, m: bool, acc: tree::Type, i: int) -> Parsed<tree::Type>
    decreases x.len() - i,
{
    if input::tk(x, i) == Token::LBracket && input::tk(x, i + 1) == Token::RBracket {
        type_rest(nest, x, m, tree::Type::Array(Box::new(acc)), i + 2)
    } else if input::tk(x, i) == Token::Star {
        type_rest(nest, x, m, tree::Type::Pointer(Box::new(acc)), i + 1)
    } else if input::tk(x, i) == Token::Question {
        type_rest(nest, x, m, tree::Type::Optional(Box::new(acc)), i + 1)
    } else if input::tk(x, i) == Token::Vector {
        type_rest(nest, x, m, tree::Type::Vector(Box::new(acc)), i + 1)
    } else if input::tk(x, i) == Token::Arr {
        if input::tk(x, i + 1) == Token::LBracket && input::tk(x, i + 2) == Token::IntLit && input::tk(x, i + 3) == Token::RBracket {
            match input::size_at(x, i + 2) {
                Some(n) => {
                    type_rest(nest, x, m, tree::Type::FixedArray(Box::new(acc), Some(n)), i + 4)
                },
                None => Err(i + 2),
            }
        } else {
            type_rest(nest, x, m, tree::Type::FixedArray(Box::new(acc), None), i + 1)
        }
    } else if m && input::tk(x, i) == Token::Colon {
        match (nest.ty)(x, true, i + 1) {
            Ok((v, j)) if i + 1 < j <= x.len() => {
                Ok((tree::Type::Mapping(Box::new(acc), Box::new(v)), j))
            },
            _ => {
                Ok((acc, i))
            },
        }
    } else {
        Ok((acc, i))
    }
}

/// Types up to `close`.
#[verifier::opaque]
pub open spec fn types(nest: Rules, x: Input, close: Token, acc: Seq<tree::Type>, i: int) -> Parsed<Seq<tree::Type>>
    decreases x.len() - i,
{
    let k = input::skip_newlines(x, i);
    if input::tk(x, k) == close && close != Token::Eof {
        Ok((acc, k + 1))
    } else {
        match (nest.ty)(x, true, k) {
            Ok((a, j)) if k < j <= x.len() => {
                let p = input::skip_newlines(x, j);
                if input::tk(x, p) == Token::Comma {
                    types(nest, x, close, acc.push(a), p + 1)
                } else if input::tk(x, p) == close && close != Token::Eof {
                    Ok((acc.push(a), p + 1))
                } else {
                    Err(p)
                }
            },
            other => Err(input::stop_of(other, k)),
        }
    }
}

/// A generic parameter, with a bound where it has one.
#[verifier::opaque]
pub open spec fn generic_param(nest: Rules, x: Input, i: int) -> Parsed<tree::GenericParam>
{
    if !input::named(x, i) {
        Err(i)
    } else if input::tk(x, i + 1) == Token::Colon {
        match ty(nest, x, false, i + 2) {
            Ok((t, j)) if i + 2 < j <= x.len() => Ok((tree::GenericParam { name: input::word(x, i), bounds: seq![t] }, j)),
            other => Err(input::stop_of(other, i + 2)),
        }
    } else {
        Ok((tree::GenericParam { name: input::word(x, i), bounds: seq![] }, i + 1))
    }
}

/// Generic parameters up to `close`.
#[verifier::opaque]
pub open spec fn generic_params(nest: Rules, x: Input, close: Token, acc: Seq<tree::GenericParam>, i: int) -> Parsed<Seq<tree::GenericParam>>
    decreases x.len() - i,
{
    let k = input::skip_newlines(x, i);
    if input::tk(x, k) == close && close != Token::Eof {
        Ok((acc, k + 1))
    } else {
        match generic_param(nest, x, k) {
            Ok((a, j)) if k < j <= x.len() => {
                let p = input::skip_newlines(x, j);
                if input::tk(x, p) == Token::Comma {
                    generic_params(nest, x, close, acc.push(a), p + 1)
                } else if input::tk(x, p) == close && close != Token::Eof {
                    Ok((acc.push(a), p + 1))
                } else {
                    Err(p)
                }
            },
            other => Err(input::stop_of(other, k)),
        }
    }
}

/// A generic parameter list, where there is one.
#[verifier::opaque]
pub open spec fn generics(nest: Rules, x: Input, i: int) -> Parsed<Seq<tree::GenericParam>>
{
    if input::tk(x, i) == Token::Lt {
        match generic_params(nest, x, Token::Gt, seq![], i + 1) {
            Ok((ps, k)) if i + 1 <= k <= x.len() => Ok((ps, k)),
            other => Err(input::stop_of(other, i + 1)),
        }
    } else {
        Ok((seq![], i))
    }
}

/// One constraint of a `where` clause.
#[verifier::opaque]
pub open spec fn constraint(nest: Rules, x: Input, i: int) -> Parsed<tree::Constraint>
{
    match ty(nest, x, false, i) {
        Ok((t, j)) if i < j <= x.len() => {
            if input::tk(x, j) != Token::Colon {
                Err(j)
            } else {
                match ty(nest, x, false, j + 1) {
                    Ok((b, k)) if j + 1 < k <= x.len() => Ok((tree::Constraint { ty: t, bounds: seq![b] }, k)),
                    other => Err(input::stop_of(other, j + 1)),
                }
            }
        },
        other => Err(input::stop_of(other, i)),
    }
}

/// Constraints separated by commas.
#[verifier::opaque]
pub open spec fn constraints(nest: Rules, x: Input, acc: Seq<tree::Constraint>, i: int) -> Parsed<Seq<tree::Constraint>>
    decreases x.len() - i,
{
    match constraint(nest, x, i) {
        Ok((c, j)) if i < j <= x.len() => {
            if input::tk(x, j) == Token::Comma {
                constraints(nest, x, acc.push(c), j + 1)
            } else {
                Ok((acc.push(c), j))
            }
        },
        other => Err(input::stop_of(other, i)),
    }
}

/// A `where` clause, where there is one.
#[verifier::opaque]
pub open spec fn where_clause(nest: Rules, x: Input, i: int) -> Parsed<Option<tree::WhereClause>>
{
    if input::tk(x, i) == Token::Where {
        match constraints(nest, x, seq![], i + 1) {
            Ok((cs, j)) if i + 1 <= j <= x.len() => Ok((Some(tree::WhereClause { constraints: cs }), j)),
            other => Err(input::stop_of(other, i + 1)),
        }
    } else {
        Ok((None, i))
    }
}

/// A parameter.
#[verifier::opaque]
pub open spec fn param(nest: Rules, x: Input, i: int) -> Parsed<tree::Param>
{
    if input::tk(x, i) == Token::Ellipsis {
        if input::closes_param(x, i + 1) {
            Ok((tree::Param { is_variadic: true, mode: ParamMode::Plain, ty: tree::Type::Named("__derived__"@), name: ""@ }, i + 1))
        } else if input::named(x, i + 1) && input::closes_param(x, i + 2) {
            Ok((tree::Param { is_variadic: true, mode: ParamMode::Plain, ty: tree::Type::Named("__derived__"@), name: input::word(x, i + 1) }, i + 2))
        } else {
            match ty(nest, x, true, i + 1) {
                Ok((t, j)) if i + 1 < j <= x.len() => {
                    if !input::named(x, j) {
                        Err(j)
                    } else {
                        Ok((tree::Param { is_variadic: true, mode: ParamMode::Plain, ty: t, name: input::word(x, j) }, j + 1))
                    }
                },
                other => Err(input::stop_of(other, i + 1)),
            }
        }
    } else if input::tk(x, i) == Token::Ref {
        match ty(nest, x, true, i + 1) {
            Ok((t, j)) if i + 1 < j <= x.len() => {
                if !input::named(x, j) {
                    Err(j)
                } else {
                    Ok((tree::Param { is_variadic: false, mode: ParamMode::Ref, ty: t, name: input::word(x, j) }, j + 1))
                }
            },
            other => Err(input::stop_of(other, i + 1)),
        }
    } else if input::tk(x, i) == Token::Out {
        match ty(nest, x, true, i + 1) {
            Ok((t, j)) if i + 1 < j <= x.len() => {
                if !input::named(x, j) {
                    Err(j)
                } else {
                    Ok((tree::Param { is_variadic: false, mode: ParamMode::Out, ty: t, name: input::word(x, j) }, j + 1))
                }
            },
            other => Err(input::stop_of(other, i + 1)),
        }
    } else {
        match ty(nest, x, true, i) {
            Ok((t, j)) if i < j <= x.len() => {
                if !input::named(x, j) {
                    Err(j)
                } else {
                    Ok((tree::Param { is_variadic: false, mode: ParamMode::Plain, ty: t, name: input::word(x, j) }, j + 1))
                }
            },
            other => Err(input::stop_of(other, i)),
        }
    }
}

/// Parameters up to `close`.
#[verifier::opaque]
pub open spec fn params(nest: Rules, x: Input, close: Token, acc: Seq<tree::Param>, i: int) -> Parsed<Seq<tree::Param>>
    decreases x.len() - i,
{
    let k = input::skip_newlines(x, i);
    if input::tk(x, k) == close && close != Token::Eof {
        Ok((acc, k + 1))
    } else {
        match param(nest, x, k) {
            Ok((a, j)) if k < j <= x.len() => {
                let p = input::skip_newlines(x, j);
                if input::tk(x, p) == Token::Comma {
                    params(nest, x, close, acc.push(a), p + 1)
                } else if input::tk(x, p) == close && close != Token::Eof {
                    Ok((acc.push(a), p + 1))
                } else {
                    Err(p)
                }
            },
            other => Err(input::stop_of(other, k)),
        }
    }
}

/// A pattern: alternatives separated by `|` or `or`.
#[verifier::opaque]
pub open spec fn pattern(nest: Rules, x: Input, i: int) -> Parsed<tree::Pattern>
{
    match simple_pattern(nest, x, i) {
        Ok((p, j)) if i < j <= x.len() => {
            if input::tk(x, j) == Token::Pipe || input::tk(x, j) == Token::Or {
                match alternatives(nest, x, seq![p], j) {
                    Ok((ps, k)) if j <= k <= x.len() => Ok((tree::Pattern::Alternative(ps), k)),
                    other => Err(input::stop_of(other, j)),
                }
            } else {
                Ok((p, j))
            }
        },
        other => Err(input::stop_of(other, i)),
    }
}

/// Further alternatives.
#[verifier::opaque]
pub open spec fn alternatives(nest: Rules, x: Input, acc: Seq<tree::Pattern>, i: int) -> Parsed<Seq<tree::Pattern>>
    decreases x.len() - i,
{
    if input::tk(x, i) == Token::Pipe || input::tk(x, i) == Token::Or {
        match simple_pattern(nest, x, i + 1) {
            Ok((p, j)) if i + 1 < j <= x.len() => alternatives(nest, x, acc.push(p), j),
            other => Err(input::stop_of(other, i + 1)),
        }
    } else {
        Ok((acc, i))
    }
}

/// A pattern without alternatives.
#[verifier::opaque]
pub open spec fn simple_pattern(nest: Rules, x: Input, i: int) -> Parsed<tree::Pattern>
{
    if input::named(x, i) {
        if input::is_wildcard(x, i) {
            Ok((tree::Pattern::Wildcard, i + 1))
        } else {
            Ok((tree::Pattern::Var(input::word(x, i)), i + 1))
        }
    } else if input::tk(x, i) == Token::IntLit {
        match input::int_at(x, i) {
            Some(v) => {
                Ok((tree::Pattern::LitInt(v), i + 1))
            },
            None => Err(i),
        }
    } else if input::tk(x, i) == Token::Minus && input::tk(x, i + 1) == Token::IntLit {
        match input::neg_int_at(x, i + 1) {
            Some(v) => {
                Ok((tree::Pattern::LitInt(v), i + 2))
            },
            None => Err(i + 1),
        }
    } else if input::tk(x, i) == Token::True {
        Ok((tree::Pattern::LitBool(true), i + 1))
    } else if input::tk(x, i) == Token::False {
        Ok((tree::Pattern::LitBool(false), i + 1))
    } else if input::tk(x, i) == Token::Dot && input::worded(x, i + 1) {
        if input::tk(x, i + 2) == Token::LParen {
            match patterns(nest, x, Token::RParen, seq![], i + 3) {
                Ok((ps, k)) if i + 3 <= k <= x.len() => Ok((tree::Pattern::Variant { variant: input::word(x, i + 1), payload: Some(ps) }, k)),
                other => Err(input::stop_of(other, i + 3)),
            }
        } else {
            Ok((tree::Pattern::Variant { variant: input::word(x, i + 1), payload: None }, i + 2))
        }
    } else if input::tk(x, i) == Token::LParen {
        match patterns(nest, x, Token::RParen, seq![], i + 1) {
            Ok((ps, k)) if i + 1 <= k <= x.len() => Ok((tree::Pattern::Tuple(ps), k)),
            other => Err(input::stop_of(other, i + 1)),
        }
    } else {
        Err(i)
    }
}

/// Patterns up to `close`.
#[verifier::opaque]
pub open spec fn patterns(nest: Rules, x: Input, close: Token, acc: Seq<tree::Pattern>, i: int) -> Parsed<Seq<tree::Pattern>>
    decreases x.len() - i,
{
    let k = input::skip_newlines(x, i);
    if input::tk(x, k) == close && close != Token::Eof {
        Ok((acc, k + 1))
    } else {
        match (nest.pattern)(x, k) {
            Ok((a, j)) if k < j <= x.len() => {
                let p = input::skip_newlines(x, j);
                if input::tk(x, p) == Token::Comma {
                    patterns(nest, x, close, acc.push(a), p + 1)
                } else if input::tk(x, p) == close && close != Token::Eof {
                    Ok((acc.push(a), p + 1))
                } else {
                    Err(p)
                }
            },
            other => Err(input::stop_of(other, k)),
        }
    }
}

} // verus!
