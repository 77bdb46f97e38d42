//! The grammar of expressions.
use vstd::prelude::*;
use crate::ast::UnaryOp;
use crate::parse::grammar_types;
use crate::parse::input;
use crate::parse::input::{Input, Parsed};
use crate::parse::rules::Rules;
use crate::token::Token;
use crate::tree;

verus! {

broadcast use input::group_forward;

/// An expression.
#[verifier::opaque]
pub open spec fn expr(nest: Rules, x: Input, i: int) -> Parsed<tree::Expr>
{
    match conditional(nest, x, i) {
        Ok((l, j)) if i < j <= x.len() => {
            if input::tk(x, j) == Token::Eq {
                let p = input::skip_newlines(x, j + 1);
                match (nest.expr)(x, p) {
                    Ok((v, k)) if p < k <= x.len() => Ok((tree::Expr { kind: tree::ExprKind::Assign(Box::new(l), Box::new(v)), span: input::span_of(x, i, k) }, k)),
                    other => Err(input::stop_of(other, p)),
                }
            } else if input::assigns(x, j) {
                let p = input::after_assign(x, j);
                match (nest.expr)(x, p) {
                    Ok((v, k)) if p < k <= x.len() => Ok((tree::Expr { kind: tree::ExprKind::CompoundAssign(input::assign_op(x, j), Box::new(l), Box::new(v)), span: input::span_of(x, i, k) }, k)),
                    other => Err(input::stop_of(other, p)),
                }
            } else {
                Ok((l, j))
            }
        },
        other => Err(input::stop_of(other, i)),
    }
}

/// A conditional expression, or one that binds tighter.
#[verifier::opaque]
pub open spec fn conditional(nest: Rules, x: Input, i: int) -> Parsed<tree::Expr>
{
    match bin(nest, x, 0, i) {
        Ok((c, j)) if i < j <= x.len() => {
            if input::tk(x, j) == Token::Question {
                match (nest.conditional)(x, j + 1) {
                    Ok((a, k)) if j + 1 < k <= x.len() => {
                        if input::tk(x, k) != Token::Colon {
                            Err(k)
                        } else {
                            match (nest.conditional)(x, k + 1) {
                                Ok((b, p)) if k + 1 < p <= x.len() => Ok((tree::Expr { kind: tree::ExprKind::Conditional(Box::new(c), Box::new(a), Box::new(b)), span: input::span_of(x, i, p) }, p)),
                                other => Err(input::stop_of(other, k + 1)),
                            }
                        }
                    },
                    other => Err(input::stop_of(other, j + 1)),
                }
            } else {
                Ok((c, j))
            }
        },
        other => Err(input::stop_of(other, i)),
    }
}

/// A chain of operators of level `l`, or an expression that binds tighter.
#[verifier::opaque]
pub open spec fn bin(nest: Rules, x: Input, l: int, i: int) -> Parsed<tree::Expr>
    decreases 12 - l,
{
    if l >= 12 {
        match unary(nest, x, i) {
            Ok((e, j)) if i < j <= x.len() => Ok((e, j)),
            other => Err(input::stop_of(other, i)),
        }
    } else if l == 5 && (input::tk(x, i) == Token::DotDot || input::tk(x, i) == Token::DotDotEq) {
        match range_start(nest, x, i) {
            Ok((e, j)) if i < j <= x.len() => Ok((e, j)),
            other => Err(input::stop_of(other, i)),
        }
    } else {
        match bin(nest, x, l + 1, i) {
            Ok((a, j)) if i < j <= x.len() => {
                if l == 5 {
                    match range_rest(nest, x, i, a, j) {
                        Ok((e, k)) if j <= k <= x.len() => Ok((e, k)),
                        other => Err(input::stop_of(other, j)),
                    }
                } else {
                    match bin_rest(nest, x, i, l, a, j) {
                        Ok((e, k)) if j <= k <= x.len() => Ok((e, k)),
                        other => Err(input::stop_of(other, j)),
                    }
                }
            },
            other => Err(input::stop_of(other, i)),
        }
    }
}

/// The operators of level `l` that follow `acc`, which starts at `s`.
#[verifier::opaque]
pub open spec fn bin_rest(nest: Rules, x: Input, s: int, l: int, acc: tree::Expr, i: int) -> Parsed<tree::Expr>
    decreases x.len() - i,
{
    if input::binds(x, l, i) {
        let p = input::after_op(x, i);
        match (nest.bin)(x, l + 1, p) {
            Ok((b, k)) if p < k <= x.len() => bin_rest(nest, x, s, l, tree::Expr { kind: tree::ExprKind::Binary(input::op_at(x, i), Box::new(acc), Box::new(b)), span: input::span_of(x, s, k) }, k),
            other => Err(input::stop_of(other, p)),
        }
    } else {
        Ok((acc, i))
    }
}

/// A range without a start.
#[verifier::opaque]
pub open spec fn range_start(nest: Rules, x: Input, i: int) -> Parsed<tree::Expr>
{
    if input::tk(x, i) != Token::DotDot && input::tk(x, i) != Token::DotDotEq {
        Err(i)
    } else if input::starts_expr(x, i + 1) {
        match (nest.bin)(x, 6, i + 1) {
            Ok((b, k)) if i + 1 < k <= x.len() => Ok((tree::Expr { kind: tree::ExprKind::Range(None, Some(Box::new(b)), input::tk(x, i) == Token::DotDotEq), span: input::span_of(x, i, k) }, k)),
            other => Err(input::stop_of(other, i + 1)),
        }
    } else {
        Ok((tree::Expr { kind: tree::ExprKind::Range(None, None, input::tk(x, i) == Token::DotDotEq), span: input::span_of(x, i, i + 1) }, i + 1))
    }
}

/// The rest of a range that starts with `a`, or `a` itself.
#[verifier::opaque]
pub open spec fn range_rest(nest: Rules, x: Input, s: int, a: tree::Expr, i: int) -> Parsed<tree::Expr>
{
    if input::tk(x, i) == Token::DotDot || input::tk(x, i) == Token::DotDotEq {
        if input::starts_expr(x, i + 1) {
            match (nest.bin)(x, 6, i + 1) {
                Ok((b, k)) if i + 1 < k <= x.len() => Ok((tree::Expr { kind: tree::ExprKind::Range(Some(Box::new(a)), Some(Box::new(b)), input::tk(x, i) == Token::DotDotEq), span: input::span_of(x, s, k) }, k)),
                other => Err(input::stop_of(other, i + 1)),
            }
        } else {
            Ok((tree::Expr { kind: tree::ExprKind::Range(Some(Box::new(a)), None, input::tk(x, i) == Token::DotDotEq), span: input::span_of(x, s, i + 1) }, i + 1))
        }
    } else {
        Ok((a, i))
    }
}

/// Prefix operators and what they apply to.
#[verifier::opaque]
pub open spec fn unary(nest: Rules, x: Input, i: int) -> Parsed<tree::Expr>
    decreases x.len() - i,
{
    if input::is_prefix(x, i) {
        match unary(nest, x, i + 1) {
            Ok((e, j)) if i + 1 < j <= x.len() => Ok((tree::Expr { kind: tree::ExprKind::Unary(input::prefix_op(x, i), Box::new(e)), span: input::span_of(x, i, j) }, j)),
            other => Err(input::stop_of(other, i + 1)),
        }
    } else {
        match primary(nest, x, i) {
            Ok((e, j)) if i < j <= x.len() => {
                match postfix(nest, x, i, e, j) {
                    Ok((r, k)) if j <= k <= x.len() => Ok((r, k)),
                    other => Err(input::stop_of(other, j)),
                }
            },
            other => Err(input::stop_of(other, i)),
        }
    }
}

/// Member accesses, calls, indices and postfix operators that follow `acc`.
#[verifier::opaque]
pub open spec fn postfix(nest: Rules, x: Input, s: int, acc: tree::Expr, i: int) -> Parsed<tree::Expr>
    decreases x.len() - i,
{
    if input::tk(x, i) == Token::Dot && input::worded(x, i + 1) {
        if input::tk(x, i + 2) == Token::LParen {
            match args(nest, x, seq![], i + 3) {
                Ok((xs, k)) if i + 3 <= k <= x.len() => postfix(nest, x, s, tree::Expr { kind: tree::ExprKind::MethodCall { object: Box::new(acc), method: input::word(x, i + 1), args: xs }, span: input::span_of(x, s, k) }, k),
                other => Err(input::stop_of(other, i + 3)),
            }
        } else {
            postfix(nest, x, s, tree::Expr { kind: tree::ExprKind::Member(Box::new(acc), input::word(x, i + 1)), span: input::span_of(x, s, i + 2) }, i + 2)
        }
    } else if input::tk(x, i) == Token::NullDot && input::worded(x, i + 1) {
        postfix(nest, x, s, tree::Expr { kind: tree::ExprKind::NullableMember(Box::new(acc), input::word(x, i + 1)), span: input::span_of(x, s, i + 2) }, i + 2)
    } else if input::tk(x, i) == Token::LBracket {
        match (nest.expr)(x, i + 1) {
            Ok((index, j)) if i + 1 < j <= x.len() => {
                if input::tk(x, j) != Token::RBracket {
                    Err(j)
                } else {
                    postfix(nest, x, s, tree::Expr { kind: input::indexed(acc, index), span: input::span_of(x, s, j + 1) }, j + 1)
                }
            },
            other => Err(input::stop_of(other, i + 1)),
        }
    } else if input::tk(x, i) == Token::PlusPlus {
        postfix(nest, x, s, tree::Expr { kind: tree::ExprKind::Postfix(UnaryOp::Inc, Box::new(acc)), span: input::span_of(x, s, i + 1) }, i + 1)
    } else if input::tk(x, i) == Token::MinusMinus {
        postfix(nest, x, s, tree::Expr { kind: tree::ExprKind::Postfix(UnaryOp::Dec, Box::new(acc)), span: input::span_of(x, s, i + 1) }, i + 1)
    } else {
        Ok((acc, i))
    }
}

/// A literal, a name, a call, or a bracketed expression.
#[verifier::opaque]
pub open spec fn primary(nest: Rules, x: Input, i: int) -> Parsed<tree::Expr>
{
    if input::tk(x, i) == Token::IntLit {
        match input::int_at(x, i) {
            Some(v) => {
                Ok((tree::Expr { kind: tree::ExprKind::IntLit(v), span: input::span_of(x, i, i + 1) }, i + 1))
            },
            None => Err(i),
        }
    } else if input::is_simple(x, i) {
        Ok((tree::Expr { kind: input::simple(x, i), span: input::span_of(x, i, i + 1) }, i + 1))
    } else if input::tk(x, i) == Token::StringHead {
        match string_parts(nest, x, seq![], i) {
            Ok((ps, k)) if i <= k <= x.len() => {
                if k == i {
                    Err(i)
                } else {
                    Ok((tree::Expr { kind: tree::ExprKind::Interpolated(ps), span: input::span_of(x, i, k) }, k))
                }
            },
            other => Err(input::stop_of(other, i)),
        }
    } else if input::tk(x, i) == Token::LParen {
        match parenthesized(nest, x, i) {
            Ok((e, j)) if i < j <= x.len() => Ok((e, j)),
            other => Err(input::stop_of(other, i)),
        }
    } else if input::tk(x, i) == Token::LBracket {
        match exprs(nest, x, Token::RBracket, seq![], i + 1) {
            Ok((es, k)) if i + 1 <= k <= x.len() => Ok((tree::Expr { kind: tree::ExprKind::ArrayLit(es), span: input::span_of(x, i, k) }, k)),
            other => Err(input::stop_of(other, i + 1)),
        }
    } else if input::tk(x, i) == Token::Vector && input::tk(x, i + 1) == Token::LBracket && input::tk(x, i + 2) == Token::RBracket {
        Ok((tree::Expr { kind: tree::ExprKind::VecEmpty, span: input::span_of(x, i, i + 3) }, i + 3))
    } else if input::tk(x, i) == Token::Dot && input::worded(x, i + 1) {
        if input::tk(x, i + 2) == Token::LParen {
            match args(nest, x, seq![], i + 3) {
                Ok((xs, k)) if i + 3 <= k <= x.len() => Ok((tree::Expr { kind: tree::ExprKind::EnumVariant { enum_name: None, variant: input::word(x, i + 1), args: xs }, span: input::span_of(x, i, k) }, k)),
                other => Err(input::stop_of(other, i + 3)),
            }
        } else {
            Ok((tree::Expr { kind: tree::ExprKind::EnumVariant { enum_name: None, variant: input::word(x, i + 1), args: seq![] }, span: input::span_of(x, i, i + 2) }, i + 2))
        }
    } else if input::tk(x, i) == Token::Match {
        match match_expr(nest, x, i) {
            Ok((e, j)) if i < j <= x.len() => Ok((e, j)),
            other => Err(input::stop_of(other, i)),
        }
    } else if input::tk(x, i) == Token::Pipe {
        match closure(nest, x, i) {
            Ok((e, j)) if i < j <= x.len() => Ok((e, j)),
            other => Err(input::stop_of(other, i)),
        }
    } else if input::named(x, i) || input::tk(x, i) == Token::Super {
        match name_expr(nest, x, i) {
            Ok((e, j)) if i < j <= x.len() => Ok((e, j)),
            other => Err(input::stop_of(other, i)),
        }
    } else {
        match grammar_types::ty(nest, x, true, i) {
            Ok((t, j)) if i < j <= x.len() => {
                if input::tk(x, j) != Token::Has {
                    Err(j)
                } else {
                    match literal(nest, x, i, t, j) {
                        Ok((e, k)) if j < k <= x.len() => Ok((e, k)),
                        other => Err(input::stop_of(other, j)),
                    }
                }
            },
            other => Err(input::stop_of(other, i)),
        }
    }
}

/// A name, a call, or a literal of a named type.
#[verifier::opaque]
pub open spec fn name_expr(nest: Rules, x: Input, i: int) -> Parsed<tree::Expr>
{
    if input::tk(x, i + 1) == Token::LParen {
        match args(nest, x, seq![], i + 2) {
            Ok((xs, k)) if i + 2 <= k <= x.len() => Ok((tree::Expr { kind: tree::ExprKind::Call { callee: input::word(x, i), type_args: seq![], args: xs }, span: input::span_of(x, i, k) }, k)),
            other => Err(input::stop_of(other, i + 2)),
        }
    } else if input::tk(x, i) == Token::Super {
        Ok((tree::Expr { kind: tree::ExprKind::Super, span: input::span_of(x, i, i + 1) }, i + 1))
    } else if !input::named(x, i) {
        Err(i)
    } else if input::tk(x, i + 1) == Token::Has {
        match literal(nest, x, i, tree::Type::Named(input::word(x, i)), i + 1) {
            Ok((e, k)) if i + 1 < k <= x.len() => Ok((e, k)),
            other => Err(input::stop_of(other, i + 1)),
        }
    } else if input::tk(x, i + 1) == Token::Lt {
        match grammar_types::types(nest, x, Token::Gt, seq![], i + 2) {
            Ok((ts, j)) if i + 2 <= j <= x.len() && input::tk(x, j) == Token::LParen => {
                match args(nest, x, seq![], j + 1) {
                    Ok((xs, k)) if j + 1 <= k <= x.len() => Ok((tree::Expr { kind: tree::ExprKind::Call { callee: input::word(x, i), type_args: ts, args: xs }, span: input::span_of(x, i, k) }, k)),
                    other => Err(input::stop_of(other, j + 1)),
                }
            },
            _ => {
                match grammar_types::types(nest, x, Token::Gt, seq![], i + 2) {
                    Ok((ts, j)) if i + 2 <= j <= x.len() && input::tk(x, j) == Token::Has => {
                        match literal(nest, x, i, tree::Type::Generic(input::word(x, i), ts), j) {
                            Ok((e, k)) if j < k <= x.len() => Ok((e, k)),
                            other => Err(input::stop_of(other, j)),
                        }
                    },
                    _ => {
                        Ok((tree::Expr { kind: tree::ExprKind::Ident(input::word(x, i)), span: input::span_of(x, i, i + 1) }, i + 1))
                    },
                }
            },
        }
    } else {
        Ok((tree::Expr { kind: tree::ExprKind::Ident(input::word(x, i)), span: input::span_of(x, i, i + 1) }, i + 1))
    }
}

/// A parenthesized expression or a tuple.
#[verifier::opaque]
pub open spec fn parenthesized(nest: Rules, x: Input, i: int) -> Parsed<tree::Expr>
{
    if input::tk(x, i) != Token::LParen {
        Err(i)
    } else {
        match exprs(nest, x, Token::RParen, seq![], i + 1) {
            Ok((es, k)) if i + 1 <= k <= x.len() => {
                if es.len() == 1 {
                    Ok((tree::Expr { kind: tree::ExprKind::Paren(Box::new(es[0])), span: input::span_of(x, i, k) }, k))
                } else {
                    Ok((tree::Expr { kind: tree::ExprKind::Tuple(es), span: input::span_of(x, i, k) }, k))
                }
            },
            other => Err(input::stop_of(other, i + 1)),
        }
    }
}

/// Expressions up to `close`.
#[verifier::opaque]
pub open spec fn exprs(nest: Rules, x: Input, close: Token, acc: Seq<tree::Expr>, i: int) -> Parsed<Seq<tree::Expr>>
    decreases x.len() - i,
{
    let k = input::skip_newlines(x, i);
    if input::tk(x, k) == close && close != Token::Eof {
        Ok((acc, k + 1))
    } else {
        match (nest.expr)(x, k) {
            Ok((a, j)) if k < j <= x.len() => {
                let p = input::skip_newlines(x, j);
                if input::tk(x, p) == Token::Comma {
                    exprs(nest, x, close, acc.push(a), p + 1)
                } else if input::tk(x, p) == close && close != Token::Eof {
                    Ok((acc.push(a), p + 1))
                } else {
                    Err(p)
                }
            },
            other => Err(input::stop_of(other, k)),
        }
    }
}

/// The pieces of a string with holes.
#[verifier::opaque]
pub open spec fn string_parts(nest: Rules, x: Input, acc: Seq<tree::StringPart>, i: int) -> Parsed<Seq<tree::StringPart>>
    decreases x.len() - i,
{
    if input::tk(x, i) == Token::StringHead || input::tk(x, i) == Token::StringMid {
        match (nest.expr)(x, i + 1) {
            Ok((e, j)) if i + 1 < j <= x.len() => string_parts(nest, x, acc.push(tree::StringPart::Literal(input::piece(x, i))).push(tree::StringPart::Hole(e)), j),
            other => Err(input::stop_of(other, i + 1)),
        }
    } else if input::tk(x, i) == Token::StringTail {
        Ok((acc.push(tree::StringPart::Literal(input::piece(x, i))), i + 1))
    } else {
        Err(i)
    }
}

/// An argument of a call.
#[verifier::opaque]
pub open spec fn arg(nest: Rules, x: Input, i: int) -> Parsed<tree::CallArg>
{
    if input::tk(x, i) == Token::Out {
        match grammar_types::ty(nest, x, true, i + 1) {
            Ok((t, j)) if i + 1 < j <= x.len() && input::named(x, j) => {
                Ok((tree::CallArg::Out { ty: Some(t), name: input::word(x, j), name_span: input::span_of(x, j, j + 1) }, j + 1))
            },
            _ => {
                if input::named(x, i + 1) {
                    Ok((tree::CallArg::Out { ty: None, name: input::word(x, i + 1), name_span: input::span_of(x, i + 1, i + 2) }, i + 2))
                } else {
                    Err(i + 1)
                }
            },
        }
    } else if input::tk(x, i) == Token::Ref {
        match (nest.expr)(x, i + 1) {
            Ok((e, j)) if i + 1 < j <= x.len() => Ok((tree::CallArg::Ref(e), j)),
            other => Err(input::stop_of(other, i + 1)),
        }
    } else if input::named(x, i) && input::tk(x, i + 1) == Token::Colon {
        match (nest.expr)(x, i + 2) {
            Ok((e, j)) if i + 2 < j <= x.len() => Ok((tree::CallArg::Named { name: input::word(x, i), value: e }, j)),
            other => Err(input::stop_of(other, i + 2)),
        }
    } else {
        match (nest.expr)(x, i) {
            Ok((e, j)) if i < j <= x.len() => Ok((tree::CallArg::Value(e), j)),
            other => Err(input::stop_of(other, i)),
        }
    }
}

/// Arguments up to the closing parenthesis.
#[verifier::opaque]
pub open spec fn args(nest: Rules, x: Input, acc: Seq<tree::CallArg>, i: int) -> Parsed<Seq<tree::CallArg>>
    decreases x.len() - i,
{
    let k = input::skip_newlines(x, i);
    if input::tk(x, k) == Token::RParen {
        Ok((acc, k + 1))
    } else {
        match arg(nest, x, k) {
            Ok((a, j)) if k < j <= x.len() => {
                let p = input::skip_newlines(x, j);
                if input::tk(x, p) == Token::Comma {
                    args(nest, x, acc.push(a), p + 1)
                } else if input::tk(x, p) == Token::RParen {
                    Ok((acc.push(a), p + 1))
                } else {
                    Err(p)
                }
            },
            other => Err(input::stop_of(other, k)),
        }
    }
}

/// The `has .. end` of a literal of type `t` that starts at `s`.
#[verifier::opaque]
pub open spec fn literal(nest: Rules, x: Input, s: int, t: tree::Type, i: int) -> Parsed<tree::Expr>
{
    if input::tk(x, i) != Token::Has {
        Err(i)
    } else if t is Mapping {
        match entries(nest, x, seq![], i + 1) {
            Ok((es, k)) if i + 1 <= k <= x.len() => Ok((tree::Expr { kind: tree::ExprKind::MapLit { ty: t, entries: es }, span: input::span_of(x, s, k) }, k)),
            other => Err(input::stop_of(other, i + 1)),
        }
    } else {
        match inits(nest, x, seq![], i + 1) {
            Ok((fs, k)) if i + 1 <= k <= x.len() => Ok((tree::Expr { kind: tree::ExprKind::StructLit { ty: t, fields: fs }, span: input::span_of(x, s, k) }, k)),
            other => Err(input::stop_of(other, i + 1)),
        }
    }
}

/// An entry of a map literal.
#[verifier::opaque]
pub open spec fn entry(nest: Rules, x: Input, i: int) -> Parsed<tree::MapEntry>
{
    match (nest.conditional)(x, i) {
        Ok((a, j)) if i < j <= x.len() => {
            if input::tk(x, j) != Token::Colon {
                Err(j)
            } else {
                match (nest.expr)(x, j + 1) {
                    Ok((b, k)) if j + 1 < k <= x.len() => Ok((tree::MapEntry { key: a, value: b }, k)),
                    other => Err(input::stop_of(other, j + 1)),
                }
            }
        },
        other => Err(input::stop_of(other, i)),
    }
}

/// The entries of a map literal.
#[verifier::opaque]
pub open spec fn entries(nest: Rules, x: Input, acc: Seq<tree::MapEntry>, i: int) -> Parsed<Seq<tree::MapEntry>>
    decreases x.len() - i,
{
    let k = input::skip_seps(x, i);
    if input::tk(x, k) == Token::End {
        Ok((acc, k + 1))
    } else {
        match entry(nest, x, k) {
            Ok((a, j)) if k < j <= x.len() => {
                if input::sep(x, j) || input::tk(x, j) == Token::End {
                    entries(nest, x, acc.push(a), j)
                } else {
                    Err(j)
                }
            },
            other => Err(input::stop_of(other, k)),
        }
    }
}

/// A field of a struct literal.
#[verifier::opaque]
pub open spec fn init(nest: Rules, x: Input, i: int) -> Parsed<tree::FieldInit>
{
    if !input::named(x, i) {
        Err(i)
    } else if input::tk(x, i + 1) != Token::Eq {
        Err(i + 1)
    } else {
        let p = input::skip_newlines(x, i + 2);
        match (nest.expr)(x, p) {
            Ok((e, j)) if p < j <= x.len() => Ok((tree::FieldInit { name: input::word(x, i), span: input::span_of(x, i, i + 1), value: e }, j)),
            other => Err(input::stop_of(other, p)),
        }
    }
}

/// The fields of a struct literal.
#[verifier::opaque]
pub open spec fn inits(nest: Rules, x: Input, acc: Seq<tree::FieldInit>, i: int) -> Parsed<Seq<tree::FieldInit>>
    decreases x.len() - i,
{
    let k = input::skip_seps(x, i);
    if input::tk(x, k) == Token::End {
        Ok((acc, k + 1))
    } else {
        match init(nest, x, k) {
            Ok((a, j)) if k < j <= x.len() => {
                if input::sep(x, j) || input::tk(x, j) == Token::End {
                    inits(nest, x, acc.push(a), j)
                } else {
                    Err(j)
                }
            },
            other => Err(input::stop_of(other, k)),
        }
    }
}

/// A `match`.
#[verifier::opaque]
pub open spec fn match_expr(nest: Rules, x: Input, i: int) -> Parsed<tree::Expr>
{
    if input::tk(x, i) != Token::Match {
        Err(i)
    } else {
        match (nest.expr)(x, i + 1) {
            Ok((e, j)) if i + 1 < j <= x.len() => {
                if input::tk(x, j) != Token::Do {
                    Err(j)
                } else {
                    match arms(nest, x, seq![], j + 1) {
                        Ok((xs, k)) if j + 1 <= k <= x.len() => {
                            let m = tree::MatchExpr { scrutinee: e, arms: xs, span: input::span_of(x, i, k) };
                            Ok((tree::Expr { kind: tree::ExprKind::Match(Box::new(m)), span: input::span_of(x, i, k) }, k))
                        },
                        other => Err(input::stop_of(other, j + 1)),
                    }
                }
            },
            other => Err(input::stop_of(other, i + 1)),
        }
    }
}

/// An arm of a `match`.
#[verifier::opaque]
pub open spec fn arm(nest: Rules, x: Input, i: int) -> Parsed<tree::MatchArm>
{
    match grammar_types::pattern(nest, x, i) {
        Ok((p, j)) if i < j <= x.len() => {
            if input::tk(x, j) == Token::If {
                match (nest.expr)(x, j + 1) {
                    Ok((g, k)) if j + 1 < k <= x.len() => {
                        if input::tk(x, k) != Token::Arrow {
                            Err(k)
                        } else {
                            match arm_body(nest, x, k + 1) {
                                Ok((b, e)) if k + 1 < e <= x.len() => Ok((tree::MatchArm { pattern: p, guard: Some(g), body: b, span: input::span_of(x, i, e) }, e)),
                                other => Err(input::stop_of(other, k + 1)),
                            }
                        }
                    },
                    other => Err(input::stop_of(other, j + 1)),
                }
            } else if input::tk(x, j) != Token::Arrow {
                Err(j)
            } else {
                match arm_body(nest, x, j + 1) {
                    Ok((b, e)) if j + 1 < e <= x.len() => Ok((tree::MatchArm { pattern: p, guard: None, body: b, span: input::span_of(x, i, e) }, e)),
                    other => Err(input::stop_of(other, j + 1)),
                }
            }
        },
        other => Err(input::stop_of(other, i)),
    }
}

/// What an arm does.
#[verifier::opaque]
pub open spec fn arm_body(nest: Rules, x: Input, i: int) -> Parsed<tree::ArmBody>
{
    if input::tk(x, i) == Token::Do {
        match (nest.block)(x, i, i + 1) {
            Ok((b, j)) if i + 1 <= j <= x.len() => Ok((tree::ArmBody::Block(b), j)),
            other => Err(input::stop_of(other, i + 1)),
        }
    } else {
        match (nest.expr)(x, i) {
            Ok((e, j)) if i < j <= x.len() => Ok((tree::ArmBody::Value(e), j)),
            other => Err(input::stop_of(other, i)),
        }
    }
}

/// The arms of a `match`.
#[verifier::opaque]
pub open spec fn arms(nest: Rules, x: Input, acc: Seq<tree::MatchArm>, i: int) -> Parsed<Seq<tree::MatchArm>>
    decreases x.len() - i,
{
    let k = input::skip_seps(x, i);
    if input::tk(x, k) == Token::End {
        Ok((acc, k + 1))
    } else {
        match arm(nest, x, k) {
            Ok((a, j)) if k < j <= x.len() => {
                if input::sep(x, j) || input::tk(x, j) == Token::End {
                    arms(nest, x, acc.push(a), j)
                } else {
                    Err(j)
                }
            },
            other => Err(input::stop_of(other, k)),
        }
    }
}

/// A closure.
#[verifier::opaque]
pub open spec fn closure(nest: Rules, x: Input, i: int) -> Parsed<tree::Expr>
{
    if input::tk(x, i) != Token::Pipe {
        Err(i)
    } else {
        match grammar_types::params(nest, x, Token::Pipe, seq![], i + 1) {
            Ok((ps, j)) if i + 1 <= j <= x.len() => {
                if input::tk(x, j) == Token::FatArrow {
                    match (nest.expr)(x, j + 1) {
                        Ok((e, k)) if j + 1 < k <= x.len() => {
                            let b = tree::ClosureBody::Value(e);
                            Ok((tree::Expr { kind: tree::ExprKind::Closure { params: ps, body: Box::new(b) }, span: input::span_of(x, i, k) }, k))
                        },
                        other => Err(input::stop_of(other, j + 1)),
                    }
                } else if input::tk(x, j) != Token::Do {
                    Err(j)
                } else {
                    match (nest.block)(x, j, j + 1) {
                        Ok((b, k)) if j + 1 <= k <= x.len() => {
                            let c = tree::ClosureBody::Block(b);
                            Ok((tree::Expr { kind: tree::ExprKind::Closure { params: ps, body: Box::new(c) }, span: input::span_of(x, i, k) }, k))
                        },
                        other => Err(input::stop_of(other, j + 1)),
                    }
                }
            },
            other => Err(input::stop_of(other, i + 1)),
        }
    }
}

} // verus!
