//! The grammar of statements.
use vstd::prelude::*;
use crate::ast::Visibility;
use crate::parse::grammar_types;
use crate::parse::grammar_exprs;
use crate::parse::input;
use crate::parse::input::{Input, Parsed};
use crate::parse::rules::Rules;
use crate::token::Token;
use crate::tree;

verus! {

broadcast use input::group_forward;

/// The statements of a block up to its `end`; the block starts at `s`.
#[verifier::opaque]
pub open spec fn block(nest: Rules, x: Input, s: int, i: int) -> Parsed<tree::Block>
{
    match stmts(nest, x, seq![], i) {
        Ok((xs, k)) if i <= k <= x.len() => Ok((tree::Block { stmts: xs, span: input::span_of(x, s, k) }, k)),
        other => Err(input::stop_of(other, i)),
    }
}

/// The statements of a block.
#[verifier::opaque]
pub open spec fn stmts(nest: Rules, x: Input, acc: Seq<tree::Stmt>, i: int) -> Parsed<Seq<tree::Stmt>>
    decreases x.len() - i,
{
    let k = input::skip_terms(x, i);
    if input::tk(x, k) == Token::End {
        Ok((acc, k + 1))
    } else {
        match stmt(nest, x, k) {
            Ok((a, j)) if k < j <= x.len() => {
                if input::term(x, j) || input::tk(x, j) == Token::End {
                    stmts(nest, x, acc.push(a), j)
                } else {
                    Err(j)
                }
            },
            other => Err(input::stop_of(other, k)),
        }
    }
}

/// A statement.
#[verifier::opaque]
pub open spec fn stmt(nest: Rules, x: Input, i: int) -> Parsed<tree::Stmt>
{
    if input::tk(x, i) == Token::Const {
        match const_decl(nest, x, Visibility::Default, i, i) {
            Ok((d, j)) if i < j <= x.len() => Ok((tree::Stmt::Const(d), j)),
            other => Err(input::stop_of(other, i)),
        }
    } else if input::tk(x, i) == Token::Assert || input::tk(x, i) == Token::DebugAssert {
        match grammar_exprs::expr(nest, x, i + 1) {
            Ok((c, j)) if i + 1 < j <= x.len() => {
                if input::tk(x, j) == Token::Comma {
                    match grammar_exprs::expr(nest, x, j + 1) {
                        Ok((m, k)) if j + 1 < k <= x.len() => Ok((tree::Stmt::Assert { is_debug: input::tk(x, i) == Token::DebugAssert, cond: c, message: Some(m), span: input::span_of(x, i, k) }, k)),
                        other => Err(input::stop_of(other, j + 1)),
                    }
                } else {
                    Ok((tree::Stmt::Assert { is_debug: input::tk(x, i) == Token::DebugAssert, cond: c, message: None, span: input::span_of(x, i, j) }, j))
                }
            },
            other => Err(input::stop_of(other, i + 1)),
        }
    } else if input::tk(x, i) == Token::If {
        match if_stmt(nest, x, i) {
            Ok((s, j)) if i < j <= x.len() => Ok((s, j)),
            other => Err(input::stop_of(other, i)),
        }
    } else if input::tk(x, i) == Token::While {
        match grammar_exprs::expr(nest, x, i + 1) {
            Ok((c, j)) if i + 1 < j <= x.len() => {
                if input::tk(x, j) != Token::Do {
                    Err(j)
                } else {
                    match (nest.block)(x, j, j + 1) {
                        Ok((b, k)) if j + 1 <= k <= x.len() => Ok((tree::Stmt::While { cond: c, body: b, span: input::span_of(x, i, k) }, k)),
                        other => Err(input::stop_of(other, j + 1)),
                    }
                }
            },
            other => Err(input::stop_of(other, i + 1)),
        }
    } else if input::tk(x, i) == Token::Loop || input::tk(x, i) == Token::For {
        match loop_stmt(nest, x, i, None, i) {
            Ok((s, j)) if i < j <= x.len() => Ok((s, j)),
            other => Err(input::stop_of(other, i)),
        }
    } else if input::named(x, i) && input::tk(x, i + 1) == Token::Colon && (input::tk(x, i + 2) == Token::Loop || input::tk(x, i + 2) == Token::For) {
        match loop_stmt(nest, x, i, Some(input::word(x, i)), i + 2) {
            Ok((s, j)) if i + 2 < j <= x.len() => Ok((s, j)),
            other => Err(input::stop_of(other, i + 2)),
        }
    } else if input::tk(x, i) == Token::Return {
        if input::ends_stmt(x, i + 1) {
            Ok((tree::Stmt::Return { value: None, span: input::span_of(x, i, i + 1) }, i + 1))
        } else {
            match grammar_exprs::expr(nest, x, i + 1) {
                Ok((e, j)) if i + 1 < j <= x.len() => Ok((tree::Stmt::Return { value: Some(e), span: input::span_of(x, i, j) }, j)),
                other => Err(input::stop_of(other, i + 1)),
            }
        }
    } else if input::tk(x, i) == Token::Break {
        if input::named(x, i + 1) {
            Ok((tree::Stmt::Break { label: Some(input::word(x, i + 1)), span: input::span_of(x, i, i + 2) }, i + 2))
        } else {
            Ok((tree::Stmt::Break { label: None, span: input::span_of(x, i, i + 1) }, i + 1))
        }
    } else if input::tk(x, i) == Token::Continue {
        if input::named(x, i + 1) {
            Ok((tree::Stmt::Continue { label: Some(input::word(x, i + 1)), span: input::span_of(x, i, i + 2) }, i + 2))
        } else {
            Ok((tree::Stmt::Continue { label: None, span: input::span_of(x, i, i + 1) }, i + 1))
        }
    } else if input::tk(x, i) == Token::Defer {
        if input::tk(x, i + 1) == Token::Do {
            match (nest.block)(x, i + 1, i + 2) {
                Ok((b, k)) if i + 2 <= k <= x.len() => Ok((tree::Stmt::Defer { inner: tree::DeferInner::Block(b), span: input::span_of(x, i, k) }, k)),
                other => Err(input::stop_of(other, i + 2)),
            }
        } else {
            match grammar_exprs::expr(nest, x, i + 1) {
                Ok((e, j)) if i + 1 < j <= x.len() => Ok((tree::Stmt::Defer { inner: tree::DeferInner::Value(e), span: input::span_of(x, i, j) }, j)),
                other => Err(input::stop_of(other, i + 1)),
            }
        }
    } else if input::tk(x, i) == Token::Do {
        match (nest.block)(x, i, i + 1) {
            Ok((b, k)) if i + 1 <= k <= x.len() => Ok((tree::Stmt::Block(b), k)),
            other => Err(input::stop_of(other, i + 1)),
        }
    } else {
        match simple_stmt(nest, x, i) {
            Ok((s, j)) if i < j <= x.len() => Ok((s, j)),
            other => Err(input::stop_of(other, i)),
        }
    }
}

/// A declaration, an assignment to several targets, or an expression.
#[verifier::opaque]
pub open spec fn simple_stmt(nest: Rules, x: Input, i: int) -> Parsed<tree::Stmt>
{
    match grammar_types::ty(nest, x, true, i) {
        Ok((t, j)) if i < j <= x.len() && (input::named(x, j) && (input::tk(x, j + 1) == Token::Eq || input::ends_stmt(x, j + 1))) => {
            match var_rest(nest, x, i, Visibility::Default, t, j) {
                Ok((d, k)) if j < k <= x.len() => Ok((tree::Stmt::VarDecl(d), k)),
                other => Err(input::stop_of(other, j)),
            }
        },
        _ => {
            if input::named(x, i) && input::tk(x, i + 1) == Token::Comma {
                match targets(x, seq![], i) {
                    Ok((ts, j)) if i <= j <= x.len() => {
                        if input::tk(x, j) != Token::Eq {
                            Err(j)
                        } else {
                            match grammar_exprs::expr(nest, x, j + 1) {
                                Ok((e, k)) if j + 1 < k <= x.len() => Ok((tree::Stmt::Destructure { targets: ts, expr: e, span: input::span_of(x, i, k) }, k)),
                                other => Err(input::stop_of(other, j + 1)),
                            }
                        }
                    },
                    other => Err(input::stop_of(other, i)),
                }
            } else {
                match grammar_exprs::expr(nest, x, i) {
                    Ok((e, j)) if i < j <= x.len() => Ok((tree::Stmt::Expr { expr: e, span: input::span_of(x, i, j) }, j)),
                    other => Err(input::stop_of(other, i)),
                }
            }
        },
    }
}

/// Targets separated by commas.
#[verifier::opaque]
pub open spec fn targets(x: Input, acc: Seq<tree::Target>, i: int) -> Parsed<Seq<tree::Target>>
    decreases x.len() - i,
{
    if !input::named(x, i) {
        Err(i)
    } else if input::tk(x, i + 1) == Token::Comma {
        targets(x, acc.push(input::target(x, i)), i + 2)
    } else {
        Ok((acc.push(input::target(x, i)), i + 1))
    }
}

/// A variable of type `t` from its name on; the declaration starts at `s`.
#[verifier::opaque]
pub open spec fn var_rest(nest: Rules, x: Input, s: int, v: Visibility, t: tree::Type, i: int) -> Parsed<tree::VarDecl>
{
    if !input::named(x, i) {
        Err(i)
    } else if input::tk(x, i + 1) == Token::Eq {
        let p = input::skip_newlines(x, i + 2);
        if input::tk(x, p) == Token::Has {
            match grammar_exprs::literal(nest, x, p, t, p) {
                Ok((e, k)) if p < k <= x.len() => Ok((tree::VarDecl { visibility: v, ty: t, name: input::word(x, i), name_span: input::span_of(x, i, i + 1), init: Some(e), span: input::span_of(x, s, k) }, k)),
                other => Err(input::stop_of(other, p)),
            }
        } else {
            match grammar_exprs::expr(nest, x, p) {
                Ok((e, k)) if p < k <= x.len() => Ok((tree::VarDecl { visibility: v, ty: t, name: input::word(x, i), name_span: input::span_of(x, i, i + 1), init: Some(e), span: input::span_of(x, s, k) }, k)),
                other => Err(input::stop_of(other, p)),
            }
        }
    } else {
        Ok((tree::VarDecl { visibility: v, ty: t, name: input::word(x, i), name_span: input::span_of(x, i, i + 1), init: None, span: input::span_of(x, s, i + 1) }, i + 1))
    }
}

/// A constant; the declaration starts at `s`.
#[verifier::opaque]
pub open spec fn const_decl(nest: Rules, x: Input, v: Visibility, s: int, i: int) -> Parsed<tree::ConstDecl>
{
    if input::tk(x, i) != Token::Const {
        Err(i)
    } else if input::named(x, i + 1) && input::tk(x, i + 2) == Token::Eq {
        match grammar_exprs::expr(nest, x, i + 3) {
            Ok((e, k)) if i + 3 < k <= x.len() => Ok((tree::ConstDecl { visibility: v, ty: None, name: input::word(x, i + 1), name_span: input::span_of(x, i + 1, i + 2), init: e, span: input::span_of(x, s, k) }, k)),
            other => Err(input::stop_of(other, i + 3)),
        }
    } else {
        match grammar_types::ty(nest, x, true, i + 1) {
            Ok((t, j)) if i + 1 < j <= x.len() => {
                if !input::named(x, j) {
                    Err(j)
                } else if input::tk(x, j + 1) != Token::Eq {
                    Err(j + 1)
                } else {
                    match grammar_exprs::expr(nest, x, j + 2) {
                        Ok((e, k)) if j + 2 < k <= x.len() => Ok((tree::ConstDecl { visibility: v, ty: Some(t), name: input::word(x, j), name_span: input::span_of(x, j, j + 1), init: e, span: input::span_of(x, s, k) }, k)),
                        other => Err(input::stop_of(other, j + 2)),
                    }
                }
            },
            other => Err(input::stop_of(other, i + 1)),
        }
    }
}

/// An `if`.
#[verifier::opaque]
pub open spec fn if_stmt(nest: Rules, x: Input, i: int) -> Parsed<tree::Stmt>
    decreases x.len() - i,
{
    if input::tk(x, i) != Token::If {
        Err(i)
    } else {
        match grammar_exprs::expr(nest, x, i + 1) {
            Ok((c, j)) if i + 1 < j <= x.len() => {
                if input::tk(x, j) != Token::Do {
                    Err(j)
                } else {
                    match (nest.block)(x, j, j + 1) {
                        Ok((a, k)) if j + 1 <= k <= x.len() => {
                            let p = input::skip_newlines(x, k);
                            if input::tk(x, p) == Token::Else {
                                if input::tk(x, p + 1) == Token::If {
                                    match if_stmt(nest, x, p + 1) {
                                        Ok((s, e)) if p + 1 < e <= x.len() => {
                                            let b = tree::Block { stmts: seq![s], span: input::span_of(x, p + 1, e) };
                                            Ok((tree::Stmt::If { cond: c, then_block: a, else_block: Some(b), span: input::span_of(x, i, e) }, e))
                                        },
                                        other => Err(input::stop_of(other, p + 1)),
                                    }
                                } else if input::tk(x, p + 1) != Token::Do {
                                    Err(p + 1)
                                } else {
                                    match (nest.block)(x, p + 1, p + 2) {
                                        Ok((b, e)) if p + 2 <= e <= x.len() => Ok((tree::Stmt::If { cond: c, then_block: a, else_block: Some(b), span: input::span_of(x, i, e) }, e)),
                                        other => Err(input::stop_of(other, p + 2)),
                                    }
                                }
                            } else {
                                Ok((tree::Stmt::If { cond: c, then_block: a, else_block: None, span: input::span_of(x, i, k) }, k))
                            }
                        },
                        other => Err(input::stop_of(other, j + 1)),
                    }
                }
            },
            other => Err(input::stop_of(other, i + 1)),
        }
    }
}

/// A `loop` or `for` with its label; the statement starts at `s`.
#[verifier::opaque]
pub open spec fn loop_stmt(nest: Rules, x: Input, s: int, label: Option<Seq<char>>, i: int) -> Parsed<tree::Stmt>
{
    if input::tk(x, i) == Token::Loop {
        if input::tk(x, i + 1) != Token::Do {
            Err(i + 1)
        } else {
            match (nest.block)(x, i + 1, i + 2) {
                Ok((b, k)) if i + 2 <= k <= x.len() => Ok((tree::Stmt::Loop { label, body: b, span: input::span_of(x, s, k) }, k)),
                other => Err(input::stop_of(other, i + 2)),
            }
        }
    } else if input::tk(x, i) != Token::For {
        Err(i)
    } else if !input::named(x, i + 1) {
        Err(i + 1)
    } else if input::tk(x, i + 2) == Token::Comma {
        if !input::named(x, i + 3) {
            Err(i + 3)
        } else if input::tk(x, i + 4) != Token::In {
            Err(i + 4)
        } else {
            match grammar_exprs::expr(nest, x, i + 5) {
                Ok((e, j)) if i + 5 < j <= x.len() => {
                    if input::tk(x, j) != Token::Do {
                        Err(j)
                    } else {
                        match (nest.block)(x, j, j + 1) {
                            Ok((b, k)) if j + 1 <= k <= x.len() => Ok((tree::Stmt::For { label, var: input::word(x, i + 1), var2: Some(input::word(x, i + 3)), iter: e, body: b, span: input::span_of(x, s, k) }, k)),
                            other => Err(input::stop_of(other, j + 1)),
                        }
                    }
                },
                other => Err(input::stop_of(other, i + 5)),
            }
        }
    } else if input::tk(x, i + 2) != Token::In {
        Err(i + 2)
    } else {
        match grammar_exprs::expr(nest, x, i + 3) {
            Ok((e, j)) if i + 3 < j <= x.len() => {
                if input::tk(x, j) != Token::Do {
                    Err(j)
                } else {
                    match (nest.block)(x, j, j + 1) {
                        Ok((b, k)) if j + 1 <= k <= x.len() => Ok((tree::Stmt::For { label, var: input::word(x, i + 1), var2: None, iter: e, body: b, span: input::span_of(x, s, k) }, k)),
                        other => Err(input::stop_of(other, j + 1)),
                    }
                }
            },
            other => Err(input::stop_of(other, i + 3)),
        }
    }
}

} // verus!
