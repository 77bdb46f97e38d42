//! Parsing of expressions.
use vstd::prelude::*;
use crate::ast;
use crate::ast::{
    ArmBody, Block, CallArg, ClosureBody, Expr, ExprKind, FieldInit, MapEntry,
    MatchArm, MatchExpr, Param, Pattern, StringPart, Type, UnaryOp,
};
use crate::parse::grammar_exprs;
use crate::parse::input;
use crate::parse::input::{is_map, make_index, only, Parser};
use crate::parse::results;
use crate::parse::rules;
use crate::token::Token;

verus! {

broadcast use {ast::group_lists, input::group_forward};

impl<'a> Parser<'a> {
    /// An expression.
    pub fn expr(&self, depth: usize, i: usize) -> (r: Result<(Expr, usize), usize>)
        requires
            self.wf(),
            i <= self@.len(),
        ensures
            results::result_expr(r) == grammar_exprs::expr(rules::rules(depth as nat), self@, i as int),
            r is Ok ==> i < r->Ok_0.1 <= self@.len(),
        decreases depth, self@.len() - i, 71int,
    {
        reveal(grammar_exprs::expr);
        let (l, j): (Expr, usize) = match self.conditional(depth, i) {
            Ok(v) => v,
            Err(stop) => {
                return Err(stop);
            },
        };
        if self.tk(j) == Token::Eq {
            let p: usize = self.skip_newlines(j + 1);
            let (v, k): (Expr, usize) = match self.nested_expr(depth, p) {
                Ok(v) => v,
                Err(stop) => {
                    return Err(stop);
                },
            };
            return Ok((Expr { kind: ExprKind::Assign(Box::new(l), Box::new(v)), span: self.span_of(i, k) }, k));
        }
        if self.assigns(j) {
            let p: usize = self.after_assign(j);
            let (v, k): (Expr, usize) = match self.nested_expr(depth, p) {
                Ok(v) => v,
                Err(stop) => {
                    return Err(stop);
                },
            };
            return Ok((Expr { kind: ExprKind::CompoundAssign(self.assign_op(j), Box::new(l), Box::new(v)), span: self.span_of(i, k) }, k));
        }
        Ok((l, j))
    }

    /// As `expr`, one level deeper; nothing fits below the deepest level.
    pub fn nested_expr(&self, depth: usize, i: usize) -> (r: Result<(Expr, usize), usize>)
        requires
            self.wf(),
            i <= self@.len(),
        ensures
            results::result_expr(r) == (rules::rules(depth as nat).expr)(self@, i as int),
            r is Ok ==> i < r->Ok_0.1 <= self@.len(),
        decreases depth, 0int, 0int,
    {
        reveal(rules::rules);
        if depth == 0 {
            Err(i)
        } else {
            self.expr(depth - 1, i)
        }
    }

    /// A conditional expression, or one that binds tighter.
    pub fn conditional(&self, depth: usize, i: usize) -> (r: Result<(Expr, usize), usize>)
        requires
            self.wf(),
            i <= self@.len(),
        ensures
            results::result_expr(r) == grammar_exprs::conditional(rules::rules(depth as nat), self@, i as int),
            r is Ok ==> i < r->Ok_0.1 <= self@.len(),
        decreases depth, self@.len() - i, 66int,
    {
        reveal(grammar_exprs::conditional);
        let (c, j): (Expr, usize) = match self.bin(depth, 0, i) {
            Ok(v) => v,
            Err(stop) => {
                return Err(stop);
            },
        };
        if self.tk(j) == Token::Question {
            let (a, k): (Expr, usize) = match self.nested_conditional(depth, j + 1) {
                Ok(v) => v,
                Err(stop) => {
                    return Err(stop);
                },
            };
            if self.tk(k) != Token::Colon {
                return Err(k);
            }
            let (b, p): (Expr, usize) = match self.nested_conditional(depth, k + 1) {
                Ok(v) => v,
                Err(stop) => {
                    return Err(stop);
                },
            };
            return Ok((Expr { kind: ExprKind::Conditional(Box::new(c), Box::new(a), Box::new(b)), span: self.span_of(i, p) }, p));
        }
        Ok((c, j))
    }

    /// As `conditional`, one level deeper; nothing fits below the deepest level.
    pub fn nested_conditional(&self, depth: usize, i: usize) -> (r: Result<(Expr, usize), usize>)
        requires
            self.wf(),
            i <= self@.len(),
        ensures
            results::result_expr(r) == (rules::rules(depth as nat).conditional)(self@, i as int),
            r is Ok ==> i < r->Ok_0.1 <= self@.len(),
        decreases depth, 0int, 0int,
    {
        reveal(rules::rules);
        if depth == 0 {
            Err(i)
        } else {
            self.conditional(depth - 1, i)
        }
    }

    /// A chain of operators of level `l`, or an expression that binds tighter.
    pub fn bin(&self, depth: usize, l: u8, i: usize) -> (r: Result<(Expr, usize), usize>)
        requires
            self.wf(),
            i <= self@.len(),
        ensures
            results::result_expr(r) == grammar_exprs::bin(rules::rules(depth as nat), self@, l as int, i as int),
            r is Ok ==> i < r->Ok_0.1 <= self@.len(),
        decreases depth, self@.len() - i, if l < 12 { 61 - 2 * l } else { 37 },
    {
        reveal(grammar_exprs::bin);
        if l >= 12 {
            let (e, j): (Expr, usize) = match self.unary(depth, i) {
                Ok(v) => v,
                Err(stop) => {
                    return Err(stop);
                },
            };
            return Ok((e, j));
        }
        if l == 5 && (self.tk(i) == Token::DotDot || self.tk(i) == Token::DotDotEq) {
            let (e, j): (Expr, usize) = match self.range_start(depth, i) {
                Ok(v) => v,
                Err(stop) => {
                    return Err(stop);
                },
            };
            return Ok((e, j));
        }
        let (a, j): (Expr, usize) = match self.bin(depth, l + 1, i) {
            Ok(v) => v,
            Err(stop) => {
                return Err(stop);
            },
        };
        if l == 5 {
            let (e, k): (Expr, usize) = match self.range_rest(depth, i, a, j) {
                Ok(v) => v,
                Err(stop) => {
                    return Err(stop);
                },
            };
            return Ok((e, k));
        }
        let (e, k): (Expr, usize) = match self.bin_rest(depth, i, l, a, j) {
            Ok(v) => v,
            Err(stop) => {
                return Err(stop);
            },
        };
        Ok((e, k))
    }

    /// As `bin`, one level deeper; nothing fits below the deepest level.
    pub fn nested_bin(&self, depth: usize, l: u8, i: usize) -> (r: Result<(Expr, usize), usize>)
        requires
            self.wf(),
            i <= self@.len(),
        ensures
            results::result_expr(r) == (rules::rules(depth as nat).bin)(self@, l as int, i as int),
            r is Ok ==> i < r->Ok_0.1 <= self@.len(),
        decreases depth, 0int, 0int,
    {
        reveal(rules::rules);
        if depth == 0 {
            Err(i)
        } else {
            self.bin(depth - 1, l, i)
        }
    }

    /// The operators of level `l` that follow `acc`, which starts at `s`.
    pub fn bin_rest(&self, depth: usize, s: usize, l: u8, first: Expr, from: usize) -> (r: Result<(Expr, usize), usize>)
        requires
            self.wf(),
            from <= self@.len(),
            s < from,
            l < 12,
        ensures
            results::result_expr(r) == grammar_exprs::bin_rest(rules::rules(depth as nat), self@, s as int, l as int, first.tree(), from as int),
            r is Ok ==> from <= r->Ok_0.1 <= self@.len(),
        decreases depth, self@.len() - from, 1int,
    {
        let ghost x = self@;
        let ghost whole = grammar_exprs::bin_rest(rules::rules(depth as nat), x, s as int, l as int, first.tree(), from as int);
        let mut acc = first;
        let mut i: usize = from;
        loop
            invariant
                self.wf(),
                x == self@,
                from <= i <= x.len(),
                s < from,
                l < 12,
                whole == grammar_exprs::bin_rest(rules::rules(depth as nat), x, s as int, l as int, first.tree(), from as int),
                grammar_exprs::bin_rest(rules::rules(depth as nat), x, s as int, l as int, acc.tree(), i as int) == whole,
            decreases x.len() - i,
        {
            reveal(grammar_exprs::bin_rest);
            if self.binds(l, i) {
                let p: usize = self.after_op(i);
                let (b, k): (Expr, usize) = match self.nested_bin(depth, l + 1, p) {
                    Ok(v) => v,
                    Err(stop) => {
                        return Err(stop);
                    },
                };
                acc = Expr { kind: ExprKind::Binary(self.op_at(i), Box::new(acc), Box::new(b)), span: self.span_of(s, k) };
                i = k;
                continue;
            }
            return Ok((acc, i));
        }
    }

    /// A range without a start.
    pub fn range_start(&self, depth: usize, i: usize) -> (r: Result<(Expr, usize), usize>)
        requires
            self.wf(),
            i <= self@.len(),
        ensures
            results::result_expr(r) == grammar_exprs::range_start(rules::rules(depth as nat), self@, i as int),
            r is Ok ==> i < r->Ok_0.1 <= self@.len(),
        decreases depth, self@.len() - i, 2int,
    {
        reveal(grammar_exprs::range_start);
        if self.tk(i) != Token::DotDot && self.tk(i) != Token::DotDotEq {
            return Err(i);
        }
        if self.starts_expr(i + 1) {
            let (b, k): (Expr, usize) = match self.nested_bin(depth, 6, i + 1) {
                Ok(v) => v,
                Err(stop) => {
                    return Err(stop);
                },
            };
            return Ok((Expr { kind: ExprKind::Range(None, Some(Box::new(b)), self.tk(i) == Token::DotDotEq), span: self.span_of(i, k) }, k));
        }
        Ok((Expr { kind: ExprKind::Range(None, None, self.tk(i) == Token::DotDotEq), span: self.span_of(i, i + 1) }, i + 1))
    }

    /// The rest of a range that starts with `a`, or `a` itself.
    pub fn range_rest(&self, depth: usize, s: usize, a: Expr, i: usize) -> (r: Result<(Expr, usize), usize>)
        requires
            self.wf(),
            i <= self@.len(),
            s <= i,
        ensures
            results::result_expr(r) == grammar_exprs::range_rest(rules::rules(depth as nat), self@, s as int, a.tree(), i as int),
            r is Ok ==> i <= r->Ok_0.1 <= self@.len(),
        decreases depth, self@.len() - i, 2int,
    {
        reveal(grammar_exprs::range_rest);
        if self.tk(i) == Token::DotDot || self.tk(i) == Token::DotDotEq {
            if self.starts_expr(i + 1) {
                let (b, k): (Expr, usize) = match self.nested_bin(depth, 6, i + 1) {
                    Ok(v) => v,
                    Err(stop) => {
                        return Err(stop);
                    },
                };
                return Ok((Expr { kind: ExprKind::Range(Some(Box::new(a)), Some(Box::new(b)), self.tk(i) == Token::DotDotEq), span: self.span_of(s, k) }, k));
            }
            return Ok((Expr { kind: ExprKind::Range(Some(Box::new(a)), None, self.tk(i) == Token::DotDotEq), span: self.span_of(s, i + 1) }, i + 1));
        }
        Ok((a, i))
    }

    /// Prefix operators and what they apply to.
    pub fn unary(&self, depth: usize, i: usize) -> (r: Result<(Expr, usize), usize>)
        requires
            self.wf(),
            i <= self@.len(),
        ensures
            results::result_expr(r) == grammar_exprs::unary(rules::rules(depth as nat), self@, i as int),
            r is Ok ==> i < r->Ok_0.1 <= self@.len(),
        decreases depth, self@.len() - i, 31int,
    {
        reveal(grammar_exprs::unary);
        if self.is_prefix(i) {
            let (e, j): (Expr, usize) = match self.unary(depth, i + 1) {
                Ok(v) => v,
                Err(stop) => {
                    return Err(stop);
                },
            };
            return Ok((Expr { kind: ExprKind::Unary(self.prefix_op(i), Box::new(e)), span: self.span_of(i, j) }, j));
        }
        let (e, j): (Expr, usize) = match self.primary(depth, i) {
            Ok(v) => v,
            Err(stop) => {
                return Err(stop);
            },
        };
        let (r, k): (Expr, usize) = match self.postfix(depth, i, e, j) {
            Ok(v) => v,
            Err(stop) => {
                return Err(stop);
            },
        };
        Ok((r, k))
    }

    /// Member accesses, calls, indices and postfix operators that follow `acc`.
    pub fn postfix(&self, depth: usize, s: usize, first: Expr, from: usize) -> (r: Result<(Expr, usize), usize>)
        requires
            self.wf(),
            from <= self@.len(),
            s < from,
        ensures
            results::result_expr(r) == grammar_exprs::postfix(rules::rules(depth as nat), self@, s as int, first.tree(), from as int),
            r is Ok ==> from <= r->Ok_0.1 <= self@.len(),
        decreases depth, self@.len() - from, 1int,
    {
        let ghost x = self@;
        let ghost whole = grammar_exprs::postfix(rules::rules(depth as nat), x, s as int, first.tree(), from as int);
        let mut acc = first;
        let mut i: usize = from;
        loop
            invariant
                self.wf(),
                x == self@,
                from <= i <= x.len(),
                s < from,
                whole == grammar_exprs::postfix(rules::rules(depth as nat), x, s as int, first.tree(), from as int),
                grammar_exprs::postfix(rules::rules(depth as nat), x, s as int, acc.tree(), i as int) == whole,
            decreases x.len() - i,
        {
            reveal(grammar_exprs::postfix);
            if self.tk(i) == Token::Dot && self.worded(i + 1) {
                if self.tk_after(i, 2) == Token::LParen {
                    let (xs, k): (Vec<CallArg>, usize) = match self.args(depth, Vec::new(), i + 3) {
                        Ok(v) => v,
                        Err(stop) => {
                            return Err(stop);
                        },
                    };
                    acc = Expr { kind: ExprKind::MethodCall { object: Box::new(acc), method: self.word(i + 1), args: xs }, span: self.span_of(s, k) };
                    i = k;
                    continue;
                }
                acc = Expr { kind: ExprKind::Member(Box::new(acc), self.word(i + 1)), span: self.span_of(s, i + 2) };
                i = i + 2;
                continue;
            }
            if self.tk(i) == Token::NullDot && self.worded(i + 1) {
                acc = Expr { kind: ExprKind::NullableMember(Box::new(acc), self.word(i + 1)), span: self.span_of(s, i + 2) };
                i = i + 2;
                continue;
            }
            if self.tk(i) == Token::LBracket {
                let (index, j): (Expr, usize) = match self.nested_expr(depth, i + 1) {
                    Ok(v) => v,
                    Err(stop) => {
                        return Err(stop);
                    },
                };
                if self.tk(j) != Token::RBracket {
                    return Err(j);
                }
                acc = Expr { kind: make_index(acc, index), span: self.span_of(s, j + 1) };
                i = j + 1;
                continue;
            }
            if self.tk(i) == Token::PlusPlus {
                acc = Expr { kind: ExprKind::Postfix(UnaryOp::Inc, Box::new(acc)), span: self.span_of(s, i + 1) };
                i = i + 1;
                continue;
            }
            if self.tk(i) == Token::MinusMinus {
                acc = Expr { kind: ExprKind::Postfix(UnaryOp::Dec, Box::new(acc)), span: self.span_of(s, i + 1) };
                i = i + 1;
                continue;
            }
            return Ok((acc, i));
        }
    }

    /// A literal, a name, a call, or a bracketed expression.
    pub fn primary(&self, depth: usize, i: usize) -> (r: Result<(Expr, usize), usize>)
        requires
            self.wf(),
            i <= self@.len(),
        ensures
            results::result_expr(r) == grammar_exprs::primary(rules::rules(depth as nat), self@, i as int),
            r is Ok ==> i < r->Ok_0.1 <= self@.len(),
        decreases depth, self@.len() - i, 21int,
    {
        reveal(grammar_exprs::primary);
        if self.tk(i) == Token::IntLit {
            let v: i64 = match self.int_at(i) {
                Some(v) => v,
                None => {
                    return Err(i);
                },
            };
            return Ok((Expr { kind: ExprKind::IntLit(v), span: self.span_of(i, i + 1) }, i + 1));
        }
        if self.is_simple(i) {
            return Ok((Expr { kind: self.simple(i), span: self.span_of(i, i + 1) }, i + 1));
        }
        if self.tk(i) == Token::StringHead {
            let (ps, k): (Vec<StringPart>, usize) = match self.string_parts(depth, Vec::new(), i) {
                Ok(v) => v,
                Err(stop) => {
                    return Err(stop);
                },
            };
            if k == i {
                return Err(i);
            }
            return Ok((Expr { kind: ExprKind::Interpolated(ps), span: self.span_of(i, k) }, k));
        }
        if self.tk(i) == Token::LParen {
            let (e, j): (Expr, usize) = match self.parenthesized(depth, i) {
                Ok(v) => v,
                Err(stop) => {
                    return Err(stop);
                },
            };
            return Ok((e, j));
        }
        if self.tk(i) == Token::LBracket {
            let (es, k): (Vec<Expr>, usize) = match self.exprs(depth, Token::RBracket, Vec::new(), i + 1) {
                Ok(v) => v,
                Err(stop) => {
                    return Err(stop);
                },
            };
            return Ok((Expr { kind: ExprKind::ArrayLit(es), span: self.span_of(i, k) }, k));
        }
        if self.tk(i) == Token::Vector && self.tk_after(i, 1) == Token::LBracket && self.tk_after(i, 2) == Token::RBracket {
            return Ok((Expr { kind: ExprKind::VecEmpty, span: self.span_of(i, i + 3) }, i + 3));
        }
        if self.tk(i) == Token::Dot && self.worded(i + 1) {
            if self.tk_after(i, 2) == Token::LParen {
                let (xs, k): (Vec<CallArg>, usize) = match self.args(depth, Vec::new(), i + 3) {
                    Ok(v) => v,
                    Err(stop) => {
                        return Err(stop);
                    },
                };
                return Ok((Expr { kind: ExprKind::EnumVariant { enum_name: None, variant: self.word(i + 1), args: xs }, span: self.span_of(i, k) }, k));
            }
            assert(ast::args_of(Seq::<CallArg>::empty()) =~= Seq::empty());
            return Ok((Expr { kind: ExprKind::EnumVariant { enum_name: None, variant: self.word(i + 1), args: Vec::new() }, span: self.span_of(i, i + 2) }, i + 2));
        }
        if self.tk(i) == Token::Match {
            let (e, j): (Expr, usize) = match self.match_expr(depth, i) {
                Ok(v) => v,
                Err(stop) => {
                    return Err(stop);
                },
            };
            return Ok((e, j));
        }
        if self.tk(i) == Token::Pipe {
            let (e, j): (Expr, usize) = match self.closure(depth, i) {
                Ok(v) => v,
                Err(stop) => {
                    return Err(stop);
                },
            };
            return Ok((e, j));
        }
        if self.named(i) || self.tk(i) == Token::Super {
            let (e, j): (Expr, usize) = match self.name_expr(depth, i) {
                Ok(v) => v,
                Err(stop) => {
                    return Err(stop);
                },
            };
            return Ok((e, j));
        }
        let (t, j): (Type, usize) = match self.ty(depth, true, i) {
            Ok(v) => v,
            Err(stop) => {
                return Err(stop);
            },
        };
        if self.tk(j) != Token::Has {
            return Err(j);
        }
        let (e, k): (Expr, usize) = match self.literal(depth, i, t, j) {
            Ok(v) => v,
            Err(stop) => {
                return Err(stop);
            },
        };
        Ok((e, k))
    }

    /// A name, a call, or a literal of a named type.
    pub fn name_expr(&self, depth: usize, i: usize) -> (r: Result<(Expr, usize), usize>)
        requires
            self.wf(),
            i <= self@.len(),
        ensures
            results::result_expr(r) == grammar_exprs::name_expr(rules::rules(depth as nat), self@, i as int),
            r is Ok ==> i < r->Ok_0.1 <= self@.len(),
        decreases depth, self@.len() - i, 20int,
    {
        reveal(grammar_exprs::name_expr);
        if self.tk_after(i, 1) == Token::LParen {
            let (xs, k): (Vec<CallArg>, usize) = match self.args(depth, Vec::new(), i + 2) {
                Ok(v) => v,
                Err(stop) => {
                    return Err(stop);
                },
            };
            return Ok((Expr { kind: ExprKind::Call { callee: self.word(i), type_args: Vec::new(), args: xs }, span: self.span_of(i, k) }, k));
        }
        if self.tk(i) == Token::Super {
            return Ok((Expr { kind: ExprKind::Super, span: self.span_of(i, i + 1) }, i + 1));
        }
        if !self.named(i) {
            return Err(i);
        }
        if self.tk_after(i, 1) == Token::Has {
            let (e, k): (Expr, usize) = match self.literal(depth, i, Type::Named(self.word(i)), i + 1) {
                Ok(v) => v,
                Err(stop) => {
                    return Err(stop);
                },
            };
            return Ok((e, k));
        }
        if self.tk_after(i, 1) == Token::Lt {
            if let Ok((ts, j)) = self.types(depth, Token::Gt, Vec::new(), i + 2) {
                if self.tk(j) == Token::LParen {
                    let (xs, k): (Vec<CallArg>, usize) = match self.args(depth, Vec::new(), j + 1) {
                        Ok(v) => v,
                        Err(stop) => {
                            return Err(stop);
                        },
                    };
                    return Ok((Expr { kind: ExprKind::Call { callee: self.word(i), type_args: ts, args: xs }, span: self.span_of(i, k) }, k));
                }
            }
            if let Ok((ts, j)) = self.types(depth, Token::Gt, Vec::new(), i + 2) {
                if self.tk(j) == Token::Has {
                    let (e, k): (Expr, usize) = match self.literal(depth, i, Type::Generic(self.word(i), ts), j) {
                        Ok(v) => v,
                        Err(stop) => {
                            return Err(stop);
                        },
                    };
                    return Ok((e, k));
                }
            }
            return Ok((Expr { kind: ExprKind::Ident(self.word(i)), span: self.span_of(i, i + 1) }, i + 1));
        }
        Ok((Expr { kind: ExprKind::Ident(self.word(i)), span: self.span_of(i, i + 1) }, i + 1))
    }

    /// A parenthesized expression or a tuple.
    pub fn parenthesized(&self, depth: usize, i: usize) -> (r: Result<(Expr, usize), usize>)
        requires
            self.wf(),
            i <= self@.len(),
        ensures
            results::result_expr(r) == grammar_exprs::parenthesized(rules::rules(depth as nat), self@, i as int),
            r is Ok ==> i < r->Ok_0.1 <= self@.len(),
        decreases depth, self@.len() - i, 20int,
    {
        reveal(grammar_exprs::parenthesized);
        if self.tk(i) != Token::LParen {
            return Err(i);
        }
        let (es, k): (Vec<Expr>, usize) = match self.exprs(depth, Token::RParen, Vec::new(), i + 1) {
            Ok(v) => v,
            Err(stop) => {
                return Err(stop);
            },
        };
        if es.len() == 1 {
            return Ok((Expr { kind: ExprKind::Paren(Box::new(only(es))), span: self.span_of(i, k) }, k));
        }
        Ok((Expr { kind: ExprKind::Tuple(es), span: self.span_of(i, k) }, k))
    }

    /// Expressions up to `close`.
    pub fn exprs(&self, depth: usize, close: Token, first: Vec<Expr>, from: usize) -> (r: Result<(Vec<Expr>, usize), usize>)
        requires
            self.wf(),
            from <= self@.len(),
        ensures
            results::result_vec_expr(r) == grammar_exprs::exprs(rules::rules(depth as nat), self@, close, ast::exprs_of(first@), from as int),
            r is Ok ==> from <= r->Ok_0.1 <= self@.len(),
        decreases depth, self@.len() - from, 1int,
    {
        let ghost x = self@;
        let ghost whole = grammar_exprs::exprs(rules::rules(depth as nat), x, close, ast::exprs_of(first@), from as int);
        let mut acc = first;
        let mut i: usize = from;
        loop
            invariant
                self.wf(),
                x == self@,
                from <= i <= x.len(),
                whole == grammar_exprs::exprs(rules::rules(depth as nat), x, close, ast::exprs_of(first@), from as int),
                grammar_exprs::exprs(rules::rules(depth as nat), x, close, ast::exprs_of(acc@), i as int) == whole,
            decreases x.len() - i,
        {
            reveal(grammar_exprs::exprs);
            let k: usize = self.skip_newlines(i);
            if self.tk(k) == close && close != Token::Eof {
                return Ok((acc, k + 1));
            }
            let (a, j): (Expr, usize) = match self.nested_expr(depth, k) {
                Ok(v) => v,
                Err(stop) => {
                    return Err(stop);
                },
            };
            let p: usize = self.skip_newlines(j);
            if self.tk(p) == Token::Comma {
                acc.push(a);
                i = p + 1;
                continue;
            }
            if self.tk(p) == close && close != Token::Eof {
                acc.push(a);
                return Ok((acc, p + 1));
            }
            return Err(p);
        }
    }

    /// The pieces of a string with holes.
    pub fn string_parts(&self, depth: usize, first: Vec<StringPart>, from: usize) -> (r: Result<(Vec<StringPart>, usize), usize>)
        requires
            self.wf(),
            from <= self@.len(),
        ensures
            results::result_vec_stringpart(r) == grammar_exprs::string_parts(rules::rules(depth as nat), self@, ast::parts_of(first@), from as int),
            r is Ok ==> from <= r->Ok_0.1 <= self@.len(),
        decreases depth, self@.len() - from, 6int,
    {
        let ghost x = self@;
        let ghost whole = grammar_exprs::string_parts(rules::rules(depth as nat), x, ast::parts_of(first@), from as int);
        let mut acc = first;
        let mut i: usize = from;
        loop
            invariant
                self.wf(),
                x == self@,
                from <= i <= x.len(),
                whole == grammar_exprs::string_parts(rules::rules(depth as nat), x, ast::parts_of(first@), from as int),
                grammar_exprs::string_parts(rules::rules(depth as nat), x, ast::parts_of(acc@), i as int) == whole,
            decreases x.len() - i,
        {
            reveal(grammar_exprs::string_parts);
            if self.tk(i) == Token::StringHead || self.tk(i) == Token::StringMid {
                let (e, j): (Expr, usize) = match self.nested_expr(depth, i + 1) {
                    Ok(v) => v,
                    Err(stop) => {
                        return Err(stop);
                    },
                };
                acc.push(StringPart::Literal(self.piece(i)));
                acc.push(StringPart::Hole(e));
                i = j;
                continue;
            }
            if self.tk(i) == Token::StringTail {
                acc.push(StringPart::Literal(self.piece(i)));
                return Ok((acc, i + 1));
            }
            return Err(i);
        }
    }

    /// An argument of a call.
    pub fn arg(&self, depth: usize, i: usize) -> (r: Result<(CallArg, usize), usize>)
        requires
            self.wf(),
            i <= self@.len(),
        ensures
            results::result_callarg(r) == grammar_exprs::arg(rules::rules(depth as nat), self@, i as int),
            r is Ok ==> i < r->Ok_0.1 <= self@.len(),
        decreases depth, self@.len() - i, 73int,
    {
        reveal(grammar_exprs::arg);
        if self.tk(i) == Token::Out {
            if let Ok((t, j)) = self.ty(depth, true, i + 1) {
                if self.named(j) {
                    return Ok((CallArg::Out { ty: Some(t), name: self.word(j), name_span: self.span_of(j, j + 1) }, j + 1));
                }
            }
            if self.named(i + 1) {
                return Ok((CallArg::Out { ty: None, name: self.word(i + 1), name_span: self.span_of(i + 1, i + 2) }, i + 2));
            }
            return Err(i + 1);
        }
        if self.tk(i) == Token::Ref {
            let (e, j): (Expr, usize) = match self.nested_expr(depth, i + 1) {
                Ok(v) => v,
                Err(stop) => {
                    return Err(stop);
                },
            };
            return Ok((CallArg::Ref(e), j));
        }
        if self.named(i) && self.tk_after(i, 1) == Token::Colon {
            let (e, j): (Expr, usize) = match self.nested_expr(depth, i + 2) {
                Ok(v) => v,
                Err(stop) => {
                    return Err(stop);
                },
            };
            return Ok((CallArg::Named { name: self.word(i), value: e }, j));
        }
        let (e, j): (Expr, usize) = match self.nested_expr(depth, i) {
            Ok(v) => v,
            Err(stop) => {
                return Err(stop);
            },
        };
        Ok((CallArg::Value(e), j))
    }

    /// Arguments up to the closing parenthesis.
    pub fn args(&self, depth: usize, first: Vec<CallArg>, from: usize) -> (r: Result<(Vec<CallArg>, usize), usize>)
        requires
            self.wf(),
            from <= self@.len(),
        ensures
            results::result_vec_callarg(r) == grammar_exprs::args(rules::rules(depth as nat), self@, ast::args_of(first@), from as int),
            r is Ok ==> from <= r->Ok_0.1 <= self@.len(),
        decreases depth, self@.len() - from, 74int,
    {
        let ghost x = self@;
        let ghost whole = grammar_exprs::args(rules::rules(depth as nat), x, ast::args_of(first@), from as int);
        let mut acc = first;
        let mut i: usize = from;
        loop
            invariant
                self.wf(),
                x == self@,
                from <= i <= x.len(),
                whole == grammar_exprs::args(rules::rules(depth as nat), x, ast::args_of(first@), from as int),
                grammar_exprs::args(rules::rules(depth as nat), x, ast::args_of(acc@), i as int) == whole,
            decreases x.len() - i,
        {
            reveal(grammar_exprs::args);
            let k: usize = self.skip_newlines(i);
            if self.tk(k) == Token::RParen {
                return Ok((acc, k + 1));
            }
            let (a, j): (CallArg, usize) = match self.arg(depth, k) {
                Ok(v) => v,
                Err(stop) => {
                    return Err(stop);
                },
            };
            let p: usize = self.skip_newlines(j);
            if self.tk(p) == Token::Comma {
                acc.push(a);
                i = p + 1;
                continue;
            }
            if self.tk(p) == Token::RParen {
                acc.push(a);
                return Ok((acc, p + 1));
            }
            return Err(p);
        }
    }

    /// The `has .. end` of a literal of type `t` that starts at `s`.
    pub fn literal(&self, depth: usize, s: usize, t: Type, i: usize) -> (r: Result<(Expr, usize), usize>)
        requires
            self.wf(),
            i <= self@.len(),
            s <= i,
        ensures
            results::result_expr(r) == grammar_exprs::literal(rules::rules(depth as nat), self@, s as int, t.tree(), i as int),
            r is Ok ==> i < r->Ok_0.1 <= self@.len(),
        decreases depth, self@.len() - i, 4int,
    {
        reveal(grammar_exprs::literal);
        if self.tk(i) != Token::Has {
            return Err(i);
        }
        if is_map(&t) {
            let (es, k): (Vec<MapEntry>, usize) = match self.entries(depth, Vec::new(), i + 1) {
                Ok(v) => v,
                Err(stop) => {
                    return Err(stop);
                },
            };
            return Ok((Expr { kind: ExprKind::MapLit { ty: t, entries: es }, span: self.span_of(s, k) }, k));
        }
        let (fs, k): (Vec<FieldInit>, usize) = match self.inits(depth, Vec::new(), i + 1) {
            Ok(v) => v,
            Err(stop) => {
                return Err(stop);
            },
        };
        Ok((Expr { kind: ExprKind::StructLit { ty: t, fields: fs }, span: self.span_of(s, k) }, k))
    }

    /// An entry of a map literal.
    pub fn entry(&self, depth: usize, i: usize) -> (r: Result<(MapEntry, usize), usize>)
        requires
            self.wf(),
            i <= self@.len(),
        ensures
            results::result_mapentry(r) == grammar_exprs::entry(rules::rules(depth as nat), self@, i as int),
            r is Ok ==> i < r->Ok_0.1 <= self@.len(),
        decreases depth, self@.len() - i, 67int,
    {
        reveal(grammar_exprs::entry);
        let (a, j): (Expr, usize) = match self.nested_conditional(depth, i) {
            Ok(v) => v,
            Err(stop) => {
                return Err(stop);
            },
        };
        if self.tk(j) != Token::Colon {
            return Err(j);
        }
        let (b, k): (Expr, usize) = match self.nested_expr(depth, j + 1) {
            Ok(v) => v,
            Err(stop) => {
                return Err(stop);
            },
        };
        Ok((MapEntry { key: a, value: b }, k))
    }

    /// The entries of a map literal.
    pub fn entries(&self, depth: usize, first: Vec<MapEntry>, from: usize) -> (r: Result<(Vec<MapEntry>, usize), usize>)
        requires
            self.wf(),
            from <= self@.len(),
        ensures
            results::result_vec_mapentry(r) == grammar_exprs::entries(rules::rules(depth as nat), self@, ast::entries_of(first@), from as int),
            r is Ok ==> from <= r->Ok_0.1 <= self@.len(),
        decreases depth, self@.len() - from, 68int,
    {
        let ghost x = self@;
        let ghost whole = grammar_exprs::entries(rules::rules(depth as nat), x, ast::entries_of(first@), from as int);
        let mut acc = first;
        let mut i: usize = from;
        loop
            invariant
                self.wf(),
                x == self@,
                from <= i <= x.len(),
                whole == grammar_exprs::entries(rules::rules(depth as nat), x, ast::entries_of(first@), from as int),
                grammar_exprs::entries(rules::rules(depth as nat), x, ast::entries_of(acc@), i as int) == whole,
            decreases x.len() - i,
        {
            reveal(grammar_exprs::entries);
            let k: usize = self.skip_seps(i);
            if self.tk(k) == Token::End {
                return Ok((acc, k + 1));
            }
            let (a, j): (MapEntry, usize) = match self.entry(depth, k) {
                Ok(v) => v,
                Err(stop) => {
                    return Err(stop);
                },
            };
            if self.sep(j) || self.tk(j) == Token::End {
                acc.push(a);
                i = j;
                continue;
            }
            return Err(j);
        }
    }

    /// A field of a struct literal.
    pub fn init(&self, depth: usize, i: usize) -> (r: Result<(FieldInit, usize), usize>)
        requires
            self.wf(),
            i <= self@.len(),
        ensures
            results::result_fieldinit(r) == grammar_exprs::init(rules::rules(depth as nat), self@, i as int),
            r is Ok ==> i < r->Ok_0.1 <= self@.len(),
        decreases depth, self@.len() - i, 2int,
    {
        reveal(grammar_exprs::init);
        if !self.named(i) {
            return Err(i);
        }
        if self.tk_after(i, 1) != Token::Eq {
            return Err(i + 1);
        }
        let p: usize = self.skip_newlines(i + 2);
        let (e, j): (Expr, usize) = match self.nested_expr(depth, p) {
            Ok(v) => v,
            Err(stop) => {
                return Err(stop);
            },
        };
        Ok((FieldInit { name: self.word(i), span: self.span_of(i, i + 1), value: e }, j))
    }

    /// The fields of a struct literal.
    pub fn inits(&self, depth: usize, first: Vec<FieldInit>, from: usize) -> (r: Result<(Vec<FieldInit>, usize), usize>)
        requires
            self.wf(),
            from <= self@.len(),
        ensures
            results::result_vec_fieldinit(r) == grammar_exprs::inits(rules::rules(depth as nat), self@, ast::inits_of(first@), from as int),
            r is Ok ==> from <= r->Ok_0.1 <= self@.len(),
        decreases depth, self@.len() - from, 3int,
    {
        let ghost x = self@;
        let ghost whole = grammar_exprs::inits(rules::rules(depth as nat), x, ast::inits_of(first@), from as int);
        let mut acc = first;
        let mut i: usize = from;
        loop
            invariant
                self.wf(),
                x == self@,
                from <= i <= x.len(),
                whole == grammar_exprs::inits(rules::rules(depth as nat), x, ast::inits_of(first@), from as int),
                grammar_exprs::inits(rules::rules(depth as nat), x, ast::inits_of(acc@), i as int) == whole,
            decreases x.len() - i,
        {
            reveal(grammar_exprs::inits);
            let k: usize = self.skip_seps(i);
            if self.tk(k) == Token::End {
                return Ok((acc, k + 1));
            }
            let (a, j): (FieldInit, usize) = match self.init(depth, k) {
                Ok(v) => v,
                Err(stop) => {
                    return Err(stop);
                },
            };
            if self.sep(j) || self.tk(j) == Token::End {
                acc.push(a);
                i = j;
                continue;
            }
            return Err(j);
        }
    }

    /// A `match`.
    pub fn match_expr(&self, depth: usize, i: usize) -> (r: Result<(Expr, usize), usize>)
        requires
            self.wf(),
            i <= self@.len(),
        ensures
            results::result_expr(r) == grammar_exprs::match_expr(rules::rules(depth as nat), self@, i as int),
            r is Ok ==> i < r->Ok_0.1 <= self@.len(),
        decreases depth, self@.len() - i, 20int,
    {
        reveal(grammar_exprs::match_expr);
        if self.tk(i) != Token::Match {
            return Err(i);
        }
        let (e, j): (Expr, usize) = match self.nested_expr(depth, i + 1) {
            Ok(v) => v,
            Err(stop) => {
                return Err(stop);
            },
        };
        if self.tk(j) != Token::Do {
            return Err(j);
        }
        let (xs, k): (Vec<MatchArm>, usize) = match self.arms(depth, Vec::new(), j + 1) {
            Ok(v) => v,
            Err(stop) => {
                return Err(stop);
            },
        };
        let m = MatchExpr { scrutinee: e, arms: xs, span: self.span_of(i, k) };
        assert(m.tree().span == m.span);
        Ok((Expr { kind: ExprKind::Match(Box::new(m)), span: self.span_of(i, k) }, k))
    }

    /// An arm of a `match`.
    pub fn arm(&self, depth: usize, i: usize) -> (r: Result<(MatchArm, usize), usize>)
        requires
            self.wf(),
            i <= self@.len(),
        ensures
            results::result_matcharm(r) == grammar_exprs::arm(rules::rules(depth as nat), self@, i as int),
            r is Ok ==> i < r->Ok_0.1 <= self@.len(),
        decreases depth, self@.len() - i, 2int,
    {
        reveal(grammar_exprs::arm);
        let (p, j): (Pattern, usize) = match self.pattern(depth, i) {
            Ok(v) => v,
            Err(stop) => {
                return Err(stop);
            },
        };
        if self.tk(j) == Token::If {
            let (g, k): (Expr, usize) = match self.nested_expr(depth, j + 1) {
                Ok(v) => v,
                Err(stop) => {
                    return Err(stop);
                },
            };
            if self.tk(k) != Token::Arrow {
                return Err(k);
            }
            let (b, e): (ArmBody, usize) = match self.arm_body(depth, k + 1) {
                Ok(v) => v,
                Err(stop) => {
                    return Err(stop);
                },
            };
            return Ok((MatchArm { pattern: p, guard: Some(g), body: b, span: self.span_of(i, e) }, e));
        }
        if self.tk(j) != Token::Arrow {
            return Err(j);
        }
        let (b, e): (ArmBody, usize) = match self.arm_body(depth, j + 1) {
            Ok(v) => v,
            Err(stop) => {
                return Err(stop);
            },
        };
        Ok((MatchArm { pattern: p, guard: None, body: b, span: self.span_of(i, e) }, e))
    }

    /// What an arm does.
    pub fn arm_body(&self, depth: usize, i: usize) -> (r: Result<(ArmBody, usize), usize>)
        requires
            self.wf(),
            i <= self@.len(),
        ensures
            results::result_armbody(r) == grammar_exprs::arm_body(rules::rules(depth as nat), self@, i as int),
            r is Ok ==> i < r->Ok_0.1 <= self@.len(),
        decreases depth, self@.len() - i, 73int,
    {
        reveal(grammar_exprs::arm_body);
        if self.tk(i) == Token::Do {
            let (b, j): (Block, usize) = match self.nested_block(depth, i, i + 1) {
                Ok(v) => v,
                Err(stop) => {
                    return Err(stop);
                },
            };
            return Ok((ArmBody::Block(b), j));
        }
        let (e, j): (Expr, usize) = match self.nested_expr(depth, i) {
            Ok(v) => v,
            Err(stop) => {
                return Err(stop);
            },
        };
        Ok((ArmBody::Value(e), j))
    }

    /// The arms of a `match`.
    pub fn arms(&self, depth: usize, first: Vec<MatchArm>, from: usize) -> (r: Result<(Vec<MatchArm>, usize), usize>)
        requires
            self.wf(),
            from <= self@.len(),
        ensures
            results::result_vec_matcharm(r) == grammar_exprs::arms(rules::rules(depth as nat), self@, ast::arms_of(first@), from as int),
            r is Ok ==> from <= r->Ok_0.1 <= self@.len(),
        decreases depth, self@.len() - from, 3int,
    {
        let ghost x = self@;
        let ghost whole = grammar_exprs::arms(rules::rules(depth as nat), x, ast::arms_of(first@), from as int);
        let mut acc = first;
        let mut i: usize = from;
        loop
            invariant
                self.wf(),
                x == self@,
                from <= i <= x.len(),
                whole == grammar_exprs::arms(rules::rules(depth as nat), x, ast::arms_of(first@), from as int),
                grammar_exprs::arms(rules::rules(depth as nat), x, ast::arms_of(acc@), i as int) == whole,
            decreases x.len() - i,
        {
            reveal(grammar_exprs::arms);
            let k: usize = self.skip_seps(i);
            if self.tk(k) == Token::End {
                return Ok((acc, k + 1));
            }
            let (a, j): (MatchArm, usize) = match self.arm(depth, k) {
                Ok(v) => v,
                Err(stop) => {
                    return Err(stop);
                },
            };
            if self.sep(j) || self.tk(j) == Token::End {
                acc.push(a);
                i = j;
                continue;
            }
            return Err(j);
        }
    }

    /// A closure.
    pub fn closure(&self, depth: usize, i: usize) -> (r: Result<(Expr, usize), usize>)
        requires
            self.wf(),
            i <= self@.len(),
        ensures
            results::result_expr(r) == grammar_exprs::closure(rules::rules(depth as nat), self@, i as int),
            r is Ok ==> i < r->Ok_0.1 <= self@.len(),
        decreases depth, self@.len() - i, 20int,
    {
        reveal(grammar_exprs::closure);
        if self.tk(i) != Token::Pipe {
            return Err(i);
        }
        let (ps, j): (Vec<Param>, usize) = match self.params(depth, Token::Pipe, Vec::new(), i + 1) {
            Ok(v) => v,
            Err(stop) => {
                return Err(stop);
            },
        };
        if self.tk(j) == Token::FatArrow {
            let (e, k): (Expr, usize) = match self.nested_expr(depth, j + 1) {
                Ok(v) => v,
                Err(stop) => {
                    return Err(stop);
                },
            };
            let b = ClosureBody::Value(e);
            assert(b.tree() is Value);
            return Ok((Expr { kind: ExprKind::Closure { params: ps, body: Box::new(b) }, span: self.span_of(i, k) }, k));
        }
        if self.tk(j) != Token::Do {
            return Err(j);
        }
        let (b, k): (Block, usize) = match self.nested_block(depth, j, j + 1) {
            Ok(v) => v,
            Err(stop) => {
                return Err(stop);
            },
        };
        let c = ClosureBody::Block(b);
        assert(c.tree() is Block);
        Ok((Expr { kind: ExprKind::Closure { params: ps, body: Box::new(c) }, span: self.span_of(i, k) }, k))
    }
}

} // verus!
