//! Parsing of statements.
use vstd::prelude::*;
use crate::ast;
use crate::ast::{
    Block, ConstDecl, DeferInner, Expr, Stmt, Target, Type, VarDecl,
    Visibility,
};
use crate::parse::grammar_stmts;
use crate::parse::input;
use crate::parse::input::{copy_type, one, Parser};
use crate::parse::results;
use crate::parse::rules;
use crate::token::Token;

verus! {

broadcast use {ast::group_lists, input::group_forward};

impl<'a> Parser<'a> {
    /// The statements of a block up to its `end`; the block starts at `s`.
    pub fn block(&self, depth: usize, s: usize, i: usize) -> (r: Result<(Block, usize), usize>)
        requires
            self.wf(),
            i <= self@.len(),
            s <= i,
        ensures
            results::result_block(r) == grammar_stmts::block(rules::rules(depth as nat), self@, s as int, i as int),
            r is Ok ==> i <= r->Ok_0.1 <= self@.len(),
        decreases depth, self@.len() - i, 83int,
    {
        reveal(grammar_stmts::block);
        let (xs, k): (Vec<Stmt>, usize) = match self.stmts(depth, Vec::new(), i) {
            Ok(v) => v,
            Err(stop) => {
                return Err(stop);
            },
        };
        Ok((Block { stmts: xs, span: self.span_of(s, k) }, k))
    }

    /// As `block`, one level deeper; nothing fits below the deepest level.
    pub fn nested_block(&self, depth: usize, s: usize, i: usize) -> (r: Result<(Block, usize), usize>)
        requires
            self.wf(),
            i <= self@.len(),
            s <= i,
        ensures
            results::result_block(r) == (rules::rules(depth as nat).block)(self@, s as int, i as int),
            r is Ok ==> i <= r->Ok_0.1 <= self@.len(),
        decreases depth, 0int, 0int,
    {
        reveal(rules::rules);
        if depth == 0 {
            Err(i)
        } else {
            self.block(depth - 1, s, i)
        }
    }

    /// The statements of a block.
    pub fn stmts(&self, depth: usize, first: Vec<Stmt>, from: usize) -> (r: Result<(Vec<Stmt>, usize), usize>)
        requires
            self.wf(),
            from <= self@.len(),
        ensures
            results::result_vec_stmt(r) == grammar_stmts::stmts(rules::rules(depth as nat), self@, ast::stmts_of(first@), from as int),
            r is Ok ==> from <= r->Ok_0.1 <= self@.len(),
        decreases depth, self@.len() - from, 82int,
    {
        let ghost x = self@;
        let ghost whole = grammar_stmts::stmts(rules::rules(depth as nat), x, ast::stmts_of(first@), from as int);
        let mut acc = first;
        let mut i: usize = from;
        loop
            invariant
                self.wf(),
                x == self@,
                from <= i <= x.len(),
                whole == grammar_stmts::stmts(rules::rules(depth as nat), x, ast::stmts_of(first@), from as int),
                grammar_stmts::stmts(rules::rules(depth as nat), x, ast::stmts_of(acc@), i as int) == whole,
            decreases x.len() - i,
        {
            reveal(grammar_stmts::stmts);
            let k: usize = self.skip_terms(i);
            if self.tk(k) == Token::End {
                return Ok((acc, k + 1));
            }
            let (a, j): (Stmt, usize) = match self.stmt(depth, k) {
                Ok(v) => v,
                Err(stop) => {
                    return Err(stop);
                },
            };
            if self.term(j) || self.tk(j) == Token::End {
                acc.push(a);
                i = j;
                continue;
            }
            return Err(j);
        }
    }

    /// A statement.
    pub fn stmt(&self, depth: usize, i: usize) -> (r: Result<(Stmt, usize), usize>)
        requires
            self.wf(),
            i <= self@.len(),
        ensures
            results::result_stmt(r) == grammar_stmts::stmt(rules::rules(depth as nat), self@, i as int),
            r is Ok ==> i < r->Ok_0.1 <= self@.len(),
        decreases depth, self@.len() - i, 81int,
    {
        reveal(grammar_stmts::stmt);
        if self.tk(i) == Token::Const {
            let (d, j): (ConstDecl, usize) = match self.const_decl(depth, Visibility::Default, i, i) {
                Ok(v) => v,
                Err(stop) => {
                    return Err(stop);
                },
            };
            return Ok((Stmt::Const(d), j));
        }
        if self.tk(i) == Token::Assert || self.tk(i) == Token::DebugAssert {
            let (c, j): (Expr, usize) = match self.expr(depth, i + 1) {
                Ok(v) => v,
                Err(stop) => {
                    return Err(stop);
                },
            };
            if self.tk(j) == Token::Comma {
                let (m, k): (Expr, usize) = match self.expr(depth, j + 1) {
                    Ok(v) => v,
                    Err(stop) => {
                        return Err(stop);
                    },
                };
                return Ok((Stmt::Assert { is_debug: self.tk(i) == Token::DebugAssert, cond: c, message: Some(m), span: self.span_of(i, k) }, k));
            }
            return Ok((Stmt::Assert { is_debug: self.tk(i) == Token::DebugAssert, cond: c, message: None, span: self.span_of(i, j) }, j));
        }
        if self.tk(i) == Token::If {
            let (s, j): (Stmt, usize) = match self.if_stmt(depth, i) {
                Ok(v) => v,
                Err(stop) => {
                    return Err(stop);
                },
            };
            return Ok((s, j));
        }
        if self.tk(i) == Token::While {
            let (c, j): (Expr, usize) = match self.expr(depth, i + 1) {
                Ok(v) => v,
                Err(stop) => {
                    return Err(stop);
                },
            };
            if self.tk(j) != Token::Do {
                return Err(j);
            }
            let (b, k): (Block, usize) = match self.nested_block(depth, j, j + 1) {
                Ok(v) => v,
                Err(stop) => {
                    return Err(stop);
                },
            };
            return Ok((Stmt::While { cond: c, body: b, span: self.span_of(i, k) }, k));
        }
        if self.tk(i) == Token::Loop || self.tk(i) == Token::For {
            let (s, j): (Stmt, usize) = match self.loop_stmt(depth, i, None, i) {
                Ok(v) => v,
                Err(stop) => {
                    return Err(stop);
                },
            };
            return Ok((s, j));
        }
        if self.named(i) && self.tk_after(i, 1) == Token::Colon && (self.tk_after(i, 2) == Token::Loop || self.tk_after(i, 2) == Token::For) {
            let (s, j): (Stmt, usize) = match self.loop_stmt(depth, i, Some(self.word(i)), i + 2) {
                Ok(v) => v,
                Err(stop) => {
                    return Err(stop);
                },
            };
            return Ok((s, j));
        }
        if self.tk(i) == Token::Return {
            if self.ends_stmt(i + 1) {
                return Ok((Stmt::Return { value: None, span: self.span_of(i, i + 1) }, i + 1));
            }
            let (e, j): (Expr, usize) = match self.expr(depth, i + 1) {
                Ok(v) => v,
                Err(stop) => {
                    return Err(stop);
                },
            };
            return Ok((Stmt::Return { value: Some(e), span: self.span_of(i, j) }, j));
        }
        if self.tk(i) == Token::Break {
            if self.named(i + 1) {
                return Ok((Stmt::Break { label: Some(self.word(i + 1)), span: self.span_of(i, i + 2) }, i + 2));
            }
            return Ok((Stmt::Break { label: None, span: self.span_of(i, i + 1) }, i + 1));
        }
        if self.tk(i) == Token::Continue {
            if self.named(i + 1) {
                return Ok((Stmt::Continue { label: Some(self.word(i + 1)), span: self.span_of(i, i + 2) }, i + 2));
            }
            return Ok((Stmt::Continue { label: None, span: self.span_of(i, i + 1) }, i + 1));
        }
        if self.tk(i) == Token::Defer {
            if self.tk_after(i, 1) == Token::Do {
                let (b, k): (Block, usize) = match self.nested_block(depth, i + 1, i + 2) {
                    Ok(v) => v,
                    Err(stop) => {
                        return Err(stop);
                    },
                };
                return Ok((Stmt::Defer { inner: DeferInner::Block(b), span: self.span_of(i, k) }, k));
            }
            let (e, j): (Expr, usize) = match self.expr(depth, i + 1) {
                Ok(v) => v,
                Err(stop) => {
                    return Err(stop);
                },
            };
            return Ok((Stmt::Defer { inner: DeferInner::Value(e), span: self.span_of(i, j) }, j));
        }
        if self.tk(i) == Token::Do {
            let (b, k): (Block, usize) = match self.nested_block(depth, i, i + 1) {
                Ok(v) => v,
                Err(stop) => {
                    return Err(stop);
                },
            };
            return Ok((Stmt::Block(b), k));
        }
        let (s, j): (Stmt, usize) = match self.simple_stmt(depth, i) {
            Ok(v) => v,
            Err(stop) => {
                return Err(stop);
            },
        };
        Ok((s, j))
    }

    /// A declaration, an assignment to several targets, or an expression.
    pub fn simple_stmt(&self, depth: usize, i: usize) -> (r: Result<(Stmt, usize), usize>)
        requires
            self.wf(),
            i <= self@.len(),
        ensures
            results::result_stmt(r) == grammar_stmts::simple_stmt(rules::rules(depth as nat), self@, i as int),
            r is Ok ==> i < r->Ok_0.1 <= self@.len(),
        decreases depth, self@.len() - i, 77int,
    {
        reveal(grammar_stmts::simple_stmt);
        if let Ok((t, j)) = self.ty(depth, true, i) {
            if self.named(j) && (self.tk_after(j, 1) == Token::Eq || self.ends_stmt(j + 1)) {
                let (d, k): (VarDecl, usize) = match self.var_rest(depth, i, Visibility::Default, t, j) {
                    Ok(v) => v,
                    Err(stop) => {
                        return Err(stop);
                    },
                };
                return Ok((Stmt::VarDecl(d), k));
            }
        }
        if self.named(i) && self.tk_after(i, 1) == Token::Comma {
            let (ts, j): (Vec<Target>, usize) = match self.targets(Vec::new(), i) {
                Ok(v) => v,
                Err(stop) => {
                    return Err(stop);
                },
            };
            if self.tk(j) != Token::Eq {
                return Err(j);
            }
            let (e, k): (Expr, usize) = match self.expr(depth, j + 1) {
                Ok(v) => v,
                Err(stop) => {
                    return Err(stop);
                },
            };
            return Ok((Stmt::Destructure { targets: ts, expr: e, span: self.span_of(i, k) }, k));
        }
        let (e, j): (Expr, usize) = match self.expr(depth, i) {
            Ok(v) => v,
            Err(stop) => {
                return Err(stop);
            },
        };
        Ok((Stmt::Expr { expr: e, span: self.span_of(i, j) }, j))
    }

    /// Targets separated by commas.
    pub fn targets(&self, first: Vec<Target>, from: usize) -> (r: Result<(Vec<Target>, usize), usize>)
        requires
            self.wf(),
            from <= self@.len(),
        ensures
            results::result_vec_target(r) == grammar_stmts::targets(self@, ast::targets_of(first@), from as int),
            r is Ok ==> from <= r->Ok_0.1 <= self@.len(),
    {
        let ghost x = self@;
        let ghost whole = grammar_stmts::targets(x, ast::targets_of(first@), from as int);
        let mut acc = first;
        let mut i: usize = from;
        loop
            invariant
                self.wf(),
                x == self@,
                from <= i <= x.len(),
                whole == grammar_stmts::targets(x, ast::targets_of(first@), from as int),
                grammar_stmts::targets(x, ast::targets_of(acc@), i as int) == whole,
            decreases x.len() - i,
        {
            reveal(grammar_stmts::targets);
            if !self.named(i) {
                return Err(i);
            }
            if self.tk_after(i, 1) == Token::Comma {
                acc.push(self.target(i));
                i = i + 2;
                continue;
            }
            acc.push(self.target(i));
            return Ok((acc, i + 1));
        }
    }

    /// A variable of type `t` from its name on; the declaration starts at `s`.
    pub fn var_rest(&self, depth: usize, s: usize, v: Visibility, t: Type, i: usize) -> (r: Result<(VarDecl, usize), usize>)
        requires
            self.wf(),
            i <= self@.len(),
            s <= i,
        ensures
            results::result_vardecl(r) == grammar_stmts::var_rest(rules::rules(depth as nat), self@, s as int, v, t.tree(), i as int),
            r is Ok ==> i < r->Ok_0.1 <= self@.len(),
        decreases depth, self@.len() - i, 76int,
    {
        reveal(grammar_stmts::var_rest);
        if !self.named(i) {
            return Err(i);
        }
        if self.tk_after(i, 1) == Token::Eq {
            let p: usize = self.skip_newlines(i + 2);
            if self.tk(p) == Token::Has {
                let (e, k): (Expr, usize) = match self.literal(depth, p, copy_type(&t), p) {
                    Ok(v) => v,
                    Err(stop) => {
                        return Err(stop);
                    },
                };
                return Ok((VarDecl { visibility: v, ty: t, name: self.word(i), name_span: self.span_of(i, i + 1), init: Some(e), span: self.span_of(s, k) }, k));
            }
            let (e, k): (Expr, usize) = match self.expr(depth, p) {
                Ok(v) => v,
                Err(stop) => {
                    return Err(stop);
                },
            };
            return Ok((VarDecl { visibility: v, ty: t, name: self.word(i), name_span: self.span_of(i, i + 1), init: Some(e), span: self.span_of(s, k) }, k));
        }
        Ok((VarDecl { visibility: v, ty: t, name: self.word(i), name_span: self.span_of(i, i + 1), init: None, span: self.span_of(s, i + 1) }, i + 1))
    }

    /// A constant; the declaration starts at `s`.
    pub fn const_decl(&self, depth: usize, v: Visibility, s: usize, i: usize) -> (r: Result<(ConstDecl, usize), usize>)
        requires
            self.wf(),
            i <= self@.len(),
            s <= i,
        ensures
            results::result_constdecl(r) == grammar_stmts::const_decl(rules::rules(depth as nat), self@, v, s as int, i as int),
            r is Ok ==> i < r->Ok_0.1 <= self@.len(),
        decreases depth, self@.len() - i, 76int,
    {
        reveal(grammar_stmts::const_decl);
        if self.tk(i) != Token::Const {
            return Err(i);
        }
        if self.named(i + 1) && self.tk_after(i, 2) == Token::Eq {
            let (e, k): (Expr, usize) = match self.expr(depth, i + 3) {
                Ok(v) => v,
                Err(stop) => {
                    return Err(stop);
                },
            };
            return Ok((ConstDecl { visibility: v, ty: None, name: self.word(i + 1), name_span: self.span_of(i + 1, i + 2), init: e, span: self.span_of(s, k) }, k));
        }
        let (t, j): (Type, usize) = match self.ty(depth, true, i + 1) {
            Ok(v) => v,
            Err(stop) => {
                return Err(stop);
            },
        };
        if !self.named(j) {
            return Err(j);
        }
        if self.tk_after(j, 1) != Token::Eq {
            return Err(j + 1);
        }
        let (e, k): (Expr, usize) = match self.expr(depth, j + 2) {
            Ok(v) => v,
            Err(stop) => {
                return Err(stop);
            },
        };
        Ok((ConstDecl { visibility: v, ty: Some(t), name: self.word(j), name_span: self.span_of(j, j + 1), init: e, span: self.span_of(s, k) }, k))
    }

    /// An `if`.
    pub fn if_stmt(&self, depth: usize, i: usize) -> (r: Result<(Stmt, usize), usize>)
        requires
            self.wf(),
            i <= self@.len(),
        ensures
            results::result_stmt(r) == grammar_stmts::if_stmt(rules::rules(depth as nat), self@, i as int),
            r is Ok ==> i < r->Ok_0.1 <= self@.len(),
        decreases depth, self@.len() - i, 77int,
    {
        reveal(grammar_stmts::if_stmt);
        if self.tk(i) != Token::If {
            return Err(i);
        }
        let (c, j): (Expr, usize) = match self.expr(depth, i + 1) {
            Ok(v) => v,
            Err(stop) => {
                return Err(stop);
            },
        };
        if self.tk(j) != Token::Do {
            return Err(j);
        }
        let (a, k): (Block, usize) = match self.nested_block(depth, j, j + 1) {
            Ok(v) => v,
            Err(stop) => {
                return Err(stop);
            },
        };
        let p: usize = self.skip_newlines(k);
        if self.tk(p) == Token::Else {
            if self.tk_after(p, 1) == Token::If {
                let (s, e): (Stmt, usize) = match self.if_stmt(depth, p + 1) {
                    Ok(v) => v,
                    Err(stop) => {
                        return Err(stop);
                    },
                };
                let ghost first = s.tree();
                let b = Block { stmts: one(s), span: self.span_of(p + 1, e) };
                assert(b.tree().stmts =~= seq![first]);
                return Ok((Stmt::If { cond: c, then_block: a, else_block: Some(b), span: self.span_of(i, e) }, e));
            }
            if self.tk_after(p, 1) != Token::Do {
                return Err(p + 1);
            }
            let (b, e): (Block, usize) = match self.nested_block(depth, p + 1, p + 2) {
                Ok(v) => v,
                Err(stop) => {
                    return Err(stop);
                },
            };
            return Ok((Stmt::If { cond: c, then_block: a, else_block: Some(b), span: self.span_of(i, e) }, e));
        }
        Ok((Stmt::If { cond: c, then_block: a, else_block: None, span: self.span_of(i, k) }, k))
    }

    /// A `loop` or `for` with its label; the statement starts at `s`.
    pub fn loop_stmt(&self, depth: usize, s: usize, label: Option<String>, i: usize) -> (r: Result<(Stmt, usize), usize>)
        requires
            self.wf(),
            i <= self@.len(),
            s <= i,
        ensures
            results::result_stmt(r) == grammar_stmts::loop_stmt(rules::rules(depth as nat), self@, s as int, results::option_string(label), i as int),
            r is Ok ==> i < r->Ok_0.1 <= self@.len(),
        decreases depth, self@.len() - i, 77int,
    {
        reveal(grammar_stmts::loop_stmt);
        if self.tk(i) == Token::Loop {
            if self.tk_after(i, 1) != Token::Do {
                return Err(i + 1);
            }
            let (b, k): (Block, usize) = match self.nested_block(depth, i + 1, i + 2) {
                Ok(v) => v,
                Err(stop) => {
                    return Err(stop);
                },
            };
            return Ok((Stmt::Loop { label, body: b, span: self.span_of(s, k) }, k));
        }
        if self.tk(i) != Token::For {
            return Err(i);
        }
        if !self.named(i + 1) {
            return Err(i + 1);
        }
        if self.tk_after(i, 2) == Token::Comma {
            if !self.named(i + 3) {
                return Err(i + 3);
            }
            if self.tk_after(i, 4) != Token::In {
                return Err(i + 4);
            }
            let (e, j): (Expr, usize) = match self.expr(depth, i + 5) {
                Ok(v) => v,
                Err(stop) => {
                    return Err(stop);
                },
            };
            if self.tk(j) != Token::Do {
                return Err(j);
            }
            let (b, k): (Block, usize) = match self.nested_block(depth, j, j + 1) {
                Ok(v) => v,
                Err(stop) => {
                    return Err(stop);
                },
            };
            return Ok((Stmt::For { label, var: self.word(i + 1), var2: Some(self.word(i + 3)), iter: e, body: b, span: self.span_of(s, k) }, k));
        }
        if self.tk_after(i, 2) != Token::In {
            return Err(i + 2);
        }
        let (e, j): (Expr, usize) = match self.expr(depth, i + 3) {
            Ok(v) => v,
            Err(stop) => {
                return Err(stop);
            },
        };
        if self.tk(j) != Token::Do {
            return Err(j);
        }
        let (b, k): (Block, usize) = match self.nested_block(depth, j, j + 1) {
            Ok(v) => v,
            Err(stop) => {
                return Err(stop);
            },
        };
        Ok((Stmt::For { label, var: self.word(i + 1), var2: None, iter: e, body: b, span: self.span_of(s, k) }, k))
    }
}

} // verus!
