//! Parsing of types, parameters and patterns.
use vstd::prelude::*;
use crate::ast;
use crate::ast::{
    Constraint, GenericParam, Param, Pattern, Type, WhereClause, ParamMode,
};
use crate::parse::grammar_types;
use crate::parse::input;
use crate::parse::input::{one, Parser};
use crate::parse::results;
use crate::parse::rules;
use crate::token::Token;

verus! {

broadcast use {ast::group_lists, input::group_forward};

impl<'a> Parser<'a> {
    /// A type; `m` allows a map type.
    pub fn ty(&self, depth: usize, m: bool, i: usize) -> (r: Result<(Type, usize), usize>)
        requires
            self.wf(),
            i <= self@.len(),
        ensures
            results::result_type(r) == grammar_types::ty(rules::rules(depth as nat), self@, m, i as int),
            r is Ok ==> i < r->Ok_0.1 <= self@.len(),
        decreases depth, self@.len() - i, 3int,
    {
        reveal(grammar_types::ty);
        let (t, j): (Type, usize) = match self.type_base(depth, i) {
            Ok(v) => v,
            Err(stop) => {
                return Err(stop);
            },
        };
        let (r, k): (Type, usize) = match self.type_rest(depth, m, t, j) {
            Ok(v) => v,
            Err(stop) => {
                return Err(stop);
            },
        };
        Ok((r, k))
    }

    /// As `ty`, one level deeper; nothing fits below the deepest level.
    pub fn nested_ty(&self, depth: usize, m: bool, i: usize) -> (r: Result<(Type, usize), usize>)
        requires
            self.wf(),
            i <= self@.len(),
        ensures
            results::result_type(r) == (rules::rules(depth as nat).ty)(self@, m, i as int),
            r is Ok ==> i < r->Ok_0.1 <= self@.len(),
        decreases depth, 0int, 0int,
    {
        reveal(rules::rules);
        if depth == 0 {
            Err(i)
        } else {
            self.ty(depth - 1, m, i)
        }
    }

    /// A type without suffixes.
    pub fn type_base(&self, depth: usize, i: usize) -> (r: Result<(Type, usize), usize>)
        requires
            self.wf(),
            i <= self@.len(),
        ensures
            results::result_type(r) == grammar_types::type_base(rules::rules(depth as nat), self@, i as int),
            r is Ok ==> i < r->Ok_0.1 <= self@.len(),
        decreases depth, self@.len() - i, 2int,
    {
        reveal(grammar_types::type_base);
        if self.tk(i) == Token::Int {
            return Ok((Type::Int, i + 1));
        }
        if self.tk(i) == Token::Bool {
            return Ok((Type::Bool, i + 1));
        }
        if self.tk(i) == Token::Void {
            return Ok((Type::Void, i + 1));
        }
        if self.tk(i) == Token::Str {
            return Ok((Type::Str, i + 1));
        }
        if self.tk(i) == Token::Char {
            return Ok((Type::Char, i + 1));
        }
        if self.tk(i) == Token::Float {
            return Ok((Type::Float, i + 1));
        }
        if self.tk(i) == Token::Double {
            return Ok((Type::Double, i + 1));
        }
        if self.tk(i) == Token::Any {
            return Ok((Type::Any, i + 1));
        }
        if self.tk(i) == Token::Function && self.tk_after(i, 1) == Token::Lt {
            let (t, j): (Type, usize) = match self.nested_ty(depth, false, i + 2) {
                Ok(v) => v,
                Err(stop) => {
                    return Err(stop);
                },
            };
            if self.tk(j) != Token::LParen {
                return Err(j);
            }
            let (ts, k): (Vec<Type>, usize) = match self.types(depth, Token::RParen, Vec::new(), j + 1) {
                Ok(v) => v,
                Err(stop) => {
                    return Err(stop);
                },
            };
            if self.tk(k) != Token::Gt {
                return Err(k);
            }
            return Ok((Type::Function(Box::new(t), ts), k + 1));
        }
        if self.tk(i) == Token::LParen {
            let (ts, k): (Vec<Type>, usize) = match self.types(depth, Token::RParen, Vec::new(), i + 1) {
                Ok(v) => v,
                Err(stop) => {
                    return Err(stop);
                },
            };
            return Ok((Type::Tuple(ts), k));
        }
        if self.named(i) {
            if self.tk_after(i, 1) == Token::Lt {
                let (ts, k): (Vec<Type>, usize) = match self.types(depth, Token::Gt, Vec::new(), i + 2) {
                    Ok(v) => v,
                    Err(stop) => {
                        return Err(stop);
                    },
                };
                return Ok((Type::Generic(self.word(i), ts), k));
            }
            return Ok((Type::Named(self.word(i)), i + 1));
        }
        Err(i)
    }

    /// The suffixes of a type.
    pub fn type_rest(&self, depth: usize, m: bool, first: Type, from: usize) -> (r: Result<(Type, usize), usize>)
        requires
            self.wf(),
            from <= self@.len(),
        ensures
            results::result_type(r) == grammar_types::type_rest(rules::rules(depth as nat), self@, m, first.tree(), from as int),
            r is Ok ==> from <= r->Ok_0.1 <= self@.len(),
        decreases depth, self@.len() - from, 1int,
    {
        let ghost x = self@;
        let ghost whole = grammar_types::type_rest(rules::rules(depth as nat), x, m, first.tree(), from as int);
        let mut acc = first;
        let mut i: usize = from;
        loop
            invariant
                self.wf(),
                x == self@,
                from <= i <= x.len(),
                whole == grammar_types::type_rest(rules::rules(depth as nat), x, m, first.tree(), from as int),
                grammar_types::type_rest(rules::rules(depth as nat), x, m, acc.tree(), i as int) == whole,
            decreases x.len() - i,
        {
            reveal(grammar_types::type_rest);
            if self.tk(i) == Token::LBracket && self.tk_after(i, 1) == Token::RBracket {
                acc = Type::Array(Box::new(acc));
                i = i + 2;
                continue;
            }
            if self.tk(i) == Token::Star {
                acc = Type::Pointer(Box::new(acc));
                i = i + 1;
                continue;
            }
            if self.tk(i) == Token::Question {
                acc = Type::Optional(Box::new(acc));
                i = i + 1;
                continue;
            }
            if self.tk(i) == Token::Vector {
                acc = Type::Vector(Box::new(acc));
                i = i + 1;
                continue;
            }
            if self.tk(i) == Token::Arr {
                if self.tk_after(i, 1) == Token::LBracket && self.tk_after(i, 2) == Token::IntLit && self.tk_after(i, 3) == Token::RBracket {
                    let n: u64 = match self.size_at(i + 2) {
                        Some(v) => v,
                        None => {
                            return Err(i + 2);
                        },
                    };
                    acc = Type::FixedArray(Box::new(acc), Some(n));
                    i = i + 4;
                    continue;
                }
                acc = Type::FixedArray(Box::new(acc), None);
                i = i + 1;
                continue;
            }
            if m && self.tk(i) == Token::Colon {
                if let Ok((v, j)) = self.nested_ty(depth, true, i + 1) {
                    return Ok((Type::Mapping(Box::new(acc), Box::new(v)), j));
                }
                return Ok((acc, i));
            }
            return Ok((acc, i));
        }
    }

    /// Types up to `close`.
    pub fn types(&self, depth: usize, close: Token, first: Vec<Type>, from: usize) -> (r: Result<(Vec<Type>, usize), usize>)
        requires
            self.wf(),
            from <= self@.len(),
        ensures
            results::result_vec_type(r) == grammar_types::types(rules::rules(depth as nat), self@, close, ast::types_of(first@), from as int),
            r is Ok ==> from <= r->Ok_0.1 <= self@.len(),
        decreases depth, self@.len() - from, 4int,
    {
        let ghost x = self@;
        let ghost whole = grammar_types::types(rules::rules(depth as nat), x, close, ast::types_of(first@), from as int);
        let mut acc = first;
        let mut i: usize = from;
        loop
            invariant
                self.wf(),
                x == self@,
                from <= i <= x.len(),
                whole == grammar_types::types(rules::rules(depth as nat), x, close, ast::types_of(first@), from as int),
                grammar_types::types(rules::rules(depth as nat), x, close, ast::types_of(acc@), i as int) == whole,
            decreases x.len() - i,
        {
            reveal(grammar_types::types);
            let k: usize = self.skip_newlines(i);
            if self.tk(k) == close && close != Token::Eof {
                return Ok((acc, k + 1));
            }
            let (a, j): (Type, usize) = match self.nested_ty(depth, true, k) {
                Ok(v) => v,
                Err(stop) => {
                    return Err(stop);
                },
            };
            let p: usize = self.skip_newlines(j);
            if self.tk(p) == Token::Comma {
                acc.push(a);
                i = p + 1;
                continue;
            }
            if self.tk(p) == close && close != Token::Eof {
                acc.push(a);
                return Ok((acc, p + 1));
            }
            return Err(p);
        }
    }

    /// A generic parameter, with a bound where it has one.
    pub fn generic_param(&self, depth: usize, i: usize) -> (r: Result<(GenericParam, usize), usize>)
        requires
            self.wf(),
            i <= self@.len(),
        ensures
            results::result_genericparam(r) == grammar_types::generic_param(rules::rules(depth as nat), self@, i as int),
            r is Ok ==> i < r->Ok_0.1 <= self@.len(),
    {
        reveal(grammar_types::generic_param);
        if !self.named(i) {
            return Err(i);
        }
        if self.tk_after(i, 1) == Token::Colon {
            let (t, j): (Type, usize) = match self.ty(depth, false, i + 2) {
                Ok(v) => v,
                Err(stop) => {
                    return Err(stop);
                },
            };
            return Ok((GenericParam { name: self.word(i), bounds: one(t) }, j));
        }
        Ok((GenericParam { name: self.word(i), bounds: Vec::new() }, i + 1))
    }

    /// Generic parameters up to `close`.
    pub fn generic_params(&self, depth: usize, close: Token, first: Vec<GenericParam>, from: usize) -> (r: Result<(Vec<GenericParam>, usize), usize>)
        requires
            self.wf(),
            from <= self@.len(),
        ensures
            results::result_vec_genericparam(r) == grammar_types::generic_params(rules::rules(depth as nat), self@, close, ast::generics_of(first@), from as int),
            r is Ok ==> from <= r->Ok_0.1 <= self@.len(),
        decreases depth, self@.len() - from, 2int,
    {
        let ghost x = self@;
        let ghost whole = grammar_types::generic_params(rules::rules(depth as nat), x, close, ast::generics_of(first@), from as int);
        let mut acc = first;
        let mut i: usize = from;
        loop
            invariant
                self.wf(),
                x == self@,
                from <= i <= x.len(),
                whole == grammar_types::generic_params(rules::rules(depth as nat), x, close, ast::generics_of(first@), from as int),
                grammar_types::generic_params(rules::rules(depth as nat), x, close, ast::generics_of(acc@), i as int) == whole,
            decreases x.len() - i,
        {
            reveal(grammar_types::generic_params);
            let k: usize = self.skip_newlines(i);
            if self.tk(k) == close && close != Token::Eof {
                return Ok((acc, k + 1));
            }
            let (a, j): (GenericParam, usize) = match self.generic_param(depth, k) {
                Ok(v) => v,
                Err(stop) => {
                    return Err(stop);
                },
            };
            let p: usize = self.skip_newlines(j);
            if self.tk(p) == Token::Comma {
                acc.push(a);
                i = p + 1;
                continue;
            }
            if self.tk(p) == close && close != Token::Eof {
                acc.push(a);
                return Ok((acc, p + 1));
            }
            return Err(p);
        }
    }

    /// A generic parameter list, where there is one.
    pub fn generics(&self, depth: usize, i: usize) -> (r: Result<(Vec<GenericParam>, usize), usize>)
        requires
            self.wf(),
            i <= self@.len(),
        ensures
            results::result_vec_genericparam(r) == grammar_types::generics(rules::rules(depth as nat), self@, i as int),
            r is Ok ==> i <= r->Ok_0.1 <= self@.len(),
    {
        reveal(grammar_types::generics);
        if self.tk(i) == Token::Lt {
            let (ps, k): (Vec<GenericParam>, usize) = match self.generic_params(depth, Token::Gt, Vec::new(), i + 1) {
                Ok(v) => v,
                Err(stop) => {
                    return Err(stop);
                },
            };
            return Ok((ps, k));
        }
        Ok((Vec::new(), i))
    }

    /// One constraint of a `where` clause.
    pub fn constraint(&self, depth: usize, i: usize) -> (r: Result<(Constraint, usize), usize>)
        requires
            self.wf(),
            i <= self@.len(),
        ensures
            results::result_constraint(r) == grammar_types::constraint(rules::rules(depth as nat), self@, i as int),
            r is Ok ==> i < r->Ok_0.1 <= self@.len(),
    {
        reveal(grammar_types::constraint);
        let (t, j): (Type, usize) = match self.ty(depth, false, i) {
            Ok(v) => v,
            Err(stop) => {
                return Err(stop);
            },
        };
        if self.tk(j) != Token::Colon {
            return Err(j);
        }
        let (b, k): (Type, usize) = match self.ty(depth, false, j + 1) {
            Ok(v) => v,
            Err(stop) => {
                return Err(stop);
            },
        };
        Ok((Constraint { ty: t, bounds: one(b) }, k))
    }

    /// Constraints separated by commas.
    pub fn constraints(&self, depth: usize, first: Vec<Constraint>, from: usize) -> (r: Result<(Vec<Constraint>, usize), usize>)
        requires
            self.wf(),
            from <= self@.len(),
        ensures
            results::result_vec_constraint(r) == grammar_types::constraints(rules::rules(depth as nat), self@, ast::constraints_of(first@), from as int),
            r is Ok ==> from <= r->Ok_0.1 <= self@.len(),
        decreases depth, self@.len() - from, 5int,
    {
        let ghost x = self@;
        let ghost whole = grammar_types::constraints(rules::rules(depth as nat), x, ast::constraints_of(first@), from as int);
        let mut acc = first;
        let mut i: usize = from;
        loop
            invariant
                self.wf(),
                x == self@,
                from <= i <= x.len(),
                whole == grammar_types::constraints(rules::rules(depth as nat), x, ast::constraints_of(first@), from as int),
                grammar_types::constraints(rules::rules(depth as nat), x, ast::constraints_of(acc@), i as int) == whole,
            decreases x.len() - i,
        {
            reveal(grammar_types::constraints);
            let (c, j): (Constraint, usize) = match self.constraint(depth, i) {
                Ok(v) => v,
                Err(stop) => {
                    return Err(stop);
                },
            };
            if self.tk(j) == Token::Comma {
                acc.push(c);
                i = j + 1;
                continue;
            }
            acc.push(c);
            return Ok((acc, j));
        }
    }

    /// A `where` clause, where there is one.
    pub fn where_clause(&self, depth: usize, i: usize) -> (r: Result<(Option<WhereClause>, usize), usize>)
        requires
            self.wf(),
            i <= self@.len(),
        ensures
            results::result_option_whereclause(r) == grammar_types::where_clause(rules::rules(depth as nat), self@, i as int),
            r is Ok ==> i <= r->Ok_0.1 <= self@.len(),
    {
        reveal(grammar_types::where_clause);
        if self.tk(i) == Token::Where {
            let (cs, j): (Vec<Constraint>, usize) = match self.constraints(depth, Vec::new(), i + 1) {
                Ok(v) => v,
                Err(stop) => {
                    return Err(stop);
                },
            };
            return Ok((Some(WhereClause { constraints: cs }), j));
        }
        Ok((None, i))
    }

    /// A parameter.
    pub fn param(&self, depth: usize, i: usize) -> (r: Result<(Param, usize), usize>)
        requires
            self.wf(),
            i <= self@.len(),
        ensures
            results::result_param(r) == grammar_types::param(rules::rules(depth as nat), self@, i as int),
            r is Ok ==> i < r->Ok_0.1 <= self@.len(),
    {
        reveal(grammar_types::param);
        if self.tk(i) == Token::Ellipsis {
            if self.closes_param(i + 1) {
                return Ok((Param { is_variadic: true, mode: ParamMode::Plain, ty: Type::Named("__derived__".to_owned()), name: "".to_owned() }, i + 1));
            }
            if self.named(i + 1) && self.closes_param(i + 2) {
                return Ok((Param { is_variadic: true, mode: ParamMode::Plain, ty: Type::Named("__derived__".to_owned()), name: self.word(i + 1) }, i + 2));
            }
            let (t, j): (Type, usize) = match self.ty(depth, true, i + 1) {
                Ok(v) => v,
                Err(stop) => {
                    return Err(stop);
                },
            };
            if !self.named(j) {
                return Err(j);
            }
            return Ok((Param { is_variadic: true, mode: ParamMode::Plain, ty: t, name: self.word(j) }, j + 1));
        }
        if self.tk(i) == Token::Ref {
            let (t, j): (Type, usize) = match self.ty(depth, true, i + 1) {
                Ok(v) => v,
                Err(stop) => {
                    return Err(stop);
                },
            };
            if !self.named(j) {
                return Err(j);
            }
            return Ok((Param { is_variadic: false, mode: ParamMode::Ref, ty: t, name: self.word(j) }, j + 1));
        }
        if self.tk(i) == Token::Out {
            let (t, j): (Type, usize) = match self.ty(depth, true, i + 1) {
                Ok(v) => v,
                Err(stop) => {
                    return Err(stop);
                },
            };
            if !self.named(j) {
                return Err(j);
            }
            return Ok((Param { is_variadic: false, mode: ParamMode::Out, ty: t, name: self.word(j) }, j + 1));
        }
        let (t, j): (Type, usize) = match self.ty(depth, true, i) {
            Ok(v) => v,
            Err(stop) => {
                return Err(stop);
            },
        };
        if !self.named(j) {
            return Err(j);
        }
        Ok((Param { is_variadic: false, mode: ParamMode::Plain, ty: t, name: self.word(j) }, j + 1))
    }

    /// Parameters up to `close`.
    pub fn params(&self, depth: usize, close: Token, first: Vec<Param>, from: usize) -> (r: Result<(Vec<Param>, usize), usize>)
        requires
            self.wf(),
            from <= self@.len(),
        ensures
            results::result_vec_param(r) == grammar_types::params(rules::rules(depth as nat), self@, close, ast::params_of(first@), from as int),
            r is Ok ==> from <= r->Ok_0.1 <= self@.len(),
        decreases depth, self@.len() - from, 5int,
    {
        let ghost x = self@;
        let ghost whole = grammar_types::params(rules::rules(depth as nat), x, close, ast::params_of(first@), from as int);
        let mut acc = first;
        let mut i: usize = from;
        loop
            invariant
                self.wf(),
                x == self@,
                from <= i <= x.len(),
                whole == grammar_types::params(rules::rules(depth as nat), x, close, ast::params_of(first@), from as int),
                grammar_types::params(rules::rules(depth as nat), x, close, ast::params_of(acc@), i as int) == whole,
            decreases x.len() - i,
        {
            reveal(grammar_types::params);
            let k: usize = self.skip_newlines(i);
            if self.tk(k) == close && close != Token::Eof {
                return Ok((acc, k + 1));
            }
            let (a, j): (Param, usize) = match self.param(depth, k) {
                Ok(v) => v,
                Err(stop) => {
                    return Err(stop);
                },
            };
            let p: usize = self.skip_newlines(j);
            if self.tk(p) == Token::Comma {
                acc.push(a);
                i = p + 1;
                continue;
            }
            if self.tk(p) == close && close != Token::Eof {
                acc.push(a);
                return Ok((acc, p + 1));
            }
            return Err(p);
        }
    }

    /// A pattern: alternatives separated by `|` or `or`.
    pub fn pattern(&self, depth: usize, i: usize) -> (r: Result<(Pattern, usize), usize>)
        requires
            self.wf(),
            i <= self@.len(),
        ensures
            results::result_pattern(r) == grammar_types::pattern(rules::rules(depth as nat), self@, i as int),
            r is Ok ==> i < r->Ok_0.1 <= self@.len(),
        decreases depth, self@.len() - i, 3int,
    {
        reveal(grammar_types::pattern);
        let (p, j): (Pattern, usize) = match self.simple_pattern(depth, i) {
            Ok(v) => v,
            Err(stop) => {
                return Err(stop);
            },
        };
        if self.tk(j) == Token::Pipe || self.tk(j) == Token::Or {
            let (ps, k): (Vec<Pattern>, usize) = match self.alternatives(depth, one(p), j) {
                Ok(v) => v,
                Err(stop) => {
                    return Err(stop);
                },
            };
            return Ok((Pattern::Alternative(ps), k));
        }
        Ok((p, j))
    }

    /// As `pattern`, one level deeper; nothing fits below the deepest level.
    pub fn nested_pattern(&self, depth: usize, i: usize) -> (r: Result<(Pattern, usize), usize>)
        requires
            self.wf(),
            i <= self@.len(),
        ensures
            results::result_pattern(r) == (rules::rules(depth as nat).pattern)(self@, i as int),
            r is Ok ==> i < r->Ok_0.1 <= self@.len(),
        decreases depth, 0int, 0int,
    {
        reveal(rules::rules);
        if depth == 0 {
            Err(i)
        } else {
            self.pattern(depth - 1, i)
        }
    }

    /// Further alternatives.
    pub fn alternatives(&self, depth: usize, first: Vec<Pattern>, from: usize) -> (r: Result<(Vec<Pattern>, usize), usize>)
        requires
            self.wf(),
            from <= self@.len(),
        ensures
            results::result_vec_pattern(r) == grammar_types::alternatives(rules::rules(depth as nat), self@, ast::patterns_of(first@), from as int),
            r is Ok ==> from <= r->Ok_0.1 <= self@.len(),
        decreases depth, self@.len() - from, 1int,
    {
        let ghost x = self@;
        let ghost whole = grammar_types::alternatives(rules::rules(depth as nat), x, ast::patterns_of(first@), from as int);
        let mut acc = first;
        let mut i: usize = from;
        loop
            invariant
                self.wf(),
                x == self@,
                from <= i <= x.len(),
                whole == grammar_types::alternatives(rules::rules(depth as nat), x, ast::patterns_of(first@), from as int),
                grammar_types::alternatives(rules::rules(depth as nat), x, ast::patterns_of(acc@), i as int) == whole,
            decreases x.len() - i,
        {
            reveal(grammar_types::alternatives);
            if self.tk(i) == Token::Pipe || self.tk(i) == Token::Or {
                let (p, j): (Pattern, usize) = match self.simple_pattern(depth, i + 1) {
                    Ok(v) => v,
                    Err(stop) => {
                        return Err(stop);
                    },
                };
                acc.push(p);
                i = j;
                continue;
            }
            return Ok((acc, i));
        }
    }

    /// A pattern without alternatives.
    pub fn simple_pattern(&self, depth: usize, i: usize) -> (r: Result<(Pattern, usize), usize>)
        requires
            self.wf(),
            i <= self@.len(),
        ensures
            results::result_pattern(r) == grammar_types::simple_pattern(rules::rules(depth as nat), self@, i as int),
            r is Ok ==> i < r->Ok_0.1 <= self@.len(),
        decreases depth, self@.len() - i, 2int,
    {
        reveal(grammar_types::simple_pattern);
        if self.named(i) {
            if self.is_wildcard(i) {
                return Ok((Pattern::Wildcard, i + 1));
            }
            return Ok((Pattern::Var(self.word(i)), i + 1));
        }
        if self.tk(i) == Token::IntLit {
            let v: i64 = match self.int_at(i) {
                Some(v) => v,
                None => {
                    return Err(i);
                },
            };
            return Ok((Pattern::LitInt(v), i + 1));
        }
        if self.tk(i) == Token::Minus && self.tk_after(i, 1) == Token::IntLit {
            let v: i64 = match self.neg_int_at(i + 1) {
                Some(v) => v,
                None => {
                    return Err(i + 1);
                },
            };
            return Ok((Pattern::LitInt(v), i + 2));
        }
        if self.tk(i) == Token::True {
            return Ok((Pattern::LitBool(true), i + 1));
        }
        if self.tk(i) == Token::False {
            return Ok((Pattern::LitBool(false), i + 1));
        }
        if self.tk(i) == Token::Dot && self.worded(i + 1) {
            if self.tk_after(i, 2) == Token::LParen {
                let (ps, k): (Vec<Pattern>, usize) = match self.patterns(depth, Token::RParen, Vec::new(), i + 3) {
                    Ok(v) => v,
                    Err(stop) => {
                        return Err(stop);
                    },
                };
                return Ok((Pattern::Variant { variant: self.word(i + 1), payload: Some(ps) }, k));
            }
            return Ok((Pattern::Variant { variant: self.word(i + 1), payload: None }, i + 2));
        }
        if self.tk(i) == Token::LParen {
            let (ps, k): (Vec<Pattern>, usize) = match self.patterns(depth, Token::RParen, Vec::new(), i + 1) {
                Ok(v) => v,
                Err(stop) => {
                    return Err(stop);
                },
            };
            return Ok((Pattern::Tuple(ps), k));
        }
        Err(i)
    }

    /// Patterns up to `close`.
    pub fn patterns(&self, depth: usize, close: Token, first: Vec<Pattern>, from: usize) -> (r: Result<(Vec<Pattern>, usize), usize>)
        requires
            self.wf(),
            from <= self@.len(),
        ensures
            results::result_vec_pattern(r) == grammar_types::patterns(rules::rules(depth as nat), self@, close, ast::patterns_of(first@), from as int),
            r is Ok ==> from <= r->Ok_0.1 <= self@.len(),
        decreases depth, self@.len() - from, 1int,
    {
        let ghost x = self@;
        let ghost whole = grammar_types::patterns(rules::rules(depth as nat), x, close, ast::patterns_of(first@), from as int);
        let mut acc = first;
        let mut i: usize = from;
        loop
            invariant
                self.wf(),
                x == self@,
                from <= i <= x.len(),
                whole == grammar_types::patterns(rules::rules(depth as nat), x, close, ast::patterns_of(first@), from as int),
                grammar_types::patterns(rules::rules(depth as nat), x, close, ast::patterns_of(acc@), i as int) == whole,
            decreases x.len() - i,
        {
            reveal(grammar_types::patterns);
            let k: usize = self.skip_newlines(i);
            if self.tk(k) == close && close != Token::Eof {
                return Ok((acc, k + 1));
            }
            let (a, j): (Pattern, usize) = match self.nested_pattern(depth, k) {
                Ok(v) => v,
                Err(stop) => {
                    return Err(stop);
                },
            };
            let p: usize = self.skip_newlines(j);
            if self.tk(p) == Token::Comma {
                acc.push(a);
                i = p + 1;
                continue;
            }
            if self.tk(p) == close && close != Token::Eof {
                acc.push(a);
                return Ok((acc, p + 1));
            }
            return Err(p);
        }
    }
}

} // verus!
