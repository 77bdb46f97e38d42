//! Parsing of declarations.
use vstd::prelude::*;
use crate::ast;
use crate::ast::{
    AliasDecl, Attribute, AttributeArg, Block, ClassDecl, ConstDecl, ConstructorDecl, ConversionDecl,
    DestructorDecl, EnumDecl, Expr, ExtensionDecl, ExtensionMember, ExternDecl, ExternMember, Function,
    GenericParam, ImportDecl, Item, OperatorDecl, Param, PropertyDecl, Setter, StructDecl,
    StructField, TraitDecl, TraitMethod, Type, VarDecl, VariantDecl, WhereClause, Visibility,
};
use crate::parse::grammar_items;
use crate::parse::input;
use crate::parse::input::{Parser};
use crate::parse::results;
use crate::parse::rules;
use crate::token::Token;

verus! {

broadcast use {ast::group_lists, input::group_forward};

impl<'a> Parser<'a> {
    /// The names of an import path.
    pub fn path(&self, first: Vec<String>, from: usize) -> (r: Result<(Vec<String>, usize), usize>)
        requires
            self.wf(),
            from <= self@.len(),
        ensures
            results::result_vec_string(r) == grammar_items::path(self@, ast::names_of(first@), from as int),
            r is Ok ==> from <= r->Ok_0.1 <= self@.len(),
    {
        let ghost x = self@;
        let ghost whole = grammar_items::path(x, ast::names_of(first@), from as int);
        let mut acc = first;
        let mut i: usize = from;
        loop
            invariant
                self.wf(),
                x == self@,
                from <= i <= x.len(),
                whole == grammar_items::path(x, ast::names_of(first@), from as int),
                grammar_items::path(x, ast::names_of(acc@), i as int) == whole,
            decreases x.len() - i,
        {
            reveal(grammar_items::path);
            if !self.named(i) {
                return Err(i);
            }
            if self.tk_after(i, 1) == Token::PathSep && self.named(i + 2) {
                acc.push(self.word(i));
                i = i + 2;
                continue;
            }
            acc.push(self.word(i));
            return Ok((acc, i + 1));
        }
    }

    /// The symbols of an import up to the closing brace.
    pub fn symbols(&self, first: Vec<String>, from: usize) -> (r: Result<(Vec<String>, usize), usize>)
        requires
            self.wf(),
            from <= self@.len(),
        ensures
            results::result_vec_string(r) == grammar_items::symbols(self@, ast::names_of(first@), from as int),
            r is Ok ==> from <= r->Ok_0.1 <= self@.len(),
    {
        let ghost x = self@;
        let ghost whole = grammar_items::symbols(x, ast::names_of(first@), from as int);
        let mut acc = first;
        let mut i: usize = from;
        loop
            invariant
                self.wf(),
                x == self@,
                from <= i <= x.len(),
                whole == grammar_items::symbols(x, ast::names_of(first@), from as int),
                grammar_items::symbols(x, ast::names_of(acc@), i as int) == whole,
            decreases x.len() - i,
        {
            reveal(grammar_items::symbols);
            let k: usize = self.skip_newlines(i);
            if self.tk(k) == Token::RBrace {
                return Ok((acc, k + 1));
            }
            if !self.named(k) {
                return Err(k);
            }
            let p: usize = self.skip_newlines(k + 1);
            if self.tk(p) == Token::Comma {
                acc.push(self.word(k));
                i = p + 1;
                continue;
            }
            if self.tk(p) == Token::RBrace {
                acc.push(self.word(k));
                return Ok((acc, p + 1));
            }
            return Err(p);
        }
    }

    /// An import.
    pub fn import(&self, i: usize) -> (r: Result<(ImportDecl, usize), usize>)
        requires
            self.wf(),
            i <= self@.len(),
        ensures
            results::result_importdecl(r) == grammar_items::import(self@, i as int),
            r is Ok ==> i < r->Ok_0.1 <= self@.len(),
    {
        reveal(grammar_items::import);
        if self.tk(i) != Token::Import {
            return Err(i);
        }
        assert(ast::names_of(Seq::<String>::empty()) =~= Seq::<Seq<char>>::empty());
        let (ns, j): (Vec<String>, usize) = match self.path(Vec::new(), i + 1) {
            Ok(v) => v,
            Err(stop) => {
                return Err(stop);
            },
        };
        if self.tk(j) == Token::PathSep && self.tk_after(j, 1) == Token::LBrace {
            let (ss, k): (Vec<String>, usize) = match self.symbols(Vec::new(), j + 2) {
                Ok(v) => v,
                Err(stop) => {
                    return Err(stop);
                },
            };
            return Ok((ImportDecl { path: ns, symbols: Some(ss), span: self.span_of(i, k) }, k));
        }
        Ok((ImportDecl { path: ns, symbols: None, span: self.span_of(i, j) }, j))
    }

    /// An argument of an attribute.
    pub fn attribute_arg(&self, depth: usize, i: usize) -> (r: Result<(AttributeArg, usize), usize>)
        requires
            self.wf(),
            i <= self@.len(),
        ensures
            results::result_attributearg(r) == grammar_items::attribute_arg(rules::rules(depth as nat), self@, i as int),
            r is Ok ==> i < r->Ok_0.1 <= self@.len(),
    {
        reveal(grammar_items::attribute_arg);
        if self.named(i) && self.tk_after(i, 1) == Token::Colon {
            let (e, j): (Expr, usize) = match self.expr(depth, i + 2) {
                Ok(v) => v,
                Err(stop) => {
                    return Err(stop);
                },
            };
            return Ok((AttributeArg::Named { name: self.word(i), value: e }, j));
        }
        let (e, j): (Expr, usize) = match self.expr(depth, i) {
            Ok(v) => v,
            Err(stop) => {
                return Err(stop);
            },
        };
        Ok((AttributeArg::Value(e), j))
    }

    /// Arguments of an attribute up to `close`.
    pub fn attribute_args(&self, depth: usize, close: Token, first: Vec<AttributeArg>, from: usize) -> (r: Result<(Vec<AttributeArg>, usize), usize>)
        requires
            self.wf(),
            from <= self@.len(),
        ensures
            results::result_vec_attributearg(r) == grammar_items::attribute_args(rules::rules(depth as nat), self@, close, ast::attribute_args_of(first@), from as int),
            r is Ok ==> from <= r->Ok_0.1 <= self@.len(),
        decreases depth, self@.len() - from, 2int,
    {
        let ghost x = self@;
        let ghost whole = grammar_items::attribute_args(rules::rules(depth as nat), x, close, ast::attribute_args_of(first@), from as int);
        let mut acc = first;
        let mut i: usize = from;
        loop
            invariant
                self.wf(),
                x == self@,
                from <= i <= x.len(),
                whole == grammar_items::attribute_args(rules::rules(depth as nat), x, close, ast::attribute_args_of(first@), from as int),
                grammar_items::attribute_args(rules::rules(depth as nat), x, close, ast::attribute_args_of(acc@), i as int) == whole,
            decreases x.len() - i,
        {
            reveal(grammar_items::attribute_args);
            let k: usize = self.skip_newlines(i);
            if self.tk(k) == close && close != Token::Eof {
                return Ok((acc, k + 1));
            }
            let (a, j): (AttributeArg, usize) = match self.attribute_arg(depth, k) {
                Ok(v) => v,
                Err(stop) => {
                    return Err(stop);
                },
            };
            let p: usize = self.skip_newlines(j);
            if self.tk(p) == Token::Comma {
                acc.push(a);
                i = p + 1;
                continue;
            }
            if self.tk(p) == close && close != Token::Eof {
                acc.push(a);
                return Ok((acc, p + 1));
            }
            return Err(p);
        }
    }

    /// Attributes, one after another.
    pub fn attributes(&self, depth: usize, first: Vec<Attribute>, from: usize) -> (r: Result<(Vec<Attribute>, usize), usize>)
        requires
            self.wf(),
            from <= self@.len(),
        ensures
            results::result_vec_attribute(r) == grammar_items::attributes(rules::rules(depth as nat), self@, ast::attributes_of(first@), from as int),
            r is Ok ==> from <= r->Ok_0.1 <= self@.len(),
        decreases depth, self@.len() - from, 1int,
    {
        let ghost x = self@;
        let ghost whole = grammar_items::attributes(rules::rules(depth as nat), x, ast::attributes_of(first@), from as int);
        let mut acc = first;
        let mut i: usize = from;
        loop
            invariant
                self.wf(),
                x == self@,
                from <= i <= x.len(),
                whole == grammar_items::attributes(rules::rules(depth as nat), x, ast::attributes_of(first@), from as int),
                grammar_items::attributes(rules::rules(depth as nat), x, ast::attributes_of(acc@), i as int) == whole,
            decreases x.len() - i,
        {
            reveal(grammar_items::attributes);
            let k: usize = self.skip_newlines(i);
            if self.tk(k) == Token::At && self.worded(k + 1) {
                if self.tk_after(k, 2) == Token::LParen {
                    let (xs, j): (Vec<AttributeArg>, usize) = match self.attribute_args(depth, Token::RParen, Vec::new(), k + 3) {
                        Ok(v) => v,
                        Err(stop) => {
                            return Err(stop);
                        },
                    };
                    acc.push(Attribute { name: self.word(k + 1), args: xs });
                    i = j;
                    continue;
                }
                acc.push(Attribute { name: self.word(k + 1), args: Vec::new() });
                i = k + 2;
                continue;
            }
            return Ok((acc, k));
        }
    }

    /// A `typedef` or `distinct` declaration that starts at `s`.
    pub fn alias(&self, depth: usize, v: Visibility, s: usize, i: usize) -> (r: Result<(AliasDecl, usize), usize>)
        requires
            self.wf(),
            i <= self@.len(),
            s <= i,
        ensures
            results::result_aliasdecl(r) == grammar_items::alias(rules::rules(depth as nat), self@, v, s as int, i as int),
            r is Ok ==> i < r->Ok_0.1 <= self@.len(),
    {
        reveal(grammar_items::alias);
        if self.tk(i) != Token::Typedef && self.tk(i) != Token::Distinct {
            return Err(i);
        }
        let (before, j): (Vec<GenericParam>, usize) = match self.generics(depth, i + 1) {
            Ok(v) => v,
            Err(stop) => {
                return Err(stop);
            },
        };
        if !self.named(j) {
            return Err(j);
        }
        if self.tk_after(j, 1) == Token::Eq {
            let (t, k): (Type, usize) = match self.ty(depth, true, j + 2) {
                Ok(v) => v,
                Err(stop) => {
                    return Err(stop);
                },
            };
            return Ok((AliasDecl { visibility: v, name: self.word(j), generic_params: before, ty: t, span: self.span_of(s, k) }, k));
        }
        let (after, p): (Vec<GenericParam>, usize) = match self.generics(depth, j + 1) {
            Ok(v) => v,
            Err(stop) => {
                return Err(stop);
            },
        };
        if self.tk(p) != Token::Eq {
            return Err(p);
        }
        let (t, k): (Type, usize) = match self.ty(depth, true, p + 1) {
            Ok(v) => v,
            Err(stop) => {
                return Err(stop);
            },
        };
        Ok((AliasDecl { visibility: v, name: self.word(j), generic_params: after, ty: t, span: self.span_of(s, k) }, k))
    }

    /// A function from its modifiers on; it starts at `s`.
    pub fn function(&self, depth: usize, v: Visibility, s: usize, i: usize) -> (r: Result<(Function, usize), usize>)
        requires
            self.wf(),
            i <= self@.len(),
            s <= i,
        ensures
            results::result_function(r) == grammar_items::function(rules::rules(depth as nat), self@, v, s as int, i as int),
            r is Ok ==> i < r->Ok_0.1 <= self@.len(),
    {
        reveal(grammar_items::function);
        let a: usize = self.after_word(Token::Static, i);
        let b: usize = self.after_word(Token::Sealed, a);
        let c: usize = self.after_word(Token::Override, b);
        let (t, j): (Type, usize) = match self.ty(depth, true, c) {
            Ok(v) => v,
            Err(stop) => {
                return Err(stop);
            },
        };
        if !self.named(j) {
            return Err(j);
        }
        let (gs, k): (Vec<GenericParam>, usize) = match self.generics(depth, j + 1) {
            Ok(v) => v,
            Err(stop) => {
                return Err(stop);
            },
        };
        if self.tk(k) != Token::LParen {
            return Err(k);
        }
        let (ps, p): (Vec<Param>, usize) = match self.params(depth, Token::RParen, Vec::new(), k + 1) {
            Ok(v) => v,
            Err(stop) => {
                return Err(stop);
            },
        };
        let q: usize = self.skip_newlines(p);
        let (w, d): (Option<WhereClause>, usize) = match self.where_clause(depth, q) {
            Ok(v) => v,
            Err(stop) => {
                return Err(stop);
            },
        };
        if self.tk(d) != Token::Do {
            return Err(d);
        }
        let (body, e): (Block, usize) = match self.block(depth, d, d + 1) {
            Ok(v) => v,
            Err(stop) => {
                return Err(stop);
            },
        };
        Ok((Function { visibility: v, is_static: a > i, is_sealed: b > a, is_override: c > b, ret_ty: t, ret_span: self.span_of(c, j), name: self.word(j), name_span: self.span_of(j, j + 1), generic_params: gs, params: ps, where_clause: w, body, span: self.span_of(s, e) }, e))
    }

    /// A visibility, where one is written.
    pub fn visibility(&self, i: usize) -> (r: Result<(Visibility, usize), usize>)
        requires
            self.wf(),
            i <= self@.len(),
        ensures
            results::result_visibility(r) == grammar_items::visibility(self@, i as int),
            r is Ok ==> i <= r->Ok_0.1 <= self@.len(),
    {
        reveal(grammar_items::visibility);
        if self.tk(i) == Token::Public {
            return Ok((Visibility::Public, i + 1));
        }
        if self.tk(i) == Token::Private {
            return Ok((Visibility::Private, i + 1));
        }
        Ok((Visibility::Default, i))
    }

    /// A field of type `t` from its name on; it starts at `s`.
    pub fn field_rest(&self, depth: usize, v: Visibility, s: usize, t: Type, i: usize) -> (r: Result<(StructField, usize), usize>)
        requires
            self.wf(),
            i <= self@.len(),
            s <= i,
        ensures
            results::result_structfield(r) == grammar_items::field_rest(rules::rules(depth as nat), self@, v, s as int, t.tree(), i as int),
            r is Ok ==> i < r->Ok_0.1 <= self@.len(),
    {
        reveal(grammar_items::field_rest);
        if !self.named(i) {
            return Err(i);
        }
        if self.tk_after(i, 1) == Token::Eq {
            let (e, k): (Expr, usize) = match self.expr(depth, i + 2) {
                Ok(v) => v,
                Err(stop) => {
                    return Err(stop);
                },
            };
            return Ok((StructField { visibility: v, ty: t, name: self.word(i), default: Some(e), span: self.span_of(s, k) }, k));
        }
        Ok((StructField { visibility: v, ty: t, name: self.word(i), default: None, span: self.span_of(s, i + 1) }, i + 1))
    }

    /// A field.
    pub fn field(&self, depth: usize, i: usize) -> (r: Result<(StructField, usize), usize>)
        requires
            self.wf(),
            i <= self@.len(),
        ensures
            results::result_structfield(r) == grammar_items::field(rules::rules(depth as nat), self@, i as int),
            r is Ok ==> i < r->Ok_0.1 <= self@.len(),
    {
        reveal(grammar_items::field);
        let (v, a): (Visibility, usize) = match self.visibility(i) {
            Ok(v) => v,
            Err(stop) => {
                return Err(stop);
            },
        };
        let (t, j): (Type, usize) = match self.ty(depth, true, a) {
            Ok(v) => v,
            Err(stop) => {
                return Err(stop);
            },
        };
        let (f, k): (StructField, usize) = match self.field_rest(depth, v, i, t, j) {
            Ok(v) => v,
            Err(stop) => {
                return Err(stop);
            },
        };
        Ok((f, k))
    }

    /// The fields of a struct.
    pub fn fields(&self, depth: usize, first: Vec<StructField>, from: usize) -> (r: Result<(Vec<StructField>, usize), usize>)
        requires
            self.wf(),
            from <= self@.len(),
        ensures
            results::result_vec_structfield(r) == grammar_items::fields(rules::rules(depth as nat), self@, ast::fields_of(first@), from as int),
            r is Ok ==> from <= r->Ok_0.1 <= self@.len(),
        decreases depth, self@.len() - from, 3int,
    {
        let ghost x = self@;
        let ghost whole = grammar_items::fields(rules::rules(depth as nat), x, ast::fields_of(first@), from as int);
        let mut acc = first;
        let mut i: usize = from;
        loop
            invariant
                self.wf(),
                x == self@,
                from <= i <= x.len(),
                whole == grammar_items::fields(rules::rules(depth as nat), x, ast::fields_of(first@), from as int),
                grammar_items::fields(rules::rules(depth as nat), x, ast::fields_of(acc@), i as int) == whole,
            decreases x.len() - i,
        {
            reveal(grammar_items::fields);
            let k: usize = self.skip_terms(i);
            if self.tk(k) == Token::End {
                return Ok((acc, k + 1));
            }
            let (a, j): (StructField, usize) = match self.field(depth, k) {
                Ok(v) => v,
                Err(stop) => {
                    return Err(stop);
                },
            };
            if self.term(j) || self.tk(j) == Token::End {
                acc.push(a);
                i = j;
                continue;
            }
            return Err(j);
        }
    }

    /// A struct.
    pub fn struct_decl(&self, depth: usize, i: usize) -> (r: Result<(StructDecl, usize), usize>)
        requires
            self.wf(),
            i <= self@.len(),
        ensures
            results::result_structdecl(r) == grammar_items::struct_decl(rules::rules(depth as nat), self@, i as int),
            r is Ok ==> i < r->Ok_0.1 <= self@.len(),
    {
        reveal(grammar_items::struct_decl);
        if self.tk(i) != Token::Struct {
            return Err(i);
        }
        if !self.named(i + 1) {
            return Err(i + 1);
        }
        let (gs, j): (Vec<GenericParam>, usize) = match self.generics(depth, i + 2) {
            Ok(v) => v,
            Err(stop) => {
                return Err(stop);
            },
        };
        let (w, k): (Option<WhereClause>, usize) = match self.where_clause(depth, j) {
            Ok(v) => v,
            Err(stop) => {
                return Err(stop);
            },
        };
        if self.tk(k) != Token::Has {
            return Err(k);
        }
        let (fs, e): (Vec<StructField>, usize) = match self.fields(depth, Vec::new(), k + 1) {
            Ok(v) => v,
            Err(stop) => {
                return Err(stop);
            },
        };
        Ok((StructDecl { name: self.word(i + 1), name_span: self.span_of(i + 1, i + 2), generic_params: gs, where_clause: w, fields: fs, span: self.span_of(i, e) }, e))
    }

    /// A variant of an enum.
    pub fn variant(&self, depth: usize, i: usize) -> (r: Result<(VariantDecl, usize), usize>)
        requires
            self.wf(),
            i <= self@.len(),
        ensures
            results::result_variantdecl(r) == grammar_items::variant(rules::rules(depth as nat), self@, i as int),
            r is Ok ==> i < r->Ok_0.1 <= self@.len(),
    {
        reveal(grammar_items::variant);
        if !self.named(i) {
            return Err(i);
        }
        if self.tk_after(i, 1) == Token::LParen {
            let (ps, j): (Vec<Param>, usize) = match self.params(depth, Token::RParen, Vec::new(), i + 2) {
                Ok(v) => v,
                Err(stop) => {
                    return Err(stop);
                },
            };
            let (d, k): (Option<Expr>, usize) = match self.discriminant(depth, j) {
                Ok(v) => v,
                Err(stop) => {
                    return Err(stop);
                },
            };
            return Ok((VariantDecl { name: self.word(i), payload: ps, discriminant: d, span: self.span_of(i, k) }, k));
        }
        let (d, k): (Option<Expr>, usize) = match self.discriminant(depth, i + 1) {
            Ok(v) => v,
            Err(stop) => {
                return Err(stop);
            },
        };
        Ok((VariantDecl { name: self.word(i), payload: Vec::new(), discriminant: d, span: self.span_of(i, k) }, k))
    }

    /// The value of a variant, where it has one.
    pub fn discriminant(&self, depth: usize, i: usize) -> (r: Result<(Option<Expr>, usize), usize>)
        requires
            self.wf(),
            i <= self@.len(),
        ensures
            results::result_option_expr(r) == grammar_items::discriminant(rules::rules(depth as nat), self@, i as int),
            r is Ok ==> i <= r->Ok_0.1 <= self@.len(),
    {
        reveal(grammar_items::discriminant);
        if self.tk(i) == Token::Eq {
            let (e, j): (Expr, usize) = match self.expr(depth, i + 1) {
                Ok(v) => v,
                Err(stop) => {
                    return Err(stop);
                },
            };
            return Ok((Some(e), j));
        }
        Ok((None, i))
    }

    /// The variants of an enum.
    pub fn variants(&self, depth: usize, first: Vec<VariantDecl>, from: usize) -> (r: Result<(Vec<VariantDecl>, usize), usize>)
        requires
            self.wf(),
            from <= self@.len(),
        ensures
            results::result_vec_variantdecl(r) == grammar_items::variants(rules::rules(depth as nat), self@, ast::variants_of(first@), from as int),
            r is Ok ==> from <= r->Ok_0.1 <= self@.len(),
        decreases depth, self@.len() - from, 2int,
    {
        let ghost x = self@;
        let ghost whole = grammar_items::variants(rules::rules(depth as nat), x, ast::variants_of(first@), from as int);
        let mut acc = first;
        let mut i: usize = from;
        loop
            invariant
                self.wf(),
                x == self@,
                from <= i <= x.len(),
                whole == grammar_items::variants(rules::rules(depth as nat), x, ast::variants_of(first@), from as int),
                grammar_items::variants(rules::rules(depth as nat), x, ast::variants_of(acc@), i as int) == whole,
            decreases x.len() - i,
        {
            reveal(grammar_items::variants);
            let k: usize = self.skip_seps(i);
            if self.tk(k) == Token::End {
                return Ok((acc, k + 1));
            }
            let (a, j): (VariantDecl, usize) = match self.variant(depth, k) {
                Ok(v) => v,
                Err(stop) => {
                    return Err(stop);
                },
            };
            if self.sep(j) || self.tk(j) == Token::End {
                acc.push(a);
                i = j;
                continue;
            }
            return Err(j);
        }
    }

    /// An enum.
    pub fn enum_decl(&self, depth: usize, i: usize) -> (r: Result<(EnumDecl, usize), usize>)
        requires
            self.wf(),
            i <= self@.len(),
        ensures
            results::result_enumdecl(r) == grammar_items::enum_decl(rules::rules(depth as nat), self@, i as int),
            r is Ok ==> i < r->Ok_0.1 <= self@.len(),
    {
        reveal(grammar_items::enum_decl);
        if self.tk(i) != Token::Enum {
            return Err(i);
        }
        if !self.named(i + 1) {
            return Err(i + 1);
        }
        let (gs, j): (Vec<GenericParam>, usize) = match self.generics(depth, i + 2) {
            Ok(v) => v,
            Err(stop) => {
                return Err(stop);
            },
        };
        let (w, k): (Option<WhereClause>, usize) = match self.where_clause(depth, j) {
            Ok(v) => v,
            Err(stop) => {
                return Err(stop);
            },
        };
        if self.tk(k) != Token::Has {
            return Err(k);
        }
        let (vs, e): (Vec<VariantDecl>, usize) = match self.variants(depth, Vec::new(), k + 1) {
            Ok(v) => v,
            Err(stop) => {
                return Err(stop);
            },
        };
        Ok((EnumDecl { name: self.word(i + 1), name_span: self.span_of(i + 1, i + 2), generic_params: gs, where_clause: w, variants: vs, span: self.span_of(i, e) }, e))
    }

    /// A method that a trait asks for.
    pub fn trait_method(&self, depth: usize, i: usize) -> (r: Result<(TraitMethod, usize), usize>)
        requires
            self.wf(),
            i <= self@.len(),
        ensures
            results::result_traitmethod(r) == grammar_items::trait_method(rules::rules(depth as nat), self@, i as int),
            r is Ok ==> i < r->Ok_0.1 <= self@.len(),
    {
        reveal(grammar_items::trait_method);
        let a: usize = self.after_word(Token::Sealed, i);
        let (t, j): (Type, usize) = match self.ty(depth, true, a) {
            Ok(v) => v,
            Err(stop) => {
                return Err(stop);
            },
        };
        if !self.named(j) {
            return Err(j);
        }
        if self.tk_after(j, 1) != Token::LParen {
            return Err(j + 1);
        }
        let (ps, k): (Vec<Param>, usize) = match self.params(depth, Token::RParen, Vec::new(), j + 2) {
            Ok(v) => v,
            Err(stop) => {
                return Err(stop);
            },
        };
        let (w, e): (Option<WhereClause>, usize) = match self.where_clause(depth, k) {
            Ok(v) => v,
            Err(stop) => {
                return Err(stop);
            },
        };
        Ok((TraitMethod { is_sealed: a > i, ret_ty: t, name: self.word(j), params: ps, where_clause: w, span: self.span_of(i, e) }, e))
    }

    /// The methods of a trait.
    pub fn trait_methods(&self, depth: usize, first: Vec<TraitMethod>, from: usize) -> (r: Result<(Vec<TraitMethod>, usize), usize>)
        requires
            self.wf(),
            from <= self@.len(),
        ensures
            results::result_vec_traitmethod(r) == grammar_items::trait_methods(rules::rules(depth as nat), self@, ast::trait_methods_of(first@), from as int),
            r is Ok ==> from <= r->Ok_0.1 <= self@.len(),
        decreases depth, self@.len() - from, 2int,
    {
        let ghost x = self@;
        let ghost whole = grammar_items::trait_methods(rules::rules(depth as nat), x, ast::trait_methods_of(first@), from as int);
        let mut acc = first;
        let mut i: usize = from;
        loop
            invariant
                self.wf(),
                x == self@,
                from <= i <= x.len(),
                whole == grammar_items::trait_methods(rules::rules(depth as nat), x, ast::trait_methods_of(first@), from as int),
                grammar_items::trait_methods(rules::rules(depth as nat), x, ast::trait_methods_of(acc@), i as int) == whole,
            decreases x.len() - i,
        {
            reveal(grammar_items::trait_methods);
            let k: usize = self.skip_terms(i);
            if self.tk(k) == Token::End {
                return Ok((acc, k + 1));
            }
            let (a, j): (TraitMethod, usize) = match self.trait_method(depth, k) {
                Ok(v) => v,
                Err(stop) => {
                    return Err(stop);
                },
            };
            if self.term(j) || self.tk(j) == Token::End {
                acc.push(a);
                i = j;
                continue;
            }
            return Err(j);
        }
    }

    /// A trait.
    pub fn trait_decl(&self, depth: usize, i: usize) -> (r: Result<(TraitDecl, usize), usize>)
        requires
            self.wf(),
            i <= self@.len(),
        ensures
            results::result_traitdecl(r) == grammar_items::trait_decl(rules::rules(depth as nat), self@, i as int),
            r is Ok ==> i < r->Ok_0.1 <= self@.len(),
    {
        reveal(grammar_items::trait_decl);
        if self.tk(i) != Token::Trait {
            return Err(i);
        }
        if !self.named(i + 1) {
            return Err(i + 1);
        }
        let (gs, j): (Vec<GenericParam>, usize) = match self.generics(depth, i + 2) {
            Ok(v) => v,
            Err(stop) => {
                return Err(stop);
            },
        };
        let (w, k): (Option<WhereClause>, usize) = match self.where_clause(depth, j) {
            Ok(v) => v,
            Err(stop) => {
                return Err(stop);
            },
        };
        if self.tk(k) != Token::Has {
            return Err(k);
        }
        let (ms, e): (Vec<TraitMethod>, usize) = match self.trait_methods(depth, Vec::new(), k + 1) {
            Ok(v) => v,
            Err(stop) => {
                return Err(stop);
            },
        };
        Ok((TraitDecl { name: self.word(i + 1), generic_params: gs, where_clause: w, methods: ms, span: self.span_of(i, e) }, e))
    }

    /// A destructor that starts at `s`.
    pub fn destructor(&self, depth: usize, v: Visibility, s: usize, i: usize) -> (r: Result<(DestructorDecl, usize), usize>)
        requires
            self.wf(),
            i <= self@.len(),
            s <= i,
        ensures
            results::result_destructordecl(r) == grammar_items::destructor(rules::rules(depth as nat), self@, v, s as int, i as int),
            r is Ok ==> i < r->Ok_0.1 <= self@.len(),
    {
        reveal(grammar_items::destructor);
        if self.tk(i) != Token::Tilde {
            return Err(i);
        }
        if !self.named(i + 1) {
            return Err(i + 1);
        }
        if self.tk_after(i, 2) != Token::LParen {
            return Err(i + 2);
        }
        if self.tk_after(i, 3) != Token::RParen {
            return Err(i + 3);
        }
        if self.tk_after(i, 4) != Token::Do {
            return Err(i + 4);
        }
        let (b, k): (Block, usize) = match self.block(depth, i + 4, i + 5) {
            Ok(v) => v,
            Err(stop) => {
                return Err(stop);
            },
        };
        Ok((DestructorDecl { visibility: v, name: self.word(i + 1), body: b, span: self.span_of(s, k) }, k))
    }

    /// A constructor that starts at `s`.
    pub fn constructor(&self, depth: usize, v: Visibility, s: usize, i: usize) -> (r: Result<(ConstructorDecl, usize), usize>)
        requires
            self.wf(),
            i <= self@.len(),
            s <= i,
        ensures
            results::result_constructordecl(r) == grammar_items::constructor(rules::rules(depth as nat), self@, v, s as int, i as int),
            r is Ok ==> i < r->Ok_0.1 <= self@.len(),
    {
        reveal(grammar_items::constructor);
        if !self.named(i) {
            return Err(i);
        }
        if self.tk_after(i, 1) != Token::LParen {
            return Err(i + 1);
        }
        let (ps, j): (Vec<Param>, usize) = match self.params(depth, Token::RParen, Vec::new(), i + 2) {
            Ok(v) => v,
            Err(stop) => {
                return Err(stop);
            },
        };
        if self.tk(j) != Token::Initialize {
            return Err(j);
        }
        if self.tk_after(j, 1) == Token::Do {
            let (b, k): (Block, usize) = match self.block(depth, j + 1, j + 2) {
                Ok(v) => v,
                Err(stop) => {
                    return Err(stop);
                },
            };
            return Ok((ConstructorDecl { visibility: v, name: self.word(i), params: ps, body: Some(b), span: self.span_of(s, k) }, k));
        }
        Ok((ConstructorDecl { visibility: v, name: self.word(i), params: ps, body: None, span: self.span_of(s, j + 1) }, j + 1))
    }

    /// An operator that starts at `s`.
    pub fn operator(&self, depth: usize, v: Visibility, s: usize, i: usize) -> (r: Result<(OperatorDecl, usize), usize>)
        requires
            self.wf(),
            i <= self@.len(),
            s <= i,
        ensures
            results::result_operatordecl(r) == grammar_items::operator(rules::rules(depth as nat), self@, v, s as int, i as int),
            r is Ok ==> i < r->Ok_0.1 <= self@.len(),
    {
        reveal(grammar_items::operator);
        let a: usize = self.after_word(Token::Static, i);
        if self.tk(a) != Token::Operator {
            return Err(a);
        }
        let k: usize = self.after_symbol(a + 1);
        if self.tk(k) != Token::LParen {
            return Err(k);
        }
        let (ps, p): (Vec<Param>, usize) = match self.params(depth, Token::RParen, Vec::new(), k + 1) {
            Ok(v) => v,
            Err(stop) => {
                return Err(stop);
            },
        };
        let (w, d): (Option<WhereClause>, usize) = match self.where_clause(depth, p) {
            Ok(v) => v,
            Err(stop) => {
                return Err(stop);
            },
        };
        if self.tk(d) != Token::Do {
            return Err(d);
        }
        let (b, e): (Block, usize) = match self.block(depth, d, d + 1) {
            Ok(v) => v,
            Err(stop) => {
                return Err(stop);
            },
        };
        Ok((OperatorDecl { visibility: v, is_static: a > i, op: self.symbol(a + 1, k), params: ps, where_clause: w, body: b, span: self.span_of(s, e) }, e))
    }

    /// A conversion that starts at `s`.
    pub fn conversion(&self, depth: usize, v: Visibility, s: usize, i: usize) -> (r: Result<(ConversionDecl, usize), usize>)
        requires
            self.wf(),
            i <= self@.len(),
            s <= i,
        ensures
            results::result_conversiondecl(r) == grammar_items::conversion(rules::rules(depth as nat), self@, v, s as int, i as int),
            r is Ok ==> i < r->Ok_0.1 <= self@.len(),
    {
        reveal(grammar_items::conversion);
        let a: usize = self.after_word(Token::Explicit, i);
        if self.tk(a) != Token::Convert {
            return Err(a);
        }
        let (f, j): (Type, usize) = match self.ty(depth, true, a + 1) {
            Ok(v) => v,
            Err(stop) => {
                return Err(stop);
            },
        };
        if self.tk(j) != Token::To {
            return Err(j);
        }
        let (t, k): (Type, usize) = match self.ty(depth, true, j + 1) {
            Ok(v) => v,
            Err(stop) => {
                return Err(stop);
            },
        };
        if self.tk(k) != Token::Do {
            return Err(k);
        }
        let (b, e): (Block, usize) = match self.block(depth, k, k + 1) {
            Ok(v) => v,
            Err(stop) => {
                return Err(stop);
            },
        };
        Ok((ConversionDecl { visibility: v, is_explicit: a > i, from_ty: f, to_ty: t, body: b, span: self.span_of(s, e) }, e))
    }

    /// A property from its name on; it starts at `s`.
    pub fn property(&self, depth: usize, v: Visibility, s: usize, t: Option<Type>, i: usize) -> (r: Result<(PropertyDecl, usize), usize>)
        requires
            self.wf(),
            i <= self@.len(),
            s <= i,
        ensures
            results::result_propertydecl(r) == grammar_items::property(rules::rules(depth as nat), self@, v, s as int, results::option_type(t), i as int),
            r is Ok ==> i < r->Ok_0.1 <= self@.len(),
    {
        reveal(grammar_items::property);
        if !self.named(i) {
            return Err(i);
        }
        if self.tk_after(i, 1) == Token::GetKw {
            if self.tk_after(i, 2) != Token::Do {
                return Err(i + 2);
            }
            let (g, k): (Block, usize) = match self.block(depth, i + 2, i + 3) {
                Ok(v) => v,
                Err(stop) => {
                    return Err(stop);
                },
            };
            let p: usize = self.skip_newlines(k);
            if self.tk(p) == Token::SetKw && self.tk_after(p, 1) == Token::LParen {
                let (st, e): (Setter, usize) = match self.setter(depth, p) {
                    Ok(v) => v,
                    Err(stop) => {
                        return Err(stop);
                    },
                };
                return Ok((PropertyDecl { visibility: v, ty: t, name: self.word(i), getter: Some(g), setter: Some(st), span: self.span_of(s, e) }, e));
            }
            return Ok((PropertyDecl { visibility: v, ty: t, name: self.word(i), getter: Some(g), setter: None, span: self.span_of(s, k) }, k));
        }
        if self.tk_after(i, 1) != Token::SetKw {
            return Err(i + 1);
        }
        let (st, e): (Setter, usize) = match self.setter(depth, i + 1) {
            Ok(v) => v,
            Err(stop) => {
                return Err(stop);
            },
        };
        Ok((PropertyDecl { visibility: v, ty: t, name: self.word(i), getter: None, setter: Some(st), span: self.span_of(s, e) }, e))
    }

    /// The setter of a property.
    pub fn setter(&self, depth: usize, i: usize) -> (r: Result<(Setter, usize), usize>)
        requires
            self.wf(),
            i <= self@.len(),
        ensures
            results::result_setter(r) == grammar_items::setter(rules::rules(depth as nat), self@, i as int),
            r is Ok ==> i < r->Ok_0.1 <= self@.len(),
    {
        reveal(grammar_items::setter);
        if self.tk(i) != Token::SetKw {
            return Err(i);
        }
        if self.tk_after(i, 1) != Token::LParen {
            return Err(i);
        }
        let (p, j): (Param, usize) = match self.param(depth, i + 2) {
            Ok(v) => v,
            Err(stop) => {
                return Err(stop);
            },
        };
        if self.tk(j) != Token::RParen {
            return Err(j);
        }
        if self.tk_after(j, 1) != Token::Do {
            return Err(j + 1);
        }
        let (b, k): (Block, usize) = match self.block(depth, j + 1, j + 2) {
            Ok(v) => v,
            Err(stop) => {
                return Err(stop);
            },
        };
        Ok((Setter { param: p, body: b }, k))
    }

    /// The class with one more member, which starts at `s`.
    pub fn member(&self, depth: usize, acc: ClassDecl, v: Visibility, s: usize, i: usize) -> (r: Result<(ClassDecl, usize), usize>)
        requires
            self.wf(),
            i <= self@.len(),
            s <= i,
        ensures
            results::result_classdecl(r) == grammar_items::member(rules::rules(depth as nat), self@, acc.tree(), v, s as int, i as int),
            r is Ok ==> i < r->Ok_0.1 <= self@.len(),
    {
        reveal(grammar_items::member);
        if self.tk(i) == Token::Tilde {
            let (m, j): (DestructorDecl, usize) = match self.destructor(depth, v, s, i) {
                Ok(v) => v,
                Err(stop) => {
                    return Err(stop);
                },
            };
            let mut c = acc;
            c.destructors.push(m);
            return Ok((c, j));
        }
        if self.is_conversion(i) {
            let (m, j): (ConversionDecl, usize) = match self.conversion(depth, v, s, i) {
                Ok(v) => v,
                Err(stop) => {
                    return Err(stop);
                },
            };
            let mut c = acc;
            c.conversions.push(m);
            return Ok((c, j));
        }
        if self.tk(i) == Token::Operator || (self.tk(i) == Token::Static && self.tk_after(i, 1) == Token::Operator) {
            let (m, j): (OperatorDecl, usize) = match self.operator(depth, v, s, i) {
                Ok(v) => v,
                Err(stop) => {
                    return Err(stop);
                },
            };
            let mut c = acc;
            c.operators.push(m);
            return Ok((c, j));
        }
        if self.is_constructor(&acc, i) {
            let (m, j): (ConstructorDecl, usize) = match self.constructor(depth, v, s, i) {
                Ok(v) => v,
                Err(stop) => {
                    return Err(stop);
                },
            };
            let mut c = acc;
            c.constructors.push(m);
            return Ok((c, j));
        }
        if self.is_property(i) {
            let (m, j): (PropertyDecl, usize) = match self.property(depth, v, s, None, i) {
                Ok(v) => v,
                Err(stop) => {
                    return Err(stop);
                },
            };
            let mut c = acc;
            c.properties.push(m);
            return Ok((c, j));
        }
        let (c, j): (ClassDecl, usize) = match self.typed_member(depth, acc, v, s, i) {
            Ok(v) => v,
            Err(stop) => {
                return Err(stop);
            },
        };
        Ok((c, j))
    }

    /// The class with one more property, field or method, which starts at `s`.
    pub fn typed_member(&self, depth: usize, acc: ClassDecl, v: Visibility, s: usize, i: usize) -> (r: Result<(ClassDecl, usize), usize>)
        requires
            self.wf(),
            i <= self@.len(),
            s <= i,
        ensures
            results::result_classdecl(r) == grammar_items::typed_member(rules::rules(depth as nat), self@, acc.tree(), v, s as int, i as int),
            r is Ok ==> i < r->Ok_0.1 <= self@.len(),
    {
        reveal(grammar_items::typed_member);
        if let Ok((t, p)) = self.ty(depth, true, i) {
            if self.is_property(p) {
                let (m, j): (PropertyDecl, usize) = match self.property(depth, v, s, Some(t), p) {
                    Ok(v) => v,
                    Err(stop) => {
                        return Err(stop);
                    },
                };
                let mut c = acc;
                c.properties.push(m);
                return Ok((c, j));
            }
        }
        if let Ok((t, p)) = self.ty(depth, true, i) {
            if self.named(p) && self.tk_after(p, 1) != Token::LParen && self.tk_after(p, 1) != Token::Lt {
                let (m, j): (StructField, usize) = match self.field_rest(depth, v, s, t, p) {
                    Ok(v) => v,
                    Err(stop) => {
                        return Err(stop);
                    },
                };
                let mut c = acc;
                c.fields.push(m);
                return Ok((c, j));
            }
        }
        let (m, j): (Function, usize) = match self.function(depth, v, s, i) {
            Ok(v) => v,
            Err(stop) => {
                return Err(stop);
            },
        };
        let mut c = acc;
        c.methods.push(m);
        Ok((c, j))
    }

    /// The members of a class up to its `end`.
    pub fn members(&self, depth: usize, first: ClassDecl, from: usize) -> (r: Result<(ClassDecl, usize), usize>)
        requires
            self.wf(),
            from <= self@.len(),
        ensures
            results::result_classdecl(r) == grammar_items::members(rules::rules(depth as nat), self@, first.tree(), from as int),
            r is Ok ==> from <= r->Ok_0.1 <= self@.len(),
        decreases depth, self@.len() - from, 1int,
    {
        let ghost x = self@;
        let ghost whole = grammar_items::members(rules::rules(depth as nat), x, first.tree(), from as int);
        let mut acc = first;
        let mut i: usize = from;
        loop
            invariant
                self.wf(),
                x == self@,
                from <= i <= x.len(),
                whole == grammar_items::members(rules::rules(depth as nat), x, first.tree(), from as int),
                grammar_items::members(rules::rules(depth as nat), x, acc.tree(), i as int) == whole,
            decreases x.len() - i,
        {
            reveal(grammar_items::members);
            let k: usize = self.skip_terms(i);
            if self.tk(k) == Token::End {
                return Ok((self.finished(acc, k + 1), k + 1));
            }
            let (v, a): (Visibility, usize) = match self.visibility(k) {
                Ok(v) => v,
                Err(stop) => {
                    return Err(stop);
                },
            };
            let (c, j): (ClassDecl, usize) = match self.member(depth, acc, v, k, a) {
                Ok(v) => v,
                Err(stop) => {
                    return Err(stop);
                },
            };
            acc = c;
            i = j;
            continue;
        }
    }

    /// A class.
    pub fn class_decl(&self, depth: usize, i: usize) -> (r: Result<(ClassDecl, usize), usize>)
        requires
            self.wf(),
            i <= self@.len(),
        ensures
            results::result_classdecl(r) == grammar_items::class_decl(rules::rules(depth as nat), self@, i as int),
            r is Ok ==> i < r->Ok_0.1 <= self@.len(),
    {
        reveal(grammar_items::class_decl);
        let a: usize = self.after_word(Token::Open, i);
        let b: usize = self.after_word(Token::Sealed, a);
        if self.tk(b) != Token::Class {
            return Err(b);
        }
        if !self.named(b + 1) {
            return Err(b + 1);
        }
        let (gs, j): (Vec<GenericParam>, usize) = match self.generics(depth, b + 2) {
            Ok(v) => v,
            Err(stop) => {
                return Err(stop);
            },
        };
        let (w, k): (Option<WhereClause>, usize) = match self.where_clause(depth, j) {
            Ok(v) => v,
            Err(stop) => {
                return Err(stop);
            },
        };
        let (ex, p): (Option<Type>, usize) = match self.extends(depth, k) {
            Ok(v) => v,
            Err(stop) => {
                return Err(stop);
            },
        };
        let (im, q): (Vec<Type>, usize) = match self.implements(depth, p) {
            Ok(v) => v,
            Err(stop) => {
                return Err(stop);
            },
        };
        if self.tk(q) != Token::Has {
            return Err(q);
        }
        let (c, e): (ClassDecl, usize) = match self.members(depth, ClassDecl { is_open: a > i, is_sealed: b > a, name: self.word(b + 1), name_span: self.span_of(b + 1, b + 2), generic_params: gs, where_clause: w, extends: ex, implements: im, fields: Vec::new(), constructors: Vec::new(), destructors: Vec::new(), properties: Vec::new(), operators: Vec::new(), conversions: Vec::new(), methods: Vec::new(), span: self.span_of(i, b + 2) }, q + 1) {
            Ok(v) => v,
            Err(stop) => {
                return Err(stop);
            },
        };
        Ok((c, e))
    }

    /// The base of a class, where it has one.
    pub fn extends(&self, depth: usize, i: usize) -> (r: Result<(Option<Type>, usize), usize>)
        requires
            self.wf(),
            i <= self@.len(),
        ensures
            results::result_option_type(r) == grammar_items::extends(rules::rules(depth as nat), self@, i as int),
            r is Ok ==> i <= r->Ok_0.1 <= self@.len(),
    {
        reveal(grammar_items::extends);
        if self.tk(i) == Token::Extends {
            let (t, j): (Type, usize) = match self.ty(depth, true, i + 1) {
                Ok(v) => v,
                Err(stop) => {
                    return Err(stop);
                },
            };
            return Ok((Some(t), j));
        }
        Ok((None, i))
    }

    /// Types separated by commas.
    pub fn type_list(&self, depth: usize, first: Vec<Type>, from: usize) -> (r: Result<(Vec<Type>, usize), usize>)
        requires
            self.wf(),
            from <= self@.len(),
        ensures
            results::result_vec_type(r) == grammar_items::type_list(rules::rules(depth as nat), self@, ast::types_of(first@), from as int),
            r is Ok ==> from <= r->Ok_0.1 <= self@.len(),
        decreases depth, self@.len() - from, 1int,
    {
        let ghost x = self@;
        let ghost whole = grammar_items::type_list(rules::rules(depth as nat), x, ast::types_of(first@), from as int);
        let mut acc = first;
        let mut i: usize = from;
        loop
            invariant
                self.wf(),
                x == self@,
                from <= i <= x.len(),
                whole == grammar_items::type_list(rules::rules(depth as nat), x, ast::types_of(first@), from as int),
                grammar_items::type_list(rules::rules(depth as nat), x, ast::types_of(acc@), i as int) == whole,
            decreases x.len() - i,
        {
            reveal(grammar_items::type_list);
            let (t, j): (Type, usize) = match self.ty(depth, true, i) {
                Ok(v) => v,
                Err(stop) => {
                    return Err(stop);
                },
            };
            if self.tk(j) == Token::Comma {
                acc.push(t);
                i = j + 1;
                continue;
            }
            acc.push(t);
            return Ok((acc, j));
        }
    }

    /// The traits of a class.
    pub fn implements(&self, depth: usize, i: usize) -> (r: Result<(Vec<Type>, usize), usize>)
        requires
            self.wf(),
            i <= self@.len(),
        ensures
            results::result_vec_type(r) == grammar_items::implements(rules::rules(depth as nat), self@, i as int),
            r is Ok ==> i <= r->Ok_0.1 <= self@.len(),
    {
        reveal(grammar_items::implements);
        if self.tk(i) == Token::Implements {
            let (ts, j): (Vec<Type>, usize) = match self.type_list(depth, Vec::new(), i + 1) {
                Ok(v) => v,
                Err(stop) => {
                    return Err(stop);
                },
            };
            return Ok((ts, j));
        }
        Ok((Vec::new(), i))
    }

    /// A member of an extension.
    pub fn extension_member(&self, depth: usize, i: usize) -> (r: Result<(ExtensionMember, usize), usize>)
        requires
            self.wf(),
            i <= self@.len(),
        ensures
            results::result_extensionmember(r) == grammar_items::extension_member(rules::rules(depth as nat), self@, i as int),
            r is Ok ==> i < r->Ok_0.1 <= self@.len(),
    {
        reveal(grammar_items::extension_member);
        let (v, a): (Visibility, usize) = match self.visibility(i) {
            Ok(v) => v,
            Err(stop) => {
                return Err(stop);
            },
        };
        if self.is_conversion(a) {
            let (m, j): (ConversionDecl, usize) = match self.conversion(depth, v, i, a) {
                Ok(v) => v,
                Err(stop) => {
                    return Err(stop);
                },
            };
            return Ok((ExtensionMember::Conversion(m), j));
        }
        if self.tk(a) == Token::Operator || (self.tk(a) == Token::Static && self.tk_after(a, 1) == Token::Operator) {
            let (m, j): (OperatorDecl, usize) = match self.operator(depth, v, i, a) {
                Ok(v) => v,
                Err(stop) => {
                    return Err(stop);
                },
            };
            return Ok((ExtensionMember::Operator(m), j));
        }
        if self.is_property(a) {
            let (m, j): (PropertyDecl, usize) = match self.property(depth, v, i, None, a) {
                Ok(v) => v,
                Err(stop) => {
                    return Err(stop);
                },
            };
            return Ok((ExtensionMember::Property(m), j));
        }
        if let Ok((t, p)) = self.ty(depth, true, a) {
            if self.is_property(p) {
                let (m, j): (PropertyDecl, usize) = match self.property(depth, v, i, Some(t), p) {
                    Ok(v) => v,
                    Err(stop) => {
                        return Err(stop);
                    },
                };
                return Ok((ExtensionMember::Property(m), j));
            }
        }
        if let Ok((t, p)) = self.ty(depth, true, a) {
            if self.named(p) && self.tk_after(p, 1) != Token::LParen && self.tk_after(p, 1) != Token::Lt {
                let (m, j): (StructField, usize) = match self.field_rest(depth, v, i, t, p) {
                    Ok(v) => v,
                    Err(stop) => {
                        return Err(stop);
                    },
                };
                return Ok((ExtensionMember::Field(m), j));
            }
        }
        let (m, j): (Function, usize) = match self.function(depth, v, i, a) {
            Ok(v) => v,
            Err(stop) => {
                return Err(stop);
            },
        };
        Ok((ExtensionMember::Function(m), j))
    }

    /// The members of an extension.
    pub fn extension_members(&self, depth: usize, first: Vec<ExtensionMember>, from: usize) -> (r: Result<(Vec<ExtensionMember>, usize), usize>)
        requires
            self.wf(),
            from <= self@.len(),
        ensures
            results::result_vec_extensionmember(r) == grammar_items::extension_members(rules::rules(depth as nat), self@, ast::extension_members_of(first@), from as int),
            r is Ok ==> from <= r->Ok_0.1 <= self@.len(),
        decreases depth, self@.len() - from, 2int,
    {
        let ghost x = self@;
        let ghost whole = grammar_items::extension_members(rules::rules(depth as nat), x, ast::extension_members_of(first@), from as int);
        let mut acc = first;
        let mut i: usize = from;
        loop
            invariant
                self.wf(),
                x == self@,
                from <= i <= x.len(),
                whole == grammar_items::extension_members(rules::rules(depth as nat), x, ast::extension_members_of(first@), from as int),
                grammar_items::extension_members(rules::rules(depth as nat), x, ast::extension_members_of(acc@), i as int) == whole,
            decreases x.len() - i,
        {
            reveal(grammar_items::extension_members);
            let k: usize = self.skip_terms(i);
            if self.tk(k) == Token::End {
                return Ok((acc, k + 1));
            }
            let (a, j): (ExtensionMember, usize) = match self.extension_member(depth, k) {
                Ok(v) => v,
                Err(stop) => {
                    return Err(stop);
                },
            };
            if self.term(j) || self.tk(j) == Token::End {
                acc.push(a);
                i = j;
                continue;
            }
            return Err(j);
        }
    }

    /// An extension.
    pub fn extension(&self, depth: usize, i: usize) -> (r: Result<(ExtensionDecl, usize), usize>)
        requires
            self.wf(),
            i <= self@.len(),
        ensures
            results::result_extensiondecl(r) == grammar_items::extension(rules::rules(depth as nat), self@, i as int),
            r is Ok ==> i < r->Ok_0.1 <= self@.len(),
    {
        reveal(grammar_items::extension);
        if self.tk(i) != Token::Extend {
            return Err(i);
        }
        let (t, j): (Type, usize) = match self.ty(depth, true, i + 1) {
            Ok(v) => v,
            Err(stop) => {
                return Err(stop);
            },
        };
        if self.tk(j) != Token::Do {
            return Err(j);
        }
        let (ms, e): (Vec<ExtensionMember>, usize) = match self.extension_members(depth, Vec::new(), j + 1) {
            Ok(v) => v,
            Err(stop) => {
                return Err(stop);
            },
        };
        Ok((ExtensionDecl { ty: t, members: ms, span: self.span_of(i, e) }, e))
    }

    /// A declaration of a foreign library.
    pub fn extern_member(&self, depth: usize, i: usize) -> (r: Result<(ExternMember, usize), usize>)
        requires
            self.wf(),
            i <= self@.len(),
        ensures
            results::result_externmember(r) == grammar_items::extern_member(rules::rules(depth as nat), self@, i as int),
            r is Ok ==> i < r->Ok_0.1 <= self@.len(),
    {
        reveal(grammar_items::extern_member);
        if self.tk(i) == Token::Struct {
            if !self.named(i + 1) {
                return Err(i + 1);
            }
            if self.tk_after(i, 2) == Token::Has {
                let (fs, e): (Vec<StructField>, usize) = match self.fields(depth, Vec::new(), i + 3) {
                    Ok(v) => v,
                    Err(stop) => {
                        return Err(stop);
                    },
                };
                return Ok((ExternMember::Struct { name: self.word(i + 1), fields: fs, span: self.span_of(i, e) }, e));
            }
            return Ok((ExternMember::Struct { name: self.word(i + 1), fields: Vec::new(), span: self.span_of(i, i + 2) }, i + 2));
        }
        if self.tk(i) == Token::Enum {
            if !self.named(i + 1) {
                return Err(i + 1);
            }
            if self.tk_after(i, 2) != Token::Has {
                return Err(i + 2);
            }
            let (vs, e): (Vec<VariantDecl>, usize) = match self.variants(depth, Vec::new(), i + 3) {
                Ok(v) => v,
                Err(stop) => {
                    return Err(stop);
                },
            };
            return Ok((ExternMember::Enum { name: self.word(i + 1), variants: vs, span: self.span_of(i, e) }, e));
        }
        if self.tk(i) == Token::Const {
            let (t, j): (Type, usize) = match self.ty(depth, true, i + 1) {
                Ok(v) => v,
                Err(stop) => {
                    return Err(stop);
                },
            };
            if !self.named(j) {
                return Err(j);
            }
            return Ok((ExternMember::Const { ty: t, name: self.word(j), span: self.span_of(i, j + 1) }, j + 1));
        }
        let (t, j): (Type, usize) = match self.ty(depth, true, i) {
            Ok(v) => v,
            Err(stop) => {
                return Err(stop);
            },
        };
        if !self.named(j) {
            return Err(j);
        }
        if self.tk_after(j, 1) != Token::LParen {
            return Err(j + 1);
        }
        let (ps, e): (Vec<Param>, usize) = match self.params(depth, Token::RParen, Vec::new(), j + 2) {
            Ok(v) => v,
            Err(stop) => {
                return Err(stop);
            },
        };
        Ok((ExternMember::Function { ty: t, name: self.word(j), params: ps, span: self.span_of(i, e) }, e))
    }

    /// The declarations of a foreign library.
    pub fn extern_members(&self, depth: usize, first: Vec<ExternMember>, from: usize) -> (r: Result<(Vec<ExternMember>, usize), usize>)
        requires
            self.wf(),
            from <= self@.len(),
        ensures
            results::result_vec_externmember(r) == grammar_items::extern_members(rules::rules(depth as nat), self@, ast::extern_members_of(first@), from as int),
            r is Ok ==> from <= r->Ok_0.1 <= self@.len(),
        decreases depth, self@.len() - from, 2int,
    {
        let ghost x = self@;
        let ghost whole = grammar_items::extern_members(rules::rules(depth as nat), x, ast::extern_members_of(first@), from as int);
        let mut acc = first;
        let mut i: usize = from;
        loop
            invariant
                self.wf(),
                x == self@,
                from <= i <= x.len(),
                whole == grammar_items::extern_members(rules::rules(depth as nat), x, ast::extern_members_of(first@), from as int),
                grammar_items::extern_members(rules::rules(depth as nat), x, ast::extern_members_of(acc@), i as int) == whole,
            decreases x.len() - i,
        {
            reveal(grammar_items::extern_members);
            let k: usize = self.skip_terms(i);
            if self.tk(k) == Token::End {
                return Ok((acc, k + 1));
            }
            let (a, j): (ExternMember, usize) = match self.extern_member(depth, k) {
                Ok(v) => v,
                Err(stop) => {
                    return Err(stop);
                },
            };
            if self.term(j) || self.tk(j) == Token::End {
                acc.push(a);
                i = j;
                continue;
            }
            return Err(j);
        }
    }

    /// A block of foreign declarations.
    pub fn foreign(&self, depth: usize, i: usize) -> (r: Result<(ExternDecl, usize), usize>)
        requires
            self.wf(),
            i <= self@.len(),
        ensures
            results::result_externdecl(r) == grammar_items::foreign(rules::rules(depth as nat), self@, i as int),
            r is Ok ==> i < r->Ok_0.1 <= self@.len(),
    {
        reveal(grammar_items::foreign);
        if self.tk(i) != Token::Extern {
            return Err(i);
        }
        if self.tk_after(i, 1) != Token::StringLit {
            return Err(i + 1);
        }
        if self.tk_after(i, 2) != Token::From {
            return Err(i + 2);
        }
        if self.tk_after(i, 3) != Token::StringLit {
            return Err(i + 3);
        }
        if self.tk_after(i, 4) != Token::Do {
            return Err(i + 4);
        }
        let (ms, e): (Vec<ExternMember>, usize) = match self.extern_members(depth, Vec::new(), i + 5) {
            Ok(v) => v,
            Err(stop) => {
                return Err(stop);
            },
        };
        Ok((ExternDecl { lib: self.piece(i + 1), file: self.piece(i + 3), members: ms, span: self.span_of(i, e) }, e))
    }

    /// An item that a keyword starts.
    pub fn declaration(&self, depth: usize, i: usize) -> (r: Result<(Item, usize), usize>)
        requires
            self.wf(),
            i <= self@.len(),
        ensures
            results::result_item(r) == grammar_items::declaration(rules::rules(depth as nat), self@, i as int),
            r is Ok ==> i < r->Ok_0.1 <= self@.len(),
    {
        reveal(grammar_items::declaration);
        if self.tk(i) == Token::Import {
            let (d, j): (ImportDecl, usize) = match self.import(i) {
                Ok(v) => v,
                Err(stop) => {
                    return Err(stop);
                },
            };
            return Ok((Item::Import(d), j));
        }
        if self.tk(i) == Token::Struct {
            let (d, j): (StructDecl, usize) = match self.struct_decl(depth, i) {
                Ok(v) => v,
                Err(stop) => {
                    return Err(stop);
                },
            };
            return Ok((Item::Struct(d), j));
        }
        if self.is_class(i) {
            let (d, j): (ClassDecl, usize) = match self.class_decl(depth, i) {
                Ok(v) => v,
                Err(stop) => {
                    return Err(stop);
                },
            };
            return Ok((Item::Class(d), j));
        }
        if self.tk(i) == Token::Enum {
            let (d, j): (EnumDecl, usize) = match self.enum_decl(depth, i) {
                Ok(v) => v,
                Err(stop) => {
                    return Err(stop);
                },
            };
            return Ok((Item::Enum(d), j));
        }
        if self.tk(i) == Token::Trait {
            let (d, j): (TraitDecl, usize) = match self.trait_decl(depth, i) {
                Ok(v) => v,
                Err(stop) => {
                    return Err(stop);
                },
            };
            return Ok((Item::Trait(d), j));
        }
        if self.tk(i) == Token::Extend {
            let (d, j): (ExtensionDecl, usize) = match self.extension(depth, i) {
                Ok(v) => v,
                Err(stop) => {
                    return Err(stop);
                },
            };
            return Ok((Item::Extension(d), j));
        }
        if self.tk(i) == Token::Extern {
            let (d, j): (ExternDecl, usize) = match self.foreign(depth, i) {
                Ok(v) => v,
                Err(stop) => {
                    return Err(stop);
                },
            };
            return Ok((Item::Extern(d), j));
        }
        if self.tk(i) == Token::Init && self.tk_after(i, 1) == Token::Do {
            let (b, k): (Block, usize) = match self.block(depth, i, i + 2) {
                Ok(v) => v,
                Err(stop) => {
                    return Err(stop);
                },
            };
            return Ok((Item::Init(b), k));
        }
        Err(i)
    }

    /// An item.
    pub fn item(&self, depth: usize, i: usize) -> (r: Result<(Item, usize), usize>)
        requires
            self.wf(),
            i <= self@.len(),
        ensures
            results::result_item(r) == grammar_items::item(rules::rules(depth as nat), self@, i as int),
            r is Ok ==> i < r->Ok_0.1 <= self@.len(),
        decreases depth, self@.len() - i, 4int,
    {
        reveal(grammar_items::item);
        if self.tk(i) == Token::At {
            let (xs, j): (Vec<Attribute>, usize) = match self.attributes(depth, Vec::new(), i) {
                Ok(v) => v,
                Err(stop) => {
                    return Err(stop);
                },
            };
            if j == i {
                return Err(i);
            }
            let (it, k): (Item, usize) = match self.item(depth, j) {
                Ok(v) => v,
                Err(stop) => {
                    return Err(stop);
                },
            };
            return Ok((Item::Attributed { attrs: xs, item: Box::new(it) }, k));
        }
        if self.starts_declaration(i) {
            let (it, j): (Item, usize) = match self.declaration(depth, i) {
                Ok(v) => v,
                Err(stop) => {
                    return Err(stop);
                },
            };
            return Ok((it, j));
        }
        let (v, a): (Visibility, usize) = match self.visibility(i) {
            Ok(v) => v,
            Err(stop) => {
                return Err(stop);
            },
        };
        let (it, j): (Item, usize) = match self.value_item(depth, v, i, a) {
            Ok(v) => v,
            Err(stop) => {
                return Err(stop);
            },
        };
        Ok((it, j))
    }

    /// A constant, an alias, a variable or a function that starts at `s`.
    pub fn value_item(&self, depth: usize, v: Visibility, s: usize, i: usize) -> (r: Result<(Item, usize), usize>)
        requires
            self.wf(),
            i <= self@.len(),
            s <= i,
        ensures
            results::result_item(r) == grammar_items::value_item(rules::rules(depth as nat), self@, v, s as int, i as int),
            r is Ok ==> i < r->Ok_0.1 <= self@.len(),
    {
        reveal(grammar_items::value_item);
        if self.tk(i) == Token::Const {
            let (d, j): (ConstDecl, usize) = match self.const_decl(depth, v, s, i) {
                Ok(v) => v,
                Err(stop) => {
                    return Err(stop);
                },
            };
            return Ok((Item::Const(d), j));
        }
        if self.tk(i) == Token::Typedef {
            let (d, j): (AliasDecl, usize) = match self.alias(depth, v, s, i) {
                Ok(v) => v,
                Err(stop) => {
                    return Err(stop);
                },
            };
            return Ok((Item::Typedef(d), j));
        }
        if self.tk(i) == Token::Distinct {
            let (d, j): (AliasDecl, usize) = match self.alias(depth, v, s, i) {
                Ok(v) => v,
                Err(stop) => {
                    return Err(stop);
                },
            };
            return Ok((Item::Distinct(d), j));
        }
        if let Ok((t, p)) = self.ty(depth, true, i) {
            if self.named(p) && self.tk_after(p, 1) != Token::LParen && self.tk_after(p, 1) != Token::Lt {
                let (d, j): (VarDecl, usize) = match self.var_rest(depth, s, v, t, p) {
                    Ok(v) => v,
                    Err(stop) => {
                        return Err(stop);
                    },
                };
                return Ok((Item::Var(d), j));
            }
        }
        let (f, j): (Function, usize) = match self.function(depth, v, s, i) {
            Ok(v) => v,
            Err(stop) => {
                return Err(stop);
            },
        };
        Ok((Item::Function(f), j))
    }

    /// The items of a program.
    pub fn items(&self, depth: usize, first: Vec<Item>, from: usize) -> (r: Result<(Vec<Item>, usize), usize>)
        requires
            self.wf(),
            from <= self@.len(),
        ensures
            results::result_vec_item(r) == grammar_items::items(rules::rules(depth as nat), self@, ast::items_of(first@), from as int),
            r is Ok ==> from <= r->Ok_0.1 <= self@.len(),
        decreases depth, self@.len() - from, 1int,
    {
        let ghost x = self@;
        let ghost whole = grammar_items::items(rules::rules(depth as nat), x, ast::items_of(first@), from as int);
        let mut acc = first;
        let mut i: usize = from;
        loop
            invariant
                self.wf(),
                x == self@,
                from <= i <= x.len(),
                whole == grammar_items::items(rules::rules(depth as nat), x, ast::items_of(first@), from as int),
                grammar_items::items(rules::rules(depth as nat), x, ast::items_of(acc@), i as int) == whole,
            decreases x.len() - i,
        {
            reveal(grammar_items::items);
            let k: usize = self.skip_terms(i);
            if self.tk(k) == Token::Eof {
                return Ok((acc, k));
            }
            let (it, j): (Item, usize) = match self.item(depth, k) {
                Ok(v) => v,
                Err(stop) => {
                    return Err(stop);
                },
            };
            if self.term(j) || self.tk(j) == Token::Eof {
                acc.push(it);
                i = j;
                continue;
            }
            return Err(j);
        }
    }
}

} // verus!
