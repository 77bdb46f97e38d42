//! Parsing of whole programs.
use vstd::prelude::*;
use crate::ast;
use crate::ast::{Item, Program};
use crate::lexer;
use crate::parse::grammar_items;
use crate::parse::input;
use crate::parse::input::{Input, Parser};
use crate::parse::rules;
use crate::source::Source;
use crate::text;
use crate::token::{Span, SpannedToken, Token};
use crate::tree;

verus! {

/// A program that could not be read.
#[derive(Debug, Clone)]
pub struct ParseError {
    pub message: String,
    pub span: Span,
}

/// A message about a source, and the place that it speaks of.
pub struct Fault {
    pub message: Seq<char>,
    pub span: Span,
}

impl View for ParseError {
    type V = Fault;

    open spec fn view(&self) -> Fault {
        Fault { message: self.message@, span: self.span }
    }
}

/// The program that the tokens of `x` spell, or the token that does not fit.
///
/// No construct is nested deeper than there are tokens.
pub open spec fn program_of(x: Input) -> Result<tree::Program, int> {
    match grammar_items::items(rules::rules(x.len() as nat), x, seq![], 0) {
        Ok((items, _)) => Ok(
            tree::Program {
                items,
                span: Span { start: 0, end: text::byte_len(x.src) as usize },
            },
        ),
        Err(stop) => Err(stop),
    }
}

/// What is wrong with token `stop`.
pub open spec fn fault_at(x: Input, stop: int) -> Fault {
    if 0 <= stop < x.len() {
        Fault {
            message: if x.toks[stop].token == Token::Newline {
                "unexpected end of line"@
            } else {
                "unexpected token `"@ + input::word(x, stop) + "`"@
            },
            span: x.toks[stop].span,
        }
    } else {
        Fault {
            message: "unexpected end of file"@,
            span: Span {
                start: text::byte_len(x.src) as usize,
                end: text::byte_len(x.src) as usize,
            },
        }
    }
}

/// The program that the tokens of `x` spell, or what is wrong with them.
pub open spec fn parsed(x: Input) -> Result<tree::Program, Fault> {
    match program_of(x) {
        Ok(p) => Ok(p),
        Err(stop) => Err(fault_at(x, stop)),
    }
}

/// The tokens of a source with the source itself.
pub open spec fn input_of(src: Seq<char>) -> Input {
    Input { toks: lexer::lexed(src).tokens, src }
}

pub open spec fn program_view(r: Result<Program, ParseError>) -> Result<tree::Program, Fault> {
    match r {
        Ok(p) => Ok(p.tree()),
        Err(e) => Err(e@),
    }
}

/// Reads a program from the tokens of `source`.
pub fn parse(tokens: Vec<SpannedToken>, source: &Source) -> (r: Result<Program, ParseError>)
    requires
        source.wf(),
    ensures
        program_view(r) == parsed(Input { toks: tokens@, src: source@ }),
{
    let parser = Parser { source, tokens };
    let ghost x = parser@;
    let size: usize = source.size();
    assert(ast::items_of(Seq::<Item>::empty()) =~= Seq::<tree::Item>::empty());
    match parser.items(parser.tokens.len(), Vec::new(), 0) {
        Ok((items, _)) => Ok(Program { items, span: Span::new(0, size) }),
        Err(stop) => {
            if stop < parser.tokens.len() {
                let span = parser.tokens[stop].span;
                if parser.tokens[stop].token == Token::Newline {
                    return Err(ParseError { message: "unexpected end of line".to_owned(), span });
                }
                let mut out: Vec<char> = Vec::new();
                text::push_str(&mut out, "unexpected token `");
                text::push_str(&mut out, parser.word(stop).as_str());
                text::push_str(&mut out, "`");
                assert(out@ =~= "unexpected token `"@ + input::word(x, stop as int) + "`"@);
                Err(ParseError { message: text::to_text(&out), span })
            } else {
                Err(ParseError { message: "unexpected end of file".to_owned(), span: Span::new(size, size) })
            }
        },
    }
}

} // verus!
