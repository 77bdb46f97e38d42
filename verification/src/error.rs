//! Diagnostics: a message, and the place in a named source that it speaks of.
use vstd::prelude::*;
use crate::text;
use crate::token::Span;

verus! {

/// A source text with the name of its file.
#[derive(Debug, Clone)]
pub struct NamedText {
    pub name: String,
    pub text: String,
}

/// A stretch of a source, in bytes.
#[derive(Debug, Clone, Copy, PartialEq, Eq, Structural)]
pub struct SourceSpan {
    pub offset: usize,
    pub length: usize,
}

/// A named text as a mathematical value.
pub struct Named {
    pub name: Seq<char>,
    pub text: Seq<char>,
}

impl View for NamedText {
    type V = Named;

    open spec fn view(&self) -> Named {
        Named { name: self.name@, text: self.text@ }
    }
}

impl NamedText {
    pub fn new(name: String, text: String) -> (r: NamedText)
        ensures
            r@ == (Named { name: name@, text: text@ }),
    {
        NamedText { name, text }
    }
}

/// The stretch that a span covers; a span that ends before it starts covers nothing.
pub open spec fn stretch(span: Span) -> SourceSpan {
    SourceSpan {
        offset: span.start,
        length: if span.start <= span.end {
            (span.end - span.start) as usize
        } else {
            0
        },
    }
}

impl Span {
    pub fn to_source_span(&self) -> (r: SourceSpan)
        ensures
            r == stretch(*self),
    {
        SourceSpan {
            offset: self.start,
            length: if self.start <= self.end {
                self.end - self.start
            } else {
                0
            },
        }
    }
}

/// Spans with texts, as mathematical values.
pub open spec fn marks_of(v: Seq<(Span, String)>) -> Seq<(Span, Seq<char>)> {
    Seq::new(v.len(), |i: int| (v[i].0, v[i].1@))
}

// ── Lexing ──────────────────────────────────────────────────────────────────

/// An unknown token in its source.
#[derive(Debug, Clone)]
pub struct LexDiagnostic {
    pub src: NamedText,
    pub span: SourceSpan,
    pub slice: String,
}

/// A place in a named source, and a text about it.
pub struct Mark {
    pub src: Named,
    pub span: SourceSpan,
    pub text: Seq<char>,
}

impl View for LexDiagnostic {
    type V = Mark;

    open spec fn view(&self) -> Mark {
        Mark { src: self.src@, span: self.span, text: self.slice@ }
    }
}

/// Marks in one source.
pub open spec fn marks_in(src: Named, v: Seq<(Span, Seq<char>)>) -> Seq<Mark> {
    Seq::new(v.len(), |i: int| Mark { src, span: stretch(v[i].0), text: v[i].1 })
}

impl LexDiagnostic {
    pub fn new(filename: String, source: String, span: Span, slice: String) -> (r: LexDiagnostic)
        ensures
            r@ == (Mark {
                src: Named { name: filename@, text: source@ },
                span: stretch(span),
                text: slice@,
            }),
    {
        LexDiagnostic { src: NamedText::new(filename, source), span: span.to_source_span(), slice }
    }

    /// The diagnostic in one sentence.
    pub fn message(&self) -> (r: String)
        ensures
            r@ == "unexpected token `"@ + self@.text + "`"@,
    {
        let mut out = text::chars_of("unexpected token `");
        text::push_str(&mut out, self.slice.as_str());
        text::push_str(&mut out, "`");
        text::to_text(&out)
    }
}

/// All unknown tokens of a source.
#[derive(Debug, Clone)]
pub struct MultiLexError {
    pub src: NamedText,
    pub errors: Vec<LexDiagnostic>,
}

pub open spec fn lex_marks(v: Seq<LexDiagnostic>) -> Seq<Mark> {
    Seq::new(v.len(), |i: int| v[i]@)
}

impl MultiLexError {
    pub fn from_parts(filename: String, source: String, errors: Vec<(Span, String)>) -> (r: MultiLexError)
        ensures
            r.src@ == (Named { name: filename@, text: source@ }),
            lex_marks(r.errors@) == marks_in(r.src@, marks_of(errors@)),
    {
        let ghost src = Named { name: filename@, text: source@ };
        let mut list: Vec<LexDiagnostic> = Vec::new();
        let mut i: usize = 0;
        while i < errors.len()
            invariant
                i <= errors.len(),
                list@.len() == i,
                src == (Named { name: filename@, text: source@ }),
                forall|k: int|
                    0 <= k < i ==> (#[trigger] list@[k])@ == marks_in(src, marks_of(errors@))[k],
            decreases errors.len() - i,
        {
            let e = LexDiagnostic::new(
                filename.as_str().to_owned(),
                source.as_str().to_owned(),
                errors[i].0,
                errors[i].1.as_str().to_owned(),
            );
            list.push(e);
            i = i + 1;
        }
        assert(lex_marks(list@) =~= marks_in(src, marks_of(errors@)));
        MultiLexError { src: NamedText::new(filename, source), errors: list }
    }

    /// The error in one sentence.
    pub fn message(&self) -> (r: String)
        ensures
            r@ == "lexing failed with "@ + text::decimal(self.errors@.len()) + " error(s)"@,
    {
        let mut out = text::chars_of("lexing failed with ");
        text::push_decimal(&mut out, self.errors.len() as u64);
        text::push_str(&mut out, " error(s)");
        text::to_text(&out)
    }
}

// ── Parsing, checking, code generation ──────────────────────────────────────

/// A message about a place in its source.
#[derive(Debug, Clone)]
pub struct SingleDiagnostic {
    pub src: NamedText,
    pub span: SourceSpan,
    pub message: String,
}

impl View for SingleDiagnostic {
    type V = Mark;

    open spec fn view(&self) -> Mark {
        Mark { src: self.src@, span: self.span, text: self.message@ }
    }
}

impl SingleDiagnostic {
    pub fn new(filename: String, source: String, span: Span, message: String) -> (r: SingleDiagnostic)
        ensures
            r@ == (Mark {
                src: Named { name: filename@, text: source@ },
                span: stretch(span),
                text: message@,
            }),
    {
        SingleDiagnostic { src: NamedText::new(filename, source), span: span.to_source_span(), message }
    }
}

/// Several messages about one source.
#[derive(Debug, Clone)]
pub struct MultiDiagnostic {
    pub src: NamedText,
    pub errors: Vec<SingleDiagnostic>,
    pub message: String,
}

pub open spec fn single_marks(v: Seq<SingleDiagnostic>) -> Seq<Mark> {
    Seq::new(v.len(), |i: int| v[i]@)
}

impl MultiDiagnostic {
    pub fn from_errors(filename: String, source: String, errs: Vec<(Span, String)>, message: String) -> (r:
        MultiDiagnostic)
        ensures
            r.src@ == (Named { name: filename@, text: source@ }),
            single_marks(r.errors@) == marks_in(r.src@, marks_of(errs@)),
            r.message == message,
    {
        let ghost src = Named { name: filename@, text: source@ };
        let mut list: Vec<SingleDiagnostic> = Vec::new();
        let mut i: usize = 0;
        while i < errs.len()
            invariant
                i <= errs.len(),
                list@.len() == i,
                src == (Named { name: filename@, text: source@ }),
                forall|k: int|
                    0 <= k < i ==> (#[trigger] list@[k])@ == marks_in(src, marks_of(errs@))[k],
            decreases errs.len() - i,
        {
            let e = SingleDiagnostic::new(
                filename.as_str().to_owned(),
                source.as_str().to_owned(),
                errs[i].0,
                errs[i].1.as_str().to_owned(),
            );
            list.push(e);
            i = i + 1;
        }
        assert(single_marks(list@) =~= marks_in(src, marks_of(errs@)));
        MultiDiagnostic { src: NamedText::new(filename, source), errors: list, message }
    }
}

} // verus!
