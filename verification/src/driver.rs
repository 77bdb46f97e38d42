//! What the commands decide between reading files and writing results.
use vstd::prelude::*;
use crate::ast;
use crate::ast::{Item, Program};
use crate::error;
use crate::error::{MultiDiagnostic, SingleDiagnostic};
use crate::lexer;
use crate::lexer::{LexError, lex_source};
use crate::modules::ImportError;
use crate::parse::program;
use crate::parse::program::parse;
use crate::source::Source;
use crate::text;
use crate::text::chars_of;
use crate::token::Span;
use crate::tree;

verus! {

broadcast use ast::group_lists;

// ── Reading a program ───────────────────────────────────────────────────────

/// What reading a source gives.
pub enum FrontEnd {
    /// No token at all.
    Empty,
    /// Unknown tokens.
    Unknown(MultiDiagnostic),
    /// A token that does not fit.
    Misplaced(SingleDiagnostic),
    /// A program, and the number of its tokens.
    Parsed(Program, usize),
}

/// What is said of each unknown token.
pub open spec fn unknown_marks(v: Seq<(Span, Seq<char>)>) -> Seq<(Span, Seq<char>)> {
    Seq::new(v.len(), |i: int| (v[i].0, "unexpected token `"@ + v[i].1 + "`"@))
}

fn mark_unknown(errors: &Vec<LexError>) -> (r: Vec<(Span, String)>)
    ensures
        error::marks_of(r@) == unknown_marks(lexer::error_views(errors@)),
{
    let ghost views = lexer::error_views(errors@);
    let mut r: Vec<(Span, String)> = Vec::new();
    let mut i: usize = 0;
    while i < errors.len()
        invariant
            i <= errors.len(),
            r@.len() == i,
            views == lexer::error_views(errors@),
            forall|k: int|
                0 <= k < i ==> (#[trigger] r@[k]).0 == views[k].0 && r@[k].1@ == "unexpected token `"@
                    + views[k].1 + "`"@,
        decreases errors.len() - i,
    {
        let mut out = chars_of("unexpected token `");
        text::push_str(&mut out, errors[i].slice.as_str());
        text::push_str(&mut out, "`");
        r.push((errors[i].span, text::to_text(&out)));
        i = i + 1;
    }
    assert(error::marks_of(r@) =~= unknown_marks(views));
    r
}

/// Reads a source: unknown tokens are reported all at once, else the first token that
/// does not fit.
pub fn read_program(filename: &str, source: &str) -> (r: FrontEnd)
    ensures
        ({
            let lexed = lexer::lexed(source@);
            let named = error::Named { name: filename@, text: source@ };
            if lexed.errors.len() > 0 {
                &&& r is Unknown
                &&& r->Unknown_0.src@ == named
                &&& r->Unknown_0.message@ == "lexing failed"@
                &&& error::single_marks(r->Unknown_0.errors@) == error::marks_in(
                    named,
                    unknown_marks(lexed.errors),
                )
            } else if lexed.tokens.len() == 0 {
                r is Empty
            } else {
                match program::parsed(program::input_of(source@)) {
                    Ok(p) => r is Parsed && r->Parsed_0.tree() == p && r->Parsed_1
                        == lexed.tokens.len(),
                    Err(f) => r is Misplaced && r->Misplaced_0@ == (error::Mark {
                        src: named,
                        span: error::stretch(f.span),
                        text: f.message,
                    }),
                }
            }
        }),
{
    let src = Source::new(source);
    let lexed = lex_source(&src);
    assert(lexed@.errors.len() == lexed.errors@.len());
    if lexed.errors.len() > 0 {
        let parts = mark_unknown(&lexed.errors);
        return FrontEnd::Unknown(
            MultiDiagnostic::from_errors(
                filename.to_owned(),
                source.to_owned(),
                parts,
                "lexing failed".to_owned(),
            ),
        );
    }
    let count = lexed.tokens.len();
    if count == 0 {
        return FrontEnd::Empty;
    }
    match parse(lexed.tokens, &src) {
        Ok(p) => FrontEnd::Parsed(p, count),
        Err(e) => FrontEnd::Misplaced(
            SingleDiagnostic::new(filename.to_owned(), source.to_owned(), e.span, e.message),
        ),
    }
}

/// The report of the first import that failed.
pub fn import_report(filename: &str, source: &str, errors: &Vec<ImportError>) -> (r: Option<SingleDiagnostic>)
    ensures
        r is Some == (errors@.len() > 0),
        r is Some ==> r->0@ == (error::Mark {
            src: error::Named { name: filename@, text: source@ },
            span: error::stretch(errors@[0].span),
            text: errors@[0].message@,
        }),
{
    if errors.len() == 0 {
        return None;
    }
    Some(
        SingleDiagnostic::new(
            filename.to_owned(),
            source.to_owned(),
            errors[0].span,
            errors[0].message.as_str().to_owned(),
        ),
    )
}

/// Whether one of the first `n` items is a function `main`.
pub open spec fn declares_main(items: Seq<tree::Item>, n: nat) -> bool
    decreases n,
{
    n > 0 && ((match items[n - 1] {
        tree::Item::Function(f) => f.name == "main"@,
        _ => false,
    }) || declares_main(items, (n - 1) as nat))
}

/// Whether a program declares a function `main`.
pub fn has_main(p: &Program) -> (r: bool)
    ensures
        r == declares_main(p.tree().items, p.tree().items.len()),
{
    let ghost items = ast::items_of(p.items@);
    assert(items.len() == p.items@.len());
    let mut found = false;
    let mut i: usize = 0;
    while i < p.items.len()
        invariant
            i <= p.items.len(),
            items == ast::items_of(p.items@),
            items.len() == p.items@.len(),
            found == declares_main(items, i as nat),
        decreases p.items.len() - i,
    {
        assert(items[i as int] == p.items@[i as int].tree());
        if let Item::Function(f) = &p.items[i] {
            if text::same_str(f.name.as_str(), "main") {
                found = true;
            }
        }
        i = i + 1;
    }
    found
}

// ── Building ────────────────────────────────────────────────────────────────

/// What is asked of a build.
#[derive(Debug, Clone, Copy, PartialEq, Eq, Structural)]
pub enum Goal {
    /// Only a check.
    Check,
    /// The intermediate representation.
    Ir,
    /// An executable.
    Executable,
}

/// What a build is for: a check where only that is asked for, else the intermediate
/// representation where it is asked for, else an executable.
pub fn goal_of(check_only: bool, emit_llvm: bool) -> (r: Goal)
    ensures
        r == if check_only {
            Goal::Check
        } else if emit_llvm {
            Goal::Ir
        } else {
            Goal::Executable
        },
{
    if check_only {
        Goal::Check
    } else if emit_llvm {
        Goal::Ir
    } else {
        Goal::Executable
    }
}

/// What a build that succeeds gives: the executable, unless the source is empty or no executable
/// is asked for.
pub fn build_result(goal: Goal, empty: bool, exe: String) -> (r: Option<String>)
    ensures
        (r is None) == (empty || goal != Goal::Executable),
        r is Some ==> r->0@ == exe@,
{
    match goal {
        Goal::Executable => if empty {
            None
        } else {
            Some(exe)
        },
        _ => None,
    }
}

/// The number of steps of a build: reading, lexing, parsing, imports and checking, then
/// code generation, then linking.
pub fn total_steps(goal: Goal) -> (n: u64)
    ensures
        n == (match goal {
            Goal::Check => 5int,
            Goal::Ir => 6,
            Goal::Executable => 7,
        }),
{
    match goal {
        Goal::Check => 5,
        Goal::Ir => 6,
        Goal::Executable => 7,
    }
}

/// The exit code of `run`: that of the program; failure where a signal ended it.
pub fn exit_code(code: Option<i32>, success: bool) -> (r: i32)
    ensures
        r == (match code {
            Some(c) => if c == 0 && !success {
                1
            } else {
                c
            },
            None => if success {
                0
            } else {
                1
            },
        }),
{
    match code {
        Some(c) => if c == 0 && !success {
            1
        } else {
            c
        },
        None => if success {
            0
        } else {
            1
        },
    }
}

// ── Formatting files ────────────────────────────────────────────────────────

/// What became of the files that were formatted.
#[derive(Debug, Clone, Copy)]
pub struct Tally {
    pub files: usize,
    pub changed: usize,
    pub failed: usize,
}

/// What `fmt` says in the end: a line, or an error.
pub open spec fn fmt_verdict(check: bool, t: Tally) -> Result<Seq<char>, Seq<char>> {
    if check {
        if t.failed > 0 {
            Err(text::decimal(t.failed as nat) + " file(s) failed to parse"@)
        } else if t.changed > 0 {
            Err(text::decimal(t.changed as nat) + " file(s) would be reformatted"@)
        } else {
            Ok(text::decimal(t.files as nat) + " file(s) already formatted"@)
        }
    } else if t.failed > 0 {
        Err(text::decimal(t.failed as nat) + " file(s) failed to format"@)
    } else {
        Ok(
            text::decimal(t.files as nat) + " file(s), "@ + text::decimal(t.changed as nat)
                + " reformatted"@,
        )
    }
}

fn counted(n: usize, tail: &str) -> (r: String)
    ensures
        r@ == text::decimal(n as nat) + tail@,
{
    let mut out: Vec<char> = Vec::new();
    text::push_decimal(&mut out, n as u64);
    assert(out@ =~= text::decimal(n as nat));
    text::push_str(&mut out, tail);
    text::to_text(&out)
}

/// What `fmt` says in the end.
pub fn fmt_summary(check: bool, t: Tally) -> (r: Result<String, String>)
    ensures
        match fmt_verdict(check, t) {
            Ok(s) => r is Ok && r->Ok_0@ == s,
            Err(s) => r is Err && r->Err_0@ == s,
        },
{
    if check {
        if t.failed > 0 {
            return Err(counted(t.failed, " file(s) failed to parse"));
        }
        if t.changed > 0 {
            return Err(counted(t.changed, " file(s) would be reformatted"));
        }
        return Ok(counted(t.files, " file(s) already formatted"));
    }
    if t.failed > 0 {
        return Err(counted(t.failed, " file(s) failed to format"));
    }
    let mut out = chars_of(counted(t.files, " file(s), ").as_str());
    text::push_decimal(&mut out, t.changed as u64);
    text::push_str(&mut out, " reformatted");
    Ok(text::to_text(&out))
}

/// What `fmt` says where it found no source file; an error where the one path that was
/// given is some other file.
pub fn fmt_nothing(roots: usize, first_is_file: bool, first: &str) -> (r: Result<String, String>)
    ensures
        if roots == 1 && first_is_file {
            r is Err && r->Err_0@ == "not a Hella source file: "@ + first@ + " (expected `.hll`)"@
        } else {
            r is Ok && r->Ok_0@ == "no .hll files found"@
        },
{
    if roots == 1 && first_is_file {
        let mut out = chars_of("not a Hella source file: ");
        text::push_str(&mut out, first);
        text::push_str(&mut out, " (expected `.hll`)");
        return Err(text::to_text(&out));
    }
    Ok("no .hll files found".to_owned())
}

/// The paths that `fmt` works on: those that were given, else the current directory.
pub fn fmt_roots(given: Vec<String>) -> (r: Vec<String>)
    ensures
        ast::names_of(r@) == (if given@.len() == 0 {
            seq!["."@]
        } else {
            ast::names_of(given@)
        }),
{
    if given.len() == 0 {
        let mut v: Vec<String> = Vec::new();
        v.push(".".to_owned());
        assert(ast::names_of(v@) =~= seq!["."@]);
        return v;
    }
    given
}

// ── Installing the standard library ─────────────────────────────────────────

/// Whether `setup` writes a file: files that are there are kept unless it is forced to.
pub fn installs(is_there: bool, force: bool) -> (r: bool)
    ensures
        r == (!is_there || force),
{
    !is_there || force
}

/// What `setup` says in the end.
pub fn setup_summary(dest: &str, installed: usize, kept: usize) -> (r: String)
    ensures
        r@ == "stdlib → "@ + dest@ + " ("@ + text::decimal(installed as nat) + " installed, "@
            + text::decimal(kept as nat) + " kept)"@,
{
    let mut out = chars_of("stdlib → ");
    text::push_str(&mut out, dest);
    text::push_str(&mut out, " (");
    text::push_decimal(&mut out, installed as u64);
    text::push_str(&mut out, " installed, ");
    text::push_decimal(&mut out, kept as u64);
    text::push_str(&mut out, " kept)");
    text::to_text(&out)
}

} // verus!
