//! The canonical formatter.
//!
//! Four spaces of margin, lines of at most a hundred columns where the structure allows
//! it, aligned declarations, class members in a fixed order, imports first, and every
//! comment kept.
use vstd::prelude::*;
use crate::ast;
use crate::formatter::comments::collect_comments;
use crate::formatter::layout::Context;
use crate::formatter::print::Formatter;
use crate::lexer;
use crate::lexer::lex_source;
use crate::parse::program;
use crate::parse::program::{Fault, parse};
use crate::paths;
use crate::source::Source;
use crate::text;
use crate::token::Span;

pub mod comments;
pub mod compact;
pub mod layout;
pub mod layout_items;
pub mod preserve;
pub mod preserve_items;
pub mod print;
pub mod print_items;
pub mod read_back;
pub mod read_types;
pub mod settle;
pub mod settle_imports;
pub mod shown;

pub use crate::formatter::print::FormatOptions;

verus! {

/// Why a source could not be formatted.
#[derive(Debug, Clone)]
pub struct FormatError {
    pub message: String,
    pub span: Option<Span>,
}

/// What is wrong with a source that cannot be formatted: its first unknown token, else the
/// token that does not fit the grammar.
pub open spec fn fault(src: Seq<char>) -> Option<Fault> {
    let lexed = lexer::lexed(src);
    if lexed.errors.len() > 0 {
        Some(
            Fault {
                message: "unexpected token `"@ + lexed.errors[0].1 + "`"@,
                span: lexed.errors[0].0,
            },
        )
    } else {
        match program::parsed(program::input_of(src)) {
            Ok(_) => None,
            Err(f) => Some(f),
        }
    }
}

/// The canonical form of a source without faults.
pub open spec fn canonical(src: Seq<char>, options: FormatOptions) -> Seq<char> {
    layout_items::formatted(
        Context {
            src,
            notes: comments::comments(src),
            step: options.indent_width as nat,
            max: options.max_width as nat,
        },
        program::parsed(program::input_of(src))->Ok_0,
    )
}

/// The options of `format_source`.
pub open spec fn standard() -> FormatOptions {
    FormatOptions { max_width: 100, indent_width: 4 }
}

/// What formatting `src` gives.
pub open spec fn pass(src: Seq<char>, options: FormatOptions) -> Result<Seq<char>, Fault> {
    match fault(src) {
        Some(f) => Err(f),
        None => Ok(canonical(src, options)),
    }
}

impl FormatError {
    pub open spec fn is(&self, f: Fault) -> bool {
        self.message@ == f.message && self.span == Some(f.span)
    }
}

/// Formats a source.
pub fn format_source(source: &str) -> (r: Result<String, FormatError>)
    ensures
        match fault(source@) {
            Some(f) => r is Err && r->Err_0.is(f),
            None => r is Ok && r->Ok_0@ == canonical(source@, standard()),
        },
{
    format_source_with_options(source, FormatOptions::default())
}

/// Formats a source with other widths.
pub fn format_source_with_options(source: &str, options: FormatOptions) -> (r: Result<String, FormatError>)
    ensures
        match fault(source@) {
            Some(f) => r is Err && r->Err_0.is(f),
            None => r is Ok && r->Ok_0@ == canonical(source@, options),
        },
{
    let src = Source::new(source);
    let lexed = lex_source(&src);
    if lexed.errors.len() > 0 {
        let e = &lexed.errors[0];
        let mut out: Vec<char> = Vec::new();
        text::push_str(&mut out, "unexpected token `");
        text::push_str(&mut out, e.slice.as_str());
        text::push_str(&mut out, "`");
        assert(out@ =~= "unexpected token `"@ + e.slice@ + "`"@);
        return Err(FormatError { message: text::to_text(&out), span: Some(e.span) });
    }
    match parse(lexed.tokens, &src) {
        Ok(p) => {
            let notes = collect_comments(&src);
            let f = Formatter::new(&src, notes, options);
            let t = f.format_program(&p);
            Ok(text::to_text(&t))
        },
        Err(e) => Err(FormatError { message: e.message, span: Some(e.span) }),
    }
}

/// The canonical form of a source that is not in it yet.
pub fn reformat(source: &str) -> (r: Result<Option<String>, FormatError>)
    ensures
        match fault(source@) {
            Some(f) => r is Err && r->Err_0.is(f),
            None => r is Ok && (if canonical(source@, standard()) == source@ {
                r->Ok_0 is None
            } else {
                r->Ok_0 is Some && r->Ok_0->0@ == canonical(source@, standard())
            }),
        },
{
    match format_source(source) {
        Ok(t) => if text::same_str(t.as_str(), source) {
            Ok(None)
        } else {
            Ok(Some(t))
        },
        Err(e) => Err(e),
    }
}

impl FormatError {
    /// A file that could not be read.
    pub fn unreadable(path: &str, cause: &str) -> (r: FormatError)
        ensures
            r.message@ == "failed to read "@ + path@ + ": "@ + cause@,
            r.span is None,
    {
        let mut out = text::chars_of("failed to read ");
        text::push_str(&mut out, path);
        text::push_str(&mut out, ": ");
        text::push_str(&mut out, cause);
        FormatError { message: text::to_text(&out), span: None }
    }

    /// A file that could not be written.
    pub fn unwritable(path: &str, cause: &str) -> (r: FormatError)
        ensures
            r.message@ == "failed to write "@ + path@ + ": "@ + cause@,
            r.span is None,
    {
        let mut out = text::chars_of("failed to write ");
        text::push_str(&mut out, path);
        text::push_str(&mut out, ": ");
        text::push_str(&mut out, cause);
        FormatError { message: text::to_text(&out), span: None }
    }
}

// ── Files ───────────────────────────────────────────────────────────────────

/// Whether a path names a source file: its extension is `hll`.
pub open spec fn is_source(path: Seq<char>) -> bool {
    paths::extension(path) == Some("hll"@)
}

/// The source files among the first `n` paths.
pub open spec fn sources(v: Seq<Seq<char>>, n: nat) -> Seq<Seq<char>>
    decreases n,
{
    if n == 0 {
        seq![]
    } else if is_source(v[n - 1]) {
        sources(v, (n - 1) as nat).push(v[n - 1])
    } else {
        sources(v, (n - 1) as nat)
    }
}

fn path_is_source(path: &str) -> (r: bool)
    ensures
        r == is_source(path@),
{
    match paths::path_extension(path) {
        Some(e) => text::same_str(e.as_str(), "hll"),
        None => false,
    }
}

/// The source files among the files that were found, in order, each once.
pub fn collect_sources(found: &Vec<String>) -> (r: Vec<String>)
    ensures
        ast::names_of(r@) == ({
            let v = sources(ast::names_of(found@), found@.len());
            paths::arranged(v, v.len())
        }),
{
    let ghost names = ast::names_of(found@);
    let mut v: Vec<String> = Vec::new();
    assert(ast::names_of(v@) =~= seq![]);
    let mut i: usize = 0;
    while i < found.len()
        invariant
            i <= found.len(),
            names == ast::names_of(found@),
            ast::names_of(v@) == sources(names, i as nat),
        decreases found.len() - i,
    {
        assert(names[i as int] == found@[i as int]@);
        if path_is_source(found[i].as_str()) {
            let ghost before = v@;
            v.push(paths::copy_text(found[i].as_str()));
            assert(ast::names_of(v@) =~= ast::names_of(before).push(found@[i as int]@));
        }
        i = i + 1;
    }
    assert(ast::names_of(v@).len() == v@.len());
    paths::arrange(v)
}

// ── Line ends ───────────────────────────────────────────────────────────────

/// `s` with `\n` for each `\r\n`.
pub open spec fn unix_lines(s: Seq<char>) -> Seq<char>
    decreases s.len(),
{
    if s.len() == 0 {
        seq![]
    } else if s.len() >= 2 && s[s.len() - 2] == '\r' && s.last() == '\n' {
        unix_lines(s.drop_last().drop_last()).push('\n')
    } else {
        unix_lines(s.drop_last()).push(s.last())
    }
}

/// `s` without the empty lines at its end.
pub open spec fn without_last_blank_lines(s: Seq<char>) -> Seq<char>
    decreases s.len(),
{
    if s.len() >= 2 && s[s.len() - 2] == '\n' && s.last() == '\n' {
        without_last_blank_lines(s.drop_last())
    } else {
        s
    }
}

/// The text that a canonical source must equal: its line ends are `\n`, and it ends with
/// one of them.
pub open spec fn normalized(s: Seq<char>) -> Seq<char> {
    layout_items::line_ended(without_last_blank_lines(unix_lines(s)))
}

/// Whether a source is already in canonical form, whatever its line ends and however many of them
/// it ends with.
pub fn is_formatted(source: &str) -> (r: Result<bool, FormatError>)
    ensures
        match fault(source@) {
            Some(f) => r is Err && r->Err_0.is(f),
            None => r is Ok && r->Ok_0 == (canonical(source@, standard()) == normalized(source@)),
        },
{
    match format_source(source) {
        Ok(t) => {
            let n = normalize_trailing_newline(source);
            Ok(text::same_str(t.as_str(), n.as_str()))
        },
        Err(e) => Err(e),
    }
}

/// The source with `\n` line ends and exactly one of them at its end.
pub fn normalize_trailing_newline(s: &str) -> (r: String)
    ensures
        r@ == normalized(s@),
{
    let t = text::chars_of(s);
    let mut out: Vec<char> = Vec::new();
    let mut i: usize = 0;
    while i < t.len()
        invariant
            i <= t.len(),
            t@ == s@,
            out@ == unix_lines(t@.take(i as int)),
            0 < i < t@.len() && t@[i - 1] == '\r' ==> out@.len() > 0 && out@.last() == '\r'
                && out@.drop_last() == unix_lines(t@.take(i - 1)),
        decreases t.len() - i,
    {
        let c = t[i];
        let ghost before = t@.take(i as int);
        let ghost after = t@.take(i + 1);
        assert(after.drop_last() =~= before);
        if c == '\n' && i > 0 && t[i - 1] == '\r' {
            out.pop();
            assert(after.drop_last().drop_last() =~= t@.take(i - 1));
        }
        out.push(c);
        assert(out@.drop_last() =~= unix_lines(before) || c == '\n');
        i = i + 1;
    }
    assert(t@.take(i as int) =~= t@);
    while out.len() >= 2 && out[out.len() - 2] == '\n' && out[out.len() - 1] == '\n'
        invariant
            without_last_blank_lines(out@) == without_last_blank_lines(unix_lines(s@)),
        decreases out.len(),
    {
        let ghost o = out@;
        out.pop();
        assert(out@ =~= o.drop_last());
    }
    if out.len() == 0 || out[out.len() - 1] != '\n' {
        out.push('\n');
    }
    text::to_text(&out)
}

} // verus!
