//! Module resolution.
//!
//! An import is looked for in the directory of the entry file, in the project root, and in
//! the standard library. What it names is put in its place before the program is checked.
//! The file system is seen through probes: what is known of each path that was asked for.
use vstd::prelude::*;
use crate::ast;
use crate::ast::{ImportDecl, Item, Program};
use crate::lexer;
use crate::lexer::lex_source;
use crate::parse::program;
use crate::parse::program::{ParseError, parse};
use crate::paths;
use crate::paths::{arrange, copy_text, holds_path, join, join_names, same_path};
use crate::source::Source;
use crate::text;
use crate::token::Span;
use crate::tree;

verus! {

broadcast use ast::group_lists;

// ── Errors ──────────────────────────────────────────────────────────────────

/// An import that failed. `span` is a place in `file`, which holds the import.
#[derive(Debug, Clone)]
pub struct ImportError {
    pub message: String,
    pub span: Span,
    pub file: String,
}

/// An import that failed, as a mathematical value.
pub struct Issue {
    pub message: Seq<char>,
    pub span: Span,
    pub file: Seq<char>,
}

impl View for ImportError {
    type V = Issue;

    open spec fn view(&self) -> Issue {
        Issue { message: self.message@, span: self.span, file: self.file@ }
    }
}

pub open spec fn issues_of(v: Seq<ImportError>) -> Seq<Issue> {
    Seq::new(v.len(), |i: int| v[i]@)
}

impl From<ImportError> for ParseError {
    fn from(e: ImportError) -> (r: ParseError) {
        ParseError { message: e.message, span: e.span }
    }
}

impl vstd::std_specs::convert::FromSpecImpl<ImportError> for ParseError {
    open spec fn obeys_from_spec() -> bool {
        true
    }

    open spec fn from_spec(e: ImportError) -> ParseError {
        ParseError { message: e.message, span: e.span }
    }
}

// ── Roots ───────────────────────────────────────────────────────────────────

/// A directory on the way from the entry file to the root of the file system.
#[derive(Debug, Clone)]
pub struct Ancestor {
    pub path: String,
    /// It holds a file `hella.toml`.
    pub has_manifest: bool,
    /// It holds a file `main.hll`.
    pub has_main: bool,
    /// It holds a directory `stdlib`.
    pub has_stdlib: bool,
}

/// The standard library below a home directory.
pub fn hella_lib_dir(home: Option<&str>) -> (r: Option<String>)
    ensures
        match home {
            Some(h) => r is Some && r->0@ == paths::joined(
                paths::joined(h@, ".hella"@),
                "lib"@,
            ),
            None => r is None,
        },
{
    match home {
        Some(h) => {
            let d = join(h, ".hella");
            Some(join(d.as_str(), "lib"))
        },
        None => None,
    }
}

/// The first of the directories from `i` on that holds `stdlib`.
pub open spec fn first_stdlib(v: Seq<Ancestor>, i: int) -> Option<int>
    decreases v.len() - i,
{
    if i < 0 || i >= v.len() {
        None
    } else if v[i].has_stdlib {
        Some(i)
    } else {
        first_stdlib(v, i + 1)
    }
}

/// The first of the directories from `i` on with a manifest.
pub open spec fn first_manifest(v: Seq<Ancestor>, i: int) -> Option<int>
    decreases v.len() - i,
{
    if i < 0 || i >= v.len() {
        None
    } else if v[i].has_manifest {
        Some(i)
    } else {
        first_manifest(v, i + 1)
    }
}

/// The first of the directories from `i` on with a main file.
pub open spec fn first_main(v: Seq<Ancestor>, i: int) -> Option<int>
    decreases v.len() - i,
{
    if i < 0 || i >= v.len() {
        None
    } else if v[i].has_main {
        Some(i)
    } else {
        first_main(v, i + 1)
    }
}

/// The project root: the nearest directory with a manifest, else the nearest with a main
/// file, else the first, which is that of the entry file.
pub open spec fn root_of(v: Seq<Ancestor>) -> Seq<char> {
    match first_manifest(v, 0) {
        Some(i) => v[i].path@,
        None => match first_main(v, 0) {
            Some(i) => v[i].path@,
            None => if v.len() > 0 {
                v[0].path@
            } else {
                "."@
            },
        },
    }
}

/// The project root of an entry file, given the directories above it, nearest first.
pub fn project_root(ancestors: &Vec<Ancestor>) -> (r: String)
    ensures
        r@ == root_of(ancestors@),
{
    let mut i: usize = 0;
    while i < ancestors.len()
        invariant
            i <= ancestors.len(),
            first_manifest(ancestors@, 0) == first_manifest(ancestors@, i as int),
        decreases ancestors.len() - i,
    {
        if ancestors[i].has_manifest {
            return copy_text(ancestors[i].path.as_str());
        }
        i = i + 1;
    }
    let mut k: usize = 0;
    while k < ancestors.len()
        invariant
            k <= ancestors.len(),
            first_manifest(ancestors@, 0) is None,
            first_main(ancestors@, 0) == first_main(ancestors@, k as int),
        decreases ancestors.len() - k,
    {
        if ancestors[k].has_main {
            return copy_text(ancestors[k].path.as_str());
        }
        k = k + 1;
    }
    if ancestors.len() > 0 {
        copy_text(ancestors[0].path.as_str())
    } else {
        ".".to_owned()
    }
}

/// The `stdlib` of the nearest directory that holds one.
pub open spec fn stdlib_of(v: Seq<Ancestor>) -> Option<Seq<char>> {
    match first_stdlib(v, 0) {
        Some(i) => Some(paths::joined(v[i].path@, "stdlib"@)),
        None => None,
    }
}

pub open spec fn text_of(v: Option<String>) -> Option<Seq<char>> {
    match v {
        Some(s) => Some(s@),
        None => None,
    }
}

/// The nearest `stdlib` above an entry file.
pub fn workspace_stdlib_root(ancestors: &Vec<Ancestor>) -> (r: Option<String>)
    ensures
        text_of(r) == stdlib_of(ancestors@),
{
    let mut i: usize = 0;
    while i < ancestors.len()
        invariant
            i <= ancestors.len(),
            first_stdlib(ancestors@, 0) == first_stdlib(ancestors@, i as int),
        decreases ancestors.len() - i,
    {
        if ancestors[i].has_stdlib {
            return Some(join(ancestors[i].path.as_str(), "stdlib"));
        }
        i = i + 1;
    }
    None
}

/// `bases` with `p`, where there is one and it is new.
pub open spec fn with_base(bases: Seq<Seq<char>>, p: Option<Seq<char>>) -> Seq<Seq<char>> {
    match p {
        Some(b) => if paths::holds(bases, b) {
            bases
        } else {
            bases.push(b)
        },
        None => bases,
    }
}

/// Where imports are looked for: next to the entry file, in the project root, in the
/// `stdlib` of a checkout, in the installed standard library.
pub open spec fn bases_of(
    entry_dir: Option<Seq<char>>,
    ancestors: Seq<Ancestor>,
    lib: Option<Seq<char>>,
) -> Seq<Seq<char>> {
    with_base(
        with_base(
            with_base(with_base(seq![], entry_dir), Some(root_of(ancestors))),
            stdlib_of(ancestors),
        ),
        lib,
    )
}

fn push_base(bases: &mut Vec<String>, p: Option<String>)
    ensures
        ast::names_of(final(bases)@) == with_base(ast::names_of(old(bases)@), text_of(p)),
{
    if let Some(b) = p {
        if !holds_path(bases, b.as_str()) {
            bases.push(b);
        }
    }
}

/// Where imports of an entry file are looked for, in order.
pub fn search_bases(entry_dir: Option<String>, ancestors: &Vec<Ancestor>, lib: Option<String>) -> (r: Vec<
    String,
>)
    ensures
        ast::names_of(r@) == bases_of(text_of(entry_dir), ancestors@, text_of(lib)),
{
    let mut bases: Vec<String> = Vec::new();
    assert(ast::names_of(bases@) =~= seq![]);
    push_base(&mut bases, entry_dir);
    push_base(&mut bases, Some(project_root(ancestors)));
    push_base(&mut bases, workspace_stdlib_root(ancestors));
    push_base(&mut bases, lib);
    bases
}

// ── Probes ──────────────────────────────────────────────────────────────────

/// What was found at a path.
#[derive(Debug, Clone)]
pub enum FileState {
    /// No file.
    Absent,
    /// A file with this text.
    Text(String),
    /// A file that could not be read, and why.
    Unreadable(String),
}

#[derive(Debug, Clone)]
pub struct Probe {
    pub path: String,
    pub state: FileState,
}

/// What was found at a path, as a mathematical value.
pub enum Found {
    Absent,
    Text(Seq<char>),
    Unreadable(Seq<char>),
}

pub struct Known {
    pub path: Seq<char>,
    pub found: Found,
}

impl View for Probe {
    type V = Known;

    open spec fn view(&self) -> Known {
        Known {
            path: self.path@,
            found: match self.state {
                FileState::Absent => Found::Absent,
                FileState::Text(t) => Found::Text(t@),
                FileState::Unreadable(e) => Found::Unreadable(e@),
            },
        }
    }
}

pub open spec fn known_of(v: Seq<Probe>) -> Seq<Known> {
    Seq::new(v.len(), |i: int| v[i]@)
}

/// The first of the probes from `i` on that is of path `p`.
pub open spec fn lookup(store: Seq<Known>, p: Seq<char>, i: int) -> Option<int>
    decreases store.len() - i,
{
    if i < 0 || i >= store.len() {
        None
    } else if paths::same(store[i].path, p) {
        Some(i)
    } else {
        lookup(store, p, i + 1)
    }
}

fn find_probe(store: &Vec<Probe>, p: &str) -> (r: Option<usize>)
    ensures
        match lookup(known_of(store@), p@, 0) {
            Some(i) => r is Some && r->0 == i && r->0 < store@.len(),
            None => r is None,
        },
{
    let ghost known = known_of(store@);
    let mut i: usize = 0;
    while i < store.len()
        invariant
            i <= store.len(),
            known == known_of(store@),
            lookup(known, p@, 0) == lookup(known, p@, i as int),
        decreases store.len() - i,
    {
        assert(known[i as int] == store@[i as int]@);
        if same_path(store[i].path.as_str(), p) {
            return Some(i);
        }
        i = i + 1;
    }
    None
}

/// Whether a file is known to be at `p`.
pub open spec fn is_file(store: Seq<Known>, p: Seq<char>) -> bool {
    match lookup(store, p, 0) {
        Some(i) => !(store[i].found is Absent),
        None => false,
    }
}

fn has_file(store: &Vec<Probe>, p: &str) -> (r: bool)
    ensures
        r == is_file(known_of(store@), p@),
{
    match find_probe(store, p) {
        Some(i) => {
            assert(known_of(store@)[i as int] == store@[i as int]@);
            match store[i].state {
                FileState::Absent => false,
                _ => true,
            }
        },
        None => false,
    }
}

// ── Resolution ──────────────────────────────────────────────────────────────

/// The file of a module: `<base>/a/b.hll`.
pub open spec fn module_file(base: Seq<char>, path: Seq<Seq<char>>) -> Seq<char> {
    paths::joined(base, paths::list_text(path, "/"@) + ".hll"@)
}

/// The file of a module that is a directory: `<base>/a/b/mod.hll`.
pub open spec fn folder_file(base: Seq<char>, path: Seq<Seq<char>>) -> Seq<char> {
    paths::joined(paths::joined(base, paths::list_text(path, "/"@)), "mod.hll"@)
}

/// The file that an import of `path` names, looked for from base `n` on.
pub open spec fn resolved(path: Seq<Seq<char>>, bases: Seq<Seq<char>>, n: int, store: Seq<Known>) -> Option<
    Seq<char>,
>
    decreases bases.len() - n,
{
    if n < 0 || n >= bases.len() {
        None
    } else if is_file(store, module_file(bases[n], path)) {
        Some(module_file(bases[n], path))
    } else if is_file(store, folder_file(bases[n], path)) {
        Some(folder_file(bases[n], path))
    } else {
        resolved(path, bases, n + 1, store)
    }
}

/// `v` with `p`, where nothing is known of `p` and it is not there already.
pub open spec fn with_unknown(v: Seq<Seq<char>>, store: Seq<Known>, p: Seq<char>) -> Seq<Seq<char>> {
    if lookup(store, p, 0) is Some || paths::holds(v, p) {
        v
    } else {
        v.push(p)
    }
}

/// `v` with the paths that resolving `path` asks for and of which nothing is known, from
/// base `n` on.
pub open spec fn asked(
    v: Seq<Seq<char>>,
    path: Seq<Seq<char>>,
    bases: Seq<Seq<char>>,
    n: int,
    store: Seq<Known>,
) -> Seq<Seq<char>>
    decreases bases.len() - n,
{
    if n < 0 || n >= bases.len() {
        v
    } else {
        let a = with_unknown(v, store, module_file(bases[n], path));
        if is_file(store, module_file(bases[n], path)) {
            a
        } else {
            let b = with_unknown(a, store, folder_file(bases[n], path));
            if is_file(store, folder_file(bases[n], path)) {
                b
            } else {
                asked(b, path, bases, n + 1, store)
            }
        }
    }
}

fn path_of_module(base: &str, path: &Vec<String>) -> (r: String)
    ensures
        r@ == module_file(base@, ast::names_of(path@)),
{
    let rel = join_names(path, "/");
    let mut t = text::chars_of(rel.as_str());
    text::push_str(&mut t, ".hll");
    let file = text::to_text(&t);
    join(base, file.as_str())
}

fn path_of_folder(base: &str, path: &Vec<String>) -> (r: String)
    ensures
        r@ == folder_file(base@, ast::names_of(path@)),
{
    let rel = join_names(path, "/");
    let dir = join(base, rel.as_str());
    join(dir.as_str(), "mod.hll")
}

/// The file that an import names, as far as the probes show it.
pub fn resolve_import(path: &Vec<String>, bases: &Vec<String>, store: &Vec<Probe>) -> (r: Option<String>)
    ensures
        text_of(r) == resolved(ast::names_of(path@), ast::names_of(bases@), 0, known_of(store@)),
{
    let ghost p = ast::names_of(path@);
    let ghost bs = ast::names_of(bases@);
    let ghost known = known_of(store@);
    let mut n: usize = 0;
    while n < bases.len()
        invariant
            n <= bases.len(),
            p == ast::names_of(path@),
            bs == ast::names_of(bases@),
            known == known_of(store@),
            resolved(p, bs, 0, known) == resolved(p, bs, n as int, known),
        decreases bases.len() - n,
    {
        assert(bs[n as int] == bases@[n as int]@);
        let file = path_of_module(bases[n].as_str(), path);
        if has_file(store, file.as_str()) {
            return Some(file);
        }
        let folder = path_of_folder(bases[n].as_str(), path);
        if has_file(store, folder.as_str()) {
            return Some(folder);
        }
        n = n + 1;
    }
    None
}

fn push_unknown(v: &mut Vec<String>, store: &Vec<Probe>, p: &str)
    ensures
        ast::names_of(final(v)@) == with_unknown(ast::names_of(old(v)@), known_of(store@), p@),
{
    if find_probe(store, p).is_none() && !holds_path(v, p) {
        v.push(copy_text(p));
    }
}

fn push_asked(v: &mut Vec<String>, path: &Vec<String>, bases: &Vec<String>, store: &Vec<Probe>)
    ensures
        ast::names_of(final(v)@) == asked(
            ast::names_of(old(v)@),
            ast::names_of(path@),
            ast::names_of(bases@),
            0,
            known_of(store@),
        ),
{
    let ghost p = ast::names_of(path@);
    let ghost bs = ast::names_of(bases@);
    let ghost known = known_of(store@);
    let ghost whole = asked(ast::names_of(v@), p, bs, 0, known);
    let mut n: usize = 0;
    while n < bases.len()
        invariant
            n <= bases.len(),
            p == ast::names_of(path@),
            bs == ast::names_of(bases@),
            known == known_of(store@),
            whole == asked(ast::names_of(old(v)@), p, bs, 0, known),
            asked(ast::names_of(v@), p, bs, n as int, known) == whole,
        decreases bases.len() - n,
    {
        assert(bs[n as int] == bases@[n as int]@);
        let file = path_of_module(bases[n].as_str(), path);
        push_unknown(v, store, file.as_str());
        if has_file(store, file.as_str()) {
            return;
        }
        let folder = path_of_folder(bases[n].as_str(), path);
        push_unknown(v, store, folder.as_str());
        if has_file(store, folder.as_str()) {
            return;
        }
        n = n + 1;
    }
}

// ── Inclusion ───────────────────────────────────────────────────────────────

/// How far the inclusion of imports has come.
pub struct Progress {
    /// The files that were reached.
    pub visited: Seq<Seq<char>>,
    pub issues: Seq<Issue>,
    /// The paths that were asked for and of which nothing is known.
    pub wanted: Seq<Seq<char>>,
}

/// The number of the first `n` probes whose files were not reached.
pub open spec fn left(store: Seq<Known>, visited: Seq<Seq<char>>, n: nat) -> nat
    decreases n,
{
    if n == 0 {
        0
    } else if paths::holds(visited, store[n - 1].path) {
        left(store, visited, (n - 1) as nat)
    } else {
        left(store, visited, (n - 1) as nat) + 1
    }
}

/// The number of probes whose files were not reached.
#[verifier::opaque]
pub open spec fn unvisited(store: Seq<Known>, visited: Seq<Seq<char>>) -> nat {
    left(store, visited, store.len())
}

proof fn lemma_left(store: Seq<Known>, visited: Seq<Seq<char>>, p: Seq<char>, n: nat, k: int)
    requires
        n <= store.len(),
    ensures
        left(store, visited.push(p), n) <= left(store, visited, n),
        0 <= k < n && paths::same(store[k].path, p) && !paths::holds(visited, p) ==> left(
            store,
            visited.push(p),
            n,
        ) < left(store, visited, n),
    decreases n,
{
    if n > 0 {
        lemma_left(store, visited, p, (n - 1) as nat, k);
        let q = store[n - 1].path;
        let w = visited.push(p);
        if paths::holds(visited, q) {
            let i = choose|i: int| 0 <= i < visited.len() && paths::same(#[trigger] visited[i], q);
            assert(paths::same(w[i], q));
        }
        if k == n - 1 && paths::same(q, p) {
            assert(paths::same(w[visited.len() as int], q));
            if paths::holds(visited, q) {
                let i = choose|i: int|
                    0 <= i < visited.len() && paths::same(#[trigger] visited[i], q);
                assert(paths::same(visited[i], p));
            }
        }
    }
}

proof fn lemma_lookup(store: Seq<Known>, p: Seq<char>, i: int)
    requires
        0 <= i,
    ensures
        match lookup(store, p, i) {
            Some(k) => i <= k < store.len() && paths::same(store[k].path, p),
            None => true,
        },
    decreases store.len() - i,
{
    if i < store.len() {
        lemma_lookup(store, p, i + 1);
    }
}

pub proof fn lemma_resolved(path: Seq<Seq<char>>, bases: Seq<Seq<char>>, n: int, store: Seq<Known>)
    requires
        0 <= n,
    ensures
        match resolved(path, bases, n, store) {
            Some(p) => is_file(store, p),
            None => true,
        },
    decreases bases.len() - n,
{
    if n < bases.len() {
        lemma_resolved(path, bases, n + 1, store);
    }
}

/// A file that was not reached before is one less to reach.
pub proof fn lemma_visit(store: Seq<Known>, visited: Seq<Seq<char>>, p: Seq<char>)
    ensures
        unvisited(store, visited.push(p)) <= unvisited(store, visited),
        is_file(store, p) && !paths::holds(visited, p) ==> unvisited(store, visited.push(p))
            < unvisited(store, visited),
{
    reveal(unvisited);
    lemma_lookup(store, p, 0);
    match lookup(store, p, 0) {
        Some(k) => {
            lemma_left(store, visited, p, store.len(), k);
        },
        None => {
            lemma_left(store, visited, p, store.len(), -1);
        },
    }
}

/// What an import that names no file is answered.
pub open spec fn unresolved_text(path: Seq<Seq<char>>, bases: Seq<Seq<char>>) -> Seq<char> {
    "cannot resolve import `"@ + paths::list_text(path, "::"@) + "` (looked in "@ + paths::list_text(
        bases,
        ", "@,
    ) + ")"@
}

/// The items of the file at `p`, or what is wrong with it.
pub open spec fn loaded(store: Seq<Known>, p: Seq<char>) -> Result<Seq<tree::Item>, Seq<char>> {
    match lookup(store, p, 0) {
        Some(i) => match store[i].found {
            Found::Text(t) => if lexer::lexed(t).errors.len() > 0 {
                Err("lex error in import "@ + p)
            } else {
                match program::parsed(program::input_of(t)) {
                    Ok(q) => Ok(q.items),
                    Err(f) => Err("parse error in "@ + p + ": "@ + f.message),
                }
            },
            Found::Unreadable(e) => Err("failed to read import "@ + p + ": "@ + e),
            Found::Absent => Err("failed to read import "@ + p + ": "@ + "no such file"@),
        },
        None => Err("failed to read import "@ + p + ": "@ + "no such file"@),
    }
}

/// Whether an import of `symbols`, or of everything, brings `item` along. Foreign
/// declarations always come along, because the functions of a module call them.
pub open spec fn brings(item: tree::Item, symbols: Option<Seq<Seq<char>>>) -> bool {
    match symbols {
        Some(v) => match item {
            tree::Item::Function(f) => v.contains(f.name),
            tree::Item::Struct(d) => v.contains(d.name),
            tree::Item::Class(d) => v.contains(d.name),
            tree::Item::Enum(d) => v.contains(d.name),
            tree::Item::Extern(_) => true,
            _ => false,
        },
        None => !(item is Import),
    }
}

/// `out` with those of the first `n` items that an import brings along.
pub open spec fn brought(
    out: Seq<tree::Item>,
    items: Seq<tree::Item>,
    symbols: Option<Seq<Seq<char>>>,
    n: nat,
) -> Seq<tree::Item>
    decreases n,
{
    if n == 0 {
        out
    } else {
        let before = brought(out, items, symbols, (n - 1) as nat);
        if brings(items[n - 1], symbols) {
            before.push(items[n - 1])
        } else {
            before
        }
    }
}

pub open spec fn with_issue(st: Progress, message: Seq<char>, span: Span, file: Seq<char>) -> Progress {
    Progress { issues: st.issues.push(Issue { message, span, file }), ..st }
}

/// What is reached with `p`.
pub open spec fn with_visited(st: Progress, p: Seq<char>) -> Progress {
    Progress { visited: st.visited.push(p), ..st }
}

/// What resolving an import of `path` asks for.
pub open spec fn with_asked(st: Progress, path: Seq<Seq<char>>, bases: Seq<Seq<char>>, store: Seq<Known>) -> Progress {
    Progress { wanted: asked(st.wanted, path, bases, 0, store), ..st }
}

/// `out` with the items of `importer` from `k` on, imports replaced by what they bring. A
/// file that was reached before brings nothing: cycles are cut.
#[verifier::opaque]
pub open spec fn included(
    bases: Seq<Seq<char>>,
    store: Seq<Known>,
    importer: Seq<char>,
    items: Seq<tree::Item>,
    k: int,
    st: Progress,
    out: Seq<tree::Item>,
) -> (Seq<tree::Item>, Progress)
    decreases unvisited(store, st.visited), items.len() - k,
{
    if k < 0 || k >= items.len() {
        (out, st)
    } else {
        match items[k] {
            tree::Item::Import(d) => {
                let s = with_asked(st, d.path, bases, store);
                match resolved(d.path, bases, 0, store) {
                    None => included(
                        bases,
                        store,
                        importer,
                        items,
                        k + 1,
                        with_issue(s, unresolved_text(d.path, bases), d.span, importer),
                        out,
                    ),
                    Some(p) => if paths::holds(s.visited, p) {
                        included(bases, store, importer, items, k + 1, s, out)
                    } else {
                        let v = with_visited(s, p);
                        proof {
                            lemma_resolved(d.path, bases, 0, store);
                            lemma_visit(store, s.visited, p);
                        }
                        match loaded(store, p) {
                            Err(m) => included(
                                bases,
                                store,
                                importer,
                                items,
                                k + 1,
                                with_issue(v, m, d.span, importer),
                                out,
                            ),
                            Ok(inner) => {
                                let (sub, w) = included(bases, store, p, inner, 0, v, seq![]);
                                // Files only get reached, so the condition always holds.
                                if unvisited(store, w.visited) <= unvisited(store, v.visited) {
                                    included(
                                        bases,
                                        store,
                                        importer,
                                        items,
                                        k + 1,
                                        w,
                                        brought(out, sub, d.symbols, sub.len()),
                                    )
                                } else {
                                    (out, w)
                                }
                            },
                        }
                    },
                }
            },
            other => included(bases, store, importer, items, k + 1, st, out.push(other)),
        }
    }
}

proof fn lemma_included_end(
    bases: Seq<Seq<char>>,
    store: Seq<Known>,
    importer: Seq<char>,
    items: Seq<tree::Item>,
    st: Progress,
    out: Seq<tree::Item>,
)
    ensures
        included(bases, store, importer, items, items.len() as int, st, out) == (out, st),
{
    reveal(included);
}

proof fn lemma_included_other(
    bases: Seq<Seq<char>>,
    store: Seq<Known>,
    importer: Seq<char>,
    items: Seq<tree::Item>,
    k: int,
    st: Progress,
    out: Seq<tree::Item>,
)
    requires
        0 <= k < items.len(),
        !(items[k] is Import),
    ensures
        included(bases, store, importer, items, k, st, out) == included(
            bases,
            store,
            importer,
            items,
            k + 1,
            st,
            out.push(items[k]),
        ),
{
    reveal(included);
}

/// How far one import takes the inclusion, where what it brings is not inlined.
spec fn stopped(bases: Seq<Seq<char>>, store: Seq<Known>, importer: Seq<char>, d: tree::ImportDecl, st: Progress) -> Option<
    Progress,
> {
    let s = with_asked(st, d.path, bases, store);
    match resolved(d.path, bases, 0, store) {
        None => Some(with_issue(s, unresolved_text(d.path, bases), d.span, importer)),
        Some(p) => if paths::holds(s.visited, p) {
            Some(s)
        } else {
            match loaded(store, p) {
                Err(m) => Some(with_issue(with_visited(s, p), m, d.span, importer)),
                Ok(_) => None,
            }
        },
    }
}

proof fn lemma_included_stopped(
    bases: Seq<Seq<char>>,
    store: Seq<Known>,
    importer: Seq<char>,
    items: Seq<tree::Item>,
    k: int,
    st: Progress,
    out: Seq<tree::Item>,
    d: tree::ImportDecl,
)
    requires
        0 <= k < items.len(),
        items[k] == tree::Item::Import(d),
        stopped(bases, store, importer, d, st) is Some,
    ensures
        included(bases, store, importer, items, k, st, out) == included(
            bases,
            store,
            importer,
            items,
            k + 1,
            stopped(bases, store, importer, d, st)->0,
            out,
        ),
{
    reveal(included);
}

proof fn lemma_included_taken(
    bases: Seq<Seq<char>>,
    store: Seq<Known>,
    importer: Seq<char>,
    items: Seq<tree::Item>,
    k: int,
    st: Progress,
    out: Seq<tree::Item>,
    d: tree::ImportDecl,
    p: Seq<char>,
    inner: Seq<tree::Item>,
    sub: Seq<tree::Item>,
    w: Progress,
)
    requires
        0 <= k < items.len(),
        items[k] == tree::Item::Import(d),
        resolved(d.path, bases, 0, store) == Some(p),
        !paths::holds(st.visited, p),
        loaded(store, p) == Ok::<Seq<tree::Item>, Seq<char>>(inner),
        included(
            bases,
            store,
            p,
            inner,
            0,
            with_visited(with_asked(st, d.path, bases, store), p),
            seq![],
        ) == (sub, w),
        unvisited(store, w.visited) <= unvisited(store, st.visited.push(p)),
    ensures
        included(bases, store, importer, items, k, st, out) == included(
            bases,
            store,
            importer,
            items,
            k + 1,
            w,
            brought(out, sub, d.symbols, sub.len()),
        ),
{
    reveal(included);
}

/// A program with its imports in place.
pub struct Expanded {
    pub program: Program,
    pub errors: Vec<ImportError>,
    /// The entry file and every file that an import names, in order, each once.
    pub files: Vec<String>,
    /// The paths of which nothing was known: with probes of them the result may differ.
    pub wanted: Vec<String>,
}

/// A program with its imports in place, as a mathematical value.
pub struct Expansion {
    pub program: tree::Program,
    pub issues: Seq<Issue>,
    pub files: Seq<Seq<char>>,
    pub wanted: Seq<Seq<char>>,
}

impl View for Expanded {
    type V = Expansion;

    open spec fn view(&self) -> Expansion {
        Expansion {
            program: self.program.tree(),
            issues: issues_of(self.errors@),
            files: ast::names_of(self.files@),
            wanted: ast::names_of(self.wanted@),
        }
    }
}

/// What including the imports of `p` gives.
pub open spec fn expansion(
    p: tree::Program,
    importer: Seq<char>,
    bases: Seq<Seq<char>>,
    store: Seq<Known>,
) -> Expansion {
    let start = Progress { visited: seq![], issues: seq![], wanted: seq![] };
    let (items, end) = included(bases, store, importer, p.items, 0, start, seq![]);
    let all = end.visited.push(importer);
    Expansion {
        program: tree::Program { items, span: p.span },
        issues: end.issues,
        files: paths::arranged(all, all.len()),
        wanted: end.wanted,
    }
}

struct Inclusion<'a> {
    bases: &'a Vec<String>,
    store: &'a Vec<Probe>,
    visited: Vec<String>,
    errors: Vec<ImportError>,
    wanted: Vec<String>,
}

impl<'a> View for Inclusion<'a> {
    type V = Progress;

    closed spec fn view(&self) -> Progress {
        Progress {
            visited: ast::names_of(self.visited@),
            issues: issues_of(self.errors@),
            wanted: ast::names_of(self.wanted@),
        }
    }
}

fn has_name(v: &Vec<String>, name: &str) -> (r: bool)
    ensures
        r == ast::names_of(v@).contains(name@),
{
    let ghost names = ast::names_of(v@);
    let mut i: usize = 0;
    while i < v.len()
        invariant
            i <= v.len(),
            names == ast::names_of(v@),
            forall|k: int| 0 <= k < i ==> names[k] != name@,
        decreases v.len() - i,
    {
        if text::same_str(v[i].as_str(), name) {
            assert(names[i as int] == name@);
            return true;
        }
        i = i + 1;
    }
    false
}

pub open spec fn symbols_of(v: Option<Vec<String>>) -> Option<Seq<Seq<char>>> {
    match v {
        Some(names) => Some(ast::names_of(names@)),
        None => None,
    }
}

fn is_brought(item: &Item, symbols: &Option<Vec<String>>) -> (r: bool)
    ensures
        r == brings(item.tree(), symbols_of(*symbols)),
{
    match symbols {
        Some(v) => match item {
            Item::Function(f) => has_name(v, f.name.as_str()),
            Item::Struct(d) => has_name(v, d.name.as_str()),
            Item::Class(d) => has_name(v, d.name.as_str()),
            Item::Enum(d) => has_name(v, d.name.as_str()),
            Item::Extern(_) => true,
            _ => false,
        },
        None => match item {
            Item::Import(_) => false,
            _ => true,
        },
    }
}

/// The items in reverse, so that they can be taken one by one.
fn reversed(items: Vec<Item>) -> (r: Vec<Item>)
    ensures
        r@ == items@.reverse(),
{
    let mut from = items;
    let mut r: Vec<Item> = Vec::new();
    let ghost n = items@.len();
    while from.len() > 0
        invariant
            from@.len() + r@.len() == n,
            items@.len() == n,
            from@ == items@.take(from@.len() as int),
            forall|k: int| 0 <= k < r@.len() ==> r@[k] == items@[n - 1 - k],
        decreases from.len(),
    {
        let ghost before = from@;
        match from.pop() {
            Some(x) => {
                r.push(x);
                assert(from@ =~= items@.take(from@.len() as int));
            },
            None => {},
        }
    }
    assert(r@ =~= items@.reverse());
    r
}

fn bring(out: &mut Vec<Item>, items: Vec<Item>, symbols: &Option<Vec<String>>)
    ensures
        ast::items_of(final(out)@) == brought(
            ast::items_of(old(out)@),
            ast::items_of(items@),
            symbols_of(*symbols),
            items@.len(),
        ),
{
    let ghost base = ast::items_of(out@);
    let ghost all = ast::items_of(items@);
    let ghost given = items@;
    assert(all.len() == given.len());
    let mut rest = reversed(items);
    let ghost mut k: nat = 0;
    while rest.len() > 0
        invariant
            k + rest@.len() == given.len(),
            all == ast::items_of(given),
            all.len() == given.len(),
            rest@ == given.reverse().take(rest@.len() as int),
            ast::items_of(out@) == brought(base, all, symbols_of(*symbols), k),
        decreases rest.len(),
    {
        let ghost before = rest@;
        match rest.pop() {
            Some(x) => {
                assert(x == given[k as int]);
                assert(all[k as int] == x.tree());
                if is_brought(&x, symbols) {
                    out.push(x);
                }
                proof {
                    k = k + 1;
                }
                assert(rest@ =~= given.reverse().take(rest@.len() as int));
            },
            None => {},
        }
    }
}

fn unresolved_message(path: &Vec<String>, bases: &Vec<String>) -> (r: String)
    ensures
        r@ == unresolved_text(ast::names_of(path@), ast::names_of(bases@)),
{
    let mut out = text::chars_of("cannot resolve import `");
    let name = join_names(path, "::");
    text::push_str(&mut out, name.as_str());
    text::push_str(&mut out, "` (looked in ");
    let searched = join_names(bases, ", ");
    text::push_str(&mut out, searched.as_str());
    text::push_str(&mut out, ")");
    text::to_text(&out)
}

pub open spec fn items_view(r: Result<Vec<Item>, String>) -> Result<Seq<tree::Item>, Seq<char>> {
    match r {
        Ok(v) => Ok(ast::items_of(v@)),
        Err(e) => Err(e@),
    }
}

fn message_of(head: &str, path: &str, mid: &str, tail: &str) -> (r: String)
    ensures
        r@ == head@ + path@ + mid@ + tail@,
{
    let mut out = text::chars_of(head);
    text::push_str(&mut out, path);
    text::push_str(&mut out, mid);
    text::push_str(&mut out, tail);
    text::to_text(&out)
}

fn load(store: &Vec<Probe>, p: &str) -> (r: Result<Vec<Item>, String>)
    ensures
        items_view(r) == loaded(known_of(store@), p@),
{
    match find_probe(store, p) {
        Some(i) => {
            assert(known_of(store@)[i as int] == store@[i as int]@);
            match &store[i].state {
                FileState::Text(t) => {
                    let src = Source::new(t.as_str());
                    let lexed = lex_source(&src);
                    assert(lexed@.errors.len() == lexed.errors@.len());
                    if lexed.errors.len() > 0 {
                        let mut out = text::chars_of("lex error in import ");
                        text::push_str(&mut out, p);
                        return Err(text::to_text(&out));
                    }
                    match parse(lexed.tokens, &src) {
                        Ok(q) => Ok(q.items),
                        Err(e) => Err(message_of("parse error in ", p, ": ", e.message.as_str())),
                    }
                },
                FileState::Unreadable(e) => Err(message_of("failed to read import ", p, ": ", e.as_str())),
                FileState::Absent => Err(message_of("failed to read import ", p, ": ", "no such file")),
            }
        },
        None => Err(message_of("failed to read import ", p, ": ", "no such file")),
    }
}

impl<'a> Inclusion<'a> {
    spec fn known(&self) -> Seq<Known> {
        known_of(self.store@)
    }

    spec fn places(&self) -> Seq<Seq<char>> {
        ast::names_of(self.bases@)
    }

    fn report(&mut self, message: String, span: Span, file: &str)
        ensures
            final(self)@ == with_issue(old(self)@, message@, span, file@),
            final(self).bases == old(self).bases,
            final(self).store == old(self).store,
    {
        let ghost before = self.errors@;
        let e = ImportError { message, span, file: copy_text(file) };
        self.errors.push(e);
        assert(issues_of(self.errors@) =~= issues_of(before).push(e@));
    }

    /// Appends the items of a file, imports replaced by what they bring.
    #[verifier::rlimit(60)]
    fn expand_items(&mut self, items: Vec<Item>, importer: &str) -> (r: Vec<Item>)
        ensures
            (ast::items_of(r@), final(self)@) == included(
                old(self).places(),
                old(self).known(),
                importer@,
                ast::items_of(items@),
                0,
                old(self)@,
                seq![],
            ),
            unvisited(old(self).known(), final(self)@.visited) <= unvisited(
                old(self).known(),
                old(self)@.visited,
            ),
            final(self).bases == old(self).bases,
            final(self).store == old(self).store,
        decreases unvisited(old(self).known(), old(self)@.visited), 2int,
    {
        let ghost places = self.places();
        let ghost known = self.known();
        let ghost all = ast::items_of(items@);
        let ghost given = items@;
        let ghost limit = unvisited(known, self@.visited);
        let ghost whole = included(places, known, importer@, all, 0, self@, seq![]);
        assert(all.len() == given.len());
        let mut out: Vec<Item> = Vec::new();
        assert(ast::items_of(out@) =~= seq![]);
        let mut rest = reversed(items);
        let ghost mut k: int = 0;
        while rest.len() > 0
            invariant
                k + rest@.len() == given.len(),
                0 <= k,
                all == ast::items_of(given),
                all.len() == given.len(),
                rest@ == given.reverse().take(rest@.len() as int),
                self.bases == old(self).bases,
                self.store == old(self).store,
                places == self.places(),
                known == self.known(),
                limit == unvisited(known, old(self)@.visited),
                unvisited(known, self@.visited) <= limit,
                whole == included(places, known, importer@, all, 0, old(self)@, seq![]),
                included(places, known, importer@, all, k, self@, ast::items_of(out@)) == whole,
            decreases rest.len(),
        {
            match rest.pop() {
                Some(item) => {
                    assert(item == given[k]);
                    assert(all[k] == item.tree());
                    assert(rest@ =~= given.reverse().take(rest@.len() as int));
                    self.take_item(item, importer, &mut out, Ghost(all), Ghost(k));
                    proof {
                        k = k + 1;
                    }
                },
                None => {},
            }
        }
        proof {
            lemma_included_end(places, known, importer@, all, self@, ast::items_of(out@));
        }
        out
    }

    /// Appends one item, or what it brings.
    fn take_item(
        &mut self,
        item: Item,
        importer: &str,
        out: &mut Vec<Item>,
        Ghost(all): Ghost<Seq<tree::Item>>,
        Ghost(k): Ghost<int>,
    )
        requires
            0 <= k < all.len(),
            all[k] == item.tree(),
        ensures
            included(
                old(self).places(),
                old(self).known(),
                importer@,
                all,
                k,
                old(self)@,
                ast::items_of(old(out)@),
            ) == included(
                old(self).places(),
                old(self).known(),
                importer@,
                all,
                k + 1,
                final(self)@,
                ast::items_of(final(out)@),
            ),
            unvisited(old(self).known(), final(self)@.visited) <= unvisited(
                old(self).known(),
                old(self)@.visited,
            ),
            final(self).bases == old(self).bases,
            final(self).store == old(self).store,
        decreases unvisited(old(self).known(), old(self)@.visited), 1int,
    {
        match item {
            Item::Import(d) => {
                self.take_import(d, importer, out, Ghost(all), Ghost(k));
            },
            other => {
                proof {
                    lemma_included_other(
                        self.places(),
                        self.known(),
                        importer@,
                        all,
                        k,
                        self@,
                        ast::items_of(out@),
                    );
                }
                out.push(other);
            },
        }
    }

    /// Appends what one import brings.
    fn take_import(&mut self, d: ImportDecl, importer: &str, out: &mut Vec<Item>, Ghost(all): Ghost<Seq<tree::Item>>, Ghost(k): Ghost<int>)
        requires
            0 <= k < all.len(),
            all[k] == tree::Item::Import(d.tree()),
        ensures
            included(
                old(self).places(),
                old(self).known(),
                importer@,
                all,
                k,
                old(self)@,
                ast::items_of(old(out)@),
            ) == included(
                old(self).places(),
                old(self).known(),
                importer@,
                all,
                k + 1,
                final(self)@,
                ast::items_of(final(out)@),
            ),
            unvisited(old(self).known(), final(self)@.visited) <= unvisited(
                old(self).known(),
                old(self)@.visited,
            ),
            final(self).bases == old(self).bases,
            final(self).store == old(self).store,
        decreases unvisited(old(self).known(), old(self)@.visited), 0int,
    {
        let ghost places = self.places();
        let ghost known = self.known();
        let ghost st = self@;
        let ghost tree = d.tree();
        let ghost before = ast::items_of(out@);
        push_asked(&mut self.wanted, &d.path, self.bases, self.store);
        assert(self@ == with_asked(st, tree.path, places, known));
        match resolve_import(&d.path, self.bases, self.store) {
            None => {
                let m = unresolved_message(&d.path, self.bases);
                self.report(m, d.span, importer);
                proof {
                    lemma_included_stopped(places, known, importer@, all, k, st, before, tree);
                }
            },
            Some(p) => {
                if holds_path(&self.visited, p.as_str()) {
                    proof {
                        lemma_included_stopped(places, known, importer@, all, k, st, before, tree);
                    }
                    return;
                }
                let ghost asked = self@;
                self.visited.push(copy_text(p.as_str()));
                assert(self@ == with_visited(asked, p@));
                proof {
                    lemma_resolved(tree.path, places, 0, known);
                    lemma_visit(known, st.visited, p@);
                }
                match load(self.store, p.as_str()) {
                    Err(m) => {
                        self.report(m, d.span, importer);
                        proof {
                            lemma_included_stopped(places, known, importer@, all, k, st, before, tree);
                        }
                    },
                    Ok(inner) => {
                        let ghost inner_items = ast::items_of(inner@);
                        let sub = self.expand_items(inner, p.as_str());
                        proof {
                            assert(ast::items_of(sub@).len() == sub@.len());
                            lemma_included_taken(
                                places,
                                known,
                                importer@,
                                all,
                                k,
                                st,
                                before,
                                tree,
                                p@,
                                inner_items,
                                ast::items_of(sub@),
                                self@,
                            );
                        }
                        bring(out, sub, &d.symbols);
                    },
                }
            },
        }
    }
}

/// Puts what imports name in their place. An import that fails is reported and left out.
pub fn expand_imports(program: Program, importer: &str, bases: &Vec<String>, store: &Vec<Probe>) -> (r: Expanded)
    ensures
        r@ == expansion(program.tree(), importer@, ast::names_of(bases@), known_of(store@)),
{
    let span = program.span;
    let mut inclusion = Inclusion {
        bases,
        store,
        visited: Vec::new(),
        errors: Vec::new(),
        wanted: Vec::new(),
    };
    assert(inclusion@.visited =~= seq![]);
    assert(inclusion@.issues =~= seq![]);
    assert(inclusion@.wanted =~= seq![]);
    let items = inclusion.expand_items(program.items, importer);
    let mut all = inclusion.visited;
    all.push(copy_text(importer));
    let files = arrange(all);
    Expanded {
        program: Program { items, span },
        errors: inclusion.errors,
        files,
        wanted: inclusion.wanted,
    }
}

} // verus!
