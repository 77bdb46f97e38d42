//! Projects: the manifest, the entry file, the files of a new project, and where a build
//! puts its results.
use vstd::prelude::*;
use crate::modules;
use crate::modules::Ancestor;
use crate::paths;
use crate::paths::{copy_text, join, path_file_name, path_file_stem, set_extension};
use crate::text;
use crate::text::chars_of;

verus! {

/// The version of the toolchain.
pub const VERSION: &'static str = "0.1.0";

/// How `Debug` writes a string: between quotes, with escapes.
pub uninterp spec fn debug_text(s: Seq<char>) -> Seq<char>;

/// `format!` with `{:?}` of a string. What it gives is named, not spelled out: which
/// characters are escaped follows the Unicode tables of the standard library.
#[verifier::external_body]
fn quoted(s: &str) -> (r: String)
    ensures
        r@ == debug_text(s@),
{
    format!("{:?}", s)
}

// ── Manifest ────────────────────────────────────────────────────────────────

/// What `hella.toml` says.
#[derive(Debug, Clone)]
pub struct Manifest {
    pub name: String,
    pub version: String,
}

/// What `hella.toml` says, as a mathematical value.
pub struct Package {
    pub name: Seq<char>,
    pub version: Seq<char>,
}

impl View for Manifest {
    type V = Package;

    open spec fn view(&self) -> Package {
        Package { name: self.name@, version: self.version@ }
    }
}

/// What a line of the manifest says.
pub enum Line {
    /// Nothing: it is empty or a comment.
    Nothing,
    /// It sets a key.
    Sets(Seq<char>, Seq<char>),
    /// It has no `=`.
    Malformed(Seq<char>),
    /// It gives a key a value that stands in no quotes.
    Unquoted(Seq<char>),
}

/// The index of the first `c` of `s` from `i` on, or the end.
pub open spec fn find(s: Seq<char>, c: char, i: int) -> int
    decreases s.len() - i,
{
    if i < 0 || i >= s.len() {
        s.len() as int
    } else if s[i] == c {
        i
    } else {
        find(s, c, i + 1)
    }
}

/// What stands in `s` between two marks `q`.
pub open spec fn between(s: Seq<char>, q: char) -> Option<Seq<char>> {
    if s.len() >= 2 && s[0] == q && s.last() == q {
        Some(s.subrange(1, s.len() - 1))
    } else {
        None
    }
}

/// What a line of the manifest says.
pub open spec fn line_of(raw: Seq<char>) -> Line {
    let s = text::trim(raw);
    let e = find(s, '=', 0);
    if s.len() == 0 || s[0] == '#' {
        Line::Nothing
    } else if e >= s.len() {
        Line::Malformed(s)
    } else {
        let key = text::trim(s.take(e));
        let value = text::trim(s.skip(e + 1));
        match between(value, '"') {
            Some(v) => Line::Sets(key, v),
            None => match between(value, '\'') {
                Some(v) => Line::Sets(key, v),
                None => Line::Unquoted(key),
            },
        }
    }
}

/// What is wrong with line `k` of the manifest at `path`.
pub open spec fn line_error(path: Seq<char>, k: int, tail: Seq<char>) -> Seq<char> {
    "malformed "@ + path + " line "@ + text::decimal((k + 1) as nat) + ": "@ + tail
}

/// The name and the version that the lines from `k` on set, the last of each.
pub open spec fn settings(
    path: Seq<char>,
    ls: Seq<Seq<char>>,
    k: int,
    name: Option<Seq<char>>,
    version: Option<Seq<char>>,
) -> Result<Package, Seq<char>>
    decreases ls.len() - k,
{
    if k < 0 || k >= ls.len() {
        if name is Some && version is Some {
            Ok(Package { name: name->0, version: version->0 })
        } else {
            Err(path + " must define `name` and `version`"@)
        }
    } else {
        match line_of(ls[k]) {
            Line::Nothing => settings(path, ls, k + 1, name, version),
            Line::Sets(key, v) => if key == "name"@ {
                settings(path, ls, k + 1, Some(v), version)
            } else if key == "version"@ {
                settings(path, ls, k + 1, name, Some(v))
            } else {
                settings(path, ls, k + 1, name, version)
            },
            Line::Malformed(s) => Err(line_error(path, k, debug_text(s))),
            Line::Unquoted(key) => if key == "name"@ || key == "version"@ {
                Err(line_error(path, k, "value must be quoted"@))
            } else {
                settings(path, ls, k + 1, name, version)
            },
        }
    }
}

pub open spec fn package_view(r: Result<Manifest, String>) -> Result<Package, Seq<char>> {
    match r {
        Ok(m) => Ok(m@),
        Err(e) => Err(e@),
    }
}

fn find_char(s: &Vec<char>, c: char) -> (r: usize)
    ensures
        r == find(s@, c, 0),
        r <= s@.len(),
{
    let mut i: usize = 0;
    while i < s.len() && s[i] != c
        invariant
            i <= s.len(),
            find(s@, c, 0) == find(s@, c, i as int),
        decreases s.len() - i,
    {
        i = i + 1;
    }
    i
}

fn unquote(s: &Vec<char>, q: char) -> (r: Option<Vec<char>>)
    ensures
        paths::text_of(r) == between(s@, q),
{
    if s.len() >= 2 && s[0] == q && s[s.len() - 1] == q {
        let t = text::copy_range(s, 1, s.len() - 1);
        assert(t@ =~= s@.subrange(1, s@.len() - 1));
        Some(t)
    } else {
        None
    }
}

fn line_message(path: &str, k: usize, tail: &str) -> (r: String)
    requires
        k < usize::MAX,
    ensures
        r@ == line_error(path@, k as int, tail@),
{
    let mut out = chars_of("malformed ");
    text::push_str(&mut out, path);
    text::push_str(&mut out, " line ");
    text::push_decimal(&mut out, (k + 1) as u64);
    text::push_str(&mut out, ": ");
    text::push_str(&mut out, tail);
    text::to_text(&out)
}

/// Reads the text of a manifest. Keys other than `name` and `version` are ignored, whatever their
/// values look like.
pub fn parse_manifest(path: &str, source: &str) -> (r: Result<Manifest, String>)
    ensures
        package_view(r) == settings(path@, text::lines(source@), 0, None, None),
{
    let ls = text::split_lines(&chars_of(source));
    let ghost all = text::lines(source@);
    assert(text::texts(ls@) == all);
    assert(all.len() == ls@.len());
    let mut name: Option<String> = None;
    let mut version: Option<String> = None;
    let mut k: usize = 0;
    while k < ls.len()
        invariant
            k <= ls.len(),
            all == text::texts(ls@),
            all == text::lines(source@),
            all.len() == ls@.len(),
            settings(path@, all, 0, None, None) == settings(
                path@,
                all,
                k as int,
                paths::string_of(name),
                paths::string_of(version),
            ),
        decreases ls.len() - k,
    {
        assert(all[k as int] == ls@[k as int]@);
        let s = text::trim_text(&ls[k]);
        if s.len() == 0 || s[0] == '#' {
            k = k + 1;
            continue;
        }
        let e = find_char(&s, '=');
        if e >= s.len() {
            let shown = quoted(text::to_text(&s).as_str());
            return Err(line_message(path, k, shown.as_str()));
        }
        let left = text::copy_range(&s, 0, e);
        assert(left@ =~= s@.take(e as int));
        let right = text::copy_range(&s, e + 1, s.len());
        assert(right@ =~= s@.skip(e + 1));
        let key = text::trim_text(&left);
        let value = text::trim_text(&right);
        let inner = match unquote(&value, '"') {
            Some(v) => v,
            None => match unquote(&value, '\'') {
                Some(v) => v,
                None => {
                    if text::text_is(&key, "name") || text::text_is(&key, "version") {
                        return Err(line_message(path, k, "value must be quoted"));
                    }
                    k = k + 1;
                    continue;
                },
            },
        };
        if text::text_is(&key, "name") {
            name = Some(text::to_text(&inner));
        } else if text::text_is(&key, "version") {
            version = Some(text::to_text(&inner));
        }
        k = k + 1;
    }
    match (name, version) {
        (Some(n), Some(v)) => Ok(Manifest { name: n, version: v }),
        _ => {
            let mut out = chars_of(path);
            text::push_str(&mut out, " must define `name` and `version`");
            Err(text::to_text(&out))
        },
    }
}

/// The manifest of a directory: its path, and its text or why it could not be read.
#[derive(Debug)]
pub struct ManifestFile {
    pub path: String,
    pub content: Result<String, String>,
}

/// What a manifest file gives.
pub open spec fn manifest_of(f: Option<ManifestFile>) -> Result<Option<Package>, Seq<char>> {
    match f {
        None => Ok(None),
        Some(m) => match m.content {
            Ok(t) => match settings(m.path@, text::lines(t@), 0, None, None) {
                Ok(p) => Ok(Some(p)),
                Err(e) => Err(e),
            },
            Err(e) => Err("failed to read "@ + m.path@ + ": "@ + e@),
        },
    }
}

pub open spec fn manifest_view(r: Result<Option<Manifest>, String>) -> Result<Option<Package>, Seq<char>> {
    match r {
        Ok(Some(m)) => Ok(Some(m@)),
        Ok(None) => Ok(None),
        Err(e) => Err(e@),
    }
}

/// The manifest of a directory, where it has one.
pub fn read_manifest(f: &Option<ManifestFile>) -> (r: Result<Option<Manifest>, String>)
    ensures
        manifest_view(r) == manifest_of(*f),
{
    match f {
        None => Ok(None),
        Some(m) => match &m.content {
            Ok(t) => match parse_manifest(m.path.as_str(), t.as_str()) {
                Ok(p) => Ok(Some(p)),
                Err(e) => Err(e),
            },
            Err(e) => {
                let mut out = chars_of("failed to read ");
                text::push_str(&mut out, m.path.as_str());
                text::push_str(&mut out, ": ");
                text::push_str(&mut out, e.as_str());
                Err(text::to_text(&out))
            },
        },
    }
}

// ── Entry file ──────────────────────────────────────────────────────────────

/// A project: the directory of its manifest and the name of its binary.
#[derive(Debug, Clone)]
pub struct Project {
    pub root: String,
    pub bin_name: String,
}

impl Project {
    /// Where a build of the project puts its results.
    pub fn out_dir(&self, release: bool) -> (r: String)
        ensures
            r@ == paths::joined(
                paths::joined(self.root@, "out"@),
                if release {
                    "release"@
                } else {
                    "debug"@
                },
            ),
    {
        let out = join(self.root.as_str(), "out");
        if release {
            join(out.as_str(), "release")
        } else {
            join(out.as_str(), "debug")
        }
    }

    /// The executable of the project.
    pub fn exe_path(&self, release: bool) -> (r: String)
        ensures
            r@ == paths::joined(
                paths::joined(
                    paths::joined(self.root@, "out"@),
                    if release {
                        "release"@
                    } else {
                        "debug"@
                    },
                ),
                self.bin_name@,
            ),
    {
        let dir = self.out_dir(release);
        join(dir.as_str(), self.bin_name.as_str())
    }
}

/// The file that a command works on, with its project where no file was given.
#[derive(Debug, Clone)]
pub struct ResolvedEntry {
    pub path: String,
    pub project: Option<Project>,
}

/// The nearest directory with a manifest.
pub fn find_project_root(ancestors: &Vec<Ancestor>) -> (r: Option<String>)
    ensures
        paths::string_of(r) == (match modules::first_manifest(ancestors@, 0) {
            Some(i) => Some(ancestors@[i].path@),
            None => None,
        }),
{
    let mut i: usize = 0;
    while i < ancestors.len()
        invariant
            i <= ancestors.len(),
            modules::first_manifest(ancestors@, 0) == modules::first_manifest(ancestors@, i as int),
        decreases ancestors.len() - i,
    {
        if ancestors[i].has_manifest {
            return Some(copy_text(ancestors[i].path.as_str()));
        }
        i = i + 1;
    }
    None
}

/// What is known of the directory that a command is run in.
#[derive(Debug)]
pub struct Surroundings {
    /// The project root, else the directory itself.
    pub root: String,
    /// It holds a file `src/main.hll`.
    pub has_main: bool,
    /// It holds a file `src/lib.hll`.
    pub has_lib: bool,
    pub manifest: Option<ManifestFile>,
}

/// The entry file of a project and the name of its binary, or what is missing.
pub open spec fn project_entry(at: Surroundings) -> Result<(Seq<char>, Seq<char>), Seq<char>> {
    if at.has_main || at.has_lib {
        let path = paths::joined(
            at.root@,
            if at.has_main {
                "src/main.hll"@
            } else {
                "src/lib.hll"@
            },
        );
        match manifest_of(at.manifest) {
            Ok(Some(m)) => Ok((path, m.name)),
            Ok(None) => Ok(
                (
                    path,
                    match paths::file_stem(path) {
                        Some(s) => s,
                        None => "main"@,
                    },
                ),
            ),
            Err(e) => Err(e),
        }
    } else {
        Err(
            "no input file and no project found (looked for src/main.hll and src/lib.hll in "@ + at.root@
                + "); pass a file or run `hella new <name>`"@,
        )
    }
}

/// The file that a command works on: the one that was given, else that of the project.
pub fn resolve_entry(explicit: Option<String>, at: &Surroundings) -> (r: Result<ResolvedEntry, String>)
    ensures
        match explicit {
            Some(f) => r is Ok && r->Ok_0.path@ == f@ && r->Ok_0.project is None,
            None => match project_entry(*at) {
                Ok((path, name)) => r is Ok && r->Ok_0.path@ == path && r->Ok_0.project is Some
                    && r->Ok_0.project->0.root@ == at.root@ && r->Ok_0.project->0.bin_name@ == name,
                Err(e) => r is Err && r->Err_0@ == e,
            },
        },
{
    if let Some(f) = explicit {
        return Ok(ResolvedEntry { path: f, project: None });
    }
    if at.has_main || at.has_lib {
        let path = join(
            at.root.as_str(),
            if at.has_main {
                "src/main.hll"
            } else {
                "src/lib.hll"
            },
        );
        let bin_name = match read_manifest(&at.manifest) {
            Ok(Some(m)) => m.name,
            Ok(None) => match path_file_stem(path.as_str()) {
                Some(s) => s,
                None => "main".to_owned(),
            },
            Err(e) => {
                return Err(e);
            },
        };
        return Ok(
            ResolvedEntry {
                path,
                project: Some(Project { root: copy_text(at.root.as_str()), bin_name }),
            },
        );
    }
    let mut out = chars_of(
        "no input file and no project found (looked for src/main.hll and src/lib.hll in ",
    );
    text::push_str(&mut out, at.root.as_str());
    text::push_str(&mut out, "); pass a file or run `hella new <name>`");
    Err(text::to_text(&out))
}

/// Whether a check of `path` asks for a main function: libraries have none.
pub fn requires_main(path: &str) -> (r: bool)
    ensures
        r == (paths::file_stem(path@) == Some("main"@)),
{
    match path_file_stem(path) {
        Some(s) => text::same_str(s.as_str(), "main"),
        None => false,
    }
}

// ── New projects ────────────────────────────────────────────────────────────

/// What stands where a project is to be made.
#[derive(Debug, Clone, Copy, PartialEq, Eq, Structural)]
pub enum Site {
    Free,
    EmptyDirectory,
    FullDirectory,
    NotADirectory,
}

/// A file to write.
#[derive(Debug, Clone)]
pub struct NewFile {
    pub path: String,
    pub content: String,
}

/// The name of a new project, or why it cannot be made.
pub open spec fn new_name(path: Seq<char>, vcs: Seq<char>, site: Site) -> Result<Seq<char>, Seq<char>> {
    if vcs != "git"@ && vcs != "none"@ {
        Err("unsupported --vcs "@ + debug_text(vcs) + ": only `git` and `none` for now"@)
    } else {
        match paths::file_name(path) {
            None => Err("invalid project path: "@ + path),
            Some(name) => match site {
                Site::NotADirectory => Err(path + " exists and is not a directory"@),
                Site::FullDirectory => Err(path + " already exists and is not empty"@),
                _ => Ok(name),
            },
        }
    }
}

/// The manifest of a new project.
pub open spec fn new_manifest(name: Seq<char>) -> Seq<char> {
    "name = \""@ + name + "\"\nversion = \"0.1.0\"\n"@
}

/// The entry file of a new library.
pub open spec fn lib_source(name: Seq<char>) -> Seq<char> {
    "// "@ + name + " — Hella library.\n//\n// Add modules next to this file and import them by file name:\n// `import mymod` → `mymod.hll`, `import net::http` → `net/http.hll`.\n\nstring greet(string name) do\n    return \"hello {name}\"\nend\n"@
}

/// The entry file of a new program.
pub open spec fn main_source(name: Seq<char>) -> Seq<char> {
    "// "@ + name + " — Hella binary project.\n\nimport std::io\n\nvoid main() do\n    println(\"Hello from "@
        + name + "!\")\nend\n"@
}

/// The files of a new project, as mathematical values.
pub open spec fn new_files(name: Seq<char>, lib: bool) -> Seq<(Seq<char>, Seq<char>)> {
    seq![
        ("hella.toml"@, new_manifest(name)),
        if lib {
            ("src/lib.hll"@, lib_source(name))
        } else {
            ("src/main.hll"@, main_source(name))
        },
        (".gitignore"@, "/out/\n"@),
    ]
}

pub open spec fn files_of(v: Seq<NewFile>) -> Seq<(Seq<char>, Seq<char>)> {
    Seq::new(v.len(), |i: int| (v[i].path@, v[i].content@))
}

fn surrounded(head: &str, mid: &str, tail: &str) -> (r: String)
    ensures
        r@ == head@ + mid@ + tail@,
{
    let mut out = chars_of(head);
    text::push_str(&mut out, mid);
    text::push_str(&mut out, tail);
    text::to_text(&out)
}

/// The name that a new project gets, or why it cannot be made.
pub fn check_new(path: &str, vcs: &str, site: Site) -> (r: Result<String, String>)
    ensures
        match new_name(path@, vcs@, site) {
            Ok(n) => r is Ok && r->Ok_0@ == n,
            Err(e) => r is Err && r->Err_0@ == e,
        },
{
    if !text::same_str(vcs, "git") && !text::same_str(vcs, "none") {
        let shown = quoted(vcs);
        return Err(
            surrounded("unsupported --vcs ", shown.as_str(), ": only `git` and `none` for now"),
        );
    }
    match path_file_name(path) {
        None => {
            let mut out = chars_of("invalid project path: ");
            text::push_str(&mut out, path);
            Err(text::to_text(&out))
        },
        Some(name) => match site {
            Site::NotADirectory => {
                let mut out = chars_of(path);
                text::push_str(&mut out, " exists and is not a directory");
                Err(text::to_text(&out))
            },
            Site::FullDirectory => {
                let mut out = chars_of(path);
                text::push_str(&mut out, " already exists and is not empty");
                Err(text::to_text(&out))
            },
            _ => Ok(name),
        },
    }
}

/// The files of a new project.
pub fn new_project(name: &str, lib: bool) -> (r: Vec<NewFile>)
    ensures
        files_of(r@) == new_files(name@, lib),
{
    let manifest = NewFile {
        path: "hella.toml".to_owned(),
        content: surrounded("name = \"", name, "\"\nversion = \"0.1.0\"\n"),
    };
    let entry = if lib {
        NewFile {
            path: "src/lib.hll".to_owned(),
            content: surrounded(
                "// ",
                name,
                " — Hella library.\n//\n// Add modules next to this file and import them by file name:\n// `import mymod` → `mymod.hll`, `import net::http` → `net/http.hll`.\n\nstring greet(string name) do\n    return \"hello {name}\"\nend\n",
            ),
        }
    } else {
        let head = surrounded(
            "// ",
            name,
            " — Hella binary project.\n\nimport std::io\n\nvoid main() do\n    println(\"Hello from ",
        );
        NewFile {
            path: "src/main.hll".to_owned(),
            content: surrounded(head.as_str(), name, "!\")\nend\n"),
        }
    };
    let ignore = NewFile { path: ".gitignore".to_owned(), content: "/out/\n".to_owned() };
    let mut files: Vec<NewFile> = Vec::new();
    files.push(manifest);
    files.push(entry);
    files.push(ignore);
    assert(files_of(files@) =~= new_files(name@, lib));
    files
}

// ── Results of a build ──────────────────────────────────────────────────────

/// Where the executable goes that is built from `input`: to `chosen`, or next to the
/// source, without its extension.
pub open spec fn exe_of(input: Seq<char>, chosen: Option<Seq<char>>) -> Seq<char> {
    match chosen {
        Some(o) => o,
        None => if paths::extension(input) is Some {
            paths::with_extension(input, ""@)
        } else {
            input
        },
    }
}

pub fn default_exe_path(input: &str, chosen: Option<String>) -> (r: String)
    ensures
        r@ == exe_of(input@, paths::string_of(chosen)),
{
    if let Some(o) = chosen {
        return o;
    }
    if paths::path_extension(input).is_some() {
        set_extension(input, "")
    } else {
        copy_text(input)
    }
}

/// Where the object file of an executable goes.
pub open spec fn object_of(exe: Seq<char>) -> Seq<char> {
    if paths::extension(exe) == Some("o"@) {
        paths::with_extension(exe, "obj.o"@)
    } else {
        paths::with_extension(exe, "o"@)
    }
}

pub fn obj_path_for_exe(exe: &str) -> (r: String)
    ensures
        r@ == object_of(exe@),
{
    let is_object = match paths::path_extension(exe) {
        Some(e) => text::same_str(e.as_str(), "o"),
        None => false,
    };
    if is_object {
        set_extension(exe, "obj.o")
    } else {
        set_extension(exe, "o")
    }
}

/// An object file never takes the place of its executable.
pub proof fn law_object_is_not_exe(exe: Seq<char>)
    requires
        paths::file_name(exe) is Some,
    ensures
        object_of(exe) != exe,
{
    reveal_strlit("o");
    reveal_strlit("obj.o");
    paths::lemma_body(exe);
    let n = paths::file_name(exe)->0;
    let b = paths::name_start(exe);
    let k = b + paths::stem_len(n);
    let r = object_of(exe);
    paths::lemma_after_last(n, '.');
    assert(n == paths::body(exe).skip(b));
    assert(exe.take(k).len() == k);
    assert(r.last() == 'o');
    if r == exe {
        assert(paths::body(exe) == exe);
        assert(n.len() == exe.len() - b);
        if paths::stem_len(n) < n.len() {
            let e = n.skip(paths::stem_len(n) + 1);
            if e == "o"@ {
                assert(e.len() == 1);
                assert(r.len() == k + 6);
            } else {
                assert(r.len() == k + 2);
                assert(e.len() == 1);
                assert(e[0] == exe.last());
                assert(e =~= "o"@);
            }
        }
    }
}

/// The file that says how an executable was made.
pub fn stamp_path(exe: &str) -> (r: String)
    ensures
        r@ == exe@ + ".hellastamp"@,
{
    let mut out = chars_of(exe);
    text::push_str(&mut out, ".hellastamp");
    text::to_text(&out)
}

/// What a stamp says: the profile and the toolchain.
pub open spec fn stamp(release: bool) -> Seq<char> {
    "profile="@ + (if release {
        "release"@
    } else {
        "debug"@
    }) + "\ntoolchain=hella "@ + VERSION@ + "\n"@
}

pub fn stamp_contents(release: bool) -> (r: String)
    ensures
        r@ == stamp(release),
{
    let mut out = chars_of("profile=");
    if release {
        text::push_str(&mut out, "release");
    } else {
        text::push_str(&mut out, "debug");
    }
    text::push_str(&mut out, "\ntoolchain=hella ");
    text::push_str(&mut out, VERSION);
    text::push_str(&mut out, "\n");
    text::to_text(&out)
}

/// The stamps of the two profiles differ, so a switch of profile always rebuilds.
pub proof fn law_stamps_differ()
    ensures
        stamp(true) != stamp(false),
{
    reveal_strlit("profile=");
    reveal_strlit("release");
    reveal_strlit("debug");
    assert(stamp(true)[8] == 'r');
    assert(stamp(false)[8] == 'd');
}

/// Whether an executable needs no rebuild: it is there, it was made by this profile and
/// toolchain, and it is newer than every source. A time is `None` where it could not be read.
pub fn is_fresh(exe_time: Option<i128>, found: Option<&str>, source_times: &Vec<Option<i128>>, release: bool) -> (r:
    bool)
    ensures
        r == (exe_time is Some && found is Some && found->0@ == stamp(release) && forall|i: int|
            0 <= i < source_times@.len() ==> (#[trigger] source_times@[i]) is Some
                && exe_time->0 > source_times@[i]->0),
{
    let made: i128 = match exe_time {
        Some(t) => t,
        None => {
            return false;
        },
    };
    match found {
        Some(s) => {
            let expected = stamp_contents(release);
            if !text::same_str(s, expected.as_str()) {
                return false;
            }
        },
        None => {
            return false;
        },
    }
    let mut i: usize = 0;
    while i < source_times.len()
        invariant
            i <= source_times.len(),
            exe_time == Some(made),
            forall|k: int|
                0 <= k < i ==> (#[trigger] source_times@[k]) is Some && made > source_times@[k]->0,
        decreases source_times.len() - i,
    {
        match source_times[i] {
            Some(t) => {
                if made <= t {
                    return false;
                }
            },
            None => {
                return false;
            },
        }
        i = i + 1;
    }
    true
}

} // verus!
