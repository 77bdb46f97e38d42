use hella::ast::Item;
use hella::lexer::lex;
use hella::modules::{
    expand_imports, hella_lib_dir, project_root, resolve_import, search_bases, workspace_stdlib_root,
    Ancestor, Expanded, FileState, Probe,
};
use hella::parse::program::{parse, ParseError};
use hella::source::Source;

fn file(path: &str, content: &str) -> Probe {
    Probe { path: path.to_string(), state: FileState::Text(content.to_string()) }
}

fn absent(path: &str) -> Probe {
    Probe { path: path.to_string(), state: FileState::Absent }
}

fn expand(src: &str, store: Vec<Probe>) -> Expanded {
    let lexed = lex(src);
    let program = parse(lexed.tokens, &Source::new(src)).unwrap();
    expand_imports(program, "main.hll", &vec!["r".to_string()], &store)
}

fn names(e: &Expanded) -> Vec<String> {
    e.program
        .items
        .iter()
        .map(|i| match i {
            Item::Function(f) => f.name.clone(),
            Item::Import(_) => "import".to_string(),
            _ => "other".to_string(),
        })
        .collect()
}

#[test]
fn imported_items_take_the_place_of_the_import() {
    let e = expand(
        "import a\nvoid main() do\nend\n",
        vec![file("r/a.hll", "void f() do\nend\nvoid g() do\nend\n")],
    );
    assert_eq!(names(&e), vec!["f", "g", "main"]);
    assert!(e.errors.is_empty());
    assert!(e.wanted.is_empty());
    assert_eq!(e.files, vec!["main.hll", "r/a.hll"]);
}

#[test]
fn import_cycles_are_cut() {
    let e = expand(
        "import a\n",
        vec![
            file("r/a.hll", "import b\nvoid f() do\nend\n"),
            file("r/b.hll", "import a\nvoid g() do\nend\n"),
        ],
    );
    assert_eq!(names(&e), vec!["g", "f"]);
    assert_eq!(e.files, vec!["main.hll", "r/a.hll", "r/b.hll"]);
}

#[test]
fn file_is_taken_in_once() {
    let e = expand("import a\nimport a\n", vec![file("r/a.hll", "void f() do\nend\n")]);
    assert_eq!(names(&e), vec!["f"]);
    assert_eq!(e.files, vec!["main.hll", "r/a.hll"]);
}

#[test]
fn missing_module_is_reported() {
    let e = expand("import a::b\n", vec![absent("r/a/b.hll"), absent("r/a/b/mod.hll")]);
    assert_eq!(e.errors.len(), 1);
    assert_eq!(e.errors[0].file, "main.hll");
    assert!(e.errors[0].message.contains("a::b"), "got: {}", e.errors[0].message);
    let p: ParseError = ParseError::from(e.errors.into_iter().next().unwrap());
    assert!(p.message.contains("a::b"));
}

#[test]
fn unknown_paths_are_asked_for() {
    let e = expand("import a\n", vec![]);
    assert_eq!(e.wanted, vec!["r/a.hll", "r/a/mod.hll"]);
}

#[test]
fn file_goes_before_folder() {
    let path = vec!["a".to_string()];
    let bases = vec!["x".to_string(), "y".to_string()];
    let both = vec![file("y/a.hll", ""), file("y/a/mod.hll", "")];
    assert_eq!(resolve_import(&path, &bases, &both), Some("y/a.hll".to_string()));
    let folder = vec![file("y/a/mod.hll", "")];
    assert_eq!(resolve_import(&path, &bases, &folder), Some("y/a/mod.hll".to_string()));
    let first = vec![file("y/a.hll", ""), file("x/a/mod.hll", "")];
    assert_eq!(resolve_import(&path, &bases, &first), Some("x/a/mod.hll".to_string()));
    assert_eq!(resolve_import(&path, &bases, &vec![]), None);
}

#[test]
fn unreadable_module_is_reported() {
    let store = vec![Probe { path: "r/a.hll".to_string(), state: FileState::Unreadable("denied".to_string()) }];
    let e = expand("import a\n", store);
    assert_eq!(e.errors.len(), 1);
    assert!(e.errors[0].message.contains("denied"), "got: {}", e.errors[0].message);
}

#[test]
fn module_that_does_not_parse_is_reported() {
    let e = expand("import a\n", vec![file("r/a.hll", "int main( do\n")]);
    assert_eq!(e.errors.len(), 1);
}

#[test]
fn bases_are_looked_through_in_order() {
    let up = |path: &str, has_manifest: bool, has_stdlib: bool| Ancestor {
        path: path.to_string(),
        has_manifest,
        has_main: false,
        has_stdlib,
    };
    let v = vec![up("w/p/src", false, false), up("w/p", true, false), up("w", false, true)];
    assert_eq!(project_root(&v), "w/p");
    assert_eq!(workspace_stdlib_root(&v), Some("w/stdlib".to_string()));
    assert_eq!(hella_lib_dir(Some("/home/u")), Some("/home/u/.hella/lib".to_string()));
    assert_eq!(hella_lib_dir(None), None);
    let bases = search_bases(Some("w/p/src".to_string()), &v, hella_lib_dir(Some("/h")));
    assert_eq!(bases, vec!["w/p/src", "w/p", "w/stdlib", "/h/.hella/lib"]);
    let bases = search_bases(Some("w/p".to_string()), &v, None);
    assert_eq!(bases, vec!["w/p", "w/stdlib"]);
}
