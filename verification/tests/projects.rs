use hella::modules::Ancestor;
use hella::paths::{
    arrange, holds_path, join, path_extension, path_file_name, path_file_stem, path_less, same_path,
    set_extension,
};
use hella::project::{
    check_new, default_exe_path, find_project_root, is_fresh, new_project, obj_path_for_exe,
    parse_manifest, requires_main, resolve_entry, stamp_contents, stamp_path, ManifestFile, Project,
    Site, Surroundings,
};

fn ancestor(path: &str, has_manifest: bool) -> Ancestor {
    Ancestor { path: path.to_string(), has_manifest, has_main: false, has_stdlib: false }
}

#[test]
fn manifest_gives_name_and_version() {
    let m = parse_manifest("hella.toml", "# demo\nname = \"app\"\nversion = '1.2'\nedition = \"x\"\n").unwrap();
    assert_eq!((m.name.as_str(), m.version.as_str()), ("app", "1.2"));
}

#[test]
fn unknown_keys_are_ignored() {
    let m = parse_manifest("t", "# demo\nname = \"a\"\nversion = '1'\nedition = 2024\n").unwrap();
    assert_eq!(m.name, "a");
    assert_eq!(m.version, "1");
    assert_eq!(parse_manifest("t", "version = 1\n").unwrap_err(), "malformed t line 1: value must be quoted");
}

#[test]
fn last_setting_counts() {
    let m = parse_manifest("t", "name = \"a\"\nname = \"b\"\nversion = \"1\"\n").unwrap();
    assert_eq!(m.name, "b");
}

#[test]
fn malformed_manifest_lines_are_reported() {
    assert_eq!(parse_manifest("t", "name \"a\"\n").unwrap_err(), "malformed t line 1: \"name \\\"a\\\"\"");
    assert_eq!(parse_manifest("t", "\nname = a\n").unwrap_err(), "malformed t line 2: value must be quoted");
    assert_eq!(parse_manifest("t", "name = \"a\"\n").unwrap_err(), "t must define `name` and `version`");
}

#[test]
fn given_file_is_the_entry() {
    let at = Surroundings { root: "r".to_string(), has_main: true, has_lib: false, manifest: None };
    let e = resolve_entry(Some("x.hll".to_string()), &at).unwrap();
    assert_eq!(e.path, "x.hll");
    assert!(e.project.is_none());
}

#[test]
fn project_names_its_binary() {
    let manifest = ManifestFile {
        path: "r/hella.toml".to_string(),
        content: Ok("name = \"app\"\nversion = \"1\"\n".to_string()),
    };
    let at = Surroundings { root: "r".to_string(), has_main: true, has_lib: true, manifest: Some(manifest) };
    let e = resolve_entry(None, &at).unwrap();
    assert_eq!(e.path, "r/src/main.hll");
    let p = e.project.unwrap();
    assert_eq!(p.exe_path(true), "r/out/release/app");
    assert_eq!(p.exe_path(false), "r/out/debug/app");
    let at = Surroundings { root: "r".to_string(), has_main: false, has_lib: true, manifest: None };
    let e = resolve_entry(None, &at).unwrap();
    assert_eq!(e.project.unwrap().bin_name, "lib");
}

#[test]
fn missing_entry_is_reported() {
    let at = Surroundings { root: "r".to_string(), has_main: false, has_lib: false, manifest: None };
    assert_eq!(
        resolve_entry(None, &at).unwrap_err(),
        "no input file and no project found (looked for src/main.hll and src/lib.hll in r); pass a file or run `hella new <name>`"
    );
}

#[test]
fn nearest_manifest_is_the_root() {
    let v = vec![ancestor("a/b/c", false), ancestor("a/b", true), ancestor("a", true)];
    assert_eq!(find_project_root(&v), Some("a/b".to_string()));
    assert_eq!(find_project_root(&vec![ancestor("a", false)]), None);
}

#[test]
fn only_main_files_need_a_main_function() {
    assert!(requires_main("src/main.hll"));
    assert!(!requires_main("src/lib.hll"));
}

#[test]
fn place_of_a_new_project_is_checked() {
    assert_eq!(check_new("x/app", "git", Site::Free).unwrap(), "app");
    assert_eq!(check_new("x/app", "none", Site::EmptyDirectory).unwrap(), "app");
    assert_eq!(check_new("app", "svn", Site::Free).unwrap_err(), "unsupported --vcs \"svn\": only `git` and `none` for now");
    assert_eq!(check_new("app", "git", Site::FullDirectory).unwrap_err(), "app already exists and is not empty");
    assert_eq!(check_new("app", "git", Site::NotADirectory).unwrap_err(), "app exists and is not a directory");
    assert_eq!(check_new("..", "git", Site::Free).unwrap_err(), "invalid project path: ..");
}

#[test]
fn new_project_has_three_files() {
    let files = new_project("app", false);
    let names: Vec<&str> = files.iter().map(|f| f.path.as_str()).collect();
    assert_eq!(names, vec!["hella.toml", "src/main.hll", ".gitignore"]);
    assert_eq!(files[0].content, "name = \"app\"\nversion = \"0.1.0\"\n");
    assert!(files[1].content.contains("Hello from app!"));
    assert_eq!(files[2].content, "/out/\n");
    assert_eq!(new_project("app", true)[1].path, "src/lib.hll");
}

#[test]
fn new_manifest_can_be_read() {
    let files = new_project("app", false);
    let m = parse_manifest("hella.toml", files[0].content.as_str()).unwrap();
    assert_eq!((m.name.as_str(), m.version.as_str()), ("app", "0.1.0"));
}

#[test]
fn executable_stands_next_to_its_source() {
    assert_eq!(default_exe_path("a/b.hll", None), "a/b");
    assert_eq!(default_exe_path("a/b", None), "a/b");
    assert_eq!(default_exe_path("a/b.hll", Some("c".to_string())), "c");
}

#[test]
fn object_never_takes_the_place_of_its_executable() {
    assert_eq!(obj_path_for_exe("a/b"), "a/b.o");
    assert_eq!(obj_path_for_exe("a/b.exe"), "a/b.o");
    assert_eq!(obj_path_for_exe("a/b.o"), "a/b.obj.o");
}

#[test]
fn stamps_differ_by_profile() {
    assert_eq!(stamp_path("a/b"), "a/b.hellastamp");
    assert_eq!(stamp_contents(true), "profile=release\ntoolchain=hella 0.1.0\n");
    assert_ne!(stamp_contents(true), stamp_contents(false));
}

#[test]
fn rebuild_is_skipped_only_when_nothing_changed() {
    let stamp = stamp_contents(false);
    let times = vec![Some(1), Some(5)];
    assert!(is_fresh(Some(6), Some(stamp.as_str()), &times, false));
    assert!(!is_fresh(Some(5), Some(stamp.as_str()), &times, false));
    assert!(!is_fresh(Some(4), Some(stamp.as_str()), &times, false));
    assert!(!is_fresh(Some(6), Some(stamp.as_str()), &times, true));
    assert!(!is_fresh(None, Some(stamp.as_str()), &times, false));
    assert!(!is_fresh(Some(9), None, &times, false));
    assert!(!is_fresh(Some(9), Some(stamp.as_str()), &vec![None], false));
}

#[test]
fn paths_are_taken_apart() {
    assert_eq!(join("a", "b/c"), "a/b/c");
    assert_eq!(join("a/", "b"), "a/b");
    assert_eq!(join("a", "/b"), "/b");
    assert_eq!(path_file_name("a/b.c/"), Some("b.c".to_string()));
    assert_eq!(path_file_name("a/.."), None);
    assert_eq!(path_file_stem("a/b.c.d"), Some("b.c".to_string()));
    assert_eq!(path_file_stem("a/.git"), Some(".git".to_string()));
    assert_eq!(path_extension("a/b.c.d"), Some("d".to_string()));
    assert_eq!(path_extension("a/.git"), None);
    assert_eq!(set_extension("a/b.c", "x"), "a/b.x");
    assert_eq!(set_extension("a/b.c", ""), "a/b");
}

#[test]
fn paths_are_compared_part_by_part() {
    assert!(same_path("a/./b", "a//b"));
    assert!(!same_path("/a", "a"));
    assert!(path_less("a/b", "a.b"));
    assert!(!path_less("a.b", "a/b"));
    assert!(holds_path(&vec!["a/b".to_string()], "a//b"));
}

#[test]
fn arranged_paths_are_in_order_once_each() {
    let v = vec!["b".to_string(), "a/c".to_string(), "b".to_string(), "a".to_string()];
    assert_eq!(arrange(v), vec!["a", "a/c", "b"]);
}

#[test]
fn output_directory_follows_the_profile() {
    let p = Project { root: "r".to_string(), bin_name: "x".to_string() };
    assert_eq!(p.out_dir(false), "r/out/debug");
    assert_eq!(p.out_dir(true), "r/out/release");
}
