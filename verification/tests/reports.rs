use hella::driver::{
    build_result, exit_code, fmt_nothing, fmt_roots, fmt_summary, goal_of, has_main, import_report, installs, read_program,
    setup_summary, total_steps, FrontEnd, Goal, Tally,
};
use hella::error::{LexDiagnostic, MultiDiagnostic, MultiLexError, SingleDiagnostic};
use hella::formatter::{collect_sources, normalize_trailing_newline, reformat, FormatError};
use hella::modules::ImportError;
use hella::source::Source;
use hella::token::Span;

fn span(start: usize, end: usize) -> Span {
    Span { start, end }
}

#[test]
fn spans_become_offsets_and_lengths() {
    let s = span(3, 7).to_source_span();
    assert_eq!((s.offset, s.length), (3, 4));
    let s = span(7, 3).to_source_span();
    assert_eq!((s.offset, s.length), (7, 0));
}

#[test]
fn diagnostics_keep_their_source() {
    let d = LexDiagnostic::new("f".to_string(), "ab".to_string(), span(0, 1), "a".to_string());
    assert_eq!(d.src.name, "f");
    assert_eq!(d.message(), "unexpected token `a`");
    let m = MultiLexError::from_parts("f".to_string(), "ab".to_string(), vec![(span(0, 1), "a".to_string())]);
    assert_eq!(m.errors.len(), 1);
    assert_eq!(m.src.text, "ab");
    let s = SingleDiagnostic::new("f".to_string(), "ab".to_string(), span(1, 2), "bad".to_string());
    assert_eq!((s.span.offset, s.span.length, s.message.as_str()), (1, 1, "bad"));
    let all = MultiDiagnostic::from_errors(
        "f".to_string(),
        "ab".to_string(),
        vec![(span(0, 1), "x".to_string()), (span(1, 2), "y".to_string())],
        "two".to_string(),
    );
    assert_eq!(all.message, "two");
    assert_eq!(all.errors[1].message, "y");
}

#[test]
fn reading_a_program_has_four_outcomes() {
    assert!(matches!(read_program("f", ""), FrontEnd::Empty));
    match read_program("f", "int x = \u{a7}\n\u{a7}") {
        FrontEnd::Unknown(d) => {
            assert_eq!(d.message, "lexing failed");
            assert_eq!(d.errors.len(), 2);
            assert_eq!(d.errors[0].message, "unexpected token `\u{a7}`");
        }
        _ => panic!("other outcome"),
    }
    match read_program("f", "int )") {
        FrontEnd::Misplaced(d) => assert_eq!(d.message, "unexpected token `)`"),
        _ => panic!("other outcome"),
    }
    match read_program("f", "void main() do\nend\n") {
        FrontEnd::Parsed(p, n) => {
            assert_eq!(n, 8);
            assert!(has_main(&p));
        }
        _ => panic!("other outcome"),
    }
    match read_program("f", "void other() do\nend\n") {
        FrontEnd::Parsed(p, _) => assert!(!has_main(&p)),
        _ => panic!("other outcome"),
    }
}

#[test]
fn first_failed_import_is_reported() {
    assert!(import_report("f", "s", &vec![]).is_none());
    let e = |m: &str| ImportError { message: m.to_string(), span: span(1, 2), file: "g".to_string() };
    let d = import_report("f", "src", &vec![e("one"), e("two")]).unwrap();
    assert_eq!(d.message, "one");
    assert_eq!(d.src.name, "f");
}

#[test]
fn builds_are_counted_in_steps() {
    assert_eq!(total_steps(Goal::Check), 5);
    assert_eq!(total_steps(Goal::Ir), 6);
    assert_eq!(total_steps(Goal::Executable), 7);
}

#[test]
fn exit_code_is_that_of_the_program() {
    assert_eq!(exit_code(Some(3), false), 3);
    assert_eq!(exit_code(Some(0), true), 0);
    assert_eq!(exit_code(None, false), 1);
    assert_eq!(exit_code(None, true), 0);
}

#[test]
fn formatting_is_summed_up() {
    let t = |files, changed, failed| Tally { files, changed, failed };
    assert_eq!(fmt_summary(true, t(3, 0, 0)).unwrap(), "3 file(s) already formatted");
    assert_eq!(fmt_summary(true, t(3, 2, 0)).unwrap_err(), "2 file(s) would be reformatted");
    assert_eq!(fmt_summary(true, t(3, 2, 1)).unwrap_err(), "1 file(s) failed to parse");
    assert_eq!(fmt_summary(false, t(3, 2, 0)).unwrap(), "3 file(s), 2 reformatted");
    assert_eq!(fmt_summary(false, t(3, 2, 1)).unwrap_err(), "1 file(s) failed to format");
    assert_eq!(fmt_nothing(1, true, "a.txt").unwrap_err(), "not a Hella source file: a.txt (expected `.hll`)");
    assert_eq!(fmt_nothing(1, false, "d").unwrap(), "no .hll files found");
    assert_eq!(fmt_roots(vec![]), vec!["."]);
    assert_eq!(fmt_roots(vec!["a".to_string()]), vec!["a"]);
}

#[test]
fn setup_keeps_files_unless_forced() {
    assert!(installs(false, false));
    assert!(!installs(true, false));
    assert!(installs(true, true));
    assert_eq!(setup_summary("d", 2, 3), "stdlib \u{2192} d (2 installed, 3 kept)");
}

#[test]
fn only_changed_sources_are_rewritten() {
    assert_eq!(reformat("void f() do\nend\n").unwrap(), None);
    assert_eq!(reformat("void f()  do\nend\n").unwrap(), Some("void f() do\nend\n".to_string()));
    assert!(reformat("do").is_err());
}

#[test]
fn sources_are_collected_in_order() {
    let found = vec!["b.hll".to_string(), "a.txt".to_string(), "a.hll".to_string(), "b.hll".to_string()];
    assert_eq!(collect_sources(&found), vec!["a.hll", "b.hll"]);
}

#[test]
fn line_ends_are_made_equal() {
    assert_eq!(normalize_trailing_newline("a\r\nb\n\n\n"), "a\nb\n");
    assert_eq!(normalize_trailing_newline("a"), "a\n");
    assert_eq!(normalize_trailing_newline(normalize_trailing_newline("a\r\n").as_str()), "a\n");
}

#[test]
fn equal_line_ends_stay() {
    let once = normalize_trailing_newline("a\r\nb\n\n\n");
    assert_eq!(once, "a\nb\n");
    assert_eq!(normalize_trailing_newline(&once), once);
}

#[test]
fn files_that_fail_are_named() {
    let e = FormatError::unreadable("a.hll", "no such file");
    assert_eq!(e.message, "failed to read a.hll: no such file");
    assert!(e.span.is_none());
    let e = FormatError::unwritable("a.hll", "read-only");
    assert_eq!(e.message, "failed to write a.hll: read-only");
    assert!(e.span.is_none());
}

#[test]
fn index_is_found_again_from_its_offset() {
    let s = Source::new("aé→b");
    let offsets = [0usize, 1, 3, 6, 7];
    for (k, at) in offsets.iter().enumerate() {
        assert_eq!(s.index_at(*at), k);
    }
}

#[test]
fn only_whole_builds_give_an_executable() {
    assert_eq!(goal_of(true, true), Goal::Check);
    assert_eq!(goal_of(false, true), Goal::Ir);
    assert_eq!(goal_of(false, false), Goal::Executable);
    assert_eq!(build_result(Goal::Executable, false, "a".to_string()), Some("a".to_string()));
    assert_eq!(build_result(Goal::Executable, true, "a".to_string()), None);
    assert_eq!(build_result(Goal::Ir, false, "a".to_string()), None);
    assert_eq!(build_result(Goal::Check, false, "a".to_string()), None);
}
