use bazel::rc_file::{
    check_import_loop, join_with_spaces, parse_line, rc_lines, split_pieces, ParseError, RcLine,
    RcOption,
};

fn strings(v: &[&str]) -> Vec<String> {
    v.iter().map(|s| s.to_string()).collect()
}

#[test]
fn lines_join_continuations_and_drop_comments() {
    let text = "# comment\n\ntest \\\n  --test_output errors\r\nbuild --disk_cache=~/.cache/bazel/\n   \n";
    assert_eq!(
        rc_lines(text),
        strings(&["test   --test_output errors", "build --disk_cache=~/.cache/bazel/"])
    );
    assert_eq!(rc_lines(""), Vec::<String>::new());
}

#[test]
fn words_are_split_at_white_space() {
    assert_eq!(split_pieces("  a \t b\nc  ", false), strings(&["a", "b", "c"]));
    assert_eq!(split_pieces("a\n\nb", true), strings(&["a", "b"]));
    assert_eq!(join_with_spaces(&strings(&["x", "a", "b"]), 1), "a b");
}

#[test]
fn option_lines() {
    match parse_line("test --test_output errors", "/ws") {
        RcLine::Option { command, option } => {
            assert_eq!(command, "test");
            assert_eq!(option, "--test_output errors");
        }
        _ => panic!("expected an option line"),
    }
    match parse_line("build", "/ws") {
        RcLine::Option { command, option } => {
            assert_eq!(command, "build");
            assert_eq!(option, "");
        }
        _ => panic!("expected an option line"),
    }
    assert!(matches!(parse_line("   ", "/ws"), RcLine::Blank));
}

#[test]
fn import_lines() {
    match parse_line("try-import %workspace%/user.rc", "/ws") {
        RcLine::Import { path, raw, optional } => {
            assert_eq!(path, "/ws/user.rc");
            assert_eq!(raw, "%workspace%/user.rc");
            assert!(optional);
        }
        _ => panic!("expected an import line"),
    }
    match parse_line("import /etc/a.rc", "/ws") {
        RcLine::Import { optional, .. } => assert!(!optional),
        _ => panic!("expected an import line"),
    }
    assert!(matches!(parse_line("import a b", "/ws"), RcLine::InvalidImport));
    assert!(matches!(parse_line("import", "/ws"), RcLine::InvalidImport));
}

#[test]
fn import_loops_are_reported() {
    let stack = strings(&["d/import_loop1.rc", "d/import_loop2.rc"]);
    assert_eq!(check_import_loop(&stack, "d/import_loop3.rc", "d/import_loop3.rc"), None);
    assert_eq!(
        check_import_loop(&stack, "d/import_loop1.rc", "d/import_loop1.rc"),
        Some(ParseError::ImportLoop(
            "Import loop detected:\nd/import_loop1.rc d/import_loop2.rc d/import_loop1.rc".to_string()
        ))
    );
}

#[test]
fn rc_option_keeps_its_source() {
    let o = RcOption::new("--x".to_string(), 2);
    assert_eq!(o, RcOption { option: "--x".to_string(), source_index: 2 });
}
