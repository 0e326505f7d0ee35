use cmake_link::link::{
    classify_stem, echo_target_marker, library_name_of, link_libraries, read_link_line,
    resolve_token, Convention, LinkError, ResolvedLibrary, StemForm,
};
use cmake_link::text::split_white_space;

fn names(libs: &[ResolvedLibrary]) -> Vec<String> {
    libs.iter().map(|l| l.name.clone()).collect()
}

fn dirs(libs: &[ResolvedLibrary]) -> Vec<String> {
    libs.iter().filter_map(|l| l.search_dir.clone()).collect()
}

fn resolved(token: &str, conv: Convention) -> (Option<String>, String) {
    let l = resolve_token(token, conv).unwrap();
    (l.search_dir, l.name)
}

#[test]
fn minimal_build_graph_gives_demo_and_other() {
    let graph = "rule ECHO\n  command = echo\n\
        build demo-link-libraries.txt: ECHO_EXECUTABLE_LINKER main.o | -ldemo /usr/lib/libother.so.1 || cmake_object_order\n";
    let libs = link_libraries(graph, "demo", Convention::Unix).unwrap();
    assert_eq!(names(&libs), vec!["demo".to_string(), "other".to_string()]);
    assert_eq!(dirs(&libs), vec!["/usr/lib".to_string()]);
}

#[test]
fn missing_echo_target_fails() {
    let graph = "build other-link-libraries.txt: ECHO_EXECUTABLE_LINKER | -ldemo ||\n";
    let r = link_libraries(graph, "demo", Convention::Unix);
    assert!(matches!(r, Err(LinkError::MissingEchoTarget)));
}

#[test]
fn missing_args_start_fails() {
    let graph = "build demo-link-libraries.txt: ECHO_EXECUTABLE_LINKER -ldemo ||\n";
    assert!(matches!(read_link_line(graph, "demo"), Err(LinkError::MissingArgsStart)));
}

#[test]
fn missing_args_end_fails() {
    let graph = "build demo-link-libraries.txt: ECHO_EXECUTABLE_LINKER | -ldemo |\n";
    assert!(matches!(read_link_line(graph, "demo"), Err(LinkError::MissingArgsEnd)));
}

#[test]
fn args_are_text_between_markers() {
    let graph = "x | early || build p-link-libraries.txt: ECHO_EXECUTABLE_LINKER a | b  c || d ||";
    assert_eq!(read_link_line(graph, "p").unwrap(), "b  c ");
}

#[test]
fn drive_letter_escapes_are_undone() {
    let graph = "build w-link-libraries.txt: ECHO_EXECUTABLE_LINKER | C$:\\lib\\foo.lib D$:/x/bar.lib ||";
    assert_eq!(read_link_line(graph, "w").unwrap(), "C:\\lib\\foo.lib D:/x/bar.lib ");
}

#[test]
fn echo_marker_names_project() {
    assert_eq!(
        echo_target_marker("demo"),
        "build demo-link-libraries.txt: ECHO_EXECUTABLE_LINKER"
    );
}

#[test]
fn flag_token_gives_its_name() {
    assert_eq!(resolved("-lfoo", Convention::Unix), (None, "foo".to_string()));
    assert_eq!(resolved("-lstdc++", Convention::Unix), (None, "stdc++".to_string()));
}

#[test]
fn static_archive_gives_its_name() {
    assert_eq!(resolved("libfoo.a", Convention::Unix), (None, "foo".to_string()));
    assert_eq!(
        resolved("/opt/x/libbar.a", Convention::Unix),
        (Some("/opt/x".to_string()), "bar".to_string())
    );
}

#[test]
fn versioned_shared_object_gives_its_name() {
    assert_eq!(resolved("libfoo.so.2.1", Convention::Unix), (None, "foo".to_string()));
    assert_eq!(resolved("libfoo.so", Convention::Unix), (None, "foo".to_string()));
    assert_eq!(
        resolved("/usr/lib/x86_64/libz.so.1.2.13", Convention::Unix),
        (Some("/usr/lib/x86_64".to_string()), "z".to_string())
    );
}

#[test]
fn windows_token_gives_its_stem() {
    assert_eq!(
        resolved("C:/path/foo.lib", Convention::Windows),
        (Some("C:/path".to_string()), "foo".to_string())
    );
    assert_eq!(
        resolved("C:\\path\\sub\\foo.lib", Convention::Windows),
        (Some("C:/path/sub".to_string()), "foo".to_string())
    );
    assert_eq!(resolved("kernel32.lib", Convention::Windows), (None, "kernel32".to_string()));
}

#[test]
fn unknown_form_is_an_error() {
    match resolve_token("/tmp/foo.o", Convention::Unix) {
        Err(LinkError::UnknownForm { stem, token }) => {
            assert_eq!(stem, "foo");
            assert_eq!(token, "/tmp/foo.o");
        }
        other => panic!("unexpected {:?}", other),
    }
}

#[test]
fn empty_name_is_an_error() {
    assert!(matches!(resolve_token("-l", Convention::Unix), Err(LinkError::UnknownForm { .. })));
}

#[test]
fn token_without_file_name_is_an_error() {
    assert!(matches!(resolve_token("..", Convention::Unix), Err(LinkError::NoFileStem { .. })));
}

#[test]
fn order_and_duplicates_are_kept() {
    let graph = "build q-link-libraries.txt: ECHO_EXECUTABLE_LINKER | -lb -la /l/libb.a -lb libc.so.6 ||";
    let libs = link_libraries(graph, "q", Convention::Unix).unwrap();
    assert_eq!(
        names(&libs),
        vec!["b", "a", "b", "b", "c"].into_iter().map(String::from).collect::<Vec<_>>()
    );
    assert_eq!(dirs(&libs), vec!["/l".to_string()]);
}

#[test]
fn first_bad_token_fails_the_line() {
    let graph = "build q-link-libraries.txt: ECHO_EXECUTABLE_LINKER | -la foo.o bar.o ||";
    match link_libraries(graph, "q", Convention::Unix) {
        Err(LinkError::UnknownForm { stem, .. }) => assert_eq!(stem, "foo"),
        other => panic!("unexpected {:?}", other),
    }
}

#[test]
fn white_space_of_all_kinds_splits_tokens() {
    let t = split_white_space("  a\tb\n\nc \r\n d  ");
    assert_eq!(t, vec!["a", "b", "c", "d"]);
    assert!(split_white_space(" \t ").is_empty());
    assert_eq!(split_white_space("a\u{3000}b\u{85}c\u{a0}d\u{200b}e"), vec!["a", "b", "c", "d\u{200b}e"]);
}

#[test]
fn pattern_group_not_taking_part_falls_back_to_remainder() {
    assert_eq!(
        resolved("/x/libfoo.ab.1", Convention::Unix),
        (Some("/x".to_string()), "foo.ab".to_string())
    );
}

#[test]
fn library_names_hold_no_slash() {
    let graph = "build s-link-libraries.txt: ECHO_EXECUTABLE_LINKER | C$:\\a\\libq.so.3 /p/q/-lr ||";
    let libs = link_libraries(graph, "s", Convention::Unix).unwrap();
    assert_eq!(names(&libs), vec!["q".to_string(), "r".to_string()]);
    assert_eq!(dirs(&libs), vec!["C:/a".to_string(), "/p/q".to_string()]);
}

#[test]
fn stems_are_classified() {
    assert!(matches!(classify_stem("-lm"), StemForm::Flag(n) if n == "m"));
    assert!(matches!(classify_stem("libm.a"), StemForm::StaticArchive(n) if n == "m"));
    assert!(matches!(classify_stem("libm.so"), StemForm::SharedObject(n) if n == "m.so"));
    assert!(matches!(classify_stem("m"), StemForm::Unrecognized));
}

#[test]
fn capture_decides_shared_object_name() {
    assert_eq!(library_name_of("libx.so", Convention::Unix, None), Some("x.so".to_string()));
    assert_eq!(
        library_name_of("libx.so", Convention::Unix, Some(Some("x".to_string()))),
        Some("x".to_string())
    );
    assert_eq!(library_name_of("libx.so", Convention::Unix, Some(None)), Some("x.so".to_string()));
    assert_eq!(library_name_of("-lx", Convention::Unix, Some(Some("y".to_string()))), Some("x".to_string()));
}
