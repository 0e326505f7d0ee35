use cmake_link::cache::{is_stale_build, recorded_home_dir};

#[test]
fn home_dir_is_read_from_first_key_line() {
    let cache = "# comment\nFOO:STRING=1\nCMAKE_HOME_DIRECTORY:INTERNAL=/src/proj\r\nCMAKE_HOME_DIRECTORY:INTERNAL=/other\n";
    assert_eq!(recorded_home_dir(cache), Some("/src/proj".to_string()));
}

#[test]
fn home_dir_takes_text_after_last_equals() {
    assert_eq!(
        recorded_home_dir("CMAKE_HOME_DIRECTORY:INTERNAL=/a=b/c"),
        Some("b/c".to_string())
    );
    assert_eq!(recorded_home_dir("CMAKE_HOME_DIRECTORY"), Some("CMAKE_HOME_DIRECTORY".to_string()));
}

#[test]
fn no_key_line_gives_none() {
    assert_eq!(recorded_home_dir(""), None);
    assert_eq!(recorded_home_dir("A=1\n  CMAKE_HOME_DIRECTORY=/x\n"), None);
}

#[test]
fn moved_source_is_stale() {
    let project = "/src/new".to_string();
    assert!(is_stale_build(&Some("/src/old".to_string()), &project));
    assert!(!is_stale_build(&Some("/src/new".to_string()), &project));
    assert!(is_stale_build(&None, &project));
}

#[test]
fn second_run_does_not_clear() {
    let project = "/src/p".to_string();
    let canon = |p: &str| if p == "/gone" { None } else { Some(p.to_string()) };
    for cache in [Some("CMAKE_HOME_DIRECTORY:INTERNAL=/src/p\n"), Some("CMAKE_HOME_DIRECTORY:INTERNAL=/gone\n"), None] {
        let run = |c: Option<&str>| {
            c.and_then(recorded_home_dir)
                .map(|h| is_stale_build(&canon(&h), &project))
                .unwrap_or(false)
        };
        let first = run(cache);
        let after = if first { None } else { cache };
        assert!(!run(after));
    }
}
