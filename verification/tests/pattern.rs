use glacier::pattern::{
    classify, looks_like_error, lower_looks_like_error, Found, LogLine, Patterns,
};

fn read(line: &str) -> LogLine {
    Patterns::new().unwrap().read(line)
}

fn nothing() -> Found {
    Found { store_path: false, total: None, building: None, failed: None, prefixed: None }
}

fn group(text: &str) -> Option<String> {
    Some(text.to_string())
}

#[test]
fn an_empty_line_is_quiet() {
    assert!(matches!(read(""), LogLine::Quiet));
    assert!(matches!(read(" \t "), LogLine::Quiet));
}

#[test]
fn a_store_path_is_quiet() {
    let line = "  /nix/store/0123456789abcdefghijklmnopqrstuv-bash-5.2";
    assert!(matches!(read(line), LogLine::Quiet));
    assert!(matches!(read("/nix/store/short-bash"), LogLine::Other(_)));
}

#[test]
fn the_total_is_read() {
    assert!(matches!(read("these 12 derivations will be built:"), LogLine::Total(Some(12))));
    assert!(matches!(read("these 1 derivation will be built:"), LogLine::Total(Some(1))));
    assert!(matches!(
        read("these 99999999999999999999 derivations will be built:"),
        LogLine::Total(None)
    ));
}

#[test]
fn a_derivation_that_is_built_is_named() {
    match read("building '/nix/store/abc123-hello-2.12.drv'...") {
        LogLine::Building(stem) => assert_eq!(stem, "hello-2.12"),
        other => panic!("{:?}", other),
    }
}

#[test]
fn a_derivation_that_failed_is_named() {
    match read("error: build of '/nix/store/abc123-hello-2.12.drv' failed: x") {
        LogLine::Failed(stem) => assert_eq!(stem, "hello-2.12"),
        other => panic!("{:?}", other),
    }
}

#[test]
fn a_message_has_a_prefix() {
    match read("hello>   checking for gcc... yes  ") {
        LogLine::Message { prefix, text, error } => {
            assert_eq!(prefix, "hello");
            assert_eq!(text, "checking for gcc... yes");
            assert!(!error);
        }
        other => panic!("{:?}", other),
    }
    match read("hello> main.c:1: Error: boom") {
        LogLine::Message { error, .. } => assert!(error),
        other => panic!("{:?}", other),
    }
}

#[test]
fn a_prefix_without_a_message_is_quiet() {
    assert!(matches!(read("hello>"), LogLine::Quiet));
    assert!(matches!(read("hello>   "), LogLine::Quiet));
}

#[test]
fn any_other_line_is_kept() {
    match read("  copying path '/nix/store/x' ") {
        LogLine::Other(line) => assert_eq!(line, "copying path '/nix/store/x'"),
        other => panic!("{:?}", other),
    }
}

#[test]
fn errors_are_seen_in_any_case() {
    for s in [
        "ERROR: x",
        "Error",
        "Fatal Error: y",
        "ld: cannot find -lz",
        "a.c:1: error: b",
        "a.c:1: FATAL ERROR: b",
        "error[E0425]: c",
        "warn error[E1]",
        "make[2]: *** [all]",
        "CMake Error at x",
        "Traceback (most recent call last):",
        "panicked at src/main.rs",
    ] {
        assert!(looks_like_error(s), "{:?}", s);
    }
    for s in ["", "an error", "build: errors", "makefile", "ok", "not panicked at"] {
        assert!(!looks_like_error(s), "{:?}", s);
    }
    assert!(!lower_looks_like_error("ERROR"));
}

#[test]
fn the_first_form_that_fits_counts() {
    let mut found = nothing();
    found.prefixed = Some(vec![group("p> m"), group("p"), group("m")]);
    found.failed = Some(vec![group("f"), group("f")]);
    assert!(matches!(classify("line", &found), LogLine::Failed(_)));
    found.building = Some(vec![group("b"), group("b")]);
    assert!(matches!(classify("line", &found), LogLine::Building(_)));
    found.total = Some(vec![group("t"), group("3")]);
    assert!(matches!(classify("line", &found), LogLine::Total(Some(3))));
    found.store_path = true;
    assert!(matches!(classify("line", &found), LogLine::Quiet));
    assert!(matches!(classify("", &nothing()), LogLine::Quiet));
}

#[test]
fn a_group_that_took_no_part_has_a_stand_in() {
    let mut found = nothing();
    found.building = Some(vec![group("b"), None]);
    match classify("line", &found) {
        LogLine::Building(stem) => assert_eq!(stem, "unknown"),
        other => panic!("{:?}", other),
    }
    let mut found = nothing();
    found.total = Some(vec![group("t")]);
    assert!(matches!(classify("line", &found), LogLine::Total(None)));
}

#[test]
fn neither_case_nor_more_text_hides_an_error() {
    for s in ["error", "a: Fatal Error: b", "make[1]", "fine", "Traceback", "LD: x", ""] {
        assert_eq!(looks_like_error(&s.to_ascii_uppercase()), looks_like_error(s), "{:?}", s);
        if looks_like_error(s) {
            assert!(looks_like_error(&format!("{} and so on", s)), "{:?}", s);
        }
    }
}

#[test]
fn ascii_is_lowered_letter_by_letter() {
    let all: String = (0u8..128).map(|b| b as char).collect();
    assert_eq!(all.to_lowercase(), all.to_ascii_lowercase());
}
