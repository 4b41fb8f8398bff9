use glacier::text::{
    contains, decimal_text, find_last, is_white, lines, parse_u64, replace, same,
    signed_decimal_text, slice_of, starts_with, trim,
};

#[test]
fn white_space_is_that_of_unicode() {
    for n in 0..=0x10ffffu32 {
        if let Some(c) = char::from_u32(n) {
            assert_eq!(is_white(c), c.is_whitespace(), "{:x}", n);
        }
    }
}

#[test]
fn trim_takes_white_space_off_both_ends() {
    assert_eq!(trim("\t a b\u{a0}\n"), "a b");
    assert_eq!(trim(" \n"), "");
    assert_eq!(trim(""), "");
    assert_eq!(trim("x"), "x");
}

#[test]
fn trimming_again_changes_nothing() {
    for s in ["  a ", "", "\u{3000}b\u{2028}", "c d"] {
        assert_eq!(trim(&trim(s)), trim(s));
        assert_eq!(trim(s), s.trim());
    }
}

#[test]
fn lines_are_those_of_std() {
    for s in ["", "\n", "a", "a\n", "a\r\nb", "a\rb\r", "\r\n\r\n", "a\n\nb\r\r\n", "é\nß\r"] {
        let expected: Vec<&str> = s.lines().collect();
        assert_eq!(lines(s), expected, "{:?}", s);
    }
}

#[test]
fn no_line_holds_a_line_feed() {
    for line in lines("a\nb\r\nc\n\n") {
        assert!(!line.contains('\n'));
    }
}

#[test]
fn replace_goes_from_left_to_right() {
    assert_eq!(replace("aaa", "aa", "b"), "ba");
    assert_eq!(replace("x{wm}y{wm}", "{wm}", "hyprland"), "xhyprlandyhyprland");
    assert_eq!(replace("nothing", "{wm}", "hyprland"), "nothing");
    assert_eq!(replace("", "a", "b"), "");
    assert_eq!(replace("äöä", "ä", ""), "ö");
}

#[test]
fn substrings_are_found() {
    assert!(contains("a: error: b", ": error:"));
    assert!(!contains("a error b", ": error:"));
    assert!(contains("x", ""));
    assert!(starts_with("error: x", "error"));
    assert!(!starts_with("an error", "error"));
    assert!(same("é", "é"));
    assert!(!same("é", "e"));
    assert_eq!(find_last("{ a } }\n", '}'), Some(6));
    assert_eq!(find_last("ä}", '}'), Some(1));
    assert_eq!(find_last("none", '}'), None);
    assert_eq!(slice_of("äbc", 0, 2), "äb");
}

#[test]
fn numbers_are_read_as_std_reads_them() {
    for s in [
        "0",
        "42",
        "+7",
        "+",
        "",
        "-1",
        "1a",
        "18446744073709551615",
        "18446744073709551616",
        "99999999999999999999999",
        "007",
        "++1",
        "٣",
    ] {
        assert_eq!(parse_u64(s), s.parse::<u64>().ok(), "{:?}", s);
    }
}

#[test]
fn numbers_are_read_as_they_were_written() {
    for n in [0, 9, 10, 99, 100, 4_294_967_296, u64::MAX] {
        assert_eq!(decimal_text(n), n.to_string());
        assert_eq!(parse_u64(&decimal_text(n)), Some(n));
    }
}

#[test]
fn negative_numbers_have_a_sign() {
    for n in [0, 1, -1, 130, i32::MAX, i32::MIN] {
        assert_eq!(signed_decimal_text(n), n.to_string());
    }
}
