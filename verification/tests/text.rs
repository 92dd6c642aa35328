use pmc::fingerprint::fingerprint;
use pmc::text::{parse_pid, to_decimal, trim, PID_LIMIT};

#[test]
fn numbers_are_written_in_decimal() {
    assert_eq!(to_decimal(0), "0");
    assert_eq!(to_decimal(7), "7");
    assert_eq!(to_decimal(10), "10");
    assert_eq!(to_decimal(4242), "4242");
    assert_eq!(to_decimal(1234567890), "1234567890");
    assert_eq!(to_decimal(u64::MAX), "18446744073709551615");
}

#[test]
fn a_pid_is_read_from_decimal_text() {
    assert_eq!(parse_pid("0"), Some(0));
    assert_eq!(parse_pid("1"), Some(1));
    assert_eq!(parse_pid("4242"), Some(4242));
    assert_eq!(parse_pid("007"), Some(7));
}

#[test]
fn white_space_around_a_pid_is_passed_over() {
    assert_eq!(parse_pid("4242\n"), Some(4242));
    assert_eq!(parse_pid("  \t4242 \r\n"), Some(4242));
    assert_eq!(parse_pid("\u{a0}12\u{2003}\u{3000}"), Some(12));
    assert_eq!(parse_pid("\u{85}12\u{2028}"), Some(12));
}

#[test]
fn text_that_is_no_pid_is_refused() {
    assert_eq!(parse_pid(""), None);
    assert_eq!(parse_pid("   "), None);
    assert_eq!(parse_pid("\n"), None);
    assert_eq!(parse_pid("12 34"), None);
    assert_eq!(parse_pid("12a"), None);
    assert_eq!(parse_pid("a12"), None);
    assert_eq!(parse_pid("+12"), None);
    assert_eq!(parse_pid("-12"), None);
    assert_eq!(parse_pid("1.5"), None);
    assert_eq!(parse_pid("\u{661}\u{662}"), None);
    assert_eq!(parse_pid("\u{200b}12"), None);
}

#[test]
fn a_pid_beyond_the_limit_is_refused() {
    assert_eq!(PID_LIMIT, 2147483647);
    assert_eq!(parse_pid("2147483647"), Some(2147483647));
    assert_eq!(parse_pid("2147483648"), None);
    assert_eq!(parse_pid("4294967295"), None);
    assert_eq!(parse_pid("99999999999999999999999999"), None);
    assert_eq!(parse_pid("00000000000000000000000042"), Some(42));
}

#[test]
fn a_written_pid_is_read_back() {
    for pid in [0u32, 1, 9, 10, 99, 100, 4242, 65535, 4194304, PID_LIMIT] {
        assert_eq!(parse_pid(&to_decimal(pid as u64)), Some(pid));
    }
}

#[test]
fn trim_takes_off_white_space_on_both_sides() {
    assert_eq!(trim(""), "");
    assert_eq!(trim("   "), "");
    assert_eq!(trim("abc"), "abc");
    assert_eq!(trim("  a b  "), "a b");
    assert_eq!(trim("\t\n\u{b}\u{c}\r x \u{1680}\u{2000}\u{200a}\u{2029}\u{202f}\u{205f}"), "x");
    assert_eq!(trim("\u{200b}x"), "\u{200b}x");
    assert_eq!(trim("\u{1f}x"), "\u{1f}x");
    assert_eq!(trim(" \u{e9}t\u{e9} "), "\u{e9}t\u{e9}");
}

#[test]
fn trim_agrees_with_the_standard_library() {
    for text in ["", " ", "a", " a", "a ", "\u{2008}a\u{2008}b\u{2008}", "\u{180e}a", "\u{feff}a "] {
        assert_eq!(trim(text), text.trim());
    }
}

#[test]
fn fingerprints_are_fnv1a_in_decimal() {
    assert_eq!(fingerprint(b""), "14695981039346656037");
    assert_eq!(fingerprint(b"a"), "12638187200555641996");
    assert_eq!(fingerprint(b"foobar"), "9625390261332436968");
}

#[test]
fn equal_content_has_equal_fingerprints() {
    let one = fingerprint(b"fn main() {}\n");
    let same = fingerprint(b"fn main() {}\n");
    let other = fingerprint(b"fn main() { }\n");
    assert_eq!(one, same);
    assert_ne!(one, other);
}
