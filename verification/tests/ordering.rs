use file_browser::bytes::{bytes_eq, bytes_lt, str_eq};

#[test]
fn shorter_prefix_comes_first() {
    assert!(bytes_lt(b"", b"a"));
    assert!(bytes_lt(b"ab", b"abc"));
    assert!(!bytes_lt(b"abc", b"ab"));
}

#[test]
fn first_differing_byte_decides() {
    assert!(bytes_lt(b"abc", b"abd"));
    assert!(bytes_lt(b"a", b"b"));
    assert!(!bytes_lt(b"b", b"a"));
    assert!(bytes_lt(b"az", b"b"));
}

#[test]
fn nothing_comes_before_itself() {
    assert!(!bytes_lt(b"", b""));
    assert!(!bytes_lt(b"same", b"same"));
}

#[test]
fn upper_case_comes_before_lower_case() {
    assert!(bytes_lt(b"Z", b"a"));
    assert!(bytes_lt(b"A", b"a"));
    assert!(!bytes_lt(b"a", b"A"));
}

#[test]
fn dot_comes_before_letters() {
    assert!(bytes_lt(b".hidden", b"A"));
    assert!(bytes_lt(b".hidden", b"a.txt"));
}

#[test]
fn bytes_above_ascii_come_last() {
    assert!(bytes_lt("z".as_bytes(), "\u{e9}".as_bytes()));
    assert!(!bytes_lt("\u{e9}".as_bytes(), "z".as_bytes()));
}

#[test]
fn byte_equality_is_exact() {
    assert!(bytes_eq(b"", b""));
    assert!(bytes_eq(b"abc", b"abc"));
    assert!(!bytes_eq(b"abc", b"abd"));
    assert!(!bytes_eq(b"abc", b"ab"));
    assert!(!bytes_eq(b"ab", b"abc"));
}

#[test]
fn string_equality_is_exact() {
    assert!(str_eq("exit", "exit"));
    assert!(!str_eq("exit", "Exit"));
    assert!(!str_eq("exit", "exit "));
    assert!(str_eq("", ""));
}
