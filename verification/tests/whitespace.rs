use scan_util::whitespace::Exact;
use scan_util::whitespace::Explicit;
use scan_util::whitespace::ExplicitAny;
use scan_util::whitespace::ExplicitNewline;
use scan_util::whitespace::Ignore;
use scan_util::whitespace::Whitespace;

#[test]
fn test_ws_ignore() {
    fn sp(s: &str) -> (usize, Option<(usize, &str)>) {
        (Ignore.strip_len(s), Ignore.token_len(s))
    }

    assert_eq!(sp(""), (0, None));
    assert_eq!(sp(" "), (1, None));
    assert_eq!(sp("\t"), (1, None));
    assert_eq!(sp("\r"), (1, None));
    assert_eq!(sp("\n"), (1, None));
    assert_eq!(sp("\r\n"), (2, None));
    assert_eq!(sp(" \t\r\n  x "), (6, None));
}

#[test]
fn test_ws_explicit_newline() {
    fn sp(s: &str) -> (usize, Option<(usize, &str)>) {
        (ExplicitNewline.strip_len(s), ExplicitNewline.token_len(s))
    }

    assert_eq!(sp(""), (0, None));
    assert_eq!(sp(" "), (1, None));
    assert_eq!(sp("\t"), (1, None));
    assert_eq!(sp("\r"), (0, Some((1, "\n"))));
    assert_eq!(sp("\n"), (0, Some((1, "\n"))));
    assert_eq!(sp("\r\n"), (0, Some((2, "\n"))));
    assert_eq!(sp(" \t\r\n  x "), (2, None));
}

#[test]
fn test_ws_explicit() {
    fn sp(s: &str) -> (usize, Option<(usize, &str)>) {
        (Explicit.strip_len(s), Explicit.token_len(s))
    }

    assert_eq!(sp(""), (0, None));
    assert_eq!(sp(" "), (0, Some((1, " "))));
    assert_eq!(sp("\t"), (0, Some((1, " "))));
    assert_eq!(sp("\r"), (0, Some((1, "\n"))));
    assert_eq!(sp("\n"), (0, Some((1, "\n"))));
    assert_eq!(sp("\r\n"), (0, Some((2, "\n"))));
    assert_eq!(sp(" \t\r\n  x "), (0, Some((2, " "))));
}

#[test]
fn test_ws_explicit_any() {
    fn sp(s: &str) -> (usize, Option<(usize, &str)>) {
        (ExplicitAny.strip_len(s), ExplicitAny.token_len(s))
    }

    assert_eq!(sp(""), (0, None));
    assert_eq!(sp(" "), (0, Some((1, " "))));
    assert_eq!(sp("\t"), (0, Some((1, " "))));
    assert_eq!(sp("\r"), (0, Some((1, " "))));
    assert_eq!(sp("\n"), (0, Some((1, " "))));
    assert_eq!(sp("\r\n"), (0, Some((2, " "))));
    assert_eq!(sp(" \t\r\n  x "), (0, Some((6, " "))));
}

#[test]
fn test_ws_exact() {
    fn sp(s: &str) -> (usize, Option<(usize, &str)>) {
        (Exact.strip_len(s), Exact.token_len(s))
    }

    assert_eq!(sp(""), (0, None));
    assert_eq!(sp(" "), (0, Some((1, " "))));
    assert_eq!(sp("\t"), (0, Some((1, "\t"))));
    assert_eq!(sp("\r"), (0, Some((1, "\r"))));
    assert_eq!(sp("\n"), (0, Some((1, "\n"))));
    assert_eq!(sp("\r\n"), (0, Some((2, "\r\n"))));
    assert_eq!(sp(" \t\r\n  x "), (0, Some((1, " "))));
}

#[test]
fn test_ws_explicit_newline_mixed() {
    assert_eq!(ExplicitNewline.token_len("\r\n x"), Some((2, "\n")));
    assert_eq!(ExplicitNewline.strip_len("\r\n x"), 0);
}

#[test]
fn test_ws_bytes() {
    assert_eq!(Ignore.strip_len("\u{3000}x"), 3);
    assert_eq!(ExplicitNewline.strip_len("\u{3000}\nx"), 3);
    assert_eq!(Exact.token_len("\u{3000}x"), Some((3, "\u{3000}")));
    assert_eq!(ExplicitAny.token_len("\u{3000} x"), Some((4, " ")));
}
