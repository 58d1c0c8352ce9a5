use scan_util::compare_strs::AsciiCaseInsensitive;
use scan_util::compare_strs::Exact;
use scan_util::cursor::Cursor;
use scan_util::cursor::ScanCursor;
use scan_util::scan_error::ScanError;
use scan_util::tokenizer::WordsAndInts;
use scan_util::whitespace::Exact as WsExact;
use scan_util::whitespace::ExplicitNewline;
use scan_util::whitespace::Ignore;

fn cur(s: &str) -> Cursor<'_, WordsAndInts, Ignore, Exact> {
    Cursor::new(s, WordsAndInts, Ignore, Exact)
}

#[test]
fn test_words_and_ints_tokens() {
    let c = cur("abc123");
    let (t1, c1) = c.pop_token().unwrap();
    assert_eq!(t1, "abc");
    let (t2, c2) = c1.pop_token().unwrap();
    assert_eq!(t2, "123");
    assert!(c2.pop_token().is_none());
}

#[test]
fn test_pop_ws_idempotent() {
    let c = cur("   abc");
    let c1 = c.pop_ws();
    assert_eq!(c1.consumed(), 3);
    let c2 = c1.pop_ws();
    assert_eq!(c2.consumed(), 3);
}

#[test]
fn test_slice_from_clamps() {
    let c = cur("abcdef");
    assert_eq!(c.slice_from(4).consumed(), 4);
    assert_eq!(c.slice_from(100).consumed(), 6);
    let c4 = c.slice_from(4);
    assert_eq!(c4.slice_from(100).consumed(), 6);
    assert!(!c4.is_empty());
    assert!(c.slice_from(6).is_empty());
}

#[test]
fn test_slices_and_tail() {
    let c = cur("abcdef");
    let c2 = c.slice_from(2);
    assert_eq!(c2.tail_str(), "cdef");
    assert_eq!(c2.str_slice_to(3), "cde");
    let c5 = c.slice_from(5);
    assert_eq!(c2.str_slice_to_cur(&c5), "cde");
    assert_eq!(c.consumed(), 0);
    assert_eq!(c5.consumed(), 5);
}

#[test]
fn test_expect_tok() {
    let c = Cursor::new("Hello world", WordsAndInts, Ignore, AsciiCaseInsensitive);
    let c1 = c.expect_tok("hello").unwrap();
    let c2 = c1.expect_tok("WORLD").unwrap();
    assert!(c2.expect_eof().is_ok());

    match c.expect_tok("goodbye") {
        Err(ScanError::OtherScanError(msg, off)) => {
            assert_eq!(off, 0);
            assert_eq!(msg, "expected `goodbye`, got `Hello`");
        },
        _ => panic!("expected a text mismatch"),
    }
}

#[test]
fn test_expect_eof_message() {
    let c = cur("abc");
    match c.expect_eof() {
        Err(ScanError::OtherScanError(msg, off)) => {
            assert_eq!(off, 0);
            assert_eq!(msg, "expected end of input, got `abc`");
        },
        _ => panic!("expected a text mismatch"),
    }
    assert!(cur("").expect_eof().is_ok());
}

#[test]
fn test_error_builders() {
    let c = cur("abc");
    match c.expected("a number") {
        ScanError::OtherScanError(msg, off) => {
            assert_eq!(off, 0);
            assert_eq!(msg, "expected a number, got `abc`");
        },
        _ => panic!("expected a text mismatch"),
    }
    match cur("").expected("a number") {
        ScanError::OtherScanError(msg, _) => {
            assert_eq!(msg, "expected a number, got end of input");
        },
        _ => panic!("expected a text mismatch"),
    }
    match c.expected_one_of(&["x", "y", "z"]) {
        ScanError::OtherScanError(msg, _) => {
            assert_eq!(msg, "expected `x`, `y`, `z`, got `abc`");
        },
        _ => panic!("expected a text mismatch"),
    }
    match c.expected_min_repeats(3, 1) {
        ScanError::OtherScanError(msg, _) => {
            assert_eq!(msg, "expected at least 3 repeats, got 1");
        },
        _ => panic!("expected a text mismatch"),
    }
}

#[test]
fn test_explicit_newline_token() {
    let c = Cursor::new("\r\n x", WordsAndInts, ExplicitNewline, Exact);
    let (t1, c1) = c.pop_token().unwrap();
    assert_eq!(t1, "\n");
    assert_eq!(c1.consumed(), 2);
    let (t2, c2) = c1.pop_token().unwrap();
    assert_eq!(t2, "x");
    assert!(c2.pop_token().is_none());
}

#[test]
fn test_fallback_single_code_point() {
    let c = cur("+x");
    let (t1, c1) = c.pop_token().unwrap();
    assert_eq!(t1, "+");
    let (t2, _) = c1.pop_token().unwrap();
    assert_eq!(t2, "x");
}

#[test]
fn test_error_merge() {
    let a = ScanError::OtherScanError("a".to_string(), 3);
    let b = ScanError::OtherScanError("b".to_string(), 5);
    match a.or(b) {
        ScanError::OtherScanError(msg, off) => {
            assert_eq!(msg, "b");
            assert_eq!(off, 5);
        },
        _ => panic!("expected a text mismatch"),
    }

    let io = ScanError::ScanIoError("broken pipe".to_string());
    let m = ScanError::OtherScanError("a".to_string(), 3);
    match m.or(io) {
        ScanError::ScanIoError(cause) => assert_eq!(cause, "broken pipe"),
        _ => panic!("the byte-source failure must win the merge"),
    }

    let later = ScanError::OtherScanError("x".to_string(), 7);
    let earlier = ScanError::OtherScanError("y".to_string(), 2);
    match later.or(earlier) {
        ScanError::OtherScanError(msg, off) => {
            assert_eq!(msg, "x");
            assert_eq!(off, 7);
        },
        _ => panic!("expected a text mismatch"),
    }
}

#[test]
fn test_error_rendering() {
    let e = ScanError::OtherScanError("expected `x`, got `y`".to_string(), 17);
    assert_eq!(e.to_message(), "at offset 17: expected `x`, got `y`");
    let io = ScanError::ScanIoError("unexpected end of file".to_string());
    assert_eq!(io.to_message(), "io error: unexpected end of file");
    let zero = ScanError::OtherScanError("m".to_string(), 0);
    assert_eq!(zero.to_message(), "at offset 0: m");
    let big = ScanError::OtherScanError("m".to_string(), 1234567890);
    assert_eq!(big.to_message(), "at offset 1234567890: m");
}

#[test]
fn test_byte_offsets() {
    let c = Cursor::new("日本語 x", WordsAndInts, Ignore, Exact);
    let (t1, c1) = c.pop_token().unwrap();
    assert_eq!(t1, "日本語");
    assert_eq!(c1.consumed(), 9);
    assert_eq!(c1.tail_str(), " x");
    let (t2, c2) = c1.pop_token().unwrap();
    assert_eq!(t2, "x");
    assert_eq!(c2.consumed(), 11);
    match c1.expect_tok("y") {
        Err(ScanError::OtherScanError(_, off)) => assert_eq!(off, 9),
        _ => panic!("expected a text mismatch"),
    }
    assert_eq!(c.str_slice_to(3), "日");
    assert_eq!(c.slice_from(3).tail_str(), "本語 x");
    assert_eq!(c.str_slice_to_cur(&c1), "日本語");
}

#[test]
fn test_escaped_messages() {
    let c = Cursor::new("\nx", WordsAndInts, WsExact, Exact);
    match c.expected("a number") {
        ScanError::OtherScanError(msg, _) => {
            assert_eq!(msg, "expected a number, got `\\n`");
        },
        _ => panic!("expected a text mismatch"),
    }

    let c2 = Cursor::new("αβ", WordsAndInts, Ignore, Exact);
    match c2.expected_tok("x") {
        ScanError::OtherScanError(msg, _) => {
            assert_eq!(msg, "expected `x`, got `\\u{3b1}\\u{3b2}`");
        },
        _ => panic!("expected a text mismatch"),
    }

    let c3 = cur("\\");
    match c3.expected_one_of(&["a\tb"]) {
        ScanError::OtherScanError(msg, _) => {
            assert_eq!(msg, "expected `a\\tb`, got `\\\\`");
        },
        _ => panic!("expected a text mismatch"),
    }
}
