use scan_util::tokenizer::Explicit;
use scan_util::tokenizer::IdentsAndInts;
use scan_util::tokenizer::SpaceDelimited;
use scan_util::tokenizer::Tokenizer;
use scan_util::tokenizer::WordsAndInts;

#[test]
fn test_words_and_ints() {
    let tl = |s: &str| WordsAndInts.token_len(s);

    assert_eq!(tl(""), None);
    assert_eq!(tl("_"), None);
    assert_eq!(tl("abc"), Some(3));
    assert_eq!(tl("abc def"), Some(3));
    assert_eq!(tl("abc123"), Some(3));
    assert_eq!(tl("abc_def"), Some(3));
    assert_eq!(tl("123"), Some(3));
    assert_eq!(tl("123 456"), Some(3));
    assert_eq!(tl("123abc"), Some(3));
    assert_eq!(tl("123_456"), Some(3));
    assert_eq!(tl("123.456"), Some(3));
}

#[test]
fn test_idents_and_ints() {
    let tl = |s: &str| IdentsAndInts.token_len(s);

    assert_eq!(tl(""), None);
    assert_eq!(tl("_"), Some(1));
    assert_eq!(tl("abc"), Some(3));
    assert_eq!(tl("abc def"), Some(3));
    assert_eq!(tl("abc123"), Some(6));
    assert_eq!(tl("abc_def"), Some(7));
    assert_eq!(tl("123"), Some(3));
    assert_eq!(tl("123abc"), Some(3));
    assert_eq!(tl("_123abc"), Some(7));
    assert_eq!(tl("123 456"), Some(3));
    assert_eq!(tl("123abc"), Some(3));
    assert_eq!(tl("123_456"), Some(3));
    assert_eq!(tl("123.456"), Some(3));
}

#[test]
fn test_space_delimited() {
    let tl = |s: &str| SpaceDelimited.token_len(s);

    assert_eq!(tl(""), None);
    assert_eq!(tl(" abc"), None);
    assert_eq!(tl("_"), Some(1));
    assert_eq!(tl("abc"), Some(3));
    assert_eq!(tl("abc def"), Some(3));
    assert_eq!(tl("abc123"), Some(6));
    assert_eq!(tl("abc_def"), Some(7));
    assert_eq!(tl("123"), Some(3));
    assert_eq!(tl("123abc"), Some(6));
    assert_eq!(tl("_123abc"), Some(7));
    assert_eq!(tl("123 456"), Some(3));
    assert_eq!(tl("123abc"), Some(6));
    assert_eq!(tl("123_456"), Some(7));
    assert_eq!(tl("123.456"), Some(7));
}

#[test]
fn test_explicit() {
    let tl = |s: &str| Explicit.token_len(s);

    assert_eq!(tl(""), None);
    assert_eq!(tl(" abc"), Some(4));
    assert_eq!(tl("_"), Some(1));
    assert_eq!(tl("abc"), Some(3));
    assert_eq!(tl("abc def"), Some(7));
    assert_eq!(tl("abc123"), Some(6));
    assert_eq!(tl("abc_def"), Some(7));
    assert_eq!(tl("123"), Some(3));
    assert_eq!(tl("123abc"), Some(6));
    assert_eq!(tl("_123abc"), Some(7));
    assert_eq!(tl("123 456"), Some(7));
    assert_eq!(tl("123abc"), Some(6));
    assert_eq!(tl("123_456"), Some(7));
    assert_eq!(tl("123.456"), Some(7));
}

#[test]
fn test_token_len_bytes() {
    assert_eq!(WordsAndInts.token_len("日本語 x"), Some(9));
    assert_eq!(WordsAndInts.token_len("αβγ x"), Some(6));
    assert_eq!(IdentsAndInts.token_len("λx"), Some(3));
    assert_eq!(SpaceDelimited.token_len("αβ x"), Some(4));
    assert_eq!(Explicit.token_len("日x"), Some(4));
}
