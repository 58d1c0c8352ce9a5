use scan_util::compare_strs::AsciiCaseInsensitive;
use scan_util::compare_strs::CaseInsensitive;
use scan_util::compare_strs::CompareStrs;
use scan_util::compare_strs::Exact;

#[test]
fn test_cs_exact() {
    let cs = |a, b| Exact.compare_strs(a, b);

    let s = "abc ΑΒΓαβγ";

    assert_eq!(cs(s, "abc ΑΒΓαβγ"), true);
    assert_eq!(cs(s, "Abc ΑΒΓαβγ"), false);
    assert_eq!(cs(s, "aBc ΑΒΓαβγ"), false);
    assert_eq!(cs(s, "abC ΑΒΓαβγ"), false);
    assert_eq!(cs(s, "abc αΒΓαβγ"), false);
    assert_eq!(cs(s, "abc ΑβΓαβγ"), false);
    assert_eq!(cs(s, "abc ΑΒγαβγ"), false);
    assert_eq!(cs(s, "abc ΑΒΓΑβγ"), false);
    assert_eq!(cs(s, "abc ΑΒΓαΒγ"), false);
    assert_eq!(cs(s, "abc ΑΒΓαβΓ"), false);
}

#[test]
fn test_cs_ascii_case_insensitive() {
    let cs = |a, b| AsciiCaseInsensitive.compare_strs(a, b);

    let s = "abc ΑΒΓαβγ";

    assert_eq!(cs(s, "abc ΑΒΓαβγ"), true);
    assert_eq!(cs(s, "Abc ΑΒΓαβγ"), true);
    assert_eq!(cs(s, "aBc ΑΒΓαβγ"), true);
    assert_eq!(cs(s, "abC ΑΒΓαβγ"), true);
    assert_eq!(cs(s, "abc αΒΓαβγ"), false);
    assert_eq!(cs(s, "abc ΑβΓαβγ"), false);
    assert_eq!(cs(s, "abc ΑΒγαβγ"), false);
    assert_eq!(cs(s, "abc ΑΒΓΑβγ"), false);
    assert_eq!(cs(s, "abc ΑΒΓαΒγ"), false);
    assert_eq!(cs(s, "abc ΑΒΓαβΓ"), false);
}

#[test]
fn test_cs_case_insensitive() {
    let cs = |a, b| CaseInsensitive.compare_strs(a, b);

    let s = "abc ΑΒΓαβγ";

    assert_eq!(cs(s, "abc ΑΒΓαβγ"), true);
    assert_eq!(cs(s, "Abc ΑΒΓαβγ"), true);
    assert_eq!(cs(s, "aBc ΑΒΓαβγ"), true);
    assert_eq!(cs(s, "abC ΑΒΓαβγ"), true);
    assert_eq!(cs(s, "abc αΒΓαβγ"), true);
    assert_eq!(cs(s, "abc ΑβΓαβγ"), true);
    assert_eq!(cs(s, "abc ΑΒγαβγ"), true);
    assert_eq!(cs(s, "abc ΑΒΓΑβγ"), true);
    assert_eq!(cs(s, "abc ΑΒΓαΒγ"), true);
    assert_eq!(cs(s, "abc ΑΒΓαβΓ"), true);
}

#[test]
fn test_cs_length_mismatch() {
    assert_eq!(Exact.compare_strs("abc", "ab"), false);
    assert_eq!(AsciiCaseInsensitive.compare_strs("abc", "ab"), false);
    assert_eq!(CaseInsensitive.compare_strs("abc", "ab"), false);
    assert_eq!(Exact.compare_strs("", ""), true);
    assert_eq!(AsciiCaseInsensitive.compare_strs("", ""), true);
    assert_eq!(CaseInsensitive.compare_strs("", ""), true);
}
