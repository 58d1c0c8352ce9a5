use scan_util::compare_strs::CaseInsensitive;
use scan_util::cursor::Cursor;
use scan_util::cursor::ScanCursor;
use scan_util::scan_error::ScanError;
use scan_util::scanner::next_char_at;
use scan_util::scanner::scan_float;
use scan_util::scanner::scan_int;
use scan_util::scanner::scan_uint;
use scan_util::scanner::Scanner;
use scan_util::tokenizer::WordsAndInts;
use scan_util::whitespace::Ignore;

fn cur(s: &str) -> Cursor<'_, WordsAndInts, Ignore, CaseInsensitive> {
    Cursor::new(s, WordsAndInts, Ignore, CaseInsensitive)
}

fn scan_a<'a, T: Scanner<'a, WordsAndInts, Ignore, CaseInsensitive>>(
    s: &'a str,
) -> Result<(T, Cursor<'a, WordsAndInts, Ignore, CaseInsensitive>), ScanError> {
    T::scan(&cur(s))
}

/// Decode a floating-point value: the mini-lexer finds the literal's
/// extent, the target type's own parser converts it.
fn scan_a_float<F: std::str::FromStr>(
    s: &str,
) -> Result<(F, Cursor<'_, WordsAndInts, Ignore, CaseInsensitive>), ScanError> {
    let c = cur(s);
    let end = match scan_float(c.tail_str()) {
        Some(end) => end,
        None => return Err(c.expected("real number")),
    };
    let lit = c.str_slice_to(end);
    match lit.parse::<F>() {
        Ok(v) => Ok((v, c.slice_from(end))),
        Err(_) => Err(c.expected("real number")),
    }
}

#[test]
fn test_bool() {
    assert!(scan_a::<bool>("").err().is_some());
    assert!(scan_a::<bool>("true").unwrap().0 == true);
    assert!(scan_a::<bool>("false").unwrap().0 == false);
    assert!(scan_a::<bool>("yes").err().is_some());
    assert!(scan_a::<bool>("no").err().is_some());
    assert!(scan_a::<bool>("on").err().is_some());
    assert!(scan_a::<bool>("off").err().is_some());
    assert!(scan_a::<bool>("1").err().is_some());
    assert!(scan_a::<bool>("0").err().is_some());
}

#[test]
fn test_char() {
    assert!(scan_a::<char>("").err().is_some());
    assert!(scan_a::<char>("x").unwrap().0 == 'x');
    assert!(scan_a::<char>("xy").unwrap().0 == 'x');
    assert!(scan_a::<char>("日本語").unwrap().0 == '日');
}

#[test]
fn test_floats() {
    fn test<F: std::str::FromStr + PartialEq + std::ops::Neg<Output = F>>()
    where
        <F as std::str::FromStr>::Err: std::fmt::Debug,
    {
        let fs = |s: &str| -> F { s.parse().unwrap() };

        assert!(scan_a_float::<F>("").err().is_some());
        assert!(scan_a_float::<F>("0").ok().unwrap().0 == fs("0"));
        assert!(scan_a_float::<F>("0.0").ok().unwrap().0 == fs("0.0"));
        assert!(scan_a_float::<F>("-0").ok().unwrap().0 == -fs("0"));
        assert!(scan_a_float::<F>("1.0").ok().unwrap().0 == fs("1.0"));
        assert!(scan_a_float::<F>("1.00").ok().unwrap().0 == fs("1.0"));
        assert!(scan_a_float::<F>("1.0e0").ok().unwrap().0 == fs("1.0"));
        assert!(scan_a_float::<F>("1.0e1").ok().unwrap().0 == fs("10.0"));
    }

    test::<f32>();
    test::<f64>();
}

#[test]
fn test_sized_ints() {
    assert!(scan_a::<i8>("").err().is_some());
    assert!(scan_a::<i8>("0").ok().unwrap().0 == 0);
    assert!(scan_a::<i8>(&format!("{}", i8::MIN)).ok().unwrap().0 == i8::MIN);
    assert!(scan_a::<i8>(&format!("{}", i8::MAX)).ok().unwrap().0 == i8::MAX);
    assert!(scan_a::<i8>(&format!("{}", (i8::MIN as i64) - 1)).err().is_some());
    assert!(scan_a::<i8>(&format!("{}", (i8::MAX as u64) + 1)).err().is_some());

    assert!(scan_a::<i16>("").err().is_some());
    assert!(scan_a::<i16>("0").ok().unwrap().0 == 0);
    assert!(scan_a::<i16>(&format!("{}", i16::MIN)).ok().unwrap().0 == i16::MIN);
    assert!(scan_a::<i16>(&format!("{}", i16::MAX)).ok().unwrap().0 == i16::MAX);
    assert!(scan_a::<i16>(&format!("{}", (i16::MIN as i64) - 1)).err().is_some());
    assert!(scan_a::<i16>(&format!("{}", (i16::MAX as u64) + 1)).err().is_some());

    assert!(scan_a::<i32>("").err().is_some());
    assert!(scan_a::<i32>("0").ok().unwrap().0 == 0);
    assert!(scan_a::<i32>(&format!("{}", i32::MIN)).ok().unwrap().0 == i32::MIN);
    assert!(scan_a::<i32>(&format!("{}", i32::MAX)).ok().unwrap().0 == i32::MAX);
    assert!(scan_a::<i32>(&format!("{}", (i32::MIN as i64) - 1)).err().is_some());
    assert!(scan_a::<i32>(&format!("{}", (i32::MAX as u64) + 1)).err().is_some());

    assert!(scan_a::<i64>("").err().is_some());
    assert!(scan_a::<i64>("0").ok().unwrap().0 == 0);
    assert!(scan_a::<i64>(&format!("{}", i64::MIN)).ok().unwrap().0 == i64::MIN);
    assert!(scan_a::<i64>(&format!("{}", i64::MAX)).ok().unwrap().0 == i64::MAX);

    assert!(scan_a::<u8>("").err().is_some());
    assert!(scan_a::<u8>("0").ok().unwrap().0 == 0);
    assert!(scan_a::<u8>(&format!("{}", u8::MIN)).ok().unwrap().0 == u8::MIN);
    assert!(scan_a::<u8>(&format!("{}", u8::MAX)).ok().unwrap().0 == u8::MAX);
    assert!(scan_a::<u8>(&format!("{}", (u8::MAX as u64) + 1)).err().is_some());

    assert!(scan_a::<u16>("").err().is_some());
    assert!(scan_a::<u16>("0").ok().unwrap().0 == 0);
    assert!(scan_a::<u16>(&format!("{}", u16::MIN)).ok().unwrap().0 == u16::MIN);
    assert!(scan_a::<u16>(&format!("{}", u16::MAX)).ok().unwrap().0 == u16::MAX);
    assert!(scan_a::<u16>(&format!("{}", (u16::MAX as u64) + 1)).err().is_some());

    assert!(scan_a::<u32>("").err().is_some());
    assert!(scan_a::<u32>("0").ok().unwrap().0 == 0);
    assert!(scan_a::<u32>(&format!("{}", u32::MIN)).ok().unwrap().0 == u32::MIN);
    assert!(scan_a::<u32>(&format!("{}", u32::MAX)).ok().unwrap().0 == u32::MAX);
    assert!(scan_a::<u32>(&format!("{}", (u32::MAX as u64) + 1)).err().is_some());

    assert!(scan_a::<u64>("").err().is_some());
    assert!(scan_a::<u64>("0").ok().unwrap().0 == 0);
    assert!(scan_a::<u64>(&format!("{}", u64::MIN)).ok().unwrap().0 == u64::MIN);
    assert!(scan_a::<u64>(&format!("{}", u64::MAX)).ok().unwrap().0 == u64::MAX);
}

#[test]
fn test_int() {
    assert!(scan_a::<isize>("").err().is_some());
    assert!(scan_a::<isize>("0").ok().unwrap().0 == 0);
    assert!(scan_a::<isize>("42").ok().unwrap().0 == 42);
    assert!(scan_a::<isize>("1_234").ok().unwrap().0 == 1);
    assert!(scan_a::<isize>("x").err().is_some());
    assert!(scan_a::<isize>("0x").ok().unwrap().0 == 0);
    assert!(scan_a::<isize>("42x").ok().unwrap().0 == 42);
    assert!(scan_a::<isize>("-").err().is_some());
    assert!(scan_a::<isize>("-0").ok().unwrap().0 == 0);
    assert!(scan_a::<isize>("-42").ok().unwrap().0 == -42);
    assert!(scan_a::<isize>("-1_234").ok().unwrap().0 == -1);
}

#[test]
fn test_uint() {
    assert!(scan_a::<usize>("").err().is_some());
    assert!(scan_a::<usize>("0").ok().unwrap().0 == 0);
    assert!(scan_a::<usize>("42").ok().unwrap().0 == 42);
    assert!(scan_a::<usize>("1_234").ok().unwrap().0 == 1);
    assert!(scan_a::<usize>("x").err().is_some());
    assert!(scan_a::<usize>("0x").ok().unwrap().0 == 0);
    assert!(scan_a::<usize>("42x").ok().unwrap().0 == 42);
    assert!(scan_a::<usize>("-").err().is_some());
    assert!(scan_a::<usize>("-0").err().is_some());
    assert!(scan_a::<usize>("-42").err().is_some());
    assert!(scan_a::<usize>("-1_234").err().is_some());
}

#[test]
fn test_str() {
    assert!(scan_a::<&str>("").err().is_some());
    assert!(scan_a::<&str>("a").ok().unwrap().0 == "a");
    assert!(scan_a::<&str>("a b").ok().unwrap().0 == "a");
    assert!(scan_a::<&str>("abc").ok().unwrap().0 == "abc");
    assert!(scan_a::<&str>("ab-c").ok().unwrap().0 == "ab");
}

#[test]
fn test_string() {
    assert!(scan_a::<String>("").err().is_some());
    assert!(scan_a::<String>("a b").ok().unwrap().0 == "a");
    assert!(scan_a::<String>("abc").ok().unwrap().0 == "abc");
}

#[test]
fn test_unit() {
    let r = scan_a::<()>("abc").unwrap();
    assert_eq!(r.1.consumed(), 0);
}

#[test]
fn test_float_lexer_longest_prefix() {
    assert_eq!(scan_float("1e"), Some(1));
    assert_eq!(scan_float("1.5ex"), Some(3));
    assert_eq!(scan_float("1e-"), Some(1));
    assert_eq!(scan_float("1e-3x"), Some(4));
    assert_eq!(scan_float("1.5e10"), Some(6));
    assert_eq!(scan_float("-12.25e-3"), Some(9));
    assert_eq!(scan_float("x"), None);
    assert_eq!(scan_float("1."), Some(2));
    assert_eq!(scan_float("12x"), Some(2));
}

#[test]
fn test_char_consumed_bytes() {
    let (v, c2) = scan_a::<char>("日本語").unwrap();
    assert_eq!(v, '日');
    assert_eq!(c2.consumed(), 3);
    let (v2, c3) = <char as Scanner<_, _, _>>::scan(&c2).unwrap();
    assert_eq!(v2, '本');
    assert_eq!(c3.consumed(), 6);
    assert_eq!(c3.tail_str(), "語");
}

#[test]
fn test_int_lexers() {
    assert_eq!(scan_uint(""), None);
    assert_eq!(scan_uint("123x"), Some(3));
    assert_eq!(scan_uint("-1"), None);
    assert_eq!(scan_int("-123x"), Some(4));
    assert_eq!(scan_int("123"), Some(3));
    assert_eq!(scan_int("-"), None);
    assert_eq!(scan_int("x"), None);
    assert_eq!(next_char_at("abc", 1), 2);
    assert_eq!(next_char_at("日本語", 0), 3);
    assert_eq!(next_char_at("日本語", 3), 6);
}

#[test]
fn test_int_decoder_positions() {
    let (v, c) = scan_a::<isize>("-42x").unwrap();
    assert_eq!(v, -42);
    assert_eq!(c.tail_str(), "x");

    match scan_a::<isize>("") {
        Err(ScanError::OtherScanError(msg, off)) => {
            assert_eq!(off, 0);
            assert!(msg.contains("integer"));
        },
        _ => panic!("expected a text mismatch"),
    }
}
