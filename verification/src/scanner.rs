//! The `Scanner` trait, the decoders for primitive types, and the
//! mini-lexers they rest on.  Each mini-lexer finds the longest textual
//! prefix that could be a literal of its target type; conversion of that
//! prefix to a value is a separate, fully specified step.

use vstd::prelude::*;

use crate::chars::is_digit;
use crate::chars::is_digit_char;
use crate::compare_strs::CompareStrs;
use crate::cursor::Cursor;
use crate::cursor::ScanCursor;
use crate::encoding::char_len;
use crate::encoding::char_utf8_len;
use crate::encoding::is_boundary;
use crate::encoding::lemma_ascii_text_len;
use crate::encoding::lemma_boundary_unique;
use crate::encoding::lemma_text_len_mono;
use crate::encoding::lemma_text_len_nil;
use crate::encoding::lemma_text_len_split;
use crate::encoding::lemma_text_len_take_succ;
use crate::encoding::str_byte_len;
use crate::encoding::text_len;
use crate::len_while;
use crate::run_len;
use crate::scan_error::ScanError;
use crate::tokenizer::Tokenizer;
use crate::whitespace::Whitespace;

verus! {

use vstd::string::StrSliceExecFns;
use vstd::string::StringExecFns;

/// The length of the leading run of decimal digits.
pub open spec fn spec_digit_run(s: Seq<char>) -> nat {
    run_len(|c: char| is_digit_char(c), s)
}

/// What `scan_uint` returns: the extent of the unsigned decimal literal
/// at the start of the text, in code points (a decimal literal is ASCII,
/// so this is also its byte length), or `None` when there is none.
pub open spec fn spec_scan_uint(s: Seq<char>) -> Option<nat> {
    if spec_digit_run(s) == 0 {
        None
    } else {
        Some(spec_digit_run(s))
    }
}

/// What `scan_int` returns: the extent of the optionally `-`-signed
/// decimal literal at the start of the text, in code points (such a
/// literal is ASCII, so this is also its byte length), or `None` when
/// there is none.
pub open spec fn spec_scan_int(s: Seq<char>) -> Option<nat> {
    if s.len() > 0 && s[0] == '-' {
        match spec_scan_uint(s.skip(1)) {
            Some(n) => Some((n + 1) as nat),
            None => None,
        }
    } else {
        spec_scan_uint(s)
    }
}

/// The length in bytes of the unsigned decimal integer literal at the
/// start of `s`: the maximal run of decimal digits, or `None` when it is
/// empty.  A decimal literal is ASCII, so the byte length equals its
/// code-point count.  Embedded underscores and non-decimal bases are not
/// supported.
pub fn scan_uint(s: &str) -> (r: Option<usize>)
    ensures
        r matches Some(n) ==> spec_scan_uint(s@) == Some(n as nat) && n <= s@.len() && n
            == text_len(s@.take(n as int)),
        r is None ==> spec_scan_uint(s@) is None,
{
    proof {
        crate::lemma_run_len(|c: char| is_digit_char(c), s@);
        let run = crate::run_len(|c: char| is_digit_char(c), s@);
        assert forall|i: int| 0 <= i < s@.take(run as int).len() implies (#[trigger] s@.take(
            run as int,
        )[i] as u32) < 128 by {
            assert(s@.take(run as int)[i] == s@[i]);
        }
        lemma_ascii_text_len(s@.take(run as int));
    }
    len_while(s, is_digit, Ghost(|c: char| is_digit_char(c)))
}

/// The length in bytes of the possibly `-`-signed decimal integer literal
/// at the start of `s`, or `None` when there is none.  Such a literal is
/// ASCII, so the byte length equals its code-point count.  Embedded
/// underscores and non-decimal bases are not supported.
pub fn scan_int(s: &str) -> (r: Option<usize>)
    ensures
        r matches Some(n) ==> spec_scan_int(s@) == Some(n as nat) && n <= s@.len() && n
            == text_len(s@.take(n as int)),
        r is None ==> spec_scan_int(s@) is None,
{
    let n = s.unicode_len();
    if n == 0 {
        return None;
    }
    if s.get_char(0) == '-' {
        let rest = s.substring_char(1, n);
        match scan_uint(rest) {
            Some(e) => {
                proof {
                    assert forall|i: int| 0 <= i < s@.take(e + 1).len() implies (
                    #[trigger] s@.take(e + 1)[i] as u32) < 128 by {
                        crate::lemma_run_len(|c: char| is_digit_char(c), rest@);
                        if i > 0 {
                            assert(s@.take(e + 1)[i] == rest@[i - 1]);
                            assert(rest@.take(e as int)[i - 1] == rest@[i - 1]);
                        }
                    }
                    lemma_ascii_text_len(s@.take(e + 1));
                }
                Some(e + 1)
            },
            None => None,
        }
    } else {
        scan_uint(s)
    }
}

/// The byte offset just past the code point that starts at byte offset
/// `at`.
pub fn next_char_at(s: &str, at: usize) -> (r: usize)
    requires
        at < text_len(s@),
        is_boundary(s@, at as int),
    ensures
        forall|k: int|
            0 <= k < s@.len() && at == text_len(s@.take(k)) ==> r == at + char_len(s@[k]),
{
    let ghost inp = s@;
    let total = str_byte_len(s);
    let n = s.unicode_len();
    proof {
        lemma_text_len_nil(inp);
        assert(inp.take(n as int) =~= inp);
    }
    let mut k: usize = 0;
    let mut b: usize = 0;
    while b < at
        invariant
            inp == s@,
            n == inp.len(),
            total == text_len(inp),
            at < total,
            is_boundary(inp, at as int),
            k <= n,
            b == text_len(inp.take(k as int)),
            b <= at,
        decreases at - b,
    {
        proof {
            assert(inp.take(n as int) =~= inp);
            if k >= n {
                assert(false);
            }
            lemma_text_len_take_succ(inp, k as int);
            let j = choose|j: int| 0 <= j <= inp.len() && at == text_len(inp.take(j));
            if j <= k {
                lemma_text_len_mono(inp, j, k as int);
            } else {
                lemma_text_len_mono(inp, k + 1, j);
            }
            lemma_text_len_mono(inp, k + 1, n as int);
            crate::encoding::lemma_char_len(inp[k as int]);
        }
        let c = s.get_char(k);
        b = b + char_utf8_len(c);
        k = k + 1;
    }
    proof {
        assert(inp.take(n as int) =~= inp);
        if k >= n {
            assert(false);
        }
        lemma_text_len_take_succ(inp, k as int);
        lemma_text_len_mono(inp, k + 1, n as int);
        assert forall|k2: int|
            0 <= k2 < inp.len() && at == text_len(inp.take(k2)) implies k2 == k by {
            lemma_boundary_unique(inp, k2, k as int);
        }
    }
    let c = s.get_char(k);
    at + char_utf8_len(c)
}

/// The states of the floating-point mini-lexer: before the first code
/// point, in the whole part, in the fraction after `.`, just after `e` or
/// `E`, after an exponent sign, and in the exponent digits.
#[derive(Clone, Copy, Debug)]
pub enum FloatState {
    Start,
    Whole,
    Suffix,
    ExpStart,
    ExpSign,
    Exp,
}

/// One run of the floating-point mini-lexer from offset `i` in state
/// `state`; `mark` is the offset of the last `e`/`E` seen, to which the
/// lexer falls back when the exponent never gets a digit.
pub open spec fn spec_float_from(s: Seq<char>, i: nat, state: FloatState, mark: nat) -> Option<
    nat,
>
    decreases s.len() - i,
{
    if i >= s.len() {
        match state {
            FloatState::ExpStart => Some(mark),
            FloatState::ExpSign => Some(mark),
            _ => Some(i),
        }
    } else {
        let c = s[i as int];
        match state {
            FloatState::Start => if is_digit_char(c) || c == '-' {
                spec_float_from(s, i + 1, FloatState::Whole, mark)
            } else {
                None
            },
            FloatState::Whole => if is_digit_char(c) {
                spec_float_from(s, i + 1, FloatState::Whole, mark)
            } else if c == '.' {
                spec_float_from(s, i + 1, FloatState::Suffix, mark)
            } else if c == 'e' || c == 'E' {
                spec_float_from(s, i + 1, FloatState::ExpStart, i)
            } else {
                Some(i)
            },
            FloatState::Suffix => if is_digit_char(c) {
                spec_float_from(s, i + 1, FloatState::Suffix, mark)
            } else if c == 'e' || c == 'E' {
                spec_float_from(s, i + 1, FloatState::ExpStart, i)
            } else {
                Some(i)
            },
            FloatState::ExpStart => if is_digit_char(c) {
                spec_float_from(s, i + 1, FloatState::Exp, mark)
            } else if c == '+' || c == '-' {
                spec_float_from(s, i + 1, FloatState::ExpSign, mark)
            } else {
                Some(mark)
            },
            FloatState::ExpSign => if is_digit_char(c) {
                spec_float_from(s, i + 1, FloatState::Exp, mark)
            } else {
                Some(mark)
            },
            FloatState::Exp => if is_digit_char(c) {
                spec_float_from(s, i + 1, FloatState::Exp, mark)
            } else {
                Some(i)
            },
        }
    }
}

/// What `scan_float` returns on a text: the extent of the literal in code
/// points (a floating-point literal is ASCII, so this is also its byte
/// length), or `None` when there is none.
pub open spec fn spec_scan_float(s: Seq<char>) -> Option<nat> {
    spec_float_from(s, 0, FloatState::Start, 0)
}

/// The length of the floating-point literal at the start of `s`: an
/// optional `-`, digits, an optional `.` and fraction digits, and an
/// optional exponent.  An exponent marker that is never followed by a
/// digit is not consumed: the lexer stops before the `e`, keeping the
/// longest valid prefix.  Embedded underscores and hexadecimal literals
/// are not supported.
pub fn scan_float(s: &str) -> (r: Option<usize>)
    ensures
        r matches Some(n) ==> spec_scan_float(s@) == Some(n as nat) && n <= s@.len() && n
            == text_len(s@.take(n as int)),
        r is None ==> spec_scan_float(s@) is None,
{
    let n = s.unicode_len();
    let mut state = FloatState::Start;
    let mut mark: usize = 0;
    let mut i: usize = 0;
    while i < n
        invariant
            n == s@.len(),
            i <= n,
            mark <= i,
            spec_float_from(s@, i as nat, state, mark as nat) == spec_scan_float(s@),
            state matches FloatState::Start ==> i == 0,
            forall|j: int| 0 <= j < i ==> (#[trigger] s@[j] as u32) < 128,
        decreases n - i,
    {
        let c = s.get_char(i);
        match state {
            FloatState::Start => {
                if is_digit(c) || c == '-' {
                    state = FloatState::Whole;
                } else {
                    return None;
                }
            },
            FloatState::Whole => {
                if is_digit(c) {
                } else if c == '.' {
                    state = FloatState::Suffix;
                } else if c == 'e' || c == 'E' {
                    state = FloatState::ExpStart;
                    mark = i;
                } else {
                    proof {
                        lemma_ascii_prefix(s@, i as int);
                    }
                    return Some(i);
                }
            },
            FloatState::Suffix => {
                if is_digit(c) {
                } else if c == 'e' || c == 'E' {
                    state = FloatState::ExpStart;
                    mark = i;
                } else {
                    proof {
                        lemma_ascii_prefix(s@, i as int);
                    }
                    return Some(i);
                }
            },
            FloatState::ExpStart => {
                if is_digit(c) {
                    state = FloatState::Exp;
                } else if c == '+' || c == '-' {
                    state = FloatState::ExpSign;
                } else {
                    proof {
                        lemma_ascii_prefix(s@, mark as int);
                    }
                    return Some(mark);
                }
            },
            FloatState::ExpSign => {
                if is_digit(c) {
                    state = FloatState::Exp;
                } else {
                    proof {
                        lemma_ascii_prefix(s@, mark as int);
                    }
                    return Some(mark);
                }
            },
            FloatState::Exp => {
                if is_digit(c) {
                } else {
                    proof {
                        lemma_ascii_prefix(s@, i as int);
                    }
                    return Some(i);
                }
            },
        }
        i += 1;
    }
    proof {
        lemma_ascii_prefix(s@, mark as int);
        lemma_ascii_prefix(s@, i as int);
    }
    match state {
        FloatState::ExpStart => Some(mark),
        FloatState::ExpSign => Some(mark),
        _ => Some(i),
    }
}

/// A prefix of code points below 128 measures one byte each.
proof fn lemma_ascii_prefix(s: Seq<char>, m: int)
    requires
        0 <= m <= s.len(),
        forall|j: int| 0 <= j < m ==> (#[trigger] s[j] as u32) < 128,
    ensures
        text_len(s.take(m)) == m,
{
    assert forall|j: int| 0 <= j < s.take(m).len() implies (#[trigger] s.take(m)[j] as u32)
        < 128 by {
        assert(s.take(m)[j] == s[j]);
    }
    lemma_ascii_text_len(s.take(m));
}

/// The value of one decimal digit.
pub open spec fn spec_digit_val(c: char) -> int {
    c as u32 - '0' as u32
}

/// The numeric value of a run of decimal digits (most significant first).
pub open spec fn spec_dec_val(s: Seq<char>) -> int
    decreases s.len(),
{
    if s.len() == 0 {
        0
    } else {
        spec_dec_val(s.drop_last()) * 10 + spec_digit_val(s.last())
    }
}

/// The value of a digit run is non-negative, and no prefix of it exceeds
/// the whole.
pub proof fn lemma_dec_val_bounds(s: Seq<char>)
    requires
        forall|i: int| 0 <= i < s.len() ==> is_digit_char(s[i]),
    ensures
        spec_dec_val(s) >= 0,
        forall|j: int| 0 <= j <= s.len() ==> spec_dec_val(#[trigger] s.take(j)) <= spec_dec_val(s),
    decreases s.len(),
{
    if s.len() == 0 {
        assert forall|j: int| 0 <= j <= s.len() implies spec_dec_val(#[trigger] s.take(j))
            <= spec_dec_val(s) by {
            assert(s.take(j) =~= s);
        }
    } else {
        lemma_dec_val_bounds(s.drop_last());
        assert forall|j: int| 0 <= j <= s.len() implies spec_dec_val(#[trigger] s.take(j))
            <= spec_dec_val(s) by {
            if j == s.len() {
                assert(s.take(j) =~= s);
            } else {
                assert(s.take(j) =~= s.drop_last().take(j));
            }
        }
    }
}

/// Parse a run of decimal digits as an unsigned 64-bit value; `None`
/// exactly when the value does not fit.
fn parse_u64_digits(s: &str) -> (r: Option<u64>)
    requires
        forall|i: int| 0 <= i < s@.len() ==> is_digit_char(s@[i]),
    ensures
        r matches Some(v) ==> v == spec_dec_val(s@),
        r is None ==> spec_dec_val(s@) > u64::MAX,
{
    proof {
        lemma_dec_val_bounds(s@);
    }
    let n = s.unicode_len();
    let mut acc: u64 = 0;
    let mut i: usize = 0;
    while i < n
        invariant
            n == s@.len(),
            i <= n,
            forall|k: int| 0 <= k < s@.len() ==> is_digit_char(s@[k]),
            acc == spec_dec_val(s@.take(i as int)),
            forall|j: int| 0 <= j <= s@.len() ==> spec_dec_val(#[trigger] s@.take(j))
                <= spec_dec_val(s@),
        decreases n - i,
    {
        let c = s.get_char(i);
        let d = (c as u32) - 48;
        proof {
            assert(s@.take(i + 1).drop_last() =~= s@.take(i as int));
            assert(s@.take(i + 1).last() == s@[i as int]);
        }
        let next = match acc.checked_mul(10) {
            Some(x) => x.checked_add(d as u64),
            None => None,
        };
        match next {
            Some(x) => {
                acc = x;
            },
            None => {
                return None;
            },
        }
        i += 1;
    }
    proof {
        assert(s@.take(n as int) =~= s@);
    }
    Some(acc)
}

/// The value of a possibly `-`-signed run of decimal digits.
pub open spec fn spec_int_val(s: Seq<char>) -> int {
    if s.len() > 0 && s[0] == '-' {
        -spec_dec_val(s.skip(1))
    } else {
        spec_dec_val(s)
    }
}

/// Parse a possibly `-`-signed run of decimal digits as a signed 64-bit
/// value; `None` exactly when the value does not fit.
fn parse_i64_digits(s: &str) -> (r: Option<i64>)
    requires
        s@.len() > 0 && s@[0] == '-' ==> forall|i: int| 1 <= i < s@.len() ==> is_digit_char(
            s@[i],
        ),
        !(s@.len() > 0 && s@[0] == '-') ==> forall|i: int|
            0 <= i < s@.len() ==> is_digit_char(s@[i]),
    ensures
        r matches Some(v) ==> v == spec_int_val(s@),
        r is None ==> spec_int_val(s@) > i64::MAX || spec_int_val(s@) < i64::MIN,
{
    let n = s.unicode_len();
    if n > 0 && s.get_char(0) == '-' {
        let digits = s.substring_char(1, n);
        proof {
            assert(digits@ =~= s@.skip(1));
            lemma_dec_val_bounds(digits@);
        }
        match parse_u64_digits(digits) {
            Some(mag) => {
                if mag <= 9223372036854775807u64 {
                    Some(-(mag as i64))
                } else if mag == 9223372036854775808u64 {
                    Some(i64::MIN)
                } else {
                    None
                }
            },
            None => None,
        }
    } else {
        proof {
            lemma_dec_val_bounds(s@);
        }
        match parse_u64_digits(s) {
            Some(mag) => {
                if mag <= 9223372036854775807u64 {
                    Some(mag as i64)
                } else {
                    None
                }
            },
            None => None,
        }
    }
}

/// A decoder of values of one type from a scan position.
pub trait Scanner<'a, Tok: Tokenizer, Sp: Whitespace, Cs: CompareStrs>: Sized {
    /// Decode a value at the cursor: the value and the successor position
    /// past what was consumed, or an error saying why no value could be
    /// decoded.  On an error the input is untouched: the caller may resume
    /// from the position it still holds.
    fn scan(cursor: &Cursor<'a, Tok, Sp, Cs>) -> (r: Result<
        (Self, Cursor<'a, Tok, Sp, Cs>),
        ScanError,
    >)
        requires
            cursor.wf(),
        ensures
            r matches Ok(p) ==> cursor.same_scan(&p.1) && p.1.wf() && p.1.offset()
                >= cursor.offset(),
    ;
}

impl<'a, Tok: Tokenizer, Sp: Whitespace, Cs: CompareStrs> Scanner<'a, Tok, Sp, Cs> for bool {
    /// Decode `true` or `false`, matched under the active comparator.
    fn scan(cursor: &Cursor<'a, Tok, Sp, Cs>) -> (r: Result<
        (bool, Cursor<'a, Tok, Sp, Cs>),
        ScanError,
    >)
        ensures
            r matches Ok(p) ==> cursor.spec_pop_token() matches Some(q) && (p.0 == true
                && cursor.spec_compare("true"@, q.0) || p.0 == false && !cursor.spec_compare(
                "true"@,
                q.0,
            ) && cursor.spec_compare("false"@, q.0)) && p.1.offset() == q.1,
            r is Err ==> !(cursor.spec_pop_token() matches Some(q) && (cursor.spec_compare(
                "true"@,
                q.0,
            ) || cursor.spec_compare("false"@, q.0))),
            r matches Err(e) ==> e matches ScanError::OtherScanError(m, off) && m@
                == crate::cursor::spec_expected_msg("`true` or `false`"@, cursor.spec_pop_token())
                && off == cursor.offset(),
    {
        match cursor.expect_tok("true") {
            Ok(c) => Ok((true, c)),
            Err(_) => match cursor.expect_tok("false") {
                Ok(c) => Ok((false, c)),
                Err(_) => Err(cursor.expected("`true` or `false`")),
            },
        }
    }
}

impl<'a, Tok: Tokenizer, Sp: Whitespace, Cs: CompareStrs> Scanner<'a, Tok, Sp, Cs> for char {
    /// Decode the first code point of the unconsumed input.
    fn scan(cursor: &Cursor<'a, Tok, Sp, Cs>) -> (r: Result<
        (char, Cursor<'a, Tok, Sp, Cs>),
        ScanError,
    >)
        ensures
            r matches Ok(p) ==> cursor.spec_tail().len() > 0 && p.0 == cursor.spec_tail()[0]
                && p.1.offset() == cursor.offset() + char_len(cursor.spec_tail()[0]),
            r is Err ==> cursor.spec_tail().len() == 0,
            r matches Err(e) ==> e matches ScanError::OtherScanError(m, off) && m@
                == crate::cursor::spec_expected_msg("character"@, cursor.spec_pop_token()) && off
                == cursor.offset(),
    {
        let t = cursor.tail_str();
        if t.unicode_len() == 0 {
            Err(cursor.expected("character"))
        } else {
            let ch = t.get_char(0);
            proof {
                lemma_text_len_nil(t@);
                lemma_text_len_take_succ(t@, 0);
                lemma_text_len_split(cursor.input(), cursor.char_offset() as int, 1);
                lemma_text_len_mono(
                    cursor.input(),
                    (cursor.char_offset() + 1) as int,
                    cursor.input().len() as int,
                );
                assert(cursor.input().take(cursor.input().len() as int) =~= cursor.input());
            }
            Ok((ch, cursor.slice_from(char_utf8_len(ch))))
        }
    }
}

impl<'a, Tok: Tokenizer, Sp: Whitespace, Cs: CompareStrs> Scanner<'a, Tok, Sp, Cs> for &'a str {
    /// Decode exactly the next token, as a borrowed slice of the input.
    fn scan(cursor: &Cursor<'a, Tok, Sp, Cs>) -> (r: Result<
        (&'a str, Cursor<'a, Tok, Sp, Cs>),
        ScanError,
    >)
        ensures
            r matches Ok(p) ==> cursor.spec_pop_token() matches Some(q) && p.0@ == q.0
                && p.1.offset() == q.1,
            r is Err ==> cursor.spec_pop_token() is None,
            r matches Err(e) ==> e matches ScanError::OtherScanError(m, off) && m@
                == crate::cursor::spec_expected_msg("any token"@, cursor.spec_pop_token()) && off
                == cursor.offset(),
    {
        match cursor.pop_token() {
            Some(p) => Ok(p),
            None => Err(cursor.expected("any token")),
        }
    }
}

impl<'a, Tok: Tokenizer, Sp: Whitespace, Cs: CompareStrs> Scanner<'a, Tok, Sp, Cs> for String {
    /// Decode exactly the next token, as an owned string.
    fn scan(cursor: &Cursor<'a, Tok, Sp, Cs>) -> (r: Result<
        (String, Cursor<'a, Tok, Sp, Cs>),
        ScanError,
    >)
        ensures
            r matches Ok(p) ==> cursor.spec_pop_token() matches Some(q) && p.0@ == q.0
                && p.1.offset() == q.1,
            r is Err ==> cursor.spec_pop_token() is None,
            r matches Err(e) ==> e matches ScanError::OtherScanError(m, off) && m@
                == crate::cursor::spec_expected_msg("any token"@, cursor.spec_pop_token()) && off
                == cursor.offset(),
    {
        match cursor.pop_token() {
            Some(p) => Ok((String::from_str(p.0), p.1)),
            None => Err(cursor.expected("any token")),
        }
    }
}

impl<'a, Tok: Tokenizer, Sp: Whitespace, Cs: CompareStrs> Scanner<'a, Tok, Sp, Cs> for () {
    /// Decode the unit value: always succeeds and consumes nothing.
    fn scan(cursor: &Cursor<'a, Tok, Sp, Cs>) -> (r: Result<
        ((), Cursor<'a, Tok, Sp, Cs>),
        ScanError,
    >)
        ensures
            r matches Ok(p) ==> p.1.offset() == cursor.offset(),
            r is Ok,
    {
        Ok(((), *cursor))
    }
}

/// Scan the signed decimal literal at the cursor and convert it to a
/// 64-bit value; both a missing literal and one whose value does not fit
/// are reported as "expected `desc`".
fn scan_int_value<'a, Tok: Tokenizer, Sp: Whitespace, Cs: CompareStrs>(
    cursor: &Cursor<'a, Tok, Sp, Cs>,
    desc: &str,
) -> (r: Result<(i64, Cursor<'a, Tok, Sp, Cs>), ScanError>)
    requires
        cursor.wf(),
    ensures
        r matches Ok(p) ==> spec_scan_int(cursor.spec_tail()) matches Some(n) && p.0
            == spec_int_val(cursor.spec_tail().take(n as int)) && p.1.offset() == cursor.offset()
            + n && cursor.same_scan(&p.1) && p.1.wf(),
        r is Err ==> !(spec_scan_int(cursor.spec_tail()) matches Some(n) && i64::MIN
            <= spec_int_val(cursor.spec_tail().take(n as int)) <= i64::MAX),
        r matches Err(e) ==> e matches ScanError::OtherScanError(m, off) && m@
            == crate::cursor::spec_expected_msg(desc@, cursor.spec_pop_token()) && off
            == cursor.offset(),
{
    let t = cursor.tail_str();
    let end = match scan_int(t) {
        Some(e) => e,
        None => {
            return Err(cursor.expected(desc));
        },
    };
    let ghost tl = cursor.spec_tail();
    let ghost k = spec_scan_int(tl).unwrap();
    proof {
        lemma_text_len_split(cursor.input(), cursor.char_offset() as int, k as int);
        lemma_text_len_mono(
            cursor.input(),
            (cursor.char_offset() + k) as int,
            cursor.input().len() as int,
        );
        assert(cursor.input().take(cursor.input().len() as int) =~= cursor.input());
    }
    let slice = cursor.str_slice_to(end);
    proof {
        lemma_boundary_unique(tl, slice@.len() as int, k as int);
        crate::lemma_run_len(|c: char| is_digit_char(c), tl);
        crate::lemma_run_len(|c: char| is_digit_char(c), tl.skip(1));
        if tl.len() > 0 && tl[0] == '-' {
            assert forall|i: int| 1 <= i < slice@.len() implies is_digit_char(slice@[i]) by {
                assert(slice@[i] == tl.skip(1)[i - 1]);
            }
        } else {
            assert forall|i: int| 0 <= i < slice@.len() implies is_digit_char(slice@[i]) by {
                assert(slice@[i] == tl[i]);
            }
        }
    }
    let cur2 = cursor.slice_from(end);
    match parse_i64_digits(slice) {
        Some(v) => Ok((v, cur2)),
        None => Err(cursor.expected(desc)),
    }
}

/// Scan the unsigned decimal literal at the cursor and convert it to a
/// 64-bit value; both a missing literal and one whose value does not fit
/// are reported as "expected `desc`".
fn scan_uint_value<'a, Tok: Tokenizer, Sp: Whitespace, Cs: CompareStrs>(
    cursor: &Cursor<'a, Tok, Sp, Cs>,
    desc: &str,
) -> (r: Result<(u64, Cursor<'a, Tok, Sp, Cs>), ScanError>)
    requires
        cursor.wf(),
    ensures
        r matches Ok(p) ==> spec_scan_uint(cursor.spec_tail()) matches Some(n) && p.0
            == spec_dec_val(cursor.spec_tail().take(n as int)) && p.1.offset() == cursor.offset()
            + n && cursor.same_scan(&p.1) && p.1.wf(),
        r is Err ==> !(spec_scan_uint(cursor.spec_tail()) matches Some(n) && spec_dec_val(
            cursor.spec_tail().take(n as int),
        ) <= u64::MAX),
        r matches Err(e) ==> e matches ScanError::OtherScanError(m, off) && m@
            == crate::cursor::spec_expected_msg(desc@, cursor.spec_pop_token()) && off
            == cursor.offset(),
{
    let t = cursor.tail_str();
    let end = match scan_uint(t) {
        Some(e) => e,
        None => {
            return Err(cursor.expected(desc));
        },
    };
    let ghost tl = cursor.spec_tail();
    let ghost k = spec_scan_uint(tl).unwrap();
    proof {
        lemma_text_len_split(cursor.input(), cursor.char_offset() as int, k as int);
        lemma_text_len_mono(
            cursor.input(),
            (cursor.char_offset() + k) as int,
            cursor.input().len() as int,
        );
        assert(cursor.input().take(cursor.input().len() as int) =~= cursor.input());
    }
    let slice = cursor.str_slice_to(end);
    proof {
        lemma_boundary_unique(tl, slice@.len() as int, k as int);
        crate::lemma_run_len(|c: char| is_digit_char(c), tl);
        assert forall|i: int| 0 <= i < slice@.len() implies is_digit_char(slice@[i]) by {
            assert(slice@[i] == tl[i]);
        }
        lemma_dec_val_bounds(slice@);
    }
    let cur2 = cursor.slice_from(end);
    match parse_u64_digits(slice) {
        Some(v) => Ok((v, cur2)),
        None => Err(cursor.expected(desc)),
    }
}

impl<'a, Tok: Tokenizer, Sp: Whitespace, Cs: CompareStrs> Scanner<'a, Tok, Sp, Cs> for i8 {
    /// Decode a value reported in errors as an "8-bit integer".
    fn scan(cursor: &Cursor<'a, Tok, Sp, Cs>) -> (r: Result<
        (i8, Cursor<'a, Tok, Sp, Cs>),
        ScanError,
    >)
        ensures
            r matches Ok(p) ==> spec_scan_int(cursor.spec_tail()) matches Some(n) && p.0
                == spec_int_val(cursor.spec_tail().take(n as int)) && p.1.offset()
                == cursor.offset() + n,
            r is Err ==> !(spec_scan_int(cursor.spec_tail()) matches Some(n) && i8::MIN
                <= spec_int_val(cursor.spec_tail().take(n as int)) <= i8::MAX),
            r matches Err(e) ==> e matches ScanError::OtherScanError(m, off) && m@
                == crate::cursor::spec_expected_msg("8-bit integer"@, cursor.spec_pop_token()) && off
                == cursor.offset(),
    {
        match scan_int_value(cursor, "8-bit integer") {
            Ok((v, c)) => {
                if -128 <= v && v <= 127 {
                    Ok((v as i8, c))
                } else {
                    Err(cursor.expected("8-bit integer"))
                }
            },
            Err(e) => Err(e),
        }
    }
}

impl<'a, Tok: Tokenizer, Sp: Whitespace, Cs: CompareStrs> Scanner<'a, Tok, Sp, Cs> for i16 {
    /// Decode a value reported in errors as a "16-bit integer".
    fn scan(cursor: &Cursor<'a, Tok, Sp, Cs>) -> (r: Result<
        (i16, Cursor<'a, Tok, Sp, Cs>),
        ScanError,
    >)
        ensures
            r matches Ok(p) ==> spec_scan_int(cursor.spec_tail()) matches Some(n) && p.0
                == spec_int_val(cursor.spec_tail().take(n as int)) && p.1.offset()
                == cursor.offset() + n,
            r is Err ==> !(spec_scan_int(cursor.spec_tail()) matches Some(n) && i16::MIN
                <= spec_int_val(cursor.spec_tail().take(n as int)) <= i16::MAX),
            r matches Err(e) ==> e matches ScanError::OtherScanError(m, off) && m@
                == crate::cursor::spec_expected_msg("16-bit integer"@, cursor.spec_pop_token()) && off
                == cursor.offset(),
    {
        match scan_int_value(cursor, "16-bit integer") {
            Ok((v, c)) => {
                if -32768 <= v && v <= 32767 {
                    Ok((v as i16, c))
                } else {
                    Err(cursor.expected("16-bit integer"))
                }
            },
            Err(e) => Err(e),
        }
    }
}

impl<'a, Tok: Tokenizer, Sp: Whitespace, Cs: CompareStrs> Scanner<'a, Tok, Sp, Cs> for i32 {
    /// Decode a value reported in errors as a "32-bit integer".
    fn scan(cursor: &Cursor<'a, Tok, Sp, Cs>) -> (r: Result<
        (i32, Cursor<'a, Tok, Sp, Cs>),
        ScanError,
    >)
        ensures
            r matches Ok(p) ==> spec_scan_int(cursor.spec_tail()) matches Some(n) && p.0
                == spec_int_val(cursor.spec_tail().take(n as int)) && p.1.offset()
                == cursor.offset() + n,
            r is Err ==> !(spec_scan_int(cursor.spec_tail()) matches Some(n) && i32::MIN
                <= spec_int_val(cursor.spec_tail().take(n as int)) <= i32::MAX),
            r matches Err(e) ==> e matches ScanError::OtherScanError(m, off) && m@
                == crate::cursor::spec_expected_msg("32-bit integer"@, cursor.spec_pop_token()) && off
                == cursor.offset(),
    {
        match scan_int_value(cursor, "32-bit integer") {
            Ok((v, c)) => {
                if -2147483648 <= v && v <= 2147483647 {
                    Ok((v as i32, c))
                } else {
                    Err(cursor.expected("32-bit integer"))
                }
            },
            Err(e) => Err(e),
        }
    }
}

impl<'a, Tok: Tokenizer, Sp: Whitespace, Cs: CompareStrs> Scanner<'a, Tok, Sp, Cs> for i64 {
    /// Decode a value reported in errors as a "64-bit integer".
    fn scan(cursor: &Cursor<'a, Tok, Sp, Cs>) -> (r: Result<
        (i64, Cursor<'a, Tok, Sp, Cs>),
        ScanError,
    >)
        ensures
            r matches Ok(p) ==> spec_scan_int(cursor.spec_tail()) matches Some(n) && p.0
                == spec_int_val(cursor.spec_tail().take(n as int)) && p.1.offset()
                == cursor.offset() + n,
            r is Err ==> !(spec_scan_int(cursor.spec_tail()) matches Some(n) && i64::MIN
                <= spec_int_val(cursor.spec_tail().take(n as int)) <= i64::MAX),
            r matches Err(e) ==> e matches ScanError::OtherScanError(m, off) && m@
                == crate::cursor::spec_expected_msg("64-bit integer"@, cursor.spec_pop_token()) && off
                == cursor.offset(),
    {
        match scan_int_value(cursor, "64-bit integer") {
            Ok((v, c)) => Ok((v, c)),
            Err(e) => Err(e),
        }
    }
}

impl<'a, Tok: Tokenizer, Sp: Whitespace, Cs: CompareStrs> Scanner<'a, Tok, Sp, Cs> for isize {
    /// Decode a value reported in errors as an "integer".
    fn scan(cursor: &Cursor<'a, Tok, Sp, Cs>) -> (r: Result<
        (isize, Cursor<'a, Tok, Sp, Cs>),
        ScanError,
    >)
        ensures
            r matches Ok(p) ==> spec_scan_int(cursor.spec_tail()) matches Some(n) && p.0
                == spec_int_val(cursor.spec_tail().take(n as int)) && p.1.offset()
                == cursor.offset() + n,
            r is Err ==> !(spec_scan_int(cursor.spec_tail()) matches Some(n) && isize::MIN
                <= spec_int_val(cursor.spec_tail().take(n as int)) <= isize::MAX),
            r matches Err(e) ==> e matches ScanError::OtherScanError(m, off) && m@
                == crate::cursor::spec_expected_msg("integer"@, cursor.spec_pop_token()) && off
                == cursor.offset(),
    {
        match scan_int_value(cursor, "integer") {
            Ok((v, c)) => {
                if isize::MIN as i64 <= v && v <= isize::MAX as i64 {
                    Ok((v as isize, c))
                } else {
                    Err(cursor.expected("integer"))
                }
            },
            Err(e) => Err(e),
        }
    }
}

impl<'a, Tok: Tokenizer, Sp: Whitespace, Cs: CompareStrs> Scanner<'a, Tok, Sp, Cs> for u8 {
    /// Decode a value reported in errors as an "8-bit unsigned integer".
    fn scan(cursor: &Cursor<'a, Tok, Sp, Cs>) -> (r: Result<
        (u8, Cursor<'a, Tok, Sp, Cs>),
        ScanError,
    >)
        ensures
            r matches Ok(p) ==> spec_scan_uint(cursor.spec_tail()) matches Some(n) && p.0
                == spec_dec_val(cursor.spec_tail().take(n as int)) && p.1.offset()
                == cursor.offset() + n,
            r is Err ==> !(spec_scan_uint(cursor.spec_tail()) matches Some(n) && spec_dec_val(
                cursor.spec_tail().take(n as int),
            ) <= u8::MAX),
            r matches Err(e) ==> e matches ScanError::OtherScanError(m, off) && m@
                == crate::cursor::spec_expected_msg("8-bit unsigned integer"@, cursor.spec_pop_token()) && off
                == cursor.offset(),
    {
        match scan_uint_value(cursor, "8-bit unsigned integer") {
            Ok((v, c)) => {
                if v <= 255 {
                    Ok((v as u8, c))
                } else {
                    Err(cursor.expected("8-bit unsigned integer"))
                }
            },
            Err(e) => Err(e),
        }
    }
}

impl<'a, Tok: Tokenizer, Sp: Whitespace, Cs: CompareStrs> Scanner<'a, Tok, Sp, Cs> for u16 {
    /// Decode a value reported in errors as a "16-bit unsigned integer".
    fn scan(cursor: &Cursor<'a, Tok, Sp, Cs>) -> (r: Result<
        (u16, Cursor<'a, Tok, Sp, Cs>),
        ScanError,
    >)
        ensures
            r matches Ok(p) ==> spec_scan_uint(cursor.spec_tail()) matches Some(n) && p.0
                == spec_dec_val(cursor.spec_tail().take(n as int)) && p.1.offset()
                == cursor.offset() + n,
            r is Err ==> !(spec_scan_uint(cursor.spec_tail()) matches Some(n) && spec_dec_val(
                cursor.spec_tail().take(n as int),
            ) <= u16::MAX),
            r matches Err(e) ==> e matches ScanError::OtherScanError(m, off) && m@
                == crate::cursor::spec_expected_msg("16-bit unsigned integer"@, cursor.spec_pop_token()) && off
                == cursor.offset(),
    {
        match scan_uint_value(cursor, "16-bit unsigned integer") {
            Ok((v, c)) => {
                if v <= 65535 {
                    Ok((v as u16, c))
                } else {
                    Err(cursor.expected("16-bit unsigned integer"))
                }
            },
            Err(e) => Err(e),
        }
    }
}

impl<'a, Tok: Tokenizer, Sp: Whitespace, Cs: CompareStrs> Scanner<'a, Tok, Sp, Cs> for u32 {
    /// Decode a value reported in errors as a "32-bit unsigned integer".
    fn scan(cursor: &Cursor<'a, Tok, Sp, Cs>) -> (r: Result<
        (u32, Cursor<'a, Tok, Sp, Cs>),
        ScanError,
    >)
        ensures
            r matches Ok(p) ==> spec_scan_uint(cursor.spec_tail()) matches Some(n) && p.0
                == spec_dec_val(cursor.spec_tail().take(n as int)) && p.1.offset()
                == cursor.offset() + n,
            r is Err ==> !(spec_scan_uint(cursor.spec_tail()) matches Some(n) && spec_dec_val(
                cursor.spec_tail().take(n as int),
            ) <= u32::MAX),
            r matches Err(e) ==> e matches ScanError::OtherScanError(m, off) && m@
                == crate::cursor::spec_expected_msg("32-bit unsigned integer"@, cursor.spec_pop_token()) && off
                == cursor.offset(),
    {
        match scan_uint_value(cursor, "32-bit unsigned integer") {
            Ok((v, c)) => {
                if v <= 4294967295 {
                    Ok((v as u32, c))
                } else {
                    Err(cursor.expected("32-bit unsigned integer"))
                }
            },
            Err(e) => Err(e),
        }
    }
}

impl<'a, Tok: Tokenizer, Sp: Whitespace, Cs: CompareStrs> Scanner<'a, Tok, Sp, Cs> for u64 {
    /// Decode a value reported in errors as a "64-bit unsigned integer".
    fn scan(cursor: &Cursor<'a, Tok, Sp, Cs>) -> (r: Result<
        (u64, Cursor<'a, Tok, Sp, Cs>),
        ScanError,
    >)
        ensures
            r matches Ok(p) ==> spec_scan_uint(cursor.spec_tail()) matches Some(n) && p.0
                == spec_dec_val(cursor.spec_tail().take(n as int)) && p.1.offset()
                == cursor.offset() + n,
            r is Err ==> !(spec_scan_uint(cursor.spec_tail()) matches Some(n) && spec_dec_val(
                cursor.spec_tail().take(n as int),
            ) <= u64::MAX),
            r matches Err(e) ==> e matches ScanError::OtherScanError(m, off) && m@
                == crate::cursor::spec_expected_msg("64-bit unsigned integer"@, cursor.spec_pop_token()) && off
                == cursor.offset(),
    {
        match scan_uint_value(cursor, "64-bit unsigned integer") {
            Ok((v, c)) => Ok((v, c)),
            Err(e) => Err(e),
        }
    }
}

impl<'a, Tok: Tokenizer, Sp: Whitespace, Cs: CompareStrs> Scanner<'a, Tok, Sp, Cs> for usize {
    /// Decode a value reported in errors as an "unsigned integer".
    fn scan(cursor: &Cursor<'a, Tok, Sp, Cs>) -> (r: Result<
        (usize, Cursor<'a, Tok, Sp, Cs>),
        ScanError,
    >)
        ensures
            r matches Ok(p) ==> spec_scan_uint(cursor.spec_tail()) matches Some(n) && p.0
                == spec_dec_val(cursor.spec_tail().take(n as int)) && p.1.offset()
                == cursor.offset() + n,
            r is Err ==> !(spec_scan_uint(cursor.spec_tail()) matches Some(n) && spec_dec_val(
                cursor.spec_tail().take(n as int),
            ) <= usize::MAX),
            r matches Err(e) ==> e matches ScanError::OtherScanError(m, off) && m@
                == crate::cursor::spec_expected_msg("unsigned integer"@, cursor.spec_pop_token()) && off
                == cursor.offset(),
    {
        match scan_uint_value(cursor, "unsigned integer") {
            Ok((v, c)) => {
                if v <= usize::MAX as u64 {
                    Ok((v as usize, c))
                } else {
                    Err(cursor.expected("unsigned integer"))
                }
            },
            Err(e) => Err(e),
        }
    }
}

} // verus!
