//! The `ScanCursor` trait and its concrete `Cursor` implementation: an
//! immutable scan position over one input string, composing the three
//! scanning policies.  Every operation returns a new position; none mutates
//! one in place, so a speculative parse can always be abandoned by keeping
//! the old position.
//!
//! Offsets and lengths are measured in bytes of the input's UTF-8
//! encoding, and every position sits on a code-point boundary; the
//! contracts tie each byte offset to the code-point position it encodes.

use vstd::prelude::*;

use crate::compare_strs::CompareStrs;
use crate::encoding::char_utf8_len;
use crate::encoding::is_boundary;
use crate::encoding::lemma_boundary_unique;
use crate::encoding::lemma_text_len_mono;
use crate::encoding::lemma_text_len_nil;
use crate::encoding::lemma_text_len_split;
use crate::encoding::lemma_text_len_take_succ;
use crate::encoding::str_byte_len;
use crate::encoding::text_len;
use crate::scan_error::ScanError;
use crate::tokenizer::Tokenizer;
use crate::whitespace::Whitespace;

verus! {

use vstd::string::StrSliceExecFns;
use vstd::string::StringExecFns;

/// The protocol of a scan position: it tracks a byte offset into one fixed
/// input, always on a code-point boundary, pops whitespace and tokens
/// under the active policies, slices the input, compares strings under the
/// active comparator, and builds position-tagged errors.
pub trait ScanCursor<'a>: Sized + Clone {
    /// The whole input text, as its code points.
    spec fn input(&self) -> Seq<char>;

    /// The current offset, in bytes from the start of the input's UTF-8
    /// encoding.
    spec fn offset(&self) -> nat;

    /// The current position, in code points from the start of the input.
    spec fn char_offset(&self) -> nat;

    /// Well-formed: the position lies within the input and the byte
    /// offset measures exactly the code points before it.
    spec fn wf(&self) -> bool;

    /// Whether `other` is a position over the same input with the same
    /// policies.
    spec fn same_scan(&self, other: &Self) -> bool;

    /// The position after skipping the silently skippable whitespace, in
    /// code points.
    spec fn spec_pop_ws_chars(&self) -> nat;

    /// The offset after skipping the silently skippable whitespace, in
    /// bytes.
    spec fn spec_pop_ws_offset(&self) -> nat;

    /// What `pop_token` returns: the token's text and the byte offset
    /// after it, or `None` at end of input.
    spec fn spec_pop_token(&self) -> Option<(Seq<char>, nat)>;

    /// Whether two texts are equal under the active comparator.
    spec fn spec_compare(&self, a: Seq<char>, b: Seq<char>) -> bool;

    /// The unconsumed remainder of the input.
    open spec fn spec_tail(&self) -> Seq<char> {
        self.input().skip(self.char_offset() as int)
    }

    /// The number of bytes consumed so far.
    fn consumed(&self) -> (r: usize)
        ensures
            r == self.offset(),
    ;

    /// The unconsumed remainder of the input.
    fn tail_str(&self) -> (r: &'a str)
        requires
            self.wf(),
        ensures
            r@ == self.spec_tail(),
    ;

    /// Whether the offset has reached the end of the input: a byte
    /// exhaustion test, which depending on the tokenizer need not mean
    /// that no token remains.
    fn is_empty(&self) -> (r: bool)
        requires
            self.wf(),
        ensures
            r == (self.offset() == text_len(self.input())),
    ;

    /// A successor `from` bytes further along, clamped to the end of the
    /// input.  Unless it is clamped, the target must sit on a code-point
    /// boundary: positions between two boundaries do not exist.
    fn slice_from(&self, from: usize) -> (r: Self)
        requires
            self.wf(),
            is_boundary(self.input(), self.offset() + from) || self.offset() + from >= text_len(
                self.input(),
            ),
        ensures
            self.same_scan(&r),
            r.wf(),
            r.offset() == if self.offset() + from <= text_len(self.input()) {
                self.offset() + from
            } else {
                text_len(self.input()) as int
            },
            r.offset() >= self.offset(),
    ;

    /// The next `to` bytes of the unconsumed input, which must end on a
    /// code-point boundary.
    fn str_slice_to(&self, to: usize) -> (r: &'a str)
        requires
            self.wf(),
            self.offset() + to <= text_len(self.input()),
            is_boundary(self.input(), self.offset() + to),
        ensures
            r@ == self.spec_tail().take(r@.len() as int),
            r@.len() <= self.spec_tail().len(),
            text_len(r@) == to,
    ;

    /// The input between this position (inclusive) and `to` (exclusive).
    fn str_slice_to_cur(&self, to: &Self) -> (r: &'a str)
        requires
            self.wf(),
            to.wf(),
            self.same_scan(to),
            self.offset() <= to.offset(),
        ensures
            r@ == self.input().subrange(self.char_offset() as int, to.char_offset() as int),
            text_len(r@) == to.offset() - self.offset(),
    ;

    /// Compare two strings under the active comparator.
    fn compare_strs(&self, a: &str, b: &str) -> (r: bool)
        ensures
            r == self.spec_compare(a@, b@),
    ;

    /// A successor with all silently skippable leading whitespace skipped.
    fn pop_ws(&self) -> (r: Self)
        requires
            self.wf(),
        ensures
            self.same_scan(&r),
            r.wf(),
            r.offset() == self.spec_pop_ws_offset(),
            r.char_offset() == self.spec_pop_ws_chars(),
            r.offset() >= self.offset(),
    ;

    /// Pop the next token: strip skippable whitespace, surface an explicit
    /// whitespace token if the policy recognizes one, else take the
    /// tokenizer's token, else fall back to a single code point; `None`
    /// only at end of input.
    fn pop_token(&self) -> (r: Option<(&'a str, Self)>)
        requires
            self.wf(),
        ensures
            r matches Some(p) ==> self.spec_pop_token() matches Some(q) && p.0@ == q.0
                && p.1.offset() == q.1 && self.same_scan(&p.1) && p.1.wf() && p.1.offset()
                > self.offset(),
            r is None ==> self.spec_pop_token() is None,
    ;

    /// Pop a token and require it to match `s` under the active comparator;
    /// the successor on a match, a position-tagged error otherwise.
    fn expect_tok(&self, s: &str) -> (r: Result<Self, ScanError>)
        requires
            self.wf(),
        ensures
            r matches Ok(cur) ==> self.spec_pop_token() matches Some(q) && self.spec_compare(
                s@,
                q.0,
            ) && cur.offset() == q.1 && self.same_scan(&cur) && cur.wf() && cur.offset()
                >= self.offset(),
            r is Err ==> !(self.spec_pop_token() matches Some(q) && self.spec_compare(s@, q.0)),
            r matches Err(e) ==> e matches ScanError::OtherScanError(m, off) && m@
                == spec_one_of_msg(seq![s@], self.spec_pop_token()) && off == self.offset(),
    ;

    /// Succeeds exactly when no token remains.
    fn expect_eof(&self) -> (r: Result<(), ScanError>)
        requires
            self.wf(),
        ensures
            r is Ok <==> self.spec_pop_token() is None,
            r matches Err(e) ==> e matches ScanError::OtherScanError(m, off) && m@
                == spec_one_of_msg(Seq::empty(), self.spec_pop_token()) && off == self.offset(),
    ;

    /// An error at the current position: expected `desc`, got the next
    /// token or end of input.
    fn expected(&self, desc: &str) -> (r: ScanError)
        requires
            self.wf(),
        ensures
            r matches ScanError::OtherScanError(m, off) && m@ == spec_expected_msg(
                desc@,
                self.spec_pop_token(),
            ) && off == self.offset(),
    ;

    /// An error at the current position: expected the token `tok`.
    fn expected_tok(&self, tok: &str) -> (r: ScanError)
        requires
            self.wf(),
        ensures
            r matches ScanError::OtherScanError(m, off) && m@ == spec_one_of_msg(
                seq![tok@],
                self.spec_pop_token(),
            ) && off == self.offset(),
    ;

    /// An error at the current position: expected the end of the input.
    fn expected_eof(&self) -> (r: ScanError)
        requires
            self.wf(),
        ensures
            r matches ScanError::OtherScanError(m, off) && m@ == spec_one_of_msg(
                Seq::empty(),
                self.spec_pop_token(),
            ) && off == self.offset(),
    ;

    /// An error at the current position: expected one of the tokens in
    /// `toks` (the end of the input, when `toks` is empty).
    fn expected_one_of(&self, toks: &[&str]) -> (r: ScanError)
        requires
            self.wf(),
        ensures
            r matches ScanError::OtherScanError(m, off) && m@ == spec_one_of_msg(
                toks.deep_view(),
                self.spec_pop_token(),
            ) && off == self.offset(),
    ;

    /// An error at the current position: expected at least `min` repeats of
    /// some pattern, got only `got`.
    fn expected_min_repeats(&self, min: usize, got: usize) -> (r: ScanError)
        ensures
            r matches ScanError::OtherScanError(m, off) && m@ == spec_min_repeats_msg(
                min as nat,
                got as nat,
            ) && off == self.offset(),
    ;
}

/// How one code point appears inside a quoted token in a diagnostic,
/// under the default escape: tab, carriage return, line feed, backslash
/// and both quotes become two-character escapes, any other printable
/// ASCII code point stands for itself, and anything else is written
/// `\u{..}` with the code point in lowercase hexadecimal.
pub open spec fn spec_escape_char(c: char) -> Seq<char> {
    if c == '\t' {
        seq!['\\', 't']
    } else if c == '\r' {
        seq!['\\', 'r']
    } else if c == '\n' {
        seq!['\\', 'n']
    } else if c == '\\' {
        seq!['\\', '\\']
    } else if c == '\'' {
        seq!['\\', '\'']
    } else if c == '"' {
        seq!['\\', '"']
    } else if 32 <= (c as u32) && (c as u32) < 127 {
        seq![c]
    } else {
        seq!['\\', 'u', '{'] + crate::scan_error::spec_hex((c as u32) as nat) + seq!['}']
    }
}

/// A text as it appears inside backticks in a diagnostic: each code point
/// under the default escape.
pub open spec fn spec_escaped(t: Seq<char>) -> Seq<char>
    decreases t.len(),
{
    if t.len() == 0 {
        Seq::empty()
    } else {
        spec_escape_char(t[0]) + spec_escaped(t.skip(1))
    }
}

/// Escaping a concatenation escapes each part.
proof fn lemma_escaped_concat(a: Seq<char>, b: Seq<char>)
    ensures
        spec_escaped(a + b) == spec_escaped(a) + spec_escaped(b),
    decreases a.len(),
{
    if a.len() == 0 {
        assert(a + b =~= b);
        assert(spec_escaped(a) + spec_escaped(b) =~= spec_escaped(b));
    } else {
        assert((a + b).skip(1) =~= a.skip(1) + b);
        lemma_escaped_concat(a.skip(1), b);
        assert(spec_escaped(a + b) =~= spec_escaped(a) + spec_escaped(b));
    }
}

/// The escaping of a prefix grows by the next code point's escape.
proof fn lemma_escaped_take_succ(t: Seq<char>, i: int)
    requires
        0 <= i < t.len(),
    ensures
        spec_escaped(t.take(i + 1)) == spec_escaped(t.take(i)) + spec_escape_char(t[i]),
{
    reveal_with_fuel(spec_escaped, 2);
    assert(t.take(i + 1) =~= t.take(i) + seq![t[i]]);
    lemma_escaped_concat(t.take(i), seq![t[i]]);
    assert(seq![t[i]].skip(1) =~= Seq::<char>::empty());
    assert(spec_escaped(seq![t[i]]) =~= spec_escape_char(t[i]));
}

/// A text wrapped in backticks as it appears in a diagnostic, its code
/// points under the default escape.
pub open spec fn spec_backticked(t: Seq<char>) -> Seq<char> {
    "`"@ + spec_escaped(t) + "`"@
}

/// The rendering of what was found: the next token in backticks, or the
/// end of the input.
pub open spec fn spec_got_text(popped: Option<(Seq<char>, nat)>) -> Seq<char> {
    match popped {
        Some(q) => ", got "@ + spec_backticked(q.0),
        None => ", got end of input"@,
    }
}

/// A comma-separated list of tokens, each in backticks.
pub open spec fn spec_tok_list(toks: Seq<Seq<char>>) -> Seq<char>
    decreases toks.len(),
{
    if toks.len() == 0 {
        Seq::empty()
    } else if toks.len() == 1 {
        spec_backticked(toks[0])
    } else {
        spec_tok_list(toks.drop_last()) + ", "@ + spec_backticked(toks.last())
    }
}

/// The message of an error that expected one of `toks` (or, with `toks`
/// empty, the end of the input) and found `popped`.
pub open spec fn spec_one_of_msg(toks: Seq<Seq<char>>, popped: Option<(Seq<char>, nat)>) -> Seq<
    char,
> {
    if toks.len() == 0 {
        "expected end of input"@ + (match popped {
            Some(q) => ", got "@ + spec_backticked(q.0),
            None => Seq::<char>::empty(),
        })
    } else {
        "expected "@ + spec_tok_list(toks) + spec_got_text(popped)
    }
}

/// The message of an error that expected `desc` and found `popped`.
pub open spec fn spec_expected_msg(desc: Seq<char>, popped: Option<(Seq<char>, nat)>) -> Seq<
    char,
> {
    "expected "@ + desc + spec_got_text(popped)
}

/// The message of an error that expected at least `min` repeats and got
/// `got`.
pub open spec fn spec_min_repeats_msg(min: nat, got: nat) -> Seq<char> {
    "expected at least "@ + crate::scan_error::spec_dec(min) + " repeats, got "@
        + crate::scan_error::spec_dec(got)
}

/// A scan position: one shared input string, a byte offset into it, and
/// the three active policies.
#[derive(Clone, Copy)]
pub struct Cursor<'a, Tok: Tokenizer, Sp: Whitespace, Cs: CompareStrs> {
    slice: &'a str,
    coff: usize,
    boff: usize,
    tc: Tok,
    sp: Sp,
    cs: Cs,
}

impl<'a, Tok: Tokenizer, Sp: Whitespace, Cs: CompareStrs> Cursor<'a, Tok, Sp, Cs> {
    /// The active tokenization policy.
    pub closed spec fn tokenizer(&self) -> Tok {
        self.tc
    }

    /// The active whitespace policy.
    pub closed spec fn whitespace(&self) -> Sp {
        self.sp
    }

    /// The active string-comparison policy.
    pub closed spec fn comparator(&self) -> Cs {
        self.cs
    }

    /// A position at the start of `s`, scanning under the three given
    /// policies.
    pub fn new(s: &'a str, tc: Tok, sp: Sp, cs: Cs) -> (r: Cursor<'a, Tok, Sp, Cs>)
        ensures
            r.wf(),
            r.input() == s@,
            r.offset() == 0,
            r.char_offset() == 0,
            r.tokenizer() == tc,
            r.whitespace() == sp,
            r.comparator() == cs,
    {
        proof {
            lemma_text_len_nil(s@);
        }
        Cursor { slice: s, coff: 0, boff: 0, tc, sp, cs }
    }

    /// Skipping whitespace is idempotent: a position already past the
    /// skippable whitespace skips nothing further.  `r` is any position
    /// reached from `self` by `pop_ws`.
    pub proof fn lemma_pop_ws_idempotent(&self, r: &Self)
        requires
            self.wf(),
            r.wf(),
            self.same_scan(r),
            r.offset() == self.spec_pop_ws_offset(),
        ensures
            r.spec_pop_ws_offset() == r.offset(),
            r.char_offset() == self.spec_pop_ws_chars(),
    {
        let inp = self.input();
        let t = self.spec_tail();
        let k = self.whitespace().spec_strip_chars(t);
        self.sp.lemma_strip_chars(t);
        lemma_boundary_unique(inp, r.char_offset() as int, self.spec_pop_ws_chars() as int);
        assert(r.spec_tail() =~= t.skip(k as int));
        self.sp.lemma_strip_chars(t.skip(k as int));
        assert(r.input().take(r.char_offset() as int) =~= inp.take(r.char_offset() as int));
    }

    /// The code-point position whose encoded prefix measures `target`
    /// bytes, found by walking forward from this position and stopping at
    /// the end of the input; paired with that position's byte offset.
    fn char_pos_at(&self, target: usize) -> (r: (usize, usize))
        requires
            self.wf(),
            self.offset() <= target,
            is_boundary(self.input(), target as int) || target >= text_len(self.input()),
        ensures
            self.char_offset() <= r.0 <= self.input().len(),
            r.1 == text_len(self.input().take(r.0 as int)),
            target <= text_len(self.input()) ==> r.1 == target,
            target > text_len(self.input()) ==> r.0 == self.input().len(),
    {
        let ghost inp = self.input();
        let total = str_byte_len(self.slice);
        let n = self.slice.unicode_len();
        let mut k = self.coff;
        let mut b = self.boff;
        while k < n
            invariant
                inp == self.input(),
                n == inp.len(),
                total == text_len(inp),
                self.char_offset() <= k <= n,
                b == text_len(inp.take(k as int)),
                b <= target,
            ensures
                self.char_offset() <= k <= n,
                b == text_len(inp.take(k as int)),
                b <= target,
                k < n ==> b + crate::encoding::char_len(inp[k as int]) > target,
            decreases n - k,
        {
            let c = self.slice.get_char(k);
            let l = char_utf8_len(c);
            proof {
                lemma_text_len_take_succ(inp, k as int);
            }
            if l > target - b {
                break ;
            }
            proof {
                lemma_text_len_mono(inp, k + 1, n as int);
                assert(inp.take(n as int) =~= inp);
            }
            b = b + l;
            k = k + 1;
        }
        proof {
            assert(inp.take(n as int) =~= inp);
            if k < n {
                if target >= text_len(inp) {
                    lemma_text_len_take_succ(inp, k as int);
                    lemma_text_len_mono(inp, k + 1, n as int);
                    assert(false);
                } else {
                    let j = choose|j: int|
                        0 <= j <= inp.len() && target == text_len(inp.take(j));
                    if j <= k {
                        lemma_text_len_mono(inp, j, k as int);
                    } else {
                        lemma_text_len_take_succ(inp, k as int);
                        lemma_text_len_mono(inp, k + 1, j);
                    }
                }
            }
        }
        (k, b)
    }
}

impl<'a, Tok: Tokenizer, Sp: Whitespace, Cs: CompareStrs> ScanCursor<'a> for Cursor<
    'a,
    Tok,
    Sp,
    Cs,
> {
    closed spec fn input(&self) -> Seq<char> {
        self.slice@
    }

    closed spec fn offset(&self) -> nat {
        self.boff as nat
    }

    closed spec fn char_offset(&self) -> nat {
        self.coff as nat
    }

    open spec fn wf(&self) -> bool {
        &&& self.char_offset() <= self.input().len()
        &&& self.offset() == text_len(self.input().take(self.char_offset() as int))
    }

    open spec fn same_scan(&self, other: &Self) -> bool {
        &&& self.input() == other.input()
        &&& self.tokenizer() == other.tokenizer()
        &&& self.whitespace() == other.whitespace()
        &&& self.comparator() == other.comparator()
    }

    open spec fn spec_pop_ws_chars(&self) -> nat {
        self.char_offset() + self.whitespace().spec_strip_chars(self.spec_tail())
    }

    open spec fn spec_pop_ws_offset(&self) -> nat {
        text_len(self.input().take(self.spec_pop_ws_chars() as int))
    }

    open spec fn spec_pop_token(&self) -> Option<(Seq<char>, nat)> {
        let sc = self.spec_pop_ws_chars();
        let t = self.input().skip(sc as int);
        match self.whitespace().spec_token_chars(t) {
            Some(p) => Some((p.1, text_len(self.input().take((sc + p.0) as int)))),
            None => match self.tokenizer().spec_token_chars(t) {
                Some(k) => Some((t.take(k as int), text_len(self.input().take((sc + k) as int)))),
                None => if t.len() == 0 {
                    None
                } else {
                    Some((t.take(1), text_len(self.input().take((sc + 1) as int))))
                },
            },
        }
    }

    open spec fn spec_compare(&self, a: Seq<char>, b: Seq<char>) -> bool {
        self.comparator().spec_eq(a, b)
    }

    fn consumed(&self) -> (r: usize) {
        self.boff
    }

    fn tail_str(&self) -> (r: &'a str) {
        let r = self.slice.substring_char(self.coff, self.slice.unicode_len());
        proof {
            assert(r@ =~= self.spec_tail());
        }
        r
    }

    fn is_empty(&self) -> (r: bool) {
        let total = str_byte_len(self.slice);
        proof {
            assert(self.input().take(self.input().len() as int) =~= self.input());
            if self.char_offset() < self.input().len() {
                lemma_text_len_mono(self.input(), self.coff as int, self.input().len() as int);
            }
        }
        self.boff == total
    }

    fn slice_from(&self, from: usize) -> (r: Self) {
        let ghost inp = self.input();
        let total = str_byte_len(self.slice);
        proof {
            lemma_text_len_mono(inp, self.coff as int, inp.len() as int);
            assert(inp.take(inp.len() as int) =~= inp);
        }
        let target = if from <= total - self.boff {
            self.boff + from
        } else {
            total
        };
        let (k, b) = self.char_pos_at(target);
        Cursor { slice: self.slice, coff: k, boff: b, tc: self.tc, sp: self.sp, cs: self.cs }
    }

    fn str_slice_to(&self, to: usize) -> (r: &'a str) {
        let ghost inp = self.input();
        let total = str_byte_len(self.slice);
        let (k, b) = self.char_pos_at(self.boff + to);
        let r = self.slice.substring_char(self.coff, k);
        proof {
            assert(r@ =~= self.spec_tail().take(k - self.coff as int));
            lemma_text_len_split(inp, self.coff as int, k - self.coff as int);
        }
        r
    }

    fn str_slice_to_cur(&self, to: &Self) -> (r: &'a str) {
        let ghost inp = self.input();
        proof {
            if to.char_offset() < self.char_offset() {
                lemma_text_len_mono(inp, to.char_offset() as int, self.char_offset() as int);
                assert(to.input().take(to.char_offset() as int) =~= inp.take(
                    to.char_offset() as int,
                ));
            }
            assert(to.input().take(to.char_offset() as int) =~= inp.take(
                to.char_offset() as int,
            ));
        }
        let r = self.slice.substring_char(self.coff, to.coff);
        proof {
            lemma_text_len_split(inp, self.coff as int, to.coff - self.coff as int);
            assert(r@ =~= inp.skip(self.coff as int).take(to.coff - self.coff as int));
        }
        r
    }

    fn compare_strs(&self, a: &str, b: &str) -> (r: bool) {
        self.cs.compare_strs(a, b)
    }

    fn pop_ws(&self) -> (r: Self) {
        let ghost inp = self.input();
        let ghost t = self.spec_tail();
        proof {
            self.sp.lemma_strip_chars(t);
            lemma_text_len_split(
                inp,
                self.coff as int,
                self.whitespace().spec_strip_chars(t) as int,
            );
        }
        let ts = self.tail_str();
        let n = self.sp.strip_len(ts);
        let r = self.slice_from(n);
        proof {
            lemma_text_len_mono(inp, self.spec_pop_ws_chars() as int, inp.len() as int);
            assert(inp.take(inp.len() as int) =~= inp);
            lemma_boundary_unique(inp, r.char_offset() as int, self.spec_pop_ws_chars() as int);
        }
        r
    }

    fn pop_token(&self) -> (r: Option<(&'a str, Self)>) {
        let ghost inp = self.input();
        let cur = self.pop_ws();
        let ghost sc = self.spec_pop_ws_chars();
        let t = cur.tail_str();
        proof {
            self.sp.lemma_token_chars_in_range(t@);
            self.tc.lemma_token_chars_in_range(t@);
        }
        match self.sp.token_len(t) {
            Some(p) => {
                let (end, tok) = p;
                proof {
                    let ghost q = self.whitespace().spec_token_chars(t@).unwrap();
                    self.sp.lemma_strip_chars(self.spec_tail());
                    lemma_text_len_split(inp, sc as int, q.0 as int);
                    lemma_text_len_mono(inp, (sc + q.0) as int, inp.len() as int);
                    assert(inp.take(inp.len() as int) =~= inp);
                }
                return Some((tok, cur.slice_from(end)));
            },
            None => {},
        }
        proof {
            self.sp.lemma_strip_chars(self.spec_tail());
        }
        match self.tc.token_len(t) {
            Some(end) => {
                proof {
                    let ghost k = self.tokenizer().spec_token_chars(t@).unwrap();
                    lemma_text_len_split(inp, sc as int, k as int);
                    lemma_text_len_mono(inp, (sc + k) as int, inp.len() as int);
                    assert(inp.take(inp.len() as int) =~= inp);
                }
                let tok = cur.str_slice_to(end);
                proof {
                    let ghost k = self.tokenizer().spec_token_chars(t@).unwrap();
                    lemma_text_len_split(inp, sc as int, tok@.len() as int);
                    lemma_boundary_unique(t@, tok@.len() as int, k as int);
                }
                Some((tok, cur.slice_from(end)))
            },
            None => {
                if cur.is_empty() {
                    proof {
                        if cur.char_offset() < inp.len() {
                            lemma_text_len_mono(inp, sc as int, inp.len() as int);
                            assert(inp.take(inp.len() as int) =~= inp);
                        }
                    }
                    None
                } else {
                    proof {
                        assert(inp.take(inp.len() as int) =~= inp);
                        if cur.char_offset() == inp.len() {
                            assert(cur.offset() == text_len(inp));
                        }
                        assert(t@.len() > 0);
                        lemma_text_len_nil(t@);
                        lemma_text_len_take_succ(t@, 0);
                        lemma_text_len_split(inp, sc as int, 1);
                        lemma_text_len_mono(inp, (sc + 1) as int, inp.len() as int);
                    }
                    let c0 = t.get_char(0);
                    let l = char_utf8_len(c0);
                    let tok = cur.str_slice_to(l);
                    proof {
                        lemma_boundary_unique(t@, tok@.len() as int, 1);
                    }
                    Some((tok, cur.slice_from(l)))
                }
            },
        }
    }

    fn expect_tok(&self, s: &str) -> (r: Result<Self, ScanError>) {
        match self.pop_token() {
            Some(p) => {
                let (tok, cur) = p;
                if self.compare_strs(s, tok) {
                    Ok(cur)
                } else {
                    Err(self.expected_tok(s))
                }
            },
            None => Err(self.expected_tok(s)),
        }
    }

    fn expect_eof(&self) -> (r: Result<(), ScanError>) {
        match self.pop_token() {
            Some(_) => Err(self.expected_eof()),
            None => Ok(()),
        }
    }

    fn expected(&self, desc: &str) -> (r: ScanError) {
        let mut m = string_new_st("expected ");
        m.append(desc);
        let got = match self.pop_token() {
            Some(p) => Some(p.0),
            None => None,
        };
        append_got_tok(&mut m, got, Ghost(self.spec_pop_token()));
        proof {
            assert(m@ =~= spec_expected_msg(desc@, self.spec_pop_token()));
        }
        ScanError::OtherScanError(m, self.consumed())
    }

    fn expected_tok(&self, tok: &str) -> (r: ScanError) {
        let mut m = string_new_st("expected ");
        append_backticked(&mut m, tok);
        let got = match self.pop_token() {
            Some(p) => Some(p.0),
            None => None,
        };
        append_got_tok(&mut m, got, Ghost(self.spec_pop_token()));
        proof {
            assert(m@ =~= spec_one_of_msg(seq![tok@], self.spec_pop_token()));
        }
        ScanError::OtherScanError(m, self.consumed())
    }

    fn expected_eof(&self) -> (r: ScanError) {
        let mut m = string_new_st("expected end of input");
        match self.pop_token() {
            Some(p) => {
                let (tok, _) = p;
                m.append(", got ");
                append_backticked(&mut m, tok);
            },
            None => {},
        }
        proof {
            assert(m@ =~= spec_one_of_msg(Seq::empty(), self.spec_pop_token()));
        }
        ScanError::OtherScanError(m, self.consumed())
    }

    fn expected_one_of(&self, toks: &[&str]) -> (r: ScanError) {
        if toks.len() == 0 {
            return self.expected_eof();
        }
        let mut m = string_new_st("expected ");
        let mut i: usize = 0;
        while i < toks.len()
            invariant
                1 <= toks.len(),
                i <= toks.len(),
                m@ == "expected "@ + spec_tok_list(toks.deep_view().take(i as int)),
            decreases toks.len() - i,
        {
            if i > 0 {
                m.append(", ");
            }
            append_backticked(&mut m, toks[i]);
            proof {
                let tv = toks.deep_view();
                assert(tv.take(i + 1).drop_last() =~= tv.take(i as int));
                assert(tv.take(i + 1).last() == tv[i as int]);
                assert(m@ =~= "expected "@ + spec_tok_list(tv.take(i + 1)));
            }
            i += 1;
        }
        let got = match self.pop_token() {
            Some(p) => Some(p.0),
            None => None,
        };
        append_got_tok(&mut m, got, Ghost(self.spec_pop_token()));
        proof {
            assert(toks.deep_view().take(toks.deep_view().len() as int) =~= toks.deep_view());
            assert(m@ =~= spec_one_of_msg(toks.deep_view(), self.spec_pop_token()));
        }
        ScanError::OtherScanError(m, self.consumed())
    }

    fn expected_min_repeats(&self, min: usize, got: usize) -> (r: ScanError) {
        let mut m = string_new_st("expected at least ");
        let d = crate::scan_error::dec_string(min);
        m.append(d.as_str());
        m.append(" repeats, got ");
        let d2 = crate::scan_error::dec_string(got);
        m.append(d2.as_str());
        proof {
            assert(m@ =~= spec_min_repeats_msg(min as nat, got as nat));
        }
        ScanError::OtherScanError(m, self.consumed())
    }
}

/// A fresh string holding `s`.
fn string_new_st(s: &str) -> (r: String)
    ensures
        r@ == s@,
{
    String::from_str(s)
}

/// Append `t` under the default escape.
fn append_escaped(m: &mut String, t: &str)
    ensures
        final(m)@ == old(m)@ + spec_escaped(t@),
{
    proof {
        reveal_strlit("\\t");
        reveal_strlit("\\r");
        reveal_strlit("\\n");
        reveal_strlit("\\\\");
        reveal_strlit("\\'");
        reveal_strlit("\\\"");
        reveal_strlit("\\u{");
        reveal_strlit("}");
    }
    let n = t.unicode_len();
    let mut i: usize = 0;
    while i < n
        invariant
            n == t@.len(),
            i <= n,
            m@ == old(m)@ + spec_escaped(t@.take(i as int)),
        decreases n - i,
    {
        proof {
            reveal_strlit("\\t");
            reveal_strlit("\\r");
            reveal_strlit("\\n");
            reveal_strlit("\\\\");
            reveal_strlit("\\'");
            reveal_strlit("\\\"");
            reveal_strlit("\\u{");
            reveal_strlit("}");
        }
        let c = t.get_char(i);
        let u = c as u32;
        if c == '\t' {
            m.append("\\t");
        } else if c == '\r' {
            m.append("\\r");
        } else if c == '\n' {
            m.append("\\n");
        } else if c == '\\' {
            m.append("\\\\");
        } else if c == '\'' {
            m.append("\\'");
        } else if c == '"' {
            m.append("\\\"");
        } else if 32 <= u && u < 127 {
            let one = t.substring_char(i, i + 1);
            proof {
                assert(one@ =~= seq![t@[i as int]]);
            }
            m.append(one);
        } else {
            m.append("\\u{");
            crate::scan_error::push_hex(m, u);
            m.append("}");
        }
        proof {
            lemma_escaped_take_succ(t@, i as int);
            assert(m@ =~= old(m)@ + spec_escaped(t@.take(i + 1)));
        }
        i += 1;
    }
    proof {
        assert(t@.take(n as int) =~= t@);
    }
}

/// Append `t` wrapped in backticks, escaped.
fn append_backticked(m: &mut String, t: &str)
    ensures
        final(m)@ == old(m)@ + spec_backticked(t@),
{
    m.append("`");
    append_escaped(m, t);
    m.append("`");
    proof {
        assert(m@ =~= old(m)@ + spec_backticked(t@));
    }
}

/// Append the rendering of what was found: the token in backticks, or the
/// end of the input.  `popped` is what `pop_token` said of the position in
/// question.
fn append_got_tok(
    m: &mut String,
    tok: Option<&str>,
    Ghost(popped): Ghost<Option<(Seq<char>, nat)>>,
)
    requires
        tok matches Some(t) ==> popped matches Some(q) && t@ == q.0,
        tok is None ==> popped is None,
    ensures
        final(m)@ == old(m)@ + spec_got_text(popped),
{
    match tok {
        Some(t) => {
            m.append(", got ");
            append_backticked(m, t);
            proof {
                assert(m@ =~= old(m)@ + spec_got_text(popped));
            }
        },
        None => {
            m.append(", got end of input");
        },
    }
}

} // verus!
