//! Runtime support for a composable lexical scanner: position tracking over
//! an input string, pluggable tokenization, whitespace and string-comparison
//! policies, and decoders for primitive values.
//!
//! Organisation:
//!
//! - `chars`: code-point classification and case mapping.
//! - `compare_strs`: the `CompareStrs` trait and its implementations,
//!   used for comparing scanned tokens for equality.
//! - `cursor`: the `ScanCursor` trait and the concrete `Cursor` type,
//!   which track scanning progress through an input string.
//! - `scan_error`: the `ScanError` type and its precedence-ordered merging.
//! - `scanner`: the `Scanner` trait and its implementations for basic
//!   types, which decode typed values out of an input string.
//! - `tokenizer`: the `Tokenizer` trait and its implementations, which
//!   find the extent of the next token.
//! - `whitespace`: the `Whitespace` trait and its implementations, which
//!   skip whitespace or surface it as tokens.

use vstd::prelude::*;

pub mod chars;
pub mod encoding;
pub mod cursor;
pub mod scanner;
pub mod compare_strs;
pub mod tokenizer;
pub mod whitespace;
pub mod scan_error;

pub use compare_strs::CompareStrs;
pub use cursor::Cursor;
pub use cursor::ScanCursor;
pub use scan_error::OtherScanError;
pub use scan_error::ScanError;
pub use scan_error::ScanIoError;
pub use scan_error::ScanResult;
pub use scanner::Scanner;
pub use tokenizer::Tokenizer;
pub use whitespace::Whitespace;

verus! {

use vstd::string::StrSliceExecFns;

/// The length of the longest prefix of `s` whose code points all satisfy `p`.
pub open spec fn run_len(p: spec_fn(char) -> bool, s: Seq<char>) -> nat
    decreases s.len(),
{
    if s.len() == 0 || !p(s[0]) {
        0
    } else {
        1 + run_len(p, s.skip(1))
    }
}

/// `run_len` names the longest prefix satisfying `p`: every code point
/// before it satisfies `p`, and the one at it (if any) does not.
pub proof fn lemma_run_len(p: spec_fn(char) -> bool, s: Seq<char>)
    ensures
        run_len(p, s) <= s.len(),
        forall|i: int| 0 <= i < run_len(p, s) ==> p(s[i]),
        run_len(p, s) < s.len() ==> !p(s[run_len(p, s) as int]),
    decreases s.len(),
{
    if s.len() == 0 || !p(s[0]) {
    } else {
        lemma_run_len(p, s.skip(1));
        assert forall|i: int| 0 <= i < run_len(p, s) implies p(s[i]) by {
            if i > 0 {
                assert(p(s.skip(1)[i - 1]));
            }
        }
        if run_len(p, s) < s.len() {
            assert(s.skip(1)[run_len(p, s) as int - 1] == s[run_len(p, s) as int]);
        }
    }
}

/// Conversely, a prefix of `p`-satisfying code points that is either the
/// whole string or is followed by a code point outside `p` has exactly the
/// length `run_len` names.
pub proof fn lemma_run_len_is(p: spec_fn(char) -> bool, s: Seq<char>, k: nat)
    requires
        k <= s.len(),
        forall|i: int| 0 <= i < k ==> p(s[i]),
        k < s.len() ==> !p(s[k as int]),
    ensures
        run_len(p, s) == k,
    decreases s.len(),
{
    if s.len() == 0 || !p(s[0]) {
    } else {
        assert forall|i: int| 0 <= i < k - 1 implies p(s.skip(1)[i]) by {
            assert(s.skip(1)[i] == s[i + 1]);
        }
        if k - 1 < s.skip(1).len() {
            assert(s.skip(1)[k - 1] == s[k as int]);
        }
        lemma_run_len_is(p, s.skip(1), (k - 1) as nat);
    }
}

/// If the first code point of `s` satisfies `pred`, the byte length of the
/// longest prefix all of whose code points satisfy `pred`; `None` when that
/// prefix is empty.
pub fn len_while<F: Fn(char) -> bool>(s: &str, pred: F, Ghost(p): Ghost<spec_fn(char) -> bool>) -> (r:
    Option<usize>)
    requires
        forall|c: char| #[trigger] call_requires(pred, (c,)),
        forall|c: char, b: bool| call_ensures(pred, (c,), b) ==> b == p(c),
    ensures
        r matches Some(n) ==> run_len(p, s@) > 0 && n == crate::encoding::text_len(
            s@.take(run_len(p, s@) as int),
        ),
        r is None ==> run_len(p, s@) == 0,
{
    let total = crate::encoding::str_byte_len(s);
    proof {
        crate::encoding::lemma_text_len_nil(s@);
    }
    let n = s.unicode_len();
    let mut i: usize = 0;
    let mut b: usize = 0;
    while i < n
        invariant
            n == s@.len(),
            total == crate::encoding::text_len(s@),
            i <= n,
            b == crate::encoding::text_len(s@.take(i as int)),
            forall|j: int| 0 <= j < i ==> p(s@[j]),
            forall|c: char| #[trigger] call_requires(pred, (c,)),
            forall|c: char, b2: bool| call_ensures(pred, (c,), b2) ==> b2 == p(c),
        ensures
            i <= n,
            b == crate::encoding::text_len(s@.take(i as int)),
            forall|j: int| 0 <= j < i ==> p(s@[j]),
            i < n ==> !p(s@[i as int]),
        decreases n - i,
    {
        let c = s.get_char(i);
        if !pred(c) {
            break ;
        }
        proof {
            crate::encoding::lemma_text_len_take_succ(s@, i as int);
            crate::encoding::lemma_text_len_mono(s@, i + 1, n as int);
            assert(s@.take(n as int) =~= s@);
        }
        b = b + crate::encoding::char_utf8_len(c);
        i += 1;
    }
    proof {
        lemma_run_len_is(p, s@, i as nat);
    }
    if i == 0 {
        None
    } else {
        Some(b)
    }
}

} // verus!
