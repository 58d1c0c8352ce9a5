//! The `Tokenizer` trait and its implementations: policies that decide how
//! long the token at the start of the residual input is.

use vstd::prelude::*;

use crate::chars::is_alpha;
use crate::chars::is_alpha_char;
use crate::chars::is_digit;
use crate::chars::is_digit_char;
use crate::chars::is_xid_continue;
use crate::chars::is_xid_continue_char;
use crate::chars::is_xid_start;
use crate::chars::is_xid_start_char;
use crate::encoding::str_byte_len;
use crate::encoding::text_len;
use crate::len_while;
use crate::run_len;

verus! {

/// A tokenization policy: given the residual text, the extent of the
/// token starting at its first code point, or `None` when the policy is
/// undecided (the cursor then falls back to a single code point).
pub trait Tokenizer: Sized + Copy {
    /// The token at the start of the residual text, measured in code
    /// points; `None` when the policy is undecided.
    spec fn spec_token_chars(&self, s: Seq<char>) -> Option<nat>;

    /// A token is never empty and never reaches past the end of the text,
    /// and an empty text holds no token.
    proof fn lemma_token_chars_in_range(&self, s: Seq<char>)
        ensures
            self.spec_token_chars(s) matches Some(k) ==> 1 <= k <= s.len(),
            s.len() == 0 ==> self.spec_token_chars(s) is None,
    ;

    /// The length in bytes of the token at the start of `s`, or `None`:
    /// the encoded length of the prefix that `spec_token_chars` names, so
    /// always a code-point boundary.
    fn token_len(&self, s: &str) -> (r: Option<usize>)
        ensures
            r matches Some(n) ==> self.spec_token_chars(s@) matches Some(k) && n == text_len(
                s@.take(k as int),
            ),
            r is None ==> self.spec_token_chars(s@) is None,
    ;
}

/// A code point without the `White_Space` property.
fn not_space(c: char) -> (b: bool)
    ensures
        b == !crate::chars::is_space_char(c),
{
    !crate::chars::is_space(c)
}

/// Tokenizes into words and integers: a word is a maximal run of alphabetic
/// code points, an integer a maximal run of decimal digits.
#[derive(Clone, Copy, Debug, Default, PartialEq, Eq, Structural)]
pub struct WordsAndInts;

impl Tokenizer for WordsAndInts {
    open spec fn spec_token_chars(&self, s: Seq<char>) -> Option<nat> {
        if s.len() == 0 {
            None
        } else if is_alpha_char(s[0]) {
            Some(run_len(|c: char| is_alpha_char(c), s))
        } else if is_digit_char(s[0]) {
            Some(run_len(|c: char| is_digit_char(c), s))
        } else {
            None
        }
    }

    proof fn lemma_token_chars_in_range(&self, s: Seq<char>) {
        if s.len() > 0 && is_alpha_char(s[0]) {
            crate::lemma_run_len(|c: char| is_alpha_char(c), s);
        } else if s.len() > 0 && is_digit_char(s[0]) {
            crate::lemma_run_len(|c: char| is_digit_char(c), s);
        }
    }

    fn token_len(&self, s: &str) -> (r: Option<usize>) {
        if s.unicode_len() == 0 {
            return None;
        }
        let c0 = s.get_char(0);
        if is_alpha(c0) {
            len_while(s, is_alpha, Ghost(|c: char| is_alpha_char(c)))
        } else if is_digit(c0) {
            len_while(s, is_digit, Ghost(|c: char| is_digit_char(c)))
        } else {
            None
        }
    }
}

/// Tokenizes into identifiers and integers: an identifier starts with an
/// underscore or an `XID_Start` code point and continues through a maximal
/// `XID_Continue` run; an integer is a maximal run of decimal digits.
#[derive(Clone, Copy, Debug, Default, PartialEq, Eq, Structural)]
pub struct IdentsAndInts;

impl Tokenizer for IdentsAndInts {
    open spec fn spec_token_chars(&self, s: Seq<char>) -> Option<nat> {
        if s.len() == 0 {
            None
        } else if s[0] == '_' || is_xid_start_char(s[0]) {
            // For the real tables this run is never empty: the underscore
            // and every `XID_Start` code point are `XID_Continue`.  The
            // uninterpreted character model does not carry that fact, so
            // the guard stays; `token_len` states the consequence.
            if run_len(|c: char| is_xid_continue_char(c), s) == 0 {
                None
            } else {
                Some(run_len(|c: char| is_xid_continue_char(c), s))
            }
        } else if is_digit_char(s[0]) {
            Some(run_len(|c: char| is_digit_char(c), s))
        } else {
            None
        }
    }

    proof fn lemma_token_chars_in_range(&self, s: Seq<char>) {
        if s.len() > 0 && (s[0] == '_' || is_xid_start_char(s[0])) {
            crate::lemma_run_len(|c: char| is_xid_continue_char(c), s);
        } else if s.len() > 0 && is_digit_char(s[0]) {
            crate::lemma_run_len(|c: char| is_digit_char(c), s);
        }
    }

    /// An identifier opener always yields a token: the underscore and
    /// every `XID_Start` code point continue an identifier.
    fn token_len(&self, s: &str) -> (r: Option<usize>)
        ensures
            s@.len() > 0 && (s@[0] == '_' || is_xid_start_char(s@[0])) ==> r is Some,
    {
        if s.unicode_len() == 0 {
            return None;
        }
        let c0 = s.get_char(0);
        if c0 == '_' || is_xid_start(c0) {
            let xc = is_xid_continue(c0);
            proof {
                assert(xc);
            }
            len_while(s, is_xid_continue, Ghost(|c: char| is_xid_continue_char(c)))
        } else if is_digit(c0) {
            len_while(s, is_digit, Ghost(|c: char| is_digit_char(c)))
        } else {
            None
        }
    }
}

/// Tokenizes into space-delimited tokens: a maximal run of code points
/// without the `White_Space` property; undecided on leading whitespace.
#[derive(Clone, Copy, Debug, Default, PartialEq, Eq, Structural)]
pub struct SpaceDelimited;

impl Tokenizer for SpaceDelimited {
    open spec fn spec_token_chars(&self, s: Seq<char>) -> Option<nat> {
        if s.len() == 0 || run_len(|c: char| !crate::chars::is_space_char(c), s) == 0 {
            None
        } else {
            Some(run_len(|c: char| !crate::chars::is_space_char(c), s))
        }
    }

    proof fn lemma_token_chars_in_range(&self, s: Seq<char>) {
        crate::lemma_run_len(|c: char| !crate::chars::is_space_char(c), s);
    }

    fn token_len(&self, s: &str) -> (r: Option<usize>) {
        if s.unicode_len() == 0 {
            return None;
        }
        len_while(s, not_space, Ghost(|c: char| !crate::chars::is_space_char(c)))
    }
}

/// Interprets the entire remaining input as a single token; undecided only
/// when the input is empty.
#[derive(Clone, Copy, Debug, Default, PartialEq, Eq, Structural)]
pub struct Explicit;

impl Tokenizer for Explicit {
    open spec fn spec_token_chars(&self, s: Seq<char>) -> Option<nat> {
        if s.len() == 0 {
            None
        } else {
            Some(s.len())
        }
    }

    proof fn lemma_token_chars_in_range(&self, s: Seq<char>) {
    }

    fn token_len(&self, s: &str) -> (r: Option<usize>) {
        if s.unicode_len() == 0 {
            None
        } else {
            proof {
                assert(s@.take(s@.len() as int) =~= s@);
            }
            Some(str_byte_len(s))
        }
    }
}

} // verus!
