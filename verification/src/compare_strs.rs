//! The `CompareStrs` trait and its implementations: policies that decide
//! when two token texts count as equal, used when matching literal tokens.

use vstd::prelude::*;

use crate::chars::lower_char;
use crate::chars::to_lower_char;

verus! {

use vstd::string::StrSliceExecFns;

/// A string-equality policy.  Every implementation is an equivalence
/// relation over texts, which the three lemma obligations state.
pub trait CompareStrs: Sized + Copy {
    /// Whether the two texts are equal under this comparator.
    spec fn spec_eq(&self, a: Seq<char>, b: Seq<char>) -> bool;

    /// Every text compares equal to itself.
    proof fn lemma_reflexive(&self, a: Seq<char>)
        ensures
            self.spec_eq(a, a),
    ;

    /// Comparison does not depend on the order of its arguments.
    proof fn lemma_symmetric(&self, a: Seq<char>, b: Seq<char>)
        ensures
            self.spec_eq(a, b) == self.spec_eq(b, a),
    ;

    /// Texts equal to a common text are equal to each other.
    proof fn lemma_transitive(&self, a: Seq<char>, b: Seq<char>, c: Seq<char>)
        ensures
            self.spec_eq(a, b) && self.spec_eq(b, c) ==> self.spec_eq(a, c),
    ;

    /// Compare two strings under this policy.
    fn compare_strs(&self, a: &str, b: &str) -> (r: bool)
        ensures
            r == self.spec_eq(a@, b@),
    ;
}

/// Compare two strings code point by code point.
fn eq_chars(a: &str, b: &str) -> (r: bool)
    ensures
        r == (a@ == b@),
{
    let n = a.unicode_len();
    if n != b.unicode_len() {
        return false;
    }
    let mut i: usize = 0;
    while i < n
        invariant
            n == a@.len(),
            n == b@.len(),
            i <= n,
            forall|j: int| 0 <= j < i ==> a@[j] == b@[j],
        decreases n - i,
    {
        if a.get_char(i) != b.get_char(i) {
            return false;
        }
        i += 1;
    }
    proof {
        assert(a@ =~= b@);
    }
    true
}

/// Exact comparison: two strings are equal if and only if they consist of
/// the same code points in the same order.  No Unicode normalization is
/// applied.
#[derive(Clone, Copy, Debug, Default, PartialEq, Eq, Structural)]
pub struct Exact;

impl CompareStrs for Exact {
    open spec fn spec_eq(&self, a: Seq<char>, b: Seq<char>) -> bool {
        a == b
    }

    proof fn lemma_reflexive(&self, a: Seq<char>) {
    }

    proof fn lemma_symmetric(&self, a: Seq<char>, b: Seq<char>) {
    }

    proof fn lemma_transitive(&self, a: Seq<char>, b: Seq<char>, c: Seq<char>) {
    }

    fn compare_strs(&self, a: &str, b: &str) -> (r: bool) {
        eq_chars(a, b)
    }
}

/// The lowercase form of a code point under the ASCII-only mapping, as a
/// code-point value: ASCII capital letters map to their lowercase letters,
/// every other code point to itself.
pub open spec fn ascii_lower_val(c: char) -> int {
    if ('A' as u32) <= (c as u32) && (c as u32) <= ('Z' as u32) {
        (c as u32) + 32
    } else {
        (c as u32) as int
    }
}

/// Case-insensitive comparison for the ASCII range: ASCII letters are
/// compared without regard to case, every other code point exactly.  No
/// Unicode normalization is applied.
#[derive(Clone, Copy, Debug, Default, PartialEq, Eq, Structural)]
pub struct AsciiCaseInsensitive;

impl CompareStrs for AsciiCaseInsensitive {
    open spec fn spec_eq(&self, a: Seq<char>, b: Seq<char>) -> bool {
        a.len() == b.len() && forall|i: int|
            0 <= i < a.len() ==> ascii_lower_val(a[i]) == ascii_lower_val(b[i])
    }

    proof fn lemma_reflexive(&self, a: Seq<char>) {
    }

    proof fn lemma_symmetric(&self, a: Seq<char>, b: Seq<char>) {
    }

    proof fn lemma_transitive(&self, a: Seq<char>, b: Seq<char>, c: Seq<char>) {
    }

    fn compare_strs(&self, a: &str, b: &str) -> (r: bool) {
        let n = a.unicode_len();
        if n != b.unicode_len() {
            return false;
        }
        let mut i: usize = 0;
        while i < n
            invariant
                n == a@.len(),
                n == b@.len(),
                i <= n,
                forall|j: int| 0 <= j < i ==> ascii_lower_val(a@[j]) == ascii_lower_val(b@[j]),
            decreases n - i,
        {
            let ca = a.get_char(i) as u32;
            let cb = b.get_char(i) as u32;
            let la = if 65 <= ca && ca <= 90 {
                ca + 32
            } else {
                ca
            };
            let lb = if 65 <= cb && cb <= 90 {
                cb + 32
            } else {
                cb
            };
            if la != lb {
                return false;
            }
            i += 1;
        }
        true
    }
}

/// Case-insensitive comparison: after confirming equal code-point counts,
/// code points are compared by their lowercase forms.  A lowercase form
/// that expands to several code points is not handled and no locale
/// tailoring is applied — a deliberate, documented limitation.  No Unicode
/// normalization is applied.
#[derive(Clone, Copy, Debug, Default, PartialEq, Eq, Structural)]
pub struct CaseInsensitive;

impl CompareStrs for CaseInsensitive {
    open spec fn spec_eq(&self, a: Seq<char>, b: Seq<char>) -> bool {
        a.len() == b.len() && forall|i: int|
            0 <= i < a.len() ==> lower_char(a[i]) == lower_char(b[i])
    }

    proof fn lemma_reflexive(&self, a: Seq<char>) {
    }

    proof fn lemma_symmetric(&self, a: Seq<char>, b: Seq<char>) {
    }

    proof fn lemma_transitive(&self, a: Seq<char>, b: Seq<char>, c: Seq<char>) {
    }

    fn compare_strs(&self, a: &str, b: &str) -> (r: bool) {
        let n = a.unicode_len();
        if n != b.unicode_len() {
            return false;
        }
        let mut i: usize = 0;
        while i < n
            invariant
                n == a@.len(),
                n == b@.len(),
                i <= n,
                forall|j: int| 0 <= j < i ==> lower_char(a@[j]) == lower_char(b@[j]),
            decreases n - i,
        {
            if to_lower_char(a.get_char(i)) != to_lower_char(b.get_char(i)) {
                return false;
            }
            i += 1;
        }
        true
    }
}

} // verus!
