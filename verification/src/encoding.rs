//! Byte lengths under UTF-8: how many bytes a code point or a text
//! occupies, and the lemmas that tie byte offsets to code-point positions.
//! The library reports every offset and length in bytes, as the input is
//! addressed, while its contracts speak of the input's code points; these
//! definitions connect the two.

use vstd::prelude::*;

verus! {

use vstd::string::StringSliceAdditionalSpecFns;
use vstd::utf8::char_is_scalar;
use vstd::utf8::encode_scalar;
use vstd::utf8::encode_utf8;

/// The number of bytes of one code point's UTF-8 encoding.
pub open spec fn char_len(c: char) -> nat {
    encode_scalar(c as u32).len()
}

/// The number of bytes of a text's UTF-8 encoding.
pub open spec fn text_len(s: Seq<char>) -> nat {
    encode_utf8(s).len()
}

/// Whether the byte count `b` is a code-point boundary of `s`: the encoded
/// length of one of its prefixes.
pub open spec fn is_boundary(s: Seq<char>, b: int) -> bool {
    exists|k: int| 0 <= k <= s.len() && b == text_len(s.take(k))
}

/// A code point encodes to one through four bytes.
pub proof fn lemma_char_len(c: char)
    ensures
        1 <= char_len(c) <= 4,
{
    char_is_scalar(c);
}

/// The byte length of one code point's UTF-8 encoding, from its scalar
/// value.
pub fn char_utf8_len(c: char) -> (r: usize)
    ensures
        r == char_len(c),
{
    proof {
        char_is_scalar(c);
    }
    let u = c as u32;
    if u < 0x80 {
        1
    } else if u < 0x800 {
        2
    } else if u < 0x10000 {
        3
    } else {
        4
    }
}

/// The byte length of a string: exactly the length of its encoding.
pub fn str_byte_len(s: &str) -> (r: usize)
    ensures
        r == text_len(s@),
{
    broadcast use vstd::slice::axiom_spec_len;

    let b = s.as_bytes();
    proof {
        assert(b@ == s.spec_bytes());
    }
    b.len()
}

/// Encoding a concatenation encodes each part.
pub proof fn lemma_encode_concat(a: Seq<char>, b: Seq<char>)
    ensures
        encode_utf8(a + b) == encode_utf8(a) + encode_utf8(b),
    decreases a.len(),
{
    if a.len() == 0 {
        assert(a + b =~= b);
        assert(encode_utf8(a) + encode_utf8(b) =~= encode_utf8(b));
    } else {
        assert((a + b).drop_first() =~= a.drop_first() + b);
        lemma_encode_concat(a.drop_first(), b);
        assert(encode_utf8(a + b) =~= encode_utf8(a) + encode_utf8(b));
    }
}

/// An empty text encodes to no bytes.
pub proof fn lemma_text_len_nil(s: Seq<char>)
    ensures
        text_len(s.take(0)) == 0,
{
    assert(s.take(0) =~= Seq::<char>::empty());
}

/// The encoded length of a prefix grows by exactly the next code point's
/// length.
pub proof fn lemma_text_len_take_succ(s: Seq<char>, k: int)
    requires
        0 <= k < s.len(),
    ensures
        text_len(s.take(k + 1)) == text_len(s.take(k)) + char_len(s[k]),
{
    reveal_with_fuel(encode_utf8, 2);
    assert(s.take(k + 1) =~= s.take(k) + seq![s[k]]);
    lemma_encode_concat(s.take(k), seq![s[k]]);
    assert(seq![s[k]].drop_first() =~= Seq::<char>::empty());
    assert(encode_utf8(seq![s[k]]) =~= encode_scalar(s[k] as u32));
}

/// Prefix byte lengths grow strictly with the number of code points.
pub proof fn lemma_text_len_mono(s: Seq<char>, k1: int, k2: int)
    requires
        0 <= k1 <= k2 <= s.len(),
    ensures
        text_len(s.take(k1)) <= text_len(s.take(k2)),
        k1 < k2 ==> text_len(s.take(k1)) + (k2 - k1) <= text_len(s.take(k2)),
    decreases k2 - k1,
{
    if k1 < k2 {
        lemma_text_len_take_succ(s, k2 - 1);
        lemma_char_len(s[k2 - 1]);
        lemma_text_len_mono(s, k1, k2 - 1);
    }
}

/// Two prefixes of the same text with the same encoded length are the same
/// prefix.
pub proof fn lemma_boundary_unique(s: Seq<char>, k1: int, k2: int)
    requires
        0 <= k1 <= s.len(),
        0 <= k2 <= s.len(),
        text_len(s.take(k1)) == text_len(s.take(k2)),
    ensures
        k1 == k2,
{
    if k1 < k2 {
        lemma_text_len_mono(s, k1, k2);
    } else if k2 < k1 {
        lemma_text_len_mono(s, k2, k1);
    }
}

/// The encoded length of a split text is the sum of its parts' lengths:
/// the prefix of `k + j` code points measures the prefix of `k` plus `j`
/// code points of what follows.
pub proof fn lemma_text_len_split(s: Seq<char>, k: int, j: int)
    requires
        0 <= k,
        0 <= j,
        k + j <= s.len(),
    ensures
        text_len(s.take(k + j)) == text_len(s.take(k)) + text_len(s.skip(k).take(j)),
{
    assert(s.take(k + j) =~= s.take(k) + s.skip(k).take(j));
    lemma_encode_concat(s.take(k), s.skip(k).take(j));
}

/// An all-ASCII text encodes to one byte per code point.
pub proof fn lemma_ascii_text_len(s: Seq<char>)
    requires
        forall|i: int| 0 <= i < s.len() ==> (#[trigger] s[i] as u32) < 128,
    ensures
        text_len(s) == s.len(),
    decreases s.len(),
{
    if s.len() > 0 {
        char_is_scalar(s[0]);
        assert forall|i: int| 0 <= i < s.skip(1).len() implies (#[trigger] s.skip(1)[i] as u32)
            < 128 by {
            assert(s.skip(1)[i] == s[i + 1]);
        }
        lemma_ascii_text_len(s.skip(1));
        assert(s.drop_first() =~= s.skip(1));
    }
}

} // verus!
