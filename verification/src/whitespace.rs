//! The `Whitespace` trait and its implementations: policies that decide how
//! much leading whitespace is silently skipped and which whitespace is
//! surfaced as an explicit token.

use vstd::prelude::*;

use crate::chars::is_space;
use crate::chars::is_space_char;
use crate::encoding::lemma_ascii_text_len;
use crate::encoding::lemma_text_len_nil;
use crate::encoding::lemma_text_len_take_succ;
use crate::encoding::text_len;
use crate::len_while;
use crate::run_len;

verus! {

/// A whitespace policy: `strip_len` measures the silently skippable leading
/// whitespace of the residual text, and `token_len` recognizes an explicit
/// whitespace token at its start, together with the text that token carries
/// (which may collapse what was consumed).
pub trait Whitespace: Sized + Copy {
    /// The skippable leading whitespace of the residual text, measured in
    /// code points.
    spec fn spec_strip_chars(&self, s: Seq<char>) -> nat;

    /// The explicit whitespace token at the start of the residual text:
    /// what it consumes, in code points, and the text it emits (which may
    /// collapse what was consumed).
    spec fn spec_token_chars(&self, s: Seq<char>) -> Option<(nat, Seq<char>)>;

    /// Stripping never reaches past the end of the text, and stripping the
    /// stripped text a second time consumes nothing.
    proof fn lemma_strip_chars(&self, s: Seq<char>)
        ensures
            self.spec_strip_chars(s) <= s.len(),
            self.spec_strip_chars(s.skip(self.spec_strip_chars(s) as int)) == 0,
    ;

    /// An explicit whitespace token consumes at least one code point and
    /// never reaches past the end of the text; an empty text holds none.
    proof fn lemma_token_chars_in_range(&self, s: Seq<char>)
        ensures
            self.spec_token_chars(s) matches Some(t) ==> 1 <= t.0 <= s.len(),
            s.len() == 0 ==> self.spec_token_chars(s) is None,
    ;

    /// How many bytes at the start of `s` are skippable whitespace: the
    /// encoded length of the prefix that `spec_strip_chars` names, so
    /// always a code-point boundary.
    fn strip_len(&self, s: &str) -> (r: usize)
        ensures
            r == text_len(s@.take(self.spec_strip_chars(s@) as int)),
    ;

    /// The explicit whitespace token at the start of `s`, if any: its
    /// consumed length in bytes (the encoded length of the prefix that
    /// `spec_token_chars` names, so always a code-point boundary) and the
    /// text it emits.
    fn token_len<'a>(&self, s: &'a str) -> (r: Option<(usize, &'a str)>)
        ensures
            r matches Some(t) ==> self.spec_token_chars(s@) matches Some(q) && t.1@ == q.1 && t.0
                == text_len(s@.take(q.0 as int)),
            r is None ==> self.spec_token_chars(s@) is None,
    ;
}

/// A whitespace code point that is not part of a line terminator.
fn space_not_newline(c: char) -> (b: bool)
    ensures
        b == (is_space_char(c) && c != '\r' && c != '\n'),
{
    is_space(c) && c != '\r' && c != '\n'
}

/// Skips every code point with the `White_Space` property and never emits a
/// whitespace token.
#[derive(Clone, Copy, Debug, Default, PartialEq, Eq, Structural)]
pub struct Ignore;

impl Whitespace for Ignore {
    open spec fn spec_strip_chars(&self, s: Seq<char>) -> nat {
        run_len(|c: char| is_space_char(c), s)
    }

    open spec fn spec_token_chars(&self, s: Seq<char>) -> Option<(nat, Seq<char>)> {
        None
    }

    proof fn lemma_strip_chars(&self, s: Seq<char>) {
        lemma_strip_run(|c: char| is_space_char(c), s);
    }

    proof fn lemma_token_chars_in_range(&self, s: Seq<char>) {
    }

    fn strip_len(&self, s: &str) -> (r: usize) {
        proof {
            lemma_text_len_nil(s@);
        }
        match len_while(s, is_space, Ghost(|c: char| is_space_char(c))) {
            Some(n) => n,
            None => 0,
        }
    }

    fn token_len<'a>(&self, s: &'a str) -> (r: Option<(usize, &'a str)>) {
        None
    }
}

/// Skips whitespace except line terminators; `\r\n`, `\r` and `\n` each
/// become an explicit `"\n"` token.
#[derive(Clone, Copy, Debug, Default, PartialEq, Eq, Structural)]
pub struct ExplicitNewline;

impl Whitespace for ExplicitNewline {
    open spec fn spec_strip_chars(&self, s: Seq<char>) -> nat {
        run_len(|c: char| is_space_char(c) && c != '\r' && c != '\n', s)
    }

    open spec fn spec_token_chars(&self, s: Seq<char>) -> Option<(nat, Seq<char>)> {
        spec_newline_token(s)
    }

    proof fn lemma_strip_chars(&self, s: Seq<char>) {
        lemma_strip_run(|c: char| is_space_char(c) && c != '\r' && c != '\n', s);
    }

    proof fn lemma_token_chars_in_range(&self, s: Seq<char>) {
    }

    fn strip_len(&self, s: &str) -> (r: usize) {
        proof {
            lemma_text_len_nil(s@);
        }
        match len_while(
            s,
            space_not_newline,
            Ghost(|c: char| is_space_char(c) && c != '\r' && c != '\n'),
        ) {
            Some(n) => n,
            None => 0,
        }
    }

    fn token_len<'a>(&self, s: &'a str) -> (r: Option<(usize, &'a str)>) {
        newline_token(s)
    }
}

/// The explicit token a line terminator becomes: `\r\n` is consumed as one
/// two-code-point token, `\r` and `\n` alone as one; each emits `"\n"`.
pub open spec fn spec_newline_token(s: Seq<char>) -> Option<(nat, Seq<char>)> {
    if s.len() >= 2 && s[0] == '\r' && s[1] == '\n' {
        Some((2nat, seq!['\n']))
    } else if s.len() >= 1 && (s[0] == '\r' || s[0] == '\n') {
        Some((1nat, seq!['\n']))
    } else {
        None
    }
}

/// Recognize a line terminator at the start of `s` as an explicit `"\n"`
/// token, reporting the consumed length in bytes (line-terminator code
/// points are one byte each).
fn newline_token<'a>(s: &'a str) -> (r: Option<(usize, &'a str)>)
    ensures
        r matches Some(t) ==> spec_newline_token(s@) matches Some(q) && t.1@ == q.1 && t.0
            == text_len(s@.take(q.0 as int)),
        r is None ==> spec_newline_token(s@) is None,
{
    proof {
        if s@.len() >= 1 && (s@[0] == '\r' || s@[0] == '\n') {
            assert forall|i: int| 0 <= i < s@.take(1).len() implies (#[trigger] s@.take(1)[i]
                as u32) < 128 by {}
            lemma_ascii_text_len(s@.take(1));
            if s@.len() >= 2 && s@[0] == '\r' && s@[1] == '\n' {
                assert forall|i: int| 0 <= i < s@.take(2).len() implies (#[trigger] s@.take(2)[i]
                    as u32) < 128 by {}
                lemma_ascii_text_len(s@.take(2));
            }
        }
    }
    proof {
        reveal_strlit("\n");
    }
    let n = s.unicode_len();
    if n == 0 {
        return None;
    }
    let c0 = s.get_char(0);
    if c0 == '\r' {
        if n >= 2 && s.get_char(1) == '\n' {
            Some((2, "\n"))
        } else {
            Some((1, "\n"))
        }
    } else if c0 == '\n' {
        Some((1, "\n"))
    } else {
        None
    }
}

/// Strips nothing; a line terminator becomes a `"\n"` token and any other
/// whitespace run collapses to a single `" "` token.
#[derive(Clone, Copy, Debug, Default, PartialEq, Eq, Structural)]
pub struct Explicit;

impl Whitespace for Explicit {
    open spec fn spec_strip_chars(&self, s: Seq<char>) -> nat {
        0
    }

    open spec fn spec_token_chars(&self, s: Seq<char>) -> Option<(nat, Seq<char>)> {
        if spec_newline_token(s) is Some {
            spec_newline_token(s)
        } else if run_len(|c: char| is_space_char(c) && c != '\r' && c != '\n', s) == 0 {
            None
        } else {
            Some((run_len(|c: char| is_space_char(c) && c != '\r' && c != '\n', s), seq![' ']))
        }
    }

    proof fn lemma_strip_chars(&self, s: Seq<char>) {
    }

    proof fn lemma_token_chars_in_range(&self, s: Seq<char>) {
        crate::lemma_run_len(|c: char| is_space_char(c) && c != '\r' && c != '\n', s);
    }

    fn strip_len(&self, s: &str) -> (r: usize) {
        proof {
            lemma_text_len_nil(s@);
        }
        0
    }

    fn token_len<'a>(&self, s: &'a str) -> (r: Option<(usize, &'a str)>) {
        proof {
            reveal_strlit(" ");
        }
        let nl = newline_token(s);
        if nl.is_some() {
            return nl;
        }
        match len_while(
            s,
            space_not_newline,
            Ghost(|c: char| is_space_char(c) && c != '\r' && c != '\n'),
        ) {
            Some(n) => Some((n, " ")),
            None => None,
        }
    }
}

/// Strips nothing; any whitespace run, line terminators included, collapses
/// to a single `" "` token.
#[derive(Clone, Copy, Debug, Default, PartialEq, Eq, Structural)]
pub struct ExplicitAny;

impl Whitespace for ExplicitAny {
    open spec fn spec_strip_chars(&self, s: Seq<char>) -> nat {
        0
    }

    open spec fn spec_token_chars(&self, s: Seq<char>) -> Option<(nat, Seq<char>)> {
        if run_len(|c: char| is_space_char(c), s) == 0 {
            None
        } else {
            Some((run_len(|c: char| is_space_char(c), s), seq![' ']))
        }
    }

    proof fn lemma_strip_chars(&self, s: Seq<char>) {
    }

    proof fn lemma_token_chars_in_range(&self, s: Seq<char>) {
        crate::lemma_run_len(|c: char| is_space_char(c), s);
    }

    fn strip_len(&self, s: &str) -> (r: usize) {
        proof {
            lemma_text_len_nil(s@);
        }
        0
    }

    fn token_len<'a>(&self, s: &'a str) -> (r: Option<(usize, &'a str)>) {
        proof {
            reveal_strlit(" ");
        }
        match len_while(s, is_space, Ghost(|c: char| is_space_char(c))) {
            Some(n) => Some((n, " ")),
            None => None,
        }
    }
}

/// Strips nothing; every whitespace code point becomes its own verbatim
/// token, except `\r\n`, which is emitted together as one token.
#[derive(Clone, Copy, Debug, Default, PartialEq, Eq, Structural)]
pub struct Exact;

impl Whitespace for Exact {
    open spec fn spec_strip_chars(&self, s: Seq<char>) -> nat {
        0
    }

    open spec fn spec_token_chars(&self, s: Seq<char>) -> Option<(nat, Seq<char>)> {
        if s.len() == 0 || !is_space_char(s[0]) {
            None
        } else if s.len() >= 2 && s[0] == '\r' && s[1] == '\n' {
            Some((2nat, s.take(2)))
        } else {
            Some((1nat, s.take(1)))
        }
    }

    proof fn lemma_strip_chars(&self, s: Seq<char>) {
    }

    proof fn lemma_token_chars_in_range(&self, s: Seq<char>) {
    }

    fn strip_len(&self, s: &str) -> (r: usize) {
        proof {
            lemma_text_len_nil(s@);
        }
        0
    }

    fn token_len<'a>(&self, s: &'a str) -> (r: Option<(usize, &'a str)>) {
        let n = s.unicode_len();
        if n == 0 {
            return None;
        }
        let c0 = s.get_char(0);
        if !is_space(c0) {
            return None;
        }
        if c0 == '\r' && n >= 2 && s.get_char(1) == '\n' {
            proof {
                assert forall|i: int| 0 <= i < s@.take(2).len() implies (#[trigger] s@.take(2)[i]
                    as u32) < 128 by {}
                lemma_ascii_text_len(s@.take(2));
            }
            Some((2, s.substring_char(0, 2)))
        } else {
            proof {
                lemma_text_len_nil(s@);
                lemma_text_len_take_succ(s@, 0);
            }
            Some((crate::encoding::char_utf8_len(c0), s.substring_char(0, 1)))
        }
    }
}

/// After a maximal `p`-run is stripped, no `p`-run remains at the front.
proof fn lemma_strip_run(p: spec_fn(char) -> bool, s: Seq<char>)
    ensures
        run_len(p, s) <= s.len(),
        run_len(p, s.skip(run_len(p, s) as int)) == 0,
{
    crate::lemma_run_len(p, s);
    let k = run_len(p, s) as int;
    if k < s.len() {
        assert(s.skip(k)[0] == s[k]);
    }
}

} // verus!
