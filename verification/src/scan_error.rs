//! The `ScanError` type, which encodes the ways a scan can fail, and its
//! precedence-ordered merging.

use vstd::prelude::*;

pub use self::ScanError::OtherScanError;
pub use self::ScanError::ScanIoError;

verus! {

use vstd::string::StringExecFns;

/// Shorthand for results whose error is a `ScanError`.
pub type ScanResult<T> = Result<T, ScanError>;

/// The decimal digit for a value below ten.
pub open spec fn spec_digit(d: nat) -> char {
    if d == 0 {
        '0'
    } else if d == 1 {
        '1'
    } else if d == 2 {
        '2'
    } else if d == 3 {
        '3'
    } else if d == 4 {
        '4'
    } else if d == 5 {
        '5'
    } else if d == 6 {
        '6'
    } else if d == 7 {
        '7'
    } else if d == 8 {
        '8'
    } else {
        '9'
    }
}

/// The decimal rendering of a number, without sign or padding.
pub open spec fn spec_dec(n: nat) -> Seq<char>
    decreases n,
{
    if n < 10 {
        seq![spec_digit(n)]
    } else {
        spec_dec(n / 10).push(spec_digit(n % 10))
    }
}

/// The lowercase hexadecimal digit for a value below sixteen.
pub open spec fn spec_hex_digit(d: nat) -> char {
    if d < 10 {
        spec_digit(d)
    } else if d == 10 {
        'a'
    } else if d == 11 {
        'b'
    } else if d == 12 {
        'c'
    } else if d == 13 {
        'd'
    } else if d == 14 {
        'e'
    } else {
        'f'
    }
}

/// The lowercase hexadecimal rendering of a number, without prefix or
/// padding.
pub open spec fn spec_hex(n: nat) -> Seq<char>
    decreases n,
{
    if n < 16 {
        seq![spec_hex_digit(n)]
    } else {
        spec_hex(n / 16).push(spec_hex_digit(n % 16))
    }
}

/// The one-character string for a decimal digit.
fn digit_str(d: usize) -> (r: &'static str)
    requires
        d < 10,
    ensures
        r@ == seq![spec_digit(d as nat)],
{
    proof {
        reveal_strlit("0");
        reveal_strlit("1");
        reveal_strlit("2");
        reveal_strlit("3");
        reveal_strlit("4");
        reveal_strlit("5");
        reveal_strlit("6");
        reveal_strlit("7");
        reveal_strlit("8");
        reveal_strlit("9");
    }
    match d {
        0 => "0",
        1 => "1",
        2 => "2",
        3 => "3",
        4 => "4",
        5 => "5",
        6 => "6",
        7 => "7",
        8 => "8",
        _ => "9",
    }
}

/// The one-character string for a lowercase hexadecimal digit.
fn hex_digit_str(d: u32) -> (r: &'static str)
    requires
        d < 16,
    ensures
        r@ == seq![spec_hex_digit(d as nat)],
{
    proof {
        reveal_strlit("a");
        reveal_strlit("b");
        reveal_strlit("c");
        reveal_strlit("d");
        reveal_strlit("e");
        reveal_strlit("f");
    }
    if d < 10 {
        digit_str(d as usize)
    } else {
        match d {
            10 => "a",
            11 => "b",
            12 => "c",
            13 => "d",
            14 => "e",
            _ => "f",
        }
    }
}

/// Append the lowercase hexadecimal rendering of `n` to `s`.
pub fn push_hex(s: &mut String, n: u32)
    ensures
        final(s)@ == old(s)@ + spec_hex(n as nat),
    decreases n,
{
    if n >= 16 {
        push_hex(s, n / 16);
    }
    s.append(hex_digit_str(n % 16));
    proof {
        assert(s@ =~= old(s)@ + spec_hex(n as nat));
    }
}

/// Append the decimal rendering of `n` to `s`.
fn push_dec(s: &mut String, n: usize)
    ensures
        final(s)@ == old(s)@ + spec_dec(n as nat),
    decreases n,
{
    if n >= 10 {
        push_dec(s, n / 10);
    }
    s.append(digit_str(n % 10));
    proof {
        assert(s@ =~= old(s)@ + spec_dec(n as nat));
    }
}

/// The decimal rendering of `n`.
pub fn dec_string(n: usize) -> (r: String)
    ensures
        r@ == spec_dec(n as nat),
{
    let mut s = String::new();
    push_dec(&mut s, n);
    proof {
        assert(s@ =~= spec_dec(n as nat));
    }
    s
}

/// Why a scan attempt failed.
#[derive(Debug, Clone)]
pub enum ScanError {
    /// A text mismatch: the message describing the problem, and the byte
    /// offset within the input at which it was detected.
    OtherScanError(String, usize),
    /// An underlying byte-source failure, described by its rendered cause.
    ScanIoError(String),
}

impl ScanError {
    /// The "most interesting" of two errors: a byte-source failure wins over
    /// any text mismatch, and of two mismatches the one further along the
    /// input wins (ties go to the second).
    pub open spec fn spec_or(self, other: ScanError) -> ScanError {
        match (self, other) {
            (ScanError::ScanIoError(cause), _) => ScanError::ScanIoError(cause),
            (ScanError::OtherScanError(m, o), ScanError::ScanIoError(cause)) => ScanError::ScanIoError(
                cause,
            ),
            (ScanError::OtherScanError(ma, oa), ScanError::OtherScanError(mb, ob)) => if oa > ob {
                ScanError::OtherScanError(ma, oa)
            } else {
                ScanError::OtherScanError(mb, ob)
            },
        }
    }

    /// The rendered diagnostic: the offset and message of a text mismatch,
    /// or the cause of a byte-source failure.
    pub open spec fn spec_message(self) -> Seq<char> {
        match self {
            ScanError::OtherScanError(m, off) => "at offset "@ + spec_dec(off as nat) + ": "@
                + m@,
            ScanError::ScanIoError(cause) => "io error: "@ + cause@,
        }
    }

    /// Render the error as a single diagnostic string.
    pub fn to_message(&self) -> (r: String)
        ensures
            r@ == self.spec_message(),
    {
        match self {
            ScanError::OtherScanError(m, off) => {
                let mut s = String::from_str("at offset ");
                push_dec(&mut s, *off);
                s.append(": ");
                s.append(m.as_str());
                proof {
                    assert(s@ =~= self.spec_message());
                }
                s
            },
            ScanError::ScanIoError(cause) => {
                let mut s = String::from_str("io error: ");
                s.append(cause.as_str());
                proof {
                    assert(s@ =~= self.spec_message());
                }
                s
            },
        }
    }

    /// Merge two errors, keeping the most interesting one.
    pub fn or(self, other: ScanError) -> (r: ScanError)
        ensures
            r == self.spec_or(other),
    {
        match (self, other) {
            (ScanError::ScanIoError(cause), _) => ScanError::ScanIoError(cause),
            (_, ScanError::ScanIoError(cause)) => ScanError::ScanIoError(cause),
            (ScanError::OtherScanError(ma, oa), ScanError::OtherScanError(mb, ob)) => {
                if oa > ob {
                    ScanError::OtherScanError(ma, oa)
                } else {
                    ScanError::OtherScanError(mb, ob)
                }
            },
        }
    }
}

} // verus!
