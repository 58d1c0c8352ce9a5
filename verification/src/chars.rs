//! Code-point classification and case mapping.
//!
//! The Unicode character properties used by the scanning policies
//! (`White_Space`, `Alphabetic`, `XID_Start`, `XID_Continue`) and the
//! per-code-point lowercase mapping are tables that live outside this
//! library; each is given an uninterpreted name here and reached through a
//! trusted wrapper.  Decimal digits are the ASCII digits and need no table.

use vstd::prelude::*;

verus! {

/// Whether a code point has the Unicode `White_Space` property.
pub uninterp spec fn is_space_char(c: char) -> bool;

/// Whether a code point has the Unicode `Alphabetic` property.
pub uninterp spec fn is_alpha_char(c: char) -> bool;

/// Whether a code point has the Unicode `XID_Start` property.
pub uninterp spec fn is_xid_start_char(c: char) -> bool;

/// Whether a code point has the Unicode `XID_Continue` property.
pub uninterp spec fn is_xid_continue_char(c: char) -> bool;

/// The single-code-point lowercase form of a code point.
pub uninterp spec fn lower_char(c: char) -> char;

/// Whether a code point is a decimal digit (`'0'` through `'9'`).
pub open spec fn is_digit_char(c: char) -> bool {
    ('0' as u32) <= (c as u32) && (c as u32) <= ('9' as u32)
}

/// Relies on `char::is_whitespace`: the Unicode `White_Space` property,
/// a function of the character alone.  Its documentation lists the ASCII
/// members of the property.
#[verifier::external_body]
pub(crate) fn is_space(c: char) -> (r: bool)
    ensures
        r == is_space_char(c),
        (c as u32) < 128 ==> r == ((c as u32) == 32 || 9 <= (c as u32) && (c as u32) <= 13),
{
    c.is_whitespace()
}

/// Relies on `char::is_alphabetic`: the Unicode `Alphabetic` property, a
/// function of the character alone.  Within ASCII it holds of exactly the
/// letters.
#[verifier::external_body]
pub(crate) fn is_alpha(c: char) -> (r: bool)
    ensures
        r == is_alpha_char(c),
        (c as u32) < 128 ==> r == (('a' as u32) <= (c as u32) && (c as u32) <= ('z' as u32) || (
        'A' as u32) <= (c as u32) && (c as u32) <= ('Z' as u32)),
{
    c.is_alphabetic()
}

/// Relies on `unicode_xid::UnicodeXID::is_xid_start`: the Unicode
/// `XID_Start` property, a function of the character alone.  Within ASCII
/// it holds of exactly the letters, and by UAX #31 every `XID_Start` code
/// point also has `XID_Continue`.
#[verifier::external_body]
pub(crate) fn is_xid_start(c: char) -> (r: bool)
    ensures
        r == is_xid_start_char(c),
        r ==> is_xid_continue_char(c),
        (c as u32) < 128 ==> r == (('a' as u32) <= (c as u32) && (c as u32) <= ('z' as u32) || (
        'A' as u32) <= (c as u32) && (c as u32) <= ('Z' as u32)),
{
    unicode_xid::UnicodeXID::is_xid_start(c)
}

/// Relies on `unicode_xid::UnicodeXID::is_xid_continue`: the Unicode
/// `XID_Continue` property, a function of the character alone.  Within
/// ASCII it holds of exactly the letters, the digits and the underscore
/// (so in particular of the underscore, as its source states directly).
#[verifier::external_body]
pub(crate) fn is_xid_continue(c: char) -> (r: bool)
    ensures
        r == is_xid_continue_char(c),
        c == '_' ==> r,
        (c as u32) < 128 ==> r == (('a' as u32) <= (c as u32) && (c as u32) <= ('z' as u32) || (
        'A' as u32) <= (c as u32) && (c as u32) <= ('Z' as u32) || ('0' as u32) <= (c as u32) && (c
            as u32) <= ('9' as u32) || c == '_'),
{
    unicode_xid::UnicodeXID::is_xid_continue(c)
}

/// Relies on `char::to_lowercase`: the lowercase mapping depends on the
/// character alone, and its iterator always yields at least one code point,
/// so the fallback arm is never taken.  Only the first code point of the
/// lowercase form is kept: a lowercase form that expands to several code
/// points is not handled, and no locale tailoring is applied.
#[verifier::external_body]
pub(crate) fn to_lower_char(c: char) -> (r: char)
    ensures
        r == lower_char(c),
{
    match c.to_lowercase().next() {
        Some(l) => l,
        None => c,
    }
}

/// Whether a code point is a decimal digit (`'0'` through `'9'`).
pub fn is_digit(c: char) -> (r: bool)
    ensures
        r == is_digit_char(c),
{
    let u = c as u32;
    48 <= u && u <= 57
}

} // verus!
