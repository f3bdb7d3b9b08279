//! Character classification used by the scanner.
//!
//! Whitespace and alphabetic classification follow the Unicode tables that
//! `char::is_whitespace` and `char::is_alphabetic` implement; the scanner is
//! specified relative to those classifications, each under a name. Decimal
//! digits are the ASCII digits and are specified directly.

use vstd::prelude::*;

verus! {

/// What `char::is_whitespace` returns: whether the character has the Unicode
/// `White_Space` property. A function of the character alone.
pub uninterp spec fn is_whitespace_char(c: char) -> bool;

/// What `char::is_alphabetic` returns: whether the character falls in one of
/// the alphabetic Unicode general categories. A function of the character
/// alone.
pub uninterp spec fn is_alpha_char(c: char) -> bool;

/// A decimal digit: `'0'` through `'9'`.
pub open spec fn is_digit_char(c: char) -> bool {
    '0' <= c && c <= '9'
}

/// Relies on `char::is_whitespace`: a pure classification by the Unicode
/// `White_Space` property.
pub assume_specification[ char::is_whitespace ](c: char) -> (r: bool)
    ensures
        r == is_whitespace_char(c),
;

/// Relies on `char::is_alphabetic`: a pure classification by the alphabetic
/// Unicode general categories (Lu, Ll, Lt, Lm, Lo, Nl). Decimal digits fall
/// in category Nd, which is not among these, so no digit is alphabetic.
pub assume_specification[ char::is_alphabetic ](c: char) -> (r: bool)
    ensures
        r == is_alpha_char(c),
        is_digit_char(c) ==> !r,
;

/// Exec test for a decimal digit.
pub fn is_dec_digit(c: char) -> (r: bool)
    ensures
        r == is_digit_char(c),
{
    '0' <= c && c <= '9'
}

/// Numeric value of a decimal digit.
pub open spec fn digit_of(c: char) -> int {
    c as u32 - '0' as u32
}

} // verus!
