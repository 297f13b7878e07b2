//! Character conversions that lean on the standard library.
//!
//! Everything here is a thin, trusted shim over one `std` function; the
//! decoders state their own contracts on top of these.

use vstd::prelude::*;
use vstd::utf8::is_scalar;

verus! {

/// Whether a character has the Unicode `Uppercase` property. The name
/// stands for the result of `char::is_uppercase`, which depends on the
/// character alone.
pub uninterp spec fn char_is_uppercase(c: char) -> bool;

/// Relies on `char::is_uppercase`: true exactly for characters with the
/// Unicode `Uppercase` property, a function of the character alone.
#[verifier::external_body]
pub fn is_uppercase_char(c: char) -> (r: bool)
    ensures
        r == char_is_uppercase(c),
{
    c.is_uppercase()
}

/// Relies on `char::from_u32`: `Some` exactly when the value is a Unicode
/// scalar value (not a surrogate, at most 0x10FFFF), and the character it
/// returns casts back to that value.
#[verifier::external_body]
pub fn char_from_u32(v: u32) -> (r: Option<char>)
    ensures
        r is Some <==> is_scalar(v),
        r matches Some(c) ==> c as u32 == v,
{
    char::from_u32(v)
}

} // verus!
