//! The API key as a header value.
//!
//! The key travels in a request header, so it must be a value that the HTTP
//! library accepts there. That library is the judge, and is asked.

use vstd::prelude::*;

verus! {

/// A character that may stand in a header value: a tab, or anything from the
/// space upwards but the delete character.
pub open spec fn is_header_char(c: char) -> bool {
    c == '\t' || (' ' <= c && c != '\u{7f}')
}

/// A string that may be sent as a header value.
pub open spec fn is_header_value(s: Seq<char>) -> bool {
    forall|i: int| 0 <= i < s.len() ==> is_header_char(#[trigger] s[i])
}

/// Asks `reqwest::header::HeaderValue::from_str` whether it accepts `key`.
///
/// Trusted, not proved: the call succeeds exactly when every byte of `key` is
/// a tab or at least 32 and not 127. In UTF-8 a character below 128 is the
/// one byte of its own number, and every byte of any other character is at
/// least 128, so this is `is_header_value` of the characters.
#[verifier::external_body]
pub(crate) fn header_value_accepts(key: &str) -> (accepted: bool)
    ensures
        accepted == is_header_value(key@),
{
    reqwest::header::HeaderValue::from_str(key).is_ok()
}

} // verus!
