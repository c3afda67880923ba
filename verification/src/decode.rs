//! Decoding captured process output into text.
//!
//! The external tool's output is an arbitrary byte sequence; it is surfaced
//! to callers as text with invalid sequences replaced rather than rejected.
//! The replacement policy is std's, so the decoded value is named by an
//! uninterpreted function; on valid UTF-8 input the result is pinned exactly
//! to vstd's UTF-8 decoding.

use vstd::prelude::*;
use vstd::utf8::{decode_utf8, valid_utf8};

verus! {

/// The text that lossy UTF-8 decoding yields for `bytes`: each maximal
/// invalid sequence replaced, everything else decoded as UTF-8. The result
/// depends on the bytes alone.
pub uninterp spec fn lossy_text_of(bytes: Seq<u8>) -> Seq<char>;

/// Relies on `String::from_utf8_lossy`: its documentation states that invalid
/// UTF-8 sequences are replaced with U+FFFD and that valid UTF-8 bytes are
/// converted without any replacement, i.e. to their UTF-8 decoding.
#[verifier::external_body]
pub fn decode_lossy(bytes: &[u8]) -> (r: String)
    ensures
        r@ == lossy_text_of(bytes@),
        valid_utf8(bytes@) ==> r@ == decode_utf8(bytes@),
{
    String::from_utf8_lossy(bytes).into_owned()
}

} // verus!
