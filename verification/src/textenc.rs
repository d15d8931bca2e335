//! The one trusted conversion of the crate: bytes copied out of native
//! memory into an owned string.

use vstd::prelude::*;
use vstd::utf8::{decode_utf8, valid_utf8};

verus! {

/// Relies on String::from_utf8: it succeeds exactly when the bytes are valid
/// UTF-8, and the returned string's characters are their decoding.
#[verifier::external_body]
pub(crate) fn utf8_to_string(bytes: Vec<u8>) -> (r: Option<String>)
    ensures
        r is Some <==> valid_utf8(bytes@),
        r matches Some(s) ==> s@ == decode_utf8(bytes@),
{
    String::from_utf8(bytes).ok()
}

} // verus!
