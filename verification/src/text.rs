use vstd::prelude::*;
use vstd::utf8::{decode_utf8, valid_utf8};

verus! {

/// The characters that `String::from_utf8_lossy` makes of a byte sequence:
/// the valid parts decoded, and each maximal invalid subpart (as Unicode
/// defines it) replaced by U+FFFD.
pub uninterp spec fn lossy_utf8(bytes: Seq<u8>) -> Seq<char>;

/// The text of an argument token: its decoded characters when it is valid
/// UTF-8, otherwise what the lossy conversion makes of it.
pub open spec fn arg_text(bytes: Seq<u8>) -> Seq<char> {
    if valid_utf8(bytes) {
        decode_utf8(bytes)
    } else {
        lossy_utf8(bytes)
    }
}

/// Wraps `String::from_utf8`.
///
/// Trusted: the standard library documents that the conversion succeeds
/// exactly when the bytes are valid UTF-8 and that the string then holds the
/// characters the bytes encode; the contract states this with vstd's
/// `valid_utf8` and `decode_utf8`.
#[verifier::external_body]
pub(crate) fn utf8_to_string(bytes: Vec<u8>) -> (r: Option<String>)
    ensures
        r is Some <==> valid_utf8(bytes@),
        r matches Some(s) ==> s@ == decode_utf8(bytes@),
{
    String::from_utf8(bytes).ok()
}

/// Wraps `String::from_utf8_lossy`, taking the result as an owned `String`.
///
/// Trusted: the result is named `lossy_utf8` of the bytes; the standard
/// library documents that on valid UTF-8 it is the decoded text itself.
/// How invalid sequences are replaced is left to the name.
#[verifier::external_body]
pub(crate) fn utf8_lossy_to_string(bytes: &[u8]) -> (r: String)
    ensures
        r@ == lossy_utf8(bytes@),
        valid_utf8(bytes@) ==> r@ == decode_utf8(bytes@),
{
    String::from_utf8_lossy(bytes).into_owned()
}

} // verus!
