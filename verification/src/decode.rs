//! Permissive decoding of received bytes as UTF-8 text.

use vstd::prelude::*;
use vstd::utf8::{decode_utf8, valid_utf8};

verus! {

/// The text that permissive decoding gives for `bytes`: the characters that
/// the bytes encode, with U+FFFD in place of each malformed sequence.
pub uninterp spec fn lossy_text(bytes: Seq<u8>) -> Seq<char>;

/// Decodes with `String::from_utf8_lossy`. The result is a function of the
/// bytes alone, named `lossy_text`; for well-formed UTF-8 it is the text that
/// the bytes encode. What replaces a malformed sequence is not stated here.
#[verifier::external_body]
fn from_utf8_lossy(bytes: &[u8]) -> (s: String)
    ensures
        s@ == lossy_text(bytes@),
        valid_utf8(bytes@) ==> s@ == decode_utf8(bytes@),
{
    String::from_utf8_lossy(bytes).into_owned()
}

/// Decodes received bytes as text. Malformed sequences are repaired, never
/// reported.
pub fn decode(bytes: &[u8]) -> (s: String)
    ensures
        s@ == lossy_text(bytes@),
        valid_utf8(bytes@) ==> s@ == decode_utf8(bytes@),
{
    from_utf8_lossy(bytes)
}

} // verus!
