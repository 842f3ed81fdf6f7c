//! Lossy UTF-16 decoding, taken from the standard library.

use vstd::prelude::*;

verus! {

/// The text that lossy UTF-16 decoding yields for a sequence of code units:
/// well-formed sequences decode to their characters, invalid ones to the
/// replacement character. The result depends on the code units alone.
pub uninterp spec fn utf16_lossy_of(units: Seq<u16>) -> Seq<char>;

/// Relies on `String::from_utf16_lossy`: decodes UTF-16 code units to text,
/// never failing; invalid sequences become the replacement character. The
/// result is a function of the code units alone, named by `utf16_lossy_of`.
#[verifier::external_body]
pub(crate) fn decode_utf16_lossy(units: &[u16]) -> (r: String)
    ensures
        r@ == utf16_lossy_of(units@),
{
    String::from_utf16_lossy(units)
}

} // verus!
