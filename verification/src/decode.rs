//! Decoding of a sheet's raw bytes into text.

use vstd::prelude::*;

verus! {

/// The most bytes that a sheet may have. Decoding reserves a buffer of up
/// to three bytes of text for each byte read and a few more, rounded up to
/// a power of two, and a buffer holds at most `isize::MAX` bytes.
pub const MAX_SHEET_BYTES: usize = usize::MAX / 8;

/// The text that `encoding_rs` decodes from `bytes` as Shift_JIS: the whole
/// input at once, a byte order mark at its start naming another encoding
/// and then left out, each malformed sequence replaced by U+FFFD.
pub uninterp spec fn shift_jis_text(bytes: Seq<u8>) -> Seq<char>;

/// Calls `encoding_rs::Encoding::decode` on `encoding_rs::SHIFT_JIS`.
/// Trusted: the text returned is a function of the bytes alone, named
/// `shift_jis_text`; nothing is claimed of what that text holds. The call
/// never reports an error; it panics only where the size of its buffer
/// cannot be had, which the bound on the input rules out.
#[verifier::external_body]
pub(crate) fn decode_shift_jis(bytes: &[u8]) -> (text: String)
    requires
        bytes@.len() <= MAX_SHEET_BYTES,
    ensures
        text@ == shift_jis_text(bytes@),
{
    let (decoded, _, _) = encoding_rs::SHIFT_JIS.decode(bytes);
    decoded.into_owned()
}

} // verus!
