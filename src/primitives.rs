use vstd::prelude::*;
use vstd::string::StringSliceAdditionalSpecFns;
use vstd::utf8::valid_utf8;

verus! {

/// The 32-byte BLAKE3 digest of `message`.
pub uninterp spec fn blake3_of(message: Seq<u8>) -> Seq<u8>;

/// Relies on blake3::hash: the BLAKE3 digest of `message`, 32 bytes that
/// depend on the message bytes alone.
#[verifier::external_body]
pub(crate) fn blake3_digest(message: &[u8]) -> (r: [u8; 32])
    ensures
        r@ == blake3_of(message@),
        r@.len() == 32,
{
    *blake3::hash(message).as_bytes()
}

/// Relies on std::str::from_utf8: it accepts exactly the byte sequences that
/// are valid UTF-8, and the text it returns holds those same bytes.
#[verifier::external_body]
pub(crate) fn utf8_text(bytes: &[u8]) -> (r: Option<&str>)
    ensures
        r is Some <==> valid_utf8(bytes@),
        r matches Some(s) ==> s.spec_bytes() == bytes@,
{
    std::str::from_utf8(bytes).ok()
}

} // verus!
