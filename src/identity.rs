use vstd::prelude::*;
use vstd::utf8::valid_utf8;

use crate::hex::{digest_hex, hex_format, hex_spec, is_lower_hex};
use crate::message::{canonical_message, canonical_spec};
use crate::primitives::{blake3_digest, blake3_of, utf8_text};

verus! {

/// The fingerprint of `(email, timestamp)`: the BLAKE3 digest of the
/// canonical message, in lowercase hexadecimal.
pub open spec fn fingerprint_spec(email: Seq<u8>, timestamp: u64) -> Seq<char> {
    hex_spec(blake3_of(canonical_spec(email, timestamp)))
}

/// The same email bytes and timestamp always give the same fingerprint: it
/// is a function of the inputs alone.
pub proof fn fingerprint_deterministic(e1: Seq<u8>, t1: u64, e2: Seq<u8>, t2: u64)
    requires
        e1 == e2,
        t1 == t2,
    ensures
        fingerprint_spec(e1, t1) == fingerprint_spec(e2, t2),
{
}

/// The identity fingerprint of `email` at `timestamp`.
///
/// An absent email, or one whose bytes are not valid UTF-8, gives `None`.
/// Otherwise the result is the 64-character lowercase hexadecimal BLAKE3
/// digest of `email ":" timestamp`.
pub fn hash_identity(email: Option<&[u8]>, timestamp: u64) -> (r: Option<String>)
    ensures
        r is Some <==> (email is Some && valid_utf8(email.unwrap()@)),
        r matches Some(s) ==> {
            &&& s@ == fingerprint_spec(email.unwrap()@, timestamp)
            &&& s@.len() == 64
            &&& forall|i: int| 0 <= i < s@.len() ==> is_lower_hex(#[trigger] s@[i])
        },
{
    let bytes = match email {
        Some(b) => b,
        None => return None,
    };
    let text = match utf8_text(bytes) {
        Some(t) => t,
        None => return None,
    };
    let message = canonical_message(text.as_bytes(), timestamp);
    let digest = blake3_digest(message.as_slice());
    let hex = digest_hex(&digest);
    proof {
        hex_format(digest@);
    }
    Some(hex)
}

} // verus!
