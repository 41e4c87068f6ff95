//! A one-way identity fingerprint: the BLAKE3 digest of `email ":" timestamp`,
//! rendered as 64 lowercase hexadecimal characters.

mod hex;
mod identity;
mod message;
mod primitives;

pub use hex::{digest_hex, hex_alphabet, hex_format, hex_spec, is_lower_hex};
pub use identity::{fingerprint_deterministic, fingerprint_spec, hash_identity};
pub use message::{canonical_message, canonical_message_injective, canonical_spec, decimal_spec};
pub use primitives::blake3_of;
