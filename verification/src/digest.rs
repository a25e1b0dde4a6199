//! SHA-256 digests of secrets, as the hexadecimal text that is stored.

use vstd::prelude::*;

use vstd::utf8::encode_utf8;

use crate::text::is_lower_hex;

verus! {

/// The lower-case hexadecimal SHA-256 digest of `bytes`.
pub uninterp spec fn sha256_hex(bytes: Seq<u8>) -> Seq<char>;

/// Calls `sha2::Sha256::digest` on the UTF-8 bytes of `value` and formats the
/// 32-byte digest with `{:x}`, which writes two lower-case hexadecimal digits
/// per byte. The contract names the result and states its shape: 64
/// characters, each `0-9` or `a-f`.
#[verifier::external_body]
fn sha256_hex_of(value: &str) -> (hex: String)
    ensures
        hex@ == sha256_hex(encode_utf8(value@)),
        hex@.len() == 64,
        forall|i: int| 0 <= i < hex@.len() ==> is_lower_hex(#[trigger] hex@[i]),
{
    format!("{:x}", <sha2::Sha256 as sha2::Digest>::digest(value.as_bytes()))
}

/// The stored form of a secret: its SHA-256 digest in lower-case hex.
pub fn hash_secret(value: &str) -> (hex: String)
    ensures
        hex@ == sha256_hex(encode_utf8(value@)),
        hex@.len() == 64,
        forall|i: int| 0 <= i < hex@.len() ==> is_lower_hex(#[trigger] hex@[i]),
{
    sha256_hex_of(value)
}

} // verus!
