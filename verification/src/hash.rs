//! SHA-256 digests and their hexadecimal form.

use sha2::{Digest, Sha256};
use vstd::prelude::*;

verus! {

/// Number of bytes in a SHA-256 digest.
pub const DIGEST_LEN: usize = 32;

/// Number of characters in the hexadecimal form of a SHA-256 digest.
pub const HASH_HEX_LEN: usize = 2 * DIGEST_LEN;

/// The SHA-256 digest of a message.
///
/// The digest is computed by the `sha2` crate; here it is only named. All that
/// is assumed of it is that it is a function of the message bytes.
pub uninterp spec fn sha256(message: Seq<u8>) -> Seq<u8>;

/// Calls `Digest::digest` of the `sha2` crate on `Sha256`: a fresh hasher is
/// fed the whole message once and finalised.
///
/// Trusted: the bytes that come back are the SHA-256 digest of `message`.
/// That there are 32 of them is carried by the type of the result.
#[verifier::external_body]
fn sha256_digest(message: &[u8]) -> (digest: [u8; DIGEST_LEN])
    ensures
        digest@ == sha256(message@),
{
    Sha256::digest(message).into()
}

/// The lowercase hexadecimal character for a value below sixteen.
pub open spec fn hex_digit(value: nat) -> char
    recommends
        value < 16,
{
    if value < 10 {
        ('0' as nat + value) as char
    } else {
        ('a' as nat + (value - 10)) as char
    }
}

/// Lowercase hexadecimal form of a byte string: two characters per byte, the
/// high half first.
pub open spec fn hex(bytes: Seq<u8>) -> Seq<char> {
    Seq::new(
        2 * bytes.len(),
        |i: int|
            if i % 2 == 0 {
                hex_digit((bytes[i / 2] / 16) as nat)
            } else {
                hex_digit((bytes[i / 2] % 16) as nat)
            },
    )
}

/// Whether `c` is one of the characters `0` to `9` and `a` to `f`.
pub open spec fn is_lower_hex_digit(c: char) -> bool {
    ('0' <= c && c <= '9') || ('a' <= c && c <= 'f')
}

/// The hexadecimal form has two characters for each byte, all of them
/// lowercase hexadecimal digits.
pub proof fn lemma_hex_shape(bytes: Seq<u8>)
    ensures
        hex(bytes).len() == 2 * bytes.len(),
        forall|i: int| 0 <= i < hex(bytes).len() ==> is_lower_hex_digit(#[trigger] hex(bytes)[i]),
{
}

/// The hexadecimal SHA-256 digest of a text, taken over its UTF-8 bytes.
pub open spec fn sha256_hex(text: Seq<char>) -> Seq<char> {
    hex(sha256(vstd::utf8::encode_utf8(text)))
}

fn hex_char(value: u8) -> (c: char)
    requires
        value < 16,
    ensures
        c == hex_digit(value as nat),
{
    if value < 10 {
        ('0' as u8 + value) as char
    } else {
        ('a' as u8 + (value - 10)) as char
    }
}

/// Writes bytes as lowercase hexadecimal.
pub fn hex_encode(bytes: &[u8]) -> (text: String)
    ensures
        text@ == hex(bytes@),
{
    let mut text = String::new();
    let mut i: usize = 0;
    while i < bytes.len()
        invariant
            i <= bytes.len(),
            text@.len() == 2 * i,
            forall|k: int| 0 <= k < 2 * i ==> text@[k] == #[trigger] hex(bytes@)[k],
        decreases bytes.len() - i,
    {
        let byte: u8 = bytes[i];
        text.push(hex_char(byte / 16));
        text.push(hex_char(byte % 16));
        i = i + 1;
    }
    text
}

/// SHA-256 of a text, as 64 lowercase hexadecimal characters.
pub fn compute_sha256_hash(input: &str) -> (hash_hex: String)
    ensures
        hash_hex@ == sha256_hex(input@),
        hash_hex@.len() == HASH_HEX_LEN,
        forall|i: int| 0 <= i < hash_hex@.len() ==> is_lower_hex_digit(#[trigger] hash_hex@[i]),
{
    let digest = sha256_digest(input.as_bytes());
    proof {
        lemma_hex_shape(digest@);
    }
    hex_encode(digest.as_slice())
}

} // verus!
