//! Ed25519 keys and signatures, as the `ring` crate provides them, and the
//! hexadecimal text in which keys and signatures travel.
//!
//! A key pair is opaque here: the library carries it to the signing call and
//! learns nothing of what is inside. What a verification answers is named by
//! `ed25519_accepts`.

use crate::digest::{hex_digit, hex_encode};
use ring::signature::{Ed25519KeyPair, KeyPair};
use vstd::prelude::*;

verus! {

/// Number of bytes in an Ed25519 signature.
pub const SIGNATURE_LEN: usize = 64;

/// Number of bytes in an Ed25519 public key.
pub const PUBLIC_KEY_LEN: usize = 32;

#[verifier::external_type_specification]
#[verifier::external_body]
pub struct ExEd25519KeyPair(ring::signature::Ed25519KeyPair);

/// Whether `signature` is a valid Ed25519 signature of `message` under
/// `public_key`.
pub uninterp spec fn ed25519_accepts(
    public_key: Seq<u8>,
    message: Seq<u8>,
    signature: Seq<u8>,
) -> bool;

/// Whether `document` is an unencrypted Ed25519 private key in PKCS#8, second
/// version, whose public key fits its private key: what `ring` accepts as a
/// key pair.
pub uninterp spec fn pkcs8_accepted(document: Seq<u8>) -> bool;

/// The value of a hexadecimal digit of either case, and -1 for any other
/// character.
pub open spec fn hex_value(c: char) -> int {
    let code = c as u32 as int;
    if 48 <= code <= 57 {
        code - 48
    } else if 97 <= code <= 102 {
        code - 87
    } else if 65 <= code <= 70 {
        code - 55
    } else {
        -1
    }
}

/// The text is made of hexadecimal digits, two for a byte.
pub open spec fn is_hex_text(text: Seq<char>) -> bool {
    &&& text.len() % 2 == 0
    &&& forall|i: int| 0 <= i < text.len() ==> hex_value(#[trigger] text[i]) >= 0
}

/// The bytes that a hexadecimal text stands for, high nibble first, if it
/// is one.
pub open spec fn hex_decode(text: Seq<char>) -> Option<Seq<u8>> {
    if is_hex_text(text) {
        Some(
            Seq::new(
                text.len() / 2,
                |i: int| (16 * hex_value(text[2 * i]) + hex_value(text[2 * i + 1])) as u8,
            ),
        )
    } else {
        None
    }
}

/// Reading a hexadecimal digit gives back the value it was written for.
pub proof fn hex_value_of_digit(nibble: int)
    requires
        0 <= nibble < 16,
    ensures
        hex_value(hex_digit(nibble)) == nibble,
{
}

/// The hexadecimal form of a byte string is a hexadecimal text, and stands
/// for that byte string.
pub proof fn hex_decode_of_encode(bytes: Seq<u8>)
    ensures
        hex_decode(hex_encode(bytes)) == Some(bytes),
{
    let text = hex_encode(bytes);
    assert forall|i: int| 0 <= i < text.len() implies hex_value(#[trigger] text[i]) >= 0 by {
        let byte = bytes[i / 2] as int;
        hex_value_of_digit(byte / 16);
        hex_value_of_digit(byte % 16);
    }
    assert(is_hex_text(text));
    let decoded = hex_decode(text).unwrap();
    assert forall|k: int| 0 <= k < bytes.len() implies decoded[k] == bytes[k] by {
        let byte = bytes[k] as int;
        assert(text[2 * k] == hex_digit(byte / 16));
        assert(text[2 * k + 1] == hex_digit(byte % 16));
        hex_value_of_digit(byte / 16);
        hex_value_of_digit(byte % 16);
    }
    assert(decoded =~= bytes);
}

/// Calls `hex::decode`. Trusted: a text of an even number of hexadecimal
/// digits, of either case, gives the bytes they stand for, and any other
/// text gives an error.
#[verifier::external_body]
pub(crate) fn hex_bytes(text: &str) -> (bytes: Option<Vec<u8>>)
    ensures
        match bytes {
            Some(decoded) => hex_decode(text@) == Some(decoded@),
            None => hex_decode(text@).is_none(),
        },
{
    hex::decode(text).ok()
}

/// Calls `ring::signature::Ed25519KeyPair::sign`. Trusted: a signature has
/// 64 bytes.
#[verifier::external_body]
pub(crate) fn sign_message(key_pair: &Ed25519KeyPair, message: &[u8]) -> (signature: Vec<u8>)
    ensures
        signature@.len() == SIGNATURE_LEN,
{
    key_pair.sign(message).as_ref().to_vec()
}

/// Calls `ring::signature::KeyPair::public_key` on an Ed25519 key pair.
/// Trusted: a public key has 32 bytes.
#[verifier::external_body]
pub(crate) fn public_key_bytes(key_pair: &Ed25519KeyPair) -> (public_key: Vec<u8>)
    ensures
        public_key@.len() == PUBLIC_KEY_LEN,
{
    key_pair.public_key().as_ref().to_vec()
}

/// Calls `ring::signature::UnparsedPublicKey::verify` for Ed25519. Trusted:
/// the answer is the one that `ed25519_accepts` names.
#[verifier::external_body]
pub(crate) fn signature_accepted(public_key: &[u8], message: &[u8], signature: &[u8]) -> (accepted:
    bool)
    ensures
        accepted == ed25519_accepts(public_key@, message@, signature@),
{
    ring::signature::UnparsedPublicKey::new(&ring::signature::ED25519, public_key)
        .verify(message, signature)
        .is_ok()
}

/// Calls `ring::signature::Ed25519KeyPair::generate_pkcs8` with the system's
/// random numbers. Nothing is promised of the document that comes back.
#[verifier::external_body]
pub(crate) fn random_pkcs8() -> (document: Option<Vec<u8>>) {
    let rng = ring::rand::SystemRandom::new();
    match Ed25519KeyPair::generate_pkcs8(&rng) {
        Ok(document) => Some(document.as_ref().to_vec()),
        Err(_) => None,
    }
}

/// Calls `ring::signature::Ed25519KeyPair::from_pkcs8`. Trusted: a key pair
/// comes back exactly for the documents that `pkcs8_accepted` names. Nothing
/// is promised of the key pair itself.
#[verifier::external_body]
pub(crate) fn key_pair_from_pkcs8(document: &[u8]) -> (key_pair: Option<Ed25519KeyPair>)
    ensures
        key_pair.is_some() == pkcs8_accepted(document@),
{
    Ed25519KeyPair::from_pkcs8(document).ok()
}

/// The key pair that a document holds: none where there is no document, and
/// none where the document is not an Ed25519 key in PKCS#8.
pub fn key_pair_from_document(document: Option<Vec<u8>>) -> (key_pair: Option<Ed25519KeyPair>)
    ensures
        key_pair.is_some() == match document {
            Some(bytes) => pkcs8_accepted(bytes@),
            None => false,
        },
{
    match document {
        Some(bytes) => key_pair_from_pkcs8(bytes.as_slice()),
        None => None,
    }
}

} // verus!
