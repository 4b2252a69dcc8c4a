//! A wallet: one Ed25519 key pair, whose public key in hexadecimal is the
//! wallet's address.

use crate::digest::{hex_encode, hex_text};
use crate::keys::{
    ed25519_accepts, pkcs8_accepted, public_key_bytes, sign_message, signature_accepted,
    PUBLIC_KEY_LEN, SIGNATURE_LEN,
};
use crate::transaction::generate_key_pair;
use ring::signature::Ed25519KeyPair;
use vstd::prelude::*;

verus! {

/// A key pair that signs for one address.
#[derive(Debug)]
pub struct Wallet {
    pub key_pair: Ed25519KeyPair,
}

/// The text is the hexadecimal form of a public key.
pub open spec fn is_address_text(text: Seq<char>) -> bool {
    exists|public_key: Seq<u8>|
        public_key.len() == PUBLIC_KEY_LEN && text == #[trigger] hex_encode(public_key)
}

impl Wallet {
    /// A wallet with a new key pair. A wallet comes back only where the
    /// system gave a key document and that document was accepted.
    pub fn new() -> (wallet: Option<Wallet>)
        ensures
            wallet.is_some() ==> exists|document: Seq<u8>| #[trigger] pkcs8_accepted(document),
    {
        Self::from_key_pair(generate_key_pair())
    }

    /// The wallet that holds `key_pair`, where there is one.
    pub fn from_key_pair(key_pair: Option<Ed25519KeyPair>) -> (wallet: Option<Wallet>)
        ensures
            match (key_pair, wallet) {
                (Some(given), Some(made)) => made.key_pair == given,
                (None, None) => true,
                _ => false,
            },
    {
        match key_pair {
            Some(key_pair) => Some(Wallet { key_pair }),
            None => None,
        }
    }

    /// The address: the public key in lowercase hexadecimal.
    pub fn address(&self) -> (address: String)
        ensures
            is_address_text(address@),
            address@.len() == 2 * PUBLIC_KEY_LEN,
    {
        let public_key = public_key_bytes(&self.key_pair);
        hex_text(public_key.as_slice())
    }

    /// The signature of `data` under the wallet's key.
    pub fn sign(&self, data: &[u8]) -> (signature: Vec<u8>)
        ensures
            signature@.len() == SIGNATURE_LEN,
    {
        sign_message(&self.key_pair, data)
    }

    /// Whether `signature` is one of `data` under the wallet's public key.
    pub fn verify(&self, data: &[u8], signature: &[u8]) -> (valid: bool)
        ensures
            exists|public_key: Seq<u8>|
                public_key.len() == PUBLIC_KEY_LEN && valid == #[trigger] ed25519_accepts(
                    public_key,
                    data@,
                    signature@,
                ),
    {
        let public_key = public_key_bytes(&self.key_pair);
        signature_accepted(public_key.as_slice(), data, signature)
    }
}

} // verus!
