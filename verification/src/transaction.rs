//! Transfers between addresses, as the ledger receives them: already signed,
//! with sender and signature kept as opaque text.

use crate::digest::{decimal, decimal_text, hex_encode, hex_text};
use crate::keys::{
    ed25519_accepts, hex_bytes, hex_decode, key_pair_from_document, pkcs8_accepted,
    random_pkcs8, sign_message, signature_accepted, SIGNATURE_LEN,
};
use ring::signature::Ed25519KeyPair;
use vstd::prelude::*;
use vstd::utf8::encode_utf8;

verus! {

/// A transfer of `amount` from `sender` to `receiver`.
#[derive(Debug)]
pub struct Transaction {
    pub sender: String,
    pub receiver: String,
    pub amount: u64,
    pub signature: String,
}

/// Mathematical value of a transaction.
pub struct TransactionView {
    pub sender: Seq<char>,
    pub receiver: Seq<char>,
    pub amount: u64,
    pub signature: Seq<char>,
}

impl View for Transaction {
    type V = TransactionView;

    open spec fn view(&self) -> TransactionView {
        TransactionView {
            sender: self.sender@,
            receiver: self.receiver@,
            amount: self.amount,
            signature: self.signature@,
        }
    }
}

impl Clone for Transaction {
    fn clone(&self) -> (copy: Self)
        ensures
            copy == *self,
    {
        Transaction {
            sender: self.sender.clone(),
            receiver: self.receiver.clone(),
            amount: self.amount,
            signature: self.signature.clone(),
        }
    }
}

/// The views of a list of transactions, in order.
pub open spec fn transaction_views(transactions: Seq<Transaction>) -> Seq<TransactionView> {
    Seq::new(transactions.len(), |i: int| transactions[i]@)
}

/// The text that a signature covers: sender, receiver and amount, with
/// nothing between them.
pub open spec fn message_text(tx: TransactionView) -> Seq<char> {
    tx.sender + tx.receiver + decimal(tx.amount as nat)
}

/// The text under which a transaction enters the commitment tree.
pub open spec fn transaction_text(tx: TransactionView) -> Seq<char> {
    "sender: "@ + tx.sender + ", receiver: "@ + tx.receiver + ", amount: "@ + decimal(
        tx.amount as nat,
    ) + ", signature: "@ + tx.signature
}

/// The commitment texts of a list of transactions, in order.
pub open spec fn transaction_texts(transactions: Seq<TransactionView>) -> Seq<Seq<char>> {
    Seq::new(transactions.len(), |i: int| transaction_text(transactions[i]))
}

/// The text is the hexadecimal form of a signature.
pub open spec fn is_signature_text(text: Seq<char>) -> bool {
    exists|signature: Seq<u8>|
        signature.len() == SIGNATURE_LEN && text == #[trigger] hex_encode(signature)
}

/// The signature of `tx` is one of its message under its sender, both read
/// as hexadecimal text. A sender or a signature that is no such text holds
/// for nothing.
pub open spec fn signature_holds(tx: TransactionView) -> bool {
    match (hex_decode(tx.sender), hex_decode(tx.signature)) {
        (Some(public_key), Some(signature)) => ed25519_accepts(
            public_key,
            encode_utf8(message_text(tx)),
            signature,
        ),
        _ => false,
    }
}

/// A new key pair, read from a key document of the system's random numbers:
/// it comes back only where the system gave one and it was accepted.
pub fn generate_key_pair() -> (key_pair: Option<Ed25519KeyPair>)
    ensures
        key_pair.is_some() ==> exists|document: Seq<u8>| #[trigger] pkcs8_accepted(document),
{
    let document = random_pkcs8();
    let key_pair = key_pair_from_document(document);
    proof {
        if key_pair.is_some() {
            assert(pkcs8_accepted(document.unwrap()@));
        }
    }
    key_pair
}

impl Transaction {
    /// A transaction signed with `key_pair`.
    pub fn new(sender: String, receiver: String, amount: u64, key_pair: &Ed25519KeyPair) -> (tx:
        Transaction)
        ensures
            tx.sender == sender,
            tx.receiver == receiver,
            tx.amount == amount,
            is_signature_text(tx.signature@),
    {
        let mut transaction = Transaction { sender, receiver, amount, signature: String::new() };
        transaction.sign(key_pair);
        transaction
    }

    /// Signs the message of the transaction with `key_pair` and stores the
    /// signature as hexadecimal text.
    pub fn sign(&mut self, key_pair: &Ed25519KeyPair)
        ensures
            final(self).sender == old(self).sender,
            final(self).receiver == old(self).receiver,
            final(self).amount == old(self).amount,
            is_signature_text(final(self).signature@),
    {
        let message = self.to_message();
        let signature = sign_message(key_pair, message.as_slice());
        self.set_signature(signature.as_slice());
    }

    /// Stores `signature` as hexadecimal text.
    pub fn set_signature(&mut self, signature: &[u8])
        ensures
            final(self)@ == (TransactionView {
                signature: hex_encode(signature@),
                ..old(self)@
            }),
            final(self).sender == old(self).sender,
            final(self).receiver == old(self).receiver,
    {
        self.signature = hex_text(signature);
    }

    /// Whether the signature is one of the message under the sender, which
    /// doubles as the public key.
    pub fn verify(&self) -> (valid: bool)
        ensures
            valid == signature_holds(self@),
    {
        let message = self.to_message();
        match hex_bytes(self.sender.as_str()) {
            Some(public_key) => match hex_bytes(self.signature.as_str()) {
                Some(signature) => signature_accepted(
                    public_key.as_slice(),
                    message.as_slice(),
                    signature.as_slice(),
                ),
                None => false,
            },
            None => false,
        }
    }

    /// The bytes that a signature covers.
    pub fn to_message(&self) -> (message: Vec<u8>)
        ensures
            message@ == encode_utf8(message_text(self@)),
    {
        let mut text = self.sender.clone();
        text.append(self.receiver.as_str());
        let amount = decimal_text(self.amount);
        text.append(amount.as_str());
        text.as_str().as_bytes_vec()
    }

    /// The transaction as text, with every field named.
    pub fn to_string(&self) -> (text: String)
        ensures
            text@ == transaction_text(self@),
    {
        let mut text = String::from_str("sender: ");
        text.append(self.sender.as_str());
        text.append(", receiver: ");
        text.append(self.receiver.as_str());
        text.append(", amount: ");
        let amount = decimal_text(self.amount);
        text.append(amount.as_str());
        text.append(", signature: ");
        text.append(self.signature.as_str());
        text
    }
}

} // verus!
