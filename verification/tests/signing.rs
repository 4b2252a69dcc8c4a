use ledger_core::keys::key_pair_from_document;
use ledger_core::transaction::{generate_key_pair, Transaction};
use ledger_core::wallet::Wallet;
use ring::signature::{Ed25519KeyPair, KeyPair};

const SEED: &str = "9d61b19deffd5a60ba844af492ec2cc44449c5697b326919703bac031cae7f60";
const PUBLIC_KEY: &str = "d75a980182b10ab7d54bfed3c964073a0ee172f3daa62325af021a68f707511a";
const PAYMENT_SIGNATURE: &str = "dd979ffa5f9b268d9f6115119186fac57a380f359b5d2a888ad4306f6325ba41c6c7c9f27b44497f1210c186b248f49e67fa2855747d20845a9cc92b04def40c";
const EMPTY_SIGNATURE: &str = "e5564300c360ac729086e2cc806e828a84877f1eb8e5d974d873e065224901555fb8821590a33bacc61e39701cf9b46bd25bf5f0595bbe24655141438e7a100b";

fn known_key_pair() -> Ed25519KeyPair {
    Ed25519KeyPair::from_seed_unchecked(&hex::decode(SEED).unwrap()).unwrap()
}

#[test]
fn new_transaction_is_signed_over_its_message() {
    let key_pair = known_key_pair();
    let tx = Transaction::new(PUBLIC_KEY.to_string(), "bob".to_string(), 25, &key_pair);
    assert_eq!(tx.sender, PUBLIC_KEY);
    assert_eq!(tx.receiver, "bob");
    assert_eq!(tx.amount, 25);
    assert_eq!(tx.signature, PAYMENT_SIGNATURE);
    assert!(tx.verify());
}

#[test]
fn sign_replaces_the_signature_only() {
    let key_pair = known_key_pair();
    let mut tx = Transaction {
        sender: PUBLIC_KEY.to_string(),
        receiver: "bob".to_string(),
        amount: 25,
        signature: "old".to_string(),
    };
    tx.sign(&key_pair);
    assert_eq!(tx.signature, PAYMENT_SIGNATURE);
    assert_eq!(tx.signature.len(), 128);
    assert_eq!(tx.sender, PUBLIC_KEY);
    assert_eq!(tx.receiver, "bob");
    assert_eq!(tx.amount, 25);
}

#[test]
fn set_signature_writes_lowercase_hex() {
    let mut tx = Transaction {
        sender: "a".to_string(),
        receiver: "b".to_string(),
        amount: 1,
        signature: String::new(),
    };
    tx.set_signature(&[0x00, 0x0f, 0xab, 0xff]);
    assert_eq!(tx.signature, "000fabff");
    assert_eq!(tx.sender, "a");
    assert_eq!(tx.receiver, "b");
    assert_eq!(tx.amount, 1);
}

#[test]
fn changed_transaction_does_not_verify() {
    let key_pair = known_key_pair();
    let tx = Transaction::new(PUBLIC_KEY.to_string(), "bob".to_string(), 25, &key_pair);
    let mut more = tx.clone();
    more.amount = 26;
    assert!(!more.verify());
    let mut other = tx.clone();
    other.receiver = "eve".to_string();
    assert!(!other.verify());
    let mut unsigned = tx.clone();
    unsigned.signature = EMPTY_SIGNATURE.to_string();
    assert!(!unsigned.verify());
    assert!(tx.verify());
}

#[test]
fn signature_in_upper_case_verifies() {
    let key_pair = known_key_pair();
    let mut tx = Transaction::new(PUBLIC_KEY.to_string(), "bob".to_string(), 25, &key_pair);
    tx.signature = tx.signature.to_uppercase();
    assert!(tx.verify());
}

#[test]
fn text_that_is_not_hexadecimal_does_not_verify() {
    let key_pair = known_key_pair();
    let signed = Transaction::new(PUBLIC_KEY.to_string(), "bob".to_string(), 25, &key_pair);
    let mut odd = signed.clone();
    odd.signature.pop();
    assert!(!odd.verify());
    let mut letters = signed.clone();
    letters.signature = "zz".to_string();
    assert!(!letters.verify());
    let named = Transaction::new("alice".to_string(), "bob".to_string(), 25, &key_pair);
    assert!(!named.verify());
    let empty = Transaction {
        sender: String::new(),
        receiver: String::new(),
        amount: 0,
        signature: String::new(),
    };
    assert!(!empty.verify());
}

#[test]
fn generated_key_pairs_sign_and_differ() {
    let first = Wallet { key_pair: generate_key_pair().unwrap() };
    let second = Wallet { key_pair: generate_key_pair().unwrap() };
    assert_ne!(first.address(), second.address());
    let tx = Transaction::new(first.address(), second.address(), 7, &first.key_pair);
    assert!(tx.verify());
    let forged = Transaction::new(first.address(), second.address(), 7, &second.key_pair);
    assert!(!forged.verify());
}

#[test]
fn wallet_address_is_the_public_key_in_hex() {
    let wallet = Wallet { key_pair: known_key_pair() };
    assert_eq!(wallet.address(), PUBLIC_KEY);
}

#[test]
fn wallet_signs_and_verifies() {
    let wallet = Wallet { key_pair: known_key_pair() };
    let signature = wallet.sign(b"");
    assert_eq!(hex::encode(&signature), EMPTY_SIGNATURE);
    assert!(wallet.verify(b"", &signature));
    assert!(!wallet.verify(b"x", &signature));
    assert!(!wallet.verify(b"", &signature[..63]));
    let other = wallet.sign(b"hello");
    assert_eq!(
        hex::encode(&other),
        "511ca497c4d4270b098b1afd5ae4e3b951a5da2c9da6e9c0528f5761883676e7df6e4c0f0e1b5a0a4444f4298b1882dd822fb1133cbd49abfb996c87cd5b8506"
    );
    assert!(!wallet.verify(b"", &other));
}

#[test]
fn new_wallet_has_its_own_address() {
    let wallet = Wallet::new().unwrap();
    let address = wallet.address();
    assert_eq!(address.len(), 64);
    assert!(address.chars().all(|c| c.is_ascii_hexdigit() && !c.is_ascii_uppercase()));
    let signature = wallet.sign(b"data");
    assert_eq!(signature.len(), 64);
    assert!(wallet.verify(b"data", &signature));
    let other = Wallet::new().unwrap();
    assert!(!other.verify(b"data", &signature));
}

#[test]
fn key_pair_is_read_from_an_accepted_document_only() {
    assert!(key_pair_from_document(None).is_none());
    assert!(key_pair_from_document(Some(Vec::new())).is_none());
    assert!(key_pair_from_document(Some(vec![1, 2, 3])).is_none());
    let rng = ring::rand::SystemRandom::new();
    let document = Ed25519KeyPair::generate_pkcs8(&rng).unwrap();
    let expected = Ed25519KeyPair::from_pkcs8(document.as_ref()).unwrap();
    let read = key_pair_from_document(Some(document.as_ref().to_vec())).unwrap();
    assert_eq!(read.public_key().as_ref(), expected.public_key().as_ref());
    let mut cut = document.as_ref().to_vec();
    cut.pop();
    assert!(key_pair_from_document(Some(cut)).is_none());
    let mut changed = document.as_ref().to_vec();
    let last = changed.len() - 1;
    changed[last] ^= 1;
    assert!(key_pair_from_document(Some(changed)).is_none());
}

#[test]
fn wallet_holds_the_key_pair_it_was_given() {
    assert!(Wallet::from_key_pair(None).is_none());
    let wallet = Wallet::from_key_pair(Some(known_key_pair())).unwrap();
    assert_eq!(wallet.address(), PUBLIC_KEY);
    assert_eq!(hex::encode(wallet.sign(b"")), EMPTY_SIGNATURE);
}
