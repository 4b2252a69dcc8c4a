use ledger_core::merkle_tree::MerkleTree;
use ledger_core::transaction::Transaction;
use ledger_core::utils::calculate_hash;

fn transfer(sender: &str, receiver: &str, amount: u64, signature: &str) -> Transaction {
    Transaction {
        sender: sender.to_string(),
        receiver: receiver.to_string(),
        amount,
        signature: signature.to_string(),
    }
}

fn sample_texts() -> Vec<String> {
    vec![
        transfer("alice", "bob", 5, "sig1").to_string(),
        transfer("bob", "carol", 7, "sig2").to_string(),
        transfer("carol", "dave", 1, "sig3").to_string(),
    ]
}

fn root_hex(texts: Vec<String>) -> String {
    hex::encode(MerkleTree::new(texts).root_hash().unwrap())
}

#[test]
fn empty_list_has_the_sentinel_root() {
    assert_eq!(
        root_hex(Vec::new()),
        "2e1cfa82b035c26cbbbdae632cea070514eb8b773f616aaeaf668e2f0be8f10d"
    );
}

#[test]
fn single_text_root_is_its_digest() {
    let texts = sample_texts();
    assert_eq!(
        root_hex(vec![texts[0].clone()]),
        "7a851e8cc5b3001c00c127f82ba3b4ca08eae56d11ee1b0ce0bae38a166c8328"
    );
}

#[test]
fn two_texts_are_hashed_left_then_right() {
    let texts = sample_texts();
    assert_eq!(
        root_hex(vec![texts[0].clone(), texts[1].clone()]),
        "a4a424f9106907c180b21451d91635f0a4b57fcd564f6ff6deca0aebe8ad9654"
    );
}

#[test]
fn odd_last_text_is_paired_with_itself() {
    assert_eq!(
        root_hex(sample_texts()),
        "0811e9f8110c6e7b129b292672af2d343ccd4bfcf7c2d4eac1ec72b9fc330fe4"
    );
}

#[test]
fn same_list_gives_same_root() {
    assert_eq!(root_hex(sample_texts()), root_hex(sample_texts()));
}

#[test]
fn reordering_changes_the_root() {
    let texts = sample_texts();
    let swapped = vec![texts[1].clone(), texts[0].clone()];
    assert_eq!(
        root_hex(swapped),
        "2bc3aec5bef6083e0ba91adda0871a07b41756c08a7983bc188e813450bdabc0"
    );
    assert_ne!(
        root_hex(vec![texts[0].clone(), texts[1].clone()]),
        root_hex(vec![texts[1].clone(), texts[0].clone()])
    );
}

#[test]
fn leaf_and_node_digests_match_sha256() {
    let leaf = MerkleTree::hash_leaf("empty");
    assert_eq!(
        hex::encode(&leaf),
        "2e1cfa82b035c26cbbbdae632cea070514eb8b773f616aaeaf668e2f0be8f10d"
    );
    let left = MerkleTree::hash_leaf(&sample_texts()[0]);
    let right = MerkleTree::hash_leaf(&sample_texts()[1]);
    let node = MerkleTree::hash_nodes(&left, &right);
    assert_eq!(
        hex::encode(&node),
        "a4a424f9106907c180b21451d91635f0a4b57fcd564f6ff6deca0aebe8ad9654"
    );
}

#[test]
fn tree_text_shows_the_root_in_hex() {
    let tree = MerkleTree::new(Vec::new());
    assert_eq!(
        tree.to_string(),
        "MerkleTree { root: 2e1cfa82b035c26cbbbdae632cea070514eb8b773f616aaeaf668e2f0be8f10d }"
    );
}

#[test]
fn transaction_text_names_every_field() {
    let tx = transfer("alice", "bob", 5, "sig1");
    assert_eq!(
        tx.to_string(),
        "sender: alice, receiver: bob, amount: 5, signature: sig1"
    );
    let large = transfer("a", "b", 18446744073709551615, "");
    assert_eq!(
        large.to_string(),
        "sender: a, receiver: b, amount: 18446744073709551615, signature: "
    );
}

#[test]
fn message_is_sender_receiver_amount() {
    let tx = transfer("alice", "bob", 120, "ignored");
    assert_eq!(tx.to_message(), b"alicebob120".to_vec());
    let zero = transfer("", "", 0, "");
    assert_eq!(zero.to_message(), b"0".to_vec());
}

#[test]
fn clone_keeps_every_field() {
    let tx = transfer("alice", "bob", 5, "sig1");
    let copy = tx.clone();
    assert_eq!(copy.sender, "alice");
    assert_eq!(copy.receiver, "bob");
    assert_eq!(copy.amount, 5);
    assert_eq!(copy.signature, "sig1");
}

#[test]
fn serialized_value_hash_is_hex_of_sha256() {
    assert_eq!(
        calculate_hash("{\"a\":1}"),
        "015abd7f5cc57a2dd94b7590f04ad8084273905ee33ec5cebeae62276a97f862"
    );
}

fn numbered(count: usize) -> Vec<String> {
    (0..count).map(|i| format!("tx{}", i)).collect()
}

#[test]
fn larger_lists_fold_level_by_level() {
    assert_eq!(
        root_hex(numbered(4)),
        "9db19fd4038d720fb19dec0f50cd6afbafe918851ddbb718773abff9783faeb0"
    );
    assert_eq!(
        root_hex(numbered(5)),
        "16eef23ee6e2c2a9a42a944da0f25b543af1d834b60e594d60c417ed4e38cb1a"
    );
    assert_eq!(
        root_hex(numbered(6)),
        "92844886d3328272f3825aa92a8d54343bd6e9619af6313cad62bbc62bfe9990"
    );
    assert_eq!(
        root_hex(numbered(7)),
        "d2c110e12bfb6fc669169ebd66d11e3ae64a6ddc24c5c18df03d96caba3f4e6c"
    );
}

#[test]
fn text_is_hashed_as_utf8() {
    assert_eq!(
        root_hex(vec!["é".to_string()]),
        "4a99557e4033c3539de2eb65472017cad5f9557f7a0625a09f1c3f6e2ba69c4c"
    );
}

#[test]
fn root_has_thirty_two_bytes() {
    assert_eq!(MerkleTree::new(numbered(3)).root_hash().unwrap().len(), 32);
    assert_eq!(MerkleTree::new(Vec::new()).root_hash().unwrap().len(), 32);
}
