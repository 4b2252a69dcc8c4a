use ledger_core::block::{meets_difficulty, Block};
use ledger_core::pow::proof_of_work;
use ledger_core::transaction::Transaction;

const EMPTY_ROOT: &str = "2e1cfa82b035c26cbbbdae632cea070514eb8b773f616aaeaf668e2f0be8f10d";
const GENESIS_HASH: &str = "f712e515f5ccd35b3c90d5eebd7402bb1df00b01db6e98b2e5a157d9483c1bd5";

fn payment(sender: &str, receiver: &str, amount: u64, signature: &str) -> Transaction {
    Transaction {
        sender: sender.to_string(),
        receiver: receiver.to_string(),
        amount,
        signature: signature.to_string(),
    }
}

#[test]
fn new_block_starts_unmined() {
    let block = Block::new(0, 1700000000, Vec::new(), "0".to_string());
    assert_eq!(block.index, 0);
    assert_eq!(block.timestamp, 1700000000);
    assert_eq!(block.transactions.len(), 0);
    assert_eq!(block.previous_hash, "0");
    assert_eq!(block.nonce, 0);
    assert_eq!(block.merkle_root, EMPTY_ROOT);
    assert_eq!(block.hash, GENESIS_HASH);
}

#[test]
fn new_block_commits_to_its_transactions() {
    let batch = vec![payment("alice", "bob", 5, "sig1"), payment("bob", "carol", 7, "sig2")];
    let block = Block::new(1, 1700000100, batch, GENESIS_HASH.to_string());
    assert_eq!(
        block.merkle_root,
        "a4a424f9106907c180b21451d91635f0a4b57fcd564f6ff6deca0aebe8ad9654"
    );
    assert_eq!(block.transactions.len(), 2);
    assert_eq!(block.transactions[1].receiver, "carol");
    assert_eq!(
        block.hash,
        "fcfdc9a62b7249ab78b7b53fdb590d31ec3def855463901f2b308217e814c94e"
    );
}

#[test]
fn hash_covers_a_negative_timestamp_with_its_sign() {
    let mut block = Block::new(3, -42, Vec::new(), "abc".to_string());
    block.nonce = 7;
    assert_eq!(
        block.calculate_hash(),
        "ccdd988a6d6b3e8df41b5a4e2fd98ceaea3926fb3048511f6aada15088700f6e"
    );
    assert_eq!(block.hash_with_nonce(7), block.calculate_hash());
}

#[test]
fn hash_changes_with_every_header_field() {
    let base = Block::new(1, 1700000100, Vec::new(), GENESIS_HASH.to_string());
    let unchanged = base.calculate_hash();
    let mut other = Block::new(1, 1700000100, Vec::new(), GENESIS_HASH.to_string());
    other.index = 2;
    assert_ne!(other.calculate_hash(), unchanged);
    other.index = 1;
    other.timestamp = 1700000101;
    assert_ne!(other.calculate_hash(), unchanged);
    other.timestamp = 1700000100;
    other.nonce = 1;
    assert_ne!(other.calculate_hash(), unchanged);
    other.nonce = 0;
    other.previous_hash = "1".to_string();
    assert_ne!(other.calculate_hash(), unchanged);
    other.previous_hash = GENESIS_HASH.to_string();
    other.merkle_root = "00".to_string();
    assert_ne!(other.calculate_hash(), unchanged);
    other.merkle_root = EMPTY_ROOT.to_string();
    other.transactions.push(payment("a", "b", 1, "s"));
    assert_ne!(other.calculate_hash(), unchanged);
    other.transactions.pop();
    assert_eq!(other.calculate_hash(), unchanged);
}

#[test]
fn difficulty_zero_leaves_the_block_alone() {
    let mut block = Block::new(1, 1700000100, Vec::new(), GENESIS_HASH.to_string());
    let before = block.hash.clone();
    assert!(block.mine_block(0));
    assert_eq!(block.nonce, 0);
    assert_eq!(block.hash, before);
}

#[test]
fn mining_finds_the_first_fitting_nonce() {
    let mut block = Block::new(1, 1700000100, Vec::new(), GENESIS_HASH.to_string());
    assert!(block.mine_block(1));
    assert_eq!(block.nonce, 19);
    assert_eq!(
        block.hash,
        "0a24cb57c08fe8473d771950eed3652874805028edba8ddbdf2742a48ed471d3"
    );
    assert_eq!(block.hash, block.calculate_hash());
    assert!(block.mine_block(2));
    assert_eq!(block.nonce, 229);
    assert_eq!(
        block.hash,
        "00d6f6ad774ca5df7f8271a2a881f202a65aa521821c9099f24ef79ca1e48142"
    );
}

#[test]
fn mined_hash_starts_with_the_zeros_asked_for() {
    let mut block = Block::new(1, 1700000100, Vec::new(), GENESIS_HASH.to_string());
    assert!(block.mine_block(3));
    assert_eq!(block.nonce, 1304);
    assert!(block.hash.starts_with("000"));
    assert!(meets_difficulty(&block.hash, 3));
    assert_eq!(block.hash, block.calculate_hash());
}

#[test]
fn mining_again_at_a_met_difficulty_changes_nothing() {
    let mut block = Block::new(1, 1700000100, Vec::new(), GENESIS_HASH.to_string());
    assert!(block.mine_block(2));
    let nonce = block.nonce;
    let hash = block.hash.clone();
    assert!(block.mine_block(2));
    assert!(block.mine_block(1));
    assert_eq!(block.nonce, nonce);
    assert_eq!(block.hash, hash);
}

#[test]
fn mining_keeps_the_body() {
    let batch = vec![payment("alice", "bob", 5, "sig1"), payment("bob", "carol", 7, "sig2")];
    let mut block = Block::new(1, 1700000100, batch, GENESIS_HASH.to_string());
    assert!(block.mine_block(2));
    assert_eq!(block.nonce, 149);
    assert_eq!(
        block.hash,
        "002a9ab9e4527c930d667a40efa53e5bd8c3471605af2fbb3eef936d903c6425"
    );
    assert_eq!(block.index, 1);
    assert_eq!(block.timestamp, 1700000100);
    assert_eq!(block.previous_hash, GENESIS_HASH);
    assert_eq!(block.transactions.len(), 2);
    assert_eq!(block.transactions[0].sender, "alice");
}

#[test]
fn proof_of_work_is_the_same_search() {
    let mut block = Block::new(1, 1700000100, Vec::new(), GENESIS_HASH.to_string());
    assert!(proof_of_work(&mut block, 1));
    assert_eq!(block.nonce, 19);
    assert!(meets_difficulty(&block.hash, 1));
}

#[test]
fn zero_prefix_is_counted_in_characters() {
    assert!(meets_difficulty("", 0));
    assert!(meets_difficulty("abc", 0));
    assert!(meets_difficulty("00a", 2));
    assert!(!meets_difficulty("00a", 3));
    assert!(!meets_difficulty("00", 3));
    assert!(!meets_difficulty("a00", 1));
    assert!(meets_difficulty("000", 3));
}

#[test]
fn search_gives_up_after_the_largest_nonce() {
    let mut block = Block::new(1, 1700000100, Vec::new(), GENESIS_HASH.to_string());
    block.nonce = u64::MAX - 2;
    block.hash = block.calculate_hash();
    let hash = block.hash.clone();
    assert!(!block.mine_block(64));
    assert_eq!(block.nonce, u64::MAX - 2);
    assert_eq!(block.hash, hash);
    assert!(block.mine_block(0));
    assert_eq!(block.nonce, u64::MAX - 2);
}

#[test]
fn search_starts_after_the_stored_nonce() {
    let mut block = Block::new(1, 1700000100, Vec::new(), GENESIS_HASH.to_string());
    block.nonce = 19;
    block.hash = "ff".to_string();
    assert!(block.mine_block(1));
    assert!(block.nonce > 19);
    assert!(block.hash.starts_with("0"));
    assert_eq!(block.hash, block.calculate_hash());
}

#[test]
fn clone_of_a_block_keeps_every_field() {
    let batch = vec![payment("alice", "bob", 5, "sig1")];
    let block = Block::new(4, 1700000100, batch, GENESIS_HASH.to_string());
    let copy = block.clone();
    assert_eq!(copy.index, 4);
    assert_eq!(copy.timestamp, 1700000100);
    assert_eq!(copy.previous_hash, GENESIS_HASH);
    assert_eq!(copy.hash, block.hash);
    assert_eq!(copy.nonce, 0);
    assert_eq!(copy.merkle_root, block.merkle_root);
    assert_eq!(copy.transactions.len(), 1);
    assert_eq!(copy.transactions[0].signature, "sig1");
}
