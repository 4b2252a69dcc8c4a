//! Blocks: a header that commits to a transaction list and to the previous
//! block, and the proof-of-work search over its nonce.

use crate::digest::{
    decimal, decimal_text, digest_of_text, hex_encode, hex_text, signed_decimal,
    signed_decimal_text, text_digest, DIGEST_HEX_LEN,
};
use crate::merkle_tree::{commitment_root, commitment_tree_digest, MerkleTree};
use crate::text::texts_of;
use crate::transaction::{
    transaction_text, transaction_texts, transaction_views, Transaction, TransactionView,
};
use vstd::prelude::*;

verus! {

/// A block of the chain.
#[derive(Debug)]
pub struct Block {
    pub index: u64,
    pub timestamp: i64,
    pub transactions: Vec<Transaction>,
    pub previous_hash: String,
    pub hash: String,
    pub nonce: u64,
    pub merkle_root: String,
}

/// Mathematical value of a block.
pub struct BlockView {
    pub index: u64,
    pub timestamp: i64,
    pub transactions: Seq<TransactionView>,
    pub previous_hash: Seq<char>,
    pub hash: Seq<char>,
    pub nonce: u64,
    pub merkle_root: Seq<char>,
}

impl View for Block {
    type V = BlockView;

    open spec fn view(&self) -> BlockView {
        BlockView {
            index: self.index,
            timestamp: self.timestamp,
            transactions: transaction_views(self.transactions@),
            previous_hash: self.previous_hash@,
            hash: self.hash@,
            nonce: self.nonce,
            merkle_root: self.merkle_root@,
        }
    }
}

impl Clone for Block {
    fn clone(&self) -> (copy: Self)
        ensures
            copy@ == self@,
    {
        let transactions = self.transactions.clone();
        assert(transactions@ =~= self.transactions@);
        Block {
            index: self.index,
            timestamp: self.timestamp,
            transactions,
            previous_hash: self.previous_hash.clone(),
            hash: self.hash.clone(),
            nonce: self.nonce,
            merkle_root: self.merkle_root.clone(),
        }
    }
}

/// The commitment root of a transaction list, in lowercase hexadecimal.
pub open spec fn merkle_root_text(transactions: Seq<TransactionView>) -> Seq<char> {
    hex_encode(commitment_root(transaction_texts(transactions)))
}

/// The canonical text of a header: index, timestamp, commitment root, number
/// of transactions, previous hash and nonce, in this order and with nothing
/// between them.
pub open spec fn header_text(block: BlockView) -> Seq<char> {
    decimal(block.index as nat) + signed_decimal(block.timestamp as int) + block.merkle_root
        + decimal(block.transactions.len()) + block.previous_hash + decimal(block.nonce as nat)
}

/// The hash that belongs to a header: the digest of its canonical text, in
/// lowercase hexadecimal.
pub open spec fn header_hash(block: BlockView) -> Seq<char> {
    hex_encode(text_digest(header_text(block)))
}

/// The block with another nonce.
pub open spec fn with_nonce(block: BlockView, nonce: u64) -> BlockView {
    BlockView { nonce, ..block }
}

/// The first `count` characters of `text` exist and are all `'0'`.
pub open spec fn has_zero_prefix(text: Seq<char>, count: nat) -> bool {
    &&& count <= text.len()
    &&& forall|i: int| 0 <= i < count ==> text[i] == '0'
}

/// The header hash of `block` under `nonce` meets `difficulty`.
pub open spec fn nonce_meets(block: BlockView, nonce: u64, difficulty: nat) -> bool {
    has_zero_prefix(header_hash(with_nonce(block, nonce)), difficulty)
}

/// A search from `block` can end: its stored hash meets `difficulty`, or the
/// header hash under some later nonce does.
pub open spec fn mining_possible(block: BlockView, difficulty: nat) -> bool {
    ||| has_zero_prefix(block.hash, difficulty)
    ||| exists|nonce: u64| block.nonce < nonce && #[trigger] nonce_meets(block, nonce, difficulty)
}

/// `after` is what a successful search leaves of `before`: nothing changes
/// where the stored hash already meets `difficulty`; otherwise the nonce is
/// the first later one whose header hash meets it, and the hash is that hash.
pub open spec fn is_mining_result(before: BlockView, after: BlockView, difficulty: nat) -> bool {
    if has_zero_prefix(before.hash, difficulty) {
        after == before
    } else {
        &&& before.nonce < after.nonce
        &&& after == BlockView {
            nonce: after.nonce,
            hash: header_hash(with_nonce(before, after.nonce)),
            ..before
        }
        &&& has_zero_prefix(after.hash, difficulty)
        &&& forall|nonce: u64|
            before.nonce < nonce < after.nonce ==> !#[trigger] nonce_meets(
                before,
                nonce,
                difficulty,
            )
    }
}

/// A block that stored the hash of its header before a successful search
/// stores the hash of its header after it, and that hash meets the
/// difficulty. Nothing but nonce and hash has changed.
pub proof fn mined_block_stores_its_hash(before: BlockView, after: BlockView, difficulty: nat)
    requires
        before.hash == header_hash(before),
        is_mining_result(before, after, difficulty),
    ensures
        after.hash == header_hash(after),
        has_zero_prefix(after.hash, difficulty),
        after == (BlockView { nonce: after.nonce, hash: after.hash, ..before }),
{
}

/// Whether the first `difficulty` characters of `hash` are all `'0'`.
pub fn meets_difficulty(hash: &str, difficulty: usize) -> (met: bool)
    ensures
        met == has_zero_prefix(hash@, difficulty as nat),
{
    let len = hash.unicode_len();
    if difficulty > len {
        return false;
    }
    let mut i: usize = 0;
    while i < difficulty
        invariant
            i <= difficulty <= len,
            len == hash@.len(),
            forall|j: int| 0 <= j < i ==> hash@[j] == '0',
        decreases difficulty - i,
    {
        if hash.get_char(i) != '0' {
            return false;
        }
        i += 1;
    }
    true
}

impl Block {
    /// A block that has not been mined: nonce zero, the commitment root of
    /// `transactions`, and the hash of that header.
    pub fn new(
        index: u64,
        timestamp: i64,
        transactions: Vec<Transaction>,
        previous_hash: String,
    ) -> (block: Block)
        ensures
            block@ == Self::fresh(
                index,
                timestamp,
                transaction_views(transactions@),
                previous_hash@,
            ),
            block.transactions == transactions,
    {
        let ghost views = transaction_views(transactions@);
        let mut texts: Vec<String> = Vec::new();
        let mut i: usize = 0;
        while i < transactions.len()
            invariant
                i <= transactions@.len(),
                views == transaction_views(transactions@),
                texts@.len() == i,
                forall|j: int| 0 <= j < i ==> (#[trigger] texts@[j])@ == transaction_text(views[j]),
            decreases transactions@.len() - i,
        {
            texts.push(transactions[i].to_string());
            i += 1;
        }
        assert(texts_of(texts@) =~= transaction_texts(views));
        let tree = MerkleTree::new(texts);
        proof {
            commitment_tree_digest(transaction_texts(views));
        }
        let merkle_root = match tree.root_hash() {
            Some(root) => hex_text(root.as_slice()),
            None => String::new(),
        };
        let mut block = Block {
            index,
            timestamp,
            transactions,
            previous_hash,
            hash: String::new(),
            nonce: 0,
            merkle_root,
        };
        block.hash = block.calculate_hash();
        block
    }

    /// The value of a block that has not been mined.
    pub open spec fn fresh(
        index: u64,
        timestamp: i64,
        transactions: Seq<TransactionView>,
        previous_hash: Seq<char>,
    ) -> BlockView {
        let unhashed = BlockView {
            index,
            timestamp,
            transactions,
            previous_hash,
            hash: Seq::empty(),
            nonce: 0,
            merkle_root: merkle_root_text(transactions),
        };
        BlockView { hash: header_hash(unhashed), ..unhashed }
    }

    /// The hash that the header would have under `nonce`.
    pub fn hash_with_nonce(&self, nonce: u64) -> (hash: String)
        ensures
            hash@ == header_hash(with_nonce(self@, nonce)),
            hash@.len() == DIGEST_HEX_LEN,
    {
        let mut text = decimal_text(self.index);
        let timestamp = signed_decimal_text(self.timestamp);
        text.append(timestamp.as_str());
        text.append(self.merkle_root.as_str());
        let count = decimal_text(self.transactions.len() as u64);
        text.append(count.as_str());
        text.append(self.previous_hash.as_str());
        let nonce_text = decimal_text(nonce);
        text.append(nonce_text.as_str());
        assert(text@ == header_text(with_nonce(self@, nonce)));
        let digest = digest_of_text(text.as_str());
        hex_text(digest.as_slice())
    }

    /// The hash that belongs to the header as it stands.
    pub fn calculate_hash(&self) -> (hash: String)
        ensures
            hash@ == header_hash(self@),
            hash@.len() == DIGEST_HEX_LEN,
    {
        assert(with_nonce(self@, self.nonce) == self@);
        self.hash_with_nonce(self.nonce)
    }

    /// Searches for a nonce under which the header hash starts with
    /// `difficulty` zeros. Where the stored hash already does, nothing
    /// changes. Otherwise later nonces are tried in order; the first that
    /// fits is stored with its hash. Returns `false`, with the block
    /// unchanged, where no nonce up to the largest fits. No hash has more
    /// than `DIGEST_HEX_LEN` characters, so `difficulty` may not exceed that.
    pub fn mine_block(&mut self, difficulty: usize) -> (mined: bool)
        requires
            difficulty <= DIGEST_HEX_LEN,
        ensures
            mined == mining_possible(old(self)@, difficulty as nat),
            mined ==> is_mining_result(old(self)@, final(self)@, difficulty as nat),
            mined ==> has_zero_prefix(final(self).hash@, difficulty as nat),
            !mined ==> *final(self) == *old(self),
            has_zero_prefix(old(self).hash@, difficulty as nat) ==> *final(self) == *old(self),
            difficulty == 0 ==> mined && *final(self) == *old(self),
            final(self).transactions == old(self).transactions,
    {
        if meets_difficulty(self.hash.as_str(), difficulty) {
            return true;
        }
        let mut nonce = self.nonce;
        while nonce < u64::MAX
            invariant
                *self == *old(self),
                self.nonce <= nonce,
                !has_zero_prefix(self.hash@, difficulty as nat),
                forall|n: u64|
                    self.nonce < n <= nonce ==> !#[trigger] nonce_meets(
                        self@,
                        n,
                        difficulty as nat,
                    ),
            decreases u64::MAX - nonce,
        {
            nonce += 1;
            let candidate = self.hash_with_nonce(nonce);
            if meets_difficulty(candidate.as_str(), difficulty) {
                assert(nonce_meets(old(self)@, nonce, difficulty as nat));
                self.nonce = nonce;
                self.hash = candidate;
                return true;
            }
        }
        false
    }
}

} // verus!
