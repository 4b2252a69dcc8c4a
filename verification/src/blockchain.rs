//! The ledger: a chain of blocks that starts at a genesis block, the balance
//! table that the chain's transactions and the mining rewards have produced,
//! and the two tables that the ledger hosts for contracts and for privacy
//! transactions.

use crate::balances::{
    balance_of, credit, credit_fits, first_unfunded, first_unfunded_at, first_unfunded_none,
    funded, settle, settle_keeps_others, settle_stops_at, transfer, transfer_fits,
};
use crate::block::{
    has_zero_prefix, header_hash, header_text, is_mining_result, mined_block_stores_its_hash,
    mining_possible, Block, BlockView,
};
use crate::digest::{current_timestamp, hex_encode_injective, text_digest, DIGEST_HEX_LEN};
use crate::smart_contract::{
    contract_after, contract_answer, result_texts, ContractView, SmartContract,
};
use crate::table::Table;
use crate::text::{same_text, texts_of};
use crate::transaction::{transaction_views, Transaction, TransactionView};
use vstd::prelude::*;

verus! {

/// What a miner receives for a block.
pub const MINING_REWARD: u64 = 50;

/// A privacy transaction as the ledger keeps it: the serialized proof and
/// the serialized key under which it was verified.
#[derive(Debug)]
pub struct PrivacyTransaction {
    pub proof: Vec<u8>,
    pub vk: Vec<u8>,
}

/// Mathematical value of a privacy transaction.
pub struct PrivacyTransactionView {
    pub proof: Seq<u8>,
    pub vk: Seq<u8>,
}

impl View for PrivacyTransaction {
    type V = PrivacyTransactionView;

    open spec fn view(&self) -> PrivacyTransactionView {
        PrivacyTransactionView { proof: self.proof@, vk: self.vk@ }
    }
}

/// Why a batch was not added to the chain.
#[derive(Debug, Clone, Copy, PartialEq, Eq, Structural)]
pub enum LedgerError {
    /// The sender of the transaction at this position holds less than its
    /// amount.
    InvalidTransaction(usize),
    /// Every sender holds its amount, but applied in order the batch would
    /// take a balance below zero or beyond `u64` at this position; the
    /// position after the last transaction stands for the reward.
    BalanceOutOfRange(usize),
    /// The tip has the largest index there is.
    IndexExhausted,
    /// No nonce gives the new block a hash that meets the difficulty.
    NonceExhausted,
}

/// What is wrong with a chain, and at which position.
#[derive(Debug, Clone, Copy, PartialEq, Eq, Structural)]
pub enum ChainFault {
    /// The stored hash of the block is not the hash of its header.
    HashMismatch(usize),
    /// The block does not name the stored hash of the block before it.
    BrokenLink(usize),
}

/// The ledger.
#[derive(Debug)]
pub struct Blockchain {
    pub chain: Vec<Block>,
    pub difficulty: usize,
    pub contracts: Table<SmartContract>,
    pub privacy_transactions: Vec<PrivacyTransaction>,
    pub balances: Table<u64>,
}

/// Mathematical value of the ledger.
pub struct BlockchainView {
    pub chain: Seq<BlockView>,
    pub difficulty: usize,
    pub contracts: Map<Seq<char>, ContractView>,
    pub privacy_transactions: Seq<PrivacyTransactionView>,
    pub balances: Map<Seq<char>, u64>,
}

/// The views of a list of blocks, in order.
pub open spec fn block_views(chain: Seq<Block>) -> Seq<BlockView> {
    Seq::new(chain.len(), |i: int| chain[i]@)
}

/// The views of a table of contracts.
pub open spec fn contract_views(contracts: Map<Seq<char>, SmartContract>) -> Map<
    Seq<char>,
    ContractView,
> {
    contracts.map_values(|contract: SmartContract| contract@)
}

/// The views of a list of privacy transactions, in order.
pub open spec fn privacy_views(list: Seq<PrivacyTransaction>) -> Seq<PrivacyTransactionView> {
    Seq::new(list.len(), |i: int| list[i]@)
}

impl View for Blockchain {
    type V = BlockchainView;

    open spec fn view(&self) -> BlockchainView {
        BlockchainView {
            chain: block_views(self.chain@),
            difficulty: self.difficulty,
            contracts: contract_views(self.contracts@),
            privacy_transactions: privacy_views(self.privacy_transactions@),
            balances: self.balances@,
        }
    }
}

/// What is wrong with the block at position `i`, which is not the first:
/// its stored hash is checked before its link.
pub open spec fn block_fault(chain: Seq<BlockView>, i: int) -> Option<ChainFault> {
    if chain[i].hash != header_hash(chain[i]) {
        Some(ChainFault::HashMismatch(i as usize))
    } else if chain[i].previous_hash != chain[i - 1].hash {
        Some(ChainFault::BrokenLink(i as usize))
    } else {
        None
    }
}

/// Every block after the first stores the hash of its header and names the
/// stored hash of the block before it.
pub open spec fn chain_valid(chain: Seq<BlockView>) -> bool {
    forall|i: int| 1 <= i < chain.len() ==> (#[trigger] block_fault(chain, i)).is_none()
}

/// The fault of the first block that has one, going from the second block
/// to the tip.
pub open spec fn first_fault(chain: Seq<BlockView>) -> Option<ChainFault>
    decreases chain.len(),
{
    if chain.len() <= 1 {
        None
    } else {
        match first_fault(chain.drop_last()) {
            Some(fault) => Some(fault),
            None => block_fault(chain, chain.len() - 1),
        }
    }
}

/// The genesis block made at `timestamp`: index zero, no transactions, and
/// `"0"` in place of a previous hash.
pub open spec fn genesis_view(timestamp: i64) -> BlockView {
    Block::fresh(0, timestamp, Seq::empty(), "0"@)
}

/// What `add_block_at` decides before it changes anything: the balance
/// table that the batch and the reward leave and the block that goes into
/// the search, or the reason for which the batch is refused.
pub open spec fn block_plan(
    ledger: BlockchainView,
    batch: Seq<TransactionView>,
    miner: Seq<char>,
    timestamp: i64,
) -> Result<(Map<Seq<char>, u64>, BlockView), LedgerError> {
    let tip = ledger.chain.last();
    match first_unfunded(ledger.balances, batch) {
        Some(i) => Err(LedgerError::InvalidTransaction(i as usize)),
        None => match settle(ledger.balances, batch) {
            Err(i) => Err(LedgerError::BalanceOutOfRange(i as usize)),
            Ok(settled) => if !credit_fits(settled, miner, MINING_REWARD) {
                Err(LedgerError::BalanceOutOfRange(batch.len() as usize))
            } else if tip.index == u64::MAX {
                Err(LedgerError::IndexExhausted)
            } else {
                let candidate = Block::fresh(
                    (tip.index + 1) as u64,
                    timestamp,
                    batch,
                    tip.hash,
                );
                if mining_possible(candidate, ledger.difficulty as nat) {
                    Ok((credit(settled, miner, MINING_REWARD), candidate))
                } else {
                    Err(LedgerError::NonceExhausted)
                }
            },
        },
    }
}

impl Blockchain {
    /// The genesis block, made now.
    pub fn create_genesis_block() -> (block: Block)
        ensures
            exists|timestamp: i64| block@ == genesis_view(timestamp),
    {
        let timestamp = current_timestamp();
        Self::genesis_block_at(timestamp)
    }

    /// The genesis block as made at `timestamp`.
    pub fn genesis_block_at(timestamp: i64) -> (block: Block)
        ensures
            block@ == genesis_view(timestamp),
    {
        let block = Block::new(0, timestamp, Vec::new(), String::from_str("0"));
        assert(transaction_views(Seq::<Transaction>::empty()) =~= Seq::<TransactionView>::empty());
        block
    }

    /// A ledger that holds a genesis block made now, and nothing else.
    pub fn new(difficulty: usize) -> (ledger: Blockchain)
        ensures
            exists|timestamp: i64| ledger@ == Self::initial(difficulty, timestamp),
            chain_valid(ledger@.chain),
    {
        let timestamp = current_timestamp();
        Self::new_at(difficulty, timestamp)
    }

    /// A ledger that holds a genesis block made at `timestamp`, and nothing
    /// else.
    pub fn new_at(difficulty: usize, timestamp: i64) -> (ledger: Blockchain)
        ensures
            ledger@ == Self::initial(difficulty, timestamp),
            chain_valid(ledger@.chain),
    {
        let mut chain: Vec<Block> = Vec::new();
        chain.push(Self::genesis_block_at(timestamp));
        let ledger = Blockchain {
            chain,
            difficulty,
            contracts: Table::new(),
            privacy_transactions: Vec::new(),
            balances: Table::new(),
        };
        assert(ledger@.chain =~= seq![genesis_view(timestamp)]);
        assert(ledger@.contracts =~= Map::<Seq<char>, ContractView>::empty());
        assert(ledger@.privacy_transactions =~= Seq::<PrivacyTransactionView>::empty());
        ledger
    }

    /// The value of a ledger with a genesis block and nothing else.
    pub open spec fn initial(difficulty: usize, timestamp: i64) -> BlockchainView {
        BlockchainView {
            chain: seq![genesis_view(timestamp)],
            difficulty,
            contracts: Map::empty(),
            privacy_transactions: Seq::empty(),
            balances: Map::empty(),
        }
    }

    /// The balance of `address`: zero where it was never set or credited.
    pub fn get_balance(&self, address: &str) -> (balance: u64)
        ensures
            balance == balance_of(self@.balances, address@),
    {
        match self.balances.get(address) {
            Some(balance) => *balance,
            None => 0,
        }
    }

    /// Gives `address` the balance `balance`, whatever it held.
    pub fn set_balance(&mut self, address: &str, balance: u64)
        ensures
            final(self)@ == (BlockchainView {
                balances: old(self)@.balances.insert(address@, balance),
                ..old(self)@
            }),
            final(self).chain == old(self).chain,
            final(self).contracts == old(self).contracts,
            final(self).privacy_transactions == old(self).privacy_transactions,
    {
        self.balances.insert(String::from_str(address), balance);
    }

    /// The tip of the chain.
    pub fn get_latest_block(&self) -> (block: &Block)
        requires
            self.chain@.len() > 0,
        ensures
            *block == self.chain@.last(),
            block@ == self@.chain.last(),
    {
        &self.chain[self.chain.len() - 1]
    }

    /// Whether the sender of `tx` holds its amount.
    pub fn is_transaction_valid(&self, tx: &Transaction) -> (valid: bool)
        ensures
            valid == funded(self@.balances, tx@),
    {
        let sender_balance = self.get_balance(tx.sender.as_str());
        sender_balance >= tx.amount
    }

    /// Whether `tx` can be applied to the balances as they stand.
    pub fn transaction_fits(&self, tx: &Transaction) -> (fits: bool)
        ensures
            fits == transfer_fits(self@.balances, tx@),
    {
        let sender_balance = self.get_balance(tx.sender.as_str());
        if sender_balance < tx.amount {
            return false;
        }
        if same_text(tx.sender.as_str(), tx.receiver.as_str()) {
            return true;
        }
        let receiver_balance = self.get_balance(tx.receiver.as_str());
        receiver_balance <= u64::MAX - tx.amount
    }

    /// Moves the amount of `tx` from its sender to its receiver.
    pub fn update_balances(&mut self, tx: &Transaction)
        requires
            transfer_fits(old(self)@.balances, tx@),
        ensures
            final(self)@ == (BlockchainView {
                balances: transfer(old(self)@.balances, tx@),
                ..old(self)@
            }),
            final(self).chain == old(self).chain,
            final(self).contracts == old(self).contracts,
            final(self).privacy_transactions == old(self).privacy_transactions,
    {
        let sender_balance = self.get_balance(tx.sender.as_str());
        self.set_balance(tx.sender.as_str(), sender_balance - tx.amount);
        let receiver_balance = self.get_balance(tx.receiver.as_str());
        self.set_balance(tx.receiver.as_str(), receiver_balance + tx.amount);
    }

    /// Adds a block with `transactions` to the chain, made now and mined at
    /// the ledger's difficulty, and pays `miner` the reward.
    pub fn add_block(&mut self, transactions: Vec<Transaction>, miner: &str) -> (result: Result<
        (),
        LedgerError,
    >)
        requires
            old(self).chain@.len() > 0,
            old(self).difficulty <= DIGEST_HEX_LEN,
        ensures
            exists|timestamp: i64|
                Self::block_added(
                    old(self)@,
                    transaction_views(transactions@),
                    miner@,
                    timestamp,
                    final(self)@,
                    result,
                ),
            result.is_err() ==> final(self)@ == old(self)@,
            chain_valid(old(self)@.chain) ==> chain_valid(final(self)@.chain),
    {
        let timestamp = current_timestamp();
        self.add_block_at(transactions, miner, timestamp)
    }

    /// What `add_block_at` does to a ledger. A refused batch changes
    /// nothing. An accepted one leaves the planned balances and one more
    /// block: the planned block as the search left it.
    pub open spec fn block_added(
        before: BlockchainView,
        batch: Seq<TransactionView>,
        miner: Seq<char>,
        timestamp: i64,
        after: BlockchainView,
        result: Result<(), LedgerError>,
    ) -> bool {
        match block_plan(before, batch, miner, timestamp) {
            Err(reason) => result == Err::<(), LedgerError>(reason) && after == before,
            Ok((balances, candidate)) => {
                &&& result.is_ok()
                &&& after.balances == balances
                &&& after.chain.len() == before.chain.len() + 1
                &&& after.chain.drop_last() == before.chain
                &&& is_mining_result(candidate, after.chain.last(), before.difficulty as nat)
                &&& after.difficulty == before.difficulty
                &&& after.contracts == before.contracts
                &&& after.privacy_transactions == before.privacy_transactions
            },
        }
    }

    /// Adds a block with `transactions` to the chain, made at `timestamp`
    /// and mined at the ledger's difficulty, and pays `miner` the reward.
    ///
    /// Nothing changes unless everything succeeds. The batch is refused
    /// where a sender holds less than the amount of its transaction; where
    /// the batch, applied in order, or the reward would take a balance out
    /// of range; where the tip's index cannot grow; and where the search
    /// finds no nonce. The reward is not part of the block.
    pub fn add_block_at(
        &mut self,
        transactions: Vec<Transaction>,
        miner: &str,
        timestamp: i64,
    ) -> (result: Result<(), LedgerError>)
        requires
            old(self).chain@.len() > 0,
            old(self).difficulty <= DIGEST_HEX_LEN,
        ensures
            Self::block_added(
                old(self)@,
                transaction_views(transactions@),
                miner@,
                timestamp,
                final(self)@,
                result,
            ),
            result.is_err() ==> final(self)@ == old(self)@,
            chain_valid(old(self)@.chain) ==> chain_valid(final(self)@.chain),
    {
        let ghost before = self@;
        let ghost batch = transaction_views(transactions@);
        let mut i: usize = 0;
        while i < transactions.len()
            invariant
                *self == *old(self),
                before == self@,
                i <= transactions@.len(),
                batch == transaction_views(transactions@),
                forall|j: int| 0 <= j < i ==> funded(before.balances, #[trigger] batch[j]),
            decreases transactions@.len() - i,
        {
            assert(transactions@[i as int]@ == batch[i as int]);
            if !self.is_transaction_valid(&transactions[i]) {
                proof {
                    first_unfunded_at(before.balances, batch, i as int);
                }
                return Err(LedgerError::InvalidTransaction(i));
            }
            i += 1;
        }
        proof {
            first_unfunded_none(before.balances, batch);
        }
        let backup = self.balances.duplicate();
        let mut k: usize = 0;
        while k < transactions.len()
            invariant
                self.chain@.len() > 0,
                backup@ == before.balances,
                before == old(self)@,
                k <= transactions@.len(),
                batch == transaction_views(transactions@),
                first_unfunded(before.balances, batch).is_none(),
                settle(before.balances, batch.take(k as int)) == Ok::<Map<Seq<char>, u64>, int>(
                    self@.balances,
                ),
                self@ == (BlockchainView { balances: self@.balances, ..before }),
                self.chain == old(self).chain,
                self.contracts == old(self).contracts,
            decreases transactions@.len() - k,
        {
            proof {
                assert(batch.take(k + 1).drop_last() =~= batch.take(k as int));
                assert(transactions@[k as int]@ == batch[k as int]);
            }
            if !self.transaction_fits(&transactions[k]) {
                proof {
                    settle_stops_at(before.balances, batch, k as int);
                }
                self.balances = backup;
                return Err(LedgerError::BalanceOutOfRange(k));
            }
            self.update_balances(&transactions[k]);
            k += 1;
        }
        assert(batch.take(k as int) =~= batch);
        let miner_balance = self.get_balance(miner);
        if miner_balance > u64::MAX - MINING_REWARD {
            self.balances = backup;
            return Err(LedgerError::BalanceOutOfRange(transactions.len()));
        }
        let tip = self.get_latest_block();
        if tip.index == u64::MAX {
            self.balances = backup;
            return Err(LedgerError::IndexExhausted);
        }
        let mut block = Block::new(tip.index + 1, timestamp, transactions, tip.hash.clone());
        let ghost candidate = block@;
        if !block.mine_block(self.difficulty) {
            self.balances = backup;
            return Err(LedgerError::NonceExhausted);
        }
        self.set_balance(miner, miner_balance + MINING_REWARD);
        self.chain.push(block);
        proof {
            assert(self@.chain.drop_last() =~= before.chain);
            assert(self@.chain.last() == block@);
            mined_block_stores_its_hash(candidate, block@, self.difficulty as nat);
            if chain_valid(before.chain) {
                assert forall|j: int| 1 <= j < self@.chain.len() implies (#[trigger] block_fault(
                    self@.chain,
                    j,
                )).is_none() by {
                    if j < before.chain.len() {
                        assert(block_fault(before.chain, j).is_none());
                        assert(self@.chain[j] == before.chain[j]);
                        assert(self@.chain[j - 1] == before.chain[j - 1]);
                    }
                }
            }
        }
        Ok(())
    }

    /// Whether every block after the first stores the hash of its header
    /// and names the stored hash of the block before it.
    pub fn is_chain_valid(&self) -> (valid: bool)
        ensures
            valid == chain_valid(self@.chain),
    {
        proof {
            first_fault_none(self@.chain);
        }
        self.find_fault().is_none()
    }

    /// The first fault of the chain, going from the second block to the
    /// tip, if it has one.
    pub fn find_fault(&self) -> (fault: Option<ChainFault>)
        ensures
            fault == first_fault(self@.chain),
    {
        let ghost chain = self@.chain;
        let mut i: usize = 1;
        while i < self.chain.len()
            invariant
                1 <= i,
                chain == self@.chain,
                chain.len() == self.chain@.len(),
                chain.len() >= 1 ==> i <= chain.len(),
                i <= chain.len() ==> first_fault(chain.take(i as int)).is_none(),
            decreases self.chain@.len() - i,
        {
            let current = &self.chain[i];
            let previous = &self.chain[i - 1];
            proof {
                assert(chain.take(i + 1).drop_last() =~= chain.take(i as int));
                assert(chain.take(i + 1)[i as int] == chain[i as int]);
                assert(chain.take(i + 1)[i - 1] == chain[i - 1]);
                assert(current@ == chain[i as int]);
                assert(previous@ == chain[i - 1]);
            }
            let expected = current.calculate_hash();
            if !same_text(current.hash.as_str(), expected.as_str()) {
                proof {
                    first_fault_stays(chain, i as int + 1, chain.len() as int);
                    assert(chain.take(chain.len() as int) =~= chain);
                }
                return Some(ChainFault::HashMismatch(i));
            }
            if !same_text(current.previous_hash.as_str(), previous.hash.as_str()) {
                proof {
                    first_fault_stays(chain, i as int + 1, chain.len() as int);
                    assert(chain.take(chain.len() as int) =~= chain);
                }
                return Some(ChainFault::BrokenLink(i));
            }
            i += 1;
        }
        proof {
            if chain.len() >= 1 {
                assert(chain.take(chain.len() as int) =~= chain);
            }
        }
        None
    }

    /// Puts a contract with `code` under `contract_id`, in place of the one
    /// that stood there, if any.
    pub fn deploy_contract(&mut self, contract_id: String, code: String)
        ensures
            final(self)@ == (BlockchainView {
                contracts: old(self)@.contracts.insert(
                    contract_id@,
                    ContractView { code: code@, state: Map::empty() },
                ),
                ..old(self)@
            }),
    {
        let contract = SmartContract::new(code);
        let ghost before = self.contracts@;
        self.contracts.insert(contract_id, contract);
        assert(contract_views(self.contracts@) =~= contract_views(before).insert(
            contract_id@,
            contract@,
        ));
    }

    /// Calls `method` with `args` on the contract under `contract_id`.
    pub fn execute_contract(
        &mut self,
        contract_id: &str,
        method: &str,
        args: Vec<String>,
    ) -> (result: Result<String, String>)
        ensures
            final(self)@ == Self::after_call(old(self)@, contract_id@, method@, texts_of(args@)),
            result_texts(result) == Self::call_answer(
                old(self)@,
                contract_id@,
                method@,
                texts_of(args@),
            ),
    {
        let ghost before = self.contracts@;
        match self.contracts.remove(contract_id) {
            Some(contract) => {
                let mut contract = contract;
                let result = contract.execute(method, args);
                self.contracts.insert(String::from_str(contract_id), contract);
                assert(contract_views(self.contracts@) =~= contract_views(before).insert(
                    contract_id@,
                    contract@,
                ));
                result
            },
            None => {
                assert(self.contracts@ =~= before);
                Err(String::from_str("Contract not found"))
            },
        }
    }

    /// The ledger after a call: only the called contract can change.
    pub open spec fn after_call(
        ledger: BlockchainView,
        contract_id: Seq<char>,
        method: Seq<char>,
        args: Seq<Seq<char>>,
    ) -> BlockchainView {
        if ledger.contracts.contains_key(contract_id) {
            BlockchainView {
                contracts: ledger.contracts.insert(
                    contract_id,
                    contract_after(ledger.contracts[contract_id], method, args),
                ),
                ..ledger
            }
        } else {
            ledger
        }
    }

    /// What a call answers: the contract's answer, or a message where no
    /// contract stands under the name.
    pub open spec fn call_answer(
        ledger: BlockchainView,
        contract_id: Seq<char>,
        method: Seq<char>,
        args: Seq<Seq<char>>,
    ) -> Result<Seq<char>, Seq<char>> {
        if ledger.contracts.contains_key(contract_id) {
            contract_answer(ledger.contracts[contract_id], method, args)
        } else {
            Err("Contract not found"@)
        }
    }

    /// Records `transaction` where its verification succeeded, and drops it
    /// where not. Returns whether it was recorded.
    pub fn add_privacy_transaction(
        &mut self,
        transaction: PrivacyTransaction,
        verified: bool,
    ) -> (recorded: bool)
        ensures
            recorded == verified,
            final(self).chain == old(self).chain,
            final(self).difficulty == old(self).difficulty,
            final(self).contracts == old(self).contracts,
            final(self).balances == old(self).balances,
            final(self)@.privacy_transactions == if verified {
                old(self)@.privacy_transactions.push(transaction@)
            } else {
                old(self)@.privacy_transactions
            },
    {
        if verified {
            self.privacy_transactions.push(transaction);
            assert(self@.privacy_transactions =~= old(self)@.privacy_transactions.push(
                transaction@,
            ));
            true
        } else {
            false
        }
    }
}

/// A chain has no first fault exactly when it is valid.
pub proof fn first_fault_none(chain: Seq<BlockView>)
    ensures
        first_fault(chain).is_none() <==> chain_valid(chain),
    decreases chain.len(),
{
    if chain.len() > 1 {
        let front = chain.drop_last();
        first_fault_none(front);
        assert forall|i: int| 1 <= i < front.len() implies block_fault(front, i) == block_fault(
            chain,
            i,
        ) by {}
        if chain_valid(chain) {
            assert forall|i: int| 1 <= i < front.len() implies (#[trigger] block_fault(
                front,
                i,
            )).is_none() by {
                assert(block_fault(chain, i).is_none());
            }
            assert(block_fault(chain, chain.len() - 1).is_none());
        }
        if first_fault(chain).is_none() {
            assert forall|i: int| 1 <= i < chain.len() implies (#[trigger] block_fault(
                chain,
                i,
            )).is_none() by {
                if i < front.len() {
                    assert(block_fault(front, i).is_none());
                }
            }
        }
    }
}

proof fn first_fault_stays(chain: Seq<BlockView>, k: int, n: int)
    requires
        1 <= k <= n <= chain.len(),
        first_fault(chain.take(k)).is_some(),
    ensures
        first_fault(chain.take(n)) == first_fault(chain.take(k)),
    decreases n,
{
    if n > k {
        first_fault_stays(chain, k, n - 1);
        assert(chain.take(n).drop_last() =~= chain.take(n - 1));
    }
}

/// The position that a fault names.
pub open spec fn fault_position(fault: ChainFault) -> usize {
    match fault {
        ChainFault::HashMismatch(i) => i,
        ChainFault::BrokenLink(i) => i,
    }
}

/// A block after the first that was changed while its stored hash was kept
/// makes a valid chain invalid, and the first fault stands at that block,
/// unless the change is one that the hashes cannot show: the digest of the
/// header and the previous hash are both as before.
pub proof fn tampering_is_found(chain: Seq<BlockView>, i: int, tampered: BlockView)
    requires
        chain_valid(chain),
        1 <= i < chain.len(),
        i <= usize::MAX,
        tampered.hash == chain[i].hash,
        text_digest(header_text(tampered)) != text_digest(header_text(chain[i]))
            || tampered.previous_hash != chain[i].previous_hash,
    ensures
        !chain_valid(chain.update(i, tampered)),
        match first_fault(chain.update(i, tampered)) {
            Some(fault) => fault_position(fault) == i,
            None => false,
        },
        text_digest(header_text(tampered)) != text_digest(header_text(chain[i]))
            ==> first_fault(chain.update(i, tampered)) == Some(
            ChainFault::HashMismatch(i as usize),
        ),
{
    let changed = chain.update(i, tampered);
    assert(block_fault(chain, i).is_none());
    if header_hash(tampered) == tampered.hash {
        hex_encode_injective(
            text_digest(header_text(tampered)),
            text_digest(header_text(chain[i])),
        );
    }
    assert(block_fault(changed, i).is_some());
    let front = changed.take(i);
    assert forall|j: int| 1 <= j < front.len() implies (#[trigger] block_fault(
        front,
        j,
    )).is_none() by {
        assert(block_fault(chain, j).is_none());
    }
    first_fault_none(front);
    let upto = changed.take(i + 1);
    assert(upto.drop_last() =~= front);
    assert(block_fault(upto, i) == block_fault(changed, i));
    first_fault_stays(changed, i + 1, changed.len() as int);
    assert(changed.take(changed.len() as int) =~= changed);
    first_fault_none(changed);
}

/// A change that the hashes cannot show is not found: a chain stays valid
/// where a block is replaced by one with the same stored hash, the same
/// previous hash and the same header hash.
pub proof fn unseen_change_is_not_found(chain: Seq<BlockView>, i: int, replaced: BlockView)
    requires
        chain_valid(chain),
        0 <= i < chain.len(),
        replaced.hash == chain[i].hash,
        replaced.previous_hash == chain[i].previous_hash,
        header_hash(replaced) == header_hash(chain[i]),
    ensures
        chain_valid(chain.update(i, replaced)),
{
    let changed = chain.update(i, replaced);
    assert forall|j: int| 1 <= j < changed.len() implies (#[trigger] block_fault(
        changed,
        j,
    )).is_none() by {
        assert(block_fault(chain, j).is_none());
    }
}

/// The block that an accepted batch adds follows the tip, holds the batch,
/// stores the hash of its own header, and that hash starts with as many
/// zeros as the difficulty asks for.
pub proof fn accepted_block_is_sound(
    before: BlockchainView,
    batch: Seq<TransactionView>,
    miner: Seq<char>,
    timestamp: i64,
    after: BlockchainView,
    result: Result<(), LedgerError>,
)
    requires
        before.chain.len() > 0,
        Blockchain::block_added(before, batch, miner, timestamp, after, result),
        result.is_ok(),
    ensures
        after.chain.last().index == before.chain.last().index + 1,
        after.chain.last().timestamp == timestamp,
        after.chain.last().transactions == batch,
        after.chain.last().previous_hash == before.chain.last().hash,
        after.chain.last().hash == header_hash(after.chain.last()),
        has_zero_prefix(after.chain.last().hash, before.difficulty as nat),
        block_fault(after.chain, after.chain.len() - 1).is_none(),
{
    assert(after.chain[after.chain.len() - 2] == after.chain.drop_last()[before.chain.len() - 1]);
}

/// A batch that holds a transaction whose sender lacks its amount is
/// refused as invalid, at that transaction or at an earlier one, and the
/// ledger stays as it was.
pub proof fn unfunded_batch_is_refused(
    before: BlockchainView,
    batch: Seq<TransactionView>,
    miner: Seq<char>,
    timestamp: i64,
    after: BlockchainView,
    result: Result<(), LedgerError>,
    i: int,
)
    requires
        Blockchain::block_added(before, batch, miner, timestamp, after, result),
        0 <= i < batch.len(),
        !funded(before.balances, batch[i]),
    ensures
        after == before,
        match result {
            Err(LedgerError::InvalidTransaction(j)) => j <= i,
            _ => false,
        },
{
    first_unfunded_none(before.balances, batch);
}

/// An accepted batch leaves the balance of every address that is neither
/// the miner nor a sender or receiver in the batch as it was: zero where it
/// was never credited.
pub proof fn uninvolved_balance_is_kept(
    before: BlockchainView,
    batch: Seq<TransactionView>,
    miner: Seq<char>,
    timestamp: i64,
    address: Seq<char>,
)
    requires
        block_plan(before, batch, miner, timestamp).is_ok(),
        address != miner,
        forall|i: int|
            0 <= i < batch.len() ==> (#[trigger] batch[i]).sender != address && batch[i].receiver
                != address,
    ensures
        match block_plan(before, batch, miner, timestamp) {
            Ok((balances, _)) => balance_of(balances, address) == balance_of(
                before.balances,
                address,
            ),
            Err(_) => false,
        },
{
    settle_keeps_others(before.balances, batch, address);
}

} // verus!
