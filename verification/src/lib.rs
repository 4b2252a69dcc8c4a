//! Integrity core of a prototype ledger: a commitment tree over transactions,
//! blocks with a proof-of-work nonce, and a chain with a balance table.

pub mod balances;
pub mod block;
pub mod blockchain;
pub mod digest;
pub mod keys;
pub mod merkle_tree;
pub mod pow;
pub mod smart_contract;
pub mod table;
pub mod text;
pub mod transaction;
pub mod utils;
pub mod wallet;
