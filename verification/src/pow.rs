//! The proof-of-work search as a function of its own.

use crate::block::{has_zero_prefix, is_mining_result, mining_possible, Block};
use crate::digest::DIGEST_HEX_LEN;
use vstd::prelude::*;

verus! {

/// Searches for a nonce under which the hash of `block` starts with
/// `difficulty` zeros, as `Block::mine_block` does.
pub fn proof_of_work(block: &mut Block, difficulty: usize) -> (mined: bool)
    requires
        difficulty <= DIGEST_HEX_LEN,
    ensures
        mined == mining_possible(old(block)@, difficulty as nat),
        mined ==> is_mining_result(old(block)@, final(block)@, difficulty as nat),
        mined ==> has_zero_prefix(final(block).hash@, difficulty as nat),
        difficulty == 0 ==> mined && *final(block) == *old(block),
        !mined ==> *final(block) == *old(block),
        final(block).transactions == old(block).transactions,
{
    block.mine_block(difficulty)
}

} // verus!
