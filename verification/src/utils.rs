//! Hashing of serialized values.

use crate::digest::{digest_of_text, hex_encode, hex_text, text_digest, DIGEST_HEX_LEN};
use vstd::prelude::*;

verus! {

/// The digest of a serialized value, in lowercase hexadecimal.
pub fn calculate_hash(serialized: &str) -> (hash: String)
    ensures
        hash@ == hex_encode(text_digest(serialized@)),
        hash@.len() == DIGEST_HEX_LEN,
{
    let digest = digest_of_text(serialized);
    hex_text(digest.as_slice())
}

} // verus!
