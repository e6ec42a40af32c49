use vstd::prelude::*;

use frame_support::sp_runtime::traits::BlakeTwo256;

use crate::types::BlockNumber;

verus! {

/// The digest that the runtime's hasher gives for a block number's text.
pub uninterp spec fn block_digest(n: BlockNumber) -> Seq<u8>;

/// Relies on `BlakeTwo256::hash_of` (sp-runtime, as re-exported by
/// frame-support): the SCALE encoding of the block number's `{:?}` text is
/// hashed with Blake2b-256 into an `H256`, 32 bytes that depend on the
/// number alone.
#[verifier::external_body]
pub(crate) fn hash_block_number(n: BlockNumber) -> (r: Vec<u8>)
    ensures
        r@ == block_digest(n),
        r@.len() == 32,
{
    let text = format!("{:?}", n);
    <BlakeTwo256 as frame_support::sp_runtime::traits::Hash>::hash_of(&text).as_bytes().to_vec()
}

} // verus!
