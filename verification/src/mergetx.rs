//! The Merkle commitment of a block to its transactions.

use crate::digest::{sha256, sha256_bytes};
use vstd::prelude::*;

verus! {

/// Combines two tree nodes into their parent: the SHA-256 digest of the left
/// node's bytes followed by the right node's.
#[derive(Debug, Clone, Copy)]
pub struct MergeTX {}

impl merkle_cbt::merkle_tree::Merge for MergeTX {
    type Item = Vec<u8>;

    fn merge(left: &Vec<u8>, right: &Vec<u8>) -> (parent: Vec<u8>)
        ensures
            parent@ == sha256(left@ + right@),
    {
        let mut data: Vec<u8> = left.clone();
        let mut tail: Vec<u8> = right.clone();
        data.append(&mut tail);
        sha256_bytes(data.as_slice())
    }
}


/// Node `i` of the complete binary Merkle tree over `leaves`, laid out as an
/// array of `2n - 1` nodes: the leaves fill the last `n` places, and every
/// other node is the merge of its two children at `2i + 1` and `2i + 2`.
pub open spec fn merkle_node(leaves: Seq<Seq<u8>>, i: int) -> Seq<u8>
    decreases 2 * leaves.len() - i,
{
    if i < 0 || i >= 2 * leaves.len() - 1 {
        Seq::empty()
    } else if i >= leaves.len() - 1 {
        leaves[i - (leaves.len() - 1)]
    } else {
        sha256(merkle_node(leaves, 2 * i + 1) + merkle_node(leaves, 2 * i + 2))
    }
}

/// Root of the Merkle tree over `leaves`; empty when there are none.
pub open spec fn merkle_root(leaves: Seq<Seq<u8>>) -> Seq<u8> {
    merkle_node(leaves, 0)
}

/// The leaves as plain byte sequences.
pub open spec fn leaves_view(leaves: Seq<Vec<u8>>) -> Seq<Seq<u8>> {
    leaves.map_values(|l: Vec<u8>| l@)
}

/// Calls `CBMT::build_merkle_tree` and `MerkleTree::root` of the `merkle_cbt`
/// crate with [`MergeTX`] as the merge. Trusted: the tree is the array the
/// crate builds, children at `2i + 1` and `2i + 2`, and the root is its first
/// node, or the empty vector when there are no leaves.
#[verifier::external_body]
pub(crate) fn build_merkle_root(leaves: &Vec<Vec<u8>>) -> (root: Vec<u8>)
    ensures
        root@ == merkle_root(leaves_view(leaves@)),
{
    merkle_cbt::merkle_tree::CBMT::<Vec<u8>, MergeTX>::build_merkle_tree(leaves.as_slice()).root()
}

} // verus!
