//! Walking the chain block by block.

use crate::block::Block;
use crate::blockchain::{walk, Blockchain};
use vstd::prelude::*;

verus! {

/// A place in the walk from the head of a chain towards its genesis block.
pub struct BlockchainIter<'a> {
    pub current_hash: String,
    pub bc: &'a Blockchain,
    /// Steps the walk may still take.
    pub remaining: usize,
}

impl<'a> BlockchainIter<'a> {
    /// The blocks still to come, newest first.
    pub open spec fn pending(&self) -> Seq<crate::block::BlockView> {
        walk(self.bc@.blocks, self.current_hash@, self.remaining as nat)
    }

    /// The next block of the walk, or nothing at its end.
    pub fn next(&mut self) -> (block: Option<Block>)
        ensures
            final(self).bc == old(self).bc,
            match block {
                Some(b) => old(self).pending().len() > 0 && b@ == old(self).pending()[0]
                    && final(self).pending() == old(self).pending().drop_first(),
                None => old(self).pending().len() == 0 && final(self).pending().len() == 0,
            },
    {
        if self.remaining == 0 {
            return None;
        }
        match self.bc.position(&self.current_hash) {
            None => None,
            Some(i) => {
                let block = self.bc.block_at(i).clone();
                self.current_hash = block.get_prev_block_hash();
                self.remaining = self.remaining - 1;
                assert(old(self).pending().drop_first() =~= final(self).pending());
                Some(block)
            },
        }
    }
}

} // verus!
