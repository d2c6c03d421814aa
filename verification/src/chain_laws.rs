//! Laws of the chain: how its blocks hang together.

use crate::block::{mined_from, BlockView};
use crate::blockchain::{
    accept, best_height, chain_of, extended, find_block, place_of, store_put, walk, ChainView,
};
use crate::transaction::TransactionView;
use vstd::prelude::*;

verus! {

/// From the block stored under `hash`, which has height `height`, the links
/// to predecessors lead down, one height at a time, to a block of height 0
/// that has no predecessor.
pub open spec fn descends(blocks: Seq<BlockView>, hash: Seq<char>, height: nat) -> bool
    decreases height,
{
    match find_block(blocks, hash) {
        None => false,
        Some(b) => b.height == height && if height == 0 {
            b.prev_hash.len() == 0
        } else {
            descends(blocks, b.prev_hash, (height - 1) as nat)
        },
    }
}

/// A chain is linked when no block is stored under the empty hash and the
/// head descends to a genesis block.
pub open spec fn linked(c: ChainView) -> bool {
    &&& find_block(c.blocks, Seq::empty()) is None
    &&& best_height(c) >= 0
    &&& descends(c.blocks, c.head, best_height(c) as nat)
}

/// Number of blocks of `blocks` that have the height `height`.
pub open spec fn count_at(blocks: Seq<BlockView>, height: int) -> nat
    decreases blocks.len(),
{
    if blocks.len() == 0 {
        0
    } else {
        count_at(blocks.drop_last(), height) + if blocks.last().height == height {
            1nat
        } else {
            0nat
        }
    }
}

/// Number of blocks of `blocks` with a height from 0 to `height`.
pub open spec fn count_upto(blocks: Seq<BlockView>, height: int) -> nat
    decreases blocks.len(),
{
    if blocks.len() == 0 {
        0
    } else {
        count_upto(blocks.drop_last(), height) + if 0 <= blocks.last().height <= height {
            1nat
        } else {
            0nat
        }
    }
}

proof fn lemma_count_bounds(blocks: Seq<BlockView>, height: int)
    ensures
        count_upto(blocks, height) <= blocks.len(),
        height >= 0 ==> count_upto(blocks, height) == count_upto(blocks, height - 1) + count_at(
            blocks,
            height,
        ),
    decreases blocks.len(),
{
    if blocks.len() > 0 {
        lemma_count_bounds(blocks.drop_last(), height);
    }
}

proof fn lemma_count_at_least_one(blocks: Seq<BlockView>, height: int, i: int)
    requires
        0 <= i < blocks.len(),
        blocks[i].height == height,
    ensures
        count_at(blocks, height) >= 1,
    decreases blocks.len(),
{
    if i < blocks.len() - 1 {
        lemma_count_at_least_one(blocks.drop_last(), height, i);
    }
}

/// The place of a stored block is a place of the store, and the block there
/// carries the hash.
pub proof fn lemma_place_of(blocks: Seq<BlockView>, hash: Seq<char>)
    ensures
        -1 <= place_of(blocks, hash) < blocks.len(),
        place_of(blocks, hash) >= 0 ==> blocks[place_of(blocks, hash)].hash == hash,
        place_of(blocks, hash) == -1 ==> forall|i: int|
            0 <= i < blocks.len() ==> (#[trigger] blocks[i]).hash != hash,
    decreases blocks.len(),
{
    if blocks.len() > 0 {
        lemma_place_of(blocks.drop_last(), hash);
        if place_of(blocks, hash) == -1 {
            assert forall|i: int| 0 <= i < blocks.len() implies (#[trigger] blocks[i]).hash
                != hash by {
                if i < blocks.len() - 1 {
                    assert(blocks.drop_last()[i] == blocks[i]);
                }
            }
        }
    }
}

/// A head that descends from height `height` has at least `height + 1`
/// blocks beneath it in the store.
proof fn lemma_descent_needs_blocks(blocks: Seq<BlockView>, hash: Seq<char>, height: nat)
    requires
        descends(blocks, hash, height),
    ensures
        count_upto(blocks, height as int) >= height + 1,
    decreases height,
{
    let b = find_block(blocks, hash).unwrap();
    lemma_place_of(blocks, hash);
    lemma_count_at_least_one(blocks, height as int, place_of(blocks, hash));
    lemma_count_bounds(blocks, height as int);
    if height > 0 {
        lemma_descent_needs_blocks(blocks, b.prev_hash, (height - 1) as nat);
    } else {
        lemma_count_bounds(blocks, -1);
        lemma_count_none_below(blocks);
    }
}

proof fn lemma_count_none_below(blocks: Seq<BlockView>)
    ensures
        count_upto(blocks, -1) == 0,
    decreases blocks.len(),
{
    if blocks.len() > 0 {
        lemma_count_none_below(blocks.drop_last());
    }
}

/// The walk from a block that descends from height `height`, given fuel for
/// at least `height + 1` steps.
proof fn lemma_walk_of_descent(blocks: Seq<BlockView>, hash: Seq<char>, height: nat, fuel: nat)
    requires
        find_block(blocks, Seq::empty()) is None,
        descends(blocks, hash, height),
        fuel >= height + 1,
    ensures
        walk(blocks, hash, fuel).len() == height + 1,
        forall|i: int|
            0 <= i <= height ==> (#[trigger] walk(blocks, hash, fuel)[i]).height == height - i,
        forall|i: int|
            0 <= i < height ==> (#[trigger] walk(blocks, hash, fuel)[i]).prev_hash == walk(
                blocks,
                hash,
                fuel,
            )[i + 1].hash,
        walk(blocks, hash, fuel)[height as int].prev_hash.len() == 0,
        walk(blocks, hash, fuel)[0] == find_block(blocks, hash).unwrap(),
    decreases height,
{
    let b = find_block(blocks, hash).unwrap();
    let rest = walk(blocks, b.prev_hash, (fuel - 1) as nat);
    assert(walk(blocks, hash, fuel) == seq![b] + rest);
    if height == 0 {
        assert(b.prev_hash =~= Seq::<char>::empty());
        assert(rest.len() == 0);
    } else {
        lemma_walk_of_descent(blocks, b.prev_hash, (height - 1) as nat, (fuel - 1) as nat);
        lemma_place_of(blocks, b.prev_hash);
        let all = walk(blocks, hash, fuel);
        assert forall|i: int| 0 <= i <= height implies (#[trigger] all[i]).height == height
            - i by {
            if i > 0 {
                assert(all[i] == rest[i - 1]);
            }
        }
        assert forall|i: int| 0 <= i < height implies (#[trigger] all[i]).prev_hash == all[i
            + 1].hash by {
            assert(all[i + 1] == rest[i]);
            if i > 0 {
                assert(all[i] == rest[i - 1]);
            }
        }
        assert(all[height as int] == rest[height - 1]);
    }
}

/// The chain of a linked chain leads from the head to the genesis block in
/// exactly as many steps as the head is high, plus one: each block is one
/// lower than the one before it and is the predecessor that block names, and
/// the last has height 0 and names no predecessor.
pub proof fn law_chain_reaches_genesis(c: ChainView)
    requires
        linked(c),
    ensures
        chain_of(c).len() == best_height(c) + 1,
        chain_of(c)[0] == find_block(c.blocks, c.head).unwrap(),
        forall|i: int|
            0 <= i < chain_of(c).len() ==> (#[trigger] chain_of(c)[i]).height == best_height(c)
                - i,
        forall|i: int|
            0 <= i < chain_of(c).len() - 1 ==> (#[trigger] chain_of(c)[i]).prev_hash == chain_of(
                c,
            )[i + 1].hash,
        chain_of(c).last().height == 0,
        chain_of(c).last().prev_hash.len() == 0,
{
    let h = best_height(c) as nat;
    lemma_descent_needs_blocks(c.blocks, c.head, h);
    lemma_count_bounds(c.blocks, h as int);
    lemma_walk_of_descent(c.blocks, c.head, h, c.blocks.len());
}

/// Storing a block under a hash that was not stored leaves every other
/// lookup as it was.
proof fn lemma_find_after_push(blocks: Seq<BlockView>, block: BlockView, hash: Seq<char>)
    requires
        find_block(blocks, block.hash) is None,
    ensures
        store_put(blocks, block) == blocks.push(block),
        hash != block.hash ==> find_block(blocks.push(block), hash) == find_block(blocks, hash),
        find_block(blocks.push(block), block.hash) == Some(block),
{
    let more = blocks.push(block);
    assert(more.drop_last() =~= blocks);
    lemma_place_of(blocks, hash);
}

/// Storing a block under a hash that was not stored leaves every descent
/// as it was.
proof fn lemma_descent_after_push(
    blocks: Seq<BlockView>,
    block: BlockView,
    hash: Seq<char>,
    height: nat,
)
    requires
        find_block(blocks, block.hash) is None,
        descends(blocks, hash, height),
    ensures
        descends(blocks.push(block), hash, height),
    decreases height,
{
    lemma_find_after_push(blocks, block, hash);
    let b = find_block(blocks, hash).unwrap();
    if height > 0 {
        lemma_descent_after_push(blocks, block, b.prev_hash, (height - 1) as nat);
    }
}

/// A chain that holds nothing but a mined genesis block is linked, and its
/// head has height 0.
pub proof fn law_genesis_chain_is_linked(c: ChainView, txs: Seq<TransactionView>, timestamp: u128)
    requires
        c.blocks.len() == 1,
        c.head == c.blocks[0].hash,
        mined_from(c.blocks[0], txs, Seq::empty(), 0, timestamp),
    ensures
        linked(c),
        best_height(c) == 0,
{
    reveal_with_fuel(place_of, 2);
    let genesis = c.blocks[0];
    assert(c.blocks.drop_last() =~= Seq::<BlockView>::empty());
    assert(c.blocks.last() == genesis);
    assert(genesis.hash.len() >= 4);
    assert(genesis.hash != Seq::<char>::empty());
    assert(place_of(c.blocks, c.head) == 0);
    assert(place_of(c.blocks, Seq::empty()) == -1);
}

/// Mining keeps a chain linked: where a block mined on top of the head of a
/// linked chain comes under a hash that was not stored, the chain with that
/// block as its head is linked and one higher.
pub proof fn law_mined_block_extends_chain(
    c: ChainView,
    block: BlockView,
    txs: Seq<TransactionView>,
    timestamp: u128,
)
    requires
        linked(c),
        best_height(c) < i32::MAX,
        mined_from(block, txs, c.head, (best_height(c) + 1) as i32, timestamp),
        find_block(c.blocks, block.hash) is None,
    ensures
        linked(extended(c, block)),
        best_height(extended(c, block)) == best_height(c) + 1,
{
    let after = extended(c, block);
    assert(block.hash.len() >= 4);
    assert(block.hash != Seq::<char>::empty());
    lemma_find_after_push(c.blocks, block, Seq::empty());
    lemma_find_after_push(c.blocks, block, c.head);
    lemma_descent_after_push(c.blocks, block, c.head, best_height(c) as nat);
    assert(find_block(after.blocks, after.head) == Some(block));
    assert(c.head != block.hash);
}

/// Accepting keeps a chain linked: where a block that names the head of a
/// linked chain as its predecessor, is one higher than that head and comes
/// under a hash that is not empty and was not stored, is offered to the chain,
/// the chain takes it for its head, is linked and one higher.
pub proof fn law_accepted_block_extends_chain(c: ChainView, block: BlockView)
    requires
        linked(c),
        block.prev_hash == c.head,
        block.height == best_height(c) + 1,
        block.hash.len() > 0,
        find_block(c.blocks, block.hash) is None,
    ensures
        accept(c, block).head == block.hash,
        linked(accept(c, block)),
        best_height(accept(c, block)) == best_height(c) + 1,
{
    let after = accept(c, block);
    assert(block.hash != Seq::<char>::empty());
    lemma_find_after_push(c.blocks, block, Seq::empty());
    lemma_find_after_push(c.blocks, block, c.head);
    lemma_descent_after_push(c.blocks, block, c.head, best_height(c) as nat);
    assert(find_block(after.blocks, after.head) == Some(block));
    assert(c.head != block.hash);
}

/// An empty chain that is offered a genesis block, one of height 0 without
/// predecessor under a hash that is not empty, takes it for its head and is
/// linked.
pub proof fn law_accepted_genesis_starts_chain(c: ChainView, block: BlockView)
    requires
        c.blocks.len() == 0,
        block.height == 0,
        block.prev_hash.len() == 0,
        block.hash.len() > 0,
    ensures
        accept(c, block).head == block.hash,
        linked(accept(c, block)),
        best_height(accept(c, block)) == 0,
{
    reveal_with_fuel(place_of, 2);
    let after = accept(c, block);
    assert(block.hash != Seq::<char>::empty());
    assert(after.blocks.drop_last() =~= c.blocks);
    assert(after.blocks.last() == block);
}

} // verus!
