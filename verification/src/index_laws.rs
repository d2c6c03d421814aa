//! Laws of the index of unspent outputs: keeping it current block by block
//! comes to the same as rebuilding it from the chain.

use crate::block::BlockView;
use crate::blockchain_unspent_tx::{
    all_transactions, as_map, listing, point_of, produced, produces, spends, spent_in,
    unspent_among, unspent_in, unspent_outputs_of, OutPoint, UtxoView,
};
use crate::transaction::{is_coinbase_tx, TransactionView};
use crate::txs::TXOutputView;
use crate::unspent_tx_util::{
    apply_all, apply_tx, has_entry, locked_outputs, own_outputs, points_of_tx, selection,
    spend_inputs, total_value,
};
use vstd::prelude::*;

verus! {

/// No two transactions carry the same id.
pub open spec fn distinct_ids(txs: Seq<TransactionView>) -> bool {
    forall|i: int, j: int|
        0 <= i < j < txs.len() ==> (#[trigger] txs[i]).id != (#[trigger] txs[j]).id
}

/// Every input of a transaction that is no coinbase names a transaction
/// that comes before its own.
pub open spec fn causal(txs: Seq<TransactionView>) -> bool {
    forall|j: int, k: int|
        #![trigger txs[j].input[k]]
        0 <= j < txs.len() && !is_coinbase_tx(txs[j]) && 0 <= k < txs[j].input.len()
            ==> named_before(txs, j, txs[j].input[k].txid)
}

/// One of the first `j` transactions carries `txid`.
pub open spec fn named_before(txs: Seq<TransactionView>, j: int, txid: Seq<char>) -> bool {
    exists|i: int| 0 <= i < j && (#[trigger] txs[i]).id == txid
}

/// The places that the first `k` inputs of `tx` refer to.
pub open spec fn input_points(tx: TransactionView, k: nat) -> Set<OutPoint> {
    Set::new(
        |p: OutPoint|
            exists|j: int|
                0 <= j < k && (#[trigger] tx.input[j]).txid == p.txid && tx.input[j].vout
                    == p.vout,
    )
}

/// The index after the first `k` blocks of `blocks` were applied to it, one
/// update after the other.
pub open spec fn replay(m: Map<OutPoint, TXOutputView>, blocks: Seq<BlockView>, k: nat) -> Option<
    Map<OutPoint, TXOutputView>,
>
    decreases k,
{
    if k == 0 {
        Some(m)
    } else {
        match replay(m, blocks, (k - 1) as nat) {
            None => None,
            Some(before) => apply_all(
                before,
                blocks[k - 1].transactions,
                blocks[k - 1].transactions.len(),
            ),
        }
    }
}

proof fn lemma_spent_inputs(m: Map<OutPoint, TXOutputView>, tx: TransactionView, k: nat)
    requires
        k <= tx.input.len(),
        spend_inputs(m, tx, k) is Some,
    ensures
        spend_inputs(m, tx, k).unwrap() =~= m.remove_keys(input_points(tx, k)),
        forall|j: int| 0 <= j < k ==> has_entry(m, (#[trigger] tx.input[j]).txid),
    decreases k,
{
    if k > 0 {
        lemma_spent_inputs(m, tx, (k - 1) as nat);
        let before = spend_inputs(m, tx, (k - 1) as nat).unwrap();
        let input = tx.input[k - 1];
        let p = OutPoint { txid: input.txid, vout: input.vout };
        assert(has_entry(before, input.txid));
        let v = choose|v: i32| #[trigger] before.contains_key(OutPoint { txid: input.txid, vout: v });
        assert(m.contains_key(OutPoint { txid: input.txid, vout: v }));
        assert forall|q: OutPoint| input_points(tx, k).contains(q) <==> (input_points(
            tx,
            (k - 1) as nat,
        ).contains(q) || q == p) by {
            if input_points(tx, k).contains(q) {
                let j = choose|j: int|
                    0 <= j < k && (#[trigger] tx.input[j]).txid == q.txid && tx.input[j].vout
                        == q.vout;
                if j < k - 1 {
                    assert(input_points(tx, (k - 1) as nat).contains(q));
                }
            }
            if input_points(tx, (k - 1) as nat).contains(q) {
                let j = choose|j: int|
                    0 <= j < k - 1 && (#[trigger] tx.input[j]).txid == q.txid && tx.input[j].vout
                        == q.vout;
                assert(0 <= j < k);
            }
            if q == p {
                assert(tx.input[k - 1].txid == q.txid);
            }
        }
        assert(before.remove(p) =~= m.remove_keys(input_points(tx, k)));
    } else {
        assert(m =~= m.remove_keys(input_points(tx, 0)));
    }
}

proof fn lemma_produced(txs: Seq<TransactionView>, p: OutPoint)
    ensures
        produced(txs, p) is Some <==> exists|j: int|
            0 <= j < txs.len() && produces(#[trigger] txs[j], p),
    decreases txs.len(),
{
    if txs.len() > 0 {
        let front = txs.drop_last();
        lemma_produced(front, p);
        if produced(txs, p) is Some {
            if produced(front, p) is Some {
                let j = choose|j: int| 0 <= j < front.len() && produces(#[trigger] front[j], p);
                assert(txs[j] == front[j]);
            } else {
                assert(produces(txs[txs.len() - 1], p));
            }
        }
        if exists|j: int| 0 <= j < txs.len() && produces(#[trigger] txs[j], p) {
            let j = choose|j: int| 0 <= j < txs.len() && produces(#[trigger] txs[j], p);
            if j < txs.len() - 1 {
                assert(front[j] == txs[j]);
            }
        }
    }
}

proof fn lemma_spent_after_push(h: Seq<TransactionView>, t: TransactionView, p: OutPoint)
    ensures
        spent_in(h.push(t), p) <==> (spent_in(h, p) || spends(t, p)),
{
    let hp = h.push(t);
    if spent_in(hp, p) {
        let j = choose|j: int| 0 <= j < hp.len() && spends(#[trigger] hp[j], p);
        if j < h.len() {
            assert(h[j] == hp[j]);
        }
    }
    if spent_in(h, p) {
        let j = choose|j: int| 0 <= j < h.len() && spends(#[trigger] h[j], p);
        assert(hp[j] == h[j]);
    }
    if spends(t, p) {
        assert(hp[h.len() as int] == t);
    }
}

/// Applying one more transaction to the unspent outputs of a history gives
/// the unspent outputs of the history with that transaction.
proof fn lemma_step(h: Seq<TransactionView>, t: TransactionView)
    requires
        distinct_ids(h.push(t)),
        causal(h),
        apply_tx(unspent_in(h), t) is Some,
    ensures
        apply_tx(unspent_in(h), t) == Some(unspent_in(h.push(t))),
        causal(h.push(t)),
{
    let m = unspent_in(h);
    let hp = h.push(t);
    let n = t.input.len();
    assert(hp.drop_last() =~= h);
    assert(hp.last() == t);
    // No transaction of the history carries the id of the new one.
    assert forall|j: int| 0 <= j < h.len() implies (#[trigger] h[j]).id != t.id by {
        assert(hp[j] == h[j]);
        assert(hp[h.len() as int] == t);
    }
    // Every input of the new transaction names one of the history.
    if !is_coinbase_tx(t) {
        lemma_spent_inputs(m, t, n);
        assert forall|k: int| 0 <= k < n implies named_before(
            h,
            h.len() as int,
            (#[trigger] t.input[k]).txid,
        ) by {
            assert(has_entry(m, t.input[k].txid));
            let v = choose|v: i32|
                #[trigger] m.contains_key(OutPoint { txid: t.input[k].txid, vout: v });
            let q = OutPoint { txid: t.input[k].txid, vout: v };
            lemma_produced(h, q);
            let i = choose|i: int| 0 <= i < h.len() && produces(#[trigger] h[i], q);
            assert(h[i].id == t.input[k].txid);
        }
    }
    assert(causal(hp)) by {
        assert forall|j: int, k: int|
            #![trigger hp[j].input[k]]
            0 <= j < hp.len() && !is_coinbase_tx(hp[j]) && 0 <= k < hp[j].input.len() implies named_before(
            hp,
            j,
            hp[j].input[k].txid,
        ) by {
            if j < h.len() {
                assert(hp[j] == h[j]);
                let wanted = h[j].input[k].txid;
                assert(named_before(h, j, wanted));
                let i = choose|i: int| 0 <= i < j && (#[trigger] h[i]).id == wanted;
                assert(hp[i] == h[i]);
            } else {
                let wanted = t.input[k].txid;
                assert(named_before(h, h.len() as int, wanted));
                let i = choose|i: int| 0 <= i < h.len() && (#[trigger] h[i]).id == wanted;
                assert(hp[i] == h[i]);
            }
        }
    }
    let rest = if is_coinbase_tx(t) {
        m
    } else {
        spend_inputs(m, t, n).unwrap()
    };
    let after = rest.remove_keys(points_of_tx(t.id)).union_prefer_right(own_outputs(t));
    let want = unspent_in(hp);
    assert forall|p: OutPoint| after.contains_key(p) <==> want.contains_key(p) by {
        lemma_produced(h, p);
        lemma_spent_after_push(h, t, p);
        if p.txid == t.id {
            assert(produced(h, p) is None) by {
                if produced(h, p) is Some {
                    let j = choose|j: int| 0 <= j < h.len() && produces(#[trigger] h[j], p);
                    assert(h[j].id == t.id);
                }
            }
            assert(!spent_in(h, p)) by {
                if spent_in(h, p) {
                    let j = choose|j: int| 0 <= j < h.len() && spends(#[trigger] h[j], p);
                    let k = choose|k: int|
                        0 <= k < h[j].input.len() && (#[trigger] h[j].input[k]).txid == p.txid
                            && h[j].input[k].vout == p.vout;
                    assert(named_before(h, j, h[j].input[k].txid));
                    let i = choose|i: int| 0 <= i < j && (#[trigger] h[i]).id == t.id;
                    assert(h[i].id == t.id);
                }
            }
            assert(!spends(t, p)) by {
                if spends(t, p) {
                    let k = choose|k: int|
                        0 <= k < t.input.len() && (#[trigger] t.input[k]).txid == p.txid
                            && t.input[k].vout == p.vout;
                    assert(named_before(h, h.len() as int, t.input[k].txid));
                    let i = choose|i: int| 0 <= i < h.len() && (#[trigger] h[i]).id == t.id;
                    assert(h[i].id == t.id);
                }
            }
            assert(points_of_tx(t.id).contains(p));
        } else {
            assert(!points_of_tx(t.id).contains(p));
            assert(!produces(t, p));
            if !is_coinbase_tx(t) {
                if spends(t, p) {
                    let k = choose|k: int|
                        0 <= k < t.input.len() && (#[trigger] t.input[k]).txid == p.txid
                            && t.input[k].vout == p.vout;
                    assert(input_points(t, n).contains(p));
                }
                if input_points(t, n).contains(p) {
                    let j = choose|j: int|
                        0 <= j < n && (#[trigger] t.input[j]).txid == p.txid && t.input[j].vout
                            == p.vout;
                    assert(spends(t, p));
                }
            }
        }
    }
    assert forall|p: OutPoint| after.contains_key(p) implies after[p] == want[p] by {
        lemma_produced(h, p);
        if p.txid == t.id {
            assert(produced(h, p) is None) by {
                if produced(h, p) is Some {
                    let j = choose|j: int| 0 <= j < h.len() && produces(#[trigger] h[j], p);
                    assert(h[j].id == t.id);
                }
            }
        } else {
            assert(!points_of_tx(t.id).contains(p));
            assert(!produces(t, p));
        }
    }
    assert(after =~= want);
}

/// Where applying the first `n` transactions has a result, applying fewer
/// has one.
proof fn lemma_applied_before(
    m: Map<OutPoint, TXOutputView>,
    txs: Seq<TransactionView>,
    k: nat,
    n: nat,
)
    requires
        k <= n,
        apply_all(m, txs, n) is Some,
    ensures
        apply_all(m, txs, k) is Some,
    decreases n - k,
{
    if k < n {
        lemma_applied_before(m, txs, k + 1, n);
    }
}

proof fn lemma_replay_transactions(txs: Seq<TransactionView>, k: nat)
    requires
        distinct_ids(txs),
        k <= txs.len(),
        apply_all(Map::empty(), txs, k) is Some,
    ensures
        apply_all(Map::empty(), txs, k) == Some(unspent_in(txs.take(k as int))),
        causal(txs.take(k as int)),
    decreases k,
{
    if k == 0 {
        assert(unspent_in(txs.take(0)) =~= Map::<OutPoint, TXOutputView>::empty());
    } else {
        lemma_applied_before(Map::empty(), txs, (k - 1) as nat, k);
        lemma_replay_transactions(txs, (k - 1) as nat);
        let h = txs.take(k - 1);
        let t = txs[k - 1];
        assert(txs.take(k as int) =~= h.push(t));
        assert(distinct_ids(h.push(t))) by {
            assert forall|i: int, j: int| 0 <= i < j < h.push(t).len() implies (#[trigger] h.push(
                t,
            )[i]).id != (#[trigger] h.push(t)[j]).id by {
                assert(h.push(t)[i] == txs[i]);
                assert(h.push(t)[j] == txs[j]);
            }
        }
        lemma_step(h, t);
    }
}

/// Applying transactions depends on no more of them than are applied.
proof fn lemma_apply_prefix(
    m: Map<OutPoint, TXOutputView>,
    a: Seq<TransactionView>,
    b: Seq<TransactionView>,
    k: nat,
)
    requires
        k <= a.len(),
    ensures
        apply_all(m, a + b, k) == apply_all(m, a, k),
    decreases k,
{
    if k > 0 {
        lemma_apply_prefix(m, a, b, (k - 1) as nat);
        assert((a + b)[k - 1] == a[k - 1]);
    }
}

/// Applying one list of transactions and then another comes to applying
/// the two as one.
proof fn lemma_apply_concat(
    m: Map<OutPoint, TXOutputView>,
    a: Seq<TransactionView>,
    b: Seq<TransactionView>,
    k: nat,
)
    requires
        k <= b.len(),
    ensures
        apply_all(m, a + b, a.len() + k) == match apply_all(m, a, a.len()) {
            None => None,
            Some(x) => apply_all(x, b, k),
        },
    decreases k,
{
    if k == 0 {
        lemma_apply_prefix(m, a, b, a.len());
    } else {
        lemma_apply_concat(m, a, b, (k - 1) as nat);
        assert((a + b)[a.len() + k - 1] == b[k - 1]);
    }
}

proof fn lemma_replay_is_apply(m: Map<OutPoint, TXOutputView>, blocks: Seq<BlockView>, k: nat)
    requires
        k <= blocks.len(),
    ensures
        replay(m, blocks, k) == apply_all(
            m,
            all_transactions(blocks.take(k as int)),
            all_transactions(blocks.take(k as int)).len(),
        ),
    decreases k,
{
    if k == 0 {
        assert(all_transactions(blocks.take(0)) =~= Seq::<TransactionView>::empty());
    } else {
        lemma_replay_is_apply(m, blocks, (k - 1) as nat);
        let front = blocks.take(k - 1);
        let last = blocks[k - 1];
        assert(blocks.take(k as int).drop_last() =~= front);
        assert(blocks.take(k as int).last() == last);
        lemma_apply_concat(m, all_transactions(front), last.transactions, last.transactions.len());
    }
}

/// Updating an empty index with the blocks of a history, oldest first, one
/// after the other, gives the very unspent outputs that rebuilding the
/// index from the whole history gives. This holds of a history in which no
/// two transactions carry the same id and every update succeeds.
pub proof fn law_updates_rebuild_index(blocks: Seq<BlockView>)
    requires
        distinct_ids(all_transactions(blocks)),
        replay(Map::empty(), blocks, blocks.len()) is Some,
    ensures
        replay(Map::empty(), blocks, blocks.len()) == Some(unspent_in(all_transactions(blocks))),
{
    let txs = all_transactions(blocks);
    lemma_replay_is_apply(Map::empty(), blocks, blocks.len());
    assert(blocks.take(blocks.len() as int) =~= blocks);
    lemma_replay_transactions(txs, txs.len());
    assert(txs.take(txs.len() as int) =~= txs);
}

/// One update after a rebuild keeps the index what a rebuild would make it:
/// where the index lists the unspent outputs of a history and the update
/// with one more block succeeds, the index lists the unspent outputs of the
/// history with that block. This holds where no two transactions carry the
/// same id and the history itself can be replayed.
pub proof fn law_update_keeps_index_current(blocks: Seq<BlockView>, block: BlockView)
    requires
        distinct_ids(all_transactions(blocks.push(block))),
        replay(Map::empty(), blocks, blocks.len()) is Some,
        apply_all(
            unspent_in(all_transactions(blocks)),
            block.transactions,
            block.transactions.len(),
        ) is Some,
    ensures
        apply_all(
            unspent_in(all_transactions(blocks)),
            block.transactions,
            block.transactions.len(),
        ) == Some(unspent_in(all_transactions(blocks.push(block)))),
{
    let more = blocks.push(block);
    assert(more.drop_last() =~= blocks);
    assert(more.last() == block);
    let txs = all_transactions(blocks);
    let all = all_transactions(more);
    assert(distinct_ids(txs)) by {
        assert forall|i: int, j: int| 0 <= i < j < txs.len() implies (#[trigger] txs[i]).id != (
        #[trigger] txs[j]).id by {
            assert(all[i] == txs[i]);
            assert(all[j] == txs[j]);
        }
    }
    law_updates_rebuild_index(blocks);
    assert(replay(Map::empty(), more, more.len()) == apply_all(
        unspent_in(txs),
        block.transactions,
        block.transactions.len(),
    )) by {
        assert(more.take(blocks.len() as int) =~= blocks);
        lemma_replay_same(Map::empty(), blocks, block, blocks.len());
    }
    law_updates_rebuild_index(more);
}

/// Replaying the first blocks of a history does not depend on a block that
/// comes behind them.
proof fn lemma_replay_same(
    m: Map<OutPoint, TXOutputView>,
    blocks: Seq<BlockView>,
    block: BlockView,
    k: nat,
)
    requires
        k <= blocks.len(),
    ensures
        replay(m, blocks.push(block), k) == replay(m, blocks, k),
    decreases k,
{
    if k > 0 {
        lemma_replay_same(m, blocks, block, (k - 1) as nat);
        assert(blocks.push(block)[k - 1] == blocks[k - 1]);
    }
}

/// The selection covers the amount where the funds suffice: it either
/// reaches the amount or has picked every output locked to the key, so it
/// falls short of the amount only where all those outputs together do.
pub proof fn law_selection_covers(entries: Seq<UtxoView>, key: Seq<u8>, amount: i32)
    ensures
        selection(entries, key, amount).0 >= amount || selection(entries, key, amount).0
            == total_value(locked_outputs(entries, key)),
        total_value(locked_outputs(entries, key)) >= amount ==> selection(
            entries,
            key,
            amount,
        ).0 >= amount,
    decreases entries.len(),
{
    if entries.len() > 0 {
        law_selection_covers(entries.drop_last(), key, amount);
        let front = locked_outputs(entries.drop_last(), key);
        if entries.last().output.pub_key_hash == key {
            assert(locked_outputs(entries, key).drop_last() =~= front);
        }
    }
}

/// The map of two lists, one behind the other: the listings of the first
/// count before those of the second.
proof fn lemma_as_map_concat(a: Seq<UtxoView>, b: Seq<UtxoView>)
    ensures
        as_map(a + b) =~= as_map(b).union_prefer_right(as_map(a)),
    decreases b.len(),
{
    if b.len() == 0 {
        assert(a + b =~= a);
    } else {
        lemma_as_map_concat(a, b.drop_last());
        assert((a + b).drop_last() =~= a + b.drop_last());
        assert((a + b).last() == b.last());
    }
}

/// The unspent outputs listed for one transaction, by place.
proof fn lemma_outputs_listed(tx: TransactionView, all: Seq<TransactionView>, upto: nat)
    ensures
        as_map(unspent_outputs_of(tx, all, upto)) =~= Map::new(
            |p: OutPoint| produces(tx, p) && p.vout < upto && !spent_in(all, p),
            |p: OutPoint| tx.output[p.vout as int],
        ),
    decreases upto,
{
    if upto > 0 {
        lemma_outputs_listed(tx, all, (upto - 1) as nat);
        let j = upto - 1;
        if j < tx.output.len() && j <= i32::MAX && !spent_in(
            all,
            OutPoint { txid: tx.id, vout: j as i32 },
        ) {
            let entry = UtxoView { txid: tx.id, vout: j as i32, output: tx.output[j] };
            let now = unspent_outputs_of(tx, all, upto);
            assert(now.drop_last() =~= unspent_outputs_of(tx, all, (upto - 1) as nat));
            assert(now.last() == entry);
            assert(point_of(entry) == (OutPoint { txid: tx.id, vout: j as i32 }));
        }
    }
}

proof fn lemma_listing(all: Seq<TransactionView>, k: nat)
    requires
        k <= all.len(),
    ensures
        as_map(listing(all, k)) =~= unspent_among(all, all.take(k as int)),
    decreases k,
{
    if k > 0 {
        lemma_listing(all, (k - 1) as nat);
        let tx = all[k - 1];
        let outs = unspent_outputs_of(tx, all, tx.output.len());
        lemma_outputs_listed(tx, all, tx.output.len());
        lemma_as_map_concat(listing(all, (k - 1) as nat), outs);
        assert(all.take(k as int).drop_last() =~= all.take(k - 1));
        assert(all.take(k as int).last() == tx);
    }
}

/// What a scan of the transactions lists as unspent, output by output, are
/// the unspent outputs that a rebuilt index holds.
pub proof fn law_listing_is_the_rebuilt_index(all: Seq<TransactionView>)
    ensures
        as_map(listing(all, all.len())) == unspent_in(all),
{
    lemma_listing(all, all.len());
    assert(all.take(all.len() as int) =~= all);
    assert(unspent_among(all, all) =~= unspent_in(all));
}

} // verus!
