//! The index of unspent outputs: derived from the chain, rebuilt from it at
//! will, and kept current block by block.

use crate::block::Block;
use crate::blockchain::{chain_of, Blockchain};
use crate::blockchain_unspent_tx::{
    all_transactions, as_map, distinct_points, lemma_as_map_domain, point_of, produces, unspent_in,
    utxos_view, OutPoint, Utxo, UtxoView,
};
use crate::error::LedgerError;
use crate::transaction::{
    is_coinbase_tx, outputs_view, transactions_view, Transaction, TransactionView,
};
use crate::txs::{TXOutput, TXOutputView};
use vstd::prelude::*;

verus! {

/// A list of outputs.
#[derive(Debug)]
pub struct TxOutputs {
    pub outputs: Vec<TXOutput>,
}

impl View for TxOutputs {
    type V = Seq<TXOutputView>;

    open spec fn view(&self) -> Seq<TXOutputView> {
        outputs_view(self.outputs@)
    }
}

/// The sum of the values of `outputs`.
pub open spec fn total_value(outputs: Seq<TXOutputView>) -> int
    decreases outputs.len(),
{
    if outputs.len() == 0 {
        0
    } else {
        total_value(outputs.drop_last()) + outputs.last().value
    }
}

impl TxOutputs {
    /// The sum of the values held.
    pub fn total(&self) -> (sum: i128)
        ensures
            sum == total_value(self@),
    {
        let mut sum: i128 = 0;
        let mut i: usize = 0;
        while i < self.outputs.len()
            invariant
                i <= self.outputs@.len(),
                sum == total_value(self@.take(i as int)),
                -(i as int) * 0x8000_0000 <= sum <= (i as int) * 0x8000_0000,
            decreases self.outputs@.len() - i,
        {
            proof {
                assert(self@.take(i + 1).drop_last() =~= self@.take(i as int));
                assert(self@.take(i + 1).last() == self.outputs@[i as int]@);
            }
            sum = sum + self.outputs[i].value as i128;
            i = i + 1;
        }
        proof {
            assert(self@.take(self@.len() as int) =~= self@);
        }
        sum
    }
}

/// Some output of the transaction `txid` is listed in `m`.
pub open spec fn has_entry(m: Map<OutPoint, TXOutputView>, txid: Seq<char>) -> bool {
    exists|v: i32| #[trigger] m.contains_key(OutPoint { txid, vout: v })
}

/// The places that belong to the transaction `txid`.
pub open spec fn points_of_tx(txid: Seq<char>) -> Set<OutPoint> {
    Set::new(|p: OutPoint| p.txid == txid)
}

/// The outputs of `tx`, by place.
pub open spec fn own_outputs(tx: TransactionView) -> Map<OutPoint, TXOutputView> {
    Map::new(|p: OutPoint| produces(tx, p), |p: OutPoint| tx.output[p.vout as int])
}

/// The index after the first `k` inputs of `tx` were taken out of it, one
/// after the other: an input whose transaction has no output left in the
/// index cannot be taken out, and there is then no result; any other takes
/// the output it refers to out, if the index has it.
pub open spec fn spend_inputs(m: Map<OutPoint, TXOutputView>, tx: TransactionView, k: nat) -> Option<
    Map<OutPoint, TXOutputView>,
>
    decreases k,
{
    if k == 0 {
        Some(m)
    } else {
        match spend_inputs(m, tx, (k - 1) as nat) {
            None => None,
            Some(before) => {
                let input = tx.input[k - 1];
                if has_entry(before, input.txid) {
                    Some(before.remove(OutPoint { txid: input.txid, vout: input.vout }))
                } else {
                    None
                }
            },
        }
    }
}

/// The index after `tx` was applied to it: unless `tx` is a coinbase its
/// inputs are taken out; then whatever is listed for the id of `tx` gives way
/// to all outputs of `tx`.
pub open spec fn apply_tx(m: Map<OutPoint, TXOutputView>, tx: TransactionView) -> Option<
    Map<OutPoint, TXOutputView>,
> {
    let spent = if is_coinbase_tx(tx) {
        Some(m)
    } else {
        spend_inputs(m, tx, tx.input.len())
    };
    match spent {
        None => None,
        Some(rest) => Some(
            rest.remove_keys(points_of_tx(tx.id)).union_prefer_right(own_outputs(tx)),
        ),
    }
}

/// The index after the first `k` of `txs` were applied to it in order.
pub open spec fn apply_all(m: Map<OutPoint, TXOutputView>, txs: Seq<TransactionView>, k: nat) -> Option<
    Map<OutPoint, TXOutputView>,
>
    decreases k,
{
    if k == 0 {
        Some(m)
    } else {
        match apply_all(m, txs, (k - 1) as nat) {
            None => None,
            Some(before) => apply_tx(before, txs[k - 1]),
        }
    }
}

/// Some output of `txid` is in the map of `entries` exactly where `entries`
/// lists one.
pub proof fn lemma_has_entry(entries: Seq<UtxoView>, txid: Seq<char>)
    ensures
        has_entry(as_map(entries), txid) <==> exists|i: int|
            0 <= i < entries.len() && (#[trigger] entries[i]).txid == txid,
{
    if has_entry(as_map(entries), txid) {
        let v = choose|v: i32| #[trigger] as_map(entries).contains_key(OutPoint { txid, vout: v });
        let p = OutPoint { txid, vout: v };
        lemma_as_map_domain(entries, p);
        let i = choose|i: int| 0 <= i < entries.len() && point_of(#[trigger] entries[i]) == p;
        assert(entries[i].txid == txid);
    }
    if exists|i: int| 0 <= i < entries.len() && (#[trigger] entries[i]).txid == txid {
        let i = choose|i: int| 0 <= i < entries.len() && (#[trigger] entries[i]).txid == txid;
        let p = point_of(entries[i]);
        lemma_as_map_domain(entries, p);
        assert(as_map(entries).contains_key(OutPoint { txid, vout: entries[i].vout }));
    }
}

/// Whether `entries` lists an output of the transaction `txid`.
pub fn lists_txid(entries: &Vec<Utxo>, txid: &String) -> (listed: bool)
    ensures
        listed == has_entry(as_map(utxos_view(entries@)), txid@),
{
    let mut i: usize = 0;
    while i < entries.len()
        invariant
            i <= entries@.len(),
            forall|k: int| 0 <= k < i ==> (#[trigger] utxos_view(entries@)[k]).txid != txid@,
        decreases entries@.len() - i,
    {
        if entries[i].txid == *txid {
            proof {
                assert(utxos_view(entries@)[i as int].txid == txid@);
                lemma_has_entry(utxos_view(entries@), txid@);
            }
            return true;
        }
        i = i + 1;
    }
    proof {
        lemma_has_entry(utxos_view(entries@), txid@);
    }
    false
}

/// The entries of `entries` other than the one at `(txid, vout)`.
pub fn without_point(entries: &Vec<Utxo>, txid: &String, vout: i32) -> (rest: Vec<Utxo>)
    requires
        distinct_points(utxos_view(entries@)),
    ensures
        distinct_points(utxos_view(rest@)),
        as_map(utxos_view(rest@)) == as_map(utxos_view(entries@)).remove(
            OutPoint { txid: txid@, vout },
        ),
{
    let ghost all = utxos_view(entries@);
    let ghost p = OutPoint { txid: txid@, vout };
    let mut rest: Vec<Utxo> = Vec::new();
    let mut i: usize = 0;
    while i < entries.len()
        invariant
            i <= entries@.len(),
            all == utxos_view(entries@),
            p == (OutPoint { txid: txid@, vout }),
            distinct_points(all),
            distinct_points(utxos_view(rest@)),
            as_map(utxos_view(rest@)) =~= as_map(all.take(i as int)).remove(p),
        decreases entries@.len() - i,
    {
        let ghost before = utxos_view(rest@);
        proof {
            assert(all.take(i + 1).drop_last() =~= all.take(i as int));
            assert(all.take(i + 1).last() == all[i as int]);
        }
        if !(entries[i].vout == vout && entries[i].txid == *txid) {
            rest.push(entries[i].clone());
            proof {
                let now = utxos_view(rest@);
                let e = all[i as int];
                assert(now.drop_last() =~= before);
                assert(now.last() == e);
                assert(now =~= before.push(e));
                lemma_keeps_distinct(all, i as int, before, now);
            }
        }
        i = i + 1;
    }
    proof {
        assert(all.take(all.len() as int) =~= all);
    }
    rest
}

/// Putting entry `i` of a list without repeats behind entries whose places
/// all stem from the entries before `i` gives a list without repeats.
pub proof fn lemma_keeps_distinct(all: Seq<UtxoView>, i: int, before: Seq<UtxoView>, now: Seq<UtxoView>)
    requires
        0 <= i < all.len(),
        distinct_points(all),
        distinct_points(before),
        now == before.push(all[i]),
        as_map(before).dom().subset_of(as_map(all.take(i)).dom()),
    ensures
        distinct_points(now),
{
    assert forall|a: int, b: int| 0 <= a < b < now.len() implies point_of(#[trigger] now[a])
        != point_of(#[trigger] now[b]) by {
        if b == now.len() - 1 {
            assert(now[a] == before[a]);
            if point_of(before[a]) == point_of(all[i]) {
                let q = point_of(all[i]);
                lemma_as_map_domain(before, q);
                assert(as_map(before).dom().contains(q));
                assert(as_map(all.take(i)).dom().contains(q));
                lemma_as_map_domain(all.take(i), q);
                let k = choose|k: int|
                    0 <= k < all.take(i).len() && point_of(#[trigger] all.take(i)[k]) == q;
                assert(all.take(i)[k] == all[k]);
                assert(point_of(all[k]) != point_of(all[i]));
            }
        } else {
            assert(now[a] == before[a]);
            assert(now[b] == before[b]);
        }
    }
}

/// The entries of `entries` that do not belong to the transaction `txid`.
pub fn without_txid(entries: &Vec<Utxo>, txid: &String) -> (rest: Vec<Utxo>)
    requires
        distinct_points(utxos_view(entries@)),
    ensures
        distinct_points(utxos_view(rest@)),
        as_map(utxos_view(rest@)) == as_map(utxos_view(entries@)).remove_keys(
            points_of_tx(txid@),
        ),
{
    let ghost all = utxos_view(entries@);
    let ghost gone = points_of_tx(txid@);
    let mut rest: Vec<Utxo> = Vec::new();
    let mut i: usize = 0;
    while i < entries.len()
        invariant
            i <= entries@.len(),
            all == utxos_view(entries@),
            gone == points_of_tx(txid@),
            distinct_points(all),
            distinct_points(utxos_view(rest@)),
            as_map(utxos_view(rest@)) =~= as_map(all.take(i as int)).remove_keys(gone),
        decreases entries@.len() - i,
    {
        let ghost before = utxos_view(rest@);
        proof {
            assert(all.take(i + 1).drop_last() =~= all.take(i as int));
            assert(all.take(i + 1).last() == all[i as int]);
        }
        if !(entries[i].txid == *txid) {
            rest.push(entries[i].clone());
            proof {
                let now = utxos_view(rest@);
                let e = all[i as int];
                assert(now.drop_last() =~= before);
                assert(now.last() == e);
                assert(now =~= before.push(e));
                lemma_keeps_distinct(all, i as int, before, now);
            }
        }
        i = i + 1;
    }
    proof {
        assert(all.take(all.len() as int) =~= all);
    }
    rest
}

/// The first `upto` outputs of `tx`, by place.
pub open spec fn own_outputs_upto(tx: TransactionView, upto: int) -> Map<OutPoint, TXOutputView> {
    Map::new(
        |p: OutPoint| produces(tx, p) && p.vout < upto,
        |p: OutPoint| tx.output[p.vout as int],
    )
}

/// Lists every output of `tx` behind `entries`, which list none of `tx` yet.
pub fn with_outputs(entries: Vec<Utxo>, tx: &Transaction) -> (more: Vec<Utxo>)
    requires
        distinct_points(utxos_view(entries@)),
        !has_entry(as_map(utxos_view(entries@)), tx@.id),
    ensures
        distinct_points(utxos_view(more@)),
        as_map(utxos_view(more@)) == as_map(utxos_view(entries@)).union_prefer_right(
            own_outputs(tx@),
        ),
{
    let ghost start = utxos_view(entries@);
    let mut more = entries;
    let mut j: usize = 0;
    proof {
        assert(as_map(start) =~= as_map(start).union_prefer_right(own_outputs_upto(tx@, 0)));
    }
    while j < tx.output.len() && j <= i32::MAX as usize
        invariant
            j <= tx.output@.len(),
            j <= i32::MAX + 1,
            distinct_points(start),
            !has_entry(as_map(start), tx@.id),
            distinct_points(utxos_view(more@)),
            as_map(utxos_view(more@)) =~= as_map(start).union_prefer_right(
                own_outputs_upto(tx@, j as int),
            ),
        decreases tx.output@.len() - j,
    {
        let vout: i32 = j as i32;
        let ghost before = utxos_view(more@);
        let entry = Utxo { txid: tx.id.clone(), vout, output: tx.output[j].clone() };
        more.push(entry);
        proof {
            let now = utxos_view(more@);
            let p = OutPoint { txid: tx@.id, vout };
            assert(now.drop_last() =~= before);
            assert(now.last() == entry@);
            assert(!as_map(start).contains_key(p));
            assert(!as_map(before).contains_key(p));
            assert forall|a: int, b: int| 0 <= a < b < now.len() implies point_of(
                #[trigger] now[a],
            ) != point_of(#[trigger] now[b]) by {
                if b == now.len() - 1 {
                    lemma_as_map_domain(before, p);
                    assert(now[a] == before[a]);
                } else {
                    assert(now[a] == before[a]);
                    assert(now[b] == before[b]);
                }
            }
            assert(as_map(now) =~= as_map(start).union_prefer_right(
                own_outputs_upto(tx@, j + 1),
            ));
        }
        j = j + 1;
    }
    proof {
        assert(own_outputs_upto(tx@, j as int) =~= own_outputs(tx@));
    }
    more
}

/// Applies `tx` to the list of unspent outputs, as [`apply_tx`] defines it.
/// Nothing where an input cannot be taken out.
pub fn apply_transaction(entries: Vec<Utxo>, tx: &Transaction) -> (applied: Option<Vec<Utxo>>)
    requires
        distinct_points(utxos_view(entries@)),
    ensures
        match applied {
            Some(next) => distinct_points(utxos_view(next@)) && apply_tx(
                as_map(utxos_view(entries@)),
                tx@,
            ) == Some(as_map(utxos_view(next@))),
            None => apply_tx(as_map(utxos_view(entries@)), tx@) is None,
        },
{
    let ghost start = as_map(utxos_view(entries@));
    let mut work = entries;
    if !tx.is_coinbase() {
        let mut k: usize = 0;
        while k < tx.input.len()
            invariant
                k <= tx.input@.len(),
                start == as_map(utxos_view(entries@)),
                !is_coinbase_tx(tx@),
                distinct_points(utxos_view(work@)),
                spend_inputs(start, tx@, k as nat) == Some(as_map(utxos_view(work@))),
            decreases tx.input@.len() - k,
        {
            let input = &tx.input[k];
            if !lists_txid(&work, &input.txid) {
                proof {
                    assert(spend_inputs(start, tx@, (k + 1) as nat) is None);
                    lemma_spending_stays_failed(start, tx@, (k + 1) as nat, tx@.input.len());
                }
                return None;
            }
            work = without_point(&work, &input.txid, input.vout);
            k = k + 1;
        }
    }
    let cleared = without_txid(&work, &tx.id);
    proof {
        let m = as_map(utxos_view(cleared@));
        if has_entry(m, tx@.id) {
            let v = choose|v: i32| #[trigger] m.contains_key(OutPoint { txid: tx@.id, vout: v });
            assert(points_of_tx(tx@.id).contains(OutPoint { txid: tx@.id, vout: v }));
        }
    }
    Some(with_outputs(cleared, tx))
}

/// Once an input cannot be taken out, taking out has no result.
pub proof fn lemma_spending_stays_failed(
    m: Map<OutPoint, TXOutputView>,
    tx: TransactionView,
    k: nat,
    n: nat,
)
    requires
        k <= n,
        spend_inputs(m, tx, k) is None,
    ensures
        spend_inputs(m, tx, n) is None,
    decreases n - k,
{
    if k < n {
        lemma_spending_stays_failed(m, tx, k, (n - 1) as nat);
    }
}

/// Once a transaction cannot be applied, applying has no result.
pub proof fn lemma_applying_stays_failed(
    m: Map<OutPoint, TXOutputView>,
    txs: Seq<TransactionView>,
    k: nat,
    n: nat,
)
    requires
        k <= n,
        apply_all(m, txs, k) is None,
    ensures
        apply_all(m, txs, n) is None,
    decreases n - k,
{
    if k < n {
        lemma_applying_stays_failed(m, txs, k, (n - 1) as nat);
    }
}

/// A fresh vector with copies of `entries`.
pub fn clone_utxos(entries: &Vec<Utxo>) -> (copy: Vec<Utxo>)
    ensures
        utxos_view(copy@) == utxos_view(entries@),
{
    let mut copy: Vec<Utxo> = Vec::new();
    let mut i: usize = 0;
    while i < entries.len()
        invariant
            i <= entries@.len(),
            copy@.len() == i,
            forall|k: int| 0 <= k < i ==> copy@[k]@ == entries@[k]@,
        decreases entries@.len() - i,
    {
        copy.push(entries[i].clone());
        i = i + 1;
    }
    assert(utxos_view(copy@) =~= utxos_view(entries@));
    copy
}

/// The greedy selection over `entries`, in their order: an output is picked
/// where it is locked to `key` and what was picked before it amounts to less
/// than `amount`. Gives the sum of the picked values and their places.
pub open spec fn selection(entries: Seq<UtxoView>, key: Seq<u8>, amount: i32) -> (int, Seq<OutPoint>)
    decreases entries.len(),
{
    if entries.len() == 0 {
        (0, Seq::empty())
    } else {
        let (sum, picked) = selection(entries.drop_last(), key, amount);
        let entry = entries.last();
        if entry.output.pub_key_hash == key && sum < amount {
            (sum + entry.output.value, picked.push(point_of(entry)))
        } else {
            (sum, picked)
        }
    }
}

/// The running sum of the selection stays in the range of the amount type.
pub open spec fn selection_in_range(entries: Seq<UtxoView>, key: Seq<u8>, amount: i32) -> bool {
    forall|n: int|
        0 <= n <= entries.len() ==> i32::MIN <= (#[trigger] selection(
            entries.take(n),
            key,
            amount,
        )).0 <= i32::MAX
}

/// The places that a list of picked outputs stands for.
pub open spec fn picked_view(picked: Seq<(String, i32)>) -> Seq<OutPoint> {
    picked.map_values(|x: (String, i32)| OutPoint { txid: x.0@, vout: x.1 })
}

/// The outputs among `entries` that are locked to `key`, in their order.
pub open spec fn locked_outputs(entries: Seq<UtxoView>, key: Seq<u8>) -> Seq<TXOutputView>
    decreases entries.len(),
{
    if entries.len() == 0 {
        Seq::empty()
    } else if entries.last().output.pub_key_hash == key {
        locked_outputs(entries.drop_last(), key).push(entries.last().output)
    } else {
        locked_outputs(entries.drop_last(), key)
    }
}

/// Number of transactions that have an output among `entries`: the entries
/// that are the first of their transaction.
pub open spec fn listed_transactions(entries: Seq<UtxoView>) -> nat
    decreases entries.len(),
{
    if entries.len() == 0 {
        0
    } else {
        listed_transactions(entries.drop_last()) + if exists|k: int|
            0 <= k < entries.len() - 1 && (#[trigger] entries[k]).txid == entries.last().txid {
            0nat
        } else {
            1nat
        }
    }
}

/// Picks outputs locked to `pub_key_hash` in the order of `entries` until
/// their values reach `amount`, as [`selection`] defines it, and gives
/// their sum and their places. Fails, with `Overflow`, exactly where the
/// running sum leaves the range of the amount type.
pub fn select_spendable(entries: &Vec<Utxo>, pub_key_hash: &[u8], amount: i32) -> (found: Result<
    (i32, Vec<(String, i32)>),
    LedgerError,
>)
    ensures
        match found {
            Ok((sum, picked)) => {
                &&& selection_in_range(utxos_view(entries@), pub_key_hash@, amount)
                &&& sum == selection(utxos_view(entries@), pub_key_hash@, amount).0
                &&& picked_view(picked@) == selection(utxos_view(entries@), pub_key_hash@, amount).1
            },
            Err(e) => e == LedgerError::Overflow && !selection_in_range(
                utxos_view(entries@),
                pub_key_hash@,
                amount,
            ),
        },
{
    let ghost all = utxos_view(entries@);
    let mut picked: Vec<(String, i32)> = Vec::new();
    let mut sum: i32 = 0;
    let mut i: usize = 0;
    proof {
        assert(all.take(0) =~= Seq::<UtxoView>::empty());
    }
    while i < entries.len()
        invariant
            i <= entries@.len(),
            all == utxos_view(entries@),
            sum == selection(all.take(i as int), pub_key_hash@, amount).0,
            picked_view(picked@) == selection(all.take(i as int), pub_key_hash@, amount).1,
            forall|n: int|
                0 <= n <= i ==> i32::MIN <= (#[trigger] selection(
                    all.take(n),
                    pub_key_hash@,
                    amount,
                )).0 <= i32::MAX,
        decreases entries@.len() - i,
    {
        let entry = &entries[i];
        proof {
            assert(all.take(i + 1).drop_last() =~= all.take(i as int));
            assert(all.take(i + 1).last() == entry@);
        }
        if entry.output.is_locked_with_key(pub_key_hash) && sum < amount {
            let next: i64 = sum as i64 + entry.output.value as i64;
            if next > i32::MAX as i64 || next < i32::MIN as i64 {
                proof {
                    let n = i + 1;
                    assert(selection(all.take(n), pub_key_hash@, amount).0 == next);
                    assert(all.take(n) == utxos_view(entries@).take(n));
                }
                return Err(LedgerError::Overflow);
            }
            sum = next as i32;
            let ghost before = picked_view(picked@);
            picked.push((entry.txid.clone(), entry.vout));
            assert(picked_view(picked@) =~= before.push(point_of(entry@)));
        }
        i = i + 1;
    }
    proof {
        assert(all.take(all.len() as int) =~= all);
    }
    Ok((sum, picked))
}

/// Every output of `entries` that is locked to `pub_key_hash`, in their
/// order.
pub fn outputs_locked_to(entries: &Vec<Utxo>, pub_key_hash: &[u8]) -> (found: Vec<TXOutput>)
    ensures
        outputs_view(found@) == locked_outputs(utxos_view(entries@), pub_key_hash@),
{
    let ghost all = utxos_view(entries@);
    let mut outputs: Vec<TXOutput> = Vec::new();
    let mut i: usize = 0;
    while i < entries.len()
        invariant
            i <= entries@.len(),
            all == utxos_view(entries@),
            outputs_view(outputs@) == locked_outputs(all.take(i as int), pub_key_hash@),
        decreases entries@.len() - i,
    {
        proof {
            assert(all.take(i + 1).drop_last() =~= all.take(i as int));
            assert(all.take(i + 1).last() == entries@[i as int]@);
        }
        if entries[i].output.is_locked_with_key(pub_key_hash) {
            let ghost before = outputs_view(outputs@);
            outputs.push(entries[i].output.clone());
            assert(outputs_view(outputs@) =~= before.push(entries@[i as int]@.output));
        }
        i = i + 1;
    }
    proof {
        assert(all.take(all.len() as int) =~= all);
    }
    outputs
}

/// The chain together with the index of its unspent outputs. The index is
/// derived state: it is as current as the last rebuild or update made it.
pub struct UnspentTXUtil {
    pub chain: Blockchain,
    /// The unspent outputs listed, none of them twice.
    pub utxos: Vec<Utxo>,
}

impl UnspentTXUtil {
    /// The unspent outputs listed, in the order of the index.
    pub open spec fn entries(&self) -> Seq<UtxoView> {
        utxos_view(self.utxos@)
    }

    /// No output is listed twice.
    pub open spec fn wf(&self) -> bool {
        distinct_points(self.entries())
    }

    /// The unspent outputs listed, by place.
    pub open spec fn unspent(&self) -> Map<OutPoint, TXOutputView> {
        as_map(self.entries())
    }

    /// The index of `chain`, built by scanning it.
    pub fn new(chain: Blockchain) -> (index: UnspentTXUtil)
        ensures
            index.chain == chain,
            index.wf(),
            index.unspent() == unspent_in(all_transactions(chain_of(chain@).reverse())),
    {
        let utxos = chain.find_utxo_all();
        UnspentTXUtil { chain, utxos }
    }

    /// Discards the index and rebuilds it from the chain: it then lists
    /// exactly the outputs that some transaction of the chain has and no
    /// input of a transaction of the chain, coinbases apart, refers to.
    pub fn reindex(&mut self)
        ensures
            final(self).chain == old(self).chain,
            final(self).wf(),
            final(self).unspent() == unspent_in(
                all_transactions(chain_of(old(self).chain@).reverse()),
            ),
    {
        self.utxos = self.chain.find_utxo_all();
    }

    /// Brings the index up to date with `block`: applies its transactions in
    /// order, as [`apply_all`] defines it. Fails, with `MissingPrior`, exactly
    /// where an input names a transaction that has no output left in the
    /// index; the index is then as it was.
    pub fn update(&mut self, block: &Block) -> (done: Result<(), LedgerError>)
        requires
            old(self).wf(),
        ensures
            final(self).chain == old(self).chain,
            final(self).wf(),
            match apply_all(
                old(self).unspent(),
                block@.transactions,
                block@.transactions.len(),
            ) {
                Some(m) => done is Ok && final(self).unspent() == m,
                None => done == Err::<(), LedgerError>(LedgerError::MissingPrior) && final(self).entries() == old(self).entries(),
            },
    {
        let txs = block.get_transaction();
        let ghost views = block@.transactions;
        let ghost start = self.unspent();
        let mut work = clone_utxos(&self.utxos);
        let mut i: usize = 0;
        while i < txs.len()
            invariant
                i <= txs@.len(),
                *self == *old(self),
                self.wf(),
                start == old(self).unspent(),
                views == block@.transactions,
                views == transactions_view(txs@),
                distinct_points(utxos_view(work@)),
                apply_all(start, views, i as nat) == Some(as_map(utxos_view(work@))),
            decreases txs@.len() - i,
        {
            match apply_transaction(work, &txs[i]) {
                None => {
                    proof {
                        assert(apply_all(start, views, (i + 1) as nat) is None);
                        lemma_applying_stays_failed(start, views, (i + 1) as nat, views.len());
                    }
                    return Err(LedgerError::MissingPrior);
                },
                Some(next) => {
                    work = next;
                },
            }
            i = i + 1;
        }
        self.utxos = work;
        Ok(())
    }
    /// Number of transactions that have an unspent output in the index.
    pub fn count_transactions(&self) -> (count: usize)
        ensures
            count == listed_transactions(self.entries()),
    {
        let ghost all = self.entries();
        let mut count: usize = 0;
        let mut i: usize = 0;
        while i < self.utxos.len()
            invariant
                i <= self.utxos@.len(),
                all == self.entries(),
                count <= i,
                count == listed_transactions(all.take(i as int)),
            decreases self.utxos@.len() - i,
        {
            let mut seen: bool = false;
            let mut k: usize = 0;
            while k < i && !seen
                invariant
                    k <= i,
                    i < self.utxos@.len(),
                    all == self.entries(),
                    seen ==> exists|m: int|
                        0 <= m < i && (#[trigger] all[m]).txid == all[i as int].txid,
                    !seen ==> forall|m: int|
                        0 <= m < k ==> (#[trigger] all[m]).txid != all[i as int].txid,
                decreases i - k + if seen { 0int } else { 1int },
            {
                if self.utxos[k].txid == self.utxos[i].txid {
                    assert(all[k as int].txid == all[i as int].txid);
                    seen = true;
                } else {
                    k = k + 1;
                }
            }
            proof {
                let now = all.take(i + 1);
                assert(now.drop_last() =~= all.take(i as int));
                assert(now.last() == all[i as int]);
                if seen {
                    let m = choose|m: int|
                        0 <= m < i && (#[trigger] all[m]).txid == all[i as int].txid;
                    assert(now[m] == all[m]);
                } else {
                    assert forall|m: int| 0 <= m < now.len() - 1 implies (#[trigger] now[m]).txid
                        != now.last().txid by {
                        assert(now[m] == all[m]);
                    }
                }
            }
            if !seen {
                count = count + 1;
            }
            i = i + 1;
        }
        proof {
            assert(all.take(all.len() as int) =~= all);
        }
        count
    }

    /// Picks outputs locked to `pub_key_hash` in the order of the index until
    /// their values reach `amount`, as [`selection`] defines it, and gives
    /// their sum and their places. Fails, with `Overflow`, exactly where the
    /// running sum leaves the range of the amount type.
    pub fn find_spendable_outputs(&self, pub_key_hash: &[u8], amount: i32) -> (found: Result<
        (i32, Vec<(String, i32)>),
        LedgerError,
    >)
        ensures
            match found {
                Ok((sum, picked)) => {
                    &&& selection_in_range(self.entries(), pub_key_hash@, amount)
                    &&& sum == selection(self.entries(), pub_key_hash@, amount).0
                    &&& picked_view(picked@) == selection(self.entries(), pub_key_hash@, amount).1
                },
                Err(e) => e == LedgerError::Overflow && !selection_in_range(
                    self.entries(),
                    pub_key_hash@,
                    amount,
                ),
            },
    {
        select_spendable(&self.utxos, pub_key_hash, amount)
    }

    /// Every unspent output of the index that is locked to `pub_key_hash`,
    /// in the order of the index.
    pub fn find_utxo(&self, pub_key_hash: &[u8]) -> (found: TxOutputs)
        ensures
            found@ == locked_outputs(self.entries(), pub_key_hash@),
    {
        TxOutputs { outputs: outputs_locked_to(&self.utxos, pub_key_hash) }
    }
}

} // verus!
