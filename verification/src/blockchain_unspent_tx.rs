//! Which outputs of the chain are still unspent, found by scanning it.

use crate::block::BlockView;
use crate::blockchain::{chain_of, Blockchain};
use crate::error::LedgerError;
use crate::transaction::{
    clone_transactions, is_coinbase_tx, outputs_view, transactions_view, Transaction,
    TransactionView,
};
use crate::txs::{TXOutput, TXOutputView};
use crate::unspent_tx_util::{
    locked_outputs, outputs_locked_to, picked_view, select_spendable, selection, selection_in_range,
};
use vstd::prelude::*;

verus! {

/// The place of an output: the id of its transaction and its index there.
pub struct OutPoint {
    pub txid: Seq<char>,
    pub vout: i32,
}

/// An output that no input has spent, with its place.
#[derive(Debug)]
pub struct Utxo {
    pub txid: String,
    pub vout: i32,
    pub output: TXOutput,
}

/// An unspent output as contracts speak of it.
pub struct UtxoView {
    pub txid: Seq<char>,
    pub vout: i32,
    pub output: TXOutputView,
}

impl View for Utxo {
    type V = UtxoView;

    open spec fn view(&self) -> UtxoView {
        UtxoView { txid: self.txid@, vout: self.vout, output: self.output@ }
    }
}

impl Clone for Utxo {
    fn clone(&self) -> (copy: Self)
        ensures
            copy@ == self@,
    {
        Utxo { txid: self.txid.clone(), vout: self.vout, output: self.output.clone() }
    }
}

/// The unspent outputs as contracts speak of them.
pub open spec fn utxos_view(entries: Seq<Utxo>) -> Seq<UtxoView> {
    entries.map_values(|u: Utxo| u@)
}

/// The place of an unspent output.
pub open spec fn point_of(entry: UtxoView) -> OutPoint {
    OutPoint { txid: entry.txid, vout: entry.vout }
}

/// The transactions of `blocks`, block by block, each block's in its order.
pub open spec fn all_transactions(blocks: Seq<BlockView>) -> Seq<TransactionView>
    decreases blocks.len(),
{
    if blocks.len() == 0 {
        Seq::empty()
    } else {
        all_transactions(blocks.drop_last()) + blocks.last().transactions
    }
}

/// `tx` has an output at the place `p`.
pub open spec fn produces(tx: TransactionView, p: OutPoint) -> bool {
    tx.id == p.txid && 0 <= p.vout < tx.output.len()
}

/// `tx` spends the output at `p`: it is no coinbase, and one of its inputs
/// refers to `p`.
pub open spec fn spends(tx: TransactionView, p: OutPoint) -> bool {
    !is_coinbase_tx(tx) && exists|k: int|
        0 <= k < tx.input.len() && (#[trigger] tx.input[k]).txid == p.txid && tx.input[k].vout
            == p.vout
}

/// Some transaction of `txs` spends the output at `p`.
pub open spec fn spent_in(txs: Seq<TransactionView>, p: OutPoint) -> bool {
    exists|j: int| 0 <= j < txs.len() && spends(#[trigger] txs[j], p)
}

/// The output at `p`, taken from the first transaction of `txs` that has one
/// there.
pub open spec fn produced(txs: Seq<TransactionView>, p: OutPoint) -> Option<TXOutputView>
    decreases txs.len(),
{
    if txs.len() == 0 {
        None
    } else {
        match produced(txs.drop_last(), p) {
            Some(output) => Some(output),
            None => if produces(txs.last(), p) {
                Some(txs.last().output[p.vout as int])
            } else {
                None
            },
        }
    }
}

/// The unspent outputs of `txs`, by place: every output that some transaction
/// of `txs` has and none of them spends.
pub open spec fn unspent_in(txs: Seq<TransactionView>) -> Map<OutPoint, TXOutputView> {
    Map::new(
        |p: OutPoint| produced(txs, p) is Some && !spent_in(txs, p),
        |p: OutPoint| produced(txs, p).unwrap(),
    )
}

/// The outputs listed in `entries`, by place. Where a place is listed twice
/// the first listing counts.
pub open spec fn as_map(entries: Seq<UtxoView>) -> Map<OutPoint, TXOutputView>
    decreases entries.len(),
{
    if entries.len() == 0 {
        Map::empty()
    } else {
        let before = as_map(entries.drop_last());
        if before.contains_key(point_of(entries.last())) {
            before
        } else {
            before.insert(point_of(entries.last()), entries.last().output)
        }
    }
}

/// No place is listed twice.
pub open spec fn distinct_points(entries: Seq<UtxoView>) -> bool {
    forall|i: int, j: int|
        0 <= i < j < entries.len() ==> point_of(#[trigger] entries[i]) != point_of(
            #[trigger] entries[j],
        )
}

/// A place is listed in `entries` exactly where the map of `entries` has it.
pub proof fn lemma_as_map_domain(entries: Seq<UtxoView>, p: OutPoint)
    ensures
        as_map(entries).contains_key(p) <==> exists|i: int|
            0 <= i < entries.len() && point_of(#[trigger] entries[i]) == p,
    decreases entries.len(),
{
    if entries.len() > 0 {
        let front = entries.drop_last();
        lemma_as_map_domain(front, p);
        if as_map(entries).contains_key(p) {
            if as_map(front).contains_key(p) {
                let i = choose|i: int| 0 <= i < front.len() && point_of(#[trigger] front[i]) == p;
                assert(point_of(entries[i]) == p);
            } else {
                assert(point_of(entries[entries.len() - 1]) == p);
            }
        }
        if exists|i: int| 0 <= i < entries.len() && point_of(#[trigger] entries[i]) == p {
            let i = choose|i: int| 0 <= i < entries.len() && point_of(#[trigger] entries[i]) == p;
            if i < entries.len() - 1 {
                assert(point_of(front[i]) == p);
            } else {
                lemma_as_map_domain(front, point_of(entries.last()));
            }
        }
    }
}

/// Whether the spent places listed in `spent` hold `(txid, vout)`.
fn is_listed(spent: &Vec<(String, i32)>, txid: &String, vout: i32) -> (listed: bool)
    ensures
        listed == exists|k: int|
            0 <= k < spent@.len() && (#[trigger] spent@[k]).0@ == txid@ && spent@[k].1 == vout,
{
    let mut i: usize = 0;
    while i < spent.len()
        invariant
            i <= spent@.len(),
            forall|k: int| 0 <= k < i ==> !((#[trigger] spent@[k]).0@ == txid@ && spent@[k].1 == vout),
        decreases spent@.len() - i,
    {
        if spent[i].1 == vout && spent[i].0 == *txid {
            return true;
        }
        i = i + 1;
    }
    false
}

/// Whether `entries` lists the place `(txid, vout)`.
pub fn lists_point(entries: &Vec<Utxo>, txid: &String, vout: i32) -> (listed: bool)
    ensures
        listed == as_map(utxos_view(entries@)).contains_key(OutPoint { txid: txid@, vout }),
{
    let ghost p = OutPoint { txid: txid@, vout };
    proof {
        lemma_as_map_domain(utxos_view(entries@), p);
    }
    let mut i: usize = 0;
    while i < entries.len()
        invariant
            i <= entries@.len(),
            p == (OutPoint { txid: txid@, vout }),
            forall|k: int| 0 <= k < i ==> point_of(#[trigger] utxos_view(entries@)[k]) != p,
        decreases entries@.len() - i,
    {
        if entries[i].vout == vout && entries[i].txid == *txid {
            proof {
                lemma_as_map_domain(utxos_view(entries@), p);
                assert(point_of(utxos_view(entries@)[i as int]) == p);
            }
            return true;
        }
        i = i + 1;
    }
    false
}

/// The places that the inputs of the transactions in `txs` spend.
pub fn spent_points(txs: &Vec<Transaction>) -> (spent: Vec<(String, i32)>)
    ensures
        forall|p: OutPoint|
            spent_in(transactions_view(txs@), p) <==> exists|k: int|
                0 <= k < spent@.len() && (#[trigger] spent@[k]).0@ == p.txid && spent@[k].1
                    == p.vout,
{
    let ghost all = transactions_view(txs@);
    let mut spent: Vec<(String, i32)> = Vec::new();
    let mut i: usize = 0;
    while i < txs.len()
        invariant
            i <= txs@.len(),
            all == transactions_view(txs@),
            forall|p: OutPoint|
                spent_in(all.take(i as int), p) <==> exists|k: int|
                    0 <= k < spent@.len() && (#[trigger] spent@[k]).0@ == p.txid && spent@[k].1
                        == p.vout,
        decreases txs@.len() - i,
    {
        let tx = &txs[i];
        let ghost spent_before = spent@;
        if !tx.is_coinbase() {
            let mut j: usize = 0;
            while j < tx.input.len()
                invariant
                    j <= tx.input@.len(),
                    tx@ == all[i as int],
                    !is_coinbase_tx(tx@),
                    i < all.len(),
                    spent_before.len() <= spent@.len(),
                    spent@.take(spent_before.len() as int) == spent_before,
                    spent@.len() == spent_before.len() + j,
                    forall|m: int|
                        0 <= m < j ==> (#[trigger] spent@[spent_before.len() + m]).0@
                            == tx@.input[m].txid && spent@[spent_before.len() + m].1
                            == tx@.input[m].vout,
                decreases tx.input@.len() - j,
            {
                let ghost prior = spent@;
                spent.push((tx.input[j].txid.clone(), tx.input[j].vout));
                assert(spent@.take(spent_before.len() as int) =~= prior.take(
                    spent_before.len() as int,
                ));
                j = j + 1;
            }
        }
        proof {
            let now = all.take(i + 1);
            let before = all.take(i as int);
            assert(now.drop_last() =~= before);
            assert(now.last() == tx@);
            assert forall|p: OutPoint|
                spent_in(now, p) <==> exists|k: int|
                    0 <= k < spent@.len() && (#[trigger] spent@[k]).0@ == p.txid && spent@[k].1
                        == p.vout by {
                if spent_in(now, p) {
                    let jj = choose|jj: int| 0 <= jj < now.len() && spends(#[trigger] now[jj], p);
                    if jj < i {
                        assert(before[jj] == now[jj]);
                        assert(spent_in(before, p));
                        let k = choose|k: int|
                            0 <= k < spent_before.len() && (#[trigger] spent_before[k]).0@
                                == p.txid && spent_before[k].1 == p.vout;
                        assert(spent@[k] == spent_before[k]);
                    } else {
                        let m = choose|m: int|
                            0 <= m < tx@.input.len() && (#[trigger] tx@.input[m]).txid == p.txid
                                && tx@.input[m].vout == p.vout;
                        assert(spent@[spent_before.len() + m].0@ == p.txid);
                    }
                }
                if exists|k: int|
                    0 <= k < spent@.len() && (#[trigger] spent@[k]).0@ == p.txid && spent@[k].1
                        == p.vout {
                    let k = choose|k: int|
                        0 <= k < spent@.len() && (#[trigger] spent@[k]).0@ == p.txid && spent@[k].1
                            == p.vout;
                    if k < spent_before.len() {
                        assert(spent_before[k] == spent@[k]);
                        assert(spent_in(before, p));
                        let jj = choose|jj: int|
                            0 <= jj < before.len() && spends(#[trigger] before[jj], p);
                        assert(now[jj] == before[jj]);
                    } else {
                        let m = k - spent_before.len();
                        assert(spent@[spent_before.len() + m].0@ == tx@.input[m].txid);
                        assert(spends(now[i as int], p));
                    }
                }
            }
        }
        i = i + 1;
    }
    proof {
        assert(all.take(all.len() as int) =~= all);
    }
    spent
}

/// The unspent outputs of `txs`, as [`unspent_in`] defines them, each listed
/// once.
pub fn scan_unspent(txs: &Vec<Transaction>) -> (entries: Vec<Utxo>)
    ensures
        distinct_points(utxos_view(entries@)),
        as_map(utxos_view(entries@)) == unspent_in(transactions_view(txs@)),
{
    let ghost all = transactions_view(txs@);
    let spent = spent_points(txs);
    let mut entries: Vec<Utxo> = Vec::new();
    let mut i: usize = 0;
    while i < txs.len()
        invariant
            i <= txs@.len(),
            all == transactions_view(txs@),
            forall|p: OutPoint|
                spent_in(all, p) <==> exists|k: int|
                    0 <= k < spent@.len() && (#[trigger] spent@[k]).0@ == p.txid && spent@[k].1
                        == p.vout,
            distinct_points(utxos_view(entries@)),
            as_map(utxos_view(entries@)) =~= unspent_among(all, all.take(i as int)),
        decreases txs@.len() - i,
    {
        let tx = &txs[i];
        let mut j: usize = 0;
        while j < tx.output.len() && j <= i32::MAX as usize
            invariant
                j <= tx.output@.len(),
                j <= i32::MAX + 1,
                i < all.len(),
                tx@ == all[i as int],
                all == transactions_view(txs@),
                forall|p: OutPoint|
                    spent_in(all, p) <==> exists|k: int|
                        0 <= k < spent@.len() && (#[trigger] spent@[k]).0@ == p.txid && spent@[k].1
                            == p.vout,
                distinct_points(utxos_view(entries@)),
                as_map(utxos_view(entries@)) =~= unspent_among(all, all.take(i as int)).union_prefer_right(
                    fresh_outputs(all, all.take(i as int), tx@, j as int),
                ),
            decreases tx.output@.len() - j,
        {
            let vout: i32 = j as i32;
            let ghost p = OutPoint { txid: tx.id@, vout };
            let ghost before = utxos_view(entries@);
            if !is_listed(&spent, &tx.id, vout) && !lists_point(&entries, &tx.id, vout) {
                let entry = Utxo { txid: tx.id.clone(), vout, output: tx.output[j].clone() };
                entries.push(entry);
                proof {
                    let now = utxos_view(entries@);
                    assert(now.drop_last() =~= before);
                    assert(now.last() == entry@);
                    assert forall|a: int, b: int| 0 <= a < b < now.len() implies point_of(
                        #[trigger] now[a],
                    ) != point_of(#[trigger] now[b]) by {
                        if b == now.len() - 1 {
                            lemma_as_map_domain(before, p);
                            assert(now[a] == before[a]);
                        } else {
                            assert(now[a] == before[a]);
                            assert(now[b] == before[b]);
                        }
                    }
                }
            }
            proof {
                let now = utxos_view(entries@);
                let base = unspent_among(all, all.take(i as int));
                assert(as_map(now) =~= base.union_prefer_right(
                    fresh_outputs(all, all.take(i as int), tx@, j + 1),
                ));
            }
            j = j + 1;
        }
        proof {
            let head = all.take(i as int);
            let next = all.take(i + 1);
            assert(next.drop_last() =~= head);
            assert(next.last() == tx@);
            assert(unspent_among(all, next) =~= unspent_among(all, head).union_prefer_right(
                fresh_outputs(all, head, tx@, j as int),
            ));
        }
        i = i + 1;
    }
    proof {
        assert(all.take(all.len() as int) =~= all);
        assert(unspent_among(all, all) =~= unspent_in(all));
    }
    entries
}

/// The outputs that the transactions of `seen` have and none of `txs` spends.
pub open spec fn unspent_among(txs: Seq<TransactionView>, seen: Seq<TransactionView>) -> Map<
    OutPoint,
    TXOutputView,
> {
    Map::new(
        |p: OutPoint| produced(seen, p) is Some && !spent_in(txs, p),
        |p: OutPoint| produced(seen, p).unwrap(),
    )
}

/// The first `upto` outputs of `tx` that none of `txs` spends and none of
/// `seen` has.
pub open spec fn fresh_outputs(
    txs: Seq<TransactionView>,
    seen: Seq<TransactionView>,
    tx: TransactionView,
    upto: int,
) -> Map<OutPoint, TXOutputView> {
    Map::new(
        |p: OutPoint|
            produces(tx, p) && p.vout < upto && produced(seen, p) is None && !spent_in(txs, p),
        |p: OutPoint| tx.output[p.vout as int],
    )
}

/// The first `upto` outputs of `tx` that none of `all` spends, each with its
/// place, in order.
pub open spec fn unspent_outputs_of(tx: TransactionView, all: Seq<TransactionView>, upto: nat) -> Seq<
    UtxoView,
>
    decreases upto,
{
    if upto == 0 {
        Seq::empty()
    } else {
        let before = unspent_outputs_of(tx, all, (upto - 1) as nat);
        let j = upto - 1;
        if j < tx.output.len() && j <= i32::MAX && !spent_in(
            all,
            OutPoint { txid: tx.id, vout: j as i32 },
        ) {
            before.push(UtxoView { txid: tx.id, vout: j as i32, output: tx.output[j] })
        } else {
            before
        }
    }
}

/// The outputs of the first `k` transactions of `all` that none of `all`
/// spends, transaction by transaction.
pub open spec fn listing(all: Seq<TransactionView>, k: nat) -> Seq<UtxoView>
    decreases k,
{
    if k == 0 {
        Seq::empty()
    } else {
        listing(all, (k - 1) as nat) + unspent_outputs_of(
            all[k - 1],
            all,
            all[k - 1].output.len(),
        )
    }
}

/// `tx` has an output locked to `key` that none of `all` spends.
pub open spec fn holds_unspent(tx: TransactionView, all: Seq<TransactionView>, key: Seq<u8>) -> bool {
    exists|j: int|
        0 <= j < tx.output.len() && j <= i32::MAX && (#[trigger] tx.output[j]).pub_key_hash == key
            && !spent_in(all, OutPoint { txid: tx.id, vout: j as i32 })
}

/// Those of the first `k` transactions of `all` that hold an unspent output
/// locked to `key`, in order.
pub open spec fn holders(all: Seq<TransactionView>, k: nat, key: Seq<u8>) -> Seq<TransactionView>
    decreases k,
{
    if k == 0 {
        Seq::empty()
    } else if holds_unspent(all[k - 1], all, key) {
        holders(all, (k - 1) as nat, key).push(all[k - 1])
    } else {
        holders(all, (k - 1) as nat, key)
    }
}

/// The outputs of `txs` that none of them spends, as [`listing`] defines
/// them.
pub fn list_unspent(txs: &Vec<Transaction>) -> (entries: Vec<Utxo>)
    ensures
        utxos_view(entries@) == listing(transactions_view(txs@), txs@.len() as nat),
{
    let ghost all = transactions_view(txs@);
    let spent = spent_points(txs);
    let mut entries: Vec<Utxo> = Vec::new();
    let mut i: usize = 0;
    proof {
        assert(utxos_view(entries@) =~= listing(all, 0));
    }
    while i < txs.len()
        invariant
            i <= txs@.len(),
            all == transactions_view(txs@),
            forall|p: OutPoint|
                spent_in(all, p) <==> exists|k: int|
                    0 <= k < spent@.len() && (#[trigger] spent@[k]).0@ == p.txid && spent@[k].1
                        == p.vout,
            utxos_view(entries@) == listing(all, i as nat),
        decreases txs@.len() - i,
    {
        let tx = &txs[i];
        let ghost start = utxos_view(entries@);
        let mut j: usize = 0;
        proof {
            assert(start + unspent_outputs_of(tx@, all, 0) =~= start);
        }
        while j < tx.output.len()
            invariant
                j <= tx.output@.len(),
                i < all.len(),
                tx@ == all[i as int],
                all == transactions_view(txs@),
                forall|p: OutPoint|
                    spent_in(all, p) <==> exists|k: int|
                        0 <= k < spent@.len() && (#[trigger] spent@[k]).0@ == p.txid && spent@[k].1
                            == p.vout,
                utxos_view(entries@) == start + unspent_outputs_of(tx@, all, j as nat),
            decreases tx.output@.len() - j,
        {
            if j <= i32::MAX as usize {
                let vout: i32 = j as i32;
                if !is_listed(&spent, &tx.id, vout) {
                    let entry = Utxo { txid: tx.id.clone(), vout, output: tx.output[j].clone() };
                    let ghost before = utxos_view(entries@);
                    entries.push(entry);
                    assert(utxos_view(entries@) =~= before.push(entry@));
                    assert(utxos_view(entries@) =~= start + unspent_outputs_of(
                        tx@,
                        all,
                        (j + 1) as nat,
                    ));
                }
            }
            j = j + 1;
        }
        i = i + 1;
    }
    entries
}

/// Whether `tx` has an output locked to `key` that is not among the spent
/// places.
fn holds_for(tx: &Transaction, spent: &Vec<(String, i32)>, key: &[u8]) -> (holds: bool)
    ensures
        holds == exists|j: int|
            0 <= j < tx@.output.len() && j <= i32::MAX && (#[trigger] tx@.output[j]).pub_key_hash
                == key@ && !exists|k: int|
                0 <= k < spent@.len() && (#[trigger] spent@[k]).0@ == tx@.id && spent@[k].1 == j,
{
    let mut j: usize = 0;
    while j < tx.output.len() && j <= i32::MAX as usize
        invariant
            j <= tx.output@.len(),
            j <= i32::MAX + 1,
            forall|m: int|
                0 <= m < j ==> !((#[trigger] tx@.output[m]).pub_key_hash == key@ && !exists|k: int|
                    0 <= k < spent@.len() && (#[trigger] spent@[k]).0@ == tx@.id && spent@[k].1
                        == m),
        decreases tx.output@.len() - j,
    {
        if tx.output[j].is_locked_with_key(key) && !is_listed(spent, &tx.id, j as i32) {
            assert(tx@.output[j as int].pub_key_hash == key@);
            return true;
        }
        j = j + 1;
    }
    false
}

impl Blockchain {
    /// The transactions of the chain that hold an output locked to
    /// `pub_key_hash` which no input of the chain, coinbases apart, refers to;
    /// oldest first.
    pub fn find_unspent_transactions(&self, pub_key_hash: &[u8]) -> (found: Vec<Transaction>)
        ensures
            transactions_view(found@) == holders(
                all_transactions(chain_of(self@).reverse()),
                all_transactions(chain_of(self@).reverse()).len(),
                pub_key_hash@,
            ),
    {
        let txs = self.chain_transactions();
        let ghost all = transactions_view(txs@);
        let spent = spent_points(&txs);
        let mut found: Vec<Transaction> = Vec::new();
        let mut i: usize = 0;
        proof {
            assert(transactions_view(found@) =~= holders(all, 0, pub_key_hash@));
        }
        while i < txs.len()
            invariant
                i <= txs@.len(),
                all == transactions_view(txs@),
                forall|p: OutPoint|
                    spent_in(all, p) <==> exists|k: int|
                        0 <= k < spent@.len() && (#[trigger] spent@[k]).0@ == p.txid
                            && spent@[k].1 == p.vout,
                transactions_view(found@) == holders(all, i as nat, pub_key_hash@),
            decreases txs@.len() - i,
        {
            let tx = &txs[i];
            let holds = holds_for(tx, &spent, pub_key_hash);
            proof {
                if holds {
                    let j = choose|j: int|
                        0 <= j < tx@.output.len() && j <= i32::MAX && (
                        #[trigger] tx@.output[j]).pub_key_hash == pub_key_hash@ && !exists|k: int|
                            0 <= k < spent@.len() && (#[trigger] spent@[k]).0@ == tx@.id
                                && spent@[k].1 == j;
                    assert(!spent_in(all, OutPoint { txid: tx@.id, vout: j as i32 }));
                    assert(holds_unspent(tx@, all, pub_key_hash@));
                }
                if holds_unspent(tx@, all, pub_key_hash@) {
                    let j = choose|j: int|
                        0 <= j < tx@.output.len() && j <= i32::MAX && (
                        #[trigger] tx@.output[j]).pub_key_hash == pub_key_hash@ && !spent_in(
                            all,
                            OutPoint { txid: tx@.id, vout: j as i32 },
                        );
                    assert(holds);
                }
            }
            if holds {
                let ghost before = transactions_view(found@);
                found.push(tx.clone());
                assert(transactions_view(found@) =~= before.push(tx@));
            }
            i = i + 1;
        }
        found
    }

    /// Every output of the chain that is locked to `address` and that no
    /// input of the chain, coinbases apart, refers to; oldest first.
    pub fn find_utxo(&self, address: &[u8]) -> (found: Vec<TXOutput>)
        ensures
            outputs_view(found@) == locked_outputs(
                listing(
                    all_transactions(chain_of(self@).reverse()),
                    all_transactions(chain_of(self@).reverse()).len(),
                ),
                address@,
            ),
    {
        let txs = self.chain_transactions();
        let entries = list_unspent(&txs);
        outputs_locked_to(&entries, address)
    }

    /// Picks unspent outputs of the chain that are locked to `pub_key_hash`,
    /// oldest first, until their values reach `amount`, as [`selection`]
    /// defines it. Fails, with `Overflow`, exactly where the running sum
    /// leaves the range of the amount type.
    pub fn find_spendable_outputs(&self, pub_key_hash: &[u8], amount: i32) -> (found: Result<
        (i32, Vec<(String, i32)>),
        LedgerError,
    >)
        ensures
            match found {
                Ok((sum, picked)) => {
                    let entries = listing(
                        all_transactions(chain_of(self@).reverse()),
                        all_transactions(chain_of(self@).reverse()).len(),
                    );
                    &&& selection_in_range(entries, pub_key_hash@, amount)
                    &&& sum == selection(entries, pub_key_hash@, amount).0
                    &&& picked_view(picked@) == selection(entries, pub_key_hash@, amount).1
                },
                Err(e) => e == LedgerError::Overflow && !selection_in_range(
                    listing(
                        all_transactions(chain_of(self@).reverse()),
                        all_transactions(chain_of(self@).reverse()).len(),
                    ),
                    pub_key_hash@,
                    amount,
                ),
            },
    {
        let txs = self.chain_transactions();
        let entries = list_unspent(&txs);
        select_spendable(&entries, pub_key_hash, amount)
    }

    /// The transactions of the chain, oldest block first.
    pub fn chain_transactions(&self) -> (txs: Vec<Transaction>)
        ensures
            transactions_view(txs@) == all_transactions(chain_of(self@).reverse()),
    {
        let places = self.chain_places();
        let ghost chain = chain_of(self@);
        let ghost history = chain.reverse();
        let mut txs: Vec<Transaction> = Vec::new();
        let mut left: usize = places.len();
        while left > 0
            invariant
                left <= places@.len(),
                chain == chain_of(self@),
                history == chain.reverse(),
                places@.len() == chain.len(),
                forall|k: int|
                    0 <= k < places@.len() ==> (#[trigger] places@[k]) < self@.blocks.len()
                        && self@.blocks[places@[k] as int] == chain[k],
                transactions_view(txs@) == all_transactions(
                    history.take(places@.len() - left),
                ),
            decreases left,
        {
            left = left - 1;
            let block = self.block_at(places[left]);
            let ghost before = transactions_view(txs@);
            let mut more = clone_transactions(block.get_transaction());
            txs.append(&mut more);
            proof {
                let done = places@.len() - left;
                assert(history.take(done).drop_last() =~= history.take(done - 1));
                assert(history.take(done).last() == chain[left as int]);
                assert(transactions_view(txs@) =~= before + chain[left as int].transactions);
            }
        }
        proof {
            assert(history.take(history.len() as int) =~= history);
        }
        txs
    }

    /// Every unspent output of the chain, each listed once: the outputs that
    /// some transaction of the chain has and no input of a transaction of the
    /// chain, coinbases apart, refers to.
    pub fn find_utxo_all(&self) -> (entries: Vec<Utxo>)
        ensures
            distinct_points(utxos_view(entries@)),
            as_map(utxos_view(entries@)) == unspent_in(
                all_transactions(chain_of(self@).reverse()),
            ),
    {
        let txs = self.chain_transactions();
        scan_unspent(&txs)
    }
}

} // verus!
