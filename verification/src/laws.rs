//! Laws of blocks and transactions: what holds of mining, signing and
//! verifying taken together.

use crate::block::{
    block_digest, header_digest, header_of, keeps_going, mined_from, mining_breaks, mining_exhausts,
    mining_fails, no_stop_between, unsealed, BlockView,
};
use crate::blockchain::{chain_verdict, ChainView};
use crate::constants::DIFFICULTY;
use crate::signature::{ed25519_signature, signature_holds};
use crate::transaction::{
    is_coinbase_tx, priors_known, referenced_lock, scratch_after, sign_outcome, signed_message,
    signing_digest, trimmed, verify_from, verify_outcome, TransactionView,
};
use vstd::prelude::*;

verus! {

/// The hash of a mined block starts with as many `'0'` characters as the
/// difficulty of the ledger asks for, and the digest re-derived from the
/// stored fields of the block is that hash.
pub proof fn law_mined_block_is_valid(
    block: BlockView,
    txs: Seq<TransactionView>,
    prev_hash: Seq<char>,
    height: i32,
    timestamp: u128,
)
    requires
        mined_from(block, txs, prev_hash, height, timestamp),
    ensures
        block.difficulty == DIFFICULTY,
        block.hash.len() >= DIFFICULTY,
        forall|i: int| 0 <= i < DIFFICULTY ==> block.hash[i] == '0',
        block_digest(block) == Some(block.hash),
{
}

/// Mining ends in one way only: where a block is mined from given
/// transactions, predecessor, height and time, mining them does not fail; and
/// it does not fail for two reasons at once.
pub proof fn law_mining_ends_one_way(
    block: BlockView,
    txs: Seq<TransactionView>,
    prev_hash: Seq<char>,
    height: i32,
    timestamp: u128,
    e: crate::error::LedgerError,
)
    ensures
        mined_from(block, txs, prev_hash, height, timestamp) ==> !mining_fails(
            unsealed(txs, prev_hash, height, timestamp),
            e,
        ),
        !(mining_breaks(unsealed(txs, prev_hash, height, timestamp), 0) && mining_exhausts(
            unsealed(txs, prev_hash, height, timestamp),
            0,
        )),
{
    let start = unsealed(txs, prev_hash, height, timestamp);
    if header_of(start) is Some {
        let header = header_of(start).unwrap();
        if mining_breaks(start, 0) {
            let m = choose|m: int|
                0 <= m <= i32::MAX && no_stop_between(header, 0, m) && header_digest(
                    header,
                    #[trigger] (m as i32),
                ) is None;
            assert(!keeps_going(header, m as i32));
            if mined_from(block, txs, prev_hash, height, timestamp) {
                assert(header_of(block) == Some(header));
                let n = block.nonce as int;
                if m < n {
                    assert(keeps_going(header, m as i32));
                } else if n < m {
                    assert(keeps_going(header, n as i32));
                }
            }
            if mining_exhausts(start, 0) {
                assert(keeps_going(header, m as i32));
            }
        }
        if mining_exhausts(start, 0) && mined_from(block, txs, prev_hash, height, timestamp) {
            assert(header_of(block) == Some(header));
            assert(keeps_going(header, (block.nonce as int) as i32));
        }
    }
}

/// A coinbase transaction verifies, whatever is known of other transactions
/// and whatever chain it is held against.
pub proof fn law_coinbase_verifies(tx: TransactionView, known: Seq<TransactionView>, c: ChainView)
    requires
        is_coinbase_tx(tx),
    ensures
        verify_outcome(tx, known) == Ok::<bool, crate::error::LedgerError>(true),
        chain_verdict(c, tx) == Ok::<bool, crate::error::LedgerError>(true),
{
}

/// Signing leaves the signing digests as they were: the digest made for an
/// input of the signed transaction is the digest its signature was made over.
pub proof fn law_signing_keeps_digests(
    tx: TransactionView,
    known: Seq<TransactionView>,
    key: Seq<u8>,
    k: nat,
)
    requires
        sign_outcome(tx, known, key) is Ok,
        k <= tx.input.len(),
    ensures
        scratch_after(sign_outcome(tx, known, key).unwrap(), known, k) == scratch_after(
            tx,
            known,
            k,
        ),
    decreases k,
{
    let signed = sign_outcome(tx, known, key).unwrap();
    if is_coinbase_tx(tx) {
    } else if k == 0 {
        assert(trimmed(signed).input =~= trimmed(tx).input);
    } else {
        law_signing_keeps_digests(tx, known, key, (k - 1) as nat);
    }
}

/// A transaction that is no coinbase, signed with a key whose signatures
/// stand under the public keys its inputs carry, verifies.
pub proof fn law_signed_transaction_verifies(
    tx: TransactionView,
    known: Seq<TransactionView>,
    key: Seq<u8>,
)
    requires
        !is_coinbase_tx(tx),
        sign_outcome(tx, known, key) is Ok,
        forall|i: int|
            0 <= i < tx.input.len() ==> signature_holds(
                signed_message(tx, known, i as nat),
                (#[trigger] tx.input[i]).pub_key,
                ed25519_signature(signed_message(tx, known, i as nat), key),
            ),
    ensures
        verify_outcome(sign_outcome(tx, known, key).unwrap(), known) == Ok::<
            bool,
            crate::error::LedgerError,
        >(true),
{
    let signed = sign_outcome(tx, known, key).unwrap();
    assert(!is_coinbase_tx(signed)) by {
        if signed.input.len() == 1 {
            assert(signed.input[0].txid == tx.input[0].txid);
        }
    }
    assert(priors_known(signed, known)) by {
        assert forall|i: int| 0 <= i < signed.input.len() implies referenced_lock(
            known,
            #[trigger] signed.input[i],
        ) is Some by {
            assert(referenced_lock(known, tx.input[i]) is Some);
        }
    }
    lemma_verified_from(tx, known, key, 0);
}

/// From input `i` on, every signature of the signed transaction stands.
proof fn lemma_verified_from(tx: TransactionView, known: Seq<TransactionView>, key: Seq<u8>, i: nat)
    requires
        !is_coinbase_tx(tx),
        sign_outcome(tx, known, key) is Ok,
        i <= tx.input.len(),
        forall|j: int|
            0 <= j < tx.input.len() ==> signature_holds(
                signed_message(tx, known, j as nat),
                (#[trigger] tx.input[j]).pub_key,
                ed25519_signature(signed_message(tx, known, j as nat), key),
            ),
    ensures
        verify_from(sign_outcome(tx, known, key).unwrap(), known, i) == Ok::<
            bool,
            crate::error::LedgerError,
        >(true),
    decreases tx.input.len() - i,
{
    let signed = sign_outcome(tx, known, key).unwrap();
    if i < tx.input.len() {
        law_signing_keeps_digests(tx, known, key, i + 1);
        lemma_scratch_defined(tx, known, i + 1, tx.input.len());
        assert(tx.input[i as int].pub_key == signed.input[i as int].pub_key);
        lemma_verified_from(tx, known, key, i + 1);
    }
}

/// Where the scratch copy exists after `n` inputs it exists after fewer.
proof fn lemma_scratch_defined(tx: TransactionView, known: Seq<TransactionView>, k: nat, n: nat)
    requires
        k <= n,
        scratch_after(tx, known, n) is Some,
    ensures
        scratch_after(tx, known, k) is Some,
    decreases n - k,
{
    if k < n {
        lemma_scratch_defined(tx, known, k + 1, n);
    }
}

/// A signature that does not stand is found out: where every input before
/// input `i` carries a signature that stands and input `i` does not, the
/// transaction does not verify.
pub proof fn law_bad_signature_is_refused(tx: TransactionView, known: Seq<TransactionView>, i: nat)
    requires
        !is_coinbase_tx(tx),
        priors_known(tx, known),
        i < tx.input.len(),
        signing_digest(tx, known, i) is Some,
        forall|j: int|
            0 <= j < i ==> signature_holds(
                signed_message(tx, known, j as nat),
                (#[trigger] tx.input[j]).pub_key,
                tx.input[j].signature,
            ),
        !signature_holds(
            signed_message(tx, known, i),
            tx.input[i as int].pub_key,
            tx.input[i as int].signature,
        ),
    ensures
        verify_outcome(tx, known) == Ok::<bool, crate::error::LedgerError>(false),
{
    lemma_refused_from(tx, known, i, 0);
}

/// From input `from` on, checking ends at input `i` with a refusal.
proof fn lemma_refused_from(tx: TransactionView, known: Seq<TransactionView>, i: nat, from: nat)
    requires
        from <= i < tx.input.len(),
        signing_digest(tx, known, i) is Some,
        forall|j: int|
            0 <= j < i ==> signature_holds(
                signed_message(tx, known, j as nat),
                (#[trigger] tx.input[j]).pub_key,
                tx.input[j].signature,
            ),
        !signature_holds(
            signed_message(tx, known, i),
            tx.input[i as int].pub_key,
            tx.input[i as int].signature,
        ),
    ensures
        verify_from(tx, known, from) == Ok::<bool, crate::error::LedgerError>(false),
    decreases i - from,
{
    if from < i {
        lemma_scratch_defined(tx, known, from + 1, i + 1);
        assert(signature_holds(
            signed_message(tx, known, from),
            tx.input[from as int].pub_key,
            tx.input[from as int].signature,
        ));
        lemma_refused_from(tx, known, i, from + 1);
    }
}

} // verus!
