//! Transactions: how they are built, identified, signed and verified.

use crate::address::hash_of_address;
use crate::blockchain_unspent_tx::{OutPoint, UtxoView};
use crate::codec::{
    encode_transaction, transaction_bytes, InputFields, InputParts, OutputFields, OutputParts,
    TransactionFields, TransactionParts,
};
use crate::constants::REWARD;
use crate::digest::{hex_text, ripemd160, ripemd160_bytes, sha256, sha256_hex};
use crate::error::LedgerError;
use crate::signature::{check_signature, ed25519_sign, ed25519_signature, signature_holds};
use crate::txs::{
    bytes_to_vec, input_fields, input_of_fields, output_fields, output_of_fields, TXInput,
    TXInputView, TXOutput, TXOutputView,
};
use crate::unspent_tx_util::{picked_view, selection, selection_in_range, UnspentTXUtil};
use crate::wallet::WalletView;
use crate::wallet_chain::WalletChain;
use vstd::prelude::*;
use vstd::utf8::encode_utf8;

verus! {

/// A transfer of value: it spends the outputs its inputs refer to and locks
/// the value anew in its own outputs.
#[derive(Debug)]
pub struct Transaction {
    /// Digest of the transaction as it stood before any input was signed.
    pub id: String,
    pub input: Vec<TXInput>,
    pub output: Vec<TXOutput>,
}

/// A transaction as contracts speak of it.
pub struct TransactionView {
    pub id: Seq<char>,
    pub input: Seq<TXInputView>,
    pub output: Seq<TXOutputView>,
}

/// The inputs as contracts speak of them.
pub open spec fn inputs_view(inputs: Seq<TXInput>) -> Seq<TXInputView> {
    inputs.map_values(|i: TXInput| i@)
}

/// The outputs as contracts speak of them.
pub open spec fn outputs_view(outputs: Seq<TXOutput>) -> Seq<TXOutputView> {
    outputs.map_values(|o: TXOutput| o@)
}

/// The transactions as contracts speak of them.
pub open spec fn transactions_view(txs: Seq<Transaction>) -> Seq<TransactionView> {
    txs.map_values(|t: Transaction| t@)
}

impl View for Transaction {
    type V = TransactionView;

    open spec fn view(&self) -> TransactionView {
        TransactionView {
            id: self.id@,
            input: inputs_view(self.input@),
            output: outputs_view(self.output@),
        }
    }
}

/// The transaction as the tuple that is encoded.
pub open spec fn transaction_fields(tx: TransactionView) -> TransactionFields {
    (
        tx.id,
        tx.input.map_values(|i: TXInputView| input_fields(i)),
        tx.output.map_values(|o: TXOutputView| output_fields(o)),
    )
}

/// The transaction that an encoded tuple stands for.
pub open spec fn transaction_of_fields(fields: TransactionFields) -> TransactionView {
    TransactionView {
        id: fields.0,
        input: fields.1.map_values(|i: InputFields| input_of_fields(i)),
        output: fields.2.map_values(|o: OutputFields| output_of_fields(o)),
    }
}

/// The digest of a transaction: SHA-256 over its canonical encoding, as
/// lower-case hexadecimal text. Nothing where it cannot be encoded.
pub open spec fn digest_of(tx: TransactionView) -> Option<Seq<char>> {
    match transaction_bytes(transaction_fields(tx)) {
        Some(bytes) => Some(hex_text(sha256(bytes))),
        None => None,
    }
}

/// A coinbase transaction has exactly one input, and that input names no
/// transaction and carries the index `-1`.
pub open spec fn is_coinbase_tx(tx: TransactionView) -> bool {
    tx.input.len() == 1 && tx.input[0].txid.len() == 0 && tx.input[0].vout == -1
}

/// The transaction without what signing adds: signature and public key of
/// every input are empty.
pub open spec fn trimmed(tx: TransactionView) -> TransactionView {
    TransactionView {
        id: tx.id,
        input: tx.input.map_values(
            |i: TXInputView|
                TXInputView {
                    txid: i.txid,
                    vout: i.vout,
                    signature: Seq::empty(),
                    pub_key: Seq::empty(),
                },
        ),
        output: tx.output,
    }
}

/// The memo a coinbase carries: `data`, or a note of the beneficiary where
/// `data` is empty.
pub open spec fn coinbase_memo(to: Seq<char>, data: Seq<char>) -> Seq<char> {
    if data.len() == 0 {
        "Reward to '"@ + to + "'"@
    } else {
        data
    }
}

/// The coinbase transaction that pays the reward to `lock` and carries
/// `memo`, before its id is set.
pub open spec fn coinbase_body(lock: Seq<u8>, memo: Seq<u8>) -> TransactionView {
    TransactionView {
        id: Seq::empty(),
        input: seq![
            TXInputView { txid: Seq::empty(), vout: -1i32, signature: Seq::empty(), pub_key: memo },
        ],
        output: seq![TXOutputView { value: REWARD, pub_key_hash: lock }],
    }
}

/// The coinbase transaction that pays the reward to the address `to` with
/// the memo that `data` asks for: a single input that names no transaction,
/// carries the index `-1` and holds the memo in place of a key; a single
/// output of the reward, locked to the hash the address stands for; and as id
/// the digest of the transaction with an empty id. Nothing where `to` is no
/// address or there is no digest.
pub open spec fn coinbase_for(to: Seq<char>, data: Seq<char>) -> Option<TransactionView> {
    match hash_of_address(to) {
        None => None,
        Some(lock) => {
            let body = coinbase_body(lock, encode_utf8(coinbase_memo(to, data)));
            match digest_of(body) {
                None => None,
                Some(d) => Some(TransactionView { id: d, input: body.input, output: body.output }),
            }
        },
    }
}

/// The inputs of a transfer: one for each picked output, without signature
/// and with the sender's public key.
pub open spec fn transfer_inputs(picked: Seq<OutPoint>, key: Seq<u8>) -> Seq<TXInputView> {
    picked.map_values(
        |p: OutPoint|
            TXInputView { txid: p.txid, vout: p.vout, signature: Seq::empty(), pub_key: key },
    )
}

/// The outputs of a transfer: `amount` to the recipient, and what the picked
/// outputs hold beyond it back to the sender.
pub open spec fn transfer_outputs(
    amount: i32,
    total: int,
    to_lock: Seq<u8>,
    from_lock: Seq<u8>,
) -> Seq<TXOutputView> {
    if total > amount {
        seq![
            TXOutputView { value: amount, pub_key_hash: to_lock },
            TXOutputView { value: (total - amount) as i32, pub_key_hash: from_lock },
        ]
    } else {
        seq![TXOutputView { value: amount, pub_key_hash: to_lock }]
    }
}

/// The transaction that sends `amount` from the address `from` to the
/// address `to`, given the unspent outputs `entries`, the wallet held for
/// `from` and whether one is held for `to`; or why there is none.
///
/// Both wallets must be held. Outputs locked to the sender's key are picked
/// in the order of `entries` until they cover the amount; where they do not,
/// the funds are insufficient. Each picked output becomes an unsigned input
/// with the sender's key; the amount goes to the recipient and the rest, if
/// any, back to the sender. The id is the digest of the transaction so built.
pub open spec fn transfer(
    from: Seq<char>,
    to: Seq<char>,
    amount: i32,
    entries: Seq<UtxoView>,
    sender: Option<WalletView>,
    recipient_held: bool,
) -> Result<TransactionView, LedgerError> {
    if sender is None || !recipient_held {
        Err(LedgerError::WalletNotFound)
    } else {
        let key = sender.unwrap().public_key;
        let lock = ripemd160(key);
        let (total, picked) = selection(entries, lock, amount);
        if !selection_in_range(entries, lock, amount) {
            Err(LedgerError::Overflow)
        } else if total < amount {
            Err(LedgerError::InsufficientFunds)
        } else if total - amount > i32::MAX {
            Err(LedgerError::Overflow)
        } else if hash_of_address(to) is None {
            Err(LedgerError::InvalidAddress)
        } else if total > amount && hash_of_address(from) is None {
            Err(LedgerError::InvalidAddress)
        } else {
            let body = TransactionView {
                id: Seq::empty(),
                input: transfer_inputs(picked, key),
                output: transfer_outputs(
                    amount,
                    total,
                    hash_of_address(to).unwrap(),
                    if total > amount {
                        hash_of_address(from).unwrap()
                    } else {
                        Seq::empty()
                    },
                ),
            };
            match digest_of(body) {
                None => Err(LedgerError::Encoding),
                Some(d) => Ok(TransactionView { id: d, input: body.input, output: body.output }),
            }
        }
    }
}

/// The transaction in `known` that carries `id`; the last of them where
/// several do.
pub open spec fn lookup(known: Seq<TransactionView>, id: Seq<char>) -> Option<TransactionView>
    decreases known.len(),
{
    if known.len() == 0 {
        None
    } else if known.last().id == id {
        Some(known.last())
    } else {
        lookup(known.drop_last(), id)
    }
}

/// The hash that locks the output `input` refers to. There is none where the
/// transaction it names is not among `known`, carries an empty id, or has no
/// output at that index.
pub open spec fn referenced_lock(known: Seq<TransactionView>, input: TXInputView) -> Option<
    Seq<u8>,
> {
    match lookup(known, input.txid) {
        Some(prior) => if prior.id.len() > 0 && 0 <= input.vout < prior.output.len() {
            Some(prior.output[input.vout as int].pub_key_hash)
        } else {
            None
        },
        None => None,
    }
}

/// Every input of `tx` refers to an output of a known transaction.
pub open spec fn priors_known(tx: TransactionView, known: Seq<TransactionView>) -> bool {
    forall|i: int| 0 <= i < tx.input.len() ==> referenced_lock(known, #[trigger] tx.input[i]) is Some
}

/// The scratch copy with input `i` carrying `lock` in place of a key, and no
/// signature.
pub open spec fn with_lock(scratch: TransactionView, i: int, lock: Seq<u8>) -> TransactionView {
    TransactionView {
        id: scratch.id,
        input: scratch.input.update(
            i,
            TXInputView {
                txid: scratch.input[i].txid,
                vout: scratch.input[i].vout,
                signature: Seq::empty(),
                pub_key: lock,
            },
        ),
        output: scratch.output,
    }
}

/// The scratch copy once the first `k` inputs have been gone through. It
/// starts as the trimmed transaction. Going through input `i` puts the lock
/// of the output it refers to in place of its key, and then sets the copy's id
/// to the digest of the copy as it stands: so the locks of the inputs before
/// `i`, and the digest made for input `i - 1`, are part of what is hashed for
/// input `i`. Nothing where a lock is missing or a digest cannot be made.
pub open spec fn scratch_after(tx: TransactionView, known: Seq<TransactionView>, k: nat) -> Option<
    TransactionView,
>
    decreases k,
{
    if k == 0 {
        Some(trimmed(tx))
    } else {
        match scratch_after(tx, known, (k - 1) as nat) {
            None => None,
            Some(before) => match referenced_lock(known, tx.input[k - 1]) {
                None => None,
                Some(lock) => {
                    let locked = with_lock(before, k - 1, lock);
                    match digest_of(locked) {
                        None => None,
                        Some(d) => Some(
                            TransactionView { id: d, input: locked.input, output: locked.output },
                        ),
                    }
                },
            },
        }
    }
}

/// The digest that the signature of input `i` is made over.
pub open spec fn signing_digest(tx: TransactionView, known: Seq<TransactionView>, i: nat) -> Option<
    Seq<char>,
> {
    match scratch_after(tx, known, i + 1) {
        Some(scratch) => Some(scratch.id),
        None => None,
    }
}

/// The bytes that are signed for input `i`: the text of its signing digest.
pub open spec fn signed_message(tx: TransactionView, known: Seq<TransactionView>, i: nat) -> Seq<
    u8,
> {
    encode_utf8(signing_digest(tx, known, i).unwrap())
}

/// What signing `tx` with `key` gives. A coinbase is left as it is. Any other
/// transaction needs a key of 64 bytes or more, a known prior output for every
/// input and a digest for every input; it then carries, in each input, the
/// signature of that input's signing digest, and is unchanged otherwise.
pub open spec fn sign_outcome(tx: TransactionView, known: Seq<TransactionView>, key: Seq<u8>) -> Result<
    TransactionView,
    LedgerError,
> {
    if is_coinbase_tx(tx) {
        Ok(tx)
    } else if key.len() < 64 {
        Err(LedgerError::InvalidKey)
    } else if !priors_known(tx, known) {
        Err(LedgerError::MissingPrior)
    } else if scratch_after(tx, known, tx.input.len()) is None {
        Err(LedgerError::Encoding)
    } else {
        Ok(
            TransactionView {
                id: tx.id,
                input: Seq::new(
                    tx.input.len(),
                    |i: int|
                        TXInputView {
                            txid: tx.input[i].txid,
                            vout: tx.input[i].vout,
                            signature: ed25519_signature(
                                signed_message(tx, known, i as nat),
                                key,
                            ),
                            pub_key: tx.input[i].pub_key,
                        },
                ),
                output: tx.output,
            },
        )
    }
}

/// What checking the inputs from `i` on gives, in order: the first input
/// without a digest ends the check with `Encoding`, the first whose signature
/// does not stand ends it with `false`.
pub open spec fn verify_from(tx: TransactionView, known: Seq<TransactionView>, i: nat) -> Result<
    bool,
    LedgerError,
>
    decreases tx.input.len() - i,
{
    if i >= tx.input.len() {
        Ok(true)
    } else {
        match signing_digest(tx, known, i) {
            None => Err(LedgerError::Encoding),
            Some(d) => if signature_holds(
                encode_utf8(d),
                tx.input[i as int].pub_key,
                tx.input[i as int].signature,
            ) {
                verify_from(tx, known, i + 1)
            } else {
                Ok(false)
            },
        }
    }
}

/// What verifying `tx` gives. A coinbase verifies. Any other transaction
/// needs a known prior output for every input, and then verifies where every
/// input's signature stands for that input's signing digest under the key the
/// input itself carries.
pub open spec fn verify_outcome(tx: TransactionView, known: Seq<TransactionView>) -> Result<
    bool,
    LedgerError,
> {
    if is_coinbase_tx(tx) {
        Ok(true)
    } else if !priors_known(tx, known) {
        Err(LedgerError::MissingPrior)
    } else {
        verify_from(tx, known, 0)
    }
}

/// Index in `known` of the transaction that [`lookup`] finds for `id`.
pub fn find_prior(known: &Vec<Transaction>, id: &String) -> (found: Option<usize>)
    ensures
        match found {
            Some(k) => k < known@.len() && lookup(transactions_view(known@), id@) == Some(
                known@[k as int]@,
            ),
            None => lookup(transactions_view(known@), id@) is None,
        },
{
    let mut found: Option<usize> = None;
    let mut i: usize = 0;
    while i < known.len()
        invariant
            i <= known@.len(),
            match found {
                Some(k) => k < i && lookup(transactions_view(known@).take(i as int), id@) == Some(
                    known@[k as int]@,
                ),
                None => lookup(transactions_view(known@).take(i as int), id@) is None,
            },
        decreases known@.len() - i,
    {
        proof {
            let all = transactions_view(known@);
            assert(all.take(i + 1).drop_last() =~= all.take(i as int));
            assert(all.take(i + 1).last() == known@[i as int]@);
        }
        if known[i].id == *id {
            found = Some(i);
        }
        i = i + 1;
    }
    proof {
        let all = transactions_view(known@);
        assert(all.take(all.len() as int) =~= all);
    }
    found
}

/// The hash that locks the output `input` refers to, as [`referenced_lock`]
/// defines it.
pub fn find_lock(known: &Vec<Transaction>, input: &TXInput) -> (lock: Option<Vec<u8>>)
    ensures
        match lock {
            Some(l) => referenced_lock(transactions_view(known@), input@) == Some(l@),
            None => referenced_lock(transactions_view(known@), input@) is None,
        },
{
    match find_prior(known, &input.txid) {
        None => None,
        Some(k) => {
            let prior = &known[k];
            if prior.id.as_str().is_empty() || input.vout < 0 {
                return None;
            }
            let at: usize = input.vout as usize;
            if at >= prior.output.len() {
                return None;
            }
            Some(bytes_to_vec(prior.output[at].pub_key_hash.as_slice()))
        },
    }
}

/// The locks of the outputs that the inputs of `tx` refer to, in order;
/// nothing where one of them is missing.
pub fn find_locks(tx: &Transaction, known: &Vec<Transaction>) -> (locks: Option<Vec<Vec<u8>>>)
    ensures
        match locks {
            Some(ls) => priors_known(tx@, transactions_view(known@)) && ls@.len()
                == tx@.input.len() && forall|k: int|
                #![trigger ls@[k]]
                #![trigger tx@.input[k]]
                0 <= k < ls@.len() ==> referenced_lock(
                    transactions_view(known@),
                    tx@.input[k],
                ) == Some(ls@[k]@),
            None => !priors_known(tx@, transactions_view(known@)),
        },
{
    let mut locks: Vec<Vec<u8>> = Vec::new();
    let mut i: usize = 0;
    while i < tx.input.len()
        invariant
            i <= tx.input@.len(),
            locks@.len() == i,
            forall|k: int|
                #![trigger locks@[k]]
                #![trigger tx@.input[k]]
                0 <= k < i ==> referenced_lock(transactions_view(known@), tx@.input[k]) == Some(
                    locks@[k]@,
                ),
        decreases tx.input@.len() - i,
    {
        match find_lock(known, &tx.input[i]) {
            None => {
                assert(referenced_lock(transactions_view(known@), tx@.input[i as int]) is None);
                return None;
            },
            Some(lock) => {
                locks.push(lock);
            },
        }
        i = i + 1;
    }
    Some(locks)
}

/// A fresh vector with copies of `inputs`.
pub fn clone_inputs(inputs: &Vec<TXInput>) -> (copy: Vec<TXInput>)
    ensures
        inputs_view(copy@) == inputs_view(inputs@),
{
    let mut copy: Vec<TXInput> = Vec::new();
    let mut i: usize = 0;
    while i < inputs.len()
        invariant
            i <= inputs@.len(),
            copy@.len() == i,
            forall|k: int| 0 <= k < i ==> copy@[k]@ == inputs@[k]@,
        decreases inputs@.len() - i,
    {
        copy.push(inputs[i].clone());
        i = i + 1;
    }
    assert(inputs_view(copy@) =~= inputs_view(inputs@));
    copy
}

/// A fresh vector with copies of `outputs`.
pub fn clone_outputs(outputs: &Vec<TXOutput>) -> (copy: Vec<TXOutput>)
    ensures
        outputs_view(copy@) == outputs_view(outputs@),
{
    let mut copy: Vec<TXOutput> = Vec::new();
    let mut i: usize = 0;
    while i < outputs.len()
        invariant
            i <= outputs@.len(),
            copy@.len() == i,
            forall|k: int| 0 <= k < i ==> copy@[k]@ == outputs@[k]@,
        decreases outputs@.len() - i,
    {
        copy.push(outputs[i].clone());
        i = i + 1;
    }
    assert(outputs_view(copy@) =~= outputs_view(outputs@));
    copy
}

impl Clone for Transaction {
    fn clone(&self) -> (copy: Self)
        ensures
            copy@ == self@,
    {
        Transaction {
            id: self.id.clone(),
            input: clone_inputs(&self.input),
            output: clone_outputs(&self.output),
        }
    }
}

/// A fresh vector with copies of `txs`.
pub fn clone_transactions(txs: &Vec<Transaction>) -> (copy: Vec<Transaction>)
    ensures
        transactions_view(copy@) == transactions_view(txs@),
{
    let mut copy: Vec<Transaction> = Vec::new();
    let mut i: usize = 0;
    while i < txs.len()
        invariant
            i <= txs@.len(),
            copy@.len() == i,
            forall|k: int| 0 <= k < i ==> copy@[k]@ == txs@[k]@,
        decreases txs@.len() - i,
    {
        copy.push(txs[i].clone());
        i = i + 1;
    }
    assert(transactions_view(copy@) =~= transactions_view(txs@));
    copy
}

impl Transaction {
    /// Builds the transaction that sends `amount` from the address `from` to
    /// the address `to`, as [`transfer`] defines it. The inputs are left
    /// unsigned: signing is a step of its own.
    pub fn new(from: &str, to: &str, amount: i32, utxo: &UnspentTXUtil, wallets: &WalletChain) -> (made:
        Result<Transaction, LedgerError>)
        requires
            wallets.wf(),
        ensures
            match made {
                Ok(tx) => transfer(
                    from@,
                    to@,
                    amount,
                    utxo.entries(),
                    wallets.wallet_at(from@),
                    wallets.wallet_at(to@) is Some,
                ) == Ok::<TransactionView, LedgerError>(tx@),
                Err(e) => transfer(
                    from@,
                    to@,
                    amount,
                    utxo.entries(),
                    wallets.wallet_at(from@),
                    wallets.wallet_at(to@) is Some,
                ) == Err::<TransactionView, LedgerError>(e),
            },
    {
        let wallet = match wallets.get_wallet(from) {
            Some(w) => w,
            None => {
                return Err(LedgerError::WalletNotFound);
            },
        };
        if wallets.get_wallet(to).is_none() {
            return Err(LedgerError::WalletNotFound);
        }
        let pub_key_hash = ripemd160_bytes(wallet.public_key.as_slice());
        let (total, picked) = match utxo.find_spendable_outputs(pub_key_hash.as_slice(), amount) {
            Ok(found) => found,
            Err(e) => {
                return Err(e);
            },
        };
        if total < amount {
            return Err(LedgerError::InsufficientFunds);
        }
        let change: i64 = total as i64 - amount as i64;
        if change > i32::MAX as i64 {
            return Err(LedgerError::Overflow);
        }
        let ghost key = wallet@.public_key;
        let ghost points = picked_view(picked@);
        let mut input: Vec<TXInput> = Vec::new();
        let mut i: usize = 0;
        while i < picked.len()
            invariant
                i <= picked@.len(),
                key == wallet@.public_key,
                points == picked_view(picked@),
                input@.len() == i,
                forall|k: int| 0 <= k < i ==> input@[k]@ == transfer_inputs(points, key)[k],
            decreases picked@.len() - i,
        {
            input.push(
                TXInput {
                    txid: picked[i].0.clone(),
                    vout: picked[i].1,
                    signature: Vec::new(),
                    pub_key: bytes_to_vec(wallet.public_key.as_slice()),
                },
            );
            i = i + 1;
        }
        let mut output: Vec<TXOutput> = Vec::new();
        match TXOutput::new(amount, String::from_str(to)) {
            Ok(paid) => output.push(paid),
            Err(e) => {
                return Err(e);
            },
        }
        if total > amount {
            match TXOutput::new(change as i32, String::from_str(from)) {
                Ok(rest) => output.push(rest),
                Err(e) => {
                    return Err(e);
                },
            }
        }
        let mut tx = Transaction { id: String::new(), input, output };
        proof {
            assert(tx@.input =~= transfer_inputs(points, key));
            assert(tx@.output =~= transfer_outputs(
                amount,
                total as int,
                hash_of_address(to@).unwrap(),
                if total > amount {
                    hash_of_address(from@).unwrap()
                } else {
                    Seq::empty()
                },
            ));
        }
        match tx.set_id() {
            Ok(()) => Ok(tx),
            Err(e) => Err(e),
        }
    }

    /// The transaction as the tuple that is encoded.
    pub fn to_parts(&self) -> (parts: TransactionParts)
        ensures
            parts.deep_view() == transaction_fields(self@),
    {
        let mut ins: Vec<InputParts> = Vec::new();
        let mut i: usize = 0;
        while i < self.input.len()
            invariant
                i <= self.input@.len(),
                ins@.len() == i,
                forall|k: int| 0 <= k < i ==> ins@[k].deep_view() == input_fields(self.input@[k]@),
            decreases self.input@.len() - i,
        {
            ins.push(self.input[i].to_parts());
            i = i + 1;
        }
        let mut outs: Vec<OutputParts> = Vec::new();
        let mut j: usize = 0;
        while j < self.output.len()
            invariant
                j <= self.output@.len(),
                outs@.len() == j,
                forall|k: int|
                    0 <= k < j ==> outs@[k].deep_view() == output_fields(self.output@[k]@),
            decreases self.output@.len() - j,
        {
            outs.push(self.output[j].to_parts());
            j = j + 1;
        }
        let parts = (self.id.clone(), ins, outs);
        proof {
            assert(parts.1.deep_view() =~= transaction_fields(self@).1);
            assert(parts.2.deep_view() =~= transaction_fields(self@).2);
        }
        parts
    }

    /// The transaction that a decoded tuple stands for.
    pub fn from_parts(parts: &TransactionParts) -> (tx: Transaction)
        ensures
            tx@ == transaction_of_fields(parts.deep_view()),
    {
        let mut input: Vec<TXInput> = Vec::new();
        let mut i: usize = 0;
        while i < parts.1.len()
            invariant
                i <= parts.1@.len(),
                input@.len() == i,
                forall|k: int|
                    0 <= k < i ==> (#[trigger] input@[k])@ == input_of_fields(
                        parts.1@[k].deep_view(),
                    ),
            decreases parts.1@.len() - i,
        {
            let p = &parts.1[i];
            input.push(
                TXInput {
                    txid: p.0.clone(),
                    vout: p.1,
                    signature: bytes_to_vec(p.2.as_slice()),
                    pub_key: bytes_to_vec(p.3.as_slice()),
                },
            );
            proof {
                assert(p.2.deep_view() =~= p.2@);
                assert(p.3.deep_view() =~= p.3@);
            }
            i = i + 1;
        }
        let mut output: Vec<TXOutput> = Vec::new();
        let mut j: usize = 0;
        while j < parts.2.len()
            invariant
                j <= parts.2@.len(),
                output@.len() == j,
                forall|k: int|
                    0 <= k < j ==> (#[trigger] output@[k])@ == output_of_fields(
                        parts.2@[k].deep_view(),
                    ),
            decreases parts.2@.len() - j,
        {
            let p = &parts.2[j];
            output.push(TXOutput { value: p.0, pub_key_hash: bytes_to_vec(p.1.as_slice()) });
            proof {
                assert(p.1.deep_view() =~= p.1@);
            }
            j = j + 1;
        }
        let tx = Transaction { id: parts.0.clone(), input, output };
        proof {
            let want = transaction_of_fields(parts.deep_view());
            assert(tx@.input =~= want.input);
            assert(tx@.output =~= want.output);
        }
        tx
    }

    /// The digest of the transaction as it stands: SHA-256 over its canonical
    /// encoding, in hexadecimal. Fails, with `Encoding`, exactly where the
    /// transaction cannot be encoded.
    pub fn hash(&self) -> (digest: Result<String, LedgerError>)
        ensures
            match digest {
                Ok(d) => digest_of(self@) == Some(d@),
                Err(e) => e == LedgerError::Encoding && digest_of(self@) is None,
            },
    {
        let parts = self.to_parts();
        match encode_transaction(&parts) {
            Some(bytes) => Ok(sha256_hex(bytes.as_slice())),
            None => Err(LedgerError::Encoding),
        }
    }

    /// Sets the id to the digest of the transaction as it stands, and leaves
    /// it as it was where there is none.
    pub fn set_id(&mut self) -> (done: Result<(), LedgerError>)
        ensures
            final(self)@.input == old(self)@.input,
            final(self)@.output == old(self)@.output,
            match done {
                Ok(()) => digest_of(old(self)@) == Some(final(self)@.id),
                Err(e) => e == LedgerError::Encoding && digest_of(old(self)@) is None
                    && final(self)@ == old(self)@,
            },
    {
        match self.hash() {
            Ok(d) => {
                self.id = d;
                Ok(())
            },
            Err(e) => Err(e),
        }
    }

    /// Whether this is a coinbase transaction.
    pub fn is_coinbase(&self) -> (coinbase: bool)
        ensures
            coinbase == is_coinbase_tx(self@),
    {
        self.input.len() == 1 && self.input[0].txid.as_str().is_empty()
            && self.input[0].vout == -1
    }

    /// The transaction that mints the reward for the address `to`, as
    /// [`coinbase_for`] defines it. Fails with `InvalidAddress` exactly where
    /// `to` is no address, and otherwise with `Encoding` exactly where the
    /// transaction has no digest.
    pub fn new_coinbase(to: String, data: String) -> (made: Result<Transaction, LedgerError>)
        ensures
            match made {
                Ok(tx) => coinbase_for(to@, data@) == Some(tx@) && is_coinbase_tx(tx@),
                Err(e) => coinbase_for(to@, data@) is None && e == if hash_of_address(to@)
                    is None {
                    LedgerError::InvalidAddress
                } else {
                    LedgerError::Encoding
                },
            },
    {
        let mut memo = data;
        if memo.as_str().is_empty() {
            memo = String::from_str("Reward to '");
            memo.append(to.as_str());
            memo.append("'");
        }
        let reward = match TXOutput::new(REWARD, to) {
            Ok(output) => output,
            Err(e) => {
                return Err(e);
            },
        };
        let mut input: Vec<TXInput> = Vec::new();
        input.push(
            TXInput {
                txid: String::new(),
                vout: -1,
                signature: Vec::new(),
                pub_key: memo.as_str().as_bytes_vec(),
            },
        );
        let mut output: Vec<TXOutput> = Vec::new();
        output.push(reward);
        let mut tx = Transaction { id: String::new(), input, output };
        proof {
            let body = coinbase_body(
                hash_of_address(to@).unwrap(),
                encode_utf8(coinbase_memo(to@, data@)),
            );
            assert(tx@.input =~= body.input);
            assert(tx@.output =~= body.output);
            assert(tx@ == body);
        }
        match tx.set_id() {
            Ok(()) => Ok(tx),
            Err(e) => Err(e),
        }
    }

    /// A copy of the transaction in which signature and public key of every
    /// input are empty: the scratch copy that signing digests start from.
    pub fn deep_copy(&self) -> (copy: Transaction)
        ensures
            copy@ == trimmed(self@),
    {
        let mut ins: Vec<TXInput> = Vec::new();
        let mut i: usize = 0;
        while i < self.input.len()
            invariant
                i <= self.input@.len(),
                ins@.len() == i,
                forall|k: int| 0 <= k < i ==> ins@[k]@ == trimmed(self@).input[k],
            decreases self.input@.len() - i,
        {
            ins.push(
                TXInput {
                    txid: self.input[i].txid.clone(),
                    vout: self.input[i].vout,
                    signature: Vec::new(),
                    pub_key: Vec::new(),
                },
            );
            i = i + 1;
        }
        let copy = Transaction {
            id: self.id.clone(),
            input: ins,
            output: clone_outputs(&self.output),
        };
        assert(copy@.input =~= trimmed(self@).input);
        copy
    }
    /// Goes through input `i` of the scratch copy: puts `lock` in place of
    /// its key and sets the copy's id to the digest of the copy as it then
    /// stands. Leaves the copy as it was where there is no digest.
    pub fn advance_scratch(&mut self, i: usize, lock: &Vec<u8>) -> (done: Result<(), LedgerError>)
        requires
            i < old(self)@.input.len(),
        ensures
            match done {
                Ok(()) => digest_of(with_lock(old(self)@, i as int, lock@)) == Some(final(self)@.id)
                    && final(self)@.input == with_lock(old(self)@, i as int, lock@).input
                    && final(self)@.output == old(self)@.output,
                Err(e) => e == LedgerError::Encoding && digest_of(
                    with_lock(old(self)@, i as int, lock@),
                ) is None && final(self)@ == old(self)@,
            },
    {
        let locked_input = TXInput {
            txid: self.input[i].txid.clone(),
            vout: self.input[i].vout,
            signature: Vec::new(),
            pub_key: bytes_to_vec(lock.as_slice()),
        };
        let mut locked = Transaction {
            id: self.id.clone(),
            input: clone_inputs(&self.input),
            output: clone_outputs(&self.output),
        };
        locked.input.set(i, locked_input);
        assert(locked@.input =~= with_lock(self@, i as int, lock@).input);
        match locked.set_id() {
            Ok(()) => {
                *self = locked;
                Ok(())
            },
            Err(e) => Err(e),
        }
    }

    /// Signs every input with `private_key`, as [`sign_outcome`] defines it.
    /// `prev_txs` holds the transactions whose outputs are spent. Where
    /// signing fails the transaction is left as it was.
    pub fn sign(&mut self, private_key: &[u8], prev_txs: &Vec<Transaction>) -> (done: Result<
        (),
        LedgerError,
    >)
        ensures
            match sign_outcome(old(self)@, transactions_view(prev_txs@), private_key@) {
                Ok(signed) => done is Ok && final(self)@ == signed,
                Err(e) => done == Err::<(), LedgerError>(e) && final(self)@ == old(self)@,
            },
    {
        if self.is_coinbase() {
            return Ok(());
        }
        if private_key.len() < 64 {
            return Err(LedgerError::InvalidKey);
        }
        let locks = match find_locks(self, prev_txs) {
            Some(ls) => ls,
            None => {
                return Err(LedgerError::MissingPrior);
            },
        };
        let ghost known = transactions_view(prev_txs@);
        let ghost tx = self@;
        let n: usize = self.input.len();
        let mut scratch = self.deep_copy();
        let mut signatures: Vec<Vec<u8>> = Vec::new();
        let mut i: usize = 0;
        while i < n
            invariant
                n == tx.input.len(),
                self@ == tx,
                tx == old(self)@,
                known == transactions_view(prev_txs@),
                locks@.len() == n,
                private_key@.len() >= 64,
                forall|k: int|
                    0 <= k < n ==> referenced_lock(known, tx.input[k]) == Some(
                        #[trigger] locks@[k]@,
                    ),
                i <= n,
                scratch_after(tx, known, i as nat) == Some(scratch@),
                scratch@.input.len() == n,
                signatures@.len() == i,
                forall|k: int|
                    0 <= k < i ==> #[trigger] signatures@[k]@ == ed25519_signature(
                        signed_message(tx, known, k as nat),
                        private_key@,
                    ),
                !is_coinbase_tx(tx),
                priors_known(tx, known),
            decreases n - i,
        {
            proof {
                lemma_scratch_keeps_shape(tx, known, i as nat);
            }
            match scratch.advance_scratch(i, &locks[i]) {
                Err(e) => {
                    proof {
                        assert(scratch_after(tx, known, (i + 1) as nat) is None);
                        lemma_scratch_fails_on(tx, known, (i + 1) as nat, n as nat);
                    }
                    return Err(e);
                },
                Ok(()) => {},
            }
            assert(scratch_after(tx, known, (i + 1) as nat) == Some(scratch@));
            let signature = ed25519_sign(scratch.id.as_str().as_bytes(), private_key);
            signatures.push(signature);
            i = i + 1;
        }
        let mut j: usize = 0;
        while j < n
            invariant
                n == tx.input.len(),
                tx == old(self)@,
                known == transactions_view(prev_txs@),
                self@.input.len() == n,
                self@.id == tx.id,
                self@.output == tx.output,
                signatures@.len() == n,
                j <= n,
                forall|k: int|
                    0 <= k < n ==> #[trigger] signatures@[k]@ == ed25519_signature(
                        signed_message(tx, known, k as nat),
                        private_key@,
                    ),
                forall|k: int|
                    0 <= k < j ==> #[trigger] self@.input[k] == (TXInputView {
                        txid: tx.input[k].txid,
                        vout: tx.input[k].vout,
                        signature: signatures@[k]@,
                        pub_key: tx.input[k].pub_key,
                    }),
                forall|k: int| j <= k < n ==> #[trigger] self@.input[k] == tx.input[k],
            decreases n - j,
        {
            assert(self@.input[j as int] == tx.input[j as int]);
            let signed_input = TXInput {
                txid: self.input[j].txid.clone(),
                vout: self.input[j].vout,
                signature: bytes_to_vec(signatures[j].as_slice()),
                pub_key: bytes_to_vec(self.input[j].pub_key.as_slice()),
            };
            let ghost before = self@.input;
            self.input.set(j, signed_input);
            assert(self@.input =~= before.update(j as int, signed_input@));
            assert forall|k: int| 0 <= k < j + 1 implies #[trigger] self@.input[k] == (TXInputView {
                txid: tx.input[k].txid,
                vout: tx.input[k].vout,
                signature: signatures@[k]@,
                pub_key: tx.input[k].pub_key,
            }) by {
                if k < j {
                    assert(self@.input[k] == before[k]);
                }
            }
            assert forall|k: int| j + 1 <= k < n implies #[trigger] self@.input[k] == tx.input[k] by {
                assert(self@.input[k] == before[k]);
            }
            j = j + 1;
        }
        proof {
            let signed = sign_outcome(tx, known, private_key@).unwrap();
            assert(self@.input =~= signed.input);
        }
        Ok(())
    }

    /// Verifies the signatures of the inputs, as [`verify_outcome`] defines
    /// it. `prev_txs` holds the transactions whose outputs are spent.
    pub fn verify(&self, prev_txs: &Vec<Transaction>) -> (verdict: Result<bool, LedgerError>)
        ensures
            verdict == verify_outcome(self@, transactions_view(prev_txs@)),
    {
        if self.is_coinbase() {
            return Ok(true);
        }
        let locks = match find_locks(self, prev_txs) {
            Some(ls) => ls,
            None => {
                return Err(LedgerError::MissingPrior);
            },
        };
        let ghost known = transactions_view(prev_txs@);
        let ghost tx = self@;
        let n: usize = self.input.len();
        let mut scratch = self.deep_copy();
        let mut i: usize = 0;
        while i < n
            invariant
                n == tx.input.len(),
                self@ == tx,
                known == transactions_view(prev_txs@),
                !is_coinbase_tx(tx),
                priors_known(tx, known),
                locks@.len() == n,
                forall|k: int|
                    0 <= k < n ==> referenced_lock(known, tx.input[k]) == Some(
                        #[trigger] locks@[k]@,
                    ),
                i <= n,
                scratch_after(tx, known, i as nat) == Some(scratch@),
                scratch@.input.len() == n,
                verify_from(tx, known, 0) == verify_from(tx, known, i as nat),
            decreases n - i,
        {
            proof {
                lemma_scratch_keeps_shape(tx, known, i as nat);
            }
            match scratch.advance_scratch(i, &locks[i]) {
                Err(e) => {
                    assert(scratch_after(tx, known, (i + 1) as nat) is None);
                    return Err(e);
                },
                Ok(()) => {},
            }
            assert(scratch_after(tx, known, (i + 1) as nat) == Some(scratch@));
            let ok = check_signature(
                scratch.id.as_str().as_bytes(),
                self.input[i].pub_key.as_slice(),
                self.input[i].signature.as_slice(),
            );
            if !ok {
                return Ok(false);
            }
            i = i + 1;
        }
        Ok(true)
    }
}

/// Going through inputs changes neither how many inputs the scratch copy has
/// nor which outputs they refer to.
pub proof fn lemma_scratch_keeps_shape(tx: TransactionView, known: Seq<TransactionView>, k: nat)
    requires
        k <= tx.input.len(),
        scratch_after(tx, known, k) is Some,
    ensures
        scratch_after(tx, known, k).unwrap().input.len() == tx.input.len(),
        scratch_after(tx, known, k).unwrap().output == tx.output,
        forall|i: int|
            0 <= i < tx.input.len() ==> (#[trigger] scratch_after(tx, known, k).unwrap().input[i]).txid
                == tx.input[i].txid && scratch_after(tx, known, k).unwrap().input[i].vout
                == tx.input[i].vout,
    decreases k,
{
    if k > 0 {
        lemma_scratch_keeps_shape(tx, known, (k - 1) as nat);
    }
}

/// Once going through the inputs has failed it stays failed.
pub proof fn lemma_scratch_fails_on(tx: TransactionView, known: Seq<TransactionView>, k: nat, n: nat)
    requires
        k <= n,
        scratch_after(tx, known, k) is None,
    ensures
        scratch_after(tx, known, n) is None,
    decreases n - k,
{
    if k < n {
        lemma_scratch_fails_on(tx, known, k, (n - 1) as nat);
    }
}

} // verus!
