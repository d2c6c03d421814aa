use vstd::prelude::*;

verus! {

/// Why an operation of the ledger was refused.
#[derive(Debug, Clone, Copy, PartialEq, Eq, Structural)]
pub enum LedgerError {
    /// A text that should name a wallet is no address.
    InvalidAddress,
    /// No wallet is held for an address that has to sign or receive.
    WalletNotFound,
    /// The spendable outputs of the sender do not cover the amount.
    InsufficientFunds,
    /// An input refers to a transaction that is not known, or to an output
    /// that transaction does not have.
    MissingPrior,
    /// A signing key is too short to hold a seed and a public key.
    InvalidKey,
    /// A value could not be put into its canonical byte encoding.
    Encoding,
    /// Bytes that should hold a canonically encoded value do not.
    Decoding,
    /// A wire message starts with a command tag that is not recognised.
    UnknownCommand,
    /// A sum of output values left the range of the amount type.
    Overflow,
    /// No block with the hash asked for is held.
    BlockNotFound,
    /// No transaction with the id asked for is held in the mempool.
    TransactionNotFound,
    /// An inventory announces nothing.
    EmptyInventory,
    /// The chain has no head block to build on.
    NoHead,
    /// A transaction offered for a block does not verify.
    InvalidTransaction,
    /// The system clock could not be read as a time after the epoch.
    Clock,
    /// No nonce in the whole range gives a digest of the required shape.
    NonceExhausted,
    /// No source of randomness is at hand.
    Randomness,
}

} // verus!
