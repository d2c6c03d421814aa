//! A minimal proof-of-work ledger: blocks of signed value transfers, the index
//! of spendable outputs derived from them, and the peer message state machine
//! that keeps nodes in step.

pub mod constants;
pub mod error;

pub mod address;
pub mod clock;
pub mod codec;
pub mod digest;
pub mod signature;

pub mod block;
pub mod blockchain;
pub mod blockchain_itr;
pub mod mergetx;
pub mod transaction;
pub mod txs;

pub mod blockchain_unspent_tx;
pub mod unspent_tx_util;

pub mod wallet;
pub mod wallet_chain;

pub mod message;
pub mod message_parser;
pub mod message_sender;
pub mod node;
pub mod node_util;
pub mod parser_util;

pub mod chain_laws;
pub mod index_laws;
pub mod laws;
