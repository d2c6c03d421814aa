use vstd::prelude::*;

verus! {

/// Number of leading hexadecimal zero characters a block hash must carry.
pub const DIFFICULTY: u32 = 4;

/// Protocol version stamped on every block and announced to peers.
pub const VERSION: i8 = 1;

/// Width in bytes of the command tag that starts every wire message.
pub const CMD_LEN: usize = 12;

/// Value paid by a coinbase transaction.
pub const REWARD: i32 = 100;

/// Network address of the bootstrap node every peer set is seeded with.
pub const ADDRESS: &'static str = "localhost:3000";

} // verus!
