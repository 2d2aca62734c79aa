//! A minimal hash-linked ledger: transactions bundled into a block, content
//! digests recomputed from the fields, and a proof-of-work nonce search.

pub mod blockchain;
mod clock;
pub mod digest;
pub mod text;

pub use blockchain::{Block, Printer, Transaction};
