//! A minimal single-node ledger: an append-only chain of hash-stamped blocks,
//! a pending block that collects accepted transactions, periodic minting, and
//! balances derived by replaying the finalized history.

pub mod block;
pub mod digest;
pub mod encoding;
pub mod laws;
pub mod ledger;
pub mod request;
