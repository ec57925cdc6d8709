//! An append-only ledger whose blocks are linked by SHA-256 digests and
//! admitted by a fixed-difficulty proof of work.
pub mod block;
mod clock;
pub mod hashing;
pub mod ledger;
pub mod text;
