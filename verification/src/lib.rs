//! Encrypts a byte buffer into a length-prefixed frame of AES-128 blocks,
//! optionally gzip-compressed first, and turns such a frame back into the
//! bytes it was made from.
//!
//! Every function carries a contract over sequences of bytes; the block
//! cipher and the gzip codec are outside crates, reached through a handful
//! of small functions whose contracts are stated and believed, not proved.

pub mod args;
pub mod config;
pub mod crypto;
pub mod error;
pub mod operation_type;
