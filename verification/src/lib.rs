//! Self-extracting installer core: a byte payload is fragmented into
//! fixed-size named resource blocks inside a carrier executable, together
//! with a block-count entry and custom string metadata, and reassembled on
//! install.

use vstd::prelude::*;

pub mod archiver;
pub mod common;
pub mod decimal;
pub mod embedder;
pub mod extractor;
pub mod installer;
pub mod laws;
pub mod store;

verus! {

/// Maximum number of payload bytes stored in one resource block.
pub const BLOCKSIZE: usize = 1000;

/// Number of blocks a payload of `len` bytes fragments into: the last block
/// may be shorter than `BLOCKSIZE`, every other block is exactly `BLOCKSIZE`.
pub open spec fn block_count_of(len: nat) -> nat {
    (((len as int) + (BLOCKSIZE as int) - 1) / (BLOCKSIZE as int)) as nat
}

} // verus!
