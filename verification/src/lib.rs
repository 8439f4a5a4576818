//! Signatures of files for network deltas.
//!
//! A signature describes a basis file block by block, each block by a weak
//! rolling checksum and a strong hash, so that a delta against the file can
//! later be made without the file itself. The algorithm is that of `rsync`;
//! the signature format is that of `rdiff`.
//!
//! - [`rollsum`] holds the weak rolling checksum, with its model and the laws
//!   of the model in [`rollsum::model`].
//! - [`mksum`] makes signatures: of a basis in memory, or block by block for
//!   a caller who reads and writes streams. The bytes of a signature are
//!   stated in [`mksum::format`].
//! - [`magic`] holds the magic numbers of the file formats.
//! - [`capi`] holds the values that a C binding hands out.

use vstd::prelude::*;

pub mod capi;
pub mod magic;
pub mod mksum;
pub mod rollsum;

verus! {

/// Semver string for this library.
pub const VERSION: &'static str = "0.0.0";

/// Block length of a signature made with the default options, in bytes.
pub const DEFAULT_BLOCK_LEN: u32 = 2048;

} // verus!
