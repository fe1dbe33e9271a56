//! Reader and extractor for ZIP archives held in memory.
//!
//! The archive structure (end-of-central-directory trailer, central-directory
//! entries, data descriptors) is parsed by verified code; the legacy stream
//! cipher is implemented and verified here as well. Inflation and the final
//! CRC-32 integrity check call outside crates through trusted wrappers.

use vstd::prelude::*;

pub mod archive;
pub mod clap;
pub mod commands;
pub mod date_time;
pub mod headers;
pub mod util;
pub mod zip;
pub mod zip_crypto;

verus! {

/// A CRC-32 checksum value.
pub type Crc32 = u32;

} // verus!
