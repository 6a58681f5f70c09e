//! Recovery of file and directory structure from raw captures of legacy
//! sequential-media images: container framing, per-block format
//! classification, per-format record decoding, reconstruction of a
//! file/directory tree, and extraction planning.
use vstd::prelude::*;

pub mod backup;
pub mod log;
pub mod pipeline;
pub mod state;
pub mod tap;
pub mod utils;

verus! {

/// Errors reported by the decoding pipeline.
#[derive(Debug, Clone)]
pub enum TapeError {
    /// Malformed or truncated input: the message locates the bad region.
    Parse(String),
    /// A plausible header with an unsupported phase or version marker.
    UnsupportedFormat(String),
}

} // verus!
