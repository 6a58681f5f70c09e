//! Container framing: splits a raw sequential-media image into ordered
//! records, detects each record's format, and decodes save-set blocks.
use vstd::prelude::*;

pub mod legacy;
pub mod reader;

verus! {

/// The format a record was detected as.
#[derive(Debug, Clone, Copy, PartialEq, Eq, Structural)]
pub enum DetectedFormat {
    Raw,
    VmsBackup,
    Rsx11m,
    Rt11,
    RstsE,
}

} // verus!
