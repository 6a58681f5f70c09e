//! A fully reconstructed save-set file: its header, the indices of its
//! fragments, and the reassembled data.
use vstd::prelude::*;

use crate::pipeline::vms::header::VmsFileHeader;

verus! {

/// A reconstructed file with its reassembled data bytes.
#[derive(Debug, Clone, PartialEq, Eq)]
pub struct VmsReconstructedFile {
    pub header: VmsFileHeader,
    pub blocks: Vec<u32>,
    pub data: Vec<u8>,
}

} // verus!
