//! Block and format types shared by the classification pipeline.
use vstd::prelude::*;

verus! {

/// One logical block of the image, with its classification.
#[derive(Debug, Clone, PartialEq, Eq)]
pub struct TapeBlock {
    pub index: u32,
    pub size: usize,
    pub raw: Vec<u8>,
    pub classification: BlockClassification,
}

/// Mathematical model of a block.
pub struct TapeBlockV {
    pub index: u32,
    pub size: nat,
    pub raw: Seq<u8>,
    pub classification: BlockClassification,
}

impl View for TapeBlock {
    type V = TapeBlockV;

    open spec fn view(&self) -> TapeBlockV {
        TapeBlockV {
            index: self.index,
            size: self.size as nat,
            raw: self.raw@,
            classification: self.classification,
        }
    }
}

/// The format of a whole image, or of one reconstructed entry.
#[derive(Debug, Clone, Copy, PartialEq, Eq, Hash, Structural)]
pub enum TapeFormat {
    Unknown,
    Vms,
    Rsx,
    Rt11,
    Rsts,
    Raw,
}

/// The per-format tag a block is classified with.
#[derive(Debug, Clone, Copy, PartialEq, Eq, Structural)]
pub enum BlockClassification {
    Unknown,
    Vms(VmsBlockKind),
    Rsx(RsxBlockKind),
    Rt11(Rt11BlockKind),
    Rsts(RstsBlockKind),
    Raw,
}

/// Refinement of a save-set classification; a single coarse tag for now.
#[derive(Debug, Clone, Copy, PartialEq, Eq, Structural)]
pub enum VmsBlockKind {
    Placeholder,
}

/// Refinement of an RSX classification; a single coarse tag for now.
#[derive(Debug, Clone, Copy, PartialEq, Eq, Structural)]
pub enum RsxBlockKind {
    Placeholder,
}

/// Refinement of an RT-11 classification; a single coarse tag for now.
#[derive(Debug, Clone, Copy, PartialEq, Eq, Structural)]
pub enum Rt11BlockKind {
    Placeholder,
}

/// Refinement of an RSTS classification; a single coarse tag for now.
#[derive(Debug, Clone, Copy, PartialEq, Eq, Structural)]
pub enum RstsBlockKind {
    Placeholder,
}

} // verus!
