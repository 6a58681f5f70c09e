//! RSX extraction: directories are created for directory entries, other
//! entries are written verbatim.
use vstd::prelude::*;

use crate::pipeline::block::{TapeBlock, TapeBlockV};
use crate::pipeline::extract::{
    collect_block_bytes, sanitize_filename, spec_collect_bytes, spec_entry_path, ExtractOutput,
    ExtractOutputV,
};
use crate::pipeline::file::{file_view, FileMetadata, FileMetadataV, TapeFile, TapeFileV};

verus! {

/// The RSX plan: a directory when the metadata marks one (no bytes),
/// else the blocks' bytes verbatim.
pub open spec fn spec_extract_rsx(f: TapeFileV, blocks: Seq<TapeBlockV>) -> ExtractOutputV {
    let is_dir = match f.metadata {
        FileMetadataV::Rsx(m) => m.is_directory,
        _ => false,
    };
    ExtractOutputV {
        path: spec_entry_path(f),
        is_directory: is_dir,
        data: if is_dir {
            Seq::empty()
        } else {
            spec_collect_bytes(blocks, f.blocks)
        },
    }
}

/// Plans an RSX extraction.
pub fn extract(file: &TapeFile, blocks: &[TapeBlock]) -> (r: ExtractOutput)
    ensures
        r@ == spec_extract_rsx(file_view(*file), blocks@.map_values(|b: TapeBlock| b@)),
{
    let joined = file.path.to_string_path();
    let path = sanitize_filename(joined.as_str());

    let is_dir: bool = match &file.metadata {
        FileMetadata::Rsx(m) => m.is_directory,
        _ => false,
    };
    if is_dir {
        return ExtractOutput { path, is_directory: true, data: Vec::new() };
    }

    let data = collect_block_bytes(file, blocks);
    ExtractOutput { path, is_directory: false, data }
}

} // verus!
