//! RT-11 extraction: concatenated bytes truncated to the entry's
//! declared length in 512-byte blocks, with the extension appended to
//! the output name.
use vstd::prelude::*;

use crate::pipeline::block::{TapeBlock, TapeBlockV};
use crate::pipeline::extract::{
    collect_block_bytes, sanitize_filename, spec_collect_bytes, spec_sanitize_filename,
    ExtractOutput, ExtractOutputV,
};
use crate::pipeline::file::{
    file_view, spec_join_path, FileMetadata, FileMetadataV, TapeFile, TapeFileV,
};

verus! {

/// The RT-11 plan: the bytes are truncated to `length_blocks` times 512
/// when they are longer, and a non-empty extension is appended to the
/// joined path after a dot.
pub open spec fn spec_extract_rt11(f: TapeFileV, blocks: Seq<TapeBlockV>) -> ExtractOutputV {
    let raw = spec_collect_bytes(blocks, f.blocks);
    match f.metadata {
        FileMetadataV::Rt11(m) => ExtractOutputV {
            path: spec_sanitize_filename(
                if m.ext.len() == 0 {
                    spec_join_path(f.path)
                } else {
                    spec_join_path(f.path) + seq!['.'] + m.ext
                },
            ),
            is_directory: false,
            data: if m.length_blocks * 512 < raw.len() {
                raw.take(m.length_blocks * 512)
            } else {
                raw
            },
        },
        _ => ExtractOutputV {
            path: spec_sanitize_filename(spec_join_path(f.path)),
            is_directory: false,
            data: raw,
        },
    }
}

/// Plans an RT-11 extraction: exactly `length_blocks` times 512 bytes
/// are kept when more were collected.
pub fn extract(file: &TapeFile, blocks: &[TapeBlock]) -> (r: ExtractOutput)
    ensures
        r@ == spec_extract_rt11(file_view(*file), blocks@.map_values(|b: TapeBlock| b@)),
{
    let mut data = collect_block_bytes(file, blocks);

    let filename: String = match &file.metadata {
        FileMetadata::Rt11(m) => {
            let expected_len: usize = (m.length_blocks as usize) * 512;
            if expected_len < data.len() {
                data.truncate(expected_len);
            }
            let joined = file.path.to_string_path();
            if m.ext.as_str().is_empty() {
                joined
            } else {
                let mut s = joined;
                s.append(".");
                s.append(m.ext.as_str());
                proof {
                    reveal_strlit(".");
                    assert(s@ =~= spec_join_path(file_view(*file).path) + seq!['.'] + m.ext@);
                }
                s
            }
        },
        _ => file.path.to_string_path(),
    };

    let path = sanitize_filename(filename.as_str());
    ExtractOutput { path, is_directory: false, data }
}

} // verus!
