//! Save-set reconstruction entry points over classified blocks.
use vstd::prelude::*;

use crate::pipeline::block::{TapeBlock, TapeBlockV, TapeFormat};
use crate::pipeline::file::{
    file_view, FileId, FileMetadata, TapeFile, TapeFileV, Uic, VmsFileMetadata,
};
use crate::pipeline::parse::vms::{parse_vms_fh2, spec_parse_vms_fh2, vms_fh2_valid};
use crate::pipeline::vms::spec_collect_vms;
use crate::pipeline::vms::reconstruct::spec_files_of_groups;

verus! {

/// The save-set files reconstructed from classified blocks.
pub open spec fn spec_reconstruct_vms_files(blocks: Seq<TapeBlockV>) -> Seq<TapeFileV> {
    spec_files_of_groups(spec_collect_vms(blocks))
}

/// Reconstructs all save-set files from classified blocks.
pub fn reconstruct_vms(blocks: &[TapeBlock]) -> (r: Vec<TapeFile>)
    ensures
        crate::pipeline::file::files_view(r@) == spec_reconstruct_vms_files(
            blocks@.map_values(|b: TapeBlock| b@),
        ),
{
    crate::pipeline::vms::reconstruct::reconstruct_vms(blocks)
}

/// The default metadata used when a header block cannot be decoded.
pub open spec fn spec_default_vms_metadata() -> crate::pipeline::file::VmsFileMetadataV {
    crate::pipeline::file::VmsFileMetadataV {
        file_id: FileId { num: 0, seq: 0, rel: 0 },
        rev: 0,
        seq: 0,
        owner_uic: Uic { group: 0, member: 0 },
        protection: 0,
        record_format: 0,
        record_attributes: 0,
        record_length: 0,
        file_type: "Unknown"@,
        backup_flags: 0,
        creation_time: None,
        revision_time: None,
        expiration_time: None,
    }
}

fn default_vms_metadata() -> (r: VmsFileMetadata)
    ensures
        r@ == spec_default_vms_metadata(),
{
    VmsFileMetadata {
        file_id: FileId { num: 0, seq: 0, rel: 0 },
        rev: 0,
        seq: 0,
        owner_uic: Uic { group: 0, member: 0 },
        protection: 0,
        record_format: 0,
        record_attributes: 0,
        record_length: 0,
        file_type: String::from_str("Unknown"),
        backup_flags: 0,
        creation_time: None,
        revision_time: None,
        expiration_time: None,
    }
}

/// The total raw length of a block sequence, clamped at the largest
/// representable size.
pub open spec fn sat_raw_total(blocks: Seq<TapeBlockV>) -> u64
    decreases blocks.len(),
{
    if blocks.len() == 0 {
        0u64
    } else {
        let p = sat_raw_total(blocks.drop_last());
        if p + blocks.last().raw.len() > u64::MAX {
            u64::MAX
        } else {
            (p + blocks.last().raw.len()) as u64
        }
    }
}

/// The model of a file built from one header block and its data blocks.
pub open spec fn spec_reconstruct_vms_file(
    fh2: TapeBlockV,
    vbn_blocks: Seq<TapeBlockV>,
    path: Seq<char>,
) -> TapeFileV {
    TapeFileV {
        format: TapeFormat::Vms,
        path: seq![path],
        size_bytes: sat_raw_total(vbn_blocks),
        blocks: vbn_blocks.map_values(|b: TapeBlockV| b.index),
        metadata: crate::pipeline::file::FileMetadataV::Vms(
            if vms_fh2_valid(fh2.raw) {
                spec_parse_vms_fh2(fh2.raw)
            } else {
                spec_default_vms_metadata()
            },
        ),
        children: Seq::empty(),
    }
}

/// Builds one file entry from a header block and its associated data
/// blocks: the data blocks' indices and total raw length, under the
/// given path, with metadata decoded from the header when possible.
#[verifier::loop_isolation(false)]
pub fn reconstruct_vms_file(fh2_block: &TapeBlock, vbn_blocks: &[TapeBlock], path: String) -> (r:
    TapeFile)
    ensures
        file_view(r) == spec_reconstruct_vms_file(
            fh2_block@,
            vbn_blocks@.map_values(|b: TapeBlock| b@),
            path@,
        ),
{
    let ghost bvs = vbn_blocks@.map_values(|b: TapeBlock| b@);
    let meta: VmsFileMetadata = match parse_vms_fh2(fh2_block) {
        Some(m) => m,
        None => default_vms_metadata(),
    };

    let n: usize = vbn_blocks.len();
    let mut indices: Vec<u32> = Vec::new();
    let mut size: u64 = 0;
    let mut i: usize = 0;
    while i < n
        invariant
            i <= n,
            indices@ == bvs.map_values(|b: TapeBlockV| b.index).take(i as int),
            size == sat_raw_total(bvs.take(i as int)),
        decreases n - i,
    {
        indices.push(vbn_blocks[i].index);
        let l: u64 = vbn_blocks[i].raw.len() as u64;
        if size > u64::MAX - l {
            size = u64::MAX;
        } else {
            size = size + l;
        }
        i = i + 1;
        proof {
            assert(indices@ =~= bvs.map_values(|b: TapeBlockV| b.index).take(i as int));
            assert(bvs.take(i as int).drop_last() =~= bvs.take(i - 1));
            assert(bvs.take(i as int).last() == vbn_blocks@[i - 1]@);
        }
    }
    proof {
        assert(bvs.take(n as int) =~= bvs);
        assert(bvs.map_values(|b: TapeBlockV| b.index).take(n as int) =~= bvs.map_values(
            |b: TapeBlockV| b.index,
        ));
    }

    let mut elements: Vec<String> = Vec::new();
    elements.push(path);
    let file = TapeFile {
        format: TapeFormat::Vms,
        path: crate::pipeline::file::TapePath::new(elements),
        size_bytes: size,
        blocks: indices,
        metadata: FileMetadata::Vms(meta),
        children: Vec::new(),
    };
    proof {
        assert(crate::pipeline::file::path_view(file.path) =~= seq![path@]);
        assert(crate::pipeline::file::files_view(file.children@) =~= Seq::<TapeFileV>::empty());
        assert(file_view(file) == spec_reconstruct_vms_file(fh2_block@, bvs, path@));
    }
    file
}

} // verus!
