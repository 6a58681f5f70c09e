//! Reconstructed files and directories: paths, per-format metadata, and
//! the tree node type.
use vstd::prelude::*;

use crate::pipeline::block::TapeFormat;
use crate::utils::fmt::push_char;

verus! {

broadcast use vstd::std_specs::vec::group_vec_axioms;

/// A `/`-delimited hierarchical path, one element per segment.
#[derive(Debug, Clone, PartialEq, Eq)]
pub struct TapePath {
    pub elements: Vec<String>,
}

/// The segments of a path.
pub open spec fn path_view(p: TapePath) -> Seq<Seq<char>> {
    p.elements@.map_values(|e: String| e@)
}

/// Path segments joined by `/`.
pub open spec fn spec_join_path(elems: Seq<Seq<char>>) -> Seq<char>
    decreases elems.len(),
{
    if elems.len() == 0 {
        Seq::empty()
    } else if elems.len() == 1 {
        elems[0]
    } else {
        spec_join_path(elems.drop_last()) + seq!['/'] + elems.last()
    }
}

impl TapePath {
    /// A path made of the given segments.
    pub fn new(elements: Vec<String>) -> (r: TapePath)
        ensures
            path_view(r) == elements@.map_values(|e: String| e@),
    {
        TapePath { elements }
    }

    /// The segments joined by `/`.
    #[verifier::loop_isolation(false)]
    pub fn to_string_path(&self) -> (r: String)
        ensures
            r@ == spec_join_path(path_view(*self)),
    {
        let mut out = String::new();
        let n: usize = self.elements.len();
        let mut i: usize = 0;
        while i < n
            invariant
                i <= n,
                out@ == spec_join_path(path_view(*self).take(i as int)),
            decreases n - i,
        {
            if i > 0 {
                push_char(&mut out, '/');
            }
            out.append(self.elements[i].as_str());
            i = i + 1;
            proof {
                assert(path_view(*self).take(i as int).drop_last() =~= path_view(*self).take(
                    i - 1,
                ));
                assert(path_view(*self).take(i as int).last() == self.elements@[i - 1]@);
                assert(out@ =~= spec_join_path(path_view(*self).take(i as int)));
            }
        }
        proof {
            assert(path_view(*self).take(n as int) =~= path_view(*self));
        }
        out
    }
}

/// An owner/group pair used for access control and path prefixes.
#[derive(Debug, Clone, Copy, PartialEq, Eq, Structural)]
pub struct Uic {
    pub group: u16,
    pub member: u16,
}

/// A three-part file identifier: number, sequence, relative volume.
#[derive(Debug, Clone, Copy, PartialEq, Eq, Structural)]
pub struct FileId {
    pub num: u16,
    pub seq: u16,
    pub rel: u16,
}

/// Decoded save-set metadata of one reconstructed file.
#[derive(Debug, Clone, PartialEq, Eq)]
pub struct VmsFileMetadata {
    pub file_id: FileId,
    pub rev: u16,
    pub seq: u16,
    pub owner_uic: Uic,
    pub protection: u16,
    pub record_format: u8,
    pub record_attributes: u8,
    pub record_length: u16,
    pub file_type: String,
    pub backup_flags: u16,
    pub creation_time: Option<String>,
    pub revision_time: Option<String>,
    pub expiration_time: Option<String>,
}

/// RSX metadata of one reconstructed file.
#[derive(Debug, Clone, Copy, PartialEq, Eq)]
pub struct RsxFileMetadata {
    pub uic: Uic,
    pub protection: u16,
    pub is_directory: bool,
}

/// RT-11 metadata of one reconstructed file.
#[derive(Debug, Clone, PartialEq, Eq)]
pub struct Rt11FileMetadata {
    pub start_block: u16,
    pub length_blocks: u16,
    pub ext: String,
}

/// RSTS metadata of one reconstructed file.
#[derive(Debug, Clone, Copy, PartialEq, Eq)]
pub struct RstsFileMetadata {
    pub owner_uic: Uic,
    pub blocks: u16,
    pub status: u16,
}

/// Mathematical model of decoded save-set metadata.
pub struct VmsFileMetadataV {
    pub file_id: FileId,
    pub rev: u16,
    pub seq: u16,
    pub owner_uic: Uic,
    pub protection: u16,
    pub record_format: u8,
    pub record_attributes: u8,
    pub record_length: u16,
    pub file_type: Seq<char>,
    pub backup_flags: u16,
    pub creation_time: Option<Seq<char>>,
    pub revision_time: Option<Seq<char>>,
    pub expiration_time: Option<Seq<char>>,
}

/// The text of an optional string.
pub open spec fn opt_str_view(o: Option<String>) -> Option<Seq<char>> {
    match o {
        Some(s) => Some(s@),
        None => None,
    }
}

impl View for VmsFileMetadata {
    type V = VmsFileMetadataV;

    open spec fn view(&self) -> VmsFileMetadataV {
        VmsFileMetadataV {
            file_id: self.file_id,
            rev: self.rev,
            seq: self.seq,
            owner_uic: self.owner_uic,
            protection: self.protection,
            record_format: self.record_format,
            record_attributes: self.record_attributes,
            record_length: self.record_length,
            file_type: self.file_type@,
            backup_flags: self.backup_flags,
            creation_time: opt_str_view(self.creation_time),
            revision_time: opt_str_view(self.revision_time),
            expiration_time: opt_str_view(self.expiration_time),
        }
    }
}

/// Per-format metadata of one reconstructed file.
#[derive(Debug, Clone, PartialEq, Eq)]
pub enum FileMetadata {
    Vms(VmsFileMetadata),
    Rsx(RsxFileMetadata),
    Rt11(Rt11FileMetadata),
    Rsts(RstsFileMetadata),
    Raw,
}

/// Mathematical model of RT-11 metadata.
pub struct Rt11FileMetadataV {
    pub start_block: u16,
    pub length_blocks: u16,
    pub ext: Seq<char>,
}

impl View for Rt11FileMetadata {
    type V = Rt11FileMetadataV;

    open spec fn view(&self) -> Rt11FileMetadataV {
        Rt11FileMetadataV {
            start_block: self.start_block,
            length_blocks: self.length_blocks,
            ext: self.ext@,
        }
    }
}

/// Mathematical model of per-format metadata.
pub enum FileMetadataV {
    Vms(VmsFileMetadataV),
    Rsx(RsxFileMetadata),
    Rt11(Rt11FileMetadataV),
    Rsts(RstsFileMetadata),
    Raw,
}

impl View for FileMetadata {
    type V = FileMetadataV;

    open spec fn view(&self) -> FileMetadataV {
        match self {
            FileMetadata::Vms(m) => FileMetadataV::Vms(m@),
            FileMetadata::Rsx(m) => FileMetadataV::Rsx(*m),
            FileMetadata::Rt11(m) => FileMetadataV::Rt11(m@),
            FileMetadata::Rsts(m) => FileMetadataV::Rsts(*m),
            FileMetadata::Raw => FileMetadataV::Raw,
        }
    }
}

/// One reconstructed file or directory: its format, path, computed size,
/// constituent block indices, metadata, and children.
#[derive(Debug)]
pub struct TapeFile {
    pub format: TapeFormat,
    pub path: TapePath,
    pub size_bytes: u64,
    pub blocks: Vec<u32>,
    pub metadata: FileMetadata,
    pub children: Vec<TapeFile>,
}

/// Mathematical model of a reconstructed file.
pub struct TapeFileV {
    pub format: TapeFormat,
    pub path: Seq<Seq<char>>,
    pub size_bytes: u64,
    pub blocks: Seq<u32>,
    pub metadata: FileMetadataV,
    pub children: Seq<TapeFileV>,
}

/// The models of a sequence of reconstructed files.
pub open spec fn files_view(fs: Seq<TapeFile>) -> Seq<TapeFileV>
    decreases fs,
{
    if fs.len() == 0 {
        Seq::empty()
    } else {
        files_view(fs.drop_last()).push(file_view(fs.last()))
    }
}

/// The model of a reconstructed file, children included.
pub open spec fn file_view(f: TapeFile) -> TapeFileV
    decreases f,
{
    TapeFileV {
        format: f.format,
        path: path_view(f.path),
        size_bytes: f.size_bytes,
        blocks: f.blocks@,
        metadata: f.metadata@,
        children: files_view(f.children@),
    }
}

/// Each file of a sequence is modelled in place.
pub proof fn lemma_files_view(fs: Seq<TapeFile>)
    ensures
        files_view(fs).len() == fs.len(),
        forall|i: int| 0 <= i < fs.len() ==> files_view(fs)[i] == file_view(#[trigger] fs[i]),
    decreases fs,
{
    if fs.len() > 0 {
        lemma_files_view(fs.drop_last());
        assert forall|i: int| 0 <= i < fs.len() implies files_view(fs)[i] == file_view(
            #[trigger] fs[i],
        ) by {
            if i < fs.len() - 1 {
                assert(fs.drop_last()[i] == fs[i]);
                assert(files_view(fs)[i] == files_view(fs.drop_last())[i]);
            }
        }
    }
}

} // verus!
