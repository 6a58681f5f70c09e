//! Reconstruction of save-set files: fragments sorted by virtual block
//! number, canonical names, and file entries built from collected
//! groups.
use vstd::prelude::*;

use crate::pipeline::block::{TapeBlock, TapeFormat};
use crate::pipeline::file::{
    file_view, FileId, FileMetadata, TapeFile, TapeFileV, TapePath, Uic, VmsFileMetadata,
};
use crate::pipeline::vms::block::{Fh2Record, Fh2RecordV, VbnRecord, VbnRecordV};
use crate::pipeline::vms::{
    collect_vms_blocks, groups_view, spec_collect_vms, VmsCollected, VmsCollectedV,
};
use crate::utils::chars::{chars_of, trim_chars, trim_slice, string_of_chars};
use crate::utils::fmt::{dec_digits, push_decimal};

verus! {

/// A value inserted into an ascending sequence, after any equal values.
pub open spec fn insert_sorted_u32(s: Seq<u32>, x: u32) -> Seq<u32>
    decreases s.len(),
{
    if s.len() == 0 {
        seq![x]
    } else if s.last() <= x {
        s.push(x)
    } else {
        insert_sorted_u32(s.drop_last(), x).push(s.last())
    }
}

/// The ascending insertion sort of a sequence.
pub open spec fn sort_u32s(s: Seq<u32>) -> Seq<u32>
    decreases s.len(),
{
    if s.len() == 0 {
        Seq::empty()
    } else {
        insert_sorted_u32(sort_u32s(s.drop_last()), s.last())
    }
}

proof fn lemma_insert_sorted_u32_at(s: Seq<u32>, x: u32, j: int)
    requires
        0 <= j <= s.len(),
        forall|i: int| j <= i < s.len() ==> s[i] > x,
        j > 0 ==> s[j - 1] <= x,
    ensures
        insert_sorted_u32(s, x) == s.take(j) + seq![x] + s.skip(j),
    decreases s.len(),
{
    if j == s.len() {
        if s.len() == 0 {
            assert(insert_sorted_u32(s, x) =~= s.take(j) + seq![x] + s.skip(j));
        } else {
            assert(insert_sorted_u32(s, x) =~= s.take(j) + seq![x] + s.skip(j));
        }
    } else {
        assert(s.last() > x);
        lemma_insert_sorted_u32_at(s.drop_last(), x, j);
        assert(s.drop_last().take(j) =~= s.take(j));
        assert(insert_sorted_u32(s, x) =~= s.take(j) + seq![x] + s.skip(j));
    }
}

/// Sorts block numbers ascending.
pub fn sort_block_numbers(v: &Vec<u32>) -> (r: Vec<u32>)
    ensures
        r@ == sort_u32s(v@),
{
    let n: usize = v.len();
    let mut out: Vec<u32> = Vec::new();
    let mut i: usize = 0;
    while i < n
        invariant
            i <= n,
            n == v@.len(),
            out@ == sort_u32s(v@.take(i as int)),
        decreases n - i,
    {
        let ghost prev = out@;
        let x: u32 = v[i];
        let m: usize = out.len();
        let mut j: usize = m;
        while j > 0
            invariant
                0 <= j <= m,
                m == out@.len(),
                out@ == prev,
                forall|t: int| j <= t < m ==> prev[t] > x,
            ensures
                0 <= j <= m,
                out@ == prev,
                m == out@.len(),
                forall|t: int| j <= t < m ==> prev[t] > x,
                j > 0 ==> prev[j - 1] <= x,
            decreases j,
        {
            if out[j - 1] <= x {
                break ;
            }
            j = j - 1;
        }
        out.insert(j, x);
        i = i + 1;
        proof {
            lemma_insert_sorted_u32_at(prev, x, j as int);
            assert(out@ =~= prev.take(j as int) + seq![x] + prev.skip(j as int));
            assert(v@.take(i as int).drop_last() =~= v@.take(i - 1));
            assert(out@ =~= sort_u32s(v@.take(i as int)));
        }
    }
    proof {
        assert(v@.take(n as int) =~= v@);
    }
    out
}

/// A fragment inserted into a sequence ascending by virtual block
/// number, after any fragments with the same number.
pub open spec fn insert_sorted_vbn(s: Seq<VbnRecordV>, x: VbnRecordV) -> Seq<VbnRecordV>
    decreases s.len(),
{
    if s.len() == 0 {
        seq![x]
    } else if s.last().vbn <= x.vbn {
        s.push(x)
    } else {
        insert_sorted_vbn(s.drop_last(), x).push(s.last())
    }
}

/// Fragments sorted ascending by virtual block number, fragments with
/// equal numbers kept in arrival order.
pub open spec fn sort_vbns(s: Seq<VbnRecordV>) -> Seq<VbnRecordV>
    decreases s.len(),
{
    if s.len() == 0 {
        Seq::empty()
    } else {
        insert_sorted_vbn(sort_vbns(s.drop_last()), s.last())
    }
}

proof fn lemma_insert_sorted_vbn_at(s: Seq<VbnRecordV>, x: VbnRecordV, j: int)
    requires
        0 <= j <= s.len(),
        forall|i: int| j <= i < s.len() ==> s[i].vbn > x.vbn,
        j > 0 ==> s[j - 1].vbn <= x.vbn,
    ensures
        insert_sorted_vbn(s, x) == s.take(j) + seq![x] + s.skip(j),
    decreases s.len(),
{
    if j == s.len() {
        assert(insert_sorted_vbn(s, x) =~= s.take(j) + seq![x] + s.skip(j));
    } else {
        assert(s.last().vbn > x.vbn);
        lemma_insert_sorted_vbn_at(s.drop_last(), x, j);
        assert(s.drop_last().take(j) =~= s.take(j));
        assert(insert_sorted_vbn(s, x) =~= s.take(j) + seq![x] + s.skip(j));
    }
}

/// The payload bytes of a fragment sequence, concatenated in order.
pub open spec fn concat_vbn_payloads(s: Seq<VbnRecordV>) -> Seq<u8>
    decreases s.len(),
{
    if s.len() == 0 {
        Seq::empty()
    } else {
        concat_vbn_payloads(s.drop_last()) + s.last().payload
    }
}

/// The total payload length of a fragment sequence, clamped at the
/// largest representable size.
pub open spec fn sat_payload_total(s: Seq<VbnRecordV>) -> u64
    decreases s.len(),
{
    if s.len() == 0 {
        0u64
    } else {
        let p = sat_payload_total(s.drop_last());
        if p + s.last().payload.len() > u64::MAX {
            u64::MAX
        } else {
            (p + s.last().payload.len()) as u64
        }
    }
}

/// Reassembles a group's data: fragment payloads concatenated in
/// ascending virtual-block-number order, independent of arrival order.
pub fn assemble_group_payload(group: &VmsCollected) -> (r: Vec<u8>)
    ensures
        r@ == concat_vbn_payloads(sort_vbns(group@.vbn)),
{
    let n: usize = group.vbn.len();
    let mut sorted: Vec<usize> = Vec::new();
    let ghost vbns = group@.vbn;

    let mut i: usize = 0;
    while i < n
        invariant
            i <= n,
            n == group.vbn@.len(),
            vbns == group@.vbn,
            sorted@.len() == i,
            forall|t: int| 0 <= t < i ==> #[trigger] sorted@[t] < n,
            sorted@.map_values(|ix: usize| vbns[ix as int]) == sort_vbns(vbns.take(i as int)),
        decreases n - i,
    {
        let ghost prev = sorted@;
        let ghost prev_v = prev.map_values(|ix: usize| vbns[ix as int]);
        let x_vbn: u32 = group.vbn[i].vbn;
        let m: usize = sorted.len();
        let mut j: usize = m;
        while j > 0
            invariant
                0 <= j <= m,
                m == sorted@.len(),
                sorted@ == prev,
                n == group.vbn@.len(),
                vbns == group@.vbn,
                prev_v == prev.map_values(|ix: usize| vbns[ix as int]),
                forall|t: int| 0 <= t < m ==> #[trigger] prev[t] < n,
                forall|t: int| j <= t < m ==> prev_v[t].vbn > x_vbn,
            ensures
                0 <= j <= m,
                sorted@ == prev,
                m == sorted@.len(),
                forall|t: int| j <= t < m ==> prev_v[t].vbn > x_vbn,
                j > 0 ==> prev_v[j - 1].vbn <= x_vbn,
            decreases j,
        {
            if group.vbn[sorted[j - 1]].vbn <= x_vbn {
                break ;
            }
            j = j - 1;
        }
        sorted.insert(j, i);
        i = i + 1;
        proof {
            lemma_insert_sorted_vbn_at(prev_v, vbns[i - 1], j as int);
            assert(sorted@ =~= prev.take(j as int) + seq![(i - 1) as usize] + prev.skip(j as int));
            assert(sorted@.map_values(|ix: usize| vbns[ix as int]) =~= prev_v.take(j as int)
                + seq![vbns[i - 1]] + prev_v.skip(j as int));
            assert(vbns.take(i as int).drop_last() =~= vbns.take(i - 1));
            assert(sorted@.map_values(|ix: usize| vbns[ix as int]) =~= sort_vbns(
                vbns.take(i as int),
            ));
        }
    }
    proof {
        assert(vbns.take(n as int) =~= vbns);
    }

    let ghost order = sorted@.map_values(|ix: usize| vbns[ix as int]);
    let mut data: Vec<u8> = Vec::new();
    let mut k: usize = 0;
    while k < n
        invariant
            k <= n,
            n == group.vbn@.len(),
            vbns == group@.vbn,
            sorted@.len() == n,
            forall|t: int| 0 <= t < n ==> #[trigger] sorted@[t] < n,
            order == sorted@.map_values(|ix: usize| vbns[ix as int]),
            order == sort_vbns(vbns),
            data@ == concat_vbn_payloads(order.take(k as int)),
        decreases n - k,
    {
        data.extend_from_slice(group.vbn[sorted[k]].payload.as_slice());
        k = k + 1;
        proof {
            assert(order.take(k as int).drop_last() =~= order.take(k - 1));
            assert(order.take(k as int).last() == order[k - 1]);
            assert(order[k - 1].payload == vbns[sorted@[k - 1] as int].payload);
        }
    }
    proof {
        assert(order.take(n as int) =~= order);
    }
    data
}

/// The canonical label of a file header: the trimmed name, a dot and the
/// trimmed type when that is non-empty, and a semicolon with the version
/// number when the version is non-zero.
pub open spec fn spec_build_vms_fullname(fh2: Fh2RecordV) -> Seq<char> {
    let base = trim_chars(fh2.file_name);
    let ftype = trim_chars(fh2.file_type);
    let with_type = if ftype.len() > 0 {
        base + seq!['.'] + ftype
    } else {
        base
    };
    if fh2.version != 0 {
        with_type + seq![';'] + dec_digits(fh2.version as nat)
    } else {
        with_type
    }
}

/// Builds the canonical `NAME.TYPE;VERSION` label of a header.
pub fn build_vms_fullname(fh2: &Fh2Record) -> (r: String)
    ensures
        r@ == spec_build_vms_fullname(fh2@),
{
    let name_chars = chars_of(fh2.file_name.as_str());
    let trimmed_name = trim_slice(name_chars.as_slice());
    let mut s = string_of_chars(trimmed_name.as_slice());

    let type_chars = chars_of(fh2.file_type.as_str());
    let trimmed_type = trim_slice(type_chars.as_slice());
    if trimmed_type.len() > 0 {
        s.append(".");
        s.append(string_of_chars(trimmed_type.as_slice()).as_str());
    }

    if fh2.version != 0 {
        s.append(";");
        push_decimal(&mut s, fh2.version as u64);
    }
    proof {
        reveal_strlit(".");
        reveal_strlit(";");
        assert(s@ =~= spec_build_vms_fullname(fh2@));
    }
    s
}

/// The metadata of a reconstructed file: header fields, with the file
/// id and sequence from the ident record and the backup flags from the
/// extension record when those were collected.
pub open spec fn spec_group_metadata(fh2: Fh2RecordV, group: VmsCollectedV) -> crate::pipeline::file::VmsFileMetadataV {
    crate::pipeline::file::VmsFileMetadataV {
        file_id: match group.xh3 {
            Some(xh3) => FileId {
                num: (xh3.file_id as int % 0x10000) as u16,
                seq: (xh3.file_id as int / 0x10000 % 0x10000) as u16,
                rel: 0,
            },
            None => FileId { num: 0, seq: 0, rel: 0 },
        },
        rev: fh2.version,
        seq: match group.xh3 {
            Some(xh3) => xh3.sequence_number,
            None => 0,
        },
        owner_uic: fh2.uic,
        protection: 0,
        record_format: fh2.record_format,
        record_attributes: fh2.record_attributes,
        record_length: 0,
        file_type: fh2.file_type,
        backup_flags: match group.xh2 {
            Some(xh2) => xh2.backup_flags,
            None => 0,
        },
        creation_time: None,
        revision_time: None,
        expiration_time: None,
    }
}

/// The model of the file entry built from one collected group.
pub open spec fn spec_build_file(fh2: Fh2RecordV, group: VmsCollectedV) -> TapeFileV {
    TapeFileV {
        format: TapeFormat::Vms,
        path: seq![spec_build_vms_fullname(fh2)],
        size_bytes: sat_payload_total(group.vbn),
        blocks: sort_u32s(group.vbn.map_values(|v: VbnRecordV| v.vbn)),
        metadata: crate::pipeline::file::FileMetadataV::Vms(spec_group_metadata(fh2, group)),
        children: Seq::empty(),
    }
}

/// Builds a file entry from a header and its collected group: the label
/// becomes the path, the fragments' virtual block numbers are sorted
/// ascending into the block list, and the size is the total payload
/// length.
#[verifier::loop_isolation(false)]
pub fn build_file_from_group(fh2: &Fh2Record, group: &VmsCollected) -> (r: TapeFile)
    ensures
        file_view(r) == spec_build_file(fh2@, group@),
{
    let full = build_vms_fullname(fh2);

    let n: usize = group.vbn.len();
    let mut numbers: Vec<u32> = Vec::new();
    let mut i: usize = 0;
    while i < n
        invariant
            i <= n,
            numbers@ == group@.vbn.map_values(|v: crate::pipeline::vms::block::VbnRecordV| v.vbn).take(i as int),
        decreases n - i,
    {
        numbers.push(group.vbn[i].vbn);
        i = i + 1;
        proof {
            assert(numbers@ =~= group@.vbn.map_values(
                |v: crate::pipeline::vms::block::VbnRecordV| v.vbn,
            ).take(i as int));
        }
    }
    proof {
        assert(group@.vbn.map_values(|v: crate::pipeline::vms::block::VbnRecordV| v.vbn).take(
            n as int,
        ) =~= group@.vbn.map_values(|v: crate::pipeline::vms::block::VbnRecordV| v.vbn));
    }
    let indices = sort_block_numbers(&numbers);

    let mut size: u64 = 0;
    let mut k: usize = 0;
    while k < n
        invariant
            k <= n,
            size == sat_payload_total(group@.vbn.take(k as int)),
        decreases n - k,
    {
        let l: u64 = group.vbn[k].payload.len() as u64;
        if size > u64::MAX - l {
            size = u64::MAX;
        } else {
            size = size + l;
        }
        k = k + 1;
        proof {
            assert(group@.vbn.take(k as int).drop_last() =~= group@.vbn.take(k - 1));
            assert(group@.vbn.take(k as int).last() == group.vbn@[k - 1]@);
        }
    }
    proof {
        assert(group@.vbn.take(n as int) =~= group@.vbn);
    }

    let mut metadata = VmsFileMetadata {
        file_id: FileId { num: 0, seq: 0, rel: 0 },
        rev: fh2.version,
        seq: 0,
        owner_uic: fh2.uic,
        protection: 0,
        record_format: fh2.record_format,
        record_attributes: fh2.record_attributes,
        record_length: 0,
        file_type: fh2.file_type.clone(),
        backup_flags: 0,
        creation_time: None,
        revision_time: None,
        expiration_time: None,
    };

    if let Some(xh3) = &group.xh3 {
        metadata.file_id = FileId {
            num: (xh3.file_id % 0x10000) as u16,
            seq: (xh3.file_id / 0x10000 % 0x10000) as u16,
            rel: 0,
        };
        metadata.seq = xh3.sequence_number;
    }

    if let Some(xh2) = &group.xh2 {
        metadata.backup_flags = xh2.backup_flags;
    }

    let mut elements: Vec<String> = Vec::new();
    elements.push(full);
    let file = TapeFile {
        format: TapeFormat::Vms,
        path: TapePath::new(elements),
        size_bytes: size,
        blocks: indices,
        metadata: FileMetadata::Vms(metadata),
        children: Vec::new(),
    };
    proof {
        assert(crate::pipeline::file::path_view(file.path) =~= spec_build_file(
            fh2@,
            group@,
        ).path);
        assert(crate::pipeline::file::files_view(file.children@) =~= Seq::<TapeFileV>::empty());
        assert(file_view(file) == spec_build_file(fh2@, group@));
    }
    file
}

/// The file entries of the groups that have a header.
pub open spec fn spec_files_of_groups(groups: Seq<(u32, VmsCollectedV)>) -> Seq<TapeFileV>
    decreases groups.len(),
{
    if groups.len() == 0 {
        Seq::empty()
    } else {
        spec_files_of_groups(groups.drop_last()) + (match groups.last().1.fh2 {
            Some(fh2) => seq![spec_build_file(fh2, groups.last().1)],
            None => Seq::empty(),
        })
    }
}

/// Builds file entries from collected groups, one per group that has a
/// file header, in group order.
#[verifier::loop_isolation(false)]
pub fn reconstruct_vms_from_collected(collected: &Vec<(u32, VmsCollected)>) -> (r: Vec<TapeFile>)
    ensures
        crate::pipeline::file::files_view(r@) == spec_files_of_groups(groups_view(collected@)),
{
    let mut out: Vec<TapeFile> = Vec::new();
    let n: usize = collected.len();
    proof {
        assert(groups_view(collected@).take(0) =~= Seq::<(u32, VmsCollectedV)>::empty());
        assert(crate::pipeline::file::files_view(out@) =~= Seq::<TapeFileV>::empty());
    }
    let mut i: usize = 0;
    while i < n
        invariant
            i <= n,
            crate::pipeline::file::files_view(out@) == spec_files_of_groups(
                groups_view(collected@).take(i as int),
            ),
        decreases n - i,
    {
        let ghost prev = out@;
        let group = &collected[i].1;
        if let Some(fh2) = &group.fh2 {
            let file = build_file_from_group(fh2, group);
            out.push(file);
            proof {
                crate::pipeline::file::lemma_files_view(out@);
                crate::pipeline::file::lemma_files_view(prev);
                assert(out@.drop_last() =~= prev);
                assert(crate::pipeline::file::files_view(out@) =~= crate::pipeline::file::files_view(
                    prev,
                ).push(file_view(out@.last())));
            }
        }
        i = i + 1;
        proof {
            assert(groups_view(collected@).take(i as int).drop_last() =~= groups_view(
                collected@,
            ).take(i - 1));
            assert(groups_view(collected@).take(i as int).last() == (
            collected@[i - 1].0,
            collected@[i - 1].1@,
            ));
            assert(crate::pipeline::file::files_view(out@) =~= spec_files_of_groups(
                groups_view(collected@).take(i as int),
            ));
        }
    }
    proof {
        assert(groups_view(collected@).take(n as int) =~= groups_view(collected@));
    }
    out
}

/// Reconstructs all save-set files from classified blocks: structures
/// are collected into per-file groups, then each group with a header
/// becomes a file entry.
pub fn reconstruct_vms(blocks: &[TapeBlock]) -> (r: Vec<TapeFile>)
    ensures
        crate::pipeline::file::files_view(r@) == spec_files_of_groups(
            spec_collect_vms(blocks@.map_values(|b: TapeBlock| b@)),
        ),
{
    let collected = collect_vms_blocks(blocks);
    reconstruct_vms_from_collected(&collected)
}

} // verus!
