//! Readable descriptions of reconstructed entries: a flattened listing
//! of the tree and per-format metadata lines.
use vstd::prelude::*;

use crate::pipeline::file::{
    file_view, files_view, lemma_files_view, spec_join_path, FileMetadata, FileMetadataV,
    Rt11FileMetadata, TapeFile, TapeFileV, TapePath, VmsFileMetadata,
};
use crate::utils::fmt::{
    dec_digits, hex_digits_min, oct_digits, oct_digits_min, push_decimal, push_hex_min,
    push_octal, push_octal_min,
};
use crate::utils::text::{sanitize_display, spec_sanitize_display};

verus! {

broadcast use vstd::std_specs::vec::group_vec_axioms;

/// The depth given to the children of a node at `d`.
pub open spec fn next_depth(d: nat) -> nat {
    if d < usize::MAX {
        (d + 1) as nat
    } else {
        d
    }
}

/// The tree flattened to a listing: each entry first, then its children
/// one level deeper, in order.
pub open spec fn spec_flatten(files: Seq<TapeFileV>, depth: nat) -> Seq<(TapeFileV, nat)>
    decreases files,
{
    if files.len() == 0 {
        Seq::empty()
    } else {
        seq![(files[0], depth)] + (if files[0].children.len() > 0 {
            spec_flatten(files[0].children, next_depth(depth))
        } else {
            Seq::empty()
        }) + spec_flatten(files.drop_first(), depth)
    }
}

fn duplicate_strings(v: &Vec<String>) -> (r: Vec<String>)
    ensures
        r@.map_values(|s: String| s@) == v@.map_values(|s: String| s@),
{
    let n: usize = v.len();
    let mut out: Vec<String> = Vec::new();
    let mut i: usize = 0;
    while i < n
        invariant
            i <= n,
            n == v@.len(),
            out@.map_values(|s: String| s@) == v@.take(i as int).map_values(|s: String| s@),
        decreases n - i,
    {
        let ghost prev = out@;
        out.push(v[i].clone());
        i = i + 1;
        proof {
            assert(out@.last() == v@[i - 1]);
            assert(out@.map_values(|s: String| s@) =~= prev.map_values(|s: String| s@).push(
                v@[i - 1]@,
            ));
            assert(out@.map_values(|s: String| s@) =~= v@.take(i as int).map_values(
                |s: String| s@,
            ));
        }
    }
    proof {
        assert(v@.take(n as int) =~= v@);
        assert(out@.map_values(|s: String| s@) =~= v@.map_values(|s: String| s@));
    }
    out
}

fn duplicate_indices(v: &Vec<u32>) -> (r: Vec<u32>)
    ensures
        r@ == v@,
{
    let n: usize = v.len();
    let mut out: Vec<u32> = Vec::new();
    let mut i: usize = 0;
    while i < n
        invariant
            i <= n,
            n == v@.len(),
            out@ == v@.take(i as int),
        decreases n - i,
    {
        out.push(v[i]);
        i = i + 1;
        proof {
            assert(out@ =~= v@.take(i as int));
        }
    }
    proof {
        assert(v@.take(n as int) =~= v@);
    }
    out
}

fn duplicate_metadata(m: &FileMetadata) -> (r: FileMetadata)
    ensures
        r@ == m@,
{
    match m {
        FileMetadata::Vms(v) => FileMetadata::Vms(
            VmsFileMetadata {
                file_id: v.file_id,
                rev: v.rev,
                seq: v.seq,
                owner_uic: v.owner_uic,
                protection: v.protection,
                record_format: v.record_format,
                record_attributes: v.record_attributes,
                record_length: v.record_length,
                file_type: v.file_type.clone(),
                backup_flags: v.backup_flags,
                creation_time: match &v.creation_time {
                    Some(s) => Some(s.clone()),
                    None => None,
                },
                revision_time: match &v.revision_time {
                    Some(s) => Some(s.clone()),
                    None => None,
                },
                expiration_time: match &v.expiration_time {
                    Some(s) => Some(s.clone()),
                    None => None,
                },
            },
        ),
        FileMetadata::Rsx(v) => FileMetadata::Rsx(*v),
        FileMetadata::Rt11(v) => FileMetadata::Rt11(
            Rt11FileMetadata {
                start_block: v.start_block,
                length_blocks: v.length_blocks,
                ext: v.ext.clone(),
            },
        ),
        FileMetadata::Rsts(v) => FileMetadata::Rsts(*v),
        FileMetadata::Raw => FileMetadata::Raw,
    }
}

impl TapeFile {
    /// An owned copy of this entry, children included.
    pub fn duplicate(&self) -> (r: TapeFile)
        ensures
            file_view(r) == file_view(*self),
        decreases *self,
    {
        let n: usize = self.children.len();
        let mut children: Vec<TapeFile> = Vec::new();
        proof {
            assert(files_view(children@) =~= Seq::<TapeFileV>::empty());
        }
        let mut i: usize = 0;
        while i < n
            invariant
                i <= n,
                n == self.children@.len(),
                files_view(children@) == files_view(self.children@).take(i as int),
            decreases n - i,
        {
            let ghost prev = children@;
            let copy = self.children[i].duplicate();
            children.push(copy);
            i = i + 1;
            proof {
                lemma_files_view(children@);
                lemma_files_view(prev);
                lemma_files_view(self.children@);
                assert(children@.drop_last() =~= prev);
                assert(files_view(children@) =~= files_view(prev).push(
                    file_view(children@.last()),
                ));
                assert(files_view(children@) =~= files_view(self.children@).take(i as int));
            }
        }
        proof {
            lemma_files_view(self.children@);
            assert(files_view(self.children@).take(n as int) =~= files_view(self.children@));
        }
        let r = TapeFile {
            format: self.format,
            path: TapePath { elements: duplicate_strings(&self.path.elements) },
            size_bytes: self.size_bytes,
            blocks: duplicate_indices(&self.blocks),
            metadata: duplicate_metadata(&self.metadata),
            children,
        };
        r
    }
}

/// The listing views of a flattened vector.
pub open spec fn flat_view(v: Seq<(TapeFile, usize)>) -> Seq<(TapeFileV, nat)> {
    v.map_values(|p: (TapeFile, usize)| (file_view(p.0), p.1 as nat))
}

/// Flattens the reconstructed tree into a listing of entries with their
/// depths: each entry is followed by its children, one level deeper.
#[verifier::rlimit(60)]
pub fn flatten_files_tree(files: &[TapeFile], depth: usize) -> (r: Vec<(TapeFile, usize)>)
    ensures
        flat_view(r@) == spec_flatten(files_view(files@), depth as nat),
    decreases files_view(files@),
{
    let mut flat: Vec<(TapeFile, usize)> = Vec::new();
    let n: usize = files.len();
    proof {
        assert(flat_view(flat@) =~= Seq::<(TapeFileV, nat)>::empty());
        lemma_files_view(files@);
    }
    let mut i: usize = 0;
    while i < n
        invariant
            i <= n,
            n == files@.len(),
            flat_view(flat@) == spec_flatten_suffixes(files_view(files@), depth as nat, i as int),
        decreases n - i,
    {
        let ghost before = flat@;
        proof {
            lemma_files_view(files@);
        }
        let file = &files[i];
        let copy = file.duplicate();
        flat.push((copy, depth));
        proof {
            assert(flat_view(flat@) =~= flat_view(before).push(
                (file_view(files@[i as int]), depth as nat),
            ));
        }
        if file.children.len() > 0 {
            let next: usize = if depth < usize::MAX {
                depth + 1
            } else {
                depth
            };
            let ghost mid = flat@;
            proof {
                lemma_files_view(files@);
                assert(file_view(files@[i as int]).children == files_view(file.children@));
                assert(decreases_to!(files_view(files@) => files_view(files@)[i as int]));
            }
            let mut sub = flatten_files_tree(file.children.as_slice(), next);
            let ghost sub0 = sub@;
            let ghost subv = flat_view(sub0);
            flat.append(&mut sub);
            proof {
                assert(flat@ =~= mid + sub0);
                assert forall|k: int| 0 <= k < flat@.len() implies flat_view(flat@)[k] == (
                flat_view(mid) + subv)[k] by {
                    if k < mid.len() {
                        assert(flat@[k] == mid[k]);
                    } else {
                        assert(flat@[k] == sub0[k - mid.len()]);
                    }
                }
                assert(flat_view(flat@) =~= flat_view(mid) + subv);
            }
        }
        i = i + 1;
        proof {
            lemma_spec_flatten_step(files_view(files@), depth as nat, i - 1);
            assert(flat_view(flat@) =~= spec_flatten_suffixes(
                files_view(files@),
                depth as nat,
                i as int,
            ));
        }
    }
    proof {
        lemma_spec_flatten_done(files_view(files@), depth as nat);
    }
    flat
}

/// The listing of every entry from position `i` on.
pub open spec fn spec_flatten_suffixes(files: Seq<TapeFileV>, depth: nat, i: int) -> Seq<
    (TapeFileV, nat),
>
    decreases files, 0int, i,
{
    if i <= 0 {
        Seq::empty()
    } else if i > files.len() {
        spec_flatten_suffixes(files, depth, files.len() as int)
    } else {
        spec_flatten_suffixes(files, depth, i - 1) + seq![(files[i - 1], depth)] + (if files[i
            - 1].children.len() > 0 {
            spec_flatten(files[i - 1].children, next_depth(depth))
        } else {
            Seq::empty()
        })
    }
}

proof fn lemma_spec_flatten_step(files: Seq<TapeFileV>, depth: nat, i: int)
    requires
        0 <= i < files.len(),
    ensures
        spec_flatten_suffixes(files, depth, i + 1) == spec_flatten_suffixes(files, depth, i)
            + seq![(files[i], depth)] + (if files[i].children.len() > 0 {
            spec_flatten(files[i].children, next_depth(depth))
        } else {
            Seq::<(TapeFileV, nat)>::empty()
        }),
{
}

proof fn lemma_spec_flatten_done(files: Seq<TapeFileV>, depth: nat)
    ensures
        spec_flatten_suffixes(files, depth, files.len() as int) == spec_flatten(files, depth),
    decreases files.len(),
{
    if files.len() > 0 {
        lemma_spec_flatten_done(files.drop_first(), depth);
        lemma_flatten_suffix_shift(files, depth, files.len() as int);
        assert(spec_flatten(files, depth) =~= seq![(files[0], depth)] + (if files[0].children.len()
            > 0 {
            spec_flatten(files[0].children, next_depth(depth))
        } else {
            Seq::<(TapeFileV, nat)>::empty()
        }) + spec_flatten(files.drop_first(), depth));
    } else {
        assert(spec_flatten_suffixes(files, depth, 0) =~= spec_flatten(files, depth));
    }
}

proof fn lemma_flatten_suffix_shift(files: Seq<TapeFileV>, depth: nat, i: int)
    requires
        0 < i <= files.len(),
    ensures
        spec_flatten_suffixes(files, depth, i) == seq![(files[0], depth)] + (if files[0].children.len()
            > 0 {
            spec_flatten(files[0].children, next_depth(depth))
        } else {
            Seq::<(TapeFileV, nat)>::empty()
        }) + spec_flatten_suffixes(files.drop_first(), depth, i - 1),
    decreases i,
{
    if i == 1 {
        assert(spec_flatten_suffixes(files, depth, 0) == Seq::<(TapeFileV, nat)>::empty());
        assert(spec_flatten_suffixes(files.drop_first(), depth, 0) == Seq::<
            (TapeFileV, nat),
        >::empty());
        assert(spec_flatten_suffixes(files, depth, 1) =~= seq![(files[0], depth)] + (if files[0].children.len()
            > 0 {
            spec_flatten(files[0].children, next_depth(depth))
        } else {
            Seq::<(TapeFileV, nat)>::empty()
        }) + spec_flatten_suffixes(files.drop_first(), depth, 0));
    } else {
        lemma_flatten_suffix_shift(files, depth, i - 1);
        assert(files.drop_first()[i - 2] == files[i - 1]);
        assert(spec_flatten_suffixes(files, depth, i) =~= seq![(files[0], depth)] + (if files[0].children.len()
            > 0 {
            spec_flatten(files[0].children, next_depth(depth))
        } else {
            Seq::<(TapeFileV, nat)>::empty()
        }) + spec_flatten_suffixes(files.drop_first(), depth, i - 1));
    }
}


/// The display label of a record-format byte.
pub open spec fn spec_describe_record_format(rfm: u8) -> Seq<char> {
    if rfm == 0 {
        "Undefined"@
    } else if rfm == 1 {
        "Fixed"@
    } else if rfm == 2 {
        "Variable"@
    } else if rfm == 3 {
        "VFC"@
    } else {
        "Unknown"@
    }
}

/// Labels a record-format byte.
pub fn describe_record_format(rfm: u8) -> (r: &'static str)
    ensures
        r@ == spec_describe_record_format(rfm),
{
    match rfm {
        0 => "Undefined",
        1 => "Fixed",
        2 => "Variable",
        3 => "VFC",
        _ => "Unknown",
    }
}

/// The metadata lines shown for one entry, by its format.
pub open spec fn spec_describe_metadata(f: TapeFileV) -> Seq<Seq<char>> {
    match f.metadata {
        FileMetadataV::Rsx(m) => seq![
            "Directory: "@ + (if m.is_directory {
                "true"@
            } else {
                "false"@
            }),
            "UIC "@ + oct_digits_min(m.uic.group as nat, 3) + ","@ + oct_digits_min(
                m.uic.member as nat,
                3,
            ),
            "Protection: "@ + oct_digits(m.protection as nat),
        ],
        FileMetadataV::Rt11(m) => seq![
            "File: "@ + spec_sanitize_display(
                if m.ext.len() == 0 {
                    spec_join_path(f.path)
                } else {
                    spec_join_path(f.path) + "."@ + m.ext
                },
            ),
            "Start block: "@ + dec_digits(m.start_block as nat),
            "Length (blocks): "@ + dec_digits(m.length_blocks as nat),
        ],
        FileMetadataV::Rsts(m) => seq![
            "Owner UIC "@ + oct_digits_min(m.owner_uic.group as nat, 3) + ","@ + oct_digits_min(
                m.owner_uic.member as nat,
                3,
            ),
            "Status: 0x"@ + hex_digits_min(m.status as nat, 4),
            "Blocks: "@ + dec_digits(m.blocks as nat),
        ],
        FileMetadataV::Vms(m) => seq![
            "File ID: ("@ + dec_digits(m.file_id.num as nat) + ", "@ + dec_digits(
                m.file_id.seq as nat,
            ) + ", "@ + dec_digits(m.file_id.rel as nat) + ")"@,
            "Revision: "@ + dec_digits(m.rev as nat),
            "Sequence: "@ + dec_digits(m.seq as nat),
            "Owner UIC: "@ + oct_digits(m.owner_uic.group as nat) + ","@ + oct_digits(
                m.owner_uic.member as nat,
            ),
            "Protection: "@ + oct_digits(m.protection as nat),
            "Record Format: "@ + spec_describe_record_format(m.record_format),
            "Record Attributes: 0x"@ + hex_digits_min(m.record_attributes as nat, 2),
            "Record Length: "@ + dec_digits(m.record_length as nat),
            "File Type: "@ + m.file_type,
            "Backup Flags: 0x"@ + hex_digits_min(m.backup_flags as nat, 4),
        ] + (match m.creation_time {
            Some(t) => seq!["Created: "@ + t],
            None => Seq::empty(),
        }) + (match m.revision_time {
            Some(t) => seq!["Revised: "@ + t],
            None => Seq::empty(),
        }) + (match m.expiration_time {
            Some(t) => seq!["Expires: "@ + t],
            None => Seq::empty(),
        }),
        FileMetadataV::Raw => seq!["Raw data, no metadata"@],
    }
}

/// Builds the metadata lines shown for one entry.
#[verifier::rlimit(100)]
pub fn describe_metadata(file: &TapeFile) -> (r: Vec<String>)
    ensures
        r@.map_values(|s: String| s@) == spec_describe_metadata(file_view(*file)),
{
    let mut out: Vec<String> = Vec::new();
    match &file.metadata {
        FileMetadata::Rsx(m) => {
            let mut l1 = String::from_str("Directory: ");
            l1.append(if m.is_directory {
                "true"
            } else {
                "false"
            });
            out.push(l1);
            let mut l2 = String::from_str("UIC ");
            push_octal_min(&mut l2, m.uic.group as u64, 3);
            l2.append(",");
            push_octal_min(&mut l2, m.uic.member as u64, 3);
            out.push(l2);
            let mut l3 = String::from_str("Protection: ");
            push_octal(&mut l3, m.protection as u64);
            out.push(l3);
            proof {
                assert(out@.map_values(|s: String| s@) =~= spec_describe_metadata(
                    file_view(*file),
                ));
            }
        },
        FileMetadata::Rt11(m) => {
            let joined = file.path.to_string_path();
            let named: String = if m.ext.as_str().is_empty() {
                joined
            } else {
                let mut s = joined;
                s.append(".");
                s.append(m.ext.as_str());
                s
            };
            let mut l1 = String::from_str("File: ");
            l1.append(sanitize_display(named.as_str()).as_str());
            out.push(l1);
            let mut l2 = String::from_str("Start block: ");
            push_decimal(&mut l2, m.start_block as u64);
            out.push(l2);
            let mut l3 = String::from_str("Length (blocks): ");
            push_decimal(&mut l3, m.length_blocks as u64);
            out.push(l3);
            proof {
                assert(out@.map_values(|s: String| s@) =~= spec_describe_metadata(
                    file_view(*file),
                ));
            }
        },
        FileMetadata::Rsts(m) => {
            let mut l1 = String::from_str("Owner UIC ");
            push_octal_min(&mut l1, m.owner_uic.group as u64, 3);
            l1.append(",");
            push_octal_min(&mut l1, m.owner_uic.member as u64, 3);
            out.push(l1);
            let mut l2 = String::from_str("Status: 0x");
            push_hex_min(&mut l2, m.status as u64, 4);
            out.push(l2);
            let mut l3 = String::from_str("Blocks: ");
            push_decimal(&mut l3, m.blocks as u64);
            out.push(l3);
            proof {
                assert(out@.map_values(|s: String| s@) =~= spec_describe_metadata(
                    file_view(*file),
                ));
            }
        },
        FileMetadata::Vms(m) => {
            let mut l1 = String::from_str("File ID: (");
            push_decimal(&mut l1, m.file_id.num as u64);
            l1.append(", ");
            push_decimal(&mut l1, m.file_id.seq as u64);
            l1.append(", ");
            push_decimal(&mut l1, m.file_id.rel as u64);
            l1.append(")");
            out.push(l1);
            let mut l2 = String::from_str("Revision: ");
            push_decimal(&mut l2, m.rev as u64);
            out.push(l2);
            let mut l3 = String::from_str("Sequence: ");
            push_decimal(&mut l3, m.seq as u64);
            out.push(l3);
            let mut l4 = String::from_str("Owner UIC: ");
            push_octal(&mut l4, m.owner_uic.group as u64);
            l4.append(",");
            push_octal(&mut l4, m.owner_uic.member as u64);
            out.push(l4);
            let mut l5 = String::from_str("Protection: ");
            push_octal(&mut l5, m.protection as u64);
            out.push(l5);
            let mut l6 = String::from_str("Record Format: ");
            l6.append(describe_record_format(m.record_format));
            out.push(l6);
            let mut l7 = String::from_str("Record Attributes: 0x");
            push_hex_min(&mut l7, m.record_attributes as u64, 2);
            out.push(l7);
            let mut l8 = String::from_str("Record Length: ");
            push_decimal(&mut l8, m.record_length as u64);
            out.push(l8);
            let mut l9 = String::from_str("File Type: ");
            l9.append(m.file_type.as_str());
            out.push(l9);
            let mut l10 = String::from_str("Backup Flags: 0x");
            push_hex_min(&mut l10, m.backup_flags as u64, 4);
            out.push(l10);
            if let Some(t) = &m.creation_time {
                let mut l = String::from_str("Created: ");
                l.append(t.as_str());
                out.push(l);
            }
            if let Some(t) = &m.revision_time {
                let mut l = String::from_str("Revised: ");
                l.append(t.as_str());
                out.push(l);
            }
            if let Some(t) = &m.expiration_time {
                let mut l = String::from_str("Expires: ");
                l.append(t.as_str());
                out.push(l);
            }
            proof {
                assert(out@.map_values(|s: String| s@) =~= spec_describe_metadata(
                    file_view(*file),
                ));
            }
        },
        FileMetadata::Raw => {
            out.push(String::from_str("Raw data, no metadata"));
            proof {
                assert(out@.map_values(|s: String| s@) =~= spec_describe_metadata(
                    file_view(*file),
                ));
            }
        },
    }
    out
}

} // verus!
