//! Record framing and format detection for raw tape images.
//!
//! Records are prefixed by a 32-bit little-endian length; a trailing
//! length word matching the prefix is consumed when present, and
//! odd-length records are padded to an even boundary before the trailer.
use vstd::prelude::*;

use crate::backup::vms::{read_backup_block, spec_backup_block, BackupBlock, BackupBlockV};
use crate::log::parse::LogLevel;
use crate::tap::DetectedFormat;
use crate::utils::bytes::{copy_range, le16_at, le32_at, read_le16, read_le32};
use crate::TapeError;

verus! {

/// The decoded contents of one record: raw bytes, or a save-set block.
#[derive(Debug, Clone, PartialEq, Eq)]
pub enum TapDataKind {
    Raw(Vec<u8>),
    VmsBlock(BackupBlock),
}

/// Mathematical model of a record's contents.
pub enum TapDataKindV {
    Raw(Seq<u8>),
    VmsBlock(BackupBlockV),
}

impl View for TapDataKind {
    type V = TapDataKindV;

    open spec fn view(&self) -> TapDataKindV {
        match self {
            TapDataKind::Raw(v) => TapDataKindV::Raw(v@),
            TapDataKind::VmsBlock(b) => TapDataKindV::VmsBlock(b@),
        }
    }
}

/// One framed record with its detected format.
#[derive(Debug, Clone, PartialEq, Eq)]
pub struct TapEntry {
    pub length: usize,
    pub kind: TapDataKind,
    pub log_level: Option<LogLevel>,
    pub detected_format: DetectedFormat,
}

/// Mathematical model of a framed record.
pub struct TapEntryV {
    pub length: nat,
    pub kind: TapDataKindV,
    pub log_level: Option<LogLevel>,
    pub detected_format: DetectedFormat,
}

impl View for TapEntry {
    type V = TapEntryV;

    open spec fn view(&self) -> TapEntryV {
        TapEntryV {
            length: self.length as nat,
            kind: self.kind@,
            log_level: self.log_level,
            detected_format: self.detected_format,
        }
    }
}

/// Whether the three tag bytes stand at offset `i`.
pub open spec fn tag3_at(d: Seq<u8>, i: int, a: u8, b: u8, c: u8) -> bool {
    &&& d[i] == a
    &&& d[i + 1] == b
    &&& d[i + 2] == c
}

/// Whether the three tag bytes stand anywhere in `d`.
pub open spec fn has_tag3(d: Seq<u8>, a: u8, b: u8, c: u8) -> bool {
    exists|i: int| 0 <= i && i + 3 <= d.len() && tag3_at(d, i, a, b, c)
}

/// Whether the four tag bytes stand at offset `i`.
pub open spec fn tag4_at(d: Seq<u8>, i: int, a: u8, b: u8, c: u8, e: u8) -> bool {
    &&& d[i] == a
    &&& d[i + 1] == b
    &&& d[i + 2] == c
    &&& d[i + 3] == e
}

/// Whether the four tag bytes stand anywhere in `d`.
pub open spec fn has_tag4(d: Seq<u8>, a: u8, b: u8, c: u8, e: u8) -> bool {
    exists|i: int| 0 <= i && i + 4 <= d.len() && tag4_at(d, i, a, b, c, e)
}

#[verifier::loop_isolation(false)]
fn scan_tag3(d: &[u8], a: u8, b: u8, c: u8) -> (r: bool)
    ensures
        r == has_tag3(d@, a, b, c),
{
    let n: usize = d.len();
    if n < 3 {
        return false;
    }
    let mut i: usize = 0;
    while i <= n - 3
        invariant
            i <= n - 3 + 1,
            forall|j: int| 0 <= j < i ==> !tag3_at(d@, j, a, b, c),
        decreases n - i,
    {
        if d[i] == a && d[i + 1] == b && d[i + 2] == c {
            assert(tag3_at(d@, i as int, a, b, c));
            return true;
        }
        i = i + 1;
    }
    false
}

#[verifier::loop_isolation(false)]
fn scan_tag4(d: &[u8], a: u8, b: u8, c: u8, e: u8) -> (r: bool)
    ensures
        r == has_tag4(d@, a, b, c, e),
{
    let n: usize = d.len();
    if n < 4 {
        return false;
    }
    let mut i: usize = 0;
    while i <= n - 4
        invariant
            i <= n - 4 + 1,
            forall|j: int| 0 <= j < i ==> !tag4_at(d@, j, a, b, c, e),
        decreases n - i,
    {
        if d[i] == a && d[i + 1] == b && d[i + 2] == c && d[i + 3] == e {
            assert(tag4_at(d@, i as int, a, b, c, e));
            return true;
        }
        i = i + 1;
    }
    false
}

/// RSX-style record: exactly 512 bytes with count word 1 at the start
/// and an `RSX` or `UFD` tag anywhere.
pub open spec fn spec_detect_rsx11m(d: Seq<u8>) -> bool {
    &&& d.len() == 512
    &&& d[0] == 1
    &&& d[1] == 0
    &&& d[2] == 0
    &&& d[3] == 0
    &&& (has_tag3(d, 82, 83, 88) || has_tag3(d, 85, 70, 68))
}

/// Detects an RSX-style directory record.
pub fn detect_rsx11m(block: &[u8]) -> (r: bool)
    ensures
        r == spec_detect_rsx11m(block@),
{
    let n: usize = block.len();
    if n != 512 {
        return false;
    }
    let has_count = block[0] == 1 && block[1] == 0 && block[2] == 0 && block[3] == 0;
    if !has_count {
        return false;
    }
    scan_tag3(block, 82, 83, 88) || scan_tag3(block, 85, 70, 68)
}

/// RT-11-style record: exactly 512 bytes whose leading directory word
/// count is plausible and which holds an `RT11` tag.
pub open spec fn spec_detect_rt11(d: Seq<u8>) -> bool {
    &&& d.len() == 512
    &&& le16_at(d, 0) > 0
    &&& le16_at(d, 0) < 0x400
    &&& has_tag4(d, 82, 84, 49, 49)
}

/// Detects an RT-11-style directory record.
pub fn detect_rt11(block: &[u8]) -> (r: bool)
    ensures
        r == spec_detect_rt11(block@),
{
    let n: usize = block.len();
    if n != 512 {
        return false;
    }
    let dir_words: u16 = read_le16(block, 0);
    if !(dir_words > 0 && dir_words < 0x400) {
        return false;
    }
    scan_tag4(block, 82, 84, 49, 49)
}

/// RSTS-style record: exactly 512 bytes whose first 32 bytes repeat at
/// offset 32 and which holds an `RSTS` tag.
pub open spec fn spec_detect_rsts(d: Seq<u8>) -> bool {
    &&& d.len() == 512
    &&& d.subrange(0, 32) == d.subrange(32, 64)
    &&& has_tag4(d, 82, 83, 84, 83)
}

/// Detects an RSTS-style directory record.
#[verifier::loop_isolation(false)]
pub fn detect_rsts(block: &[u8]) -> (r: bool)
    ensures
        r == spec_detect_rsts(block@),
{
    let n: usize = block.len();
    if n != 512 {
        return false;
    }
    let mut i: usize = 0;
    while i < 32
        invariant
            i <= 32,
            forall|j: int| 0 <= j < i ==> #[trigger] block@[j] == block@[32 + j],
        decreases 32 - i,
    {
        if block[i] != block[32 + i] {
            assert(block@.subrange(0, 32)[i as int] != block@.subrange(32, 64)[i as int]);
            return false;
        }
        i = i + 1;
    }
    proof {
        assert(block@.subrange(0, 32) =~= block@.subrange(32, 64));
    }
    scan_tag4(block, 82, 83, 84, 83)
}

/// Save-set block heuristic at offset `i`: at least 64 bytes remain,
/// the 16-bit size field is at least 64 and fits in what remains, the
/// format-version byte is 2 and the phase byte is 1.
pub open spec fn spec_looks_like_vms_at(d: Seq<u8>, i: int) -> bool {
    &&& i + 64 <= d.len()
    &&& le16_at(d, i) >= 64
    &&& le16_at(d, i) <= d.len() - i
    &&& d[i + 2] == 2
    &&& d[i + 3] == 1
}

/// Save-set block heuristic for a whole record.
pub open spec fn spec_looks_like_vms(d: Seq<u8>) -> bool {
    spec_looks_like_vms_at(d, 0)
}

fn looks_like_vms_at(d: &[u8], i: usize) -> (r: bool)
    requires
        i <= d@.len(),
    ensures
        r == spec_looks_like_vms_at(d@, i as int),
{
    let n: usize = d.len();
    if n - i < 64 {
        return false;
    }
    let block_size: u16 = read_le16(d, i);
    if block_size < 64 {
        return false;
    }
    if (block_size as usize) > n - i {
        return false;
    }
    d[i + 2] == 2 && d[i + 3] == 1
}

/// Tests whether a record looks like a save-set (VMS BACKUP) block.
pub fn looks_like_vms_backup(block: &[u8]) -> (r: bool)
    ensures
        r == spec_looks_like_vms(block@),
{
    looks_like_vms_at(block, 0)
}

/// The format a record is detected as, in fixed priority order.
pub open spec fn spec_detected_format(d: Seq<u8>) -> DetectedFormat {
    if spec_detect_rsx11m(d) {
        DetectedFormat::Rsx11m
    } else if spec_detect_rt11(d) {
        DetectedFormat::Rt11
    } else if spec_detect_rsts(d) {
        DetectedFormat::RstsE
    } else if spec_looks_like_vms(d) {
        DetectedFormat::VmsBackup
    } else {
        DetectedFormat::Raw
    }
}

/// The model of the entry parsed from one record's bytes: the bytes are
/// kept raw unless the record is detected as a save-set block, which is
/// decoded.
pub open spec fn spec_tap_entry(d: Seq<u8>) -> TapEntryV {
    let df = spec_detected_format(d);
    TapEntryV {
        length: d.len(),
        kind: if df is VmsBackup {
            TapDataKindV::VmsBlock(spec_backup_block(d))
        } else {
            TapDataKindV::Raw(d)
        },
        log_level: None,
        detected_format: df,
    }
}

/// Parses one already-isolated record.
///
/// Detection runs the RSX, RT-11 and RSTS heuristics first, then decodes
/// the record as a save-set block only when the header layout matches.
/// An empty record or one above a megabyte is refused.
pub fn read_tap_entry(record: &[u8]) -> (r: Result<TapEntry, TapeError>)
    ensures
        match r {
            Ok(e) => 0 < record@.len() <= 0x100000 && e@ == spec_tap_entry(record@),
            Err(e) => {
                &&& (record@.len() == 0 || record@.len() > 0x100000)
                &&& (e is Parse <==> record@.len() == 0)
            },
        },
{
    let n: usize = record.len();
    if n == 0 {
        return Err(TapeError::Parse(String::from_str("empty record")));
    }
    if n > 0x100000 {
        return Err(TapeError::UnsupportedFormat(String::from_str("record too large")));
    }

    let mut detected_format = DetectedFormat::Raw;
    if detect_rsx11m(record) {
        detected_format = DetectedFormat::Rsx11m;
    } else if detect_rt11(record) {
        detected_format = DetectedFormat::Rt11;
    } else if detect_rsts(record) {
        detected_format = DetectedFormat::RstsE;
    } else if looks_like_vms_backup(record) {
        detected_format = DetectedFormat::VmsBackup;
    }

    let mut kind = TapDataKind::Raw(copy_range(record, 0, n));
    proof {
        assert(record@.subrange(0, n as int) =~= record@);
    }
    if matches!(detected_format, DetectedFormat::VmsBackup) {
        match read_backup_block(record) {
            Ok(block) => {
                kind = TapDataKind::VmsBlock(block);
            },
            Err(_) => {
                detected_format = DetectedFormat::Raw;
            },
        }
    }

    Ok(TapEntry { length: n, kind, log_level: None, detected_format })
}

/// The models of the save-set sub-blocks found inside one record from
/// offset `i` on: wherever the heuristic matches, a sub-block of its
/// declared size is taken whole, else the scan advances one byte.
pub open spec fn scan_subblocks(record: Seq<u8>, i: int) -> Seq<TapEntryV>
    decreases record.len() - i,
{
    if i < 0 || i + 4 > record.len() {
        Seq::empty()
    } else if spec_looks_like_vms_at(record, i) {
        let bs = le16_at(record, i) as int;
        seq![spec_tap_entry(record.subrange(i, i + bs))] + scan_subblocks(record, i + bs)
    } else {
        scan_subblocks(record, i + 1)
    }
}

/// The outcome of framing a whole image: its entries, or the first fatal
/// condition met.
pub enum TapScan {
    Entries(Seq<TapEntryV>),
    Truncated,
    Oversize,
}

/// An outcome with entries put in front of it.
pub open spec fn scan_combine(prefix: Seq<TapEntryV>, r: TapScan) -> TapScan {
    match r {
        TapScan::Entries(rest) => TapScan::Entries(prefix + rest),
        _ => r,
    }
}

/// The outcome of framing from byte offset `offset` on: a zero length
/// word is a filler, consumed with its paired zero trailer; a non-zero
/// length must fit in the buffer; the record is split into recognised
/// save-set sub-blocks when it holds any, else kept whole (and refused
/// above a megabyte); after an odd record one pad byte is skipped, and a
/// trailing length word equal to the record's is consumed.
pub open spec fn spec_read_tap_from(data: Seq<u8>, offset: int) -> TapScan
    decreases data.len() + 9 - offset,
{
    if offset < 0 || offset + 4 > data.len() {
        TapScan::Entries(Seq::empty())
    } else {
        let len = le32_at(data, offset) as int;
        if len == 0 {
            if offset + 8 <= data.len() && le32_at(data, offset + 4) == 0 {
                spec_read_tap_from(data, offset + 8)
            } else {
                spec_read_tap_from(data, offset + 4)
            }
        } else if offset + 4 + len > data.len() {
            TapScan::Truncated
        } else {
            let record = data.subrange(offset + 4, offset + 4 + len);
            let subs = scan_subblocks(record, 0);
            if subs.len() == 0 && len > 0x100000 {
                TapScan::Oversize
            } else {
                let produced = if subs.len() > 0 {
                    subs
                } else {
                    seq![spec_tap_entry(record)]
                };
                let after = offset + 4 + len + (if len % 2 == 1 {
                    1int
                } else {
                    0int
                });
                let next = if after + 4 <= data.len() && le32_at(data, after) as int == len {
                    after + 4
                } else {
                    after
                };
                scan_combine(produced, spec_read_tap_from(data, next))
            }
        }
    }
}


/// The entries of an image split into fixed-size chunks from `pos` on:
/// each chunk is parsed as one record.
pub open spec fn spec_chunk_entries(d: Seq<u8>, size: int, pos: int) -> Seq<TapEntryV>
    decreases d.len() - pos,
{
    if pos < 0 || pos >= d.len() || size <= 0 {
        Seq::empty()
    } else {
        let end = if pos + size < d.len() {
            pos + size
        } else {
            d.len() as int
        };
        seq![spec_tap_entry(d.subrange(pos, end))] + spec_chunk_entries(d, size, end)
    }
}

/// The fallback for images whose framing is not meaningful: splits the
/// bytes into fixed-size chunks, each parsed as one record. Fails only
/// when a chunk would be larger than a megabyte.
#[verifier::loop_isolation(false)]
pub fn read_tap_with_chunks(data: &[u8], chunk_size: usize) -> (r: Result<Vec<TapEntry>, TapeError>)
    requires
        chunk_size > 0,
    ensures
        match r {
            Ok(es) => (data@.len() <= 0x100000 || chunk_size <= 0x100000) && es@.map_values(
                |e: TapEntry| e@,
            ) == spec_chunk_entries(data@, chunk_size as int, 0),
            Err(e) => data@.len() > 0x100000 && chunk_size > 0x100000
                && e is UnsupportedFormat,
        },
{
    let n: usize = data.len();
    if n > 0x100000 && chunk_size > 0x100000 {
        return Err(TapeError::UnsupportedFormat(String::from_str("record too large")));
    }
    let mut entries: Vec<TapEntry> = Vec::new();
    let mut pos: usize = 0;
    proof {
        assert(entries@.map_values(|e: TapEntry| e@) =~= Seq::<TapEntryV>::empty());
    }
    while pos < n
        invariant
            pos <= n,
            n <= 0x100000 || chunk_size <= 0x100000,
            spec_chunk_entries(data@, chunk_size as int, 0) == entries@.map_values(
                |e: TapEntry| e@,
            ) + spec_chunk_entries(data@, chunk_size as int, pos as int),
        decreases n - pos,
    {
        let ghost prev = entries@;
        let end: usize = if n - pos > chunk_size {
            pos + chunk_size
        } else {
            n
        };
        let chunk = copy_range(data, pos, end);
        let entry = match read_tap_entry(chunk.as_slice()) {
            Ok(e) => e,
            Err(err) => {
                return Err(err);
            },
        };
        entries.push(entry);
        proof {
            assert(entries@.map_values(|e: TapEntry| e@) =~= prev.map_values(
                |e: TapEntry| e@,
            ).push(entries@.last()@));
            assert(spec_chunk_entries(data@, chunk_size as int, pos as int) =~= seq![
                spec_tap_entry(data@.subrange(pos as int, end as int)),
            ] + spec_chunk_entries(data@, chunk_size as int, end as int));
        }
        pos = end;
    }
    proof {
        assert(spec_chunk_entries(data@, chunk_size as int, n as int) =~= Seq::<
            TapEntryV,
        >::empty());
    }
    Ok(entries)
}

/// A zero-length record is a filler: it is skipped together with its
/// paired zero trailer when one follows, and contributes no entry to the
/// output.
pub proof fn lemma_filler_skipped(data: Seq<u8>, offset: int)
    requires
        0 <= offset,
        offset + 4 <= data.len(),
        le32_at(data, offset) == 0,
    ensures
        spec_read_tap_from(data, offset) == (if offset + 8 <= data.len() && le32_at(
            data,
            offset + 4,
        ) == 0 {
            spec_read_tap_from(data, offset + 8)
        } else {
            spec_read_tap_from(data, offset + 4)
        }),
{
}

/// Framing round-trip: a framed record that is not split into sub-blocks
/// and is not decoded as a save-set block yields exactly one raw entry
/// holding every payload byte once — the pad byte and the trailing
/// length word are consumed without losing or duplicating payload bytes,
/// and framing resumes exactly after them.
pub proof fn lemma_framing_round_trip(data: Seq<u8>, offset: int)
    requires
        0 <= offset,
        offset + 4 <= data.len(),
        1 <= le32_at(data, offset) <= 0x100000,
        offset + 4 + le32_at(data, offset) <= data.len(),
        scan_subblocks(data.subrange(offset + 4, offset + 4 + le32_at(data, offset) as int), 0)
            == Seq::<TapEntryV>::empty(),
        !spec_looks_like_vms(
            data.subrange(offset + 4, offset + 4 + le32_at(data, offset) as int),
        ),
    ensures
        ({
            let len = le32_at(data, offset) as int;
            let record = data.subrange(offset + 4, offset + 4 + len);
            let after = offset + 4 + len + (if len % 2 == 1 {
                1int
            } else {
                0int
            });
            let next = if after + 4 <= data.len() && le32_at(data, after) as int == len {
                after + 4
            } else {
                after
            };
            spec_read_tap_from(data, offset) == scan_combine(
                seq![spec_tap_entry(record)],
                spec_read_tap_from(data, next),
            ) && spec_tap_entry(record).kind == TapDataKindV::Raw(record) && spec_tap_entry(
                record,
            ).length == len
        }),
{
    let len = le32_at(data, offset) as int;
    let record = data.subrange(offset + 4, offset + 4 + len);
    assert(!(spec_detected_format(record) is VmsBackup));
}

/// Parses a whole raw image into framed records.
#[verifier::rlimit(100)]
pub fn read_tap_records(data: &[u8]) -> (r: Result<Vec<TapEntry>, TapeError>)
    ensures
        match r {
            Ok(es) => data@.len() > 0 && spec_read_tap_from(data@, 0) == TapScan::Entries(
                es@.map_values(|e: TapEntry| e@),
            ),
            Err(e) => {
                ||| (data@.len() == 0 && e is Parse)
                ||| (data@.len() > 0 && spec_read_tap_from(data@, 0) is Truncated && e is Parse)
                ||| (data@.len() > 0 && spec_read_tap_from(data@, 0) is Oversize
                    && e is UnsupportedFormat)
            },
        },
{
    let n: usize = data.len();
    if n == 0 {
        return Err(TapeError::Parse(String::from_str("empty TAP file")));
    }

    let mut entries: Vec<TapEntry> = Vec::new();
    let mut offset: usize = 0;

    while n - offset >= 4
        invariant
            offset <= n,
            n == data@.len(),
            scan_combine(
                entries@.map_values(|e: TapEntry| e@),
                spec_read_tap_from(data@, offset as int),
            ) == spec_read_tap_from(data@, 0),
        decreases n - offset,
    {
        let ghost outer_prefix = entries@.map_values(|e: TapEntry| e@);
        let ghost off0 = offset as int;
        let record_len: usize = read_le32(data, offset) as usize;
        proof {
            assert(record_len == le32_at(data@, off0) as int);
        }
        offset = offset + 4;

        if record_len == 0 {
            if n - offset >= 4 {
                let trailer: u32 = read_le32(data, offset);
                if trailer == 0 {
                    offset = offset + 4;
                }
            }
            continue ;
        }

        if record_len > n - offset {
            return Err(TapeError::Parse(
                String::from_str("tape record length exceeds available data"),
            ));
        }

        let record: Vec<u8> = copy_range(data, offset, offset + record_len);
        let ghost rec = record@;
        let mut record_has_vms = false;
        let mut record_offset: usize = 0;

        let rn: usize = record.len();
        while rn - record_offset >= 4
            invariant
                record_offset <= rn,
                rn == rec.len(),
                rec == record@,
                record_has_vms == (entries@.map_values(|e: TapEntry| e@).len()
                    > outer_prefix.len()),
                outer_prefix.len() <= entries@.map_values(|e: TapEntry| e@).len(),
                scan_subblocks(rec, 0) == entries@.map_values(|e: TapEntry| e@).skip(
                    outer_prefix.len() as int,
                ) + scan_subblocks(rec, record_offset as int),
                entries@.map_values(|e: TapEntry| e@).take(outer_prefix.len() as int)
                    == outer_prefix,
            decreases rn - record_offset,
        {
            let ghost mid_entries = entries@.map_values(|e: TapEntry| e@);
            if looks_like_vms_at(record.as_slice(), record_offset) {
                let block_size: usize = read_le16(record.as_slice(), record_offset) as usize;
                let sub: Vec<u8> = copy_range(
                    record.as_slice(),
                    record_offset,
                    record_offset + block_size,
                );
                let entry = match read_tap_entry(sub.as_slice()) {
                    Ok(e) => e,
                    Err(err) => {
                        return Err(err);
                    },
                };
                entries.push(entry);
                record_offset = record_offset + block_size;
                record_has_vms = true;
                proof {
                    let now = entries@.map_values(|e: TapEntry| e@);
                    assert(now =~= mid_entries.push(entry@));
                    assert(now.take(outer_prefix.len() as int) =~= outer_prefix);
                    assert(now.skip(outer_prefix.len() as int) =~= mid_entries.skip(
                        outer_prefix.len() as int,
                    ).push(entry@));
                    assert(scan_subblocks(rec, 0) =~= now.skip(outer_prefix.len() as int)
                        + scan_subblocks(rec, record_offset as int));
                }
            } else {
                record_offset = record_offset + 1;
            }
        }

        proof {
            assert(scan_subblocks(rec, record_offset as int) =~= Seq::<TapEntryV>::empty());
            assert(scan_subblocks(rec, 0) =~= entries@.map_values(|e: TapEntry| e@).skip(
                outer_prefix.len() as int,
            ));
        }

        if !record_has_vms {
            proof {
                let m = entries@.map_values(|e: TapEntry| e@);
                assert(m.len() == outer_prefix.len());
                assert forall|i: int| 0 <= i < m.len() implies m[i] == outer_prefix[i] by {
                    assert(m.take(outer_prefix.len() as int)[i] == m[i]);
                }
                assert(m =~= outer_prefix);
                assert(scan_subblocks(rec, 0) =~= Seq::<TapEntryV>::empty());
            }
            let entry = match read_tap_entry(record.as_slice()) {
                Ok(e) => e,
                Err(err) => {
                    proof {
                        assert(spec_read_tap_from(data@, off0) is Oversize);
                        assert(spec_read_tap_from(data@, 0) is Oversize);
                    }
                    return Err(err);
                },
            };
            entries.push(entry);
            proof {
                let now = entries@.map_values(|e: TapEntry| e@);
                assert(now =~= outer_prefix.push(entry@));
                assert(now.skip(outer_prefix.len() as int) =~= seq![spec_tap_entry(rec)]);
                assert(now.take(outer_prefix.len() as int) =~= outer_prefix);
            }
        }

        let ghost produced = entries@.map_values(|e: TapEntry| e@).skip(
            outer_prefix.len() as int,
        );
        let ghost spec_subs = scan_subblocks(rec, 0);
        proof {
            if record_has_vms {
                assert(produced == spec_subs);
                assert(spec_subs.len() > 0);
            } else {
                assert(spec_subs.len() == 0);
                assert(produced =~= seq![spec_tap_entry(rec)]);
            }
        }

        offset = offset + record_len;
        if record_len % 2 == 1 && offset < n {
            offset = offset + 1;
        }

        if n - offset >= 4 {
            let trailer: u32 = read_le32(data, offset);
            if (trailer as usize) == record_len {
                offset = offset + 4;
            }
        }

        proof {
            let len = record_len as int;
            assert(rec == data@.subrange(off0 + 4, off0 + 4 + len));
            let after = off0 + 4 + len + (if len % 2 == 1 {
                1int
            } else {
                0int
            });
            let next = if after + 4 <= data@.len() && le32_at(data@, after) as int == len {
                after + 4
            } else {
                after
            };
            assert(spec_read_tap_from(data@, off0) == scan_combine(
                produced,
                spec_read_tap_from(data@, next),
            ));
            assert(spec_read_tap_from(data@, next) == spec_read_tap_from(data@, offset as int));
            let now = entries@.map_values(|e: TapEntry| e@);
            assert(now =~= outer_prefix + produced);
            let tail = spec_read_tap_from(data@, offset as int);
            match tail {
                TapScan::Entries(rest) => {
                    assert((outer_prefix + produced) + rest =~= outer_prefix + (produced + rest));
                },
                _ => {},
            }
            assert(scan_combine(now, tail) == spec_read_tap_from(data@, 0));
        }
    }

    Ok(entries)
}

} // verus!
