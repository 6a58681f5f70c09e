//! Log-text parsing: classify lines by severity, collect drive metadata
//! hints, and correlate log lines with tape records by the numbers they
//! mention.
use vstd::prelude::*;

use crate::tap::legacy::{TapEntry, TapEntryV};
use crate::utils::chars::{
    chars_of, copy_char_range, find_pat, find_pattern, lower_char, lower_chars, string_of_chars,
    trim_chars, trim_slice, upper_char, upper_chars,
};

verus! {

broadcast use vstd::string::group_string_axioms;


/// Severity of one log line.
#[derive(Debug, Clone, Copy, PartialEq, Eq, Structural)]
pub enum LogLevel {
    Info,
    Warning,
    Error,
}

/// One classified log line.
#[derive(Debug, Clone, PartialEq, Eq)]
pub struct LogEntry {
    pub line: String,
    pub level: LogLevel,
}

/// Mathematical model of a classified log line.
pub struct LogEntryV {
    pub line: Seq<char>,
    pub level: LogLevel,
}

impl View for LogEntry {
    type V = LogEntryV;

    open spec fn view(&self) -> LogEntryV {
        LogEntryV { line: self.line@, level: self.level }
    }
}

/// Drive metadata hints found in a log: tracks, density, and blocks read.
#[derive(Debug, Clone, PartialEq, Eq, Default)]
pub struct DriveMetadata {
    pub tracks: Option<String>,
    pub density: Option<String>,
    pub blocks_read: Option<String>,
}

/// The text of an optional string.
pub open spec fn opt_view(o: Option<String>) -> Option<Seq<char>> {
    match o {
        Some(s) => Some(s@),
        None => None,
    }
}

/// Mathematical model of the drive metadata hints.
pub struct DriveMetadataV {
    pub tracks: Option<Seq<char>>,
    pub density: Option<Seq<char>>,
    pub blocks_read: Option<Seq<char>>,
}

impl View for DriveMetadata {
    type V = DriveMetadataV;

    open spec fn view(&self) -> DriveMetadataV {
        DriveMetadataV {
            tracks: opt_view(self.tracks),
            density: opt_view(self.density),
            blocks_read: opt_view(self.blocks_read),
        }
    }
}

impl DriveMetadata {
    /// Looks a hint up by its key text.
    pub fn get(&self, key: &str) -> (r: Option<&String>)
        ensures
            key@ == "Tracks"@ ==> same_opt(r, self.tracks),
            key@ == "Density"@ ==> same_opt(r, self.density),
            key@ == "Blocks read"@ ==> same_opt(r, self.blocks_read),
            key@ != "Tracks"@ && key@ != "Density"@ && key@ != "Blocks read"@ ==> r is None,
    {
        proof {
            reveal_strlit("Tracks");
            reveal_strlit("Density");
            reveal_strlit("Blocks read");
            assert("Tracks"@.len() == 6);
            assert("Density"@.len() == 7);
            assert("Blocks read"@.len() == 11);
        }
        if crate::utils::chars::str_eq(key, "Tracks") {
            self.tracks.as_ref()
        } else if crate::utils::chars::str_eq(key, "Density") {
            self.density.as_ref()
        } else if crate::utils::chars::str_eq(key, "Blocks read") {
            self.blocks_read.as_ref()
        } else {
            None
        }
    }
}

/// Whether a borrowed optional string holds the same value as an owned one.
pub open spec fn same_opt(r: Option<&String>, o: Option<String>) -> bool {
    match (r, o) {
        (Some(a), Some(b)) => *a == b,
        (None, None) => true,
        _ => false,
    }
}

/// Parsed log data: classified lines plus drive metadata hints.
#[derive(Debug, Clone, PartialEq, Eq, Default)]
pub struct LogData {
    pub entries: Vec<LogEntry>,
    pub metadata: DriveMetadata,
}

/// Mathematical model of parsed log data.
pub struct LogDataV {
    pub entries: Seq<LogEntryV>,
    pub metadata: DriveMetadataV,
}

impl View for LogData {
    type V = LogDataV;

    open spec fn view(&self) -> LogDataV {
        LogDataV { entries: self.entries@.map_values(|e: LogEntry| e@), metadata: self.metadata@ }
    }
}

/// The severity of a line: ERROR or BAD anywhere (case-insensitive) means
/// an error; otherwise WARNING or SKIP means a warning; otherwise info.
pub open spec fn spec_line_level(line: Seq<char>) -> LogLevel {
    let u = line.map_values(|c: char| upper_char(c));
    if find_pat(u, "ERROR"@) >= 0 || find_pat(u, "BAD"@) >= 0 {
        LogLevel::Error
    } else if find_pat(u, "WARNING"@) >= 0 || find_pat(u, "SKIP"@) >= 0 {
        LogLevel::Warning
    } else {
        LogLevel::Info
    }
}

/// True when the haystack, folded to upper case, contains one of the
/// needle strings.
pub fn contains_any(haystack: &str, needles: &[&str]) -> (r: bool)
    ensures
        r == exists|k: int|
            0 <= k < needles@.len() && find_pat(
                haystack@.map_values(|c: char| upper_char(c)),
                needles@[k]@,
            ) >= 0,
{
    let hv = chars_of(haystack);
    let uv = upper_chars(hv.as_slice());
    let n: usize = needles.len();
    let mut k: usize = 0;
    while k < n
        invariant
            k <= n,
            n == needles@.len(),
            uv@ == haystack@.map_values(|c: char| upper_char(c)),
            forall|j: int|
                0 <= j < k ==> find_pat(
                    haystack@.map_values(|c: char| upper_char(c)),
                    needles@[j]@,
                ) < 0,
        decreases n - k,
    {
        let pv = chars_of(needles[k]);
        if let Some(_i) = find_pattern(uv.as_slice(), pv.as_slice()) {
            return true;
        }
        k = k + 1;
    }
    false
}

/// A line with a trailing carriage return removed.
pub open spec fn strip_cr(s: Seq<char>) -> Seq<char> {
    if s.len() > 0 && s.last() == '\r' {
        s.drop_last()
    } else {
        s
    }
}

/// The index of the first line feed at or after `pos`, or the length of
/// the text when there is none.
pub open spec fn line_end(s: Seq<char>, pos: int) -> int
    decreases s.len() - pos,
{
    if pos < 0 || pos >= s.len() {
        s.len() as int
    } else if s[pos] == '\n' {
        pos
    } else {
        line_end(s, pos + 1)
    }
}

/// The lines of the text from position `pos` on, split on line feeds,
/// each without its trailing carriage return; text ending in a line feed
/// yields no final empty line.
pub open spec fn spec_lines_from(s: Seq<char>, pos: int) -> Seq<Seq<char>>
    decreases s.len() - pos,
{
    if pos < 0 || pos >= s.len() {
        Seq::empty()
    } else {
        let i0 = line_end(s, pos);
        let i = if i0 < pos {
            pos
        } else if i0 > s.len() {
            s.len() as int
        } else {
            i0
        };
        if i >= s.len() {
            seq![strip_cr(s.skip(pos))]
        } else {
            seq![strip_cr(s.subrange(pos, i))] + spec_lines_from(s, i + 1)
        }
    }
}

/// The value drive metadata takes from one line for one `Key =` pattern:
/// the trimmed text after the first occurrence, when there is one.
pub open spec fn drive_value(line: Seq<char>, pat: Seq<char>) -> Option<Seq<char>> {
    let i = find_pat(line, pat);
    if i >= 0 {
        Some(trim_chars(line.skip(i + pat.len())))
    } else {
        None
    }
}

/// The second option unless the first is set.
pub open spec fn keep_or(a: Option<Seq<char>>, b: Option<Seq<char>>) -> Option<Seq<char>> {
    if a is Some {
        a
    } else {
        b
    }
}

fn drive_field(line: &[char], pat: &str) -> (r: Option<String>)
    ensures
        opt_view(r) == drive_value(line@, pat@),
{
    let nline: usize = line.len();
    let pv = chars_of(pat);
    match find_pattern(line, pv.as_slice()) {
        Some(i) => {
            let rest = copy_char_range(line, i + pv.len(), nline);
            let trimmed = trim_slice(rest.as_slice());
            assert(rest@ =~= line@.skip(i + pat@.len()));
            Some(string_of_chars(trimmed.as_slice()))
        },
        None => None,
    }
}

/// Collects `Tracks =`, `Density =` and `Blocks read =` hints from one
/// line into the drive metadata, keeping earlier values when a line does
/// not mention a key.
pub fn parse_drive_metadata(line: &str, metadata: &mut DriveMetadata)
    ensures
        final(metadata)@.tracks == keep_or(drive_value(line@, "Tracks ="@), old(metadata)@.tracks),
        final(metadata)@.density == keep_or(
            drive_value(line@, "Density ="@),
            old(metadata)@.density,
        ),
        final(metadata)@.blocks_read == keep_or(
            drive_value(line@, "Blocks read ="@),
            old(metadata)@.blocks_read,
        ),
{
    let lv = chars_of(line);
    if let Some(v) = drive_field(lv.as_slice(), "Tracks =") {
        metadata.tracks = Some(v);
    }
    if let Some(v) = drive_field(lv.as_slice(), "Density =") {
        metadata.density = Some(v);
    }
    if let Some(v) = drive_field(lv.as_slice(), "Blocks read =") {
        metadata.blocks_read = Some(v);
    }
}

/// The model of one classified line.
pub open spec fn spec_log_entry(line: Seq<char>) -> LogEntryV {
    LogEntryV { line: line, level: spec_line_level(line) }
}

/// The models of all classified lines of a text.
pub open spec fn spec_log_entries(content: Seq<char>) -> Seq<LogEntryV> {
    spec_lines_from(content, 0).map_values(|l: Seq<char>| spec_log_entry(l))
}

/// The drive metadata accumulated over a sequence of lines.
pub open spec fn spec_drive_metadata(lines: Seq<Seq<char>>) -> DriveMetadataV
    decreases lines.len(),
{
    if lines.len() == 0 {
        DriveMetadataV { tracks: None, density: None, blocks_read: None }
    } else {
        let prev = spec_drive_metadata(lines.drop_last());
        let l = lines.last();
        DriveMetadataV {
            tracks: keep_or(drive_value(l, "Tracks ="@), prev.tracks),
            density: keep_or(drive_value(l, "Density ="@), prev.density),
            blocks_read: keep_or(drive_value(l, "Blocks read ="@), prev.blocks_read),
        }
    }
}

fn classify_line(line: &str) -> (r: LogLevel)
    ensures
        r == spec_line_level(line@),
{
    let error_keys: Vec<&str> = vec!["ERROR", "BAD"];
    let warn_keys: Vec<&str> = vec!["WARNING", "SKIP"];
    if contains_any(line, error_keys.as_slice()) {
        LogLevel::Error
    } else if contains_any(line, warn_keys.as_slice()) {
        LogLevel::Warning
    } else {
        LogLevel::Info
    }
}

fn find_newline(v: &[char], from: usize) -> (r: Option<usize>)
    requires
        from <= v@.len(),
    ensures
        match r {
            Some(i) => line_end(v@, from as int) == i && from <= i < v@.len(),
            None => line_end(v@, from as int) == v@.len(),
        },
{
    let n: usize = v.len();
    let mut i: usize = from;
    while i < n
        invariant
            from <= i <= n,
            n == v@.len(),
            line_end(v@, from as int) == line_end(v@, i as int),
        decreases n - i,
    {
        if v[i] == '\n' {
            return Some(i);
        }
        i = i + 1;
    }
    None
}

/// Parses companion log text: every line is kept and classified by
/// severity, and drive metadata hints are collected.
#[verifier::loop_isolation(false)]
pub fn parse_log(content: &str) -> (r: LogData)
    ensures
        r@.entries == spec_log_entries(content@),
        r@.metadata == spec_drive_metadata(spec_lines_from(content@, 0)),
{
    let cv = chars_of(content);
    let n: usize = cv.len();
    let mut entries: Vec<LogEntry> = Vec::new();
    let mut metadata = DriveMetadata { tracks: None, density: None, blocks_read: None };
    let mut pos: usize = 0;
    let ghost all_lines = spec_lines_from(content@, 0);

    while pos < n
        invariant
            pos <= n,
            all_lines == entries@.map_values(|e: LogEntry| e@.line) + spec_lines_from(
                content@,
                pos as int,
            ),
            entries@.map_values(|e: LogEntry| e@) == entries@.map_values(
                |e: LogEntry| e@.line,
            ).map_values(|l: Seq<char>| spec_log_entry(l)),
            metadata@ == spec_drive_metadata(entries@.map_values(|e: LogEntry| e@.line)),
        decreases n - pos,
    {
        let line_chars: Vec<char>;
        let next_pos: usize;
        match find_newline(cv.as_slice(), pos) {
            Some(i) => {
                let mut end: usize = i;
                if end > pos && cv[end - 1] == '\r' {
                    end = end - 1;
                }
                line_chars = copy_char_range(cv.as_slice(), pos, end);
                next_pos = i + 1;
                proof {
                    assert(line_chars@ =~= strip_cr(content@.subrange(pos as int, i as int)));
                }
            },
            None => {
                let mut end: usize = n;
                if end > pos && cv[end - 1] == '\r' {
                    end = end - 1;
                }
                line_chars = copy_char_range(cv.as_slice(), pos, end);
                next_pos = n;
                proof {
                    assert(line_chars@ =~= strip_cr(content@.skip(pos as int)));
                }
            },
        }
        let ghost prev_entries = entries@;
        let line = string_of_chars(line_chars.as_slice());
        parse_drive_metadata(line.as_str(), &mut metadata);
        let level = classify_line(line.as_str());
        entries.push(LogEntry { line, level });
        proof {
            let lines_before = prev_entries.map_values(|e: LogEntry| e@.line);
            let lines_now = entries@.map_values(|e: LogEntry| e@.line);
            assert(lines_now =~= lines_before.push(line_chars@));
            assert(lines_now.drop_last() =~= lines_before);
            assert(lines_now.last() == line_chars@);
            assert(entries@.last()@.line == line_chars@);
            assert(entries@.last()@.level == spec_line_level(line_chars@));
            assert forall|i: int| 0 <= i < entries@.len() implies (#[trigger] entries@[i])@
                == spec_log_entry(lines_now[i]) by {
                if i < prev_entries.len() {
                    assert(prev_entries.map_values(|e: LogEntry| e@)[i] == lines_before.map_values(
                        |l: Seq<char>| spec_log_entry(l),
                    )[i]);
                    assert(entries@[i] == prev_entries[i]);
                    assert(lines_now[i] == lines_before[i]);
                }
            }
            assert(entries@.map_values(|e: LogEntry| e@) =~= lines_now.map_values(
                |l: Seq<char>| spec_log_entry(l),
            ));
            assert(metadata@ == spec_drive_metadata(lines_now));
            assert(all_lines =~= lines_now + spec_lines_from(content@, next_pos as int));
        }
        pos = next_pos;
    }
    proof {
        assert(all_lines =~= entries@.map_values(|e: LogEntry| e@.line));
        assert(entries@.map_values(|e: LogEntry| e@) =~= spec_log_entries(content@));
    }
    LogData { entries, metadata }
}


/// A decimal digit.
pub open spec fn is_digit(c: char) -> bool {
    48 <= c as u32 <= 57
}

/// The index of the first digit at or after `i` (the length when there
/// is none).
pub open spec fn first_digit(s: Seq<char>, i: int) -> int
    decreases s.len() - i,
{
    if i < 0 || i >= s.len() {
        s.len() as int
    } else if is_digit(s[i]) {
        i
    } else {
        first_digit(s, i + 1)
    }
}

/// The index just past the digit run starting at `i`.
pub open spec fn digit_run_end(s: Seq<char>, i: int) -> int
    decreases s.len() - i,
{
    if i < 0 || i >= s.len() {
        s.len() as int
    } else if !is_digit(s[i]) {
        i
    } else {
        digit_run_end(s, i + 1)
    }
}

/// The number a digit sequence denotes.
pub open spec fn digits_value(ds: Seq<char>) -> nat
    decreases ds.len(),
{
    if ds.len() == 0 {
        0
    } else {
        digits_value(ds.drop_last()) * 10 + (if is_digit(ds.last()) {
            (ds.last() as u32 - 48) as nat
        } else {
            0
        })
    }
}

/// The record number one key contributes: when the key occurs, the first
/// digit run after its first occurrence, read as a number; nothing when
/// the key is absent, the run is empty, or the number does not fit.
pub open spec fn key_number(lower: Seq<char>, key: Seq<char>) -> Option<nat> {
    let p = find_pat(lower, key);
    if p < 0 {
        None
    } else {
        let d0 = first_digit(lower, p + key.len());
        let d1 = digit_run_end(lower, d0);
        if d0 >= d1 {
            None
        } else {
            let v = digits_value(lower.subrange(d0, d1));
            if v > usize::MAX {
                None
            } else {
                Some(v)
            }
        }
    }
}

/// The record number a log line mentions: the first number found after
/// `record`, `block` or `skipped`, in that key order, on the line folded
/// to lower case.
pub open spec fn spec_record_index(line: Seq<char>) -> Option<nat> {
    let lower = line.map_values(|c: char| lower_char(c));
    if key_number(lower, "record"@) is Some {
        key_number(lower, "record"@)
    } else if key_number(lower, "block"@) is Some {
        key_number(lower, "block"@)
    } else {
        key_number(lower, "skipped"@)
    }
}

fn digits_after(lower: &[char], from: usize) -> (r: Option<usize>)
    requires
        from <= lower@.len(),
    ensures
        ({
            let d0 = first_digit(lower@, from as int);
            let d1 = digit_run_end(lower@, d0);
            match r {
                Some(v) => d0 < d1 && v == digits_value(lower@.subrange(d0, d1)),
                None => d0 >= d1 || digits_value(lower@.subrange(d0, d1)) > usize::MAX,
            }
        }),
{
    let n: usize = lower.len();
    let mut i: usize = from;
    while i < n
        invariant
            from <= i <= n,
            n == lower@.len(),
            first_digit(lower@, from as int) == first_digit(lower@, i as int),
        ensures
            from <= i <= n,
            n == lower@.len(),
            first_digit(lower@, from as int) == i,
            i == n || is_digit(lower@[i as int]),
        decreases n - i,
    {
        let u: u32 = lower[i] as u32;
        if 48 <= u && u <= 57 {
            break ;
        }
        i = i + 1;
    }
    let d0: usize = i;
    if d0 >= n {
        proof {
            assert(digit_run_end(lower@, d0 as int) == d0);
        }
        return None;
    }
    let mut acc: usize = 0;
    let mut overflow = false;
    let mut j: usize = d0;
    while j < n
        invariant
            d0 <= j <= n,
            d0 < n,
            n == lower@.len(),
            is_digit(lower@[d0 as int]),
            d0 == first_digit(lower@, from as int),
            forall|t: int| d0 <= t < j ==> is_digit(lower@[t]),
            digit_run_end(lower@, d0 as int) == digit_run_end(lower@, j as int),
            !overflow ==> acc == digits_value(lower@.subrange(d0 as int, j as int)),
            overflow ==> digits_value(lower@.subrange(d0 as int, j as int)) > usize::MAX,
        ensures
            d0 <= j <= n,
            d0 < j,
            n == lower@.len(),
            digit_run_end(lower@, d0 as int) == j,
            forall|t: int| d0 <= t < j ==> is_digit(lower@[t]),
            !overflow ==> acc == digits_value(lower@.subrange(d0 as int, j as int)),
            overflow ==> digits_value(lower@.subrange(d0 as int, j as int)) > usize::MAX,
        decreases n - j,
    {
        let u: u32 = lower[j] as u32;
        if !(48 <= u && u <= 57) {
            break ;
        }
        let ghost pre = lower@.subrange(d0 as int, j as int);
        let d: usize = (u - 48) as usize;
        if !overflow {
            if acc > (usize::MAX - d) / 10 {
                overflow = true;
            } else {
                acc = acc * 10 + d;
            }
        }
        j = j + 1;
        proof {
            let cur = lower@.subrange(d0 as int, j as int);
            assert(cur.drop_last() =~= pre);
            assert(cur.last() == lower@[j - 1]);
            if digits_value(pre) > usize::MAX {
                assert(digits_value(cur) >= digits_value(pre) * 10);
            }
        }
    }
    if overflow {
        None
    } else {
        Some(acc)
    }
}

fn key_record_number(lower: &[char], key: &str) -> (r: Option<usize>)
    ensures
        match r {
            Some(v) => key_number(lower@, key@) == Some(v as nat),
            None => key_number(lower@, key@) is None,
        },
{
    let _lower_len: usize = lower.len();
    let kv = chars_of(key);
    match find_pattern(lower, kv.as_slice()) {
        Some(p) => digits_after(lower, p + kv.len()),
        None => None,
    }
}

/// Finds the record or block number a log line mentions: the first digit
/// run after `record`, `block` or `skipped`, case-insensitively, tried
/// in that order.
pub fn find_record_index(line: &str) -> (r: Option<usize>)
    ensures
        match r {
            Some(v) => spec_record_index(line@) == Some(v as nat),
            None => spec_record_index(line@) is None,
        },
{
    let lv = chars_of(line);
    let lower = lower_chars(lv.as_slice());
    if let Some(v) = key_record_number(lower.as_slice(), "record") {
        return Some(v);
    }
    if let Some(v) = key_record_number(lower.as_slice(), "block") {
        return Some(v);
    }
    key_record_number(lower.as_slice(), "skipped")
}

/// One log line applied to the record list: a warning or error line that
/// mentions record number `n` sets the log level of record `n - 1`,
/// never downgrading an error already recorded; info lines and lines
/// without a usable number change nothing.
pub open spec fn apply_log_line(es: Seq<TapEntryV>, le: LogEntryV) -> Seq<TapEntryV> {
    if le.level is Info {
        es
    } else {
        match spec_record_index(le.line) {
            Some(n) => if n == 0 || n - 1 >= es.len() {
                es
            } else {
                let i = n - 1;
                if es[i as int].log_level == Some(LogLevel::Error) {
                    es
                } else {
                    es.update(i as int, TapEntryV { log_level: Some(le.level), ..es[i as int] })
                }
            },
            None => es,
        }
    }
}

/// The record list after every log line is applied in order.
pub open spec fn correlate_fold(es: Seq<TapEntryV>, logs: Seq<LogEntryV>) -> Seq<TapEntryV>
    decreases logs.len(),
{
    if logs.len() == 0 {
        es
    } else {
        apply_log_line(correlate_fold(es, logs.drop_last()), logs.last())
    }
}

/// Correlates log lines to records by the record numbers they mention,
/// annotating each mentioned record with the line's severity; an error
/// already recorded is never downgraded.
pub fn correlate_log(entries: &mut Vec<TapEntry>, log: &LogData)
    ensures
        final(entries)@.map_values(|e: TapEntry| e@) == correlate_fold(
            old(entries)@.map_values(|e: TapEntry| e@),
            log@.entries,
        ),
{
    let n: usize = log.entries.len();
    let ghost evs0 = old(entries)@.map_values(|e: TapEntry| e@);
    let ghost logs = log@.entries;
    proof {
        assert(logs.take(0) =~= Seq::<LogEntryV>::empty());
    }
    let mut k: usize = 0;
    while k < n
        invariant
            k <= n,
            n == log.entries@.len(),
            logs == log@.entries,
            entries@.map_values(|e: TapEntry| e@) == correlate_fold(evs0, logs.take(k as int)),
        decreases n - k,
    {
        let ghost mid = entries@.map_values(|e: TapEntry| e@);
        let log_entry = &log.entries[k];
        proof {
            assert(logs.take(k + 1).drop_last() =~= logs.take(k as int));
            assert(logs.take(k + 1).last() == log.entries@[k as int]@);
        }
        let is_info = matches!(log_entry.level, LogLevel::Info);
        if !is_info {
            match find_record_index(log_entry.line.as_str()) {
                Some(num) => {
                    if num > 0 {
                        let i: usize = num - 1;
                        if i < entries.len() {
                            let keep = matches!(entries[i].log_level, Some(LogLevel::Error));
                            if !keep {
                                entries[i].log_level = Some(log_entry.level);
                                proof {
                                    assert(entries@.map_values(|e: TapEntry| e@) =~= mid.update(
                                        i as int,
                                        TapEntryV { log_level: Some(log_entry.level), ..mid[i as int] },
                                    ));
                                }
                            }
                        }
                    }
                },
                None => {},
            }
        }
        k = k + 1;
        proof {
            assert(entries@.map_values(|e: TapEntry| e@) =~= correlate_fold(
                evs0,
                logs.take(k as int),
            ));
        }
    }
    proof {
        assert(logs.take(n as int) =~= logs);
    }
}

/// The warning and error counts of a log, with its drive metadata hints
/// sanitised for display.
pub open spec fn spec_count_level(entries: Seq<LogEntryV>, lvl: LogLevel) -> nat
    decreases entries.len(),
{
    if entries.len() == 0 {
        0
    } else {
        spec_count_level(entries.drop_last(), lvl) + (if entries.last().level == lvl {
            1nat
        } else {
            0nat
        })
    }
}

/// The sanitised text of an optional hint.
pub open spec fn spec_opt_sanitized(o: Option<Seq<char>>) -> Option<Seq<char>> {
    match o {
        Some(s) => Some(crate::utils::text::spec_sanitize_display(s)),
        None => None,
    }
}

/// Counts warnings and errors and returns the sanitised drive metadata
/// hints of a log.
#[verifier::loop_isolation(false)]
pub fn log_stats(log: &LogData) -> (r: (usize, usize, Option<String>, Option<String>, Option<
    String,
>))
    ensures
        r.0 == spec_count_level(log@.entries, LogLevel::Warning),
        r.1 == spec_count_level(log@.entries, LogLevel::Error),
        opt_view(r.2) == spec_opt_sanitized(log@.metadata.tracks),
        opt_view(r.3) == spec_opt_sanitized(log@.metadata.density),
        opt_view(r.4) == spec_opt_sanitized(log@.metadata.blocks_read),
{
    let mut warnings: usize = 0;
    let mut errors: usize = 0;
    let n: usize = log.entries.len();
    let mut i: usize = 0;
    while i < n
        invariant
            i <= n,
            warnings == spec_count_level(log@.entries.take(i as int), LogLevel::Warning),
            errors == spec_count_level(log@.entries.take(i as int), LogLevel::Error),
            warnings <= i && errors <= i,
        decreases n - i,
    {
        match log.entries[i].level {
            LogLevel::Warning => {
                warnings = warnings + 1;
            },
            LogLevel::Error => {
                errors = errors + 1;
            },
            LogLevel::Info => {},
        }
        i = i + 1;
        proof {
            assert(log@.entries.take(i as int).drop_last() =~= log@.entries.take(i - 1));
            assert(log@.entries.take(i as int).last() == log.entries@[i - 1]@);
        }
    }
    proof {
        assert(log@.entries.take(n as int) =~= log@.entries);
    }

    let tracks: Option<String> = match &log.metadata.tracks {
        Some(s) => Some(crate::utils::text::sanitize_display(s.as_str())),
        None => None,
    };
    let density: Option<String> = match &log.metadata.density {
        Some(s) => Some(crate::utils::text::sanitize_display(s.as_str())),
        None => None,
    };
    let blocks_read: Option<String> = match &log.metadata.blocks_read {
        Some(s) => Some(crate::utils::text::sanitize_display(s.as_str())),
        None => None,
    };
    (warnings, errors, tracks, density, blocks_read)
}

} // verus!
