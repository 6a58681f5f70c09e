//! Character-level text helpers: conversion between `str` and character
//! vectors, case folding, substring search, and trimming, each with an
//! exact specification.
use vstd::prelude::*;

use crate::utils::fmt::push_char;

verus! {

/// The characters of a string, as an indexable vector.
#[verifier::loop_isolation(false)]
pub fn chars_of(s: &str) -> (r: Vec<char>)
    ensures
        r@ == s@,
{
    let n: usize = s.unicode_len();
    let mut out: Vec<char> = Vec::new();
    let mut i: usize = 0;
    while i < n
        invariant
            i <= n,
            out@ == s@.take(i as int),
        decreases n - i,
    {
        out.push(s.get_char(i));
        i = i + 1;
        assert(out@ =~= s@.take(i as int));
    }
    assert(s@.take(n as int) =~= s@);
    out
}

/// Builds a string from a character vector.
#[verifier::loop_isolation(false)]
pub fn string_of_chars(v: &[char]) -> (r: String)
    ensures
        r@ == v@,
{
    let n: usize = v.len();
    let mut out = String::new();
    let mut i: usize = 0;
    while i < n
        invariant
            i <= n,
            out@ == v@.take(i as int),
        decreases n - i,
    {
        push_char(&mut out, v[i]);
        i = i + 1;
        assert(out@ =~= v@.take(i as int));
    }
    assert(v@.take(n as int) =~= v@);
    out
}

/// Whether two strings hold the same characters.
#[verifier::loop_isolation(false)]
pub fn str_eq(a: &str, b: &str) -> (r: bool)
    ensures
        r == (a@ == b@),
{
    let na: usize = a.unicode_len();
    let nb: usize = b.unicode_len();
    if na != nb {
        return false;
    }
    let mut i: usize = 0;
    while i < na
        invariant
            i <= na,
            forall|j: int| 0 <= j < i ==> a@[j] == b@[j],
        decreases na - i,
    {
        if a.get_char(i) != b.get_char(i) {
            return false;
        }
        i = i + 1;
    }
    proof {
        assert(a@ =~= b@);
    }
    true
}

/// ASCII upper-case folding of one character.
pub open spec fn upper_char(c: char) -> char {
    if 97 <= c as int <= 122 {
        ((c as int - 32) as u8) as char
    } else {
        c
    }
}

/// ASCII lower-case folding of one character.
pub open spec fn lower_char(c: char) -> char {
    if 65 <= c as int <= 90 {
        ((c as int + 32) as u8) as char
    } else {
        c
    }
}

/// ASCII upper-case folding of a character vector.
#[verifier::loop_isolation(false)]
pub fn upper_chars(v: &[char]) -> (r: Vec<char>)
    ensures
        r@ == v@.map_values(|c: char| upper_char(c)),
{
    let n: usize = v.len();
    let mut out: Vec<char> = Vec::new();
    let mut i: usize = 0;
    while i < n
        invariant
            i <= n,
            out@ == v@.take(i as int).map_values(|c: char| upper_char(c)),
        decreases n - i,
    {
        let c: char = v[i];
        let u: u32 = c as u32;
        if 97 <= u && u <= 122 {
            out.push(((u - 32) as u8) as char);
        } else {
            out.push(c);
        }
        i = i + 1;
        assert(out@ =~= v@.take(i as int).map_values(|c: char| upper_char(c)));
    }
    assert(v@.take(n as int) =~= v@);
    out
}

/// ASCII lower-case folding of a character vector.
#[verifier::loop_isolation(false)]
pub fn lower_chars(v: &[char]) -> (r: Vec<char>)
    ensures
        r@ == v@.map_values(|c: char| lower_char(c)),
{
    let n: usize = v.len();
    let mut out: Vec<char> = Vec::new();
    let mut i: usize = 0;
    while i < n
        invariant
            i <= n,
            out@ == v@.take(i as int).map_values(|c: char| lower_char(c)),
        decreases n - i,
    {
        let c: char = v[i];
        let u: u32 = c as u32;
        if 65 <= u && u <= 90 {
            out.push(((u + 32) as u8) as char);
        } else {
            out.push(c);
        }
        i = i + 1;
        assert(out@ =~= v@.take(i as int).map_values(|c: char| lower_char(c)));
    }
    assert(v@.take(n as int) =~= v@);
    out
}

/// Whether pattern `p` occurs in `s` starting at index `i`.
pub open spec fn match_at(s: Seq<char>, p: Seq<char>, i: int) -> bool {
    &&& 0 <= i
    &&& i + p.len() <= s.len()
    &&& s.subrange(i, i + p.len()) == p
}

/// The first index at or after `i` where `p` occurs in `s`, or -1.
pub open spec fn find_from(s: Seq<char>, p: Seq<char>, i: int) -> int
    decreases s.len() - i + 1,
{
    if i < 0 || i + p.len() > s.len() {
        -1
    } else if match_at(s, p, i) {
        i
    } else {
        find_from(s, p, i + 1)
    }
}

/// The first index where `p` occurs in `s`, or -1 when it never does.
pub open spec fn find_pat(s: Seq<char>, p: Seq<char>) -> int {
    find_from(s, p, 0)
}

#[verifier::loop_isolation(false)]
fn pattern_here(hay: &[char], pat: &[char], i: usize) -> (r: bool)
    requires
        i + pat@.len() <= hay@.len(),
    ensures
        r == match_at(hay@, pat@, i as int),
{
    let n: usize = hay.len();
    let m: usize = pat.len();
    let mut j: usize = 0;
    while j < m
        invariant
            j <= m,
            i + m <= hay@.len(),
            forall|k: int| 0 <= k < j ==> hay@[i + k] == pat@[k],
        decreases m - j,
    {
        if hay[i + j] != pat[j] {
            assert(hay@.subrange(i as int, i + m) != pat@) by {
                assert(hay@.subrange(i as int, i + m)[j as int] != pat@[j as int]);
            }
            return false;
        }
        j = j + 1;
    }
    proof {
        assert(hay@.subrange(i as int, i + m as int) =~= pat@);
    }
    true
}

/// Whether `hay` starts with `pat`.
pub fn prefix_here(hay: &[char], pat: &[char]) -> (r: bool)
    requires
        pat@.len() <= hay@.len(),
    ensures
        r == match_at(hay@, pat@, 0),
{
    pattern_here(hay, pat, 0)
}

/// Finds the first occurrence of `pat` in `hay`.
#[verifier::loop_isolation(false)]
pub fn find_pattern(hay: &[char], pat: &[char]) -> (r: Option<usize>)
    ensures
        match r {
            Some(i) => find_pat(hay@, pat@) == i && i + pat@.len() <= hay@.len(),
            None => find_pat(hay@, pat@) == -1,
        },
{
    let n: usize = hay.len();
    let m: usize = pat.len();
    if m > n {
        return None;
    }
    if m == 0 {
        proof {
            assert(hay@.subrange(0, 0) =~= pat@);
        }
        return Some(0);
    }
    let mut i: usize = 0;
    while i <= n - m
        invariant
            m <= n,
            i <= n - m + 1,
            find_from(hay@, pat@, 0) == find_from(hay@, pat@, i as int),
        decreases n - i,
    {
        if pattern_here(hay, pat, i) {
            return Some(i);
        }
        i = i + 1;
    }
    None
}

/// ASCII whitespace.
pub open spec fn ascii_ws(c: char) -> bool {
    c as u32 == 32 || 9 <= c as u32 <= 13
}

/// The index of the first non-whitespace character at or after `i`
/// (`s.len()` when all whitespace).
pub open spec fn ltrim_idx(s: Seq<char>, i: int) -> int
    decreases s.len() - i,
{
    if i < 0 || i >= s.len() {
        s.len() as int
    } else if !ascii_ws(s[i]) {
        i
    } else {
        ltrim_idx(s, i + 1)
    }
}

/// One past the index of the last non-whitespace character at or before
/// `i` (0 when all whitespace).
pub open spec fn rtrim_idx(s: Seq<char>, i: int) -> int
    decreases i,
{
    if i <= 0 || i > s.len() {
        0
    } else if !ascii_ws(s[i - 1]) {
        i
    } else {
        rtrim_idx(s, i - 1)
    }
}

/// `s` with ASCII whitespace removed from both ends.
pub open spec fn trim_chars(s: Seq<char>) -> Seq<char> {
    let lo = ltrim_idx(s, 0);
    let hi = rtrim_idx(s, s.len() as int);
    if lo <= hi {
        s.subrange(lo, hi)
    } else {
        Seq::empty()
    }
}

/// The index of the first character at or after `i` that is not `c`
/// (the length when all are `c`).
pub open spec fn ltrim_any(s: Seq<char>, c: char, i: int) -> int
    decreases s.len() - i,
{
    if i < 0 || i >= s.len() {
        s.len() as int
    } else if s[i] != c {
        i
    } else {
        ltrim_any(s, c, i + 1)
    }
}

/// One past the index of the last character at or before `i` that is not
/// `c` (0 when all are `c`).
pub open spec fn rtrim_any(s: Seq<char>, c: char, i: int) -> int
    decreases i,
{
    if i <= 0 || i > s.len() {
        0
    } else if s[i - 1] != c {
        i
    } else {
        rtrim_any(s, c, i - 1)
    }
}

/// Trims every leading and trailing `c` from a character vector.
pub fn trim_any(v: &[char], c: char) -> (r: Vec<char>)
    ensures
        ({
            let lo = ltrim_any(v@, c, 0);
            let hi = rtrim_any(v@, c, v@.len() as int);
            r@ == if lo <= hi {
                v@.subrange(lo, hi)
            } else {
                Seq::<char>::empty()
            }
        }),
{
    let n: usize = v.len();
    let mut lo: usize = 0;
    while lo < n
        invariant
            0 <= lo <= n,
            n == v@.len(),
            ltrim_any(v@, c, 0) == ltrim_any(v@, c, lo as int),
        ensures
            0 <= lo <= n,
            n == v@.len(),
            ltrim_any(v@, c, 0) == ltrim_any(v@, c, lo as int),
            lo == n || v@[lo as int] != c,
        decreases n - lo,
    {
        if v[lo] != c {
            break ;
        }
        lo = lo + 1;
    }
    let mut hi: usize = n;
    while hi > 0
        invariant
            0 <= hi <= n,
            n == v@.len(),
            rtrim_any(v@, c, n as int) == rtrim_any(v@, c, hi as int),
        ensures
            0 <= hi <= n,
            n == v@.len(),
            rtrim_any(v@, c, n as int) == rtrim_any(v@, c, hi as int),
            hi == 0 || v@[hi - 1] != c,
        decreases hi,
    {
        if v[hi - 1] != c {
            break ;
        }
        hi = hi - 1;
    }
    if lo <= hi {
        copy_char_range(v, lo, hi)
    } else {
        Vec::new()
    }
}

/// The index of the first `sep` at or after `pos`, or the length of the
/// text when there is none.
pub open spec fn sep_end(s: Seq<char>, sep: char, pos: int) -> int
    decreases s.len() - pos,
{
    if pos < 0 || pos >= s.len() {
        s.len() as int
    } else if s[pos] == sep {
        pos
    } else {
        sep_end(s, sep, pos + 1)
    }
}

/// The segments of `s` from `pos` on, split on `sep`; a trailing
/// separator yields a final empty segment, and an empty text is one
/// empty segment.
pub open spec fn split_by(s: Seq<char>, sep: char, pos: int) -> Seq<Seq<char>>
    decreases s.len() - pos + 1,
{
    if pos < 0 || pos > s.len() {
        Seq::empty()
    } else {
        let e0 = sep_end(s, sep, pos);
        let e = if e0 < pos {
            pos
        } else if e0 > s.len() {
            s.len() as int
        } else {
            e0
        };
        if e >= s.len() {
            seq![s.subrange(pos, s.len() as int)]
        } else {
            seq![s.subrange(pos, e)] + split_by(s, sep, e + 1)
        }
    }
}

fn find_sep(v: &[char], sep: char, from: usize) -> (r: usize)
    requires
        from <= v@.len(),
    ensures
        r == sep_end(v@, sep, from as int),
        from <= r <= v@.len(),
        r < v@.len() ==> v@[r as int] == sep,
{
    let n: usize = v.len();
    let mut i: usize = from;
    while i < n
        invariant
            from <= i <= n,
            n == v@.len(),
            sep_end(v@, sep, from as int) == sep_end(v@, sep, i as int),
        decreases n - i,
    {
        if v[i] == sep {
            return i;
        }
        i = i + 1;
    }
    n
}

/// Splits a character vector on a separator into strings.
pub fn split_chars(v: &[char], sep: char) -> (r: Vec<String>)
    ensures
        r@.map_values(|s: String| s@) == split_by(v@, sep, 0),
{
    let n: usize = v.len();
    let mut out: Vec<String> = Vec::new();
    let mut pos: usize = 0;
    loop
        invariant_except_break
            split_by(v@, sep, 0) == out@.map_values(|s: String| s@) + split_by(
                v@,
                sep,
                pos as int,
            ),
        invariant
            pos <= n,
            n == v@.len(),
        ensures
            split_by(v@, sep, 0) == out@.map_values(|s: String| s@),
        decreases n - pos + 1,
    {
        let ghost prev = out@;
        let e = find_sep(v, sep, pos);
        let piece = copy_char_range(v, pos, e);
        out.push(string_of_chars(piece.as_slice()));
        proof {
            assert(out@.map_values(|s: String| s@) =~= prev.map_values(|s: String| s@).push(
                piece@,
            ));
        }
        if e >= n {
            proof {
                assert(piece@ =~= v@.subrange(pos as int, n as int));
                assert(split_by(v@, sep, pos as int) =~= seq![piece@]);
                assert(split_by(v@, sep, 0) =~= out@.map_values(|s: String| s@));
            }
            break ;
        }
        proof {
            assert(split_by(v@, sep, pos as int) =~= seq![piece@] + split_by(v@, sep, e + 1));
            assert(prev.map_values(|s: String| s@).push(piece@) + split_by(v@, sep, e + 1) =~= (
            prev.map_values(|s: String| s@) + split_by(v@, sep, pos as int)));
        }
        pos = e + 1;
    }
    out
}

/// Copies `v[from..to]` into a fresh character vector.
#[verifier::loop_isolation(false)]
pub fn copy_char_range(v: &[char], from: usize, to: usize) -> (r: Vec<char>)
    requires
        from <= to <= v@.len(),
    ensures
        r@ == v@.subrange(from as int, to as int),
{
    let mut out: Vec<char> = Vec::new();
    let mut i: usize = from;
    while i < to
        invariant
            from <= i <= to,
            out@ == v@.subrange(from as int, i as int),
        decreases to - i,
    {
        out.push(v[i]);
        i = i + 1;
        assert(out@ =~= v@.subrange(from as int, i as int));
    }
    out
}

/// Trims ASCII whitespace from both ends of a character vector.
pub fn trim_slice(v: &[char]) -> (r: Vec<char>)
    ensures
        r@ == trim_chars(v@),
{
    let n: usize = v.len();
    let mut lo: usize = 0;
    while lo < n
        invariant
            0 <= lo <= n,
            n == v@.len(),
            ltrim_idx(v@, 0) == ltrim_idx(v@, lo as int),
        ensures
            0 <= lo <= n,
            n == v@.len(),
            ltrim_idx(v@, 0) == ltrim_idx(v@, lo as int),
            lo == n || !ascii_ws(v@[lo as int]),
        decreases n - lo,
    {
        let c: char = v[lo];
        let u: u32 = c as u32;
        if !(u == 32 || (9 <= u && u <= 13)) {
            break;
        }
        proof {
            assert(ascii_ws(v@[lo as int]));
            assert(ltrim_idx(v@, lo as int) == ltrim_idx(v@, lo + 1));
        }
        lo = lo + 1;
    }
    let mut hi: usize = n;
    while hi > 0
        invariant
            0 <= hi <= n,
            n == v@.len(),
            rtrim_idx(v@, n as int) == rtrim_idx(v@, hi as int),
        ensures
            0 <= hi <= n,
            n == v@.len(),
            rtrim_idx(v@, n as int) == rtrim_idx(v@, hi as int),
            hi == 0 || !ascii_ws(v@[hi - 1]),
        decreases hi,
    {
        let c: char = v[hi - 1];
        let u: u32 = c as u32;
        if !(u == 32 || (9 <= u && u <= 13)) {
            break;
        }
        proof {
            assert(ascii_ws(v@[hi - 1]));
            assert(rtrim_idx(v@, hi as int) == rtrim_idx(v@, hi - 1));
        }
        hi = hi - 1;
    }
    if lo <= hi {
        copy_char_range(v, lo, hi)
    } else {
        Vec::new()
    }
}

} // verus!
