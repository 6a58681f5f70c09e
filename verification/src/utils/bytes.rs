//! Little-endian field readers over byte buffers, and byte-to-text
//! conversion, with exact specifications.
use vstd::prelude::*;

verus! {

/// The 16-bit little-endian value stored at offset `i` of `d`.
pub open spec fn le16_at(d: Seq<u8>, i: int) -> u16 {
    (d[i] + d[i + 1] * 0x100) as u16
}

/// The 32-bit little-endian value stored at offset `i` of `d`.
pub open spec fn le32_at(d: Seq<u8>, i: int) -> u32 {
    (d[i] + d[i + 1] * 0x100 + d[i + 2] * 0x10000 + d[i + 3] * 0x1000000) as u32
}

/// The 64-bit little-endian value stored at offset `i` of `d`.
pub open spec fn le64_at(d: Seq<u8>, i: int) -> u64 {
    (le32_at(d, i) + le32_at(d, i + 4) * 0x100000000) as u64
}

/// Reads the 16-bit little-endian field at offset `i`.
pub fn read_le16(d: &[u8], i: usize) -> (r: u16)
    requires
        i + 2 <= d@.len(),
    ensures
        r == le16_at(d@, i as int),
{
    (d[i] as u16) + (d[i + 1] as u16) * 0x100
}

/// Reads the 32-bit little-endian field at offset `i`.
pub fn read_le32(d: &[u8], i: usize) -> (r: u32)
    requires
        i + 4 <= d@.len(),
    ensures
        r == le32_at(d@, i as int),
{
    (d[i] as u32) + (d[i + 1] as u32) * 0x100 + (d[i + 2] as u32) * 0x10000 + (d[i + 3] as u32)
        * 0x1000000
}

/// Reads the 64-bit little-endian field at offset `i`.
pub fn read_le64(d: &[u8], i: usize) -> (r: u64)
    requires
        i + 8 <= d@.len(),
    ensures
        r == le64_at(d@, i as int),
{
    let n: usize = d.len();
    let lo: u32 = read_le32(d, i);
    let hi: u32 = read_le32(d, i + 4);
    (lo as u64) + (hi as u64) * 0x100000000
}

/// Each byte read as the character with the same code.
pub open spec fn bytes_to_chars(s: Seq<u8>) -> Seq<char> {
    s.map_values(|b: u8| b as char)
}

/// Decodes a byte span to text, one character per byte.
#[verifier::loop_isolation(false)]
pub fn string_from_bytes(v: &[u8]) -> (r: String)
    ensures
        r@ == bytes_to_chars(v@),
{
    let n: usize = v.len();
    let mut out = String::new();
    let mut i: usize = 0;
    while i < n
        invariant
            i <= n,
            out@ == bytes_to_chars(v@.take(i as int)),
        decreases n - i,
    {
        crate::utils::fmt::push_char(&mut out, v[i] as char);
        i = i + 1;
        assert(out@ =~= bytes_to_chars(v@.take(i as int)));
    }
    assert(v@.take(n as int) =~= v@);
    out
}

/// Copies the byte span `d[from..to]` into a fresh vector.
#[verifier::loop_isolation(false)]
pub fn copy_range(d: &[u8], from: usize, to: usize) -> (r: Vec<u8>)
    requires
        from <= to <= d@.len(),
    ensures
        r@ == d@.subrange(from as int, to as int),
{
    let mut out: Vec<u8> = Vec::new();
    let mut i: usize = from;
    while i < to
        invariant
            from <= i <= to,
            out@ == d@.subrange(from as int, i as int),
        decreases to - i,
    {
        out.push(d[i]);
        i = i + 1;
        assert(out@ =~= d@.subrange(from as int, i as int));
    }
    out
}

} // verus!
