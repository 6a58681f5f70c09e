//! Hex-dump rendering: rows of sixteen bytes with an address column,
//! grouped hex cells and an ASCII column, specified to the character.
use vstd::prelude::*;

use crate::utils::fmt::{hex_digits_min, push_char, push_hex_min};

verus! {

/// The hex cells of the first `k` bytes of a chunk: two digits and a
/// space each, with an extra space after the eighth byte.
pub open spec fn hex_cells(c: Seq<u8>, k: int) -> Seq<char>
    decreases k,
{
    if k <= 0 {
        Seq::empty()
    } else {
        hex_cells(c, k - 1) + hex_digits_min(c[k - 1] as nat, 2) + seq![' '] + (if k - 1 == 7 {
            seq![' ']
        } else {
            Seq::empty()
        })
    }
}

/// The padding for `k` missing cells of a chunk of length `l`: three
/// spaces each, with the group gap when the eighth column is reached.
pub open spec fn pad_cells(l: int, k: int) -> Seq<char>
    decreases k,
{
    if k <= 0 {
        Seq::empty()
    } else {
        pad_cells(l, k - 1) + (if l + (k - 1) == 8 {
            seq![' ']
        } else {
            Seq::empty()
        }) + seq![' ', ' ', ' ']
    }
}

/// The ASCII column for the first `k` bytes of a chunk: printable bytes
/// as themselves, anything else as a dot.
pub open spec fn ascii_cells(c: Seq<u8>, k: int) -> Seq<char>
    decreases k,
{
    if k <= 0 {
        Seq::empty()
    } else {
        ascii_cells(c, k - 1) + seq![
            if 32 <= c[k - 1] <= 126 {
                c[k - 1] as char
            } else {
                '.'
            },
        ]
    }
}

/// `k` spaces.
pub open spec fn spaces(k: int) -> Seq<char>
    decreases k,
{
    if k <= 0 {
        Seq::empty()
    } else {
        spaces(k - 1) + seq![' ']
    }
}

/// One dump row for a chunk starting at byte offset `off`: a four-digit
/// hex address, a colon and two spaces, the hex cells padded to sixteen
/// columns, a space and a bar, the ASCII column padded likewise, and a
/// closing bar.
pub open spec fn hex_row(c: Seq<u8>, off: int) -> Seq<char> {
    hex_digits_min(off as nat, 4) + seq![':', ' ', ' '] + hex_cells(c, c.len() as int)
        + pad_cells(c.len() as int, 16 - c.len()) + seq![' ', '|'] + ascii_cells(
        c,
        c.len() as int,
    ) + spaces(16 - c.len()) + seq!['|']
}

/// The bytes of the row with the given index.
pub open spec fn chunk_of(d: Seq<u8>, r: int) -> Seq<u8> {
    d.subrange(16 * r, if 16 * r + 16 <= d.len() {
        16 * r + 16
    } else {
        d.len() as int
    })
}

/// The first `r` rows of the dump, joined by line feeds.
pub open spec fn hex_rows(d: Seq<u8>, r: int) -> Seq<char>
    decreases r,
{
    if r <= 0 {
        Seq::empty()
    } else if r == 1 {
        hex_row(chunk_of(d, 0), 0)
    } else {
        hex_rows(d, r - 1) + seq!['\n'] + hex_row(chunk_of(d, r - 1), 16 * (r - 1))
    }
}

/// The whole dump of a byte sequence: one row per started sixteen bytes.
pub open spec fn spec_format_hex(d: Seq<u8>) -> Seq<char> {
    hex_rows(d, (d.len() as int + 15) / 16)
}

#[verifier::rlimit(100)]
fn push_hex_row(out: &mut String, data: &[u8], row: usize)
    requires
        16 * row < data@.len(),
    ensures
        final(out)@ == old(out)@ + hex_row(chunk_of(data@, row as int), 16 * row as int),
{
    let n: usize = data.len();
    let start: usize = 16 * row;
    let end: usize = if n - start > 16 {
        start + 16
    } else {
        n
    };
    let ghost c = chunk_of(data@, row as int);
    let len: usize = end - start;
    proof {
        assert(c =~= data@.subrange(start as int, end as int));
    }

    push_hex_min(out, start as u64, 4);
    push_char(out, ':');
    push_char(out, ' ');
    push_char(out, ' ');

    let ghost head = old(out)@ + hex_digits_min((16 * row) as nat, 4) + seq![':', ' ', ' '];
    let mut idx: usize = 0;
    while idx < len
        invariant
            idx <= len,
            n == data@.len(),
            start + len <= n,
            c.len() == len,
            c == data@.subrange(start as int, start + len),
            out@ == head + hex_cells(c, idx as int),
        decreases len - idx,
    {
        push_hex_min(out, data[start + idx] as u64, 2);
        push_char(out, ' ');
        if idx == 7 {
            push_char(out, ' ');
        }
        idx = idx + 1;
        proof {
            assert(c[idx - 1] == data@[start + idx - 1]);
            assert(out@ =~= head + hex_cells(c, idx as int));
        }
    }

    let ghost cells_done = head + hex_cells(c, len as int);
    let missing: usize = 16 - len;
    let mut pad_idx: usize = 0;
    while pad_idx < missing
        invariant
            pad_idx <= missing,
            missing <= 16,
            len <= 16,
            out@ == cells_done + pad_cells(len as int, pad_idx as int),
        decreases missing - pad_idx,
    {
        if len + pad_idx == 8 {
            push_char(out, ' ');
        }
        push_char(out, ' ');
        push_char(out, ' ');
        push_char(out, ' ');
        pad_idx = pad_idx + 1;
        proof {
            assert(out@ =~= cells_done + pad_cells(len as int, pad_idx as int));
        }
    }

    push_char(out, ' ');
    push_char(out, '|');

    let ghost bar_done = cells_done + pad_cells(len as int, missing as int) + seq![' ', '|'];
    let mut a: usize = 0;
    while a < len
        invariant
            a <= len,
            n == data@.len(),
            start + len <= n,
            c.len() == len,
            c == data@.subrange(start as int, start + len),
            out@ == bar_done + ascii_cells(c, a as int),
        decreases len - a,
    {
        let b: u8 = data[start + a];
        if 32 <= b && b <= 126 {
            push_char(out, b as char);
        } else {
            push_char(out, '.');
        }
        a = a + 1;
        proof {
            assert(c[a - 1] == data@[start + a - 1]);
            assert(out@ =~= bar_done + ascii_cells(c, a as int));
        }
    }

    let ghost ascii_done = bar_done + ascii_cells(c, len as int);
    let mut sp: usize = 0;
    while sp < missing
        invariant
            sp <= missing,
            out@ == ascii_done + spaces(sp as int),
        decreases missing - sp,
    {
        push_char(out, ' ');
        sp = sp + 1;
        proof {
            assert(out@ =~= ascii_done + spaces(sp as int));
        }
    }

    push_char(out, '|');
    proof {
        assert(final(out)@ =~= old(out)@ + hex_row(c, 16 * row as int));
    }
}

/// Formats bytes with address, grouped hex, and ASCII columns, one row
/// per started sixteen bytes.
#[verifier::loop_isolation(false)]
pub fn format_hex_with_ascii(data: &[u8]) -> (r: String)
    ensures
        r@ == spec_format_hex(data@),
{
    let n: usize = data.len();
    let nrows: usize = n / 16 + (if n % 16 != 0 {
        1
    } else {
        0
    });
    proof {
        assert(nrows == (n as int + 15) / 16);
    }
    let mut out = String::new();
    let mut row: usize = 0;
    while row < nrows
        invariant
            row <= nrows,
            nrows == (n + 15) / 16,
            out@ == hex_rows(data@, row as int),
        decreases nrows - row,
    {
        if row > 0 {
            push_char(&mut out, '\n');
        }
        push_hex_row(&mut out, data, row);
        row = row + 1;
        proof {
            assert(out@ =~= hex_rows(data@, row as int));
        }
    }
    out
}

/// Formats bytes as a hex dump; an alias kept for compatibility.
pub fn format_hex(data: &[u8]) -> (r: String)
    ensures
        r@ == spec_format_hex(data@),
{
    format_hex_with_ascii(data)
}

} // verus!
