//! Text sanitising for display and a printable-ASCII heuristic.
use vstd::prelude::*;

verus! {

/// A character that may be shown as-is: printable ASCII, space included.
pub open spec fn printable_char(c: char) -> bool {
    32 <= c as int <= 126
}

/// What one character of the input contributes to the sanitised text.
pub open spec fn sanitized_char(c: char) -> Seq<char> {
    if printable_char(c) {
        seq![c]
    } else {
        seq!['.', '.']
    }
}

/// The sanitised form of a whole character sequence.
pub open spec fn spec_sanitize_display(s: Seq<char>) -> Seq<char>
    decreases s.len(),
{
    if s.len() == 0 {
        Seq::empty()
    } else {
        spec_sanitize_display(s.drop_last()) + sanitized_char(s.last())
    }
}

/// Sanitises text for display: printable ASCII characters and spaces are
/// kept; anything else (control or non-ASCII) becomes two dots.
#[verifier::loop_isolation(false)]
pub fn sanitize_display(text: &str) -> (r: String)
    ensures
        r@ == spec_sanitize_display(text@),
{
    let n: usize = text.unicode_len();
    let mut out = String::new();
    let mut i: usize = 0;
    while i < n
        invariant
            i <= n,
            out@ == spec_sanitize_display(text@.take(i as int)),
        decreases n - i,
    {
        let c: char = text.get_char(i);
        let u: u32 = c as u32;
        if 32 <= u && u <= 126 {
            crate::utils::fmt::push_char(&mut out, c);
        } else {
            crate::utils::fmt::push_char(&mut out, '.');
            crate::utils::fmt::push_char(&mut out, '.');
        }
        i = i + 1;
        assert(text@.take(i as int).drop_last() =~= text@.take(i - 1));
        assert(out@ =~= spec_sanitize_display(text@.take(i as int)));
    }
    assert(text@.take(n as int) =~= text@);
    out
}

/// A byte that may appear in text: tab, carriage return, line feed, or
/// printable ASCII.
pub open spec fn text_byte(b: u8) -> bool {
    b == 9 || b == 10 || b == 13 || (32 <= b <= 126)
}

/// True when the data is non-empty and every byte is a text byte.
#[verifier::loop_isolation(false)]
pub fn is_mostly_text(data: &[u8]) -> (r: bool)
    ensures
        r == (data@.len() > 0 && forall|i: int| 0 <= i < data@.len() ==> text_byte(data@[i])),
{
    let n: usize = data.len();
    let mut i: usize = 0;
    while i < n
        invariant
            i <= n,
            forall|j: int| 0 <= j < i ==> text_byte(data@[j]),
        decreases n - i,
    {
        let b: u8 = data[i];
        if !(b == 9 || b == 10 || b == 13 || (32 <= b && b <= 126)) {
            return false;
        }
        i = i + 1;
    }
    n > 0
}

} // verus!
