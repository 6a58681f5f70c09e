//! Verified number-to-text formatting: decimal, octal and hexadecimal
//! digits appended to a `String`, with exact character-sequence contracts.
use vstd::prelude::*;

verus! {

/// Relies on `String::push`: appends exactly the given character.
#[verifier::external_body]
pub fn push_char(s: &mut String, c: char)
    ensures
        final(s)@ == old(s)@.push(c),
{
    s.push(c)
}

/// The character for one digit value below ten.
pub open spec fn digit_char(d: int) -> char {
    ((48 + d) as u8) as char
}

/// The character for one hexadecimal digit value, upper case.
pub open spec fn hex_digit_char(d: int) -> char {
    if d < 10 {
        digit_char(d)
    } else {
        ((55 + d) as u8) as char
    }
}

/// The decimal digits of `n`, most significant first, no leading zeros
/// (a lone zero for `n == 0`).
pub open spec fn dec_digits(n: nat) -> Seq<char>
    decreases n,
{
    if n < 10 {
        seq![digit_char(n as int)]
    } else {
        dec_digits(n / 10).push(digit_char((n % 10) as int))
    }
}

/// The octal digits of `n`, most significant first, no leading zeros.
pub open spec fn oct_digits(n: nat) -> Seq<char>
    decreases n,
{
    if n < 8 {
        seq![digit_char(n as int)]
    } else {
        oct_digits(n / 8).push(digit_char((n % 8) as int))
    }
}

/// The octal digits of `n`, zero-padded on the left to at least `width`
/// digits.
pub open spec fn oct_digits_min(n: nat, width: nat) -> Seq<char>
    decreases n + width,
{
    if n < 8 && width <= 1 {
        seq![digit_char(n as int)]
    } else {
        oct_digits_min(n / 8, if width == 0 { 0 } else { (width - 1) as nat }).push(
            digit_char((n % 8) as int),
        )
    }
}

/// Appends the octal digits of `n`, left-padded with zeros to at least
/// `width` digits.
pub fn push_octal_min(s: &mut String, n: u64, width: usize)
    ensures
        final(s)@ == old(s)@ + oct_digits_min(n as nat, width as nat),
    decreases n + width,
{
    if n >= 8 || width > 1 {
        push_octal_min(s, n / 8, if width == 0 { 0 } else { width - 1 });
    }
    let d: u8 = (n % 8) as u8;
    push_char(s, (48 + d) as char);
    assert(final(s)@ =~= old(s)@ + oct_digits_min(n as nat, width as nat));
}

/// The hexadecimal digits of `n`, zero-padded on the left to at least
/// `width` digits.
pub open spec fn hex_digits_min(n: nat, width: nat) -> Seq<char>
    decreases n + width,
{
    if n < 16 && width <= 1 {
        seq![hex_digit_char(n as int)]
    } else {
        hex_digits_min(n / 16, if width == 0 { 0 } else { (width - 1) as nat }).push(
            hex_digit_char((n % 16) as int),
        )
    }
}

/// Appends the decimal digits of `n`.
pub fn push_decimal(s: &mut String, n: u64)
    ensures
        final(s)@ == old(s)@ + dec_digits(n as nat),
    decreases n,
{
    if n >= 10 {
        push_decimal(s, n / 10);
    }
    let d: u8 = (n % 10) as u8;
    push_char(s, (48 + d) as char);
    assert(final(s)@ =~= old(s)@ + dec_digits(n as nat));
}

/// The decimal digits of `n`, zero-padded on the left to at least
/// `width` digits.
pub open spec fn dec_digits_min(n: nat, width: nat) -> Seq<char>
    decreases n + width,
{
    if n < 10 && width <= 1 {
        seq![digit_char(n as int)]
    } else {
        dec_digits_min(n / 10, if width == 0 { 0 } else { (width - 1) as nat }).push(
            digit_char((n % 10) as int),
        )
    }
}

/// Appends the decimal digits of `n`, left-padded with zeros to at
/// least `width` digits.
pub fn push_decimal_min(s: &mut String, n: u64, width: usize)
    ensures
        final(s)@ == old(s)@ + dec_digits_min(n as nat, width as nat),
    decreases n + width,
{
    if n >= 10 || width > 1 {
        push_decimal_min(s, n / 10, if width == 0 { 0 } else { width - 1 });
    }
    let d: u8 = (n % 10) as u8;
    push_char(s, (48 + d) as char);
    assert(final(s)@ =~= old(s)@ + dec_digits_min(n as nat, width as nat));
}

/// Appends the octal digits of `n`.
pub fn push_octal(s: &mut String, n: u64)
    ensures
        final(s)@ == old(s)@ + oct_digits(n as nat),
    decreases n,
{
    if n >= 8 {
        push_octal(s, n / 8);
    }
    let d: u8 = (n % 8) as u8;
    push_char(s, (48 + d) as char);
    assert(final(s)@ =~= old(s)@ + oct_digits(n as nat));
}

/// Appends the hexadecimal digits of `n`, upper case, left-padded with
/// zeros to at least `width` digits.
pub fn push_hex_min(s: &mut String, n: u64, width: usize)
    ensures
        final(s)@ == old(s)@ + hex_digits_min(n as nat, width as nat),
    decreases n + width,
{
    if n >= 16 || width > 1 {
        push_hex_min(s, n / 16, if width == 0 { 0 } else { width - 1 });
    }
    let d: u8 = (n % 16) as u8;
    let c: char = if d < 10 {
        (48 + d) as char
    } else {
        (55 + d) as char
    };
    push_char(s, c);
    assert(final(s)@ =~= old(s)@ + hex_digits_min(n as nat, width as nat));
}

} // verus!
