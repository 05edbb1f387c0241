//! Building strings character by character, and rendering numbers as text.

use vstd::prelude::*;

verus! {

/// `String::push`: appends one character.
#[verifier::external_body]
pub(crate) fn push_char(s: &mut String, c: char)
    ensures
        final(s)@ == old(s)@.push(c),
{
    s.push(c)
}

/// The text that `{:?}` writes for a string: the string quoted, with
/// `std`'s `escape_debug` applied to its characters.
pub uninterp spec fn str_debug_text(s: Seq<char>) -> Seq<char>;

/// `format!("{:?}", s)` on a `str`.
#[verifier::external_body]
pub(crate) fn str_debug(s: &str) -> (text: String)
    ensures
        text@ == str_debug_text(s@),
{
    format!("{:?}", s)
}

/// Appends the characters of `t` to `s`.
pub(crate) fn push_str(s: &mut String, t: &str)
    ensures
        final(s)@ == old(s)@ + t@,
{
    let ghost start = s@;
    for c in it: t.chars()
        invariant
            s@ == start + it.seq().take(it.index() as int),
    {
        proof {
            assert(it.seq().take(it.index() + 1) == it.seq().take(it.index() as int).push(c));
        }
        push_char(s, c);
    }
}

/// The digit for `d` (below 16) in lower-case hexadecimal; for `d` below
/// 10 this is also the decimal digit.
pub open spec fn spec_digit(d: nat) -> char {
    if d < 10 {
        (48 + d) as char
    } else {
        (87 + d) as char
    }
}

/// `n` in lower-case hexadecimal, without leading zeros (as `{:x}` writes
/// it).
pub open spec fn spec_hex(n: nat) -> Seq<char>
    decreases n,
{
    if n < 16 {
        seq![spec_digit(n)]
    } else {
        spec_hex(n / 16).push(spec_digit(n % 16))
    }
}

/// `n` in decimal, without leading zeros.
pub open spec fn spec_decimal_nat(n: nat) -> Seq<char>
    decreases n,
{
    if n < 10 {
        seq![spec_digit(n)]
    } else {
        spec_decimal_nat(n / 10).push(spec_digit(n % 10))
    }
}

/// `i` in decimal, with a leading `-` when negative (as `to_string` writes
/// an integer).
pub open spec fn spec_decimal(i: int) -> Seq<char> {
    if i < 0 {
        seq!['-'] + spec_decimal_nat((-i) as nat)
    } else {
        spec_decimal_nat(i as nat)
    }
}

fn digit(d: u32) -> (c: char)
    requires
        d < 16,
    ensures
        c == spec_digit(d as nat),
{
    if d < 10 {
        char_of(48 + d)
    } else {
        char_of(87 + d)
    }
}

fn char_of(code: u32) -> (c: char)
    requires
        48 <= code < 128,
    ensures
        c == code as char,
{
    let b: u8 = code as u8;
    b as char
}

/// Appends `n` in lower-case hexadecimal.
pub(crate) fn push_hex(s: &mut String, n: u32)
    ensures
        final(s)@ == old(s)@ + spec_hex(n as nat),
    decreases n,
{
    if n >= 16 {
        push_hex(s, n / 16);
    }
    push_char(s, digit(n % 16));
}

/// Appends `n` in decimal.
pub(crate) fn push_decimal_u128(s: &mut String, n: u128)
    ensures
        final(s)@ == old(s)@ + spec_decimal_nat(n as nat),
    decreases n,
{
    if n >= 10 {
        push_decimal_u128(s, n / 10);
    }
    push_char(s, digit((n % 10) as u32));
}

/// Appends `i` in decimal, with a leading `-` when negative.
pub(crate) fn push_decimal(s: &mut String, i: i128)
    ensures
        final(s)@ == old(s)@ + spec_decimal(i as int),
{
    if i < 0 {
        push_char(s, '-');
        let magnitude: u128 = if i == i128::MIN {
            0x8000_0000_0000_0000_0000_0000_0000_0000u128
        } else {
            (-i) as u128
        };
        push_decimal_u128(s, magnitude);
    } else {
        push_decimal_u128(s, i as u128);
    }
}

/// `i` in decimal (what `i128::to_string` gives).
pub fn decimal_string(i: i128) -> (text: String)
    ensures
        text@ == spec_decimal(i as int),
{
    let mut text = String::new();
    push_decimal(&mut text, i);
    text
}

} // verus!
