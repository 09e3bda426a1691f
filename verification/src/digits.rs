//! Digit characters: the decimal and hexadecimal digits that the password
//! specification encoding and the matrix cells are written in.

use vstd::prelude::*;

verus! {

/// True when `c` is an ASCII decimal digit `'0'..='9'`.
pub open spec fn is_dec_digit(c: char) -> bool {
    48 <= c as int <= 57
}

/// Numeric value of a decimal digit character.
pub open spec fn dec_val(c: char) -> int {
    c as int - 48
}

/// True when `c` is an ASCII hexadecimal digit: `0-9`, `a-f` or `A-F`.
pub open spec fn is_hex_digit(c: char) -> bool {
    is_dec_digit(c) || (97 <= c as int <= 102) || (65 <= c as int <= 70)
}

/// Numeric value of a hexadecimal digit character, case-insensitive.
pub open spec fn hex_val(c: char) -> int {
    if is_dec_digit(c) {
        dec_val(c)
    } else if 97 <= c as int <= 102 {
        c as int - 87
    } else {
        c as int - 55
    }
}

/// The character that renders `d` as one decimal digit.
pub open spec fn dec_char(d: u8) -> char {
    (48 + d) as char
}

/// The lower-case character that renders `d` as one hexadecimal digit.
pub open spec fn hex_char(d: u8) -> char {
    if d < 10 {
        (48 + d) as char
    } else {
        (87 + d) as char
    }
}

/// Parses one character as a base-10 digit, as the coordinate decoding does
/// for the table digit.
pub fn parse_dec_digit(c: char) -> (r: Option<u8>)
    ensures
        match r {
            Some(v) => is_dec_digit(c) && v == dec_val(c),
            None => !is_dec_digit(c),
        },
{
    let u = c as u32;
    if 48 <= u && u <= 57 {
        Some((u - 48) as u8)
    } else {
        None
    }
}

/// Parses one character as a base-16 digit, case-insensitive, as the
/// coordinate decoding does for the position digit.
pub fn parse_hex_digit(c: char) -> (r: Option<u8>)
    ensures
        match r {
            Some(v) => is_hex_digit(c) && v == hex_val(c),
            None => !is_hex_digit(c),
        },
{
    let u = c as u32;
    if 48 <= u && u <= 57 {
        Some((u - 48) as u8)
    } else if 97 <= u && u <= 102 {
        Some((u - 87) as u8)
    } else if 65 <= u && u <= 70 {
        Some((u - 55) as u8)
    } else {
        None
    }
}

/// Renders a digit value as its decimal digit character.
pub fn render_dec_digit(d: u8) -> (c: char)
    requires
        d < 10,
    ensures
        c == dec_char(d),
{
    (48 + d) as char
}

/// Renders a digit value as its lower-case hexadecimal digit character.
pub fn render_hex_digit(d: u8) -> (c: char)
    requires
        d < 16,
    ensures
        c == hex_char(d),
{
    if d < 10 {
        (48 + d) as char
    } else {
        (87 + d) as char
    }
}

/// Rendering a decimal digit and parsing it back returns the value.
pub proof fn lemma_dec_digit_round_trip(d: u8)
    requires
        d < 10,
    ensures
        is_dec_digit(dec_char(d)),
        dec_val(dec_char(d)) == d,
{
}

/// Rendering a hexadecimal digit and parsing it back returns the value.
pub proof fn lemma_hex_digit_round_trip(d: u8)
    requires
        d < 16,
    ensures
        is_hex_digit(hex_char(d)),
        hex_val(hex_char(d)) == d,
{
}

} // verus!
