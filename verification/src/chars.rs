//! Character-level vocabulary of the UUID grammar: hexadecimal digits, their
//! numeric values, and comparison up to ASCII letter case.

use vstd::prelude::*;

verus! {

/// True of the sixteen characters that may stand in a hexadecimal group.
pub open spec fn is_hex_digit(c: char) -> bool {
    (48 <= c as u32 && c as u32 <= 57)      // '0' ..= '9'
    || (97 <= c as u32 && c as u32 <= 102)  // 'a' ..= 'f'
    || (65 <= c as u32 && c as u32 <= 70)   // 'A' ..= 'F'
}

/// Numeric value of a hexadecimal digit; upper and lower case decode alike.
pub open spec fn hex_val(c: char) -> u8
    recommends
        is_hex_digit(c),
{
    if 48 <= c as u32 && c as u32 <= 57 {
        (c as u32 - 48) as u8
    } else if 97 <= c as u32 && c as u32 <= 102 {
        (c as u32 - 87) as u8
    } else {
        (c as u32 - 55) as u8
    }
}

/// The lower-case hexadecimal digit whose value is `v`.
pub open spec fn hex_char(v: u8) -> char
    recommends
        v < 16,
{
    if v < 10 {
        ((v + 48) as u8) as char
    } else {
        ((v + 87) as u8) as char
    }
}

/// The lower-case counterpart of an ASCII letter; any other character is
/// left as it is.
pub open spec fn lower_char(c: char) -> char {
    if 65 <= c as u32 && c as u32 <= 90 {
        ((c as u32 + 32) as u32) as char
    } else {
        c
    }
}

/// Two texts are equal up to ASCII letter case.
pub open spec fn eq_ignore_case(s: Seq<char>, t: Seq<char>) -> bool {
    &&& s.len() == t.len()
    &&& forall|i: int| 0 <= i < s.len() ==> lower_char(s[i]) == lower_char(t[i])
}

/// Characters with equal lower-case forms are hexadecimal digits together,
/// carry the same digit value, and agree on every non-letter comparison.
pub proof fn lemma_lower_char_agreement(a: char, b: char)
    requires
        lower_char(a) == lower_char(b),
    ensures
        is_hex_digit(a) == is_hex_digit(b),
        is_hex_digit(a) ==> hex_val(a) == hex_val(b),
        a as u32 == b as u32 || a as u32 + 32 == b as u32 || a as u32 == b as u32 + 32,
{
}

/// Decoding a hexadecimal digit and printing the value back in lower case
/// gives the digit's own lower-case form.
pub proof fn lemma_hex_char_round_trip(c: char)
    requires
        is_hex_digit(c),
    ensures
        hex_val(c) < 16,
        hex_char(hex_val(c)) == lower_char(c),
        is_hex_digit(hex_char(hex_val(c))),
{
}

/// Decides whether `c` is a hexadecimal digit.
pub fn hex_digit(c: char) -> (r: bool)
    ensures
        r == is_hex_digit(c),
{
    let u = c as u32;
    (48 <= u && u <= 57) || (97 <= u && u <= 102) || (65 <= u && u <= 70)
}

/// Numeric value of the hexadecimal digit `c`.
pub fn hex_value(c: char) -> (v: u8)
    requires
        is_hex_digit(c),
    ensures
        v == hex_val(c),
        v < 16,
{
    let u = c as u32;
    if u <= 57 {
        (u - 48) as u8
    } else if 97 <= u {
        (u - 87) as u8
    } else {
        (u - 55) as u8
    }
}

/// The lower-case hexadecimal digit whose value is `v`.
pub fn hex_char_of(v: u8) -> (c: char)
    requires
        v < 16,
    ensures
        c == hex_char(v),
{
    if v < 10 {
        (v + 48) as char
    } else {
        (v + 87) as char
    }
}

/// The lower-case counterpart of `c`.
pub fn lower(c: char) -> (r: char)
    ensures
        r == lower_char(c),
{
    let u = c as u32;
    if 65 <= u && u <= 90 {
        ((u + 32) as u8) as char
    } else {
        c
    }
}

} // verus!
