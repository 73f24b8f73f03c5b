//! The UUID grammar: which texts are accepted, what they decode to, and
//! which character is reported when a text is refused.
//!
//! A text is first stripped of an optional case-insensitive `urn:uuid:`
//! prefix, then of one optional enclosing pair of braces, in that fixed
//! order. What remains must be either 36 characters in the hyphenated
//! 8-4-4-4-12 layout or 32 bare hexadecimal digits; the digits then fill
//! sixteen bytes in textual order, high digit first.

use vstd::prelude::*;

use vstd::string::StrSliceExecFns;
use crate::chars::is_hex_digit;
use crate::chars::hex_val;
use crate::chars::lower_char;
use crate::chars::hex_digit;
use crate::chars::hex_value;
use crate::chars::lower;
use crate::errors::MalformedKind;
use crate::errors::UuidError;

verus! {

/// The nine characters of the case-insensitive `urn:uuid:` prefix.
pub open spec fn urn_prefix() -> Seq<char> {
    seq!['u', 'r', 'n', ':', 'u', 'u', 'i', 'd', ':']
}

/// True when `s` starts with the prefix `urn:uuid:` in any letter case.
pub open spec fn has_urn_prefix(s: Seq<char>) -> bool {
    &&& s.len() >= 9
    &&& forall|i: int| 0 <= i < 9 ==> lower_char(#[trigger] s[i]) == urn_prefix()[i]
}

/// The length of the prefix stripped from `s`.
pub open spec fn prefix_len(s: Seq<char>) -> int {
    if has_urn_prefix(s) {
        9
    } else {
        0
    }
}

/// True when `t` is enclosed in one pair of braces.
pub open spec fn has_braces(t: Seq<char>) -> bool {
    t.len() >= 2 && t[0] == '{' && t[t.len() - 1] == '}'
}

/// Offset in the original text at which the undecorated UUID begins.
pub open spec fn core_start(s: Seq<char>) -> int {
    prefix_len(s) + if has_braces(s.skip(prefix_len(s))) {
        1int
    } else {
        0int
    }
}

/// Offset in the original text just past the undecorated UUID.
pub open spec fn core_end(s: Seq<char>) -> int {
    s.len() - if has_braces(s.skip(prefix_len(s))) {
        1int
    } else {
        0int
    }
}

/// The undecorated UUID text: `s` with prefix and braces stripped.
pub open spec fn core_of(s: Seq<char>) -> Seq<char> {
    s.subrange(core_start(s), core_end(s))
}

/// True of the four positions that must hold a hyphen in the 36-character
/// hyphenated layout.
pub open spec fn hyphen_position(i: int) -> bool {
    i == 8 || i == 13 || i == 18 || i == 23
}

/// True when position `i` of the stripped text `t` holds what the layout
/// demands there: a hyphen at the four fixed positions of the hyphenated
/// layout, a hexadecimal digit everywhere else.
pub open spec fn char_ok(t: Seq<char>, i: int, hyphenated: bool) -> bool {
    if hyphenated && hyphen_position(i) {
        t[i] == '-'
    } else {
        is_hex_digit(t[i])
    }
}

/// The first position at or after `i` that violates the layout, if any.
pub open spec fn first_bad_from(t: Seq<char>, i: int, hyphenated: bool) -> Option<int>
    decreases t.len() - i,
{
    if i < 0 || i >= t.len() {
        None
    } else if !char_ok(t, i, hyphenated) {
        Some(i)
    } else {
        first_bad_from(t, i + 1, hyphenated)
    }
}

/// The first position of the stripped text that violates the layout, if any.
pub open spec fn first_bad(t: Seq<char>, hyphenated: bool) -> Option<int> {
    first_bad_from(t, 0, hyphenated)
}

/// Index in the 36-character hyphenated text of its `i`-th hexadecimal
/// digit, for `i` in 0..32.
pub open spec fn digit_position(i: int) -> int {
    if i < 8 {
        i
    } else if i < 12 {
        i + 1
    } else if i < 16 {
        i + 2
    } else if i < 20 {
        i + 3
    } else {
        i + 4
    }
}

/// The 32 hexadecimal digits of the stripped text, hyphens dropped.
pub open spec fn digits_of(t: Seq<char>, hyphenated: bool) -> Seq<char> {
    if hyphenated {
        Seq::new(32, |i: int| t[digit_position(i)])
    } else {
        t
    }
}

/// The sixteen bytes encoded by 32 hexadecimal digits: one byte per pair of
/// digits, in textual order, most significant digit first.
pub open spec fn bytes_of_digits(d: Seq<char>) -> Seq<u8> {
    Seq::new(16, |i: int| (hex_val(d[2 * i]) * 16 + hex_val(d[2 * i + 1])) as u8)
}

/// What parsing the text `s` yields: the sixteen decoded bytes when `s` is a
/// well-formed textual UUID, and otherwise the earliest failure, scanning
/// left to right, with a length failure carrying no position.
pub open spec fn parse_uuid_spec(s: Seq<char>) -> Result<Seq<u8>, UuidError> {
    let t = core_of(s);
    let base = core_start(s);
    if t.len() == 32 || t.len() == 36 {
        let hyphenated = t.len() == 36;
        match first_bad(t, hyphenated) {
            None => Ok(bytes_of_digits(digits_of(t, hyphenated))),
            Some(j) => Err(
                UuidError {
                    kind: if hyphenated && hyphen_position(j) {
                        MalformedKind::InvalidGroupLength
                    } else {
                        MalformedKind::InvalidCharacter
                    },
                    position: Some((base + j) as usize),
                },
            ),
        }
    } else {
        Err(UuidError { kind: MalformedKind::InvalidLength, position: None })
    }
}

/// True when `s` decodes to sixteen bytes.
pub open spec fn valid_uuid(s: Seq<char>) -> bool {
    parse_uuid_spec(s) is Ok
}

/// The sixteen bytes that a well-formed textual UUID decodes to.
pub open spec fn uuid_bytes(s: Seq<char>) -> Seq<u8>
    recommends
        valid_uuid(s),
{
    parse_uuid_spec(s)->Ok_0
}

/// Scanning from the start finds the same first violation as scanning from
/// position `i`, when no violation lies before `i`.
pub proof fn lemma_first_bad_from(t: Seq<char>, hyphenated: bool, i: int)
    requires
        0 <= i <= t.len(),
        forall|k: int| 0 <= k < i ==> char_ok(t, k, hyphenated),
    ensures
        first_bad(t, hyphenated) == first_bad_from(t, i, hyphenated),
    decreases i,
{
    if i > 0 {
        lemma_first_bad_from(t, hyphenated, i - 1);
    }
}

/// The scan finds no violation exactly when every position is in order.
pub proof fn lemma_first_bad_none(t: Seq<char>, hyphenated: bool)
    ensures
        first_bad(t, hyphenated) is None <==> (forall|k: int|
            0 <= k < t.len() ==> char_ok(t, k, hyphenated)),
{
    if forall|k: int| 0 <= k < t.len() ==> char_ok(t, k, hyphenated) {
        lemma_first_bad_from(t, hyphenated, t.len() as int);
    } else {
        lemma_first_bad_from_finds(t, hyphenated, 0);
    }
}

proof fn lemma_first_bad_from_finds(t: Seq<char>, hyphenated: bool, i: int)
    requires
        0 <= i <= t.len(),
        exists|k: int| i <= k < t.len() && !char_ok(t, k, hyphenated),
    ensures
        first_bad_from(t, i, hyphenated) matches Some(j) && i <= j < t.len() && !char_ok(
            t,
            j,
            hyphenated,
        ),
    decreases t.len() - i,
{
    if char_ok(t, i, hyphenated) {
        lemma_first_bad_from_finds(t, hyphenated, i + 1);
    }
}

/// A successfully parsed UUID: exactly sixteen bytes, in the canonical
/// textual order.
#[derive(Debug)]
pub struct ParsedUuid {
    pub bytes: Vec<u8>,
}

impl ParsedUuid {
    /// The bytes the UUID consists of.
    pub open spec fn view(&self) -> Seq<u8> {
        self.bytes@
    }

    /// A parsed UUID always holds exactly sixteen bytes.
    pub open spec fn wf(&self) -> bool {
        self.bytes@.len() == 16
    }
}

/// Decides whether `input` matches the case-insensitive `urn:uuid:` prefix.
fn matches_urn_prefix(input: &str) -> (r: bool)
    ensures
        r == has_urn_prefix(input@),
{
    let n = input.unicode_len();
    if n < 9 {
        return false;
    }
    let r = lower(input.get_char(0)) == 'u' && lower(input.get_char(1)) == 'r' && lower(
        input.get_char(2),
    ) == 'n' && lower(input.get_char(3)) == ':' && lower(input.get_char(4)) == 'u' && lower(
        input.get_char(5),
    ) == 'u' && lower(input.get_char(6)) == 'i' && lower(input.get_char(7)) == 'd' && lower(
        input.get_char(8),
    ) == ':';
    proof {
        if r {
            assert forall|i: int| 0 <= i < 9 implies lower_char(input@[i]) == urn_prefix()[i] by {
                assert(lower_char(input@[0]) == 'u');
                assert(lower_char(input@[1]) == 'r');
                assert(lower_char(input@[2]) == 'n');
                assert(lower_char(input@[3]) == ':');
                assert(lower_char(input@[4]) == 'u');
                assert(lower_char(input@[5]) == 'u');
                assert(lower_char(input@[6]) == 'i');
                assert(lower_char(input@[7]) == 'd');
                assert(lower_char(input@[8]) == ':');
            }
        }
    }
    r
}

/// Parses and validates the text of a UUID, decoding it to sixteen bytes or
/// reporting the earliest violation of the grammar.
pub fn parse_uuid(input: &str) -> (r: Result<ParsedUuid, UuidError>)
    ensures
        (match r {
            Ok(p) => p.wf() && parse_uuid_spec(input@) == Ok::<Seq<u8>, UuidError>(p@),
            Err(e) => parse_uuid_spec(input@) == Err::<Seq<u8>, UuidError>(e) && (match e.position {
                Some(p) => p < input@.len(),
                None => true,
            }),
        }),
{
    let ghost s = input@;
    let n = input.unicode_len();
    let pre: usize = if matches_urn_prefix(input) {
        9
    } else {
        0
    };
    proof {
        assert(pre == prefix_len(s));
    }
    let braced: bool = n - pre >= 2 && input.get_char(pre) == '{' && input.get_char(n - 1) == '}';
    proof {
        let rest = s.skip(pre as int);
        assert(rest.len() == n - pre);
        if n - pre >= 2 {
            assert(rest[0] == s[pre as int]);
            assert(rest[rest.len() - 1] == s[n - 1]);
        }
        assert(braced == has_braces(s.skip(prefix_len(s))));
    }
    let base: usize = if braced {
        pre + 1
    } else {
        pre
    };
    let end: usize = if braced {
        n - 1
    } else {
        n
    };
    proof {
        assert(base == core_start(s));
        assert(end == core_end(s));
    }
    let ghost t = core_of(s);
    let len = end - base;
    proof {
        assert(t.len() == len);
    }
    if !(len == 32 || len == 36) {
        return Err(UuidError { kind: MalformedKind::InvalidLength, position: None });
    }
    let hyphenated = len == 36;
    let mut i: usize = 0;
    while i < len
        invariant
            s == input@,
            t == core_of(s),
            base == core_start(s),
            base + len == core_end(s),
            core_end(s) <= s.len(),
            t.len() == len,
            len == 32 || len == 36,
            hyphenated == (len == 36),
            i <= len,
            forall|k: int| 0 <= k < i ==> char_ok(t, k, hyphenated),
        decreases len - i,
    {
        let c = input.get_char(base + i);
        proof {
            assert(t[i as int] == s[base + i]);
        }
        let ok = if hyphenated && (i == 8 || i == 13 || i == 18 || i == 23) {
            c == '-'
        } else {
            hex_digit(c)
        };
        if !ok {
            let kind = if hyphenated && (i == 8 || i == 13 || i == 18 || i == 23) {
                MalformedKind::InvalidGroupLength
            } else {
                MalformedKind::InvalidCharacter
            };
            proof {
                lemma_first_bad_from(t, hyphenated, i as int);
                assert(first_bad(t, hyphenated) == Some(i as int));
            }
            return Err(UuidError { kind, position: Some(base + i) });
        }
        i = i + 1;
    }
    proof {
        lemma_first_bad_from(t, hyphenated, len as int);
        assert(first_bad(t, hyphenated) is None);
    }
    let ghost d = digits_of(t, hyphenated);
    let mut bytes: Vec<u8> = Vec::new();
    let mut k: usize = 0;
    while k < 16
        invariant
            s == input@,
            t == core_of(s),
            base == core_start(s),
            base + len == core_end(s),
            core_end(s) <= s.len(),
            t.len() == len,
            len == 32 || len == 36,
            hyphenated == (len == 36),
            forall|j: int| 0 <= j < t.len() ==> char_ok(t, j, hyphenated),
            d == digits_of(t, hyphenated),
            k <= 16,
            bytes@.len() == k,
            forall|j: int| 0 <= j < k ==> bytes@[j] == bytes_of_digits(d)[j],
        decreases 16 - k,
    {
        let hi_pos = digit_index(2 * k, hyphenated);
        let lo_pos = digit_index(2 * k + 1, hyphenated);
        let hi_c = input.get_char(base + hi_pos);
        let lo_c = input.get_char(base + lo_pos);
        proof {
            assert(t[hi_pos as int] == s[base + hi_pos]);
            assert(t[lo_pos as int] == s[base + lo_pos]);
            assert(d[2 * k as int] == t[hi_pos as int]);
            assert(d[2 * k + 1] == t[lo_pos as int]);
            assert(char_ok(t, hi_pos as int, hyphenated));
            assert(char_ok(t, lo_pos as int, hyphenated));
        }
        let hi = hex_value(hi_c);
        let lo = hex_value(lo_c);
        bytes.push(hi * 16 + lo);
        k = k + 1;
    }
    proof {
        assert(bytes@ =~= bytes_of_digits(d));
    }
    Ok(ParsedUuid { bytes })
}

/// Index in the stripped text of its `i`-th hexadecimal digit.
fn digit_index(i: usize, hyphenated: bool) -> (r: usize)
    requires
        i < 32,
    ensures
        hyphenated ==> r == digit_position(i as int) && !hyphen_position(r as int) && r < 36,
        !hyphenated ==> r == i,
{
    if !hyphenated {
        i
    } else if i < 8 {
        i
    } else if i < 12 {
        i + 1
    } else if i < 16 {
        i + 2
    } else if i < 20 {
        i + 3
    } else {
        i + 4
    }
}

} // verus!
