//! Laws of the pipeline, stated and proved once for all inputs: decoding is
//! case-insensitive, decorations do not change the decoded bytes, re-encoding
//! undoes decoding, and the earliest offending character is the one reported.

use vstd::prelude::*;

use crate::chars::hex_val;
use crate::chars::lower_char;
use crate::chars::eq_ignore_case;
use crate::chars::lemma_lower_char_agreement;
use crate::chars::lemma_hex_char_round_trip;
use crate::emit::hyphenated_of;
use crate::emit::nibble;
use crate::emit::digit_index_at;
use crate::errors::MalformedKind;
use crate::errors::UuidError;
use crate::grammar::urn_prefix;
use crate::grammar::has_urn_prefix;
use crate::grammar::prefix_len;
use crate::grammar::has_braces;
use crate::grammar::core_start;
use crate::grammar::core_of;
use crate::grammar::hyphen_position;
use crate::grammar::char_ok;
use crate::grammar::first_bad_from;
use crate::grammar::first_bad;
use crate::grammar::digit_position;
use crate::grammar::digits_of;
use crate::grammar::bytes_of_digits;
use crate::grammar::parse_uuid_spec;
use crate::grammar::valid_uuid;
use crate::grammar::uuid_bytes;
use crate::grammar::lemma_first_bad_from;
use crate::grammar::lemma_first_bad_none;

verus! {

/// Every position of the stripped text holds what the layout demands there.
pub open spec fn all_char_ok(t: Seq<char>, hyphenated: bool) -> bool {
    forall|k: int| 0 <= k < t.len() ==> #[trigger] char_ok(t, k, hyphenated)
}

/// A well-formed undecorated UUID text: 36 characters in the hyphenated
/// layout or 32 bare hexadecimal digits, every position in order.
pub open spec fn valid_core(t: Seq<char>) -> bool {
    &&& t.len() == 32 || t.len() == 36
    &&& all_char_ok(t, t.len() == 36)
}

/// Characters equal up to case agree on being a hyphen, a brace, or a colon.
proof fn lemma_lower_punct(a: char, b: char)
    requires
        lower_char(a) == lower_char(b),
    ensures
        (a == '-') == (b == '-'),
        (a == '{') == (b == '{'),
        (a == '}') == (b == '}'),
{
}

/// No position of the stripped text before `j` violates the layout.
pub open spec fn all_char_ok_before(t: Seq<char>, j: int, hyphenated: bool) -> bool {
    forall|k: int| 0 <= k < j ==> #[trigger] char_ok(t, k, hyphenated)
}

/// Texts equal up to case agree position by position on the layout check.
proof fn lemma_first_bad_ci(s: Seq<char>, t: Seq<char>, hyphenated: bool, i: int)
    requires
        eq_ignore_case(s, t),
        0 <= i <= s.len(),
    ensures
        first_bad_from(s, i, hyphenated) == first_bad_from(t, i, hyphenated),
    decreases s.len() - i,
{
    if i < s.len() {
        lemma_lower_char_agreement(s[i], t[i]);
        lemma_lower_punct(s[i], t[i]);
        assert(char_ok(s, i, hyphenated) == char_ok(t, i, hyphenated));
        if char_ok(s, i, hyphenated) {
            lemma_first_bad_ci(s, t, hyphenated, i + 1);
        }
    }
}

/// Decoding is case-insensitive: texts equal up to ASCII letter case parse
/// to the same outcome, decoded bytes and reported failure alike.
pub proof fn lemma_parse_case_insensitive(s: Seq<char>, t: Seq<char>)
    requires
        eq_ignore_case(s, t),
    ensures
        parse_uuid_spec(s) == parse_uuid_spec(t),
{
    assert(has_urn_prefix(s) == has_urn_prefix(t)) by {
        if has_urn_prefix(s) {
            assert forall|i: int| 0 <= i < 9 implies lower_char(#[trigger] t[i]) == urn_prefix()[i]
            by {
                assert(lower_char(s[i]) == urn_prefix()[i]);
            }
        }
        if has_urn_prefix(t) {
            assert forall|i: int| 0 <= i < 9 implies lower_char(#[trigger] s[i]) == urn_prefix()[i]
            by {
                assert(lower_char(t[i]) == urn_prefix()[i]);
            }
        }
    }
    let p = prefix_len(s);
    let sp = s.skip(p);
    let tp = t.skip(p);
    assert(has_braces(sp) == has_braces(tp)) by {
        if sp.len() >= 2 {
            lemma_lower_punct(sp[0], tp[0]);
            lemma_lower_punct(sp[sp.len() - 1], tp[tp.len() - 1]);
        }
    }
    let base = core_start(s);
    let cs = core_of(s);
    let ct = core_of(t);
    assert(core_start(t) == base);
    assert(cs.len() == ct.len());
    assert(eq_ignore_case(cs, ct)) by {
        assert forall|i: int| 0 <= i < cs.len() implies lower_char(#[trigger] cs[i]) == lower_char(
            ct[i],
        ) by {
            assert(cs[i] == s[base + i]);
            assert(ct[i] == t[base + i]);
        }
    }
    if cs.len() == 32 || cs.len() == 36 {
        let hyphenated = cs.len() == 36;
        lemma_first_bad_ci(cs, ct, hyphenated, 0);
        if first_bad(cs, hyphenated) is None {
            lemma_first_bad_none(cs, hyphenated);
            let ds = digits_of(cs, hyphenated);
            let dt = digits_of(ct, hyphenated);
            assert forall|j: int| 0 <= j < 16 implies bytes_of_digits(ds)[j] == bytes_of_digits(
                dt,
            )[j] by {
                assert(char_ok(cs, (if hyphenated {
                    digit_position(2 * j)
                } else {
                    2 * j
                }), hyphenated));
                assert(char_ok(cs, (if hyphenated {
                    digit_position(2 * j + 1)
                } else {
                    2 * j + 1
                }), hyphenated));
                lemma_lower_char_agreement(ds[2 * j], dt[2 * j]);
                lemma_lower_char_agreement(ds[2 * j + 1], dt[2 * j + 1]);
            }
            assert(bytes_of_digits(ds) =~= bytes_of_digits(dt));
        }
    }
}

/// The braced form of a text: the text in one pair of enclosing braces.
pub open spec fn braced(t: Seq<char>) -> Seq<char> {
    seq!['{'] + t + seq!['}']
}

/// A well-formed undecorated text carries neither prefix nor braces of its
/// own, so parsing reads it whole.
proof fn lemma_core_of_valid(t: Seq<char>)
    requires
        valid_core(t),
    ensures
        !has_urn_prefix(t),
        !has_braces(t),
        core_of(t) == t,
        parse_uuid_spec(t) == Ok::<Seq<u8>, UuidError>(
            bytes_of_digits(digits_of(t, t.len() == 36)),
        ),
{
    assert(char_ok(t, 3, t.len() == 36));
    assert(lower_char(t[3]) != ':');
    assert(!has_urn_prefix(t));
    assert(char_ok(t, 0, t.len() == 36));
    assert(t[0] != '{');
    assert(!has_braces(t));
    assert(core_of(t) =~= t);
    lemma_first_bad_none(t, t.len() == 36);
}

/// Neither the optional `urn:uuid:` prefix nor optional enclosing braces,
/// nor both together, change what a well-formed UUID text decodes to.
pub proof fn lemma_decorations_preserve_bytes(t: Seq<char>)
    requires
        valid_core(t),
    ensures
        valid_uuid(t),
        parse_uuid_spec(urn_prefix() + t) == parse_uuid_spec(t),
        parse_uuid_spec(braced(t)) == parse_uuid_spec(t),
        parse_uuid_spec(urn_prefix() + braced(t)) == parse_uuid_spec(t),
{
    let hyphenated = t.len() == 36;
    lemma_core_of_valid(t);
    let u = urn_prefix() + t;
    assert(parse_uuid_spec(u) == parse_uuid_spec(t)) by {
        assert(has_urn_prefix(u)) by {
            assert forall|i: int| 0 <= i < 9 implies lower_char(#[trigger] u[i]) == urn_prefix()[i]
            by {
                assert(u[i] == urn_prefix()[i]);
            }
        }
        assert(u.skip(9) =~= t);
        assert(core_of(u) =~= t);
        lemma_first_bad_none(t, hyphenated);
    }
    let b = braced(t);
    assert(parse_uuid_spec(b) == parse_uuid_spec(t)) by {
        assert(b[0] == '{');
        assert(lower_char(b[0]) != urn_prefix()[0]);
        assert(!has_urn_prefix(b));
        assert(b.skip(0) =~= b);
        assert(b[b.len() - 1] == '}');
        assert(has_braces(b));
        assert(core_of(b) =~= t);
        lemma_first_bad_none(t, hyphenated);
    }
    let ub = urn_prefix() + braced(t);
    assert(parse_uuid_spec(ub) == parse_uuid_spec(t)) by {
        assert(has_urn_prefix(ub)) by {
            assert forall|i: int| 0 <= i < 9 implies lower_char(#[trigger] ub[i]) == urn_prefix()[i]
            by {
                assert(ub[i] == urn_prefix()[i]);
            }
        }
        assert(ub.skip(9) =~= b);
        assert(has_braces(b));
        assert(core_of(ub) =~= t);
        lemma_first_bad_none(t, hyphenated);
    }
}

/// Any character outside the hexadecimal digit set, other than a required
/// hyphen, makes parsing fail; the failure carries the exact 0-based offset,
/// in the original pre-strip text, of the earliest such character.
pub proof fn lemma_invalid_character_reported(s: Seq<char>, j: int)
    requires
        core_of(s).len() == 32 || core_of(s).len() == 36,
        0 <= j < core_of(s).len(),
        !char_ok(core_of(s), j, core_of(s).len() == 36),
        all_char_ok_before(core_of(s), j, core_of(s).len() == 36),
    ensures
        parse_uuid_spec(s) == Err::<Seq<u8>, UuidError>(
            UuidError {
                kind: if core_of(s).len() == 36 && hyphen_position(j) {
                    MalformedKind::InvalidGroupLength
                } else {
                    MalformedKind::InvalidCharacter
                },
                position: Some((core_start(s) + j) as usize),
            },
        ),
{
    let t = core_of(s);
    let hyphenated = t.len() == 36;
    lemma_first_bad_from(t, hyphenated, j);
    assert(first_bad(t, hyphenated) == Some(j));
}

/// Decoding a canonical hyphenated text and re-encoding the bytes yields the
/// same text up to ASCII letter case.
pub proof fn lemma_hyphenated_round_trip(s: Seq<char>)
    requires
        s.len() == 36,
        forall|k: int| 0 <= k < 36 ==> char_ok(s, k, true),
    ensures
        valid_uuid(s),
        eq_ignore_case(hyphenated_of(uuid_bytes(s)), s),
{
    lemma_core_of_valid(s);
    let d = digits_of(s, true);
    let bs = bytes_of_digits(d);
    let h = hyphenated_of(bs);
    assert forall|i: int| 0 <= i < 36 implies lower_char(#[trigger] h[i]) == lower_char(s[i]) by {
        if hyphen_position(i) {
            assert(h[i] == '-');
            assert(char_ok(s, i, true));
            assert(s[i] == '-');
        } else {
            let j = digit_index_at(i);
            assert(digit_position(j) == i);
            assert(char_ok(s, digit_position(2 * (j / 2)), true));
            assert(char_ok(s, digit_position(2 * (j / 2) + 1), true));
            let hi = hex_val(d[2 * (j / 2)]);
            let lo = hex_val(d[2 * (j / 2) + 1]);
            lemma_hex_char_round_trip(d[2 * (j / 2)]);
            lemma_hex_char_round_trip(d[2 * (j / 2) + 1]);
            assert(bs[j / 2] == (hi * 16 + lo) as u8);
            assert(hi * 16 + lo < 256);
            assert((hi * 16 + lo) as u8 / 16 == hi);
            assert((hi * 16 + lo) as u8 % 16 == lo);
            assert(nibble(bs, j) == hex_val(d[j]));
            assert(d[j] == s[i]);
            lemma_hex_char_round_trip(s[i]);
            assert(h[i] == lower_char(s[i]));
            assert(lower_char(lower_char(s[i])) == lower_char(s[i]));
        }
    }
}

} // verus!

