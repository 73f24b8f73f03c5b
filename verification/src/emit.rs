//! The byte-array emitter: turns sixteen validated bytes into the text of a
//! constant-construction expression, and back into the canonical hyphenated
//! lower-case UUID form.

use vstd::prelude::*;

use vstd::string::StringExecFns;
use crate::chars::hex_char;
use crate::chars::hex_char_of;
use crate::grammar::ParsedUuid;
use crate::grammar::hyphen_position;
use crate::grammar::digit_position;
use crate::text::dec_str;
use crate::text::push_char;
use crate::text::append_decimal;

verus! {

/// The textual form of one byte in the emitted list: its decimal value with
/// the byte suffix.
pub open spec fn byte_item(b: u8) -> Seq<char> {
    dec_str(b as nat) + "u8"@
}

/// The emitted forms of every byte after the first, each preceded by a
/// comma and a space.
pub open spec fn byte_list_tail(bs: Seq<u8>) -> Seq<char>
    decreases bs.len(),
{
    if bs.len() == 0 {
        Seq::empty()
    } else {
        ", "@ + byte_item(bs[0]) + byte_list_tail(bs.skip(1))
    }
}

/// The emitted, comma-separated list of all the bytes.
pub open spec fn byte_list(bs: Seq<u8>) -> Seq<char> {
    if bs.len() == 0 {
        Seq::empty()
    } else {
        byte_item(bs[0]) + byte_list_tail(bs.skip(1))
    }
}

/// The constant-construction expression that embeds the bytes `bs`: the
/// canonical build-from-raw-bytes constructor applied to the byte list.
pub open spec fn expression_of(bs: Seq<u8>) -> Seq<char> {
    "::uuid::Uuid::from_bytes(["@ + byte_list(bs) + "])"@
}

/// Emits the constant-construction expression for a parsed UUID.
pub fn emit_expression(u: &ParsedUuid) -> (r: String)
    requires
        u.wf(),
    ensures
        r@ == expression_of(u@),
{
    let ghost bs = u@;
    let mut out = String::from_str("::uuid::Uuid::from_bytes([");
    append_byte(&mut out, u.bytes[0]);
    let mut i: usize = 1;
    while i < 16
        invariant
            bs == u@,
            u.wf(),
            1 <= i <= 16,
            out@ + byte_list_tail(bs.skip(i as int)) == "::uuid::Uuid::from_bytes(["@ + byte_list(
                bs,
            ),
        decreases 16 - i,
    {
        proof {
            assert(bs.skip(i as int)[0] == bs[i as int]);
            assert(bs.skip(i as int).skip(1) =~= bs.skip(i + 1));
            assert(byte_list_tail(bs.skip(i as int)) == ", "@ + byte_item(bs[i as int])
                + byte_list_tail(bs.skip(i + 1)));
        }
        out.append(", ");
        append_byte(&mut out, u.bytes[i]);
        i = i + 1;
    }
    proof {
        assert(bs.skip(16) =~= Seq::<u8>::empty());
        assert(byte_list_tail(bs.skip(16)) =~= Seq::<char>::empty());
        assert(out@ + Seq::<char>::empty() =~= out@);
    }
    out.concat("])")
}

/// Appends one byte's emitted form to `out`.
fn append_byte(out: &mut String, b: u8)
    ensures
        final(out)@ == old(out)@ + byte_item(b),
{
    append_decimal(out, b as u64);
    out.append("u8");
}

/// Offset of the `i`-th hexadecimal digit within 36 hyphenated characters,
/// counted backwards: the digit written at position `i` of the canonical
/// text, for the positions that do not hold a hyphen.
pub open spec fn digit_index_at(i: int) -> int {
    if i < 8 {
        i
    } else if i < 13 {
        i - 1
    } else if i < 18 {
        i - 2
    } else if i < 23 {
        i - 3
    } else {
        i - 4
    }
}

/// The half-byte printed as the `j`-th hexadecimal digit: the high half of
/// byte `j / 2` for even `j`, its low half for odd `j`.
pub open spec fn nibble(bs: Seq<u8>, j: int) -> u8 {
    if j % 2 == 0 {
        (bs[j / 2] / 16) as u8
    } else {
        (bs[j / 2] % 16) as u8
    }
}

/// The canonical textual UUID form of sixteen bytes: lower-case hexadecimal
/// digits in textual byte order, hyphenated 8-4-4-4-12.
pub open spec fn hyphenated_of(bs: Seq<u8>) -> Seq<char> {
    Seq::new(
        36,
        |i: int|
            if hyphen_position(i) {
                '-'
            } else {
                hex_char(nibble(bs, digit_index_at(i)))
            },
    )
}

/// Writes a parsed UUID back in the canonical hyphenated lower-case form.
pub fn encode_hyphenated(u: &ParsedUuid) -> (r: String)
    requires
        u.wf(),
    ensures
        r@ == hyphenated_of(u@),
{
    let mut out = String::new();
    let mut i: usize = 0;
    while i < 36
        invariant
            u.wf(),
            i <= 36,
            out@ =~= hyphenated_of(u@).take(i as int),
        decreases 36 - i,
    {
        proof {
            assert(hyphenated_of(u@).take(i + 1) =~= hyphenated_of(u@).take(i as int) + seq![
                hyphenated_of(u@)[i as int],
            ]);
        }
        if i == 8 || i == 13 || i == 18 || i == 23 {
            push_char(&mut out, '-');
        } else {
            let j = if i < 8 {
                i
            } else if i < 13 {
                i - 1
            } else if i < 18 {
                i - 2
            } else if i < 23 {
                i - 3
            } else {
                i - 4
            };
            let b = u.bytes[j / 2];
            let v = if j % 2 == 0 {
                b / 16
            } else {
                b % 16
            };
            push_char(&mut out, hex_char_of(v));
        }
        i = i + 1;
    }
    proof {
        assert(hyphenated_of(u@).take(36) =~= hyphenated_of(u@));
    }
    out
}

} // verus!
