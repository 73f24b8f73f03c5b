//! Failure taxonomy of the pipeline and the diagnostic formatter that turns
//! each failure into a stable, human-readable message.

use vstd::prelude::*;

use vstd::string::StringExecFns;
use vstd::string::StrSliceExecFns;
use crate::text::dec_str;
use crate::text::push_char;
use crate::text::append_decimal;

verus! {

/// The way in which a string failed the UUID grammar.
#[derive(Clone, Copy, Debug, PartialEq, Eq)]
pub enum MalformedKind {
    /// The stripped text is neither 32 nor 36 characters long.
    InvalidLength,
    /// A character at a position that must hold a hexadecimal digit is not one.
    InvalidCharacter,
    /// A character at one of the four fixed hyphen positions is not a hyphen.
    InvalidGroupLength,
}

/// A grammar failure: its kind and, when one character is to blame, the
/// 0-based offset of that character in the string as it was given, before
/// any prefix or brace was stripped.
#[derive(Clone, Copy, Debug, PartialEq, Eq)]
pub struct UuidError {
    pub kind: MalformedKind,
    pub position: Option<usize>,
}

/// A failure of the whole pipeline, one variant per stage that can fail.
#[derive(Debug, PartialEq, Eq)]
pub enum ParseError {
    /// The input token is not a literal of any kind.
    NotALiteral,
    /// The input token is a literal, but not a string literal.
    NotAString,
    /// The string literal is not a well-formed textual UUID.
    MalformedUuid(UuidError),
}

/// The fixed text that names a grammar failure's kind.
pub open spec fn kind_text(k: MalformedKind) -> Seq<char> {
    match k {
        MalformedKind::InvalidLength => "invalid length"@,
        MalformedKind::InvalidCharacter => "invalid character"@,
        MalformedKind::InvalidGroupLength => "invalid group length"@,
    }
}

/// The diagnostic message for error `e` raised on the literal text `s`:
/// a fixed template per variant, embedding the offending character and its
/// offset when the failure names one.
pub open spec fn message_text(e: ParseError, s: Seq<char>) -> Seq<char> {
    match e {
        ParseError::NotALiteral => "expected string literal"@,
        ParseError::NotAString => "expected string literal"@,
        ParseError::MalformedUuid(u) => match u.position {
            Some(p) => kind_text(u.kind) + ": found '"@ + seq![s[p as int]] + "' at "@ + dec_str(
                p as nat,
            ),
            None => kind_text(u.kind),
        },
    }
}

/// Formats the diagnostic message for `e`, raised on the literal text
/// `literal`.
pub fn message(e: &ParseError, literal: &str) -> (r: String)
    requires
        (match *e {
            ParseError::MalformedUuid(u) => match u.position {
                Some(p) => p < literal@.len(),
                None => true,
            },
            _ => true,
        }),
    ensures
        r@ == message_text(*e, literal@),
{
    match e {
        ParseError::NotALiteral => String::from_str("expected string literal"),
        ParseError::NotAString => String::from_str("expected string literal"),
        ParseError::MalformedUuid(u) => {
            let mut out = match u.kind {
                MalformedKind::InvalidLength => String::from_str("invalid length"),
                MalformedKind::InvalidCharacter => String::from_str("invalid character"),
                MalformedKind::InvalidGroupLength => String::from_str("invalid group length"),
            };
            match u.position {
                Some(p) => {
                    out.append(": found '");
                    push_char(&mut out, literal.get_char(p));
                    out.append("' at ");
                    append_decimal(&mut out, p as u64);
                    out
                },
                None => out,
            }
        },
    }
}

} // verus!
