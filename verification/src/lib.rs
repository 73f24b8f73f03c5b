//! Build-time validation and encoding of textual UUIDs.
//!
//! The library turns the text of a UUID literal into its canonical
//! sixteen-byte form, or into a precise diagnostic when the text is not a
//! well-formed UUID, so that a build step can embed known-good identifiers
//! as constants. The pipeline is a strict linear sequence: extract the
//! string from the literal token, parse and validate it, then either emit a
//! constant-construction expression or format one terminal diagnostic.

pub mod chars;
pub mod emit;
pub mod errors;
pub mod grammar;
pub mod laws;
pub mod text;
pub mod token;

use vstd::prelude::*;

use vstd::string::StringExecFns;
use vstd::string::StrSliceExecFns;
use crate::emit::emit_expression;
use crate::emit::expression_of;
use crate::errors::ParseError;
use crate::errors::message;
use crate::errors::message_text;
use crate::grammar::parse_uuid;
use crate::grammar::parse_uuid_spec;
use crate::text::push_char;
use crate::token::extract_literal;
use crate::token::literal_of;
use crate::token::read_literal_token;

verus! {

/// One character of a diagnostic message as it stands inside a double-quoted
/// literal: a quote or a backslash is preceded by a backslash.
pub open spec fn escaped_char(c: char) -> Seq<char> {
    if c == '"' || c == '\\' {
        seq!['\\', c]
    } else {
        seq![c]
    }
}

/// A message with every quote and backslash escaped.
pub open spec fn escaped(s: Seq<char>) -> Seq<char>
    decreases s.len(),
{
    if s.len() == 0 {
        Seq::empty()
    } else {
        escaped_char(s[0]) + escaped(s.skip(1))
    }
}

/// The build-failure form of a diagnostic message: a `compile_error!`
/// invocation embedding the message as a string literal.
pub open spec fn diagnostic_of(msg: Seq<char>) -> Seq<char> {
    "compile_error!(\""@ + escaped(msg) + "\")"@
}

/// Wraps a diagnostic message as a build-failure expression.
pub fn diagnostic(msg: &str) -> (r: String)
    ensures
        r@ == diagnostic_of(msg@),
{
    let mut out = String::from_str("compile_error!(\"");
    let n = msg.unicode_len();
    proof {
        assert(msg@.skip(0) =~= msg@);
    }
    let mut i: usize = 0;
    while i < n
        invariant
            n == msg@.len(),
            i <= n,
            out@ + escaped(msg@.skip(i as int)) == "compile_error!(\""@ + escaped(msg@),
        decreases n - i,
    {
        proof {
            assert(msg@.skip(i as int)[0] == msg@[i as int]);
            assert(msg@.skip(i as int).skip(1) =~= msg@.skip(i + 1));
        }
        let c = msg.get_char(i);
        let ghost before = out@;
        if c == '"' || c == '\\' {
            push_char(&mut out, '\\');
        }
        push_char(&mut out, c);
        proof {
            assert(out@ =~= before + escaped_char(msg@[i as int]));
            assert((before + escaped_char(msg@[i as int])) + escaped(msg@.skip(i + 1)) =~= before
                + (escaped_char(msg@[i as int]) + escaped(msg@.skip(i + 1))));
        }
        i = i + 1;
    }
    proof {
        assert(msg@.skip(n as int) =~= Seq::<char>::empty());
        assert(out@ + escaped(msg@.skip(n as int)) =~= out@);
    }
    out.concat("\")")
}

/// The fallible pipeline behind `uuid`: extract the string from the literal
/// token, parse and validate it, and emit the constant-construction
/// expression; each failure is returned, never formatted, and nothing is
/// ever substituted for a failed input.
pub fn build_uuid(input: &str) -> (r: Result<String, ParseError>)
    ensures
        (match literal_of(input@) {
            Some(Some(v)) => match parse_uuid_spec(v) {
                Ok(bs) => r matches Ok(expr) && expr@ == expression_of(bs),
                Err(u) => r == Err::<String, ParseError>(ParseError::MalformedUuid(u)),
            },
            Some(None) => r == Err::<String, ParseError>(ParseError::NotAString),
            None => r == Err::<String, ParseError>(ParseError::NotALiteral),
        }),
{
    let t = read_literal_token(input);
    let lit = match extract_literal(t) {
        Ok(s) => s,
        Err(e) => {
            return Err(e);
        },
    };
    match parse_uuid(lit.as_str()) {
        Ok(p) => Ok(emit_expression(&p)),
        Err(u) => Err(ParseError::MalformedUuid(u)),
    }
}

/// Expands the text of one macro argument, a string literal holding a UUID:
/// the constant-construction expression on success, and otherwise a
/// build-failure expression carrying the diagnostic for the earliest
/// problem found.
pub fn uuid(input: &str) -> (r: String)
    ensures
        (match literal_of(input@) {
            Some(Some(v)) => match parse_uuid_spec(v) {
                Ok(bs) => r@ == expression_of(bs),
                Err(u) => r@ == diagnostic_of(message_text(ParseError::MalformedUuid(u), v)),
            },
            Some(None) => r@ == diagnostic_of("expected string literal"@),
            None => r@ == diagnostic_of("expected string literal"@),
        }),
{
    let t = read_literal_token(input);
    let lit = match extract_literal(t) {
        Ok(s) => s,
        Err(e) => {
            let m = message(&e, "");
            return diagnostic(m.as_str());
        },
    };
    match parse_uuid(lit.as_str()) {
        Ok(p) => emit_expression(&p),
        Err(u) => {
            let e = ParseError::MalformedUuid(u);
            let m = message(&e, lit.as_str());
            diagnostic(m.as_str())
        },
    }
}

} // verus!
