//! The literal extractor: classifies one syntactic token and takes the
//! string value out of a string literal.

use vstd::prelude::*;

use crate::errors::ParseError;

verus! {

/// One syntactic token, reduced to what the extractor reads of it: whether
/// it is a literal, whether that literal is a string, and the string's
/// content with escape sequences already resolved.
pub enum Token {
    /// A string literal and its resolved value.
    StringLiteral(String),
    /// A literal of some non-string kind: a number, a character, a boolean.
    OtherLiteral,
    /// Text that is not a single literal token at all.
    NotLiteral,
}

/// The plain shape of a token: `None` for no literal, `Some(None)` for a
/// non-string literal, `Some(Some(v))` for a string literal with value `v`.
pub open spec fn token_model(t: Token) -> Option<Option<Seq<char>>> {
    match t {
        Token::StringLiteral(s) => Some(Some(s@)),
        Token::OtherLiteral => Some(None),
        Token::NotLiteral => None,
    }
}

/// What the token reader recognizes in the source text `src`, in the shape
/// of `token_model`.
pub uninterp spec fn literal_of(src: Seq<char>) -> Option<Option<Seq<char>>>;

/// Relies on `syn::parse_str::<syn::Lit>` to recognize one literal token in
/// the source text, and on `syn::LitStr::value` to resolve a string
/// literal's escape sequences; both depend on the text alone.
#[verifier::external_body]
pub(crate) fn read_literal_token(src: &str) -> (t: Token)
    ensures
        token_model(t) == literal_of(src@),
{
    match syn::parse_str::<syn::Lit>(src) {
        Ok(syn::Lit::Str(lit)) => Token::StringLiteral(lit.value()),
        Ok(_) => Token::OtherLiteral,
        Err(_) => Token::NotLiteral,
    }
}

/// Extracts the string value from a token: the resolved content of a string
/// literal, and otherwise the failure that names what the token was instead.
pub fn extract_literal(t: Token) -> (r: Result<String, ParseError>)
    ensures
        (match token_model(t) {
            Some(Some(v)) => r matches Ok(s) && s@ == v,
            Some(None) => r == Err::<String, ParseError>(ParseError::NotAString),
            None => r == Err::<String, ParseError>(ParseError::NotALiteral),
        }),
{
    match t {
        Token::StringLiteral(s) => Ok(s),
        Token::OtherLiteral => Err(ParseError::NotAString),
        Token::NotLiteral => Err(ParseError::NotALiteral),
    }
}

} // verus!
