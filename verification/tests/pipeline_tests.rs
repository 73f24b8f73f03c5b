use compiled_uuid::build_uuid;
use compiled_uuid::diagnostic;
use compiled_uuid::uuid;
use compiled_uuid::errors::ParseError;
use compiled_uuid::token::Token;
use compiled_uuid::token::extract_literal;

const SAMPLE_EXPRESSION: &str = "::uuid::Uuid::from_bytes([249u8, 22u8, 140u8, 94u8, \
     206u8, 178u8, 79u8, 170u8, 182u8, 191u8, 50u8, 155u8, 243u8, 159u8, 161u8, 228u8])";

#[test]
fn a_string_literal_token_expands_to_the_expression() {
    let out = uuid("\"F9168C5E-CEB2-4FAA-B6BF-329BF39FA1E4\"");
    assert_eq!(out, SAMPLE_EXPRESSION);
}

#[test]
fn the_urn_form_expands_to_the_same_expression() {
    let out = uuid("\"urn:uuid:F9168C5E-CEB2-4faa-B6BF-329BF39FA1E4\"");
    assert_eq!(out, SAMPLE_EXPRESSION);
}

#[test]
fn the_nil_uuid_expands_to_sixteen_zero_bytes() {
    let out = uuid("\"00000000-0000-0000-0000-000000000000\"");
    assert_eq!(
        out,
        "::uuid::Uuid::from_bytes([0u8, 0u8, 0u8, 0u8, 0u8, 0u8, 0u8, 0u8, \
         0u8, 0u8, 0u8, 0u8, 0u8, 0u8, 0u8, 0u8])"
    );
}

#[test]
fn a_bare_identifier_is_not_a_literal() {
    let out = uuid("uuid_str");
    assert_eq!(out, "compile_error!(\"expected string literal\")");
    assert_eq!(build_uuid("uuid_str"), Err(ParseError::NotALiteral));
}

#[test]
fn a_non_string_literal_is_rejected() {
    let out = uuid("42");
    assert_eq!(out, "compile_error!(\"expected string literal\")");
    assert_eq!(build_uuid("42"), Err(ParseError::NotAString));
}

#[test]
fn a_malformed_uuid_becomes_a_positioned_diagnostic() {
    let out = uuid("\"F9168C5E-ZEB2-4FAA-B6BF-329BF39FA1E4\"");
    assert_eq!(out, "compile_error!(\"invalid character: found 'Z' at 9\")");
}

#[test]
fn escape_sequences_in_the_literal_are_resolved_before_parsing() {
    let out = uuid("\"550e8400-e29b-41d4-a716-44665544000\\u{30}\"");
    assert_eq!(
        out,
        "::uuid::Uuid::from_bytes([85u8, 14u8, 132u8, 0u8, 226u8, 155u8, 65u8, 212u8, \
         167u8, 22u8, 68u8, 102u8, 85u8, 68u8, 0u8, 0u8])"
    );
}

#[test]
fn the_surrounding_quotes_are_not_part_of_the_literal_value() {
    let out = build_uuid("\"550e8400e29b41d4a716446655440000\"");
    assert!(out.is_ok());
}

#[test]
fn an_offending_quote_is_escaped_in_the_diagnostic() {
    let out = uuid("\"550e8400-e29b-41d4-a716-44665544000\\\"\"");
    assert_eq!(out, "compile_error!(\"invalid character: found '\\\"' at 35\")");
}

#[test]
fn diagnostics_escape_backslashes() {
    assert_eq!(diagnostic("a\\b"), "compile_error!(\"a\\\\b\")");
}

#[test]
fn build_uuid_returns_the_expression_for_a_valid_literal() {
    let out = build_uuid("\"F9168C5E-CEB2-4FAA-B6BF-329BF39FA1E4\"").unwrap();
    assert_eq!(out, SAMPLE_EXPRESSION);
}

#[test]
fn build_uuid_surfaces_the_grammar_failure() {
    let err = build_uuid("\"abc\"").unwrap_err();
    match err {
        ParseError::MalformedUuid(u) => {
            assert_eq!(u.position, None);
        },
        _ => panic!("expected a malformed UUID failure"),
    }
}

#[test]
fn extracting_a_string_literal_token_yields_its_value() {
    let token = Token::StringLiteral(String::from("abc"));
    assert_eq!(extract_literal(token), Ok(String::from("abc")));
}

#[test]
fn extracting_a_non_string_literal_token_fails() {
    assert_eq!(extract_literal(Token::OtherLiteral), Err(ParseError::NotAString));
    assert_eq!(extract_literal(Token::NotLiteral), Err(ParseError::NotALiteral));
}

#[test]
fn the_emitted_expression_builds_the_same_uuid_in_the_uuid_crate() {
    let id = uuid::Uuid::from_bytes([
        249, 22, 140, 94, 206, 178, 79, 170, 182, 191, 50, 155, 243, 159, 161, 228,
    ]);
    let parsed = uuid::Uuid::parse_str("F9168C5E-CEB2-4FAA-B6BF-329BF39FA1E4").unwrap();
    assert_eq!(id, parsed);
}

#[test]
fn the_largest_byte_is_emitted_as_255() {
    let out = uuid("\"ffffffff-ffff-ffff-ffff-ffffffffffff\"");
    assert_eq!(
        out,
        "::uuid::Uuid::from_bytes([255u8, 255u8, 255u8, 255u8, 255u8, 255u8, 255u8, 255u8, \
         255u8, 255u8, 255u8, 255u8, 255u8, 255u8, 255u8, 255u8])"
    );
}
