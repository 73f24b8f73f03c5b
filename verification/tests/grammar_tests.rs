use compiled_uuid::errors::MalformedKind;
use compiled_uuid::errors::ParseError;
use compiled_uuid::errors::UuidError;
use compiled_uuid::errors::message;
use compiled_uuid::grammar::parse_uuid;
use compiled_uuid::emit::encode_hyphenated;

const SAMPLE_BYTES: [u8; 16] = [
    249, 22, 140, 94, 206, 178, 79, 170, 182, 191, 50, 155, 243, 159, 161, 228,
];

#[test]
fn decodes_hyphenated_canonical_form() {
    let parsed = parse_uuid("F9168C5E-CEB2-4FAA-B6BF-329BF39FA1E4").unwrap();
    assert_eq!(parsed.bytes, SAMPLE_BYTES.to_vec());
}

#[test]
fn parsed_uuid_always_holds_sixteen_bytes() {
    let parsed = parse_uuid("F9168C5E-CEB2-4FAA-B6BF-329BF39FA1E4").unwrap();
    assert_eq!(parsed.bytes.len(), 16);
}

#[test]
fn urn_prefix_does_not_change_the_bytes() {
    let parsed = parse_uuid("urn:uuid:F9168C5E-CEB2-4faa-B6BF-329BF39FA1E4").unwrap();
    assert_eq!(parsed.bytes, SAMPLE_BYTES.to_vec());
}

#[test]
fn urn_prefix_is_case_insensitive() {
    let plain = parse_uuid("F9168C5E-CEB2-4FAA-B6BF-329BF39FA1E4").unwrap();
    let prefixed = parse_uuid("URN:UUID:F9168C5E-CEB2-4FAA-B6BF-329BF39FA1E4").unwrap();
    assert_eq!(plain.bytes, prefixed.bytes);
}

#[test]
fn braces_do_not_change_the_bytes() {
    let plain = parse_uuid("550e8400-e29b-41d4-a716-446655440000").unwrap();
    let braced = parse_uuid("{550e8400-e29b-41d4-a716-446655440000}").unwrap();
    assert_eq!(plain.bytes, braced.bytes);
}

#[test]
fn prefix_and_braces_together_do_not_change_the_bytes() {
    let plain = parse_uuid("550e8400-e29b-41d4-a716-446655440000").unwrap();
    let both = parse_uuid("urn:uuid:{550e8400-e29b-41d4-a716-446655440000}").unwrap();
    assert_eq!(plain.bytes, both.bytes);
}

#[test]
fn simple_form_decodes_like_the_hyphenated_form() {
    let simple = parse_uuid("550e8400e29b41d4a716446655440000").unwrap();
    let hyphenated = parse_uuid("550e8400-e29b-41d4-a716-446655440000").unwrap();
    assert_eq!(simple.bytes, hyphenated.bytes);
}

#[test]
fn decoding_is_case_insensitive() {
    let upper = parse_uuid("F9168C5E-CEB2-4FAA-B6BF-329BF39FA1E4").unwrap();
    let lower = parse_uuid("f9168c5e-ceb2-4faa-b6bf-329bf39fa1e4").unwrap();
    let mixed = parse_uuid("f9168c5E-cEb2-4Faa-b6bF-329bf39fA1e4").unwrap();
    assert_eq!(upper.bytes, lower.bytes);
    assert_eq!(upper.bytes, mixed.bytes);
}

#[test]
fn invalid_character_is_reported_with_its_offset() {
    let err = parse_uuid("F9168C5E-ZEB2-4FAA-B6BF-329BF39FA1E4").unwrap_err();
    assert_eq!(
        err,
        UuidError { kind: MalformedKind::InvalidCharacter, position: Some(9) }
    );
}

#[test]
fn offset_counts_the_original_text_including_the_prefix() {
    let err = parse_uuid("urn:uuid:F9168C5E-ZEB2-4FAA-B6BF-329BF39FA1E4").unwrap_err();
    assert_eq!(
        err,
        UuidError { kind: MalformedKind::InvalidCharacter, position: Some(18) }
    );
}

#[test]
fn earliest_offending_character_wins() {
    let err = parse_uuid("F9168C5E-ZEB2-4FAA-B6BF-329BF39FA1Z4").unwrap_err();
    assert_eq!(err.position, Some(9));
}

#[test]
fn wrong_length_is_reported_without_a_position() {
    let err = parse_uuid("abc").unwrap_err();
    assert_eq!(err, UuidError { kind: MalformedKind::InvalidLength, position: None });
}

#[test]
fn empty_text_is_a_length_failure() {
    let err = parse_uuid("").unwrap_err();
    assert_eq!(err, UuidError { kind: MalformedKind::InvalidLength, position: None });
}

#[test]
fn missing_hyphen_is_a_group_length_failure() {
    let err = parse_uuid("550e84000e29b-41d4-a716-446655440000").unwrap_err();
    assert_eq!(
        err,
        UuidError { kind: MalformedKind::InvalidGroupLength, position: Some(8) }
    );
}

#[test]
fn misplaced_hyphen_is_an_invalid_character() {
    let err = parse_uuid("550e840-0e29b-41d4-a716-446655440000").unwrap_err();
    assert_eq!(
        err,
        UuidError { kind: MalformedKind::InvalidCharacter, position: Some(7) }
    );
}

#[test]
fn unbalanced_braces_are_rejected() {
    assert!(parse_uuid("{550e8400-e29b-41d4-a716-446655440000").is_err());
    assert!(parse_uuid("550e8400-e29b-41d4-a716-446655440000}").is_err());
}

#[test]
fn reencoding_gives_the_canonical_lowercase_form() {
    let parsed = parse_uuid("F9168C5E-CEB2-4FAA-B6BF-329BF39FA1E4").unwrap();
    assert_eq!(encode_hyphenated(&parsed), "f9168c5e-ceb2-4faa-b6bf-329bf39fa1e4");
}

#[test]
fn reencoding_the_simple_form_restores_the_hyphens() {
    let parsed = parse_uuid("550e8400e29b41d4a716446655440000").unwrap();
    assert_eq!(encode_hyphenated(&parsed), "550e8400-e29b-41d4-a716-446655440000");
}

#[test]
fn invalid_character_message_names_the_character_and_offset() {
    let literal = "F9168C5E-ZEB2-4FAA-B6BF-329BF39FA1E4";
    let err = ParseError::MalformedUuid(parse_uuid(literal).unwrap_err());
    assert_eq!(message(&err, literal), "invalid character: found 'Z' at 9");
}

#[test]
fn group_length_message_names_the_character_and_offset() {
    let literal = "550e84000e29b-41d4-a716-446655440000";
    let err = ParseError::MalformedUuid(parse_uuid(literal).unwrap_err());
    assert_eq!(message(&err, literal), "invalid group length: found '0' at 8");
}

#[test]
fn length_message_carries_no_position() {
    let literal = "abc";
    let err = ParseError::MalformedUuid(parse_uuid(literal).unwrap_err());
    assert_eq!(message(&err, literal), "invalid length");
}

#[test]
fn decoding_agrees_with_the_uuid_crate() {
    let inputs = [
        "F9168C5E-CEB2-4FAA-B6BF-329BF39FA1E4",
        "urn:uuid:F9168C5E-CEB2-4faa-B6BF-329BF39FA1E4",
        "550e8400e29b41d4a716446655440000",
        "{550e8400-e29b-41d4-a716-446655440000}",
        "00000000-0000-0000-0000-000000000000",
        "ffffffff-ffff-ffff-ffff-ffffffffffff",
    ];
    for input in inputs {
        let ours = parse_uuid(input).unwrap();
        let theirs = uuid::Uuid::parse_str(input).unwrap();
        assert_eq!(ours.bytes.as_slice(), theirs.as_bytes());
    }
}

#[test]
fn rejections_agree_with_the_uuid_crate() {
    let inputs = [
        "F9168C5E-ZEB2-4FAA-B6BF-329BF39FA1E4",
        "abc",
        "",
        "550e840-0e29b-41d4-a716-446655440000",
        "{550e8400-e29b-41d4-a716-446655440000",
    ];
    for input in inputs {
        assert!(parse_uuid(input).is_err());
        assert!(uuid::Uuid::parse_str(input).is_err());
    }
}

#[test]
fn empty_braces_are_a_length_failure() {
    let err = parse_uuid("{}").unwrap_err();
    assert_eq!(err, UuidError { kind: MalformedKind::InvalidLength, position: None });
}

#[test]
fn a_bare_prefix_is_a_length_failure() {
    let err = parse_uuid("urn:uuid:").unwrap_err();
    assert_eq!(err, UuidError { kind: MalformedKind::InvalidLength, position: None });
}
