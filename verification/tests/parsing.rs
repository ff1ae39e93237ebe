//! Tests of strict and loose parsing, the builders, the accessors, and the
//! exact error values.

use lei::{build_from_parts, build_from_payload, parse, parse_loose, LEIError};

#[test]
fn parse_example_accessors() {
    // Example from Section A.1 of ISO 17442-1:2020.
    let lei = parse("YZ83GD8L7GG84979J516").unwrap();
    assert_eq!(lei.to_string(), "YZ83GD8L7GG84979J516");
    assert_eq!(lei.lou_id(), "YZ83");
    assert_eq!(lei.entity_id(), "GD8L7GG84979J5");
    assert_eq!(lei.payload(), "YZ83GD8L7GG84979J5");
    assert_eq!(lei.check_digits(), "16");
}

#[test]
fn accessors_concatenate_to_whole() {
    let lei = parse("635400B4JJBON4TCHF02").unwrap();
    let mut joined = String::new();
    joined.push_str(lei.lou_id());
    joined.push_str(lei.entity_id());
    joined.push_str(lei.check_digits());
    assert_eq!(joined, lei.to_string());
    let mut joined2 = String::new();
    joined2.push_str(lei.payload());
    joined2.push_str(lei.check_digits());
    assert_eq!(joined2, lei.to_string());
}

#[test]
fn parse_loose_folds_case_and_trims() {
    assert_eq!(
        parse_loose("  yz83gd8l7gg84979j516  "),
        parse("YZ83GD8L7GG84979J516")
    );
}

#[test]
fn parse_checks_the_check_digits() {
    assert!(parse("635400B4JJBON4TCHF02").is_ok());
    assert_eq!(
        parse("635400B4JJBON4TCHF01"),
        Err(LEIError::IncorrectCheckDigits { was: [48, 49], expected: [48, 50] })
    );
}

#[test]
fn parse_rejects_wrong_length() {
    assert_eq!(parse("TOOSHORT"), Err(LEIError::InvalidLength { was: 8 }));
    assert_eq!(parse(""), Err(LEIError::InvalidLength { was: 0 }));
    assert_eq!(
        parse("635400B4JJBON4TCHF023"),
        Err(LEIError::InvalidLength { was: 21 })
    );
}

#[test]
fn lowercase_fails_strict_but_passes_loose() {
    // The first four bytes are digits, so the lowercase letters fall in the
    // Entity ID slice.
    let entity: [u8; 14] = *b"00b4jjbon4tchf";
    assert_eq!(
        parse("635400b4jjbon4tchf02"),
        Err(LEIError::InvalidEntityId { was: entity })
    );
    let loose = parse_loose("635400b4jjbon4tchf02").unwrap();
    assert_eq!(loose.to_string(), "635400B4JJBON4TCHF02");

    // With a lowercase letter among the first four bytes the LOU ID slice is
    // reported instead.
    let lou: [u8; 4] = *b"yz83";
    assert_eq!(
        parse("yz83gd8l7gg84979j516"),
        Err(LEIError::InvalidLouId { was: lou })
    );
}

#[test]
fn parse_rejects_bad_field_bytes() {
    let lou: [u8; 4] = *b"63-4";
    assert_eq!(
        parse("63-400B4JJBON4TCHF02"),
        Err(LEIError::InvalidLouId { was: lou })
    );
    let entity: [u8; 14] = *b"00B4JJBON4TC F";
    assert_eq!(
        parse("635400B4JJBON4TC F02"),
        Err(LEIError::InvalidEntityId { was: entity })
    );
    let cd: [u8; 2] = *b"0X";
    assert_eq!(
        parse("635400B4JJBON4TCHF0X"),
        Err(LEIError::InvalidCheckDigits { was: cd })
    );
}

#[test]
fn build_from_payload_computes_check_digits() {
    let built = build_from_payload("635400B4JJBON4TCHF").unwrap();
    assert_eq!(built.to_string(), "635400B4JJBON4TCHF02");
    assert_eq!(built, parse("635400B4JJBON4TCHF02").unwrap());
}

#[test]
fn build_from_payload_rejects_bad_input() {
    assert_eq!(
        build_from_payload("635400B4JJBON4TCHF02"),
        Err(LEIError::InvalidPayloadLength { was: 20 })
    );
    let lou: [u8; 4] = *b"63x4";
    assert_eq!(
        build_from_payload("63x400B4JJBON4TCHF"),
        Err(LEIError::InvalidLouId { was: lou })
    );
}

#[test]
fn build_from_parts_matches_parse() {
    let built = build_from_parts("6354", "00B4JJBON4TCHF").unwrap();
    assert_eq!(built, parse("635400B4JJBON4TCHF02").unwrap());
    assert_eq!(built.lou_id(), "6354");
    assert_eq!(built.entity_id(), "00B4JJBON4TCHF");
}

#[test]
fn build_from_parts_rejects_bad_input() {
    assert_eq!(
        build_from_parts("63540", "0B4JJBON4TCHF"),
        Err(LEIError::InvalidLouIdLength { was: 5 })
    );
    assert_eq!(
        build_from_parts("6354", "00B4JJBON4TCHF02"),
        Err(LEIError::InvalidEntityIdLength { was: 16 })
    );
    let lou: [u8; 4] = *b"63_4";
    assert_eq!(
        build_from_parts("63_4", "00B4JJBON4TCHF"),
        Err(LEIError::InvalidLouId { was: lou })
    );
    let entity: [u8; 14] = *b"00b4jjbon4tchf";
    assert_eq!(
        build_from_parts("6354", "00b4jjbon4tchf"),
        Err(LEIError::InvalidEntityId { was: entity })
    );
}

#[test]
fn from_str_parses_leniently() {
    let lei: lei::LEI = " yz83gd8l7gg84979j516 ".parse().unwrap();
    assert_eq!(lei.to_string(), "YZ83GD8L7GG84979J516");
}

#[test]
fn non_ascii_input_is_rejected_not_mispartitioned() {
    // 20 bytes, but the non-ASCII bytes land in the LOU ID slice.
    let r = parse("ÄÖ3400B4JJBON4TC02");
    assert!(matches!(r, Err(LEIError::InvalidLouId { .. })));
    // A 19-character string whose UTF-8 encoding is 20 bytes long is measured
    // in bytes, so the length check passes and a field check fails instead.
    let r2 = parse("é35400B4JJBON4TCHF2");
    assert!(matches!(r2, Err(LEIError::InvalidLouId { .. })));
}
