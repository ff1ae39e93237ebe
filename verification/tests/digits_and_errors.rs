//! Tests of the digit expansion iterator and the error renderings.

use lei::digits::DigitsIterator;
use lei::LEIError;

#[test]
fn expansion_passes_digits_through() {
    let payload = b"0912";
    let mut it = DigitsIterator::new(payload);
    let mut out = Vec::new();
    while let Some(d) = it.next() {
        out.push(d);
    }
    assert_eq!(out, b"0912".to_vec());
}

#[test]
fn expansion_splits_letters_into_two_digits() {
    // 'A' is 10, 'Z' is 35; '5' passes through between them.
    let payload = b"A5Z";
    let mut it = DigitsIterator::new(payload);
    let mut out = Vec::new();
    while let Some(d) = it.next() {
        out.push(d);
    }
    assert_eq!(out, b"10535".to_vec());
    // The iterator is exhausted and stays exhausted.
    assert_eq!(it.next(), None);
    assert_eq!(it.next(), None);
}

#[test]
fn expansion_of_example_payload() {
    let payload = b"YZ83";
    let mut it = DigitsIterator::new(payload);
    let mut out = Vec::new();
    while let Some(d) = it.next() {
        out.push(d);
    }
    // Y = 34, Z = 35, then the digits 8 and 3.
    assert_eq!(out, b"343583".to_vec());
}

#[test]
fn debug_renderings() {
    assert_eq!(
        LEIError::InvalidLength { was: 8 }.debug_string(),
        "InvalidLength { was: 8 }"
    );
    assert_eq!(
        LEIError::InvalidPayloadLength { was: 20 }.debug_string(),
        "InvalidPayloadLength { was: 20 }"
    );
    assert_eq!(
        LEIError::InvalidLouIdLength { was: 5 }.debug_string(),
        "InvalidLouIdLength { was: 5 }"
    );
    assert_eq!(
        LEIError::InvalidEntityIdLength { was: 0 }.debug_string(),
        "InvalidEntityIdLength { was: 0 }"
    );
    assert_eq!(
        LEIError::InvalidLouId { was: *b"63-4" }.debug_string(),
        "InvalidLouId { was: \"63-4\" }"
    );
    assert_eq!(
        LEIError::InvalidEntityId { was: *b"00b4jjbon4tchf" }.debug_string(),
        "InvalidEntityId { was: \"00b4jjbon4tchf\" }"
    );
    assert_eq!(
        LEIError::InvalidCheckDigits { was: *b"0X" }.debug_string(),
        "InvalidCheckDigits { was: \"0X\" }"
    );
    assert_eq!(
        LEIError::IncorrectCheckDigits { was: *b"01", expected: *b"02" }.debug_string(),
        "IncorrectCheckDigits { was: \"01\", expected: \"02\" }"
    );
}

#[test]
fn display_renderings() {
    assert_eq!(
        LEIError::InvalidLength { was: 8 }.display_string(),
        "invalid length 8 bytes when expecting 20"
    );
    assert_eq!(
        LEIError::InvalidPayloadLength { was: 107 }.display_string(),
        "invalid Payload length 107 bytes when expecting 18"
    );
    assert_eq!(
        LEIError::InvalidLouIdLength { was: 5 }.display_string(),
        "invalid LOU ID length 5 bytes when expecting 4"
    );
    assert_eq!(
        LEIError::InvalidEntityIdLength { was: 13 }.display_string(),
        "invalid Entity ID length 13 bytes when expecting 14"
    );
    assert_eq!(
        LEIError::InvalidLouId { was: *b"yz83" }.display_string(),
        "prefix \"yz83\" is not 4 uppercase ASCII alphanumeric characters"
    );
    assert_eq!(
        LEIError::InvalidEntityId { was: *b"00B4JJBON4TC F" }.display_string(),
        "basic code \"00B4JJBON4TC F\" is not 14 uppercase ASCII alphanumeric characters"
    );
    assert_eq!(
        LEIError::InvalidCheckDigits { was: *b"0X" }.display_string(),
        "check digits \"0X\" is not two ASCII decimal digits"
    );
    assert_eq!(
        LEIError::IncorrectCheckDigits { was: *b"01", expected: *b"02" }.display_string(),
        "incorrect check digits \"01\" when expecting \"02\""
    );
}

#[test]
fn renderings_replace_unprintable_bytes() {
    // A non-ASCII byte and a control byte are both shown as '?'.
    let e = LEIError::InvalidCheckDigits { was: [0xC3, 0x07] };
    assert_eq!(
        e.debug_string(),
        "InvalidCheckDigits { was: \"??\" }"
    );
}
