//! Tests of the construction pipeline against known GLEIF sample codes.

use lei::{compute_check_digits, parse, validate};

/// This is from the ISIN_LEI_20210209.csv file from GLEIF.
#[test]
fn check_digits() {
    let payload = "635400B4JJBON4TCHF";
    let cd = compute_check_digits(payload.as_bytes());
    assert_eq!(cd[0], 48); // ASCII digit '0'
    assert_eq!(cd[1], 50); // ASCII digit '2'
}

/// These are from the ISIN_LEI_20210209.csv file from GLEIF.
#[test]
fn parse_bulk() {
    let cases = [
        "635400B4JJBON4TCHF02",
        "529900ODI3047E2LIV03",
        "5493002F3N6V3Z14SP04",
        "549300IYKILIU506KA05",
        "JJKC32MCHWDI71265Z06",
        "549300RIPPWJB5Z0FK07",
        "Z2VZBHUMB7PWWJ63I008",
        "FRQ78DFDYWMT3XY6UR09",
        "337KMNHEWWWR6B7Q7W10",
        "549300E9PC51EN656011",
        "5493003WHB7TFLYQFS12",
        "549300C04BJ0G297NC13",
        "T68X8LLAQYRNDV034K14",
        "8HWWA59ZS6Z54QLX6S15",
        "54930018SOOHBHRLWC16",
        "95980020140005346817",
        "549300HMMEWVG3PPQU18",
        "5JQ7W3GWO8J5DAE5WR19",
        "AJ6VL0Z1WDC42KKJZO20",
    ];

    for case in cases.iter() {
        let parsed = parse(case).unwrap();
        assert_eq!(
            *case,
            parsed.to_string(),
            "Successfully parsed {:?} but to_string() didn't match input!",
            case
        );
        let is_valid = validate(case);
        assert_eq!(
            true, is_valid,
            "Successfully parsed {:?} but got false from validate()!",
            case
        );
    }
}

/// These come from the ISIN_LEI_20210209.csv file from GLEIF. Note that
/// according to the ISO standard itself, section 5 "Check digit pair",
/// subsection 5.1 "General": "00, 01 and 99 are not valid LEI check digit
/// pairs" — their assignment is reserved, but they are syntactically valid
/// and this library deliberately accepts them.
#[test]
fn parse_bulk_bad() {
    let cases = [
        "31570010000000045200",
        "3157006B6JVZ5DFMSN00",
        "315700BBRQHDWX6SHZ00",
        "315700G5G24XYL1TXH00",
        "31570010000000048401",
        "31570010000000067801",
        "315700WH3YMKHCVYW201",
    ];

    for case in cases.iter() {
        let parsed = parse(case).unwrap();
        assert_eq!(
            *case,
            parsed.to_string(),
            "Successfully parsed {:?} but to_string() didn't match input!",
            case
        );
        let is_valid = validate(case);
        assert_eq!(
            true, is_valid,
            "Successfully parsed {:?} but got false from validate()!",
            case
        );
    }
}

/// Every parse failure leaves validate() false, and every success leaves it
/// true, on a mixed bag of inputs.
#[test]
fn validate_agrees_with_parse() {
    let cases = [
        "",
        "TOOSHORT",
        "YZ83GD8L7GG84979J516",
        "YZ83GD8L7GG84979J517",
        "yz83gd8l7gg84979j516",
        "635400B4JJBON4TCHF02",
        "  635400B4JJBON4TCHF02  ",
        "635400B4JJBON4TCHF0X",
        "95980020140005346817",
    ];
    for case in cases.iter() {
        assert_eq!(validate(case), parse(case).is_ok(), "disagreement on {:?}", case);
    }
}
