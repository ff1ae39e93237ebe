//! Validated Legal Entity Identifiers (LEIs) as defined in ISO 17442-1:2020
//! "Financial services — Legal entity identifier (LEI)".
//!
//! An LEI is a 20-character ASCII string: a 4-character uppercase alphanumeric
//! LOU ID naming the Local Operating Unit that issued it, a 14-character
//! uppercase alphanumeric Entity ID assigned by that LOU, and a 2-digit check
//! pair computed with the ISO/IEC 7064 MOD 97-10 check character system over a
//! letter-to-decimal expansion of the first 18 characters.
//!
//! The `parse` and `parse_loose` functions turn a string into a validated
//! [`LEI`]; `build_from_payload` and `build_from_parts` construct one with the
//! check digits computed; `validate` answers yes or no without building a
//! value.

pub mod ascii;
pub mod checksum;
pub mod digits;
pub mod error;

pub use checksum::compute_check_digits;
pub use error::LEIError;

use crate::ascii::{
    all_ascii_bytes, all_digit_bytes, all_upper_alnum_bytes, ascii_chars_of, ascii_string,
    is_digit_byte, is_upper_alnum_byte, lemma_ascii_bytes_chars, lemma_ascii_chars_bytes,
    BYTE_DIGIT_0, BYTE_DIGIT_9, BYTE_UPPER_A, BYTE_UPPER_Z,
};
use crate::checksum::{checksum_available, spec_check_digits};
use vstd::prelude::*;
use vstd::slice::slice_subrange;
use vstd::string::{StrSliceExecFns, StringSliceAdditionalSpecFns};
use vstd::utf8::{decode_utf8, encode_utf8, is_ascii_chars};

verus! {

/// The 20 bytes of a conforming LEI: a 4-byte upper-alphanumeric LOU ID, a
/// 14-byte upper-alphanumeric Entity ID, and the 2 decimal check digit bytes
/// that the MOD 97-10 checksum of the first 18 bytes spells.
pub open spec fn valid_lei_bytes(b: Seq<u8>) -> bool {
    &&& b.len() == 20
    &&& all_upper_alnum_bytes(b.subrange(0, 4))
    &&& all_upper_alnum_bytes(b.subrange(4, 18))
    &&& all_digit_bytes(b.subrange(18, 20))
    &&& b.subrange(18, 20) == spec_check_digits(b.subrange(0, 18))
}

/// What strict parsing returns for an input whose UTF-8 encoding is `b`: the
/// checks run in a fixed order and the first failing one names the error.
pub open spec fn spec_parse_result(b: Seq<u8>, r: Result<LEI, LEIError>) -> bool {
    if b.len() != 20 {
        r matches Err(LEIError::InvalidLength { was }) && was as nat == b.len()
    } else if !all_upper_alnum_bytes(b.subrange(0, 4)) {
        r matches Err(LEIError::InvalidLouId { was }) && was@ == b.subrange(0, 4)
    } else if !all_upper_alnum_bytes(b.subrange(4, 18)) {
        r matches Err(LEIError::InvalidEntityId { was }) && was@ == b.subrange(4, 18)
    } else if !all_digit_bytes(b.subrange(18, 20)) {
        r matches Err(LEIError::InvalidCheckDigits { was }) && was@ == b.subrange(18, 20)
    } else {
        &&& checksum_available(b.subrange(0, 18))
        &&& if b.subrange(18, 20) == spec_check_digits(b.subrange(0, 18)) {
            r matches Ok(lei) && lei@ == b
        } else {
            r matches Err(LEIError::IncorrectCheckDigits { was, expected }) && was@ == b.subrange(
                18,
                20,
            ) && expected@ == spec_check_digits(b.subrange(0, 18))
        }
    }
}

/// What building from an 18-byte payload returns: length first, then the two
/// field formats, then assembly with freshly computed check digits.
pub open spec fn spec_build_payload_result(b: Seq<u8>, r: Result<LEI, LEIError>) -> bool {
    if b.len() != 18 {
        r matches Err(LEIError::InvalidPayloadLength { was }) && was as nat == b.len()
    } else if !all_upper_alnum_bytes(b.subrange(0, 4)) {
        r matches Err(LEIError::InvalidLouId { was }) && was@ == b.subrange(0, 4)
    } else if !all_upper_alnum_bytes(b.subrange(4, 18)) {
        r matches Err(LEIError::InvalidEntityId { was }) && was@ == b.subrange(4, 18)
    } else {
        &&& checksum_available(b)
        &&& r matches Ok(lei) && lei@ == b + spec_check_digits(b)
    }
}

/// What building from a LOU ID and an Entity ID returns: each part's length
/// and format are checked in turn, then the code is assembled with freshly
/// computed check digits.
pub open spec fn spec_build_parts_result(
    lou: Seq<u8>,
    entity: Seq<u8>,
    r: Result<LEI, LEIError>,
) -> bool {
    if lou.len() != 4 {
        r matches Err(LEIError::InvalidLouIdLength { was }) && was as nat == lou.len()
    } else if !all_upper_alnum_bytes(lou) {
        r matches Err(LEIError::InvalidLouId { was }) && was@ == lou
    } else if entity.len() != 14 {
        r matches Err(LEIError::InvalidEntityIdLength { was }) && was as nat == entity.len()
    } else if !all_upper_alnum_bytes(entity) {
        r matches Err(LEIError::InvalidEntityId { was }) && was@ == entity
    } else {
        &&& checksum_available(lou + entity)
        &&& r matches Ok(lei) && lei@ == lou + entity + spec_check_digits(lou + entity)
    }
}

/// An LEI in confirmed valid format.
///
/// A value of this type exists only as the successful result of [`parse`],
/// [`parse_loose`], [`build_from_payload`] or [`build_from_parts`]; there is
/// no public constructor and no mutation.
#[derive(Debug, Hash, PartialEq, Eq, PartialOrd, Ord)]
pub struct LEI {
    code: String,
}

impl Clone for LEI {
    /// A clone renders exactly as the original.
    fn clone(&self) -> (r: Self)
        ensures
            r@ == self@,
    {
        proof {
            use_type_invariant(&*self);
        }
        LEI { code: self.code.clone() }
    }
}

impl View for LEI {
    type V = Seq<u8>;

    closed spec fn view(&self) -> Seq<u8> {
        encode_utf8(self.code@)
    }
}

impl LEI {
    /// The stored code is ASCII and its bytes satisfy the LEI invariant.
    #[verifier::type_invariant]
    closed spec fn inv(self) -> bool {
        &&& is_ascii_chars(self.code@)
        &&& valid_lei_bytes(encode_utf8(self.code@))
    }

    /// Package bytes that passed every check; private to this module.
    fn from_valid_bytes(bytes: Vec<u8>) -> (lei: LEI)
        requires
            valid_lei_bytes(bytes@),
        ensures
            lei@ == bytes@,
    {
        proof {
            lemma_valid_lei_ascii(bytes@);
        }
        let ghost bs = bytes@;
        let code = ascii_string(bytes);
        LEI { code }
    }

    /// The full 20-character code as a string.
    pub fn to_string(&self) -> (r: String)
        ensures
            valid_lei_bytes(self@),
            r@ == ascii_chars_of(self@),
    {
        proof {
            use_type_invariant(&*self);
            lemma_ascii_chars_bytes(self.code@);
        }
        self.code.clone()
    }

    /// Return just the LOU ID portion of the LEI.
    pub fn lou_id(&self) -> (r: &str)
        ensures
            valid_lei_bytes(self@),
            r@ == ascii_chars_of(self@.subrange(0, 4)),
    {
        proof {
            use_type_invariant(&*self);
            self.field_chars(0, 4);
        }
        self.code.as_str().substring_ascii(0, 4)
    }

    /// Return just the Entity ID portion of the LEI.
    pub fn entity_id(&self) -> (r: &str)
        ensures
            valid_lei_bytes(self@),
            r@ == ascii_chars_of(self@.subrange(4, 18)),
    {
        proof {
            use_type_invariant(&*self);
            self.field_chars(4, 18);
        }
        self.code.as_str().substring_ascii(4, 18)
    }

    /// Return the payload: everything except the check digits.
    pub fn payload(&self) -> (r: &str)
        ensures
            valid_lei_bytes(self@),
            r@ == ascii_chars_of(self@.subrange(0, 18)),
    {
        proof {
            use_type_invariant(&*self);
            self.field_chars(0, 18);
        }
        self.code.as_str().substring_ascii(0, 18)
    }

    /// Return just the check digit portion of the LEI.
    pub fn check_digits(&self) -> (r: &str)
        ensures
            valid_lei_bytes(self@),
            r@ == ascii_chars_of(self@.subrange(18, 20)),
    {
        proof {
            use_type_invariant(&*self);
            self.field_chars(18, 20);
        }
        self.code.as_str().substring_ascii(18, 20)
    }

    /// A slice of the stored characters denotes the matching slice of the
    /// code's bytes.
    proof fn field_chars(&self, from: int, to: int)
        requires
            self.inv(),
            0 <= from <= to <= 20,
        ensures
            valid_lei_bytes(self@),
            is_ascii_chars(self.code@),
            self.code@.len() == 20,
            self.code@.subrange(from, to) == ascii_chars_of(self@.subrange(from, to)),
    {
        lemma_ascii_chars_bytes(self.code@);
        assert(self.code@.subrange(from, to) =~= ascii_chars_of(self@.subrange(from, to)));
    }
}

/// The bytes of a valid LEI are plain ASCII.
pub proof fn lemma_valid_lei_ascii(b: Seq<u8>)
    requires
        valid_lei_bytes(b),
    ensures
        all_ascii_bytes(b),
{
    assert forall|i: int| 0 <= i < b.len() implies #[trigger] b[i] < 128 by {
        if i < 4 {
            assert(b[i] == b.subrange(0, 4)[i]);
        } else if i < 18 {
            assert(b[i] == b.subrange(4, 18)[i - 4]);
        } else {
            assert(b[i] == b.subrange(18, 20)[i - 18]);
        }
    }
}

/// Check that a LOU ID slice is 4 uppercase alphanumeric ASCII bytes,
/// reporting the offending bytes otherwise.
pub fn validate_lou_id_format(li: &[u8]) -> (r: Result<(), LEIError>)
    requires
        li@.len() == 4,
    ensures
        r is Ok <==> all_upper_alnum_bytes(li@),
        r matches Err(e) ==> e matches LEIError::InvalidLouId { was } && was@ == li@,
{
    if scan_upper_alnum(li).is_some() {
        let was: [u8; 4] = [li[0], li[1], li[2], li[3]];
        proof {
            assert(was@ =~= li@);
        }
        Err(LEIError::InvalidLouId { was })
    } else {
        Ok(())
    }
}

/// Check that an Entity ID slice is 14 uppercase alphanumeric ASCII bytes,
/// reporting the offending bytes otherwise.
pub fn validate_entity_id_format(ei: &[u8]) -> (r: Result<(), LEIError>)
    requires
        ei@.len() == 14,
    ensures
        r is Ok <==> all_upper_alnum_bytes(ei@),
        r matches Err(e) ==> e matches LEIError::InvalidEntityId { was } && was@ == ei@,
{
    if scan_upper_alnum(ei).is_some() {
        let was: [u8; 14] = [
            ei[0],
            ei[1],
            ei[2],
            ei[3],
            ei[4],
            ei[5],
            ei[6],
            ei[7],
            ei[8],
            ei[9],
            ei[10],
            ei[11],
            ei[12],
            ei[13],
        ];
        proof {
            assert(was@ =~= ei@);
        }
        Err(LEIError::InvalidEntityId { was })
    } else {
        Ok(())
    }
}

/// Check that a check digit slice is 2 ASCII decimal digit bytes, reporting
/// the offending bytes otherwise.
pub fn validate_check_digits_format(cd: &[u8]) -> (r: Result<(), LEIError>)
    requires
        cd@.len() == 2,
    ensures
        r is Ok <==> all_digit_bytes(cd@),
        r matches Err(e) ==> e matches LEIError::InvalidCheckDigits { was } && was@ == cd@,
{
    let mut i: usize = 0;
    while i < cd.len()
        invariant
            cd@.len() == 2,
            i <= 2,
            forall|j: int| 0 <= j < i ==> is_digit_byte(#[trigger] cd@[j]),
        decreases cd@.len() - i,
    {
        let b = cd[i];
        if !(BYTE_DIGIT_0 <= b && b <= BYTE_DIGIT_9) {
            let was: [u8; 2] = [cd[0], cd[1]];
            proof {
                assert(was@ =~= cd@);
            }
            return Err(LEIError::InvalidCheckDigits { was });
        }
        i = i + 1;
    }
    Ok(())
}

/// Find the position of the first byte that is not an ASCII digit or
/// uppercase letter, if any.
fn scan_upper_alnum(s: &[u8]) -> (r: Option<usize>)
    ensures
        r is None <==> all_upper_alnum_bytes(s@),
        r matches Some(i) ==> i < s@.len() && !is_upper_alnum_byte(s@[i as int]),
{
    let mut i: usize = 0;
    while i < s.len()
        invariant
            i <= s@.len(),
            forall|j: int| 0 <= j < i ==> is_upper_alnum_byte(#[trigger] s@[j]),
        decreases s@.len() - i,
    {
        let b = s[i];
        let is_digit = BYTE_DIGIT_0 <= b && b <= BYTE_DIGIT_9;
        let is_upper = BYTE_UPPER_A <= b && b <= BYTE_UPPER_Z;
        if !(is_digit || is_upper) {
            return Some(i);
        }
        i = i + 1;
    }
    None
}

/// Parse a string to a valid LEI or an error, requiring the string to already
/// be exactly 20 uppercase alphanumeric ASCII characters whose decimal check
/// digits match the checksum of the first 18.
pub fn parse(value: &str) -> (r: Result<LEI, LEIError>)
    ensures
        spec_parse_result(value.spec_bytes(), r),
{
    let bytes: Vec<u8> = value.as_bytes_vec();
    let ghost b = bytes@;
    if bytes.len() != 20 {
        return Err(LEIError::InvalidLength { was: bytes.len() });
    }
    let lou_id = slice_subrange(bytes.as_slice(), 0, 4);
    match validate_lou_id_format(lou_id) {
        Err(e) => {
            return Err(e);
        },
        Ok(()) => {},
    }
    let entity_id = slice_subrange(bytes.as_slice(), 4, 18);
    match validate_entity_id_format(entity_id) {
        Err(e) => {
            return Err(e);
        },
        Ok(()) => {},
    }
    let check_digits = slice_subrange(bytes.as_slice(), 18, 20);
    match validate_check_digits_format(check_digits) {
        Err(e) => {
            return Err(e);
        },
        Ok(()) => {},
    }
    let payload = slice_subrange(bytes.as_slice(), 0, 18);
    proof {
        lemma_joined_fields_alnum(b);
    }
    let computed = compute_check_digits(payload);
    let cd0 = check_digits[0];
    let cd1 = check_digits[1];
    if cd0 != computed[0] || cd1 != computed[1] {
        let was: [u8; 2] = [cd0, cd1];
        proof {
            assert(was@ =~= b.subrange(18, 20));
            assert(b.subrange(18, 20) != spec_check_digits(b.subrange(0, 18)));
        }
        return Err(LEIError::IncorrectCheckDigits { was, expected: computed });
    }
    proof {
        assert(b.subrange(18, 20) =~= spec_check_digits(b.subrange(0, 18)));
    }
    Ok(LEI::from_valid_bytes(bytes))
}

/// The LOU ID and Entity ID fields are upper-alphanumeric exactly when the
/// whole 18-byte payload is.
proof fn lemma_joined_fields_alnum(b: Seq<u8>)
    requires
        b.len() >= 18,
        all_upper_alnum_bytes(b.subrange(0, 4)),
        all_upper_alnum_bytes(b.subrange(4, 18)),
    ensures
        all_upper_alnum_bytes(b.subrange(0, 18)),
{
    let p = b.subrange(0, 18);
    assert forall|i: int| 0 <= i < 18 implies is_upper_alnum_byte(#[trigger] p[i]) by {
        if i < 4 {
            assert(p[i] == b.subrange(0, 4)[i]);
        } else {
            assert(p[i] == b.subrange(4, 18)[i - 4]);
        }
    }
}

/// Test whether the passed string is a valid LEI, without producing a value.
pub fn validate(value: &str) -> (r: bool)
    ensures
        r == valid_lei_bytes(value.spec_bytes()),
{
    let bytes: Vec<u8> = value.as_bytes_vec();
    let ghost b = bytes@;
    if bytes.len() != 20 {
        return false;
    }
    let lou_id = slice_subrange(bytes.as_slice(), 0, 4);
    if validate_lou_id_format(lou_id).is_err() {
        return false;
    }
    let entity_id = slice_subrange(bytes.as_slice(), 4, 18);
    if validate_entity_id_format(entity_id).is_err() {
        return false;
    }
    let check_digits = slice_subrange(bytes.as_slice(), 18, 20);
    if validate_check_digits_format(check_digits).is_err() {
        return false;
    }
    let payload = slice_subrange(bytes.as_slice(), 0, 18);
    proof {
        lemma_joined_fields_alnum(b);
    }
    let computed = compute_check_digits(payload);
    if check_digits[0] != computed[0] {
        proof {
            assert(b.subrange(18, 20) != spec_check_digits(b.subrange(0, 18)));
        }
        return false;
    }
    if check_digits[1] != computed[1] {
        proof {
            assert(b.subrange(18, 20) != spec_check_digits(b.subrange(0, 18)));
        }
        return false;
    }
    proof {
        assert(b.subrange(18, 20) =~= spec_check_digits(b.subrange(0, 18)));
    }
    true
}

/// Build an LEI from a payload (an already-concatenated LOU ID and Entity
/// ID). The check digits are computed, so they are consistent by
/// construction.
pub fn build_from_payload(payload: &str) -> (r: Result<LEI, LEIError>)
    ensures
        spec_build_payload_result(payload.spec_bytes(), r),
{
    let mut bytes: Vec<u8> = payload.as_bytes_vec();
    let ghost b = bytes@;
    if bytes.len() != 18 {
        return Err(LEIError::InvalidPayloadLength { was: bytes.len() });
    }
    let lou_id = slice_subrange(bytes.as_slice(), 0, 4);
    match validate_lou_id_format(lou_id) {
        Err(e) => {
            return Err(e);
        },
        Ok(()) => {},
    }
    let entity_id = slice_subrange(bytes.as_slice(), 4, 18);
    match validate_entity_id_format(entity_id) {
        Err(e) => {
            return Err(e);
        },
        Ok(()) => {},
    }
    proof {
        lemma_joined_fields_alnum(b);
        assert(b.subrange(0, 18) =~= b);
    }
    let computed = compute_check_digits(bytes.as_slice());
    bytes.push(computed[0]);
    bytes.push(computed[1]);
    proof {
        assert(bytes@ =~= b + spec_check_digits(b));
        lemma_assembled_bytes_valid(b, bytes@);
    }
    Ok(LEI::from_valid_bytes(bytes))
}

/// Build an LEI from its parts: a LOU ID and an Entity ID. The check digits
/// are computed, so they are consistent by construction.
pub fn build_from_parts(lou_id: &str, entity_id: &str) -> (r: Result<LEI, LEIError>)
    ensures
        spec_build_parts_result(lou_id.spec_bytes(), entity_id.spec_bytes(), r),
{
    let mut bytes: Vec<u8> = lou_id.as_bytes_vec();
    let ghost lb = bytes@;
    if bytes.len() != 4 {
        return Err(LEIError::InvalidLouIdLength { was: bytes.len() });
    }
    match validate_lou_id_format(bytes.as_slice()) {
        Err(e) => {
            return Err(e);
        },
        Ok(()) => {},
    }
    let mut entity_bytes: Vec<u8> = entity_id.as_bytes_vec();
    let ghost eb = entity_bytes@;
    if entity_bytes.len() != 14 {
        return Err(LEIError::InvalidEntityIdLength { was: entity_bytes.len() });
    }
    match validate_entity_id_format(entity_bytes.as_slice()) {
        Err(e) => {
            return Err(e);
        },
        Ok(()) => {},
    }
    bytes.append(&mut entity_bytes);
    let ghost b = bytes@;
    proof {
        assert(b =~= lb + eb);
        assert(b.subrange(0, 4) =~= lb);
        assert(b.subrange(4, 18) =~= eb);
        lemma_joined_fields_alnum(b);
        assert(b.subrange(0, 18) =~= b);
    }
    let computed = compute_check_digits(bytes.as_slice());
    bytes.push(computed[0]);
    bytes.push(computed[1]);
    proof {
        assert(bytes@ =~= b + spec_check_digits(b));
        lemma_assembled_bytes_valid(b, bytes@);
    }
    Ok(LEI::from_valid_bytes(bytes))
}

impl core::str::FromStr for LEI {
    type Err = LEIError;

    /// Parse leniently, as `parse_loose` does.
    fn from_str(s: &str) -> (r: Result<LEI, LEIError>)
        ensures
            spec_parse_result(encode_utf8(spec_trim(spec_to_ascii_uppercase(s@))), r),
    {
        parse_loose(s)
    }
}

/// Uppercase folding of one character, as ASCII sees it: `'a'` through `'z'`
/// map to `'A'` through `'Z'`, every other character is unchanged.
pub open spec fn spec_upper_char(c: char) -> char {
    if 'a' <= c <= 'z' {
        ((c as u32) - 32) as char
    } else {
        c
    }
}

/// ASCII uppercase folding of a whole string.
pub open spec fn spec_to_ascii_uppercase(s: Seq<char>) -> Seq<char> {
    Seq::new(s.len(), |i: int| spec_upper_char(s[i]))
}

/// A character with the Unicode `White_Space` property, exactly as
/// `char::is_whitespace` decides it: the answer depends on the character
/// alone.
pub uninterp spec fn is_unicode_whitespace(c: char) -> bool;

/// `s` without its longest all-whitespace prefix.
pub open spec fn spec_trim_start(s: Seq<char>) -> Seq<char>
    decreases s.len(),
{
    if s.len() > 0 && is_unicode_whitespace(s[0]) {
        spec_trim_start(s.drop_first())
    } else {
        s
    }
}

/// `s` without its longest all-whitespace suffix.
pub open spec fn spec_trim_end(s: Seq<char>) -> Seq<char>
    decreases s.len(),
{
    if s.len() > 0 && is_unicode_whitespace(s.last()) {
        spec_trim_end(s.drop_last())
    } else {
        s
    }
}

/// `s` without leading and trailing whitespace.
pub open spec fn spec_trim(s: Seq<char>) -> Seq<char> {
    spec_trim_end(spec_trim_start(s))
}

/// Relies on `str::to_ascii_uppercase`: ASCII lowercase letters are mapped to
/// their uppercase counterparts and every other character is left unchanged.
#[verifier::external_body]
fn to_ascii_uppercase_str(value: &str) -> (r: String)
    ensures
        r@ == spec_to_ascii_uppercase(value@),
{
    value.to_ascii_uppercase()
}

/// Relies on `str::trim`: returns the input without leading and trailing
/// whitespace, whitespace being what `char::is_whitespace` accepts.
#[verifier::external_body]
fn trim_str(value: &str) -> (r: String)
    ensures
        r@ == spec_trim(value@),
        r@.len() > 0 ==> !is_unicode_whitespace(r@[0]) && !is_unicode_whitespace(r@.last()),
{
    value.trim().to_owned()
}

/// Parse a string to a valid LEI or an error, allowing leading and trailing
/// whitespace and lowercase letters: the input is uppercased, trimmed, and
/// handed to strict [`parse`]. No other normalization is applied.
pub fn parse_loose(value: &str) -> (r: Result<LEI, LEIError>)
    ensures
        spec_parse_result(encode_utf8(spec_trim(spec_to_ascii_uppercase(value@))), r),
{
    let upper = to_ascii_uppercase_str(value);
    let trimmed = trim_str(upper.as_str());
    parse(trimmed.as_str())
}

/// An 18-byte upper-alphanumeric payload followed by its own check digit
/// pair is a valid LEI.
proof fn lemma_assembled_bytes_valid(b: Seq<u8>, whole: Seq<u8>)
    requires
        b.len() == 18,
        all_upper_alnum_bytes(b.subrange(0, 4)),
        all_upper_alnum_bytes(b.subrange(4, 18)),
        checksum_available(b),
        whole == b + spec_check_digits(b),
    ensures
        valid_lei_bytes(whole),
{
    crate::checksum::lemma_check_digits_form(b);
    assert(whole.len() == 20);
    assert(whole.subrange(0, 4) =~= b.subrange(0, 4));
    assert(whole.subrange(4, 18) =~= b.subrange(4, 18));
    assert(whole.subrange(18, 20) =~= spec_check_digits(b));
    assert(whole.subrange(0, 18) =~= b);
}

/// Round trip: for every string on which strict parsing succeeds, rendering
/// the parsed value (as `to_string` does) gives back exactly the input.
pub proof fn lemma_parse_round_trip(s: Seq<char>, lei: LEI, rendered: Seq<char>)
    requires
        spec_parse_result(encode_utf8(s), Result::<LEI, LEIError>::Ok(lei)),
        rendered == ascii_chars_of(lei@),
    ensures
        rendered == s,
{
    broadcast use vstd::utf8::encode_utf8_decode_utf8;

    let b = encode_utf8(s);
    assert(lei@ == b);
    assert(valid_lei_bytes(b));
    lemma_valid_lei_ascii(b);
    lemma_ascii_bytes_chars(b);
    assert(decode_utf8(encode_utf8(s)) == s);
}

/// Boolean/result agreement: the boolean validator accepts exactly the
/// strings on which strict parsing succeeds.
pub proof fn lemma_validate_matches_parse(b: Seq<u8>, r: Result<LEI, LEIError>)
    requires
        spec_parse_result(b, r),
    ensures
        (r is Ok) == valid_lei_bytes(b),
{
}

/// Field concatenation: the LOU ID, Entity ID and check digits of a valid
/// LEI, rendered in order, spell the full code; so do the payload and the
/// check digits.
pub proof fn lemma_fields_concat(b: Seq<u8>)
    requires
        valid_lei_bytes(b),
    ensures
        ascii_chars_of(b.subrange(0, 4)) + ascii_chars_of(b.subrange(4, 18)) + ascii_chars_of(
            b.subrange(18, 20),
        ) == ascii_chars_of(b),
        ascii_chars_of(b.subrange(0, 18)) + ascii_chars_of(b.subrange(18, 20)) == ascii_chars_of(b),
{
    assert(ascii_chars_of(b.subrange(0, 4)) + ascii_chars_of(b.subrange(4, 18)) + ascii_chars_of(
        b.subrange(18, 20),
    ) =~= ascii_chars_of(b));
    assert(ascii_chars_of(b.subrange(0, 18)) + ascii_chars_of(b.subrange(18, 20))
        =~= ascii_chars_of(b));
}

/// Building from parts agrees with strict parsing of the code assembled from
/// those parts and their computed check digits: both succeed and yield the
/// same value.
pub proof fn lemma_build_parts_matches_parse(
    lou: Seq<u8>,
    entity: Seq<u8>,
    r1: Result<LEI, LEIError>,
    r2: Result<LEI, LEIError>,
)
    requires
        lou.len() == 4,
        all_upper_alnum_bytes(lou),
        entity.len() == 14,
        all_upper_alnum_bytes(entity),
        spec_build_parts_result(lou, entity, r1),
        spec_parse_result(lou + entity + spec_check_digits(lou + entity), r2),
    ensures
        r1 is Ok,
        r2 is Ok,
        r1->Ok_0@ == r2->Ok_0@,
{
    let p = lou + entity;
    crate::checksum::lemma_check_digits_form(p);
    let b = p + spec_check_digits(p);
    assert(b.len() == 20);
    assert(b.subrange(0, 4) =~= lou);
    assert(b.subrange(4, 18) =~= entity);
    assert(b.subrange(18, 20) =~= spec_check_digits(p));
    assert(b.subrange(0, 18) =~= p);
}

} // verus!
