//! Byte-level character classes for LEI fields, and the correspondence
//! between sequences of ASCII bytes and the strings they denote.

use vstd::prelude::*;
use vstd::utf8::*;

verus! {

/// The byte value of the ASCII character `'0'`.
pub const BYTE_DIGIT_0: u8 = 48;

/// The byte value of the ASCII character `'9'`.
pub const BYTE_DIGIT_9: u8 = 57;

/// The byte value of the ASCII character `'A'`.
pub const BYTE_UPPER_A: u8 = 65;

/// The byte value of the ASCII character `'Z'`.
pub const BYTE_UPPER_Z: u8 = 90;

/// An ASCII decimal digit byte, `'0'` through `'9'`.
pub open spec fn is_digit_byte(b: u8) -> bool {
    BYTE_DIGIT_0 <= b <= BYTE_DIGIT_9
}

/// An ASCII uppercase letter byte, `'A'` through `'Z'`.
pub open spec fn is_upper_letter_byte(b: u8) -> bool {
    BYTE_UPPER_A <= b <= BYTE_UPPER_Z
}

/// A byte allowed in the LOU ID and Entity ID fields: an ASCII decimal digit
/// or an ASCII uppercase letter.
pub open spec fn is_upper_alnum_byte(b: u8) -> bool {
    is_digit_byte(b) || is_upper_letter_byte(b)
}

/// Every byte of the sequence is an ASCII decimal digit.
pub open spec fn all_digit_bytes(s: Seq<u8>) -> bool {
    forall|i: int| 0 <= i < s.len() ==> is_digit_byte(#[trigger] s[i])
}

/// Every byte of the sequence is an ASCII decimal digit or uppercase letter.
pub open spec fn all_upper_alnum_bytes(s: Seq<u8>) -> bool {
    forall|i: int| 0 <= i < s.len() ==> is_upper_alnum_byte(#[trigger] s[i])
}

/// Every byte of the sequence is below 128, i.e. the sequence is plain ASCII.
pub open spec fn all_ascii_bytes(s: Seq<u8>) -> bool {
    forall|i: int| 0 <= i < s.len() ==> #[trigger] s[i] < 128
}

/// The characters denoted by a sequence of ASCII bytes, byte for byte.
pub open spec fn ascii_chars_of(s: Seq<u8>) -> Seq<char> {
    Seq::new(s.len(), |i: int| (s[i] as u32) as char)
}

/// A sequence of plain ASCII bytes is valid UTF-8, and the string it encodes
/// is exactly its bytes read as characters.
pub proof fn lemma_ascii_bytes_chars(s: Seq<u8>)
    requires
        all_ascii_bytes(s),
    ensures
        valid_utf8(s),
        decode_utf8(s) =~= ascii_chars_of(s),
        encode_utf8(ascii_chars_of(s)) =~= s,
        is_ascii_chars(ascii_chars_of(s)),
    decreases s.len(),
{
    broadcast use decode_utf8_encode_utf8;

    if s.len() == 0 {
    } else {
        let b = s[0];
        assert((b & 0x7f) == b && b < 0xd800) by (bit_vector)
            requires
                b < 128,
        ;
        assert(valid_first_scalar(s));
        assert(length_of_first_scalar(s) == 1);
        assert(pop_first_scalar(s) =~= s.drop_first());
        lemma_ascii_bytes_chars(s.drop_first());
        assert(valid_utf8(s));
        let c = (b as u32) as char;
        assert(c as u32 == b as u32);
        assert(decode_utf8(s) =~= seq![c] + decode_utf8(s.drop_first()));
        assert(decode_utf8(s) =~= ascii_chars_of(s));
        assert(encode_utf8(ascii_chars_of(s)) =~= s);
        assert(is_ascii_chars(ascii_chars_of(s)));
    }
}

/// Relies on `String::from_utf8`: on bytes that are valid UTF-8 it returns
/// the string whose encoding is exactly those bytes.
#[verifier::external_body]
fn string_from_valid_utf8(bytes: Vec<u8>) -> (r: String)
    requires
        valid_utf8(bytes@),
    ensures
        encode_utf8(r@) == bytes@,
{
    match String::from_utf8(bytes) {
        Ok(s) => s,
        Err(_) => String::new(),
    }
}

/// Build the string denoted by a sequence of plain ASCII bytes.
pub fn ascii_string(bytes: Vec<u8>) -> (r: String)
    requires
        all_ascii_bytes(bytes@),
    ensures
        r@ == ascii_chars_of(bytes@),
        is_ascii_chars(r@),
        encode_utf8(r@) == bytes@,
{
    broadcast use vstd::utf8::encode_utf8_decode_utf8;

    proof {
        lemma_ascii_bytes_chars(bytes@);
    }
    let ghost bs = bytes@;
    let s = string_from_valid_utf8(bytes);
    proof {
        assert(decode_utf8(encode_utf8(s@)) == s@);
        assert(s@ == ascii_chars_of(bs));
    }
    s
}

/// For a string made only of ASCII characters, the characters are the bytes
/// of its encoding, read one for one.
pub proof fn lemma_ascii_chars_bytes(cs: Seq<char>)
    requires
        is_ascii_chars(cs),
    ensures
        encode_utf8(cs).len() == cs.len(),
        all_ascii_bytes(encode_utf8(cs)),
        ascii_chars_of(encode_utf8(cs)) =~= cs,
{
    broadcast use is_ascii_chars_encode_utf8;

    let bs = encode_utf8(cs);
    assert forall|i: int| 0 <= i < bs.len() implies #[trigger] bs[i] < 128 by {
        assert(cs[i] as u8 == bs[i]);
        assert(cs[i] <= '\u{7f}');
    }
    assert forall|i: int| 0 <= i < cs.len() implies #[trigger] ascii_chars_of(bs)[i] == cs[i] by {
        assert(bs[i] == cs[i] as u8);
        assert((cs[i] as u8) as u32 == cs[i] as u32);
    }
}

} // verus!
