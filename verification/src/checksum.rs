//! Adapter from a format-checked payload to its two check digit bytes,
//! driving the digit expansion through the external ISO/IEC 7064 MOD 97-10
//! checksum engine.

use crate::ascii::{all_digit_bytes, all_upper_alnum_bytes, is_digit_byte, BYTE_DIGIT_0};
use crate::digits::{expand, expand_to_vec, lemma_expand_digits};
use iso_iec_7064::{System, MOD_97_10};
use vstd::prelude::*;

verus! {

/// What the MOD 97-10 engine returns for a stream of ASCII bytes. The result
/// is a function of the byte sequence alone.
pub uninterp spec fn mod_97_10_checksum(digits: Seq<u8>) -> Option<u16>;

/// Relies on `iso_iec_7064::MOD_97_10.checksum_ascii_bytes_iter`: the result
/// depends only on the bytes of the stream; for a nonempty stream of ASCII
/// decimal digits it is `Some(v)` with `v` a remainder reduced modulo 97.
#[verifier::external_body]
fn checksum_engine(digits: &Vec<u8>) -> (r: Option<u16>)
    ensures
        r == mod_97_10_checksum(digits@),
        digits@.len() > 0 && all_digit_bytes(digits@) ==> (r is Some && r->0 < 97),
{
    MOD_97_10.checksum_ascii_bytes_iter(digits.iter().copied())
}

/// The check digit pair a payload calls for: the engine's remainder over the
/// payload's expansion, spelled as two ASCII digit bytes, tens digit first.
pub open spec fn spec_check_digits(payload: Seq<u8>) -> Seq<u8> {
    match mod_97_10_checksum(expand(payload)) {
        Some(v) => seq![(BYTE_DIGIT_0 + v / 10) as u8, (BYTE_DIGIT_0 + v % 10) as u8],
        None => Seq::empty(),
    }
}

/// The engine yields a remainder below 97 for this payload's expansion.
pub open spec fn checksum_available(payload: Seq<u8>) -> bool {
    mod_97_10_checksum(expand(payload)) matches Some(v) && v < 97
}

/// When the engine yields a remainder, the check digit pair is two ASCII
/// decimal digit bytes.
pub proof fn lemma_check_digits_form(payload: Seq<u8>)
    requires
        checksum_available(payload),
    ensures
        spec_check_digits(payload).len() == 2,
        all_digit_bytes(spec_check_digits(payload)),
{
    let cd = spec_check_digits(payload);
    assert(is_digit_byte(cd[0]));
    assert(is_digit_byte(cd[1]));
}

/// Compute the check digits for a payload of ASCII digits and uppercase
/// letters. Callers guarantee the format, so the engine always produces a
/// remainder; feeding it anything else would be a defect in this crate, not
/// bad user input.
pub fn compute_check_digits(payload: &[u8]) -> (r: [u8; 2])
    requires
        payload@.len() > 0,
        all_upper_alnum_bytes(payload@),
    ensures
        checksum_available(payload@),
        r@ == spec_check_digits(payload@),
{
    let digits = expand_to_vec(payload);
    proof {
        lemma_expand_digits(payload@);
    }
    let sum = checksum_engine(&digits).unwrap();
    let d1: u8 = BYTE_DIGIT_0 + (sum / 10) as u8;
    let d0: u8 = BYTE_DIGIT_0 + (sum % 10) as u8;
    let r: [u8; 2] = [d1, d0];
    proof {
        assert(r@ =~= spec_check_digits(payload@));
    }
    r
}

} // verus!
