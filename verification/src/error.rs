//! The ways parsing or building an LEI can fail. Each failure carries the
//! offending bytes or length, and has two plain-text renderings: one
//! developer-facing, one user-facing.

use crate::ascii::{
    all_ascii_bytes, ascii_chars_of, ascii_string, is_digit_byte, BYTE_DIGIT_0,
};
use vstd::prelude::*;
use vstd::string::StringExecFns;

verus! {

/// The byte value of the ASCII double quote.
pub const BYTE_QUOTE: u8 = 34;

/// The byte value of the ASCII question mark.
pub const BYTE_QUESTION: u8 = 63;

/// All the ways parsing or building could fail.
#[derive(Clone, Debug, PartialEq, Eq)]
#[non_exhaustive]
pub enum LEIError {
    /// The input length is not exactly 20 bytes.
    InvalidLength {
        /// The length we found
        was: usize,
    },
    /// The payload length is not exactly 18 bytes (checked when building).
    InvalidPayloadLength {
        /// The length we found
        was: usize,
    },
    /// The LOU ID length is not exactly 4 bytes (checked when building).
    InvalidLouIdLength {
        /// The length we found
        was: usize,
    },
    /// The Entity ID length is not exactly 14 bytes (checked when building).
    InvalidEntityIdLength {
        /// The length we found
        was: usize,
    },
    /// The input LOU ID is not 4 uppercase ASCII alphanumeric characters.
    InvalidLouId {
        /// The LOU ID we found
        was: [u8; 4],
    },
    /// The input Entity ID is not 14 uppercase ASCII alphanumeric characters.
    InvalidEntityId {
        /// The Entity ID we found
        was: [u8; 14],
    },
    /// The input check digits are not two ASCII decimal digit characters.
    InvalidCheckDigits {
        /// The check digits we found
        was: [u8; 2],
    },
    /// The input check digits are well formed but do not match the checksum
    /// of the payload.
    IncorrectCheckDigits {
        /// The check digits we found
        was: [u8; 2],
        /// The check digits we expected
        expected: [u8; 2],
    },
}

/// The decimal digits of `n`, most significant first, as ASCII bytes.
pub open spec fn dec_bytes(n: nat) -> Seq<u8>
    decreases n,
{
    if n < 10 {
        seq![(BYTE_DIGIT_0 + n) as u8]
    } else {
        dec_bytes(n / 10) + seq![(BYTE_DIGIT_0 + n % 10) as u8]
    }
}

/// The decimal rendering of `n`.
pub open spec fn dec_chars(n: nat) -> Seq<char> {
    ascii_chars_of(dec_bytes(n))
}

/// A decimal rendering is nonempty and made of ASCII digit bytes.
pub proof fn lemma_dec_bytes_digits(n: nat)
    ensures
        dec_bytes(n).len() >= 1,
        forall|i: int| 0 <= i < dec_bytes(n).len() ==> is_digit_byte(#[trigger] dec_bytes(n)[i]),
    decreases n,
{
    if n >= 10 {
        lemma_dec_bytes_digits(n / 10);
        let whole = dec_bytes(n);
        let head = dec_bytes(n / 10);
        assert forall|i: int| 0 <= i < whole.len() implies is_digit_byte(#[trigger] whole[i]) by {
            if i < head.len() {
                assert(whole[i] == head[i]);
            } else {
                assert(whole[i] == (BYTE_DIGIT_0 + n % 10) as u8);
            }
        }
    }
}

/// A byte as it is shown between quotes: printable ASCII stands for itself,
/// any other byte is shown as a question mark.
pub open spec fn shown_byte(b: u8) -> u8 {
    if 32 <= b <= 126 {
        b
    } else {
        BYTE_QUESTION
    }
}

/// A field's raw bytes as shown between double quotes.
pub open spec fn quoted_chars(s: Seq<u8>) -> Seq<char> {
    ascii_chars_of(seq![BYTE_QUOTE] + Seq::new(s.len(), |i: int| shown_byte(s[i])) + seq![BYTE_QUOTE])
}

/// The decimal rendering of a length, for error text.
fn dec_string(n: usize) -> (r: String)
    ensures
        r@ == dec_chars(n as nat),
{
    let mut tmp: Vec<u8> = Vec::new();
    let mut m: usize = n;
    while m >= 10
        invariant
            dec_bytes(n as nat) == dec_bytes(m as nat) + tmp@.reverse(),
        decreases m,
    {
        let ghost tmp0 = tmp@;
        let d: u8 = BYTE_DIGIT_0 + (m % 10) as u8;
        tmp.push(d);
        proof {
            assert(dec_bytes(m as nat) == dec_bytes((m / 10) as nat) + seq![d]);
            assert(tmp@.reverse() =~= seq![d] + tmp0.reverse());
            assert(dec_bytes((m / 10) as nat) + tmp@.reverse() =~= dec_bytes(m as nat)
                + tmp0.reverse());
        }
        m = m / 10;
    }
    let mut out: Vec<u8> = Vec::new();
    out.push(BYTE_DIGIT_0 + m as u8);
    proof {
        assert(out@ =~= dec_bytes(m as nat));
    }
    let ghost k = tmp@.len() as int;
    let mut i: usize = tmp.len();
    while i > 0
        invariant
            i <= tmp@.len(),
            k == tmp@.len() as int,
            out@ == dec_bytes(m as nat) + tmp@.subrange(i as int, k).reverse(),
        decreases i,
    {
        let ghost out0 = out@;
        i = i - 1;
        out.push(tmp[i]);
        proof {
            assert(tmp@.subrange(i as int, k).reverse() =~= tmp@.subrange(i as int + 1, k).reverse()
                + seq![tmp@[i as int]]);
            assert(out@ =~= dec_bytes(m as nat) + tmp@.subrange(i as int, k).reverse());
        }
    }
    proof {
        assert(tmp@.subrange(0, k) =~= tmp@);
        assert(out@ =~= dec_bytes(n as nat));
        lemma_dec_bytes_digits(n as nat);
        assert(all_ascii_bytes(out@));
    }
    ascii_string(out)
}

/// Render raw field bytes between double quotes.
fn quoted_string(s: &[u8]) -> (r: String)
    ensures
        r@ == quoted_chars(s@),
{
    let mut out: Vec<u8> = Vec::new();
    out.push(BYTE_QUOTE);
    let mut i: usize = 0;
    while i < s.len()
        invariant
            i <= s@.len(),
            out@ == seq![BYTE_QUOTE] + Seq::new(i as nat, |j: int| shown_byte(s@[j])),
        decreases s@.len() - i,
    {
        let b = s[i];
        if 32 <= b && b <= 126 {
            out.push(b);
        } else {
            out.push(BYTE_QUESTION);
        }
        i = i + 1;
        proof {
            assert(out@ =~= seq![BYTE_QUOTE] + Seq::new(i as nat, |j: int| shown_byte(s@[j])));
        }
    }
    out.push(BYTE_QUOTE);
    proof {
        assert(out@ =~= seq![BYTE_QUOTE] + Seq::new(s@.len(), |j: int| shown_byte(s@[j]))
            + seq![BYTE_QUOTE]);
        assert(all_ascii_bytes(out@));
    }
    ascii_string(out)
}

impl LEIError {
    /// The developer-facing rendering: the variant's name and its fields.
    pub open spec fn spec_debug_text(self) -> Seq<char> {
        match self {
            LEIError::InvalidLength { was } => "InvalidLength { was: "@ + dec_chars(was as nat)
                + " }"@,
            LEIError::InvalidPayloadLength { was } => "InvalidPayloadLength { was: "@ + dec_chars(
                was as nat,
            ) + " }"@,
            LEIError::InvalidLouIdLength { was } => "InvalidLouIdLength { was: "@ + dec_chars(
                was as nat,
            ) + " }"@,
            LEIError::InvalidEntityIdLength { was } => "InvalidEntityIdLength { was: "@ + dec_chars(
                was as nat,
            ) + " }"@,
            LEIError::InvalidLouId { was } => "InvalidLouId { was: "@ + quoted_chars(was@) + " }"@,
            LEIError::InvalidEntityId { was } => "InvalidEntityId { was: "@ + quoted_chars(was@)
                + " }"@,
            LEIError::InvalidCheckDigits { was } => "InvalidCheckDigits { was: "@ + quoted_chars(
                was@,
            ) + " }"@,
            LEIError::IncorrectCheckDigits { was, expected } => "IncorrectCheckDigits { was: "@
                + quoted_chars(was@) + ", expected: "@ + quoted_chars(expected@) + " }"@,
        }
    }

    /// The user-facing rendering: a sentence naming the problem and showing
    /// the offending value.
    pub open spec fn spec_display_text(self) -> Seq<char> {
        match self {
            LEIError::InvalidLength { was } => "invalid length "@ + dec_chars(was as nat)
                + " bytes when expecting 20"@,
            LEIError::InvalidPayloadLength { was } => "invalid Payload length "@ + dec_chars(
                was as nat,
            ) + " bytes when expecting 18"@,
            LEIError::InvalidLouIdLength { was } => "invalid LOU ID length "@ + dec_chars(
                was as nat,
            ) + " bytes when expecting 4"@,
            LEIError::InvalidEntityIdLength { was } => "invalid Entity ID length "@ + dec_chars(
                was as nat,
            ) + " bytes when expecting 14"@,
            LEIError::InvalidLouId { was } => "prefix "@ + quoted_chars(was@)
                + " is not 4 uppercase ASCII alphanumeric characters"@,
            LEIError::InvalidEntityId { was } => "basic code "@ + quoted_chars(was@)
                + " is not 14 uppercase ASCII alphanumeric characters"@,
            LEIError::InvalidCheckDigits { was } => "check digits "@ + quoted_chars(was@)
                + " is not two ASCII decimal digits"@,
            LEIError::IncorrectCheckDigits { was, expected } => "incorrect check digits "@
                + quoted_chars(was@) + " when expecting "@ + quoted_chars(expected@),
        }
    }

    /// Render the developer-facing text of this error.
    pub fn debug_string(&self) -> (r: String)
        ensures
            r@ == self.spec_debug_text(),
    {
        let mut out = String::new();
        match self {
            LEIError::InvalidLength { was } => {
                out.append("InvalidLength { was: ");
                let num = dec_string(*was);
                out.append(num.as_str());
                out.append(" }");
            },
            LEIError::InvalidPayloadLength { was } => {
                out.append("InvalidPayloadLength { was: ");
                let num = dec_string(*was);
                out.append(num.as_str());
                out.append(" }");
            },
            LEIError::InvalidLouIdLength { was } => {
                out.append("InvalidLouIdLength { was: ");
                let num = dec_string(*was);
                out.append(num.as_str());
                out.append(" }");
            },
            LEIError::InvalidEntityIdLength { was } => {
                out.append("InvalidEntityIdLength { was: ");
                let num = dec_string(*was);
                out.append(num.as_str());
                out.append(" }");
            },
            LEIError::InvalidLouId { was } => {
                out.append("InvalidLouId { was: ");
                let q = quoted_string(was.as_slice());
                out.append(q.as_str());
                out.append(" }");
            },
            LEIError::InvalidEntityId { was } => {
                out.append("InvalidEntityId { was: ");
                let q = quoted_string(was.as_slice());
                out.append(q.as_str());
                out.append(" }");
            },
            LEIError::InvalidCheckDigits { was } => {
                out.append("InvalidCheckDigits { was: ");
                let q = quoted_string(was.as_slice());
                out.append(q.as_str());
                out.append(" }");
            },
            LEIError::IncorrectCheckDigits { was, expected } => {
                out.append("IncorrectCheckDigits { was: ");
                let q = quoted_string(was.as_slice());
                out.append(q.as_str());
                out.append(", expected: ");
                let qe = quoted_string(expected.as_slice());
                out.append(qe.as_str());
                out.append(" }");
            },
        }
        proof {
            assert(out@ =~= self.spec_debug_text());
        }
        out
    }

    /// Render the user-facing text of this error.
    pub fn display_string(&self) -> (r: String)
        ensures
            r@ == self.spec_display_text(),
    {
        let mut out = String::new();
        match self {
            LEIError::InvalidLength { was } => {
                out.append("invalid length ");
                let num = dec_string(*was);
                out.append(num.as_str());
                out.append(" bytes when expecting 20");
            },
            LEIError::InvalidPayloadLength { was } => {
                out.append("invalid Payload length ");
                let num = dec_string(*was);
                out.append(num.as_str());
                out.append(" bytes when expecting 18");
            },
            LEIError::InvalidLouIdLength { was } => {
                out.append("invalid LOU ID length ");
                let num = dec_string(*was);
                out.append(num.as_str());
                out.append(" bytes when expecting 4");
            },
            LEIError::InvalidEntityIdLength { was } => {
                out.append("invalid Entity ID length ");
                let num = dec_string(*was);
                out.append(num.as_str());
                out.append(" bytes when expecting 14");
            },
            LEIError::InvalidLouId { was } => {
                out.append("prefix ");
                let q = quoted_string(was.as_slice());
                out.append(q.as_str());
                out.append(" is not 4 uppercase ASCII alphanumeric characters");
            },
            LEIError::InvalidEntityId { was } => {
                out.append("basic code ");
                let q = quoted_string(was.as_slice());
                out.append(q.as_str());
                out.append(" is not 14 uppercase ASCII alphanumeric characters");
            },
            LEIError::InvalidCheckDigits { was } => {
                out.append("check digits ");
                let q = quoted_string(was.as_slice());
                out.append(q.as_str());
                out.append(" is not two ASCII decimal digits");
            },
            LEIError::IncorrectCheckDigits { was, expected } => {
                out.append("incorrect check digits ");
                let q = quoted_string(was.as_slice());
                out.append(q.as_str());
                out.append(" when expecting ");
                let qe = quoted_string(expected.as_slice());
                out.append(qe.as_str());
            },
        }
        proof {
            assert(out@ =~= self.spec_display_text());
        }
        out
    }
}

} // verus!
