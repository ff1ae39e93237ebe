//! The letter-to-decimal digit expansion that feeds the MOD 97-10 checksum:
//! decimal digits pass through unchanged, uppercase letters stand for their
//! values 10 through 35 and contribute two digits each.

use crate::ascii::{
    all_digit_bytes, all_upper_alnum_bytes, is_digit_byte, is_upper_alnum_byte, BYTE_DIGIT_0,
    BYTE_DIGIT_9, BYTE_UPPER_A,
};
use vstd::prelude::*;

verus! {

/// The decimal-digit bytes contributed by one payload byte: a digit byte
/// stands for itself; a letter byte `'A'` through `'Z'` stands for its value
/// 10 through 35, tens digit first.
pub open spec fn expand_byte(b: u8) -> Seq<u8>
    recommends
        is_upper_alnum_byte(b),
{
    if is_digit_byte(b) {
        seq![b]
    } else {
        seq![
            (BYTE_DIGIT_0 + (b - BYTE_UPPER_A + 10) / 10) as u8,
            (BYTE_DIGIT_0 + (b - BYTE_UPPER_A + 10) % 10) as u8,
        ]
    }
}

/// The expansion of a whole payload: each byte's digits, in input order.
pub open spec fn expand(s: Seq<u8>) -> Seq<u8>
    decreases s.len(),
{
    if s.len() == 0 {
        Seq::empty()
    } else {
        expand_byte(s[0]) + expand(s.drop_first())
    }
}

/// The expansion of an upper-alphanumeric payload is made of decimal digit
/// bytes only and is at least as long as the payload.
pub proof fn lemma_expand_digits(s: Seq<u8>)
    requires
        all_upper_alnum_bytes(s),
    ensures
        all_digit_bytes(expand(s)),
        expand(s).len() >= s.len(),
    decreases s.len(),
{
    if s.len() > 0 {
        assert(all_upper_alnum_bytes(s.drop_first()));
        lemma_expand_digits(s.drop_first());
        assert(all_digit_bytes(expand_byte(s[0])));
        assert forall|i: int| 0 <= i < expand(s).len() implies is_digit_byte(
            #[trigger] expand(s)[i],
        ) by {
            let head = expand_byte(s[0]);
            if i < head.len() {
                assert(expand(s)[i] == head[i]);
            } else {
                assert(expand(s)[i] == expand(s.drop_first())[i - head.len()]);
            }
        }
    }
}

/// Single-pass producer of the decimal-digit bytes of a payload's expansion.
/// The payload must hold only ASCII digits and uppercase letters.
pub struct DigitsIterator<'a> {
    bytes: &'a [u8],
    pos: usize,
    scratch: Option<u8>,
}

impl<'a> DigitsIterator<'a> {
    /// The digit bytes this iterator has yet to emit.
    pub closed spec fn remaining(&self) -> Seq<u8> {
        (match self.scratch {
            Some(d) => seq![d],
            None => Seq::<u8>::empty(),
        }) + expand(self.bytes@.skip(self.pos as int))
    }

    /// The cursor sits inside the payload, the unread part is well formed,
    /// and any buffered byte is a decimal digit.
    pub closed spec fn wf(&self) -> bool {
        &&& self.pos <= self.bytes@.len()
        &&& all_upper_alnum_bytes(self.bytes@.skip(self.pos as int))
        &&& (self.scratch matches Some(d) ==> is_digit_byte(d))
    }

    /// Start an expansion over the given payload bytes.
    pub fn new(bytes: &'a [u8]) -> (it: DigitsIterator<'a>)
        requires
            all_upper_alnum_bytes(bytes@),
        ensures
            it.wf(),
            it.remaining() == expand(bytes@),
    {
        let it = DigitsIterator { bytes, pos: 0, scratch: None };
        proof {
            assert(bytes@.skip(0) =~= bytes@);
            assert(it.remaining() =~= expand(bytes@));
        }
        it
    }

    /// Emit the next digit byte of the expansion, or `None` once every digit
    /// has been emitted.
    pub fn next(&mut self) -> (r: Option<u8>)
        requires
            old(self).wf(),
        ensures
            final(self).wf(),
            old(self).remaining().len() == 0 ==> r is None && final(self).remaining()
                == old(self).remaining(),
            old(self).remaining().len() > 0 ==> r == Some(old(self).remaining()[0])
                && final(self).remaining() == old(self).remaining().drop_first(),
    {
        let ghost prev = *self;
        match self.scratch {
            Some(d) => {
                self.scratch = None;
                proof {
                    assert(prev.remaining() =~= seq![d] + self.remaining());
                    assert(self.remaining() =~= prev.remaining().drop_first());
                }
                Some(d)
            },
            None => {
                if self.pos == self.bytes.len() {
                    proof {
                        assert(self.bytes@.skip(self.pos as int) =~= Seq::<u8>::empty());
                        assert(self.remaining().len() == 0);
                    }
                    None
                } else {
                    let ghost rest = prev.bytes@.skip(prev.pos as int);
                    let b = self.bytes[self.pos];
                    self.pos = self.pos + 1;
                    proof {
                        assert(b == rest[0]);
                        assert(is_upper_alnum_byte(b));
                        assert(self.bytes@.skip(self.pos as int) =~= rest.drop_first());
                        assert(all_upper_alnum_bytes(rest.drop_first()));
                        assert(prev.remaining() =~= expand(rest));
                        assert(expand(rest) == expand_byte(b) + expand(rest.drop_first()));
                    }
                    if b <= BYTE_DIGIT_9 {
                        proof {
                            assert(expand_byte(b) =~= seq![b]);
                            assert(self.remaining() =~= prev.remaining().drop_first());
                        }
                        Some(b)
                    } else {
                        let v = b - BYTE_UPPER_A + 10;
                        let tens = v / 10 + BYTE_DIGIT_0;
                        let units = v % 10 + BYTE_DIGIT_0;
                        self.scratch = Some(units);
                        proof {
                            assert(expand_byte(b) =~= seq![tens, units]);
                            assert(prev.remaining() =~= seq![tens, units] + expand(
                                rest.drop_first(),
                            ));
                            assert(self.remaining() =~= seq![units] + expand(rest.drop_first()));
                            assert(self.remaining() =~= prev.remaining().drop_first());
                            assert(prev.remaining()[0] == tens);
                        }
                        Some(tens)
                    }
                }
            },
        }
    }
}

/// Collect the whole expansion of a payload by driving a [`DigitsIterator`]
/// until it is exhausted.
pub fn expand_to_vec(bytes: &[u8]) -> (digits: Vec<u8>)
    requires
        all_upper_alnum_bytes(bytes@),
    ensures
        digits@ == expand(bytes@),
{
    let mut it = DigitsIterator::new(bytes);
    let mut digits: Vec<u8> = Vec::new();
    proof {
        assert(digits@ + it.remaining() =~= expand(bytes@));
    }
    loop
        invariant
            it.wf(),
            digits@ + it.remaining() == expand(bytes@),
        ensures
            it.remaining().len() == 0,
            digits@ + it.remaining() == expand(bytes@),
        decreases it.remaining().len(),
    {
        let ghost before = digits@;
        let ghost rem = it.remaining();
        match it.next() {
            Some(d) => {
                digits.push(d);
                proof {
                    assert(digits@ =~= before.push(d));
                    assert(before.push(d) + rem.drop_first() =~= before + rem);
                }
            },
            None => {
                break ;
            },
        }
    }
    proof {
        assert(digits@ =~= expand(bytes@));
    }
    digits
}

} // verus!
