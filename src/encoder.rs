use vstd::prelude::*;
use crate::decoder::{ADDRESS_PADDING, WORD_LEN};
use crate::word::{u256_word, H160, H256, U256};

verus! {

/// The 32-byte word that holds address `a` right-aligned: twelve zero bytes, then `a`.
pub open spec fn padded_address(a: Seq<u8>) -> Seq<u8> {
    Seq::new(12, |i: int| 0u8) + a
}

/// A growable byte buffer that fixed-width values are appended to.
pub struct FixedNumberToBytes {
    data: Vec<u8>,
}

impl From<Vec<u8>> for FixedNumberToBytes {
    /// A buffer that goes on from the bytes of `data`.
    fn from(data: Vec<u8>) -> (r: FixedNumberToBytes) {
        FixedNumberToBytes { data }
    }
}

impl vstd::std_specs::convert::FromSpecImpl<Vec<u8>> for FixedNumberToBytes {
    open spec fn obeys_from_spec() -> bool {
        true
    }

    closed spec fn from_spec(data: Vec<u8>) -> FixedNumberToBytes {
        FixedNumberToBytes { data }
    }
}

impl FixedNumberToBytes {
    /// A buffer made by `FixedNumberToBytes::from(data)` holds the bytes of `data`.
    pub proof fn lemma_from_vec(data: Vec<u8>)
        ensures
            <FixedNumberToBytes as vstd::std_specs::convert::FromSpec<Vec<u8>>>::obeys_from_spec(),
            <FixedNumberToBytes as vstd::std_specs::convert::FromSpec<Vec<u8>>>::from_spec(data).buffer() == data@,
    {
    }

    /// The bytes written so far.
    pub closed spec fn buffer(&self) -> Seq<u8> {
        self.data@
    }

    /// An empty buffer.
    pub fn new() -> (r: FixedNumberToBytes)
        ensures
            r.buffer() == Seq::<u8>::empty(),
    {
        FixedNumberToBytes { data: Vec::new() }
    }

    /// A buffer that goes on from the bytes of `data`.
    pub fn from_vec(data: Vec<u8>) -> (r: FixedNumberToBytes)
        ensures
            r.buffer() == data@,
    {
        FixedNumberToBytes { data }
    }

    /// The bytes written so far, borrowed.
    pub fn as_vec(&self) -> (r: &Vec<u8>)
        ensures
            r@ == self.buffer(),
    {
        &self.data
    }

    /// The bytes written so far, handed over.
    pub fn into_vec(self) -> (r: Vec<u8>)
        ensures
            r@ == self.buffer(),
    {
        self.data
    }

    /// Appends the bytes of `s` in order.
    fn push_slice(&mut self, s: &[u8])
        ensures
            final(self).buffer() == old(self).buffer() + s@,
    {
        let mut i: usize = 0;
        while i < s.len()
            invariant
                i <= s@.len(),
                self.data@ == old(self).data@ + s@.subrange(0, i as int),
            decreases s@.len() - i,
        {
            self.data.push(s[i]);
            i = i + 1;
            assert(self.data@ =~= old(self).data@ + s@.subrange(0, i as int));
        }
        assert(s@.subrange(0, s@.len() as int) =~= s@);
    }

    /// Appends the bytes of `vec` in order.
    pub fn push_vec(&mut self, vec: &Vec<u8>)
        ensures
            final(self).buffer() == old(self).buffer() + vec@,
    {
        self.push_slice(vec.as_slice());
    }

    /// Appends address `value` right-aligned in a 32-byte word.
    pub fn push_h160(&mut self, value: &H160)
        ensures
            final(self).buffer() == old(self).buffer() + padded_address(value@),
            final(self).buffer().len() == old(self).buffer().len() + 32,
    {
        let mut i: usize = 0;
        while i < ADDRESS_PADDING
            invariant
                i <= 12,
                self.data@ == old(self).data@ + Seq::new(i as nat, |k: int| 0u8),
            decreases 12 - i,
        {
            self.data.push(0u8);
            i = i + 1;
            assert(self.data@ =~= old(self).data@ + Seq::new(i as nat, |k: int| 0u8));
        }
        self.push_h160_not_padded(value);
        assert(self.data@ =~= old(self).data@ + padded_address(value@));
    }

    /// Appends the 20 bytes of address `value`, with no padding in front.
    pub fn push_h160_not_padded(&mut self, value: &H160)
        ensures
            final(self).buffer() == old(self).buffer() + value@,
    {
        self.push_slice(value.0.as_slice());
    }

    /// Appends the 32 bytes of identifier `value`.
    pub fn push_h256(&mut self, value: &H256)
        ensures
            final(self).buffer() == old(self).buffer() + value@,
    {
        self.push_slice(value.0.as_slice());
    }

    /// Appends `value` as a 32-byte big-endian word: its most significant byte first,
    /// its least significant byte last.
    pub fn push_u256(&mut self, value: &U256)
        ensures
            final(self).buffer() == old(self).buffer() + u256_word(value@),
            final(self).buffer().len() == old(self).buffer().len() + WORD_LEN,
    {
        let w = value.to_be_bytes();
        self.push_slice(w.as_slice());
    }
}

} // verus!
