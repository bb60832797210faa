use vstd::prelude::*;
use crate::word::{be_value, H160, H256, U256};

verus! {

/// The one way decoding fails: the buffer has fewer bytes left than the read needs.
#[derive(Clone, Copy, Debug, PartialEq, Eq, Structural)]
pub enum DecodeError {
    UnexpectedEndOfData,
}

/// Bytes of padding in front of an address that fills a 32-byte word.
pub const ADDRESS_PADDING: usize = 12;

/// Bytes in an address.
pub const ADDRESS_LEN: usize = 20;

/// Bytes in a word.
pub const WORD_LEN: usize = 32;

/// The `size` bytes of `buf` from `at` on, if the buffer holds them.
pub open spec fn bytes_at(buf: Seq<u8>, at: nat, size: nat) -> Option<Seq<u8>> {
    if at + size <= buf.len() {
        Some(buf.subrange(at as int, at + size as int))
    } else {
        None
    }
}

/// The address held right-aligned in the word at `at`, if the buffer holds the word.
pub open spec fn decode_h160_at(buf: Seq<u8>, at: nat) -> Option<Seq<u8>> {
    if at + 32 <= buf.len() {
        Some(buf.subrange(at + 12 as int, at + 32 as int))
    } else {
        None
    }
}

/// The integer held big-endian in the word at `at`, if the buffer holds the word.
pub open spec fn decode_u256_at(buf: Seq<u8>, at: nat) -> Option<nat> {
    if at + 32 <= buf.len() {
        Some(be_value(buf.subrange(at as int, at + 32 as int)))
    } else {
        None
    }
}

/// A cursor over an owned byte buffer that reads fixed-width values left to right.
pub struct BytesToFixedNumber {
    data: Vec<u8>,
    index: usize,
}

impl From<Vec<u8>> for BytesToFixedNumber {
    /// A cursor at the start of `data`.
    fn from(data: Vec<u8>) -> (r: BytesToFixedNumber) {
        BytesToFixedNumber { data, index: 0 }
    }
}

impl vstd::std_specs::convert::FromSpecImpl<Vec<u8>> for BytesToFixedNumber {
    open spec fn obeys_from_spec() -> bool {
        true
    }

    closed spec fn from_spec(data: Vec<u8>) -> BytesToFixedNumber {
        BytesToFixedNumber { data, index: 0 }
    }
}

impl BytesToFixedNumber {
    /// A cursor made by `BytesToFixedNumber::from(data)` reads `data` from its first byte.
    pub proof fn lemma_from_vec(data: Vec<u8>)
        ensures
            <BytesToFixedNumber as vstd::std_specs::convert::FromSpec<Vec<u8>>>::obeys_from_spec(),
            <BytesToFixedNumber as vstd::std_specs::convert::FromSpec<Vec<u8>>>::from_spec(data).buffer() == data@,
            <BytesToFixedNumber as vstd::std_specs::convert::FromSpec<Vec<u8>>>::from_spec(data).cursor() == 0,
            <BytesToFixedNumber as vstd::std_specs::convert::FromSpec<Vec<u8>>>::from_spec(data).wf(),
    {
    }

    /// The bytes being read.
    pub closed spec fn buffer(&self) -> Seq<u8> {
        self.data@
    }

    /// The offset of the next byte to read.
    pub closed spec fn cursor(&self) -> nat {
        self.index as nat
    }

    /// The cursor never passes the end of the buffer.
    pub open spec fn wf(&self) -> bool {
        self.cursor() <= self.buffer().len()
    }

    /// A cursor at the start of `data`.
    pub fn new(data: Vec<u8>) -> (r: BytesToFixedNumber)
        ensures
            r.buffer() == data@,
            r.cursor() == 0,
            r.wf(),
    {
        BytesToFixedNumber { data, index: 0 }
    }

    /// The offset of the next byte to read.
    pub fn position(&self) -> (r: usize)
        ensures
            r == self.cursor(),
    {
        self.index
    }

    /// How many bytes are left to read.
    pub fn remaining(&self) -> (r: usize)
        requires
            self.wf(),
        ensures
            r == self.buffer().len() - self.cursor(),
    {
        self.data.len() - self.index
    }

    /// Returns the next `size` bytes and moves the cursor past them.
    pub fn next_vec(&mut self, size: usize) -> (r: Result<Vec<u8>, DecodeError>)
        requires
            old(self).wf(),
        ensures
            final(self).wf(),
            final(self).buffer() == old(self).buffer(),
            match r {
                Ok(v) => bytes_at(old(self).buffer(), old(self).cursor(), size as nat) == Some(v@)
                    && final(self).cursor() == old(self).cursor() + size,
                Err(e) => bytes_at(old(self).buffer(), old(self).cursor(), size as nat) is None
                    && e == DecodeError::UnexpectedEndOfData
                    && final(self).cursor() == old(self).cursor(),
            },
    {
        if size > self.data.len() - self.index {
            return Err(DecodeError::UnexpectedEndOfData);
        }
        let mut resp: Vec<u8> = Vec::new();
        let mut i: usize = 0;
        while i < size
            invariant
                self.wf(),
                i <= size,
                self.index + size <= self.data.len(),
                resp@ == self.data@.subrange(self.index as int, self.index + i),
            decreases size - i,
        {
            resp.push(self.data[self.index + i]);
            i = i + 1;
            assert(resp@ =~= self.data@.subrange(self.index as int, self.index + i));
        }
        self.index = self.index + size;
        Ok(resp)
    }

    /// Moves the cursor past the next `size` bytes.
    pub fn skip(&mut self, size: usize) -> (r: Result<(), DecodeError>)
        requires
            old(self).wf(),
        ensures
            final(self).wf(),
            final(self).buffer() == old(self).buffer(),
            match r {
                Ok(_) => old(self).cursor() + size <= old(self).buffer().len()
                    && final(self).cursor() == old(self).cursor() + size,
                Err(e) => old(self).cursor() + size > old(self).buffer().len()
                    && e == DecodeError::UnexpectedEndOfData
                    && final(self).cursor() == old(self).cursor(),
            },
    {
        if size > self.data.len() - self.index {
            return Err(DecodeError::UnexpectedEndOfData);
        }
        self.index = self.index + size;
        Ok(())
    }

    /// Returns the next address, held right-aligned in a 32-byte word.
    /// Either the whole word is consumed or, on failure, nothing.
    pub fn next_h160(&mut self) -> (r: Result<H160, DecodeError>)
        requires
            old(self).wf(),
        ensures
            final(self).wf(),
            final(self).buffer() == old(self).buffer(),
            match r {
                Ok(a) => decode_h160_at(old(self).buffer(), old(self).cursor()) == Some(a@)
                    && final(self).cursor() == old(self).cursor() + 32,
                Err(e) => decode_h160_at(old(self).buffer(), old(self).cursor()) is None
                    && e == DecodeError::UnexpectedEndOfData
                    && final(self).cursor() == old(self).cursor(),
            },
    {
        if WORD_LEN > self.data.len() - self.index {
            return Err(DecodeError::UnexpectedEndOfData);
        }
        let skipped = self.skip(ADDRESS_PADDING);
        assert(skipped is Ok);
        let r = self.next_h160_not_padded();
        assert(r is Ok);
        assert(self.data@.subrange(old(self).index + 12, old(self).index + 32)
            =~= old(self).data@.subrange(old(self).index + 12, old(self).index + 32));
        r
    }

    /// Returns the next 20 bytes as an address, with no padding in front.
    pub fn next_h160_not_padded(&mut self) -> (r: Result<H160, DecodeError>)
        requires
            old(self).wf(),
        ensures
            final(self).wf(),
            final(self).buffer() == old(self).buffer(),
            match r {
                Ok(a) => bytes_at(old(self).buffer(), old(self).cursor(), 20) == Some(a@)
                    && final(self).cursor() == old(self).cursor() + 20,
                Err(e) => bytes_at(old(self).buffer(), old(self).cursor(), 20) is None
                    && e == DecodeError::UnexpectedEndOfData
                    && final(self).cursor() == old(self).cursor(),
            },
    {
        let v = self.next_vec(ADDRESS_LEN)?;
        let mut a: [u8; 20] = [0u8; 20];
        let mut i: usize = 0;
        while i < 20
            invariant
                v@.len() == 20,
                i <= 20,
                forall|k: int| 0 <= k < i ==> a@[k] == v@[k],
            decreases 20 - i,
        {
            a[i] = v[i];
            i = i + 1;
        }
        assert(a@ =~= v@);
        Ok(H160(a))
    }

    /// Returns the next 32 bytes as an identifier.
    pub fn next_h256(&mut self) -> (r: Result<H256, DecodeError>)
        requires
            old(self).wf(),
        ensures
            final(self).wf(),
            final(self).buffer() == old(self).buffer(),
            match r {
                Ok(h) => bytes_at(old(self).buffer(), old(self).cursor(), 32) == Some(h@)
                    && final(self).cursor() == old(self).cursor() + 32,
                Err(e) => bytes_at(old(self).buffer(), old(self).cursor(), 32) is None
                    && e == DecodeError::UnexpectedEndOfData
                    && final(self).cursor() == old(self).cursor(),
            },
    {
        let w = self.next_word()?;
        Ok(H256(w))
    }

    /// Returns the next 32 bytes read as a big-endian unsigned integer.
    pub fn next_u256(&mut self) -> (r: Result<U256, DecodeError>)
        requires
            old(self).wf(),
        ensures
            final(self).wf(),
            final(self).buffer() == old(self).buffer(),
            match r {
                Ok(n) => decode_u256_at(old(self).buffer(), old(self).cursor()) == Some(n@)
                    && final(self).cursor() == old(self).cursor() + 32,
                Err(e) => decode_u256_at(old(self).buffer(), old(self).cursor()) is None
                    && e == DecodeError::UnexpectedEndOfData
                    && final(self).cursor() == old(self).cursor(),
            },
    {
        let w = self.next_word()?;
        Ok(U256::from_be_bytes(w))
    }

    /// Returns the next 32 bytes as an array.
    fn next_word(&mut self) -> (r: Result<[u8; 32], DecodeError>)
        requires
            old(self).wf(),
        ensures
            final(self).wf(),
            final(self).buffer() == old(self).buffer(),
            match r {
                Ok(w) => bytes_at(old(self).buffer(), old(self).cursor(), 32) == Some(w@)
                    && final(self).cursor() == old(self).cursor() + 32,
                Err(e) => bytes_at(old(self).buffer(), old(self).cursor(), 32) is None
                    && e == DecodeError::UnexpectedEndOfData
                    && final(self).cursor() == old(self).cursor(),
            },
    {
        let v = self.next_vec(WORD_LEN)?;
        let mut w: [u8; 32] = [0u8; 32];
        let mut i: usize = 0;
        while i < 32
            invariant
                v@.len() == 32,
                i <= 32,
                forall|k: int| 0 <= k < i ==> w@[k] == v@[k],
            decreases 32 - i,
        {
            w[i] = v[i];
            i = i + 1;
        }
        assert(w@ =~= v@);
        Ok(w)
    }
}

} // verus!
