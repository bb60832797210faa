use vstd::prelude::*;
use crate::decoder::{bytes_at, decode_h160_at, decode_u256_at};
use crate::encoder::padded_address;
use crate::word::{byte_at, lemma_bytes_be_value, pow256, u256_word, H160, H256, U256};

verus! {

/// An address that `push_h160` appends to any buffer is what `next_h160`
/// reads back from the position where it was appended.
pub proof fn lemma_h160_round_trip(written: Seq<u8>, a: H160)
    ensures
        decode_h160_at(written + padded_address(a@), written.len()) == Some(a@),
{
    let buf = written + padded_address(a@);
    assert(buf.subrange(written.len() + 12 as int, written.len() + 32 as int) =~= a@);
}

/// An address that `push_h160_not_padded` appends is what `next_h160_not_padded`
/// reads back from the position where it was appended.
pub proof fn lemma_h160_not_padded_round_trip(written: Seq<u8>, a: H160)
    ensures
        bytes_at(written + a@, written.len(), 20) == Some(a@),
{
    assert((written + a@).subrange(written.len() as int, written.len() + 20 as int) =~= a@);
}

/// An identifier that `push_h256` appends is what `next_h256` reads back
/// from the position where it was appended.
pub proof fn lemma_h256_round_trip(written: Seq<u8>, h: H256)
    ensures
        bytes_at(written + h@, written.len(), 32) == Some(h@),
{
    assert((written + h@).subrange(written.len() as int, written.len() + 32 as int) =~= h@);
}

/// An integer that `push_u256` appends is what `next_u256` reads back
/// from the position where it was appended.
pub proof fn lemma_u256_round_trip(written: Seq<u8>, n: U256)
    ensures
        decode_u256_at(written + u256_word(n@), written.len()) == Some(n@),
{
    let w = (written + u256_word(n@)).subrange(written.len() as int, written.len() + 32 as int);
    assert(w =~= u256_word(n@));
    n.lemma_bound();
    assert forall|k: int| 0 <= k < w.len() implies w[k] == #[trigger] byte_at(n@, (w.len() - 1 - k) as nat) by {
        assert(w[k] == u256_word(n@)[k]);
    }
    lemma_bytes_be_value(w, n@);
}

/// A padded address is one word: twelve zero bytes, then the twenty bytes of the address.
pub proof fn lemma_padded_address_layout(a: H160)
    ensures
        padded_address(a@).len() == 32,
        forall|i: int| 0 <= i < 12 ==> #[trigger] padded_address(a@)[i] == 0,
        forall|i: int| 12 <= i < 32 ==> #[trigger] padded_address(a@)[i] == a@[i - 12],
{
}

/// The word of an integer starts with its most significant byte and ends
/// with its least significant byte.
pub proof fn lemma_u256_word_layout(n: U256)
    ensures
        u256_word(n@).len() == 32,
        u256_word(n@)[0] == n@ / pow256(31),
        u256_word(n@)[31] == n@ % 256,
{
    n.lemma_bound();
    reveal_with_fuel(pow256, 2);
    assert(pow256(0) == 1);
    assert(n@ / 1 == n@);
    let top = pow256(31);
    assert(pow256(32) == 256 * top);
    assert(top > 0) by {
        reveal_with_fuel(pow256, 32);
    }
    assert((n@ / top) % 256 == n@ / top) by (nonlinear_arith)
        requires
            n@ < 256 * top,
            top > 0,
    {
        assert(n@ / top < 256);
    }
    assert(u256_word(n@)[0] == byte_at(n@, 31));
    assert(u256_word(n@)[31] == byte_at(n@, 0));
}

} // verus!
