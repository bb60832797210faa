use vstd::prelude::*;

verus! {

/// `256` raised to the power `n`.
pub open spec fn pow256(n: nat) -> nat
    decreases n,
{
    if n == 0 {
        1
    } else {
        256 * pow256((n - 1) as nat)
    }
}

/// The unsigned integer that the bytes of `s` spell, most significant byte first.
pub open spec fn be_value(s: Seq<u8>) -> nat
    decreases s.len(),
{
    if s.len() == 0 {
        0
    } else {
        be_value(s.drop_last()) * 256 + s.last() as nat
    }
}

/// Byte `i` of `n`, counting from the least significant byte.
pub open spec fn byte_at(n: nat, i: nat) -> u8 {
    ((n / pow256(i)) % 256) as u8
}

proof fn lemma_pow256_positive(n: nat)
    ensures
        pow256(n) > 0,
    decreases n,
{
    if n > 0 {
        lemma_pow256_positive((n - 1) as nat);
    }
}

proof fn lemma_byte_at_shift(v: nat, i: nat)
    ensures
        byte_at(v, i + 1) == byte_at(v / 256, i),
{
    lemma_pow256_positive(i);
    assert(pow256(i + 1) == 256 * pow256(i));
    vstd::arithmetic::div_mod::lemma_div_denominator(v as int, 256, pow256(i) as int);
}

/// A big-endian byte string is below `256` to the power of its length.
pub proof fn lemma_be_value_bound(s: Seq<u8>)
    ensures
        be_value(s) < pow256(s.len()),
    decreases s.len(),
{
    if s.len() > 0 {
        let t = s.drop_last();
        lemma_be_value_bound(t);
        assert(be_value(s) < pow256(s.len())) by (nonlinear_arith)
            requires
                be_value(s) == be_value(t) * 256 + s.last() as nat,
                be_value(t) < pow256(t.len()),
                pow256(s.len()) == 256 * pow256(t.len()),
                s.last() < 256,
        ;
    }
}

/// Byte `k` of a big-endian string is byte `len - 1 - k` of the integer it spells.
pub proof fn lemma_be_value_bytes(s: Seq<u8>)
    ensures
        forall|k: int| 0 <= k < s.len() ==> s[k] == #[trigger] byte_at(be_value(s), (s.len() - 1 - k) as nat),
    decreases s.len(),
{
    if s.len() > 0 {
        let t = s.drop_last();
        let v = be_value(s);
        lemma_be_value_bytes(t);
        assert(v / 256 == be_value(t) && v % 256 == s.last()) by (nonlinear_arith)
            requires
                v == be_value(t) * 256 + s.last() as nat,
                s.last() < 256,
        ;
        assert forall|k: int| 0 <= k < s.len() implies s[k] == #[trigger] byte_at(v, (s.len() - 1 - k) as nat) by {
            if k == s.len() - 1 {
                assert(pow256(0) == 1);
                assert(v / 1 == v);
            } else {
                lemma_byte_at_shift(v, (t.len() - 1 - k) as nat);
                assert(t[k] == byte_at(be_value(t), (t.len() - 1 - k) as nat));
                assert(t[k] == s[k]);
            }
        }
    }
}

/// A string whose bytes are those of `v`, most significant first, spells `v`.
pub proof fn lemma_bytes_be_value(s: Seq<u8>, v: nat)
    requires
        v < pow256(s.len()),
        forall|k: int| 0 <= k < s.len() ==> s[k] == #[trigger] byte_at(v, (s.len() - 1 - k) as nat),
    ensures
        be_value(s) == v,
    decreases s.len(),
{
    if s.len() > 0 {
        let t = s.drop_last();
        let w = v / 256;
        assert(w < pow256(t.len())) by (nonlinear_arith)
            requires
                v < pow256(s.len()),
                pow256(s.len()) == 256 * pow256(t.len()),
                w == v / 256,
        ;
        assert forall|k: int| 0 <= k < t.len() implies t[k] == #[trigger] byte_at(w, (t.len() - 1 - k) as nat) by {
            lemma_byte_at_shift(v, (t.len() - 1 - k) as nat);
            assert(s[k] == byte_at(v, (s.len() - 1 - k) as nat));
        }
        lemma_bytes_be_value(t, w);
        assert(pow256(0) == 1);
        assert(v / 1 == v);
        let last: int = s.len() - 1;
        assert(s[last] == byte_at(v, (s.len() - 1 - last) as nat));
        assert(be_value(s) == v) by (nonlinear_arith)
            requires
                be_value(s) == w * 256 + s.last() as nat,
                s.last() as nat == v % 256,
                w == v / 256,
        ;
    }
}

/// The 32-byte big-endian word that holds `v`: byte `k` is byte `31 - k` of `v`.
pub open spec fn u256_word(v: nat) -> Seq<u8> {
    Seq::new(32, |k: int| byte_at(v, (31 - k) as nat))
}

/// A 20-byte account or contract address.
#[derive(Clone, Copy, Debug, PartialEq, Eq)]
pub struct H160(pub [u8; 20]);

impl View for H160 {
    type V = Seq<u8>;

    open spec fn view(&self) -> Seq<u8> {
        self.0@
    }
}

/// A 32-byte identifier, such as a digest.
#[derive(Clone, Copy, Debug, PartialEq, Eq)]
pub struct H256(pub [u8; 32]);

impl View for H256 {
    type V = Seq<u8>;

    open spec fn view(&self) -> Seq<u8> {
        self.0@
    }
}

/// An unsigned 256-bit integer, held as its 32 big-endian bytes.
#[derive(Clone, Copy, Debug, PartialEq, Eq)]
pub struct U256 {
    be: [u8; 32],
}

impl View for U256 {
    type V = nat;

    closed spec fn view(&self) -> nat {
        be_value(self.be@)
    }
}

impl U256 {
    /// Every value fits in 256 bits.
    pub proof fn lemma_bound(self)
        ensures
            self@ < pow256(32),
    {
        lemma_be_value_bound(self.be@);
    }

    /// The integer whose big-endian bytes are `bytes`.
    pub fn from_be_bytes(bytes: [u8; 32]) -> (r: U256)
        ensures
            r@ == be_value(bytes@),
    {
        U256 { be: bytes }
    }

    /// The 32 big-endian bytes of the integer.
    pub fn to_be_bytes(&self) -> (r: [u8; 32])
        ensures
            r@ == u256_word(self@),
    {
        proof {
            lemma_be_value_bytes(self.be@);
        }
        assert(self.be@ =~= u256_word(self@));
        self.be
    }

    /// The integer `n`.
    pub fn from_u64(n: u64) -> (r: U256)
        ensures
            r@ == n as nat,
    {
        let mut be: [u8; 32] = [0u8; 32];
        let mut m: u64 = n;
        let mut j: usize = 0;
        assert(pow256(0) == 1);
        assert(n as nat / 1 == n as nat);
        while j < 32
            invariant
                j <= 32,
                m as nat == n as nat / pow256(j as nat),
                forall|i: int| 0 <= i < j ==> be@[31 - i] == #[trigger] byte_at(n as nat, i as nat),
            decreases 32 - j,
        {
            proof {
                lemma_pow256_positive(j as nat);
                vstd::arithmetic::div_mod::lemma_div_denominator(n as int, pow256(j as nat) as int, 256);
                assert(pow256(j as nat + 1) == 256 * pow256(j as nat));
            }
            be[31 - j] = (m % 256) as u8;
            m = m / 256;
            j = j + 1;
        }
        proof {
            reveal_with_fuel(pow256, 33);
            assert forall|k: int| 0 <= k < 32 implies be@[k] == #[trigger] byte_at(n as nat, (32 - 1 - k) as nat) by {
                assert(be@[31 - (31 - k)] == byte_at(n as nat, (31 - k) as nat));
            }
            lemma_bytes_be_value(be@, n as nat);
        }
        U256 { be }
    }
}

} // verus!
