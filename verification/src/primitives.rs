//! Fixed-width values that accounts, keys and records are made of.

use vstd::prelude::*;

verus! {

/// A 20-byte account address.
#[derive(Clone, Copy, Debug, PartialEq, Eq, Hash)]
pub struct Address {
    pub bytes: [u8; 20],
}

impl View for Address {
    type V = Seq<u8>;

    open spec fn view(&self) -> Seq<u8> {
        self.bytes@
    }
}

/// A 32-byte hash.
#[derive(Clone, Copy, Debug, PartialEq, Eq, Hash)]
pub struct B256 {
    pub bytes: [u8; 32],
}

impl View for B256 {
    type V = Seq<u8>;

    open spec fn view(&self) -> Seq<u8> {
        self.bytes@
    }
}

/// A 256-bit unsigned number, held as its 32 big-endian bytes.
#[derive(Clone, Copy, Debug, PartialEq, Eq, Hash)]
pub struct U256 {
    pub be_bytes: [u8; 32],
}

impl View for U256 {
    type V = Seq<u8>;

    open spec fn view(&self) -> Seq<u8> {
        self.be_bytes@
    }
}

/// The eight big-endian bytes of a 64-bit number.
pub open spec fn u64_be_bytes(v: u64) -> Seq<u8> {
    seq![
        (v >> 56) as u8,
        (v >> 48) as u8,
        (v >> 40) as u8,
        (v >> 32) as u8,
        (v >> 24) as u8,
        (v >> 16) as u8,
        (v >> 8) as u8,
        v as u8,
    ]
}

/// The 64-bit number that eight big-endian bytes stand for.
pub open spec fn u64_of_be(b: Seq<u8>) -> u64
    recommends
        b.len() == 8,
{
    ((b[0] as u64) << 56) | ((b[1] as u64) << 48) | ((b[2] as u64) << 40) | ((b[3] as u64) << 32)
        | ((b[4] as u64) << 24) | ((b[5] as u64) << 16) | ((b[6] as u64) << 8) | (b[7] as u64)
}

/// Reading the bytes written for a number gives the number back.
pub proof fn lemma_u64_be_roundtrip(v: u64)
    ensures
        u64_be_bytes(v).len() == 8,
        u64_of_be(u64_be_bytes(v)) == v,
{
    assert(((((v >> 56) as u8) as u64) << 56) | ((((v >> 48) as u8) as u64) << 48) | ((((v >> 40)
        as u8) as u64) << 40) | ((((v >> 32) as u8) as u64) << 32) | ((((v >> 24) as u8) as u64)
        << 24) | ((((v >> 16) as u8) as u64) << 16) | ((((v >> 8) as u8) as u64) << 8) | ((v
        as u8) as u64) == v) by (bit_vector);
}

/// Writing the number read from eight bytes gives the bytes back.
pub proof fn lemma_u64_be_canonical(b: Seq<u8>)
    requires
        b.len() == 8,
    ensures
        u64_be_bytes(u64_of_be(b)) == b,
{
    let b0 = b[0];
    let b1 = b[1];
    let b2 = b[2];
    let b3 = b[3];
    let b4 = b[4];
    let b5 = b[5];
    let b6 = b[6];
    let b7 = b[7];
    let v = u64_of_be(b);
    assert(v == ((b0 as u64) << 56) | ((b1 as u64) << 48) | ((b2 as u64) << 40) | ((b3 as u64)
        << 32) | ((b4 as u64) << 24) | ((b5 as u64) << 16) | ((b6 as u64) << 8) | (b7 as u64));
    assert(v == ((b0 as u64) << 56) | ((b1 as u64) << 48) | ((b2 as u64) << 40) | ((b3 as u64)
        << 32) | ((b4 as u64) << 24) | ((b5 as u64) << 16) | ((b6 as u64) << 8) | (b7 as u64)
        ==> (v >> 56) as u8 == b0 && (v >> 48) as u8 == b1 && (v >> 40) as u8 == b2 && (v >> 32)
        as u8 == b3 && (v >> 24) as u8 == b4 && (v >> 16) as u8 == b5 && (v >> 8) as u8 == b6
        && v as u8 == b7) by (bit_vector);
    assert(u64_be_bytes(v) =~= b);
}

/// The eight big-endian bytes of `v`.
pub fn u64_to_be(v: u64) -> (out: [u8; 8])
    ensures
        out@ == u64_be_bytes(v),
{
    let out: [u8; 8] = [
        (v >> 56) as u8,
        (v >> 48) as u8,
        (v >> 40) as u8,
        (v >> 32) as u8,
        (v >> 24) as u8,
        (v >> 16) as u8,
        (v >> 8) as u8,
        v as u8,
    ];
    assert(out@ =~= u64_be_bytes(v));
    out
}

/// The number that the eight bytes of `src` starting at `from` stand for.
pub fn u64_from_be(src: &[u8], from: usize) -> (v: u64)
    requires
        from + 8 <= src@.len(),
    ensures
        v == u64_of_be(src@.subrange(from as int, from + 8)),
{
    let total: usize = src.len();
    let ghost b = src@.subrange(from as int, from + 8);
    assert(b[0] == src@[from + 0] && b[1] == src@[from + 1] && b[2] == src@[from + 2] && b[3]
        == src@[from + 3] && b[4] == src@[from + 4] && b[5] == src@[from + 5] && b[6] == src@[from
        + 6] && b[7] == src@[from + 7]);
    ((src[from] as u64) << 56) | ((src[from + 1] as u64) << 48) | ((src[from + 2] as u64) << 40) | (
    (src[from + 3] as u64) << 32) | ((src[from + 4] as u64) << 24) | ((src[from + 5] as u64) << 16)
        | ((src[from + 6] as u64) << 8) | (src[from + 7] as u64)
}

impl Address {
    /// The address whose bytes are all zero.
    pub fn zero() -> (a: Address)
        ensures
            a@ == Seq::new(20, |i: int| 0u8),
    {
        let a = Address { bytes: [0u8; 20] };
        assert(a@ =~= Seq::new(20, |i: int| 0u8));
        a
    }
}

impl B256 {
    /// The hash whose bytes are all zero.
    pub fn zero() -> (h: B256)
        ensures
            h@ == Seq::new(32, |i: int| 0u8),
    {
        let h = B256 { bytes: [0u8; 32] };
        assert(h@ =~= Seq::new(32, |i: int| 0u8));
        h
    }
}

/// The 32 big-endian bytes of a number below 2^64: 24 zero bytes, then its
/// eight bytes.
pub open spec fn u256_bytes_of_u64(v: u64) -> Seq<u8> {
    Seq::new(24, |i: int| 0u8) + u64_be_bytes(v)
}

impl U256 {
    /// The number zero.
    pub fn zero() -> (n: U256)
        ensures
            n@ == Seq::new(32, |i: int| 0u8),
            n.spec_is_zero(),
    {
        let n = U256 { be_bytes: [0u8; 32] };
        assert(n@ =~= Seq::new(32, |i: int| 0u8));
        n
    }

    /// Whether every byte is zero.
    pub open spec fn spec_is_zero(&self) -> bool {
        forall|i: int| 0 <= i < 32 ==> self@[i] == 0
    }

    /// Whether the number is zero.
    pub fn is_zero(&self) -> (zero: bool)
        ensures
            zero == self.spec_is_zero(),
    {
        let mut i: usize = 0;
        while i < 32
            invariant
                i <= 32,
                forall|j: int| 0 <= j < i ==> self@[j] == 0,
            decreases 32 - i,
        {
            if self.be_bytes[i] != 0 {
                assert(self@[i as int] != 0);
                return false;
            }
            i = i + 1;
        }
        true
    }

    /// The 256-bit number equal to `v`.
    pub fn from_u64(v: u64) -> (n: U256)
        ensures
            n@ == u256_bytes_of_u64(v),
    {
        let low = u64_to_be(v);
        let mut be_bytes: [u8; 32] = [0u8; 32];
        let mut i: usize = 0;
        while i < 8
            invariant
                i <= 8,
                low@ == u64_be_bytes(v),
                forall|j: int| 0 <= j < 24 ==> be_bytes@[j] == 0,
                forall|j: int| 0 <= j < i ==> be_bytes@[24 + j] == low@[j],
            decreases 8 - i,
        {
            be_bytes[24 + i] = low[i];
            i = i + 1;
        }
        let n = U256 { be_bytes };
        assert(n@ =~= u256_bytes_of_u64(v));
        n
    }

    /// The number as a `u64`, when it is below 2^64.
    pub fn to_u64(&self) -> (v: Option<u64>)
        ensures
            match v {
                Some(x) => self@ == u256_bytes_of_u64(x),
                None => exists|i: int| 0 <= i < 24 && self@[i] != 0,
            },
    {
        let mut i: usize = 0;
        while i < 24
            invariant
                i <= 24,
                forall|j: int| 0 <= j < i ==> self@[j] == 0,
            decreases 24 - i,
        {
            if self.be_bytes[i] != 0 {
                assert(self@[i as int] != 0);
                return None;
            }
            i = i + 1;
        }
        let x = u64_from_be(self.be_bytes.as_slice(), 24);
        proof {
            lemma_u64_be_canonical(self@.subrange(24, 32));
            assert(self@ =~= u256_bytes_of_u64(x));
        }
        Some(x)
    }
}

} // verus!
