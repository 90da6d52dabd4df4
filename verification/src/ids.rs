//! Service and connection identifiers.
//!
//! Both identifiers are 16-byte values that travel on the wire in
//! little-endian order, low half first. A `ServiceID` names a service and
//! is derived deterministically from a namespace and a type name, so that
//! two processes agree on it without coordination. A `ConnID` correlates a
//! call with its response; it is drawn at random for every outgoing call,
//! and the all-zero value marks a fire-and-forget send.

use vstd::bytes::*;
use vstd::prelude::*;

verus! {

/// Multiplier of the 64-bit FNV-1a hash.
pub const FNV64_PRIME: u64 = 0x100000001b3;

/// Offset basis of the 64-bit FNV-1a hash.
pub const FNV64_BASIS: u64 = 0xcbf29ce484222325;

/// One FNV-1a round: fold one byte into the running hash.
pub open spec fn fnv1a_step(h: u64, b: u8) -> u64 {
    (h ^ (b as u64)).wrapping_mul(FNV64_PRIME)
}

/// FNV-1a over a byte sequence, starting from hash state `h`.
pub open spec fn fnv1a(s: Seq<u8>, h: u64) -> u64
    decreases s.len(),
{
    if s.len() == 0 {
        h
    } else {
        fnv1a(s.drop_first(), fnv1a_step(h, s[0]))
    }
}

/// Run the FNV-1a rounds over a byte slice.
fn fnv1a_bytes(s: &[u8], init: u64) -> (r: u64)
    ensures
        r == fnv1a(s@, init),
{
    let mut h = init;
    let mut i: usize = 0;
    proof {
        assert(s@.skip(0) =~= s@);
    }
    while i < s.len()
        invariant
            0 <= i <= s@.len(),
            fnv1a(s@, init) == fnv1a(s@.skip(i as int), h),
        decreases s@.len() - i,
    {
        proof {
            assert(s@.skip(i as int)[0] == s@[i as int]);
            assert(s@.skip(i as int).drop_first() =~= s@.skip(i as int + 1));
        }
        h = (h ^ (s[i] as u64)).wrapping_mul(FNV64_PRIME);
        i = i + 1;
    }
    proof {
        assert(s@.skip(s@.len() as int) =~= Seq::<u8>::empty());
    }
    h
}

/// The seed hashed into a `ServiceID`: `namespace || "::" || typename`.
pub open spec fn sid_seed(namespace: Seq<u8>, typename: Seq<u8>) -> Seq<u8> {
    namespace + seq![58u8, 58u8] + typename
}

/// A 16-byte service identifier, kept as two 64-bit halves.
///
/// On the wire the low half comes first, each half little-endian, so the
/// struct stands for exactly 16 raw bytes and equality is bytewise.
#[derive(Clone, Copy, PartialEq, Eq, Structural, Hash, Debug)]
pub struct ServiceID {
    pub lo: u64,
    pub hi: u64,
}

impl ServiceID {
    /// The identifier a seed hashes to: the low half is FNV-1a over the
    /// seed from the standard offset basis, the high half is FNV-1a over
    /// the seed again, continuing from the low half. The algorithm is part
    /// of the protocol: peers in other languages must compute the same
    /// 16 bytes.
    pub open spec fn spec_from_seed(namespace: Seq<u8>, typename: Seq<u8>) -> ServiceID {
        let seed = sid_seed(namespace, typename);
        let lo = fnv1a(seed, FNV64_BASIS);
        ServiceID { lo, hi: fnv1a(seed, lo) }
    }

    /// Derive the identifier of a service from its namespace and type name.
    ///
    /// The derivation is a pure function: the same inputs give the same
    /// 16 bytes in every process and on every platform.
    pub fn from_seed(namespace: &[u8], typename: &[u8]) -> (r: ServiceID)
        ensures
            r == Self::spec_from_seed(namespace@, typename@),
    {
        let mut seed: Vec<u8> = Vec::new();
        let mut i: usize = 0;
        while i < namespace.len()
            invariant
                0 <= i <= namespace@.len(),
                seed@ == namespace@.take(i as int),
            decreases namespace@.len() - i,
        {
            seed.push(namespace[i]);
            i = i + 1;
        }
        seed.push(58);
        seed.push(58);
        let mut j: usize = 0;
        while j < typename.len()
            invariant
                0 <= j <= typename@.len(),
                seed@ == namespace@ + seq![58u8, 58u8] + typename@.take(j as int),
            decreases typename@.len() - j,
        {
            seed.push(typename[j]);
            j = j + 1;
        }
        proof {
            assert(seed@ =~= sid_seed(namespace@, typename@));
        }
        let lo = fnv1a_bytes(seed.as_slice(), FNV64_BASIS);
        let hi = fnv1a_bytes(seed.as_slice(), lo);
        ServiceID { lo, hi }
    }

    /// The reserved all-zero identifier: no service.
    pub open spec fn spec_null() -> ServiceID {
        ServiceID { lo: 0, hi: 0 }
    }

    /// The reserved all-ones identifier: marks a frame as a response.
    pub open spec fn spec_full() -> ServiceID {
        ServiceID { lo: u64::MAX, hi: u64::MAX }
    }

    /// The reserved all-zero identifier: no service.
    pub fn null() -> (r: ServiceID)
        ensures
            r == Self::spec_null(),
    {
        ServiceID { lo: 0, hi: 0 }
    }

    /// The reserved all-ones identifier: marks a frame as a response.
    pub fn full() -> (r: ServiceID)
        ensures
            r == Self::spec_full(),
    {
        ServiceID { lo: u64::MAX, hi: u64::MAX }
    }

    /// Whether this is the reserved all-zero identifier.
    pub fn is_null(&self) -> (r: bool)
        ensures
            r == (*self == Self::spec_null()),
    {
        self.lo == 0 && self.hi == 0
    }

    /// Whether this is the reserved all-ones identifier.
    pub fn is_full(&self) -> (r: bool)
        ensures
            r == (*self == Self::spec_full()),
    {
        self.lo == u64::MAX && self.hi == u64::MAX
    }

    /// The 16 bytes this identifier occupies on the wire.
    pub open spec fn wire(self) -> Seq<u8> {
        spec_u64_to_le_bytes(self.lo) + spec_u64_to_le_bytes(self.hi)
    }
}

/// Two service identifiers are equal exactly when their wire bytes are:
/// the little-endian encoding is a bijection, so bytewise equality and
/// structural equality agree.
pub proof fn lemma_sid_wire_injective(a: ServiceID, b: ServiceID)
    ensures
        (a.wire() == b.wire()) <==> (a == b),
{
    lemma_auto_spec_u64_to_from_le_bytes();
    if a.wire() == b.wire() {
        assert(a.wire().subrange(0, 8) =~= spec_u64_to_le_bytes(a.lo));
        assert(a.wire().subrange(8, 16) =~= spec_u64_to_le_bytes(a.hi));
        assert(b.wire().subrange(0, 8) =~= spec_u64_to_le_bytes(b.lo));
        assert(b.wire().subrange(8, 16) =~= spec_u64_to_le_bytes(b.hi));
        assert(spec_u64_from_le_bytes(spec_u64_to_le_bytes(a.lo)) == a.lo);
        assert(spec_u64_from_le_bytes(spec_u64_to_le_bytes(b.lo)) == b.lo);
        assert(spec_u64_from_le_bytes(spec_u64_to_le_bytes(a.hi)) == a.hi);
        assert(spec_u64_from_le_bytes(spec_u64_to_le_bytes(b.hi)) == b.hi);
    }
}

/// A 16-byte connection identifier, kept as two 64-bit halves, low half
/// first on the wire as for [`ServiceID`].
///
/// The all-zero value marks a send (no response owed); any other value
/// marks a call or the response to one.
#[derive(Clone, Copy, PartialEq, Eq, Structural, Hash, Debug)]
pub struct ConnID {
    pub lo: u64,
    pub hi: u64,
}

/// Relies on `rand::random`, which draws from the thread-local CSPRNG.
/// Nothing is assumed of the value.
#[verifier::external_body]
fn random_u64() -> (r: u64) {
    rand::random()
}

impl ConnID {
    /// The reserved all-zero identifier: this frame is a send.
    pub open spec fn spec_null() -> ConnID {
        ConnID { lo: 0, hi: 0 }
    }

    /// The reserved all-zero identifier: this frame is a send.
    pub fn null() -> (r: ConnID)
        ensures
            r == Self::spec_null(),
    {
        ConnID { lo: 0, hi: 0 }
    }

    /// Whether this is the reserved all-zero identifier.
    pub fn is_null(&self) -> (r: bool)
        ensures
            r == (*self == Self::spec_null()),
    {
        self.lo == 0 && self.hi == 0
    }

    /// Draw a fresh identifier for an outgoing call from a
    /// cryptographically strong random number generator. Nothing is
    /// promised of the value; callers treat it as unique because 128
    /// random bits do not repeat within a connection's lifetime.
    pub fn random() -> ConnID {
        ConnID { lo: random_u64(), hi: random_u64() }
    }

    /// The 16 bytes this identifier occupies on the wire.
    pub open spec fn wire(self) -> Seq<u8> {
        spec_u64_to_le_bytes(self.lo) + spec_u64_to_le_bytes(self.hi)
    }
}

/// The reserved identifiers occupy exactly the bytes the wire format
/// names them by: `NULL` is sixteen zero bytes, `FULL` sixteen `0xff`
/// bytes.
pub proof fn lemma_reserved_wire_bytes()
    ensures
        ServiceID::spec_null().wire() == Seq::new(16, |i: int| 0u8),
        ServiceID::spec_full().wire() == Seq::new(16, |i: int| 0xffu8),
        ConnID::spec_null().wire() == Seq::new(16, |i: int| 0u8),
{
    crate::byteops::lemma_le_bytes_zero();
    crate::byteops::lemma_le_bytes_ones();
    assert(ServiceID::spec_null().wire() =~= Seq::new(16, |i: int| 0u8));
    assert(ServiceID::spec_full().wire() =~= Seq::new(16, |i: int| 0xffu8));
    assert(ConnID::spec_null().wire() =~= Seq::new(16, |i: int| 0u8));
}

/// Two connection identifiers are equal exactly when their wire bytes are.
pub proof fn lemma_cid_wire_injective(a: ConnID, b: ConnID)
    ensures
        (a.wire() == b.wire()) <==> (a == b),
{
    lemma_auto_spec_u64_to_from_le_bytes();
    if a.wire() == b.wire() {
        assert(a.wire().subrange(0, 8) =~= spec_u64_to_le_bytes(a.lo));
        assert(a.wire().subrange(8, 16) =~= spec_u64_to_le_bytes(a.hi));
        assert(b.wire().subrange(0, 8) =~= spec_u64_to_le_bytes(b.lo));
        assert(b.wire().subrange(8, 16) =~= spec_u64_to_le_bytes(b.hi));
        assert(spec_u64_from_le_bytes(spec_u64_to_le_bytes(a.lo)) == a.lo);
        assert(spec_u64_from_le_bytes(spec_u64_to_le_bytes(b.lo)) == b.lo);
        assert(spec_u64_from_le_bytes(spec_u64_to_le_bytes(a.hi)) == a.hi);
        assert(spec_u64_from_le_bytes(spec_u64_to_le_bytes(b.hi)) == b.hi);
    }
}

} // verus!
