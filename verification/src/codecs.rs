//! Identifiers of the payload codecs a peer can announce.
//!
//! The value on the wire is the codec's four-byte little-endian code; the
//! CBOR code comes from the multiformat multicodec table.

use vstd::bytes::*;
use vstd::prelude::*;

verus! {

/// A payload codec supported by the runtime.
#[derive(Clone, Copy, PartialEq, Eq, Structural, Hash, Debug)]
pub enum Codecs {
    /// Concise Binary Object Representation.
    CBOR,
}

impl Codecs {
    /// The multicodec code of this codec.
    pub open spec fn spec_code(self) -> u32 {
        match self {
            Codecs::CBOR => 0x51,
        }
    }

    /// The multicodec code of this codec.
    pub fn code(self) -> (r: u32)
        ensures
            r == self.spec_code(),
    {
        match self {
            Codecs::CBOR => 0x51,
        }
    }

    /// The four wire bytes of this codec: its code, little-endian.
    pub open spec fn spec_to_bytes(self) -> Seq<u8> {
        spec_u32_to_le_bytes(self.spec_code())
    }

    /// Encode the codec as its four wire bytes.
    pub fn to_bytes(self) -> (r: Vec<u8>)
        ensures
            r@ == self.spec_to_bytes(),
    {
        u32_to_le_bytes(self.code())
    }

    /// The codec four wire bytes decode to, if any.
    pub open spec fn spec_from_bytes(b: Seq<u8>) -> Option<Codecs> {
        if b.len() == 4 && spec_u32_from_le_bytes(b) == 0x51 {
            Some(Codecs::CBOR)
        } else {
            None
        }
    }

    /// Decode a codec from its four wire bytes. Succeeds exactly on the
    /// codes of known codecs.
    pub fn try_from_bytes(b: &[u8]) -> (r: Option<Codecs>)
        ensures
            r == Self::spec_from_bytes(b@),
    {
        if b.len() != 4 {
            return None;
        }
        let code = u32_from_le_bytes(b);
        if code == 0x51 {
            Some(Codecs::CBOR)
        } else {
            None
        }
    }
}

/// Every codec survives the trip onto the wire and back.
pub proof fn lemma_codecs_round_trip(c: Codecs)
    ensures
        Codecs::spec_from_bytes(c.spec_to_bytes()) == Some(c),
{
    lemma_auto_spec_u32_to_from_le_bytes();
}

} // verus!
