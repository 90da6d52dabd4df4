//! The wire format: a self-delimited, length-prefixed binary frame.
//!
//! A frame is one flat byte buffer:
//!
//! ```text
//! offset  size  field
//!   0      8    length   (little-endian u64, includes the header)
//!   8     16    sid      (16 raw bytes, low u64 half first)
//!  24     16    cid      (16 raw bytes, low u64 half first)
//!  40      -    payload  (length - 40 bytes)
//! ```
//!
//! The length field counts the header itself, so a frame with an empty
//! payload has length 40. An all-zero cid marks a fire-and-forget send;
//! an all-ones sid marks a response rather than a request.

use crate::byteops::{lemma_le_bytes_zero, read_u64_at, write_u64_at, zero8};
use crate::error::WireErr;
use crate::ids::{ConnID, ServiceID};
use vstd::bytes::*;
use vstd::prelude::*;
use vstd::slice::{slice_subrange, slice_to_vec};

verus! {

/// Bytes of the length field.
pub const LEN_LEN: usize = 8;

/// Bytes of the service id field.
pub const LEN_SID: usize = 16;

/// Bytes of the connection id field.
pub const LEN_CID: usize = 16;

/// Offset of the length field.
pub const IDX_LEN: usize = 0;

/// Offset of the service id field.
pub const IDX_SID: usize = LEN_LEN;

/// Offset of the connection id field.
pub const IDX_CID: usize = IDX_SID + LEN_SID;

/// Offset of the payload.
pub const IDX_MSG: usize = IDX_CID + LEN_CID;

/// Total header size in bytes.
pub const LEN_HEADER: usize = IDX_MSG;

/// The value of the length field of a frame's bytes.
pub open spec fn frame_len_field(b: Seq<u8>) -> u64
    recommends
        b.len() >= LEN_HEADER,
{
    spec_u64_from_le_bytes(b.subrange(0, 8))
}

/// The service id held in a frame's bytes.
pub open spec fn frame_sid(b: Seq<u8>) -> ServiceID
    recommends
        b.len() >= LEN_HEADER,
{
    ServiceID {
        lo: spec_u64_from_le_bytes(b.subrange(8, 16)),
        hi: spec_u64_from_le_bytes(b.subrange(16, 24)),
    }
}

/// The connection id held in a frame's bytes.
pub open spec fn frame_cid(b: Seq<u8>) -> ConnID
    recommends
        b.len() >= LEN_HEADER,
{
    ConnID {
        lo: spec_u64_from_le_bytes(b.subrange(24, 32)),
        hi: spec_u64_from_le_bytes(b.subrange(32, 40)),
    }
}

/// The payload held in a frame's bytes: everything after the header.
pub open spec fn frame_msg(b: Seq<u8>) -> Seq<u8>
    recommends
        b.len() >= LEN_HEADER,
{
    b.skip(LEN_HEADER as int)
}

/// A frame's bytes are exactly its four header fields followed by its
/// payload: reading the fields back and re-encoding them reproduces the
/// buffer byte for byte.
pub proof fn lemma_frame_bytes_shape(b: Seq<u8>)
    requires
        b.len() >= LEN_HEADER,
    ensures
        b == spec_u64_to_le_bytes(frame_len_field(b)) + frame_sid(b).wire() + frame_cid(b).wire()
            + frame_msg(b),
{
    lemma_auto_spec_u64_to_from_le_bytes();
    assert(spec_u64_to_le_bytes(spec_u64_from_le_bytes(b.subrange(0, 8))) == b.subrange(0, 8));
    assert(spec_u64_to_le_bytes(spec_u64_from_le_bytes(b.subrange(8, 16))) == b.subrange(8, 16));
    assert(spec_u64_to_le_bytes(spec_u64_from_le_bytes(b.subrange(16, 24))) == b.subrange(16, 24));
    assert(spec_u64_to_le_bytes(spec_u64_from_le_bytes(b.subrange(24, 32))) == b.subrange(24, 32));
    assert(spec_u64_to_le_bytes(spec_u64_from_le_bytes(b.subrange(32, 40))) == b.subrange(32, 40));
    assert(b =~= b.subrange(0, 8) + b.subrange(8, 16) + b.subrange(16, 24) + b.subrange(24, 32)
        + b.subrange(32, 40) + b.skip(LEN_HEADER as int));
}

/// A multi-service wire message, owning its raw bytes.
///
/// The buffer always holds at least a header. The length field is kept in
/// step with the buffer by [`ThesWF::append_payload`], but can be set
/// freely with [`ThesWF::set_len`], exactly as a frame freshly decoded
/// from untrusted bytes might carry any value there.
#[derive(Debug)]
pub struct ThesWF {
    data: Vec<u8>,
}

impl View for ThesWF {
    type V = Seq<u8>;

    closed spec fn view(&self) -> Seq<u8> {
        self.data@
    }
}

impl Clone for ThesWF {
    /// Clone the frame; the copy holds the same bytes.
    fn clone(&self) -> (r: Self)
        ensures
            r@ == self@,
    {
        ThesWF { data: slice_to_vec(self.data.as_slice()) }
    }
}

impl ThesWF {
    /// The buffer holds at least a full header.
    pub open spec fn wf(&self) -> bool {
        self@.len() >= LEN_HEADER
    }

    /// Build an empty frame whose buffer can take a payload of `size`
    /// bytes without reallocating. The header is pre-written: length
    /// field 40, sid and cid all zero, empty payload.
    pub fn with_capacity(size: usize) -> (r: Self)
        requires
            size + LEN_HEADER <= usize::MAX,
        ensures
            r.wf(),
            r@.len() == LEN_HEADER,
            frame_len_field(r@) == LEN_HEADER,
            frame_sid(r@) == ServiceID::spec_null(),
            frame_cid(r@) == ConnID::spec_null(),
            frame_msg(r@) == Seq::<u8>::empty(),
    {
        let mut data: Vec<u8> = Vec::with_capacity(size + LEN_HEADER);
        let mut i: usize = 0;
        while i < LEN_HEADER
            invariant
                0 <= i <= LEN_HEADER,
                data@ =~= Seq::new(i as nat, |j: int| 0u8),
            decreases LEN_HEADER - i,
        {
            data.push(0);
            i = i + 1;
        }
        write_u64_at(&mut data, IDX_LEN, LEN_HEADER as u64);
        let r = ThesWF { data };
        proof {
            lemma_le_bytes_zero();
            assert(r@.subrange(0, 8) =~= spec_u64_to_le_bytes(LEN_HEADER as u64));
            assert(r@.subrange(8, 16) =~= zero8());
            assert(r@.subrange(16, 24) =~= zero8());
            assert(r@.subrange(24, 32) =~= zero8());
            assert(r@.subrange(32, 40) =~= zero8());
            lemma_auto_spec_u64_to_from_le_bytes();
            assert(frame_msg(r@) =~= Seq::<u8>::empty());
        }
        r
    }

    /// Wrap raw bytes as a frame; they must hold at least a header.
    /// Succeeds exactly on inputs of 40 bytes or more.
    pub fn try_from_bytes(data: Vec<u8>) -> (r: Result<Self, WireErr>)
        ensures
            data@.len() >= LEN_HEADER ==> (r matches Ok(f) && f@ == data@),
            data@.len() < LEN_HEADER ==> (r matches Err(e) && e == WireErr::Deserialize),
    {
        if data.len() < LEN_HEADER {
            return Err(WireErr::Deserialize);
        }
        Ok(ThesWF { data })
    }

    /// Direct access to the raw buffer; encoding a frame is emitting
    /// exactly these bytes.
    pub fn as_buf(&self) -> (r: &[u8])
        ensures
            r@ == self@,
    {
        self.data.as_slice()
    }

    /// How many bytes the buffer could hold without reallocating.
    ///
    /// Relies on `Vec::capacity`; the documentation promises the capacity
    /// is at least the length.
    #[verifier::external_body]
    pub fn capacity(&self) -> (r: usize)
        ensures
            r >= self@.len(),
    {
        self.data.capacity()
    }

    /// The number of bytes actually buffered.
    pub fn buffered_len(&self) -> (r: usize)
        ensures
            r == self@.len(),
    {
        self.data.len()
    }

    /// The value of the length field.
    pub fn len(&self) -> (r: u64)
        requires
            self.wf(),
        ensures
            r == frame_len_field(self@),
    {
        read_u64_at(self.data.as_slice(), IDX_LEN)
    }

    /// Overwrite the length field; nothing else moves.
    pub fn set_len(&mut self, len: u64)
        requires
            old(self).wf(),
        ensures
            final(self).wf(),
            final(self)@.len() == old(self)@.len(),
            frame_len_field(final(self)@) == len,
            frame_sid(final(self)@) == frame_sid(old(self)@),
            frame_cid(final(self)@) == frame_cid(old(self)@),
            frame_msg(final(self)@) == frame_msg(old(self)@),
    {
        write_u64_at(&mut self.data, IDX_LEN, len);
        proof {
            lemma_auto_spec_u64_to_from_le_bytes();
            assert(self@.subrange(0, 8) =~= spec_u64_to_le_bytes(len));
            assert(self@.subrange(8, 16) =~= old(self)@.subrange(8, 16));
            assert(self@.subrange(16, 24) =~= old(self)@.subrange(16, 24));
            assert(self@.subrange(24, 32) =~= old(self)@.subrange(24, 32));
            assert(self@.subrange(32, 40) =~= old(self)@.subrange(32, 40));
            assert(frame_msg(self@) =~= frame_msg(old(self)@));
        }
    }

    /// The service id of this message: which service the frame addresses,
    /// or all ones when the frame is a response.
    pub fn sid(&self) -> (r: ServiceID)
        requires
            self.wf(),
        ensures
            r == frame_sid(self@),
    {
        let lo = read_u64_at(self.data.as_slice(), IDX_SID);
        let hi = read_u64_at(self.data.as_slice(), IDX_SID + 8);
        ServiceID { lo, hi }
    }

    /// Overwrite the service id; nothing else moves.
    pub fn set_sid(&mut self, sid: ServiceID)
        requires
            old(self).wf(),
        ensures
            final(self).wf(),
            final(self)@.len() == old(self)@.len(),
            frame_sid(final(self)@) == sid,
            frame_len_field(final(self)@) == frame_len_field(old(self)@),
            frame_cid(final(self)@) == frame_cid(old(self)@),
            frame_msg(final(self)@) == frame_msg(old(self)@),
    {
        write_u64_at(&mut self.data, IDX_SID, sid.lo);
        write_u64_at(&mut self.data, IDX_SID + 8, sid.hi);
        proof {
            lemma_auto_spec_u64_to_from_le_bytes();
            assert(self@.subrange(0, 8) =~= old(self)@.subrange(0, 8));
            assert(self@.subrange(8, 16) =~= spec_u64_to_le_bytes(sid.lo));
            assert(self@.subrange(16, 24) =~= spec_u64_to_le_bytes(sid.hi));
            assert(self@.subrange(24, 32) =~= old(self)@.subrange(24, 32));
            assert(self@.subrange(32, 40) =~= old(self)@.subrange(32, 40));
            assert(frame_msg(self@) =~= frame_msg(old(self)@));
        }
    }

    /// The connection id of this message: all zero for a send, otherwise
    /// the value that matches a response to its call.
    pub fn cid(&self) -> (r: ConnID)
        requires
            self.wf(),
        ensures
            r == frame_cid(self@),
    {
        let lo = read_u64_at(self.data.as_slice(), IDX_CID);
        let hi = read_u64_at(self.data.as_slice(), IDX_CID + 8);
        ConnID { lo, hi }
    }

    /// Overwrite the connection id; nothing else moves.
    pub fn set_cid(&mut self, cid: ConnID)
        requires
            old(self).wf(),
        ensures
            final(self).wf(),
            final(self)@.len() == old(self)@.len(),
            frame_cid(final(self)@) == cid,
            frame_len_field(final(self)@) == frame_len_field(old(self)@),
            frame_sid(final(self)@) == frame_sid(old(self)@),
            frame_msg(final(self)@) == frame_msg(old(self)@),
    {
        write_u64_at(&mut self.data, IDX_CID, cid.lo);
        write_u64_at(&mut self.data, IDX_CID + 8, cid.hi);
        proof {
            lemma_auto_spec_u64_to_from_le_bytes();
            assert(self@.subrange(0, 8) =~= old(self)@.subrange(0, 8));
            assert(self@.subrange(8, 16) =~= old(self)@.subrange(8, 16));
            assert(self@.subrange(16, 24) =~= old(self)@.subrange(16, 24));
            assert(self@.subrange(24, 32) =~= spec_u64_to_le_bytes(cid.lo));
            assert(self@.subrange(32, 40) =~= spec_u64_to_le_bytes(cid.hi));
            assert(frame_msg(self@) =~= frame_msg(old(self)@));
        }
    }

    /// The serialized payload: everything after the header.
    pub fn msg(&self) -> (r: &[u8])
        requires
            self.wf(),
        ensures
            r@ == frame_msg(self@),
    {
        slice_subrange(self.data.as_slice(), IDX_MSG, self.data.len())
    }

    /// Append payload bytes and grow the length field by as many.
    pub fn append_payload(&mut self, buf: &[u8])
        requires
            old(self).wf(),
            frame_len_field(old(self)@) + buf@.len() <= u64::MAX,
            old(self)@.len() + buf@.len() <= usize::MAX,
        ensures
            final(self).wf(),
            final(self)@.len() == old(self)@.len() + buf@.len(),
            frame_len_field(final(self)@) == frame_len_field(old(self)@) + buf@.len(),
            frame_sid(final(self)@) == frame_sid(old(self)@),
            frame_cid(final(self)@) == frame_cid(old(self)@),
            frame_msg(final(self)@) == frame_msg(old(self)@) + buf@,
    {
        let old_len = self.len();
        let mut i: usize = 0;
        while i < buf.len()
            invariant
                0 <= i <= buf@.len(),
                self@ =~= old(self)@ + buf@.take(i as int),
                old(self)@.len() + buf@.len() <= usize::MAX,
            decreases buf@.len() - i,
        {
            self.data.push(buf[i]);
            i = i + 1;
        }
        proof {
            assert(self@ =~= old(self)@ + buf@);
        }
        let new_len = old_len + (buf.len() as u64);
        write_u64_at(&mut self.data, IDX_LEN, new_len);
        proof {
            let mid = old(self)@ + buf@;
            assert(self@.subrange(0, 8) =~= spec_u64_to_le_bytes(new_len));
            lemma_auto_spec_u64_to_from_le_bytes();
            assert(self@.subrange(8, 16) =~= old(self)@.subrange(8, 16));
            assert(self@.subrange(16, 24) =~= old(self)@.subrange(16, 24));
            assert(self@.subrange(24, 32) =~= old(self)@.subrange(24, 32));
            assert(self@.subrange(32, 40) =~= old(self)@.subrange(32, 40));
            assert(frame_msg(self@) =~= frame_msg(old(self)@) + buf@);
        }
    }
}

impl Default for ThesWF {
    /// An empty frame: buffer capacity for two headers, length field 40,
    /// sid and cid zeroed, no payload.
    fn default() -> (r: Self)
        ensures
            r.wf(),
            r@.len() == LEN_HEADER,
            frame_len_field(r@) == LEN_HEADER,
            frame_sid(r@) == ServiceID::spec_null(),
            frame_cid(r@) == ConnID::spec_null(),
            frame_msg(r@) == Seq::<u8>::empty(),
    {
        ThesWF::with_capacity(LEN_HEADER)
    }
}

} // verus!
