//! Streaming frame decoder that never buffers a payload.
//!
//! Where [`crate::decoder::Decoder`] holds a whole frame before yielding
//! it, this decoder keeps at most one header (under 40 bytes) in memory
//! and hands every payload byte straight through to the consumer. It
//! enforces the same size budget and fails on the same malformed inputs,
//! one byte at a time.

use crate::error::WireErr;
use crate::ids::{ConnID, ServiceID};
use crate::thes_wf::{frame_cid, frame_len_field, frame_sid, LEN_HEADER};
use vstd::prelude::*;

verus! {

/// What one input byte produced.
pub enum NoHeapStep {
    /// The byte went into the header under construction.
    Buffered,
    /// The header is complete: the frame's ids and how many payload
    /// bytes will follow. A `payload_len` of zero ends the frame here.
    Header { sid: ServiceID, cid: ConnID, payload_len: u64 },
    /// A payload byte, passed through; `last` marks the frame's end.
    Payload { byte: u8, last: bool },
}

/// Cuts an incoming byte stream into frames while holding at most one
/// header in memory: decode with bounded memory, whatever the frame size.
pub struct DecoderNoHeap {
    hdr: Vec<u8>,
    remaining: u64,
    in_payload: bool,
    max_size: usize,
}

impl DecoderNoHeap {
    /// The header bytes collected so far.
    pub closed spec fn header_buf(&self) -> Seq<u8> {
        self.hdr@
    }

    /// Whether the decoder is inside a payload.
    pub closed spec fn in_payload(&self) -> bool {
        self.in_payload
    }

    /// Payload bytes still owed to the current frame.
    pub closed spec fn remaining(&self) -> u64 {
        self.remaining
    }

    /// The largest frame this decoder accepts, header included.
    pub closed spec fn max_size(&self) -> usize {
        self.max_size
    }

    /// The decoder buffers strictly less than one header, always: this is
    /// the bounded-memory guarantee of the no-heap variant.
    pub open spec fn inv(&self) -> bool {
        &&& self.header_buf().len() < LEN_HEADER
        &&& (self.in_payload() ==> self.header_buf().len() == 0 && self.remaining() >= 1)
    }

    /// A fresh decoder that accepts frames up to `max_size` bytes.
    pub fn new(max_size: usize) -> (r: DecoderNoHeap)
        ensures
            r.inv(),
            r.header_buf() == Seq::<u8>::empty(),
            !r.in_payload(),
            r.max_size() == max_size,
    {
        DecoderNoHeap { hdr: Vec::new(), remaining: 0, in_payload: false, max_size }
    }

    /// Consume one byte of input.
    ///
    /// Inside a payload the byte is passed straight through. Otherwise it
    /// is buffered until the header is complete; the fortieth byte either
    /// yields the header, or fails with `MessageSizeExceeded` when the
    /// announced length is over budget and with `Deserialize` when it is
    /// smaller than a header. After a failure the decoder is reset; the
    /// peer closes the connection on such errors.
    pub fn push_byte(&mut self, b: u8) -> (r: Result<NoHeapStep, WireErr>)
        requires
            old(self).inv(),
        ensures
            final(self).inv(),
            final(self).max_size() == old(self).max_size(),
            old(self).in_payload() ==> {
                &&& r matches Ok(s)
                &&& s matches NoHeapStep::Payload { byte, last }
                &&& byte == b
                &&& last == (old(self).remaining() == 1)
                &&& final(self).in_payload() == (old(self).remaining() > 1)
                &&& final(self).remaining() == old(self).remaining() - 1
                &&& final(self).header_buf() == Seq::<u8>::empty()
            },
            !old(self).in_payload() && old(self).header_buf().len() < LEN_HEADER - 1 ==> {
                &&& r matches Ok(s)
                &&& s matches NoHeapStep::Buffered
                &&& final(self).header_buf() == old(self).header_buf().push(b)
                &&& !final(self).in_payload()
            },
            !old(self).in_payload() && old(self).header_buf().len() == LEN_HEADER - 1 ==> ({
                let h = old(self).header_buf().push(b);
                let len = frame_len_field(h);
                &&& (len > old(self).max_size() ==> (r matches Err(e) && e
                    == WireErr::MessageSizeExceeded))
                &&& (len <= old(self).max_size() && len < LEN_HEADER ==> (r matches Err(e) && e
                    == WireErr::Deserialize))
                &&& (len <= old(self).max_size() && len >= LEN_HEADER ==> {
                    &&& r matches Ok(s)
                    &&& s matches NoHeapStep::Header { sid, cid, payload_len }
                    &&& sid == frame_sid(h)
                    &&& cid == frame_cid(h)
                    &&& payload_len == len - LEN_HEADER
                    &&& final(self).in_payload() == (len > LEN_HEADER)
                    &&& (len > LEN_HEADER ==> final(self).remaining() == len - LEN_HEADER)
                })
                &&& final(self).header_buf() == Seq::<u8>::empty()
            }),
    {
        if self.in_payload {
            let last = self.remaining == 1;
            self.remaining = self.remaining - 1;
            if last {
                self.in_payload = false;
            }
            return Ok(NoHeapStep::Payload { byte: b, last });
        }
        self.hdr.push(b);
        if self.hdr.len() < LEN_HEADER {
            return Ok(NoHeapStep::Buffered);
        }
        let mut h: Vec<u8> = Vec::new();
        core::mem::swap(&mut self.hdr, &mut h);
        let len = crate::byteops::read_u64_at(h.as_slice(), 0);
        proof {
            assert(h@.subrange(0, 8) =~= old(self).header_buf().push(b).subrange(0, 8));
        }
        if len > (self.max_size as u64) {
            return Err(WireErr::MessageSizeExceeded);
        }
        if len < (LEN_HEADER as u64) {
            return Err(WireErr::Deserialize);
        }
        let lo = crate::byteops::read_u64_at(h.as_slice(), 8);
        let hi = crate::byteops::read_u64_at(h.as_slice(), 16);
        let clo = crate::byteops::read_u64_at(h.as_slice(), 24);
        let chi = crate::byteops::read_u64_at(h.as_slice(), 32);
        proof {
            let hv = old(self).header_buf().push(b);
            assert(h@.subrange(8, 16) =~= hv.subrange(8, 16));
            assert(h@.subrange(16, 24) =~= hv.subrange(16, 24));
            assert(h@.subrange(24, 32) =~= hv.subrange(24, 32));
            assert(h@.subrange(32, 40) =~= hv.subrange(32, 40));
        }
        let payload_len = len - (LEN_HEADER as u64);
        if payload_len > 0 {
            self.in_payload = true;
            self.remaining = payload_len;
        }
        Ok(
            NoHeapStep::Header {
                sid: ServiceID { lo, hi },
                cid: ConnID { lo: clo, hi: chi },
                payload_len,
            },
        )
    }

    /// The transport reached end of input: succeeds exactly when the
    /// decoder is between frames with nothing buffered.
    pub fn finish(&self) -> (r: Result<(), WireErr>)
        ensures
            (self.header_buf().len() == 0 && !self.in_payload()) ==> (r matches Ok(u) && u == ()),
            (self.header_buf().len() > 0 || self.in_payload()) ==> (r matches Err(e) && e
                == WireErr::Deserialize),
    {
        if self.hdr.len() == 0 && !self.in_payload {
            Ok(())
        } else {
            Err(WireErr::Deserialize)
        }
    }
}

} // verus!
