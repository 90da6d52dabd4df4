//! Buffered frame decoder.
//!
//! The transport (owned by the surrounding runtime) feeds raw bytes in;
//! the decoder cuts them into whole frames. A frame is yielded only once
//! every one of its bytes has arrived; the length announced in the header
//! is checked against the configured maximum before any of the payload is
//! waited for, so a hostile peer cannot make the decoder buffer more than
//! `max_size` bytes.

use crate::byteops::read_u64_at;
use crate::error::WireErr;
use crate::thes_wf::{frame_len_field, ThesWF, LEN_HEADER};
use vstd::prelude::*;

verus! {

/// Cuts an incoming byte stream into length-delimited frames, holding
/// each frame fully in memory before yielding it.
pub struct Decoder {
    buf: Vec<u8>,
    max_size: usize,
}

impl Decoder {
    /// The bytes received and not yet cut into frames.
    pub closed spec fn buffered(&self) -> Seq<u8> {
        self.buf@
    }

    /// The largest frame this decoder accepts, header included.
    pub closed spec fn max_size(&self) -> usize {
        self.max_size
    }

    /// A fresh decoder that accepts frames up to `max_size` bytes.
    pub fn new(max_size: usize) -> (r: Decoder)
        ensures
            r.buffered() == Seq::<u8>::empty(),
            r.max_size() == max_size,
    {
        Decoder { buf: Vec::new(), max_size }
    }

    /// Hand the decoder the next bytes read from the transport.
    pub fn feed(&mut self, bytes: &[u8])
        requires
            old(self).buffered().len() + bytes@.len() <= usize::MAX,
        ensures
            final(self).buffered() == old(self).buffered() + bytes@,
            final(self).max_size() == old(self).max_size(),
    {
        let mut i: usize = 0;
        while i < bytes.len()
            invariant
                0 <= i <= bytes@.len(),
                self.buf@ =~= old(self).buffered() + bytes@.take(i as int),
                self.max_size == old(self).max_size(),
                old(self).buffered().len() + bytes@.len() <= usize::MAX,
            decreases bytes@.len() - i,
        {
            self.buf.push(bytes[i]);
            i = i + 1;
        }
        proof {
            assert(self.buf@ =~= old(self).buffered() + bytes@);
        }
    }

    /// Cut the next frame off the front of the buffer, if it is complete.
    ///
    /// `Ok(None)` asks for more bytes. An announced length above the
    /// maximum fails with `MessageSizeExceeded`; one below a header's
    /// size fails with `Deserialize`. Nothing is consumed on failure.
    pub fn next_frame(&mut self) -> (r: Result<Option<ThesWF>, WireErr>)
        ensures
            final(self).max_size() == old(self).max_size(),
            ({
                let b = old(self).buffered();
                if b.len() < 8 {
                    &&& r matches Ok(fo) && fo is None
                    &&& final(self).buffered() == b
                } else if frame_len_field(b) > old(self).max_size() {
                    &&& r matches Err(e) && e == WireErr::MessageSizeExceeded
                    &&& final(self).buffered() == b
                } else if frame_len_field(b) < LEN_HEADER {
                    &&& r matches Err(e) && e == WireErr::Deserialize
                    &&& final(self).buffered() == b
                } else if b.len() < frame_len_field(b) {
                    &&& r matches Ok(fo) && fo is None
                    &&& final(self).buffered() == b
                } else {
                    &&& r matches Ok(fo)
                    &&& fo matches Some(f)
                    &&& f@ == b.take(frame_len_field(b) as int)
                    &&& f.wf()
                    &&& final(self).buffered() == b.skip(frame_len_field(b) as int)
                }
            }),
    {
        if self.buf.len() < 8 {
            return Ok(None);
        }
        let announced = read_u64_at(self.buf.as_slice(), 0);
        proof {
            assert(self.buf@.subrange(0, 8) == old(self).buffered().subrange(0, 8));
        }
        if announced > (self.max_size as u64) {
            return Err(WireErr::MessageSizeExceeded);
        }
        if announced < (LEN_HEADER as u64) {
            return Err(WireErr::Deserialize);
        }
        if (self.buf.len() as u64) < announced {
            return Ok(None);
        }
        let flen = announced as usize;
        let mut tail = self.buf.split_off(flen);
        core::mem::swap(&mut self.buf, &mut tail);
        proof {
            assert(tail@ == old(self).buffered().subrange(0, flen as int));
            assert(tail@ =~= old(self).buffered().take(frame_len_field(old(self).buffered()) as int));
            assert(self.buf@ =~= old(self).buffered().skip(
                frame_len_field(old(self).buffered()) as int,
            ));
        }
        match ThesWF::try_from_bytes(tail) {
            Ok(f) => Ok(Some(f)),
            Err(_) => {
                proof {
                    assert(false);
                }
                Err(WireErr::Deserialize)
            },
        }
    }

    /// The transport reached end of input: any bytes still buffered are a
    /// truncated frame. Succeeds exactly when nothing is left over.
    pub fn finish(&self) -> (r: Result<(), WireErr>)
        ensures
            self.buffered().len() == 0 ==> (r matches Ok(u) && u == ()),
            self.buffered().len() > 0 ==> (r matches Err(e) && e == WireErr::Deserialize),
    {
        if self.buf.len() == 0 {
            Ok(())
        } else {
            Err(WireErr::Deserialize)
        }
    }
}

/// A frame whose length field matches its byte count, placed at the head
/// of a stream, is recovered exactly, whatever follows it: the header
/// reads the same, the cut falls on the frame's end, and the tail is left
/// for the next frame. This is the decoder half of the round-trip law;
/// encoding is emitting a frame's bytes unchanged.
pub proof fn lemma_decode_frame_prefix(f: Seq<u8>, t: Seq<u8>, max: usize)
    requires
        f.len() >= LEN_HEADER,
        frame_len_field(f) == f.len(),
        f.len() <= max,
    ensures
        (f + t).len() >= 8,
        frame_len_field(f + t) == f.len(),
        frame_len_field(f + t) <= max,
        LEN_HEADER <= frame_len_field(f + t) <= (f + t).len(),
        (f + t).take(frame_len_field(f + t) as int) == f,
        (f + t).skip(frame_len_field(f + t) as int) == t,
{
    let b = f + t;
    assert(b.subrange(0, 8) =~= f.subrange(0, 8));
    assert(b.take(f.len() as int) =~= f);
    assert(b.skip(f.len() as int) =~= t);
}

/// Round trip: a lone well-formed frame decodes to itself and leaves
/// nothing behind.
pub proof fn lemma_frame_round_trip(f: Seq<u8>, max: usize)
    requires
        f.len() >= LEN_HEADER,
        frame_len_field(f) == f.len(),
        f.len() <= max,
    ensures
        frame_len_field(f) <= max,
        LEN_HEADER <= frame_len_field(f) <= f.len(),
        f.take(frame_len_field(f) as int) == f,
        f.skip(frame_len_field(f) as int) == Seq::<u8>::empty(),
{
    lemma_decode_frame_prefix(f, Seq::<u8>::empty(), max);
    assert(f + Seq::<u8>::empty() =~= f);
}

} // verus!
