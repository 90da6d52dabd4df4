//! Response framing.
//!
//! A response travels as a frame whose sid is all ones and whose cid
//! echoes the request. Its payload starts with one tag byte: `TAG_OK`
//! followed by the serialized result, or `TAG_ERR` followed by an encoded
//! [`ErrKind`]. A remote error is not a side channel: it is an ordinary
//! frame built here, and the caller's side takes the kind back out.

use crate::error::{encode_kind, lemma_kind_round_trip, spec_decode_kind, spec_encode_kind, ErrKind};
use crate::ids::{ConnID, ServiceID};
use crate::thes_wf::{frame_cid, frame_len_field, frame_msg, frame_sid, ThesWF, LEN_HEADER};
use vstd::prelude::*;
use vstd::slice::{slice_subrange, slice_to_vec};

verus! {

/// Payload tag of a successful response.
pub const TAG_OK: u8 = 0;

/// Payload tag of a protocol error response.
pub const TAG_ERR: u8 = 1;

/// Build the response frame for a completed call: sid all ones, the
/// request's cid, and the serialized result behind a success tag.
pub fn prep_response(cid: ConnID, payload: &[u8]) -> (r: ThesWF)
    requires
        payload@.len() + LEN_HEADER + 1 <= usize::MAX,
    ensures
        r.wf(),
        r@.len() == LEN_HEADER + 1 + payload@.len(),
        frame_len_field(r@) == r@.len(),
        frame_sid(r@) == ServiceID::spec_full(),
        frame_cid(r@) == cid,
        frame_msg(r@) == seq![TAG_OK] + payload@,
{
    let mut f = ThesWF::with_capacity(payload.len() + 1);
    f.set_sid(ServiceID::full());
    f.set_cid(cid);
    let mut tag: Vec<u8> = Vec::new();
    tag.push(TAG_OK);
    f.append_payload(tag.as_slice());
    f.append_payload(payload);
    proof {
        assert(frame_msg(f@) =~= seq![TAG_OK] + payload@);
    }
    f
}

/// Build the protocol error frame for a failed request: sid all ones,
/// the request's cid, and the error kind behind an error tag. The peer
/// that receives it unblocks the matching call with this error.
pub fn prep_error(cid: ConnID, kind: &ErrKind) -> (r: ThesWF)
    ensures
        r.wf(),
        r@.len() == LEN_HEADER + 1 + spec_encode_kind(*kind).len(),
        frame_len_field(r@) == r@.len(),
        frame_sid(r@) == ServiceID::spec_full(),
        frame_cid(r@) == cid,
        frame_msg(r@) == seq![TAG_ERR] + spec_encode_kind(*kind),
{
    let enc = encode_kind(kind);
    proof {
        vstd::bytes::lemma_auto_spec_u64_to_from_le_bytes();
        assert(spec_encode_kind(*kind).len() <= 17);
    }
    let mut f = ThesWF::with_capacity(enc.len() + 1);
    f.set_sid(ServiceID::full());
    f.set_cid(cid);
    let mut tag: Vec<u8> = Vec::new();
    tag.push(TAG_ERR);
    f.append_payload(tag.as_slice());
    f.append_payload(enc.as_slice());
    proof {
        assert(frame_msg(f@) =~= seq![TAG_ERR] + spec_encode_kind(*kind));
    }
    f
}

/// The exact bytes of the frame [`prep_response`] builds.
pub open spec fn response_frame_bytes(cid: ConnID, payload: Seq<u8>) -> Seq<u8> {
    vstd::bytes::spec_u64_to_le_bytes((LEN_HEADER + 1 + payload.len()) as u64)
        + ServiceID::spec_full().wire() + cid.wire() + seq![TAG_OK] + payload
}

/// The exact bytes of the frame [`prep_error`] builds.
pub open spec fn error_frame_bytes(cid: ConnID, k: ErrKind) -> Seq<u8> {
    vstd::bytes::spec_u64_to_le_bytes((LEN_HEADER + 1 + spec_encode_kind(k).len()) as u64)
        + ServiceID::spec_full().wire() + cid.wire() + seq![TAG_ERR] + spec_encode_kind(k)
}

/// A frame with a success-tagged payload, the full sid, the caller's cid
/// and a length field matching its size is byte for byte the frame
/// [`prep_response`] builds.
pub proof fn lemma_response_frame_bytes(b: Seq<u8>, cid: ConnID, payload: Seq<u8>)
    requires
        b.len() == LEN_HEADER + 1 + payload.len(),
        frame_len_field(b) == b.len(),
        frame_sid(b) == ServiceID::spec_full(),
        frame_cid(b) == cid,
        frame_msg(b) == seq![TAG_OK] + payload,
    ensures
        b == response_frame_bytes(cid, payload),
{
    crate::thes_wf::lemma_frame_bytes_shape(b);
}

/// A frame with an error-tagged payload, the full sid, the caller's cid
/// and a length field matching its size is byte for byte the frame
/// [`prep_error`] builds.
pub proof fn lemma_error_frame_bytes(b: Seq<u8>, cid: ConnID, k: ErrKind)
    requires
        b.len() == LEN_HEADER + 1 + spec_encode_kind(k).len(),
        frame_len_field(b) == b.len(),
        frame_sid(b) == ServiceID::spec_full(),
        frame_cid(b) == cid,
        frame_msg(b) == seq![TAG_ERR] + spec_encode_kind(k),
    ensures
        b == error_frame_bytes(cid, k),
{
    crate::thes_wf::lemma_frame_bytes_shape(b);
}

/// What a response frame's payload says: the serialized result, the
/// remote error kind, or nothing decodable.
pub open spec fn spec_classify_reply(msg: Seq<u8>) -> Option<Result<Seq<u8>, ErrKind>> {
    if msg.len() >= 1 && msg[0] == TAG_OK {
        Some(Ok(msg.drop_first()))
    } else if msg.len() >= 1 && msg[0] == TAG_ERR {
        match spec_decode_kind(msg.drop_first()) {
            Some(k) => Some(Err(k)),
            None => None,
        }
    } else {
        None
    }
}

/// Take a response frame's payload apart: the serialized result on a
/// success tag, the error kind on an error tag, `None` when malformed.
pub fn classify_reply(msg: &[u8]) -> (r: Option<Result<Vec<u8>, ErrKind>>)
    ensures
        ({
            match spec_classify_reply(msg@) {
                Some(Ok(p)) => r matches Some(Ok(v)) && v@ == p,
                Some(Err(k)) => r matches Some(Err(k2)) && k2 == k,
                None => r is None,
            }
        }),
{
    if msg.len() == 0 {
        return None;
    }
    let tag = msg[0];
    let rest = slice_subrange(msg, 1, msg.len());
    proof {
        assert(rest@ =~= msg@.drop_first());
    }
    if tag == TAG_OK {
        Some(Ok(slice_to_vec(rest)))
    } else if tag == TAG_ERR {
        match crate::error::decode_kind(rest) {
            Some(k) => Some(Err(k)),
            None => None,
        }
    } else {
        None
    }
}

/// A success payload framed by [`prep_response`] classifies back to the
/// very bytes that went in: the response leg of the round-trip law.
pub proof fn lemma_reply_round_trip_ok(payload: Seq<u8>)
    ensures
        spec_classify_reply(seq![TAG_OK] + payload) == Some(Ok::<Seq<u8>, ErrKind>(payload)),
{
    assert((seq![TAG_OK] + payload).drop_first() =~= payload);
}

/// An error kind framed by [`prep_error`] classifies back to the same
/// kind: the error leg of the round-trip law.
pub proof fn lemma_reply_round_trip_err(k: ErrKind)
    ensures
        spec_classify_reply(seq![TAG_ERR] + spec_encode_kind(k)) == Some(
            Err::<Seq<u8>, ErrKind>(k),
        ),
{
    assert((seq![TAG_ERR] + spec_encode_kind(k)).drop_first() =~= spec_encode_kind(k));
    lemma_kind_round_trip(k);
}

} // verus!
