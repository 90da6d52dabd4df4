//! Error taxonomy of the peer runtime.
//!
//! [`ErrKind`] is the wire-transmissible core of an error: when an inbound
//! request fails, the peer answers with a response frame whose payload
//! carries an encoded `ErrKind`, so the caller on the other side learns
//! why its request failed. [`PeerErr`] wraps a kind with the structured
//! context handed to local callers.

use crate::byteops::push_u64_le;
use crate::ids::{ConnID, ServiceID};
use vstd::bytes::*;
use vstd::prelude::*;
use vstd::slice::slice_subrange;

verus! {

/// The kind of a peer error; exactly this much crosses the wire inside a
/// protocol error frame.
#[derive(Clone, Copy, PartialEq, Eq, Structural, Debug)]
pub enum ErrKind {
    /// Malformed header or payload.
    Deserialize,
    /// Local response serialization failed.
    Serialize,
    /// The service id is not registered; carries the offending id.
    UnknownService(ServiceID),
    /// The service id is known but no handler is installed.
    NoHandler,
    /// Internal invariant breach; never expected.
    Downcast,
    /// The target actor's mailbox is closed.
    HandlerDead,
    /// A downstream relay peer is unreachable.
    RelayGone,
    /// The local peer closed before completion.
    ConnectionClosed,
    /// A frame exceeded the configured size budget.
    MessageSizeExceeded,
    /// A per-call deadline elapsed.
    Timeout,
}

/// The byte encoding of an error kind: one tag byte, and for
/// `UnknownService` the 16 wire bytes of the offending service id.
pub open spec fn spec_encode_kind(k: ErrKind) -> Seq<u8> {
    match k {
        ErrKind::Deserialize => seq![1u8],
        ErrKind::Serialize => seq![2u8],
        ErrKind::UnknownService(sid) => seq![3u8] + sid.wire(),
        ErrKind::NoHandler => seq![4u8],
        ErrKind::Downcast => seq![5u8],
        ErrKind::HandlerDead => seq![6u8],
        ErrKind::RelayGone => seq![7u8],
        ErrKind::ConnectionClosed => seq![8u8],
        ErrKind::MessageSizeExceeded => seq![9u8],
        ErrKind::Timeout => seq![10u8],
    }
}

/// The error kind a byte row decodes to, if any.
pub open spec fn spec_decode_kind(b: Seq<u8>) -> Option<ErrKind> {
    if b.len() == 1 {
        match b[0] {
            1u8 => Some(ErrKind::Deserialize),
            2u8 => Some(ErrKind::Serialize),
            4u8 => Some(ErrKind::NoHandler),
            5u8 => Some(ErrKind::Downcast),
            6u8 => Some(ErrKind::HandlerDead),
            7u8 => Some(ErrKind::RelayGone),
            8u8 => Some(ErrKind::ConnectionClosed),
            9u8 => Some(ErrKind::MessageSizeExceeded),
            10u8 => Some(ErrKind::Timeout),
            _ => None,
        }
    } else if b.len() == 17 && b[0] == 3u8 {
        Some(
            ErrKind::UnknownService(
                ServiceID {
                    lo: spec_u64_from_le_bytes(b.subrange(1, 9)),
                    hi: spec_u64_from_le_bytes(b.subrange(9, 17)),
                },
            ),
        )
    } else {
        None
    }
}

/// Encode an error kind for the payload of a protocol error frame.
pub fn encode_kind(k: &ErrKind) -> (r: Vec<u8>)
    ensures
        r@ == spec_encode_kind(*k),
{
    let mut out: Vec<u8> = Vec::new();
    match k {
        ErrKind::Deserialize => {
            out.push(1);
        },
        ErrKind::Serialize => {
            out.push(2);
        },
        ErrKind::UnknownService(sid) => {
            out.push(3);
            push_u64_le(&mut out, sid.lo);
            push_u64_le(&mut out, sid.hi);
            proof {
                assert(out@ =~= seq![3u8] + sid.wire());
            }
        },
        ErrKind::NoHandler => {
            out.push(4);
        },
        ErrKind::Downcast => {
            out.push(5);
        },
        ErrKind::HandlerDead => {
            out.push(6);
        },
        ErrKind::RelayGone => {
            out.push(7);
        },
        ErrKind::ConnectionClosed => {
            out.push(8);
        },
        ErrKind::MessageSizeExceeded => {
            out.push(9);
        },
        ErrKind::Timeout => {
            out.push(10);
        },
    }
    proof {
        assert(out@ =~= spec_encode_kind(*k));
    }
    out
}

/// Decode the payload of a protocol error frame back into a kind.
pub fn decode_kind(b: &[u8]) -> (r: Option<ErrKind>)
    ensures
        r == spec_decode_kind(b@),
{
    if b.len() == 1 {
        let tag = b[0];
        match tag {
            1u8 => Some(ErrKind::Deserialize),
            2u8 => Some(ErrKind::Serialize),
            4u8 => Some(ErrKind::NoHandler),
            5u8 => Some(ErrKind::Downcast),
            6u8 => Some(ErrKind::HandlerDead),
            7u8 => Some(ErrKind::RelayGone),
            8u8 => Some(ErrKind::ConnectionClosed),
            9u8 => Some(ErrKind::MessageSizeExceeded),
            10u8 => Some(ErrKind::Timeout),
            _ => None,
        }
    } else if b.len() == 17 && b[0] == 3 {
        let lo = u64_from_le_bytes(slice_subrange(b, 1, 9));
        let hi = u64_from_le_bytes(slice_subrange(b, 9, 17));
        Some(ErrKind::UnknownService(ServiceID { lo, hi }))
    } else {
        None
    }
}

/// Every error kind survives the trip onto the wire and back.
pub proof fn lemma_kind_round_trip(k: ErrKind)
    ensures
        spec_decode_kind(spec_encode_kind(k)) == Some(k),
{
    lemma_auto_spec_u64_to_from_le_bytes();
    match k {
        ErrKind::UnknownService(sid) => {
            let e = spec_encode_kind(k);
            assert(e.subrange(1, 9) =~= spec_u64_to_le_bytes(sid.lo));
            assert(e.subrange(9, 17) =~= spec_u64_to_le_bytes(sid.hi));
        },
        _ => {},
    }
}

/// Structured context attached to peer errors: which peer, which service,
/// which call, and a free-form description.
#[derive(Clone, Debug)]
pub struct PeerErrCtx {
    pub context: Option<String>,
    pub peer_id: Option<u64>,
    pub peer_name: Option<String>,
    pub sid: Option<ServiceID>,
    pub cid: Option<ConnID>,
}

impl PeerErrCtx {
    /// A context with every field unknown.
    pub fn empty() -> (r: PeerErrCtx)
        ensures
            r.context is None,
            r.peer_id is None,
            r.peer_name is None,
            r.sid is None,
            r.cid is None,
    {
        PeerErrCtx { context: None, peer_id: None, peer_name: None, sid: None, cid: None }
    }
}

/// An error surfaced by the peer runtime to a local caller.
#[derive(Clone, Debug)]
pub enum PeerErr {
    /// Malformed header or payload.
    Deserialize { ctx: PeerErrCtx },
    /// Local response serialization failed.
    Serialize { ctx: PeerErrCtx },
    /// The service id is not registered.
    UnknownService { ctx: PeerErrCtx, sid: ServiceID },
    /// The service id is known but no handler is installed.
    NoHandler { ctx: PeerErrCtx },
    /// Internal invariant breach; never expected.
    Downcast { ctx: PeerErrCtx },
    /// The target actor's mailbox is closed.
    HandlerDead { ctx: PeerErrCtx },
    /// A downstream relay peer is unreachable.
    RelayGone { ctx: PeerErrCtx, relay_id: u64, relay_name: Option<String> },
    /// The local peer closed before completion.
    ConnectionClosed { ctx: PeerErrCtx },
    /// A frame exceeded the configured size budget.
    MessageSizeExceeded { ctx: PeerErrCtx },
    /// A per-call deadline elapsed.
    Timeout { ctx: PeerErrCtx },
    /// An error reported by the remote peer for one of our requests.
    Remote { ctx: PeerErrCtx, kind: ErrKind },
}

impl PeerErr {
    /// The wire-transmissible kind of this error. A `Remote` error keeps
    /// the kind the remote reported.
    pub open spec fn spec_kind(&self) -> ErrKind {
        match self {
            PeerErr::Deserialize { .. } => ErrKind::Deserialize,
            PeerErr::Serialize { .. } => ErrKind::Serialize,
            PeerErr::UnknownService { sid, .. } => ErrKind::UnknownService(*sid),
            PeerErr::NoHandler { .. } => ErrKind::NoHandler,
            PeerErr::Downcast { .. } => ErrKind::Downcast,
            PeerErr::HandlerDead { .. } => ErrKind::HandlerDead,
            PeerErr::RelayGone { .. } => ErrKind::RelayGone,
            PeerErr::ConnectionClosed { .. } => ErrKind::ConnectionClosed,
            PeerErr::MessageSizeExceeded { .. } => ErrKind::MessageSizeExceeded,
            PeerErr::Timeout { .. } => ErrKind::Timeout,
            PeerErr::Remote { kind, .. } => *kind,
        }
    }

    /// The wire-transmissible kind of this error.
    pub fn kind(&self) -> (r: ErrKind)
        ensures
            r == self.spec_kind(),
    {
        match self {
            PeerErr::Deserialize { .. } => ErrKind::Deserialize,
            PeerErr::Serialize { .. } => ErrKind::Serialize,
            PeerErr::UnknownService { sid, .. } => ErrKind::UnknownService(*sid),
            PeerErr::NoHandler { .. } => ErrKind::NoHandler,
            PeerErr::Downcast { .. } => ErrKind::Downcast,
            PeerErr::HandlerDead { .. } => ErrKind::HandlerDead,
            PeerErr::RelayGone { .. } => ErrKind::RelayGone,
            PeerErr::ConnectionClosed { .. } => ErrKind::ConnectionClosed,
            PeerErr::MessageSizeExceeded { .. } => ErrKind::MessageSizeExceeded,
            PeerErr::Timeout { .. } => ErrKind::Timeout,
            PeerErr::Remote { kind, .. } => *kind,
        }
    }
}

/// An error of the wire framing layer.
#[derive(Clone, Copy, PartialEq, Eq, Structural, Debug)]
pub enum WireErr {
    /// The input ended, or a frame began, with fewer bytes than a header.
    Deserialize,
    /// A frame announced a length above the configured maximum.
    MessageSizeExceeded,
}

} // verus!
