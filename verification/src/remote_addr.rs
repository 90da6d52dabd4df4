//! The client-facing handle of a remote service.
//!
//! A `RemoteAddr` makes a remote service look like a local actor: the
//! caller serializes its message, the handle builds the wire frame —
//! with a fresh cid for a call, the null cid for a send — and, once the
//! peer resolves the call, turns what came back into the caller's
//! result. The payload codec lives outside the crate: frames carry
//! serialized bytes in both directions.

use crate::error::{ErrKind, PeerErr, PeerErrCtx};
use crate::ids::{ConnID, ServiceID};
use crate::peer::CallOutcome;
use crate::response::{classify_reply, spec_classify_reply};
use crate::thes_wf::{frame_cid, frame_len_field, frame_msg, frame_sid, ThesWF, LEN_HEADER};
use vstd::prelude::*;

verus! {

/// A cheap, cloneable handle over a peer, bound to one target service.
#[derive(Clone, Debug)]
pub struct RemoteAddr {
    pub peer_id: u64,
    pub peer_name: Option<String>,
    pub sid: ServiceID,
}

impl RemoteAddr {
    /// A handle that reaches the service `sid` through the peer named
    /// by `peer_id`.
    pub fn new(peer_id: u64, peer_name: Option<String>, sid: ServiceID) -> (r: RemoteAddr)
        ensures
            r.peer_id == peer_id,
            r.peer_name == peer_name,
            r.sid == sid,
    {
        RemoteAddr { peer_id, peer_name, sid }
    }

    /// Build the frame of an outbound call: this handle's service id,
    /// the caller's fresh cid, and the serialized message.
    pub fn build_call(&self, cid: ConnID, payload: &[u8]) -> (r: ThesWF)
        requires
            cid != ConnID::spec_null(),
            payload@.len() + LEN_HEADER <= usize::MAX,
        ensures
            r.wf(),
            r@.len() == LEN_HEADER + payload@.len(),
            frame_len_field(r@) == r@.len(),
            frame_sid(r@) == self.sid,
            frame_cid(r@) == cid,
            frame_msg(r@) == payload@,
    {
        let mut f = ThesWF::with_capacity(payload.len());
        f.set_sid(self.sid);
        f.set_cid(cid);
        f.append_payload(payload);
        f
    }

    /// Build the frame of an outbound send: the null cid says no
    /// response is owed.
    pub fn build_send(&self, payload: &[u8]) -> (r: ThesWF)
        requires
            payload@.len() + LEN_HEADER <= usize::MAX,
        ensures
            r.wf(),
            r@.len() == LEN_HEADER + payload@.len(),
            frame_len_field(r@) == r@.len(),
            frame_sid(r@) == self.sid,
            frame_cid(r@) == ConnID::spec_null(),
            frame_msg(r@) == payload@,
    {
        let mut f = ThesWF::with_capacity(payload.len());
        f.set_sid(self.sid);
        f.append_payload(payload);
        f
    }

    /// The error context this handle attaches to its failures.
    fn err_ctx(&self, cid: Option<ConnID>) -> (r: PeerErrCtx)
        ensures
            r.peer_id == Some(self.peer_id),
            r.sid == Some(self.sid),
            r.cid == cid,
    {
        PeerErrCtx {
            context: None,
            peer_id: Some(self.peer_id),
            peer_name: self.peer_name.clone(),
            sid: Some(self.sid),
            cid,
        }
    }

    /// Turn what the single-shot slot of an outbound call yielded into
    /// the caller's result.
    ///
    /// `None` means the slot's channel was dropped before anything was
    /// delivered: the peer stopped, so the call failed with
    /// `ConnectionClosed`. A locally failed call keeps its kind, as a
    /// `Timeout` or `ConnectionClosed` error. A delivered response
    /// yields its payload on a success tag; an error tag becomes the
    /// matching error — a remote `Timeout` is reported as `Timeout`,
    /// not as `Remote`, because the caller cannot tell whether its
    /// direct peer or a downstream relay timed out — and a payload
    /// that decodes as neither fails with `Deserialize`.
    pub fn interpret_reply(&self, cid: ConnID, outcome: Option<CallOutcome>) -> (r: Result<
        Vec<u8>,
        PeerErr,
    >)
        requires
            outcome matches Some(o) ==> (o matches CallOutcome::Delivered(f) ==> f.wf()),
        ensures
            outcome is None ==> (r matches Err(e) && e matches PeerErr::ConnectionClosed { .. }),
            outcome matches Some(o) ==> match o {
                CallOutcome::Failed(k) => {
                    &&& r matches Err(e)
                    &&& (k == ErrKind::Timeout ==> e matches PeerErr::Timeout { .. })
                    &&& (k == ErrKind::ConnectionClosed ==> e matches PeerErr::ConnectionClosed {
                        ..
                    })
                    &&& ((k != ErrKind::Timeout && k != ErrKind::ConnectionClosed) ==> (e matches
                    PeerErr::Remote { kind, .. } && kind == k))
                },
                CallOutcome::Delivered(f) => {
                    match spec_classify_reply(frame_msg(f@)) {
                        Some(Ok(payload)) => r matches Ok(v) && v@ == payload,
                        Some(Err(k)) => {
                            &&& r matches Err(e)
                            &&& (k == ErrKind::Timeout ==> e matches PeerErr::Timeout { .. })
                            &&& (k != ErrKind::Timeout ==> (e matches PeerErr::Remote {
                                kind,
                                ..
                            } && kind == k))
                        },
                        None => r matches Err(e) && e matches PeerErr::Deserialize { .. },
                    }
                },
            },
    {
        match outcome {
            None => Err(PeerErr::ConnectionClosed { ctx: self.err_ctx(Some(cid)) }),
            Some(CallOutcome::Failed(k)) => {
                if k == ErrKind::Timeout {
                    Err(PeerErr::Timeout { ctx: self.err_ctx(Some(cid)) })
                } else if k == ErrKind::ConnectionClosed {
                    Err(PeerErr::ConnectionClosed { ctx: self.err_ctx(Some(cid)) })
                } else {
                    Err(PeerErr::Remote { ctx: self.err_ctx(Some(cid)), kind: k })
                }
            },
            Some(CallOutcome::Delivered(f)) => {
                match classify_reply(f.msg()) {
                    Some(Ok(payload)) => Ok(payload),
                    Some(Err(k)) => {
                        if k == ErrKind::Timeout {
                            Err(PeerErr::Timeout { ctx: self.err_ctx(Some(cid)) })
                        } else {
                            Err(PeerErr::Remote { ctx: self.err_ctx(Some(cid)), kind: k })
                        }
                    },
                    None => Err(PeerErr::Deserialize { ctx: self.err_ctx(Some(cid)) }),
                }
            },
        }
    }
}

} // verus!
