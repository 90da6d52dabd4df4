//! The relay map: forwards frames for advertised services to another
//! peer without deserializing them.
//!
//! A relay peer advertises service ids it does not handle itself; frames
//! for them are handed, raw, to a downstream peer. The downstream
//! response is spliced back so that end-to-end call correlation is kept:
//! the frame travels with its original cid and comes back with it.

use crate::error::{spec_encode_kind, ErrKind, PeerErr, PeerErrCtx};
use crate::ids::{ConnID, ServiceID};
use crate::response::{prep_error, TAG_ERR};
use crate::service_map::{DispatchTask, Response, ServiceMap, TaskModel};
use crate::thes_wf::{frame_cid, frame_len_field, frame_msg, frame_sid, ThesWF, LEN_HEADER};
use vstd::prelude::*;
use vstd::slice::slice_to_vec;

verus! {

/// Chooses the downstream peer a relayed frame goes to: one fixed
/// address, or a pool stepped round-robin for per-frame load spreading.
///
/// The pool stands in for a user-supplied sid-keyed selector closure: a
/// closure cannot live inside verified state, so the load-spreading it
/// existed for is provided here, sid-blind. Whatever chooser is used,
/// the relay's contracts tolerate a different address for every frame.
#[derive(Debug)]
pub enum ServiceHandler {
    /// One fixed downstream peer, by its runtime handle.
    Address(u64),
    /// A pool of downstream peers; every resolved frame takes the next
    /// one in turn.
    Pool { relays: Vec<u64>, next: usize },
}

/// Mathematical shape of a [`ServiceHandler`].
#[verifier::ext_equal]
pub enum HandlerModel {
    Address(u64),
    Pool { relays: Seq<u64>, next: int },
}

impl View for ServiceHandler {
    type V = HandlerModel;

    open spec fn view(&self) -> HandlerModel {
        match self {
            ServiceHandler::Address(a) => HandlerModel::Address(*a),
            ServiceHandler::Pool { relays, next } => HandlerModel::Pool {
                relays: relays@,
                next: *next as int,
            },
        }
    }
}

/// A pool is never empty and its cursor stays in range.
pub open spec fn handler_inv(h: HandlerModel) -> bool {
    match h {
        HandlerModel::Address(_) => true,
        HandlerModel::Pool { relays, next } => relays.len() > 0 && 0 <= next < relays.len(),
    }
}

/// The downstream peer the next frame resolves to.
pub open spec fn handler_current(h: HandlerModel) -> u64 {
    match h {
        HandlerModel::Address(a) => a,
        HandlerModel::Pool { relays, next } => relays[next],
    }
}

/// The handler after one resolution: a pool steps its cursor, wrapping
/// at the end; a fixed address stays put.
pub open spec fn handler_advanced(h: HandlerModel) -> HandlerModel {
    match h {
        HandlerModel::Address(a) => HandlerModel::Address(a),
        HandlerModel::Pool { relays, next } => HandlerModel::Pool {
            relays,
            next: if next + 1 == relays.len() {
                0
            } else {
                next + 1
            },
        },
    }
}

impl ServiceHandler {
    /// Pick the downstream peer for one frame and step the pool.
    fn resolve(&mut self) -> (r: u64)
        requires
            handler_inv(old(self)@),
        ensures
            handler_inv(final(self)@),
            r == handler_current(old(self)@),
            final(self)@ == handler_advanced(old(self)@),
    {
        let mut tmp = ServiceHandler::Address(0);
        core::mem::swap(self, &mut tmp);
        match tmp {
            ServiceHandler::Address(a) => {
                *self = ServiceHandler::Address(a);
                a
            },
            ServiceHandler::Pool { relays, next } => {
                let pool_len = relays.len();
                let r = relays[next];
                let stepped = if next + 1 == pool_len {
                    0
                } else {
                    next + 1
                };
                *self = ServiceHandler::Pool { relays, next: stepped };
                r
            },
        }
    }
}

/// Register services to be relayed to other backend providers. Handlers
/// here are peer addresses, not typed actors: frames pass through
/// without deserialization.
#[derive(Debug)]
pub struct RelayMap {
    handler: ServiceHandler,
    services: Vec<ServiceID>,
}

impl RelayMap {
    /// The current downstream chooser.
    pub closed spec fn handler_model(&self) -> HandlerModel {
        self.handler@
    }

    /// The advertised service ids.
    pub closed spec fn services_view(&self) -> Seq<ServiceID> {
        self.services@
    }

    /// The downstream chooser is well formed.
    pub open spec fn inv(&self) -> bool {
        handler_inv(self.handler_model())
    }

    /// Create a relay map that advertises `services` and forwards their
    /// frames to the peers `handler` picks.
    pub fn new(handler: ServiceHandler, services: Vec<ServiceID>) -> (r: Self)
        requires
            handler_inv(handler@),
        ensures
            r.inv(),
            r.handler_model() == handler@,
            r.services_view() == services@,
    {
        Self { handler, services }
    }

    /// Whether this map advertises `sid`.
    pub fn advertises(&self, sid: &ServiceID) -> (r: bool)
        ensures
            r == self.services_view().contains(*sid),
    {
        let mut i: usize = 0;
        while i < self.services.len()
            invariant
                0 <= i <= self.services_view().len(),
                forall|j: int| 0 <= j < i ==> self.services_view()[j] != *sid,
            decreases self.services_view().len() - i,
        {
            if self.services[i].lo == sid.lo && self.services[i].hi == sid.hi {
                proof {
                    assert(self.services_view()[i as int] == *sid);
                }
                return true;
            }
            i = i + 1;
        }
        proof {
            assert(forall|j: int|
                0 <= j < self.services_view().len() ==> self.services_view()[j] != *sid);
        }
        false
    }

    /// Route one frame to the downstream peer the handler picks. Never
    /// fails: whether the downstream is alive is only learned when the
    /// forwarded frame's outcome comes back.
    pub fn route(&mut self, frame: ThesWF, is_call: bool) -> (r: Result<DispatchTask, PeerErr>)
        requires
            frame.wf(),
            old(self).inv(),
        ensures
            final(self).inv(),
            final(self).services_view() == old(self).services_view(),
            final(self).handler_model() == handler_advanced(old(self).handler_model()),
            r matches Ok(t) && (t@ == (if is_call {
                TaskModel::RelayCall {
                    relay: handler_current(old(self).handler_model()),
                    frame: frame@,
                }
            } else {
                TaskModel::RelaySend {
                    relay: handler_current(old(self).handler_model()),
                    frame: frame@,
                }
            }) && t.frame_bytes() == frame@),
    {
        let relay = self.handler.resolve();
        if is_call {
            Ok(DispatchTask::RelayCall { relay, frame })
        } else {
            Ok(DispatchTask::RelaySend { relay, frame })
        }
    }
}

impl ServiceMap for RelayMap {
    /// The downstream chooser is well formed.
    open spec fn spec_inv(&self) -> bool {
        self.inv()
    }

    /// The advertised service ids.
    open spec fn spec_services(&self) -> Seq<ServiceID> {
        self.services_view()
    }

    /// A relay forwards any frame: routing never fails here, and only
    /// the forwarded frame's outcome says whether the downstream lives.
    open spec fn spec_routes(&self, sid: ServiceID) -> bool {
        true
    }

    /// The task: forward the frame, raw, to the chosen downstream peer.
    open spec fn spec_task(&self, frame: Seq<u8>, is_call: bool) -> TaskModel {
        if is_call {
            TaskModel::RelayCall { relay: handler_current(self.handler_model()), frame }
        } else {
            TaskModel::RelaySend { relay: handler_current(self.handler_model()), frame }
        }
    }

    /// One dispatch steps the pool cursor and touches nothing else.
    open spec fn spec_stepped(&self, post: &Self) -> bool {
        &&& post.services_view() == self.services_view()
        &&& post.handler_model() == handler_advanced(self.handler_model())
    }

    fn services(&self) -> (r: Vec<ServiceID>) {
        slice_to_vec(self.services.as_slice())
    }

    /// Forward a fire-and-forget frame to the downstream peer.
    fn send_service(&mut self, frame: ThesWF, _ctx: PeerErrCtx) -> Result<DispatchTask, PeerErr> {
        self.route(frame, false)
    }

    /// Forward a call frame to the downstream peer; its response will be
    /// spliced back under the frame's own cid.
    fn call_service(&mut self, frame: ThesWF, _ctx: PeerErrCtx) -> Result<DispatchTask, PeerErr> {
        self.route(frame, true)
    }
}

/// How a relayed call came back from the downstream peer.
#[derive(Debug)]
pub enum RelayOutcome {
    /// The relay peer's mailbox is gone.
    MailboxClosed,
    /// The relay peer took the call but could not send it out.
    SendFailed,
    /// The response channel was dropped before an answer arrived.
    ChannelDropped,
    /// The downstream peer answered with this response frame.
    Answered(ThesWF),
    /// The downstream peer reported an error for this call.
    AnsweredErr(ErrKind),
}

/// Decide what a relayed call yields, given how the downstream leg
/// ended. Connection loss at any stage is `RelayGone`; a downstream
/// answer is spliced back as a response; a downstream error becomes a
/// wire-format error frame under the caller's cid, forwarded verbatim.
pub fn relay_reply(
    outcome: RelayOutcome,
    cid: ConnID,
    ctx: PeerErrCtx,
    relay_id: u64,
    relay_name: Option<String>,
) -> (r: Result<Response, PeerErr>)
    ensures
        (outcome matches RelayOutcome::MailboxClosed || outcome matches RelayOutcome::SendFailed
            || outcome matches RelayOutcome::ChannelDropped) ==> (r matches Err(e) && (e matches
        PeerErr::RelayGone { relay_id: rid, relay_name: rn, .. } && rid == relay_id && rn
            == relay_name)),
        outcome matches RelayOutcome::Answered(f) ==> (r matches Ok(resp) && (resp matches
        Response::CallResponse(g) && g@ == f@)),
        outcome matches RelayOutcome::AnsweredErr(k) ==> (r matches Ok(resp) && (resp matches
        Response::WireFormat(wf) && {
            &&& wf.wf()
            &&& frame_sid(wf@) == ServiceID::spec_full()
            &&& frame_cid(wf@) == cid
            &&& frame_msg(wf@) == seq![TAG_ERR] + spec_encode_kind(k)
            &&& frame_len_field(wf@) == wf@.len()
        })),
{
    match outcome {
        RelayOutcome::MailboxClosed | RelayOutcome::SendFailed | RelayOutcome::ChannelDropped => {
            Err(PeerErr::RelayGone { ctx, relay_id, relay_name })
        },
        RelayOutcome::Answered(f) => Ok(Response::CallResponse(f)),
        RelayOutcome::AnsweredErr(k) => Ok(Response::WireFormat(prep_error(cid, &k))),
    }
}

} // verus!
