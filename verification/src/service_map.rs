//! The dispatch surface a peer consumes.
//!
//! A service map turns an inbound frame into a [`DispatchTask`]: the one
//! piece of work the surrounding runtime must perform for that frame
//! (deliver it to a local handler, or forward it to a relay peer). The
//! peer stays the sole writer of outbound frames: whatever a dispatch
//! produces comes back to the peer, which turns it into a [`Response`]
//! frame on the wire.

use crate::error::{PeerErr, PeerErrCtx};
use crate::ids::ServiceID;
use crate::thes_wf::{frame_sid, ThesWF};
use vstd::prelude::*;

verus! {

/// The work an inbound frame was routed to.
#[derive(Debug)]
pub enum DispatchTask {
    /// Deserialize the payload and send it to the local handler.
    LocalSend { handler: u64, frame: ThesWF },
    /// Deserialize the payload, call the local handler, and report the
    /// serialized result back to the peer.
    LocalCall { handler: u64, frame: ThesWF },
    /// Forward the raw frame to the relay peer, no response owed.
    RelaySend { relay: u64, frame: ThesWF },
    /// Forward the raw frame to the relay peer and splice its response
    /// back to the peer.
    RelayCall { relay: u64, frame: ThesWF },
}

/// Mathematical shape of a dispatch task: the frame as its bytes.
#[verifier::ext_equal]
pub enum TaskModel {
    LocalSend { handler: u64, frame: Seq<u8> },
    LocalCall { handler: u64, frame: Seq<u8> },
    RelaySend { relay: u64, frame: Seq<u8> },
    RelayCall { relay: u64, frame: Seq<u8> },
}

impl View for DispatchTask {
    type V = TaskModel;

    open spec fn view(&self) -> TaskModel {
        match self {
            DispatchTask::LocalSend { handler, frame } => TaskModel::LocalSend {
                handler: *handler,
                frame: frame@,
            },
            DispatchTask::LocalCall { handler, frame } => TaskModel::LocalCall {
                handler: *handler,
                frame: frame@,
            },
            DispatchTask::RelaySend { relay, frame } => TaskModel::RelaySend {
                relay: *relay,
                frame: frame@,
            },
            DispatchTask::RelayCall { relay, frame } => TaskModel::RelayCall {
                relay: *relay,
                frame: frame@,
            },
        }
    }
}

impl DispatchTask {
    /// The frame carried to the handler or relay.
    pub open spec fn frame_bytes(&self) -> Seq<u8> {
        match self {
            DispatchTask::LocalSend { frame, .. } => frame@,
            DispatchTask::LocalCall { frame, .. } => frame@,
            DispatchTask::RelaySend { frame, .. } => frame@,
            DispatchTask::RelayCall { frame, .. } => frame@,
        }
    }

    /// Whether a response is owed for the carried frame.
    pub open spec fn is_call(&self) -> bool {
        match self {
            DispatchTask::LocalCall { .. } => true,
            DispatchTask::RelayCall { .. } => true,
            _ => false,
        }
    }

    /// Borrow the carried frame.
    pub fn frame(&self) -> (r: &ThesWF)
        ensures
            r@ == self.frame_bytes(),
    {
        match self {
            DispatchTask::LocalSend { frame, .. } => frame,
            DispatchTask::LocalCall { frame, .. } => frame,
            DispatchTask::RelaySend { frame, .. } => frame,
            DispatchTask::RelayCall { frame, .. } => frame,
        }
    }
}

/// What a finished call dispatch hands back to the peer.
#[derive(Debug)]
pub enum Response {
    /// A send completed; nothing goes on the wire.
    Nothing,
    /// A serialized success response to forward.
    CallResponse(ThesWF),
    /// A serialized remote error to forward verbatim.
    WireFormat(ThesWF),
}

/// Polymorphic dispatch surface consumed by a peer: a local handler table
/// or a relay table, behind one interface.
///
/// The trait's spec functions pin the dispatch methods down for every
/// implementation: whether a sid routes, which task comes out, and how
/// one dispatch may change the map. Both methods return synchronously —
/// awaiting happens only inside the work the returned task names — and
/// hand the frame through byte for byte: neither ever deserializes it.
pub trait ServiceMap {
    /// The map's own well-formedness; dispatch keeps it.
    spec fn spec_inv(&self) -> bool;

    /// The service ids this map answers for.
    spec fn spec_services(&self) -> Seq<ServiceID>;

    /// Whether dispatch succeeds for `sid`: a local table routes exactly
    /// the sids it has handlers for; a relay forwards any frame.
    spec fn spec_routes(&self, sid: ServiceID) -> bool;

    /// The task produced for a frame this map routes.
    spec fn spec_task(&self, frame: Seq<u8>, is_call: bool) -> TaskModel;

    /// How one dispatch may change the map: a local table not at all, a
    /// relay by stepping its pool cursor.
    spec fn spec_stepped(&self, post: &Self) -> bool;

    /// List the service ids this map answers for.
    fn services(&self) -> (r: Vec<ServiceID>)
        ensures
            r@ == self.spec_services(),
    ;

    /// Accept a fire-and-forget frame. Succeeds exactly on the sids the
    /// map routes, yielding the map's task for this very frame, with its
    /// bytes unchanged; anything else fails with `UnknownService`.
    fn send_service(&mut self, frame: ThesWF, ctx: PeerErrCtx) -> (r: Result<
        DispatchTask,
        PeerErr,
    >)
        requires
            frame.wf(),
            old(self).spec_inv(),
        ensures
            final(self).spec_inv(),
            old(self).spec_stepped(final(self)),
            final(self).spec_services() == old(self).spec_services(),
            old(self).spec_routes(frame_sid(frame@)) ==> (r matches Ok(t) && t@ == old(
                self,
            ).spec_task(frame@, false) && t.frame_bytes() == frame@),
            !old(self).spec_routes(frame_sid(frame@)) ==> (r matches Err(e) && (e matches
            PeerErr::UnknownService { sid, .. } && sid == frame_sid(frame@))),
    ;

    /// Accept a call frame; the outcome of the task's work returns to
    /// the peer as a [`Response`]. Succeeds exactly on the sids the map
    /// routes, yielding the map's task for this very frame, with its
    /// bytes unchanged; anything else fails with `UnknownService`.
    fn call_service(&mut self, frame: ThesWF, ctx: PeerErrCtx) -> (r: Result<
        DispatchTask,
        PeerErr,
    >)
        requires
            frame.wf(),
            old(self).spec_inv(),
        ensures
            final(self).spec_inv(),
            old(self).spec_stepped(final(self)),
            final(self).spec_services() == old(self).spec_services(),
            old(self).spec_routes(frame_sid(frame@)) ==> (r matches Ok(t) && t@ == old(
                self,
            ).spec_task(frame@, true) && t.frame_bytes() == frame@),
            !old(self).spec_routes(frame_sid(frame@)) ==> (r matches Err(e) && (e matches
            PeerErr::UnknownService { sid, .. } && sid == frame_sid(frame@))),
    ;
}

} // verus!
