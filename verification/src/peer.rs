//! The per-connection peer state machine.
//!
//! A peer owns one bidirectional connection: it classifies inbound
//! frames (send, call, response), routes requests through its registered
//! service maps, correlates responses with pending outbound calls,
//! applies backpressure to inbound local calls, and shuts down in an
//! orderly way. The surrounding runtime performs I/O and runs handler
//! actors; the peer only decides. Every method consumes one event and
//! returns the [`PeerAction`]s the runtime must perform, in order.
//!
//! The inbound-frame transition is specified twice: once as the
//! executable [`Peer::incoming_frame`], once as the mathematical
//! [`step_frame`]; the method's contract says the two agree, and the
//! laws at the bottom of this module are proved of [`step_frame`].

use crate::close_connection::CloseConnection;
use crate::error::{ErrKind, PeerErr, PeerErrCtx};
use crate::ids::{ConnID, ServiceID};
use crate::local_service_map::{entries_unique, spec_lookup, LocalEntry, LocalServiceMap};
use crate::relay_map::{
    handler_advanced, handler_current, handler_inv, HandlerModel, RelayMap,
};
use crate::response::{
    classify_reply, error_frame_bytes, lemma_error_frame_bytes, prep_error,
    response_frame_bytes, spec_classify_reply,
};
use crate::service_map::{DispatchTask, TaskModel};
use crate::thes_wf::{frame_cid, frame_msg, frame_sid, ThesWF, LEN_HEADER};
use vstd::pervasive::unreached;
use vstd::prelude::*;

verus! {

/// Lifecycle state of a connection.
#[derive(Clone, Copy, PartialEq, Eq, Structural, Debug)]
pub enum PeerState {
    /// Frames flow in both directions.
    Open,
    /// A close or a fatal transport error happened; pending calls are
    /// resolved and the sink is closing.
    Closing,
    /// Fully shut down; every further message is rejected.
    Closed,
}

/// Lifecycle and error events surfaced to observers.
#[derive(Clone, Copy, PartialEq, Eq, Structural, Debug)]
pub enum PeerEvent {
    /// The peer came up on a fresh connection.
    Connected,
    /// The local side closed the connection.
    Closed,
    /// The remote side closed the connection.
    ClosedByRemote,
    /// A local error while handling traffic.
    Error(ErrKind),
    /// An error reported by, or about, the remote side.
    RemoteError(ErrKind),
}

/// One outstanding outbound call: its cid and the single-shot slot the
/// response must be delivered to.
#[derive(Clone, Copy, PartialEq, Eq, Structural, Debug)]
pub struct PendingCall {
    pub cid: ConnID,
    pub slot: u64,
}

/// The semaphore capping concurrent inbound local calls.
#[derive(Clone, Copy, PartialEq, Eq, Structural, Debug)]
pub struct BackPressure {
    pub cap: u32,
    pub in_flight: u32,
}

/// What a resolved outbound call delivers to its slot.
#[derive(Debug)]
pub enum CallOutcome {
    /// The correlated response frame arrived.
    Delivered(ThesWF),
    /// The call failed locally with this kind.
    Failed(ErrKind),
}

/// Mathematical shape of a [`CallOutcome`].
#[verifier::ext_equal]
pub enum OutcomeModel {
    Delivered(Seq<u8>),
    Failed(ErrKind),
}

impl View for CallOutcome {
    type V = OutcomeModel;

    open spec fn view(&self) -> OutcomeModel {
        match self {
            CallOutcome::Delivered(f) => OutcomeModel::Delivered(f@),
            CallOutcome::Failed(k) => OutcomeModel::Failed(*k),
        }
    }
}

/// One imperative the peer hands the surrounding runtime.
#[derive(Debug)]
pub enum PeerAction {
    /// Put this frame on the outbound sink, in order.
    WriteFrame(ThesWF),
    /// Deliver this outcome to the single-shot slot of an outbound call.
    Resolve { slot: u64, outcome: CallOutcome },
    /// Run this dispatch and report back with `dispatch_done`.
    Dispatch(DispatchTask),
    /// Publish this event to the observers.
    Emit(PeerEvent),
    /// Close the outbound sink.
    CloseSink,
}

/// Mathematical shape of a [`PeerAction`].
#[verifier::ext_equal]
pub enum ActionModel {
    WriteFrame(Seq<u8>),
    Resolve { slot: u64, outcome: OutcomeModel },
    Dispatch(TaskModel),
    Emit(PeerEvent),
    CloseSink,
}

impl View for PeerAction {
    type V = ActionModel;

    open spec fn view(&self) -> ActionModel {
        match self {
            PeerAction::WriteFrame(f) => ActionModel::WriteFrame(f@),
            PeerAction::Resolve { slot, outcome } => ActionModel::Resolve {
                slot: *slot,
                outcome: outcome@,
            },
            PeerAction::Dispatch(t) => ActionModel::Dispatch(t@),
            PeerAction::Emit(e) => ActionModel::Emit(*e),
            PeerAction::CloseSink => ActionModel::CloseSink,
        }
    }
}

/// The action list as its mathematical shape.
pub open spec fn acts_model(s: Seq<PeerAction>) -> Seq<ActionModel> {
    s.map_values(|a: PeerAction| a@)
}

/// A registered dispatch surface: a table of local handlers, or a relay.
///
/// The peer routes over this closed enum rather than over `ServiceMap`
/// trait objects, so that its transition function can be stated and
/// proved over a mathematical model of the registry; a dispatch surface
/// outside these two kinds cannot be registered with the verified peer.
#[derive(Debug)]
pub enum RegisteredMap {
    Local(LocalServiceMap),
    Relay(RelayMap),
}

/// Mathematical shape of a [`RegisteredMap`].
#[verifier::ext_equal]
pub enum MapModel {
    Local { entries: Seq<LocalEntry> },
    Relay { services: Seq<ServiceID>, handler: HandlerModel },
}

impl View for RegisteredMap {
    type V = MapModel;

    open spec fn view(&self) -> MapModel {
        match self {
            RegisteredMap::Local(m) => MapModel::Local { entries: m.entries() },
            RegisteredMap::Relay(m) => MapModel::Relay {
                services: m.services_view(),
                handler: m.handler_model(),
            },
        }
    }
}

/// Well-formedness of a registered map.
pub open spec fn map_model_inv(m: MapModel) -> bool {
    match m {
        MapModel::Local { entries } => entries_unique(entries),
        MapModel::Relay { handler, .. } => handler_inv(handler),
    }
}

/// Whether a map answers for `sid`.
pub open spec fn map_handles(m: MapModel, sid: ServiceID) -> bool {
    match m {
        MapModel::Local { entries } => spec_lookup(entries, sid) is Some,
        MapModel::Relay { services, .. } => services.contains(sid),
    }
}

/// The task a map produces for a frame it handles.
pub open spec fn map_task(m: MapModel, fb: Seq<u8>, is_call: bool) -> TaskModel
    recommends
        map_handles(m, frame_sid(fb)),
{
    match m {
        MapModel::Local { entries } => {
            let h = match spec_lookup(entries, frame_sid(fb)) {
                Some(h) => h,
                None => 0,
            };
            if is_call {
                TaskModel::LocalCall { handler: h, frame: fb }
            } else {
                TaskModel::LocalSend { handler: h, frame: fb }
            }
        },
        MapModel::Relay { handler, .. } => {
            if is_call {
                TaskModel::RelayCall { relay: handler_current(handler), frame: fb }
            } else {
                TaskModel::RelaySend { relay: handler_current(handler), frame: fb }
            }
        },
    }
}

/// A map after producing one task: a relay steps its pool, a local
/// table is unchanged.
pub open spec fn map_after_dispatch(m: MapModel) -> MapModel {
    match m {
        MapModel::Local { entries } => MapModel::Local { entries },
        MapModel::Relay { services, handler } => MapModel::Relay {
            services,
            handler: handler_advanced(handler),
        },
    }
}

/// The position of the first map that answers for `sid`, or -1.
pub open spec fn spec_find_map(maps: Seq<MapModel>, sid: ServiceID) -> int
    decreases maps.len(),
{
    if maps.len() == 0 {
        -1
    } else if map_handles(maps[0], sid) {
        0
    } else {
        let rest = spec_find_map(maps.drop_first(), sid);
        if rest == -1 {
            -1
        } else {
            rest + 1
        }
    }
}

/// What the first-handling-map index says: a miss means no map handles
/// the sid; a hit names the first map that does.
pub proof fn lemma_find_map_properties(maps: Seq<MapModel>, sid: ServiceID)
    ensures
        spec_find_map(maps, sid) == -1 ==> (forall|j: int|
            0 <= j < maps.len() ==> !map_handles(maps[j], sid)),
        spec_find_map(maps, sid) != -1 ==> {
            let i = spec_find_map(maps, sid);
            &&& 0 <= i < maps.len()
            &&& map_handles(maps[i], sid)
            &&& forall|j: int| 0 <= j < i ==> !map_handles(maps[j], sid)
        },
    decreases maps.len(),
{
    if maps.len() > 0 && !map_handles(maps[0], sid) {
        lemma_find_map_properties(maps.drop_first(), sid);
        if spec_find_map(maps, sid) == -1 {
            assert forall|j: int| 0 <= j < maps.len() implies !map_handles(maps[j], sid) by {
                if j > 0 {
                    assert(maps.drop_first()[j - 1] == maps[j]);
                }
            }
        } else {
            let i = spec_find_map(maps, sid);
            assert(maps.drop_first()[i - 1] == maps[i]);
            assert forall|j: int| 0 <= j < i implies !map_handles(maps[j], sid) by {
                if j > 0 {
                    assert(maps.drop_first()[j - 1] == maps[j]);
                }
            }
        }
    }
}

/// The position of the pending entry with `cid`, or -1.
pub open spec fn spec_find_pending(pending: Seq<PendingCall>, cid: ConnID) -> int
    decreases pending.len(),
{
    if pending.len() == 0 {
        -1
    } else if pending[0].cid == cid {
        0
    } else {
        let rest = spec_find_pending(pending.drop_first(), cid);
        if rest == -1 {
            -1
        } else {
            rest + 1
        }
    }
}

/// What the pending-entry index says: a miss means no entry carries the
/// cid; a hit names the first entry that does.
pub proof fn lemma_find_pending_properties(pending: Seq<PendingCall>, cid: ConnID)
    ensures
        spec_find_pending(pending, cid) == -1 ==> (forall|j: int|
            0 <= j < pending.len() ==> pending[j].cid != cid),
        spec_find_pending(pending, cid) != -1 ==> {
            let i = spec_find_pending(pending, cid);
            &&& 0 <= i < pending.len()
            &&& pending[i].cid == cid
            &&& forall|j: int| 0 <= j < i ==> pending[j].cid != cid
        },
    decreases pending.len(),
{
    if pending.len() > 0 && pending[0].cid != cid {
        lemma_find_pending_properties(pending.drop_first(), cid);
        if spec_find_pending(pending, cid) == -1 {
            assert forall|j: int| 0 <= j < pending.len() implies pending[j].cid != cid by {
                if j > 0 {
                    assert(pending.drop_first()[j - 1] == pending[j]);
                }
            }
        } else {
            let i = spec_find_pending(pending, cid);
            assert(pending.drop_first()[i - 1] == pending[i]);
            assert forall|j: int| 0 <= j < i implies pending[j].cid != cid by {
                if j > 0 {
                    assert(pending.drop_first()[j - 1] == pending[j]);
                }
            }
        }
    }
}

/// No two pending entries carry the same cid, and none carries the null
/// cid.
pub open spec fn pending_wf(pending: Seq<PendingCall>) -> bool {
    &&& forall|i: int, j: int|
        0 <= i < j < pending.len() ==> pending[i].cid != pending[j].cid
    &&& forall|i: int| 0 <= i < pending.len() ==> pending[i].cid != ConnID::spec_null()
}

/// Removing an entry keeps the pending table well formed.
proof fn lemma_pending_remove_wf(pending: Seq<PendingCall>, i: int)
    requires
        pending_wf(pending),
        0 <= i < pending.len(),
    ensures
        pending_wf(pending.remove(i)),
{
    let r = pending.remove(i);
    assert forall|a: int, b: int| 0 <= a < b < r.len() implies r[a].cid != r[b].cid by {
        assert(r[a] == (if a < i {
            pending[a]
        } else {
            pending[a + 1]
        }));
        assert(r[b] == (if b < i {
            pending[b]
        } else {
            pending[b + 1]
        }));
    }
    assert forall|a: int| 0 <= a < r.len() implies r[a].cid != ConnID::spec_null() by {
        assert(r[a] == (if a < i {
            pending[a]
        } else {
            pending[a + 1]
        }));
    }
}

/// Mathematical shape of a peer.
#[verifier::ext_equal]
pub struct PeerModel {
    pub state: PeerState,
    pub has_self_addr: bool,
    pub maps: Seq<MapModel>,
    pub pending: Seq<PendingCall>,
    pub bp: Option<BackPressure>,
    pub parked: Option<Seq<u8>>,
    pub peer_id: u64,
}

/// A frame's bytes classify as a send: the cid is null.
pub open spec fn is_send_frame(fb: Seq<u8>) -> bool {
    frame_cid(fb) == ConnID::spec_null()
}

/// A frame's bytes classify as a response: a cid under the full sid.
pub open spec fn is_response_frame(fb: Seq<u8>) -> bool {
    frame_cid(fb) != ConnID::spec_null() && frame_sid(fb) == ServiceID::spec_full()
}

/// A frame's bytes classify as a call: a cid under a service sid.
pub open spec fn is_call_frame(fb: Seq<u8>) -> bool {
    frame_cid(fb) != ConnID::spec_null() && frame_sid(fb) != ServiceID::spec_full()
}

/// The peer's invariant. Backpressure never exceeds its cap — that is
/// the backpressure law — the pending table is well formed, every
/// registered map is, a parked frame exists only while the limiter is
/// saturated, and a closed peer holds nothing: no self-address, no
/// maps, no pending calls.
pub open spec fn peer_inv(p: PeerModel) -> bool {
    &&& pending_wf(p.pending)
    &&& forall|i: int| 0 <= i < p.maps.len() ==> map_model_inv(#[trigger] p.maps[i])
    &&& match p.bp {
        Some(b) => b.in_flight <= b.cap,
        None => true,
    }
    &&& match p.parked {
        Some(fb) => {
            &&& p.state == PeerState::Open
            &&& match p.bp {
                Some(b) => b.in_flight == b.cap,
                None => false,
            }
            &&& fb.len() >= LEN_HEADER
            &&& is_call_frame(fb)
        },
        None => true,
    }
    &&& p.state == PeerState::Closed ==> {
        &&& p.pending.len() == 0
        &&& !p.has_self_addr
        &&& p.maps.len() == 0
        &&& p.parked is None
    }
}

/// Whether the limiter has no free slot.
pub open spec fn bp_saturated(bp: Option<BackPressure>) -> bool {
    match bp {
        Some(b) => b.in_flight == b.cap,
        None => false,
    }
}

/// Take one limiter slot.
pub open spec fn bp_acquire(bp: Option<BackPressure>) -> Option<BackPressure>
    recommends
        !bp_saturated(bp),
{
    match bp {
        Some(b) => Some(BackPressure { cap: b.cap, in_flight: (b.in_flight + 1) as u32 }),
        None => None,
    }
}

/// Give one limiter slot back.
pub open spec fn bp_release(bp: Option<BackPressure>) -> Option<BackPressure> {
    match bp {
        Some(b) => Some(
            BackPressure {
                cap: b.cap,
                in_flight: if b.in_flight > 0 {
                    (b.in_flight - 1) as u32
                } else {
                    0
                },
            },
        ),
        None => None,
    }
}

/// The warning kind a stray response is reported under: the error its
/// payload carries, or `Timeout` for a success payload — a success
/// response can only be stray because its call was already resolved
/// locally, by a timeout or a replacement.
pub open spec fn stray_kind(fb: Seq<u8>) -> ErrKind {
    match spec_classify_reply(frame_msg(fb)) {
        Some(Err(k)) => k,
        _ => ErrKind::Timeout,
    }
}

/// The event a correlated response emits before it resolves its call:
/// an error payload is surfaced to observers as a remote error.
pub open spec fn known_response_events(fb: Seq<u8>) -> Seq<ActionModel> {
    match spec_classify_reply(frame_msg(fb)) {
        Some(Err(k)) => seq![ActionModel::Emit(PeerEvent::RemoteError(k))],
        _ => seq![],
    }
}

/// The transition an inbound call frame causes on an open peer.
pub open spec fn step_call(p: PeerModel, fb: Seq<u8>) -> (PeerModel, Seq<ActionModel>) {
    let sid = frame_sid(fb);
    let m = spec_find_map(p.maps, sid);
    if m == -1 {
        (
            p,
            seq![
                ActionModel::Emit(PeerEvent::Error(ErrKind::UnknownService(sid))),
                ActionModel::WriteFrame(
                    error_frame_bytes(frame_cid(fb), ErrKind::UnknownService(sid)),
                ),
            ],
        )
    } else if p.maps[m] is Relay {
        (
            PeerModel { maps: p.maps.update(m, map_after_dispatch(p.maps[m])), ..p },
            seq![ActionModel::Dispatch(map_task(p.maps[m], fb, true))],
        )
    } else if bp_saturated(p.bp) {
        (PeerModel { parked: Some(fb), ..p }, seq![])
    } else {
        (
            PeerModel { bp: bp_acquire(p.bp), ..p },
            seq![ActionModel::Dispatch(map_task(p.maps[m], fb, true))],
        )
    }
}

/// The transition one inbound frame causes: the whole reader-side
/// classification of §reader in one mathematical function. A peer that
/// is not open rejects the frame outright.
pub open spec fn step_frame(p: PeerModel, fb: Seq<u8>) -> (PeerModel, Seq<ActionModel>) {
    if p.state != PeerState::Open {
        (p, seq![])
    } else if is_response_frame(fb) {
        let i = spec_find_pending(p.pending, frame_cid(fb));
        if i == -1 {
            (p, seq![ActionModel::Emit(PeerEvent::RemoteError(stray_kind(fb)))])
        } else {
            (
                PeerModel { pending: p.pending.remove(i), ..p },
                known_response_events(fb) + seq![
                    ActionModel::Resolve {
                        slot: p.pending[i].slot,
                        outcome: OutcomeModel::Delivered(fb),
                    },
                ],
            )
        }
    } else if is_send_frame(fb) {
        let m = spec_find_map(p.maps, frame_sid(fb));
        if m == -1 {
            (
                p,
                seq![ActionModel::Emit(PeerEvent::Error(ErrKind::UnknownService(frame_sid(fb))))],
            )
        } else {
            (
                PeerModel { maps: p.maps.update(m, map_after_dispatch(p.maps[m])), ..p },
                seq![ActionModel::Dispatch(map_task(p.maps[m], fb, false))],
            )
        }
    } else {
        step_call(p, fb)
    }
}

/// Per-connection actor state: reader classification, pending-call
/// table, service-map registry, backpressure limiter and shutdown.
pub struct Peer {
    state: PeerState,
    has_self_addr: bool,
    maps: Vec<RegisteredMap>,
    pending: Vec<PendingCall>,
    bp: Option<BackPressure>,
    parked: Option<ThesWF>,
    peer_id: u64,
}

impl View for Peer {
    type V = PeerModel;

    closed spec fn view(&self) -> PeerModel {
        PeerModel {
            state: self.state,
            has_self_addr: self.has_self_addr,
            maps: self.maps@.map_values(|m: RegisteredMap| m@),
            pending: self.pending@,
            bp: self.bp,
            parked: match self.parked {
                Some(f) => Some(f@),
                None => None,
            },
            peer_id: self.peer_id,
        }
    }
}

impl Peer {
    /// A fresh peer on a just-established connection, with an optional
    /// inbound-call limiter of capacity `backpressure`. The returned
    /// actions announce the connection to observers.
    pub fn new(peer_id: u64, backpressure: Option<u32>) -> (r: (Peer, Vec<PeerAction>))
        ensures
            peer_inv(r.0@),
            r.0@ == (PeerModel {
                state: PeerState::Open,
                has_self_addr: true,
                maps: Seq::<MapModel>::empty(),
                pending: Seq::<PendingCall>::empty(),
                bp: match backpressure {
                    Some(c) => Some(BackPressure { cap: c, in_flight: 0 }),
                    None => None,
                },
                parked: None,
                peer_id,
            }),
            acts_model(r.1@) == seq![ActionModel::Emit(PeerEvent::Connected)],
    {
        let bp = match backpressure {
            Some(c) => Some(BackPressure { cap: c, in_flight: 0 }),
            None => None,
        };
        let peer = Peer {
            state: PeerState::Open,
            has_self_addr: true,
            maps: Vec::new(),
            pending: Vec::new(),
            bp,
            parked: None,
            peer_id,
        };
        let mut acts: Vec<PeerAction> = Vec::new();
        acts.push(PeerAction::Emit(PeerEvent::Connected));
        proof {
            assert(peer@.maps =~= Seq::<MapModel>::empty());
            assert(acts_model(acts@) =~= seq![ActionModel::Emit(PeerEvent::Connected)]);
        }
        (peer, acts)
    }

    /// This peer's runtime identity.
    pub fn id(&self) -> (r: u64)
        ensures
            r == self@.peer_id,
    {
        self.peer_id
    }

    /// The connection's lifecycle state.
    pub fn state(&self) -> (r: PeerState)
        ensures
            r == self@.state,
    {
        self.state
    }

    /// Whether the peer still holds its own address.
    pub fn holds_self_addr(&self) -> (r: bool)
        ensures
            r == self@.has_self_addr,
    {
        self.has_self_addr
    }

    /// How many outbound calls are outstanding.
    pub fn pending_count(&self) -> (r: usize)
        ensures
            r == self@.pending.len(),
    {
        self.pending.len()
    }

    /// How many inbound local calls hold a limiter slot.
    pub fn in_flight(&self) -> (r: u32)
        ensures
            r == match self@.bp {
                Some(b) => b.in_flight,
                None => 0,
            },
    {
        match &self.bp {
            Some(b) => b.in_flight,
            None => 0,
        }
    }

    /// Whether the reader is suspended on a parked inbound call.
    pub fn is_suspended(&self) -> (r: bool)
        ensures
            r == (self@.parked is Some),
    {
        match &self.parked {
            Some(_) => true,
            None => false,
        }
    }

    /// Register a dispatch surface. Accepted only while open; frames
    /// for its services route to it from now on, after any map
    /// registered earlier that also advertises them.
    pub fn register_services(&mut self, map: RegisteredMap)
        requires
            peer_inv(old(self)@),
            map_model_inv(map@),
        ensures
            peer_inv(final(self)@),
            old(self)@.state == PeerState::Open ==> final(self)@ == (PeerModel {
                maps: old(self)@.maps.push(map@),
                ..old(self)@
            }),
            old(self)@.state != PeerState::Open ==> final(self)@ == old(self)@,
    {
        if self.state == PeerState::Open {
            let ghost m = map@;
            self.maps.push(map);
            proof {
                assert(self@.maps =~= old(self)@.maps.push(m));
                assert(self@ =~~= (PeerModel { maps: old(self)@.maps.push(m), ..old(self)@ }));
            }
        }
    }

    /// Whether the map at `i` answers for `sid`.
    fn map_handles_at(&self, i: usize, sid: &ServiceID) -> (r: bool)
        requires
            i < self@.maps.len(),
        ensures
            r == map_handles(self@.maps[i as int], *sid),
    {
        match &self.maps[i] {
            RegisteredMap::Local(m) => m.lookup(sid).is_some(),
            RegisteredMap::Relay(m) => m.advertises(sid),
        }
    }

    /// The first registered map that answers for `sid`.
    fn find_map(&self, sid: &ServiceID) -> (r: Option<usize>)
        ensures
            match r {
                Some(i) => spec_find_map(self@.maps, *sid) == i && i < self@.maps.len(),
                None => spec_find_map(self@.maps, *sid) == -1,
            },
    {
        let ghost maps0 = self@.maps;
        let mut i: usize = 0;
        while i < self.maps.len()
            invariant
                self@.maps == maps0,
                maps0.len() == self.maps@.len(),
                0 <= i <= maps0.len(),
                forall|j: int| 0 <= j < i ==> !map_handles(maps0[j], *sid),
            decreases maps0.len() - i,
        {
            if self.map_handles_at(i, sid) {
                proof {
                    assert(spec_find_map(maps0, *sid) == i) by {
                        lemma_find_map_properties(maps0, *sid);
                        if spec_find_map(maps0, *sid) == -1 {
                            assert(!map_handles(maps0[i as int], *sid));
                        } else {
                            let idx = spec_find_map(maps0, *sid);
                            if idx < i {
                                assert(!map_handles(maps0[idx], *sid));
                            }
                            if idx > i {
                                assert(!map_handles(maps0[i as int], *sid));
                            }
                        }
                    }
                }
                return Some(i);
            }
            i = i + 1;
        }
        proof {
            assert(spec_find_map(maps0, *sid) == -1) by {
                lemma_find_map_properties(maps0, *sid);
                if spec_find_map(maps0, *sid) != -1 {
                    assert(!map_handles(maps0[spec_find_map(maps0, *sid)], *sid));
                }
            }
        }
        None
    }

    /// The pending entry holding `cid`.
    fn find_pending(&self, cid: &ConnID) -> (r: Option<usize>)
        ensures
            match r {
                Some(i) => spec_find_pending(self@.pending, *cid) == i && i
                    < self@.pending.len(),
                None => spec_find_pending(self@.pending, *cid) == -1,
            },
    {
        let ghost pending0 = self@.pending;
        let mut i: usize = 0;
        while i < self.pending.len()
            invariant
                self@.pending == pending0,
                0 <= i <= pending0.len(),
                forall|j: int| 0 <= j < i ==> pending0[j].cid != *cid,
            decreases pending0.len() - i,
        {
            if self.pending[i].cid == *cid {
                proof {
                    assert(spec_find_pending(pending0, *cid) == i) by {
                        lemma_find_pending_properties(pending0, *cid);
                        if spec_find_pending(pending0, *cid) == -1 {
                            assert(pending0[i as int].cid != *cid);
                        } else {
                            let idx = spec_find_pending(pending0, *cid);
                            if idx < i {
                                assert(pending0[idx].cid != *cid);
                            }
                            if idx > i {
                                assert(pending0[i as int].cid != *cid);
                            }
                        }
                    }
                }
                return Some(i);
            }
            i = i + 1;
        }
        proof {
            assert(spec_find_pending(pending0, *cid) == -1) by {
                lemma_find_pending_properties(pending0, *cid);
                if spec_find_pending(pending0, *cid) != -1 {
                    assert(pending0[spec_find_pending(pending0, *cid)].cid != *cid);
                }
            }
        }
        None
    }

    /// Route `frame` through the map at `idx` and return the produced
    /// task; a relay map steps its pool.
    fn dispatch_via(&mut self, idx: usize, frame: ThesWF, is_call: bool) -> (t: DispatchTask)
        requires
            idx < old(self)@.maps.len(),
            map_model_inv(old(self)@.maps[idx as int]),
            map_handles(old(self)@.maps[idx as int], frame_sid(frame@)),
            frame.wf(),
        ensures
            t@ == map_task(old(self)@.maps[idx as int], frame@, is_call),
            final(self)@ == (PeerModel {
                maps: old(self)@.maps.update(
                    idx as int,
                    map_after_dispatch(old(self)@.maps[idx as int]),
                ),
                ..old(self)@
            }),
    {
        let ghost frame_v = frame@;
        let m = self.maps.remove(idx);
        let ctx = PeerErrCtx {
            context: None,
            peer_id: Some(self.peer_id),
            peer_name: None,
            sid: None,
            cid: None,
        };
        let (task, back) = match m {
            RegisteredMap::Local(lm) => {
                let routed = lm.route(frame, ctx, is_call);
                let t = match routed {
                    Ok(t) => t,
                    Err(_) => {
                        proof {
                            assert(false);
                        }
                        unreached()
                    },
                };
                (t, RegisteredMap::Local(lm))
            },
            RegisteredMap::Relay(mut rm) => {
                let routed = rm.route(frame, is_call);
                let t = match routed {
                    Ok(t) => t,
                    Err(_) => {
                        proof {
                            assert(false);
                        }
                        unreached()
                    },
                };
                (t, RegisteredMap::Relay(rm))
            },
        };
        self.maps.insert(idx, back);
        proof {
            assert(self.maps@ =~= old(self).maps@.remove(idx as int).insert(idx as int, back));
            assert(self@.maps =~= old(self)@.maps.update(
                idx as int,
                map_after_dispatch(old(self)@.maps[idx as int]),
            ));
            assert(self@ =~~= (PeerModel {
                maps: old(self)@.maps.update(
                    idx as int,
                    map_after_dispatch(old(self)@.maps[idx as int]),
                ),
                ..old(self)@
            }));
        }
        task
    }

    /// Consume one inbound frame, exactly as [`step_frame`] says:
    /// classify it as a send, a call or a response; route requests
    /// through the registered maps; correlate responses with pending
    /// calls — a response resolves the pending call that issued its
    /// cid, and one with an unknown cid is dropped with a warning
    /// event, never delivered anywhere else. A call for a local handler
    /// takes a limiter slot first and is parked when none is free; the
    /// reader then stays suspended until a slot opens, so no further
    /// frame arrives while a frame is parked.
    pub fn incoming_frame(&mut self, frame: ThesWF) -> (r: Vec<PeerAction>)
        requires
            peer_inv(old(self)@),
            frame.wf(),
            old(self)@.parked is None,
        ensures
            peer_inv(final(self)@),
            final(self)@ == step_frame(old(self)@, frame@).0,
            acts_model(r@) == step_frame(old(self)@, frame@).1,
    {
        let ghost p0 = self@;
        let ghost fb = frame@;
        let mut acts: Vec<PeerAction> = Vec::new();
        if self.state != PeerState::Open {
            proof {
                assert(acts_model(acts@) =~= step_frame(p0, fb).1);
            }
            return acts;
        }
        let cid = frame.cid();
        let sid = frame.sid();
        if !cid.is_null() && sid.is_full() {
            // A response: correlate with the pending table.
            match self.find_pending(&cid) {
                None => {
                    let k = match classify_reply(frame.msg()) {
                        Some(Err(k)) => k,
                        _ => ErrKind::Timeout,
                    };
                    acts.push(PeerAction::Emit(PeerEvent::RemoteError(k)));
                    proof {
                        assert(acts_model(acts@) =~= step_frame(p0, fb).1);
                    }
                },
                Some(i) => {
                    let ghost pend0 = self@.pending;
                    let entry = self.pending.remove(i);
                    match classify_reply(frame.msg()) {
                        Some(Err(k)) => {
                            acts.push(PeerAction::Emit(PeerEvent::RemoteError(k)));
                        },
                        _ => {},
                    }
                    acts.push(
                        PeerAction::Resolve {
                            slot: entry.slot,
                            outcome: CallOutcome::Delivered(frame),
                        },
                    );
                    proof {
                        lemma_pending_remove_wf(pend0, i as int);
                        assert(self@ =~~= step_frame(p0, fb).0);
                        assert(acts_model(acts@) =~= step_frame(p0, fb).1);
                    }
                },
            }
        } else if cid.is_null() {
            // A send: route it, or drop it with an event.
            match self.find_map(&sid) {
                None => {
                    acts.push(PeerAction::Emit(PeerEvent::Error(ErrKind::UnknownService(sid))));
                    proof {
                        assert(acts_model(acts@) =~= step_frame(p0, fb).1);
                    }
                },
                Some(i) => {
                    proof {
                        lemma_find_map_properties(p0.maps, sid);
                        assert(map_model_inv(p0.maps[i as int]));
                    }
                    let task = self.dispatch_via(i, frame, false);
                    acts.push(PeerAction::Dispatch(task));
                    proof {
                        assert(self@ =~~= step_frame(p0, fb).0);
                        assert(acts_model(acts@) =~= step_frame(p0, fb).1);
                    }
                },
            }
        } else {
            // A call: route it; a local call takes a limiter slot.
            let r2 = self.process_call(frame);
            proof {
                assert(acts_model(r2@) == step_frame(p0, fb).1);
            }
            return r2;
        }
        acts
    }

    /// Handle one inbound call frame on an open peer, exactly as
    /// [`step_call`] says: route it to the first map that answers for
    /// its sid, taking a limiter slot first when the target is local
    /// and parking the frame when none is free; answer an unknown sid
    /// with a protocol error frame under the same cid.
    fn process_call(&mut self, frame: ThesWF) -> (r: Vec<PeerAction>)
        requires
            peer_inv(old(self)@),
            frame.wf(),
            is_call_frame(frame@),
            old(self)@.state == PeerState::Open,
            old(self)@.parked is None,
        ensures
            peer_inv(final(self)@),
            final(self)@ == step_call(old(self)@, frame@).0,
            acts_model(r@) == step_call(old(self)@, frame@).1,
    {
        let ghost p0 = self@;
        let ghost fb = frame@;
        let mut acts: Vec<PeerAction> = Vec::new();
        let cid = frame.cid();
        let sid = frame.sid();
        match self.find_map(&sid) {
            None => {
                let kind = ErrKind::UnknownService(sid);
                acts.push(PeerAction::Emit(PeerEvent::Error(kind)));
                let ef = prep_error(cid, &kind);
                proof {
                    lemma_error_frame_bytes(ef@, frame_cid(fb), kind);
                }
                acts.push(PeerAction::WriteFrame(ef));
                proof {
                    assert(acts_model(acts@) =~= step_call(p0, fb).1);
                }
            },
            Some(i) => {
                let is_relay = match &self.maps[i] {
                    RegisteredMap::Relay(_) => true,
                    RegisteredMap::Local(_) => false,
                };
                if is_relay {
                    proof {
                        lemma_find_map_properties(p0.maps, sid);
                        assert(map_model_inv(p0.maps[i as int]));
                    }
                    let task = self.dispatch_via(i, frame, true);
                    acts.push(PeerAction::Dispatch(task));
                    proof {
                        assert(self@ =~~= step_call(p0, fb).0);
                        assert(acts_model(acts@) =~= step_call(p0, fb).1);
                    }
                } else {
                    let saturated = match &self.bp {
                        Some(b) => b.in_flight == b.cap,
                        None => false,
                    };
                    if saturated {
                        self.parked = Some(frame);
                        proof {
                            assert(self@ =~~= step_call(p0, fb).0);
                            assert(acts_model(acts@) =~= step_call(p0, fb).1);
                        }
                    } else {
                        self.bp = match self.bp {
                            Some(b) => Some(
                                BackPressure { cap: b.cap, in_flight: b.in_flight + 1 },
                            ),
                            None => None,
                        };
                        proof {
                            lemma_find_map_properties(p0.maps, sid);
                            assert(map_model_inv(p0.maps[i as int]));
                        }
                        let task = self.dispatch_via(i, frame, true);
                        acts.push(PeerAction::Dispatch(task));
                        proof {
                            assert(self@ =~~= step_call(p0, fb).0);
                            assert(acts_model(acts@) =~= step_call(p0, fb).1);
                        }
                    }
                }
            },
        }
        acts
    }

    /// Give the limiter slot of a finished local call back and, if a
    /// frame was parked on it, admit that frame now, exactly as
    /// [`step_release`] says.
    fn release_and_unpark(&mut self) -> (r: Vec<PeerAction>)
        requires
            peer_inv(old(self)@),
            old(self)@.state == PeerState::Open,
        ensures
            peer_inv(final(self)@),
            final(self)@ == step_release(old(self)@).0,
            acts_model(r@) == step_release(old(self)@).1,
    {
        let ghost p0 = self@;
        self.bp = match self.bp {
            Some(b) => Some(
                BackPressure {
                    cap: b.cap,
                    in_flight: if b.in_flight > 0 {
                        b.in_flight - 1
                    } else {
                        0
                    },
                },
            ),
            None => None,
        };
        let mut pk: Option<ThesWF> = None;
        core::mem::swap(&mut self.parked, &mut pk);
        match pk {
            None => {
                let acts: Vec<PeerAction> = Vec::new();
                proof {
                    assert(self@ =~~= step_release(p0).0);
                    assert(acts_model(acts@) =~= step_release(p0).1);
                }
                acts
            },
            Some(frame) => {
                let r = self.process_call(frame);
                r
            },
        }
    }

    /// Turn a finished dispatch into outbound traffic. A completed
    /// local call is answered with a response frame and frees its
    /// limiter slot — possibly admitting a parked call; a failed
    /// request is answered with a protocol error frame under its cid
    /// and a local error event; a relayed response is forwarded
    /// verbatim. When the peer is no longer open the result is
    /// discarded: the writer is gone.
    pub fn dispatch_done(&mut self, cid: ConnID, outcome: DispatchOutcome) -> (r: Vec<PeerAction>)
        requires
            peer_inv(old(self)@),
            outcome matches DispatchOutcome::CallReply(p) ==> p@.len() + LEN_HEADER + 1
                <= usize::MAX,
        ensures
            peer_inv(final(self)@),
            old(self)@.state != PeerState::Open ==> final(self)@ == old(self)@ && acts_model(r@)
                == Seq::<ActionModel>::empty(),
            old(self)@.state == PeerState::Open ==> match outcome {
                DispatchOutcome::SendOk => final(self)@ == old(self)@ && acts_model(r@)
                    == Seq::<ActionModel>::empty(),
                DispatchOutcome::SendFailed(k) => final(self)@ == old(self)@ && acts_model(r@)
                    == seq![ActionModel::Emit(PeerEvent::Error(k))],
                DispatchOutcome::CallReply(p) => final(self)@ == step_release(old(self)@).0
                    && acts_model(r@) == seq![
                    ActionModel::WriteFrame(response_frame_bytes(cid, p@)),
                ] + step_release(old(self)@).1,
                DispatchOutcome::CallFailed(k) => final(self)@ == step_release(old(self)@).0
                    && acts_model(r@) == seq![
                    ActionModel::Emit(PeerEvent::Error(k)),
                    ActionModel::WriteFrame(error_frame_bytes(cid, k)),
                ] + step_release(old(self)@).1,
                DispatchOutcome::RelayReply(f) => final(self)@ == old(self)@ && acts_model(r@)
                    == seq![ActionModel::WriteFrame(f@)],
                DispatchOutcome::RelayFailed(k) => final(self)@ == old(self)@ && acts_model(r@)
                    == seq![
                    ActionModel::Emit(PeerEvent::Error(k)),
                    ActionModel::WriteFrame(error_frame_bytes(cid, k)),
                ],
            },
    {
        let ghost p0 = self@;
        let mut acts: Vec<PeerAction> = Vec::new();
        if self.state != PeerState::Open {
            proof {
                assert(acts_model(acts@) =~= Seq::<ActionModel>::empty());
            }
            return acts;
        }
        match outcome {
            DispatchOutcome::SendOk => {
                proof {
                    assert(acts_model(acts@) =~= Seq::<ActionModel>::empty());
                }
            },
            DispatchOutcome::SendFailed(k) => {
                acts.push(PeerAction::Emit(PeerEvent::Error(k)));
                proof {
                    assert(acts_model(acts@) =~= seq![ActionModel::Emit(PeerEvent::Error(k))]);
                }
            },
            DispatchOutcome::CallReply(payload) => {
                let rf = crate::response::prep_response(cid, payload.as_slice());
                proof {
                    crate::response::lemma_response_frame_bytes(rf@, cid, payload@);
                }
                acts.push(PeerAction::WriteFrame(rf));
                let mut rest = self.release_and_unpark();
                acts.append(&mut rest);
                proof {
                    assert(acts_model(acts@) =~= seq![
                        ActionModel::WriteFrame(response_frame_bytes(cid, payload@)),
                    ] + step_release(p0).1);
                }
            },
            DispatchOutcome::CallFailed(k) => {
                acts.push(PeerAction::Emit(PeerEvent::Error(k)));
                let ef = prep_error(cid, &k);
                proof {
                    lemma_error_frame_bytes(ef@, cid, k);
                }
                acts.push(PeerAction::WriteFrame(ef));
                let mut rest = self.release_and_unpark();
                acts.append(&mut rest);
                proof {
                    assert(acts_model(acts@) =~= seq![
                        ActionModel::Emit(PeerEvent::Error(k)),
                        ActionModel::WriteFrame(error_frame_bytes(cid, k)),
                    ] + step_release(p0).1);
                }
            },
            DispatchOutcome::RelayReply(f) => {
                let ghost fv = f@;
                acts.push(PeerAction::WriteFrame(f));
                proof {
                    assert(acts_model(acts@) =~= seq![ActionModel::WriteFrame(fv)]);
                }
            },
            DispatchOutcome::RelayFailed(k) => {
                acts.push(PeerAction::Emit(PeerEvent::Error(k)));
                let ef = prep_error(cid, &k);
                proof {
                    lemma_error_frame_bytes(ef@, cid, k);
                }
                acts.push(PeerAction::WriteFrame(ef));
                proof {
                    assert(acts_model(acts@) =~= seq![
                        ActionModel::Emit(PeerEvent::Error(k)),
                        ActionModel::WriteFrame(error_frame_bytes(cid, k)),
                    ]);
                }
            },
        }
        acts
    }

    /// Shut the connection down: break the self-reference, clear the
    /// registered maps, fail every pending outbound call with
    /// `ConnectionClosed` — none is leaked — drop any parked frame,
    /// close the sink and announce the closure. Idempotent: a closed
    /// peer rejects the message.
    pub fn handle_close_connection(&mut self, msg: CloseConnection) -> (r: Vec<PeerAction>)
        requires
            peer_inv(old(self)@),
        ensures
            peer_inv(final(self)@),
            old(self)@.state == PeerState::Closed ==> final(self)@ == old(self)@ && acts_model(
                r@,
            ) == Seq::<ActionModel>::empty(),
            old(self)@.state != PeerState::Closed ==> {
                &&& final(self)@ == (PeerModel {
                    state: PeerState::Closed,
                    has_self_addr: false,
                    maps: Seq::<MapModel>::empty(),
                    pending: Seq::<PendingCall>::empty(),
                    parked: None,
                    ..old(self)@
                })
                &&& acts_model(r@) == seq![ActionModel::CloseSink] + resolves_model(
                    old(self)@.pending,
                ) + seq![
                    ActionModel::Emit(
                        if msg.remote {
                            PeerEvent::ClosedByRemote
                        } else {
                            PeerEvent::Closed
                        },
                    ),
                ]
            },
    {
        let ghost p0 = self@;
        let mut acts: Vec<PeerAction> = Vec::new();
        if self.state == PeerState::Closed {
            proof {
                assert(acts_model(acts@) =~= Seq::<ActionModel>::empty());
            }
            return acts;
        }
        acts.push(PeerAction::CloseSink);
        let ghost pending0 = self@.pending;
        let mut i: usize = 0;
        while i < self.pending.len()
            invariant
                self@.pending == pending0,
                0 <= i <= pending0.len(),
                acts_model(acts@) =~= seq![ActionModel::CloseSink] + resolves_model(
                    pending0.take(i as int),
                ),
            decreases pending0.len() - i,
        {
            let slot = self.pending[i].slot;
            let ghost acts_pre = acts@;
            acts.push(
                PeerAction::Resolve { slot, outcome: CallOutcome::Failed(ErrKind::ConnectionClosed) },
            );
            proof {
                let a = ActionModel::Resolve {
                    slot: pending0[i as int].slot,
                    outcome: OutcomeModel::Failed(ErrKind::ConnectionClosed),
                };
                assert(resolves_model(pending0.take(i as int + 1)) =~= resolves_model(
                    pending0.take(i as int),
                ).push(a));
                assert(acts_model(acts@) =~= acts_model(acts_pre).push(a));
                assert(acts_model(acts@) =~= seq![ActionModel::CloseSink] + resolves_model(
                    pending0.take(i as int + 1),
                ));
            }
            i = i + 1;
        }
        let ev = if msg.remote {
            PeerEvent::ClosedByRemote
        } else {
            PeerEvent::Closed
        };
        acts.push(PeerAction::Emit(ev));
        self.state = PeerState::Closed;
        self.has_self_addr = false;
        self.maps.clear();
        self.pending.clear();
        self.parked = None;
        proof {
            assert(pending0.take(pending0.len() as int) =~= pending0);
            assert(self@.maps =~= Seq::<MapModel>::empty());
            assert(self@ =~~= (PeerModel {
                state: PeerState::Closed,
                has_self_addr: false,
                maps: Seq::<MapModel>::empty(),
                pending: Seq::<PendingCall>::empty(),
                parked: None,
                ..p0
            }));
            assert(acts_model(acts@) =~= seq![ActionModel::CloseSink] + resolves_model(pending0)
                + seq![ActionModel::Emit(ev)]);
        }
        acts
    }

    /// Submit an outbound call: record the pending entry and write the
    /// frame. On a peer that is no longer open the call fails at once
    /// with `ConnectionClosed` through its slot. A duplicate cid
    /// replaces the earlier entry, whose slot is failed the same way —
    /// its single-shot channel is gone.
    pub fn call_out(&mut self, frame: ThesWF, slot: u64) -> (r: Vec<PeerAction>)
        requires
            peer_inv(old(self)@),
            frame.wf(),
            frame_cid(frame@) != ConnID::spec_null(),
        ensures
            peer_inv(final(self)@),
            old(self)@.state != PeerState::Open ==> final(self)@ == old(self)@ && acts_model(r@)
                == seq![
                ActionModel::Resolve {
                    slot,
                    outcome: OutcomeModel::Failed(ErrKind::ConnectionClosed),
                },
            ],
            old(self)@.state == PeerState::Open ==> {
                let i = spec_find_pending(old(self)@.pending, frame_cid(frame@));
                &&& i == -1 ==> final(self)@ == (PeerModel {
                    pending: old(self)@.pending.push(
                        PendingCall { cid: frame_cid(frame@), slot },
                    ),
                    ..old(self)@
                }) && acts_model(r@) == seq![ActionModel::WriteFrame(frame@)]
                &&& i != -1 ==> final(self)@ == (PeerModel {
                    pending: old(self)@.pending.remove(i).push(
                        PendingCall { cid: frame_cid(frame@), slot },
                    ),
                    ..old(self)@
                }) && acts_model(r@) == seq![
                    ActionModel::Resolve {
                        slot: old(self)@.pending[i].slot,
                        outcome: OutcomeModel::Failed(ErrKind::ConnectionClosed),
                    },
                    ActionModel::WriteFrame(frame@),
                ]
            },
    {
        let ghost p0 = self@;
        let mut acts: Vec<PeerAction> = Vec::new();
        if self.state != PeerState::Open {
            acts.push(
                PeerAction::Resolve { slot, outcome: CallOutcome::Failed(ErrKind::ConnectionClosed) },
            );
            proof {
                assert(acts_model(acts@) =~= seq![
                    ActionModel::Resolve {
                        slot,
                        outcome: OutcomeModel::Failed(ErrKind::ConnectionClosed),
                    },
                ]);
            }
            return acts;
        }
        let cid = frame.cid();
        match self.find_pending(&cid) {
            None => {
                self.pending.push(PendingCall { cid, slot });
                acts.push(PeerAction::WriteFrame(frame));
                proof {
                    lemma_find_pending_properties(p0.pending, cid);
                    assert(self@ =~~= (PeerModel {
                        pending: p0.pending.push(PendingCall { cid, slot }),
                        ..p0
                    }));
                    assert(acts_model(acts@) =~= seq![ActionModel::WriteFrame(frame@)]);
                }
            },
            Some(i) => {
                let old_entry = self.pending.remove(i);
                self.pending.push(PendingCall { cid, slot });
                acts.push(
                    PeerAction::Resolve {
                        slot: old_entry.slot,
                        outcome: CallOutcome::Failed(ErrKind::ConnectionClosed),
                    },
                );
                acts.push(PeerAction::WriteFrame(frame));
                proof {
                    lemma_find_pending_properties(p0.pending, cid);
                    lemma_pending_remove_wf(p0.pending, i as int);
                    let removed = p0.pending.remove(i as int);
                    assert forall|a: int| 0 <= a < removed.len() implies removed[a].cid != cid by {
                        assert(removed[a] == (if a < i {
                            p0.pending[a]
                        } else {
                            p0.pending[a + 1]
                        }));
                    }
                    assert(self@ =~~= (PeerModel {
                        pending: removed.push(PendingCall { cid, slot }),
                        ..p0
                    }));
                    assert(acts_model(acts@) =~= seq![
                        ActionModel::Resolve {
                            slot: p0.pending[i as int].slot,
                            outcome: OutcomeModel::Failed(ErrKind::ConnectionClosed),
                        },
                        ActionModel::WriteFrame(frame@),
                    ]);
                }
            },
        }
        acts
    }

    /// Submit an outbound send: no pending entry, no response owed.
    /// Fails with `ConnectionClosed` exactly when the peer is no
    /// longer open.
    pub fn send_out(&self, frame: ThesWF) -> (r: Result<Vec<PeerAction>, PeerErr>)
        requires
            frame.wf(),
        ensures
            self@.state == PeerState::Open ==> (r matches Ok(acts) && acts_model(acts@) == seq![
                ActionModel::WriteFrame(frame@),
            ]),
            self@.state != PeerState::Open ==> (r matches Err(e) && e matches
                PeerErr::ConnectionClosed { .. }),
    {
        if self.state != PeerState::Open {
            let ctx = PeerErrCtx {
                context: None,
                peer_id: Some(self.peer_id),
                peer_name: None,
                sid: None,
                cid: None,
            };
            return Err(PeerErr::ConnectionClosed { ctx });
        }
        let mut acts: Vec<PeerAction> = Vec::new();
        acts.push(PeerAction::WriteFrame(frame));
        proof {
            assert(acts_model(acts@) =~= seq![ActionModel::WriteFrame(acts@[0]->WriteFrame_0@)]);
        }
        Ok(acts)
    }

    /// A fatal transport error: emit it, fail every pending call — no
    /// parked frame is ever dispatched, so its handler is never
    /// invoked — and start closing the sink.
    pub fn transport_error(&mut self, kind: ErrKind) -> (r: Vec<PeerAction>)
        requires
            peer_inv(old(self)@),
        ensures
            peer_inv(final(self)@),
            old(self)@.state != PeerState::Open ==> final(self)@ == old(self)@ && acts_model(r@)
                == Seq::<ActionModel>::empty(),
            old(self)@.state == PeerState::Open ==> {
                &&& final(self)@ == (PeerModel {
                    state: PeerState::Closing,
                    pending: Seq::<PendingCall>::empty(),
                    parked: None,
                    ..old(self)@
                })
                &&& acts_model(r@) == seq![ActionModel::Emit(PeerEvent::Error(kind))]
                    + resolves_model(old(self)@.pending) + seq![ActionModel::CloseSink]
            },
    {
        let ghost p0 = self@;
        let mut acts: Vec<PeerAction> = Vec::new();
        if self.state != PeerState::Open {
            proof {
                assert(acts_model(acts@) =~= Seq::<ActionModel>::empty());
            }
            return acts;
        }
        acts.push(PeerAction::Emit(PeerEvent::Error(kind)));
        let ghost pending0 = self@.pending;
        let mut i: usize = 0;
        while i < self.pending.len()
            invariant
                self@.pending == pending0,
                0 <= i <= pending0.len(),
                acts_model(acts@) =~= seq![ActionModel::Emit(PeerEvent::Error(kind))]
                    + resolves_model(pending0.take(i as int)),
            decreases pending0.len() - i,
        {
            let slot = self.pending[i].slot;
            let ghost acts_pre = acts@;
            acts.push(
                PeerAction::Resolve { slot, outcome: CallOutcome::Failed(ErrKind::ConnectionClosed) },
            );
            proof {
                let a = ActionModel::Resolve {
                    slot: pending0[i as int].slot,
                    outcome: OutcomeModel::Failed(ErrKind::ConnectionClosed),
                };
                assert(resolves_model(pending0.take(i as int + 1)) =~= resolves_model(
                    pending0.take(i as int),
                ).push(a));
                assert(acts_model(acts@) =~= acts_model(acts_pre).push(a));
                assert(acts_model(acts@) =~= seq![ActionModel::Emit(PeerEvent::Error(kind))]
                    + resolves_model(pending0.take(i as int + 1)));
            }
            i = i + 1;
        }
        acts.push(PeerAction::CloseSink);
        self.state = PeerState::Closing;
        self.pending.clear();
        self.parked = None;
        proof {
            assert(pending0.take(pending0.len() as int) =~= pending0);
            assert(self@ =~~= (PeerModel {
                state: PeerState::Closing,
                pending: Seq::<PendingCall>::empty(),
                parked: None,
                ..p0
            }));
            assert(acts_model(acts@) =~= seq![ActionModel::Emit(PeerEvent::Error(kind))]
                + resolves_model(pending0) + seq![ActionModel::CloseSink]);
        }
        acts
    }

    /// A per-call deadline elapsed: fail the pending entry with
    /// `Timeout` and forget it; a response that arrives later is then
    /// stray and is dropped with a warning event. Nothing happens when
    /// the call was already resolved.
    pub fn timeout_call(&mut self, cid: ConnID) -> (r: Vec<PeerAction>)
        requires
            peer_inv(old(self)@),
        ensures
            peer_inv(final(self)@),
            ({
                let i = spec_find_pending(old(self)@.pending, cid);
                &&& i == -1 ==> final(self)@ == old(self)@ && acts_model(r@)
                    == Seq::<ActionModel>::empty()
                &&& i != -1 ==> final(self)@ == (PeerModel {
                    pending: old(self)@.pending.remove(i),
                    ..old(self)@
                }) && acts_model(r@) == seq![
                    ActionModel::Resolve {
                        slot: old(self)@.pending[i].slot,
                        outcome: OutcomeModel::Failed(ErrKind::Timeout),
                    },
                ]
            }),
    {
        let ghost p0 = self@;
        let mut acts: Vec<PeerAction> = Vec::new();
        match self.find_pending(&cid) {
            None => {
                proof {
                    assert(acts_model(acts@) =~= Seq::<ActionModel>::empty());
                }
            },
            Some(i) => {
                let entry = self.pending.remove(i);
                acts.push(
                    PeerAction::Resolve {
                        slot: entry.slot,
                        outcome: CallOutcome::Failed(ErrKind::Timeout),
                    },
                );
                proof {
                    lemma_pending_remove_wf(p0.pending, i as int);
                    assert(self@ =~~= (PeerModel {
                        pending: p0.pending.remove(i as int),
                        ..p0
                    }));
                    assert(acts_model(acts@) =~= seq![
                        ActionModel::Resolve {
                            slot: p0.pending[i as int].slot,
                            outcome: OutcomeModel::Failed(ErrKind::Timeout),
                        },
                    ]);
                }
            },
        }
        acts
    }
}

/// What a finished dispatch reports back to the peer.
#[derive(Debug)]
pub enum DispatchOutcome {
    /// A send was delivered.
    SendOk,
    /// A send could not be delivered; its kind, e.g. `HandlerDead`.
    SendFailed(ErrKind),
    /// A local call completed; the serialized response payload.
    CallReply(Vec<u8>),
    /// A local call failed: deserialization, a dead handler, response
    /// serialization.
    CallFailed(ErrKind),
    /// A relayed call was answered; the downstream response frame,
    /// forwarded verbatim to keep end-to-end correlation.
    RelayReply(ThesWF),
    /// A relayed call failed, e.g. `RelayGone`.
    RelayFailed(ErrKind),
}

/// The resolve actions that fail every given pending call with
/// `ConnectionClosed`, in table order.
pub open spec fn resolves_model(pending: Seq<PendingCall>) -> Seq<ActionModel> {
    pending.map_values(
        |pc: PendingCall| ActionModel::Resolve {
            slot: pc.slot,
            outcome: OutcomeModel::Failed(ErrKind::ConnectionClosed),
        },
    )
}

/// The transition when a local call finishes: its limiter slot is
/// freed, and a parked frame, if any, is admitted now.
pub open spec fn step_release(p: PeerModel) -> (PeerModel, Seq<ActionModel>) {
    let freed = PeerModel { bp: bp_release(p.bp), ..p };
    match p.parked {
        None => (freed, seq![]),
        Some(fb) => step_call(PeerModel { parked: None, ..freed }, fb),
    }
}

// ------------------------------------------------------------------
// Laws of the peer state machine, proved of the model transitions.
// ------------------------------------------------------------------

/// How many dispatches an action list asks for.
pub open spec fn dispatch_count(acts: Seq<ActionModel>) -> int
    decreases acts.len(),
{
    if acts.len() == 0 {
        0
    } else {
        (if acts[0] is Dispatch {
            1int
        } else {
            0int
        }) + dispatch_count(acts.drop_first())
    }
}

proof fn lemma_dispatch_count_one(a: ActionModel)
    ensures
        dispatch_count(seq![a]) == if a is Dispatch {
            1int
        } else {
            0int
        },
{
    assert(seq![a].drop_first() =~= Seq::<ActionModel>::empty());
    assert(dispatch_count(Seq::<ActionModel>::empty()) == 0);
    assert(seq![a][0] == a);
}

proof fn lemma_dispatch_count_two(a: ActionModel, b: ActionModel)
    ensures
        dispatch_count(seq![a, b]) == (if a is Dispatch {
            1int
        } else {
            0int
        }) + (if b is Dispatch {
            1int
        } else {
            0int
        }),
{
    assert(seq![a, b].drop_first() =~= seq![b]);
    lemma_dispatch_count_one(b);
    assert(seq![a, b][0] == a);
}

/// No resolve list dispatches anything.
proof fn lemma_dispatch_count_resolves(pending: Seq<PendingCall>)
    ensures
        dispatch_count(resolves_model(pending)) == 0,
    decreases pending.len(),
{
    if pending.len() > 0 {
        assert(resolves_model(pending).drop_first() =~= resolves_model(pending.drop_first()));
        lemma_dispatch_count_resolves(pending.drop_first());
    }
}

/// Dispatch counts add over concatenation.
proof fn lemma_dispatch_count_concat(a: Seq<ActionModel>, b: Seq<ActionModel>)
    ensures
        dispatch_count(a + b) == dispatch_count(a) + dispatch_count(b),
    decreases a.len(),
{
    if a.len() == 0 {
        assert(a + b =~= b);
    } else {
        assert((a + b).drop_first() =~= a.drop_first() + b);
        lemma_dispatch_count_concat(a.drop_first(), b);
    }
}

/// Correlation. On an open peer, a response frame resolves the pending
/// call that issued its cid — the entry is removed and its slot gets
/// exactly that delivery — and a response whose cid no peer call issued
/// resolves nothing: it is dropped with a warning event. No cross-talk.
/// On a peer that is no longer open the frame is dropped outright.
pub proof fn lemma_correlation(p: PeerModel, fb: Seq<u8>)
    requires
        peer_inv(p),
        is_response_frame(fb),
    ensures
        p.state != PeerState::Open ==> step_frame(p, fb).0 == p && step_frame(p, fb).1
            == Seq::<ActionModel>::empty(),
        p.state == PeerState::Open ==> ({
            let i = spec_find_pending(p.pending, frame_cid(fb));
            let stepped = step_frame(p, fb);
            &&& i == -1 ==> stepped.0 == p && stepped.1 == seq![
                ActionModel::Emit(PeerEvent::RemoteError(stray_kind(fb))),
            ] && (forall|k: int| 0 <= k < stepped.1.len() ==> !(stepped.1[k] is Resolve))
            &&& i != -1 ==> {
                &&& 0 <= i < p.pending.len()
                &&& p.pending[i].cid == frame_cid(fb)
                &&& stepped.0.pending == p.pending.remove(i)
                &&& stepped.1 == known_response_events(fb) + seq![
                    ActionModel::Resolve {
                        slot: p.pending[i].slot,
                        outcome: OutcomeModel::Delivered(fb),
                    },
                ]
            }
        }),
{
    lemma_find_pending_properties(p.pending, frame_cid(fb));
}

/// At-most-once dispatch. One inbound frame causes at most one
/// dispatch, and so does freeing a limiter slot (which may admit the
/// one parked frame); a transport failure dispatches nothing, so a
/// handler is never invoked for a frame the transport lost.
pub proof fn lemma_at_most_once_dispatch(p: PeerModel, fb: Seq<u8>, kind: ErrKind)
    ensures
        dispatch_count(step_frame(p, fb).1) <= 1,
        dispatch_count(step_release(p).1) <= 1,
        dispatch_count(
            seq![ActionModel::Emit(PeerEvent::Error(kind))] + resolves_model(p.pending) + seq![
                ActionModel::CloseSink,
            ],
        ) == 0,
{
    lemma_step_call_dispatch_bound(p, fb);
    match p.parked {
        None => {
            assert(dispatch_count(step_release(p).1) == 0);
        },
        Some(pk) => {
            lemma_step_call_dispatch_bound(PeerModel { parked: None, ..PeerModel { bp: bp_release(p.bp), ..p } }, pk);
        },
    }
    if p.state != PeerState::Open {
        assert(dispatch_count(step_frame(p, fb).1) == 0);
    } else if is_response_frame(fb) {
        let i = spec_find_pending(p.pending, frame_cid(fb));
        if i == -1 {
            lemma_dispatch_count_one(ActionModel::Emit(PeerEvent::RemoteError(stray_kind(fb))));
        } else {
            let resolve = ActionModel::Resolve {
                slot: p.pending[i].slot,
                outcome: OutcomeModel::Delivered(fb),
            };
            match spec_classify_reply(frame_msg(fb)) {
                Some(Err(k)) => {
                    lemma_dispatch_count_two(ActionModel::Emit(PeerEvent::RemoteError(k)), resolve);
                    assert(known_response_events(fb) + seq![resolve] =~= seq![
                        ActionModel::Emit(PeerEvent::RemoteError(k)),
                        resolve,
                    ]);
                },
                _ => {
                    lemma_dispatch_count_one(resolve);
                    assert(known_response_events(fb) + seq![resolve] =~= seq![resolve]);
                },
            }
        }
    } else if is_send_frame(fb) {
        let m = spec_find_map(p.maps, frame_sid(fb));
        if m == -1 {
            lemma_dispatch_count_one(
                ActionModel::Emit(PeerEvent::Error(ErrKind::UnknownService(frame_sid(fb)))),
            );
        } else {
            lemma_dispatch_count_one(ActionModel::Dispatch(map_task(p.maps[m], fb, false)));
        }
    }
    lemma_dispatch_count_concat(
        seq![ActionModel::Emit(PeerEvent::Error(kind))] + resolves_model(p.pending),
        seq![ActionModel::CloseSink],
    );
    lemma_dispatch_count_concat(
        seq![ActionModel::Emit(PeerEvent::Error(kind))],
        resolves_model(p.pending),
    );
    lemma_dispatch_count_one(ActionModel::Emit(PeerEvent::Error(kind)));
    lemma_dispatch_count_one(ActionModel::CloseSink);
    lemma_dispatch_count_resolves(p.pending);
}

/// An admitted inbound call is dispatched exactly once, and the one
/// dispatch carries exactly that frame: together with the bound above
/// and the fact that a parked frame is admitted only by the one
/// release that frees a slot, each inbound call reaches its handler
/// exactly once.
pub proof fn lemma_admitted_call_dispatched_exactly_once(p: PeerModel, fb: Seq<u8>)
    requires
        p.state == PeerState::Open,
        is_call_frame(fb),
        spec_find_map(p.maps, frame_sid(fb)) != -1,
        p.maps[spec_find_map(p.maps, frame_sid(fb))] is Relay || !bp_saturated(p.bp),
    ensures
        step_call(p, fb).1 == seq![
            ActionModel::Dispatch(
                map_task(p.maps[spec_find_map(p.maps, frame_sid(fb))], fb, true),
            ),
        ],
        dispatch_count(step_call(p, fb).1) == 1,
{
    lemma_dispatch_count_one(
        ActionModel::Dispatch(map_task(p.maps[spec_find_map(p.maps, frame_sid(fb))], fb, true)),
    );
}

/// An inbound call dispatches at most once.
proof fn lemma_step_call_dispatch_bound(p: PeerModel, fb: Seq<u8>)
    ensures
        dispatch_count(step_call(p, fb).1) <= 1,
{
    let sid = frame_sid(fb);
    let m = spec_find_map(p.maps, sid);
    if m == -1 {
        lemma_dispatch_count_two(
            ActionModel::Emit(PeerEvent::Error(ErrKind::UnknownService(sid))),
            ActionModel::WriteFrame(error_frame_bytes(frame_cid(fb), ErrKind::UnknownService(sid))),
        );
    } else if p.maps[m] is Relay {
        lemma_dispatch_count_one(ActionModel::Dispatch(map_task(p.maps[m], fb, true)));
    } else if bp_saturated(p.bp) {
    } else {
        lemma_dispatch_count_one(ActionModel::Dispatch(map_task(p.maps[m], fb, true)));
    }
}

/// Backpressure cap. The count of in-flight inbound local calls never
/// exceeds the configured capacity: the bound is part of the peer
/// invariant, which every peer method preserves, and a slot is only
/// acquired while one is free.
pub proof fn lemma_backpressure_cap(p: PeerModel)
    requires
        peer_inv(p),
    ensures
        match p.bp {
            Some(b) => b.in_flight <= b.cap,
            None => true,
        },
        !bp_saturated(p.bp) ==> match bp_acquire(p.bp) {
            Some(b) => b.in_flight <= b.cap,
            None => true,
        },
        match bp_release(p.bp) {
            Some(b) => b.in_flight <= b.cap,
            None => true,
        },
{
}

/// Closure cleanup. Closing resolves every pending call: entry `i` of
/// the table gets exactly one `ConnectionClosed` resolve, at position
/// `i` of the resolve list, and the table is left empty.
pub proof fn lemma_close_resolves_all(pending: Seq<PendingCall>)
    ensures
        resolves_model(pending).len() == pending.len(),
        forall|i: int|
            0 <= i < pending.len() ==> resolves_model(pending)[i] == (ActionModel::Resolve {
                slot: pending[i].slot,
                outcome: OutcomeModel::Failed(ErrKind::ConnectionClosed),
            }),
{
}

/// Send/call independence. What a peer does with an inbound request
/// (send or call) never depends on its pending outbound calls: two
/// peers that differ only in their pending tables take the same
/// actions and end in states that differ only in those same tables. A
/// peer blocked awaiting its own responses therefore keeps accepting
/// and dispatching inbound frames.
pub proof fn lemma_send_call_independence(p1: PeerModel, p2: PeerModel, fb: Seq<u8>)
    requires
        p1 == (PeerModel { pending: p1.pending, ..p2 }),
        !is_response_frame(fb),
    ensures
        step_frame(p1, fb).1 == step_frame(p2, fb).1,
        step_frame(p1, fb).0 == (PeerModel { pending: p1.pending, ..step_frame(p2, fb).0 }),
        step_frame(p1, fb).0.pending == p1.pending,
        step_frame(p2, fb).0.pending == p2.pending,
{
    assert(p1.state == p2.state && p1.maps == p2.maps && p1.bp == p2.bp && p1.parked == p2.parked);
    if p1.state != PeerState::Open {
        assert(step_frame(p1, fb).0 =~~= (PeerModel {
            pending: p1.pending,
            ..step_frame(p2, fb).0
        }));
    } else if is_send_frame(fb) {
        let m = spec_find_map(p1.maps, frame_sid(fb));
        if m == -1 {
            assert(step_frame(p1, fb).0 =~~= (PeerModel {
                pending: p1.pending,
                ..step_frame(p2, fb).0
            }));
        } else {
            assert(step_frame(p1, fb).0 =~~= (PeerModel {
                pending: p1.pending,
                ..step_frame(p2, fb).0
            }));
        }
    } else {
        let m = spec_find_map(p1.maps, frame_sid(fb));
        if m == -1 {
            assert(step_call(p1, fb).0 =~~= (PeerModel {
                pending: p1.pending,
                ..step_call(p2, fb).0
            }));
        } else if p1.maps[m] is Relay {
            assert(step_call(p1, fb).0 =~~= (PeerModel {
                pending: p1.pending,
                ..step_call(p2, fb).0
            }));
        } else if bp_saturated(p1.bp) {
            assert(step_call(p1, fb).0 =~~= (PeerModel {
                pending: p1.pending,
                ..step_call(p2, fb).0
            }));
        } else {
            assert(step_call(p1, fb).0 =~~= (PeerModel {
                pending: p1.pending,
                ..step_call(p2, fb).0
            }));
        }
    }
}

} // verus!
