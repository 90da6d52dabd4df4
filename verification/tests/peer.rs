use thespis_remote::close_connection::CloseConnection;
use thespis_remote::error::{ErrKind, PeerErr};
use thespis_remote::ids::{ConnID, ServiceID};
use thespis_remote::local_service_map::LocalServiceMap;
use thespis_remote::peer::{
    CallOutcome, DispatchOutcome, Peer, PeerAction, PeerEvent, PeerState, RegisteredMap,
};
use thespis_remote::relay_map::{RelayMap, ServiceHandler};
use thespis_remote::remote_addr::RemoteAddr;
use thespis_remote::service_map::DispatchTask;
use thespis_remote::thes_wf::ThesWF;

fn cid(n: u64) -> ConnID {
    ConnID { lo: n, hi: 0xfeed }
}

fn sid(name: &str) -> ServiceID {
    ServiceID::from_seed(b"testns", name.as_bytes())
}

struct Split {
    written: Vec<ThesWF>,
    resolves: Vec<(u64, CallOutcome)>,
    dispatches: Vec<DispatchTask>,
    events: Vec<PeerEvent>,
    close_sinks: usize,
}

fn split(acts: Vec<PeerAction>) -> Split {
    let mut s = Split {
        written: Vec::new(),
        resolves: Vec::new(),
        dispatches: Vec::new(),
        events: Vec::new(),
        close_sinks: 0,
    };
    for a in acts {
        match a {
            PeerAction::WriteFrame(f) => s.written.push(f),
            PeerAction::Resolve { slot, outcome } => s.resolves.push((slot, outcome)),
            PeerAction::Dispatch(t) => s.dispatches.push(t),
            PeerAction::Emit(e) => s.events.push(e),
            PeerAction::CloseSink => s.close_sinks += 1,
        }
    }
    s
}

fn local_server(peer_id: u64, bp: Option<u32>, handlers: &[(ServiceID, u64)]) -> Peer {
    let (mut server, start) = Peer::new(peer_id, bp);
    assert_eq!(vec![PeerEvent::Connected], split(start).events);
    let mut lm = LocalServiceMap::new();
    for (s, h) in handlers {
        lm.register_handler(*s, *h);
    }
    server.register_services(RegisteredMap::Local(lm));
    server
}

fn expect_local_call(acts: Vec<PeerAction>, want_handler: u64) -> ThesWF {
    let mut s = split(acts);
    assert_eq!(1, s.dispatches.len());
    match s.dispatches.remove(0) {
        DispatchTask::LocalCall { handler, frame } => {
            assert_eq!(want_handler, handler);
            frame
        },
        other => panic!("expected a local call dispatch, got {:?}", other),
    }
}

// S1: a handler sums incoming Add(u64) calls. Two Add(5) calls, then
// Show, yield 10: the full round trip through both peers.
#[test]
fn basic_call() {
    let sid_add = sid("Add");
    let sid_show = sid("Show");
    let mut server = local_server(1, None, &[(sid_add, 7), (sid_show, 8)]);
    let (mut client, _) = Peer::new(2, None);
    let addr_add = RemoteAddr::new(1, None, sid_add);
    let addr_show = RemoteAddr::new(1, None, sid_show);

    let mut sum: u64 = 0;
    for round in 0..2u64 {
        let c = cid(round + 1);
        let frame = addr_add.build_call(c, &5u64.to_le_bytes());
        let mut out = split(client.call_out(frame, round + 1));
        assert!(out.resolves.is_empty());
        let wire = out.written.remove(0);

        let req = expect_local_call(server.incoming_frame(wire), 7);
        let v = u64::from_le_bytes(req.msg().try_into().expect("eight payload bytes"));
        sum += v;
        let mut resp_acts = split(server.dispatch_done(req.cid(), DispatchOutcome::CallReply(Vec::new())));
        let resp = resp_acts.written.remove(0);

        let mut back = split(client.incoming_frame(resp));
        let (slot, outcome) = back.resolves.remove(0);
        assert_eq!(round + 1, slot);
        let reply = addr_add.interpret_reply(c, Some(outcome)).expect("Add succeeds");
        assert!(reply.is_empty());
    }

    let c = cid(3);
    let frame = addr_show.build_call(c, &[]);
    let mut out = split(client.call_out(frame, 3));
    let req = expect_local_call(server.incoming_frame(out.written.remove(0)), 8);
    let mut resp_acts = split(
        server.dispatch_done(req.cid(), DispatchOutcome::CallReply(sum.to_le_bytes().to_vec())),
    );
    let mut back = split(client.incoming_frame(resp_acts.written.remove(0)));
    let (_, outcome) = back.resolves.remove(0);
    let reply = addr_show.interpret_reply(c, Some(outcome)).expect("Show succeeds");
    assert_eq!(10u64, u64::from_le_bytes(reply.as_slice().try_into().expect("eight bytes")));
}

// S2: a call for a sid the server does not register. The server emits
// Error(UnknownService) and answers with an error frame; the client
// observes RemoteError(UnknownService).
#[test]
fn unknown_service() {
    let mut server = local_server(1, None, &[(sid("Add"), 7)]);
    let (mut client, _) = Peer::new(2, None);
    let bogus = ServiceID { lo: 0x0303030303030303, hi: 0x0303030303030303 };
    let addr = RemoteAddr::new(1, None, bogus);

    let c = cid(1);
    let mut out = split(client.call_out(addr.build_call(c, &[1]), 1));
    let mut sacts = split(server.incoming_frame(out.written.remove(0)));
    assert_eq!(vec![PeerEvent::Error(ErrKind::UnknownService(bogus))], sacts.events);
    assert!(sacts.dispatches.is_empty());
    let err_frame = sacts.written.remove(0);
    assert_eq!(c, err_frame.cid());
    assert!(err_frame.sid().is_full());

    let mut back = split(client.incoming_frame(err_frame));
    assert_eq!(vec![PeerEvent::RemoteError(ErrKind::UnknownService(bogus))], back.events);
    let (_, outcome) = back.resolves.remove(0);
    match addr.interpret_reply(c, Some(outcome)) {
        Err(PeerErr::Remote { kind, .. }) => assert_eq!(ErrKind::UnknownService(bogus), kind),
        other => panic!("expected a remote error, got {:?}", other),
    }
}

// A send for an unknown sid is silently dropped, with only an event.
#[test]
fn unknown_send_is_dropped() {
    let mut server = local_server(1, None, &[(sid("Add"), 7)]);
    let bogus = ServiceID { lo: 3, hi: 3 };
    let addr = RemoteAddr::new(1, None, bogus);
    let sacts = split(server.incoming_frame(addr.build_send(&[1, 2])));
    assert_eq!(vec![PeerEvent::Error(ErrKind::UnknownService(bogus))], sacts.events);
    assert!(sacts.written.is_empty());
    assert!(sacts.dispatches.is_empty());
}

// S3: a registered sid with a payload the handler cannot deserialize.
// The server reports Deserialize and echoes an error frame; the client
// observes RemoteError(Deserialize).
#[test]
fn deserialize_error() {
    let sid_add = sid("Add");
    let mut server = local_server(1, None, &[(sid_add, 7)]);
    let (mut client, _) = Peer::new(2, None);
    let addr = RemoteAddr::new(1, None, sid_add);

    let c = cid(1);
    let mut out = split(client.call_out(addr.build_call(c, &[0x03, 0x03]), 1));
    let req = expect_local_call(server.incoming_frame(out.written.remove(0)), 7);
    // The runtime fails to deserialize [3, 3] into an Add message.
    let mut sacts = split(
        server.dispatch_done(req.cid(), DispatchOutcome::CallFailed(ErrKind::Deserialize)),
    );
    assert_eq!(vec![PeerEvent::Error(ErrKind::Deserialize)], sacts.events);
    let err_frame = sacts.written.remove(0);
    assert_eq!(c, err_frame.cid());

    let mut back = split(client.incoming_frame(err_frame));
    assert_eq!(vec![PeerEvent::RemoteError(ErrKind::Deserialize)], back.events);
    let (_, outcome) = back.resolves.remove(0);
    match addr.interpret_reply(c, Some(outcome)) {
        Err(PeerErr::Remote { kind, .. }) => assert_eq!(ErrKind::Deserialize, kind),
        other => panic!("expected a remote error, got {:?}", other),
    }
}

// S4: close the connection, then call. The call future resolves to
// ConnectionClosed and the observer sees Closed.
#[test]
fn close_then_call() {
    let (mut client, _) = Peer::new(2, None);
    let acts = split(
        client.handle_close_connection(CloseConnection { remote: false, reason: String::new() }),
    );
    assert_eq!(vec![PeerEvent::Closed], acts.events);
    assert_eq!(1, acts.close_sinks);
    assert_eq!(PeerState::Closed, client.state());
    assert!(!client.holds_self_addr());

    let addr = RemoteAddr::new(2, None, sid("Add"));
    let c = cid(1);
    let mut out = split(client.call_out(addr.build_call(c, &[1]), 1));
    assert!(out.written.is_empty());
    let (slot, outcome) = out.resolves.remove(0);
    assert_eq!(1, slot);
    assert!(matches!(outcome, CallOutcome::Failed(ErrKind::ConnectionClosed)));
    match addr.interpret_reply(c, Some(outcome)) {
        Err(PeerErr::ConnectionClosed { .. }) => {},
        other => panic!("expected ConnectionClosed, got {:?}", other),
    }
}

// S5 with cap = 2: two slow calls fill the limiter; the third call is
// parked, so it can only run after a slow one finished.
#[test]
fn backpressure_cap_two() {
    let sid_slow = sid("Slow");
    let sid_after = sid("After");
    let mut server = local_server(1, Some(2), &[(sid_slow, 1), (sid_after, 2)]);
    let slow = RemoteAddr::new(1, None, sid_slow);
    let after = RemoteAddr::new(1, None, sid_after);

    let a1 = split(server.incoming_frame(slow.build_call(cid(1), &[])));
    assert_eq!(1, a1.dispatches.len());
    assert_eq!(1, server.in_flight());
    let a2 = split(server.incoming_frame(slow.build_call(cid(2), &[])));
    assert_eq!(1, a2.dispatches.len());
    assert_eq!(2, server.in_flight());

    // The limiter is saturated: the third call suspends the reader.
    let a3 = split(server.incoming_frame(after.build_call(cid(3), &[])));
    assert!(a3.dispatches.is_empty());
    assert!(server.is_suspended());
    assert_eq!(2, server.in_flight());

    // One slow call finishes: its response goes out and the parked
    // call is dispatched now — after, not before, a slow completion.
    let done = split(server.dispatch_done(cid(1), DispatchOutcome::CallReply(Vec::new())));
    assert_eq!(1, done.written.len());
    assert_eq!(1, done.dispatches.len());
    assert!(matches!(&done.dispatches[0], DispatchTask::LocalCall { handler: 2, .. }));
    assert!(!server.is_suspended());
    assert_eq!(2, server.in_flight());
}

// S5 with cap = 3: the same three calls all run at once.
#[test]
fn backpressure_cap_three() {
    let sid_slow = sid("Slow");
    let sid_after = sid("After");
    let mut server = local_server(1, Some(3), &[(sid_slow, 1), (sid_after, 2)]);
    let slow = RemoteAddr::new(1, None, sid_slow);
    let after = RemoteAddr::new(1, None, sid_after);

    server.incoming_frame(slow.build_call(cid(1), &[]));
    server.incoming_frame(slow.build_call(cid(2), &[]));
    let a3 = split(server.incoming_frame(after.build_call(cid(3), &[])));
    assert_eq!(1, a3.dispatches.len());
    assert!(!server.is_suspended());
    assert_eq!(3, server.in_flight());
}

// Sends bypass the limiter entirely.
#[test]
fn sends_bypass_backpressure() {
    let sid_add = sid("Add");
    let mut server = local_server(1, Some(1), &[(sid_add, 7)]);
    let addr = RemoteAddr::new(1, None, sid_add);
    for _ in 0..3u32 {
        let acts = split(server.incoming_frame(addr.build_send(&[1])));
        assert_eq!(1, acts.dispatches.len());
    }
    assert_eq!(0, server.in_flight());
    assert!(!server.is_suspended());
}

// S6: peer B advertises Add through a relay pointing at peer A. The
// frame travels raw in both directions and the reply reaches the
// client under its own cid.
#[test]
fn relay_preserves_cid() {
    let sid_add = sid("Add");
    let (mut b, _) = Peer::new(2, None);
    b.register_services(
        RegisteredMap::Relay(RelayMap::new(ServiceHandler::Address(10), vec![sid_add])),
    );
    let mut a = local_server(1, None, &[(sid_add, 7)]);
    let addr = RemoteAddr::new(2, None, sid_add);

    let c = cid(77);
    let mut bacts = split(b.incoming_frame(addr.build_call(c, &7u64.to_le_bytes())));
    assert_eq!(1, bacts.dispatches.len());
    let (relay, fwd) = match bacts.dispatches.remove(0) {
        DispatchTask::RelayCall { relay, frame } => (relay, frame),
        other => panic!("expected a relay call, got {:?}", other),
    };
    assert_eq!(10, relay);
    assert_eq!(c, fwd.cid());

    let req = expect_local_call(a.incoming_frame(fwd), 7);
    let v = u64::from_le_bytes(req.msg().try_into().expect("eight bytes"));
    let mut resp_acts = split(
        a.dispatch_done(req.cid(), DispatchOutcome::CallReply((v * 2).to_le_bytes().to_vec())),
    );
    let resp = resp_acts.written.remove(0);
    assert_eq!(c, resp.cid());

    let mut spliced = split(b.dispatch_done(c, DispatchOutcome::RelayReply(resp)));
    let out = spliced.written.remove(0);
    assert_eq!(c, out.cid());
    let reply = addr.interpret_reply(c, Some(CallOutcome::Delivered(out))).expect("relayed reply");
    assert_eq!(14u64, u64::from_le_bytes(reply.as_slice().try_into().expect("eight bytes")));
}

// The pool variant of a relay handler spreads consecutive frames
// round-robin, and the map tolerates the changing choice.
#[test]
fn relay_pool_round_robin() {
    let sid_add = sid("Add");
    let (mut b, _) = Peer::new(2, None);
    b.register_services(
        RegisteredMap::Relay(
            RelayMap::new(
                ServiceHandler::Pool { relays: vec![10, 11], next: 0 },
                vec![sid_add],
            ),
        ),
    );
    let addr = RemoteAddr::new(2, None, sid_add);
    let mut targets: Vec<u64> = Vec::new();
    for _ in 0..3u32 {
        let mut acts = split(b.incoming_frame(addr.build_send(&[0])));
        match acts.dispatches.remove(0) {
            DispatchTask::RelaySend { relay, .. } => targets.push(relay),
            other => panic!("expected a relay send, got {:?}", other),
        }
    }
    assert_eq!(vec![10, 11, 10], targets);
}

// Correlation: a response whose cid no outstanding call issued is
// dropped with a warning event; nothing is resolved, nothing leaks.
#[test]
fn stray_response_is_dropped_with_warning() {
    let (mut client, _) = Peer::new(2, None);
    let addr = RemoteAddr::new(1, None, sid("Add"));
    client.call_out(addr.build_call(cid(1), &[1]), 1);
    assert_eq!(1, client.pending_count());

    let stray = thespis_remote::response::prep_response(cid(2), &[5]);
    let acts = split(client.incoming_frame(stray));
    assert_eq!(vec![PeerEvent::RemoteError(ErrKind::Timeout)], acts.events);
    assert!(acts.resolves.is_empty());
    assert_eq!(1, client.pending_count());
}

// Closure cleanup: closing resolves every pending call with
// ConnectionClosed, exactly once each, and the table empties.
#[test]
fn close_resolves_every_pending_call() {
    let (mut client, _) = Peer::new(2, None);
    let addr = RemoteAddr::new(1, None, sid("Add"));
    for n in 1..=3u64 {
        client.call_out(addr.build_call(cid(n), &[1]), n);
    }
    assert_eq!(3, client.pending_count());

    let acts = split(
        client.handle_close_connection(CloseConnection { remote: true, reason: String::new() }),
    );
    assert_eq!(vec![PeerEvent::ClosedByRemote], acts.events);
    assert_eq!(1, acts.close_sinks);
    assert_eq!(3, acts.resolves.len());
    for (n, (slot, outcome)) in acts.resolves.into_iter().enumerate() {
        assert_eq!(n as u64 + 1, slot);
        assert!(matches!(outcome, CallOutcome::Failed(ErrKind::ConnectionClosed)));
    }
    assert_eq!(0, client.pending_count());
    assert!(!client.holds_self_addr());

    // Closing again is a no-op.
    let again = client.handle_close_connection(CloseConnection { remote: true, reason: String::new() });
    assert!(again.is_empty());
}

// Send/call independence: a peer with outstanding outbound calls
// handles an inbound call exactly as one without any.
#[test]
fn inbound_independent_of_pending_calls() {
    let sid_add = sid("Add");
    let mut blocked = local_server(1, None, &[(sid_add, 7)]);
    let mut free = local_server(1, None, &[(sid_add, 7)]);
    let out_addr = RemoteAddr::new(9, None, sid("Elsewhere"));
    blocked.call_out(out_addr.build_call(cid(50), &[1]), 50);
    assert_eq!(1, blocked.pending_count());

    let addr = RemoteAddr::new(1, None, sid_add);
    let f1 = expect_local_call(blocked.incoming_frame(addr.build_call(cid(1), &[9])), 7);
    let f2 = expect_local_call(free.incoming_frame(addr.build_call(cid(1), &[9])), 7);
    assert_eq!(f1.as_buf(), f2.as_buf());
    assert_eq!(1, blocked.pending_count());
}

// A fatal transport error fails every pending call and dispatches
// nothing: a handler is never invoked for a frame the transport lost.
#[test]
fn transport_failure_cleans_up() {
    let (mut client, _) = Peer::new(2, None);
    let addr = RemoteAddr::new(1, None, sid("Add"));
    client.call_out(addr.build_call(cid(1), &[1]), 1);
    client.call_out(addr.build_call(cid(2), &[1]), 2);

    let acts = split(client.transport_error(ErrKind::MessageSizeExceeded));
    assert_eq!(vec![PeerEvent::Error(ErrKind::MessageSizeExceeded)], acts.events);
    assert_eq!(2, acts.resolves.len());
    assert!(acts.dispatches.is_empty());
    assert!(acts.written.is_empty());
    assert_eq!(1, acts.close_sinks);
    assert_eq!(PeerState::Closing, client.state());
    assert_eq!(0, client.pending_count());

    // Results of dispatches still in flight are discarded now.
    let late = client.dispatch_done(cid(9), DispatchOutcome::CallReply(vec![1]));
    assert!(late.is_empty());
}

// A timed-out call resolves with Timeout; the response that arrives
// later is stray and only warns.
#[test]
fn timeout_then_late_response() {
    let (mut client, _) = Peer::new(2, None);
    let addr = RemoteAddr::new(1, None, sid("Add"));
    client.call_out(addr.build_call(cid(1), &[1]), 1);

    let mut acts = split(client.timeout_call(cid(1)));
    let (slot, outcome) = acts.resolves.remove(0);
    assert_eq!(1, slot);
    assert!(matches!(outcome, CallOutcome::Failed(ErrKind::Timeout)));
    match addr.interpret_reply(cid(1), Some(outcome)) {
        Err(PeerErr::Timeout { .. }) => {},
        other => panic!("expected Timeout, got {:?}", other),
    }
    assert_eq!(0, client.pending_count());

    let late = thespis_remote::response::prep_response(cid(1), &[5]);
    let late_acts = split(client.incoming_frame(late));
    assert_eq!(vec![PeerEvent::RemoteError(ErrKind::Timeout)], late_acts.events);
    assert!(late_acts.resolves.is_empty());

    // A second timeout for the same cid is a no-op.
    assert!(client.timeout_call(cid(1)).is_empty());
}

// Submitting a call under a cid that is already pending replaces the
// earlier entry; the replaced slot fails, its channel being gone.
#[test]
fn duplicate_cid_replaces_pending_entry() {
    let (mut client, _) = Peer::new(2, None);
    let addr = RemoteAddr::new(1, None, sid("Add"));
    client.call_out(addr.build_call(cid(1), &[1]), 1);
    let mut acts = split(client.call_out(addr.build_call(cid(1), &[2]), 2));
    let (slot, outcome) = acts.resolves.remove(0);
    assert_eq!(1, slot);
    assert!(matches!(outcome, CallOutcome::Failed(ErrKind::ConnectionClosed)));
    assert_eq!(1, acts.written.len());
    assert_eq!(1, client.pending_count());
}

// Outbound sends need no pending entry and fail once the peer closed.
#[test]
fn send_out_lifecycle() {
    let (mut client, _) = Peer::new(2, None);
    let addr = RemoteAddr::new(1, None, sid("Add"));
    let ok = client.send_out(addr.build_send(&[1])).expect("open peer sends");
    assert_eq!(1, split(ok).written.len());

    client.handle_close_connection(CloseConnection { remote: false, reason: String::new() });
    match client.send_out(addr.build_send(&[1])) {
        Err(PeerErr::ConnectionClosed { .. }) => {},
        other => panic!("expected ConnectionClosed, got {:?}", other),
    }
}

// The channel of a call being dropped without any delivery reads as
// the connection having closed.
#[test]
fn dropped_channel_reads_as_closed() {
    let addr = RemoteAddr::new(1, None, sid("Add"));
    match addr.interpret_reply(cid(1), None) {
        Err(PeerErr::ConnectionClosed { .. }) => {},
        other => panic!("expected ConnectionClosed, got {:?}", other),
    }
}
