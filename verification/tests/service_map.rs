use thespis_remote::error::{PeerErr, PeerErrCtx};
use thespis_remote::ids::{ConnID, ServiceID};
use thespis_remote::local_service_map::LocalServiceMap;
use thespis_remote::relay_map::{RelayMap, ServiceHandler};
use thespis_remote::remote_addr::RemoteAddr;
use thespis_remote::service_map::{DispatchTask, ServiceMap};

fn sid(name: &str) -> ServiceID {
    ServiceID::from_seed(b"testns", name.as_bytes())
}

// Dispatch through the trait on a local table: a registered sid yields
// the registered handler's task carrying the frame's exact bytes.
#[test]
fn local_map_routes_registered_sid() {
    let sid_add = sid("Add");
    let mut lm = LocalServiceMap::new();
    lm.register_handler(sid_add, 7);
    assert_eq!(vec![sid_add], lm.services());

    let addr = RemoteAddr::new(1, None, sid_add);
    let frame = addr.build_call(ConnID { lo: 4, hi: 0 }, &[1, 2, 3]);
    let original = frame.as_buf().to_vec();

    match lm.call_service(frame, PeerErrCtx::empty()) {
        Ok(DispatchTask::LocalCall { handler, frame }) => {
            assert_eq!(7, handler);
            assert_eq!(original.as_slice(), frame.as_buf());
        },
        other => panic!("expected a local call dispatch, got {:?}", other),
    }

    let send = addr.build_send(&[9]);
    match lm.send_service(send, PeerErrCtx::empty()) {
        Ok(DispatchTask::LocalSend { handler, .. }) => assert_eq!(7, handler),
        other => panic!("expected a local send dispatch, got {:?}", other),
    }
}

// Dispatch through the trait on a local table: an unregistered sid
// fails with UnknownService carrying the offending id, both ways.
#[test]
fn local_map_rejects_unregistered_sid() {
    let mut lm = LocalServiceMap::new();
    lm.register_handler(sid("Add"), 7);

    let bogus = ServiceID { lo: 0x0303030303030303, hi: 0x0303030303030303 };
    let addr = RemoteAddr::new(1, None, bogus);

    match lm.call_service(addr.build_call(ConnID { lo: 1, hi: 0 }, &[]), PeerErrCtx::empty()) {
        Err(PeerErr::UnknownService { sid, .. }) => assert_eq!(bogus, sid),
        other => panic!("expected UnknownService, got {:?}", other),
    }
    match lm.send_service(addr.build_send(&[]), PeerErrCtx::empty()) {
        Err(PeerErr::UnknownService { sid, .. }) => assert_eq!(bogus, sid),
        other => panic!("expected UnknownService, got {:?}", other),
    }
}

// Dispatch through the trait on a relay: never an error, the frame
// passes byte for byte to the chosen downstream, and consecutive
// frames walk the pool.
#[test]
fn relay_map_forwards_verbatim_round_robin() {
    let sid_add = sid("Add");
    let mut rm = RelayMap::new(
        ServiceHandler::Pool { relays: vec![10, 11], next: 0 },
        vec![sid_add],
    );
    assert_eq!(vec![sid_add], rm.services());

    let addr = RemoteAddr::new(1, None, sid_add);
    let mut targets: Vec<u64> = Vec::new();
    for n in 0..3u64 {
        let frame = addr.build_call(ConnID { lo: n + 1, hi: 0 }, &[n as u8]);
        let original = frame.as_buf().to_vec();
        match rm.call_service(frame, PeerErrCtx::empty()) {
            Ok(DispatchTask::RelayCall { relay, frame }) => {
                assert_eq!(original.as_slice(), frame.as_buf());
                targets.push(relay);
            },
            other => panic!("expected a relay call dispatch, got {:?}", other),
        }
    }
    assert_eq!(vec![10, 11, 10], targets);

    // Sends take the same path, with no response owed.
    match rm.send_service(addr.build_send(&[5]), PeerErrCtx::empty()) {
        Ok(DispatchTask::RelaySend { relay, .. }) => assert_eq!(11, relay),
        other => panic!("expected a relay send dispatch, got {:?}", other),
    }
}
