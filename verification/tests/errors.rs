use thespis_remote::error::{decode_kind, encode_kind, ErrKind, PeerErr, PeerErrCtx};
use thespis_remote::ids::{ConnID, ServiceID};
use thespis_remote::relay_map::{relay_reply, RelayOutcome};
use thespis_remote::response::{classify_reply, prep_error, prep_response};
use thespis_remote::service_map::Response;

fn all_kinds() -> Vec<ErrKind> {
    vec![
        ErrKind::Deserialize,
        ErrKind::Serialize,
        ErrKind::UnknownService(ServiceID { lo: 0x1122334455667788, hi: 0x99aabbccddeeff00 }),
        ErrKind::NoHandler,
        ErrKind::Downcast,
        ErrKind::HandlerDead,
        ErrKind::RelayGone,
        ErrKind::ConnectionClosed,
        ErrKind::MessageSizeExceeded,
        ErrKind::Timeout,
    ]
}

// Every error kind survives the trip onto the wire and back.
#[test]
fn kind_round_trip() {
    for k in all_kinds() {
        let bytes = encode_kind(&k);
        assert_eq!(Some(k), decode_kind(&bytes));
    }
}

#[test]
fn kind_encoding_exact() {
    assert_eq!(vec![1u8], encode_kind(&ErrKind::Deserialize));
    assert_eq!(vec![10u8], encode_kind(&ErrKind::Timeout));
    let sid = ServiceID { lo: 0x0807060504030201, hi: 0x100f0e0d0c0b0a09 };
    let mut expected: Vec<u8> = vec![3];
    for b in 1..=0x10u8 {
        expected.push(b);
    }
    assert_eq!(expected, encode_kind(&ErrKind::UnknownService(sid)));
}

#[test]
fn malformed_kinds_are_rejected() {
    assert_eq!(None, decode_kind(&[]));
    assert_eq!(None, decode_kind(&[0]));
    assert_eq!(None, decode_kind(&[11]));
    assert_eq!(None, decode_kind(&[3, 3]));
    assert_eq!(None, decode_kind(&[1, 1]));
}

// An error framed by prep_error classifies back to the same kind, and
// a payload framed by prep_response classifies back to itself: the
// response legs of the round-trip law, on concrete values.
#[test]
fn response_frames_round_trip() {
    let c = ConnID { lo: 5, hi: 6 };
    for k in all_kinds() {
        let frame = prep_error(c, &k);
        assert!(frame.sid().is_full());
        assert_eq!(c, frame.cid());
        assert_eq!(Some(Err(k)), classify_reply(frame.msg()));
    }
    let frame = prep_response(c, &[1, 2, 3]);
    assert!(frame.sid().is_full());
    assert_eq!(c, frame.cid());
    assert_eq!(Some(Ok(vec![1, 2, 3])), classify_reply(frame.msg()));
    // The full sid is sixteen raw 0xff bytes on the wire.
    assert!(frame.as_buf()[8..24].iter().all(|b| *b == 0xff));
}

#[test]
fn malformed_reply_payload_is_rejected() {
    assert_eq!(None, classify_reply(&[]));
    assert_eq!(None, classify_reply(&[7, 7]));
    assert_eq!(None, classify_reply(&[1, 0]));
}

#[test]
fn peer_err_kind_mapping() {
    let ctx = PeerErrCtx::empty();
    assert_eq!(ErrKind::Deserialize, PeerErr::Deserialize { ctx: ctx.clone() }.kind());
    assert_eq!(
        ErrKind::RelayGone,
        PeerErr::RelayGone { ctx: ctx.clone(), relay_id: 4, relay_name: None }.kind(),
    );
    assert_eq!(
        ErrKind::Timeout,
        PeerErr::Remote { ctx, kind: ErrKind::Timeout }.kind(),
    );
}

// The relay's reply logic: connection loss at any stage is RelayGone,
// an answer is spliced back, a downstream error becomes a wire-format
// error frame under the caller's cid.
#[test]
fn relay_reply_outcomes() {
    let c = ConnID { lo: 9, hi: 9 };
    for lost in [RelayOutcome::MailboxClosed, RelayOutcome::SendFailed, RelayOutcome::ChannelDropped]
    {
        match relay_reply(lost, c, PeerErrCtx::empty(), 4, None) {
            Err(PeerErr::RelayGone { relay_id, .. }) => assert_eq!(4, relay_id),
            other => panic!("expected RelayGone, got {:?}", other),
        }
    }

    let resp = prep_response(c, &[8]);
    match relay_reply(RelayOutcome::Answered(resp), c, PeerErrCtx::empty(), 4, None) {
        Ok(Response::CallResponse(f)) => assert_eq!(c, f.cid()),
        other => panic!("expected a spliced response, got {:?}", other),
    }

    match relay_reply(
        RelayOutcome::AnsweredErr(ErrKind::Timeout),
        c,
        PeerErrCtx::empty(),
        4,
        None,
    ) {
        Ok(Response::WireFormat(f)) => {
            assert_eq!(c, f.cid());
            assert!(f.sid().is_full());
            assert_eq!(Some(Err(ErrKind::Timeout)), classify_reply(f.msg()));
        },
        other => panic!("expected a wire-format error, got {:?}", other),
    }
}
