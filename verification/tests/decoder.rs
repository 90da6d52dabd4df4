use thespis_remote::decoder::Decoder;
use thespis_remote::decoder_noheap::{DecoderNoHeap, NoHeapStep};
use thespis_remote::error::WireErr;
use thespis_remote::ids::{ConnID, ServiceID};
use thespis_remote::thes_wf::{ThesWF, LEN_HEADER};

fn sample_frame(payload: &[u8]) -> ThesWF {
    let mut wf = ThesWF::with_capacity(payload.len());
    wf.set_sid(ServiceID::from_seed(b"testns", b"Sample"));
    wf.set_cid(ConnID { lo: 42, hi: 7 });
    wf.append_payload(payload);
    wf
}

// Round trip: encoding is emitting the frame's bytes; decoding them
// yields the same frame, field for field.
#[test]
fn decode_encode_round_trip() {
    let frame = sample_frame(&[10, 20, 30, 40]);

    let mut dec = Decoder::new(1024);
    dec.feed(frame.as_buf());
    let out = dec.next_frame().expect("valid frame").expect("complete frame");

    assert_eq!(frame.as_buf(), out.as_buf());
    assert_eq!(frame.sid(), out.sid());
    assert_eq!(frame.cid(), out.cid());
    assert_eq!(frame.msg(), out.msg());
    assert!(matches!(dec.next_frame(), Ok(None)));
    assert!(dec.finish().is_ok());
}

// The format is self-delimiting: two frames on one stream come out as
// two frames, in order, however the bytes were chunked.
#[test]
fn two_frames_chunked_feed() {
    let a = sample_frame(&[1, 1, 1]);
    let b = sample_frame(&[2, 2]);
    let mut stream: Vec<u8> = Vec::new();
    stream.extend_from_slice(a.as_buf());
    stream.extend_from_slice(b.as_buf());

    let mut dec = Decoder::new(1024);
    // Feed in awkward chunks: mid-header and mid-payload.
    dec.feed(&stream[..5]);
    assert!(matches!(dec.next_frame(), Ok(None)));
    dec.feed(&stream[5..47]);
    let first = dec.next_frame().expect("valid").expect("first frame");
    assert_eq!(a.as_buf(), first.as_buf());
    assert!(matches!(dec.next_frame(), Ok(None)));
    dec.feed(&stream[47..]);
    let second = dec.next_frame().expect("valid").expect("second frame");
    assert_eq!(b.as_buf(), second.as_buf());
    assert!(dec.finish().is_ok());
}

#[test]
fn oversized_frame_is_rejected() {
    let frame = sample_frame(&[0; 30]);
    let mut dec = Decoder::new(LEN_HEADER + 10);
    dec.feed(frame.as_buf());
    assert_eq!(Err(WireErr::MessageSizeExceeded), dec.next_frame().map(|_| ()));
}

#[test]
fn frame_at_the_size_budget_passes() {
    let frame = sample_frame(&[0; 10]);
    let mut dec = Decoder::new(LEN_HEADER + 10);
    dec.feed(frame.as_buf());
    assert!(dec.next_frame().expect("at the budget").is_some());
}

#[test]
fn length_below_header_is_rejected() {
    let mut frame = sample_frame(&[]);
    frame.set_len(10);
    let mut dec = Decoder::new(1024);
    dec.feed(frame.as_buf());
    assert_eq!(Err(WireErr::Deserialize), dec.next_frame().map(|_| ()));
}

#[test]
fn truncated_input_fails_at_eof() {
    let frame = sample_frame(&[9, 9, 9]);
    let mut dec = Decoder::new(1024);
    dec.feed(&frame.as_buf()[..20]);
    assert!(matches!(dec.next_frame(), Ok(None)));
    assert_eq!(Err(WireErr::Deserialize), dec.finish());
}

#[test]
fn empty_payload_frame_decodes() {
    let frame = sample_frame(&[]);
    let mut dec = Decoder::new(1024);
    dec.feed(frame.as_buf());
    let out = dec.next_frame().expect("valid").expect("complete");
    assert_eq!(0, out.msg().len());
    assert_eq!(LEN_HEADER as u64, out.len());
}

// The no-heap decoder yields the same header fields and streams the
// payload through byte by byte, never buffering it.
#[test]
fn noheap_streams_payload() {
    let frame = sample_frame(&[7, 8, 9]);
    let bytes = frame.as_buf();

    let mut dec = DecoderNoHeap::new(1024);
    let mut seen: Vec<u8> = Vec::new();
    let mut header_count: u32 = 0;
    for (i, b) in bytes.iter().enumerate() {
        match dec.push_byte(*b).expect("valid stream") {
            NoHeapStep::Buffered => assert!(i < LEN_HEADER - 1),
            NoHeapStep::Header { sid, cid, payload_len } => {
                header_count += 1;
                assert_eq!(i, LEN_HEADER - 1);
                assert_eq!(frame.sid(), sid);
                assert_eq!(frame.cid(), cid);
                assert_eq!(3, payload_len);
            },
            NoHeapStep::Payload { byte, last } => {
                seen.push(byte);
                assert_eq!(last, i == bytes.len() - 1);
            },
        }
    }
    assert_eq!(1, header_count);
    assert_eq!(vec![7, 8, 9], seen);
    assert!(dec.finish().is_ok());
}

#[test]
fn noheap_rejects_oversized_header() {
    let frame = sample_frame(&[0; 30]);
    let bytes = frame.as_buf();
    let mut dec = DecoderNoHeap::new(LEN_HEADER + 10);
    let mut result = Ok(());
    for b in &bytes[..LEN_HEADER] {
        match dec.push_byte(*b) {
            Ok(_) => {},
            Err(e) => {
                result = Err(e);
                break;
            },
        }
    }
    assert_eq!(Err(WireErr::MessageSizeExceeded), result);
}

#[test]
fn noheap_zero_payload_ends_frame_at_header() {
    let frame = sample_frame(&[]);
    let bytes = frame.as_buf();
    let mut dec = DecoderNoHeap::new(1024);
    for (i, b) in bytes.iter().enumerate() {
        match dec.push_byte(*b).expect("valid") {
            NoHeapStep::Header { payload_len, .. } => {
                assert_eq!(i, LEN_HEADER - 1);
                assert_eq!(0, payload_len);
            },
            NoHeapStep::Buffered => {},
            NoHeapStep::Payload { .. } => panic!("no payload expected"),
        }
    }
    assert!(dec.finish().is_ok());
}

#[test]
fn noheap_truncated_fails_at_eof() {
    let frame = sample_frame(&[1]);
    let mut dec = DecoderNoHeap::new(1024);
    for b in &frame.as_buf()[..10] {
        dec.push_byte(*b).expect("still in header");
    }
    assert_eq!(Err(WireErr::Deserialize), dec.finish());
}
