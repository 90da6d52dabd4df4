use thespis_remote::ids::{ConnID, ServiceID};
use thespis_remote::thes_wf::{ThesWF, LEN_HEADER};

#[test]
fn default_impl() {
    let wf = ThesWF::default();

    assert_eq!(LEN_HEADER * 2, wf.capacity());
    assert_eq!(LEN_HEADER as u64, wf.len());
    assert_eq!(wf.len() as usize, wf.buffered_len());

    assert!(wf.sid().is_null());
    assert!(wf.cid().is_null());

    assert_eq!(0, wf.msg().len());
}

#[test]
fn with_capacity() {
    let wf = ThesWF::with_capacity(5);

    assert_eq!(LEN_HEADER + 5, wf.capacity());
    assert_eq!(LEN_HEADER as u64, wf.len());
    assert_eq!(wf.len() as usize, wf.buffered_len());

    assert!(wf.sid().is_null());
    assert!(wf.cid().is_null());

    assert_eq!(0, wf.msg().len());
}

#[test]
fn set_len() {
    let mut wf = ThesWF::default();

    wf.set_len(33);
    assert_eq!(wf.len(), 33);
}

#[test]
fn set_sid() {
    let mut wf = ThesWF::default();
    let sid = ServiceID::from_seed(&[1, 2, 3], &[]);

    wf.set_sid(sid);
    assert_eq!(wf.sid(), sid);
}

#[test]
fn set_cid() {
    let mut wf = ThesWF::default();
    let cid = ConnID::random();

    wf.set_cid(cid);
    assert_eq!(wf.cid(), cid);
}

// The service id derivation is part of the protocol: pin the exact
// 16 bytes the documented FNV-1a scheme yields for one seed.
#[test]
fn from_seed_exact_value() {
    let sid = ServiceID::from_seed(&[1, 2, 3], &[4, 5, 6]);
    assert_eq!(0xd0e2ed66ce48387a, sid.lo);
    assert_eq!(0xa4c83a0abc591439, sid.hi);

    // Same inputs, same id: the derivation is a pure function.
    let again = ServiceID::from_seed(&[1, 2, 3], &[4, 5, 6]);
    assert_eq!(sid, again);

    // A different namespace gives a different id.
    let other = ServiceID::from_seed(&[9], &[4, 5, 6]);
    assert_ne!(sid, other);
}

// Pin the bit-exact frame layout: little-endian length including the
// header, 16 raw sid bytes, 16 raw cid bytes, then the payload.
#[test]
fn frame_layout_exact_bytes() {
    let mut wf = ThesWF::with_capacity(3);
    wf.set_sid(ServiceID { lo: 0x0807060504030201, hi: 0x100f0e0d0c0b0a09 });
    wf.set_cid(ConnID { lo: 0x1817161514131211, hi: 0x201f1e1d1c1b1a19 });
    wf.append_payload(&[0xaa, 0xbb, 0xcc]);

    let mut expected: Vec<u8> = vec![43, 0, 0, 0, 0, 0, 0, 0];
    for b in 1..=0x20u8 {
        expected.push(b);
    }
    expected.extend_from_slice(&[0xaa, 0xbb, 0xcc]);

    assert_eq!(expected.as_slice(), wf.as_buf());
    assert_eq!(43, wf.len());
    assert_eq!(&[0xaa, 0xbb, 0xcc][..], wf.msg());
}

#[test]
fn reserved_ids() {
    assert!(ServiceID::null().is_null());
    assert!(ServiceID::full().is_full());
    assert!(!ServiceID::full().is_null());
    assert!(!ServiceID::null().is_full());
    assert!(ConnID::null().is_null());
    assert_eq!(ServiceID::full().lo, u64::MAX);
    assert_eq!(ServiceID::full().hi, u64::MAX);
}

// A zero-sized payload is a valid frame.
#[test]
fn empty_payload_is_valid() {
    let mut wf = ThesWF::with_capacity(0);
    wf.append_payload(&[]);
    assert_eq!(LEN_HEADER as u64, wf.len());
    assert_eq!(0, wf.msg().len());
}

#[test]
fn append_updates_length_field() {
    let mut wf = ThesWF::default();
    wf.append_payload(&[1, 2]);
    wf.append_payload(&[3]);
    assert_eq!(LEN_HEADER as u64 + 3, wf.len());
    assert_eq!(&[1, 2, 3][..], wf.msg());
}

#[test]
fn try_from_bytes_checks_header() {
    let err = ThesWF::try_from_bytes(vec![0; LEN_HEADER - 1]);
    assert!(matches!(err, Err(thespis_remote::error::WireErr::Deserialize)));

    let ok = ThesWF::try_from_bytes(vec![0; LEN_HEADER]).expect("exactly one header");
    assert!(ok.sid().is_null());
    assert!(ok.cid().is_null());
}
