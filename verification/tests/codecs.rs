use thespis_remote::codecs::Codecs;

fn ashex(buf: &[u8]) -> String {
    let mut f = String::new();
    for byte in buf {
        f.push_str(&format!("{:02x}", byte));
    }
    f
}

#[test]
fn to_bytes() {
    let buf: Vec<u8> = Codecs::CBOR.to_bytes();

    assert_eq!(4, buf.len());
    assert_eq!("51000000", ashex(&buf));
    assert_eq!(Codecs::CBOR, Codecs::try_from_bytes(&buf).expect("decode bytes"));
}

#[test]
fn unknown_code_is_rejected() {
    assert_eq!(None, Codecs::try_from_bytes(&[0x52, 0, 0, 0]));
    assert_eq!(None, Codecs::try_from_bytes(&[0x51, 0, 0]));
    assert_eq!(None, Codecs::try_from_bytes(&[0x51, 0, 0, 0, 0]));
}
