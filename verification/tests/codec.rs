use base64::Engine;
use base64::engine::general_purpose::URL_SAFE_NO_PAD;
use fleetgate::codec::b64url_encode;
use fleetgate::codec::hex_encode;

#[test]
fn b64url_known_vectors() {
    assert_eq!(String::from_utf8(b64url_encode(b"Man")).unwrap(), "TWFu");
    assert_eq!(String::from_utf8(b64url_encode(b"Ma")).unwrap(), "TWE");
    assert_eq!(String::from_utf8(b64url_encode(b"M")).unwrap(), "TQ");
    assert_eq!(String::from_utf8(b64url_encode(b"")).unwrap(), "");
}

#[test]
fn b64url_matches_reference_crate() {
    let mut samples: Vec<Vec<u8>> = vec![
        Vec::new(),
        b"hello world".to_vec(),
        vec![0, 255, 128, 63, 62],
        b"\xfb\xff\xfe".to_vec(),
    ];
    let all: Vec<u8> = (0u8..=255).collect();
    samples.push(all);
    for s in samples {
        let mine = String::from_utf8(b64url_encode(&s)).unwrap();
        let reference = URL_SAFE_NO_PAD.encode(&s);
        assert_eq!(mine, reference);
    }
}

#[test]
fn hex_known_vector() {
    assert_eq!(String::from_utf8(hex_encode(&[0xab, 0x00, 0x7f])).unwrap(), "ab007f");
    assert_eq!(String::from_utf8(hex_encode(&[])).unwrap(), "");
}
