use c2pa_api::fingerprint::{fingerprint, FINGERPRINT_LEN};

#[test]
fn fingerprint_of_abc() {
    assert_eq!(
        fingerprint(b"abc"),
        "ba7816bf8f01cfea414140de5dae2223b00361a396177a9cb410ff61f20015ad"
    );
}

#[test]
fn fingerprint_of_empty_payload() {
    assert_eq!(
        fingerprint(b""),
        "e3b0c44298fc1c149afbf4c8996fb92427ae41e4649b934ca495991b7852b855"
    );
}

#[test]
fn fingerprint_of_hello() {
    assert_eq!(
        fingerprint(b"hello"),
        "2cf24dba5fb0a30e26e83b2ac5b9e29e1b161e5c1fa7425e73043362938b9824"
    );
}

#[test]
fn fingerprint_is_64_lowercase_hex_digits() {
    let payloads: Vec<Vec<u8>> = vec![
        vec![],
        vec![0],
        vec![0xff, 0xd8, 0xff, 0xe0],
        vec![0xab; 4096],
        b"The quick brown fox jumps over the lazy dog".to_vec(),
    ];
    for payload in payloads {
        let fp = fingerprint(&payload);
        assert_eq!(fp.len(), FINGERPRINT_LEN);
        assert_eq!(fp.chars().count(), 64);
        assert!(fp.chars().all(|c| matches!(c, '0'..='9' | 'a'..='f')));
    }
}

#[test]
fn fingerprint_is_stable() {
    let payload = vec![7u8; 1000];
    let first = fingerprint(&payload);
    let second = fingerprint(&payload);
    assert_eq!(first, second);
    assert_eq!(fingerprint(&payload.clone()), first);
}

#[test]
fn fingerprint_tells_payloads_apart() {
    assert_ne!(fingerprint(b"abc"), fingerprint(b"abd"));
    assert_ne!(fingerprint(b"abc"), fingerprint(b"abc\0"));
}

#[test]
fn fingerprint_is_not_the_payload() {
    let payload = b"ba7816bf8f01cfea414140de5dae2223b00361a396177a9cb410ff61f20015ad";
    assert_ne!(fingerprint(payload).as_bytes(), &payload[..]);
}
