use dedup_cleaner::fingerprint::{sha256_hex, to_hex, StreamHasher};

#[test]
fn sha256_known_vector() {
    assert_eq!(
        sha256_hex(b"abc"),
        "ba7816bf8f01cfea414140de5dae2223b00361a396177a9cb410ff61f20015ad"
    );
}

#[test]
fn sha256_empty_input() {
    assert_eq!(
        sha256_hex(b""),
        "e3b0c44298fc1c149afbf4c8996fb92427ae41e4649b934ca495991b7852b855"
    );
}

#[test]
fn streaming_equals_one_shot() {
    let mut h = StreamHasher::new();
    h.update(b"ab");
    h.update(b"c");
    assert_eq!(h.finalize_hex(), sha256_hex(b"abc"));
}

#[test]
fn chunking_does_not_change_the_digest() {
    let data = vec![7u8; 10000];
    let mut h = StreamHasher::new();
    for chunk in data.chunks(997) {
        h.update(chunk);
    }
    assert_eq!(h.finalize_hex(), sha256_hex(&data));
}

#[test]
fn hex_rendering() {
    assert_eq!(to_hex(&[0u8, 255, 16]), "00ff10");
    assert_eq!(to_hex(&[]), "");
}

#[test]
fn digest_is_64_hex_chars() {
    let d = sha256_hex(b"anything");
    assert_eq!(d.len(), 64);
    assert!(d.chars().all(|c| c.is_ascii_hexdigit() && !c.is_ascii_uppercase()));
}
