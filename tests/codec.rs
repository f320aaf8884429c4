use tsbin::codec::{Encryptor, SEGMENT_SIZE};
use tsbin::error::TsbinError;
use tsbin::keys::derive_key;

fn hex(b: &[u8]) -> String {
    b.iter().map(|x| format!("{:02x}", x)).collect()
}

fn codec(passphrase: &str) -> Encryptor {
    Encryptor::new(passphrase.to_string())
}

#[test]
fn encrypt_known_answer() {
    let out = codec("correct-horse").encrypt(b"hello world");
    assert_eq!(out.len(), 12 + 4 + 27);
    assert_eq!(&out[..12], &[0u8; 12]);
    assert_eq!(&out[12..16], &[0, 0, 0, 27]);
    assert_eq!(hex(&out[16..]), "237e33843f7813eed96a34e461021e02b53997fe7b8ad1a1fc4c00");
}

#[test]
fn round_trip_small() {
    let c = codec("pass");
    let data = b"some plaintext bytes \x00\x01\xff".to_vec();
    let framed = c.encrypt(&data);
    assert_eq!(c.decrypt(&framed), Ok(data));
}

#[test]
fn round_trip_empty() {
    let c = codec("");
    let framed = c.encrypt(&[]);
    assert!(framed.is_empty());
    assert_eq!(c.decrypt(&framed), Ok(Vec::new()));
}

#[test]
fn encryption_is_deterministic() {
    let data = vec![7u8; 1000];
    let a = codec("k").encrypt(&data);
    let b = codec("k").encrypt(&data);
    assert_eq!(a, b);
}

#[test]
fn from_key_matches_new() {
    let data = b"abc".to_vec();
    let a = codec("correct-horse").encrypt(&data);
    let b = Encryptor::from_key(derive_key("correct-horse")).encrypt(&data);
    assert_eq!(a, b);
}

#[test]
fn tamper_ciphertext_fails() {
    let c = codec("pass");
    let mut framed = c.encrypt(b"hello world");
    framed[16] ^= 0x01;
    assert_eq!(c.decrypt(&framed), Err(TsbinError::DecryptionFailed));
}

#[test]
fn tamper_tag_fails() {
    let c = codec("pass");
    let mut framed = c.encrypt(b"hello world");
    let last = framed.len() - 1;
    framed[last] ^= 0x80;
    assert_eq!(c.decrypt(&framed), Err(TsbinError::DecryptionFailed));
}

#[test]
fn wrong_key_fails() {
    let framed = codec("right").encrypt(b"secret");
    assert_eq!(codec("wrong").decrypt(&framed), Err(TsbinError::DecryptionFailed));
}

#[test]
fn exact_segment_is_one_frame() {
    let c = codec("boundary");
    let data = vec![0x5au8; SEGMENT_SIZE];
    let framed = c.encrypt(&data);
    assert_eq!(framed.len(), SEGMENT_SIZE + 16 + 16);
    let len = u32::from_be_bytes([framed[12], framed[13], framed[14], framed[15]]) as usize;
    assert_eq!(len, SEGMENT_SIZE + 16);
    assert_eq!(c.decrypt(&framed), Ok(data));
}

#[test]
fn one_byte_past_segment_is_two_frames() {
    let c = codec("boundary");
    let data = vec![0x5au8; SEGMENT_SIZE + 1];
    let framed = c.encrypt(&data);
    assert_eq!(framed.len(), SEGMENT_SIZE + 1 + 2 * 32);
    let second = 16 + SEGMENT_SIZE + 16;
    assert_eq!(&framed[second..second + 12], &[0, 0, 0, 0, 0, 0, 0, 1, 0, 0, 0, 0]);
    assert_eq!(&framed[second + 12..second + 16], &[0, 0, 0, 17]);
    assert_eq!(c.decrypt(&framed), Ok(data));
}

#[test]
fn missing_last_ciphertext_byte_is_rejected() {
    let c = codec("pass");
    let mut framed = c.encrypt(b"first");
    framed.extend_from_slice(&c.encrypt(b"second"));
    framed.pop();
    assert_eq!(c.decrypt(&framed), Err(TsbinError::TruncatedOrCorrupt));
}

#[test]
fn partial_header_is_rejected() {
    let c = codec("pass");
    let mut framed = c.encrypt(b"first");
    framed.extend_from_slice(&[0u8; 10]);
    assert_eq!(c.decrypt(&framed), Err(TsbinError::TruncatedOrCorrupt));
}

#[test]
fn oversized_length_is_rejected() {
    let c = codec("pass");
    let mut framed = vec![0u8; 12];
    framed.extend_from_slice(&[0xff, 0xff, 0xff, 0xff]);
    framed.extend_from_slice(&[1, 2, 3]);
    assert_eq!(c.decrypt(&framed), Err(TsbinError::TruncatedOrCorrupt));
}
