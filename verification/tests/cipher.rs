use nearshare::cipher::{
    frame, open, seal, seal_fresh, unframe, EncryptionKey, OpenError, NONCE_LEN, TAG_LEN,
};
use nearshare::random::random_token;

fn key(byte: u8) -> EncryptionKey {
    EncryptionKey::new([byte; 32])
}

fn bytes(hex: &str) -> Vec<u8> {
    (0..hex.len() / 2)
        .map(|i| u8::from_str_radix(&hex[2 * i..2 * i + 2], 16).unwrap())
        .collect()
}

#[test]
fn empty_contents_are_sealed_to_nonce_and_tag() {
    let stored = seal(&key(0), &[0; 12], &[]).unwrap();
    assert_eq!(stored[..NONCE_LEN], [0; 12]);
    assert_eq!(stored[NONCE_LEN..], bytes("530f8afbc74536b9a963b4f1c4cb738b"));
}

#[test]
fn one_block_is_sealed_to_the_published_ciphertext() {
    let stored = seal(&key(0), &[0; 12], &[0; 16]).unwrap();
    let expected = bytes("cea7403d4d606b6e074ec5d3baf39d18d0d1c8a799996bf0265b98b5d48ab919");
    assert_eq!(stored[NONCE_LEN..], expected);
}

#[test]
fn sealed_contents_open_again() {
    let data: Vec<u8> = (0..1000u32).map(|i| (i % 251) as u8).collect();
    let stored = seal(&key(7), &[9; 12], &data).unwrap();
    assert_eq!(stored.len(), NONCE_LEN + data.len() + TAG_LEN);
    assert_ne!(stored[NONCE_LEN..NONCE_LEN + data.len()], data[..]);
    assert_eq!(open(&key(7), &stored), Ok(data));
}

#[test]
fn fresh_nonces_differ_and_open_alike() {
    let first = seal_fresh(&key(1), b"contents").unwrap();
    let second = seal_fresh(&key(1), b"contents").unwrap();
    assert_ne!(first, second);
    assert_eq!(open(&key(1), &first), Ok(b"contents".to_vec()));
    assert_eq!(open(&key(1), &second), Ok(b"contents".to_vec()));
    let nonce: [u8; 12] = first[..NONCE_LEN].try_into().unwrap();
    assert_eq!(seal(&key(1), &nonce, b"contents"), Some(first));
}

#[test]
fn short_bytes_do_not_open() {
    assert_eq!(open(&key(0), &[]), Err(OpenError::TooShort));
    assert_eq!(open(&key(0), &[0; 11]), Err(OpenError::TooShort));
    assert_eq!(open(&key(0), &[0; 12]), Err(OpenError::Refused));
    assert_eq!(open(&key(0), &[0; 28]), Err(OpenError::Refused));
}

#[test]
fn changed_bytes_and_other_keys_do_not_open() {
    let stored = seal(&key(2), &[3; 12], b"contents").unwrap();
    for i in 0..stored.len() {
        let mut changed = stored.clone();
        changed[i] ^= 1;
        assert_eq!(open(&key(2), &changed), Err(OpenError::Refused));
    }
    assert_eq!(open(&key(4), &stored), Err(OpenError::Refused));
}

#[test]
fn frames_come_apart_as_they_were_put_together() {
    let nonce = [1, 2, 3, 4, 5, 6, 7, 8, 9, 10, 11, 12];
    let stored = frame(&nonce, &[13, 14]);
    assert_eq!(stored, vec![1, 2, 3, 4, 5, 6, 7, 8, 9, 10, 11, 12, 13, 14]);
    assert_eq!(unframe(&stored), Some((nonce, &[13u8, 14][..])));
    assert_eq!(unframe(&stored[..12]), Some((nonce, &[][..])));
    assert_eq!(unframe(&stored[..11]), None);
}

#[test]
fn tokens_are_letters_and_digits() {
    let token = random_token();
    assert_eq!(token.len(), 32);
    assert!(token.chars().all(|c| c.is_ascii_alphanumeric()));
    assert_ne!(token, random_token());
}
