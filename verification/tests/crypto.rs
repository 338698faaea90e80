use tundra::crypto::{
    constant_time_eq, derive_key, derive_session_keys, generate_key, Cipher, CryptoError, NONCE_SIZE, ROLE_BYTE,
    ROLE_CLIENT, ROLE_SERVER,
};
use tundra::frame::{Frame, MuxCommand};
use tundra::record::{open_frame, seal_frame, RecordError};

#[test]
fn encrypt_decrypt_roundtrip() {
    let key = generate_key();
    let mut enc = Cipher::new(&key);
    let mut dec = Cipher::new(&key);

    let plaintext = b"hello, tundra!";
    let ciphertext = enc.encrypt(plaintext).unwrap();
    assert_ne!(plaintext.to_vec(), ciphertext);
    assert!(ciphertext.len() > NONCE_SIZE + plaintext.len());

    let decrypted = dec.decrypt(&ciphertext).unwrap();
    assert_eq!(plaintext.to_vec(), decrypted);
}

#[test]
fn encrypt_produces_unique_ciphertexts() {
    let key = generate_key();
    let mut enc = Cipher::new(&key);
    let ct1 = enc.encrypt(b"same data").unwrap();
    let ct2 = enc.encrypt(b"same data").unwrap();
    assert_ne!(ct1, ct2, "random nonce must produce different ciphertexts");
}

#[test]
fn key_derivation_deterministic() {
    let k1 = derive_key(b"secret", b"context");
    let k2 = derive_key(b"secret", b"context");
    assert_eq!(k1, k2);
    let k3 = derive_key(b"secret", b"different");
    assert_ne!(k1, k3);
}

#[test]
fn ciphertext_is_nonce_plaintext_and_tag_long() {
    let mut enc = Cipher::new(&[7u8; 32]);
    let ct = enc.encrypt(b"abc").unwrap();
    assert_eq!(ct.len(), 12 + 3 + 16);
}

#[test]
fn decrypt_too_short_blob() {
    let mut dec = Cipher::new(&[1u8; 32]);
    assert_eq!(dec.decrypt(&[0u8; 27]), Err(CryptoError::CiphertextTooShort));
}

#[test]
fn decrypt_tampered_blob_fails() {
    let mut enc = Cipher::new(&[3u8; 32]);
    let mut ct = enc.encrypt(b"payload").unwrap();
    let last = ct.len() - 1;
    ct[last] ^= 1;
    assert_eq!(enc.decrypt(&ct), Err(CryptoError::DecryptionFailed));
}

#[test]
fn decrypt_under_other_key_fails() {
    let mut enc = Cipher::new(&[3u8; 32]);
    let mut dec = Cipher::new(&[4u8; 32]);
    let ct = enc.encrypt(b"payload").unwrap();
    assert_eq!(dec.decrypt(&ct), Err(CryptoError::DecryptionFailed));
}

#[test]
fn derive_key_depends_on_secret() {
    assert_ne!(derive_key(b"a", b"ctx"), derive_key(b"b", b"ctx"));
    assert_eq!(derive_key(b"", b"").len(), 32);
}

#[test]
fn session_keys_are_the_labelled_derivations() {
    let (c, s) = derive_session_keys(b"shared");
    assert_eq!(c, derive_key(b"shared", b"client-enc"));
    assert_eq!(s, derive_key(b"shared", b"server-enc"));
    assert_ne!(c, s);
}

#[test]
fn constant_time_eq_compares_bytes() {
    assert!(constant_time_eq(b"abc", b"abc"));
    assert!(!constant_time_eq(b"abc", b"abd"));
    assert!(!constant_time_eq(b"abc", b"ab"));
    assert!(constant_time_eq(b"", b""));
}

#[test]
fn sealed_record_opens_to_the_frame() {
    let key = [9u8; 32];
    let mut tx = Cipher::new(&key);
    let mut rx = Cipher::new(&key);
    let frame = Frame::new(MuxCommand::Data, 7, b"hello".to_vec());
    let rec = seal_frame(&mut tx, &frame).unwrap();
    let len = u16::from_be_bytes([rec[0], rec[1]]) as usize;
    assert_eq!(len, rec.len() - 2);
    assert_eq!(len, 12 + 11 + 5 + 16);
    let back = open_frame(&mut rx, &rec[2..]).unwrap();
    assert_eq!(back.header.command, MuxCommand::Data);
    assert_eq!(back.header.stream_id, 7);
    assert_eq!(back.payload, b"hello".to_vec());
}

#[test]
fn empty_record_ends_the_stream() {
    let mut rx = Cipher::new(&[0u8; 32]);
    assert!(matches!(open_frame(&mut rx, &[]), Err(RecordError::Empty)));
}

#[test]
fn record_under_wrong_key_is_refused() {
    let mut tx = Cipher::new(&[1u8; 32]);
    let mut rx = Cipher::new(&[2u8; 32]);
    let rec = seal_frame(&mut tx, &Frame::new(MuxCommand::Ping, 0, vec![])).unwrap();
    assert!(matches!(open_frame(&mut rx, &rec[2..]), Err(RecordError::Crypto(CryptoError::DecryptionFailed))));
}

#[test]
fn record_too_large_is_refused() {
    let mut tx = Cipher::new(&[1u8; 32]);
    let frame = Frame::new(MuxCommand::Data, 1, vec![0u8; 65535]);
    assert!(matches!(seal_frame(&mut tx, &frame), Err(RecordError::TooLarge)));
}

#[test]
fn role_byte_is_stamped_into_nonces() {
    let key = generate_key();
    let mut client = Cipher::new_with_role(&key, ROLE_CLIENT);
    let mut server = Cipher::new_with_role(&key, ROLE_SERVER);
    let mut plain = Cipher::new(&key);
    for _ in 0..16 {
        let c = client.encrypt(b"from client").unwrap();
        let s = server.encrypt(b"from server").unwrap();
        assert_eq!(c[ROLE_BYTE], 0x01);
        assert_eq!(s[ROLE_BYTE], 0x02);
        assert_ne!(c[..NONCE_SIZE], s[..NONCE_SIZE]);
        assert_eq!(plain.decrypt(&c).unwrap(), b"from client".to_vec());
        assert_eq!(plain.decrypt(&s).unwrap(), b"from server".to_vec());
    }
}

#[test]
fn sealed_record_carries_the_role_byte() {
    let key = generate_key();
    let mut client = Cipher::new_with_role(&key, ROLE_CLIENT);
    let frame = Frame::new(MuxCommand::Ping, 0, vec![]);
    let rec = seal_frame(&mut client, &frame).unwrap();
    assert_eq!(rec[2 + ROLE_BYTE], ROLE_CLIENT);
    let mut opener = Cipher::new(&key);
    let back = open_frame(&mut opener, &rec[2..]).unwrap();
    assert_eq!(back.header.command, MuxCommand::Ping);
}
