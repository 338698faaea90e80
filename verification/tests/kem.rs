use tundra::kem::{
    combine_secrets, decapsulate, encapsulate, generate_hybrid_keypair, generate_keypair, hybrid_decapsulate,
    hybrid_encapsulate, KEM_CT_SIZE,
};

#[test]
fn hybrid_kem_roundtrip() {
    let kp = generate_hybrid_keypair().unwrap();
    let enc = hybrid_encapsulate(&kp.kyber_pk, &kp.x25519_pk).unwrap();
    let ss = hybrid_decapsulate(&kp, &enc.kyber_ct, &enc.x25519_ct).unwrap();
    assert_eq!(enc.shared_secret, ss);
}

#[test]
fn hybrid_kem_wrong_keys() {
    let kp1 = generate_hybrid_keypair().unwrap();
    let kp2 = generate_hybrid_keypair().unwrap();
    let enc = hybrid_encapsulate(&kp1.kyber_pk, &kp1.x25519_pk).unwrap();
    let ss2 = hybrid_decapsulate(&kp2, &enc.kyber_ct, &enc.x25519_ct).unwrap();
    assert_ne!(enc.shared_secret, ss2);
}

#[test]
fn hybrid_deterministic_combine() {
    let s1 = combine_secrets(&[1u8; 32], &[2u8; 32]);
    let s2 = combine_secrets(&[1u8; 32], &[2u8; 32]);
    assert_eq!(s1, s2);
    let s3 = combine_secrets(&[2u8; 32], &[1u8; 32]);
    assert_ne!(s1, s3);
}

#[test]
fn hybrid_encapsulate_refuses_short_key() {
    let kp = generate_hybrid_keypair().unwrap();
    assert!(hybrid_encapsulate(&kp.kyber_pk[..100], &kp.x25519_pk).is_err());
}

#[test]
fn hybrid_decapsulate_refuses_short_ciphertext() {
    let kp = generate_hybrid_keypair().unwrap();
    let enc = hybrid_encapsulate(&kp.kyber_pk, &kp.x25519_pk).unwrap();
    assert!(hybrid_decapsulate(&kp, &enc.kyber_ct[..1000], &enc.x25519_ct).is_err());
}

#[test]
fn kyber_roundtrip() {
    let kp = generate_keypair().unwrap();
    let enc = encapsulate(&kp.public_key).unwrap();
    assert_eq!(enc.ciphertext.len(), KEM_CT_SIZE);
    let ss = decapsulate(&kp, &enc.ciphertext).unwrap();
    assert_eq!(ss, enc.shared_secret);
}

#[test]
fn kyber_wrong_lengths_are_refused() {
    let kp = generate_keypair().unwrap();
    assert!(encapsulate(&kp.public_key[..1183]).is_err());
    assert!(decapsulate(&kp, &[0u8; 1087]).is_err());
}
