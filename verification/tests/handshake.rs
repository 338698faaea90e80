use tundra::client::desktop::{
    client_action, decode_psk, delete_profile, next_stream_id, proxy_auth_frame, proxy_session_from_ack,
    save_profile, ClientAction, ProxyError,
};
use tundra::client::handshake::{
    challenge_nonce, check_server_confirm, client_auth_frame, client_key_confirm, session_keys_from_ack,
    HandshakeError,
};
use tundra::client::session::{
    check_stream_id, needs_rotation, parse_psk_hex, pool_step, PoolSlots, PoolStep, PskFormatError, StreamError,
};
use tundra::client::ProxyConfig;
use tundra::crypto::{derive_key, Cipher, ROLE_BYTE, ROLE_SERVER};
use tundra::frame::{Frame, MuxCommand};
use tundra::kem::{generate_hybrid_keypair, generate_keypair, hybrid_encapsulate};
use tundra::server::handshake::{accept_auth, accept_auth_with, classify_first_read, parse_auth, AuthError, FirstRead};

#[test]
fn first_read_classification() {
    assert_eq!(classify_first_read(&[0x54, 0x4E, 0x44]), FirstRead::TooShort);
    assert_eq!(classify_first_read(b"GET / HTTP/1.1"), FirstRead::Foreign);
    assert_eq!(classify_first_read(&[0x54, 0x4E, 0x44, 0x52, 0, 0]), FirstRead::Tunnel);
}

#[test]
fn server_accepts_proxy_auth_within_ttl() {
    let psk = [7u8; 32];
    let kp = generate_keypair().unwrap();
    let frame = proxy_auth_frame(1_000_000, &kp, &psk);
    assert_eq!(frame.payload.len(), 1224);
    let pk = parse_auth(&frame, &Some(psk), 1_000_300).unwrap();
    assert_eq!(pk, kp.public_key.to_vec());
    assert_eq!(parse_auth(&frame, &None, 999_700).unwrap(), kp.public_key.to_vec());
}

#[test]
fn server_refuses_stale_or_forged_auth() {
    let psk = [7u8; 32];
    let kp = generate_keypair().unwrap();
    let frame = proxy_auth_frame(1_000_000, &kp, &psk);
    assert_eq!(parse_auth(&frame, &Some(psk), 1_000_301), Err(AuthError::Expired));
    assert_eq!(parse_auth(&frame, &Some([8u8; 32]), 1_000_000), Err(AuthError::MacMismatch));
    let short = Frame::new(MuxCommand::Auth, 0, vec![0u8; 10]);
    assert_eq!(parse_auth(&short, &None, 0), Err(AuthError::BadLength(10)));
    let other = Frame::new(MuxCommand::Ping, 0, vec![]);
    assert_eq!(parse_auth(&other, &None, 0), Err(AuthError::NotAuth));
}

#[test]
fn proxy_derives_the_server_keys() {
    let psk = [1u8; 32];
    let kp = generate_keypair().unwrap();
    let auth = proxy_auth_frame(50, &kp, &psk);
    let pk = parse_auth(&auth, &Some(psk), 50).unwrap();
    let accepted = accept_auth(&pk).unwrap();
    let keys = proxy_session_from_ack(&accepted.ack.encode(), &kp).unwrap();
    // the proxy's sealing key opens on the server's receiving cipher
    let mut c = Cipher::new(&keys.client_key);
    let mut recv = accepted.recv;
    let blob = c.encrypt(b"up").unwrap();
    assert_eq!(recv.decrypt(&blob).unwrap(), b"up".to_vec());
    let mut send = accepted.send;
    let mut s = Cipher::new(&keys.server_key);
    let blob = send.encrypt(b"down").unwrap();
    assert_eq!(s.decrypt(&blob).unwrap(), b"down".to_vec());
}

#[test]
fn proxy_ack_errors() {
    let kp = generate_keypair().unwrap();
    assert!(matches!(proxy_session_from_ack(&[0u8; 10], &kp), Err(ProxyError::NoAuthAck)));
    let pong = Frame::new(MuxCommand::Pong, 0, vec![]).encode();
    assert!(matches!(proxy_session_from_ack(&pong, &kp), Err(ProxyError::UnexpectedCommand(MuxCommand::Pong))));
    let short = Frame::new(MuxCommand::AuthAck, 0, vec![0u8; 5]).encode();
    assert!(matches!(proxy_session_from_ack(&short, &kp), Err(ProxyError::Kem(_))));
    assert!(matches!(proxy_session_from_ack(&[0u8; 11], &kp), Err(ProxyError::Frame(_))));
}

#[test]
fn server_ack_is_padded_and_carries_the_ciphertext() {
    let ct = [9u8; 1088];
    let ss = [4u8; 32];
    let mut a = accept_auth_with(ct, ss);
    let wire = a.ack.encode();
    assert_eq!(wire.len(), 1400);
    assert_eq!(a.ack.header.command, MuxCommand::AuthAck);
    assert_eq!(&a.ack.payload[..1088], &ct[..]);
    assert!(a.ack.payload[1088..].iter().all(|&b| b == 0));
    let sealed = a.send.encrypt(b"x").unwrap();
    assert_eq!(sealed[ROLE_BYTE], ROLE_SERVER);
    let mut client_side = Cipher::new(&derive_key(&ss, b"server-enc"));
    assert_eq!(client_side.decrypt(&sealed).unwrap(), b"x".to_vec());
    let mut from_client = Cipher::new(&derive_key(&ss, b"client-enc"));
    let up = from_client.encrypt(b"y").unwrap();
    assert_eq!(a.recv.decrypt(&up).unwrap(), b"y".to_vec());
}

#[test]
fn accept_auth_refuses_short_key() {
    assert!(accept_auth(&[0u8; 10]).is_err());
}

#[test]
fn client_handshake_steps() {
    let challenge = Frame::new(MuxCommand::Challenge, 0, (0u8..20).collect());
    let nonce = challenge_nonce(&challenge).unwrap();
    assert_eq!(nonce.to_vec(), (0u8..16).collect::<Vec<u8>>());
    let not_challenge = Frame::new(MuxCommand::Data, 0, vec![]);
    assert!(matches!(challenge_nonce(&not_challenge), Err(HandshakeError::UnexpectedCommand(MuxCommand::Data))));
    let short = Frame::new(MuxCommand::Challenge, 0, vec![1u8; 15]);
    assert!(matches!(challenge_nonce(&short), Err(HandshakeError::BadChallengeNonce)));

    let kp = generate_hybrid_keypair().unwrap();
    let auth = client_auth_frame(77, &nonce, &kp, &None);
    assert_eq!(auth.header.command, MuxCommand::Auth);
    assert_eq!(auth.encode().len(), 1400);
    assert_eq!(&auth.payload[..8], &77u64.to_le_bytes());
    assert_eq!(&auth.payload[8..40], &[0u8; 32]);
    assert_eq!(&auth.payload[40..1224], &kp.kyber_pk[..]);
    assert_eq!(&auth.payload[1224..1256], &kp.x25519_pk[..]);
    let with_key = client_auth_frame(77, &nonce, &kp, &Some([3u8; 32]));
    assert_ne!(&with_key.payload[8..40], &[0u8; 32]);

    let enc = hybrid_encapsulate(&kp.kyber_pk, &kp.x25519_pk).unwrap();
    let mut ack_payload = enc.kyber_ct.to_vec();
    ack_payload.extend_from_slice(&enc.x25519_ct);
    let ack = Frame::new(MuxCommand::AuthAck, 0, ack_payload);
    let keys = session_keys_from_ack(&ack, &kp).unwrap();
    assert_eq!(keys.client_key, derive_key(&enc.shared_secret, b"client-enc"));
    assert_eq!(keys.server_key, derive_key(&enc.shared_secret, b"server-enc"));

    let short_ack = Frame::new(MuxCommand::AuthAck, 0, vec![0u8; 100]);
    assert!(matches!(session_keys_from_ack(&short_ack, &kp), Err(HandshakeError::BadCiphertextSize(100))));
}

#[test]
fn key_confirmations() {
    let key = [5u8; 32];
    let kc = client_key_confirm(&key);
    assert_eq!(kc.header.command, MuxCommand::KeyConfirm);
    assert_eq!(kc.payload.len(), 32);
    let server_key = [6u8; 32];
    let good = Frame::new(
        MuxCommand::KeyConfirm,
        0,
        blake3::keyed_hash(&server_key, b"tundra-key-confirm-s2c").as_bytes().to_vec(),
    );
    assert!(check_server_confirm(&good, &server_key).is_ok());
    assert!(matches!(check_server_confirm(&good, &key), Err(HandshakeError::ConfirmMismatch)));
    let short = Frame::new(MuxCommand::KeyConfirm, 0, vec![1, 2, 3]);
    assert!(matches!(check_server_confirm(&short, &server_key), Err(HandshakeError::ConfirmMismatch)));
    assert_eq!(kc.payload, blake3::keyed_hash(&key, b"tundra-key-confirm-c2s").as_bytes().to_vec());
}

#[test]
fn psk_parsing() {
    let hex = "00112233445566778899aabbccddeeff00112233445566778899AABBCCDDEEFF";
    let k = parse_psk_hex(hex).unwrap();
    assert_eq!(k[0], 0x00);
    assert_eq!(k[1], 0x11);
    assert_eq!(k[10], 0xaa);
    assert_eq!(k[31], 0xff);
    assert_eq!(parse_psk_hex("00"), Err(PskFormatError::Not64HexChars));
    let bad = "g0112233445566778899aabbccddeeff00112233445566778899aabbccddeeff";
    assert_eq!(parse_psk_hex(bad), Err(PskFormatError::Not64HexChars));
    assert_eq!(decode_psk(hex).unwrap(), k);
    assert!(matches!(decode_psk("abc"), Err(ProxyError::InvalidPskHex)));
    assert!(matches!(decode_psk("zz"), Err(ProxyError::InvalidPskHex)));
    assert!(matches!(decode_psk("0011"), Err(ProxyError::PskNot32Bytes)));
}

#[test]
fn session_rules() {
    assert!(!needs_rotation(10, 10, 10, 10));
    assert!(needs_rotation(11, 0, 10, 10));
    assert!(needs_rotation(0, 11, 10, 10));
    assert_eq!(check_stream_id(5), Ok(5));
    assert_eq!(check_stream_id(0x8000_0000), Err(StreamError::Exhausted));
    assert_eq!(next_stream_id(1), 2);
    assert_eq!(next_stream_id(0x7fff_ffff), 0);
}

fn profile(name: &str, port: u16) -> ProxyConfig {
    let mut p = ProxyConfig::default();
    p.name = name.to_string();
    p.server_port = port;
    p
}

#[test]
fn profiles_save_and_delete() {
    let mut ps = Vec::new();
    save_profile(&mut ps, profile("a", 1));
    save_profile(&mut ps, profile("b", 2));
    save_profile(&mut ps, profile("a", 3));
    assert_eq!(ps.len(), 2);
    assert_eq!(ps[0].name, "a");
    assert_eq!(ps[0].server_port, 3);
    assert_eq!(ps[1].server_port, 2);
    delete_profile(&mut ps, "a");
    assert_eq!(ps.len(), 1);
    assert_eq!(ps[0].name, "b");
    delete_profile(&mut ps, "zzz");
    assert_eq!(ps.len(), 1);
}

#[test]
fn client_actions() {
    let data = Frame::new_padded(MuxCommand::Data, 4, b"hi".to_vec(), 64);
    match client_action(&data) {
        ClientAction::Deliver { stream_id, data } => {
            assert_eq!(stream_id, 4);
            assert_eq!(data, b"hi".to_vec());
        }
        _ => panic!("data is delivered"),
    }
    assert!(matches!(client_action(&Frame::new(MuxCommand::Close, 9, vec![])), ClientAction::Closed { stream_id: 9 }));
    assert!(matches!(client_action(&Frame::new(MuxCommand::Pong, 0, vec![])), ClientAction::Ignore));
}

#[test]
fn session_pool_steps() {
    let none = PoolSlots { active: None, draining: Some(3) };
    assert_eq!(pool_step(none, 0, 0, 10, 10), PoolStep::Establish { retired: None, aborted: None });
    let slots = PoolSlots { active: Some(5), draining: Some(4) };
    assert_eq!(pool_step(slots, 10, 10, 10, 10), PoolStep::Reuse(5));
    assert_eq!(pool_step(slots, 11, 0, 10, 10), PoolStep::Establish { retired: Some(5), aborted: Some(4) });
    assert_eq!(pool_step(slots, 0, 11, 10, 10), PoolStep::Establish { retired: Some(5), aborted: Some(4) });
}
