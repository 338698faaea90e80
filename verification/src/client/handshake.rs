//! The client's side of the tunnel handshake: the server's challenge, the
//! authentication frame with a fresh hybrid public key, the session keys
//! from the server's acknowledgement, and the key confirmations that both
//! sides exchange.
use vstd::prelude::*;

use crate::crypto::{
    blake3_keyed_digest, blake3_keyed_hash, client_enc_label, constant_time_eq, derive_session_keys, derived_key,
    server_enc_label,
};
use crate::frame::{
    handshake_payload, le_bytes, lemma_handshake_padding, push_all, u64_to_le_bytes, zeros, Frame, MuxCommand, MuxHeader,
};
use crate::kem::{
    combined_secret, hybrid_decapsulate, kyber_decapsulated, x25519_shared, HybridKeyPair, HYBRID_CT_SIZE,
    KEM_CT_SIZE,
};
use crate::ProtocolError;

verus! {

/// Why the client's handshake failed.
#[derive(Debug)]
pub enum HandshakeError {
    /// The server sent a frame of another command than the step expects.
    UnexpectedCommand(MuxCommand),
    /// The acknowledgement is shorter than a hybrid ciphertext.
    BadCiphertextSize(usize),
    /// Key decapsulation failed.
    Kem(ProtocolError),
    /// The server's key confirmation does not match the session key.
    ConfirmMismatch,
    /// The challenge's payload is shorter than a nonce.
    BadChallengeNonce,
}

/// Length of the server's challenge nonce.
pub const CHALLENGE_NONCE_SIZE: usize = 16;

/// Takes the nonce from the server's challenge frame: the first sixteen
/// bytes of its payload; a shorter payload is refused.
pub fn challenge_nonce(frame: &Frame) -> (r: Result<[u8; 16], HandshakeError>)
    ensures
        frame.header.command != MuxCommand::Challenge ==> (r matches Err(HandshakeError::UnexpectedCommand(c))
            && c == frame.header.command),
        frame.header.command == MuxCommand::Challenge && frame.payload@.len() < CHALLENGE_NONCE_SIZE ==> (r matches Err(
            HandshakeError::BadChallengeNonce,
        )),
        frame.header.command == MuxCommand::Challenge && frame.payload@.len() >= CHALLENGE_NONCE_SIZE ==> (r matches Ok(
            n,
        ) && n@ == frame.payload@.subrange(0, 16)),
{
    if frame.header.command != MuxCommand::Challenge {
        return Err(HandshakeError::UnexpectedCommand(frame.header.command));
    }
    if frame.payload.len() < CHALLENGE_NONCE_SIZE {
        return Err(HandshakeError::BadChallengeNonce);
    }
    let p = frame.payload.as_slice();
    let n: [u8; 16] = [
        p[0], p[1], p[2], p[3], p[4], p[5], p[6], p[7], p[8], p[9], p[10], p[11], p[12], p[13], p[14], p[15],
    ];
    assert(n@ =~= p@.subrange(0, 16));
    Ok(n)
}

/// The pre-shared key as bytes, if one is set.
pub open spec fn psk_view(psk: Option<[u8; 32]>) -> Option<Seq<u8>> {
    match psk {
        Some(k) => Some(k@),
        None => None,
    }
}

/// The client's authentication payload: the little-endian timestamp, a MAC
/// (the keyed BLAKE3 of nonce, timestamp and both public keys under the
/// pre-shared key, or 32 zeros without one), then the Kyber768 and X25519
/// public keys.
pub open spec fn client_auth_bytes(
    ts: u64,
    nonce: Seq<u8>,
    kyber_pk: Seq<u8>,
    x25519_pk: Seq<u8>,
    psk: Option<Seq<u8>>,
) -> Seq<u8> {
    let ts_bytes = le_bytes(ts as nat, 8);
    let mac = match psk {
        Some(k) => blake3_keyed_digest(k, nonce + ts_bytes + kyber_pk + x25519_pk)@,
        None => zeros(32),
    };
    ts_bytes + mac + kyber_pk + x25519_pk
}

/// The client's authentication frame at clock reading `ts` (seconds since
/// the Unix epoch), answering `nonce` with the key pair's public keys; the
/// payload is padded as handshake frames are.
pub fn client_auth_frame(ts: u64, nonce: &[u8; 16], keypair: &HybridKeyPair, psk: &Option<[u8; 32]>) -> (r: Frame)
    ensures
        r.payload@ == handshake_payload(
            client_auth_bytes(ts, nonce@, keypair.kyber_public(), keypair.x25519_public(), psk_view(*psk)),
        ),
        r.header.command == MuxCommand::Auth,
        r.header.stream_id == 0,
        r.header.length == r.payload@.len(),
{
    let ts_bytes = u64_to_le_bytes(ts);
    let mut payload: Vec<u8> = Vec::new();
    push_all(&mut payload, &ts_bytes);
    match psk {
        Some(key) => {
            let mut msg: Vec<u8> = Vec::new();
            push_all(&mut msg, nonce);
            push_all(&mut msg, &ts_bytes);
            push_all(&mut msg, keypair.kyber_public_key());
            push_all(&mut msg, keypair.x25519_public_key());
            let mac = blake3_keyed_hash(key, msg.as_slice());
            push_all(&mut payload, &mac);
        },
        None => {
            let z = [0u8; 32];
            assert(z@ =~= zeros(32));
            push_all(&mut payload, &z);
        },
    }
    push_all(&mut payload, keypair.kyber_public_key());
    push_all(&mut payload, keypair.x25519_public_key());
    assert(payload@ =~= client_auth_bytes(
        ts,
        nonce@,
        keypair.kyber_public(),
        keypair.x25519_public(),
        psk_view(*psk),
    ));
    Frame::new_handshake(MuxCommand::Auth, 0, payload)
}

/// The layout of the authentication payload that the client sends, stated
/// over its inputs: bytes 0..8 are the timestamp in little-endian order;
/// with a pre-shared key `k`, bytes 8..40 are the keyed BLAKE3 digest of
/// the challenge nonce, the timestamp bytes and both public keys, in that
/// order, so the MAC answers this one challenge (without a key they are
/// zeros); the Kyber768 key follows, then the X25519 key.
pub proof fn lemma_auth_payload_layout(
    ts: u64,
    nonce: Seq<u8>,
    kyber_pk: Seq<u8>,
    x25519_pk: Seq<u8>,
    psk: Option<Seq<u8>>,
)
    requires
        nonce.len() == CHALLENGE_NONCE_SIZE,
        kyber_pk.len() == 1184,
        x25519_pk.len() == 32,
    ensures
        ({
            let b = handshake_payload(client_auth_bytes(ts, nonce, kyber_pk, x25519_pk, psk));
            &&& b.subrange(0, 8) == le_bytes(ts as nat, 8)
            &&& psk matches Some(k) ==> b.subrange(8, 40) == blake3_keyed_digest(
                k,
                nonce + le_bytes(ts as nat, 8) + kyber_pk + x25519_pk,
            )@
            &&& psk is None ==> b.subrange(8, 40) == Seq::new(32, |i: int| 0u8)
            &&& b.subrange(40, 1224) == kyber_pk
            &&& b.subrange(1224, 1256) == x25519_pk
        }),
        forall|n2: Seq<u8>|
            n2.len() == CHALLENGE_NONCE_SIZE && n2 != nonce ==> #[trigger] (n2 + le_bytes(ts as nat, 8) + kyber_pk
                + x25519_pk) != nonce + le_bytes(ts as nat, 8) + kyber_pk + x25519_pk,
{
    let a = client_auth_bytes(ts, nonce, kyber_pk, x25519_pk, psk);
    let ts_bytes = le_bytes(ts as nat, 8);
    assert(ts_bytes.len() == 8) by {
        reveal_with_fuel(le_bytes, 9);
    }
    assert(a.len() == 1256);
    lemma_handshake_padding(a);
    let b = handshake_payload(a);
    assert(b.subrange(0, 1256) == a);
    assert(b.subrange(0, 8) =~= a.subrange(0, 8));
    assert(b.subrange(8, 40) =~= a.subrange(8, 40));
    assert(b.subrange(40, 1224) =~= a.subrange(40, 1224));
    assert(b.subrange(1224, 1256) =~= a.subrange(1224, 1256));
    assert(a.subrange(0, 8) =~= ts_bytes);
    assert(a.subrange(40, 1224) =~= kyber_pk);
    assert(a.subrange(1224, 1256) =~= x25519_pk);
    assert(psk is None ==> a.subrange(8, 40) =~= Seq::new(32, |i: int| 0u8));
    assert forall|n2: Seq<u8>|
        n2.len() == CHALLENGE_NONCE_SIZE && n2 != nonce implies #[trigger] (n2 + ts_bytes + kyber_pk + x25519_pk)
        != nonce + ts_bytes + kyber_pk + x25519_pk by {
        let m1 = n2 + ts_bytes + kyber_pk + x25519_pk;
        let m2 = nonce + ts_bytes + kyber_pk + x25519_pk;
        if m1 == m2 {
            assert(m1.subrange(0, 16) =~= n2);
            assert(m2.subrange(0, 16) =~= nonce);
        }
    }
}

/// The session keys: the client seals with the first and opens with the second.
pub struct SessionKeys {
    pub client_key: [u8; 32],
    pub server_key: [u8; 32],
}

/// The hybrid secret that the client decapsulates from an acknowledgement
/// payload with its key pair.
pub open spec fn ack_secret(p: Seq<u8>, keypair: HybridKeyPair) -> Seq<u8> {
    combined_secret(
        kyber_decapsulated(p.subrange(0, KEM_CT_SIZE as int), keypair.kyber_secret()),
        x25519_shared(keypair.x25519_secret(), p.subrange(KEM_CT_SIZE as int, HYBRID_CT_SIZE as int)),
    )
}

/// Derives the session keys from the server's acknowledgement: the Kyber768
/// ciphertext and the X25519 public key at its front are decapsulated with
/// the key pair, and the "client-enc" and "server-enc" keys derived from the
/// secret.
pub fn session_keys_from_ack(ack: &Frame, keypair: &HybridKeyPair) -> (r: Result<SessionKeys, HandshakeError>)
    ensures
        ack.header.command != MuxCommand::AuthAck ==> (r matches Err(HandshakeError::UnexpectedCommand(c)) && c
            == ack.header.command),
        ack.header.command == MuxCommand::AuthAck && ack.payload@.len() < HYBRID_CT_SIZE ==> (r matches Err(
            HandshakeError::BadCiphertextSize(n),
        ) && n == ack.payload@.len()),
        ack.header.command == MuxCommand::AuthAck && ack.payload@.len() >= HYBRID_CT_SIZE ==> (r matches Ok(k)
            && k.client_key@ == derived_key(ack_secret(ack.payload@, *keypair), client_enc_label())
            && k.server_key@ == derived_key(ack_secret(ack.payload@, *keypair), server_enc_label())),
{
    if ack.header.command != MuxCommand::AuthAck {
        return Err(HandshakeError::UnexpectedCommand(ack.header.command));
    }
    let p = ack.payload.as_slice();
    if p.len() < HYBRID_CT_SIZE {
        return Err(HandshakeError::BadCiphertextSize(p.len()));
    }
    let kyber_ct = &p[0..KEM_CT_SIZE];
    let x: [u8; 32] = [
        p[1088], p[1089], p[1090], p[1091], p[1092], p[1093], p[1094], p[1095], p[1096], p[1097], p[1098],
        p[1099], p[1100], p[1101], p[1102], p[1103], p[1104], p[1105], p[1106], p[1107], p[1108], p[1109],
        p[1110], p[1111], p[1112], p[1113], p[1114], p[1115], p[1116], p[1117], p[1118], p[1119],
    ];
    assert(x@ =~= p@.subrange(KEM_CT_SIZE as int, HYBRID_CT_SIZE as int));
    let ss = match hybrid_decapsulate(keypair, kyber_ct, &x) {
        Ok(s) => s,
        Err(e) => return Err(HandshakeError::Kem(e)),
    };
    let (client_key, server_key) = derive_session_keys(&ss);
    Ok(SessionKeys { client_key, server_key })
}

/// Label of the client's key confirmation: "tundra-key-confirm-c2s".
pub open spec fn confirm_c2s_label() -> Seq<u8> {
    seq![
        116u8, 117, 110, 100, 114, 97, 45, 107, 101, 121, 45, 99, 111, 110, 102, 105, 114, 109, 45, 99, 50, 115,
    ]
}

/// Label of the server's key confirmation: "tundra-key-confirm-s2c".
pub open spec fn confirm_s2c_label() -> Seq<u8> {
    seq![
        116u8, 117, 110, 100, 114, 97, 45, 107, 101, 121, 45, 99, 111, 110, 102, 105, 114, 109, 45, 115, 50, 99,
    ]
}

/// The client's key confirmation: the keyed BLAKE3 of the c2s label under
/// the client's sealing key.
pub fn client_key_confirm(client_key: &[u8; 32]) -> (r: Frame)
    ensures
        r.header == (MuxHeader { command: MuxCommand::KeyConfirm, stream_id: 0, length: 32 }),
        r.payload@ == blake3_keyed_digest(client_key@, confirm_c2s_label())@,
{
    let label: [u8; 22] = [
        116, 117, 110, 100, 114, 97, 45, 107, 101, 121, 45, 99, 111, 110, 102, 105, 114, 109, 45, 99, 50, 115,
    ];
    assert(label@ =~= confirm_c2s_label());
    let mac = blake3_keyed_hash(client_key, &label);
    let mut payload: Vec<u8> = Vec::new();
    push_all(&mut payload, &mac);
    Frame::new(MuxCommand::KeyConfirm, 0, payload)
}

/// The first 32 bytes of a payload, or nothing where it is shorter.
pub open spec fn confirm_prefix(p: Seq<u8>) -> Seq<u8> {
    if p.len() >= 32 {
        p.subrange(0, 32)
    } else {
        Seq::empty()
    }
}

/// Checks the server's key confirmation: a key-confirm frame whose payload
/// begins with the keyed BLAKE3 of the s2c label under the server's key.
pub fn check_server_confirm(frame: &Frame, server_key: &[u8; 32]) -> (r: Result<(), HandshakeError>)
    ensures
        frame.header.command != MuxCommand::KeyConfirm ==> (r matches Err(HandshakeError::UnexpectedCommand(c))
            && c == frame.header.command),
        frame.header.command == MuxCommand::KeyConfirm ==> if confirm_prefix(frame.payload@) == blake3_keyed_digest(
            server_key@,
            confirm_s2c_label(),
        )@ {
            r is Ok
        } else {
            r matches Err(HandshakeError::ConfirmMismatch)
        },
{
    if frame.header.command != MuxCommand::KeyConfirm {
        return Err(HandshakeError::UnexpectedCommand(frame.header.command));
    }
    let label: [u8; 22] = [
        116, 117, 110, 100, 114, 97, 45, 107, 101, 121, 45, 99, 111, 110, 102, 105, 114, 109, 45, 115, 50, 99,
    ];
    assert(label@ =~= confirm_s2c_label());
    let expected = blake3_keyed_hash(server_key, &label);
    let p = frame.payload.as_slice();
    let prefix: &[u8] = if p.len() >= 32 {
        &p[0..32]
    } else {
        &p[0..0]
    };
    assert(prefix@ =~= confirm_prefix(p@));
    if constant_time_eq(prefix, &expected) {
        Ok(())
    } else {
        Err(HandshakeError::ConfirmMismatch)
    }
}

} // verus!
