//! The server's side of the tunnel handshake: telling tunnel clients from
//! other TLS traffic by the first bytes, checking a client's authentication
//! frame, and answering it with a Kyber768 ciphertext and the session keys.
use vstd::prelude::*;

use crate::crypto::{
    blake3_keyed_digest, blake3_keyed_hash, client_enc_label, constant_time_eq, derive_session_keys, derived_key, server_enc_label,
    Cipher, ROLE_CLIENT, ROLE_SERVER,
};
use crate::frame::{
    be_u32_value, frame_wire, handshake_payload, le_bytes, le_value, lemma_handshake_padding, lemma_le_roundtrip, pow256,
    push_all, u64_from_le_bytes, Frame, MuxCommand, MuxHeader, FRAME_WIRE_OVERHEAD, HANDSHAKE_PAD_SIZE,
};
use crate::kem::{encapsulate, KEM_CT_SIZE, KEM_PK_SIZE};
use crate::{ProtocolError, MAGIC};

verus! {

/// What the first read of a TLS connection shows.
#[derive(Debug, Clone, Copy, PartialEq, Eq, Structural)]
pub enum FirstRead {
    /// Fewer than four bytes: the connection is dropped quietly.
    TooShort,
    /// Not the tunnel's magic: the connection is relayed to the cover site.
    Foreign,
    /// The tunnel's magic: an authentication frame follows.
    Tunnel,
}

/// How the first bytes `b` of a connection are classified.
pub open spec fn first_read_kind(b: Seq<u8>) -> FirstRead {
    if b.len() < 4 {
        FirstRead::TooShort
    } else if be_u32_value(b[0], b[1], b[2], b[3]) != MAGIC {
        FirstRead::Foreign
    } else {
        FirstRead::Tunnel
    }
}

/// Classifies the bytes of a connection's first read.
pub fn classify_first_read(buf: &[u8]) -> (r: FirstRead)
    ensures
        r == first_read_kind(buf@),
{
    if buf.len() < 4 {
        return FirstRead::TooShort;
    }
    let magic: u32 = (buf[0] as u32) * 0x1000000 + (buf[1] as u32) * 0x10000 + (buf[2] as u32) * 0x100
        + buf[3] as u32;
    if magic != MAGIC {
        FirstRead::Foreign
    } else {
        FirstRead::Tunnel
    }
}

/// A first read is a tunnel client exactly when it has at least four bytes and
/// begins with the magic `TNDR` (0x54 0x4E 0x44 0x52); shorter reads are too
/// short, and every other read is relayed as foreign traffic.
pub proof fn lemma_first_read_magic(b: Seq<u8>)
    ensures
        (first_read_kind(b) == FirstRead::TooShort) <==> b.len() < 4,
        (first_read_kind(b) == FirstRead::Tunnel) <==> (b.len() >= 4 && b[0] == 0x54u8 && b[1] == 0x4Eu8 && b[2]
            == 0x44u8 && b[3] == 0x52u8),
        (first_read_kind(b) == FirstRead::Foreign) <==> (b.len() >= 4 && !(b[0] == 0x54u8 && b[1] == 0x4Eu8 && b[2]
            == 0x44u8 && b[3] == 0x52u8)),
{
    if b.len() >= 4 {
        let (b0, b1, b2, b3) = (b[0], b[1], b[2], b[3]);
        assert(be_u32_value(b0, b1, b2, b3) == 0x544E4452u32 <==> (b0 == 0x54u8 && b1 == 0x4Eu8 && b2 == 0x44u8 && b3
            == 0x52u8)) by (bit_vector);
    }
}

/// How far apart, in seconds, a client's timestamp may be from the server's clock.
pub const AUTH_TTL_SECS: u64 = 300;

/// Length of an authentication payload: timestamp, MAC, Kyber768 public key.
pub const AUTH_PAYLOAD_LEN: usize = 1224;

/// Why an authentication frame is refused.
#[derive(Debug, Clone, Copy, PartialEq, Eq, Structural)]
pub enum AuthError {
    /// The frame is not an authentication frame.
    NotAuth,
    /// The payload has this length, not `AUTH_PAYLOAD_LEN`.
    BadLength(usize),
    /// The timestamp is more than `AUTH_TTL_SECS` away from the server's clock.
    Expired,
    /// The MAC does not match the pre-shared key.
    MacMismatch,
}

/// Distance between two instants in seconds.
pub open spec fn secs_apart(a: u64, b: u64) -> nat {
    if a >= b {
        (a - b) as nat
    } else {
        (b - a) as nat
    }
}

/// The pre-shared key as bytes, if one is set.
pub open spec fn key_view(psk: Option<[u8; 32]>) -> Option<Seq<u8>> {
    match psk {
        Some(k) => Some(k@),
        None => None,
    }
}

/// What the MAC of an authentication payload covers: its timestamp and its
/// public key.
pub open spec fn auth_mac_input(p: Seq<u8>) -> Seq<u8> {
    p.subrange(0, 8) + p.subrange(40, AUTH_PAYLOAD_LEN as int)
}

/// What checking an authentication frame gives at clock reading `now`: the
/// client's Kyber768 public key, or why the frame is refused.
pub open spec fn auth_outcome(h: MuxHeader, p: Seq<u8>, psk: Option<Seq<u8>>, now: u64) -> Result<
    Seq<u8>,
    AuthError,
> {
    if h.command != MuxCommand::Auth {
        Err(AuthError::NotAuth)
    } else if p.len() != AUTH_PAYLOAD_LEN {
        Err(AuthError::BadLength(p.len() as usize))
    } else if secs_apart(now, le_value(p.subrange(0, 8)) as u64) > AUTH_TTL_SECS {
        Err(AuthError::Expired)
    } else if psk matches Some(k) && blake3_keyed_digest(k, auth_mac_input(p))@ != p.subrange(8, 40) {
        Err(AuthError::MacMismatch)
    } else {
        Ok(p.subrange(40, AUTH_PAYLOAD_LEN as int))
    }
}

/// Checks a client's authentication frame at clock reading `now` (seconds
/// since the Unix epoch): the payload is a little-endian timestamp within
/// `AUTH_TTL_SECS` of `now`, a keyed BLAKE3 MAC of the timestamp and key
/// (checked only where a pre-shared key is set), and the Kyber768 public key,
/// which is returned.
pub fn parse_auth(frame: &Frame, psk: &Option<[u8; 32]>, now: u64) -> (r: Result<Vec<u8>, AuthError>)
    ensures
        match auth_outcome(frame.header, frame.payload@, key_view(*psk), now) {
            Ok(pk) => r matches Ok(v) && v@ == pk,
            Err(e) => r == Err::<Vec<u8>, AuthError>(e),
        },
{
    if frame.header.command != MuxCommand::Auth {
        return Err(AuthError::NotAuth);
    }
    let p = frame.payload.as_slice();
    if p.len() != AUTH_PAYLOAD_LEN {
        return Err(AuthError::BadLength(p.len()));
    }
    let client_ts = u64_from_le_bytes(&p[0..8]);
    let diff = if now >= client_ts {
        now - client_ts
    } else {
        client_ts - now
    };
    if diff > AUTH_TTL_SECS {
        return Err(AuthError::Expired);
    }
    match psk {
        Some(key) => {
            let mut msg: Vec<u8> = Vec::new();
            push_all(&mut msg, &p[0..8]);
            push_all(&mut msg, &p[40..AUTH_PAYLOAD_LEN]);
            let expected = blake3_keyed_hash(key, msg.as_slice());
            let received = &p[8..40];
            assert(msg@ =~= auth_mac_input(p@));
            if !constant_time_eq(&expected, received) {
                return Err(AuthError::MacMismatch);
            }
        },
        None => {},
    }
    let mut pk: Vec<u8> = Vec::new();
    push_all(&mut pk, &p[40..AUTH_PAYLOAD_LEN]);
    Ok(pk)
}

/// The timestamp window, stated over the client's clock reading `ts` that
/// the payload's first eight bytes encode (little-endian): an authentication
/// payload whose timestamp is more than `AUTH_TTL_SECS` behind the server's
/// clock, or more than `AUTH_TTL_SECS` ahead of it, is refused as expired
/// whatever else it holds; within the window, without a pre-shared key, the
/// payload's public key is accepted, and with a key `k` it is accepted
/// exactly when bytes 8..40 are the keyed BLAKE3 digest of the timestamp
/// bytes and the public key.
pub proof fn lemma_auth_window(h: MuxHeader, p: Seq<u8>, psk: Option<Seq<u8>>, now: u64, ts: u64)
    requires
        h.command == MuxCommand::Auth,
        p.len() == AUTH_PAYLOAD_LEN,
        p.subrange(0, 8) == le_bytes(ts as nat, 8),
    ensures
        ts > now + AUTH_TTL_SECS ==> auth_outcome(h, p, psk, now) == Err::<Seq<u8>, AuthError>(AuthError::Expired),
        now > ts + AUTH_TTL_SECS ==> auth_outcome(h, p, psk, now) == Err::<Seq<u8>, AuthError>(AuthError::Expired),
        (ts <= now + AUTH_TTL_SECS && now <= ts + AUTH_TTL_SECS && psk is None) ==> auth_outcome(h, p, psk, now)
            == Ok::<Seq<u8>, AuthError>(p.subrange(40, 1224)),
        (ts <= now + AUTH_TTL_SECS && now <= ts + AUTH_TTL_SECS && psk is Some) ==> ((auth_outcome(h, p, psk, now)
            == Ok::<Seq<u8>, AuthError>(p.subrange(40, 1224))) <==> p.subrange(8, 40) == blake3_keyed_digest(
            psk->0,
            p.subrange(0, 8) + p.subrange(40, 1224),
        )@),
        (ts <= now + AUTH_TTL_SECS && now <= ts + AUTH_TTL_SECS && psk is Some && p.subrange(8, 40)
            != blake3_keyed_digest(psk->0, p.subrange(0, 8) + p.subrange(40, 1224))@) ==> auth_outcome(h, p, psk, now)
            == Err::<Seq<u8>, AuthError>(AuthError::MacMismatch),
{
    assert(pow256(8) == 0x1_0000_0000_0000_0000) by {
        reveal_with_fuel(pow256, 9);
    }
    lemma_le_roundtrip(ts as nat, 8);
    assert(le_value(p.subrange(0, 8)) == ts);
}

/// The server's answer to an accepted client: its sealing cipher, the
/// cipher that opens the client's records, and the acknowledgement frame
/// that carries the Kyber768 ciphertext.
pub struct AcceptedAuth {
    pub send: Cipher,
    pub recv: Cipher,
    pub ack: Frame,
}

/// What the server's answer made from the Kyber768 ciphertext `ct` and its
/// secret `ss` is: the acknowledgement is a handshake frame (padded to
/// `HANDSHAKE_PAD_SIZE` bytes on the wire) whose payload begins with the
/// ciphertext; the server seals with the "server-enc" key of `ss` and the
/// server's role byte, and opens with the "client-enc" key of `ss`.
pub open spec fn accepted_from(a: AcceptedAuth, ct: Seq<u8>, ss: Seq<u8>) -> bool {
    &&& a.ack.header == (MuxHeader {
        command: MuxCommand::AuthAck,
        stream_id: 0,
        length: (HANDSHAKE_PAD_SIZE - FRAME_WIRE_OVERHEAD) as u16,
    })
    &&& a.ack.payload@ == handshake_payload(ct)
    &&& a.send.key() == derived_key(ss, server_enc_label())
    &&& a.send.role() == Some(ROLE_SERVER)
    &&& a.recv.key() == derived_key(ss, client_enc_label())
    &&& a.recv.role() == Some(ROLE_CLIENT)
}

/// The server's answer to an accepted client, made from the Kyber768
/// ciphertext and the secret that encapsulation gave: the session's two
/// ciphers and the acknowledgement frame, which takes exactly
/// `HANDSHAKE_PAD_SIZE` bytes on the wire and carries the ciphertext first.
pub fn accept_auth_with(ct: [u8; 1088], ss: [u8; 32]) -> (r: AcceptedAuth)
    ensures
        accepted_from(r, ct@, ss@),
        frame_wire(r.ack.header, r.ack.payload@).len() == HANDSHAKE_PAD_SIZE,
        r.ack.payload@.subrange(0, KEM_CT_SIZE as int) == ct@,
{
    let (client_key, server_key) = derive_session_keys(&ss);
    let mut payload: Vec<u8> = Vec::new();
    push_all(&mut payload, &ct);
    let ack = Frame::new_handshake(MuxCommand::AuthAck, 0, payload);
    proof {
        lemma_handshake_padding(ct@);
        assert(handshake_payload(ct@).len() == HANDSHAKE_PAD_SIZE - FRAME_WIRE_OVERHEAD);
    }
    let send = Cipher::new_with_role(&server_key, ROLE_SERVER);
    let recv = Cipher::new_with_role(&client_key, ROLE_CLIENT);
    AcceptedAuth { send, recv, ack }
}

/// Encapsulates a fresh secret to the client's Kyber768 public key and
/// answers with `accept_auth_with` on the ciphertext and secret that the
/// encapsulation gave. A key of the wrong length is refused.
pub fn accept_auth(kem_pk: &[u8]) -> (r: Result<AcceptedAuth, ProtocolError>)
    ensures
        kem_pk@.len() != KEM_PK_SIZE ==> r is Err,
        r matches Err(e) ==> e is Kem,
        r matches Ok(a) ==> exists|ct: Seq<u8>, ss: Seq<u8>|
            ct.len() == KEM_CT_SIZE && ss.len() == 32 && #[trigger] accepted_from(a, ct, ss),
{
    let enc = match encapsulate(kem_pk) {
        Ok(e) => e,
        Err(e) => return Err(e),
    };
    let a = accept_auth_with(enc.ciphertext, enc.shared_secret);
    assert(accepted_from(a, enc.ciphertext@, enc.shared_secret@));
    Ok(a)
}

} // verus!
