//! The desktop proxy's logic: its pre-shared key, its Kyber768
//! authentication with the server, its saved profiles, its stream numbering,
//! and what it does with the frames the server sends.
use vstd::prelude::*;
use vstd::string::StringSliceAdditionalSpecFns;

use crate::client::{ProxyConfig, ProxyStats};
use crate::crypto::{blake3_keyed_digest, blake3_keyed_hash, client_enc_label, derive_session_keys, derived_key, server_enc_label};
use crate::frame::{frame_of_bytes, le_bytes, push_all, real_data_of, u64_to_le_bytes, Frame, MuxCommand, MuxHeader};
use crate::kem::{decapsulate, kyber_decapsulated, KemKeyPair, KEM_CT_SIZE, KEM_PK_SIZE};
use crate::client::handshake::SessionKeys;
use crate::text::hex_decoded;
use crate::{ProtocolError, MAX_STREAMS};

verus! {

broadcast use vstd::string::group_string_axioms;

/// Declares the `hex` crate's error type.
#[verifier::external_type_specification]
#[verifier::external_body]
pub struct ExFromHexError(hex::FromHexError);

/// `hex::decode`. Claimed, as the crate's `FromHex for Vec<u8>` and `val`
/// show: an odd length or a non-hexadecimal byte is an error, and otherwise
/// each pair of digits (either case) gives one byte, high digit first.
#[verifier::external_body]
fn hex_decode(s: &[u8]) -> (r: Result<Vec<u8>, hex::FromHexError>)
    ensures
        (r is Ok) == (hex_decoded(s@) is Some),
        r matches Ok(v) ==> hex_decoded(s@) == Some(v@),
{
    hex::decode(s)
}

/// Why the desktop proxy could not set up a session.
#[derive(Debug)]
pub enum ProxyError {
    /// The pre-shared key is not hexadecimal.
    InvalidPskHex,
    /// The pre-shared key does not decode to 32 bytes.
    PskNot32Bytes,
    /// The server's answer is shorter than a frame header.
    NoAuthAck,
    /// The server's answer is not a frame.
    Frame(ProtocolError),
    /// The server's answer is not an acknowledgement.
    UnexpectedCommand(MuxCommand),
    /// Decapsulation failed.
    Kem(ProtocolError),
}

/// Decodes the pre-shared key of a profile: 64 hexadecimal digits.
pub fn decode_psk(text: &str) -> (r: Result<[u8; 32], ProxyError>)
    ensures
        match hex_decoded(text.spec_bytes()) {
            None => r matches Err(ProxyError::InvalidPskHex),
            Some(b) => if b.len() != 32 {
                r matches Err(ProxyError::PskNot32Bytes)
            } else {
                r matches Ok(k) && k@ == b
            },
        },
{
    let bytes = match hex_decode(text.as_bytes()) {
        Ok(b) => b,
        Err(_) => return Err(ProxyError::InvalidPskHex),
    };
    if bytes.len() != 32 {
        return Err(ProxyError::PskNot32Bytes);
    }
    let mut k = [0u8; 32];
    let mut i: usize = 0;
    while i < 32
        invariant
            bytes@.len() == 32,
            i <= 32,
            k@.len() == 32,
            forall|j: int| 0 <= j < i ==> k@[j] == bytes@[j],
        decreases 32 - i,
    {
        k[i] = bytes[i];
        i = i + 1;
    }
    assert(k@ =~= bytes@);
    Ok(k)
}

/// The proxy's authentication payload: the little-endian timestamp, the
/// keyed BLAKE3 of timestamp and public key under the pre-shared key, then the
/// Kyber768 public key.
pub open spec fn proxy_auth_bytes(ts: u64, kem_pk: Seq<u8>, psk: Seq<u8>) -> Seq<u8> {
    let ts_bytes = le_bytes(ts as nat, 8);
    ts_bytes + blake3_keyed_digest(psk, ts_bytes + kem_pk)@ + kem_pk
}

/// The proxy's authentication frame at clock reading `ts` (seconds since the
/// Unix epoch).
pub fn proxy_auth_frame(ts: u64, keypair: &KemKeyPair, psk: &[u8; 32]) -> (r: Frame)
    ensures
        r.header == (MuxHeader { command: MuxCommand::Auth, stream_id: 0, length: 1224 }),
        r.payload@ == proxy_auth_bytes(ts, keypair.public(), psk@),
{
    let ts_bytes = u64_to_le_bytes(ts);
    let mut msg: Vec<u8> = Vec::new();
    push_all(&mut msg, &ts_bytes);
    push_all(&mut msg, keypair.public_key_bytes());
    let mac = blake3_keyed_hash(psk, msg.as_slice());
    let mut payload: Vec<u8> = Vec::new();
    push_all(&mut payload, &ts_bytes);
    push_all(&mut payload, &mac);
    push_all(&mut payload, keypair.public_key_bytes());
    assert(payload@ =~= proxy_auth_bytes(ts, keypair.public(), psk@));
    Frame::new(MuxCommand::Auth, 0, payload)
}

/// What the proxy reads from the server's first answer `b`: the ciphertext
/// that an acknowledgement frame carries, or why there is none.
pub open spec fn proxy_ack_payload(b: Seq<u8>) -> Result<Seq<u8>, ProxyError> {
    if b.len() < 11 {
        Err(ProxyError::NoAuthAck)
    } else {
        match frame_of_bytes(b) {
            Err(e) => Err(ProxyError::Frame(e)),
            Ok((h, p)) => if h.command != MuxCommand::AuthAck {
                Err(ProxyError::UnexpectedCommand(h.command))
            } else {
                Ok(p)
            },
        }
    }
}

/// The session keys from the server's first answer `buf` (the bytes of one
/// read): an acknowledgement frame whose payload begins with the Kyber768
/// ciphertext (the rest is handshake padding), decapsulated with the key
/// pair; the "client-enc" and "server-enc" keys are derived from the secret.
pub fn proxy_session_from_ack(buf: &[u8], keypair: &KemKeyPair) -> (r: Result<SessionKeys, ProxyError>)
    ensures
        match proxy_ack_payload(buf@) {
            Err(ProxyError::NoAuthAck) => r matches Err(ProxyError::NoAuthAck),
            Err(ProxyError::Frame(e)) => r matches Err(ProxyError::Frame(e2)) && e2 == e,
            Err(ProxyError::UnexpectedCommand(c)) => r matches Err(ProxyError::UnexpectedCommand(c2)) && c2 == c,
            Err(_) => false,
            Ok(p) => if p.len() >= KEM_CT_SIZE {
                r matches Ok(k) && k.client_key@ == derived_key(
                    kyber_decapsulated(p.subrange(0, KEM_CT_SIZE as int), keypair.secret()),
                    client_enc_label(),
                ) && k.server_key@ == derived_key(
                    kyber_decapsulated(p.subrange(0, KEM_CT_SIZE as int), keypair.secret()),
                    server_enc_label(),
                )
            } else {
                r matches Err(ProxyError::Kem(_))
            },
        },
{
    if buf.len() < 11 {
        return Err(ProxyError::NoAuthAck);
    }
    let ack = match Frame::decode(buf) {
        Ok(f) => f,
        Err(e) => return Err(ProxyError::Frame(e)),
    };
    if ack.header.command != MuxCommand::AuthAck {
        return Err(ProxyError::UnexpectedCommand(ack.header.command));
    }
    let p = ack.payload.as_slice();
    let ct = if p.len() >= KEM_CT_SIZE {
        &p[0..KEM_CT_SIZE]
    } else {
        p
    };
    let ss = match decapsulate(keypair, ct) {
        Ok(s) => s,
        Err(e) => return Err(ProxyError::Kem(e)),
    };
    let (client_key, server_key) = derive_session_keys(&ss);
    Ok(SessionKeys { client_key, server_key })
}

/// The stream number after `sid`, counting modulo `MAX_STREAMS`.
pub fn next_stream_id(sid: u32) -> (r: u32)
    requires
        sid < u32::MAX,
    ensures
        r == (sid + 1) % (MAX_STREAMS as int),
{
    (sid + 1) % MAX_STREAMS
}

/// Index of the first profile named `name`, if there is one.
pub open spec fn first_named(s: Seq<ProxyConfig>, name: Seq<char>) -> Option<int> {
    if exists|i: int| 0 <= i < s.len() && s[i].name@ == name {
        Some(
            choose|i: int|
                0 <= i < s.len() && s[i].name@ == name && forall|j: int| 0 <= j < i ==> s[j].name@ != name,
        )
    } else {
        None
    }
}

fn position_of(profiles: &Vec<ProxyConfig>, name: &String) -> (r: Option<usize>)
    ensures
        r == match first_named(profiles@, name@) {
            Some(i) => Some(i as usize),
            None => None::<usize>,
        },
        r matches Some(i) ==> i < profiles@.len() && first_named(profiles@, name@) == Some(i as int),
{
    let mut i: usize = 0;
    while i < profiles.len()
        invariant
            i <= profiles@.len(),
            forall|j: int| 0 <= j < i ==> profiles@[j].name@ != name@,
        decreases profiles@.len() - i,
    {
        if profiles[i].name == *name {
            proof {
                let k = choose|k: int|
                    0 <= k < profiles@.len() && profiles@[k].name@ == name@ && forall|j: int|
                        0 <= j < k ==> profiles@[j].name@ != name@;
                if k > i {
                    assert(profiles@[i as int].name@ == name@);
                }
            }
            return Some(i);
        }
        i = i + 1;
    }
    None
}

/// The profiles after saving `p`: it replaces the first profile of the same
/// name, or is appended where there is none.
pub open spec fn profiles_after_save(s: Seq<ProxyConfig>, p: ProxyConfig) -> Seq<ProxyConfig> {
    match first_named(s, p.name@) {
        Some(i) => s.update(i, p),
        None => s.push(p),
    }
}

proof fn lemma_first_named_at(s: Seq<ProxyConfig>, name: Seq<char>, i: int)
    requires
        0 <= i < s.len(),
        s[i].name@ == name,
        forall|j: int| 0 <= j < i ==> s[j].name@ != name,
    ensures
        first_named(s, name) == Some(i),
{
    let k = choose|k: int| 0 <= k < s.len() && s[k].name@ == name && forall|j: int| 0 <= j < k ==> s[j].name@ != name;
    if k < i {
    } else if k > i {
        assert(s[i].name@ == name);
    }
}

proof fn lemma_first_named_exists(s: Seq<ProxyConfig>, name: Seq<char>)
    requires
        exists|i: int| 0 <= i < s.len() && s[i].name@ == name,
    ensures
        exists|i: int| 0 <= i < s.len() && s[i].name@ == name && forall|j: int| 0 <= j < i ==> s[j].name@ != name,
    decreases s.len(),
{
    let k = choose|i: int| 0 <= i < s.len() && s[i].name@ == name;
    if exists|j: int| 0 <= j < k && s[j].name@ == name {
        let u = s.subrange(0, k);
        let j0 = choose|j: int| 0 <= j < k && s[j].name@ == name;
        assert(u[j0].name@ == name);
        lemma_first_named_exists(u, name);
        let m = choose|i: int| 0 <= i < u.len() && u[i].name@ == name && forall|j: int| 0 <= j < i ==> u[j].name@ != name;
        assert(s[m].name@ == name);
        assert(forall|j: int| 0 <= j < m ==> u[j] == s[j]);
    } else {
        assert(s[k].name@ == name);
    }
}

/// Saving a profile, then looking its name up, finds it; the list grows by
/// one exactly when no profile had that name; every profile of another name
/// keeps its place; and saving the same profile again changes nothing.
pub proof fn lemma_profile_saved(s: Seq<ProxyConfig>, p: ProxyConfig)
    ensures
        ({
            let t = profiles_after_save(s, p);
            &&& first_named(t, p.name@) matches Some(j) && t[j] == p
            &&& t.len() == s.len() + if exists|i: int| 0 <= i < s.len() && s[i].name@ == p.name@ { 0int } else { 1int }
            &&& forall|i: int| 0 <= i < s.len() && s[i].name@ != p.name@ ==> t[i] == s[i]
            &&& profiles_after_save(t, p) == t
        }),
{
    let name = p.name@;
    let t = profiles_after_save(s, p);
    match first_named(s, name) {
        Some(i) => {
            lemma_first_named_exists(s, name);
            assert(0 <= i < s.len() && s[i].name@ == name && forall|j: int| 0 <= j < i ==> s[j].name@ != name);
            lemma_first_named_at(t, name, i);
            assert(t.update(i, p) =~= t);
        },
        None => {
            assert(!exists|i: int| 0 <= i < s.len() && s[i].name@ == name);
            assert(t[s.len() as int] == p);
            lemma_first_named_at(t, name, s.len() as int);
            assert(t.update(s.len() as int, p) =~= t);
        },
    }
}

proof fn lemma_filter_keeps_all(s: Seq<ProxyConfig>, pred: spec_fn(ProxyConfig) -> bool)
    requires
        forall|i: int| 0 <= i < s.len() ==> pred(#[trigger] s[i]),
    ensures
        s.filter(pred) == s,
    decreases s.len(),
{
    reveal(Seq::filter);
    if s.len() > 0 {
        lemma_filter_keeps_all(s.drop_last(), pred);
        assert(s.drop_last().push(s.last()) =~= s);
    }
}

/// Deleting a name leaves no profile of that name and keeps every other
/// profile; deleting it again changes nothing.
pub proof fn lemma_profile_deleted(s: Seq<ProxyConfig>, name: Seq<char>)
    ensures
        ({
            let t = s.filter(|q: ProxyConfig| q.name@ != name);
            &&& forall|i: int| 0 <= i < t.len() ==> #[trigger] t[i].name@ != name
            &&& forall|i: int| 0 <= i < s.len() && s[i].name@ != name ==> t.contains(#[trigger] s[i])
            &&& t.len() <= s.len()
            &&& t.filter(|q: ProxyConfig| q.name@ != name) == t
        }),
{
    broadcast use vstd::seq_lib::group_filter_ensures;

    let f = |q: ProxyConfig| q.name@ != name;
    let t = s.filter(f);
    assert forall|i: int| 0 <= i < t.len() implies #[trigger] t[i].name@ != name by {
        assert(f(t[i]));
    }
    assert forall|i: int| 0 <= i < s.len() && s[i].name@ != name implies t.contains(#[trigger] s[i]) by {
        assert(f(s[i]));
    }
    lemma_filter_keeps_all(t, f);
}

/// Saves a profile: it replaces the first profile of the same name, or is
/// appended where there is none.
pub fn save_profile(profiles: &mut Vec<ProxyConfig>, profile: ProxyConfig)
    ensures
        final(profiles)@ == profiles_after_save(old(profiles)@, profile),
{
    match position_of(profiles, &profile.name) {
        Some(i) => {
            profiles.set(i, profile);
        },
        None => {
            profiles.push(profile);
        },
    }
}

/// Deletes every profile named `name`, keeping the others in order.
pub fn delete_profile(profiles: &mut Vec<ProxyConfig>, name: &str)
    ensures
        final(profiles)@ == old(profiles)@.filter(|p: ProxyConfig| p.name@ != name@),
{
    let ghost pred = |p: ProxyConfig| p.name@ != name@;
    let target = name.to_string();
    let mut rest: Vec<ProxyConfig> = Vec::new();
    std::mem::swap(&mut rest, profiles);
    let ghost old_s = rest@;
    let mut kept: Vec<ProxyConfig> = Vec::new();
    let ghost mut i: int = 0;
    while rest.len() > 0
        invariant
            0 <= i <= old_s.len(),
            rest@ == old_s.subrange(i, old_s.len() as int),
            target@ == name@,
            pred == (|p: ProxyConfig| p.name@ != name@),
            kept@ == old_s.subrange(0, i).filter(pred),
        decreases rest@.len(),
    {
        proof {
            assert(old_s.subrange(0, i + 1).drop_last() =~= old_s.subrange(0, i));
            reveal(Seq::filter);
        }
        let p = rest.remove(0);
        assert(p == old_s[i]);
        if p.name != target {
            kept.push(p);
        }
        proof {
            i = i + 1;
        }
        assert(rest@ =~= old_s.subrange(i, old_s.len() as int));
    }
    assert(old_s.subrange(0, i) =~= old_s);
    *profiles = kept;
}

/// What the proxy does with a frame from the server.
#[derive(Debug)]
pub enum ClientAction {
    /// Deliver this data to the stream's local connection.
    Deliver { stream_id: u32, data: Vec<u8> },
    /// The server closed the stream.
    Closed { stream_id: u32 },
    /// Nothing to do.
    Ignore,
}

/// Decides what to do with a frame from the server: data is delivered to its
/// stream (its real part), a close ends the stream, anything else is ignored.
pub fn client_action(frame: &Frame) -> (r: ClientAction)
    ensures
        frame.header.command == MuxCommand::Data ==> (r matches ClientAction::Deliver { stream_id, data }
            && stream_id == frame.header.stream_id && data@ == real_data_of(frame.payload@)),
        frame.header.command == MuxCommand::Close ==> (r matches ClientAction::Closed { stream_id } && stream_id
            == frame.header.stream_id),
        frame.header.command != MuxCommand::Data && frame.header.command != MuxCommand::Close ==> r is Ignore,
{
    match frame.header.command {
        MuxCommand::Data => {
            let mut data: Vec<u8> = Vec::new();
            push_all(&mut data, frame.real_data());
            ClientAction::Deliver { stream_id: frame.header.stream_id, data }
        },
        MuxCommand::Close => ClientAction::Closed { stream_id: frame.header.stream_id },
        _ => ClientAction::Ignore,
    }
}

/// The statistics to report: the stored ones, with the live session's
/// stream count, byte counts and uptime where a session is up.
pub fn current_stats(stored: ProxyStats, live: Option<(usize, u64, u64, Option<u64>)>) -> (r: ProxyStats)
    ensures
        live is None ==> r == stored,
        live matches Some((streams, sent, recv, uptime)) ==> r == (ProxyStats {
            connected: stored.connected,
            streams,
            bytes_sent: sent,
            bytes_recv: recv,
            uptime_secs: match uptime {
                Some(u) => u,
                None => stored.uptime_secs,
            },
        }),
{
    match live {
        None => stored,
        Some((streams, sent, recv, uptime)) => ProxyStats {
            connected: stored.connected,
            streams,
            bytes_sent: sent,
            bytes_recv: recv,
            uptime_secs: match uptime {
                Some(u) => u,
                None => stored.uptime_secs,
            },
        },
    }
}

} // verus!
