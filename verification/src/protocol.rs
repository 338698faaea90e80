//! Properties that tie the two ends of the tunnel together: what one side
//! sends is what the other side accepts.
use vstd::prelude::*;

use crate::client::desktop::{proxy_ack_payload, proxy_auth_bytes, ProxyError};
use crate::frame::{
    frame_wire, handshake_payload, le_bytes, le_value, lemma_frame_roundtrip, lemma_handshake_padding, lemma_le_roundtrip,
    pow256, MuxCommand, MuxHeader, FRAME_WIRE_OVERHEAD, HANDSHAKE_PAD_SIZE,
};
use crate::kem::{KEM_CT_SIZE, KEM_PK_SIZE};
use crate::server::handshake::{
    accepted_from, auth_mac_input, auth_outcome, secs_apart, AcceptedAuth, AuthError, AUTH_PAYLOAD_LEN, AUTH_TTL_SECS,
};
use crate::crypto::{client_enc_label, derived_key, server_enc_label};
use crate::client::socks5::{domain_target_text, ipv4_host_text, ipv4_target_text};
use crate::server::dispatch::target_of;
use crate::text::{
    all_digits, decimal, is_digit, lemma_ascii_valid_utf8, lemma_decimal_digits, lemma_decimal_parses,
    lemma_first_index_at, lossy_text,
};
use vstd::utf8::{valid_utf8, valid_utf8_concat};

verus! {

/// The server accepts the desktop proxy's authentication frame, made at
/// clock reading `ts` with the same pre-shared key and a Kyber768 public key,
/// whenever its own clock reads within `AUTH_TTL_SECS` of `ts`, and takes the
/// proxy's public key from it. Without a key on the server it accepts it too.
pub proof fn lemma_proxy_auth_accepted(ts: u64, now: u64, kem_pk: Seq<u8>, psk: Seq<u8>)
    requires
        kem_pk.len() == KEM_PK_SIZE,
        secs_apart(now, ts) <= AUTH_TTL_SECS,
    ensures
        auth_outcome(
            MuxHeader { command: MuxCommand::Auth, stream_id: 0, length: AUTH_PAYLOAD_LEN as u16 },
            proxy_auth_bytes(ts, kem_pk, psk),
            Some(psk),
            now,
        ) == Ok::<Seq<u8>, AuthError>(kem_pk),
        auth_outcome(
            MuxHeader { command: MuxCommand::Auth, stream_id: 0, length: AUTH_PAYLOAD_LEN as u16 },
            proxy_auth_bytes(ts, kem_pk, psk),
            None,
            now,
        ) == Ok::<Seq<u8>, AuthError>(kem_pk),
{
    reveal_with_fuel(pow256, 9);
    lemma_le_roundtrip(ts as nat, 8);
    let ts_bytes = le_bytes(ts as nat, 8);
    let p = proxy_auth_bytes(ts, kem_pk, psk);
    let mac = crate::crypto::blake3_keyed_digest(psk, ts_bytes + kem_pk)@;
    assert(p.subrange(0, 8) =~= ts_bytes);
    assert(p.subrange(8, 40) =~= mac);
    assert(p.len() == AUTH_PAYLOAD_LEN);
    assert(p.subrange(40, AUTH_PAYLOAD_LEN as int) =~= kem_pk);
    assert(auth_mac_input(p) =~= ts_bytes + kem_pk);
}

/// Once both ends hold the same shared secret, each end opens with the key
/// that the other end seals with: the server opens with the client's
/// sealing key ("client-enc") and seals with the key that the client opens
/// with ("server-enc"); the two directions use keys of different labels and
/// nonces of different roles.
pub proof fn lemma_session_keys_agree(a: AcceptedAuth, ct: Seq<u8>, ss: Seq<u8>)
    requires
        accepted_from(a, ct, ss),
    ensures
        a.recv.key() == derived_key(ss, seq![99u8, 108, 105, 101, 110, 116, 45, 101, 110, 99]),
        a.send.key() == derived_key(ss, seq![115u8, 101, 114, 118, 101, 114, 45, 101, 110, 99]),
        client_enc_label() != server_enc_label(),
        a.send.role() != a.recv.role(),
{
    assert(client_enc_label() =~= seq![99u8, 108, 105, 101, 110, 116, 45, 101, 110, 99]);
    assert(server_enc_label() =~= seq![115u8, 101, 114, 118, 101, 114, 45, 101, 110, 99]);
    assert(client_enc_label()[0] != server_enc_label()[0]);
}

/// The desktop proxy reads, from the bytes of the server's acknowledgement
/// frame (a handshake frame padded to 1400 bytes), the payload that carries
/// the Kyber768 ciphertext first.
pub proof fn lemma_server_ack_read_by_proxy(ct: Seq<u8>)
    requires
        ct.len() == KEM_CT_SIZE,
    ensures
        proxy_ack_payload(
            frame_wire(
                MuxHeader {
                    command: MuxCommand::AuthAck,
                    stream_id: 0,
                    length: (HANDSHAKE_PAD_SIZE - FRAME_WIRE_OVERHEAD) as u16,
                },
                handshake_payload(ct),
            ),
        ) == Ok::<Seq<u8>, ProxyError>(handshake_payload(ct)),
        handshake_payload(ct).subrange(0, KEM_CT_SIZE as int) == ct,
{
    let h = MuxHeader {
        command: MuxCommand::AuthAck,
        stream_id: 0,
        length: (HANDSHAKE_PAD_SIZE - FRAME_WIRE_OVERHEAD) as u16,
    };
    let p = handshake_payload(ct);
    lemma_handshake_padding(ct);
    assert(p.len() == HANDSHAKE_PAD_SIZE - FRAME_WIRE_OVERHEAD);
    lemma_frame_roundtrip(h, p, Seq::empty());
    assert(frame_wire(h, p) + Seq::<u8>::empty() =~= frame_wire(h, p));
}

/// A `host:port` text splits back into the host and the port, where the
/// host is valid UTF-8 without a colon.
proof fn lemma_target_text_splits(host: Seq<u8>, port: u16)
    requires
        valid_utf8(host),
        forall|i: int| 0 <= i < host.len() ==> host[i] != 58,
    ensures
        target_of(host + seq![58u8] + decimal(port as nat)) == (host, port),
{
    let digits = decimal(port as nat);
    let text = host + seq![58u8] + digits;
    lemma_decimal_digits(port as nat);
    assert forall|i: int| 0 <= i < (seq![58u8] + digits).len() implies (seq![58u8] + digits)[i] < 128 by {
        if i > 0 {
            assert((seq![58u8] + digits)[i] == digits[i - 1]);
            assert(is_digit(digits[i - 1]));
        }
    }
    lemma_ascii_valid_utf8(seq![58u8] + digits);
    valid_utf8_concat(host, seq![58u8] + digits);
    assert(host + (seq![58u8] + digits) =~= text);
    assert(lossy_text(text) == text);
    lemma_first_index_at(text, 58, host.len() as int);
    assert(text.subrange(0, host.len() as int) =~= host);
    assert(text.subrange(host.len() as int + 1, text.len() as int) =~= digits);
    lemma_decimal_parses(port);
}

/// The server reads back the target that the client's SOCKS5 proxy names for
/// an IPv4 request: the dotted address and the port.
pub proof fn lemma_ipv4_target_read_by_server(ip: Seq<u8>, port: u16)
    requires
        ip.len() == 4,
    ensures
        target_of(ipv4_target_text(ip, port)) == (ipv4_host_text(ip), port),
{
    let host = ipv4_host_text(ip);
    lemma_decimal_digits(ip[0] as nat);
    lemma_decimal_digits(ip[1] as nat);
    lemma_decimal_digits(ip[2] as nat);
    lemma_decimal_digits(ip[3] as nat);
    assert forall|i: int| 0 <= i < host.len() implies host[i] < 128 && host[i] != 58 by {
        let d0 = decimal(ip[0] as nat);
        let d1 = decimal(ip[1] as nat);
        let d2 = decimal(ip[2] as nat);
        let d3 = decimal(ip[3] as nat);
        let a = d0.len() as int;
        let b = a + 1 + d1.len();
        let c = b + 1 + d2.len();
        if i < a {
            assert(host[i] == d0[i] && is_digit(d0[i]));
        } else if i == a || i == b || i == c {
            assert(host[i] == 46);
        } else if i < b {
            assert(host[i] == d1[i - a - 1] && is_digit(d1[i - a - 1]));
        } else if i < c {
            assert(host[i] == d2[i - b - 1] && is_digit(d2[i - b - 1]));
        } else {
            assert(host[i] == d3[i - c - 1] && is_digit(d3[i - c - 1]));
        }
    }
    lemma_ascii_valid_utf8(host);
    lemma_target_text_splits(host, port);
}

/// The server reads back the target that the client's SOCKS5 proxy names for
/// a domain-name request, where the name is valid UTF-8 without a colon: the
/// name and the port.
pub proof fn lemma_domain_target_read_by_server(domain: Seq<u8>, port: u16)
    requires
        valid_utf8(domain),
        forall|i: int| 0 <= i < domain.len() ==> domain[i] != 58,
    ensures
        target_of(domain_target_text(domain, port)) == (domain, port),
{
    assert(lossy_text(domain) == domain);
    lemma_target_text_splits(domain, port);
}

} // verus!
