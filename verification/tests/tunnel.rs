use tundra::client::socks5::{
    auth_status_reply, check_request_header, connect_success_reply, credentials_match, domain_target, ipv4_target,
    method_reply, negotiate_method, parse_connect_request, parse_userpass, AddressType, AuthMethod, Socks5Error,
};
use tundra::fme::collect::probe_measurements;
use tundra::fme::compare::wasserstein_sum;
use tundra::fme::scheduler::SchedulerMetrics;
use tundra::frame::{u64_from_le_bytes, u64_to_le_bytes, Frame, MuxCommand};
use tundra::server::dispatch::{parse_target, server_action, ServerAction};
use tundra::server::limiter::ConnectionLimiter;
use tundra::text::{find_byte, parse_u16, push_decimal};

#[test]
fn socks5_method_negotiation() {
    assert_eq!(negotiate_method(&[5, 1, 0], false), Ok(AuthMethod::NoAuth));
    assert_eq!(negotiate_method(&[5, 2, 0, 2], true), Ok(AuthMethod::UserPass));
    assert_eq!(negotiate_method(&[5, 1, 0], true), Err(Socks5Error::NoAcceptableMethod));
    assert_eq!(negotiate_method(&[4, 1, 0], false), Err(Socks5Error::NotSocks5));
    assert_eq!(negotiate_method(&[5, 1], false), Err(Socks5Error::NotSocks5));
    assert_eq!(method_reply(Some(AuthMethod::NoAuth)), [5, 0]);
    assert_eq!(method_reply(Some(AuthMethod::UserPass)), [5, 2]);
    assert_eq!(method_reply(None), [5, 0xff]);
}

#[test]
fn socks5_userpass() {
    let pkt = [1, 3, b'b', b'o', b'b', 2, b'p', b'w'];
    let (u, p) = parse_userpass(&pkt).unwrap();
    assert_eq!(u, b"bob".to_vec());
    assert_eq!(p, b"pw".to_vec());
    assert_eq!(parse_userpass(&[2, 1, 1]), Err(Socks5Error::BadAuthPacket));
    assert_eq!(parse_userpass(&[1, 5, b'a']), Err(Socks5Error::TruncatedAuth));
    assert_eq!(parse_userpass(&[1, 1, b'a', 3, b'x']), Err(Socks5Error::TruncatedAuth));
    assert!(credentials_match(b"bob", b"pw", "bob:pw"));
    assert!(credentials_match(b"bob", b"p:w", "bob:p:w"));
    assert!(credentials_match(b"bob", b"", "bob"));
    assert!(!credentials_match(b"bob", b"x", "bob:pw"));
    assert!(!credentials_match(b"al", b"pw", "bob:pw"));
    assert_eq!(auth_status_reply(true), [1, 0]);
    assert_eq!(auth_status_reply(false), [1, 1]);
    assert_eq!(connect_success_reply(), [5, 0, 0, 1, 0, 0, 0, 0, 0, 0]);
}

#[test]
fn socks5_connect_targets() {
    let v4 = [5, 1, 0, 1, 93, 184, 216, 34, 0x01, 0xbb];
    assert_eq!(parse_connect_request(&v4).unwrap(), b"93.184.216.34:443".to_vec());
    let mut dom = vec![5, 1, 0, 3, 11];
    dom.extend_from_slice(b"example.com");
    dom.extend_from_slice(&[0, 80]);
    assert_eq!(parse_connect_request(&dom).unwrap(), b"example.com:80".to_vec());
    assert_eq!(parse_connect_request(&[5, 2, 0, 1, 0, 0, 0]), Err(Socks5Error::UnsupportedCommand));
    assert_eq!(parse_connect_request(&[5, 1, 0, 1, 1, 2, 3, 4]), Err(Socks5Error::TruncatedIpv4));
    assert_eq!(parse_connect_request(&[5, 1, 0, 3, 9, b'a', b'b', b'c']), Err(Socks5Error::TruncatedDomain));
    assert_eq!(parse_connect_request(&[5, 1, 0, 4, 0, 0, 0, 0]), Err(Socks5Error::UnsupportedAddressType));
    assert_eq!(ipv4_target(&[0, 0, 0, 0], 0), b"0.0.0.0:0".to_vec());
    assert_eq!(domain_target(&[0xff, b'a'], 65535), "\u{fffd}a:65535".as_bytes().to_vec());
    assert_eq!(check_request_header(&[5, 1, 0, 1]), Ok(AddressType::Ipv4));
    assert_eq!(check_request_header(&[5, 1, 0, 3]), Ok(AddressType::Domain));
    assert_eq!(check_request_header(&[5, 1, 0, 4]), Err(Socks5Error::UnsupportedAddressType));
    assert_eq!(check_request_header(&[4, 1, 0, 1]), Err(Socks5Error::UnsupportedCommand));
}

#[test]
fn server_reads_client_targets() {
    assert_eq!(parse_target(b"example.com:443"), (b"example.com".to_vec(), 443));
    assert_eq!(parse_target(b"example.com"), (b"example.com".to_vec(), 80));
    assert_eq!(parse_target(b"example.com:http"), (b"example.com".to_vec(), 80));
    assert_eq!(parse_target(b"host:+8080"), (b"host".to_vec(), 8080));
    assert_eq!(parse_target(b"host:65536"), (b"host".to_vec(), 80));
    assert_eq!(parse_target(b"::1"), (b"".to_vec(), 80));
    let v4 = [5, 1, 0, 1, 10, 0, 0, 1, 0x1f, 0x90];
    let t = parse_connect_request(&v4).unwrap();
    assert_eq!(parse_target(&t), (b"10.0.0.1".to_vec(), 8080));
}

#[test]
fn server_actions() {
    let data = Frame::new_padded(MuxCommand::Data, 3, b"abc".to_vec(), 100);
    match server_action(&data) {
        ServerAction::Forward { stream_id, data } => {
            assert_eq!(stream_id, 3);
            assert_eq!(data, b"abc".to_vec());
        }
        other => panic!("unexpected {:?}", other),
    }
    let empty = Frame::new_padded(MuxCommand::Data, 3, vec![], 100);
    assert!(matches!(server_action(&empty), ServerAction::Ignore));
    match server_action(&Frame::new(MuxCommand::NewStream, 8, b"example.com:443".to_vec())) {
        ServerAction::Open { stream_id, host, port } => {
            assert_eq!(stream_id, 8);
            assert_eq!(host, b"example.com".to_vec());
            assert_eq!(port, 443);
        }
        other => panic!("unexpected {:?}", other),
    }
    assert!(matches!(server_action(&Frame::new(MuxCommand::Close, 8, vec![])), ServerAction::Remove { stream_id: 8 }));
    assert!(matches!(server_action(&Frame::new(MuxCommand::Ping, 0, vec![])), ServerAction::Pong));
    assert!(matches!(server_action(&Frame::new(MuxCommand::Pong, 0, vec![])), ServerAction::Ignore));
}

#[test]
fn limiter_bounds() {
    let mut l = ConnectionLimiter::new(3, 2);
    let a = 1u128;
    let b = 2u128;
    assert!(l.acquire(a, 0).is_ok());
    assert!(l.acquire(a, 1).is_ok());
    assert!(l.acquire(a, 2).is_err());
    assert!(l.acquire(b, 3).is_ok());
    assert!(l.acquire(b, 4).is_err());
    l.release(a);
    assert!(l.acquire(a, 5).is_ok());
    assert!(l.acquire(b, 6).is_err());
}

#[test]
fn limiter_release_undoes_acquire() {
    let mut l = ConnectionLimiter::new(1, 1);
    assert!(l.acquire(7, 0).is_ok());
    assert!(l.acquire(8, 1).is_err());
    l.release(7);
    assert!(l.acquire(8, 2).is_ok());
    l.release(8);
    assert!(l.acquire(7, 3).is_ok());
}

#[test]
fn limiter_forgets_idle_addresses() {
    let mut l = ConnectionLimiter::new(100, 1);
    assert!(l.acquire(9, 0).is_ok());
    assert!(l.acquire(9, 300_000_000_000).is_err());
    assert!(l.acquire(9, 300_000_000_001).is_ok());
}

#[test]
fn probe_builds_measurements() {
    let m = probe_measurements(100, vec![1460, 1460, 600], vec![10, 20, 30], 3);
    assert_eq!(m.upstream_sizes, vec![100, 40, 200, 512, 100, 100]);
    assert_eq!(m.downstream_sizes, vec![1460, 1460, 600, 1173, 1173, 1173, 1173, 1173, 1173]);
    assert_eq!(m.iat_client_us, vec![0, 50, 100, 500_000, 500_000]);
    assert_eq!(m.iat_server_us, vec![10, 20, 30, 50_000, 50_000]);
    assert_eq!(m.burst_pattern[1].batch_size, 3);
    assert_eq!(m.keepalive_us, 30_000_000);
    let big = probe_measurements(1, vec![100_000], vec![1], 0);
    assert_eq!(big.burst_pattern[1].batch_size, 10);
    assert_eq!(big.upstream_sizes.len(), 4);
}

#[test]
fn earth_movers_sum() {
    assert_eq!(wasserstein_sum(&[], &[1]), None);
    assert_eq!(wasserstein_sum(&[3, 1, 2], &[10, 20]), Some((9 + 18, 2)));
    assert_eq!(wasserstein_sum(&[5], &[5]), Some((0, 1)));
}

#[test]
fn scheduler_metrics_start_at_zero() {
    let m = SchedulerMetrics::default();
    assert_eq!(m.bytes_morphed, 0);
    assert_eq!(m.packets_scheduled, 0);
    assert_eq!(m.queue_depth, 0);
    assert_eq!(m.avg_jitter_us, 0);
}

#[test]
fn text_helpers() {
    let mut out = Vec::new();
    push_decimal(&mut out, 0);
    push_decimal(&mut out, 4294967295);
    assert_eq!(out, b"04294967295".to_vec());
    assert_eq!(parse_u16(b"0"), Some(0));
    assert_eq!(parse_u16(b"00065535"), Some(65535));
    assert_eq!(parse_u16(b"+1"), Some(1));
    assert_eq!(parse_u16(b"+"), None);
    assert_eq!(parse_u16(b""), None);
    assert_eq!(parse_u16(b"-1"), None);
    assert_eq!(parse_u16(b"12a"), None);
    assert_eq!(find_byte(b"a:b:c", b':'), Some(1));
    assert_eq!(find_byte(b"abc", b':'), None);
    assert_eq!(u64_to_le_bytes(0x0102030405060708), [8, 7, 6, 5, 4, 3, 2, 1]);
    assert_eq!(u64_from_le_bytes(&[8, 7, 6, 5, 4, 3, 2, 1]), 0x0102030405060708);
}
