//! The SOCKS5 exchanges of the local proxy: method negotiation, the
//! username/password sub-negotiation and the CONNECT request (RFC 1928 and
//! RFC 1929), and the `host:port` target that a request names.
use vstd::prelude::*;
use vstd::string::StringSliceAdditionalSpecFns;

use crate::frame::push_all;
use crate::text::{
    all_digits, decimal, digits_value, find_byte, lemma_decimal_digits, lossy_text, push_decimal, split_once_at,
    utf8_lossy_bytes,
};

verus! {

/// Why a SOCKS5 exchange was refused.
#[derive(Debug, Clone, Copy, PartialEq, Eq, Structural)]
pub enum Socks5Error {
    /// The greeting is short or not of version 5.
    NotSocks5,
    /// Credentials are required and the client offers no username/password method.
    NoAcceptableMethod,
    /// The sub-negotiation is short or not of version 1.
    BadAuthPacket,
    /// The sub-negotiation ends inside the username or the password.
    TruncatedAuth,
    /// The username or the password is wrong.
    AuthFailed,
    /// The request is short or not a CONNECT.
    UnsupportedCommand,
    /// An IPv4 request ends inside the address or port.
    TruncatedIpv4,
    /// A domain request ends inside the name or port.
    TruncatedDomain,
    /// The address type is neither IPv4 nor a domain name.
    UnsupportedAddressType,
}

/// Authentication method chosen for a client.
#[derive(Debug, Clone, Copy, PartialEq, Eq, Structural)]
pub enum AuthMethod {
    NoAuth,
    UserPass,
}

/// Address type of a CONNECT request.
#[derive(Debug, Clone, Copy, PartialEq, Eq, Structural)]
pub enum AddressType {
    Ipv4,
    Domain,
}

/// What negotiating a method on greeting `b` gives.
pub open spec fn method_of(b: Seq<u8>, auth_required: bool) -> Result<AuthMethod, Socks5Error> {
    if b.len() < 3 || b[0] != 5 {
        Err(Socks5Error::NotSocks5)
    } else if !auth_required {
        Ok(AuthMethod::NoAuth)
    } else if b.subrange(2, b.len() as int).contains(2u8) {
        Ok(AuthMethod::UserPass)
    } else {
        Err(Socks5Error::NoAcceptableMethod)
    }
}

/// Picks the method for the greeting `buf` (the bytes of one read): no
/// authentication where none is configured, else username/password, which the
/// client must offer among the methods after the first two bytes.
pub fn negotiate_method(buf: &[u8], auth_required: bool) -> (r: Result<AuthMethod, Socks5Error>)
    ensures
        r == method_of(buf@, auth_required),
{
    if buf.len() < 3 || buf[0] != 5 {
        return Err(Socks5Error::NotSocks5);
    }
    if !auth_required {
        return Ok(AuthMethod::NoAuth);
    }
    let methods = &buf[2..buf.len()];
    let mut i: usize = 0;
    while i < methods.len()
        invariant
            buf@.len() >= 3,
            buf@[0] == 5,
            auth_required,
            methods@ == buf@.subrange(2, buf@.len() as int),
            i <= methods@.len(),
            forall|j: int| 0 <= j < i ==> methods@[j] != 2u8,
        decreases methods@.len() - i,
    {
        if methods[i] == 2 {
            assert(methods@[i as int] == 2u8);
            return Ok(AuthMethod::UserPass);
        }
        i = i + 1;
    }
    Err(Socks5Error::NoAcceptableMethod)
}

/// Method negotiation, stated over the greeting's bytes: a greeting of fewer
/// than three bytes or of another version than 5 is refused; without
/// credentials every version-5 greeting gets "no authentication"; with
/// credentials the client gets username/password exactly when the byte 2
/// stands at some index from 2 on (the first offered method counts as much
/// as any other), and is refused otherwise.
pub proof fn lemma_method_choice(b: Seq<u8>)
    ensures
        (b.len() < 3 || b[0] != 5) ==> method_of(b, true) == Err::<AuthMethod, Socks5Error>(Socks5Error::NotSocks5)
            && method_of(b, false) == Err::<AuthMethod, Socks5Error>(Socks5Error::NotSocks5),
        (b.len() >= 3 && b[0] == 5) ==> method_of(b, false) == Ok::<AuthMethod, Socks5Error>(AuthMethod::NoAuth),
        (b.len() >= 3 && b[0] == 5) ==> ((method_of(b, true) == Ok::<AuthMethod, Socks5Error>(AuthMethod::UserPass))
            <==> (exists|i: int| 2 <= i < b.len() && b[i] == 2u8)),
        (b.len() >= 3 && b[0] == 5 && forall|i: int| 2 <= i < b.len() ==> b[i] != 2u8) ==> method_of(b, true)
            == Err::<AuthMethod, Socks5Error>(Socks5Error::NoAcceptableMethod),
{
    if b.len() >= 3 && b[0] == 5 {
        let m = b.subrange(2, b.len() as int);
        if exists|i: int| 2 <= i < b.len() && b[i] == 2u8 {
            let i = choose|i: int| 2 <= i < b.len() && b[i] == 2u8;
            assert(m[i - 2] == 2u8);
            assert(m.contains(2u8));
        }
        if m.contains(2u8) {
            let j = choose|j: int| 0 <= j < m.len() && m[j] == 2u8;
            assert(b[j + 2] == 2u8);
        }
    }
}

/// The method-selection reply: version 5 and the chosen method, or 0xFF
/// where no offered method is acceptable.
pub fn method_reply(choice: Option<AuthMethod>) -> (r: [u8; 2])
    ensures
        r@ == seq![
            5u8,
            match choice {
                Some(AuthMethod::NoAuth) => 0u8,
                Some(AuthMethod::UserPass) => 2u8,
                None => 0xffu8,
            },
        ],
{
    let m: u8 = match choice {
        Some(AuthMethod::NoAuth) => 0,
        Some(AuthMethod::UserPass) => 2,
        None => 0xff,
    };
    let r = [5u8, m];
    assert(r@ =~= seq![5u8, m]);
    r
}

/// What parsing a username/password packet `b` gives: the username and the
/// password bytes.
pub open spec fn userpass_of(b: Seq<u8>) -> Result<(Seq<u8>, Seq<u8>), Socks5Error> {
    if b.len() < 3 || b[0] != 1 {
        Err(Socks5Error::BadAuthPacket)
    } else if b.len() < 2 + b[1] + 1 {
        Err(Socks5Error::TruncatedAuth)
    } else if b.len() < 2 + b[1] + 1 + b[2 + b[1]] {
        Err(Socks5Error::TruncatedAuth)
    } else {
        let ulen = b[1] as int;
        let plen = b[2 + ulen] as int;
        Ok((b.subrange(2, 2 + ulen), b.subrange(3 + ulen, 3 + ulen + plen)))
    }
}

/// Parses a username/password packet (the bytes of one read).
pub fn parse_userpass(buf: &[u8]) -> (r: Result<(Vec<u8>, Vec<u8>), Socks5Error>)
    ensures
        match userpass_of(buf@) {
            Ok((u, p)) => r matches Ok((u2, p2)) && u2@ == u && p2@ == p,
            Err(e) => r == Err::<(Vec<u8>, Vec<u8>), Socks5Error>(e),
        },
{
    let n = buf.len();
    if n < 3 || buf[0] != 1 {
        return Err(Socks5Error::BadAuthPacket);
    }
    let ulen = buf[1] as usize;
    if n < 2 + ulen + 1 {
        return Err(Socks5Error::TruncatedAuth);
    }
    let plen = buf[2 + ulen] as usize;
    if n < 2 + ulen + 1 + plen {
        return Err(Socks5Error::TruncatedAuth);
    }
    let mut user: Vec<u8> = Vec::new();
    push_all(&mut user, &buf[2..2 + ulen]);
    let mut pass: Vec<u8> = Vec::new();
    push_all(&mut pass, &buf[2 + ulen + 1..2 + ulen + 1 + plen]);
    Ok((user, pass))
}

/// The username/password packet built from `user` and `pass` (each at most
/// 255 bytes: version 1, the username's length and bytes, the password's
/// length and bytes) is read back as that pair, whatever follows it in the
/// read; the packet cut anywhere after its first three bytes and before its
/// end is refused as truncated.
pub proof fn lemma_userpass_roundtrip(user: Seq<u8>, pass: Seq<u8>, rest: Seq<u8>, cut: int)
    requires
        user.len() <= 255,
        pass.len() <= 255,
    ensures
        userpass_of(seq![1u8, user.len() as u8] + user + seq![pass.len() as u8] + pass + rest) == Ok::<
            (Seq<u8>, Seq<u8>),
            Socks5Error,
        >((user, pass)),
        3 <= cut < 3 + user.len() + pass.len() ==> userpass_of(
            (seq![1u8, user.len() as u8] + user + seq![pass.len() as u8] + pass).subrange(0, cut),
        ) == Err::<(Seq<u8>, Seq<u8>), Socks5Error>(Socks5Error::TruncatedAuth),
{
    let ul = user.len() as int;
    let pl = pass.len() as int;
    assert((ul as u8) as int == ul);
    assert((pl as u8) as int == pl);
    let a = seq![1u8, ul as u8] + user + seq![pl as u8] + pass;
    let b = a + rest;
    assert(b[1] == ul as u8);
    assert(b[2 + ul] == pl as u8);
    assert(b.subrange(2, 2 + ul) =~= user);
    assert(b.subrange(3 + ul, 3 + ul + pl) =~= pass);
    if 3 <= cut < 3 + ul + pl {
        let t = a.subrange(0, cut);
        assert(t[0] == 1u8 && t[1] == ul as u8);
        if cut >= 3 + ul {
            assert(t[2 + ul] == pl as u8);
        }
    }
}

/// The username that a `user:password` setting expects: all of it where it
/// holds no colon.
pub open spec fn expected_user(setting: Seq<u8>) -> Seq<u8> {
    match split_once_at(setting, 58) {
        Some((u, _)) => u,
        None => setting,
    }
}

/// The password that a `user:password` setting expects: empty where it
/// holds no colon.
pub open spec fn expected_pass(setting: Seq<u8>) -> Seq<u8> {
    match split_once_at(setting, 58) {
        Some((_, p)) => p,
        None => Seq::empty(),
    }
}

fn bytes_equal(a: &[u8], b: &[u8]) -> (r: bool)
    ensures
        r == (a@ == b@),
{
    if a.len() != b.len() {
        return false;
    }
    let mut i: usize = 0;
    while i < a.len()
        invariant
            a@.len() == b@.len(),
            i <= a@.len(),
            forall|j: int| 0 <= j < i ==> a@[j] == b@[j],
        decreases a@.len() - i,
    {
        if a[i] != b[i] {
            return false;
        }
        i = i + 1;
    }
    assert(a@ =~= b@);
    true
}

/// Whether the username and password, read as UTF-8 with replacement
/// characters, are those of the `user:password` setting (split at its first
/// colon; without a colon the password is empty).
pub fn credentials_match(user: &[u8], pass: &[u8], setting: &str) -> (r: bool)
    ensures
        r == (lossy_text(user@) == expected_user(setting.spec_bytes()) && lossy_text(pass@) == expected_pass(
            setting.spec_bytes(),
        )),
{
    let expected = setting.as_bytes();
    let n = expected.len();
    let (exp_user, exp_pass): (&[u8], &[u8]) = match find_byte(expected, 58) {
        Some(i) => (&expected[0..i], &expected[i + 1..n]),
        None => (expected, &expected[0..0]),
    };
    assert(exp_user@ == expected_user(setting.spec_bytes()));
    assert(exp_pass@ =~= expected_pass(setting.spec_bytes()));
    let u = utf8_lossy_bytes(user);
    let p = utf8_lossy_bytes(pass);
    bytes_equal(u.as_slice(), exp_user) && bytes_equal(p.as_slice(), exp_pass)
}

/// The sub-negotiation status reply: version 1, then 0 for success or 1 for
/// failure.
pub fn auth_status_reply(ok: bool) -> (r: [u8; 2])
    ensures
        r@ == seq![1u8, if ok { 0u8 } else { 1u8 }],
{
    let r = if ok {
        [1u8, 0u8]
    } else {
        [1u8, 1u8]
    };
    assert(r@ =~= seq![1u8, if ok { 0u8 } else { 1u8 }]);
    r
}

/// The reply to a successful CONNECT: version 5, success, IPv4 address
/// 0.0.0.0 and port 0.
pub fn connect_success_reply() -> (r: [u8; 10])
    ensures
        r@ == seq![5u8, 0, 0, 1, 0, 0, 0, 0, 0, 0],
{
    let r = [5u8, 0, 0, 1, 0, 0, 0, 0, 0, 0];
    assert(r@ =~= seq![5u8, 0, 0, 1, 0, 0, 0, 0, 0, 0]);
    r
}

/// `a.b.c.d`, in decimal.
pub open spec fn ipv4_host_text(ip: Seq<u8>) -> Seq<u8> {
    decimal(ip[0] as nat) + seq![46u8] + decimal(ip[1] as nat) + seq![46u8] + decimal(ip[2] as nat) + seq![46u8]
        + decimal(ip[3] as nat)
}

/// `a.b.c.d:port`, in decimal.
pub open spec fn ipv4_target_text(ip: Seq<u8>, port: u16) -> Seq<u8> {
    ipv4_host_text(ip) + seq![58u8] + decimal(port as nat)
}

/// `host:port`, the host read as UTF-8 with replacement characters.
pub open spec fn domain_target_text(domain: Seq<u8>, port: u16) -> Seq<u8> {
    lossy_text(domain) + seq![58u8] + decimal(port as nat)
}

/// The target text of an IPv4 request is four runs of decimal digits
/// separated by dots, whose values are the four octets in order, then a
/// colon and a run of decimal digits whose value is the port.
pub proof fn lemma_ipv4_target_fields(ip: Seq<u8>, port: u16)
    requires
        ip.len() == 4,
    ensures
        exists|d0: Seq<u8>, d1: Seq<u8>, d2: Seq<u8>, d3: Seq<u8>, dp: Seq<u8>|
            d0.len() > 0 && d1.len() > 0 && d2.len() > 0 && d3.len() > 0 && dp.len() > 0 && all_digits(d0) && all_digits(
                d1,
            ) && all_digits(d2) && all_digits(d3) && all_digits(dp) && digits_value(d0) == ip[0] && digits_value(d1)
                == ip[1] && digits_value(d2) == ip[2] && digits_value(d3) == ip[3] && digits_value(dp) == port
                && #[trigger] ipv4_target_text(ip, port) == d0 + seq![46u8] + d1 + seq![46u8] + d2 + seq![46u8] + d3
                + seq![58u8] + dp,
{
    lemma_decimal_digits(ip[0] as nat);
    lemma_decimal_digits(ip[1] as nat);
    lemma_decimal_digits(ip[2] as nat);
    lemma_decimal_digits(ip[3] as nat);
    lemma_decimal_digits(port as nat);
    let d0 = decimal(ip[0] as nat);
    let d1 = decimal(ip[1] as nat);
    let d2 = decimal(ip[2] as nat);
    let d3 = decimal(ip[3] as nat);
    let dp = decimal(port as nat);
    assert(ipv4_target_text(ip, port) == d0 + seq![46u8] + d1 + seq![46u8] + d2 + seq![46u8] + d3 + seq![58u8] + dp);
}

/// The `a.b.c.d:port` target of an IPv4 request.
pub fn ipv4_target(ip: &[u8; 4], port: u16) -> (r: Vec<u8>)
    ensures
        r@ == ipv4_target_text(ip@, port),
{
    let mut out: Vec<u8> = Vec::new();
    push_decimal(&mut out, ip[0] as u32);
    out.push(46);
    push_decimal(&mut out, ip[1] as u32);
    out.push(46);
    push_decimal(&mut out, ip[2] as u32);
    out.push(46);
    push_decimal(&mut out, ip[3] as u32);
    out.push(58);
    push_decimal(&mut out, port as u32);
    assert(out@ =~= ipv4_target_text(ip@, port));
    out
}

/// The `host:port` target of a domain-name request.
pub fn domain_target(domain: &[u8], port: u16) -> (r: Vec<u8>)
    ensures
        r@ == domain_target_text(domain@, port),
{
    let mut out = utf8_lossy_bytes(domain);
    out.push(58);
    push_decimal(&mut out, port as u32);
    assert(out@ =~= domain_target_text(domain@, port));
    out
}

/// Big-endian value of two bytes.
pub open spec fn be16(hi: u8, lo: u8) -> u16 {
    (hi * 256 + lo) as u16
}

/// What a CONNECT request `b` (the bytes of one read) names: its
/// `host:port` target.
pub open spec fn connect_target_of(b: Seq<u8>) -> Result<Seq<u8>, Socks5Error> {
    if b.len() < 7 || b[1] != 1 {
        Err(Socks5Error::UnsupportedCommand)
    } else if b[3] == 1 {
        if b.len() < 10 {
            Err(Socks5Error::TruncatedIpv4)
        } else {
            Ok(ipv4_target_text(b.subrange(4, 8), be16(b[8], b[9])))
        }
    } else if b[3] == 3 {
        let dl = b[4] as int;
        if b.len() < 5 + dl + 2 {
            Err(Socks5Error::TruncatedDomain)
        } else {
            Ok(domain_target_text(b.subrange(5, 5 + dl), be16(b[5 + dl], b[6 + dl])))
        }
    } else {
        Err(Socks5Error::UnsupportedAddressType)
    }
}

/// Parses a CONNECT request (the bytes of one read) into its `host:port`
/// target.
pub fn parse_connect_request(buf: &[u8]) -> (r: Result<Vec<u8>, Socks5Error>)
    ensures
        match connect_target_of(buf@) {
            Ok(t) => r matches Ok(t2) && t2@ == t,
            Err(e) => r == Err::<Vec<u8>, Socks5Error>(e),
        },
{
    let n = buf.len();
    if n < 7 || buf[1] != 1 {
        return Err(Socks5Error::UnsupportedCommand);
    }
    if buf[3] == 1 {
        if n < 10 {
            return Err(Socks5Error::TruncatedIpv4);
        }
        let ip: [u8; 4] = [buf[4], buf[5], buf[6], buf[7]];
        assert(ip@ =~= buf@.subrange(4, 8));
        let port: u16 = (buf[8] as u16) * 256 + buf[9] as u16;
        Ok(ipv4_target(&ip, port))
    } else if buf[3] == 3 {
        let dl = buf[4] as usize;
        if n < 5 + dl + 2 {
            return Err(Socks5Error::TruncatedDomain);
        }
        let port: u16 = (buf[5 + dl] as u16) * 256 + buf[6 + dl] as u16;
        Ok(domain_target(&buf[5..5 + dl], port))
    } else {
        Err(Socks5Error::UnsupportedAddressType)
    }
}

/// The CONNECT request that names `a.b.c.d:port` (address type 1) or
/// `name:port` (address type 3), the port in network byte order, is read back
/// as that target, whatever follows it in the read; a request cut anywhere
/// inside its address or port is refused as truncated.
pub proof fn lemma_connect_request_roundtrip(ip: Seq<u8>, name: Seq<u8>, port: u16, rest: Seq<u8>, cut: int)
    requires
        ip.len() == 4,
        name.len() <= 255,
    ensures
        connect_target_of(seq![5u8, 1, 0, 1] + ip + seq![(port / 256) as u8, (port % 256) as u8] + rest) == Ok::<
            Seq<u8>,
            Socks5Error,
        >(ipv4_target_text(ip, port)),
        connect_target_of(seq![5u8, 1, 0, 3, name.len() as u8] + name + seq![(port / 256) as u8, (port % 256) as u8]
            + rest) == Ok::<Seq<u8>, Socks5Error>(domain_target_text(name, port)),
        7 <= cut < 10 ==> connect_target_of((seq![5u8, 1, 0, 1] + ip + seq![(port / 256) as u8, (port % 256) as u8]).subrange(
            0,
            cut,
        )) == Err::<Seq<u8>, Socks5Error>(Socks5Error::TruncatedIpv4),
        7 <= cut < 7 + name.len() ==> connect_target_of(
            (seq![5u8, 1, 0, 3, name.len() as u8] + name + seq![(port / 256) as u8, (port % 256) as u8]).subrange(0, cut),
        ) == Err::<Seq<u8>, Socks5Error>(Socks5Error::TruncatedDomain),
{
    let hi = (port / 256) as u8;
    let lo = (port % 256) as u8;
    assert(be16(hi, lo) == port);
    let a = seq![5u8, 1, 0, 1] + ip + seq![hi, lo];
    let b = a + rest;
    assert(b.subrange(4, 8) =~= ip);
    assert(b[8] == hi && b[9] == lo);
    let dl = name.len() as int;
    assert((dl as u8) as int == dl);
    let c = seq![5u8, 1, 0, 3, dl as u8] + name + seq![hi, lo];
    let d = c + rest;
    assert(d[4] == dl as u8);
    assert(d.subrange(5, 5 + dl) =~= name);
    assert(d[5 + dl] == hi && d[6 + dl] == lo);
    if 7 <= cut < 10 {
        let t = a.subrange(0, cut);
        assert(t[1] == 1u8 && t[3] == 1u8);
    }
    if 7 <= cut < 7 + dl {
        let t = c.subrange(0, cut);
        assert(t[1] == 1u8 && t[3] == 3u8 && t[4] == dl as u8);
    }
}

/// Checks the fixed part of a CONNECT request read as four bytes (version,
/// command, reserved, address type) and gives the address type.
pub fn check_request_header(req: &[u8; 4]) -> (r: Result<AddressType, Socks5Error>)
    ensures
        r == (if req@[0] != 5 || req@[1] != 1 {
            Err(Socks5Error::UnsupportedCommand)
        } else if req@[3] == 1 {
            Ok(AddressType::Ipv4)
        } else if req@[3] == 3 {
            Ok(AddressType::Domain)
        } else {
            Err(Socks5Error::UnsupportedAddressType)
        }),
{
    if req[0] != 5 || req[1] != 1 {
        Err(Socks5Error::UnsupportedCommand)
    } else if req[3] == 1 {
        Ok(AddressType::Ipv4)
    } else if req[3] == 3 {
        Ok(AddressType::Domain)
    } else {
        Err(Socks5Error::UnsupportedAddressType)
    }
}

} // verus!
