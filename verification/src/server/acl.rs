//! Upstream access control: the server refuses to connect to loopback,
//! private, link-local and unspecified addresses.
use vstd::prelude::*;

verus! {

/// An IP address: four octets, or eight 16-bit segments.
#[derive(Debug, Clone, Copy, PartialEq, Eq)]
pub enum IpAddress {
    V4([u8; 4]),
    V6([u16; 8]),
}

/// The IPv4 octets are loopback, RFC 1918 private, link-local or in 0.0.0.0/8.
pub open spec fn is_private_v4(o: Seq<u8>) -> bool {
    ||| o[0] == 127
    ||| o[0] == 10
    ||| (o[0] == 172 && 16 <= o[1] <= 31)
    ||| (o[0] == 192 && o[1] == 168)
    ||| (o[0] == 169 && o[1] == 254)
    ||| o[0] == 0
}

/// The IPv6 segments are `::ffff:a.b.c.d`.
pub open spec fn is_v4_mapped(s: Seq<u16>) -> bool {
    s[0] == 0 && s[1] == 0 && s[2] == 0 && s[3] == 0 && s[4] == 0 && s[5] == 0xffff
}

/// The IPv4 octets embedded in an IPv4-mapped IPv6 address.
pub open spec fn mapped_v4_octets(s: Seq<u16>) -> Seq<u8> {
    seq![(s[6] / 0x100) as u8, (s[6] % 0x100) as u8, (s[7] / 0x100) as u8, (s[7] % 0x100) as u8]
}

/// The address is one the server must not connect to: private IPv4 (also
/// when IPv4-mapped), IPv6 loopback, unique-local (fc00::/7) or link-local
/// (fe80::/10).
pub open spec fn is_private_address(a: IpAddress) -> bool {
    match a {
        IpAddress::V4(o) => is_private_v4(o@),
        IpAddress::V6(s) => if is_v4_mapped(s@) {
            is_private_v4(mapped_v4_octets(s@))
        } else {
            ||| (s@[0] == 0 && s@[1] == 0 && s@[2] == 0 && s@[3] == 0 && s@[4] == 0 && s@[5] == 0 && s@[6] == 0
                && s@[7] == 1)
            ||| (s@[0] / 0x200) == (0xfc00u16 / 0x200)
            ||| (s@[0] / 0x40) == (0xfe80u16 / 0x40)
        },
    }
}

fn is_private_v4_octets(o: &[u8; 4]) -> (r: bool)
    ensures
        r == is_private_v4(o@),
{
    o[0] == 127 || o[0] == 10 || (o[0] == 172 && 16 <= o[1] && o[1] <= 31) || (o[0] == 192 && o[1] == 168)
        || (o[0] == 169 && o[1] == 254) || o[0] == 0
}

/// Whether `addr` is private (see `is_private_address`).
pub fn is_private_ip(addr: &IpAddress) -> (r: bool)
    ensures
        r == is_private_address(*addr),
{
    match addr {
        IpAddress::V4(o) => is_private_v4_octets(o),
        IpAddress::V6(s) => {
            if s[0] == 0 && s[1] == 0 && s[2] == 0 && s[3] == 0 && s[4] == 0 && s[5] == 0xffff {
                let v4: [u8; 4] = [(s[6] / 0x100) as u8, (s[6] % 0x100) as u8, (s[7] / 0x100) as u8, (s[7] % 0x100) as u8];
                assert(v4@ =~= mapped_v4_octets(s@));
                return is_private_v4_octets(&v4);
            }
            let loopback = s[0] == 0 && s[1] == 0 && s[2] == 0 && s[3] == 0 && s[4] == 0 && s[5] == 0 && s[6] == 0
                && s[7] == 1;
            let first = s[0];
            assert((first & 0xfe00u16) == 0xfc00u16 <==> first / 0x200 == 0xfc00u16 / 0x200) by (bit_vector);
            let unique_local = (first & 0xfe00) == 0xfc00;
            assert((first & 0xffc0u16) == 0xfe80u16 <==> first / 0x40 == 0xfe80u16 / 0x40) by (bit_vector);
            let link_local = (first & 0xffc0) == 0xfe80;
            loopback || unique_local || link_local
        },
    }
}

/// The IPv4 address with octets `a.b.c.d` as a 32-bit number.
pub open spec fn v4_number(a: int, b: int, c: int, d: int) -> int {
    a * 0x100_0000 + b * 0x1_0000 + c * 0x100 + d
}

/// The number `x` of an IPv4 address lies in one of the refused blocks:
/// 0.0.0.0/8, 10.0.0.0/8, 127.0.0.0/8, 169.254.0.0/16, 172.16.0.0/12 or
/// 192.168.0.0/16.
pub open spec fn in_refused_v4_block(x: int) -> bool {
    ||| 0 <= x < 0x0100_0000
    ||| 0x0a00_0000 <= x < 0x0b00_0000
    ||| 0x7f00_0000 <= x < 0x8000_0000
    ||| 0xa9fe_0000 <= x < 0xa9ff_0000
    ||| 0xac10_0000 <= x < 0xac20_0000
    ||| 0xc0a8_0000 <= x < 0xc0a9_0000
}

/// The refused addresses, stated as address blocks: an IPv4 address is
/// private exactly when its number lies in one of the blocks of
/// `in_refused_v4_block` (so every address of 10.0.0.0/8 is, whatever its
/// other octets); an IPv4-mapped IPv6 address `::ffff:a.b.c.d` exactly when
/// the number in its last 32 bits does; another IPv6 address exactly when it
/// is `::1`, its first segment lies in fc00::/7 (0xfc00 to 0xfdff) or in
/// fe80::/10 (0xfe80 to 0xfebf).
pub proof fn lemma_refused_blocks(o: [u8; 4], s: [u16; 8])
    ensures
        is_private_address(IpAddress::V4(o)) <==> in_refused_v4_block(
            v4_number(o[0] as int, o[1] as int, o[2] as int, o[3] as int),
        ),
        o[0] == 10 ==> is_private_address(IpAddress::V4(o)),
        is_v4_mapped(s@) ==> (is_private_address(IpAddress::V6(s)) <==> in_refused_v4_block(
            s[6] as int * 0x1_0000 + s[7] as int,
        )),
        !is_v4_mapped(s@) ==> (is_private_address(IpAddress::V6(s)) <==> (s@ == seq![0u16, 0, 0, 0, 0, 0, 0, 1]
            || 0xfc00 <= s[0] < 0xfe00 || 0xfe80 <= s[0] < 0xfec0)),
{
    let x = v4_number(o[0] as int, o[1] as int, o[2] as int, o[3] as int);
    assert(0 <= o[1] as int * 0x1_0000 + o[2] as int * 0x100 + (o[3] as int) < 0x100_0000);
    assert(0 <= o[2] as int * 0x100 + (o[3] as int) < 0x1_0000);
    let hi = s[6] as int;
    let lo = s[7] as int;
    let m = mapped_v4_octets(s@);
    assert(hi == (hi / 0x100) * 0x100 + hi % 0x100);
    assert(lo == (lo / 0x100) * 0x100 + lo % 0x100);
    assert(hi * 0x1_0000 + lo == v4_number(m[0] as int, m[1] as int, m[2] as int, m[3] as int));
    assert(0 <= m[1] as int * 0x1_0000 + m[2] as int * 0x100 + (m[3] as int) < 0x100_0000);
    assert(0 <= m[2] as int * 0x100 + (m[3] as int) < 0x1_0000);
    if s@ == seq![0u16, 0, 0, 0, 0, 0, 0, 1] {
        assert(s@[7] == 1);
    }
    if s@[0] == 0 && s@[1] == 0 && s@[2] == 0 && s@[3] == 0 && s@[4] == 0 && s@[5] == 0 && s@[6] == 0 && s@[7] == 1 {
        assert(s@ =~= seq![0u16, 0, 0, 0, 0, 0, 0, 1]);
    }
}

/// Whether the server may open an upstream connection to a host on `port`.
/// `addr` is the host parsed as an IP address, `None` for a host name; names
/// are allowed, port 0 never is, and private addresses are refused.
pub fn is_upstream_allowed(addr: Option<IpAddress>, port: u16) -> (r: bool)
    ensures
        r == (port != 0 && match addr {
            None => true,
            Some(a) => !is_private_address(a),
        }),
{
    if port == 0 {
        return false;
    }
    match addr {
        None => true,
        Some(a) => !is_private_ip(&a),
    }
}

} // verus!
