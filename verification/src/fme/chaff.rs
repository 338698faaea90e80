//! Chaff: dummy packets sent while the tunnel is idle, shaped like common
//! protocols.
use vstd::prelude::*;

use crate::fme::model::{ChaffConfig, ChaffContent, ChaffTypeWeight, Direction, MorphedPacket};
use rand::Rng;
use rand::RngCore;

verus! {

/// `rand::rng().random_range(0..bound)`: a uniformly random integer below
/// `bound` (the range must be non-empty, else the call panics).
#[verifier::external_body]
fn random_below(bound: u64) -> (r: u64)
    requires
        bound > 0,
    ensures
        r < bound,
{
    rand::rng().random_range(0..bound)
}

/// `RngCore::fill_bytes` on the thread-local generator, into `n` fresh
/// bytes. Only the length of the result is claimed.
#[verifier::external_body]
pub(crate) fn random_bytes(n: usize) -> (r: Vec<u8>)
    ensures
        r@.len() == n,
{
    let mut v = vec![0u8; n];
    rand::rng().fill_bytes(&mut v);
    v
}

/// Smallest chaff packet, in bytes.
pub const CHAFF_MIN_SIZE: usize = 64;
/// Largest chaff packet, in bytes.
pub const CHAFF_MAX_SIZE: usize = 1420;

/// Decides when to send chaff and builds chaff packets.
pub struct ChaffGenerator {
    config: ChaffConfig,
    last_chaff_us: u64,
    accumulator_us: u64,
}

/// Sum of the weights of `w`.
pub open spec fn total_weight(w: Seq<ChaffTypeWeight>) -> int
    decreases w.len(),
{
    if w.len() == 0 {
        0
    } else {
        total_weight(w.drop_last()) + w.last().weight_milli
    }
}

/// Running total of the weights up to and including entry `i`.
pub open spec fn cum_weight(w: Seq<ChaffTypeWeight>, i: int) -> int {
    total_weight(w.subrange(0, i + 1))
}

/// The weighted choice made by the draw `u`, scanning from entry `i`: the
/// first entry whose running total exceeds `u`, the last entry if none does.
pub open spec fn pick_from(w: Seq<ChaffTypeWeight>, u: int, i: int) -> int
    decreases w.len() - i,
{
    if i >= w.len() - 1 {
        w.len() - 1
    } else if u < cum_weight(w, i) {
        i
    } else {
        pick_from(w, u, i + 1)
    }
}

/// Index of the weighted choice that the draw `u` picks.
pub open spec fn weighted_index(w: Seq<ChaffTypeWeight>, u: int) -> int {
    pick_from(w, u, 0)
}

proof fn lemma_pick_from_range(w: Seq<ChaffTypeWeight>, u: int, i: int)
    requires
        0 <= i < w.len(),
    ensures
        i <= pick_from(w, u, i) < w.len(),
    decreases w.len() - i,
{
    if i < w.len() - 1 && u >= cum_weight(w, i) {
        lemma_pick_from_range(w, u, i + 1);
    }
}

/// A weighted pick from entry `i` on, where the draw lies at or past the
/// weights before `i` and below the total, lands on an entry of positive
/// weight.
proof fn lemma_pick_from_positive(w: Seq<ChaffTypeWeight>, u: int, i: int)
    requires
        0 <= i < w.len(),
        total_weight(w.subrange(0, i)) <= u < total_weight(w),
    ensures
        w[pick_from(w, u, i)].weight_milli > 0,
    decreases w.len() - i,
{
    assert(w.subrange(0, i + 1).drop_last() =~= w.subrange(0, i));
    assert(w.subrange(0, i + 1).last() == w[i]);
    if i >= w.len() - 1 {
        assert(w.subrange(0, i + 1) =~= w);
    } else if u < cum_weight(w, i) {
    } else {
        lemma_pick_from_positive(w, u, i + 1);
    }
}

proof fn lemma_pick_from_interval(w: Seq<ChaffTypeWeight>, u: int, i: int)
    requires
        0 <= i < w.len(),
        total_weight(w.subrange(0, i)) <= u < total_weight(w),
    ensures
        ({
            let j = pick_from(w, u, i);
            &&& i <= j < w.len()
            &&& total_weight(w.subrange(0, j)) <= u < total_weight(w.subrange(0, j + 1))
        }),
    decreases w.len() - i,
{
    if i >= w.len() - 1 {
        assert(w.subrange(0, i + 1) =~= w);
    } else if u < cum_weight(w, i) {
    } else {
        lemma_pick_from_interval(w, u, i + 1);
    }
}

/// A weighted draw below the total weight picks the entry whose share of the
/// weight line holds it: entry `i` is picked exactly for the draws from the
/// sum of the weights before it up to, not including, that sum plus its own
/// weight. So an entry is picked for as many draws as its weight.
pub proof fn lemma_weighted_draw_interval(w: Seq<ChaffTypeWeight>, u: int)
    requires
        w.len() > 0,
        0 <= u < total_weight(w),
    ensures
        0 <= weighted_index(w, u) < w.len(),
        total_weight(w.subrange(0, weighted_index(w, u))) <= u,
        u < total_weight(w.subrange(0, weighted_index(w, u))) + w[weighted_index(w, u)].weight_milli,
{
    assert(w.subrange(0, 0) =~= Seq::<ChaffTypeWeight>::empty());
    lemma_pick_from_interval(w, u, 0);
    let j = weighted_index(w, u);
    assert(w.subrange(0, j + 1).drop_last() =~= w.subrange(0, j));
}

/// The chaff kinds that a generator with configuration `cfg` may send: the
/// configured kind where no weights are given; else a weighted kind, of
/// positive weight where the weights are not all zero, the first where they
/// are.
pub open spec fn allowed_kind(cfg: ChaffConfig, c: ChaffContent) -> bool {
    if cfg.type_weights@.len() == 0 {
        c == cfg.content
    } else {
        exists|i: int|
            0 <= i < cfg.type_weights@.len() && c == #[trigger] cfg.type_weights@[i].content && (total_weight(
                cfg.type_weights@,
            ) > 0 ==> cfg.type_weights@[i].weight_milli > 0) && (total_weight(cfg.type_weights@) == 0 ==> i == 0)
    }
}

proof fn lemma_total_weight_monotone(w: Seq<ChaffTypeWeight>, a: int, b: int)
    requires
        0 <= a <= b <= w.len(),
    ensures
        total_weight(w.subrange(0, a)) <= total_weight(w.subrange(0, b)),
    decreases b - a,
{
    if a < b {
        lemma_total_weight_monotone(w, a, b - 1);
        assert(w.subrange(0, b).drop_last() =~= w.subrange(0, b - 1));
    }
}

/// Big-endian bytes of the low 16 bits.
pub open spec fn be16(x: int) -> Seq<u8> {
    seq![((x / 0x100) % 0x100) as u8, (x % 0x100) as u8]
}

/// The request-line prefixes that HTTP-like chaff starts with.
pub open spec fn http_header(pick: int) -> Seq<u8> {
    if pick == 0 {
        seq![71u8, 69, 84, 32, 47, 115, 116, 97, 116, 105, 99, 47]
    } else if pick == 1 {
        seq![80u8, 79, 83, 84, 32, 47, 97, 112, 105, 47, 118, 50, 47]
    } else if pick == 2 {
        seq![71u8, 69, 84, 32, 47, 97, 115, 115, 101, 116, 115, 47]
    } else if pick == 3 {
        seq![71u8, 69, 84, 32, 47, 102, 97, 118, 105, 99, 111, 110, 46, 105, 99, 111]
    } else {
        seq![71u8, 69, 84, 32, 47, 105, 109, 97, 103, 101, 115, 47]
    }
}

/// HTTP-like chaff: a request-line prefix over random bytes.
pub open spec fn http_like_bytes(noise: Seq<u8>, pick: int) -> Seq<u8> {
    let h = http_header(pick);
    let hl = if h.len() < noise.len() { h.len() as int } else { noise.len() as int };
    h.subrange(0, hl) + noise.subrange(hl, noise.len() as int)
}

/// HTTP-like chaff is as long as its noise and starts with as much of an
/// HTTP request line as fits: "GET /static/", "POST /api/v2/",
/// "GET /assets/", "GET /favicon.ico" for picks 0 to 3, "GET /images/"
/// otherwise; the rest is the noise.
pub proof fn lemma_http_like_layout(noise: Seq<u8>, pick: int)
    ensures
        ({
            let r = http_like_bytes(noise, pick);
            let line: Seq<u8> = if pick == 0 {
                "GET /static/"@.map_values(|c: char| c as u8)
            } else if pick == 1 {
                "POST /api/v2/"@.map_values(|c: char| c as u8)
            } else if pick == 2 {
                "GET /assets/"@.map_values(|c: char| c as u8)
            } else if pick == 3 {
                "GET /favicon.ico"@.map_values(|c: char| c as u8)
            } else {
                "GET /images/"@.map_values(|c: char| c as u8)
            };
            let k = if line.len() < noise.len() { line.len() as int } else { noise.len() as int };
            &&& r.len() == noise.len()
            &&& r.subrange(0, k) == line.subrange(0, k)
            &&& r.subrange(k, r.len() as int) == noise.subrange(k, noise.len() as int)
        }),
{
    reveal_strlit("GET /static/");
    reveal_strlit("POST /api/v2/");
    reveal_strlit("GET /assets/");
    reveal_strlit("GET /favicon.ico");
    reveal_strlit("GET /images/");
    let line: Seq<u8> = if pick == 0 {
        "GET /static/"@.map_values(|c: char| c as u8)
    } else if pick == 1 {
        "POST /api/v2/"@.map_values(|c: char| c as u8)
    } else if pick == 2 {
        "GET /assets/"@.map_values(|c: char| c as u8)
    } else if pick == 3 {
        "GET /favicon.ico"@.map_values(|c: char| c as u8)
    } else {
        "GET /images/"@.map_values(|c: char| c as u8)
    };
    assert(line =~= http_header(pick));
    let r = http_like_bytes(noise, pick);
    let k = if line.len() < noise.len() { line.len() as int } else { noise.len() as int };
    assert(r.subrange(0, k) =~= line.subrange(0, k));
    assert(r.subrange(k, r.len() as int) =~= noise.subrange(k, noise.len() as int));
}

/// The fixed part of a DNS-like query after the transaction id: flags, counts,
/// the name www.cdn.static.api, type A and class IN.
pub open spec fn dns_template() -> Seq<u8> {
    seq![1u8, 0, 0, 1, 0, 0, 0, 0, 0, 0,
         3, 119, 119, 119, 3, 99, 100, 110, 6, 115, 116, 97, 116, 105, 99, 3, 97, 112, 105, 0,
         0, 1, 0, 1]
}

/// DNS-like chaff of at least 36 bytes: transaction id, the template, then
/// random bytes.
pub open spec fn dns_like_bytes(noise: Seq<u8>, txid: int) -> Seq<u8> {
    be16(txid) + dns_template() + noise.subrange(36, noise.len() as int)
}

/// TLS-application-data-like chaff: record header, then random bytes.
pub open spec fn tls_record_bytes(noise: Seq<u8>) -> Seq<u8> {
    if noise.len() < 5 {
        noise
    } else {
        let pl = if noise.len() - 5 < 0x10000 { noise.len() - 5 } else { 0xffff };
        seq![0x17u8, 0x03, 0x03] + be16(pl) + noise.subrange(5, noise.len() as int)
    }
}

/// The frame type of HTTP/2-like chaff for each pick.
pub open spec fn http2_frame_type(pick: int) -> u8 {
    if pick == 0 {
        0x00
    } else if pick == 1 {
        0x01
    } else if pick == 2 {
        0x04
    } else {
        0x08
    }
}

/// HTTP/2-frame-like chaff: 24-bit length, type, END_HEADERS flag, stream id,
/// then random bytes.
pub open spec fn http2_frame_bytes(noise: Seq<u8>, pick: int, stream_id: int) -> Seq<u8> {
    if noise.len() < 9 {
        noise
    } else {
        let pl = if noise.len() - 9 < 0x100_0000 { noise.len() - 9 } else { 0xff_ffff };
        seq![((pl / 0x10000) % 0x100) as u8, ((pl / 0x100) % 0x100) as u8, (pl % 0x100) as u8,
             http2_frame_type(pick), 0x04u8,
             ((stream_id / 0x100_0000) % 0x100) as u8, ((stream_id / 0x10000) % 0x100) as u8,
             ((stream_id / 0x100) % 0x100) as u8, (stream_id % 0x100) as u8]
            + noise.subrange(9, noise.len() as int)
    }
}

/// The bytes of a chaff packet of the given kind, from its random inputs.
pub open spec fn chaff_bytes(content: ChaffContent, noise: Seq<u8>, pick: int, txid: int, stream_id: int) -> Seq<u8> {
    match content {
        ChaffContent::RandomBytes => noise,
        ChaffContent::RandomHighEntropy => noise,
        ChaffContent::HttpLikeHeaders => http_like_bytes(noise, pick),
        ChaffContent::DnsLikeQuery => if noise.len() < 16 {
            noise
        } else {
            dns_like_bytes(noise, txid)
        },
        ChaffContent::DummyTlsRecord => tls_record_bytes(noise),
        ChaffContent::Http2Frame => http2_frame_bytes(noise, pick, stream_id),
    }
}

/// The size of chaff drawn as `sampled`, clamped to 64..=1420 bytes.
pub open spec fn chaff_size(sampled: int) -> int {
    if sampled < CHAFF_MIN_SIZE {
        CHAFF_MIN_SIZE as int
    } else if sampled > CHAFF_MAX_SIZE {
        CHAFF_MAX_SIZE as int
    } else {
        sampled
    }
}

/// The size of chaff is the size between 64 and 1420 bytes nearest to the
/// sampled size: no size in that range is closer to it.
pub proof fn lemma_chaff_size_nearest(sampled: int, other: int)
    requires
        64 <= other <= 1420,
    ensures
        64 <= chaff_size(sampled) <= 1420,
        (if chaff_size(sampled) >= sampled { chaff_size(sampled) - sampled } else { sampled - chaff_size(sampled) })
            <= (if other >= sampled {
            other - sampled
        } else {
            sampled - other
        }),
{
}

fn copy_prefix(src: &[u8], n: usize, noise: &Vec<u8>) -> (r: Vec<u8>)
    requires
        n <= src@.len(),
        n <= noise@.len(),
    ensures
        r@ == src@.subrange(0, n as int) + noise@.subrange(n as int, noise@.len() as int),
{
    let mut v: Vec<u8> = Vec::new();
    let mut i: usize = 0;
    while i < n
        invariant
            i <= n,
            n <= src@.len(),
            v@ == src@.subrange(0, i as int),
        decreases n - i,
    {
        v.push(src[i]);
        i = i + 1;
        assert(src@.subrange(0, i as int) =~= src@.subrange(0, (i - 1) as int).push(src@[i - 1]));
    }
    let mut j: usize = n;
    while j < noise.len()
        invariant
            n <= j <= noise@.len(),
            v@ == src@.subrange(0, n as int) + noise@.subrange(n as int, j as int),
        decreases noise@.len() - j,
    {
        v.push(noise[j]);
        j = j + 1;
        assert(noise@.subrange(n as int, j as int) =~= noise@.subrange(n as int, (j - 1) as int).push(noise@[j - 1]));
    }
    v
}

fn http_header_bytes(pick: u64) -> (r: Vec<u8>)
    ensures
        r@ == http_header(pick as int),
{
    let v: Vec<u8> = if pick == 0 {
        vec![71u8, 69, 84, 32, 47, 115, 116, 97, 116, 105, 99, 47]
    } else if pick == 1 {
        vec![80u8, 79, 83, 84, 32, 47, 97, 112, 105, 47, 118, 50, 47]
    } else if pick == 2 {
        vec![71u8, 69, 84, 32, 47, 97, 115, 115, 101, 116, 115, 47]
    } else if pick == 3 {
        vec![71u8, 69, 84, 32, 47, 102, 97, 118, 105, 99, 111, 110, 46, 105, 99, 111]
    } else {
        vec![71u8, 69, 84, 32, 47, 105, 109, 97, 103, 101, 115, 47]
    };
    assert(v@ =~= http_header(pick as int));
    v
}

/// HTTP-like chaff built over `noise` with the `pick`-th request prefix.
pub fn fill_http_like(noise: Vec<u8>, pick: u64) -> (r: Vec<u8>)
    ensures
        r@ == http_like_bytes(noise@, pick as int),
{
    let h = http_header_bytes(pick);
    let hl = if h.len() < noise.len() { h.len() } else { noise.len() };
    copy_prefix(h.as_slice(), hl, &noise)
}

/// DNS-like chaff built over `noise` (at least 16 bytes) with transaction id
/// `txid`; the name fits whole from 36 bytes on.
pub fn fill_dns_like(noise: Vec<u8>, txid: u16) -> (r: Vec<u8>)
    requires
        noise@.len() >= 36,
    ensures
        r@ == dns_like_bytes(noise@, txid as int),
{
    let t: [u8; 36] = [
        (txid / 0x100) as u8, (txid % 0x100) as u8,
        1, 0, 0, 1, 0, 0, 0, 0, 0, 0,
        3, 119, 119, 119, 3, 99, 100, 110, 6, 115, 116, 97, 116, 105, 99, 3, 97, 112, 105, 0,
        0, 1, 0, 1,
    ];
    assert(t@ =~= be16(txid as int) + dns_template());
    let r = copy_prefix(&t, 36, &noise);
    assert(t@.subrange(0, 36) =~= t@);
    r
}

/// TLS-record-like chaff built over `noise`.
pub fn fill_tls_record(noise: Vec<u8>) -> (r: Vec<u8>)
    ensures
        r@ == tls_record_bytes(noise@),
{
    if noise.len() < 5 {
        return noise;
    }
    let pl: usize = if noise.len() - 5 < 0x10000 { noise.len() - 5 } else { 0xffff };
    let t: [u8; 5] = [0x17, 0x03, 0x03, ((pl / 0x100) % 0x100) as u8, (pl % 0x100) as u8];
    assert(t@ =~= seq![0x17u8, 0x03, 0x03] + be16(pl as int));
    let r = copy_prefix(&t, 5, &noise);
    assert(t@.subrange(0, 5) =~= t@);
    r
}

/// HTTP/2-frame-like chaff built over `noise` with the `pick`-th frame type
/// and the given stream id.
pub fn fill_http2_frame(noise: Vec<u8>, pick: u64, stream_id: u32) -> (r: Vec<u8>)
    ensures
        r@ == http2_frame_bytes(noise@, pick as int, stream_id as int),
{
    if noise.len() < 9 {
        return noise;
    }
    let pl: usize = if noise.len() - 9 < 0x100_0000 { noise.len() - 9 } else { 0xff_ffff };
    let ft: u8 = if pick == 0 { 0x00 } else if pick == 1 { 0x01 } else if pick == 2 { 0x04 } else { 0x08 };
    let t: [u8; 9] = [
        ((pl / 0x10000) % 0x100) as u8, ((pl / 0x100) % 0x100) as u8, (pl % 0x100) as u8,
        ft, 0x04,
        ((stream_id / 0x100_0000) % 0x100) as u8, ((stream_id / 0x10000) % 0x100) as u8,
        ((stream_id / 0x100) % 0x100) as u8, (stream_id % 0x100) as u8,
    ];
    let r = copy_prefix(&t, 9, &noise);
    assert(t@.subrange(0, 9) =~= t@);
    assert(r@ =~= http2_frame_bytes(noise@, pick as int, stream_id as int));
    r
}

/// The HTTP/2 frame header of HTTP/2-like chaff, stated over its numbers:
/// the chaff is as long as its noise; from 9 bytes of noise on, bytes 0..3
/// hold, big-endian, the number of bytes after the 9-byte header (capped at
/// 0xFFFFFF), byte 3 the frame type (DATA, HEADERS, SETTINGS, else
/// WINDOW_UPDATE for picks 0, 1, 2 and above), byte 4 the END_HEADERS flag,
/// bytes 5..9 the stream id, big-endian, and the rest is the noise; shorter
/// noise is sent unchanged.
pub proof fn lemma_http2_header(noise: Seq<u8>, pick: int, stream_id: u32)
    ensures
        ({
            let r = http2_frame_bytes(noise, pick, stream_id as int);
            let n = noise.len() as int;
            &&& r.len() == n
            &&& n < 9 ==> r == noise
            &&& n >= 9 ==> {
                &&& r[0] as int * 0x1_0000 + r[1] as int * 0x100 + r[2] as int == if n - 9 <= 0xff_ffff {
                    n - 9
                } else {
                    0xff_ffff
                }
                &&& r[3] == if pick == 0 {
                    0u8
                } else if pick == 1 {
                    1u8
                } else if pick == 2 {
                    4u8
                } else {
                    8u8
                }
                &&& r[4] == 4u8
                &&& r[5] as int * 0x100_0000 + r[6] as int * 0x1_0000 + r[7] as int * 0x100 + r[8] as int
                    == stream_id as int
                &&& r.subrange(9, n) == noise.subrange(9, n)
            }
        }),
{
    let n = noise.len() as int;
    if n >= 9 {
        let pl: int = if n - 9 < 0x100_0000 { n - 9 } else { 0xff_ffff };
        let x = pl as u32;
        assert(x == pl);
        assert(((x / 0x10000) % 0x100) * 0x1_0000 + ((x / 0x100) % 0x100) * 0x100 + x % 0x100 == x) by (bit_vector)
            requires
                x < 0x100_0000,
        ;
        let y = stream_id;
        assert(((y / 0x100_0000) % 0x100) * 0x100_0000 + ((y / 0x10000) % 0x100) * 0x1_0000 + ((y / 0x100) % 0x100)
            * 0x100 + y % 0x100 == y) by (bit_vector);
        let r = http2_frame_bytes(noise, pick, stream_id as int);
        assert(r.subrange(9, n) =~= noise.subrange(9, n));
    }
}

/// The TLS record header of TLS-like chaff, stated over its numbers: the
/// chaff is as long as its noise; from 5 bytes of noise on it starts with
/// the application-data type 0x17 and version 3.3, bytes 3..5 hold,
/// big-endian, the number of bytes after the 5-byte header (capped at
/// 0xFFFF), and the rest is the noise; shorter noise is sent unchanged.
pub proof fn lemma_tls_record_header(noise: Seq<u8>)
    ensures
        ({
            let r = tls_record_bytes(noise);
            let n = noise.len() as int;
            &&& r.len() == n
            &&& n < 5 ==> r == noise
            &&& n >= 5 ==> {
                &&& r[0] == 0x17u8 && r[1] == 3u8 && r[2] == 3u8
                &&& r[3] as int * 0x100 + r[4] as int == if n - 5 <= 0xffff {
                    n - 5
                } else {
                    0xffff
                }
                &&& r.subrange(5, n) == noise.subrange(5, n)
            }
        }),
{
    let n = noise.len() as int;
    if n >= 5 {
        let pl: int = if n - 5 < 0x10000 { n - 5 } else { 0xffff };
        let x = pl as u32;
        assert(x == pl);
        assert(((x / 0x100) % 0x100) * 0x100 + x % 0x100 == x) by (bit_vector)
            requires
                x < 0x1_0000,
        ;
        let r = tls_record_bytes(noise);
        assert(r.subrange(5, n) =~= noise.subrange(5, n));
    }
}

/// The DNS-like query, stated over its numbers: from 36 bytes of noise on it
/// is as long as its noise, bytes 0..2 hold the transaction id big-endian,
/// bytes 2..36 the fixed query (one question for www.cdn.static.api, type A,
/// class IN), and the rest is the noise.
pub proof fn lemma_dns_query_layout(noise: Seq<u8>, txid: u16)
    requires
        noise.len() >= 36,
    ensures
        ({
            let r = dns_like_bytes(noise, txid as int);
            &&& r.len() == noise.len()
            &&& r[0] as int * 0x100 + r[1] as int == txid as int
            &&& r.subrange(2, 36) == seq![1u8, 0, 0, 1, 0, 0, 0, 0, 0, 0,
                3, 119, 119, 119, 3, 99, 100, 110, 6, 115, 116, 97, 116, 105, 99, 3, 97, 112, 105, 0,
                0, 1, 0, 1]
            &&& r.subrange(36, noise.len() as int) == noise.subrange(36, noise.len() as int)
        }),
{
    let x = txid;
    assert(((x / 0x100) % 0x100) * 0x100 + x % 0x100 == x) by (bit_vector);
    let r = dns_like_bytes(noise, txid as int);
    assert(r.subrange(2, 36) =~= dns_template());
    assert(r.subrange(36, noise.len() as int) =~= noise.subrange(36, noise.len() as int));
}

/// The weights of chaff kinds for browser-like traffic.
pub fn browser_chaff_weights() -> (r: Vec<ChaffTypeWeight>)
    ensures
        r@ == seq![
            ChaffTypeWeight { content: ChaffContent::DummyTlsRecord, weight_milli: 500 },
            ChaffTypeWeight { content: ChaffContent::Http2Frame, weight_milli: 300 },
            ChaffTypeWeight { content: ChaffContent::RandomHighEntropy, weight_milli: 200 },
        ],
{
    let v = vec![
        ChaffTypeWeight { content: ChaffContent::DummyTlsRecord, weight_milli: 500 },
        ChaffTypeWeight { content: ChaffContent::Http2Frame, weight_milli: 300 },
        ChaffTypeWeight { content: ChaffContent::RandomHighEntropy, weight_milli: 200 },
    ];
    assert(v@ =~= seq![
        ChaffTypeWeight { content: ChaffContent::DummyTlsRecord, weight_milli: 500 },
        ChaffTypeWeight { content: ChaffContent::Http2Frame, weight_milli: 300 },
        ChaffTypeWeight { content: ChaffContent::RandomHighEntropy, weight_milli: 200 },
    ]);
    v
}

/// The weights of chaff kinds for chat traffic.
pub fn chat_chaff_weights() -> (r: Vec<ChaffTypeWeight>)
    ensures
        r@ == seq![
            ChaffTypeWeight { content: ChaffContent::DummyTlsRecord, weight_milli: 400 },
            ChaffTypeWeight { content: ChaffContent::RandomHighEntropy, weight_milli: 400 },
            ChaffTypeWeight { content: ChaffContent::Http2Frame, weight_milli: 200 },
        ],
{
    let v = vec![
        ChaffTypeWeight { content: ChaffContent::DummyTlsRecord, weight_milli: 400 },
        ChaffTypeWeight { content: ChaffContent::RandomHighEntropy, weight_milli: 400 },
        ChaffTypeWeight { content: ChaffContent::Http2Frame, weight_milli: 200 },
    ];
    assert(v@ =~= seq![
        ChaffTypeWeight { content: ChaffContent::DummyTlsRecord, weight_milli: 400 },
        ChaffTypeWeight { content: ChaffContent::RandomHighEntropy, weight_milli: 400 },
        ChaffTypeWeight { content: ChaffContent::Http2Frame, weight_milli: 200 },
    ]);
    v
}

/// The weights of chaff kinds for the paranoid profile.
pub fn paranoid_chaff_weights() -> (r: Vec<ChaffTypeWeight>)
    ensures
        r@ == seq![
            ChaffTypeWeight { content: ChaffContent::RandomHighEntropy, weight_milli: 400 },
            ChaffTypeWeight { content: ChaffContent::DummyTlsRecord, weight_milli: 300 },
            ChaffTypeWeight { content: ChaffContent::Http2Frame, weight_milli: 200 },
            ChaffTypeWeight { content: ChaffContent::DnsLikeQuery, weight_milli: 100 },
        ],
{
    let v = vec![
        ChaffTypeWeight { content: ChaffContent::RandomHighEntropy, weight_milli: 400 },
        ChaffTypeWeight { content: ChaffContent::DummyTlsRecord, weight_milli: 300 },
        ChaffTypeWeight { content: ChaffContent::Http2Frame, weight_milli: 200 },
        ChaffTypeWeight { content: ChaffContent::DnsLikeQuery, weight_milli: 100 },
    ];
    assert(v@ =~= seq![
        ChaffTypeWeight { content: ChaffContent::RandomHighEntropy, weight_milli: 400 },
        ChaffTypeWeight { content: ChaffContent::DummyTlsRecord, weight_milli: 300 },
        ChaffTypeWeight { content: ChaffContent::Http2Frame, weight_milli: 200 },
        ChaffTypeWeight { content: ChaffContent::DnsLikeQuery, weight_milli: 100 },
    ]);
    v
}

/// One chaff decision from `g0` to `g1` after `elapsed` idle microseconds,
/// with threshold `t`: the first threshold is half the minimum interval,
/// later ones lie in `[min, max)` (or equal `min` where the two meet).
pub open spec fn chaff_step(g0: ChaffGenerator, g1: ChaffGenerator, elapsed: u64, t: u64, r: bool) -> bool {
    let acc = g0.accumulator_us() + elapsed;
    &&& (g0.last_chaff_us() == 0 ==> t == g0.config().min_interval_us / 2)
    &&& (g0.last_chaff_us() != 0 ==> g0.config().min_interval_us <= t && (t < g0.config().max_interval_us
        || t == g0.config().min_interval_us))
    &&& r == (acc >= t)
    &&& r ==> g1.accumulator_us() == 0 && g1.last_chaff_us() == t
    &&& !r ==> g1.accumulator_us() == acc && g1.last_chaff_us() == g0.last_chaff_us()
}

impl ChaffGenerator {
    /// The configuration.
    pub closed spec fn config(&self) -> ChaffConfig {
        self.config
    }

    /// The threshold that the last chaff was sent at; 0 before any.
    pub closed spec fn last_chaff_us(&self) -> u64 {
        self.last_chaff_us
    }

    /// Idle time accumulated since the last chaff.
    pub closed spec fn accumulator_us(&self) -> u64 {
        self.accumulator_us
    }

    /// A generator that has sent no chaff yet.
    pub fn new(config: ChaffConfig) -> (r: ChaffGenerator)
        ensures
            r.config() == config,
            r.last_chaff_us() == 0,
            r.accumulator_us() == 0,
    {
        ChaffGenerator { config, last_chaff_us: 0, accumulator_us: 0 }
    }

    /// Adds `elapsed_us` of idle time and tells whether chaff is due. The
    /// first threshold is half the minimum interval; later ones are the
    /// minimum interval plus `random_offset`. When chaff is due the
    /// accumulator restarts and the threshold is remembered.
    pub fn should_generate_at(&mut self, elapsed_since_last_data_us: u64, random_offset: u64) -> (r: bool)
        requires
            old(self).config().enabled ==> old(self).accumulator_us() + elapsed_since_last_data_us <= u64::MAX,
            old(self).config().enabled && old(self).last_chaff_us() != 0
                ==> old(self).config().min_interval_us + random_offset <= u64::MAX,
        ensures
            final(self).config() == old(self).config(),
            !old(self).config().enabled ==> !r && final(self).accumulator_us() == old(self).accumulator_us()
                && final(self).last_chaff_us() == old(self).last_chaff_us(),
            old(self).config().enabled ==> {
                let acc = old(self).accumulator_us() + elapsed_since_last_data_us;
                let t: int = if old(self).last_chaff_us() == 0 {
                    (old(self).config().min_interval_us / 2) as int
                } else {
                    old(self).config().min_interval_us + random_offset
                };
                &&& r == (acc >= t)
                &&& r ==> final(self).accumulator_us() == 0 && final(self).last_chaff_us() == t
                &&& !r ==> final(self).accumulator_us() == acc && final(self).last_chaff_us() == old(self).last_chaff_us()
            },
    {
        if !self.config.enabled {
            return false;
        }
        self.accumulator_us = self.accumulator_us + elapsed_since_last_data_us;
        let threshold = if self.last_chaff_us == 0 {
            self.config.min_interval_us / 2
        } else {
            self.config.min_interval_us + random_offset
        };
        if self.accumulator_us >= threshold {
            self.accumulator_us = 0;
            self.last_chaff_us = threshold;
            true
        } else {
            false
        }
    }

    /// Adds idle time and tells whether chaff is due (see
    /// `should_generate_at`); the offset above the minimum interval is drawn
    /// uniformly below `max_interval_us - min_interval_us`.
    pub fn should_generate(&mut self, elapsed_since_last_data_us: u64) -> (r: bool)
        requires
            old(self).config().enabled ==> old(self).accumulator_us() + elapsed_since_last_data_us <= u64::MAX,
            old(self).config().enabled && old(self).last_chaff_us() != 0
                ==> old(self).config().min_interval_us <= old(self).config().max_interval_us,
        ensures
            final(self).config() == old(self).config(),
            !old(self).config().enabled ==> !r && final(self).accumulator_us() == old(self).accumulator_us()
                && final(self).last_chaff_us() == old(self).last_chaff_us(),
            old(self).config().enabled ==> exists|t: u64|
                #[trigger] chaff_step(*old(self), *final(self), elapsed_since_last_data_us, t, r),
    {
        let mut offset: u64 = 0;
        if self.config.enabled && self.last_chaff_us != 0 {
            let range = self.config.max_interval_us - self.config.min_interval_us;
            if range > 0 {
                offset = random_below(range);
            }
        }
        let ghost old_self = *self;
        let r = self.should_generate_at(elapsed_since_last_data_us, offset);
        proof {
            if old_self.config.enabled {
                let t: u64 = if old_self.last_chaff_us == 0 {
                    old_self.config.min_interval_us / 2
                } else {
                    (old_self.config.min_interval_us + offset) as u64
                };
                assert(chaff_step(old_self, *self, elapsed_since_last_data_us, t, r));
            }
        }
        r
    }

    /// The chaff kind for the weighted draw `u` (below the total weight):
    /// the configured kind where no weights are given, the first kind where
    /// all weights are zero.
    pub fn select_content_at(&self, u: u64) -> (r: ChaffContent)
        requires
            self.config().type_weights@.len() > 0 ==> (u < total_weight(self.config().type_weights@)
                || total_weight(self.config().type_weights@) == 0),
        ensures
            self.config().type_weights@.len() == 0 ==> r == self.config().content,
            self.config().type_weights@.len() > 0 && total_weight(self.config().type_weights@) == 0 ==> r
                == self.config().type_weights@[0].content,
            self.config().type_weights@.len() > 0 && total_weight(self.config().type_weights@) > 0 ==> r
                == self.config().type_weights@[weighted_index(self.config().type_weights@, u as int)].content,
    {
        let w = &self.config.type_weights;
        if w.len() == 0 {
            return self.config.content;
        }
        let total = weights_total(w);
        if total == 0 {
            return w[0].content;
        }
        let mut acc: u128 = 0;
        let mut i: usize = 0;
        while i < w.len()
            invariant
                w@ == self.config().type_weights@,
                w@.len() > 0,
                i < w@.len(),
                acc == total_weight(w@.subrange(0, i as int)),
                total_weight(w@) < 0x1_0000_0000_0000_0000_0000_0000_0000_0000,
                total_weight(w@) > 0,
                u < total_weight(w@),
                weighted_index(w@, u as int) == pick_from(w@, u as int, i as int),
            decreases w@.len() - i,
        {
            proof {
                assert(w@.subrange(0, i + 1).drop_last() =~= w@.subrange(0, i as int));
                lemma_total_weight_monotone(w@, i + 1, w@.len() as int);
                assert(w@.subrange(0, w@.len() as int) =~= w@);
            }
            acc = acc + w[i].weight_milli as u128;
            if (u as u128) < acc || i + 1 == w.len() {
                return w[i].content;
            }
            i = i + 1;
        }
        w[w.len() - 1].content
    }

    /// A weighted random chaff kind (see `select_content_at`): the draw is
    /// uniform below the total weight (below 2^64 - 1 where the total is
    /// larger).
    pub fn select_content(&self) -> (r: ChaffContent)
        ensures
            allowed_kind(self.config(), r),
    {
        let w = &self.config.type_weights;
        if w.len() == 0 {
            return self.config.content;
        }
        let total = weights_total(w);
        let u: u64 = if total == 0 {
            0
        } else if total > u64::MAX as u128 {
            random_below(u64::MAX)
        } else {
            random_below(total as u64)
        };
        let r = self.select_content_at(u);
        proof {
            if total_weight(w@) > 0 {
                lemma_pick_from_range(w@, u as int, 0);
                assert(w@.subrange(0, 0) =~= Seq::<ChaffTypeWeight>::empty());
                lemma_pick_from_positive(w@, u as int, 0);
                let i = weighted_index(w@, u as int);
                assert(r == w@[i].content);
            } else {
                assert(r == w@[0].content);
            }
        }
        r
    }

    /// A chaff packet whose size is `sampled_size` clamped to 64..=1420
    /// bytes, of a kind that `select_content` picks (the configured kind
    /// where no weights are given), filled with random bytes shaped like that
    /// kind.
    pub fn generate(&self, sampled_size: usize) -> (r: MorphedPacket)
        ensures
            r.data@.len() == chaff_size(sampled_size as int),
            r.real_data_len == 0,
            r.direction == Direction::Upstream,
            r.send_after_us == 0,
            r.is_chaff,
            exists|c: ChaffContent, pick: int, txid: int, sid: int, noise: Seq<u8>|
                allowed_kind(self.config(), c) && noise.len() == chaff_size(sampled_size as int) && r.data@
                    == #[trigger] chaff_bytes(c, noise, pick, txid, sid),
    {
        let size: usize = if sampled_size < CHAFF_MIN_SIZE {
            CHAFF_MIN_SIZE
        } else if sampled_size > CHAFF_MAX_SIZE {
            CHAFF_MAX_SIZE
        } else {
            sampled_size
        };
        let content = self.select_content();
        let noise = random_bytes(size);
        let ghost n = noise@;
        let ghost mut gp: int = 0;
        let ghost mut gt: int = 0;
        let ghost mut gs: int = 0;
        let data = match content {
            ChaffContent::RandomBytes => noise,
            ChaffContent::RandomHighEntropy => noise,
            ChaffContent::HttpLikeHeaders => {
                let pick = random_below(5);
                let d = fill_http_like(noise, pick);
                proof {
                    gp = pick as int;
                }
                d
            },
            ChaffContent::DnsLikeQuery => {
                let txid = random_below(0x10000) as u16;
                let d = fill_dns_like(noise, txid);
                proof {
                    gt = txid as int;
                }
                d
            },
            ChaffContent::DummyTlsRecord => {
                fill_tls_record(noise)
            },
            ChaffContent::Http2Frame => {
                let pick = random_below(4);
                let sid = (random_below(255) + 1) as u32;
                let d = fill_http2_frame(noise, pick, sid);
                proof {
                    gp = pick as int;
                    gs = sid as int;
                }
                d
            },
        };
        assert(data@ == chaff_bytes(content, n, gp, gt, gs));
        MorphedPacket { data, real_data_len: 0, direction: Direction::Upstream, send_after_us: 0, is_chaff: true }
    }

    /// Forgets the accumulated idle time and the last threshold.
    pub fn reset(&mut self)
        ensures
            final(self).config() == old(self).config(),
            final(self).accumulator_us() == 0,
            final(self).last_chaff_us() == 0,
    {
        self.accumulator_us = 0;
        self.last_chaff_us = 0;
    }
}

/// Sum of the weights, as a 128-bit integer.
fn weights_total(w: &Vec<ChaffTypeWeight>) -> (r: u128)
    ensures
        r == total_weight(w@),
        total_weight(w@) < 0x1_0000_0000_0000_0000_0000_0000_0000_0000,
{
    let mut acc: u128 = 0;
    let mut i: usize = 0;
    while i < w.len()
        invariant
            i <= w@.len(),
            acc == total_weight(w@.subrange(0, i as int)),
            acc <= i * 0xffff_ffff_ffff_ffff,
        decreases w@.len() - i,
    {
        assert(w@.subrange(0, i + 1).drop_last() =~= w@.subrange(0, i as int));
        acc = acc + w[i].weight_milli as u128;
        i = i + 1;
    }
    assert(w@.subrange(0, w@.len() as int) =~= w@);
    acc
}

} // verus!
