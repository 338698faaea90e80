//! Packet shaping: cutting queued data into packets of sampled sizes, padding
//! the last one, and merging packets when the overhead exceeds its budget.
//!
//! Sizes and delays are sampled by the caller (from the model's
//! distributions); the segmenter does the rest and keeps the data intact:
//! the real parts of the packets, in order, are exactly the queued bytes.
use vstd::prelude::*;
use std::collections::VecDeque;

use crate::fme::chaff::{chaff_size, random_bytes, ChaffGenerator};
use crate::fme::model::{same_chaff_config, Direction, MorphedPacket, SiteModel};

verus! {

/// Link MTU that packets imitate.
pub const MTU: usize = 1460;
/// Room taken by IP and TCP headers.
pub const HDR_SIZE: usize = 40;
/// Largest shaped payload: MTU minus headers.
pub const MAX_PAYLOAD: usize = 1420;
/// Smallest shaped payload.
pub const MIN_PAYLOAD: usize = 64;

/// Byte and packet counters of a morpher.
#[derive(Debug, Clone, Copy, PartialEq, Eq, Structural)]
pub struct MorphStats {
    pub bytes_in: u64,
    pub bytes_out: u64,
    pub packets_out: u64,
    pub cover_packets: u64,
    pub chaff_packets: u64,
}

/// The overhead `(out - in) / in` exceeds `budget_milli / 1000`; no input
/// means no overhead.
pub open spec fn over_budget(s: MorphStats, budget_milli: u64) -> bool {
    s.bytes_in > 0 && (s.bytes_out - s.bytes_in) * 1000 > budget_milli * s.bytes_in
}

impl MorphStats {
    /// All counters at zero.
    pub open spec fn spec_zero() -> MorphStats {
        MorphStats { bytes_in: 0, bytes_out: 0, packets_out: 0, cover_packets: 0, chaff_packets: 0 }
    }

    /// All counters at zero.
    pub fn new() -> (r: MorphStats)
        ensures
            r == (MorphStats { bytes_in: 0, bytes_out: 0, packets_out: 0, cover_packets: 0, chaff_packets: 0 }),
    {
        MorphStats { bytes_in: 0, bytes_out: 0, packets_out: 0, cover_packets: 0, chaff_packets: 0 }
    }

    /// Whether the overhead exceeds `budget_milli` thousandths (see `over_budget`).
    pub fn exceeds_budget(&self, budget_milli: u64) -> (r: bool)
        ensures
            r == over_budget(*self, budget_milli),
    {
        if self.bytes_in == 0 || self.bytes_out <= self.bytes_in {
            return false;
        }
        let extra = (self.bytes_out - self.bytes_in) as u128;
        let b = budget_milli as u128;
        let i = self.bytes_in as u128;
        proof {
            vstd::arithmetic::mul::lemma_mul_upper_bound(b as int, 0xffff_ffff_ffff_ffff, i as int, 0xffff_ffff_ffff_ffff);
        }
        extra * 1000 > b * i
    }
}

/// The real data of a packet.
pub open spec fn real_part(p: MorphedPacket) -> Seq<u8> {
    p.data@.subrange(0, p.real_data_len as int)
}

/// The real data of packets, in order.
pub open spec fn real_concat(ps: Seq<MorphedPacket>) -> Seq<u8>
    decreases ps.len(),
{
    if ps.len() == 0 {
        Seq::empty()
    } else {
        real_concat(ps.drop_last()) + real_part(ps.last())
    }
}

/// Queued chunks, concatenated.
pub open spec fn concat_chunks(qs: Seq<Vec<u8>>) -> Seq<u8>
    decreases qs.len(),
{
    if qs.len() == 0 {
        Seq::empty()
    } else {
        concat_chunks(qs.drop_last()) + qs.last()@
    }
}

/// A shaped packet is between 64 and 1420 bytes and its real part fits in it.
pub open spec fn well_shaped(p: MorphedPacket) -> bool {
    &&& MIN_PAYLOAD <= p.data@.len() <= MAX_PAYLOAD
    &&& p.real_data_len <= p.data@.len()
    &&& !p.is_chaff
}

/// Every packet but the last is all real data.
pub open spec fn full_but_last(ps: Seq<MorphedPacket>) -> bool {
    forall|i: int| 0 <= i < ps.len() - 1 ==> (#[trigger] ps[i]).real_data_len == ps[i].data@.len()
}

/// Every packet goes in direction `d`.
pub open spec fn all_in_direction(ps: Seq<MorphedPacket>, d: Direction) -> bool {
    forall|i: int| 0 <= i < ps.len() ==> (#[trigger] ps[i]).direction == d
}

/// What the segmenter produces for a target size: the size clamped to
/// 64..=1420.
pub open spec fn clamp_size(target: int) -> int {
    if target < MIN_PAYLOAD {
        MIN_PAYLOAD as int
    } else if target > MAX_PAYLOAD {
        MAX_PAYLOAD as int
    } else {
        target
    }
}

/// A shaped packet's size is the size between 64 and 1420 bytes nearest to
/// the sampled target: no size in that range is closer to the target.
pub proof fn lemma_clamp_nearest(target: int, other: int)
    requires
        64 <= other <= 1420,
    ensures
        64 <= clamp_size(target) <= 1420,
        (if clamp_size(target) >= target { clamp_size(target) - target } else { target - clamp_size(target) }) <= (
        if other >= target {
            other - target
        } else {
            target - other
        }),
{
}

/// The overhead budget, stated without subtraction: the traffic is over a
/// budget of `budget_milli` thousandths exactly when some data went in and
/// 1000 times the bytes sent exceeds `1000 + budget_milli` times the bytes
/// taken in; sending no more than was taken in is never over budget.
pub proof fn lemma_over_budget_ratio(s: MorphStats, budget_milli: u64)
    ensures
        over_budget(s, budget_milli) <==> (s.bytes_in > 0 && s.bytes_out as int * 1000 > s.bytes_in as int * (1000
            + budget_milli as int)),
        s.bytes_out <= s.bytes_in ==> !over_budget(s, budget_milli),
{
    assert(s.bytes_in as int * (1000 + budget_milli as int) == s.bytes_in as int * 1000 + budget_milli as int
        * s.bytes_in as int) by (nonlinear_arith);
    assert((s.bytes_out - s.bytes_in) * 1000 == s.bytes_out as int * 1000 - s.bytes_in as int * 1000) by (
    nonlinear_arith);
    if s.bytes_out <= s.bytes_in {
        assert(budget_milli as int * s.bytes_in as int >= 0) by (nonlinear_arith);
    }
}

/// Cuts queued data of one direction into shaped packets, one sampled size
/// at a time.
pub struct Segmenter {
    direction: Direction,
    buf: Vec<u8>,
    offset: usize,
    packets: Vec<MorphedPacket>,
}

impl Segmenter {
    /// The queued bytes.
    pub closed spec fn input(&self) -> Seq<u8> {
        self.buf@
    }

    /// How many queued bytes are in packets already.
    pub closed spec fn consumed(&self) -> nat {
        self.offset as nat
    }

    /// The packets made so far.
    pub closed spec fn output(&self) -> Seq<MorphedPacket> {
        self.packets@
    }

    /// The direction of the packets.
    pub closed spec fn dir(&self) -> Direction {
        self.direction
    }

    /// The segmenter's invariant: the real parts of the packets are the
    /// consumed prefix of the input, every packet is well shaped and of the
    /// segmenter's direction, and only a last packet can be partly padding,
    /// once the input is used up.
    pub closed spec fn wf(&self) -> bool {
        &&& self.offset <= self.buf@.len()
        &&& real_concat(self.packets@) == self.buf@.subrange(0, self.offset as int)
        &&& forall|i: int| 0 <= i < self.packets@.len() ==> #[trigger] well_shaped(self.packets@[i])
        &&& forall|i: int| 0 <= i < self.packets@.len() ==> (#[trigger] self.packets@[i]).direction == self.direction
        &&& forall|i: int| 0 <= i < self.packets@.len() ==> (#[trigger] self.packets@[i]).real_data_len >= 1
        &&& full_but_last(self.packets@)
        &&& (self.packets@.len() > 0 && self.packets@.last().real_data_len < self.packets@.last().data@.len()
            ==> self.offset == self.buf@.len())
        &&& self.packets@.len() <= self.offset
    }

    /// Whether all queued bytes are in packets.
    pub fn is_done(&self) -> (r: bool)
        requires
            self.wf(),
        ensures
            r == (self.consumed() == self.input().len()),
    {
        self.offset >= self.buf.len()
    }
}

proof fn lemma_concat_chunks_push(qs: Seq<Vec<u8>>, i: int)
    requires
        0 <= i < qs.len(),
    ensures
        concat_chunks(qs.subrange(0, i + 1)) == concat_chunks(qs.subrange(0, i)) + qs[i]@,
{
    assert(qs.subrange(0, i + 1).drop_last() =~= qs.subrange(0, i));
}

proof fn lemma_real_concat_push(ps: Seq<MorphedPacket>, p: MorphedPacket)
    ensures
        real_concat(ps.push(p)) == real_concat(ps) + real_part(p),
{
    assert(ps.push(p).drop_last() =~= ps);
}

/// Starts shaping the queued chunks of one direction; the input is their
/// concatenation and its length is counted in `bytes_in`.
pub fn drain_start(queue: VecDeque<Vec<u8>>, direction: Direction, stats: &mut MorphStats) -> (r: Segmenter)
    requires
        old(stats).bytes_in + concat_chunks(queue@).len() <= u64::MAX,
    ensures
        r.wf(),
        r.input() == concat_chunks(queue@),
        r.consumed() == 0,
        r.output().len() == 0,
        r.dir() == direction,
        *final(stats) == (MorphStats { bytes_in: (old(stats).bytes_in + concat_chunks(queue@).len()) as u64, ..*old(stats) }),
{
    let mut buf: Vec<u8> = Vec::new();
    let mut i: usize = 0;
    while i < queue.len()
        invariant
            i <= queue@.len(),
            buf@ == concat_chunks(queue@.subrange(0, i as int)),
            stats.bytes_in == old(stats).bytes_in + buf@.len(),
            old(stats).bytes_in + concat_chunks(queue@).len() <= u64::MAX,
            *stats == (MorphStats { bytes_in: stats.bytes_in, ..*old(stats) }),
        decreases queue@.len() - i,
    {
        proof {
            lemma_concat_chunks_push(queue@, i as int);
            lemma_concat_chunks_prefix_len(queue@, i + 1);
        }
        let chunk = &queue[i];
        stats.bytes_in = stats.bytes_in + chunk.len() as u64;
        crate::frame::push_all(&mut buf, chunk.as_slice());
        i = i + 1;
    }
    assert(queue@.subrange(0, queue@.len() as int) =~= queue@);
    let packets: Vec<MorphedPacket> = Vec::new();
    let s = Segmenter { direction, buf, offset: 0, packets };
    assert(s.buf@.subrange(0, 0) =~= Seq::<u8>::empty());
    s
}

proof fn lemma_concat_chunks_prefix_len(qs: Seq<Vec<u8>>, k: int)
    requires
        0 <= k <= qs.len(),
    ensures
        concat_chunks(qs.subrange(0, k)).len() <= concat_chunks(qs).len(),
    decreases qs.len() - k,
{
    if k < qs.len() {
        lemma_concat_chunks_prefix_len(qs, k + 1);
        lemma_concat_chunks_push(qs, k);
    } else {
        assert(qs.subrange(0, k) =~= qs);
    }
}

impl Segmenter {
    /// Makes the next packet: `target_size` clamped to 64..=1420 bytes,
    /// filled with as much queued data as is left, the rest padding (random
    /// bytes where `random_padding`, else zeros); it is sent after
    /// `send_after_us`.
    pub fn push_packet(&mut self, target_size: usize, send_after_us: u64, random_padding: bool, stats: &mut MorphStats)
        requires
            old(self).wf(),
            old(self).consumed() < old(self).input().len(),
            old(stats).bytes_out + MAX_PAYLOAD <= u64::MAX,
            old(stats).packets_out + 1 <= u64::MAX,
        ensures
            final(self).wf(),
            final(self).input() == old(self).input(),
            final(self).dir() == old(self).dir(),
            final(self).consumed() > old(self).consumed(),
            ({
                let remaining = old(self).input().len() - old(self).consumed();
                let actual = if remaining < clamp_size(target_size as int) { remaining } else { clamp_size(target_size as int) };
                let p = final(self).output().last();
                &&& final(self).output() == old(self).output().push(p)
                &&& final(self).consumed() == old(self).consumed() + actual
                &&& p.data@.len() == clamp_size(target_size as int)
                &&& p.real_data_len == actual
                &&& p.data@.subrange(0, actual) == old(self).input().subrange(old(self).consumed() as int, old(self).consumed() + actual)
                &&& !random_padding ==> p.data@.subrange(actual, p.data@.len() as int) == crate::frame::zeros((p.data@.len() - actual) as nat)
                &&& p.send_after_us == send_after_us
                &&& p.direction == old(self).dir()
                &&& !p.is_chaff
            }),
            *final(stats) == (MorphStats {
                bytes_out: (old(stats).bytes_out + clamp_size(target_size as int)) as u64,
                packets_out: (old(stats).packets_out + 1) as u64,
                ..*old(stats)
            }),
    {
        let clamped: usize = if target_size < MIN_PAYLOAD {
            MIN_PAYLOAD
        } else if target_size > MAX_PAYLOAD {
            MAX_PAYLOAD
        } else {
            target_size
        };
        let remaining = self.buf.len() - self.offset;
        let actual = if remaining < clamped { remaining } else { clamped };
        let mut data: Vec<u8> = Vec::new();
        crate::frame::push_all(&mut data, &self.buf.as_slice()[self.offset..self.offset + actual]);
        let ghost real_bytes = data@;
        if data.len() < clamped {
            if random_padding {
                let pad = random_bytes(clamped - actual);
                crate::frame::push_all(&mut data, pad.as_slice());
            } else {
                crate::frame::pad_with_zeros(&mut data, clamped);
            }
        }
        assert(data@.subrange(0, actual as int) =~= real_bytes);
        let p = MorphedPacket {
            data,
            real_data_len: actual,
            direction: self.direction,
            send_after_us,
            is_chaff: false,
        };
        stats.bytes_out = stats.bytes_out + clamped as u64;
        stats.packets_out = stats.packets_out + 1;
        let ghost old_packets = self.packets@;
        let ghost old_offset = self.offset;
        self.packets.push(p);
        self.offset = self.offset + actual;
        proof {
            lemma_real_concat_push(old_packets, p);
            assert(self.buf@.subrange(0, self.offset as int) =~= self.buf@.subrange(0, old_offset as int) + real_bytes);
            assert(real_part(p) =~= real_bytes);
            assert forall|i: int| 0 <= i < self.packets@.len() - 1 implies (#[trigger] self.packets@[i]).real_data_len
                == self.packets@[i].data@.len() by {
                if i < old_packets.len() - 1 {
                    assert(self.packets@[i] == old_packets[i]);
                } else {
                    assert(i == old_packets.len() - 1);
                    assert(self.packets@[i] == old_packets.last());
                    assert(old_offset < self.buf@.len());
                    assert(well_shaped(old_packets[i]));
                    assert(old_packets.last() == old_packets[i]);
                }
            }
            assert(p.data@.len() == clamped);
            if !random_padding {
                assert(p.data@.subrange(actual as int, p.data@.len() as int) =~= crate::frame::zeros((p.data@.len() - actual) as nat));
            }
        }
    }

    /// The packets of a finished segmenter.
    pub fn into_packets(self) -> (r: Vec<MorphedPacket>)
        requires
            self.wf(),
        ensures
            r@ == self.output(),
    {
        self.packets
    }
}

/// Facts that hold of the packets of a finished segmenter.
pub open spec fn shaped_output(ps: Seq<MorphedPacket>, input: Seq<u8>) -> bool {
    &&& real_concat(ps) == input
    &&& forall|i: int| 0 <= i < ps.len() ==> #[trigger] well_shaped(ps[i])
    &&& full_but_last(ps)
}

/// A finished segmenter's packets carry exactly the queued bytes, each
/// packet well shaped, only the last one partly padding.
pub proof fn lemma_segmenter_output(s: Segmenter)
    requires
        s.wf(),
        s.consumed() == s.input().len(),
    ensures
        shaped_output(s.output(), s.input()),
{
    assert(s.buf@.subrange(0, s.offset as int) =~= s.buf@);
}

fn append_bytes(buf: &mut Vec<u8>, data: &Vec<u8>)
    ensures
        final(buf)@ == old(buf)@ + data@,
{
    crate::frame::push_all(buf, data.as_slice());
}

/// What a packet is made of: its bytes, real length, direction, delay and
/// whether it is chaff.
pub open spec fn packet_shape(p: MorphedPacket) -> (Seq<u8>, nat, Direction, u64, bool) {
    (p.data@, p.real_data_len as nat, p.direction, p.send_after_us, p.is_chaff)
}

/// A merged packet of bytes `buf` holding `acc` real bytes, sent in
/// direction `dir` as the `(n + 1)`-th merged packet, 10 µs after the one
/// before it.
pub open spec fn merged_shape(buf: Seq<u8>, acc: nat, dir: Direction, n: nat) -> (Seq<u8>, nat, Direction, u64, bool) {
    (buf, acc, dir, (10 * (n + 1)) as u64, false)
}

/// The state of merging after the packets `ps`: the merged packets so far,
/// the bytes being packed, how many of them are real, and the direction of
/// the last packet packed. Each packet's bytes join the pack unless the pack
/// is non-empty and would grow past 1420 bytes; then the pack is closed into
/// a merged packet first.
pub open spec fn merge_state(ps: Seq<MorphedPacket>) -> (Seq<(Seq<u8>, nat, Direction, u64, bool)>, Seq<u8>, nat, Direction)
    decreases ps.len(),
{
    if ps.len() == 0 {
        (Seq::empty(), Seq::empty(), 0, Direction::Upstream)
    } else {
        let prev = merge_state(ps.drop_last());
        let p = ps.last();
        let closes = prev.1.len() + p.data@.len() > MAX_PAYLOAD && prev.1.len() > 0;
        let m = if closes {
            prev.0.push(merged_shape(prev.1, prev.2, prev.3, prev.0.len()))
        } else {
            prev.0
        };
        let buf = if closes { Seq::<u8>::empty() } else { prev.1 };
        let acc: nat = if closes { 0 } else { prev.2 };
        (m, buf + p.data@, (acc + p.real_data_len) as nat, p.direction)
    }
}

/// The packets that merging `ps` gives: the merged packets and, where bytes
/// are left in the pack, one more holding them.
pub open spec fn merged_shapes(ps: Seq<MorphedPacket>) -> Seq<(Seq<u8>, nat, Direction, u64, bool)> {
    let st = merge_state(ps);
    if st.1.len() > 0 {
        st.0.push(merged_shape(st.1, st.2, st.3, st.0.len()))
    } else {
        st.0
    }
}

/// The bytes of packets, padding included, one packet after another.
pub open spec fn wire_bytes(ps: Seq<MorphedPacket>) -> Seq<u8>
    decreases ps.len(),
{
    if ps.len() == 0 {
        Seq::empty()
    } else {
        wire_bytes(ps.drop_last()) + ps.last().data@
    }
}

/// The bytes of merged packets, one after another.
pub open spec fn merged_bytes(ms: Seq<(Seq<u8>, nat, Direction, u64, bool)>) -> Seq<u8>
    decreases ms.len(),
{
    if ms.len() == 0 {
        Seq::empty()
    } else {
        merged_bytes(ms.drop_last()) + ms.last().0
    }
}

proof fn lemma_merged_bytes_push(ms: Seq<(Seq<u8>, nat, Direction, u64, bool)>, m: (Seq<u8>, nat, Direction, u64, bool))
    ensures
        merged_bytes(ms.push(m)) == merged_bytes(ms) + m.0,
{
    assert(ms.push(m).drop_last() =~= ms);
}

proof fn lemma_merge_state_bytes(ps: Seq<MorphedPacket>)
    ensures
        merged_bytes(merge_state(ps).0) + merge_state(ps).1 == wire_bytes(ps),
        forall|k: int| 0 <= k < merge_state(ps).0.len() ==> (#[trigger] merge_state(ps).0[k]).0.len() > 0,
    decreases ps.len(),
{
    if ps.len() > 0 {
        let pre = ps.drop_last();
        lemma_merge_state_bytes(pre);
        let prev = merge_state(pre);
        let p = ps.last();
        let closes = prev.1.len() + p.data@.len() > MAX_PAYLOAD && prev.1.len() > 0;
        if closes {
            let m = merged_shape(prev.1, prev.2, prev.3, prev.0.len());
            lemma_merged_bytes_push(prev.0, m);
            assert(merged_bytes(prev.0.push(m)) + (Seq::<u8>::empty() + p.data@) =~= merged_bytes(prev.0) + prev.1
                + p.data@);
        } else {
            assert(merged_bytes(prev.0) + (prev.1 + p.data@) =~= merged_bytes(prev.0) + prev.1 + p.data@);
        }
    }
}

/// Merging keeps every byte in its order: the merged packets' bytes, one
/// after another, are the packets' bytes, one after another; no merged
/// packet is empty.
pub proof fn lemma_merge_keeps_bytes(ps: Seq<MorphedPacket>)
    ensures
        merged_bytes(merged_shapes(ps)) == wire_bytes(ps),
        forall|k: int| 0 <= k < merged_shapes(ps).len() ==> (#[trigger] merged_shapes(ps)[k]).0.len() > 0,
{
    lemma_merge_state_bytes(ps);
    let st = merge_state(ps);
    if st.1.len() > 0 {
        let m = merged_shape(st.1, st.2, st.3, st.0.len());
        lemma_merged_bytes_push(st.0, m);
    } else {
        assert(merged_bytes(st.0) + st.1 =~= merged_bytes(st.0));
    }
}

/// A packet's bytes fit in one shaped payload and hold its real part.
pub open spec fn fits_payload(p: MorphedPacket) -> bool {
    p.data@.len() <= MAX_PAYLOAD && p.real_data_len <= p.data@.len()
}

/// Number of bytes of the packets, padding included.
pub open spec fn total_bytes(ps: Seq<MorphedPacket>) -> nat
    decreases ps.len(),
{
    if ps.len() == 0 {
        0
    } else {
        total_bytes(ps.drop_last()) + ps.last().data@.len()
    }
}

proof fn lemma_total_bytes_push(ps: Seq<MorphedPacket>, p: MorphedPacket)
    ensures
        total_bytes(ps.push(p)) == total_bytes(ps) + p.data@.len(),
{
    assert(ps.push(p).drop_last() =~= ps);
}

proof fn lemma_next_index(k: int, n: int, i: int)
    requires
        0 <= k,
        0 < n,
        i == k % n,
    ensures
        (if i + 1 < n { i + 1 } else { 0 }) == (k + 1) % n,
{
    vstd::arithmetic::div_mod::lemma_fundamental_div_mod(k, n);
    vstd::arithmetic::div_mod::lemma_fundamental_div_mod(k + 1, n);
    vstd::arithmetic::div_mod::lemma_mod_bound(k, n);
    if i + 1 < n {
        vstd::arithmetic::div_mod::lemma_mod_add_multiples_vanish(i + 1, n);
        assert((k + 1) % n == (i + 1)) by {
            vstd::arithmetic::div_mod::lemma_add_mod_noop(k, 1, n);
            vstd::arithmetic::div_mod::lemma_small_mod((i + 1) as nat, n as nat);
            vstd::arithmetic::div_mod::lemma_small_mod(1, n as nat);
        }
    } else {
        vstd::arithmetic::div_mod::lemma_add_mod_noop(k, 1, n);
        if n == 1 {
            vstd::arithmetic::div_mod::lemma_mod_self_0(1);
        } else {
            vstd::arithmetic::div_mod::lemma_small_mod(1, n as nat);
        }
        vstd::arithmetic::div_mod::lemma_mod_self_0(n);
    }
}

/// Merges packets when the overhead of `stats` exceeds `overhead_budget_milli`
/// thousandths and there is more than one packet: consecutive packets are
/// packed together up to 1420 bytes (see `merged_shapes`), each merged packet
/// sent 10 microseconds after the one before it. No byte is added or lost;
/// where only the last packet was partly padding, the real data is kept.
pub fn enforce_overhead(overhead_budget_milli: u64, stats: &MorphStats, packets: Vec<MorphedPacket>) -> (r: Vec<MorphedPacket>)
    requires
        packets@.len() < 0x1000_0000_0000,
        forall|i: int| 0 <= i < packets@.len() ==> #[trigger] fits_payload(packets@[i]),
    ensures
        !over_budget(*stats, overhead_budget_milli) || packets@.len() <= 1 ==> r@ == packets@,
        over_budget(*stats, overhead_budget_milli) && packets@.len() > 1 ==> r@.map_values(
            |p: MorphedPacket| packet_shape(p),
        ) == merged_shapes(packets@),
        total_bytes(r@) == total_bytes(packets@),
        total_bytes(packets@) > 0 ==> r@.len() > 0,
        r@.len() <= packets@.len(),
        forall|i: int| 0 <= i < r@.len() ==> #[trigger] fits_payload(r@[i]),
        full_but_last(packets@) ==> real_concat(r@) == real_concat(packets@) && full_but_last(r@),
        (forall|i: int| 0 <= i < packets@.len() ==> #[trigger] well_shaped(packets@[i])) ==> (forall|i: int|
            0 <= i < r@.len() ==> #[trigger] well_shaped(r@[i])),
        forall|d: Direction| all_in_direction(packets@, d) ==> all_in_direction(r@, d),
{
    if !stats.exceeds_budget(overhead_budget_milli) || packets.len() <= 1 {
        return packets;
    }
    let ghost ws = forall|i: int| 0 <= i < packets@.len() ==> #[trigger] well_shaped(packets@[i]);
    let ghost fbl = full_but_last(packets@);
    let n = packets.len();
    let mut buf: Vec<u8> = Vec::new();
    let mut acc: usize = 0;
    let mut merged: Vec<MorphedPacket> = Vec::new();
    let mut last_dir = Direction::Upstream;
    let mut k: usize = 0;
    while k < n
        invariant
            n == packets@.len(),
            n < 0x1000_0000_0000,
            k <= n,
            forall|i: int| 0 <= i < n ==> #[trigger] fits_payload(packets@[i]),
            ws == (forall|i: int| 0 <= i < packets@.len() ==> #[trigger] well_shaped(packets@[i])),
            fbl == full_but_last(packets@),
            fbl ==> real_concat(merged@) + buf@.subrange(0, acc as int) == real_concat(
                packets@.subrange(0, k as int),
            ),
            acc <= buf@.len() <= MAX_PAYLOAD,
            fbl && k < n ==> acc == buf@.len(),
            ws ==> (buf@.len() == 0 || MIN_PAYLOAD <= buf@.len()),
            buf@.len() == 0 ==> acc == 0,
            forall|i: int| 0 <= i < merged@.len() ==> fits_payload(#[trigger] merged@[i]) && !merged@[i].is_chaff,
            ws ==> forall|i: int| 0 <= i < merged@.len() ==> #[trigger] well_shaped(merged@[i]),
            fbl ==> forall|i: int| 0 <= i < merged@.len() ==> (#[trigger] merged@[i]).real_data_len
                == merged@[i].data@.len(),
            merged@.len() <= k,
            buf@.len() > 0 ==> merged@.len() < k,
            total_bytes(merged@) + buf@.len() == total_bytes(packets@.subrange(0, k as int)),
            k > 0 ==> last_dir == packets@[k - 1].direction,
            forall|d: Direction| all_in_direction(packets@, d) ==> all_in_direction(merged@, d),
            merged@.map_values(|p: MorphedPacket| packet_shape(p)) == merge_state(packets@.subrange(0, k as int)).0,
            buf@ == merge_state(packets@.subrange(0, k as int)).1,
            acc == merge_state(packets@.subrange(0, k as int)).2,
            last_dir == merge_state(packets@.subrange(0, k as int)).3,
            forall|i: int| 0 <= i < merged@.len() ==> (#[trigger] merged@[i]).send_after_us == 10 * (i + 1),
        decreases n - k,
    {
        assert(fits_payload(packets@[k as int]));
        assert(ws ==> well_shaped(packets@[k as int]));
        let ghost st = merge_state(packets@.subrange(0, k as int));
        let pkt_len = packets[k].data.len();
        if buf.len() + pkt_len > MAX_PAYLOAD && buf.len() > 0 {
            let ghost old_merged = merged@;
            assert(old_merged.map_values(|p: MorphedPacket| packet_shape(p)).len() == old_merged.len());
            let send_after: u64 = if merged.len() == 0 { 10 } else { merged[merged.len() - 1].send_after_us + 10 };
            let mut data: Vec<u8> = Vec::new();
            std::mem::swap(&mut data, &mut buf);
            let ghost gdata = data@;
            let m = MorphedPacket { data, real_data_len: acc, direction: last_dir, send_after_us: send_after, is_chaff: false };
            proof {
                assert forall|d: Direction| all_in_direction(packets@, d) implies all_in_direction(merged@.push(m), d) by {
                    assert(packets@[k - 1].direction == d);
                    assert forall|i: int| 0 <= i < merged@.push(m).len() implies (#[trigger] merged@.push(m)[i]).direction == d by {
                        if i < merged@.len() {
                            assert(merged@.push(m)[i] == merged@[i]);
                        }
                    }
                }
                lemma_real_concat_push(merged@, m);
                lemma_total_bytes_push(merged@, m);
                assert(real_part(m) =~= gdata.subrange(0, acc as int));
                assert(buf@.subrange(0, 0) =~= Seq::<u8>::empty());
                assert(fits_payload(m));
            }
            merged.push(m);
            proof {
                assert(packet_shape(m) == merged_shape(st.1, st.2, st.3, st.0.len()));
                assert(merged@.map_values(|p: MorphedPacket| packet_shape(p)) =~= st.0.push(
                    merged_shape(st.1, st.2, st.3, st.0.len()),
                ));
                assert forall|i: int| 0 <= i < merged@.len() implies (#[trigger] merged@[i]).send_after_us == 10 * (i
                    + 1) by {
                    if i < old_merged.len() {
                        assert(merged@[i] == old_merged[i]);
                    }
                }
                assert forall|i: int| 0 <= i < merged@.len() implies fits_payload(#[trigger] merged@[i])
                    && !merged@[i].is_chaff by {
                    if i < old_merged.len() {
                        assert(merged@[i] == old_merged[i]);
                        assert(fits_payload(old_merged[i]) && !old_merged[i].is_chaff);
                    } else {
                        assert(merged@[i] == m);
                    }
                }
                if ws {
                    assert forall|i: int| 0 <= i < merged@.len() implies #[trigger] well_shaped(merged@[i]) by {
                        if i < old_merged.len() {
                            assert(merged@[i] == old_merged[i]);
                        }
                    }
                }
                if fbl {
                    assert forall|i: int| 0 <= i < merged@.len() implies (#[trigger] merged@[i]).real_data_len
                        == merged@[i].data@.len() by {
                        if i < old_merged.len() {
                            assert(merged@[i] == old_merged[i]);
                        }
                    }
                }
            }
            acc = 0;
        }
        let ghost old_buf = buf@;
        let ghost old_acc = acc;
        let ghost p = packets@[k as int];
        proof {
            assert(packets@.subrange(0, k + 1).drop_last() =~= packets@.subrange(0, k as int));
            assert(packets@.subrange(0, k + 1).last() == p);
            lemma_total_bytes_push(packets@.subrange(0, k as int), p);
            assert(packets@.subrange(0, k as int).push(p) =~= packets@.subrange(0, k + 1));
        }
        acc = acc + packets[k].real_data_len;
        last_dir = packets[k].direction;
        append_bytes(&mut buf, &packets[k].data);
        proof {
            if fbl {
                if k + 1 < n {
                    assert(p.real_data_len == p.data@.len());
                }
                assert(buf@.subrange(0, acc as int) =~= old_buf.subrange(0, old_acc as int) + real_part(p)) by {
                    assert(old_acc == old_buf.len());
                }
            }
            assert(merge_state(packets@.subrange(0, k + 1)).0 == merged@.map_values(|q: MorphedPacket| packet_shape(q)));
            assert(merge_state(packets@.subrange(0, k + 1)).1 == buf@);
        }
        k = k + 1;
    }
    assert(packets@.subrange(0, n as int) =~= packets@);
    let ghost st = merge_state(packets@);
    let ghost old_merged = merged@;
    assert(old_merged.map_values(|p: MorphedPacket| packet_shape(p)).len() == old_merged.len());
    if buf.len() > 0 {
        let send_after: u64 = if merged.len() == 0 { 10 } else { merged[merged.len() - 1].send_after_us + 10 };
        let ghost gbuf = buf@;
        let m = MorphedPacket { data: buf, real_data_len: acc, direction: last_dir, send_after_us: send_after, is_chaff: false };
        proof {
            assert forall|d: Direction| all_in_direction(packets@, d) implies all_in_direction(merged@.push(m), d) by {
                assert(packets@[k - 1].direction == d);
                assert forall|i: int| 0 <= i < merged@.push(m).len() implies (#[trigger] merged@.push(m)[i]).direction == d by {
                    if i < merged@.len() {
                        assert(merged@.push(m)[i] == merged@[i]);
                    }
                }
            }
            lemma_real_concat_push(merged@, m);
            lemma_total_bytes_push(merged@, m);
            assert(real_part(m) =~= gbuf.subrange(0, acc as int));
        }
        merged.push(m);
        proof {
            assert(packet_shape(m) == merged_shape(st.1, st.2, st.3, st.0.len()));
            assert(merged@.map_values(|p: MorphedPacket| packet_shape(p)) =~= st.0.push(
                merged_shape(st.1, st.2, st.3, st.0.len()),
            ));
            assert forall|i: int| 0 <= i < merged@.len() implies #[trigger] fits_payload(merged@[i]) by {
                if i < old_merged.len() {
                    assert(merged@[i] == old_merged[i]);
                }
            }
            if ws {
                assert forall|i: int| 0 <= i < merged@.len() implies #[trigger] well_shaped(merged@[i]) by {
                    if i < old_merged.len() {
                        assert(merged@[i] == old_merged[i]);
                    }
                }
            }
            if fbl {
                assert forall|i: int| 0 <= i < merged@.len() - 1 implies (#[trigger] merged@[i]).real_data_len
                    == merged@[i].data@.len() by {
                    assert(merged@[i] == old_merged[i]);
                }
            }
        }
    } else {
        assert(buf@.subrange(0, acc as int) =~= Seq::<u8>::empty());
        assert(real_concat(merged@) =~= real_concat(merged@) + Seq::<u8>::empty());
    }
    merged
}

/// Packet `k` of `pre` takes its size (clamped to 64..=1420) and its delay
/// from draw `k`, counted round the draws.
pub open spec fn shaped_with_draws(pre: Seq<MorphedPacket>, draws: Seq<(usize, u64)>) -> bool {
    forall|k: int|
        0 <= k < pre.len() ==> (#[trigger] pre[k]).data@.len() == clamp_size(draws[k % draws.len() as int].0 as int)
            && pre[k].send_after_us == draws[k % draws.len() as int].1
}

/// The packets `r` that a flush sends for the bytes `input` of one
/// direction: the input is cut into the packets `pre` in that direction, one
/// per draw in turn, which carry exactly the input (none for no input); `r`
/// is `pre`, or, where the counters `after` are over the overhead budget and
/// there is more than one packet, the packets that merging `pre` gives.
pub open spec fn flushed_from(
    r: Seq<MorphedPacket>,
    pre: Seq<MorphedPacket>,
    input: Seq<u8>,
    dir: Direction,
    draws: Seq<(usize, u64)>,
    after: MorphStats,
    budget: u64,
) -> bool {
    &&& shaped_output(pre, input)
    &&& all_in_direction(pre, dir)
    &&& shaped_with_draws(pre, draws)
    &&& (pre.len() == 0) == (input.len() == 0)
    &&& if over_budget(after, budget) && pre.len() > 1 {
        r.map_values(|p: MorphedPacket| packet_shape(p)) == merged_shapes(pre)
    } else {
        r == pre
    }
}

proof fn lemma_total_bytes_append(a: Seq<MorphedPacket>, b: Seq<MorphedPacket>)
    ensures
        total_bytes(a + b) == total_bytes(a) + total_bytes(b),
    decreases b.len(),
{
    if b.len() == 0 {
        assert(a + b =~= a);
    } else {
        lemma_total_bytes_append(a, b.drop_last());
        assert((a + b).drop_last() =~= a + b.drop_last());
        assert((a + b).last() == b.last());
    }
}

/// A finished segmenter has packets exactly when it had input, and then they
/// hold at least one shaped payload of bytes.
proof fn lemma_done_output(seg: Segmenter)
    requires
        seg.wf(),
        seg.consumed() == seg.input().len(),
    ensures
        (seg.output().len() == 0) == (seg.input().len() == 0),
        seg.output().len() > 0 ==> total_bytes(seg.output()) >= MIN_PAYLOAD,
{
    if seg.output().len() > 0 {
        assert(well_shaped(seg.output()[seg.output().len() - 1]));
    } else {
        assert(seg.buf@.subrange(0, seg.offset as int) =~= seg.buf@);
    }
}

/// The flow morpher of one tunnel: queued data per direction, the model,
/// the chaff generator and the counters.
pub struct Morpher {
    model: SiteModel,
    up_queue: VecDeque<Vec<u8>>,
    dn_queue: VecDeque<Vec<u8>>,
    chaff: ChaffGenerator,
    stats: MorphStats,
}

impl Morpher {
    /// The model.
    pub closed spec fn model_spec(&self) -> SiteModel {
        self.model
    }

    /// Data queued in a direction, chunk by chunk.
    pub closed spec fn queued(&self, direction: Direction) -> Seq<Vec<u8>> {
        match direction {
            Direction::Upstream => self.up_queue@,
            Direction::Downstream => self.dn_queue@,
        }
    }

    /// The chaff generator.
    pub closed spec fn chaff_spec(&self) -> ChaffGenerator {
        self.chaff
    }

    /// The counters.
    pub closed spec fn stats_spec(&self) -> MorphStats {
        self.stats
    }

    /// A morpher for `model` with nothing queued and zero counters; its chaff
    /// generator runs the model's chaff configuration.
    pub fn new(model: SiteModel) -> (r: Morpher)
        ensures
            r.model_spec() == model,
            r.queued(Direction::Upstream).len() == 0,
            r.queued(Direction::Downstream).len() == 0,
            same_chaff_config(r.chaff_spec().config(), model.chaff),
            r.chaff_spec().last_chaff_us() == 0,
            r.chaff_spec().accumulator_us() == 0,
            r.stats_spec() == MorphStats::spec_zero(),
    {
        let chaff = ChaffGenerator::new(model.chaff.duplicate());
        Morpher { model, up_queue: VecDeque::new(), dn_queue: VecDeque::new(), chaff, stats: MorphStats::new() }
    }

    /// Queues data to be sent in `direction`.
    pub fn push(&mut self, data: Vec<u8>, direction: Direction)
        ensures
            final(self).queued(direction) == old(self).queued(direction).push(data),
            final(self).queued(other_direction(direction)) == old(self).queued(other_direction(direction)),
            final(self).model_spec() == old(self).model_spec(),
            final(self).chaff_spec() == old(self).chaff_spec(),
            final(self).stats_spec() == old(self).stats_spec(),
    {
        match direction {
            Direction::Upstream => self.up_queue.push_back(data),
            Direction::Downstream => self.dn_queue.push_back(data),
        }
    }

    /// Takes what is queued in `direction`, leaving that queue empty.
    pub fn take_queue(&mut self, direction: Direction) -> (r: VecDeque<Vec<u8>>)
        ensures
            r@ == old(self).queued(direction),
            final(self).queued(direction).len() == 0,
            final(self).queued(other_direction(direction)) == old(self).queued(other_direction(direction)),
            final(self).model_spec() == old(self).model_spec(),
            final(self).chaff_spec() == old(self).chaff_spec(),
            final(self).stats_spec() == old(self).stats_spec(),
    {
        let mut q: VecDeque<Vec<u8>> = VecDeque::new();
        match direction {
            Direction::Upstream => std::mem::swap(&mut q, &mut self.up_queue),
            Direction::Downstream => std::mem::swap(&mut q, &mut self.dn_queue),
        }
        q
    }

    /// Starts shaping `queue` in `direction`, counting its bytes in.
    pub fn drain(&mut self, queue: VecDeque<Vec<u8>>, direction: Direction) -> (r: Segmenter)
        requires
            old(self).stats_spec().bytes_in + concat_chunks(queue@).len() <= u64::MAX,
        ensures
            r.wf(),
            r.input() == concat_chunks(queue@),
            r.consumed() == 0,
            r.output().len() == 0,
            r.dir() == direction,
            final(self).stats_spec() == (MorphStats {
                bytes_in: (old(self).stats_spec().bytes_in + concat_chunks(queue@).len()) as u64,
                ..old(self).stats_spec()
            }),
            final(self).model_spec() == old(self).model_spec(),
            final(self).chaff_spec() == old(self).chaff_spec(),
            forall|d: Direction| final(self).queued(d) == old(self).queued(d),
    {
        drain_start(queue, direction, &mut self.stats)
    }

    /// Makes the next packet of `seg` from a sampled size and delay; the
    /// padding is random where the model asks for random padding.
    pub fn shape_next(&mut self, seg: &mut Segmenter, target_size: usize, send_after_us: u64)
        requires
            old(seg).wf(),
            old(seg).consumed() < old(seg).input().len(),
            old(self).stats_spec().bytes_out + MAX_PAYLOAD <= u64::MAX,
            old(self).stats_spec().packets_out + 1 <= u64::MAX,
        ensures
            final(seg).wf(),
            final(seg).input() == old(seg).input(),
            final(seg).dir() == old(seg).dir(),
            final(seg).consumed() > old(seg).consumed(),
            final(seg).output().len() == old(seg).output().len() + 1,
            final(seg).output() == old(seg).output().push(final(seg).output().last()),
            final(seg).output().last().data@.len() == clamp_size(target_size as int),
            final(seg).output().last().send_after_us == send_after_us,
            final(self).model_spec() == old(self).model_spec(),
            final(self).chaff_spec() == old(self).chaff_spec(),
            forall|d: Direction| final(self).queued(d) == old(self).queued(d),
            final(self).stats_spec().bytes_in == old(self).stats_spec().bytes_in,
            final(self).stats_spec().bytes_out == old(self).stats_spec().bytes_out + clamp_size(target_size as int),
            final(self).stats_spec().packets_out == old(self).stats_spec().packets_out + 1,
            final(self).stats_spec().cover_packets == old(self).stats_spec().cover_packets,
            final(self).stats_spec().chaff_packets == old(self).stats_spec().chaff_packets,
    {
        seg.push_packet(target_size, send_after_us, self.model.random_padding, &mut self.stats);
    }

    /// The packets of a finished segmenter, merged where the overhead is over
    /// the model's budget. They carry exactly the queued bytes.
    pub fn finish(&self, seg: Segmenter) -> (r: Vec<MorphedPacket>)
        requires
            seg.wf(),
            seg.consumed() == seg.input().len(),
            seg.input().len() < 0x1000_0000_0000,
        ensures
            shaped_output(r@, seg.input()),
            forall|i: int| 0 <= i < r@.len() ==> (#[trigger] r@[i]).data@.len() <= MTU,
            all_in_direction(r@, seg.dir()),
            !over_budget(self.stats_spec(), self.model_spec().overhead_budget_milli) || seg.output().len() <= 1
                ==> r@ == seg.output(),
            over_budget(self.stats_spec(), self.model_spec().overhead_budget_milli) && seg.output().len() > 1
                ==> r@.map_values(|p: MorphedPacket| packet_shape(p)) == merged_shapes(seg.output()),
            total_bytes(r@) == total_bytes(seg.output()),
            (r@.len() == 0) == (seg.input().len() == 0),
    {
        proof {
            lemma_segmenter_output(seg);
            lemma_done_output(seg);
        }
        let packets = seg.into_packets();
        assert(all_in_direction(packets@, seg.dir()));
        assert forall|i: int| 0 <= i < packets@.len() implies #[trigger] fits_payload(packets@[i]) by {
            assert(well_shaped(packets@[i]));
        }
        let r = enforce_overhead(self.model.overhead_budget_milli, &self.stats, packets);
        proof {
            assert forall|i: int| 0 <= i < r@.len() implies (#[trigger] r@[i]).data@.len() <= MTU by {
                assert(well_shaped(r@[i]));
            }
        }
        r
    }

    /// Shapes what is queued in `direction`: the chunks are cut into
    /// packets whose sizes and delays are taken in turn from `draws` (from
    /// the first again when they run out), then merged where the overhead is
    /// over the model's budget. The packets carry exactly the queued bytes.
    fn shape_queue(&mut self, direction: Direction, draws: &[(usize, u64)]) -> (r: Vec<MorphedPacket>)
        requires
            draws@.len() > 0,
            concat_chunks(old(self).queued(direction)).len() < 0x1000_0000_0000,
            old(self).stats_spec().bytes_in + concat_chunks(old(self).queued(direction)).len() <= u64::MAX,
            old(self).stats_spec().bytes_out + MAX_PAYLOAD * concat_chunks(old(self).queued(direction)).len()
                <= u64::MAX,
            old(self).stats_spec().packets_out + concat_chunks(old(self).queued(direction)).len() <= u64::MAX,
        ensures
            shaped_output(r@, concat_chunks(old(self).queued(direction))),
            all_in_direction(r@, direction),
            forall|i: int| 0 <= i < r@.len() ==> (#[trigger] r@[i]).data@.len() <= MTU,
            final(self).queued(direction).len() == 0,
            final(self).queued(other_direction(direction)) == old(self).queued(other_direction(direction)),
            final(self).model_spec() == old(self).model_spec(),
            final(self).chaff_spec() == old(self).chaff_spec(),
            final(self).stats_spec().bytes_in == old(self).stats_spec().bytes_in + concat_chunks(
                old(self).queued(direction),
            ).len(),
            final(self).stats_spec().bytes_out <= old(self).stats_spec().bytes_out + MAX_PAYLOAD * concat_chunks(
                old(self).queued(direction),
            ).len(),
            final(self).stats_spec().packets_out <= old(self).stats_spec().packets_out + concat_chunks(
                old(self).queued(direction),
            ).len(),
            final(self).stats_spec().cover_packets == old(self).stats_spec().cover_packets,
            final(self).stats_spec().chaff_packets == old(self).stats_spec().chaff_packets,
            exists|pre: Seq<MorphedPacket>|
                #[trigger] flushed_from(
                    r@,
                    pre,
                    concat_chunks(old(self).queued(direction)),
                    direction,
                    draws@,
                    final(self).stats_spec(),
                    final(self).model_spec().overhead_budget_milli,
                ),
            final(self).stats_spec().bytes_out == old(self).stats_spec().bytes_out + total_bytes(r@),
            (r@.len() == 0) == (concat_chunks(old(self).queued(direction)).len() == 0),
    {
        let ghost input = concat_chunks(old(self).queued(direction));
        let queue = self.take_queue(direction);
        let mut seg = self.drain(queue, direction);
        let ghost start = self.stats_spec();
        let mut i: usize = 0;
        while !seg.is_done()
            invariant
                seg.wf(),
                seg.input() == input,
                seg.dir() == direction,
                input.len() < 0x1000_0000_0000,
                draws@.len() > 0,
                i < draws@.len(),
                start.bytes_out + MAX_PAYLOAD * input.len() <= u64::MAX,
                start.packets_out + input.len() <= u64::MAX,
                self.stats_spec().bytes_out <= start.bytes_out + MAX_PAYLOAD * seg.consumed(),
                self.stats_spec().packets_out <= start.packets_out + seg.consumed(),
                self.stats_spec().bytes_in == start.bytes_in,
                self.stats_spec().cover_packets == start.cover_packets,
                self.stats_spec().chaff_packets == start.chaff_packets,
                self.queued(direction).len() == 0,
                self.queued(other_direction(direction)) == old(self).queued(other_direction(direction)),
                self.model_spec() == old(self).model_spec(),
                self.chaff_spec() == old(self).chaff_spec(),
                i == (seg.output().len() as int) % (draws@.len() as int),
                shaped_with_draws(seg.output(), draws@),
                self.stats_spec().bytes_out == start.bytes_out + total_bytes(seg.output()),
            decreases input.len() - seg.consumed(),
        {
            let (size, delay) = draws[i];
            let ghost before = seg.consumed();
            let ghost old_out = seg.output();
            assert(self.stats_spec().bytes_out + MAX_PAYLOAD <= u64::MAX) by {
                assert(seg.consumed() + 1 <= input.len());
                assert(MAX_PAYLOAD * seg.consumed() + MAX_PAYLOAD <= MAX_PAYLOAD * input.len());
            }
            self.shape_next(&mut seg, size, delay);
            assert(self.stats_spec().bytes_out <= start.bytes_out + MAX_PAYLOAD * seg.consumed()) by {
                assert(MAX_PAYLOAD * before + MAX_PAYLOAD <= MAX_PAYLOAD * seg.consumed());
            }
            proof {
                let len = draws@.len() as int;
                let k = old_out.len() as int;
                lemma_total_bytes_push(old_out, seg.output().last());
                assert(seg.output()[k] == seg.output().last());
                assert forall|j: int| 0 <= j < seg.output().len() implies (#[trigger] seg.output()[j]).data@.len()
                    == clamp_size(draws@[j % len].0 as int) && seg.output()[j].send_after_us == draws@[j % len].1 by {
                    if j < k {
                        assert(seg.output()[j] == old_out[j]);
                    }
                }
                lemma_next_index(k, len, i as int);
            }
            i = if i + 1 < draws.len() { i + 1 } else { 0 };
        }
        let ghost pre = seg.output();
        let ghost after = self.stats_spec();
        proof {
            lemma_segmenter_output(seg);
            lemma_done_output(seg);
        }
        let r = self.finish(seg);
        assert(flushed_from(r@, pre, input, direction, draws@, after, self.model_spec().overhead_budget_milli));
        r
    }

    /// Shapes everything queued, upstream then downstream. Each direction's
    /// chunks are cut into packets whose sizes and delays are taken in turn
    /// from that direction's draws (sampled by the caller from the model;
    /// from the first again when they run out), then merged where the
    /// overhead is over the model's budget (see `flushed_from`). The packets
    /// of each direction carry exactly its queued bytes, in order; nothing
    /// queued gives no packets; both queues are left empty, and the bytes
    /// sent are counted in `bytes_out`.
    pub fn morph_flush(&mut self, up_draws: &[(usize, u64)], dn_draws: &[(usize, u64)]) -> (r: Vec<MorphedPacket>)
        requires
            up_draws@.len() > 0,
            dn_draws@.len() > 0,
            concat_chunks(old(self).queued(Direction::Upstream)).len() < 0x1000_0000_0000,
            concat_chunks(old(self).queued(Direction::Downstream)).len() < 0x1000_0000_0000,
            old(self).stats_spec().bytes_in + concat_chunks(old(self).queued(Direction::Upstream)).len()
                + concat_chunks(old(self).queued(Direction::Downstream)).len() <= u64::MAX,
            old(self).stats_spec().bytes_out + MAX_PAYLOAD * (concat_chunks(old(self).queued(Direction::Upstream)).len()
                + concat_chunks(old(self).queued(Direction::Downstream)).len()) <= u64::MAX,
            old(self).stats_spec().packets_out + concat_chunks(old(self).queued(Direction::Upstream)).len()
                + concat_chunks(old(self).queued(Direction::Downstream)).len() <= u64::MAX,
        ensures
            exists|up: Seq<MorphedPacket>, dn: Seq<MorphedPacket>|
                {
                    &&& r@ == up + dn
                    &&& shaped_output(up, concat_chunks(old(self).queued(Direction::Upstream)))
                    &&& all_in_direction(up, Direction::Upstream)
                    &&& shaped_output(dn, concat_chunks(old(self).queued(Direction::Downstream)))
                    &&& all_in_direction(dn, Direction::Downstream)
                },
            forall|i: int| 0 <= i < r@.len() ==> (#[trigger] r@[i]).data@.len() <= MTU,
            final(self).queued(Direction::Upstream).len() == 0,
            final(self).queued(Direction::Downstream).len() == 0,
            final(self).model_spec() == old(self).model_spec(),
            final(self).chaff_spec() == old(self).chaff_spec(),
            final(self).stats_spec().bytes_in == old(self).stats_spec().bytes_in + concat_chunks(
                old(self).queued(Direction::Upstream),
            ).len() + concat_chunks(old(self).queued(Direction::Downstream)).len(),
            exists|up: Seq<MorphedPacket>, dn: Seq<MorphedPacket>, pre_up: Seq<MorphedPacket>, pre_dn: Seq<
                MorphedPacket,
            >, mid: MorphStats|
                {
                    &&& r@ == up + dn
                    &&& #[trigger] flushed_from(
                        up,
                        pre_up,
                        concat_chunks(old(self).queued(Direction::Upstream)),
                        Direction::Upstream,
                        up_draws@,
                        mid,
                        old(self).model_spec().overhead_budget_milli,
                    )
                    &&& #[trigger] flushed_from(
                        dn,
                        pre_dn,
                        concat_chunks(old(self).queued(Direction::Downstream)),
                        Direction::Downstream,
                        dn_draws@,
                        final(self).stats_spec(),
                        old(self).model_spec().overhead_budget_milli,
                    )
                },
            final(self).stats_spec().bytes_out == old(self).stats_spec().bytes_out + total_bytes(r@),
            (r@.len() == 0) == (concat_chunks(old(self).queued(Direction::Upstream)).len() == 0 && concat_chunks(
                old(self).queued(Direction::Downstream),
            ).len() == 0),
    {
        let ghost up_input = concat_chunks(old(self).queued(Direction::Upstream));
        let ghost dn_input = concat_chunks(old(self).queued(Direction::Downstream));
        let mut up = self.shape_queue(Direction::Upstream, up_draws);
        let ghost mid = self.stats_spec();
        let ghost pre_up = choose|pre: Seq<MorphedPacket>|
            #[trigger] flushed_from(
                up@,
                pre,
                up_input,
                Direction::Upstream,
                up_draws@,
                mid,
                self.model_spec().overhead_budget_milli,
            );
        assert(self.queued(Direction::Downstream) == old(self).queued(Direction::Downstream));
        let mut dn = self.shape_queue(Direction::Downstream, dn_draws);
        let ghost pre_dn = choose|pre: Seq<MorphedPacket>|
            #[trigger] flushed_from(
                dn@,
                pre,
                dn_input,
                Direction::Downstream,
                dn_draws@,
                self.stats_spec(),
                self.model_spec().overhead_budget_milli,
            );
        let ghost up_s = up@;
        let ghost dn_s = dn@;
        up.append(&mut dn);
        assert(up@ =~= up_s + dn_s);
        proof {
            lemma_total_bytes_append(up_s, dn_s);
            assert(flushed_from(up_s, pre_up, up_input, Direction::Upstream, up_draws@, mid, old(self).model_spec().overhead_budget_milli));
            assert(flushed_from(dn_s, pre_dn, dn_input, Direction::Downstream, dn_draws@, self.stats_spec(), old(self).model_spec().overhead_budget_milli));
        }
        assert forall|i: int| 0 <= i < up@.len() implies (#[trigger] up@[i]).data@.len() <= MTU by {
            if i < up_s.len() {
                assert(up@[i] == up_s[i]);
            } else {
                assert(up@[i] == dn_s[i - up_s.len()]);
            }
        }
        up
    }

    /// Adds idle time to the chaff timer and, when chaff is due, a chaff
    /// packet of the sampled size, counted as sent.
    pub fn generate_chaff(&mut self, elapsed_us: u64, sampled_size: usize) -> (r: Option<MorphedPacket>)
        requires
            old(self).chaff_spec().config().enabled ==> old(self).chaff_spec().accumulator_us() + elapsed_us <= u64::MAX,
            old(self).chaff_spec().config().enabled && old(self).chaff_spec().last_chaff_us() != 0
                ==> old(self).chaff_spec().config().min_interval_us <= old(self).chaff_spec().config().max_interval_us,
            old(self).stats_spec().chaff_packets < u64::MAX,
            old(self).stats_spec().packets_out < u64::MAX,
            old(self).stats_spec().bytes_out + MAX_PAYLOAD <= u64::MAX,
        ensures
            !old(self).chaff_spec().config().enabled ==> r is None,
            old(self).chaff_spec().config().enabled ==> exists|t: u64|
                #[trigger] crate::fme::chaff::chaff_step(old(self).chaff_spec(), final(self).chaff_spec(), elapsed_us, t, r is Some),
            r matches Some(p) ==> p.is_chaff && p.real_data_len == 0 && p.data@.len() == chaff_size(sampled_size as int)
                && final(self).stats_spec() == (MorphStats {
                    chaff_packets: (old(self).stats_spec().chaff_packets + 1) as u64,
                    packets_out: (old(self).stats_spec().packets_out + 1) as u64,
                    bytes_out: (old(self).stats_spec().bytes_out + p.data@.len()) as u64,
                    ..old(self).stats_spec()
                }),
            r is None ==> final(self).stats_spec() == old(self).stats_spec(),
            final(self).model_spec() == old(self).model_spec(),
            forall|d: Direction| final(self).queued(d) == old(self).queued(d),
    {
        let ghost old_chaff = self.chaff;
        let due = self.chaff.should_generate(elapsed_us);
        assert(old_chaff.config().enabled ==> exists|t: u64| #[trigger] crate::fme::chaff::chaff_step(old_chaff, self.chaff, elapsed_us, t, due));
        let ghost t: u64 = choose|t: u64| crate::fme::chaff::chaff_step(old_chaff, self.chaff, elapsed_us, t, due);
        let r = if due {
            let pkt = self.chaff.generate(sampled_size);
            self.stats.chaff_packets = self.stats.chaff_packets + 1;
            self.stats.packets_out = self.stats.packets_out + 1;
            self.stats.bytes_out = self.stats.bytes_out + pkt.data.len() as u64;
            Some(pkt)
        } else {
            None
        };
        proof {
            if old_chaff.config().enabled {
                assert(crate::fme::chaff::chaff_step(old_chaff, self.chaff, elapsed_us, t, r is Some));
                assert(crate::fme::chaff::chaff_step(old(self).chaff_spec(), self.chaff_spec(), elapsed_us, t, r is Some));
            }
        }
        r
    }

    /// After the model's keepalive interval of silence, one 40-byte
    /// upstream cover packet, counted as sent; before it, none.
    pub fn generate_cover_traffic(&mut self, elapsed_us: u64) -> (r: Vec<MorphedPacket>)
        requires
            old(self).stats_spec().cover_packets < u64::MAX,
            old(self).stats_spec().packets_out < u64::MAX,
            old(self).stats_spec().bytes_out + 40 <= u64::MAX,
        ensures
            elapsed_us < old(self).model_spec().keepalive_us ==> r@.len() == 0 && final(self).stats_spec()
                == old(self).stats_spec(),
            elapsed_us >= old(self).model_spec().keepalive_us ==> {
                &&& r@.len() == 1
                &&& r@[0].data@ == crate::frame::zeros(40)
                &&& r@[0].real_data_len == 0
                &&& r@[0].direction == Direction::Upstream
                &&& r@[0].send_after_us == 0
                &&& !r@[0].is_chaff
                &&& final(self).stats_spec() == (MorphStats {
                    cover_packets: (old(self).stats_spec().cover_packets + 1) as u64,
                    packets_out: (old(self).stats_spec().packets_out + 1) as u64,
                    bytes_out: (old(self).stats_spec().bytes_out + 40) as u64,
                    ..old(self).stats_spec()
                })
            },
            final(self).model_spec() == old(self).model_spec(),
            final(self).chaff_spec() == old(self).chaff_spec(),
            forall|d: Direction| final(self).queued(d) == old(self).queued(d),
    {
        if elapsed_us < self.model.keepalive_us {
            return Vec::new();
        }
        self.stats.cover_packets = self.stats.cover_packets + 1;
        self.stats.packets_out = self.stats.packets_out + 1;
        self.stats.bytes_out = self.stats.bytes_out + 40;
        let mut data: Vec<u8> = Vec::new();
        crate::frame::pad_with_zeros(&mut data, 40);
        assert(data@ =~= crate::frame::zeros(40));
        let mut v: Vec<MorphedPacket> = Vec::new();
        v.push(MorphedPacket { data, real_data_len: 0, direction: Direction::Upstream, send_after_us: 0, is_chaff: false });
        v
    }

    /// The counters.
    pub fn stats(&self) -> (r: &MorphStats)
        ensures
            *r == self.stats_spec(),
    {
        &self.stats
    }

    /// The model.
    pub fn model(&self) -> (r: &SiteModel)
        ensures
            *r == self.model_spec(),
    {
        &self.model
    }

    /// Restarts the chaff timer.
    pub fn reset_chaff(&mut self)
        ensures
            final(self).chaff_spec().config() == old(self).chaff_spec().config(),
            final(self).chaff_spec().accumulator_us() == 0,
            final(self).chaff_spec().last_chaff_us() == 0,
            final(self).model_spec() == old(self).model_spec(),
            final(self).stats_spec() == old(self).stats_spec(),
            forall|d: Direction| final(self).queued(d) == old(self).queued(d),
    {
        self.chaff.reset();
    }
}

/// The other direction.
pub open spec fn other_direction(d: Direction) -> Direction {
    match d {
        Direction::Upstream => Direction::Downstream,
        Direction::Downstream => Direction::Upstream,
    }
}

} // verus!
