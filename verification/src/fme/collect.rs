//! Traffic measurements from a probe of a site: the sizes and times of the
//! reads of one HTTPS response, completed with synthetic request-side values
//! and repeated flows.
use vstd::prelude::*;

use crate::fme::model::{BurstEntry, Direction, TrafficMeasurements};

verus! {

/// Sum of read sizes.
pub open spec fn total_of(s: Seq<usize>) -> nat
    decreases s.len(),
{
    if s.len() == 0 {
        0
    } else {
        total_of(s.drop_last()) + s.last() as nat
    }
}

/// Number of repeated flows added after the probed one.
pub open spec fn extra_flows(num_flows: usize) -> nat {
    if num_flows >= 1 {
        (num_flows - 1) as nat
    } else {
        0
    }
}

/// The measurements of a probe: the response's read sizes and their times
/// (microseconds since the request) on the downstream side, the request's
/// size and three synthetic sizes (40, 200, 512) upstream, client delays 0,
/// 50 and 100 µs, and for each further flow the request size, three reads of
/// a third of the response, a 500 ms client delay and a 50 ms server delay.
/// The burst pattern is two upstream packets, then downstream packets for
/// each 1460 bytes of response plus one (at most ten) after 100 ms; windows
/// of 29200 bytes and a 30 s keepalive.
pub fn probe_measurements(
    request_len: usize,
    read_sizes: Vec<usize>,
    read_times_us: Vec<u64>,
    num_flows: usize,
) -> (r: TrafficMeasurements)
    requires
        total_of(read_sizes@) <= usize::MAX,
        read_sizes@.len() + 3 * num_flows <= usize::MAX,
        read_times_us@.len() + num_flows <= usize::MAX,
    ensures
        ({
            let total = total_of(read_sizes@);
            let extra = extra_flows(num_flows);
            &&& r.upstream_sizes@ == seq![request_len, 40usize, 200, 512] + Seq::new(extra, |i: int| request_len)
            &&& r.downstream_sizes@ == read_sizes@ + Seq::new(3 * extra, |i: int| (total / 3) as usize)
            &&& r.iat_client_us@ == seq![0u64, 50, 100] + Seq::new(extra, |i: int| 500_000u64)
            &&& r.iat_server_us@ == read_times_us@ + Seq::new(extra, |i: int| 50_000u64)
            &&& r.burst_pattern@ == seq![
                BurstEntry { batch_size: 2, pause_us: 0, direction: Direction::Upstream },
                BurstEntry {
                    batch_size: if total / 1460 + 1 < 10 {
                        (total / 1460 + 1) as usize
                    } else {
                        10
                    },
                    pause_us: 100_000,
                    direction: Direction::Downstream,
                },
            ]
            &&& r.init_window_client == 29200
            &&& r.init_window_server == 29200
            &&& r.keepalive_us == 30_000_000
        }),
{
    let mut total: usize = 0;
    let mut i: usize = 0;
    while i < read_sizes.len()
        invariant
            i <= read_sizes@.len(),
            total == total_of(read_sizes@.subrange(0, i as int)),
            total_of(read_sizes@) <= usize::MAX,
        decreases read_sizes@.len() - i,
    {
        proof {
            assert(read_sizes@.subrange(0, i + 1).drop_last() =~= read_sizes@.subrange(0, i as int));
            lemma_total_prefix(read_sizes@, i + 1);
        }
        total = total + read_sizes[i];
        i = i + 1;
    }
    assert(read_sizes@.subrange(0, read_sizes@.len() as int) =~= read_sizes@);
    let mut upstream_sizes: Vec<usize> = vec![request_len, 40, 200, 512];
    let mut downstream_sizes = read_sizes;
    let mut iat_client_us: Vec<u64> = vec![0, 50, 100];
    let mut iat_server_us = read_times_us;
    let ghost up0 = upstream_sizes@;
    let ghost dn0 = downstream_sizes@;
    let ghost ic0 = iat_client_us@;
    let ghost is0 = iat_server_us@;
    assert(up0 =~= seq![request_len, 40usize, 200, 512]);
    assert(ic0 =~= seq![0u64, 50, 100]);
    let third = total / 3;
    let mut k: usize = 1;
    while k < num_flows
        invariant
            1 <= k,
            k <= num_flows || num_flows == 0,
            num_flows == 0 ==> k == 1,
            dn0.len() + 3 * num_flows <= usize::MAX,
            is0.len() + num_flows <= usize::MAX,
            upstream_sizes@ == up0 + Seq::new((k - 1) as nat, |j: int| request_len),
            downstream_sizes@ == dn0 + Seq::new(3 * ((k - 1) as nat), |j: int| third),
            iat_client_us@ == ic0 + Seq::new((k - 1) as nat, |j: int| 500_000u64),
            iat_server_us@ == is0 + Seq::new((k - 1) as nat, |j: int| 50_000u64),
        decreases num_flows - k,
    {
        upstream_sizes.push(request_len);
        downstream_sizes.push(third);
        downstream_sizes.push(third);
        downstream_sizes.push(third);
        iat_client_us.push(500_000);
        iat_server_us.push(50_000);
        assert(upstream_sizes@ =~= up0 + Seq::new(k as nat, |j: int| request_len));
        assert(downstream_sizes@ =~= dn0 + Seq::new(3 * (k as nat), |j: int| third));
        assert(iat_client_us@ =~= ic0 + Seq::new(k as nat, |j: int| 500_000u64));
        assert(iat_server_us@ =~= is0 + Seq::new(k as nat, |j: int| 50_000u64));
        k = k + 1;
    }
    assert(extra_flows(num_flows) == (k - 1) as nat);
    let per = total / 1460 + 1;
    let batch = if per < 10 {
        per
    } else {
        10
    };
    let burst_pattern = vec![
        BurstEntry { batch_size: 2, pause_us: 0, direction: Direction::Upstream },
        BurstEntry { batch_size: batch, pause_us: 100_000, direction: Direction::Downstream },
    ];
    assert(burst_pattern@ =~= seq![
        BurstEntry { batch_size: 2, pause_us: 0, direction: Direction::Upstream },
        BurstEntry { batch_size: batch, pause_us: 100_000, direction: Direction::Downstream },
    ]);
    TrafficMeasurements {
        upstream_sizes,
        downstream_sizes,
        iat_client_us,
        iat_server_us,
        burst_pattern,
        init_window_client: 29200,
        init_window_server: 29200,
        keepalive_us: 30_000_000,
    }
}

proof fn lemma_total_prefix(s: Seq<usize>, i: int)
    requires
        0 <= i <= s.len(),
    ensures
        total_of(s.subrange(0, i)) <= total_of(s),
    decreases s.len() - i,
{
    if i < s.len() {
        lemma_total_prefix(s, i + 1);
        assert(s.subrange(0, i + 1).drop_last() =~= s.subrange(0, i));
    } else {
        assert(s.subrange(0, i) =~= s);
    }
}

} // verus!
