//! Data model of the flow-morphing engine.
//!
//! Quantities that are fractions (weights, probabilities, budgets, noise
//! levels) are held as integers in thousandths (`_milli`); means and standard
//! deviations of sizes and delays are whole bytes or microseconds.
use vstd::prelude::*;
use vstd::multiset::Multiset;

use crate::fme::profiles::chaff_is_disabled;

verus! {

broadcast use vstd::seq_lib::group_to_multiset_ensures;

/// Whether shaping decisions are made per burst or per packet.
#[derive(Debug, Clone, Copy, PartialEq, Eq, Structural)]
pub enum MorphGranularity {
    PerBurst,
    PerPacket,
}

/// Direction of a shaped packet.
#[derive(Debug, Clone, Copy, PartialEq, Eq, Structural)]
pub enum Direction {
    Upstream,
    Downstream,
}

/// One step of a burst pattern: how many packets, the pause after them, and
/// their direction.
#[derive(Debug, Clone, Copy, PartialEq, Eq, Structural)]
pub struct BurstEntry {
    pub batch_size: usize,
    pub pause_us: u64,
    pub direction: Direction,
}

/// A histogram kept as percentile boundaries: `boundaries[i]` is the value at
/// quantile `i / (resolution - 1)` of the measured values.
#[derive(Debug, Clone)]
pub struct CompactHistogram {
    pub boundaries: Vec<u64>,
    pub resolution: usize,
}

/// `s` is in ascending order.
pub open spec fn sorted_u64(s: Seq<u64>) -> bool {
    forall|a: int, b: int| 0 <= a <= b < s.len() ==> s[a] <= s[b]
}

/// The index into the `n` sorted values that percentile point `i` of
/// `resolution` points picks: `i * (n - 1) / (resolution - 1)` rounded half
/// away from zero (point 0 where there is a single point).
pub open spec fn percentile_index(i: int, n: int, resolution: int) -> int {
    if resolution <= 1 {
        0
    } else {
        let idx = (2 * (i * (n - 1)) + (resolution - 1)) / (2 * (resolution - 1));
        if idx < n - 1 {
            idx
        } else {
            n - 1
        }
    }
}

/// `boundaries` are the percentile points of `values` at `resolution` points:
/// `values` in ascending order, sampled at `percentile_index`.
pub open spec fn is_percentile_boundaries(values: Seq<u64>, resolution: int, boundaries: Seq<u64>) -> bool {
    exists|s: Seq<u64>|
        #![trigger s.to_multiset()]
        s.to_multiset() == values.to_multiset() && sorted_u64(s) && boundaries.len() == resolution
            && forall|i: int|
            0 <= i < resolution ==> boundaries[i] == s[percentile_index(i, values.len() as int, resolution)]
}

proof fn lemma_percentile_index_bound(a: int, m: int, d: int)
    requires
        0 <= a <= d,
        0 < d,
        0 <= m,
    ensures
        (2 * (a * m) + d) / (2 * d) <= m,
{
    vstd::arithmetic::mul::lemma_mul_inequality(a, d, m);
    assert(2 * (a * m) + d < 2 * d * (m + 1)) by (nonlinear_arith)
        requires
            a * m <= d * m,
            d > 0,
    ;
    vstd::arithmetic::div_mod::lemma_fundamental_div_mod(2 * (a * m) + d, 2 * d);
    let q = (2 * (a * m) + d) / (2 * d);
    let r = (2 * (a * m) + d) % (2 * d);
    assert(q <= m) by (nonlinear_arith)
        requires
            2 * (a * m) + d == 2 * d * q + r,
            0 <= r,
            2 * (a * m) + d < 2 * d * (m + 1),
            d > 0,
    ;
}

proof fn lemma_percentile_index_range(i: int, n: int, resolution: int)
    requires
        n >= 1,
        0 <= i < resolution,
    ensures
        0 <= percentile_index(i, n, resolution) < n,
        i == 0 ==> percentile_index(i, n, resolution) == 0,
        resolution >= 2 && i == resolution - 1 ==> percentile_index(i, n, resolution) == n - 1,
{
    if resolution > 1 {
        let d = resolution - 1;
        assert(0 <= i * (n - 1)) by (nonlinear_arith)
            requires
                i >= 0,
                n >= 1,
        ;
        assert(0 <= (2 * (i * (n - 1)) + d) / (2 * d)) by (nonlinear_arith)
            requires
                i * (n - 1) >= 0,
                d > 0,
        ;
        if i == 0 {
            vstd::arithmetic::div_mod::lemma_fundamental_div_mod_converse(d, 2 * d, 0, d);
        }
        if i == d {
            assert(2 * (d * (n - 1)) + d == (n - 1) * (2 * d) + d) by (nonlinear_arith);
            vstd::arithmetic::div_mod::lemma_fundamental_div_mod_converse(2 * (d * (n - 1)) + d, 2 * d, n - 1, d);
        }
    }
}

proof fn lemma_percentile_index_monotone(i: int, j: int, n: int, resolution: int)
    requires
        n >= 1,
        0 <= i <= j < resolution,
    ensures
        percentile_index(i, n, resolution) <= percentile_index(j, n, resolution),
{
    if resolution > 1 {
        let d = resolution - 1;
        vstd::arithmetic::mul::lemma_mul_inequality(i, j, n - 1);
        vstd::arithmetic::div_mod::lemma_div_is_ordered(2 * (i * (n - 1)) + d, 2 * (j * (n - 1)) + d, 2 * d);
    }
}

/// Percentile boundaries of a non-empty sample ascend, each is a value of the
/// sample, the first is its smallest value and, from two points on, the last
/// is its largest.
pub proof fn lemma_percentile_boundaries_span(values: Seq<u64>, resolution: int, b: Seq<u64>)
    requires
        values.len() > 0,
        resolution >= 1,
        is_percentile_boundaries(values, resolution, b),
    ensures
        sorted_u64(b),
        forall|i: int| 0 <= i < b.len() ==> values.contains(#[trigger] b[i]),
        forall|k: int| 0 <= k < values.len() ==> b[0] <= #[trigger] values[k],
        resolution >= 2 ==> forall|k: int| 0 <= k < values.len() ==> #[trigger] values[k] <= b[resolution - 1],
{
    let n = values.len() as int;
    let s = choose|s: Seq<u64>|
        #![trigger s.to_multiset()]
        s.to_multiset() == values.to_multiset() && sorted_u64(s) && b.len() == resolution && forall|i: int|
            0 <= i < resolution ==> b[i] == s[percentile_index(i, n, resolution)];
    s.to_multiset_ensures();
    values.to_multiset_ensures();
    assert(s.len() == n);
    assert forall|x: int, y: int| 0 <= x <= y < b.len() implies b[x] <= b[y] by {
        lemma_percentile_index_range(x, n, resolution);
        lemma_percentile_index_range(y, n, resolution);
        lemma_percentile_index_monotone(x, y, n, resolution);
    }
    assert forall|i: int| 0 <= i < b.len() implies values.contains(#[trigger] b[i]) by {
        lemma_percentile_index_range(i, n, resolution);
        let k = percentile_index(i, n, resolution);
        assert(s.contains(s[k]));
        assert(s.to_multiset().count(s[k]) > 0);
    }
    lemma_percentile_index_range(0, n, resolution);
    if resolution >= 2 {
        lemma_percentile_index_range(resolution - 1, n, resolution);
    }
    assert forall|k: int| 0 <= k < values.len() implies b[0] <= #[trigger] values[k] && (resolution >= 2 ==> values[k]
        <= b[resolution - 1]) by {
        assert(values.contains(values[k]));
        assert(values.to_multiset().count(values[k]) > 0);
        assert(s.contains(values[k]));
        let j = choose|j: int| 0 <= j < s.len() && s[j] == values[k];
        assert(s[0] <= s[j]);
        assert(s[j] <= s[n - 1]);
    }
}

/// The median of ascending boundaries lies between the two middle ones: it
/// is the middle one where their count is odd, and their mean rounded down
/// where it is even; so it lies between the smallest and the largest.
pub proof fn lemma_median_between(b: Seq<u64>)
    requires
        b.len() >= 1,
        sorted_u64(b),
    ensures
        b[(b.len() - 1) / 2] <= median_of(b) <= b[b.len() as int / 2],
        b.len() % 2 == 1 ==> median_of(b) == b[(b.len() - 1) / 2],
        b.len() % 2 == 0 ==> 2 * median_of(b) <= b[(b.len() - 1) / 2] + b[b.len() as int / 2] <= 2 * median_of(b) + 1,
        b[0] <= median_of(b) <= b[b.len() - 1],
{
    let m = b.len() - 1;
    if m % 2 == 1 {
        assert(m / 2 + 1 == b.len() as int / 2);
        assert(b[m / 2] <= b[m / 2 + 1]);
    } else {
        assert(m / 2 == b.len() as int / 2);
    }
    assert(b[0] <= b[(b.len() - 1) / 2]);
    assert(b[b.len() as int / 2] <= b[b.len() - 1]);
}

/// The values of `values` in ascending order.
pub fn sorted_copy(values: &[u64]) -> (r: Vec<u64>)
    ensures
        r@.to_multiset() == values@.to_multiset(),
        sorted_u64(r@),
{
    let mut out: Vec<u64> = Vec::new();
    let mut i: usize = 0;
    while i < values.len()
        invariant
            i <= values@.len(),
            out@.to_multiset() == values@.subrange(0, i as int).to_multiset(),
            sorted_u64(out@),
        decreases values@.len() - i,
    {
        let v = values[i];
        let mut j: usize = 0;
        while j < out.len() && out[j] <= v
            invariant
                j <= out@.len(),
                forall|k: int| 0 <= k < j ==> out@[k] <= v,
            decreases out@.len() - j,
        {
            j = j + 1;
        }
        let ghost before = out@;
        proof {
            vstd::seq_lib::to_multiset_insert(before, j as int, v);
        }
        out.insert(j, v);
        assert(values@.subrange(0, (i + 1) as int) =~= values@.subrange(0, i as int).push(v));
        assert(out@ =~= before.insert(j as int, v));
        assert forall|a: int, b: int| 0 <= a <= b < out@.len() implies out@[a] <= out@[b] by {
            if a < j && b < j {
            } else if a < j && b == j {
            } else if a < j {
                assert(out@[b] == before[b - 1]);
            } else if a == j && b == j {
            } else if a == j {
                assert(out@[b] == before[b - 1]);
                assert(before[j as int] > v);
            } else {
                assert(out@[a] == before[a - 1]);
                assert(out@[b] == before[b - 1]);
            }
        }
        i = i + 1;
    }
    assert(values@.subrange(0, values@.len() as int) =~= values@);
    out
}

impl CompactHistogram {
    /// Builds the histogram of `values` at `resolution` percentile points.
    /// An empty input gives the single boundary 0.
    pub fn new(values: &[u64], resolution: usize) -> (r: CompactHistogram)
        requires
            values@.len() < 0x1000_0000_0000_0000,
            resolution < 0x1000_0000_0000_0000,
        ensures
            r.resolution == resolution,
            values@.len() == 0 ==> r.boundaries@ == seq![0u64],
            values@.len() > 0 ==> is_percentile_boundaries(values@, resolution as int, r.boundaries@),
    {
        if values.len() == 0 {
            let mut b: Vec<u64> = Vec::new();
            b.push(0);
            assert(b@ =~= seq![0u64]);
            return CompactHistogram { boundaries: b, resolution };
        }
        let n = values.len();
        let sorted = sorted_copy(values);
        proof {
            sorted@.to_multiset_ensures();
            values@.to_multiset_ensures();
        }
        let mut boundaries: Vec<u64> = Vec::new();
        let mut i: usize = 0;
        while i < resolution
            invariant
                n == values@.len(),
                n == sorted@.len(),
                0 < n < 0x1000_0000_0000_0000,
                resolution < 0x1000_0000_0000_0000,
                i <= resolution,
                boundaries@.len() == i,
                forall|k: int| 0 <= k < i ==> boundaries@[k] == sorted@[percentile_index(k, n as int, resolution as int)],
            decreases resolution - i,
        {
            let idx: usize = if resolution <= 1 {
                0
            } else {
                let a: u128 = i as u128;
                let m: u128 = (n - 1) as u128;
                let d: u128 = (resolution - 1) as u128;
                proof {
                    vstd::arithmetic::mul::lemma_mul_upper_bound(a as int, 0x1000_0000_0000_0000, m as int, 0x1000_0000_0000_0000);
                    lemma_percentile_index_bound(a as int, m as int, d as int);
                }
                let q = (2 * (a * m) + d) / (2 * d);
                assert(q as int == percentile_index(i as int, n as int, resolution as int));
                if q < m { q as usize } else { (n - 1) }
            };
            boundaries.push(sorted[idx]);
            i = i + 1;
        }
        proof {
            assert(is_percentile_boundaries(values@, resolution as int, boundaries@)) by {
                assert(sorted@.to_multiset() == values@.to_multiset());
            }
        }
        CompactHistogram { boundaries, resolution }
    }

    /// The value at quantile 1/2, interpolating between the two middle
    /// boundaries (rounded down) where the midpoint falls between them.
    pub fn median(&self) -> (r: u64)
        requires
            self.boundaries@.len() >= 1,
        ensures
            r == median_of(self.boundaries@),
    {
        let m = self.boundaries.len() - 1;
        let lo = m / 2;
        if m % 2 == 0 {
            self.boundaries[lo]
        } else {
            let a = self.boundaries[lo];
            let b = self.boundaries[lo + 1];
            ((a as u128 + b as u128) / 2) as u64
        }
    }
}

/// Quantile 1/2 of percentile boundaries, by linear interpolation rounded down.
pub open spec fn median_of(b: Seq<u64>) -> u64 {
    let m = b.len() - 1;
    if m % 2 == 0 {
        b[m / 2]
    } else {
        ((b[m / 2] + b[m / 2 + 1]) / 2) as u64
    }
}

fn copy_u64s(s: &Vec<u64>) -> (r: Vec<u64>)
    ensures
        r@ == s@,
{
    let mut v: Vec<u64> = Vec::new();
    let mut i: usize = 0;
    while i < s.len()
        invariant
            i <= s@.len(),
            v@ == s@.subrange(0, i as int),
        decreases s@.len() - i,
    {
        v.push(s[i]);
        i = i + 1;
        assert(s@.subrange(0, i as int) =~= s@.subrange(0, (i - 1) as int).push(s@[i - 1]));
    }
    assert(s@.subrange(0, s@.len() as int) =~= s@);
    v
}

impl CompactHistogram {
    /// A copy of this histogram.
    pub fn duplicate(&self) -> (r: CompactHistogram)
        ensures
            r.boundaries@ == self.boundaries@,
            r.resolution == self.resolution,
    {
        CompactHistogram { boundaries: copy_u64s(&self.boundaries), resolution: self.resolution }
    }
}

/// A component of a Gaussian mixture over packet sizes: mean and standard
/// deviation in bytes, weight in thousandths.
#[derive(Debug, Clone, Copy, PartialEq, Eq, Structural)]
pub struct GmmComponent {
    pub mean: u64,
    pub std_dev: u64,
    pub weight_milli: u64,
}

/// Distribution that packet sizes are drawn from.
#[derive(Debug, Clone)]
pub enum SizeDistribution {
    Histogram(CompactHistogram),
    GMM { components: Vec<GmmComponent> },
}

impl SizeDistribution {
    /// The histogram of `values` at `resolution` percentile points.
    pub fn from_histogram(values: &[u64], resolution: usize) -> (r: SizeDistribution)
        requires
            values@.len() < 0x1000_0000_0000_0000,
            resolution < 0x1000_0000_0000_0000,
        ensures
            r matches SizeDistribution::Histogram(h) && h.resolution == resolution && (values@.len() == 0
                ==> h.boundaries@ == seq![0u64]) && (values@.len() > 0 ==> is_percentile_boundaries(
                values@,
                resolution as int,
                h.boundaries@,
            )),
    {
        SizeDistribution::Histogram(CompactHistogram::new(values, resolution))
    }

    /// The mixture of the given components.
    pub fn from_gmm(components: Vec<GmmComponent>) -> (r: SizeDistribution)
        ensures
            r matches SizeDistribution::GMM { components: c } && c@ == components@,
    {
        SizeDistribution::GMM { components }
    }
}

fn copy_components(s: &Vec<GmmComponent>) -> (r: Vec<GmmComponent>)
    ensures
        r@ == s@,
{
    let mut v: Vec<GmmComponent> = Vec::new();
    let mut i: usize = 0;
    while i < s.len()
        invariant
            i <= s@.len(),
            v@ == s@.subrange(0, i as int),
        decreases s@.len() - i,
    {
        v.push(s[i]);
        i = i + 1;
        assert(s@.subrange(0, i as int) =~= s@.subrange(0, (i - 1) as int).push(s@[i - 1]));
    }
    assert(s@.subrange(0, s@.len() as int) =~= s@);
    v
}

/// Two size distributions have the same contents.
pub open spec fn same_size_distribution(a: SizeDistribution, b: SizeDistribution) -> bool {
    match (a, b) {
        (SizeDistribution::Histogram(x), SizeDistribution::Histogram(y)) => x.boundaries@ == y.boundaries@
            && x.resolution == y.resolution,
        (SizeDistribution::GMM { components: x }, SizeDistribution::GMM { components: y }) => x@ == y@,
        _ => false,
    }
}

impl SizeDistribution {
    /// A copy of this distribution.
    pub fn duplicate(&self) -> (r: SizeDistribution)
        ensures
            same_size_distribution(r, *self),
    {
        match self {
            SizeDistribution::Histogram(h) => SizeDistribution::Histogram(h.duplicate()),
            SizeDistribution::GMM { components } => SizeDistribution::GMM { components: copy_components(components) },
        }
    }
}

/// A state of the inter-arrival-time Markov chain: mean and standard deviation
/// of the delay, in microseconds.
#[derive(Debug, Clone, Copy, PartialEq, Eq, Structural)]
pub struct MarkovState {
    pub mean_us: u64,
    pub std_dev_us: u64,
}

/// Source of inter-arrival times: a histogram, or a Markov chain whose
/// transition rows are probabilities in thousandths.
#[derive(Debug, Clone)]
pub enum IatGenerator {
    Histogram(CompactHistogram),
    MarkovChain { states: Vec<MarkovState>, transition: Vec<Vec<u64>>, initial_state: usize },
}

/// The kinds of chaff payload.
#[derive(Debug, Clone, Copy, PartialEq, Eq, Structural)]
pub enum ChaffContent {
    RandomBytes,
    HttpLikeHeaders,
    DnsLikeQuery,
    DummyTlsRecord,
    Http2Frame,
    RandomHighEntropy,
}

/// Weight (in thousandths) of a chaff content kind.
#[derive(Debug, Clone, Copy, PartialEq, Eq, Structural)]
pub struct ChaffTypeWeight {
    pub content: ChaffContent,
    pub weight_milli: u64,
}

/// When and what chaff to send.
#[derive(Debug, Clone)]
pub struct ChaffConfig {
    pub enabled: bool,
    pub min_interval_us: u64,
    pub max_interval_us: u64,
    pub size_distribution: SizeDistribution,
    pub content: ChaffContent,
    pub type_weights: Vec<ChaffTypeWeight>,
}

impl ChaffConfig {
    /// Chaff switched off; the other fields hold moderate values.
    pub fn disabled() -> (r: ChaffConfig)
        ensures
            !r.enabled,
            r.min_interval_us == 1_000_000,
            r.max_interval_us == 5_000_000,
            r.size_distribution matches SizeDistribution::GMM { components } && components@ == seq![
                GmmComponent { mean: 128, std_dev: 32, weight_milli: 1000 },
            ],
            r.content == ChaffContent::RandomBytes,
            r.type_weights@ == Seq::<ChaffTypeWeight>::empty(),
    {
        let mut components: Vec<GmmComponent> = Vec::new();
        components.push(GmmComponent { mean: 128, std_dev: 32, weight_milli: 1000 });
        assert(components@ =~= seq![GmmComponent { mean: 128, std_dev: 32, weight_milli: 1000 }]);
        let type_weights: Vec<ChaffTypeWeight> = Vec::new();
        assert(type_weights@ =~= Seq::<ChaffTypeWeight>::empty());
        ChaffConfig {
            enabled: false,
            min_interval_us: 1_000_000,
            max_interval_us: 5_000_000,
            size_distribution: SizeDistribution::GMM { components },
            content: ChaffContent::RandomBytes,
            type_weights,
        }
    }
}

fn copy_weights(s: &Vec<ChaffTypeWeight>) -> (r: Vec<ChaffTypeWeight>)
    ensures
        r@ == s@,
{
    let mut v: Vec<ChaffTypeWeight> = Vec::new();
    let mut i: usize = 0;
    while i < s.len()
        invariant
            i <= s@.len(),
            v@ == s@.subrange(0, i as int),
        decreases s@.len() - i,
    {
        v.push(s[i]);
        i = i + 1;
        assert(s@.subrange(0, i as int) =~= s@.subrange(0, (i - 1) as int).push(s@[i - 1]));
    }
    assert(s@.subrange(0, s@.len() as int) =~= s@);
    v
}

/// Two chaff configurations have the same contents.
pub open spec fn same_chaff_config(a: ChaffConfig, b: ChaffConfig) -> bool {
    &&& a.enabled == b.enabled
    &&& a.min_interval_us == b.min_interval_us
    &&& a.max_interval_us == b.max_interval_us
    &&& same_size_distribution(a.size_distribution, b.size_distribution)
    &&& a.content == b.content
    &&& a.type_weights@ == b.type_weights@
}

impl ChaffConfig {
    /// A copy of this configuration.
    pub fn duplicate(&self) -> (r: ChaffConfig)
        ensures
            same_chaff_config(r, *self),
    {
        ChaffConfig {
            enabled: self.enabled,
            min_interval_us: self.min_interval_us,
            max_interval_us: self.max_interval_us,
            size_distribution: self.size_distribution.duplicate(),
            content: self.content,
            type_weights: copy_weights(&self.type_weights),
        }
    }
}

impl Default for ChaffConfig {
    fn default() -> (r: ChaffConfig)
        ensures
            !r.enabled,
    {
        ChaffConfig::disabled()
    }
}

/// Noise added to sizes and delays, in thousandths of the value.
#[derive(Debug, Clone, Copy, PartialEq, Eq, Structural)]
pub struct AdversarialConfig {
    pub enabled: bool,
    pub jitter_pct_milli: u64,
    pub size_noise_pct_milli: u64,
}

impl Default for AdversarialConfig {
    fn default() -> (r: AdversarialConfig)
        ensures
            r == (AdversarialConfig { enabled: false, jitter_pct_milli: 0, size_noise_pct_milli: 0 }),
    {
        AdversarialConfig { enabled: false, jitter_pct_milli: 0, size_noise_pct_milli: 0 }
    }
}

/// When a morphing model is swapped for another.
#[derive(Debug, Clone, Copy, PartialEq, Eq, Structural)]
pub enum ModelRotation {
    Never,
    PerSession,
}

impl Default for ModelRotation {
    fn default() -> (r: ModelRotation)
        ensures
            r == ModelRotation::Never,
    {
        ModelRotation::Never
    }
}

/// A named traffic profile.
#[derive(Debug, Clone)]
pub struct MorphProfile {
    pub name: String,
    pub overhead_budget_milli: u64,
    pub chaff: ChaffConfig,
    pub rotation: ModelRotation,
    pub adversarial: AdversarialConfig,
    pub random_padding: bool,
}

/// Statistical model of a site's traffic, used for morphing.
#[derive(Debug, Clone)]
pub struct SiteModel {
    pub name: String,
    pub upstream_sizes: SizeDistribution,
    pub downstream_sizes: SizeDistribution,
    pub iat_client: IatGenerator,
    pub iat_server: IatGenerator,
    pub burst_pattern: Vec<BurstEntry>,
    pub init_window_client: u32,
    pub init_window_server: u32,
    pub keepalive_us: u64,
    pub overhead_budget_milli: u64,
    pub granularity: MorphGranularity,
    pub chaff: ChaffConfig,
    pub adversarial: AdversarialConfig,
    pub random_padding: bool,
}

/// Sum of a sequence of integers.
pub open spec fn seq_sum(s: Seq<u64>) -> int
    decreases s.len(),
{
    if s.len() == 0 {
        0
    } else {
        seq_sum(s.drop_last()) + s.last()
    }
}

/// Sum of the weights of mixture components.
pub open spec fn gmm_weight_sum(c: Seq<GmmComponent>) -> int
    decreases c.len(),
{
    if c.len() == 0 {
        0
    } else {
        gmm_weight_sum(c.drop_last()) + c.last().weight_milli
    }
}

/// Appending `x` adds `x` to the sum.
pub proof fn lemma_seq_sum_push(s: Seq<u64>, x: u64)
    ensures
        seq_sum(s.push(x)) == seq_sum(s) + x,
{
    assert(s.push(x).drop_last() =~= s);
}

/// Appending a component adds its weight to the weight sum.
pub proof fn lemma_gmm_weight_sum_push(c: Seq<GmmComponent>, x: GmmComponent)
    ensures
        gmm_weight_sum(c.push(x)) == gmm_weight_sum(c) + x.weight_milli,
{
    assert(c.push(x).drop_last() =~= c);
}

/// A size distribution that can be sampled: a non-empty histogram, or a
/// non-empty mixture whose weights add up to one.
pub open spec fn valid_size_distribution(d: SizeDistribution) -> bool {
    match d {
        SizeDistribution::Histogram(h) => h.boundaries@.len() > 0,
        SizeDistribution::GMM { components } => components@.len() > 0 && gmm_weight_sum(components@) == 1000,
    }
}

/// An inter-arrival-time source that can be sampled: a non-empty histogram,
/// or a Markov chain with a square transition matrix whose rows each add up
/// to one, starting in one of its states.
pub open spec fn valid_iat_generator(g: IatGenerator) -> bool {
    match g {
        IatGenerator::Histogram(h) => h.boundaries@.len() > 0,
        IatGenerator::MarkovChain { states, transition, initial_state } => {
            &&& states@.len() > 0
            &&& transition@.len() == states@.len()
            &&& initial_state < states@.len()
            &&& forall|i: int|
                0 <= i < transition@.len() ==> (#[trigger] transition@[i])@.len() == states@.len()
                    && seq_sum(transition@[i]@) == 1000
        },
    }
}

/// A model that the morpher can sample from: valid size and delay sources,
/// and a chaff configuration whose interval range is ordered.
pub open spec fn valid_site_model(m: SiteModel) -> bool {
    &&& valid_size_distribution(m.upstream_sizes)
    &&& valid_size_distribution(m.downstream_sizes)
    &&& valid_iat_generator(m.iat_client)
    &&& valid_iat_generator(m.iat_server)
    &&& m.chaff.min_interval_us <= m.chaff.max_interval_us
    &&& valid_size_distribution(m.chaff.size_distribution)
}

/// `h` is the histogram of `values` at `resolution` points, as
/// `CompactHistogram::new` builds it.
pub open spec fn histogram_of(values: Seq<u64>, resolution: int, h: CompactHistogram) -> bool {
    &&& h.resolution == resolution
    &&& values.len() == 0 ==> h.boundaries@ == seq![0u64]
    &&& values.len() > 0 ==> is_percentile_boundaries(values, resolution, h.boundaries@)
}

/// The histogram of a single value has that value at every point.
pub proof fn lemma_single_value_histogram(v: u64, resolution: int, b: Seq<u64>)
    requires
        is_percentile_boundaries(seq![v], resolution, b),
    ensures
        b == Seq::new(resolution as nat, |i: int| v),
{
    let s = choose|s: Seq<u64>|
        #![trigger s.to_multiset()]
        s.to_multiset() == seq![v].to_multiset() && sorted_u64(s) && b.len() == resolution && forall|i: int|
            0 <= i < resolution ==> b[i] == s[percentile_index(i, 1, resolution)];
    s.to_multiset_ensures();
    seq![v].to_multiset_ensures();
    assert(s.len() == 1);
    assert(s.contains(s[0]));
    assert(s.to_multiset().count(s[0]) > 0);
    assert(seq![v].to_multiset().count(s[0]) > 0);
    assert(seq![v].contains(s[0]));
    assert(s[0] == v);
    assert forall|i: int| 0 <= i < resolution implies b[i] == v by {
        if resolution > 1 {
            assert(i * 0 == 0);
            vstd::arithmetic::div_mod::lemma_basic_div(resolution - 1, 2 * (resolution - 1));
        }
        assert(percentile_index(i, 1, resolution) == 0);
    }
    assert(b =~= Seq::new(resolution as nat, |i: int| v));
}

/// Raw traffic measurements gathered by the collector.
#[derive(Debug, Clone)]
pub struct TrafficMeasurements {
    pub upstream_sizes: Vec<usize>,
    pub downstream_sizes: Vec<usize>,
    pub iat_client_us: Vec<u64>,
    pub iat_server_us: Vec<u64>,
    pub burst_pattern: Vec<BurstEntry>,
    pub init_window_client: u32,
    pub init_window_server: u32,
    pub keepalive_us: u64,
}

fn append_usize(v: &mut Vec<usize>, s: &Vec<usize>)
    ensures
        final(v)@ == old(v)@ + s@,
{
    let mut i: usize = 0;
    while i < s.len()
        invariant
            i <= s@.len(),
            v@ == old(v)@ + s@.subrange(0, i as int),
        decreases s@.len() - i,
    {
        v.push(s[i]);
        i = i + 1;
        assert(s@.subrange(0, i as int) =~= s@.subrange(0, (i - 1) as int).push(s@[i - 1]));
    }
    assert(s@.subrange(0, s@.len() as int) =~= s@);
}

fn append_u64(v: &mut Vec<u64>, s: &Vec<u64>)
    ensures
        final(v)@ == old(v)@ + s@,
{
    let mut i: usize = 0;
    while i < s.len()
        invariant
            i <= s@.len(),
            v@ == old(v)@ + s@.subrange(0, i as int),
        decreases s@.len() - i,
    {
        v.push(s[i]);
        i = i + 1;
        assert(s@.subrange(0, i as int) =~= s@.subrange(0, (i - 1) as int).push(s@[i - 1]));
    }
    assert(s@.subrange(0, s@.len() as int) =~= s@);
}

/// A copy of a burst pattern.
pub fn copy_bursts(s: &Vec<BurstEntry>) -> (r: Vec<BurstEntry>)
    ensures
        r@ == s@,
{
    let mut v: Vec<BurstEntry> = Vec::new();
    let mut i: usize = 0;
    while i < s.len()
        invariant
            i <= s@.len(),
            v@ == s@.subrange(0, i as int),
        decreases s@.len() - i,
    {
        v.push(s[i]);
        i = i + 1;
        assert(s@.subrange(0, i as int) =~= s@.subrange(0, (i - 1) as int).push(s@[i - 1]));
    }
    assert(s@.subrange(0, s@.len() as int) =~= s@);
    v
}

/// `h` has `resolution` points that all hold `v`.
pub open spec fn constant_histogram(h: CompactHistogram, v: u64, resolution: int) -> bool {
    &&& h.resolution == resolution
    &&& h.boundaries@ == Seq::new(resolution as nat, |i: int| v)
}

fn single_value_histogram(v: u64, resolution: usize) -> (h: CompactHistogram)
    requires
        resolution < 0x1000_0000_0000_0000,
    ensures
        constant_histogram(h, v, resolution as int),
{
    let values = vec![v];
    assert(values@ =~= seq![v]);
    let h = CompactHistogram::new(values.as_slice(), resolution);
    proof {
        lemma_single_value_histogram(v, resolution as int, h.boundaries@);
    }
    h
}

fn widen_sizes(values: &Vec<usize>) -> (r: Vec<u64>)
    ensures
        r@ == values@.map_values(|x: usize| x as u64),
{
    let mut out: Vec<u64> = Vec::new();
    let mut i: usize = 0;
    while i < values.len()
        invariant
            i <= values@.len(),
            out@ == values@.subrange(0, i as int).map_values(|x: usize| x as u64),
        decreases values@.len() - i,
    {
        out.push(values[i] as u64);
        i = i + 1;
        assert(values@.subrange(0, i as int).map_values(|x: usize| x as u64) =~= values@.subrange(
            0,
            (i - 1) as int,
        ).map_values(|x: usize| x as u64).push(values@[i - 1] as u64));
    }
    assert(values@.subrange(0, values@.len() as int) =~= values@);
    out
}

fn disabled_chaff_config() -> (r: ChaffConfig)
    ensures
        chaff_is_disabled(r),
        r.min_interval_us <= r.max_interval_us,
        valid_size_distribution(r.size_distribution),
{
    let r = ChaffConfig::disabled();
    proof {
        lemma_gmm_weight_sum_push(seq![], GmmComponent { mean: 128, std_dev: 32, weight_milli: 1000 });
        assert(seq![].push(GmmComponent { mean: 128, std_dev: 32, weight_milli: 1000 }) =~= seq![
            GmmComponent { mean: 128, std_dev: 32, weight_milli: 1000 },
        ]);
    }
    r
}

impl SiteModel {
    /// A model named `name` with neutral statistics: every size 1460 bytes,
    /// every delay 1000 µs (21-point histograms), one upstream burst of three
    /// packets with a 50 ms pause, a 30 s keepalive, half the traffic as
    /// budget, shaping per burst, and no chaff, noise or random padding.
    pub fn new(name: String) -> (r: SiteModel)
        ensures
            r.name@ == name@,
            r.upstream_sizes matches SizeDistribution::Histogram(h) && constant_histogram(h, 1460, 21),
            r.downstream_sizes matches SizeDistribution::Histogram(h) && constant_histogram(h, 1460, 21),
            r.iat_client matches IatGenerator::Histogram(h) && constant_histogram(h, 1000, 21),
            r.iat_server matches IatGenerator::Histogram(h) && constant_histogram(h, 1000, 21),
            r.burst_pattern@ == seq![BurstEntry { batch_size: 3, pause_us: 50_000, direction: Direction::Upstream }],
            r.init_window_client == 29200,
            r.init_window_server == 29200,
            r.keepalive_us == 30_000_000,
            r.overhead_budget_milli == 500,
            r.granularity == MorphGranularity::PerBurst,
            chaff_is_disabled(r.chaff),
            r.adversarial == (AdversarialConfig { enabled: false, jitter_pct_milli: 0, size_noise_pct_milli: 0 }),
            !r.random_padding,
            valid_site_model(r),
    {
        let burst_pattern = vec![BurstEntry { batch_size: 3, pause_us: 50_000, direction: Direction::Upstream }];
        assert(burst_pattern@ =~= seq![BurstEntry { batch_size: 3, pause_us: 50_000, direction: Direction::Upstream }]);
        SiteModel {
            name,
            upstream_sizes: SizeDistribution::Histogram(single_value_histogram(1460, 21)),
            downstream_sizes: SizeDistribution::Histogram(single_value_histogram(1460, 21)),
            iat_client: IatGenerator::Histogram(single_value_histogram(1000, 21)),
            iat_server: IatGenerator::Histogram(single_value_histogram(1000, 21)),
            burst_pattern,
            init_window_client: 29200,
            init_window_server: 29200,
            keepalive_us: 30_000_000,
            overhead_budget_milli: 500,
            granularity: MorphGranularity::PerBurst,
            chaff: disabled_chaff_config(),
            adversarial: AdversarialConfig { enabled: false, jitter_pct_milli: 0, size_noise_pct_milli: 0 },
            random_padding: false,
        }
    }

    /// A model named `name` built from measurements: 41-point histograms of
    /// the measured sizes and delays, the measured burst pattern, windows and
    /// keepalive, half the traffic as budget, shaping per burst, and no
    /// chaff, noise or random padding.
    pub fn from_measurements(name: String, m: &TrafficMeasurements) -> (r: SiteModel)
        requires
            m.upstream_sizes@.len() < 0x1000_0000_0000_0000,
            m.downstream_sizes@.len() < 0x1000_0000_0000_0000,
            m.iat_client_us@.len() < 0x1000_0000_0000_0000,
            m.iat_server_us@.len() < 0x1000_0000_0000_0000,
        ensures
            r.name@ == name@,
            r.upstream_sizes matches SizeDistribution::Histogram(h) && histogram_of(
                m.upstream_sizes@.map_values(|x: usize| x as u64),
                41,
                h,
            ),
            r.downstream_sizes matches SizeDistribution::Histogram(h) && histogram_of(
                m.downstream_sizes@.map_values(|x: usize| x as u64),
                41,
                h,
            ),
            r.iat_client matches IatGenerator::Histogram(h) && histogram_of(m.iat_client_us@, 41, h),
            r.iat_server matches IatGenerator::Histogram(h) && histogram_of(m.iat_server_us@, 41, h),
            r.burst_pattern@ == m.burst_pattern@,
            r.init_window_client == m.init_window_client,
            r.init_window_server == m.init_window_server,
            r.keepalive_us == m.keepalive_us,
            r.overhead_budget_milli == 500,
            r.granularity == MorphGranularity::PerBurst,
            chaff_is_disabled(r.chaff),
            r.adversarial == (AdversarialConfig { enabled: false, jitter_pct_milli: 0, size_noise_pct_milli: 0 }),
            !r.random_padding,
            valid_site_model(r),
    {
        let up = widen_sizes(&m.upstream_sizes);
        let dn = widen_sizes(&m.downstream_sizes);
        let resolution: usize = 41;
        let up_h = CompactHistogram::new(up.as_slice(), resolution);
        let dn_h = CompactHistogram::new(dn.as_slice(), resolution);
        let ic_h = CompactHistogram::new(m.iat_client_us.as_slice(), resolution);
        let is_h = CompactHistogram::new(m.iat_server_us.as_slice(), resolution);
        SiteModel {
            name,
            upstream_sizes: SizeDistribution::Histogram(up_h),
            downstream_sizes: SizeDistribution::Histogram(dn_h),
            iat_client: IatGenerator::Histogram(ic_h),
            iat_server: IatGenerator::Histogram(is_h),
            burst_pattern: copy_bursts(&m.burst_pattern),
            init_window_client: m.init_window_client,
            init_window_server: m.init_window_server,
            keepalive_us: m.keepalive_us,
            overhead_budget_milli: 500,
            granularity: MorphGranularity::PerBurst,
            chaff: disabled_chaff_config(),
            adversarial: AdversarialConfig { enabled: false, jitter_pct_milli: 0, size_noise_pct_milli: 0 },
            random_padding: false,
        }
    }
}

impl TrafficMeasurements {
    /// No measurements.
    pub fn empty() -> (r: TrafficMeasurements)
        ensures
            r.upstream_sizes@.len() == 0,
            r.downstream_sizes@.len() == 0,
            r.iat_client_us@.len() == 0,
            r.iat_server_us@.len() == 0,
            r.burst_pattern@.len() == 0,
            r.init_window_client == 0,
            r.init_window_server == 0,
            r.keepalive_us == 0,
    {
        TrafficMeasurements {
            upstream_sizes: Vec::new(),
            downstream_sizes: Vec::new(),
            iat_client_us: Vec::new(),
            iat_server_us: Vec::new(),
            burst_pattern: Vec::new(),
            init_window_client: 0,
            init_window_server: 0,
            keepalive_us: 0,
        }
    }

    /// Adds `other`'s samples to this one's; the longer burst pattern is
    /// kept, and the window sizes and keepalive are `other`'s.
    pub fn merge(&mut self, other: &TrafficMeasurements)
        ensures
            final(self).upstream_sizes@ == old(self).upstream_sizes@ + other.upstream_sizes@,
            final(self).downstream_sizes@ == old(self).downstream_sizes@ + other.downstream_sizes@,
            final(self).iat_client_us@ == old(self).iat_client_us@ + other.iat_client_us@,
            final(self).iat_server_us@ == old(self).iat_server_us@ + other.iat_server_us@,
            final(self).burst_pattern@ == if other.burst_pattern@.len() > old(self).burst_pattern@.len() {
                other.burst_pattern@
            } else {
                old(self).burst_pattern@
            },
            final(self).init_window_client == other.init_window_client,
            final(self).init_window_server == other.init_window_server,
            final(self).keepalive_us == other.keepalive_us,
    {
        append_usize(&mut self.upstream_sizes, &other.upstream_sizes);
        append_usize(&mut self.downstream_sizes, &other.downstream_sizes);
        append_u64(&mut self.iat_client_us, &other.iat_client_us);
        append_u64(&mut self.iat_server_us, &other.iat_server_us);
        if other.burst_pattern.len() > self.burst_pattern.len() {
            self.burst_pattern = copy_bursts(&other.burst_pattern);
        }
        self.init_window_client = other.init_window_client;
        self.init_window_server = other.init_window_server;
        self.keepalive_us = other.keepalive_us;
    }
}

impl Default for TrafficMeasurements {
    fn default() -> (r: TrafficMeasurements)
        ensures
            r.upstream_sizes@.len() == 0,
            r.burst_pattern@.len() == 0,
    {
        TrafficMeasurements::empty()
    }
}

/// A packet produced by the morpher: its bytes, how many leading bytes are
/// real data, its direction, the delay before sending, and whether it is chaff.
#[derive(Debug, Clone)]
pub struct MorphedPacket {
    pub data: Vec<u8>,
    pub real_data_len: usize,
    pub direction: Direction,
    pub send_after_us: u64,
    pub is_chaff: bool,
}

} // verus!
