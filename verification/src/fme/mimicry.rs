//! Ready-made site models that imitate common kinds of traffic.
use vstd::prelude::*;

use crate::fme::chaff::{browser_chaff_weights, chat_chaff_weights, paranoid_chaff_weights};
use crate::fme::model::{
    gmm_weight_sum, lemma_gmm_weight_sum_push, lemma_seq_sum_push, seq_sum, valid_iat_generator, valid_site_model,
    valid_size_distribution, AdversarialConfig, BurstEntry, ChaffConfig, ChaffContent, ChaffTypeWeight, Direction,
    GmmComponent, IatGenerator, MarkovState, MorphGranularity, SiteModel, SizeDistribution,
};
use crate::fme::profiles::{chaff_is, chaff_is_disabled};

verus! {

broadcast use vstd::string::group_string_axioms;

/// `d` is the Gaussian mixture with exactly the components `c`.
pub open spec fn gmm_is(d: SizeDistribution, c: Seq<GmmComponent>) -> bool {
    d matches SizeDistribution::GMM { components } && components@ == c
}

/// `g` is the Markov chain with exactly these states, transition rows (in
/// thousandths) and initial state.
pub open spec fn markov_is(g: IatGenerator, states: Seq<MarkovState>, rows: Seq<Seq<u64>>, initial: usize) -> bool {
    &&& g matches IatGenerator::MarkovChain { states: s, transition: t, initial_state: i }
    &&& s@ == states
    &&& t@.len() == rows.len()
    &&& forall|k: int| 0 <= k < rows.len() ==> (#[trigger] t@[k])@ == rows[k]
    &&& i == initial
}

fn mixture(components: Vec<GmmComponent>) -> (r: SizeDistribution)
    requires
        components@.len() > 0,
        gmm_weight_sum(components@) == 1000,
    ensures
        gmm_is(r, components@),
        valid_size_distribution(r),
{
    SizeDistribution::from_gmm(components)
}

fn mixture2(a: GmmComponent, b: GmmComponent) -> (r: SizeDistribution)
    requires
        a.weight_milli + b.weight_milli == 1000,
    ensures
        gmm_is(r, seq![a, b]),
        valid_size_distribution(r),
{
    proof {
        lemma_gmm_weight_sum_push(seq![], a);
        assert(seq![].push(a) =~= seq![a]);
        lemma_gmm_weight_sum_push(seq![a], b);
        assert(seq![a].push(b) =~= seq![a, b]);
    }
    let v = vec![a, b];
    assert(v@ =~= seq![a, b]);
    mixture(v)
}

fn mixture3(a: GmmComponent, b: GmmComponent, c: GmmComponent) -> (r: SizeDistribution)
    requires
        a.weight_milli + b.weight_milli + c.weight_milli == 1000,
    ensures
        gmm_is(r, seq![a, b, c]),
        valid_size_distribution(r),
{
    proof {
        lemma_gmm_weight_sum_push(seq![], a);
        assert(seq![].push(a) =~= seq![a]);
        lemma_gmm_weight_sum_push(seq![a], b);
        assert(seq![a].push(b) =~= seq![a, b]);
        lemma_gmm_weight_sum_push(seq![a, b], c);
        assert(seq![a, b].push(c) =~= seq![a, b, c]);
    }
    let v = vec![a, b, c];
    assert(v@ =~= seq![a, b, c]);
    mixture(v)
}

fn mixture4(a: GmmComponent, b: GmmComponent, c: GmmComponent, d: GmmComponent) -> (r: SizeDistribution)
    requires
        a.weight_milli + b.weight_milli + c.weight_milli + d.weight_milli == 1000,
    ensures
        gmm_is(r, seq![a, b, c, d]),
        valid_size_distribution(r),
{
    proof {
        lemma_gmm_weight_sum_push(seq![], a);
        assert(seq![].push(a) =~= seq![a]);
        lemma_gmm_weight_sum_push(seq![a], b);
        assert(seq![a].push(b) =~= seq![a, b]);
        lemma_gmm_weight_sum_push(seq![a, b], c);
        assert(seq![a, b].push(c) =~= seq![a, b, c]);
        lemma_gmm_weight_sum_push(seq![a, b, c], d);
        assert(seq![a, b, c].push(d) =~= seq![a, b, c, d]);
    }
    let v = vec![a, b, c, d];
    assert(v@ =~= seq![a, b, c, d]);
    mixture(v)
}

fn row2(a: u64, b: u64) -> (r: Vec<u64>)
    ensures
        r@ == seq![a, b],
        seq_sum(r@) == a + b,
{
    proof {
        lemma_seq_sum_push(seq![], a);
        assert(seq![].push(a) =~= seq![a]);
        lemma_seq_sum_push(seq![a], b);
        assert(seq![a].push(b) =~= seq![a, b]);
    }
    let v = vec![a, b];
    assert(v@ =~= seq![a, b]);
    v
}

fn row3(a: u64, b: u64, c: u64) -> (r: Vec<u64>)
    ensures
        r@ == seq![a, b, c],
        seq_sum(r@) == a + b + c,
{
    proof {
        lemma_seq_sum_push(seq![], a);
        assert(seq![].push(a) =~= seq![a]);
        lemma_seq_sum_push(seq![a], b);
        assert(seq![a].push(b) =~= seq![a, b]);
        lemma_seq_sum_push(seq![a, b], c);
        assert(seq![a, b].push(c) =~= seq![a, b, c]);
    }
    let v = vec![a, b, c];
    assert(v@ =~= seq![a, b, c]);
    v
}

fn row4(a: u64, b: u64, c: u64, d: u64) -> (r: Vec<u64>)
    ensures
        r@ == seq![a, b, c, d],
        seq_sum(r@) == a + b + c + d,
{
    proof {
        lemma_seq_sum_push(seq![], a);
        assert(seq![].push(a) =~= seq![a]);
        lemma_seq_sum_push(seq![a], b);
        assert(seq![a].push(b) =~= seq![a, b]);
        lemma_seq_sum_push(seq![a, b], c);
        assert(seq![a, b].push(c) =~= seq![a, b, c]);
        lemma_seq_sum_push(seq![a, b, c], d);
        assert(seq![a, b, c].push(d) =~= seq![a, b, c, d]);
    }
    let v = vec![a, b, c, d];
    assert(v@ =~= seq![a, b, c, d]);
    v
}

fn row8(a: u64, b: u64, c: u64, d: u64, e: u64, f: u64, g: u64, h: u64) -> (r: Vec<u64>)
    ensures
        r@ == seq![a, b, c, d, e, f, g, h],
        seq_sum(r@) == a + b + c + d + e + f + g + h,
{
    proof {
        lemma_seq_sum_push(seq![], a);
        assert(seq![].push(a) =~= seq![a]);
        lemma_seq_sum_push(seq![a], b);
        assert(seq![a].push(b) =~= seq![a, b]);
        lemma_seq_sum_push(seq![a, b], c);
        assert(seq![a, b].push(c) =~= seq![a, b, c]);
        lemma_seq_sum_push(seq![a, b, c], d);
        assert(seq![a, b, c].push(d) =~= seq![a, b, c, d]);
        lemma_seq_sum_push(seq![a, b, c, d], e);
        assert(seq![a, b, c, d].push(e) =~= seq![a, b, c, d, e]);
        lemma_seq_sum_push(seq![a, b, c, d, e], f);
        assert(seq![a, b, c, d, e].push(f) =~= seq![a, b, c, d, e, f]);
        lemma_seq_sum_push(seq![a, b, c, d, e, f], g);
        assert(seq![a, b, c, d, e, f].push(g) =~= seq![a, b, c, d, e, f, g]);
        lemma_seq_sum_push(seq![a, b, c, d, e, f, g], h);
        assert(seq![a, b, c, d, e, f, g].push(h) =~= seq![a, b, c, d, e, f, g, h]);
    }
    let v = vec![a, b, c, d, e, f, g, h];
    assert(v@ =~= seq![a, b, c, d, e, f, g, h]);
    v
}

fn chain(states: Vec<MarkovState>, transition: Vec<Vec<u64>>, initial_state: usize) -> (r: IatGenerator)
    requires
        states@.len() > 0,
        transition@.len() == states@.len(),
        initial_state < states@.len(),
        forall|i: int|
            0 <= i < transition@.len() ==> (#[trigger] transition@[i])@.len() == states@.len() && seq_sum(
                transition@[i]@,
            ) == 1000,
    ensures
        valid_iat_generator(r),
        r matches IatGenerator::MarkovChain { states: s, transition: t, initial_state: i } && s@ == states@ && t@
            == transition@ && i == initial_state,
{
    IatGenerator::MarkovChain { states, transition, initial_state }
}

fn chain2(states: Vec<MarkovState>, r0: Vec<u64>, r1: Vec<u64>, initial_state: usize) -> (r: IatGenerator)
    requires
        states@.len() == 2,
        r0@.len() == 2 && seq_sum(r0@) == 1000,
        r1@.len() == 2 && seq_sum(r1@) == 1000,
        initial_state < 2,
    ensures
        valid_iat_generator(r),
        markov_is(r, states@, seq![r0@, r1@], initial_state),
{
    let ghost rows = seq![r0@, r1@];
    let t = vec![r0, r1];
    assert(t@.len() == 2);
    assert forall|k: int| 0 <= k < 2 implies (#[trigger] t@[k])@ == rows[k] by {
        if k == 0 {
        } else {
        }
    }
    chain(states, t, initial_state)
}

fn chain3(states: Vec<MarkovState>, r0: Vec<u64>, r1: Vec<u64>, r2: Vec<u64>, initial_state: usize) -> (r: IatGenerator)
    requires
        states@.len() == 3,
        r0@.len() == 3 && seq_sum(r0@) == 1000,
        r1@.len() == 3 && seq_sum(r1@) == 1000,
        r2@.len() == 3 && seq_sum(r2@) == 1000,
        initial_state < 3,
    ensures
        valid_iat_generator(r),
        markov_is(r, states@, seq![r0@, r1@, r2@], initial_state),
{
    let ghost rows = seq![r0@, r1@, r2@];
    let t = vec![r0, r1, r2];
    assert(t@.len() == 3);
    assert forall|k: int| 0 <= k < 3 implies (#[trigger] t@[k])@ == rows[k] by {
        if k == 0 {
        } else if k == 1 {
        } else {
        }
    }
    chain(states, t, initial_state)
}

fn chain4(
    states: Vec<MarkovState>,
    r0: Vec<u64>,
    r1: Vec<u64>,
    r2: Vec<u64>,
    r3: Vec<u64>,
    initial_state: usize,
) -> (r: IatGenerator)
    requires
        states@.len() == 4,
        r0@.len() == 4 && seq_sum(r0@) == 1000,
        r1@.len() == 4 && seq_sum(r1@) == 1000,
        r2@.len() == 4 && seq_sum(r2@) == 1000,
        r3@.len() == 4 && seq_sum(r3@) == 1000,
        initial_state < 4,
    ensures
        valid_iat_generator(r),
        markov_is(r, states@, seq![r0@, r1@, r2@, r3@], initial_state),
{
    let ghost rows = seq![r0@, r1@, r2@, r3@];
    let t = vec![r0, r1, r2, r3];
    assert(t@.len() == 4);
    assert forall|k: int| 0 <= k < 4 implies (#[trigger] t@[k])@ == rows[k] by {
        if k == 0 {
        } else if k == 1 {
        } else if k == 2 {
        } else {
        }
    }
    chain(states, t, initial_state)
}

fn chain8(
    states: Vec<MarkovState>,
    r0: Vec<u64>,
    r1: Vec<u64>,
    r2: Vec<u64>,
    r3: Vec<u64>,
    r4: Vec<u64>,
    r5: Vec<u64>,
    r6: Vec<u64>,
    r7: Vec<u64>,
    initial_state: usize,
) -> (r: IatGenerator)
    requires
        states@.len() == 8,
        r0@.len() == 8 && seq_sum(r0@) == 1000,
        r1@.len() == 8 && seq_sum(r1@) == 1000,
        r2@.len() == 8 && seq_sum(r2@) == 1000,
        r3@.len() == 8 && seq_sum(r3@) == 1000,
        r4@.len() == 8 && seq_sum(r4@) == 1000,
        r5@.len() == 8 && seq_sum(r5@) == 1000,
        r6@.len() == 8 && seq_sum(r6@) == 1000,
        r7@.len() == 8 && seq_sum(r7@) == 1000,
        initial_state < 8,
    ensures
        valid_iat_generator(r),
        markov_is(r, states@, seq![r0@, r1@, r2@, r3@, r4@, r5@, r6@, r7@], initial_state),
{
    let ghost rows = seq![r0@, r1@, r2@, r3@, r4@, r5@, r6@, r7@];
    let t = vec![r0, r1, r2, r3, r4, r5, r6, r7];
    assert(t@.len() == 8);
    assert forall|k: int| 0 <= k < 8 implies (#[trigger] t@[k])@ == rows[k] by {
        if k == 0 {
        } else if k == 1 {
        } else if k == 2 {
        } else if k == 3 {
        } else if k == 4 {
        } else if k == 5 {
        } else if k == 6 {
        } else {
        }
    }
    chain(states, t, initial_state)
}

fn disabled_chaff() -> (r: ChaffConfig)
    ensures
        chaff_is_disabled(r),
        r.min_interval_us <= r.max_interval_us,
        valid_size_distribution(r.size_distribution),
{
    let r = ChaffConfig::disabled();
    proof {
        lemma_gmm_weight_sum_push(seq![], GmmComponent { mean: 128, std_dev: 32, weight_milli: 1000 });
    }
    r
}

/// The model of Chrome-like browsing over TLS (`chrome_like_model`).
pub open spec fn is_chrome_like_model(m: SiteModel) -> bool {
    &&& m.name@ == "chrome_tls"@
    &&& gmm_is(m.upstream_sizes, seq![
        GmmComponent { mean: 80, std_dev: 20, weight_milli: 250 },
        GmmComponent { mean: 350, std_dev: 60, weight_milli: 350 },
        GmmComponent { mean: 700, std_dev: 100, weight_milli: 250 },
        GmmComponent { mean: 1420, std_dev: 30, weight_milli: 150 },
    ])
    &&& gmm_is(m.downstream_sizes, seq![
        GmmComponent { mean: 200, std_dev: 40, weight_milli: 150 },
        GmmComponent { mean: 800, std_dev: 100, weight_milli: 250 },
        GmmComponent { mean: 1460, std_dev: 15, weight_milli: 600 },
    ])
    &&& markov_is(
        m.iat_client,
        seq![
            MarkovState { mean_us: 50, std_dev_us: 15 },
            MarkovState { mean_us: 500, std_dev_us: 100 },
            MarkovState { mean_us: 5000, std_dev_us: 1500 },
            MarkovState { mean_us: 50_000, std_dev_us: 10_000 },
        ],
        seq![
            seq![500u64, 300, 150, 50],
            seq![200u64, 400, 300, 100],
            seq![100u64, 200, 500, 200],
            seq![400u64, 300, 200, 100],
        ],
        0,
    )
    &&& markov_is(
        m.iat_server,
        seq![
            MarkovState { mean_us: 30, std_dev_us: 10 },
            MarkovState { mean_us: 300, std_dev_us: 80 },
            MarkovState { mean_us: 3000, std_dev_us: 500 },
            MarkovState { mean_us: 30_000, std_dev_us: 8000 },
        ],
        seq![
            seq![600u64, 300, 80, 20],
            seq![150u64, 500, 300, 50],
            seq![50u64, 150, 600, 200],
            seq![300u64, 200, 300, 200],
        ],
        0,
    )
    &&& m.burst_pattern@ == seq![
        BurstEntry { batch_size: 1, pause_us: 0, direction: Direction::Upstream },
        BurstEntry { batch_size: 4, pause_us: 80_000, direction: Direction::Downstream },
        BurstEntry { batch_size: 2, pause_us: 200_000, direction: Direction::Upstream },
        BurstEntry { batch_size: 8, pause_us: 100_000, direction: Direction::Downstream },
    ]
    &&& m.init_window_client == 29200
    &&& m.init_window_server == 29200
    &&& m.keepalive_us == 45_000_000
    &&& m.overhead_budget_milli == 500
    &&& m.granularity == MorphGranularity::PerBurst
    &&& chaff_is(
        m.chaff,
        true,
        1_000_000,
        5_000_000,
        seq![
            GmmComponent { mean: 100, std_dev: 30, weight_milli: 500 },
            GmmComponent { mean: 400, std_dev: 60, weight_milli: 500 },
        ],
        ChaffContent::RandomBytes,
        seq![
            ChaffTypeWeight { content: ChaffContent::DummyTlsRecord, weight_milli: 500 },
            ChaffTypeWeight { content: ChaffContent::Http2Frame, weight_milli: 300 },
            ChaffTypeWeight { content: ChaffContent::RandomHighEntropy, weight_milli: 200 },
        ],
    )
    &&& m.adversarial == (AdversarialConfig { enabled: true, jitter_pct_milli: 80, size_noise_pct_milli: 30 })
    &&& m.random_padding == true
}

/// The model of Chrome-like browsing over TLS.
pub fn chrome_like_model() -> (r: SiteModel)
    ensures
        is_chrome_like_model(r),
        valid_site_model(r),
{
    let client_states = vec![
        MarkovState { mean_us: 50, std_dev_us: 15 },
        MarkovState { mean_us: 500, std_dev_us: 100 },
        MarkovState { mean_us: 5000, std_dev_us: 1500 },
        MarkovState { mean_us: 50_000, std_dev_us: 10_000 },
    ];
    assert(client_states@ =~= seq![
        MarkovState { mean_us: 50, std_dev_us: 15 },
        MarkovState { mean_us: 500, std_dev_us: 100 },
        MarkovState { mean_us: 5000, std_dev_us: 1500 },
        MarkovState { mean_us: 50_000, std_dev_us: 10_000 },
    ]);
    let server_states = vec![
        MarkovState { mean_us: 30, std_dev_us: 10 },
        MarkovState { mean_us: 300, std_dev_us: 80 },
        MarkovState { mean_us: 3000, std_dev_us: 500 },
        MarkovState { mean_us: 30_000, std_dev_us: 8000 },
    ];
    assert(server_states@ =~= seq![
        MarkovState { mean_us: 30, std_dev_us: 10 },
        MarkovState { mean_us: 300, std_dev_us: 80 },
        MarkovState { mean_us: 3000, std_dev_us: 500 },
        MarkovState { mean_us: 30_000, std_dev_us: 8000 },
    ]);
    let burst_pattern = vec![
        BurstEntry { batch_size: 1, pause_us: 0, direction: Direction::Upstream },
        BurstEntry { batch_size: 4, pause_us: 80_000, direction: Direction::Downstream },
        BurstEntry { batch_size: 2, pause_us: 200_000, direction: Direction::Upstream },
        BurstEntry { batch_size: 8, pause_us: 100_000, direction: Direction::Downstream },
    ];
    assert(burst_pattern@ =~= seq![
        BurstEntry { batch_size: 1, pause_us: 0, direction: Direction::Upstream },
        BurstEntry { batch_size: 4, pause_us: 80_000, direction: Direction::Downstream },
        BurstEntry { batch_size: 2, pause_us: 200_000, direction: Direction::Upstream },
        BurstEntry { batch_size: 8, pause_us: 100_000, direction: Direction::Downstream },
    ]);
    SiteModel {
        name: "chrome_tls".to_string(),
        upstream_sizes: mixture4(
            GmmComponent { mean: 80, std_dev: 20, weight_milli: 250 },
            GmmComponent { mean: 350, std_dev: 60, weight_milli: 350 },
            GmmComponent { mean: 700, std_dev: 100, weight_milli: 250 },
            GmmComponent { mean: 1420, std_dev: 30, weight_milli: 150 },
        ),
        downstream_sizes: mixture3(
            GmmComponent { mean: 200, std_dev: 40, weight_milli: 150 },
            GmmComponent { mean: 800, std_dev: 100, weight_milli: 250 },
            GmmComponent { mean: 1460, std_dev: 15, weight_milli: 600 },
        ),
        iat_client: chain4(
            client_states,
            row4(500, 300, 150, 50),
            row4(200, 400, 300, 100),
            row4(100, 200, 500, 200),
            row4(400, 300, 200, 100),
            0,
        ),
        iat_server: chain4(
            server_states,
            row4(600, 300, 80, 20),
            row4(150, 500, 300, 50),
            row4(50, 150, 600, 200),
            row4(300, 200, 300, 200),
            0,
        ),
        burst_pattern,
        init_window_client: 29200,
        init_window_server: 29200,
        keepalive_us: 45_000_000,
        overhead_budget_milli: 500,
        granularity: MorphGranularity::PerBurst,
        chaff: ChaffConfig {
            enabled: true,
            min_interval_us: 1_000_000,
            max_interval_us: 5_000_000,
            size_distribution: mixture2(
                GmmComponent { mean: 100, std_dev: 30, weight_milli: 500 },
                GmmComponent { mean: 400, std_dev: 60, weight_milli: 500 },
            ),
            content: ChaffContent::RandomBytes,
            type_weights: browser_chaff_weights(),
        },
        adversarial: AdversarialConfig { enabled: true, jitter_pct_milli: 80, size_noise_pct_milli: 30 },
        random_padding: true,
    }
}

/// The model of Firefox-like browsing over TLS (`firefox_like_model`).
pub open spec fn is_firefox_like_model(m: SiteModel) -> bool {
    &&& m.name@ == "firefox_tls"@
    &&& gmm_is(m.upstream_sizes, seq![
        GmmComponent { mean: 90, std_dev: 25, weight_milli: 300 },
        GmmComponent { mean: 400, std_dev: 70, weight_milli: 300 },
        GmmComponent { mean: 750, std_dev: 80, weight_milli: 250 },
        GmmComponent { mean: 1420, std_dev: 30, weight_milli: 150 },
    ])
    &&& gmm_is(m.downstream_sizes, seq![
        GmmComponent { mean: 250, std_dev: 50, weight_milli: 200 },
        GmmComponent { mean: 900, std_dev: 120, weight_milli: 300 },
        GmmComponent { mean: 1460, std_dev: 15, weight_milli: 500 },
    ])
    &&& markov_is(
        m.iat_client,
        seq![
            MarkovState { mean_us: 60, std_dev_us: 20 },
            MarkovState { mean_us: 600, std_dev_us: 150 },
            MarkovState { mean_us: 6000, std_dev_us: 2000 },
            MarkovState { mean_us: 60_000, std_dev_us: 15_000 },
        ],
        seq![
            seq![450u64, 350, 150, 50],
            seq![150u64, 450, 300, 100],
            seq![80u64, 180, 500, 240],
            seq![350u64, 250, 250, 150],
        ],
        0,
    )
    &&& markov_is(
        m.iat_server,
        seq![
            MarkovState { mean_us: 40, std_dev_us: 12 },
            MarkovState { mean_us: 400, std_dev_us: 100 },
            MarkovState { mean_us: 4000, std_dev_us: 800 },
            MarkovState { mean_us: 40_000, std_dev_us: 12_000 },
        ],
        seq![
            seq![550u64, 300, 100, 50],
            seq![120u64, 500, 300, 80],
            seq![60u64, 140, 550, 250],
            seq![250u64, 200, 300, 250],
        ],
        0,
    )
    &&& m.burst_pattern@ == seq![
        BurstEntry { batch_size: 1, pause_us: 0, direction: Direction::Upstream },
        BurstEntry { batch_size: 5, pause_us: 100_000, direction: Direction::Downstream },
        BurstEntry { batch_size: 3, pause_us: 300_000, direction: Direction::Upstream },
        BurstEntry { batch_size: 10, pause_us: 80_000, direction: Direction::Downstream },
    ]
    &&& m.init_window_client == 29200
    &&& m.init_window_server == 29200
    &&& m.keepalive_us == 45_000_000
    &&& m.overhead_budget_milli == 500
    &&& m.granularity == MorphGranularity::PerBurst
    &&& chaff_is(
        m.chaff,
        true,
        1_200_000,
        4_000_000,
        seq![
            GmmComponent { mean: 120, std_dev: 40, weight_milli: 600 },
            GmmComponent { mean: 500, std_dev: 80, weight_milli: 400 },
        ],
        ChaffContent::HttpLikeHeaders,
        seq![
            ChaffTypeWeight { content: ChaffContent::DummyTlsRecord, weight_milli: 500 },
            ChaffTypeWeight { content: ChaffContent::Http2Frame, weight_milli: 300 },
            ChaffTypeWeight { content: ChaffContent::RandomHighEntropy, weight_milli: 200 },
        ],
    )
    &&& m.adversarial == (AdversarialConfig { enabled: true, jitter_pct_milli: 100, size_noise_pct_milli: 40 })
    &&& m.random_padding == true
}

/// The model of Firefox-like browsing over TLS.
pub fn firefox_like_model() -> (r: SiteModel)
    ensures
        is_firefox_like_model(r),
        valid_site_model(r),
{
    let client_states = vec![
        MarkovState { mean_us: 60, std_dev_us: 20 },
        MarkovState { mean_us: 600, std_dev_us: 150 },
        MarkovState { mean_us: 6000, std_dev_us: 2000 },
        MarkovState { mean_us: 60_000, std_dev_us: 15_000 },
    ];
    assert(client_states@ =~= seq![
        MarkovState { mean_us: 60, std_dev_us: 20 },
        MarkovState { mean_us: 600, std_dev_us: 150 },
        MarkovState { mean_us: 6000, std_dev_us: 2000 },
        MarkovState { mean_us: 60_000, std_dev_us: 15_000 },
    ]);
    let server_states = vec![
        MarkovState { mean_us: 40, std_dev_us: 12 },
        MarkovState { mean_us: 400, std_dev_us: 100 },
        MarkovState { mean_us: 4000, std_dev_us: 800 },
        MarkovState { mean_us: 40_000, std_dev_us: 12_000 },
    ];
    assert(server_states@ =~= seq![
        MarkovState { mean_us: 40, std_dev_us: 12 },
        MarkovState { mean_us: 400, std_dev_us: 100 },
        MarkovState { mean_us: 4000, std_dev_us: 800 },
        MarkovState { mean_us: 40_000, std_dev_us: 12_000 },
    ]);
    let burst_pattern = vec![
        BurstEntry { batch_size: 1, pause_us: 0, direction: Direction::Upstream },
        BurstEntry { batch_size: 5, pause_us: 100_000, direction: Direction::Downstream },
        BurstEntry { batch_size: 3, pause_us: 300_000, direction: Direction::Upstream },
        BurstEntry { batch_size: 10, pause_us: 80_000, direction: Direction::Downstream },
    ];
    assert(burst_pattern@ =~= seq![
        BurstEntry { batch_size: 1, pause_us: 0, direction: Direction::Upstream },
        BurstEntry { batch_size: 5, pause_us: 100_000, direction: Direction::Downstream },
        BurstEntry { batch_size: 3, pause_us: 300_000, direction: Direction::Upstream },
        BurstEntry { batch_size: 10, pause_us: 80_000, direction: Direction::Downstream },
    ]);
    SiteModel {
        name: "firefox_tls".to_string(),
        upstream_sizes: mixture4(
            GmmComponent { mean: 90, std_dev: 25, weight_milli: 300 },
            GmmComponent { mean: 400, std_dev: 70, weight_milli: 300 },
            GmmComponent { mean: 750, std_dev: 80, weight_milli: 250 },
            GmmComponent { mean: 1420, std_dev: 30, weight_milli: 150 },
        ),
        downstream_sizes: mixture3(
            GmmComponent { mean: 250, std_dev: 50, weight_milli: 200 },
            GmmComponent { mean: 900, std_dev: 120, weight_milli: 300 },
            GmmComponent { mean: 1460, std_dev: 15, weight_milli: 500 },
        ),
        iat_client: chain4(
            client_states,
            row4(450, 350, 150, 50),
            row4(150, 450, 300, 100),
            row4(80, 180, 500, 240),
            row4(350, 250, 250, 150),
            0,
        ),
        iat_server: chain4(
            server_states,
            row4(550, 300, 100, 50),
            row4(120, 500, 300, 80),
            row4(60, 140, 550, 250),
            row4(250, 200, 300, 250),
            0,
        ),
        burst_pattern,
        init_window_client: 29200,
        init_window_server: 29200,
        keepalive_us: 45_000_000,
        overhead_budget_milli: 500,
        granularity: MorphGranularity::PerBurst,
        chaff: ChaffConfig {
            enabled: true,
            min_interval_us: 1_200_000,
            max_interval_us: 4_000_000,
            size_distribution: mixture2(
                GmmComponent { mean: 120, std_dev: 40, weight_milli: 600 },
                GmmComponent { mean: 500, std_dev: 80, weight_milli: 400 },
            ),
            content: ChaffContent::HttpLikeHeaders,
            type_weights: browser_chaff_weights(),
        },
        adversarial: AdversarialConfig { enabled: true, jitter_pct_milli: 100, size_noise_pct_milli: 40 },
        random_padding: true,
    }
}

/// The model of multiplexed HTTP/2 traffic (`http2_multiplexed_model`).
pub open spec fn is_http2_multiplexed_model(m: SiteModel) -> bool {
    &&& m.name@ == "http2_multiplexed"@
    &&& gmm_is(m.upstream_sizes, seq![
        GmmComponent { mean: 40, std_dev: 10, weight_milli: 350 },
        GmmComponent { mean: 200, std_dev: 40, weight_milli: 350 },
        GmmComponent { mean: 600, std_dev: 80, weight_milli: 200 },
        GmmComponent { mean: 1400, std_dev: 40, weight_milli: 100 },
    ])
    &&& gmm_is(m.downstream_sizes, seq![
        GmmComponent { mean: 100, std_dev: 30, weight_milli: 200 },
        GmmComponent { mean: 500, std_dev: 80, weight_milli: 300 },
        GmmComponent { mean: 1460, std_dev: 15, weight_milli: 500 },
    ])
    &&& markov_is(
        m.iat_client,
        seq![
            MarkovState { mean_us: 20, std_dev_us: 8 },
            MarkovState { mean_us: 200, std_dev_us: 50 },
            MarkovState { mean_us: 2000, std_dev_us: 400 },
            MarkovState { mean_us: 20_000, std_dev_us: 5000 },
        ],
        seq![
            seq![600u64, 250, 100, 50],
            seq![200u64, 500, 250, 50],
            seq![100u64, 200, 500, 200],
            seq![300u64, 250, 250, 200],
        ],
        0,
    )
    &&& markov_is(
        m.iat_server,
        seq![
            MarkovState { mean_us: 15, std_dev_us: 5 },
            MarkovState { mean_us: 150, std_dev_us: 40 },
            MarkovState { mean_us: 1500, std_dev_us: 300 },
            MarkovState { mean_us: 15_000, std_dev_us: 4000 },
        ],
        seq![
            seq![650u64, 250, 80, 20],
            seq![150u64, 550, 250, 50],
            seq![50u64, 150, 550, 250],
            seq![250u64, 200, 300, 250],
        ],
        0,
    )
    &&& m.burst_pattern@ == seq![
        BurstEntry { batch_size: 2, pause_us: 0, direction: Direction::Upstream },
        BurstEntry { batch_size: 3, pause_us: 20_000, direction: Direction::Downstream },
        BurstEntry { batch_size: 1, pause_us: 50_000, direction: Direction::Upstream },
        BurstEntry { batch_size: 5, pause_us: 15_000, direction: Direction::Downstream },
    ]
    &&& m.init_window_client == 65535
    &&& m.init_window_server == 65535
    &&& m.keepalive_us == 30_000_000
    &&& m.overhead_budget_milli == 400
    &&& m.granularity == MorphGranularity::PerPacket
    &&& chaff_is(
        m.chaff,
        true,
        800_000,
        3_000_000,
        seq![
            GmmComponent { mean: 60, std_dev: 15, weight_milli: 500 },
            GmmComponent { mean: 300, std_dev: 50, weight_milli: 500 },
        ],
        ChaffContent::RandomBytes,
        seq![
            ChaffTypeWeight { content: ChaffContent::DummyTlsRecord, weight_milli: 500 },
            ChaffTypeWeight { content: ChaffContent::Http2Frame, weight_milli: 300 },
            ChaffTypeWeight { content: ChaffContent::RandomHighEntropy, weight_milli: 200 },
        ],
    )
    &&& m.adversarial == (AdversarialConfig { enabled: true, jitter_pct_milli: 60, size_noise_pct_milli: 30 })
    &&& m.random_padding == true
}

/// The model of multiplexed HTTP/2 traffic.
pub fn http2_multiplexed_model() -> (r: SiteModel)
    ensures
        is_http2_multiplexed_model(r),
        valid_site_model(r),
{
    let client_states = vec![
        MarkovState { mean_us: 20, std_dev_us: 8 },
        MarkovState { mean_us: 200, std_dev_us: 50 },
        MarkovState { mean_us: 2000, std_dev_us: 400 },
        MarkovState { mean_us: 20_000, std_dev_us: 5000 },
    ];
    assert(client_states@ =~= seq![
        MarkovState { mean_us: 20, std_dev_us: 8 },
        MarkovState { mean_us: 200, std_dev_us: 50 },
        MarkovState { mean_us: 2000, std_dev_us: 400 },
        MarkovState { mean_us: 20_000, std_dev_us: 5000 },
    ]);
    let server_states = vec![
        MarkovState { mean_us: 15, std_dev_us: 5 },
        MarkovState { mean_us: 150, std_dev_us: 40 },
        MarkovState { mean_us: 1500, std_dev_us: 300 },
        MarkovState { mean_us: 15_000, std_dev_us: 4000 },
    ];
    assert(server_states@ =~= seq![
        MarkovState { mean_us: 15, std_dev_us: 5 },
        MarkovState { mean_us: 150, std_dev_us: 40 },
        MarkovState { mean_us: 1500, std_dev_us: 300 },
        MarkovState { mean_us: 15_000, std_dev_us: 4000 },
    ]);
    let burst_pattern = vec![
        BurstEntry { batch_size: 2, pause_us: 0, direction: Direction::Upstream },
        BurstEntry { batch_size: 3, pause_us: 20_000, direction: Direction::Downstream },
        BurstEntry { batch_size: 1, pause_us: 50_000, direction: Direction::Upstream },
        BurstEntry { batch_size: 5, pause_us: 15_000, direction: Direction::Downstream },
    ];
    assert(burst_pattern@ =~= seq![
        BurstEntry { batch_size: 2, pause_us: 0, direction: Direction::Upstream },
        BurstEntry { batch_size: 3, pause_us: 20_000, direction: Direction::Downstream },
        BurstEntry { batch_size: 1, pause_us: 50_000, direction: Direction::Upstream },
        BurstEntry { batch_size: 5, pause_us: 15_000, direction: Direction::Downstream },
    ]);
    SiteModel {
        name: "http2_multiplexed".to_string(),
        upstream_sizes: mixture4(
            GmmComponent { mean: 40, std_dev: 10, weight_milli: 350 },
            GmmComponent { mean: 200, std_dev: 40, weight_milli: 350 },
            GmmComponent { mean: 600, std_dev: 80, weight_milli: 200 },
            GmmComponent { mean: 1400, std_dev: 40, weight_milli: 100 },
        ),
        downstream_sizes: mixture3(
            GmmComponent { mean: 100, std_dev: 30, weight_milli: 200 },
            GmmComponent { mean: 500, std_dev: 80, weight_milli: 300 },
            GmmComponent { mean: 1460, std_dev: 15, weight_milli: 500 },
        ),
        iat_client: chain4(
            client_states,
            row4(600, 250, 100, 50),
            row4(200, 500, 250, 50),
            row4(100, 200, 500, 200),
            row4(300, 250, 250, 200),
            0,
        ),
        iat_server: chain4(
            server_states,
            row4(650, 250, 80, 20),
            row4(150, 550, 250, 50),
            row4(50, 150, 550, 250),
            row4(250, 200, 300, 250),
            0,
        ),
        burst_pattern,
        init_window_client: 65535,
        init_window_server: 65535,
        keepalive_us: 30_000_000,
        overhead_budget_milli: 400,
        granularity: MorphGranularity::PerPacket,
        chaff: ChaffConfig {
            enabled: true,
            min_interval_us: 800_000,
            max_interval_us: 3_000_000,
            size_distribution: mixture2(
                GmmComponent { mean: 60, std_dev: 15, weight_milli: 500 },
                GmmComponent { mean: 300, std_dev: 50, weight_milli: 500 },
            ),
            content: ChaffContent::RandomBytes,
            type_weights: browser_chaff_weights(),
        },
        adversarial: AdversarialConfig { enabled: true, jitter_pct_milli: 60, size_noise_pct_milli: 30 },
        random_padding: true,
    }
}

/// The model of video streaming (`video_streaming_model`).
pub open spec fn is_video_streaming_model(m: SiteModel) -> bool {
    &&& m.name@ == "video_streaming"@
    &&& gmm_is(m.upstream_sizes, seq![
        GmmComponent { mean: 50, std_dev: 15, weight_milli: 700 },
        GmmComponent { mean: 300, std_dev: 50, weight_milli: 200 },
        GmmComponent { mean: 800, std_dev: 100, weight_milli: 100 },
    ])
    &&& gmm_is(m.downstream_sizes, seq![
        GmmComponent { mean: 1460, std_dev: 10, weight_milli: 850 },
        GmmComponent { mean: 800, std_dev: 100, weight_milli: 100 },
        GmmComponent { mean: 200, std_dev: 40, weight_milli: 50 },
    ])
    &&& markov_is(
        m.iat_client,
        seq![
            MarkovState { mean_us: 30_000, std_dev_us: 5000 },
            MarkovState { mean_us: 500_000, std_dev_us: 100_000 },
        ],
        seq![
            seq![800u64, 200],
            seq![300u64, 700],
        ],
        0,
    )
    &&& markov_is(
        m.iat_server,
        seq![
            MarkovState { mean_us: 1000, std_dev_us: 200 },
            MarkovState { mean_us: 5000, std_dev_us: 500 },
            MarkovState { mean_us: 16_000, std_dev_us: 3000 },
        ],
        seq![
            seq![300u64, 500, 200],
            seq![100u64, 600, 300],
            seq![200u64, 300, 500],
        ],
        1,
    )
    &&& m.burst_pattern@ == seq![
        BurstEntry { batch_size: 10, pause_us: 16_000, direction: Direction::Downstream },
        BurstEntry { batch_size: 1, pause_us: 100_000, direction: Direction::Upstream },
        BurstEntry { batch_size: 10, pause_us: 16_000, direction: Direction::Downstream },
    ]
    &&& m.init_window_client == 29200
    &&& m.init_window_server == 262144
    &&& m.keepalive_us == 10_000_000
    &&& m.overhead_budget_milli == 200
    &&& m.granularity == MorphGranularity::PerBurst
    &&& chaff_is_disabled(m.chaff)
    &&& m.adversarial == (AdversarialConfig { enabled: true, jitter_pct_milli: 30, size_noise_pct_milli: 10 })
    &&& m.random_padding == true
}

/// The model of video streaming.
pub fn video_streaming_model() -> (r: SiteModel)
    ensures
        is_video_streaming_model(r),
        valid_site_model(r),
{
    let client_states = vec![
        MarkovState { mean_us: 30_000, std_dev_us: 5000 },
        MarkovState { mean_us: 500_000, std_dev_us: 100_000 },
    ];
    assert(client_states@ =~= seq![
        MarkovState { mean_us: 30_000, std_dev_us: 5000 },
        MarkovState { mean_us: 500_000, std_dev_us: 100_000 },
    ]);
    let server_states = vec![
        MarkovState { mean_us: 1000, std_dev_us: 200 },
        MarkovState { mean_us: 5000, std_dev_us: 500 },
        MarkovState { mean_us: 16_000, std_dev_us: 3000 },
    ];
    assert(server_states@ =~= seq![
        MarkovState { mean_us: 1000, std_dev_us: 200 },
        MarkovState { mean_us: 5000, std_dev_us: 500 },
        MarkovState { mean_us: 16_000, std_dev_us: 3000 },
    ]);
    let burst_pattern = vec![
        BurstEntry { batch_size: 10, pause_us: 16_000, direction: Direction::Downstream },
        BurstEntry { batch_size: 1, pause_us: 100_000, direction: Direction::Upstream },
        BurstEntry { batch_size: 10, pause_us: 16_000, direction: Direction::Downstream },
    ];
    assert(burst_pattern@ =~= seq![
        BurstEntry { batch_size: 10, pause_us: 16_000, direction: Direction::Downstream },
        BurstEntry { batch_size: 1, pause_us: 100_000, direction: Direction::Upstream },
        BurstEntry { batch_size: 10, pause_us: 16_000, direction: Direction::Downstream },
    ]);
    SiteModel {
        name: "video_streaming".to_string(),
        upstream_sizes: mixture3(
            GmmComponent { mean: 50, std_dev: 15, weight_milli: 700 },
            GmmComponent { mean: 300, std_dev: 50, weight_milli: 200 },
            GmmComponent { mean: 800, std_dev: 100, weight_milli: 100 },
        ),
        downstream_sizes: mixture3(
            GmmComponent { mean: 1460, std_dev: 10, weight_milli: 850 },
            GmmComponent { mean: 800, std_dev: 100, weight_milli: 100 },
            GmmComponent { mean: 200, std_dev: 40, weight_milli: 50 },
        ),
        iat_client: chain2(
            client_states,
            row2(800, 200),
            row2(300, 700),
            0,
        ),
        iat_server: chain3(
            server_states,
            row3(300, 500, 200),
            row3(100, 600, 300),
            row3(200, 300, 500),
            1,
        ),
        burst_pattern,
        init_window_client: 29200,
        init_window_server: 262144,
        keepalive_us: 10_000_000,
        overhead_budget_milli: 200,
        granularity: MorphGranularity::PerBurst,
        chaff: disabled_chaff(),
        adversarial: AdversarialConfig { enabled: true, jitter_pct_milli: 30, size_noise_pct_milli: 10 },
        random_padding: true,
    }
}

/// The model of chat messaging (`chat_messaging_model`).
pub open spec fn is_chat_messaging_model(m: SiteModel) -> bool {
    &&& m.name@ == "chat_messaging"@
    &&& gmm_is(m.upstream_sizes, seq![
        GmmComponent { mean: 60, std_dev: 15, weight_milli: 500 },
        GmmComponent { mean: 200, std_dev: 40, weight_milli: 350 },
        GmmComponent { mean: 600, std_dev: 80, weight_milli: 150 },
    ])
    &&& gmm_is(m.downstream_sizes, seq![
        GmmComponent { mean: 80, std_dev: 20, weight_milli: 450 },
        GmmComponent { mean: 300, std_dev: 50, weight_milli: 350 },
        GmmComponent { mean: 900, std_dev: 120, weight_milli: 200 },
    ])
    &&& markov_is(
        m.iat_client,
        seq![
            MarkovState { mean_us: 50, std_dev_us: 20 },
            MarkovState { mean_us: 500_000, std_dev_us: 200_000 },
            MarkovState { mean_us: 3_000_000, std_dev_us: 1_000_000 },
            MarkovState { mean_us: 15_000_000, std_dev_us: 5_000_000 },
        ],
        seq![
            seq![400u64, 300, 200, 100],
            seq![300u64, 300, 250, 150],
            seq![150u64, 200, 400, 250],
            seq![200u64, 250, 300, 250],
        ],
        1,
    )
    &&& markov_is(
        m.iat_server,
        seq![
            MarkovState { mean_us: 40, std_dev_us: 15 },
            MarkovState { mean_us: 800_000, std_dev_us: 300_000 },
            MarkovState { mean_us: 5_000_000, std_dev_us: 2_000_000 },
        ],
        seq![
            seq![500u64, 350, 150],
            seq![200u64, 400, 400],
            seq![250u64, 350, 400],
        ],
        1,
    )
    &&& m.burst_pattern@ == seq![
        BurstEntry { batch_size: 1, pause_us: 0, direction: Direction::Upstream },
        BurstEntry { batch_size: 1, pause_us: 50_000, direction: Direction::Downstream },
    ]
    &&& m.init_window_client == 14600
    &&& m.init_window_server == 14600
    &&& m.keepalive_us == 25_000_000
    &&& m.overhead_budget_milli == 800
    &&& m.granularity == MorphGranularity::PerPacket
    &&& chaff_is(
        m.chaff,
        true,
        500_000,
        2_000_000,
        seq![
            GmmComponent { mean: 70, std_dev: 20, weight_milli: 600 },
            GmmComponent { mean: 250, std_dev: 40, weight_milli: 400 },
        ],
        ChaffContent::RandomBytes,
        seq![
            ChaffTypeWeight { content: ChaffContent::DummyTlsRecord, weight_milli: 400 },
            ChaffTypeWeight { content: ChaffContent::RandomHighEntropy, weight_milli: 400 },
            ChaffTypeWeight { content: ChaffContent::Http2Frame, weight_milli: 200 },
        ],
    )
    &&& m.adversarial == (AdversarialConfig { enabled: true, jitter_pct_milli: 150, size_noise_pct_milli: 50 })
    &&& m.random_padding == true
}

/// The model of chat messaging.
pub fn chat_messaging_model() -> (r: SiteModel)
    ensures
        is_chat_messaging_model(r),
        valid_site_model(r),
{
    let client_states = vec![
        MarkovState { mean_us: 50, std_dev_us: 20 },
        MarkovState { mean_us: 500_000, std_dev_us: 200_000 },
        MarkovState { mean_us: 3_000_000, std_dev_us: 1_000_000 },
        MarkovState { mean_us: 15_000_000, std_dev_us: 5_000_000 },
    ];
    assert(client_states@ =~= seq![
        MarkovState { mean_us: 50, std_dev_us: 20 },
        MarkovState { mean_us: 500_000, std_dev_us: 200_000 },
        MarkovState { mean_us: 3_000_000, std_dev_us: 1_000_000 },
        MarkovState { mean_us: 15_000_000, std_dev_us: 5_000_000 },
    ]);
    let server_states = vec![
        MarkovState { mean_us: 40, std_dev_us: 15 },
        MarkovState { mean_us: 800_000, std_dev_us: 300_000 },
        MarkovState { mean_us: 5_000_000, std_dev_us: 2_000_000 },
    ];
    assert(server_states@ =~= seq![
        MarkovState { mean_us: 40, std_dev_us: 15 },
        MarkovState { mean_us: 800_000, std_dev_us: 300_000 },
        MarkovState { mean_us: 5_000_000, std_dev_us: 2_000_000 },
    ]);
    let burst_pattern = vec![
        BurstEntry { batch_size: 1, pause_us: 0, direction: Direction::Upstream },
        BurstEntry { batch_size: 1, pause_us: 50_000, direction: Direction::Downstream },
    ];
    assert(burst_pattern@ =~= seq![
        BurstEntry { batch_size: 1, pause_us: 0, direction: Direction::Upstream },
        BurstEntry { batch_size: 1, pause_us: 50_000, direction: Direction::Downstream },
    ]);
    SiteModel {
        name: "chat_messaging".to_string(),
        upstream_sizes: mixture3(
            GmmComponent { mean: 60, std_dev: 15, weight_milli: 500 },
            GmmComponent { mean: 200, std_dev: 40, weight_milli: 350 },
            GmmComponent { mean: 600, std_dev: 80, weight_milli: 150 },
        ),
        downstream_sizes: mixture3(
            GmmComponent { mean: 80, std_dev: 20, weight_milli: 450 },
            GmmComponent { mean: 300, std_dev: 50, weight_milli: 350 },
            GmmComponent { mean: 900, std_dev: 120, weight_milli: 200 },
        ),
        iat_client: chain4(
            client_states,
            row4(400, 300, 200, 100),
            row4(300, 300, 250, 150),
            row4(150, 200, 400, 250),
            row4(200, 250, 300, 250),
            1,
        ),
        iat_server: chain3(
            server_states,
            row3(500, 350, 150),
            row3(200, 400, 400),
            row3(250, 350, 400),
            1,
        ),
        burst_pattern,
        init_window_client: 14600,
        init_window_server: 14600,
        keepalive_us: 25_000_000,
        overhead_budget_milli: 800,
        granularity: MorphGranularity::PerPacket,
        chaff: ChaffConfig {
            enabled: true,
            min_interval_us: 500_000,
            max_interval_us: 2_000_000,
            size_distribution: mixture2(
                GmmComponent { mean: 70, std_dev: 20, weight_milli: 600 },
                GmmComponent { mean: 250, std_dev: 40, weight_milli: 400 },
            ),
            content: ChaffContent::RandomBytes,
            type_weights: chat_chaff_weights(),
        },
        adversarial: AdversarialConfig { enabled: true, jitter_pct_milli: 150, size_noise_pct_milli: 50 },
        random_padding: true,
    }
}

/// The model of the paranoid model: wide size spread, eight delay states and frequent chaff (`paranoid_model`).
pub open spec fn is_paranoid_model(m: SiteModel) -> bool {
    &&& m.name@ == "paranoid"@
    &&& gmm_is(m.upstream_sizes, seq![
        GmmComponent { mean: 100, std_dev: 30, weight_milli: 250 },
        GmmComponent { mean: 500, std_dev: 80, weight_milli: 300 },
        GmmComponent { mean: 1000, std_dev: 100, weight_milli: 250 },
        GmmComponent { mean: 1400, std_dev: 40, weight_milli: 200 },
    ])
    &&& gmm_is(m.downstream_sizes, seq![
        GmmComponent { mean: 150, std_dev: 40, weight_milli: 150 },
        GmmComponent { mean: 600, std_dev: 100, weight_milli: 250 },
        GmmComponent { mean: 1100, std_dev: 80, weight_milli: 250 },
        GmmComponent { mean: 1460, std_dev: 15, weight_milli: 350 },
    ])
    &&& markov_is(
        m.iat_client,
        seq![
            MarkovState { mean_us: 30, std_dev_us: 10 },
            MarkovState { mean_us: 300, std_dev_us: 80 },
            MarkovState { mean_us: 3000, std_dev_us: 800 },
            MarkovState { mean_us: 30_000, std_dev_us: 8000 },
            MarkovState { mean_us: 100_000, std_dev_us: 30_000 },
            MarkovState { mean_us: 500_000, std_dev_us: 150_000 },
            MarkovState { mean_us: 2_000_000, std_dev_us: 500_000 },
            MarkovState { mean_us: 10_000_000, std_dev_us: 3_000_000 },
        ],
        seq![
            seq![400u64, 250, 150, 80, 50, 30, 20, 20],
            seq![150u64, 350, 250, 120, 60, 30, 20, 20],
            seq![80u64, 150, 350, 200, 100, 60, 30, 30],
            seq![50u64, 80, 150, 300, 200, 120, 50, 50],
            seq![100u64, 100, 100, 150, 250, 150, 100, 50],
            seq![80u64, 80, 80, 100, 150, 250, 150, 110],
            seq![100u64, 100, 100, 100, 100, 150, 200, 150],
            seq![200u64, 150, 150, 100, 100, 100, 100, 100],
        ],
        2,
    )
    &&& markov_is(
        m.iat_server,
        seq![
            MarkovState { mean_us: 20, std_dev_us: 8 },
            MarkovState { mean_us: 200, std_dev_us: 60 },
            MarkovState { mean_us: 2000, std_dev_us: 500 },
            MarkovState { mean_us: 20_000, std_dev_us: 5000 },
            MarkovState { mean_us: 80_000, std_dev_us: 20_000 },
            MarkovState { mean_us: 400_000, std_dev_us: 100_000 },
            MarkovState { mean_us: 1_500_000, std_dev_us: 400_000 },
            MarkovState { mean_us: 8_000_000, std_dev_us: 2_000_000 },
        ],
        seq![
            seq![450u64, 300, 120, 60, 30, 20, 10, 10],
            seq![120u64, 400, 250, 120, 50, 30, 20, 10],
            seq![60u64, 120, 380, 220, 100, 60, 30, 30],
            seq![40u64, 60, 120, 320, 220, 120, 60, 60],
            seq![80u64, 80, 100, 140, 250, 180, 100, 70],
            seq![60u64, 60, 80, 100, 150, 280, 150, 120],
            seq![80u64, 80, 80, 100, 120, 180, 220, 140],
            seq![150u64, 120, 120, 100, 120, 120, 120, 150],
        ],
        2,
    )
    &&& m.burst_pattern@ == seq![
        BurstEntry { batch_size: 1, pause_us: 0, direction: Direction::Upstream },
        BurstEntry { batch_size: 2, pause_us: 50_000, direction: Direction::Downstream },
        BurstEntry { batch_size: 1, pause_us: 200_000, direction: Direction::Upstream },
        BurstEntry { batch_size: 3, pause_us: 80_000, direction: Direction::Downstream },
    ]
    &&& m.init_window_client == 29200
    &&& m.init_window_server == 29200
    &&& m.keepalive_us == 15_000_000
    &&& m.overhead_budget_milli == 1500
    &&& m.granularity == MorphGranularity::PerPacket
    &&& chaff_is(
        m.chaff,
        true,
        200_000,
        1_000_000,
        seq![
            GmmComponent { mean: 100, std_dev: 30, weight_milli: 300 },
            GmmComponent { mean: 500, std_dev: 80, weight_milli: 300 },
            GmmComponent { mean: 1000, std_dev: 100, weight_milli: 200 },
            GmmComponent { mean: 1400, std_dev: 40, weight_milli: 200 },
        ],
        ChaffContent::RandomBytes,
        seq![
            ChaffTypeWeight { content: ChaffContent::RandomHighEntropy, weight_milli: 400 },
            ChaffTypeWeight { content: ChaffContent::DummyTlsRecord, weight_milli: 300 },
            ChaffTypeWeight { content: ChaffContent::Http2Frame, weight_milli: 200 },
            ChaffTypeWeight { content: ChaffContent::DnsLikeQuery, weight_milli: 100 },
        ],
    )
    &&& m.adversarial == (AdversarialConfig { enabled: true, jitter_pct_milli: 200, size_noise_pct_milli: 80 })
    &&& m.random_padding == true
}

/// The model of the paranoid model: wide size spread, eight delay states and frequent chaff.
pub fn paranoid_model() -> (r: SiteModel)
    ensures
        is_paranoid_model(r),
        valid_site_model(r),
{
    let client_states = vec![
        MarkovState { mean_us: 30, std_dev_us: 10 },
        MarkovState { mean_us: 300, std_dev_us: 80 },
        MarkovState { mean_us: 3000, std_dev_us: 800 },
        MarkovState { mean_us: 30_000, std_dev_us: 8000 },
        MarkovState { mean_us: 100_000, std_dev_us: 30_000 },
        MarkovState { mean_us: 500_000, std_dev_us: 150_000 },
        MarkovState { mean_us: 2_000_000, std_dev_us: 500_000 },
        MarkovState { mean_us: 10_000_000, std_dev_us: 3_000_000 },
    ];
    assert(client_states@ =~= seq![
        MarkovState { mean_us: 30, std_dev_us: 10 },
        MarkovState { mean_us: 300, std_dev_us: 80 },
        MarkovState { mean_us: 3000, std_dev_us: 800 },
        MarkovState { mean_us: 30_000, std_dev_us: 8000 },
        MarkovState { mean_us: 100_000, std_dev_us: 30_000 },
        MarkovState { mean_us: 500_000, std_dev_us: 150_000 },
        MarkovState { mean_us: 2_000_000, std_dev_us: 500_000 },
        MarkovState { mean_us: 10_000_000, std_dev_us: 3_000_000 },
    ]);
    let server_states = vec![
        MarkovState { mean_us: 20, std_dev_us: 8 },
        MarkovState { mean_us: 200, std_dev_us: 60 },
        MarkovState { mean_us: 2000, std_dev_us: 500 },
        MarkovState { mean_us: 20_000, std_dev_us: 5000 },
        MarkovState { mean_us: 80_000, std_dev_us: 20_000 },
        MarkovState { mean_us: 400_000, std_dev_us: 100_000 },
        MarkovState { mean_us: 1_500_000, std_dev_us: 400_000 },
        MarkovState { mean_us: 8_000_000, std_dev_us: 2_000_000 },
    ];
    assert(server_states@ =~= seq![
        MarkovState { mean_us: 20, std_dev_us: 8 },
        MarkovState { mean_us: 200, std_dev_us: 60 },
        MarkovState { mean_us: 2000, std_dev_us: 500 },
        MarkovState { mean_us: 20_000, std_dev_us: 5000 },
        MarkovState { mean_us: 80_000, std_dev_us: 20_000 },
        MarkovState { mean_us: 400_000, std_dev_us: 100_000 },
        MarkovState { mean_us: 1_500_000, std_dev_us: 400_000 },
        MarkovState { mean_us: 8_000_000, std_dev_us: 2_000_000 },
    ]);
    let burst_pattern = vec![
        BurstEntry { batch_size: 1, pause_us: 0, direction: Direction::Upstream },
        BurstEntry { batch_size: 2, pause_us: 50_000, direction: Direction::Downstream },
        BurstEntry { batch_size: 1, pause_us: 200_000, direction: Direction::Upstream },
        BurstEntry { batch_size: 3, pause_us: 80_000, direction: Direction::Downstream },
    ];
    assert(burst_pattern@ =~= seq![
        BurstEntry { batch_size: 1, pause_us: 0, direction: Direction::Upstream },
        BurstEntry { batch_size: 2, pause_us: 50_000, direction: Direction::Downstream },
        BurstEntry { batch_size: 1, pause_us: 200_000, direction: Direction::Upstream },
        BurstEntry { batch_size: 3, pause_us: 80_000, direction: Direction::Downstream },
    ]);
    SiteModel {
        name: "paranoid".to_string(),
        upstream_sizes: mixture4(
            GmmComponent { mean: 100, std_dev: 30, weight_milli: 250 },
            GmmComponent { mean: 500, std_dev: 80, weight_milli: 300 },
            GmmComponent { mean: 1000, std_dev: 100, weight_milli: 250 },
            GmmComponent { mean: 1400, std_dev: 40, weight_milli: 200 },
        ),
        downstream_sizes: mixture4(
            GmmComponent { mean: 150, std_dev: 40, weight_milli: 150 },
            GmmComponent { mean: 600, std_dev: 100, weight_milli: 250 },
            GmmComponent { mean: 1100, std_dev: 80, weight_milli: 250 },
            GmmComponent { mean: 1460, std_dev: 15, weight_milli: 350 },
        ),
        iat_client: chain8(
            client_states,
            row8(400, 250, 150, 80, 50, 30, 20, 20),
            row8(150, 350, 250, 120, 60, 30, 20, 20),
            row8(80, 150, 350, 200, 100, 60, 30, 30),
            row8(50, 80, 150, 300, 200, 120, 50, 50),
            row8(100, 100, 100, 150, 250, 150, 100, 50),
            row8(80, 80, 80, 100, 150, 250, 150, 110),
            row8(100, 100, 100, 100, 100, 150, 200, 150),
            row8(200, 150, 150, 100, 100, 100, 100, 100),
            2,
        ),
        iat_server: chain8(
            server_states,
            row8(450, 300, 120, 60, 30, 20, 10, 10),
            row8(120, 400, 250, 120, 50, 30, 20, 10),
            row8(60, 120, 380, 220, 100, 60, 30, 30),
            row8(40, 60, 120, 320, 220, 120, 60, 60),
            row8(80, 80, 100, 140, 250, 180, 100, 70),
            row8(60, 60, 80, 100, 150, 280, 150, 120),
            row8(80, 80, 80, 100, 120, 180, 220, 140),
            row8(150, 120, 120, 100, 120, 120, 120, 150),
            2,
        ),
        burst_pattern,
        init_window_client: 29200,
        init_window_server: 29200,
        keepalive_us: 15_000_000,
        overhead_budget_milli: 1500,
        granularity: MorphGranularity::PerPacket,
        chaff: ChaffConfig {
            enabled: true,
            min_interval_us: 200_000,
            max_interval_us: 1_000_000,
            size_distribution: mixture4(
                GmmComponent { mean: 100, std_dev: 30, weight_milli: 300 },
                GmmComponent { mean: 500, std_dev: 80, weight_milli: 300 },
                GmmComponent { mean: 1000, std_dev: 100, weight_milli: 200 },
                GmmComponent { mean: 1400, std_dev: 40, weight_milli: 200 },
            ),
            content: ChaffContent::RandomBytes,
            type_weights: paranoid_chaff_weights(),
        },
        adversarial: AdversarialConfig { enabled: true, jitter_pct_milli: 200, size_noise_pct_milli: 80 },
        random_padding: true,
    }
}

/// The mimicry model at position `i` of `all_mimicry_models`.
pub open spec fn is_mimicry_model(i: int, m: SiteModel) -> bool {
    if i == 0 {
        is_chrome_like_model(m)
    } else if i == 1 {
        is_firefox_like_model(m)
    } else if i == 2 {
        is_http2_multiplexed_model(m)
    } else if i == 3 {
        is_video_streaming_model(m)
    } else if i == 4 {
        is_chat_messaging_model(m)
    } else {
        is_paranoid_model(m)
    }
}

/// All six mimicry models, in the order Chrome-like, Firefox-like, HTTP/2,
/// video streaming, chat, paranoid.
pub fn all_mimicry_models() -> (r: Vec<SiteModel>)
    ensures
        r@.len() == 6,
        forall|i: int| 0 <= i < 6 ==> #[trigger] is_mimicry_model(i, r@[i]),
        forall|i: int| 0 <= i < 6 ==> valid_site_model(#[trigger] r@[i]),
{
    let mut v: Vec<SiteModel> = Vec::new();
    v.push(chrome_like_model());
    v.push(firefox_like_model());
    v.push(http2_multiplexed_model());
    v.push(video_streaming_model());
    v.push(chat_messaging_model());
    v.push(paranoid_model());
    assert forall|i: int| 0 <= i < 6 implies #[trigger] is_mimicry_model(i, v@[i]) && valid_site_model(v@[i]) by {
        if i == 0 {
        } else if i == 1 {
        } else if i == 2 {
        } else if i == 3 {
        } else if i == 4 {
        } else {
        }
    }
    v
}

/// The model that a profile name selects: browser, video, chat, streaming
/// (the HTTP/2 model) or paranoid; `None` for any other name.
pub fn model_by_profile(profile: &str) -> (r: Option<SiteModel>)
    ensures
        profile@ == "browser"@ ==> (r matches Some(m) && is_chrome_like_model(m)),
        profile@ == "video"@ ==> (r matches Some(m) && is_video_streaming_model(m)),
        profile@ == "chat"@ ==> (r matches Some(m) && is_chat_messaging_model(m)),
        profile@ == "streaming"@ ==> (r matches Some(m) && is_http2_multiplexed_model(m)),
        profile@ == "paranoid"@ ==> (r matches Some(m) && is_paranoid_model(m)),
        r is None <==> (profile@ != "browser"@ && profile@ != "video"@ && profile@ != "chat"@ && profile@
            != "streaming"@ && profile@ != "paranoid"@),
        r matches Some(m) ==> valid_site_model(m),
{
    proof {
        reveal_strlit("browser");
        reveal_strlit("video");
        reveal_strlit("chat");
        reveal_strlit("streaming");
        reveal_strlit("paranoid");
        assert("browser"@.len() == 7 && "video"@.len() == 5 && "chat"@.len() == 4);
        assert("streaming"@.len() == 9 && "paranoid"@.len() == 8);
    }
    let p = profile.to_string();
    if p == "browser".to_string() {
        Some(chrome_like_model())
    } else if p == "video".to_string() {
        Some(video_streaming_model())
    } else if p == "chat".to_string() {
        Some(chat_messaging_model())
    } else if p == "streaming".to_string() {
        Some(http2_multiplexed_model())
    } else if p == "paranoid".to_string() {
        Some(paranoid_model())
    } else {
        None
    }
}

} // verus!
