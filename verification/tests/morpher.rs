use tundra::fme::model::{
    AdversarialConfig, BurstEntry, ChaffConfig, ChaffContent, CompactHistogram, Direction, GmmComponent,
    IatGenerator, MarkovState, MorphGranularity, MorphedPacket, SiteModel, SizeDistribution,
};
use tundra::fme::distribution::fill_random_padding;
use tundra::fme::morpher::{enforce_overhead, MorphStats, Morpher, MTU};

/// Representative sizes of a distribution: the mixture's means, or the
/// histogram's boundaries.
fn sizes_of(d: &SizeDistribution) -> Vec<usize> {
    match d {
        SizeDistribution::GMM { components } => components.iter().map(|c| c.mean as usize).collect(),
        SizeDistribution::Histogram(h) => h.boundaries.iter().map(|&b| b as usize).collect(),
    }
}

/// Representative delays of a generator: the states' means, or the
/// histogram's boundaries.
fn iats_of(g: &IatGenerator) -> Vec<u64> {
    match g {
        IatGenerator::MarkovChain { states, .. } => states.iter().map(|s| s.mean_us).collect(),
        IatGenerator::Histogram(h) => h.boundaries.clone(),
    }
}

/// Draws that cycle through representative sizes and delays of a direction.
fn draws_of(sizes: Vec<usize>, iats: Vec<u64>) -> Vec<(usize, u64)> {
    (0..sizes.len() * iats.len()).map(|k| (sizes[k % sizes.len()], iats[k % iats.len()])).collect()
}

/// Shapes everything queued, upstream then downstream, cycling through
/// representative sizes and delays of the model.
fn morph_flush(m: &mut Morpher) -> Vec<MorphedPacket> {
    let up = draws_of(sizes_of(&m.model().upstream_sizes), iats_of(&m.model().iat_client));
    let dn = draws_of(sizes_of(&m.model().downstream_sizes), iats_of(&m.model().iat_server));
    m.morph_flush(&up, &dn)
}

fn gmm_model() -> SiteModel {
    SiteModel {
        name: "test_gmm".to_string(),
        upstream_sizes: SizeDistribution::from_gmm(vec![
            GmmComponent { mean: 200, std_dev: 30, weight_milli: 300 },
            GmmComponent { mean: 800, std_dev: 80, weight_milli: 500 },
            GmmComponent { mean: 1400, std_dev: 40, weight_milli: 200 },
        ]),
        downstream_sizes: SizeDistribution::from_gmm(vec![
            GmmComponent { mean: 500, std_dev: 50, weight_milli: 400 },
            GmmComponent { mean: 1460, std_dev: 20, weight_milli: 600 },
        ]),
        iat_client: IatGenerator::MarkovChain {
            states: vec![
                MarkovState { mean_us: 100, std_dev_us: 30 },
                MarkovState { mean_us: 2000, std_dev_us: 500 },
                MarkovState { mean_us: 10000, std_dev_us: 2000 },
            ],
            transition: vec![vec![600, 300, 100], vec![200, 500, 300], vec![400, 300, 300]],
            initial_state: 0,
        },
        iat_server: IatGenerator::MarkovChain {
            states: vec![
                MarkovState { mean_us: 50, std_dev_us: 15 },
                MarkovState { mean_us: 500, std_dev_us: 100 },
                MarkovState { mean_us: 5000, std_dev_us: 1000 },
            ],
            transition: vec![vec![700, 200, 100], vec![100, 600, 300], vec![300, 400, 300]],
            initial_state: 0,
        },
        burst_pattern: vec![
            BurstEntry { batch_size: 2, pause_us: 0, direction: Direction::Upstream },
            BurstEntry { batch_size: 6, pause_us: 150_000, direction: Direction::Downstream },
        ],
        init_window_client: 29200,
        init_window_server: 29200,
        keepalive_us: 30_000_000,
        overhead_budget_milli: 1000,
        granularity: MorphGranularity::PerBurst,
        chaff: ChaffConfig {
            enabled: true,
            min_interval_us: 500_000,
            max_interval_us: 2_000_000,
            size_distribution: SizeDistribution::from_histogram(&[64, 128, 256], 21),
            content: ChaffContent::RandomBytes,
            type_weights: vec![],
        },
        adversarial: AdversarialConfig { enabled: true, jitter_pct_milli: 100, size_noise_pct_milli: 50 },
        random_padding: true,
    }
}

fn histogram_model() -> SiteModel {
    let sizes = vec![64, 256, 512, 1024, 1460, 1460, 1460, 1460];
    let iats = vec![10, 50, 100, 500, 1000, 5000, 10000];
    SiteModel {
        name: "test_hist".to_string(),
        upstream_sizes: SizeDistribution::from_histogram(&sizes, 21),
        downstream_sizes: SizeDistribution::from_histogram(&sizes, 21),
        iat_client: IatGenerator::Histogram(CompactHistogram::new(&iats, 21)),
        iat_server: IatGenerator::Histogram(CompactHistogram::new(&iats, 21)),
        burst_pattern: vec![BurstEntry { batch_size: 3, pause_us: 100_000, direction: Direction::Upstream }],
        init_window_client: 29200,
        init_window_server: 29200,
        keepalive_us: 30_000_000,
        overhead_budget_milli: 1000,
        granularity: MorphGranularity::PerBurst,
        chaff: ChaffConfig::default(),
        adversarial: AdversarialConfig::default(),
        random_padding: false,
    }
}

#[test]
fn gmm_morpher_produces_valid_packets() {
    let mut morpher = Morpher::new(gmm_model());
    morpher.push(vec![0xAB; 5000], Direction::Upstream);
    let packets = morph_flush(&mut morpher);
    assert!(!packets.is_empty());
    for pkt in &packets {
        assert!(pkt.data.len() >= 40, "packet too small: {}", pkt.data.len());
        assert!(pkt.data.len() <= MTU, "packet exceeds MTU: {}", pkt.data.len());
    }
}

#[test]
fn gmm_morpher_preserves_data() {
    let mut morpher = Morpher::new(gmm_model());
    let original = vec![0x42; 2000];
    morpher.push(original.clone(), Direction::Downstream);
    let packets = morph_flush(&mut morpher);
    let mut reassembled = Vec::new();
    for pkt in &packets {
        reassembled.extend_from_slice(&pkt.data[..pkt.real_data_len]);
    }
    assert_eq!(reassembled, original);
}

#[test]
fn markov_iat_nonzero() {
    let mut morpher = Morpher::new(gmm_model());
    morpher.push(vec![0u8; 3000], Direction::Upstream);
    let packets = morph_flush(&mut morpher);
    assert!(!packets.is_empty());
    assert!(packets.iter().all(|p| p.send_after_us > 0 || packets.len() == 1));
}

#[test]
fn histogram_backward_compat() {
    let mut morpher = Morpher::new(histogram_model());
    morpher.push(vec![0u8; 5000], Direction::Upstream);
    let packets = morph_flush(&mut morpher);
    assert!(!packets.is_empty());
    for pkt in &packets {
        assert!(pkt.data.len() >= 40);
        assert!(pkt.data.len() <= MTU);
    }
}

#[test]
fn random_padding_nonzero() {
    let mut morpher = Morpher::new(gmm_model());
    morpher.push(vec![0x01; 10], Direction::Upstream);
    let packets = morph_flush(&mut morpher);
    assert!(!packets.is_empty());
    let pkt = &packets[0];
    assert!(pkt.data.len() > 10, "should be padded");
    let has_nonzero_pad = pkt.data[10..].iter().any(|&b| b != 0);
    assert!(has_nonzero_pad, "padding should be random, not zeros");
}

#[test]
fn chaff_generation() {
    let mut morpher = Morpher::new(gmm_model());
    // a chaff size drawn from the model's chaff histogram
    let pkt = morpher.generate_chaff(1_000_000, 128);
    assert!(pkt.is_some());
    let pkt = pkt.unwrap();
    assert!(pkt.is_chaff);
    assert_eq!(pkt.real_data_len, 0);
}

#[test]
fn chaff_too_early() {
    let mut morpher = Morpher::new(gmm_model());
    let pkt = morpher.generate_chaff(10, 128);
    assert!(pkt.is_none());
}

#[test]
fn overhead_budget_enforced() {
    let mut model = gmm_model();
    model.overhead_budget_milli = 200;
    let mut morpher = Morpher::new(model);
    morpher.push(vec![0u8; 50000], Direction::Upstream);
    let _packets = morph_flush(&mut morpher);
    let s = morpher.stats();
    let overhead = (s.bytes_out as f64 - s.bytes_in as f64) / s.bytes_in as f64;
    assert!(overhead <= 0.25, "overhead {} exceeds budget 0.2", overhead);
}

#[test]
fn cover_traffic_after_keepalive() {
    let mut morpher = Morpher::new(gmm_model());
    let packets = morpher.generate_cover_traffic(35_000_000);
    assert_eq!(packets.len(), 1);
    assert_eq!(packets[0].data.len(), 40);
}

#[test]
fn cover_traffic_before_keepalive() {
    let mut morpher = Morpher::new(gmm_model());
    let packets = morpher.generate_cover_traffic(10_000_000);
    assert!(packets.is_empty());
}

#[test]
fn large_payload_morphing() {
    let mut morpher = Morpher::new(gmm_model());
    morpher.push(vec![0xAA; 100_000], Direction::Downstream);
    let packets = morph_flush(&mut morpher);
    let mut reassembled = Vec::new();
    for pkt in &packets {
        reassembled.extend_from_slice(&pkt.data[..pkt.real_data_len]);
    }
    assert_eq!(reassembled.len(), 100_000);
    assert!(reassembled.iter().all(|&b| b == 0xAA));
}

#[test]
fn sizes_are_clamped_to_the_payload_range() {
    let mut morpher = Morpher::new(gmm_model());
    morpher.push(vec![1u8; 3000], Direction::Upstream);
    let q = morpher.take_queue(Direction::Upstream);
    let mut seg = morpher.drain(q, Direction::Upstream);
    morpher.shape_next(&mut seg, 10, 5);
    morpher.shape_next(&mut seg, 5000, 6);
    while !seg.is_done() {
        morpher.shape_next(&mut seg, 1000, 7);
    }
    let packets = morpher.finish(seg);
    assert_eq!(packets[0].data.len(), 64);
    assert_eq!(packets[0].send_after_us, 5);
    assert_eq!(packets[1].data.len(), 1420);
    assert_eq!(packets[1].send_after_us, 6);
    assert_eq!(morpher.stats().bytes_in, 3000);
}

#[test]
fn over_budget_packets_are_merged() {
    let mut model = gmm_model();
    model.overhead_budget_milli = 0;
    model.random_padding = false;
    let mut morpher = Morpher::new(model);
    morpher.push(vec![5u8; 100], Direction::Upstream);
    let q = morpher.take_queue(Direction::Upstream);
    let mut seg = morpher.drain(q, Direction::Upstream);
    while !seg.is_done() {
        morpher.shape_next(&mut seg, 64, 100);
    }
    let packets = morpher.finish(seg);
    // 64 + 64 bytes shaped for 100 bytes of data: over a zero budget, merged into one
    assert_eq!(packets.len(), 1);
    assert_eq!(packets[0].data.len(), 128);
    assert_eq!(packets[0].real_data_len, 100);
    assert_eq!(packets[0].send_after_us, 10);
}

#[test]
fn stats_exceed_budget_is_exact() {
    let mut morpher = Morpher::new(gmm_model());
    morpher.push(vec![0u8; 1000], Direction::Upstream);
    let q = morpher.take_queue(Direction::Upstream);
    let mut seg = morpher.drain(q, Direction::Upstream);
    morpher.shape_next(&mut seg, 1200, 1);
    let s = *morpher.stats();
    assert_eq!(s.bytes_out, 1200);
    assert!(s.exceeds_budget(199));
    assert!(!s.exceeds_budget(200));
}

#[test]
fn fill_random_padding_changes_bytes() {
    let mut data = vec![0u8; 100];
    fill_random_padding(&mut data, 50);
    assert!(data[..50].iter().all(|&b| b == 0));
    assert!(data[50..].iter().any(|&b| b != 0));
}

#[test]
fn fill_random_padding_past_end_keeps_data() {
    let mut data = vec![7u8; 10];
    fill_random_padding(&mut data, 10);
    assert_eq!(data, vec![7u8; 10]);
}

#[test]
fn morph_flush_cycles_draws_per_direction() {
    let mut morpher = Morpher::new(histogram_model());
    let up_data: Vec<u8> = (0..300u32).map(|i| i as u8).collect();
    let dn_data: Vec<u8> = (0..100u32).map(|i| (i * 3) as u8).collect();
    morpher.push(up_data.clone(), Direction::Upstream);
    morpher.push(dn_data.clone(), Direction::Downstream);
    let packets = morpher.morph_flush(&[(100, 7)], &[(64, 9)]);
    assert_eq!(packets.len(), 5);
    for p in &packets[..3] {
        assert_eq!(p.direction, Direction::Upstream);
        assert_eq!(p.data.len(), 100);
        assert_eq!(p.send_after_us, 7);
    }
    for p in &packets[3..] {
        assert_eq!(p.direction, Direction::Downstream);
        assert_eq!(p.data.len(), 64);
        assert_eq!(p.send_after_us, 9);
    }
    let up_real: Vec<u8> = packets[..3].iter().flat_map(|p| p.data[..p.real_data_len].to_vec()).collect();
    let dn_real: Vec<u8> = packets[3..].iter().flat_map(|p| p.data[..p.real_data_len].to_vec()).collect();
    assert_eq!(up_real, up_data);
    assert_eq!(dn_real, dn_data);
    assert_eq!(packets[4].real_data_len, 36);
    assert!(packets[4].data[36..].iter().all(|&b| b == 0));
    assert_eq!(morpher.stats().bytes_in, 400);
    assert_eq!(morpher.stats().bytes_out, 428);
    assert!(morpher.morph_flush(&[(100, 7)], &[(64, 9)]).is_empty());
    assert_eq!(morpher.stats().bytes_out, 428);
}

fn packet(data: Vec<u8>, real: usize, dir: Direction) -> MorphedPacket {
    MorphedPacket { data, real_data_len: real, direction: dir, send_after_us: 999, is_chaff: false }
}

#[test]
fn enforce_overhead_packs_packets_greedily() {
    let stats = MorphStats { bytes_in: 100, bytes_out: 1000, packets_out: 4, cover_packets: 0, chaff_packets: 0 };
    let packets = vec![
        packet(vec![1; 600], 600, Direction::Downstream),
        packet(vec![2; 600], 600, Direction::Downstream),
        packet(vec![3; 600], 600, Direction::Downstream),
        packet(vec![4, 0, 0, 0, 0, 0, 0, 0], 1, Direction::Downstream),
    ];
    let merged = enforce_overhead(500, &stats, packets.clone());
    assert_eq!(merged.len(), 2);
    assert_eq!(merged[0].data.len(), 1200);
    assert_eq!(merged[0].real_data_len, 1200);
    assert_eq!(merged[0].send_after_us, 10);
    assert_eq!(merged[1].data.len(), 608);
    assert_eq!(merged[1].real_data_len, 601);
    assert_eq!(merged[1].send_after_us, 20);
    assert!(merged.iter().all(|p| p.direction == Direction::Downstream && !p.is_chaff));
    // within budget nothing changes
    let relaxed = enforce_overhead(10_000, &stats, packets.clone());
    assert_eq!(relaxed.len(), 4);
    assert_eq!(relaxed[0].send_after_us, 999);
}
