use tundra::fme::mimicry::{
    all_mimicry_models, chat_messaging_model, chrome_like_model, firefox_like_model, http2_multiplexed_model,
    model_by_profile, paranoid_model, video_streaming_model,
};
use tundra::fme::model::{Direction, IatGenerator, MorphGranularity, MorphedPacket, SizeDistribution};
use tundra::fme::morpher::Morpher;

fn sizes_of(d: &SizeDistribution) -> Vec<usize> {
    match d {
        SizeDistribution::GMM { components } => components.iter().map(|c| c.mean as usize).collect(),
        SizeDistribution::Histogram(h) => h.boundaries.iter().map(|&b| b as usize).collect(),
    }
}

fn iats_of(g: &IatGenerator) -> Vec<u64> {
    match g {
        IatGenerator::MarkovChain { states, .. } => states.iter().map(|s| s.mean_us).collect(),
        IatGenerator::Histogram(h) => h.boundaries.clone(),
    }
}

/// Draws that cycle through representative sizes and delays of a direction.
fn draws_of(sizes: Vec<usize>, iats: Vec<u64>) -> Vec<(usize, u64)> {
    (0..sizes.len() * iats.len()).map(|k| (sizes[k % sizes.len()], iats[k % iats.len()])).collect()
}

/// Shapes everything queued, cycling through representative sizes and
/// delays of the model (its mixture means and state means).
fn morph_flush(m: &mut Morpher) -> Vec<MorphedPacket> {
    let up = draws_of(sizes_of(&m.model().upstream_sizes), iats_of(&m.model().iat_client));
    let dn = draws_of(sizes_of(&m.model().downstream_sizes), iats_of(&m.model().iat_server));
    m.morph_flush(&up, &dn)
}

#[test]
fn all_models_have_valid_names() {
    for model in all_mimicry_models() {
        assert!(!model.name.is_empty());
    }
}

#[test]
fn model_by_profile_browser() {
    let m = model_by_profile("browser").unwrap();
    assert_eq!(m.name, "chrome_tls");
}

#[test]
fn model_by_profile_unknown() {
    assert!(model_by_profile("nonexistent").is_none());
}

#[test]
fn all_models_morph_5000_bytes() {
    for src in all_mimicry_models() {
        let name = src.name.clone();
        let mut morpher = Morpher::new(src);
        morpher.push(vec![0xAB; 5000], Direction::Upstream);
        let packets = morph_flush(&mut morpher);
        assert!(!packets.is_empty(), "model produced no packets");
        for pkt in &packets {
            assert!(pkt.data.len() >= 40, "{}: packet too small {}", name, pkt.data.len());
            assert!(pkt.data.len() <= 1460, "{}: packet exceeds MTU {}", name, pkt.data.len());
        }
    }
}

#[test]
fn all_models_preserve_data() {
    for src in all_mimicry_models() {
        let _name = src.name.clone();
        let mut morpher = Morpher::new(src);
        let original = vec![0x42; 2000];
        morpher.push(original.clone(), Direction::Downstream);
        let packets = morph_flush(&mut morpher);
        let mut reassembled = Vec::new();
        for pkt in &packets {
            reassembled.extend_from_slice(&pkt.data[..pkt.real_data_len]);
        }
        assert_eq!(reassembled, original, "{} failed data preservation", _name);
    }
}

#[test]
fn models_in_order_with_their_names() {
    let names: Vec<String> = all_mimicry_models().into_iter().map(|m| m.name).collect();
    assert_eq!(
        names,
        vec!["chrome_tls", "firefox_tls", "http2_multiplexed", "video_streaming", "chat_messaging", "paranoid"]
    );
}

#[test]
fn profile_names_select_models() {
    assert_eq!(model_by_profile("video").unwrap().name, "video_streaming");
    assert_eq!(model_by_profile("chat").unwrap().name, "chat_messaging");
    assert_eq!(model_by_profile("streaming").unwrap().name, "http2_multiplexed");
    assert_eq!(model_by_profile("paranoid").unwrap().name, "paranoid");
    assert!(model_by_profile("Browser").is_none());
    assert!(model_by_profile("").is_none());
}

#[test]
fn model_parameters() {
    let c = chrome_like_model();
    assert_eq!(c.overhead_budget_milli, 500);
    assert_eq!(c.keepalive_us, 45_000_000);
    assert_eq!(c.granularity, MorphGranularity::PerBurst);
    assert_eq!(c.adversarial.jitter_pct_milli, 80);
    let f = firefox_like_model();
    assert_eq!(f.chaff.min_interval_us, 1_200_000);
    let h = http2_multiplexed_model();
    assert_eq!(h.init_window_client, 65535);
    assert_eq!(h.granularity, MorphGranularity::PerPacket);
    let v = video_streaming_model();
    assert!(!v.chaff.enabled);
    assert_eq!(v.init_window_server, 262144);
    let ch = chat_messaging_model();
    assert_eq!(ch.overhead_budget_milli, 800);
    let p = paranoid_model();
    assert_eq!(p.overhead_budget_milli, 1500);
    match &p.iat_client {
        IatGenerator::MarkovChain { states, transition, initial_state } => {
            assert_eq!(states.len(), 8);
            assert_eq!(*initial_state, 2);
            for row in transition {
                assert_eq!(row.iter().sum::<u64>(), 1000);
            }
        }
        _ => panic!("paranoid client delays are a Markov chain"),
    }
}

#[test]
fn mixture_weights_add_up() {
    for m in all_mimicry_models() {
        for d in [&m.upstream_sizes, &m.downstream_sizes] {
            match d {
                SizeDistribution::GMM { components } => {
                    assert_eq!(components.iter().map(|c| c.weight_milli).sum::<u64>(), 1000)
                }
                _ => panic!("mimicry sizes are mixtures"),
            }
        }
    }
}
