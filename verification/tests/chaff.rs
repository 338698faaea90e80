use tundra::fme::chaff::{fill_dns_like, fill_http2_frame, fill_http_like, fill_tls_record, ChaffGenerator};
use tundra::fme::model::{ChaffConfig, ChaffContent, ChaffTypeWeight, SizeDistribution};

fn test_config() -> ChaffConfig {
    ChaffConfig {
        enabled: true,
        min_interval_us: 100_000,
        max_interval_us: 500_000,
        size_distribution: SizeDistribution::from_histogram(&[64, 128, 256], 21),
        content: ChaffContent::RandomBytes,
        type_weights: vec![
            ChaffTypeWeight { content: ChaffContent::DummyTlsRecord, weight_milli: 500 },
            ChaffTypeWeight { content: ChaffContent::Http2Frame, weight_milli: 300 },
            ChaffTypeWeight { content: ChaffContent::RandomHighEntropy, weight_milli: 200 },
        ],
    }
}

fn with_content(content: ChaffContent) -> ChaffConfig {
    let mut c = test_config();
    c.content = content;
    c.type_weights = vec![];
    c
}

#[test]
fn chaff_generator_produces_valid_packets() {
    let cg = ChaffGenerator::new(test_config());
    // a size drawn from the configured histogram
    let pkt = cg.generate(128);
    assert!(pkt.data.len() >= 64);
    assert!(pkt.is_chaff);
    assert_eq!(pkt.real_data_len, 0);
}

#[test]
fn chaff_generator_timing() {
    let mut cg = ChaffGenerator::new(test_config());
    assert!(cg.should_generate(200_000));
    assert!(!cg.should_generate(10_000));
}

#[test]
fn chaff_disabled() {
    let mut config = test_config();
    config.enabled = false;
    let mut cg = ChaffGenerator::new(config);
    assert!(!cg.should_generate(1_000_000));
}

#[test]
fn tls_record_content() {
    let cg = ChaffGenerator::new(with_content(ChaffContent::DummyTlsRecord));
    let pkt = cg.generate(128);
    assert_eq!(pkt.data[0], 0x17);
    assert_eq!(pkt.data[1], 0x03);
    assert_eq!(pkt.data[2], 0x03);
}

#[test]
fn http2_frame_content() {
    let cg = ChaffGenerator::new(with_content(ChaffContent::Http2Frame));
    let pkt = cg.generate(128);
    assert!(pkt.data.len() >= 9);
    let frame_type = pkt.data[3];
    assert!(frame_type == 0x00 || frame_type == 0x01 || frame_type == 0x04 || frame_type == 0x08);
}

#[test]
fn weighted_selection_varies() {
    let cg = ChaffGenerator::new(test_config());
    let mut seen_tls = false;
    let mut seen_h2 = false;
    for _ in 0..50 {
        let content = cg.select_content();
        match content {
            ChaffContent::DummyTlsRecord => seen_tls = true,
            ChaffContent::Http2Frame => seen_h2 = true,
            _ => {}
        }
    }
    assert!(seen_tls);
    assert!(seen_h2);
}

#[test]
fn first_threshold_is_half_the_minimum_interval() {
    let mut cg = ChaffGenerator::new(test_config());
    assert!(!cg.should_generate_at(49_999, 0));
    assert!(cg.should_generate_at(1, 0));
    // later thresholds are the minimum plus the offset
    assert!(!cg.should_generate_at(100_000 + 41, 42));
    assert!(cg.should_generate_at(1, 42));
}

#[test]
fn weighted_draw_is_exact() {
    let cg = ChaffGenerator::new(test_config());
    assert_eq!(cg.select_content_at(0), ChaffContent::DummyTlsRecord);
    assert_eq!(cg.select_content_at(499), ChaffContent::DummyTlsRecord);
    assert_eq!(cg.select_content_at(500), ChaffContent::Http2Frame);
    assert_eq!(cg.select_content_at(799), ChaffContent::Http2Frame);
    assert_eq!(cg.select_content_at(800), ChaffContent::RandomHighEntropy);
    let plain = ChaffGenerator::new(with_content(ChaffContent::DnsLikeQuery));
    assert_eq!(plain.select_content_at(0), ChaffContent::DnsLikeQuery);
}

#[test]
fn chaff_size_is_clamped() {
    let cg = ChaffGenerator::new(test_config());
    assert_eq!(cg.generate(10).data.len(), 64);
    assert_eq!(cg.generate(5000).data.len(), 1420);
    assert_eq!(cg.generate(300).data.len(), 300);
}

#[test]
fn fillers_shape_their_bytes() {
    let tls = fill_tls_record(vec![0u8; 100]);
    assert_eq!(&tls[..5], &[0x17, 0x03, 0x03, 0x00, 95]);
    let h2 = fill_http2_frame(vec![0u8; 100], 2, 5);
    assert_eq!(h2[3], 0x04);
    assert_eq!(&h2[5..9], &[0, 0, 0, 5]);
    let http = fill_http_like(vec![0u8; 100], 1);
    assert_eq!(&http[..13], b"POST /api/v2/");
    let dns = fill_dns_like(vec![0u8; 64], 0x1234);
    assert_eq!(&dns[..2], &[0x12, 0x34]);
}

#[test]
fn configured_kind_is_used_without_weights() {
    let cg = ChaffGenerator::new(with_content(ChaffContent::DummyTlsRecord));
    for _ in 0..20 {
        assert_eq!(cg.select_content(), ChaffContent::DummyTlsRecord);
        let pkt = cg.generate(200);
        assert_eq!(&pkt.data[0..3], &[0x17, 0x03, 0x03]);
        assert_eq!(&pkt.data[3..5], &((pkt.data.len() - 5) as u16).to_be_bytes());
    }
}

#[test]
fn zero_weight_kinds_are_never_picked() {
    let mut c = test_config();
    c.type_weights = vec![
        ChaffTypeWeight { content: ChaffContent::RandomBytes, weight_milli: 0 },
        ChaffTypeWeight { content: ChaffContent::DnsLikeQuery, weight_milli: 1000 },
        ChaffTypeWeight { content: ChaffContent::Http2Frame, weight_milli: 0 },
    ];
    let cg = ChaffGenerator::new(c);
    for _ in 0..50 {
        assert_eq!(cg.select_content(), ChaffContent::DnsLikeQuery);
    }
    let mut zero = test_config();
    zero.type_weights = vec![
        ChaffTypeWeight { content: ChaffContent::Http2Frame, weight_milli: 0 },
        ChaffTypeWeight { content: ChaffContent::DnsLikeQuery, weight_milli: 0 },
    ];
    assert_eq!(ChaffGenerator::new(zero).select_content(), ChaffContent::Http2Frame);
}
