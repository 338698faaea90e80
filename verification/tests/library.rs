use tundra::fme::library::{synthetic_generic_browsing, ModelLibrary};
use tundra::fme::model::{
    BurstEntry, CompactHistogram, Direction, IatGenerator, SiteModel, SizeDistribution, TrafficMeasurements,
};

#[test]
fn empty_library_has_nothing() {
    let lib = ModelLibrary::new();
    assert!(lib.get("generic_browsing").is_none());
    assert!(lib.default_model().is_none());
    assert!(lib.model_names().is_empty());
}

#[test]
fn add_then_get() {
    let mut lib = ModelLibrary::new();
    lib.add(SiteModel::new("a".to_string()));
    lib.add(SiteModel::new("b".to_string()));
    assert_eq!(lib.get("a").unwrap().name, "a");
    assert_eq!(lib.get("b").unwrap().name, "b");
    assert!(lib.get("c").is_none());
    let mut names = lib.model_names();
    names.sort();
    assert_eq!(names, vec!["a", "b"]);
}

#[test]
fn add_replaces_same_name() {
    let mut lib = ModelLibrary::new();
    let mut m = SiteModel::new("a".to_string());
    lib.add(m.clone());
    m.keepalive_us = 7;
    lib.add(m);
    assert_eq!(lib.model_names(), vec!["a"]);
    assert_eq!(lib.get("a").unwrap().keepalive_us, 7);
}

#[test]
fn default_prefers_generic_browsing() {
    let mut lib = ModelLibrary::new();
    lib.add(SiteModel::new("other".to_string()));
    assert_eq!(lib.default_model().unwrap().name, "other");
    lib.add(synthetic_generic_browsing());
    assert_eq!(lib.default_model().unwrap().name, "generic_browsing");
}

#[test]
fn synthetic_model_shape() {
    let m = synthetic_generic_browsing();
    assert_eq!(m.name, "generic_browsing");
    assert_eq!(m.keepalive_us, 30_000_000);
    assert_eq!(m.overhead_budget_milli, 500);
    assert!(!m.chaff.enabled);
    assert_eq!(m.burst_pattern.len(), 4);
    match &m.upstream_sizes {
        SizeDistribution::Histogram(h) => {
            assert_eq!(h.resolution, 41);
            assert_eq!(h.boundaries.len(), 41);
            assert_eq!(h.boundaries[0], 200);
            assert_eq!(h.boundaries[40], 1460);
        }
        _ => panic!("synthetic sizes are histograms"),
    }
    match &m.iat_server {
        IatGenerator::Histogram(h) => {
            assert_eq!(h.boundaries[0], 20);
            assert_eq!(h.boundaries[40], 5000);
        }
        _ => panic!("synthetic delays are histograms"),
    }
}

#[test]
fn neutral_model_is_constant() {
    let m = SiteModel::new("x".to_string());
    match &m.upstream_sizes {
        SizeDistribution::Histogram(h) => {
            assert_eq!(h.boundaries, vec![1460; 21]);
            assert_eq!(h.resolution, 21);
        }
        _ => panic!(),
    }
    match &m.iat_client {
        IatGenerator::Histogram(h) => assert_eq!(h.boundaries, vec![1000; 21]),
        _ => panic!(),
    }
    assert_eq!(m.burst_pattern, vec![BurstEntry { batch_size: 3, pause_us: 50_000, direction: Direction::Upstream }]);
}

#[test]
fn model_from_measurements() {
    let mut t = TrafficMeasurements::empty();
    t.upstream_sizes = vec![100, 300, 200];
    t.iat_client_us = vec![5];
    t.keepalive_us = 9;
    let m = SiteModel::from_measurements("site".to_string(), &t);
    assert_eq!(m.name, "site");
    assert_eq!(m.keepalive_us, 9);
    match &m.upstream_sizes {
        SizeDistribution::Histogram(h) => {
            assert_eq!(h.boundaries.len(), 41);
            assert_eq!(h.boundaries[0], 100);
            assert_eq!(h.boundaries[20], 200);
            assert_eq!(h.boundaries[40], 300);
        }
        _ => panic!(),
    }
    match &m.downstream_sizes {
        SizeDistribution::Histogram(h) => assert_eq!(h.boundaries, vec![0]),
        _ => panic!(),
    }
}

#[test]
fn histogram_percentiles_and_median() {
    let h = CompactHistogram::new(&[5, 1, 4, 2, 3], 5);
    assert_eq!(h.boundaries, vec![1, 2, 3, 4, 5]);
    assert_eq!(h.median(), 3);
    let h2 = CompactHistogram::new(&[10, 20], 4);
    assert_eq!(h2.boundaries, vec![10, 10, 20, 20]);
    assert_eq!(h2.median(), 15);
}

#[test]
fn merge_appends_and_keeps_longer_pattern() {
    let mut a = TrafficMeasurements::empty();
    a.upstream_sizes = vec![1];
    a.burst_pattern = vec![BurstEntry { batch_size: 1, pause_us: 0, direction: Direction::Upstream }];
    let mut b = TrafficMeasurements::empty();
    b.upstream_sizes = vec![2, 3];
    b.keepalive_us = 4;
    a.merge(&b);
    assert_eq!(a.upstream_sizes, vec![1, 2, 3]);
    assert_eq!(a.burst_pattern.len(), 1);
    assert_eq!(a.keepalive_us, 4);
}
