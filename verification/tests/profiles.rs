use tundra::fme::model::ModelRotation;
use tundra::fme::profiles::{builtin_profiles, get_profile, FmeConfig};

#[test]
fn builtin_profiles_count() {
    assert_eq!(builtin_profiles().len(), 5);
}

#[test]
fn get_browser_profile() {
    let p = get_profile("browser").unwrap();
    assert_eq!(p.name, "browser");
    assert!(p.chaff.enabled);
    assert!(p.adversarial.enabled);
}

#[test]
fn get_paranoid_profile() {
    let p = get_profile("paranoid").unwrap();
    assert_eq!(p.name, "paranoid");
    assert!(p.chaff.enabled);
    assert!(p.overhead_budget_milli as f64 / 1000.0 > 1.0);
    assert_eq!(p.rotation, ModelRotation::PerSession);
}

#[test]
fn config_default() {
    let c = FmeConfig::default();
    assert_eq!(c.profile, "browser");
}

#[test]
fn unknown_profile_is_none() {
    assert!(get_profile("nonexistent").is_none());
    assert!(get_profile("Browser").is_none());
}

#[test]
fn video_and_streaming_have_no_chaff() {
    assert!(!get_profile("video").unwrap().chaff.enabled);
    assert!(!get_profile("streaming").unwrap().chaff.enabled);
    assert_eq!(get_profile("streaming").unwrap().overhead_budget_milli, 200);
}
