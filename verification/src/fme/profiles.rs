//! Built-in traffic profiles and the engine's configuration.
use vstd::prelude::*;

use crate::fme::chaff::{browser_chaff_weights, chat_chaff_weights, paranoid_chaff_weights};
use crate::fme::model::{
    AdversarialConfig, ChaffConfig, ChaffContent, ChaffTypeWeight, GmmComponent, ModelRotation, MorphProfile,
    SizeDistribution,
};

verus! {

broadcast use vstd::string::group_string_axioms;

/// Configuration of the flow-morphing engine.
#[derive(Debug, Clone)]
pub struct FmeConfig {
    pub profile: String,
    pub rotation: ModelRotation,
    pub custom_profiles: Vec<MorphProfile>,
}

impl Default for FmeConfig {
    /// The browser profile, never rotated, no custom profiles.
    fn default() -> (r: FmeConfig)
        ensures
            r.profile@ == "browser"@,
            r.rotation == ModelRotation::Never,
            r.custom_profiles@.len() == 0,
    {
        FmeConfig { profile: "browser".to_string(), rotation: ModelRotation::Never, custom_profiles: Vec::new() }
    }
}

/// `c` is a chaff configuration with exactly these fields.
pub open spec fn chaff_is(
    c: ChaffConfig,
    enabled: bool,
    min_interval_us: u64,
    max_interval_us: u64,
    components: Seq<GmmComponent>,
    content: ChaffContent,
    weights: Seq<ChaffTypeWeight>,
) -> bool {
    &&& c.enabled == enabled
    &&& c.min_interval_us == min_interval_us
    &&& c.max_interval_us == max_interval_us
    &&& c.size_distribution matches SizeDistribution::GMM { components: cs } && cs@ == components
    &&& c.content == content
    &&& c.type_weights@ == weights
}

/// `c` is the switched-off chaff configuration (`ChaffConfig::disabled`).
pub open spec fn chaff_is_disabled(c: ChaffConfig) -> bool {
    chaff_is(
        c,
        false,
        1_000_000,
        5_000_000,
        seq![GmmComponent { mean: 128, std_dev: 32, weight_milli: 1000 }],
        ChaffContent::RandomBytes,
        Seq::empty(),
    )
}

/// `p` is a profile with exactly these fields, besides its chaff.
pub open spec fn profile_is(
    p: MorphProfile,
    name: Seq<char>,
    overhead_budget_milli: u64,
    rotation: ModelRotation,
    adversarial: AdversarialConfig,
    random_padding: bool,
) -> bool {
    &&& p.name@ == name
    &&& p.overhead_budget_milli == overhead_budget_milli
    &&& p.rotation == rotation
    &&& p.adversarial == adversarial
    &&& p.random_padding == random_padding
}

/// The browser profile.
pub open spec fn is_browser_profile(p: MorphProfile) -> bool {
    &&& profile_is(p, "browser"@, 500, ModelRotation::Never,
        AdversarialConfig { enabled: true, jitter_pct_milli: 80, size_noise_pct_milli: 30 }, true)
    &&& chaff_is(p.chaff, true, 800_000, 3_000_000, seq![
            GmmComponent { mean: 128, std_dev: 32, weight_milli: 400 },
            GmmComponent { mean: 512, std_dev: 80, weight_milli: 400 },
            GmmComponent { mean: 1200, std_dev: 100, weight_milli: 200 },
        ], ChaffContent::HttpLikeHeaders, seq![
            ChaffTypeWeight { content: ChaffContent::DummyTlsRecord, weight_milli: 500 },
            ChaffTypeWeight { content: ChaffContent::Http2Frame, weight_milli: 300 },
            ChaffTypeWeight { content: ChaffContent::RandomHighEntropy, weight_milli: 200 },
        ])
}

/// The video profile.
pub open spec fn is_video_profile(p: MorphProfile) -> bool {
    &&& profile_is(p, "video"@, 300, ModelRotation::Never,
        AdversarialConfig { enabled: true, jitter_pct_milli: 50, size_noise_pct_milli: 20 }, true)
    &&& chaff_is_disabled(p.chaff)
}

/// The chat profile.
pub open spec fn is_chat_profile(p: MorphProfile) -> bool {
    &&& profile_is(p, "chat"@, 800, ModelRotation::Never,
        AdversarialConfig { enabled: true, jitter_pct_milli: 150, size_noise_pct_milli: 50 }, true)
    &&& chaff_is(p.chaff, true, 500_000, 2_000_000, seq![
            GmmComponent { mean: 80, std_dev: 20, weight_milli: 600 },
            GmmComponent { mean: 300, std_dev: 50, weight_milli: 300 },
            GmmComponent { mean: 800, std_dev: 100, weight_milli: 100 },
        ], ChaffContent::RandomBytes, seq![
            ChaffTypeWeight { content: ChaffContent::DummyTlsRecord, weight_milli: 400 },
            ChaffTypeWeight { content: ChaffContent::RandomHighEntropy, weight_milli: 400 },
            ChaffTypeWeight { content: ChaffContent::Http2Frame, weight_milli: 200 },
        ])
}

/// The streaming profile.
pub open spec fn is_streaming_profile(p: MorphProfile) -> bool {
    &&& profile_is(p, "streaming"@, 200, ModelRotation::Never,
        AdversarialConfig { enabled: true, jitter_pct_milli: 30, size_noise_pct_milli: 20 }, true)
    &&& chaff_is_disabled(p.chaff)
}

/// The paranoid profile.
pub open spec fn is_paranoid_profile(p: MorphProfile) -> bool {
    &&& profile_is(p, "paranoid"@, 1500, ModelRotation::PerSession,
        AdversarialConfig { enabled: true, jitter_pct_milli: 200, size_noise_pct_milli: 80 }, true)
    &&& chaff_is(p.chaff, true, 200_000, 1_000_000, seq![
            GmmComponent { mean: 100, std_dev: 30, weight_milli: 300 },
            GmmComponent { mean: 500, std_dev: 80, weight_milli: 300 },
            GmmComponent { mean: 1000, std_dev: 100, weight_milli: 200 },
            GmmComponent { mean: 1400, std_dev: 40, weight_milli: 200 },
        ], ChaffContent::RandomBytes, seq![
            ChaffTypeWeight { content: ChaffContent::RandomHighEntropy, weight_milli: 400 },
            ChaffTypeWeight { content: ChaffContent::DummyTlsRecord, weight_milli: 300 },
            ChaffTypeWeight { content: ChaffContent::Http2Frame, weight_milli: 200 },
            ChaffTypeWeight { content: ChaffContent::DnsLikeQuery, weight_milli: 100 },
        ])
}

/// The built-in profile at position `i`.
pub open spec fn is_builtin_profile(i: int, p: MorphProfile) -> bool {
    if i == 0 {
        is_browser_profile(p)
    } else if i == 1 {
        is_video_profile(p)
    } else if i == 2 {
        is_chat_profile(p)
    } else if i == 3 {
        is_streaming_profile(p)
    } else {
        is_paranoid_profile(p)
    }
}

/// Name of the built-in profile at position `i`.
pub open spec fn builtin_profile_name(i: int) -> Seq<char> {
    if i == 0 {
        "browser"@
    } else if i == 1 {
        "video"@
    } else if i == 2 {
        "chat"@
    } else if i == 3 {
        "streaming"@
    } else {
        "paranoid"@
    }
}

fn gmm(components: Vec<GmmComponent>) -> (r: SizeDistribution)
    ensures
        r matches SizeDistribution::GMM { components: c } && c@ == components@,
{
    SizeDistribution::from_gmm(components)
}

/// The five built-in profiles: browser, video, chat, streaming, paranoid.
pub fn builtin_profiles() -> (r: Vec<MorphProfile>)
    ensures
        r@.len() == 5,
        forall|i: int| 0 <= i < 5 ==> #[trigger] is_builtin_profile(i, r@[i]),
        forall|i: int| 0 <= i < 5 ==> (#[trigger] r@[i]).name@ == builtin_profile_name(i),
{
    let browser_components = vec![
        GmmComponent { mean: 128, std_dev: 32, weight_milli: 400 },
        GmmComponent { mean: 512, std_dev: 80, weight_milli: 400 },
        GmmComponent { mean: 1200, std_dev: 100, weight_milli: 200 },
    ];
    assert(browser_components@ =~= seq![
        GmmComponent { mean: 128, std_dev: 32, weight_milli: 400 },
        GmmComponent { mean: 512, std_dev: 80, weight_milli: 400 },
        GmmComponent { mean: 1200, std_dev: 100, weight_milli: 200 },
    ]);
    let browser = MorphProfile {
        name: "browser".to_string(),
        overhead_budget_milli: 500,
        chaff: ChaffConfig {
            enabled: true,
            min_interval_us: 800_000,
            max_interval_us: 3_000_000,
            size_distribution: gmm(browser_components),
            content: ChaffContent::HttpLikeHeaders,
            type_weights: browser_chaff_weights(),
        },
        rotation: ModelRotation::Never,
        adversarial: AdversarialConfig { enabled: true, jitter_pct_milli: 80, size_noise_pct_milli: 30 },
        random_padding: true,
    };
    let video = MorphProfile {
        name: "video".to_string(),
        overhead_budget_milli: 300,
        chaff: ChaffConfig::disabled(),
        rotation: ModelRotation::Never,
        adversarial: AdversarialConfig { enabled: true, jitter_pct_milli: 50, size_noise_pct_milli: 20 },
        random_padding: true,
    };
    let chat_components = vec![
        GmmComponent { mean: 80, std_dev: 20, weight_milli: 600 },
        GmmComponent { mean: 300, std_dev: 50, weight_milli: 300 },
        GmmComponent { mean: 800, std_dev: 100, weight_milli: 100 },
    ];
    assert(chat_components@ =~= seq![
        GmmComponent { mean: 80, std_dev: 20, weight_milli: 600 },
        GmmComponent { mean: 300, std_dev: 50, weight_milli: 300 },
        GmmComponent { mean: 800, std_dev: 100, weight_milli: 100 },
    ]);
    let chat = MorphProfile {
        name: "chat".to_string(),
        overhead_budget_milli: 800,
        chaff: ChaffConfig {
            enabled: true,
            min_interval_us: 500_000,
            max_interval_us: 2_000_000,
            size_distribution: gmm(chat_components),
            content: ChaffContent::RandomBytes,
            type_weights: chat_chaff_weights(),
        },
        rotation: ModelRotation::Never,
        adversarial: AdversarialConfig { enabled: true, jitter_pct_milli: 150, size_noise_pct_milli: 50 },
        random_padding: true,
    };
    let streaming = MorphProfile {
        name: "streaming".to_string(),
        overhead_budget_milli: 200,
        chaff: ChaffConfig::disabled(),
        rotation: ModelRotation::Never,
        adversarial: AdversarialConfig { enabled: true, jitter_pct_milli: 30, size_noise_pct_milli: 20 },
        random_padding: true,
    };
    let paranoid_components = vec![
        GmmComponent { mean: 100, std_dev: 30, weight_milli: 300 },
        GmmComponent { mean: 500, std_dev: 80, weight_milli: 300 },
        GmmComponent { mean: 1000, std_dev: 100, weight_milli: 200 },
        GmmComponent { mean: 1400, std_dev: 40, weight_milli: 200 },
    ];
    assert(paranoid_components@ =~= seq![
        GmmComponent { mean: 100, std_dev: 30, weight_milli: 300 },
        GmmComponent { mean: 500, std_dev: 80, weight_milli: 300 },
        GmmComponent { mean: 1000, std_dev: 100, weight_milli: 200 },
        GmmComponent { mean: 1400, std_dev: 40, weight_milli: 200 },
    ]);
    let paranoid = MorphProfile {
        name: "paranoid".to_string(),
        overhead_budget_milli: 1500,
        chaff: ChaffConfig {
            enabled: true,
            min_interval_us: 200_000,
            max_interval_us: 1_000_000,
            size_distribution: gmm(paranoid_components),
            content: ChaffContent::RandomBytes,
            type_weights: paranoid_chaff_weights(),
        },
        rotation: ModelRotation::PerSession,
        adversarial: AdversarialConfig { enabled: true, jitter_pct_milli: 200, size_noise_pct_milli: 80 },
        random_padding: true,
    };
    let mut v: Vec<MorphProfile> = Vec::new();
    v.push(browser);
    v.push(video);
    v.push(chat);
    v.push(streaming);
    v.push(paranoid);
    assert(is_builtin_profile(0, v@[0]));
    assert(is_builtin_profile(1, v@[1]));
    assert(is_builtin_profile(2, v@[2]));
    assert(is_builtin_profile(3, v@[3]));
    assert(is_builtin_profile(4, v@[4]));
    assert forall|i: int| 0 <= i < 5 implies #[trigger] is_builtin_profile(i, v@[i]) by {
        if i == 0 {
        } else if i == 1 {
        } else if i == 2 {
        } else if i == 3 {
        } else {
        }
    }
    v
}

/// The built-in profile named `name`, if there is one.
pub fn get_profile(name: &str) -> (r: Option<MorphProfile>)
    ensures
        r is Some <==> exists|i: int| 0 <= i < 5 && name@ == #[trigger] builtin_profile_name(i),
        forall|i: int|
            0 <= i < 5 && name@ == #[trigger] builtin_profile_name(i) ==> (r matches Some(p) && p.name@ == name@
                && is_builtin_profile(i, p)),
{
    let mut profiles = builtin_profiles();
    let target = name.to_string();
    let mut i: usize = 0;
    while i < profiles.len()
        invariant
            profiles@.len() == 5,
            i <= 5,
            target@ == name@,
            forall|k: int| 0 <= k < 5 ==> #[trigger] is_builtin_profile(k, profiles@[k]),
            forall|k: int| 0 <= k < 5 ==> (#[trigger] profiles@[k]).name@ == builtin_profile_name(k),
            forall|k: int| 0 <= k < i ==> builtin_profile_name(k) != name@,
        decreases 5 - i,
    {
        if profiles[i].name == target {
            let ghost idx = i as int;
            let p = profiles.swap_remove(i);
            proof {
                assert(is_builtin_profile(idx, p));
                assert forall|j: int| 0 <= j < 5 && name@ == #[trigger] builtin_profile_name(j) implies j == idx by {
                    reveal_strlit("browser");
                    reveal_strlit("video");
                    reveal_strlit("chat");
                    reveal_strlit("streaming");
                    reveal_strlit("paranoid");
                    if j < idx {
                    } else if j > idx {
                        assert(builtin_profile_name(j) != builtin_profile_name(idx));
                    }
                }
            }
            return Some(p);
        }
        i = i + 1;
    }
    None
}

} // verus!
