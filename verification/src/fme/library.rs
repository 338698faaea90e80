//! A collection of site models looked up by name, and the synthetic model
//! of generic HTTPS browsing used when nothing was collected.
use vstd::prelude::*;

use crate::fme::model::{
    histogram_of, lemma_gmm_weight_sum_push, valid_site_model, AdversarialConfig, BurstEntry, ChaffConfig,
    CompactHistogram, Direction, GmmComponent, IatGenerator, MorphGranularity, SiteModel, SizeDistribution,
};
use crate::fme::mimicry::{
    is_chat_messaging_model, is_chrome_like_model, is_http2_multiplexed_model, is_paranoid_model,
    is_video_streaming_model, model_by_profile,
};
use crate::fme::profiles::chaff_is_disabled;

verus! {

broadcast use vstd::string::group_string_axioms;

/// No two models of `s` share a name.
pub open spec fn names_distinct(s: Seq<SiteModel>) -> bool {
    forall|i: int, j: int| 0 <= i < j < s.len() ==> (#[trigger] s[i]).name@ != (#[trigger] s[j]).name@
}

/// Some model of `s` is named `k`.
pub open spec fn has_name(s: Seq<SiteModel>, k: Seq<char>) -> bool {
    exists|i: int| 0 <= i < s.len() && (#[trigger] s[i]).name@ == k
}

/// The models of `s` keyed by name.
pub open spec fn by_name(s: Seq<SiteModel>) -> Map<Seq<char>, SiteModel> {
    Map::new(
        |k: Seq<char>| has_name(s, k),
        |k: Seq<char>| s[choose|i: int| 0 <= i < s.len() && (#[trigger] s[i]).name@ == k],
    )
}

/// In a sequence of distinctly named models, each is found under its name.
pub proof fn lemma_by_name_at(s: Seq<SiteModel>, i: int)
    requires
        names_distinct(s),
        0 <= i < s.len(),
    ensures
        by_name(s).contains_key(s[i].name@),
        by_name(s)[s[i].name@] == s[i],
{
    let k = s[i].name@;
    assert(has_name(s, k));
    let j = choose|j: int| 0 <= j < s.len() && (#[trigger] s[j]).name@ == k;
    if j < i {
        assert(s[j].name@ != s[i].name@);
    } else if j > i {
        assert(s[i].name@ != s[j].name@);
    }
}

/// Site models, at most one per name.
pub struct ModelLibrary {
    models: Vec<SiteModel>,
}

impl View for ModelLibrary {
    type V = Map<Seq<char>, SiteModel>;

    /// The models keyed by name.
    closed spec fn view(&self) -> Map<Seq<char>, SiteModel> {
        by_name(self.models@)
    }
}

impl ModelLibrary {
    #[verifier::type_invariant]
    spec fn names_unique(self) -> bool {
        names_distinct(self.models@)
    }

    /// An empty library.
    pub fn new() -> (r: ModelLibrary)
        ensures
            r@ == Map::<Seq<char>, SiteModel>::empty(),
    {
        let r = ModelLibrary { models: Vec::new() };
        assert(r@ =~= Map::<Seq<char>, SiteModel>::empty());
        r
    }

    /// Adds `model` under its name, replacing any model of that name.
    pub fn add(&mut self, model: SiteModel)
        ensures
            final(self)@ == old(self)@.insert(model.name@, model),
    {
        proof {
            use_type_invariant(&*self);
        }
        let ghost before = self.models@;
        let mut i: usize = 0;
        while i < self.models.len()
            invariant
                self.models@ == before,
                before == old(self).models@,
                names_distinct(before),
                i <= before.len(),
                forall|j: int| 0 <= j < i ==> (#[trigger] before[j]).name@ != model.name@,
            decreases before.len() - i,
        {
            if self.models[i].name == model.name {
                let ghost after = before.update(i as int, model);
                proof {
                    assert forall|a: int, b: int| 0 <= a < b < after.len() implies (#[trigger] after[a]).name@
                        != (#[trigger] after[b]).name@ by {
                        assert(after[a].name@ == before[a].name@);
                        assert(after[b].name@ == before[b].name@);
                    }
                    lemma_by_name_update(before, i as int, model);
                }
                let mut models = Vec::new();
                std::mem::swap(&mut models, &mut self.models);
                models.set(i, model);
                self.models = models;
                assert(self.models@ == after);
                return;
            }
            i = i + 1;
        }
        let ghost after = before.push(model);
        proof {
            assert forall|a: int, b: int| 0 <= a < b < after.len() implies (#[trigger] after[a]).name@
                != (#[trigger] after[b]).name@ by {
                if b == before.len() {
                    assert(after[a] == before[a]);
                } else {
                    assert(after[a] == before[a]);
                    assert(after[b] == before[b]);
                }
            }
            lemma_by_name_push(before, model);
        }
        let mut models = Vec::new();
        std::mem::swap(&mut models, &mut self.models);
        models.push(model);
        self.models = models;
        assert(self.models@ == after);
    }

    /// The model named `name`, if there is one.
    pub fn get(&self, name: &str) -> (r: Option<&SiteModel>)
        ensures
            r is Some <==> self@.contains_key(name@),
            r matches Some(m) ==> *m == self@[name@],
    {
        proof {
            use_type_invariant(self);
        }
        let target = name.to_string();
        let mut i: usize = 0;
        while i < self.models.len()
            invariant
                names_distinct(self.models@),
                target@ == name@,
                i <= self.models@.len(),
                forall|j: int| 0 <= j < i ==> (#[trigger] self.models@[j]).name@ != name@,
            decreases self.models@.len() - i,
        {
            if self.models[i].name == target {
                proof {
                    lemma_by_name_at(self.models@, i as int);
                }
                return Some(&self.models[i]);
            }
            i = i + 1;
        }
        None
    }

    /// The model named `generic_browsing` if there is one, else any model of
    /// the library; `None` only for an empty library.
    pub fn default_model(&self) -> (r: Option<&SiteModel>)
        ensures
            self@.contains_key("generic_browsing"@) ==> (r matches Some(m) && *m == self@["generic_browsing"@]),
            r is None <==> self@ == Map::<Seq<char>, SiteModel>::empty(),
            r matches Some(m) ==> self@.contains_key(m.name@) && self@[m.name@] == *m,
    {
        proof {
            use_type_invariant(self);
        }
        let found = self.get("generic_browsing");
        if found.is_some() {
            return found;
        }
        if self.models.len() == 0 {
            assert(self@ =~= Map::<Seq<char>, SiteModel>::empty());
            return None;
        }
        proof {
            lemma_by_name_at(self.models@, 0);
        }
        Some(&self.models[0])
    }

    /// The names of the models, each once.
    pub fn model_names(&self) -> (r: Vec<&str>)
        ensures
            forall|k: Seq<char>| self@.contains_key(k) <==> exists|i: int| 0 <= i < r@.len() && (#[trigger] r@[i])@ == k,
            forall|i: int, j: int| 0 <= i < j < r@.len() ==> (#[trigger] r@[i])@ != (#[trigger] r@[j])@,
    {
        proof {
            use_type_invariant(self);
        }
        let mut names: Vec<&str> = Vec::new();
        let mut i: usize = 0;
        while i < self.models.len()
            invariant
                names_distinct(self.models@),
                i <= self.models@.len(),
                names@.len() == i,
                forall|j: int| 0 <= j < i ==> (#[trigger] names@[j])@ == self.models@[j].name@,
            decreases self.models@.len() - i,
        {
            names.push(self.models[i].name.as_str());
            i = i + 1;
        }
        proof {
            assert forall|k: Seq<char>| self@.contains_key(k) <==> exists|i: int|
                0 <= i < names@.len() && (#[trigger] names@[i])@ == k by {
                if self@.contains_key(k) {
                    let j = choose|j: int| 0 <= j < self.models@.len() && (#[trigger] self.models@[j]).name@ == k;
                    assert(names@[j]@ == k);
                }
                if exists|i: int| 0 <= i < names@.len() && (#[trigger] names@[i])@ == k {
                    let j = choose|j: int| 0 <= j < names@.len() && (#[trigger] names@[j])@ == k;
                    assert(self.models@[j].name@ == k);
                    assert(has_name(self.models@, k));
                }
            }
            assert forall|a: int, b: int| 0 <= a < b < names@.len() implies (#[trigger] names@[a])@
                != (#[trigger] names@[b])@ by {
                assert(self.models@[a].name@ != self.models@[b].name@);
            }
        }
        names
    }
}

/// Replacing the model at `i` by one of the same name replaces it in the map.
proof fn lemma_by_name_update(s: Seq<SiteModel>, i: int, m: SiteModel)
    requires
        names_distinct(s),
        0 <= i < s.len(),
        s[i].name@ == m.name@,
        names_distinct(s.update(i, m)),
    ensures
        by_name(s.update(i, m)) == by_name(s).insert(m.name@, m),
{
    let t = s.update(i, m);
    assert forall|k: Seq<char>| has_name(t, k) <==> has_name(s, k) || k == m.name@ by {
        if has_name(t, k) {
            let j = choose|j: int| 0 <= j < t.len() && (#[trigger] t[j]).name@ == k;
            assert(s[j].name@ == k);
        }
        if has_name(s, k) {
            let j = choose|j: int| 0 <= j < s.len() && (#[trigger] s[j]).name@ == k;
            assert(t[j].name@ == k);
        }
        if k == m.name@ {
            assert(t[i].name@ == k);
        }
    }
    assert forall|k: Seq<char>| #[trigger] by_name(t).contains_key(k) implies by_name(t)[k] == by_name(s).insert(
        m.name@,
        m,
    )[k] by {
        let j = choose|j: int| 0 <= j < t.len() && (#[trigger] t[j]).name@ == k;
        lemma_by_name_at(t, j);
        if j != i {
            assert(s[j] == t[j]);
            lemma_by_name_at(s, j);
        }
    }
    assert(by_name(t) =~= by_name(s).insert(m.name@, m));
}

/// Appending a model of a new name adds it to the map.
proof fn lemma_by_name_push(s: Seq<SiteModel>, m: SiteModel)
    requires
        names_distinct(s),
        !has_name(s, m.name@),
        names_distinct(s.push(m)),
    ensures
        by_name(s.push(m)) == by_name(s).insert(m.name@, m),
{
    let t = s.push(m);
    assert forall|k: Seq<char>| has_name(t, k) <==> has_name(s, k) || k == m.name@ by {
        if has_name(t, k) {
            let j = choose|j: int| 0 <= j < t.len() && (#[trigger] t[j]).name@ == k;
            if j < s.len() {
                assert(s[j].name@ == k);
            }
        }
        if has_name(s, k) {
            let j = choose|j: int| 0 <= j < s.len() && (#[trigger] s[j]).name@ == k;
            assert(t[j].name@ == k);
        }
        if k == m.name@ {
            assert(t[s.len() as int].name@ == k);
        }
    }
    assert forall|k: Seq<char>| #[trigger] by_name(t).contains_key(k) implies by_name(t)[k] == by_name(s).insert(
        m.name@,
        m,
    )[k] by {
        let j = choose|j: int| 0 <= j < t.len() && (#[trigger] t[j]).name@ == k;
        lemma_by_name_at(t, j);
        if j < s.len() {
            assert(s[j] == t[j]);
            lemma_by_name_at(s, j);
        }
    }
    assert(by_name(t) =~= by_name(s).insert(m.name@, m));
}

/// Typical upstream packet sizes of web browsing: small, medium and large
/// requests, and full-MTU packets weighted heavily.
pub open spec fn generic_upstream_sizes() -> Seq<u64> {
    seq![200u64, 256, 300, 350, 400, 450, 500, 512, 600, 700, 800, 900, 1000, 1100, 1200, 1300, 1400, 1420, 1440, 1460, 1460, 1460, 1460, 1460, 1460]
}

/// Typical downstream packet sizes of web browsing, mostly full-MTU.
pub open spec fn generic_downstream_sizes() -> Seq<u64> {
    seq![200u64, 500, 1000, 1200, 1300, 1400, 1420, 1440, 1460, 1460, 1460, 1460, 1460, 1460, 1460, 1460, 1460, 1460, 1460, 1460, 1460]
}

/// Typical client inter-arrival times in µs: bursts, within a page, between pages.
pub open spec fn generic_client_iats() -> Seq<u64> {
    seq![50u64, 100, 200, 500, 1000, 2000, 5000, 10000, 30000]
}

/// Typical server inter-arrival times in µs: bursts, responses, thinking.
pub open spec fn generic_server_iats() -> Seq<u64> {
    seq![20u64, 50, 100, 200, 500, 1000, 2000, 5000]
}

/// The synthetic model of generic HTTPS browsing, built from typical web
/// traffic statistics; the fallback when no collected data is available.
pub fn synthetic_generic_browsing() -> (r: SiteModel)
    ensures
        r.name@ == "generic_browsing"@,
        r.upstream_sizes matches SizeDistribution::Histogram(h) && histogram_of(generic_upstream_sizes(), 41, h),
        r.downstream_sizes matches SizeDistribution::Histogram(h) && histogram_of(generic_downstream_sizes(), 41, h),
        r.iat_client matches IatGenerator::Histogram(h) && histogram_of(generic_client_iats(), 41, h),
        r.iat_server matches IatGenerator::Histogram(h) && histogram_of(generic_server_iats(), 41, h),
        r.burst_pattern@ == seq![
            BurstEntry { batch_size: 2, pause_us: 0, direction: Direction::Upstream },
            BurstEntry { batch_size: 6, pause_us: 150_000, direction: Direction::Downstream },
            BurstEntry { batch_size: 1, pause_us: 500_000, direction: Direction::Upstream },
            BurstEntry { batch_size: 3, pause_us: 1_000_000, direction: Direction::Downstream },
        ],
        r.init_window_client == 29200,
        r.init_window_server == 29200,
        r.keepalive_us == 30_000_000,
        r.overhead_budget_milli == 500,
        r.granularity == MorphGranularity::PerBurst,
        chaff_is_disabled(r.chaff),
        r.adversarial == (AdversarialConfig { enabled: false, jitter_pct_milli: 0, size_noise_pct_milli: 0 }),
        !r.random_padding,
        valid_site_model(r),
{
    let up_sizes: Vec<u64> = vec![200, 256, 300, 350, 400, 450, 500, 512, 600, 700, 800, 900, 1000, 1100, 1200, 1300, 1400, 1420, 1440, 1460, 1460, 1460, 1460, 1460, 1460];
    let dn_sizes: Vec<u64> = vec![200, 500, 1000, 1200, 1300, 1400, 1420, 1440, 1460, 1460, 1460, 1460, 1460, 1460, 1460, 1460, 1460, 1460, 1460, 1460, 1460];
    let iat_c: Vec<u64> = vec![50, 100, 200, 500, 1000, 2000, 5000, 10000, 30000];
    let iat_s: Vec<u64> = vec![20, 50, 100, 200, 500, 1000, 2000, 5000];
    assert(up_sizes@ =~= generic_upstream_sizes());
    assert(dn_sizes@ =~= generic_downstream_sizes());
    assert(iat_c@ =~= generic_client_iats());
    assert(iat_s@ =~= generic_server_iats());
    let burst_pattern = vec![
        BurstEntry { batch_size: 2, pause_us: 0, direction: Direction::Upstream },
        BurstEntry { batch_size: 6, pause_us: 150_000, direction: Direction::Downstream },
        BurstEntry { batch_size: 1, pause_us: 500_000, direction: Direction::Upstream },
        BurstEntry { batch_size: 3, pause_us: 1_000_000, direction: Direction::Downstream },
    ];
    assert(burst_pattern@ =~= seq![
        BurstEntry { batch_size: 2, pause_us: 0, direction: Direction::Upstream },
        BurstEntry { batch_size: 6, pause_us: 150_000, direction: Direction::Downstream },
        BurstEntry { batch_size: 1, pause_us: 500_000, direction: Direction::Upstream },
        BurstEntry { batch_size: 3, pause_us: 1_000_000, direction: Direction::Downstream },
    ]);
    let chaff = ChaffConfig::disabled();
    proof {
        lemma_gmm_weight_sum_push(seq![], GmmComponent { mean: 128, std_dev: 32, weight_milli: 1000 });
        assert(seq![].push(GmmComponent { mean: 128, std_dev: 32, weight_milli: 1000 }) =~= seq![
            GmmComponent { mean: 128, std_dev: 32, weight_milli: 1000 },
        ]);
    }
    SiteModel {
        name: "generic_browsing".to_string(),
        upstream_sizes: SizeDistribution::Histogram(CompactHistogram::new(up_sizes.as_slice(), 41)),
        downstream_sizes: SizeDistribution::Histogram(CompactHistogram::new(dn_sizes.as_slice(), 41)),
        iat_client: IatGenerator::Histogram(CompactHistogram::new(iat_c.as_slice(), 41)),
        iat_server: IatGenerator::Histogram(CompactHistogram::new(iat_s.as_slice(), 41)),
        burst_pattern,
        init_window_client: 29200,
        init_window_server: 29200,
        keepalive_us: 30_000_000,
        overhead_budget_milli: 500,
        granularity: MorphGranularity::PerBurst,
        chaff,
        adversarial: AdversarialConfig { enabled: false, jitter_pct_milli: 0, size_noise_pct_milli: 0 },
        random_padding: false,
    }
}

/// The model that a client's morphing profile names: the mimicry model of
/// that profile, or the synthetic generic-browsing model for any other name.
pub fn model_from_profile(profile: &str) -> (r: SiteModel)
    ensures
        profile@ == "browser"@ ==> is_chrome_like_model(r),
        profile@ == "video"@ ==> is_video_streaming_model(r),
        profile@ == "chat"@ ==> is_chat_messaging_model(r),
        profile@ == "streaming"@ ==> is_http2_multiplexed_model(r),
        profile@ == "paranoid"@ ==> is_paranoid_model(r),
        profile@ != "browser"@ && profile@ != "video"@ && profile@ != "chat"@ && profile@ != "streaming"@
            && profile@ != "paranoid"@ ==> r.name@ == "generic_browsing"@ && r.keepalive_us == 30_000_000,
        valid_site_model(r),
{
    match model_by_profile(profile) {
        Some(m) => m,
        None => synthetic_generic_browsing(),
    }
}

} // verus!
