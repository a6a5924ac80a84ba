use vstd::prelude::*;

verus! {

use vstd::string::StringExecFns;
use crate::growthbook::GrowthBookResponse;
use crate::text::str_eq;

/// The model of a cache: for each entry, its key, the response it
/// stores, and when it was stored, in order.
pub type CacheModel = Seq<
    ((Seq<char>, (Seq<(Seq<char>, crate::dto::FeatureView)>, Option<Seq<(Seq<char>, int)>>), int)),
>;

/// The first entry stored under `key`, by position.
pub open spec fn spec_cache_find(m: CacheModel, key: Seq<char>) -> Option<int>
    decreases m.len(),
{
    if m.len() == 0 {
        None
    } else if m[0].0 == key {
        Some(0)
    } else {
        match spec_cache_find(m.skip(1), key) {
            Some(i) => Some(i + 1),
            None => None,
        }
    }
}

/// The found entry is the first under its key; nothing is found only
/// when no entry carries the key.
pub proof fn lemma_cache_find_props(m: CacheModel, key: Seq<char>)
    ensures
        match spec_cache_find(m, key) {
            Some(i) => 0 <= i < m.len() && m[i].0 == key && forall|j: int|
                0 <= j < i ==> (#[trigger] m[j]).0 != key,
            None => forall|j: int| 0 <= j < m.len() ==> (#[trigger] m[j]).0 != key,
        },
    decreases m.len(),
{
    if m.len() > 0 && m[0].0 != key {
        lemma_cache_find_props(m.skip(1), key);
        assert(forall|k: int| 0 <= k < m.skip(1).len() ==> #[trigger] m.skip(1)[k] == m[k + 1]);
        match spec_cache_find(m.skip(1), key) {
            Some(i) => {
                assert forall|j: int| 0 <= j < i + 1 implies (#[trigger] m[j]).0 != key by {
                    if j > 0 {
                        assert(m.skip(1)[j - 1] == m[j]);
                    }
                }
            },
            None => {
                assert forall|j: int| 0 <= j < m.len() implies (#[trigger] m[j]).0 != key by {
                    if j > 0 {
                        assert(m.skip(1)[j - 1] == m[j]);
                    }
                }
            },
        }
    }
}

/// A cache of fetched configuration responses. Time is handed in by
/// the caller as milliseconds, so the cache itself reads no clock.
/// A read returns the stored response exactly when its entry is
/// still fresh; a write replaces the entry under its key or appends
/// a new one, stamped with the write's time.
pub trait FeatureCache {
    /// The cache's contents.
    spec fn model(&self) -> CacheModel;

    /// Whether the cache may return an entry stored at `stored_at`
    /// when asked at `now`.
    spec fn fresh(&self, stored_at: int, now: int) -> bool;

    /// The stored response under `key` that is still fresh at `now`.
    fn get(&self, key: &str, now: u64) -> (r: Option<GrowthBookResponse>)
        ensures
            match spec_cache_find(self.model(), key@) {
                Some(i) => {
                    if self.fresh(self.model()[i].2, now as int) {
                        r is Some && crate::growthbook::spec_response_view(r->Some_0)
                            == self.model()[i].1
                    } else {
                        r is None
                    }
                },
                None => r is None,
            },
    ;

    /// Stores a response under `key` at time `now`.
    fn set(&mut self, key: &str, value: GrowthBookResponse, now: u64)
        ensures
            ({
                let entry = (key@, crate::growthbook::spec_response_view(value), now as int);
                match spec_cache_find(old(self).model(), key@) {
                    Some(i) => final(self).model() == old(self).model().update(i, entry),
                    None => final(self).model() == old(self).model().push(entry),
                }
            }),
            forall|s: int, n: int| final(self).fresh(s, n) == old(self).fresh(s, n),
    ;
}

/// One cached response and when it was stored.
#[derive(Debug)]
pub struct CacheEntry {
    pub key: String,
    pub value: GrowthBookResponse,
    pub stored_at: u64,
}

/// An in-memory response cache with a fixed lifetime per entry.
#[derive(Debug)]
pub struct InMemoryCache {
    pub ttl_millis: u64,
    pub entries: Vec<CacheEntry>,
}

/// The model of the in-memory cache's entries.
pub open spec fn spec_entries_model(es: Seq<CacheEntry>) -> CacheModel {
    Seq::new(
        es.len(),
        |i: int| (es[i].key@, crate::growthbook::spec_response_view(es[i].value), es[i].stored_at
            as int),
    )
}

impl InMemoryCache {
    /// An empty cache whose entries live for the given time.
    pub fn new(ttl_millis: u64) -> (r: InMemoryCache)
        ensures
            r.ttl_millis == ttl_millis,
            r.entries@.len() == 0,
            r.model() == Seq::<
                ((Seq<char>, (Seq<(Seq<char>, crate::dto::FeatureView)>, Option<
                    Seq<(Seq<char>, int)>,
                >), int)),
            >::empty(),
    {
        let r = InMemoryCache { ttl_millis, entries: Vec::new() };
        proof {
            assert(r.model() =~= Seq::<
                ((Seq<char>, (Seq<(Seq<char>, crate::dto::FeatureView)>, Option<
                    Seq<(Seq<char>, int)>,
                >), int)),
            >::empty());
        }
        r
    }

    /// The first entry stored under `key`, fresh or not.
    #[verifier::loop_isolation(false)]
    fn find_entry(&self, key: &str) -> (r: Option<usize>)
        ensures
            match spec_cache_find(self.model(), key@) {
                Some(i) => r is Some && i == r->Some_0 as int && r->Some_0
                    < self.entries@.len() && self.model()[i].0 == key@,
                None => r is None,
            },
    {
        proof {
            lemma_cache_find_props(self.model(), key@);
        }
        let ghost model = self.model();
        let mut i: usize = 0;
        while i < self.entries.len()
            invariant
                i <= self.entries@.len(),
                model.len() == self.entries@.len(),
                forall|k: int| 0 <= k < i ==> (#[trigger] model[k]).0 != key@,
            decreases self.entries@.len() - i,
        {
            proof {
                assert(model[i as int].0 == self.entries@[i as int].key@);
            }
            if str_eq(self.entries[i].key.as_str(), key) {
                proof {
                    match spec_cache_find(model, key@) {
                        Some(j) => {
                            if j < i as int {
                            } else if j > i as int {
                            }
                        },
                        None => {},
                    }
                }
                return Some(i);
            }
            i += 1;
        }
        None
    }
}

impl FeatureCache for InMemoryCache {
    open spec fn model(&self) -> CacheModel {
        spec_entries_model(self.entries@)
    }

    open spec fn fresh(&self, stored_at: int, now: int) -> bool {
        now < stored_at + self.ttl_millis
    }

    fn get(&self, key: &str, now: u64) -> (r: Option<GrowthBookResponse>) {
        match self.find_entry(key) {
            Some(i) => {
                let e = &self.entries[i];
                if now < e.stored_at || now - e.stored_at < self.ttl_millis {
                    Some(clone_response(&e.value))
                } else {
                    None
                }
            },
            None => None,
        }
    }

    fn set(&mut self, key: &str, value: GrowthBookResponse, now: u64) {
        let ghost m0 = self.model();
        let ghost entry = (key@, crate::growthbook::spec_response_view(value), now as int);
        match self.find_entry(key) {
            Some(i) => {
                self.entries.set(
                    i,
                    CacheEntry { key: String::from_str(key), value, stored_at: now },
                );
                proof {
                    assert(self.model() =~= m0.update(i as int, entry));
                }
            },
            None => {
                self.entries.push(
                    CacheEntry { key: String::from_str(key), value, stored_at: now },
                );
                proof {
                    assert(self.model() =~= m0.push(entry));
                }
            },
        }
    }
}

/// A copy of a feature list.
#[verifier::loop_isolation(false)]
pub fn clone_features(v: &Vec<(String, crate::dto::GrowthBookFeature)>) -> (r: Vec<
    (String, crate::dto::GrowthBookFeature),
>)
    ensures
        r@.len() == v@.len(),
        forall|i: int|
            0 <= i < v@.len() ==> (#[trigger] r@[i].0)@ == v@[i].0@ && r@[i].1@ == v@[i].1@,
{
    let mut out: Vec<(String, crate::dto::GrowthBookFeature)> = Vec::new();
    let mut i: usize = 0;
    while i < v.len()
        invariant
            i <= v@.len(),
            out@.len() == i,
            forall|k: int|
                0 <= k < i ==> (#[trigger] out@[k].0)@ == v@[k].0@ && out@[k].1@ == v@[k].1@,
        decreases v@.len() - i,
    {
        out.push((v[i].0.clone(), clone_feature(&v[i].1)));
        i += 1;
    }
    out
}

/// A copy of one feature with the same model.
fn clone_feature(f: &crate::dto::GrowthBookFeature) -> (r: crate::dto::GrowthBookFeature)
    ensures
        r@ == f@,
{
    let default_value = match &f.default_value {
        Some(v) => Some(v.deep_clone()),
        None => None,
    };
    let rules = match &f.rules {
        Some(rs) => Some(clone_rules(rs)),
        None => None,
    };
    let r = crate::dto::GrowthBookFeature { default_value, rules };
    proof {
        if r.rules is Some {
            assert(r@.rules->Some_0 =~= f@.rules->Some_0);
        }
    }
    r
}

/// A copy of a rule list with the same model.
#[verifier::loop_isolation(false)]
fn clone_rules(rs: &Vec<crate::dto::GrowthBookFeatureRule>) -> (r: Vec<
    crate::dto::GrowthBookFeatureRule,
>)
    ensures
        r@.len() == rs@.len(),
        forall|i: int| 0 <= i < rs@.len() ==> (#[trigger] r@[i])@ == rs@[i]@,
{
    let mut out: Vec<crate::dto::GrowthBookFeatureRule> = Vec::new();
    let mut i: usize = 0;
    while i < rs.len()
        invariant
            i <= rs@.len(),
            out@.len() == i,
            forall|k: int| 0 <= k < i ==> (#[trigger] out@[k])@ == rs@[k]@,
        decreases rs@.len() - i,
    {
        out.push(clone_rule(&rs[i]));
        i += 1;
    }
    out
}

/// A copy of one rule with the same model.
fn clone_rule(r0: &crate::dto::GrowthBookFeatureRule) -> (r: crate::dto::GrowthBookFeatureRule)
    ensures
        r@ == r0@,
{
    match r0 {
        crate::dto::GrowthBookFeatureRule::Force(f) => crate::dto::GrowthBookFeatureRule::Force(
            clone_force(f),
        ),
        crate::dto::GrowthBookFeatureRule::Rollout(f) => crate::dto::GrowthBookFeatureRule::Rollout(
            clone_force(f),
        ),
        crate::dto::GrowthBookFeatureRule::Experiment(e) => crate::dto::GrowthBookFeatureRule::Experiment(
            e.model_experiment(),
        ),
        crate::dto::GrowthBookFeatureRule::Parent(p) => {
            let mut out: Vec<crate::dto::GrowthBookParentCondition> = Vec::new();
            let mut i: usize = 0;
            #[verifier::loop_isolation(false)]
            while i < p.parent_conditions.len()
                invariant
                    i <= p.parent_conditions@.len(),
                    out@.len() == i,
                    forall|k: int|
                        0 <= k < i ==> (#[trigger] out@[k])@ == p.parent_conditions@[k]@,
                decreases p.parent_conditions@.len() - i,
            {
                out.push(
                    crate::dto::GrowthBookParentCondition {
                        id: p.parent_conditions[i].id.clone(),
                        condition: p.parent_conditions[i].condition.deep_clone(),
                    },
                );
                i += 1;
            }
            let pr = crate::dto::GrowthBookFeatureRuleParent { parent_conditions: out };
            proof {
                assert(pr@ =~= p@);
            }
            crate::dto::GrowthBookFeatureRule::Parent(pr)
        },
        crate::dto::GrowthBookFeatureRule::Empty => crate::dto::GrowthBookFeatureRule::Empty,
    }
}

/// A copy of a force rule with the same model.
fn clone_force(f: &crate::dto::GrowthBookFeatureRuleForce) -> (r:
    crate::dto::GrowthBookFeatureRuleForce)
    ensures
        r@ == f@,
{
    crate::dto::GrowthBookFeatureRuleForce {
        condition: match &f.condition {
            Some(c) => Some(c.deep_clone()),
            None => None,
        },
        coverage: f.coverage,
        range: f.range,
        hash_attribute: match &f.hash_attribute {
            Some(s) => Some(s.clone()),
            None => None,
        },
        fallback_attribute: match &f.fallback_attribute {
            Some(s) => Some(s.clone()),
            None => None,
        },
        hash_version: f.hash_version,
        seed: match &f.seed {
            Some(s) => Some(s.clone()),
            None => None,
        },
        force: f.force.deep_clone(),
    }
}

/// A copy of a forced-variations list with the same model.
#[verifier::loop_isolation(false)]
pub fn clone_forced(v: &Option<Vec<(String, i64)>>) -> (r: Option<Vec<(String, i64)>>)
    ensures
        crate::feature::feature_rule_experiment::spec_forced_view(r)
            == crate::feature::feature_rule_experiment::spec_forced_view(*v),
{
    match v {
        Some(fm) => {
            let mut out: Vec<(String, i64)> = Vec::new();
            let mut i: usize = 0;
            #[verifier::loop_isolation(false)]
            while i < fm.len()
                invariant
                    i <= fm@.len(),
                    out@.len() == i,
                    forall|k: int|
                        0 <= k < i ==> (#[trigger] out@[k]).0@ == fm@[k].0@ && out@[k].1
                            == fm@[k].1,
                decreases fm@.len() - i,
            {
                out.push((fm[i].0.clone(), fm[i].1));
                i += 1;
            }
            proof {
                assert(Seq::new(out@.len(), |i: int| (out@[i].0@, out@[i].1 as int)) =~= Seq::new(
                    fm@.len(),
                    |i: int| (fm@[i].0@, fm@[i].1 as int),
                ));
            }
            Some(out)
        },
        None => None,
    }
}

/// A copy of a response with the same model.
pub fn clone_response(v: &GrowthBookResponse) -> (r: GrowthBookResponse)
    ensures
        crate::growthbook::spec_response_view(r) == crate::growthbook::spec_response_view(*v),
{
    let r = GrowthBookResponse {
        features: clone_features(&v.features),
        forced_variations: clone_forced(&v.forced_variations),
    };
    proof {
        assert(crate::feature::use_case::spec_features_view(r.features@)
            =~= crate::feature::use_case::spec_features_view(v.features@));
    }
    r
}

} // verus!
