use vstd::prelude::*;

verus! {

broadcast use vstd::std_specs::vec::axiom_vec_index_decreases;

use vstd::string::StringExecFns;
use crate::json::{JsonValue, JsonVal, spec_obj_lookup, spec_canon, spec_falsy, lemma_view_shape};
use crate::dto::{GrowthBookFeatureRuleExperiment, ExperimentView, GrowthBookExperimentMeta,
    GrowthBookNamespace, spec_opt_str};
use crate::model_public::{GrowthBookAttribute, spec_attrs_view, find_value, FeatureResult,
    FeatureSource, FeatureResultView, ExperimentResult, ExperimentResultView, spec_result_wf};
use crate::hash::{spec_hash, spec_hash_v1, hash_code, fnv1a_str};
use crate::range::{Range, spec_in_range, spec_choose_variation, choose_variation,
    spec_weights_valid, spec_weight_ints, spec_range_start, spec_equal_weight, weights_valid,
    equal_weights, build_ranges, spec_sum};
use crate::sticky_bucket::{StickyBucketService, StickyModel, AssignDoc, spec_store_lookup,
    spec_store_save, spec_doc_lookup};
use crate::text::{str_eq, spec_dec_int, spec_has_prefix, spec_parse_i64, i64_to_string,
    has_prefix, suffix_from, parse_i64, lemma_parse_i64_range, append_dec_i64};

/// The attribute an experiment falls back to when its own is not set.
pub open spec fn spec_fallback_attribute(rule: ExperimentView) -> Seq<char> {
    match rule.fallback_attribute {
        Some(f) => f,
        None => "id"@,
    }
}

/// The attribute an experiment hashes: its hash attribute when the
/// user carries it; else its fallback attribute when the user carries
/// that; else the hash attribute as named.
pub open spec fn spec_exp_attribute(rule: ExperimentView, doc: Seq<(Seq<char>, JsonVal)>) -> Seq<
    char,
> {
    match rule.hash_attribute {
        Some(ha) => if spec_obj_lookup(doc, ha) is Some {
            ha
        } else {
            match rule.fallback_attribute {
                Some(fa) => if spec_obj_lookup(doc, fa) is Some {
                    fa
                } else {
                    ha
                },
                None => ha,
            }
        },
        None => spec_fallback_attribute(rule),
    }
}

/// The seed an experiment hashes with: its own seed, else its key,
/// else the feature name.
pub open spec fn spec_exp_seed(rule: ExperimentView, feature_name: Seq<char>) -> Seq<char> {
    match rule.seed {
        Some(s) => s,
        None => match rule.key {
            Some(k) => k,
            None => feature_name,
        },
    }
}

/// The hash version an experiment uses; version one when unset.
pub open spec fn spec_exp_version(rule: ExperimentView) -> int {
    match rule.hash_version {
        Some(v) => v,
        None => 1,
    }
}

/// The variation key and passthrough flag of a variation: from the
/// metadata entry at its index where one exists, else the index in
/// decimal and no passthrough.
pub open spec fn spec_meta_value(rule: ExperimentView, idx: int) -> (Seq<char>, bool) {
    match rule.meta {
        None => (spec_dec_int(idx), false),
        Some(ms) => if 0 <= idx < ms.len() {
            (
                match ms[idx].key {
                    Some(k) => k,
                    None => spec_dec_int(idx),
                },
                match ms[idx].passthrough {
                    Some(p) => p,
                    None => false,
                },
            )
        } else {
            (spec_dec_int(idx), false)
        },
    }
}

/// The experiment key sticky documents are filed under: the rule's
/// key, else the feature name.
pub open spec fn spec_meta_key(rule: ExperimentView, feature_name: Seq<char>) -> Seq<char> {
    match rule.key {
        Some(k) => k,
        None => feature_name,
    }
}

/// The sticky document key of this experiment and bucket version.
pub open spec fn spec_sticky_key(rule: ExperimentView, feature_name: Seq<char>) -> Seq<char> {
    spec_meta_key(rule, feature_name) + "__"@ + spec_dec_int(
        match rule.bucket_version {
            Some(v) => v,
            None => 0,
        },
    )
}

/// The least bucket version still served; users stored under an
/// older one are blocked.
pub open spec fn spec_min_bucket_version(rule: ExperimentView) -> int {
    match rule.min_bucket_version {
        Some(v) => v,
        None => 0,
    }
}

/// Whether a stored key names this experiment under a bucket version
/// below the minimum.
pub open spec fn spec_key_blocked(key: Seq<char>, meta_key: Seq<char>, min: int) -> bool {
    let prefix = meta_key + "__"@;
    spec_has_prefix(key, prefix) && match spec_parse_i64(key.skip(prefix.len() as int)) {
        Some(v) => v < min,
        None => false,
    }
}

/// Whether any stored key of the document blocks this experiment.
pub open spec fn spec_doc_blocked(doc: AssignDoc, meta_key: Seq<char>, min: int) -> bool {
    exists|i: int| 0 <= i < doc.len() && spec_key_blocked(#[trigger] doc[i].0, meta_key, min)
}

/// The variation index the document stores under the sticky key, if
/// it stores one that reads as a number.
pub open spec fn spec_doc_sticky_index(doc: AssignDoc, sticky_key: Seq<char>) -> Option<int> {
    match spec_doc_lookup(doc, sticky_key) {
        Some(s) => spec_parse_i64(s),
        None => None,
    }
}

/// Whether the user falls in the experiment's namespace: the user
/// value hashed with the namespace id must lie in its range.
pub open spec fn spec_namespace_ok(rule: ExperimentView, canon_value: Seq<char>) -> bool {
    match rule.namespace {
        Some((id, rg)) => spec_in_range(spec_hash_v1(canon_value, "__"@ + id), rg),
        None => true,
    }
}

/// The variation index forced for this feature, when the forced map
/// names it and the user carries the attribute the rule hashes on;
/// paired with that attribute's value.
pub open spec fn spec_forced_check(
    rule: ExperimentView,
    feature_name: Seq<char>,
    doc: Seq<(Seq<char>, JsonVal)>,
    forced: Option<Seq<(Seq<char>, int)>>,
) -> Option<(int, JsonVal)> {
    match forced {
        None => None,
        Some(fm) => match spec_forced_lookup(fm, feature_name) {
            None => None,
            Some(fidx) => {
                let attr_f = match rule.hash_attribute {
                    Some(h) => h,
                    None => spec_fallback_attribute(rule),
                };
                match spec_obj_lookup(doc, attr_f) {
                    Some(v) => Some((fidx, v)),
                    None => None,
                }
            },
        },
    }
}

/// The first variation index a forced-variations list binds to a name.
pub open spec fn spec_forced_lookup(fm: Seq<(Seq<char>, int)>, name: Seq<char>) -> Option<int>
    decreases fm.len(),
{
    if fm.len() == 0 {
        None
    } else if fm[0].0 == name {
        Some(fm[0].1)
    } else {
        spec_forced_lookup(fm.skip(1), name)
    }
}

/// The model of an optional forced-variations list.
pub open spec fn spec_forced_view(f: Option<Vec<(String, i64)>>) -> Option<Seq<(Seq<char>, int)>> {
    match f {
        Some(v) => Some(Seq::new(v@.len(), |i: int| (v@[i].0@, v@[i].1 as int))),
        None => None,
    }
}

/// The bucket ranges of the experiment: its explicit ranges when
/// given, else ranges built from its weights — or equal weights when
/// the weight list is missing or malformed — scaled by its coverage.
/// An experiment with no variations, more variations than a million,
/// or an explicit range list too long for the machine to index,
/// spans no range.
pub open spec fn spec_exp_ranges(rule: ExperimentView) -> Seq<Range> {
    match rule.ranges {
        Some(rs) => if rs.len() < 0x8000000000000000 {
            rs
        } else {
            Seq::empty()
        },
        None => {
            let n = rule.variations.len();
            if n == 0 || n > 1000000 {
                Seq::empty()
            } else {
                let ws = match rule.weights {
                    Some(ws) => if spec_weights_valid(ws, n) {
                        ws
                    } else {
                        Seq::new(n, |i: int| spec_equal_weight(n))
                    },
                    None => Seq::new(n, |i: int| spec_equal_weight(n)),
                };
                let cov = match rule.coverage {
                    Some(c) => if c < 0 {
                        0
                    } else if c > 1000000 {
                        1000000
                    } else {
                        c
                    },
                    None => 1000000,
                };
                Seq::new(
                    n,
                    |i: int| Range {
                        start: spec_range_start(ws, i) as i64,
                        end: (spec_range_start(ws, i) + (cov * ws[i]) / 1000000) as i64,
                    },
                )
            }
        },
    }
}

/// What the sticky-bucket store says about this user and experiment.
pub enum StickyPhase {
    /// A stored bucket version below the minimum blocks the user.
    Blocked,
    /// A stored assignment names a variation; `upgraded` says it was
    /// found under the fallback attribute and written back under the
    /// primary one.
    Adopted { index: int, upgraded: bool },
    /// The store holds nothing for this user and experiment.
    Missed,
}

/// What one stored document decides: blocked, a variation, or nothing.
pub enum DocOutcome {
    Blocked,
    Found(int),
    Nothing,
}

/// What a stored document decides for this experiment.
pub open spec fn spec_doc_outcome(
    doc: AssignDoc,
    meta_key: Seq<char>,
    min: int,
    sticky_key: Seq<char>,
) -> DocOutcome {
    if spec_doc_blocked(doc, meta_key, min) {
        DocOutcome::Blocked
    } else {
        match spec_doc_sticky_index(doc, sticky_key) {
            Some(i) => DocOutcome::Found(i),
            None => DocOutcome::Nothing,
        }
    }
}

/// What the store decides for this user: the primary attribute's
/// document is consulted first, and only when it decides nothing is
/// the fallback attribute's document tried.
pub open spec fn spec_sticky_phase(
    rule: ExperimentView,
    feature_name: Seq<char>,
    doc: Seq<(Seq<char>, JsonVal)>,
    attr: Seq<char>,
    canon_value: Seq<char>,
    m: StickyModel,
) -> StickyPhase {
    let meta_key = spec_meta_key(rule, feature_name);
    let sticky_key = spec_sticky_key(rule, feature_name);
    let min = spec_min_bucket_version(rule);
    let after_primary: Option<StickyPhase> = match spec_store_lookup(m, attr, canon_value) {
        Some(d) => match spec_doc_outcome(d, meta_key, min, sticky_key) {
            DocOutcome::Blocked => Some(StickyPhase::Blocked),
            DocOutcome::Found(i) => Some(StickyPhase::Adopted { index: i, upgraded: false }),
            DocOutcome::Nothing => None,
        },
        None => None,
    };
    match after_primary {
        Some(p) => p,
        None => {
            let fb = spec_fallback_attribute(rule);
            if fb == attr {
                StickyPhase::Missed
            } else {
                match spec_obj_lookup(doc, fb) {
                    Some(fv) => match spec_canon(fv) {
                        Some(fc) => match spec_store_lookup(m, fb, fc) {
                            Some(d2) => match spec_doc_outcome(d2, meta_key, min, sticky_key) {
                                DocOutcome::Blocked => StickyPhase::Blocked,
                                DocOutcome::Found(i) => StickyPhase::Adopted {
                                    index: i,
                                    upgraded: true,
                                },
                                DocOutcome::Nothing => StickyPhase::Missed,
                            },
                            None => StickyPhase::Missed,
                        },
                        None => StickyPhase::Missed,
                    },
                    None => StickyPhase::Missed,
                }
            }
        },
    }
}

/// The result view of a matched experiment.
pub open spec fn spec_exp_result(
    rule: ExperimentView,
    feature_name: Seq<char>,
    value: JsonVal,
    idx: int,
    hash_attribute: Option<Seq<char>>,
    hash_value: JsonVal,
    bucket: Option<int>,
    key: Seq<char>,
    sticky_bucket_used: bool,
) -> FeatureResultView {
    FeatureResultView {
        value,
        on: !spec_falsy(value),
        off: spec_falsy(value),
        source: FeatureSource::Experiment,
        experiment: Some(rule),
        experiment_result: Some(
            ExperimentResultView {
                feature_id: feature_name,
                value,
                variation_id: idx,
                in_experiment: true,
                hash_used: true,
                hash_attribute,
                hash_value: Some(hash_value),
                bucket,
                key,
                sticky_bucket_used,
            },
        ),
    }
}

/// The hashing tail of an experiment: bucket the user, apply the
/// coverage gate, pick the variation range, and — unless the chosen
/// variation passes through — persist the assignment when sticky
/// bucketing is active and report the match.
pub open spec fn spec_hash_phase(
    rule: ExperimentView,
    feature_name: Seq<char>,
    attr: Seq<char>,
    user_value: JsonVal,
    canon_value: Seq<char>,
    m: Option<StickyModel>,
    sticky_active: bool,
) -> (Option<FeatureResultView>, Option<StickyModel>) {
    match spec_hash(canon_value, spec_exp_seed(rule, feature_name), spec_exp_version(rule)) {
        None => (None, m),
        Some(bucket) => {
            let covered = match rule.coverage {
                Some(c) => bucket < c,
                None => true,
            };
            if !covered {
                (None, m)
            } else {
                let idx = spec_choose_variation(bucket, spec_exp_ranges(rule));
                if idx < 0 || idx >= rule.variations.len() {
                    (None, m)
                } else {
                    let mv = spec_meta_value(rule, idx);
                    if mv.1 {
                        (None, m)
                    } else {
                        let m2 = if sticky_active {
                            Some(
                                spec_store_save(
                                    m->Some_0,
                                    attr,
                                    canon_value,
                                    seq![(spec_sticky_key(rule, feature_name), spec_dec_int(idx))],
                                ),
                            )
                        } else {
                            m
                        };
                        (
                            Some(
                                spec_exp_result(
                                    rule,
                                    feature_name,
                                    rule.variations[idx],
                                    idx,
                                    Some(attr),
                                    user_value,
                                    Some(bucket),
                                    mv.0,
                                    false,
                                ),
                            ),
                            m2,
                        )
                    }
                }
            }
        },
    }
}

/// The sticky phase and hashing tail of an experiment, after the
/// namespace and forced-variation gates.
pub open spec fn spec_sticky_hash(
    rule: ExperimentView,
    feature_name: Seq<char>,
    doc: Seq<(Seq<char>, JsonVal)>,
    attr: Seq<char>,
    user_value: JsonVal,
    canon_value: Seq<char>,
    m: Option<StickyModel>,
) -> (Option<FeatureResultView>, Option<StickyModel>) {
    let active = m is Some && rule.disable_sticky_bucketing != Some(true);
    if !active {
        spec_hash_phase(rule, feature_name, attr, user_value, canon_value, m, false)
    } else {
        match spec_sticky_phase(rule, feature_name, doc, attr, canon_value, m->Some_0) {
            StickyPhase::Blocked => (None, m),
            StickyPhase::Adopted { index, upgraded } => {
                let m1 = if upgraded {
                    Some(
                        spec_store_save(
                            m->Some_0,
                            attr,
                            canon_value,
                            seq![(spec_sticky_key(rule, feature_name), spec_dec_int(index))],
                        ),
                    )
                } else {
                    m
                };
                if 0 <= index < rule.variations.len() {
                    let mv = spec_meta_value(rule, index);
                    (
                        Some(
                            spec_exp_result(
                                rule,
                                feature_name,
                                rule.variations[index],
                                index,
                                Some(attr),
                                user_value,
                                None,
                                mv.0,
                                true,
                            ),
                        ),
                        m1,
                    )
                } else {
                    spec_hash_phase(rule, feature_name, attr, user_value, canon_value, m1, true)
                }
            },
            StickyPhase::Missed => spec_hash_phase(
                rule,
                feature_name,
                attr,
                user_value,
                canon_value,
                m,
                true,
            ),
        }
    }
}

/// What an experiment rule yields for a user, and the store it
/// leaves behind: nothing when the user carries no usable hash
/// attribute, falls outside the namespace, is forced to an index
/// outside the variation list, is blocked by a stored bucket
/// version, is not covered, lands in no variation range, or lands in
/// a passthrough variation.
pub open spec fn spec_check_experiment(
    rule: ExperimentView,
    feature_name: Seq<char>,
    doc: Seq<(Seq<char>, JsonVal)>,
    attr: Seq<char>,
    forced: Option<Seq<(Seq<char>, int)>>,
    m: Option<StickyModel>,
) -> (Option<FeatureResultView>, Option<StickyModel>) {
    match spec_obj_lookup(doc, attr) {
        None => (None, m),
        Some(user_value) => match spec_canon(user_value) {
            None => (None, m),
            Some(cv) => if !spec_namespace_ok(rule, cv) {
                (None, m)
            } else {
                match spec_forced_check(rule, feature_name, doc, forced) {
                    Some(f) => if 0 <= f.0 < rule.variations.len() {
                        let mv = spec_meta_value(rule, f.0);
                        if mv.1 {
                            (None, m)
                        } else {
                            (
                                Some(
                                    spec_exp_result(
                                        rule,
                                        feature_name,
                                        rule.variations[f.0],
                                        f.0,
                                        rule.hash_attribute,
                                        f.1,
                                        None,
                                        mv.0,
                                        false,
                                    ),
                                ),
                                m,
                            )
                        }
                    } else {
                        (None, m)
                    },
                    None => spec_sticky_hash(rule, feature_name, doc, attr, user_value, cv, m),
                }
            },
        },
    }
}

/// A copy of an optional string.
fn clone_opt_string(s: &Option<String>) -> (r: Option<String>)
    ensures
        spec_opt_str(r) == spec_opt_str(*s),
{
    match s {
        Some(x) => Some(x.clone()),
        None => None,
    }
}

impl GrowthBookFeatureRuleExperiment {
    /// The attribute this experiment falls back to.
    pub fn get_fallback_attribute(&self) -> (r: String)
        ensures
            r@ == spec_fallback_attribute(self@),
    {
        match &self.fallback_attribute {
            Some(f) => f.clone(),
            None => String::from_str("id"),
        }
    }

    /// The variation key and passthrough flag of the variation at the
    /// given index.
    pub fn get_meta_value(&self, usize_index: usize) -> (r: (String, bool))
        requires
            usize_index < 0x8000000000000000,
        ensures
            r.0@ == spec_meta_value(self@, usize_index as int).0,
            r.1 == spec_meta_value(self@, usize_index as int).1,
    {
        match &self.meta {
            None => (i64_to_string(usize_index as i64), false),
            Some(ms) => {
                if usize_index < ms.len() {
                    let key = match &ms[usize_index].key {
                        Some(k) => k.clone(),
                        None => i64_to_string(usize_index as i64),
                    };
                    let passthrough = match ms[usize_index].passthrough {
                        Some(p) => p,
                        None => false,
                    };
                    (key, passthrough)
                } else {
                    (i64_to_string(usize_index as i64), false)
                }
            },
        }
    }

    /// A copy of this rule with the same model, as it is carried in a
    /// feature result.
    #[verifier::loop_isolation(false)]
    pub fn model_experiment(&self) -> (r: GrowthBookFeatureRuleExperiment)
        ensures
            r@ == self@,
    {
        let mut variations: Vec<JsonValue> = Vec::new();
        let mut i: usize = 0;
        while i < self.variations.len()
            invariant
                i <= self.variations@.len(),
                variations@.len() == i,
                forall|k: int| 0 <= k < i ==> (#[trigger] variations@[k])@ == self.variations@[k]@,
            decreases self.variations@.len() - i,
        {
            variations.push(self.variations[i].deep_clone());
            i += 1;
        }
        let weights: Option<Vec<i64>> = match &self.weights {
            Some(ws) => {
                let mut out: Vec<i64> = Vec::new();
                let mut j: usize = 0;
                while j < ws.len()
                    invariant
                        j <= ws@.len(),
                        out@.len() == j,
                        forall|k: int| 0 <= k < j ==> out@[k] == ws@[k],
                    decreases ws@.len() - j,
                {
                    out.push(ws[j]);
                    j += 1;
                }
                proof {
                    assert(out@ =~= ws@);
                }
                Some(out)
            },
            None => None,
        };
        let ranges: Option<Vec<Range>> = match &self.ranges {
            Some(rs) => {
                let mut out: Vec<Range> = Vec::new();
                let mut j: usize = 0;
                while j < rs.len()
                    invariant
                        j <= rs@.len(),
                        out@.len() == j,
                        forall|k: int| 0 <= k < j ==> out@[k] == rs@[k],
                    decreases rs@.len() - j,
                {
                    out.push(rs[j]);
                    j += 1;
                }
                proof {
                    assert(out@ =~= rs@);
                }
                Some(out)
            },
            None => None,
        };
        let meta: Option<Vec<GrowthBookExperimentMeta>> = match &self.meta {
            Some(ms) => {
                let mut out: Vec<GrowthBookExperimentMeta> = Vec::new();
                let mut j: usize = 0;
                while j < ms.len()
                    invariant
                        j <= ms@.len(),
                        out@.len() == j,
                        forall|k: int| 0 <= k < j ==> (#[trigger] out@[k])@ == ms@[k]@,
                    decreases ms@.len() - j,
                {
                    out.push(
                        GrowthBookExperimentMeta {
                            key: clone_opt_string(&ms[j].key),
                            passthrough: ms[j].passthrough,
                        },
                    );
                    j += 1;
                }
                Some(out)
            },
            None => None,
        };
        let namespace: Option<GrowthBookNamespace> = match &self.namespace {
            Some(ns) => Some(GrowthBookNamespace { id: ns.id.clone(), range: ns.range }),
            None => None,
        };
        let r = GrowthBookFeatureRuleExperiment {
            key: clone_opt_string(&self.key),
            variations,
            weights,
            ranges,
            meta,
            coverage: self.coverage,
            namespace,
            hash_attribute: clone_opt_string(&self.hash_attribute),
            fallback_attribute: clone_opt_string(&self.fallback_attribute),
            hash_version: self.hash_version,
            seed: clone_opt_string(&self.seed),
            bucket_version: self.bucket_version,
            min_bucket_version: self.min_bucket_version,
            disable_sticky_bucketing: self.disable_sticky_bucketing,
        };
        proof {
            assert(r@.variations =~= self@.variations);
            match r.weights {
                Some(_) => {
                    assert(r@.weights->Some_0 =~= self@.weights->Some_0);
                },
                None => (),
            }
            match r.meta {
                Some(_) => {
                    assert(r@.meta->Some_0 =~= self@.meta->Some_0);
                },
                None => (),
            }
        }
        r
    }
}

/// What one experiment evaluation decided, assembled for the caller.
fn create_experiment_result(
    feature_name: &str,
    value: JsonValue,
    variation_id: i64,
    hash_used: bool,
    hash_attribute: Option<String>,
    hash_value: Option<JsonValue>,
    bucket: Option<u32>,
    key: String,
    sticky_bucket_used: bool,
) -> (r: ExperimentResult)
    ensures
        r@ == (ExperimentResultView {
            feature_id: feature_name@,
            value: value@,
            variation_id: variation_id as int,
            in_experiment: true,
            hash_used,
            hash_attribute: spec_opt_str(hash_attribute),
            hash_value: crate::dto::spec_opt_json(hash_value),
            bucket: match bucket {
                Some(b) => Some(b as int),
                None => None,
            },
            key: key@,
            sticky_bucket_used,
        }),
{
    ExperimentResult {
        feature_id: String::from_str(feature_name),
        value,
        variation_id,
        in_experiment: true,
        hash_used,
        hash_attribute,
        hash_value,
        bucket,
        key,
        sticky_bucket_used,
    }
}

/// The first variation index a forced-variations list binds to a name.
#[verifier::loop_isolation(false)]
fn forced_lookup(fm: &Vec<(String, i64)>, name: &str) -> (r: Option<i64>)
    ensures
        ({
            let model = Seq::new(fm@.len(), |i: int| (fm@[i].0@, fm@[i].1 as int));
            match spec_forced_lookup(model, name@) {
                Some(v) => r is Some && r->Some_0 as int == v,
                None => r is None,
            }
        }),
{
    let ghost model: Seq<(Seq<char>, int)> = Seq::new(
        fm@.len(),
        |i: int| (fm@[i].0@, fm@[i].1 as int),
    );
    proof {
        assert(model.skip(0) =~= model);
    }
    let mut i: usize = 0;
    while i < fm.len()
        invariant
            i <= fm@.len(),
            model.len() == fm@.len(),
            spec_forced_lookup(model, name@) == spec_forced_lookup(model.skip(i as int), name@),
        decreases fm@.len() - i,
    {
        proof {
            assert(model.skip(i as int)[0] == model[i as int]);
            assert(model.skip(i as int).skip(1) =~= model.skip(i as int + 1));
        }
        if str_eq(fm[i].0.as_str(), name) {
            return Some(fm[i].1);
        }
        i += 1;
    }
    proof {
        assert(model.skip(fm@.len() as int) =~= Seq::<(Seq<char>, int)>::empty());
    }
    None
}

/// Whether any stored key of the document blocks the experiment.
#[verifier::loop_isolation(false)]
fn doc_blocked(doc: &Vec<(String, String)>, prefix: &String, min: i64, Ghost(meta_key): Ghost<
    Seq<char>,
>) -> (r: bool)
    requires
        prefix@ == meta_key + "__"@,
    ensures
        r == spec_doc_blocked(
            crate::sticky_bucket::spec_assign_view(doc@),
            meta_key,
            min as int,
        ),
{
    let ghost model = crate::sticky_bucket::spec_assign_view(doc@);
    let mut i: usize = 0;
    while i < doc.len()
        invariant
            i <= doc@.len(),
            model.len() == doc@.len(),
            forall|k: int| 0 <= k < i ==> !spec_key_blocked((#[trigger] model[k]).0, meta_key, min as int),
        decreases doc@.len() - i,
    {
        proof {
            assert(model[i as int] == (doc@[i as int].0@, doc@[i as int].1@));
        }
        if has_prefix(doc[i].0.as_str(), prefix.as_str()) {
            let rest = suffix_from(doc[i].0.as_str(), prefix.unicode_len());
            proof {
                assert(spec_has_prefix(model[i as int].0, meta_key + "__"@));
                assert(rest@ == model[i as int].0.skip((meta_key + "__"@).len() as int));
            }
            match parse_i64(rest.as_str()) {
                Some(v) => {
                    proof {
                        lemma_parse_i64_range(rest@);
                        assert(spec_parse_i64(rest@) is Some);
                        assert(spec_parse_i64(rest@)->Some_0 == v as int);
                    }
                    if v < min {
                        proof {
                            assert(spec_key_blocked(model[i as int].0, meta_key, min as int));
                        }
                        return true;
                    }
                    proof {
                        assert(!spec_key_blocked(model[i as int].0, meta_key, min as int));
                    }
                },
                None => {
                    proof {
                        assert(spec_parse_i64(rest@) is None);
                        assert(!spec_key_blocked(model[i as int].0, meta_key, min as int));
                    }
                },
            }
        } else {
            proof {
                assert(!spec_key_blocked(model[i as int].0, meta_key, min as int));
            }
        }
        i += 1;
    }
    false
}

/// The variation index the document stores under the sticky key.
#[verifier::loop_isolation(false)]
fn doc_sticky_index(doc: &Vec<(String, String)>, sticky_key: &String) -> (r: Option<i64>)
    ensures
        ({
            let model = crate::sticky_bucket::spec_assign_view(doc@);
            match spec_doc_sticky_index(model, sticky_key@) {
                Some(v) => r is Some && r->Some_0 as int == v,
                None => r is None,
            }
        }),
{
    let ghost model = crate::sticky_bucket::spec_assign_view(doc@);
    proof {
        assert(model.skip(0) =~= model);
    }
    let mut i: usize = 0;
    while i < doc.len()
        invariant
            i <= doc@.len(),
            model.len() == doc@.len(),
            spec_doc_lookup(model, sticky_key@) == spec_doc_lookup(model.skip(i as int), sticky_key@),
        decreases doc@.len() - i,
    {
        proof {
            assert(model.skip(i as int)[0] == model[i as int]);
            assert(model.skip(i as int).skip(1) =~= model.skip(i as int + 1));
        }
        if str_eq(doc[i].0.as_str(), sticky_key.as_str()) {
            proof {
                lemma_parse_i64_range(doc@[i as int].1@);
            }
            return parse_i64(doc[i].1.as_str());
        }
        i += 1;
    }
    proof {
        assert(model.skip(doc@.len() as int) =~= Seq::<(Seq<char>, Seq<char>)>::empty());
    }
    None
}

/// What the sticky-bucket store answered for this user, carried back
/// to the evaluation.
pub enum StickyLookup {
    Blocked,
    Adopted(i64, bool),
    Missed,
}

impl GrowthBookFeatureRuleExperiment {
    /// The bucket ranges this experiment spans.
    #[verifier::loop_isolation(false)]
    pub fn experiment_ranges(&self) -> (r: Vec<Range>)
        ensures
            r@ == spec_exp_ranges(self@),
    {
        match &self.ranges {
            Some(rs) => {
                if rs.len() as u64 >= 0x8000000000000000u64 {
                    let empty: Vec<Range> = Vec::new();
                    proof {
                        assert(empty@ =~= Seq::<Range>::empty());
                    }
                    empty
                } else {
                    let mut out: Vec<Range> = Vec::new();
                    let mut i: usize = 0;
                    while i < rs.len()
                        invariant
                            i <= rs@.len(),
                            out@.len() == i,
                            forall|k: int| 0 <= k < i ==> out@[k] == rs@[k],
                        decreases rs@.len() - i,
                    {
                        out.push(rs[i]);
                        i += 1;
                    }
                    proof {
                        assert(out@ =~= rs@);
                    }
                    out
                }
            },
            None => {
                let n = self.variations.len();
                if n == 0 || n > 1000000 {
                    let empty: Vec<Range> = Vec::new();
                    proof {
                        assert(empty@ =~= Seq::<Range>::empty());
                    }
                    return empty;
                }
                let ws: Vec<i64> = match &self.weights {
                    Some(w) => {
                        if weights_valid(w, n) {
                            let mut out: Vec<i64> = Vec::new();
                            let mut i: usize = 0;
                            while i < w.len()
                                invariant
                                    i <= w@.len(),
                                    out@.len() == i,
                                    forall|k: int| 0 <= k < i ==> out@[k] == w@[k],
                                decreases w@.len() - i,
                            {
                                out.push(w[i]);
                                i += 1;
                            }
                            proof {
                                assert(out@ =~= w@);
                            }
                            out
                        } else {
                            equal_weights(n)
                        }
                    },
                    None => equal_weights(n),
                };
                let cov: i64 = match self.coverage {
                    Some(c) => if c < 0 {
                        0
                    } else if c > 1000000 {
                        1000000
                    } else {
                        c
                    },
                    None => 1000000,
                };
                proof {
                    let wsm = spec_weight_ints(ws@);
                    if self@.weights matches Some(w0) && spec_weights_valid(w0, n as nat) {
                        assert(wsm =~= self@.weights->Some_0);
                    } else {
                        assert(wsm =~= Seq::new(n as nat, |i: int| spec_equal_weight(n as nat)));
                        crate::range::lemma_sum_constant(n as nat, spec_equal_weight(n as nat));
                        assert(0 <= spec_equal_weight(n as nat) <= 1000000) by (nonlinear_arith)
                            requires
                                1 <= n as int,
                                spec_equal_weight(n as nat) == 1000000int / (n as int),
                        ;
                        assert((n as int) * spec_equal_weight(n as nat) <= 1000000) by (nonlinear_arith)
                            requires
                                1 <= n as int,
                                spec_equal_weight(n as nat) == 1000000int / (n as int),
                        ;
                        assert(spec_sum(wsm) <= 1010000);
                    }
                    assert forall|i: int| 0 <= i < ws@.len() implies 0 <= #[trigger] ws@[i]
                        <= 1000000 by {
                        assert(wsm[i] == ws@[i] as int);
                        assert(0 <= wsm[i] <= 1000000);
                    }
                }
                let built = build_ranges(&ws, cov);
                proof {
                    assert(built@ =~= spec_exp_ranges(self@));
                }
                built
            },
        }
    }

    /// What the sticky store holds for this user and experiment: a
    /// block, an adopted variation — found under the primary or the
    /// fallback attribute — or nothing.
    fn sticky_lookup<S: StickyBucketService>(
        &self,
        service: &S,
        feature_name: &str,
        user_attributes: &Vec<GrowthBookAttribute>,
        feature_attribute: &String,
        canon_value: &String,
    ) -> (r: StickyLookup)
        ensures
            ({
                let phase = spec_sticky_phase(
                    self@,
                    feature_name@,
                    spec_attrs_view(user_attributes@),
                    feature_attribute@,
                    canon_value@,
                    service.model(),
                );
                match phase {
                    StickyPhase::Blocked => r is Blocked,
                    StickyPhase::Adopted { index, upgraded } => r matches StickyLookup::Adopted(
                        i,
                        u,
                    ) && i as int == index && u == upgraded,
                    StickyPhase::Missed => r is Missed,
                }
            }),
    {
        let meta_key: String = match &self.key {
            Some(k) => k.clone(),
            None => String::from_str(feature_name),
        };
        let mut prefix = meta_key.clone();
        prefix.append("__");
        let bv: i64 = match self.bucket_version {
            Some(v) => v,
            None => 0,
        };
        let mut sticky_key = prefix.clone();
        append_dec_i64(&mut sticky_key, bv);
        proof {
            assert(sticky_key@ =~= spec_sticky_key(self@, feature_name@));
        }
        let min: i64 = match self.min_bucket_version {
            Some(v) => v,
            None => 0,
        };
        match service.get_assignments(feature_attribute.as_str(), canon_value.as_str()) {
            Some(doc_vec) => {
                if doc_blocked(&doc_vec, &prefix, min, Ghost(meta_key@)) {
                    return StickyLookup::Blocked;
                }
                match doc_sticky_index(&doc_vec, &sticky_key) {
                    Some(i) => {
                        return StickyLookup::Adopted(i, false);
                    },
                    None => {},
                }
            },
            None => {},
        }
        let fb = self.get_fallback_attribute();
        if str_eq(fb.as_str(), feature_attribute.as_str()) {
            return StickyLookup::Missed;
        }
        match find_value(user_attributes, fb.as_str()) {
            Some(fv) => match fv.to_canon_string() {
                Some(fc) => match service.get_assignments(fb.as_str(), fc.as_str()) {
                    Some(d2) => {
                        if doc_blocked(&d2, &prefix, min, Ghost(meta_key@)) {
                            return StickyLookup::Blocked;
                        }
                        match doc_sticky_index(&d2, &sticky_key) {
                            Some(i) => StickyLookup::Adopted(i, true),
                            None => StickyLookup::Missed,
                        }
                    },
                    None => StickyLookup::Missed,
                },
                None => StickyLookup::Missed,
            },
            None => StickyLookup::Missed,
        }
    }

    /// The hashing tail of the experiment: bucket the user, apply the
    /// coverage gate, pick the variation, and persist the assignment
    /// when sticky bucketing is active.
    #[verifier::rlimit(60)]
    #[verifier::spinoff_prover]
    fn hash_tail<S: StickyBucketService>(
        &self,
        feature_name: &str,
        feature_attribute: &String,
        user_value: &JsonValue,
        cv: &String,
        sticky_bucket_service: &mut Option<S>,
        active: bool,
    ) -> (r: Option<FeatureResult>)
        requires
            active ==> (*old(sticky_bucket_service)) is Some,
        ensures
            ({
                let out = spec_hash_phase(
                    self@,
                    feature_name@,
                    feature_attribute@,
                    user_value@,
                    cv@,
                    spec_sticky_model::<S>(*old(sticky_bucket_service)),
                    active,
                );
                &&& (match out.0 {
                    Some(v) => r is Some && r->Some_0@ == v && spec_result_wf(v),
                    None => r is None,
                })
                &&& spec_sticky_model::<S>(*final(sticky_bucket_service)) == out.1
            }),
    {
        let seed: String = match &self.seed {
            Some(s) => s.clone(),
            None => match &self.key {
                Some(k) => k.clone(),
                None => String::from_str(feature_name),
            },
        };
        let version: i64 = match self.hash_version {
            Some(v) => v,
            None => 1,
        };
        let bucket = match hash_code(cv.as_str(), seed.as_str(), version) {
            Some(b) => b,
            None => {
                return None;
            },
        };
        match self.coverage {
            Some(c) => {
                if (bucket as i64) >= c {
                    return None;
                }
            },
            None => {},
        }
        let ranges = self.experiment_ranges();
        let idx = choose_variation(bucket, &ranges);
        if idx < 0 || (idx as usize) >= self.variations.len() {
            return None;
        }
        let mv = self.get_meta_value(idx as usize);
        if mv.1 {
            return None;
        }
        if active {
            let meta_key: String = match &self.key {
                Some(k) => k.clone(),
                None => String::from_str(feature_name),
            };
            let mut sticky_key = meta_key.clone();
            sticky_key.append("__");
            let bv: i64 = match self.bucket_version {
                Some(v) => v,
                None => 0,
            };
            append_dec_i64(&mut sticky_key, bv);
            proof {
                assert(sticky_key@ =~= spec_sticky_key(self@, feature_name@));
            }
            match sticky_bucket_service {
                Some(service) => {
                    let mut adds: Vec<(String, String)> = Vec::new();
                    adds.push((sticky_key, i64_to_string(idx)));
                    proof {
                        assert(crate::sticky_bucket::spec_assign_view(adds@) =~= seq![
                            (spec_sticky_key(self@, feature_name@), spec_dec_int(idx as int)),
                        ]);
                    }
                    service.save_assignments(feature_attribute.as_str(), cv.as_str(), adds);
                },
                None => {
                    proof {
                        assert(false);
                    }
                },
            }
        }
        let value = self.variations[idx as usize].deep_clone();
        let value2 = self.variations[idx as usize].deep_clone();
        let er = create_experiment_result(
            feature_name,
            value,
            idx,
            true,
            Some(feature_attribute.clone()),
            Some(user_value.deep_clone()),
            Some(bucket),
            mv.0,
            false,
        );
        Some(FeatureResult::experiment(value2, self.model_experiment(), er))
    }

    /// The sticky phase and hashing tail of the experiment, after the
    /// namespace and forced-variation gates.
    #[verifier::rlimit(60)]
    #[verifier::spinoff_prover]
    fn sticky_hash_tail<S: StickyBucketService>(
        &self,
        feature_name: &str,
        user_attributes: &Vec<GrowthBookAttribute>,
        feature_attribute: &String,
        user_value: &JsonValue,
        cv: &String,
        sticky_bucket_service: &mut Option<S>,
    ) -> (r: Option<FeatureResult>)
        ensures
            ({
                let out = spec_sticky_hash(
                    self@,
                    feature_name@,
                    spec_attrs_view(user_attributes@),
                    feature_attribute@,
                    user_value@,
                    cv@,
                    spec_sticky_model::<S>(*old(sticky_bucket_service)),
                );
                &&& (match out.0 {
                    Some(v) => r is Some && r->Some_0@ == v && spec_result_wf(v),
                    None => r is None,
                })
                &&& spec_sticky_model::<S>(*final(sticky_bucket_service)) == out.1
            }),
    {
        let disabled: bool = match self.disable_sticky_bucketing {
            Some(d) => d,
            None => false,
        };
        let mut adopted: Option<(i64, bool)> = None;
        let mut was_blocked = false;
        let mut active = false;
        match sticky_bucket_service {
            Some(service) => {
                proof {
                    assert(service.model() == spec_sticky_model::<S>(
                        *old(sticky_bucket_service),
                    )->Some_0);
                }
                if !disabled {
                    active = true;
                    match self.sticky_lookup(
                        &*service,
                        feature_name,
                        user_attributes,
                        feature_attribute,
                        cv,
                    ) {
                        StickyLookup::Blocked => {
                            was_blocked = true;
                        },
                        StickyLookup::Adopted(i, u) => {
                            adopted = Some((i, u));
                        },
                        StickyLookup::Missed => {},
                    }
                }
            },
            None => {},
        }
        if was_blocked {
            return None;
        }
        if !active {
            return self.hash_tail(
                feature_name,
                feature_attribute,
                user_value,
                cv,
                sticky_bucket_service,
                false,
            );
        }
        match adopted {
            Some(pair) => {
                let idx = pair.0;
                proof {
                    let m0 = spec_sticky_model::<S>(*old(sticky_bucket_service));
                    let docv = spec_attrs_view(user_attributes@);
                    let phase = spec_sticky_phase(
                        self@,
                        feature_name@,
                        docv,
                        feature_attribute@,
                        cv@,
                        m0->Some_0,
                    );
                    match phase {
                        StickyPhase::Adopted { index, upgraded } => {
                            assert(index == idx as int);
                            assert(upgraded == pair.1);
                        },
                        _ => {
                            assert(false);
                        },
                    }
                }
                if pair.1 {
                    let meta_key: String = match &self.key {
                        Some(k) => k.clone(),
                        None => String::from_str(feature_name),
                    };
                    let mut sticky_key = meta_key.clone();
                    sticky_key.append("__");
                    let bv: i64 = match self.bucket_version {
                        Some(v) => v,
                        None => 0,
                    };
                    append_dec_i64(&mut sticky_key, bv);
                    proof {
                        assert(sticky_key@ =~= spec_sticky_key(self@, feature_name@));
                    }
                    match sticky_bucket_service {
                        Some(service) => {
                            let mut adds: Vec<(String, String)> = Vec::new();
                            adds.push((sticky_key, i64_to_string(idx)));
                            proof {
                                assert(crate::sticky_bucket::spec_assign_view(adds@) =~= seq![
                                    (
                                        spec_sticky_key(self@, feature_name@),
                                        spec_dec_int(idx as int),
                                    ),
                                ]);
                            }
                            service.save_assignments(
                                feature_attribute.as_str(),
                                cv.as_str(),
                                adds,
                            );
                        },
                        None => {
                            proof {
                                assert(false);
                            }
                        },
                    }
                }
                proof {
                    assert(self@.variations.len() == self.variations@.len());
                }
                if 0 <= idx && (idx as u64) < (self.variations.len() as u64) {
                    let mv = self.get_meta_value(idx as usize);
                    let value = self.variations[idx as usize].deep_clone();
                    let value2 = self.variations[idx as usize].deep_clone();
                    let er = create_experiment_result(
                        feature_name,
                        value,
                        idx,
                        true,
                        Some(feature_attribute.clone()),
                        Some(user_value.deep_clone()),
                        None,
                        mv.0,
                        true,
                    );
                    return Some(FeatureResult::experiment(value2, self.model_experiment(), er));
                }
                self.hash_tail(
                    feature_name,
                    feature_attribute,
                    user_value,
                    cv,
                    sticky_bucket_service,
                    true,
                )
            },
            None => self.hash_tail(
                feature_name,
                feature_attribute,
                user_value,
                cv,
                sticky_bucket_service,
                true,
            ),
        }
    }

    /// What this experiment yields for a user whose hash attribute is
    /// already resolved, consulting and updating the sticky store
    /// through its contract.
    #[verifier::rlimit(40)]
    #[verifier::spinoff_prover]
    pub fn check_experiment<S: StickyBucketService>(
        &self,
        feature_name: &str,
        user_attributes: &Vec<GrowthBookAttribute>,
        forced_variations: &Option<Vec<(String, i64)>>,
        feature_attribute: &String,
        sticky_bucket_service: &mut Option<S>,
    ) -> (r: Option<FeatureResult>)
        ensures
            ({
                let out = spec_check_experiment(
                    self@,
                    feature_name@,
                    spec_attrs_view(user_attributes@),
                    feature_attribute@,
                    spec_forced_view(*forced_variations),
                    spec_sticky_model::<S>(*old(sticky_bucket_service)),
                );
                &&& (match out.0 {
                    Some(v) => r is Some && r->Some_0@ == v && spec_result_wf(v),
                    None => r is None,
                })
                &&& spec_sticky_model::<S>(*final(sticky_bucket_service)) == out.1
            }),
    {
        let user_value = match find_value(user_attributes, feature_attribute.as_str()) {
            Some(v) => v,
            None => {
                return None;
            },
        };
        let cv = match user_value.to_canon_string() {
            Some(s) => s,
            None => {
                return None;
            },
        };
        match &self.namespace {
            Some(ns) => {
                let mut nseed = String::from_str("__");
                nseed.append(ns.id.as_str());
                let nb = match hash_code(cv.as_str(), nseed.as_str(), 1) {
                    Some(b) => b,
                    None => {
                        return None;
                    },
                };
                if !ns.range.in_range(nb) {
                    return None;
                }
            },
            None => {},
        }
        let forced_hit: Option<(i64, &JsonValue)> = match forced_variations {
            Some(fm) => {
                proof {
                    assert(Seq::new(fm@.len(), |i: int| (fm@[i].0@, fm@[i].1 as int)) =~= spec_forced_view(
                        *forced_variations,
                    )->Some_0);
                }
                match forced_lookup(fm, feature_name) {
                    Some(fidx) => {
                        let attr_value = match &self.hash_attribute {
                            Some(h) => find_value(user_attributes, h.as_str()),
                            None => {
                                let fb = self.get_fallback_attribute();
                                find_value(user_attributes, fb.as_str())
                            },
                        };
                        match attr_value {
                            Some(v) => Some((fidx, v)),
                            None => None,
                        }
                    },
                    None => None,
                }
            },
            None => None,
        };
        match forced_hit {
            Some(pair) => {
                let fidx = pair.0;
                proof {
                    assert(self@.variations.len() == self.variations@.len());
                }
                if !(0 <= fidx && (fidx as u64) < (self.variations.len() as u64)) {
                    return None;
                }
                {
                    let mv = self.get_meta_value(fidx as usize);
                    if mv.1 {
                        return None;
                    }
                    let value = self.variations[fidx as usize].deep_clone();
                    let value2 = self.variations[fidx as usize].deep_clone();
                    let er = create_experiment_result(
                        feature_name,
                        value,
                        fidx,
                        true,
                        clone_opt_string(&self.hash_attribute),
                        Some(pair.1.deep_clone()),
                        None,
                        mv.0,
                        false,
                    );
                    return Some(FeatureResult::experiment(value2, self.model_experiment(), er));
                }
            },
            None => {},
        }
        self.sticky_hash_tail(
            feature_name,
            user_attributes,
            feature_attribute,
            user_value,
            &cv,
            sticky_bucket_service,
        )
    }

    /// What this experiment yields for the user: the hash attribute
    /// is resolved first, then the experiment is checked.
    pub fn get_match_value<S: StickyBucketService>(
        &self,
        feature_name: &str,
        user_attributes: &Vec<GrowthBookAttribute>,
        forced_variations: &Option<Vec<(String, i64)>>,
        sticky_bucket_service: &mut Option<S>,
    ) -> (r: Option<FeatureResult>)
        ensures
            ({
                let out = spec_check_experiment(
                    self@,
                    feature_name@,
                    spec_attrs_view(user_attributes@),
                    spec_exp_attribute(self@, spec_attrs_view(user_attributes@)),
                    spec_forced_view(*forced_variations),
                    spec_sticky_model::<S>(*old(sticky_bucket_service)),
                );
                &&& (match out.0 {
                    Some(v) => r is Some && r->Some_0@ == v && spec_result_wf(v),
                    None => r is None,
                })
                &&& spec_sticky_model::<S>(*final(sticky_bucket_service)) == out.1
            }),
    {
        let feature_attribute: String = match &self.hash_attribute {
            Some(ha) => {
                if find_value(user_attributes, ha.as_str()).is_some() {
                    ha.clone()
                } else {
                    match &self.fallback_attribute {
                        Some(fa) => {
                            if find_value(user_attributes, fa.as_str()).is_some() {
                                fa.clone()
                            } else {
                                ha.clone()
                            }
                        },
                        None => ha.clone(),
                    }
                }
            },
            None => self.get_fallback_attribute(),
        };
        self.check_experiment(
            feature_name,
            user_attributes,
            forced_variations,
            &feature_attribute,
            sticky_bucket_service,
        )
    }

    /// The forced variation for this feature, when the forced map
    /// names it, the user carries the attribute the rule hashes on,
    /// the index is in range, and the variation does not pass through.
    pub fn forced_variation(
        &self,
        feature_name: &str,
        user_attributes: &Vec<GrowthBookAttribute>,
        forced_variations: &Option<Vec<(String, i64)>>,
    ) -> (r: Option<FeatureResult>)
        ensures
            ({
                let doc = spec_attrs_view(user_attributes@);
                match spec_forced_check(
                    self@,
                    feature_name@,
                    doc,
                    spec_forced_view(*forced_variations),
                ) {
                    Some(f) => {
                        if 0 <= f.0 < self@.variations.len() && !spec_meta_value(self@, f.0).1 {
                            r is Some && r->Some_0@ == spec_exp_result(
                                self@,
                                feature_name@,
                                self@.variations[f.0],
                                f.0,
                                self@.hash_attribute,
                                f.1,
                                None,
                                spec_meta_value(self@, f.0).0,
                                false,
                            )
                        } else {
                            r is None
                        }
                    },
                    None => r is None,
                }
            }),
    {
        let forced_hit: Option<(i64, &JsonValue)> = match forced_variations {
            Some(fm) => {
                proof {
                    assert(Seq::new(fm@.len(), |i: int| (fm@[i].0@, fm@[i].1 as int)) =~= spec_forced_view(
                        *forced_variations,
                    )->Some_0);
                }
                match forced_lookup(fm, feature_name) {
                    Some(fidx) => {
                        let attr_value = match &self.hash_attribute {
                            Some(h) => find_value(user_attributes, h.as_str()),
                            None => {
                                let fb = self.get_fallback_attribute();
                                find_value(user_attributes, fb.as_str())
                            },
                        };
                        match attr_value {
                            Some(v) => Some((fidx, v)),
                            None => None,
                        }
                    },
                    None => None,
                }
            },
            None => None,
        };
        match forced_hit {
            Some(pair) => {
                let fidx = pair.0;
                proof {
                    assert(self@.variations.len() == self.variations@.len());
                }
                if !(0 <= fidx && (fidx as u64) < (self.variations.len() as u64)) {
                    return None;
                }
                {
                    let mv = self.get_meta_value(fidx as usize);
                    if mv.1 {
                        return None;
                    }
                    let value = self.variations[fidx as usize].deep_clone();
                    let value2 = self.variations[fidx as usize].deep_clone();
                    let er = create_experiment_result(
                        feature_name,
                        value,
                        fidx,
                        true,
                        clone_opt_string(&self.hash_attribute),
                        Some(pair.1.deep_clone()),
                        None,
                        mv.0,
                        false,
                    );
                    let res = FeatureResult::experiment(value2, self.model_experiment(), er);
                    proof {
                        assert(self@.variations.len() == self.variations@.len());
                        let doc = spec_attrs_view(user_attributes@);
                        let fo = spec_forced_check(
                            self@,
                            feature_name@,
                            doc,
                            spec_forced_view(*forced_variations),
                        );
                        assert(fo is Some);
                        let f = fo->Some_0;
                        assert(f.0 == fidx as int);
                        assert(f.1 == pair.1@);
                        assert(0 <= f.0 < self@.variations.len());
                        assert(!spec_meta_value(self@, f.0).1);
                        let expect = spec_exp_result(
                            self@,
                            feature_name@,
                            self@.variations[f.0],
                            f.0,
                            self@.hash_attribute,
                            f.1,
                            None,
                            spec_meta_value(self@, f.0).0,
                            false,
                        );
                        assert(res@.value == expect.value);
                        assert(res@.on == expect.on);
                        assert(res@.source == expect.source);
                        assert(res@.experiment == expect.experiment);
                        assert(res@.experiment_result == expect.experiment_result);
                        assert(res@ == expect);
                    }
                    Some(res)
                }
            },
            None => None,
        }
    }
}


/// Law: a user whose stored document carries this experiment's key
/// under a bucket version below the minimum gets no assignment at
/// all, whatever their hash would say, and the store is untouched.
pub proof fn lemma_sticky_block_stops_assignment(
    rule: ExperimentView,
    feature_name: Seq<char>,
    doc: Seq<(Seq<char>, JsonVal)>,
    attr: Seq<char>,
    user_value: JsonVal,
    canon_value: Seq<char>,
    m: StickyModel,
)
    requires
        rule.disable_sticky_bucketing != Some(true),
        spec_sticky_phase(rule, feature_name, doc, attr, canon_value, m) is Blocked,
    ensures
        spec_sticky_hash(rule, feature_name, doc, attr, user_value, canon_value, Some(m)) == (
            None::<FeatureResultView>,
            Some(m),
        ),
{
}

/// Law: a stored key of the form `meta key, two underscores, then a
/// version below the minimum` blocks the user whenever the store
/// holds that document under the hashed attribute.
pub proof fn lemma_doc_block_detected(
    rule: ExperimentView,
    feature_name: Seq<char>,
    doc: Seq<(Seq<char>, JsonVal)>,
    attr: Seq<char>,
    canon_value: Seq<char>,
    m: StickyModel,
    stored: AssignDoc,
    k: int,
)
    requires
        spec_store_lookup(m, attr, canon_value) == Some(stored),
        0 <= k < stored.len(),
        spec_key_blocked(stored[k].0, spec_meta_key(rule, feature_name), spec_min_bucket_version(rule)),
    ensures
        spec_sticky_phase(rule, feature_name, doc, attr, canon_value, m) is Blocked,
{
    assert(spec_doc_blocked(stored, spec_meta_key(rule, feature_name), spec_min_bucket_version(rule)));
}

/// The stores an optional service models: nothing when there is none.
pub open spec fn spec_sticky_model<S: StickyBucketService>(o: Option<S>) -> Option<StickyModel> {
    match o {
        Some(s) => Some(s.model()),
        None => None,
    }
}

} // verus!
