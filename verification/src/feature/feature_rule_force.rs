use vstd::prelude::*;

verus! {

use crate::json::{JsonVal, spec_obj_lookup, spec_canon};
use crate::dto::{GrowthBookFeatureRuleForce, ForceView};
use crate::model_public::{GrowthBookAttribute, spec_attrs_view, find_value, FeatureResult,
    FeatureSource, spec_result_of, spec_result_wf};
use crate::condition::{spec_eval_condition, eval_condition_attrs};
use crate::hash::{spec_hash, hash_code};
use crate::range::spec_in_range;

/// The canonical text of the user value a force rule's gate hashes:
/// the hash attribute's — or, when that is absent or unusable, the
/// fallback attribute's — value; nothing when no usable value exists.
pub open spec fn spec_force_user_value(rule: ForceView, doc: Seq<(Seq<char>, JsonVal)>) -> Option<
    Seq<char>,
> {
    let primary = match rule.hash_attribute {
        Some(h) => h,
        None => "id"@,
    };
    let first = match spec_obj_lookup(doc, primary) {
        Some(v) => spec_canon(v),
        None => None,
    };
    match first {
        Some(s) => Some(s),
        None => match rule.fallback_attribute {
            Some(f) => match spec_obj_lookup(doc, f) {
                Some(v) => spec_canon(v),
                None => None,
            },
            None => None,
        },
    }
}

/// Whether the user passes a force rule's rollout gate: ungated rules
/// admit everyone; a gated rule hashes the user value with the rule's
/// seed — or the feature name — and requires the bucket to lie in the
/// rule's range, or under its coverage.
pub open spec fn spec_force_gate(
    rule: ForceView,
    feature_name: Seq<char>,
    doc: Seq<(Seq<char>, JsonVal)>,
) -> bool {
    if rule.range is None && rule.coverage is None {
        true
    } else {
        match spec_force_user_value(rule, doc) {
            None => false,
            Some(value) => {
                let seed = match rule.seed {
                    Some(s) => s,
                    None => feature_name,
                };
                let version = match rule.hash_version {
                    Some(v) => v,
                    None => 1,
                };
                match spec_hash(value, seed, version) {
                    None => false,
                    Some(bucket) => match rule.range {
                        Some(rg) => spec_in_range(bucket, rg),
                        None => match rule.coverage {
                            Some(c) => bucket < c,
                            None => false,
                        },
                    },
                }
            },
        }
    }
}

/// What a force rule yields: its forced value when its condition
/// holds and the user passes its gate, else nothing.
pub open spec fn spec_force_eval(
    rule: ForceView,
    feature_name: Seq<char>,
    doc: Seq<(Seq<char>, JsonVal)>,
) -> Option<JsonVal> {
    let cond_ok = match rule.condition {
        Some(c) => spec_eval_condition(doc, c),
        None => true,
    };
    if cond_ok && spec_force_gate(rule, feature_name, doc) {
        Some(rule.force)
    } else {
        None
    }
}

/// The canonical text of the user value a force rule's gate hashes.
fn force_user_value(rule: &GrowthBookFeatureRuleForce, attrs: &Vec<GrowthBookAttribute>) -> (r:
    Option<String>)
    ensures
        match spec_force_user_value(rule@, spec_attrs_view(attrs@)) {
            Some(s) => r is Some && r->Some_0@ == s,
            None => r is None,
        },
{
    let first = match &rule.hash_attribute {
        Some(h) => match find_value(attrs, h.as_str()) {
            Some(v) => v.to_canon_string(),
            None => None,
        },
        None => match find_value(attrs, "id") {
            Some(v) => v.to_canon_string(),
            None => None,
        },
    };
    match first {
        Some(s) => Some(s),
        None => match &rule.fallback_attribute {
            Some(f) => match find_value(attrs, f.as_str()) {
                Some(v) => v.to_canon_string(),
                None => None,
            },
            None => None,
        },
    }
}

impl GrowthBookFeatureRuleForce {
    /// What this rule yields for the user: the forced value when the
    /// condition holds and the user passes the rollout gate.
    pub fn get_match_value(&self, feature_name: &str, user_attributes: &Vec<GrowthBookAttribute>)
        -> (r: Option<FeatureResult>)
        ensures
            match spec_force_eval(self@, feature_name@, spec_attrs_view(user_attributes@)) {
                Some(v) => r is Some && r->Some_0@ == spec_result_of(v, FeatureSource::Force)
                    && spec_result_wf(r->Some_0@),
                None => r is None,
            },
    {
        let cond_ok = match &self.condition {
            Some(c) => eval_condition_attrs(user_attributes, c),
            None => true,
        };
        if !cond_ok {
            return None;
        }
        if self.range.is_none() && self.coverage.is_none() {
            return Some(FeatureResult::force(self.force.deep_clone()));
        }
        let value = match force_user_value(self, user_attributes) {
            Some(v) => v,
            None => {
                return None;
            },
        };
        let seed: &str = match &self.seed {
            Some(s) => s.as_str(),
            None => feature_name,
        };
        let version: i64 = match self.hash_version {
            Some(v) => v,
            None => 1,
        };
        let bucket = match hash_code(value.as_str(), seed, version) {
            Some(b) => b,
            None => {
                return None;
            },
        };
        let passed = match self.range {
            Some(rg) => rg.in_range(bucket),
            None => match self.coverage {
                Some(c) => (bucket as i64) < c,
                None => false,
            },
        };
        if passed {
            Some(FeatureResult::force(self.force.deep_clone()))
        } else {
            None
        }
    }
}

} // verus!
