use vstd::prelude::*;

verus! {

use crate::json::{JsonValue, JsonVal, lemma_view_shape, lemma_obj_view};
use crate::dto::{GrowthBookFeature, parse_feature, spec_parse_feature, spec_get};
use crate::model_public::{GrowthBookAttribute, spec_attrs_view, FeatureResult, FeatureResultView,
    FeatureSource, spec_result_wf, spec_result_of};
use crate::feature::use_case::{find_feature, spec_features_view, spec_feature_lookup,
    spec_eval_feature};
use crate::feature::feature_rule_experiment::{spec_forced_view, spec_sticky_model};
use crate::sticky_bucket::{InMemoryStickyBucketService, StickyModel};

/// What one fetch of the configuration endpoint carries, already
/// shaped as the library's own values.
#[derive(Debug)]
pub struct GrowthBookResponse {
    pub features: Vec<(String, GrowthBookFeature)>,
    pub forced_variations: Option<Vec<(String, i64)>>,
}

/// The features named by a JSON object, each parsed from its shape;
/// any other JSON value carries no features.
#[verifier::loop_isolation(false)]
pub fn parse_features_map(v: &JsonValue) -> (r: Vec<(String, GrowthBookFeature)>)
    ensures
        match v@ {
            JsonVal::Obj(fields) => r@.len() == fields.len() && forall|i: int|
                0 <= i < fields.len() ==> (#[trigger] r@[i].0)@ == fields[i].0 && r@[i].1@
                    == spec_parse_feature(fields[i].1),
            _ => r@.len() == 0,
        },
{
    proof {
        lemma_view_shape(v);
    }
    match v {
        JsonValue::Obj(fields) => {
            proof {
                lemma_obj_view(v);
            }
            let ghost sfields = v@->Obj_0;
            let mut out: Vec<(String, GrowthBookFeature)> = Vec::new();
            let mut i: usize = 0;
            while i < fields.len()
                invariant
                    i <= fields@.len(),
                    sfields.len() == fields@.len(),
                    forall|k: int|
                        0 <= k < fields@.len() ==> sfields[k] == (fields@[k].0@, fields@[k].1@),
                    out@.len() == i,
                    forall|k: int|
                        0 <= k < i ==> (#[trigger] out@[k].0)@ == sfields[k].0 && out@[k].1@
                            == spec_parse_feature(sfields[k].1),
                decreases fields@.len() - i,
            {
                out.push((fields[i].0.clone(), parse_feature(&fields[i].1)));
                i += 1;
            }
            out
        },
        _ => Vec::new(),
    }
}

/// One snapshot of the configuration: the features, any forced
/// variations, the global attributes, and the sticky-bucket store.
#[derive(Debug)]
pub struct GrowthBook {
    pub features: Vec<(String, GrowthBookFeature)>,
    pub forced_variations: Option<Vec<(String, i64)>>,
    pub attributes: Option<Vec<GrowthBookAttribute>>,
    pub sticky_bucket_service: Option<InMemoryStickyBucketService>,
}

/// The model of one fetched response: the feature models under
/// their names, and the forced variations.
pub open spec fn spec_response_view(r: GrowthBookResponse) -> (
    Seq<(Seq<char>, crate::dto::FeatureView)>,
    Option<Seq<(Seq<char>, int)>>,
) {
    (spec_features_view(r.features@), spec_forced_view(r.forced_variations))
}

/// The attribute document an evaluation reads: the caller's
/// attributes when given, else the snapshot's own, else none.
pub open spec fn spec_check_doc(gb: GrowthBook, ua: Option<Vec<GrowthBookAttribute>>) -> Seq<
    (Seq<char>, JsonVal),
> {
    match ua {
        Some(a) => spec_attrs_view(a@),
        None => match gb.attributes {
            Some(a) => spec_attrs_view(a@),
            None => Seq::empty(),
        },
    }
}

/// What evaluating a feature against a snapshot yields, and the
/// sticky store it leaves behind: the unknown-feature result for a
/// name the snapshot does not know, else the evaluation of the first
/// feature stored under the name.
pub open spec fn spec_gb_check(
    gb: GrowthBook,
    name: Seq<char>,
    ua: Option<Vec<GrowthBookAttribute>>,
) -> (FeatureResultView, Option<StickyModel>) {
    let fsv = spec_features_view(gb.features@);
    let m0 = spec_sticky_model::<InMemoryStickyBucketService>(gb.sticky_bucket_service);
    match spec_feature_lookup(fsv, name) {
        Some(f) => spec_eval_feature(
            f,
            name,
            Seq::empty(),
            spec_check_doc(gb, ua),
            spec_forced_view(gb.forced_variations),
            fsv,
            m0,
            fsv.len(),
        ),
        None => (spec_result_of(JsonVal::Null, FeatureSource::UnknownFeature), m0),
    }
}

impl GrowthBook {
    /// Evaluates a feature for a user: the given attributes, or the
    /// snapshot's own when none are given. The result and the new
    /// sticky store are exactly what the evaluation model says, and
    /// everything else in the snapshot is untouched.
    #[verifier::rlimit(60)]
    #[verifier::spinoff_prover]
    pub fn check(&mut self, feature_name: &str, user_attributes: &Option<Vec<GrowthBookAttribute>>)
        -> (r: FeatureResult)
        ensures
            ({
                let out = spec_gb_check(*old(self), feature_name@, *user_attributes);
                &&& r@ == out.0
                &&& spec_sticky_model::<InMemoryStickyBucketService>(
                    final(self).sticky_bucket_service,
                ) == out.1
            }),
            spec_result_wf(r@),
            final(self).features == old(self).features,
            final(self).forced_variations == old(self).forced_variations,
            final(self).attributes == old(self).attributes,
    {
        let empty_attrs: Vec<GrowthBookAttribute> = Vec::new();
        let attrs: &Vec<GrowthBookAttribute> = match user_attributes {
            Some(a) => a,
            None => match &self.attributes {
                Some(a) => a,
                None => &empty_attrs,
            },
        };
        let stack: Vec<String> = Vec::new();
        proof {
            assert(crate::feature::use_case::spec_stack_view(stack@) =~= Seq::<Seq<char>>::empty());
            assert(spec_attrs_view(empty_attrs@) =~= Seq::<(Seq<char>, JsonVal)>::empty());
            assert(spec_features_view(self.features@).len() == self.features@.len());
        }
        match find_feature(&self.features, feature_name) {
            Some(feature) => feature.get_value(
                feature_name,
                &stack,
                attrs,
                &self.forced_variations,
                &self.features,
                &mut self.sticky_bucket_service,
            ),
            None => FeatureResult::unknown_feature(),
        }
    }

    /// How many features the snapshot holds.
    pub fn count(&self) -> (r: usize)
        ensures
            r == self.features@.len(),
    {
        self.features.len()
    }
}

} // verus!
