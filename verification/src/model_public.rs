use vstd::prelude::*;

verus! {

use crate::json::{JsonValue, JsonVal, spec_obj_lookup, spec_falsy};
use crate::text::str_eq;
use crate::dto::{GrowthBookFeatureRuleExperiment, ExperimentView};

/// One user attribute: a name bound to a JSON value.
#[derive(Debug)]
pub struct GrowthBookAttribute {
    pub name: String,
    pub value: JsonValue,
}

/// The model of an attribute list: named values in order, the first
/// binding of a name the one that counts.
pub open spec fn spec_attrs_view(attrs: Seq<GrowthBookAttribute>) -> Seq<(Seq<char>, JsonVal)> {
    Seq::new(attrs.len(), |i: int| (attrs[i].name@, attrs[i].value@))
}

impl GrowthBookAttribute {
    /// An attribute with the given name and value.
    pub fn new(name: String, value: JsonValue) -> (r: GrowthBookAttribute)
        ensures
            r.name == name,
            r.value == value,
    {
        GrowthBookAttribute { name, value }
    }

    /// A copy of the attribute with the same model.
    pub fn deep_clone(&self) -> (r: GrowthBookAttribute)
        ensures
            r.name@ == self.name@,
            r.value@ == self.value@,
    {
        GrowthBookAttribute { name: self.name.clone(), value: self.value.deep_clone() }
    }
}

/// The first value bound to `name` in an attribute list, if any.
#[verifier::loop_isolation(false)]
pub fn find_value<'a>(attrs: &'a Vec<GrowthBookAttribute>, name: &str) -> (r: Option<
    &'a JsonValue,
>)
    ensures
        match spec_obj_lookup(spec_attrs_view(attrs@), name@) {
            Some(v) => r is Some && r->Some_0@ == v,
            None => r is None,
        },
{
    let ghost model = spec_attrs_view(attrs@);
    proof {
        assert(model.skip(0) =~= model);
    }
    let mut i: usize = 0;
    while i < attrs.len()
        invariant
            i <= attrs@.len(),
            model.len() == attrs@.len(),
            spec_obj_lookup(model, name@) == spec_obj_lookup(model.skip(i as int), name@),
        decreases attrs@.len() - i,
    {
        proof {
            assert(model.skip(i as int)[0] == model[i as int]);
            assert(model.skip(i as int).skip(1) =~= model.skip(i as int + 1));
        }
        if str_eq(attrs[i].name.as_str(), name) {
            return Some(&attrs[i].value);
        }
        i += 1;
    }
    proof {
        assert(model.skip(attrs@.len() as int) =~= Seq::<(Seq<char>, JsonVal)>::empty());
    }
    None
}

/// Where a feature result came from.
#[derive(Clone, Copy, PartialEq, Eq, Structural, Debug)]
pub enum FeatureSource {
    UnknownFeature,
    DefaultValue,
    Force,
    Experiment,
    Prerequisite,
    CyclicPrerequisite,
}

/// The wire name of a result source.
pub open spec fn spec_source_str(s: FeatureSource) -> Seq<char> {
    match s {
        FeatureSource::UnknownFeature => "unknownFeature"@,
        FeatureSource::DefaultValue => "defaultValue"@,
        FeatureSource::Force => "force"@,
        FeatureSource::Experiment => "experiment"@,
        FeatureSource::Prerequisite => "prerequisite"@,
        FeatureSource::CyclicPrerequisite => "cyclicPrerequisite"@,
    }
}

impl FeatureSource {
    /// The wire name of this source.
    pub fn as_str(&self) -> (r: &'static str)
        ensures
            r@ == spec_source_str(*self),
    {
        match self {
            FeatureSource::UnknownFeature => "unknownFeature",
            FeatureSource::DefaultValue => "defaultValue",
            FeatureSource::Force => "force",
            FeatureSource::Experiment => "experiment",
            FeatureSource::Prerequisite => "prerequisite",
            FeatureSource::CyclicPrerequisite => "cyclicPrerequisite",
        }
    }
}

/// What one experiment evaluation decided for one user.
#[derive(Debug)]
pub struct ExperimentResult {
    pub feature_id: String,
    pub value: JsonValue,
    pub variation_id: i64,
    pub in_experiment: bool,
    pub hash_used: bool,
    pub hash_attribute: Option<String>,
    pub hash_value: Option<JsonValue>,
    pub bucket: Option<u32>,
    pub key: String,
    pub sticky_bucket_used: bool,
}

/// The model of an experiment result. The bucket is in millionths.
pub struct ExperimentResultView {
    pub feature_id: Seq<char>,
    pub value: JsonVal,
    pub variation_id: int,
    pub in_experiment: bool,
    pub hash_used: bool,
    pub hash_attribute: Option<Seq<char>>,
    pub hash_value: Option<JsonVal>,
    pub bucket: Option<int>,
    pub key: Seq<char>,
    pub sticky_bucket_used: bool,
}

impl View for ExperimentResult {
    type V = ExperimentResultView;

    open spec fn view(&self) -> ExperimentResultView {
        ExperimentResultView {
            feature_id: self.feature_id@,
            value: self.value@,
            variation_id: self.variation_id as int,
            in_experiment: self.in_experiment,
            hash_used: self.hash_used,
            hash_attribute: crate::dto::spec_opt_str(self.hash_attribute),
            hash_value: crate::dto::spec_opt_json(self.hash_value),
            bucket: match self.bucket {
                Some(b) => Some(b as int),
                None => None,
            },
            key: self.key@,
            sticky_bucket_used: self.sticky_bucket_used,
        }
    }
}


impl ExperimentResult {
    /// A copy of the result with the same model.
    pub fn deep_clone(&self) -> (r: ExperimentResult)
        ensures
            r@ == self@,
    {
        ExperimentResult {
            feature_id: self.feature_id.clone(),
            value: self.value.deep_clone(),
            variation_id: self.variation_id,
            in_experiment: self.in_experiment,
            hash_used: self.hash_used,
            hash_attribute: match &self.hash_attribute {
                Some(s) => Some(s.clone()),
                None => None,
            },
            hash_value: match &self.hash_value {
                Some(v) => Some(v.deep_clone()),
                None => None,
            },
            bucket: self.bucket,
            key: self.key.clone(),
            sticky_bucket_used: self.sticky_bucket_used,
        }
    }
}

/// What a feature evaluated to, why, and through which experiment.
#[derive(Debug)]
pub struct FeatureResult {
    pub value: JsonValue,
    pub on: bool,
    pub off: bool,
    pub source: FeatureSource,
    pub experiment: Option<GrowthBookFeatureRuleExperiment>,
    pub experiment_result: Option<ExperimentResult>,
}

/// The model of a feature result.
pub struct FeatureResultView {
    pub value: JsonVal,
    pub on: bool,
    pub off: bool,
    pub source: FeatureSource,
    pub experiment: Option<ExperimentView>,
    pub experiment_result: Option<ExperimentResultView>,
}

impl View for FeatureResult {
    type V = FeatureResultView;

    open spec fn view(&self) -> FeatureResultView {
        FeatureResultView {
            value: self.value@,
            on: self.on,
            off: self.off,
            source: self.source,
            experiment: match self.experiment {
                Some(e) => Some(e@),
                None => None,
            },
            experiment_result: match self.experiment_result {
                Some(e) => Some(e@),
                None => None,
            },
        }
    }
}

/// A result is well formed when it is on exactly for a truthy value
/// and off exactly when it is not on.
pub open spec fn spec_result_wf(r: FeatureResultView) -> bool {
    r.on == !spec_falsy(r.value) && r.off == !r.on
}

/// Law: of every well-formed feature result, `on` and `off` are
/// opposites, and the result is off exactly when its value is null,
/// false, zero or the empty string.
pub proof fn lemma_result_on_off(r: FeatureResultView)
    requires
        spec_result_wf(r),
    ensures
        r.on == !r.off,
        !r.on <==> spec_falsy(r.value),
{
}

/// The result a plain value produces from the given source, with no
/// experiment attached.
pub open spec fn spec_result_of(value: JsonVal, source: FeatureSource) -> FeatureResultView {
    FeatureResultView {
        value,
        on: !spec_falsy(value),
        off: spec_falsy(value),
        source,
        experiment: None,
        experiment_result: None,
    }
}

impl FeatureResult {
    /// The result for a feature the snapshot does not know.
    pub fn unknown_feature() -> (r: FeatureResult)
        ensures
            r@ == spec_result_of(JsonVal::Null, FeatureSource::UnknownFeature),
            spec_result_wf(r@),
    {
        FeatureResult::of_value(JsonValue::Null, FeatureSource::UnknownFeature)
    }

    /// The result for a feature whose prerequisite chain reaches itself.
    pub fn cyclic_prerequisite() -> (r: FeatureResult)
        ensures
            r@ == spec_result_of(JsonVal::Null, FeatureSource::CyclicPrerequisite),
            spec_result_wf(r@),
    {
        FeatureResult::of_value(JsonValue::Null, FeatureSource::CyclicPrerequisite)
    }

    /// The result for a feature held back by an unmet prerequisite.
    pub fn prerequisite() -> (r: FeatureResult)
        ensures
            r@ == spec_result_of(JsonVal::Null, FeatureSource::Prerequisite),
            spec_result_wf(r@),
    {
        FeatureResult::of_value(JsonValue::Null, FeatureSource::Prerequisite)
    }

    /// The result a feature's default value produces; a feature
    /// without one yields null.
    pub fn from_default_value(default_value: Option<JsonValue>) -> (r: FeatureResult)
        ensures
            r@ == spec_result_of(
                match default_value {
                    Some(v) => v@,
                    None => JsonVal::Null,
                },
                FeatureSource::DefaultValue,
            ),
            spec_result_wf(r@),
    {
        match default_value {
            Some(v) => FeatureResult::of_value(v, FeatureSource::DefaultValue),
            None => FeatureResult::of_value(JsonValue::Null, FeatureSource::DefaultValue),
        }
    }

    /// The result a matched force rule produces.
    pub fn force(value: JsonValue) -> (r: FeatureResult)
        ensures
            r@ == spec_result_of(value@, FeatureSource::Force),
            spec_result_wf(r@),
    {
        FeatureResult::of_value(value, FeatureSource::Force)
    }

    /// A result carrying a value and its source.
    fn of_value(value: JsonValue, source: FeatureSource) -> (r: FeatureResult)
        ensures
            r@ == spec_result_of(value@, source),
            spec_result_wf(r@),
    {
        proof {
            crate::json::lemma_view_shape(&value);
        }
        let falsy = value.is_falsy();
        FeatureResult {
            value,
            on: !falsy,
            off: falsy,
            source,
            experiment: None,
            experiment_result: None,
        }
    }

    /// The result a matched experiment produces, carrying the
    /// experiment and what it decided.
    pub fn experiment(
        value: JsonValue,
        experiment: GrowthBookFeatureRuleExperiment,
        experiment_result: ExperimentResult,
    ) -> (r: FeatureResult)
        ensures
            r@ == (FeatureResultView {
                value: value@,
                on: !spec_falsy(value@),
                off: spec_falsy(value@),
                source: FeatureSource::Experiment,
                experiment: Some(experiment@),
                experiment_result: Some(experiment_result@),
            }),
            spec_result_wf(r@),
    {
        let falsy = value.is_falsy();
        FeatureResult {
            value,
            on: !falsy,
            off: falsy,
            source: FeatureSource::Experiment,
            experiment: Some(experiment),
            experiment_result: Some(experiment_result),
        }
    }


    /// A copy of the result with the same model.
    pub fn deep_clone(&self) -> (r: FeatureResult)
        ensures
            r@ == self@,
    {
        FeatureResult {
            value: self.value.deep_clone(),
            on: self.on,
            off: self.off,
            source: self.source,
            experiment: match &self.experiment {
                Some(e) => Some(e.model_experiment()),
                None => None,
            },
            experiment_result: match &self.experiment_result {
                Some(e) => Some(e.deep_clone()),
                None => None,
            },
        }
    }

    /// The synthetic document `{value, on, off}` that a prerequisite
    /// condition is checked against.
    pub fn to_parent_doc(&self) -> (r: JsonValue)
        ensures
            r@ == JsonVal::Obj(
                seq![
                    ("value"@, self.value@),
                    ("on"@, JsonVal::Bool(self.on)),
                    ("off"@, JsonVal::Bool(self.off)),
                ],
            ),
    {
        let mut fields: Vec<(String, JsonValue)> = Vec::new();
        fields.push((String::from_str("value"), self.value.deep_clone()));
        fields.push((String::from_str("on"), JsonValue::Bool(self.on)));
        fields.push((String::from_str("off"), JsonValue::Bool(self.off)));
        let r = JsonValue::Obj(fields);
        proof {
            crate::json::lemma_obj_view(&r);
            assert(r@->Obj_0 =~= seq![
                ("value"@, self.value@),
                ("on"@, JsonVal::Bool(self.on)),
                ("off"@, JsonVal::Bool(self.off)),
            ]);
        }
        r
    }
}

} // verus!
