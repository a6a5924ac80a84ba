use vstd::prelude::*;

verus! {

broadcast use vstd::std_specs::vec::axiom_vec_index_decreases;

use crate::json::{JsonValue, JsonVal, spec_obj_lookup, lemma_view_shape, lemma_arr_view};
use crate::range::Range;

/// A force or rollout rule: an optional condition, an optional user
/// gate made of coverage or an explicit range, and the value it
/// forces. All fractions are in millionths.
#[derive(Debug)]
pub struct GrowthBookFeatureRuleForce {
    pub condition: Option<JsonValue>,
    pub coverage: Option<i64>,
    pub range: Option<Range>,
    pub hash_attribute: Option<String>,
    pub fallback_attribute: Option<String>,
    pub hash_version: Option<i64>,
    pub seed: Option<String>,
    pub force: JsonValue,
}

/// The model of a force rule.
pub struct ForceView {
    pub condition: Option<JsonVal>,
    pub coverage: Option<int>,
    pub range: Option<Range>,
    pub hash_attribute: Option<Seq<char>>,
    pub fallback_attribute: Option<Seq<char>>,
    pub hash_version: Option<int>,
    pub seed: Option<Seq<char>>,
    pub force: JsonVal,
}

/// The model of an optional string.
pub open spec fn spec_opt_str(s: Option<String>) -> Option<Seq<char>> {
    match s {
        Some(x) => Some(x@),
        None => None,
    }
}

/// The model of an optional machine integer.
pub open spec fn spec_opt_int(s: Option<i64>) -> Option<int> {
    match s {
        Some(x) => Some(x as int),
        None => None,
    }
}

/// The model of an optional JSON value.
pub open spec fn spec_opt_json(s: Option<JsonValue>) -> Option<JsonVal> {
    match s {
        Some(x) => Some(x@),
        None => None,
    }
}

impl View for GrowthBookFeatureRuleForce {
    type V = ForceView;

    open spec fn view(&self) -> ForceView {
        ForceView {
            condition: spec_opt_json(self.condition),
            coverage: spec_opt_int(self.coverage),
            range: self.range,
            hash_attribute: spec_opt_str(self.hash_attribute),
            fallback_attribute: spec_opt_str(self.fallback_attribute),
            hash_version: spec_opt_int(self.hash_version),
            seed: spec_opt_str(self.seed),
            force: self.force@,
        }
    }
}

/// One entry of an experiment's variation metadata.
#[derive(Debug)]
pub struct GrowthBookExperimentMeta {
    pub key: Option<String>,
    pub passthrough: Option<bool>,
}

/// The model of a variation metadata entry.
pub struct MetaView {
    pub key: Option<Seq<char>>,
    pub passthrough: Option<bool>,
}

impl View for GrowthBookExperimentMeta {
    type V = MetaView;

    open spec fn view(&self) -> MetaView {
        MetaView { key: spec_opt_str(self.key), passthrough: self.passthrough }
    }
}

/// An experiment rule: ordered variations with parallel weight,
/// range and metadata lists, hashing directions, an optional
/// namespace gate, and the sticky-bucket knobs.
#[derive(Debug)]
pub struct GrowthBookFeatureRuleExperiment {
    pub key: Option<String>,
    pub variations: Vec<JsonValue>,
    pub weights: Option<Vec<i64>>,
    pub ranges: Option<Vec<Range>>,
    pub meta: Option<Vec<GrowthBookExperimentMeta>>,
    pub coverage: Option<i64>,
    pub namespace: Option<GrowthBookNamespace>,
    pub hash_attribute: Option<String>,
    pub fallback_attribute: Option<String>,
    pub hash_version: Option<i64>,
    pub seed: Option<String>,
    pub bucket_version: Option<i64>,
    pub min_bucket_version: Option<i64>,
    pub disable_sticky_bucketing: Option<bool>,
}

/// A namespace gate: an identifier and the bucket range it admits.
#[derive(Debug)]
pub struct GrowthBookNamespace {
    pub id: String,
    pub range: Range,
}

/// The model of an experiment rule.
pub struct ExperimentView {
    pub key: Option<Seq<char>>,
    pub variations: Seq<JsonVal>,
    pub weights: Option<Seq<int>>,
    pub ranges: Option<Seq<Range>>,
    pub meta: Option<Seq<MetaView>>,
    pub coverage: Option<int>,
    pub namespace: Option<(Seq<char>, Range)>,
    pub hash_attribute: Option<Seq<char>>,
    pub fallback_attribute: Option<Seq<char>>,
    pub hash_version: Option<int>,
    pub seed: Option<Seq<char>>,
    pub bucket_version: Option<int>,
    pub min_bucket_version: Option<int>,
    pub disable_sticky_bucketing: Option<bool>,
}

/// The model of an optional weight list.
pub open spec fn spec_opt_weights(ws: Option<Vec<i64>>) -> Option<Seq<int>> {
    match ws {
        Some(v) => Some(Seq::new(v@.len(), |i: int| v@[i] as int)),
        None => None,
    }
}

/// The model of an optional range list.
pub open spec fn spec_opt_ranges(rs: Option<Vec<Range>>) -> Option<Seq<Range>> {
    match rs {
        Some(v) => Some(v@),
        None => None,
    }
}

/// The model of an optional metadata list.
pub open spec fn spec_opt_meta(ms: Option<Vec<GrowthBookExperimentMeta>>) -> Option<Seq<MetaView>> {
    match ms {
        Some(v) => Some(Seq::new(v@.len(), |i: int| v@[i]@)),
        None => None,
    }
}

impl View for GrowthBookFeatureRuleExperiment {
    type V = ExperimentView;

    open spec fn view(&self) -> ExperimentView {
        ExperimentView {
            key: spec_opt_str(self.key),
            variations: Seq::new(self.variations@.len(), |i: int| self.variations@[i]@),
            weights: spec_opt_weights(self.weights),
            ranges: spec_opt_ranges(self.ranges),
            meta: spec_opt_meta(self.meta),
            coverage: spec_opt_int(self.coverage),
            namespace: match self.namespace {
                Some(ns) => Some((ns.id@, ns.range)),
                None => None,
            },
            hash_attribute: spec_opt_str(self.hash_attribute),
            fallback_attribute: spec_opt_str(self.fallback_attribute),
            hash_version: spec_opt_int(self.hash_version),
            seed: spec_opt_str(self.seed),
            bucket_version: spec_opt_int(self.bucket_version),
            min_bucket_version: spec_opt_int(self.min_bucket_version),
            disable_sticky_bucketing: self.disable_sticky_bucketing,
        }
    }
}

/// One prerequisite: the feature it depends on and the condition its
/// evaluated result must satisfy.
#[derive(Debug)]
pub struct GrowthBookParentCondition {
    pub id: String,
    pub condition: JsonValue,
}

/// The model of one prerequisite.
pub struct ParentView {
    pub id: Seq<char>,
    pub condition: JsonVal,
}

impl View for GrowthBookParentCondition {
    type V = ParentView;

    open spec fn view(&self) -> ParentView {
        ParentView { id: self.id@, condition: self.condition@ }
    }
}

/// A prerequisite rule: the prerequisites that must all be met before
/// later rules are tried.
#[derive(Debug)]
pub struct GrowthBookFeatureRuleParent {
    pub parent_conditions: Vec<GrowthBookParentCondition>,
}

impl View for GrowthBookFeatureRuleParent {
    type V = Seq<ParentView>;

    open spec fn view(&self) -> Seq<ParentView> {
        Seq::new(self.parent_conditions@.len(), |i: int| self.parent_conditions@[i]@)
    }
}

/// One rule of a feature: force, rollout (a gated force), experiment,
/// prerequisite, or a shape the engine does not know and must skip.
#[derive(Debug)]
pub enum GrowthBookFeatureRule {
    Force(GrowthBookFeatureRuleForce),
    Rollout(GrowthBookFeatureRuleForce),
    Experiment(GrowthBookFeatureRuleExperiment),
    Parent(GrowthBookFeatureRuleParent),
    Empty,
}

/// The model of a rule.
pub enum RuleView {
    Force(ForceView),
    Rollout(ForceView),
    Experiment(ExperimentView),
    Parent(Seq<ParentView>),
    Empty,
}

impl View for GrowthBookFeatureRule {
    type V = RuleView;

    open spec fn view(&self) -> RuleView {
        match self {
            GrowthBookFeatureRule::Force(f) => RuleView::Force(f@),
            GrowthBookFeatureRule::Rollout(f) => RuleView::Rollout(f@),
            GrowthBookFeatureRule::Experiment(e) => RuleView::Experiment(e@),
            GrowthBookFeatureRule::Parent(p) => RuleView::Parent(p@),
            GrowthBookFeatureRule::Empty => RuleView::Empty,
        }
    }
}

/// A feature: a default value and the ordered rules tried before it.
#[derive(Debug)]
pub struct GrowthBookFeature {
    pub default_value: Option<JsonValue>,
    pub rules: Option<Vec<GrowthBookFeatureRule>>,
}

/// The model of a feature.
pub struct FeatureView {
    pub default_value: Option<JsonVal>,
    pub rules: Option<Seq<RuleView>>,
}

impl View for GrowthBookFeature {
    type V = FeatureView;

    open spec fn view(&self) -> FeatureView {
        FeatureView {
            default_value: spec_opt_json(self.default_value),
            rules: match self.rules {
                Some(rs) => Some(Seq::new(rs@.len(), |i: int| rs@[i]@)),
                None => None,
            },
        }
    }
}

/// The value of a named field of a JSON object; nothing on any other
/// shape.
pub open spec fn spec_get(v: JsonVal, name: Seq<char>) -> Option<JsonVal> {
    match v {
        JsonVal::Obj(fs) => spec_obj_lookup(fs, name),
        _ => None,
    }
}

/// A string field's characters.
pub open spec fn spec_as_str(o: Option<JsonVal>) -> Option<Seq<char>> {
    match o {
        Some(JsonVal::Str(s)) => Some(s),
        _ => None,
    }
}

/// A numeric field in millionths.
pub open spec fn spec_as_micros(o: Option<JsonVal>) -> Option<int> {
    match o {
        Some(JsonVal::Num(m)) => Some(m),
        _ => None,
    }
}

/// A numeric field read as a whole number, its fraction dropped.
pub open spec fn spec_as_whole(o: Option<JsonVal>) -> Option<int> {
    match o {
        Some(JsonVal::Num(m)) => Some(
            if m >= 0 {
                m / 1000000
            } else {
                -((-m) / 1000000)
            },
        ),
        _ => None,
    }
}

/// A boolean field.
pub open spec fn spec_as_bool(o: Option<JsonVal>) -> Option<bool> {
    match o {
        Some(JsonVal::Bool(b)) => Some(b),
        _ => None,
    }
}

/// A two-number array read as a bucket range.
pub open spec fn spec_as_range(o: Option<JsonVal>) -> Option<Range> {
    match o {
        Some(JsonVal::Arr(items)) => if items.len() >= 2 {
            match (items[0], items[1]) {
                (JsonVal::Num(s), JsonVal::Num(e)) => Some(
                    Range { start: s as i64, end: e as i64 },
                ),
                _ => None,
            }
        } else {
            None
        },
        _ => None,
    }
}

/// An array of two-number arrays read as bucket ranges; nothing
/// unless every element is one.
pub open spec fn spec_as_ranges(o: Option<JsonVal>) -> Option<Seq<Range>> {
    match o {
        Some(JsonVal::Arr(items)) => if forall|i: int|
            0 <= i < items.len() ==> spec_as_range(Some(#[trigger] items[i])) is Some {
            Some(Seq::new(items.len(), |i: int| spec_as_range(Some(items[i]))->Some_0))
        } else {
            None
        },
        _ => None,
    }
}

/// An array of numbers read as weights in millionths; nothing unless
/// every element is a number.
pub open spec fn spec_as_weights(o: Option<JsonVal>) -> Option<Seq<int>> {
    match o {
        Some(JsonVal::Arr(items)) => if forall|i: int|
            0 <= i < items.len() ==> #[trigger] items[i] is Num {
            Some(Seq::new(items.len(), |i: int| items[i]->Num_0))
        } else {
            None
        },
        _ => None,
    }
}

/// One metadata entry: its optional key and passthrough flag.
pub open spec fn spec_meta_of(v: JsonVal) -> MetaView {
    MetaView {
        key: spec_as_str(spec_get(v, "key"@)),
        passthrough: spec_as_bool(spec_get(v, "passthrough"@)),
    }
}

/// An array read as variation metadata.
pub open spec fn spec_as_meta(o: Option<JsonVal>) -> Option<Seq<MetaView>> {
    match o {
        Some(JsonVal::Arr(items)) => Some(Seq::new(items.len(), |i: int| spec_meta_of(items[i]))),
        _ => None,
    }
}

/// An array `[id, start, end]` read as a namespace gate.
pub open spec fn spec_as_namespace(o: Option<JsonVal>) -> Option<(Seq<char>, Range)> {
    match o {
        Some(JsonVal::Arr(items)) => if items.len() >= 3 {
            match (items[0], items[1], items[2]) {
                (JsonVal::Str(id), JsonVal::Num(s), JsonVal::Num(e)) => Some(
                    (id, Range { start: s as i64, end: e as i64 }),
                ),
                _ => None,
            }
        } else {
            None
        },
        _ => None,
    }
}

/// A force rule as read from its JSON shape.
pub open spec fn spec_parse_force(v: JsonVal) -> ForceView {
    ForceView {
        condition: spec_get(v, "condition"@),
        coverage: spec_as_micros(spec_get(v, "coverage"@)),
        range: spec_as_range(spec_get(v, "range"@)),
        hash_attribute: spec_as_str(spec_get(v, "hashAttribute"@)),
        fallback_attribute: spec_as_str(spec_get(v, "fallbackAttribute"@)),
        hash_version: spec_as_whole(spec_get(v, "hashVersion"@)),
        seed: spec_as_str(spec_get(v, "seed"@)),
        force: match spec_get(v, "force"@) {
            Some(x) => x,
            None => JsonVal::Null,
        },
    }
}

/// An experiment rule as read from its JSON shape.
pub open spec fn spec_parse_experiment(v: JsonVal) -> ExperimentView {
    ExperimentView {
        key: spec_as_str(spec_get(v, "key"@)),
        variations: match spec_get(v, "variations"@) {
            Some(JsonVal::Arr(items)) => items,
            _ => Seq::empty(),
        },
        weights: spec_as_weights(spec_get(v, "weights"@)),
        ranges: spec_as_ranges(spec_get(v, "ranges"@)),
        meta: spec_as_meta(spec_get(v, "meta"@)),
        coverage: spec_as_micros(spec_get(v, "coverage"@)),
        namespace: spec_as_namespace(spec_get(v, "namespace"@)),
        hash_attribute: spec_as_str(spec_get(v, "hashAttribute"@)),
        fallback_attribute: spec_as_str(spec_get(v, "fallbackAttribute"@)),
        hash_version: spec_as_whole(spec_get(v, "hashVersion"@)),
        seed: spec_as_str(spec_get(v, "seed"@)),
        bucket_version: spec_as_whole(spec_get(v, "bucketVersion"@)),
        min_bucket_version: spec_as_whole(spec_get(v, "minBucketVersion"@)),
        disable_sticky_bucketing: spec_as_bool(spec_get(v, "disableStickyBucketing"@)),
    }
}

/// The prerequisites listed in a `parentConditions` array; an entry
/// without a string id is dropped, and a missing condition is null.
pub open spec fn spec_parents_of(items: Seq<JsonVal>) -> Seq<ParentView>
    decreases items.len(),
{
    if items.len() == 0 {
        Seq::empty()
    } else {
        let head: Seq<ParentView> = match spec_as_str(spec_get(items[0], "id"@)) {
            Some(id) => seq![
                ParentView {
                    id,
                    condition: match spec_get(items[0], "condition"@) {
                        Some(c) => c,
                        None => JsonVal::Null,
                    },
                },
            ],
            None => Seq::empty(),
        };
        head + spec_parents_of(items.skip(1))
    }
}

/// A rule as read from its JSON shape: `force` makes it a force rule,
/// gated by coverage or a range a rollout; `variations` an
/// experiment; `parentConditions` a prerequisite; anything else is a
/// shape the engine skips.
pub open spec fn spec_parse_rule(v: JsonVal) -> RuleView {
    if spec_get(v, "force"@) is Some {
        if spec_get(v, "coverage"@) is Some || spec_get(v, "range"@) is Some {
            RuleView::Rollout(spec_parse_force(v))
        } else {
            RuleView::Force(spec_parse_force(v))
        }
    } else {
        match spec_get(v, "variations"@) {
            Some(JsonVal::Arr(_)) => RuleView::Experiment(spec_parse_experiment(v)),
            _ => match spec_get(v, "parentConditions"@) {
                Some(JsonVal::Arr(items)) => RuleView::Parent(spec_parents_of(items)),
                _ => RuleView::Empty,
            },
        }
    }
}

/// A feature as read from its JSON shape.
pub open spec fn spec_parse_feature(v: JsonVal) -> FeatureView {
    FeatureView {
        default_value: spec_get(v, "defaultValue"@),
        rules: match spec_get(v, "rules"@) {
            Some(JsonVal::Arr(items)) => Some(
                Seq::new(items.len(), |i: int| spec_parse_rule(items[i])),
            ),
            _ => None,
        },
    }
}

use crate::condition::spec_opt_view;

/// The value of a named field of any JSON value.
fn j_get<'a>(v: &'a JsonValue, name: &str) -> (r: Option<&'a JsonValue>)
    ensures
        match spec_get(v@, name@) {
            Some(x) => r is Some && r->Some_0@ == x,
            None => r is None,
        },
{
    v.get_field(name)
}

/// A string field, copied out.
fn j_str(o: Option<&JsonValue>) -> (r: Option<String>)
    ensures
        spec_opt_str(r) == spec_as_str(spec_opt_view(o)),
{
    match o {
        Some(JsonValue::Str(s)) => {
            proof {
                lemma_view_shape(o->Some_0);
            }
            Some(s.clone())
        },
        Some(v) => {
            proof {
                lemma_view_shape(o->Some_0);
            }
            None
        },
        None => None,
    }
}

/// A JSON field, deep-copied out.
fn j_json(o: Option<&JsonValue>) -> (r: Option<JsonValue>)
    ensures
        spec_opt_json(r) == spec_opt_view(o),
{
    match o {
        Some(v) => Some(v.deep_clone()),
        None => None,
    }
}

/// A numeric field in millionths.
fn j_micros(o: Option<&JsonValue>) -> (r: Option<i64>)
    ensures
        spec_opt_int(r) == spec_as_micros(spec_opt_view(o)),
{
    match o {
        Some(JsonValue::Num(m)) => {
            proof {
                lemma_view_shape(o->Some_0);
            }
            Some(*m)
        },
        Some(v) => {
            proof {
                lemma_view_shape(o->Some_0);
            }
            None
        },
        None => None,
    }
}

/// A numeric field read as a whole number, its fraction dropped.
fn j_whole(o: Option<&JsonValue>) -> (r: Option<i64>)
    ensures
        spec_opt_int(r) == spec_as_whole(spec_opt_view(o)),
{
    match o {
        Some(JsonValue::Num(m)) => {
            proof {
                lemma_view_shape(o->Some_0);
            }
            if *m >= 0 {
                Some(*m / 1000000)
            } else if *m == i64::MIN {
                proof {
                    assert(-(-9223372036854775808int) / 1000000 == 9223372036854int);
                }
                Some(-9223372036854i64)
            } else {
                Some(-((-*m) / 1000000))
            }
        },
        Some(v) => {
            proof {
                lemma_view_shape(o->Some_0);
            }
            None
        },
        None => None,
    }
}

/// A boolean field.
fn j_bool(o: Option<&JsonValue>) -> (r: Option<bool>)
    ensures
        r == spec_as_bool(spec_opt_view(o)),
{
    match o {
        Some(JsonValue::Bool(b)) => {
            proof {
                lemma_view_shape(o->Some_0);
            }
            Some(*b)
        },
        Some(v) => {
            proof {
                lemma_view_shape(o->Some_0);
            }
            None
        },
        None => None,
    }
}

/// A two-number array read as a bucket range.
fn range_of(v: &JsonValue) -> (r: Option<Range>)
    ensures
        r == spec_as_range(Some(v@)),
{
    proof {
        lemma_view_shape(v);
    }
    match v {
        JsonValue::Arr(items) => {
            proof {
                lemma_arr_view(v);
            }
            if items.len() >= 2 {
                proof {
                    lemma_view_shape(&items[0]);
                    lemma_view_shape(&items[1]);
                }
                match (&items[0], &items[1]) {
                    (JsonValue::Num(s), JsonValue::Num(e)) => Some(Range { start: *s, end: *e }),
                    _ => None,
                }
            } else {
                None
            }
        },
        _ => None,
    }
}

/// A range field.
fn j_range(o: Option<&JsonValue>) -> (r: Option<Range>)
    ensures
        r == spec_as_range(spec_opt_view(o)),
{
    match o {
        Some(v) => range_of(v),
        None => None,
    }
}

/// A field read as a list of bucket ranges, whole or not at all.
#[verifier::loop_isolation(false)]
fn j_ranges(o: Option<&JsonValue>) -> (r: Option<Vec<Range>>)
    ensures
        spec_opt_ranges(r) == spec_as_ranges(spec_opt_view(o)),
{
    match o {
        Some(JsonValue::Arr(items)) => {
            proof {
                lemma_arr_view(o->Some_0);
            }
            let ghost sitems = o->Some_0@->Arr_0;
            let mut out: Vec<Range> = Vec::new();
            let mut i: usize = 0;
            while i < items.len()
                invariant
                    i <= items@.len(),
                    sitems.len() == items@.len(),
                    forall|k: int| 0 <= k < items@.len() ==> sitems[k] == items@[k]@,
                    out@.len() == i,
                    forall|k: int|
                        0 <= k < i ==> spec_as_range(Some(#[trigger] sitems[k])) == Some(out@[k]),
                decreases items@.len() - i,
            {
                match range_of(&items[i]) {
                    Some(rg) => {
                        out.push(rg);
                    },
                    None => {
                        proof {
                            assert(spec_as_range(Some(sitems[i as int])) is None);
                        }
                        return None;
                    },
                }
                i += 1;
            }
            proof {
                assert(out@ =~= Seq::new(
                    sitems.len(),
                    |i: int| spec_as_range(Some(sitems[i]))->Some_0,
                ));
            }
            Some(out)
        },
        Some(v) => {
            proof {
                lemma_view_shape(o->Some_0);
            }
            None
        },
        None => None,
    }
}

/// A field read as a list of weights in millionths, whole or not at all.
#[verifier::loop_isolation(false)]
fn j_weights(o: Option<&JsonValue>) -> (r: Option<Vec<i64>>)
    ensures
        spec_opt_weights(r) == spec_as_weights(spec_opt_view(o)),
{
    match o {
        Some(JsonValue::Arr(items)) => {
            proof {
                lemma_arr_view(o->Some_0);
            }
            let ghost sitems = o->Some_0@->Arr_0;
            let mut out: Vec<i64> = Vec::new();
            let mut i: usize = 0;
            while i < items.len()
                invariant
                    i <= items@.len(),
                    sitems.len() == items@.len(),
                    forall|k: int| 0 <= k < items@.len() ==> sitems[k] == items@[k]@,
                    out@.len() == i,
                    forall|k: int|
                        0 <= k < i ==> #[trigger] sitems[k] is Num && sitems[k]->Num_0 == out@[k]
                            as int,
                decreases items@.len() - i,
            {
                proof {
                    lemma_view_shape(&items@[i as int]);
                }
                match &items[i] {
                    JsonValue::Num(m) => {
                        out.push(*m);
                    },
                    _ => {
                        proof {
                            assert(!(sitems[i as int] is Num));
                        }
                        return None;
                    },
                }
                i += 1;
            }
            proof {
                assert(Seq::new(out@.len(), |i: int| out@[i] as int) =~= Seq::new(
                    sitems.len(),
                    |i: int| sitems[i]->Num_0,
                ));
            }
            Some(out)
        },
        Some(v) => {
            proof {
                lemma_view_shape(o->Some_0);
            }
            None
        },
        None => None,
    }
}

/// One metadata entry from its JSON shape.
fn meta_of(v: &JsonValue) -> (r: GrowthBookExperimentMeta)
    ensures
        r@ == spec_meta_of(v@),
{
    GrowthBookExperimentMeta {
        key: j_str(j_get(v, "key")),
        passthrough: j_bool(j_get(v, "passthrough")),
    }
}

/// A field read as variation metadata.
#[verifier::loop_isolation(false)]
fn j_meta(o: Option<&JsonValue>) -> (r: Option<Vec<GrowthBookExperimentMeta>>)
    ensures
        spec_opt_meta(r) == spec_as_meta(spec_opt_view(o)),
{
    match o {
        Some(JsonValue::Arr(items)) => {
            proof {
                lemma_arr_view(o->Some_0);
            }
            let ghost sitems = o->Some_0@->Arr_0;
            let mut out: Vec<GrowthBookExperimentMeta> = Vec::new();
            let mut i: usize = 0;
            while i < items.len()
                invariant
                    i <= items@.len(),
                    sitems.len() == items@.len(),
                    forall|k: int| 0 <= k < items@.len() ==> sitems[k] == items@[k]@,
                    out@.len() == i,
                    forall|k: int| 0 <= k < i ==> (#[trigger] out@[k])@ == spec_meta_of(sitems[k]),
                decreases items@.len() - i,
            {
                out.push(meta_of(&items[i]));
                i += 1;
            }
            proof {
                assert(Seq::new(out@.len(), |i: int| out@[i]@) =~= Seq::new(
                    sitems.len(),
                    |i: int| spec_meta_of(sitems[i]),
                ));
            }
            Some(out)
        },
        Some(v) => {
            proof {
                lemma_view_shape(o->Some_0);
            }
            None
        },
        None => None,
    }
}

/// A namespace field `[id, start, end]`.
fn j_namespace(o: Option<&JsonValue>) -> (r: Option<GrowthBookNamespace>)
    ensures
        match spec_as_namespace(spec_opt_view(o)) {
            Some((id, rg)) => r is Some && r->Some_0.id@ == id && r->Some_0.range == rg,
            None => r is None,
        },
{
    match o {
        Some(JsonValue::Arr(items)) => {
            proof {
                lemma_arr_view(o->Some_0);
            }
            if items.len() >= 3 {
                proof {
                    lemma_view_shape(&items[0]);
                    lemma_view_shape(&items[1]);
                    lemma_view_shape(&items[2]);
                }
                match (&items[0], &items[1], &items[2]) {
                    (JsonValue::Str(id), JsonValue::Num(s), JsonValue::Num(e)) => Some(
                        GrowthBookNamespace { id: id.clone(), range: Range { start: *s, end: *e } },
                    ),
                    _ => None,
                }
            } else {
                None
            }
        },
        Some(v) => {
            proof {
                lemma_view_shape(o->Some_0);
            }
            None
        },
        None => None,
    }
}

/// A force rule from its JSON shape.
pub fn parse_force(v: &JsonValue) -> (r: GrowthBookFeatureRuleForce)
    ensures
        r@ == spec_parse_force(v@),
{
    let force = match j_get(v, "force") {
        Some(f) => f.deep_clone(),
        None => JsonValue::Null,
    };
    proof {
        lemma_view_shape(&force);
    }
    GrowthBookFeatureRuleForce {
        condition: j_json(j_get(v, "condition")),
        coverage: j_micros(j_get(v, "coverage")),
        range: j_range(j_get(v, "range")),
        hash_attribute: j_str(j_get(v, "hashAttribute")),
        fallback_attribute: j_str(j_get(v, "fallbackAttribute")),
        hash_version: j_whole(j_get(v, "hashVersion")),
        seed: j_str(j_get(v, "seed")),
        force,
    }
}

/// An experiment rule from its JSON shape.
#[verifier::loop_isolation(false)]
pub fn parse_experiment(v: &JsonValue) -> (r: GrowthBookFeatureRuleExperiment)
    ensures
        r@ == spec_parse_experiment(v@),
{
    let vfield = j_get(v, "variations");
    let variations: Vec<JsonValue> = match vfield {
        Some(fv) => {
            proof {
                lemma_view_shape(fv);
            }
            match fv {
                JsonValue::Arr(items) => {
                    proof {
                        lemma_arr_view(fv);
                    }
                    let mut out: Vec<JsonValue> = Vec::new();
                    let mut i: usize = 0;
                    while i < items.len()
                        invariant
                            i <= items@.len(),
                            out@.len() == i,
                            forall|k: int| 0 <= k < i ==> (#[trigger] out@[k])@ == items@[k]@,
                        decreases items@.len() - i,
                    {
                        out.push(items[i].deep_clone());
                        i += 1;
                    }
                    out
                },
                _ => Vec::new(),
            }
        },
        None => Vec::new(),
    };
    let r = GrowthBookFeatureRuleExperiment {
        key: j_str(j_get(v, "key")),
        variations,
        weights: j_weights(j_get(v, "weights")),
        ranges: j_ranges(j_get(v, "ranges")),
        meta: j_meta(j_get(v, "meta")),
        coverage: j_micros(j_get(v, "coverage")),
        namespace: j_namespace(j_get(v, "namespace")),
        hash_attribute: j_str(j_get(v, "hashAttribute")),
        fallback_attribute: j_str(j_get(v, "fallbackAttribute")),
        hash_version: j_whole(j_get(v, "hashVersion")),
        seed: j_str(j_get(v, "seed")),
        bucket_version: j_whole(j_get(v, "bucketVersion")),
        min_bucket_version: j_whole(j_get(v, "minBucketVersion")),
        disable_sticky_bucketing: j_bool(j_get(v, "disableStickyBucketing")),
    };
    proof {
        assert(r@.variations =~= spec_parse_experiment(v@).variations);
    }
    r
}

/// The prerequisites of a `parentConditions` array.
#[verifier::loop_isolation(false)]
fn parse_parents(items: &Vec<JsonValue>) -> (r: Vec<GrowthBookParentCondition>)
    ensures
        Seq::new(r@.len(), |i: int| r@[i]@) == spec_parents_of(
            Seq::new(items@.len(), |i: int| items@[i]@),
        ),
{
    let ghost sitems: Seq<JsonVal> = Seq::new(items@.len(), |i: int| items@[i]@);
    proof {
        assert(sitems.skip(0) =~= sitems);
    }
    let mut out: Vec<GrowthBookParentCondition> = Vec::new();
    let mut i: usize = 0;
    while i < items.len()
        invariant
            i <= items@.len(),
            sitems.len() == items@.len(),
            forall|k: int| 0 <= k < items@.len() ==> sitems[k] == items@[k]@,
            spec_parents_of(sitems) == Seq::new(out@.len(), |i: int| out@[i]@) + spec_parents_of(
                sitems.skip(i as int),
            ),
        decreases items@.len() - i,
    {
        proof {
            assert(sitems.skip(i as int)[0] == sitems[i as int]);
            assert(sitems.skip(i as int).skip(1) =~= sitems.skip(i as int + 1));
        }
        let ghost old_out = out@;
        match j_str(j_get(&items[i], "id")) {
            Some(id) => {
                let condition = match j_get(&items[i], "condition") {
                    Some(c) => c.deep_clone(),
                    None => JsonValue::Null,
                };
                proof {
                    lemma_view_shape(&condition);
                }
                out.push(GrowthBookParentCondition { id, condition });
                proof {
                    assert(Seq::new(out@.len(), |i: int| out@[i]@) =~= Seq::new(
                        old_out.len(),
                        |i: int| old_out[i]@,
                    ) + spec_parents_of(sitems.skip(i as int)).take(1));
                    assert(spec_parents_of(sitems.skip(i as int)).take(1) + spec_parents_of(
                        sitems.skip(i as int + 1),
                    ) =~= spec_parents_of(sitems.skip(i as int)));
                }
            },
            None => {
            },
        }
        i += 1;
    }
    proof {
        assert(sitems.skip(items@.len() as int) =~= Seq::<JsonVal>::empty());
        assert(Seq::new(out@.len(), |i: int| out@[i]@) + spec_parents_of(
            sitems.skip(items@.len() as int),
        ) =~= Seq::new(out@.len(), |i: int| out@[i]@));
    }
    out
}

/// A rule from its JSON shape: `force` makes a force rule, gated by
/// coverage or a range a rollout; `variations` an experiment;
/// `parentConditions` a prerequisite; anything else is skipped.
pub fn parse_rule(v: &JsonValue) -> (r: GrowthBookFeatureRule)
    ensures
        r@ == spec_parse_rule(v@),
{
    if j_get(v, "force").is_some() {
        if j_get(v, "coverage").is_some() || j_get(v, "range").is_some() {
            GrowthBookFeatureRule::Rollout(parse_force(v))
        } else {
            GrowthBookFeatureRule::Force(parse_force(v))
        }
    } else {
        let vfield = j_get(v, "variations");
        let is_exp = match vfield {
            Some(fv) => {
                proof {
                    lemma_view_shape(fv);
                }
                match fv {
                    JsonValue::Arr(_) => true,
                    _ => false,
                }
            },
            None => false,
        };
        if is_exp {
            GrowthBookFeatureRule::Experiment(parse_experiment(v))
        } else {
            let pfield = j_get(v, "parentConditions");
            match pfield {
                Some(fv) => {
                    proof {
                        lemma_view_shape(fv);
                    }
                    match fv {
                        JsonValue::Arr(items) => {
                            proof {
                                lemma_arr_view(fv);
                                assert(Seq::new(items@.len(), |i: int| items@[i]@) =~= fv@->Arr_0);
                            }
                            GrowthBookFeatureRule::Parent(
                                GrowthBookFeatureRuleParent {
                                    parent_conditions: parse_parents(items),
                                },
                            )
                        },
                        _ => GrowthBookFeatureRule::Empty,
                    }
                },
                None => GrowthBookFeatureRule::Empty,
            }
        }
    }
}

/// A feature from its JSON shape.
#[verifier::loop_isolation(false)]
pub fn parse_feature(v: &JsonValue) -> (r: GrowthBookFeature)
    ensures
        r@ == spec_parse_feature(v@),
{
    let rfield = j_get(v, "rules");
    let rules: Option<Vec<GrowthBookFeatureRule>> = match rfield {
        Some(fv) => {
            proof {
                lemma_view_shape(fv);
            }
            match fv {
                JsonValue::Arr(items) => {
                    proof {
                        lemma_arr_view(fv);
                    }
                    let ghost sitems: Seq<JsonVal> = Seq::new(items@.len(), |i: int| items@[i]@);
                    let mut out: Vec<GrowthBookFeatureRule> = Vec::new();
                    let mut i: usize = 0;
                    while i < items.len()
                        invariant
                            i <= items@.len(),
                            sitems.len() == items@.len(),
                            forall|k: int| 0 <= k < items@.len() ==> sitems[k] == items@[k]@,
                            out@.len() == i,
                            forall|k: int|
                                0 <= k < i ==> (#[trigger] out@[k])@ == spec_parse_rule(sitems[k]),
                        decreases items@.len() - i,
                    {
                        out.push(parse_rule(&items[i]));
                        i += 1;
                    }
                    Some(out)
                },
                _ => None,
            }
        },
        None => None,
    };
    let r = GrowthBookFeature { default_value: j_json(j_get(v, "defaultValue")), rules };
    proof {
        if r.rules is Some {
            assert(r@.rules->Some_0 =~= spec_parse_feature(v@).rules->Some_0);
        }
    }
    r
}

} // verus!
