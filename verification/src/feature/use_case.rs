use vstd::prelude::*;

verus! {

use vstd::string::StringExecFns;
use vstd::set_lib::lemma_len_subset;
use crate::json::{JsonValue, JsonVal};
use crate::dto::{GrowthBookFeature, GrowthBookFeatureRule, GrowthBookFeatureRuleParent, FeatureView, RuleView, ParentView};
use crate::model_public::{GrowthBookAttribute, spec_attrs_view, FeatureResult, FeatureSource,
    FeatureResultView, spec_result_wf, spec_result_of};
use crate::condition::{Doc, eval_condition, spec_eval_condition};
use crate::feature::feature_rule_force::spec_force_eval;
use crate::feature::feature_rule_experiment::{spec_check_experiment, spec_exp_attribute,
    spec_forced_view, spec_sticky_model};
use crate::sticky_bucket::{StickyBucketService, StickyModel};
use crate::text::str_eq;

/// Whether the snapshot holds a feature of the given name.
pub open spec fn spec_has_feature(
    features: Seq<(String, GrowthBookFeature)>,
    name: Seq<char>,
) -> bool {
    exists|i: int| 0 <= i < features.len() && (#[trigger] features[i].0)@ == name
}

/// A well-formed prerequisite stack: distinct names, each naming a
/// feature of the snapshot.
pub open spec fn spec_stack_ok(
    features: Seq<(String, GrowthBookFeature)>,
    stack: Seq<String>,
) -> bool {
    (forall|i: int, j: int|
        0 <= i < j < stack.len() ==> (#[trigger] stack[i])@ != (#[trigger] stack[j])@) && (forall|
        i: int,
    |
        0 <= i < stack.len() ==> spec_has_feature(features, (#[trigger] stack[i])@))
}

/// A stack of distinct feature names can hold at most one entry per
/// feature, so it is never longer than the snapshot.
pub proof fn lemma_stack_len(features: Seq<(String, GrowthBookFeature)>, stack: Seq<String>)
    requires
        spec_stack_ok(features, stack),
    ensures
        stack.len() <= features.len(),
{
    let svs: Seq<Seq<char>> = Seq::new(stack.len(), |i: int| stack[i]@);
    let fns: Seq<Seq<char>> = Seq::new(features.len(), |i: int| features[i].0@);
    assert(svs.no_duplicates());
    svs.unique_seq_to_set();
    fns.lemma_cardinality_of_set();
    assert forall|x: Seq<char>| svs.to_set().contains(x) implies fns.to_set().contains(x) by {
        let i = choose|i: int| 0 <= i < svs.len() && svs[i] == x;
        assert(spec_has_feature(features, stack[i]@));
        let j = choose|j: int| 0 <= j < features.len() && features[j].0@ == x;
        assert(fns[j] == x);
    }
    lemma_len_subset(svs.to_set(), fns.to_set());
}

/// The model of a snapshot: feature models under their names, in
/// order, the first binding of a name the one that counts.
pub open spec fn spec_features_view(fs: Seq<(String, GrowthBookFeature)>) -> Seq<
    (Seq<char>, FeatureView),
> {
    Seq::new(fs.len(), |i: int| (fs[i].0@, fs[i].1@))
}

/// The model of a prerequisite stack: the names in order.
pub open spec fn spec_stack_view(stack: Seq<String>) -> Seq<Seq<char>> {
    Seq::new(stack.len(), |i: int| stack[i]@)
}

/// The first feature model bound to `name` in a snapshot, if any.
pub open spec fn spec_feature_lookup(
    features: Seq<(Seq<char>, FeatureView)>,
    name: Seq<char>,
) -> Option<FeatureView>
    decreases features.len(),
{
    if features.len() == 0 {
        None
    } else if features[0].0 == name {
        Some(features[0].1)
    } else {
        spec_feature_lookup(features.skip(1), name)
    }
}

/// The first feature of the snapshot stored under `name`, if any.
#[verifier::loop_isolation(false)]
pub fn find_feature<'a>(features: &'a Vec<(String, GrowthBookFeature)>, name: &str) -> (r: Option<
    &'a GrowthBookFeature,
>)
    ensures
        r is Some <==> spec_has_feature(features@, name@),
        match spec_feature_lookup(spec_features_view(features@), name@) {
            Some(f) => r is Some && r->Some_0@ == f,
            None => r is None,
        },
{
    let ghost model = spec_features_view(features@);
    proof {
        assert(model.skip(0) =~= model);
    }
    let mut i: usize = 0;
    while i < features.len()
        invariant
            i <= features@.len(),
            model.len() == features@.len(),
            forall|k: int| 0 <= k < i ==> (#[trigger] features@[k].0)@ != name@,
            spec_feature_lookup(model, name@) == spec_feature_lookup(model.skip(i as int), name@),
        decreases features@.len() - i,
    {
        proof {
            assert(model.skip(i as int)[0] == model[i as int]);
            assert(model.skip(i as int).skip(1) =~= model.skip(i as int + 1));
        }
        if str_eq(features[i].0.as_str(), name) {
            return Some(&features[i].1);
        }
        i += 1;
    }
    proof {
        assert(model.skip(features@.len() as int) =~= Seq::<(Seq<char>, FeatureView)>::empty());
    }
    None
}

/// The synthetic `{value, on, off}` document a prerequisite
/// condition is checked against.
pub open spec fn spec_parent_doc(r: FeatureResultView) -> Seq<(Seq<char>, JsonVal)> {
    seq![("value"@, r.value), ("on"@, JsonVal::Bool(r.on)), ("off"@, JsonVal::Bool(r.off))]
}

/// The result a feature's default value produces.
pub open spec fn spec_default_result(feature: FeatureView) -> FeatureResultView {
    spec_result_of(
        match feature.default_value {
            Some(v) => v,
            None => JsonVal::Null,
        },
        FeatureSource::DefaultValue,
    )
}

/// What evaluating a feature yields, and the sticky store it leaves
/// behind: its rules are tried in order and the first rule that
/// produces a value wins; if none produces, the default value's
/// result stands. The fuel bounds the prerequisite recursion; the
/// callers pass the snapshot size minus the stack depth, which the
/// stack invariants keep ahead of every recursive descent.
pub open spec fn spec_eval_feature(
    feature: FeatureView,
    feature_name: Seq<char>,
    stack: Seq<Seq<char>>,
    doc: Seq<(Seq<char>, JsonVal)>,
    forced: Option<Seq<(Seq<char>, int)>>,
    features: Seq<(Seq<char>, FeatureView)>,
    m: Option<StickyModel>,
    fuel: nat,
) -> (FeatureResultView, Option<StickyModel>)
    decreases fuel, 1int, 0int, 0int, 0int,
{
    match feature.rules {
        Some(rules) => spec_eval_rules(
            feature,
            rules,
            feature_name,
            stack,
            doc,
            forced,
            features,
            m,
            fuel,
        ),
        None => (spec_default_result(feature), m),
    }
}

/// What the remaining rules of a feature yield: the first value a
/// rule produces, threading the sticky store through each rule; the
/// default value's result when none is left.
pub open spec fn spec_eval_rules(
    feature: FeatureView,
    rules: Seq<RuleView>,
    feature_name: Seq<char>,
    stack: Seq<Seq<char>>,
    doc: Seq<(Seq<char>, JsonVal)>,
    forced: Option<Seq<(Seq<char>, int)>>,
    features: Seq<(Seq<char>, FeatureView)>,
    m: Option<StickyModel>,
    fuel: nat,
) -> (FeatureResultView, Option<StickyModel>)
    decreases fuel, 0int, 1int, rules.len(), 0int,
{
    if rules.len() == 0 {
        (spec_default_result(feature), m)
    } else {
        match rules[0] {
            RuleView::Force(f) => match spec_force_eval(f, feature_name, doc) {
                Some(v) => (spec_result_of(v, FeatureSource::Force), m),
                None => spec_eval_rules(
                    feature,
                    rules.skip(1),
                    feature_name,
                    stack,
                    doc,
                    forced,
                    features,
                    m,
                    fuel,
                ),
            },
            RuleView::Rollout(f) => match spec_force_eval(f, feature_name, doc) {
                Some(v) => (spec_result_of(v, FeatureSource::Force), m),
                None => spec_eval_rules(
                    feature,
                    rules.skip(1),
                    feature_name,
                    stack,
                    doc,
                    forced,
                    features,
                    m,
                    fuel,
                ),
            },
            RuleView::Experiment(e) => {
                let out = spec_check_experiment(
                    e,
                    feature_name,
                    doc,
                    spec_exp_attribute(e, doc),
                    forced,
                    m,
                );
                match out.0 {
                    Some(rv) => (rv, out.1),
                    None => spec_eval_rules(
                        feature,
                        rules.skip(1),
                        feature_name,
                        stack,
                        doc,
                        forced,
                        features,
                        out.1,
                        fuel,
                    ),
                }
            },
            RuleView::Parent(ps) => {
                let po = spec_check_parents(ps, feature_name, stack, doc, forced, features, m, fuel);
                match po.0 {
                    Some(rv) => (rv, po.1),
                    None => spec_eval_rules(
                        feature,
                        rules.skip(1),
                        feature_name,
                        stack,
                        doc,
                        forced,
                        features,
                        po.1,
                        fuel,
                    ),
                }
            },
            RuleView::Empty => spec_eval_rules(
                feature,
                rules.skip(1),
                feature_name,
                stack,
                doc,
                forced,
                features,
                m,
                fuel,
            ),
        }
    }
}

/// What a prerequisite rule decides: a prerequisite already on the
/// stack yields the cyclic source at once; otherwise the named
/// feature is evaluated in full — unknown names evaluate to the
/// unknown-feature result — a cyclic result propagates, an unmet
/// condition yields the prerequisite source, and nothing is decided
/// when every prerequisite is met.
pub open spec fn spec_check_parents(
    ps: Seq<ParentView>,
    feature_name: Seq<char>,
    stack: Seq<Seq<char>>,
    doc: Seq<(Seq<char>, JsonVal)>,
    forced: Option<Seq<(Seq<char>, int)>>,
    features: Seq<(Seq<char>, FeatureView)>,
    m: Option<StickyModel>,
    fuel: nat,
) -> (Option<FeatureResultView>, Option<StickyModel>)
    decreases fuel, 0int, 0int, ps.len(), 0int,
{
    if ps.len() == 0 {
        (None, m)
    } else {
        let parent = ps[0];
        let stack2 = stack.push(feature_name);
        if stack2.contains(parent.id) {
            (Some(spec_result_of(JsonVal::Null, FeatureSource::CyclicPrerequisite)), m)
        } else {
            let parent_out = match spec_feature_lookup(features, parent.id) {
                Some(pf) => if fuel == 0 {
                    (spec_result_of(JsonVal::Null, FeatureSource::CyclicPrerequisite), m)
                } else {
                    spec_eval_feature(
                        pf,
                        parent.id,
                        stack2,
                        doc,
                        forced,
                        features,
                        m,
                        (fuel - 1) as nat,
                    )
                },
                None => (spec_result_of(JsonVal::Null, FeatureSource::UnknownFeature), m),
            };
            if parent_out.0.source == FeatureSource::CyclicPrerequisite {
                (
                    Some(spec_result_of(JsonVal::Null, FeatureSource::CyclicPrerequisite)),
                    parent_out.1,
                )
            } else if !spec_eval_condition(spec_parent_doc(parent_out.0), parent.condition) {
                (
                    Some(spec_result_of(JsonVal::Null, FeatureSource::Prerequisite)),
                    parent_out.1,
                )
            } else {
                spec_check_parents(
                    ps.skip(1),
                    feature_name,
                    stack,
                    doc,
                    forced,
                    features,
                    parent_out.1,
                    fuel,
                )
            }
        }
    }
}

/// Law: a feature whose first rule is a prerequisite on a feature
/// already under evaluation — itself included — yields the
/// cyclic-prerequisite source, and the store is untouched.
pub proof fn lemma_self_prerequisite_is_cyclic(
    feature: FeatureView,
    feature_name: Seq<char>,
    stack: Seq<Seq<char>>,
    doc: Seq<(Seq<char>, JsonVal)>,
    forced: Option<Seq<(Seq<char>, int)>>,
    features: Seq<(Seq<char>, FeatureView)>,
    m: Option<StickyModel>,
    fuel: nat,
)
    requires
        ({
            &&& feature.rules matches Some(rules)
            &&& rules.len() > 0
            &&& rules[0] matches RuleView::Parent(ps)
            &&& ps.len() > 0
            &&& stack.push(feature_name).contains(ps[0].id)
        }),
    ensures
        spec_eval_feature(feature, feature_name, stack, doc, forced, features, m, fuel) == (
            spec_result_of(JsonVal::Null, FeatureSource::CyclicPrerequisite),
            m,
        ),
{
}

/// Whether a stack holds the given name.
#[verifier::loop_isolation(false)]
fn stack_contains(stack: &Vec<String>, name: &str) -> (r: bool)
    ensures
        r == exists|i: int| 0 <= i < stack@.len() && (#[trigger] stack@[i])@ == name@,
{
    let mut i: usize = 0;
    while i < stack.len()
        invariant
            i <= stack@.len(),
            forall|k: int| 0 <= k < i ==> (#[trigger] stack@[k])@ != name@,
        decreases stack@.len() - i,
    {
        if str_eq(stack[i].as_str(), name) {
            proof {
                assert((stack@[i as int])@ == name@);
            }
            return true;
        }
        i += 1;
    }
    false
}

/// A copy of a name stack.
#[verifier::loop_isolation(false)]
fn clone_stack(stack: &Vec<String>) -> (r: Vec<String>)
    ensures
        r@.len() == stack@.len(),
        forall|i: int| 0 <= i < stack@.len() ==> (#[trigger] r@[i])@ == stack@[i]@,
{
    let mut out: Vec<String> = Vec::new();
    let mut i: usize = 0;
    while i < stack.len()
        invariant
            i <= stack@.len(),
            out@.len() == i,
            forall|k: int| 0 <= k < i ==> (#[trigger] out@[k])@ == stack@[k]@,
        decreases stack@.len() - i,
    {
        out.push(stack[i].clone());
        i += 1;
    }
    out
}

/// What a prerequisite rule decides for the user, walking its
/// prerequisites in order and recursing into the features they name;
/// nothing when every prerequisite is met.
#[verifier::loop_isolation(false)]
#[verifier::rlimit(100)]
#[verifier::spinoff_prover]
fn check_parents<S: StickyBucketService>(
    p: &GrowthBookFeatureRuleParent,
    feature_name: &str,
    feature_name_decorate: &Vec<String>,
    user_attributes: &Vec<GrowthBookAttribute>,
    forced_variations: &Option<Vec<(String, i64)>>,
    all_features: &Vec<(String, GrowthBookFeature)>,
    sticky_bucket_service: &mut Option<S>,
) -> (r: Option<FeatureResult>)
    requires
        spec_stack_ok(all_features@, feature_name_decorate@),
        spec_has_feature(all_features@, feature_name@),
        forall|i: int|
            0 <= i < feature_name_decorate@.len() ==> (#[trigger] feature_name_decorate@[i])@
                != feature_name@,
    ensures
        ({
            let out = spec_check_parents(
                p@,
                feature_name@,
                spec_stack_view(feature_name_decorate@),
                spec_attrs_view(user_attributes@),
                spec_forced_view(*forced_variations),
                spec_features_view(all_features@),
                spec_sticky_model::<S>(*old(sticky_bucket_service)),
                (all_features@.len() - feature_name_decorate@.len()) as nat,
            );
            &&& (match out.0 {
                Some(v) => r is Some && r->Some_0@ == v,
                None => r is None,
            })
            &&& spec_sticky_model::<S>(*final(sticky_bucket_service)) == out.1
        }),
        r matches Some(v) ==> spec_result_wf(v@) && v.source != FeatureSource::UnknownFeature,
    decreases all_features@.len() - feature_name_decorate@.len(), 0int,
{
    proof {
        lemma_stack_len(all_features@, feature_name_decorate@);
    }
    let ghost fuel = (all_features@.len() - feature_name_decorate@.len()) as nat;
    let ghost stv = spec_stack_view(feature_name_decorate@);
    let ghost docv = spec_attrs_view(user_attributes@);
    let ghost forcedv = spec_forced_view(*forced_variations);
    let ghost fsv = spec_features_view(all_features@);
    let ghost psv = p@;
    let mut stack2 = clone_stack(feature_name_decorate);
    stack2.push(String::from_str(feature_name));
    proof {
        assert(spec_stack_view(stack2@) =~= stv.push(feature_name@));
        assert(spec_stack_ok(all_features@, stack2@));
        assert(psv.skip(0) =~= psv);
    }
    let mut j: usize = 0;
    while j < p.parent_conditions.len()
        invariant
            j <= p.parent_conditions@.len(),
            psv.len() == p.parent_conditions@.len(),
            forall|k: int| 0 <= k < psv.len() ==> psv[k] == p.parent_conditions@[k]@,
            stack2@.len() == feature_name_decorate@.len() + 1,
            spec_stack_view(stack2@) == stv.push(feature_name@),
            spec_stack_ok(all_features@, stack2@),
            spec_check_parents(psv, feature_name@, stv, docv, forcedv, fsv,
                spec_sticky_model::<S>(*old(sticky_bucket_service)), fuel)
                == spec_check_parents(psv.skip(j as int), feature_name@, stv, docv, forcedv, fsv,
                spec_sticky_model::<S>(*sticky_bucket_service), fuel),
        decreases p.parent_conditions@.len() - j,
    {
        proof {
            assert(psv.skip(j as int)[0] == psv[j as int]);
            assert(psv.skip(j as int).skip(1) =~= psv.skip(j as int + 1));
        }
        let parent = &p.parent_conditions[j];
        if stack_contains(&stack2, parent.id.as_str()) {
            proof {
                let k = choose|k: int| 0 <= k < stack2@.len() && (#[trigger] stack2@[k])@
                    == parent.id@;
                assert(spec_stack_view(stack2@)[k] == parent.id@);
                assert(stv.push(feature_name@).contains(parent.id@));
            }
            return Some(FeatureResult::cyclic_prerequisite());
        }
        proof {
            assert forall|k: int|
                0 <= k < stv.push(feature_name@).len() implies #[trigger] stv.push(
                feature_name@,
            )[k] != parent.id@ by {
                assert(spec_stack_view(stack2@)[k] == stack2@[k]@);
            }
            assert(!stv.push(feature_name@).contains(parent.id@));
        }
        let parent_response: FeatureResult = match find_feature(all_features, parent.id.as_str()) {
            Some(pf) => {
                proof {
                    lemma_stack_len(all_features@, stack2@);
                    assert forall|i: int| 0 <= i < stack2@.len() implies (#[trigger] stack2@[i])@
                        != parent.id@ by {
                        assert(spec_stack_view(stack2@)[i] == stack2@[i]@);
                    }
                }
                pf.get_value(
                    parent.id.as_str(),
                    &stack2,
                    user_attributes,
                    forced_variations,
                    all_features,
                    sticky_bucket_service,
                )
            },
            None => FeatureResult::unknown_feature(),
        };
        proof {
            assert((all_features@.len() - stack2@.len()) as nat == (fuel - 1) as nat);
        }
        match parent_response.source {
            FeatureSource::CyclicPrerequisite => {
                return Some(FeatureResult::cyclic_prerequisite());
            },
            _ => {},
        }
        let parent_doc = parent_response.to_parent_doc();
        proof {
            assert(parent_doc@->Obj_0 =~= spec_parent_doc(parent_response@));
        }
        if !eval_condition(&Doc::Val(&parent_doc), &parent.condition) {
            return Some(FeatureResult::prerequisite());
        }
        j += 1;
    }
    proof {
        assert(psv.skip(p.parent_conditions@.len() as int) =~= Seq::<ParentView>::empty());
    }
    None
}

impl GrowthBookFeature {
    /// Walks this feature's rules in order and returns the first
    /// result a rule produces, or the default value's result, exactly
    /// as the evaluation model says, together with the sticky store
    /// the walk leaves behind. The prerequisite stack carries the
    /// features already being evaluated, and meeting one of them
    /// again yields the cyclic source instead of recursing forever.
    #[verifier::loop_isolation(false)]
    #[verifier::rlimit(100)]
    #[verifier::spinoff_prover]
    pub fn get_value<S: StickyBucketService>(
        &self,
        feature_name: &str,
        feature_name_decorate: &Vec<String>,
        user_attributes: &Vec<GrowthBookAttribute>,
        forced_variations: &Option<Vec<(String, i64)>>,
        all_features: &Vec<(String, GrowthBookFeature)>,
        sticky_bucket_service: &mut Option<S>,
    ) -> (r: FeatureResult)
        requires
            spec_stack_ok(all_features@, feature_name_decorate@),
            spec_has_feature(all_features@, feature_name@),
            forall|i: int|
                0 <= i < feature_name_decorate@.len() ==> (#[trigger] feature_name_decorate@[i])@
                    != feature_name@,
        ensures
            ({
                let out = spec_eval_feature(
                    self@,
                    feature_name@,
                    spec_stack_view(feature_name_decorate@),
                    spec_attrs_view(user_attributes@),
                    spec_forced_view(*forced_variations),
                    spec_features_view(all_features@),
                    spec_sticky_model::<S>(*old(sticky_bucket_service)),
                    (all_features@.len() - feature_name_decorate@.len()) as nat,
                );
                &&& r@ == out.0
                &&& spec_sticky_model::<S>(*final(sticky_bucket_service)) == out.1
            }),
            spec_result_wf(r@),
            r.source != FeatureSource::UnknownFeature,
        decreases all_features@.len() - feature_name_decorate@.len(), 1int,
    {
        proof {
            lemma_stack_len(all_features@, feature_name_decorate@);
        }
        let ghost fuel = (all_features@.len() - feature_name_decorate@.len()) as nat;
        let ghost stv = spec_stack_view(feature_name_decorate@);
        let ghost docv = spec_attrs_view(user_attributes@);
        let ghost forcedv = spec_forced_view(*forced_variations);
        let ghost fsv = spec_features_view(all_features@);
        match &self.rules {
            Some(rules) => {
                let ghost rv = self@.rules->Some_0;
                proof {
                    assert(rv.skip(0) =~= rv);
                }
                let mut i: usize = 0;
                while i < rules.len()
                    invariant
                        i <= rules@.len(),
                        rv.len() == rules@.len(),
                        forall|k: int| 0 <= k < rules@.len() ==> rv[k] == rules@[k]@,
                        spec_eval_feature(self@, feature_name@, stv, docv, forcedv, fsv,
                            spec_sticky_model::<S>(*old(sticky_bucket_service)), fuel)
                            == spec_eval_rules(self@, rv.skip(i as int), feature_name@, stv, docv,
                            forcedv, fsv, spec_sticky_model::<S>(*sticky_bucket_service), fuel),
                    decreases rules@.len() - i,
                {
                    proof {
                        assert(rv.skip(i as int)[0] == rv[i as int]);
                        assert(rv.skip(i as int).skip(1) =~= rv.skip(i as int + 1));
                    }
                    match &rules[i] {
                        GrowthBookFeatureRule::Force(f) => {
                            match f.get_match_value(feature_name, user_attributes) {
                                Some(res) => {
                                    return res;
                                },
                                None => {},
                            }
                        },
                        GrowthBookFeatureRule::Rollout(f) => {
                            match f.get_match_value(feature_name, user_attributes) {
                                Some(res) => {
                                    return res;
                                },
                                None => {},
                            }
                        },
                        GrowthBookFeatureRule::Experiment(e) => {
                            match e.get_match_value(
                                feature_name,
                                user_attributes,
                                forced_variations,
                                sticky_bucket_service,
                            ) {
                                Some(res) => {
                                    return res;
                                },
                                None => {},
                            }
                        },
                        GrowthBookFeatureRule::Parent(p) => {
                            match check_parents(
                                p,
                                feature_name,
                                feature_name_decorate,
                                user_attributes,
                                forced_variations,
                                all_features,
                                sticky_bucket_service,
                            ) {
                                Some(res) => {
                                    return res;
                                },
                                None => {},
                            }
                        },
                        GrowthBookFeatureRule::Empty => {},
                    }
                    i += 1;
                }
                proof {
                    assert(rv.skip(rules@.len() as int) =~= Seq::<RuleView>::empty());
                }
            },
            None => {},
        }
        let default_value = match &self.default_value {
            Some(v) => Some(v.deep_clone()),
            None => None,
        };
        FeatureResult::from_default_value(default_value)
    }
}

} // verus!
