use growthbook_rust::client::{GrowthBookClientBuilder, GrowthBookClientTrait};
use growthbook_rust::dto::{
    parse_feature, GrowthBookFeature, GrowthBookFeatureRule, GrowthBookFeatureRuleExperiment,
    GrowthBookFeatureRuleParent, GrowthBookParentCondition,
};
use growthbook_rust::hash::{fnv1a_str, hash_code};
use growthbook_rust::json::JsonValue;
use growthbook_rust::model_public::{FeatureSource, GrowthBookAttribute};
use growthbook_rust::range::{choose_variation, Range};
use growthbook_rust::sticky_bucket::{InMemoryStickyBucketService, StickyBucketService};

fn obj(fields: Vec<(&str, JsonValue)>) -> JsonValue {
    JsonValue::Obj(
        fields
            .into_iter()
            .map(|(k, v)| (k.to_string(), v))
            .collect(),
    )
}

fn s(text: &str) -> JsonValue {
    JsonValue::Str(text.to_string())
}

fn attrs(list: Vec<(&str, JsonValue)>) -> Option<Vec<GrowthBookAttribute>> {
    Some(
        list.into_iter()
            .map(|(k, v)| GrowthBookAttribute::new(k.to_string(), v))
            .collect(),
    )
}

#[test]
fn fnv1a_reference_vectors() {
    assert_eq!(fnv1a_str("ab"), 1294271946);
}

#[test]
fn hash_v1_reference_vectors() {
    assert_eq!(hash_code("a", "b", 1), Some(946000));
    assert_eq!(hash_code("123", "exp-1", 1), Some(100000));
}

#[test]
fn hash_v2_reference_vectors() {
    assert_eq!(hash_code("123", "exp-1", 2), Some(57800));
    assert_eq!(hash_code("a", "b", 2), Some(665000));
}

#[test]
fn hash_unknown_version_yields_nothing() {
    assert_eq!(hash_code("a", "b", 3), None);
}

#[test]
fn choose_variation_picks_first_containing_range() {
    let ranges = vec![
        Range { start: 0, end: 500000 },
        Range { start: 500000, end: 1000000 },
    ];
    assert_eq!(choose_variation(0, &ranges), 0);
    assert_eq!(choose_variation(499999, &ranges), 0);
    assert_eq!(choose_variation(500000, &ranges), 1);
    assert_eq!(choose_variation(999999, &ranges), 1);
    let empty: Vec<Range> = Vec::new();
    assert_eq!(choose_variation(250000, &empty), -1);
}

fn build_client(features: Vec<(String, GrowthBookFeature)>) -> growthbook_rust::client::GrowthBookClient {
    GrowthBookClientBuilder::new()
        .features(features)
        .build()
        .expect("build should succeed with manual features")
}

#[test]
fn default_value_feature_is_on() {
    let feature = parse_feature(&obj(vec![("defaultValue", JsonValue::Bool(true))]));
    let mut client = build_client(vec![("flag".to_string(), feature)]);
    assert!(client.is_on("flag", &None));
    let result = client.feature_result("flag", &None);
    assert_eq!(result.source, FeatureSource::DefaultValue);
    assert!(!result.off);
}

#[test]
fn unknown_feature_is_off() {
    let mut client = build_client(vec![]);
    assert!(!client.is_on("missing", &None));
    let result = client.feature_result("missing", &None);
    assert_eq!(result.source, FeatureSource::UnknownFeature);
}

#[test]
fn force_rule_matches_condition() {
    let feature = parse_feature(&obj(vec![
        ("defaultValue", JsonValue::Bool(false)),
        (
            "rules",
            JsonValue::Arr(vec![obj(vec![
                ("condition", obj(vec![("country", s("US"))])),
                ("force", JsonValue::Bool(true)),
            ])]),
        ),
    ]));
    let mut client = build_client(vec![("feat".to_string(), feature)]);
    assert!(client.is_on("feat", &attrs(vec![("country", s("US"))])));
    assert!(client.is_off("feat", &attrs(vec![("country", s("CA"))])));
    let result = client.feature_result("feat", &attrs(vec![("country", s("US"))]));
    assert_eq!(result.source, FeatureSource::Force);
}

#[test]
fn case_insensitive_in_operator() {
    let feature = parse_feature(&obj(vec![
        ("defaultValue", JsonValue::Bool(false)),
        (
            "rules",
            JsonValue::Arr(vec![obj(vec![
                (
                    "condition",
                    obj(vec![(
                        "tag",
                        obj(vec![("$ini", JsonValue::Arr(vec![s("Foo"), s("Bar"), s("115")]))]),
                    )]),
                ),
                ("force", JsonValue::Bool(true)),
            ])]),
        ),
    ]));
    let mut client = build_client(vec![("ini-test".to_string(), feature)]);
    assert!(client.is_on("ini-test", &attrs(vec![("tag", s("Foo"))])));
    assert!(client.is_on("ini-test", &attrs(vec![("tag", s("foo"))])));
    assert!(client.is_on("ini-test", &attrs(vec![("tag", s("BAR"))])));
    assert!(client.is_on("ini-test", &attrs(vec![("tag", s("115"))])));
    assert!(!client.is_on("ini-test", &attrs(vec![("tag", s("Baz"))])));
}

#[test]
fn experiment_is_deterministic() {
    let feature = parse_feature(&obj(vec![
        ("defaultValue", s("none")),
        (
            "rules",
            JsonValue::Arr(vec![obj(vec![
                ("variations", JsonValue::Arr(vec![s("a"), s("b")])),
                (
                    "ranges",
                    JsonValue::Arr(vec![
                        JsonValue::Arr(vec![JsonValue::Num(0), JsonValue::Num(500000)]),
                        JsonValue::Arr(vec![JsonValue::Num(500000), JsonValue::Num(1000000)]),
                    ]),
                ),
                ("hashAttribute", s("id")),
                ("seed", s("exp-1")),
                ("hashVersion", JsonValue::Num(2000000)),
            ])]),
        ),
    ]));
    let mut client = build_client(vec![("exp".to_string(), feature)]);
    // The version-2 bucket of id "123" under seed "exp-1" is 0.0578,
    // which lands in the first range.
    for _ in 0..3 {
        let result = client.feature_result("exp", &attrs(vec![("id", s("123"))]));
        assert_eq!(result.source, FeatureSource::Experiment);
        let er = result.experiment_result.expect("experiment result");
        assert_eq!(er.variation_id, 0);
        assert!(er.in_experiment);
        assert_eq!(er.bucket, Some(57800));
        assert!(!er.sticky_bucket_used);
    }
}

#[test]
fn cyclic_prerequisites_are_detected() {
    let a = GrowthBookFeature {
        default_value: Some(JsonValue::Bool(true)),
        rules: Some(vec![GrowthBookFeatureRule::Parent(GrowthBookFeatureRuleParent {
            parent_conditions: vec![GrowthBookParentCondition {
                id: "b".to_string(),
                condition: obj(vec![("value", JsonValue::Bool(true))]),
            }],
        })]),
    };
    let b = GrowthBookFeature {
        default_value: Some(JsonValue::Bool(true)),
        rules: Some(vec![GrowthBookFeatureRule::Parent(GrowthBookFeatureRuleParent {
            parent_conditions: vec![GrowthBookParentCondition {
                id: "a".to_string(),
                condition: obj(vec![("value", JsonValue::Bool(true))]),
            }],
        })]),
    };
    let mut client = build_client(vec![("a".to_string(), a), ("b".to_string(), b)]);
    let result = client.feature_result("a", &None);
    assert_eq!(result.source, FeatureSource::CyclicPrerequisite);
    assert!(!result.on);
}

#[test]
fn prerequisite_gates_dependent_feature() {
    let parent = parse_feature(&obj(vec![("defaultValue", JsonValue::Bool(false))]));
    let child = GrowthBookFeature {
        default_value: Some(JsonValue::Bool(true)),
        rules: Some(vec![GrowthBookFeatureRule::Parent(GrowthBookFeatureRuleParent {
            parent_conditions: vec![GrowthBookParentCondition {
                id: "parent".to_string(),
                condition: obj(vec![("value", JsonValue::Bool(true))]),
            }],
        })]),
    };
    let mut client = build_client(vec![
        ("parent".to_string(), parent),
        ("child".to_string(), child),
    ]);
    let result = client.feature_result("child", &None);
    assert_eq!(result.source, FeatureSource::Prerequisite);
    assert!(!result.on);
}

#[test]
fn save_assignments_merges_documents() {
    let mut service = InMemoryStickyBucketService::new();
    service.save_assignments("id", "u1", vec![("exp__0".to_string(), "1".to_string())]);
    service.save_assignments("id", "u1", vec![("other__0".to_string(), "0".to_string())]);
    let doc = service.get_assignments("id", "u1").expect("document");
    assert!(doc.contains(&("exp__0".to_string(), "1".to_string())));
    assert!(doc.contains(&("other__0".to_string(), "0".to_string())));
}

fn sticky_experiment() -> GrowthBookFeatureRuleExperiment {
    GrowthBookFeatureRuleExperiment {
        key: Some("exp".to_string()),
        variations: vec![s("a"), s("b")],
        weights: None,
        ranges: Some(vec![
            Range { start: 0, end: 500000 },
            Range { start: 500000, end: 1000000 },
        ]),
        meta: None,
        coverage: None,
        namespace: None,
        hash_attribute: Some("id".to_string()),
        fallback_attribute: Some("anonId".to_string()),
        hash_version: Some(2),
        seed: Some("exp-1".to_string()),
        bucket_version: None,
        min_bucket_version: None,
        disable_sticky_bucketing: None,
    }
}

#[test]
fn sticky_assignment_blocks_old_bucket_versions() {
    let mut rule = sticky_experiment();
    rule.min_bucket_version = Some(2);
    let feature = GrowthBookFeature {
        default_value: Some(s("fallback")),
        rules: Some(vec![GrowthBookFeatureRule::Experiment(rule)]),
    };
    let mut service = InMemoryStickyBucketService::new();
    service.save_assignments("id", "123", vec![("exp__0".to_string(), "1".to_string())]);
    let mut client = GrowthBookClientBuilder::new()
        .features(vec![("feat".to_string(), feature)])
        .sticky_bucket_service(service)
        .build()
        .expect("build");
    let result = client.feature_result("feat", &attrs(vec![("id", s("123"))]));
    // The stored assignment carries bucket version 0, below the
    // minimum of 2: no experiment assignment may be produced.
    assert_eq!(result.source, FeatureSource::DefaultValue);
    assert!(result.experiment_result.is_none());
}

#[test]
fn sticky_assignment_upgrades_from_fallback_attribute() {
    let rule = sticky_experiment();
    let feature = GrowthBookFeature {
        default_value: Some(s("fallback")),
        rules: Some(vec![GrowthBookFeatureRule::Experiment(rule)]),
    };
    let mut service = InMemoryStickyBucketService::new();
    service.save_assignments("anonId", "anon-9", vec![("exp__0".to_string(), "1".to_string())]);
    let mut client = GrowthBookClientBuilder::new()
        .features(vec![("feat".to_string(), feature)])
        .sticky_bucket_service(service)
        .build()
        .expect("build");
    let result = client.feature_result(
        "feat",
        &attrs(vec![("id", s("123")), ("anonId", s("anon-9"))]),
    );
    let er = result.experiment_result.expect("experiment result");
    assert!(er.sticky_bucket_used);
    assert_eq!(er.variation_id, 1);
    // The assignment found under the fallback attribute is written
    // back under the primary one.
    let store = client.gb.sticky_bucket_service.as_ref().expect("service");
    let doc = store.get_assignments("id", "123").expect("upgraded document");
    assert!(doc.contains(&("exp__0".to_string(), "1".to_string())));
}

#[test]
fn missing_configuration_fails_build() {
    let result = GrowthBookClientBuilder::new().build();
    assert!(result.is_err());
}

#[test]
fn manual_features_build_offline() {
    let feature = parse_feature(&obj(vec![("defaultValue", s("enabled"))]));
    let client = GrowthBookClientBuilder::new()
        .features(vec![("offline-feature".to_string(), feature)])
        .build()
        .expect("build should succeed in offline mode with manual features");
    assert!(client.offline);
    assert_eq!(client.total_features(), 1);
}

#[test]
fn rollout_coverage_gates_by_bucket() {
    // The version-1 bucket of id "123" under seed "feat" is stable;
    // a coverage of 1.0 lets it through and a coverage of 0 rejects it.
    let allow = parse_feature(&obj(vec![
        ("defaultValue", JsonValue::Bool(false)),
        (
            "rules",
            JsonValue::Arr(vec![obj(vec![
                ("force", JsonValue::Bool(true)),
                ("coverage", JsonValue::Num(1000000)),
                ("hashAttribute", s("id")),
            ])]),
        ),
    ]));
    let reject = parse_feature(&obj(vec![
        ("defaultValue", JsonValue::Bool(false)),
        (
            "rules",
            JsonValue::Arr(vec![obj(vec![
                ("force", JsonValue::Bool(true)),
                ("coverage", JsonValue::Num(0)),
                ("hashAttribute", s("id")),
            ])]),
        ),
    ]));
    let mut client = build_client(vec![
        ("allow".to_string(), allow),
        ("reject".to_string(), reject),
    ]);
    assert!(client.is_on("allow", &attrs(vec![("id", s("123"))])));
    assert!(!client.is_on("reject", &attrs(vec![("id", s("123"))])));
}

#[test]
fn falsy_default_values_evaluate_off() {
    let cases = vec![
        ("null-flag", JsonValue::Null),
        ("false-flag", JsonValue::Bool(false)),
        ("zero-flag", JsonValue::Num(0)),
        ("empty-flag", JsonValue::Str(String::new())),
    ];
    let features = cases
        .into_iter()
        .map(|(name, v)| {
            (
                name.to_string(),
                GrowthBookFeature {
                    default_value: Some(v),
                    rules: None,
                },
            )
        })
        .collect();
    let mut client = build_client(features);
    for name in ["null-flag", "false-flag", "zero-flag", "empty-flag"] {
        let result = client.feature_result(name, &None);
        assert!(!result.on, "{name} should be off");
        assert!(result.off, "{name} should be off");
    }
    let truthy = build_client(vec![(
        "text-flag".to_string(),
        GrowthBookFeature {
            default_value: Some(s("x")),
            rules: None,
        },
    )]);
    let mut truthy = truthy;
    assert!(truthy.is_on("text-flag", &None));
}

#[test]
fn version_aware_comparison_orders_numerically() {
    let feature = parse_feature(&obj(vec![
        ("defaultValue", JsonValue::Bool(false)),
        (
            "rules",
            JsonValue::Arr(vec![obj(vec![
                ("condition", obj(vec![("appVersion", obj(vec![("$gt", s("1.9"))]))])),
                ("force", JsonValue::Bool(true)),
            ])]),
        ),
    ]));
    let mut client = build_client(vec![("vflag".to_string(), feature)]);
    // As versions, 1.10 is greater than 1.9 even though it sorts
    // lower lexicographically.
    assert!(client.is_on("vflag", &attrs(vec![("appVersion", s("1.10"))])));
    assert!(!client.is_on("vflag", &attrs(vec![("appVersion", s("1.2"))])));
}

struct StickyCase {
    name: &'static str,
    existing: Vec<(&'static str, &'static str, Vec<(&'static str, &'static str)>)>,
    min_bucket_version: Option<i64>,
    expected_variation: Option<i64>,
    expected_sticky_used: bool,
    expected_primary_doc: Option<Vec<(&'static str, &'static str)>>,
}

#[test]
fn test_sticky_bucket_scenarios() {
    let cases = vec![
        StickyCase {
            name: "fresh assignment is persisted",
            existing: vec![],
            min_bucket_version: None,
            expected_variation: Some(0),
            expected_sticky_used: false,
            expected_primary_doc: Some(vec![("exp__0", "0")]),
        },
        StickyCase {
            name: "stored assignment wins over hashing",
            existing: vec![("id", "123", vec![("exp__0", "1")])],
            min_bucket_version: None,
            expected_variation: Some(1),
            expected_sticky_used: true,
            expected_primary_doc: Some(vec![("exp__0", "1")]),
        },
        StickyCase {
            name: "old bucket version blocks the user",
            existing: vec![("id", "123", vec![("exp__0", "1")])],
            min_bucket_version: Some(2),
            expected_variation: None,
            expected_sticky_used: false,
            expected_primary_doc: None,
        },
        StickyCase {
            name: "fallback assignment upgrades to the primary attribute",
            existing: vec![("anonId", "anon-9", vec![("exp__0", "1")])],
            min_bucket_version: None,
            expected_variation: Some(1),
            expected_sticky_used: true,
            expected_primary_doc: Some(vec![("exp__0", "1")]),
        },
    ];
    for case in cases {
        println!("Running test case: {}", case.name);
        let mut rule = sticky_experiment();
        rule.min_bucket_version = case.min_bucket_version;
        let feature = GrowthBookFeature {
            default_value: Some(s("fallback")),
            rules: Some(vec![GrowthBookFeatureRule::Experiment(rule)]),
        };
        let mut service = InMemoryStickyBucketService::new();
        for (attr, value, doc) in &case.existing {
            service.save_assignments(
                attr,
                value,
                doc.iter()
                    .map(|(k, v)| (k.to_string(), v.to_string()))
                    .collect(),
            );
        }
        let mut client = GrowthBookClientBuilder::new()
            .features(vec![("feat".to_string(), feature)])
            .sticky_bucket_service(service)
            .build()
            .expect("build");
        let result = client.feature_result(
            "feat",
            &attrs(vec![("id", s("123")), ("anonId", s("anon-9"))]),
        );
        match case.expected_variation {
            Some(v) => {
                let er = result
                    .experiment_result
                    .unwrap_or_else(|| panic!("expected a result for case: {}", case.name));
                assert_eq!(er.variation_id, v, "variation for case: {}", case.name);
                assert_eq!(
                    er.sticky_bucket_used, case.expected_sticky_used,
                    "sticky flag for case: {}",
                    case.name
                );
            }
            None => {
                assert!(
                    result.experiment_result.is_none(),
                    "expected no result for case: {}",
                    case.name
                );
            }
        }
        if let Some(expected_doc) = case.expected_primary_doc {
            let store = client.gb.sticky_bucket_service.as_ref().expect("service");
            let doc = store
                .get_assignments("id", "123")
                .unwrap_or_else(|| panic!("expected a document for case: {}", case.name));
            for (k, v) in expected_doc {
                assert!(
                    doc.contains(&(k.to_string(), v.to_string())),
                    "binding {k}={v} for case: {}",
                    case.name
                );
            }
        }
    }
}

#[test]
fn encrypted_features_decrypt_with_the_key() {
    let key = "Ns04T5n9+59rl2x3SlNHtQ==";
    let payload = "vMSg2Bj/IurObDsWVmvkUg==.L6qtQkIzKDoE2Dix6IAKDcVel8PHUnzJ7JjmLjFZFQDqidRIoCxKmvxvUj2kTuHFTQ3/NJ3D6XhxhXXv2+dsXpw5woQf0eAgqrcxHrbtFORs18tRXRZza7zqgzwvcznx";
    let plain = growthbook_rust::decrypt::decrypt_features(payload, key)
        .expect("the reference payload decrypts");
    let text = String::from_utf8(plain).expect("plaintext is text");
    assert!(text.contains("testfeature1"));
    assert_eq!(growthbook_rust::decrypt::decrypt_features(payload, "Ns04T5n9+59rl2x3SlNHtz=="), None);
    assert_eq!(growthbook_rust::decrypt::decrypt_features("no-dot-here", key), None);
}

fn force_feature(cond: JsonValue) -> GrowthBookFeature {
    parse_feature(&obj(vec![
        ("defaultValue", JsonValue::Bool(false)),
        (
            "rules",
            JsonValue::Arr(vec![obj(vec![
                ("condition", cond),
                ("force", JsonValue::Bool(true)),
            ])]),
        ),
    ]))
}

#[test]
fn case_insensitive_not_in_operator() {
    let feature = force_feature(obj(vec![(
        "tag",
        obj(vec![("$nini", JsonValue::Arr(vec![s("Foo"), s("Bar")]))]),
    )]));
    let mut client = build_client(vec![("nini-test".to_string(), feature)]);
    assert!(!client.is_on("nini-test", &attrs(vec![("tag", s("Foo"))])));
    assert!(!client.is_on("nini-test", &attrs(vec![("tag", s("foo"))])));
    assert!(client.is_on("nini-test", &attrs(vec![("tag", s("Baz"))])));
}

#[test]
fn case_insensitive_all_operator() {
    let feature = force_feature(obj(vec![(
        "tags",
        obj(vec![("$alli", JsonValue::Arr(vec![s("Foo"), s("Bar")]))]),
    )]));
    let mut client = build_client(vec![("alli-test".to_string(), feature)]);
    assert!(client.is_on(
        "alli-test",
        &attrs(vec![("tags", JsonValue::Arr(vec![s("foo"), s("bar"), s("baz")]))]),
    ));
    assert!(client.is_on(
        "alli-test",
        &attrs(vec![("tags", JsonValue::Arr(vec![s("FOO"), s("BaR")]))]),
    ));
    assert!(!client.is_on(
        "alli-test",
        &attrs(vec![("tags", JsonValue::Arr(vec![s("foo"), s("baz")]))]),
    ));
}

#[test]
fn case_insensitive_regex_operator() {
    let feature = force_feature(obj(vec![(
        "email",
        obj(vec![("$regexi", s("^[a-z]+@example\\.com$"))]),
    )]));
    let mut client = build_client(vec![("regexi-test".to_string(), feature)]);
    assert!(client.is_on("regexi-test", &attrs(vec![("email", s("test@example.com"))])));
    assert!(client.is_on("regexi-test", &attrs(vec![("email", s("TEST@example.com"))])));
    assert!(client.is_on("regexi-test", &attrs(vec![("email", s("test@EXAMPLE.com"))])));
    assert!(!client.is_on("regexi-test", &attrs(vec![("email", s("test@other.com"))])));
}

#[test]
fn negated_regex_operators() {
    let plain = force_feature(obj(vec![(
        "email",
        obj(vec![("$notRegex", s("^TEST@EXAMPLE\\.COM$"))]),
    )]));
    let folded = force_feature(obj(vec![(
        "email",
        obj(vec![("$notRegexi", s("^test@example\\.com$"))]),
    )]));
    let mut client = build_client(vec![
        ("not-regex-test".to_string(), plain),
        ("not-regexi-test".to_string(), folded),
    ]);
    assert!(!client.is_on("not-regex-test", &attrs(vec![("email", s("TEST@EXAMPLE.COM"))])));
    assert!(client.is_on("not-regex-test", &attrs(vec![("email", s("test@example.com"))])));
    assert!(!client.is_on("not-regexi-test", &attrs(vec![("email", s("test@example.com"))])));
    assert!(!client.is_on("not-regexi-test", &attrs(vec![("email", s("TEST@EXAMPLE.COM"))])));
    assert!(client.is_on("not-regexi-test", &attrs(vec![("email", s("other@example.com"))])));
}

#[test]
fn forced_variation_out_of_range_falls_back_to_default() {
    let feature = parse_feature(&obj(vec![
        ("defaultValue", s("none")),
        (
            "rules",
            JsonValue::Arr(vec![obj(vec![
                ("variations", JsonValue::Arr(vec![s("a"), s("b")])),
                (
                    "ranges",
                    JsonValue::Arr(vec![
                        JsonValue::Arr(vec![JsonValue::Num(0), JsonValue::Num(500000)]),
                        JsonValue::Arr(vec![JsonValue::Num(500000), JsonValue::Num(1000000)]),
                    ]),
                ),
                ("hashAttribute", s("id")),
                ("seed", s("exp-1")),
                ("hashVersion", JsonValue::Num(2000000)),
            ])]),
        ),
    ]));
    let mut client = build_client(vec![("exp".to_string(), feature)]);
    client.gb.forced_variations = Some(vec![("exp".to_string(), 7)]);
    // A forced index outside the variation list makes the rule yield
    // nothing, so the default stands.
    let result = client.feature_result("exp", &attrs(vec![("id", s("123"))]));
    assert_eq!(result.source, FeatureSource::DefaultValue);
    assert!(result.experiment_result.is_none());
}

#[test]
fn build_installs_defaults() {
    let feature = parse_feature(&obj(vec![("defaultValue", JsonValue::Bool(true))]));
    let client = build_client(vec![("flag".to_string(), feature)]);
    assert_eq!(client.refresh_interval, 60);
    let cache = client.cache.as_ref().expect("a default cache is installed");
    assert_eq!(cache.ttl_millis, 60000);
    let built = GrowthBookClientBuilder::new()
        .features(vec![])
        .ttl(5000)
        .refresh_interval(7)
        .build()
        .expect("build");
    assert_eq!(built.refresh_interval, 7);
    assert_eq!(built.cache.as_ref().expect("cache").ttl_millis, 5000);
}

#[test]
fn is_on_and_is_off_are_opposites() {
    let feature = parse_feature(&obj(vec![("defaultValue", JsonValue::Bool(true))]));
    let mut client = build_client(vec![("flag".to_string(), feature)]);
    for name in ["flag", "missing"] {
        let on = client.is_on(name, &None);
        let off = client.is_off(name, &None);
        assert_eq!(on, !off, "{name}");
    }
}
