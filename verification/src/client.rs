use vstd::prelude::*;

verus! {

use crate::cache::InMemoryCache;
use crate::error::{GrowthbookError, GrowthbookErrorCode};
use crate::growthbook::{GrowthBook, GrowthBookResponse, spec_gb_check};
use crate::model_public::{GrowthBookAttribute, FeatureResult, FeatureSource, spec_result_wf};
use crate::dto::GrowthBookFeature;
use crate::feature::feature_rule_experiment::spec_sticky_model;
use crate::sticky_bucket::InMemoryStickyBucketService;

/// Builds a client from its options. Building succeeds when manual
/// features are given, or when both an API URL and a client key are.
#[derive(Debug)]
pub struct GrowthBookClientBuilder {
    pub api_url: Option<String>,
    pub client_key: Option<String>,
    pub decryption_key: Option<String>,
    pub cache: Option<InMemoryCache>,
    pub ttl: Option<u64>,
    pub auto_refresh: bool,
    pub refresh_interval: Option<u64>,
    pub attributes: Option<Vec<GrowthBookAttribute>>,
    pub features: Option<Vec<(String, GrowthBookFeature)>>,
    pub sticky_bucket_service: Option<InMemoryStickyBucketService>,
}

impl GrowthBookClientBuilder {
    /// A builder with nothing set.
    pub fn new() -> (r: GrowthBookClientBuilder)
        ensures
            r.api_url is None,
            r.client_key is None,
            r.decryption_key is None,
            r.cache is None,
            r.ttl is None,
            !r.auto_refresh,
            r.refresh_interval is None,
            r.attributes is None,
            r.features is None,
            r.sticky_bucket_service is None,
    {
        GrowthBookClientBuilder {
            api_url: None,
            client_key: None,
            decryption_key: None,
            cache: None,
            ttl: None,
            auto_refresh: false,
            refresh_interval: None,
            attributes: None,
            features: None,
            sticky_bucket_service: None,
        }
    }

    /// Sets the base URL the fetcher reads from.
    pub fn api_url(self, api_url: String) -> (r: GrowthBookClientBuilder)
        ensures
            r == (GrowthBookClientBuilder { api_url: Some(api_url), ..self }),
    {
        GrowthBookClientBuilder { api_url: Some(api_url), ..self }
    }

    /// Sets the credential appended to the fetch path.
    pub fn client_key(self, client_key: String) -> (r: GrowthBookClientBuilder)
        ensures
            r == (GrowthBookClientBuilder { client_key: Some(client_key), ..self }),
    {
        GrowthBookClientBuilder { client_key: Some(client_key), ..self }
    }

    /// Sets the key that decrypts encrypted feature payloads.
    pub fn decryption_key(self, decryption_key: String) -> (r: GrowthBookClientBuilder)
        ensures
            r == (GrowthBookClientBuilder { decryption_key: Some(decryption_key), ..self }),
    {
        GrowthBookClientBuilder { decryption_key: Some(decryption_key), ..self }
    }

    /// Supplies the response cache to use.
    pub fn cache(self, cache: InMemoryCache) -> (r: GrowthBookClientBuilder)
        ensures
            r == (GrowthBookClientBuilder { cache: Some(cache), ..self }),
    {
        GrowthBookClientBuilder { cache: Some(cache), ..self }
    }

    /// Sets the lifetime of cached responses, in milliseconds.
    pub fn ttl(self, ttl: u64) -> (r: GrowthBookClientBuilder)
        ensures
            r == (GrowthBookClientBuilder { ttl: Some(ttl), ..self }),
    {
        GrowthBookClientBuilder { ttl: Some(ttl), ..self }
    }

    /// Chooses whether a background refresh loop should run.
    pub fn auto_refresh(self, auto_refresh: bool) -> (r: GrowthBookClientBuilder)
        ensures
            r == (GrowthBookClientBuilder { auto_refresh, ..self }),
    {
        GrowthBookClientBuilder { auto_refresh, ..self }
    }

    /// Sets the period between refreshes, in seconds.
    pub fn refresh_interval(self, interval: u64) -> (r: GrowthBookClientBuilder)
        ensures
            r == (GrowthBookClientBuilder { refresh_interval: Some(interval), ..self }),
    {
        GrowthBookClientBuilder { refresh_interval: Some(interval), ..self }
    }

    /// Sets the global attributes merged into evaluations that give
    /// none of their own.
    pub fn attributes(self, attributes: Vec<GrowthBookAttribute>) -> (r: GrowthBookClientBuilder)
        ensures
            r == (GrowthBookClientBuilder { attributes: Some(attributes), ..self }),
    {
        GrowthBookClientBuilder { attributes: Some(attributes), ..self }
    }

    /// Supplies manual features, which make the client work with no
    /// transport at all.
    pub fn features(self, features: Vec<(String, GrowthBookFeature)>) -> (r:
        GrowthBookClientBuilder)
        ensures
            r == (GrowthBookClientBuilder { features: Some(features), ..self }),
    {
        GrowthBookClientBuilder { features: Some(features), ..self }
    }

    /// Injects the sticky-bucket persistence store.
    pub fn sticky_bucket_service(self, service: InMemoryStickyBucketService) -> (r:
        GrowthBookClientBuilder)
        ensures
            r == (GrowthBookClientBuilder { sticky_bucket_service: Some(service), ..self }),
    {
        GrowthBookClientBuilder { sticky_bucket_service: Some(service), ..self }
    }

    /// Builds the client. Succeeds exactly when manual features are
    /// set, or both the API URL and the client key are; the snapshot
    /// starts from the manual features, or empty until a refresh,
    /// with no forced variations and the given attributes and sticky
    /// store. The refresh period is the one set, else sixty seconds;
    /// the cache is the one supplied, else a fresh in-memory cache
    /// whose lifetime is the ttl option, else sixty seconds.
    pub fn build(self) -> (r: Result<GrowthBookClient, GrowthbookError>)
        ensures
            r is Ok <==> (self.features is Some || (self.api_url is Some && self.client_key
                is Some)),
            r is Err ==> r->Err_0.code == GrowthbookErrorCode::ConfigError,
            r is Ok ==> (match self.features {
                Some(fs) => r->Ok_0.gb.features == fs,
                None => r->Ok_0.gb.features@.len() == 0,
            }) && r->Ok_0.gb.attributes == self.attributes && r->Ok_0.gb.forced_variations
                is None && r->Ok_0.gb.sticky_bucket_service == self.sticky_bucket_service
                && r->Ok_0.auto_refresh == self.auto_refresh && r->Ok_0.offline == (self.api_url
                is None || self.client_key is None),
            r is Ok ==> r->Ok_0.refresh_interval == (match self.refresh_interval {
                Some(v) => v,
                None => 60,
            }),
            r is Ok ==> (match self.cache {
                Some(c) => r->Ok_0.cache == Some(c),
                None => r->Ok_0.cache matches Some(c) && c.ttl_millis == (match self.ttl {
                    Some(t) => t,
                    None => 60000,
                }) && c.entries@.len() == 0,
            }),
    {
        let has_manual = self.features.is_some();
        let has_transport = self.api_url.is_some() && self.client_key.is_some();
        if !has_manual && !has_transport {
            return Err(
                GrowthbookError::new(
                    GrowthbookErrorCode::ConfigError,
                    "either manual features or an API URL and client key are required",
                ),
            );
        }
        let features: Vec<(String, GrowthBookFeature)> = match self.features {
            Some(fs) => fs,
            None => Vec::new(),
        };
        let refresh_interval: u64 = match self.refresh_interval {
            Some(v) => v,
            None => 60,
        };
        let cache: Option<InMemoryCache> = match self.cache {
            Some(c) => Some(c),
            None => Some(
                InMemoryCache::new(
                    match self.ttl {
                        Some(t) => t,
                        None => 60000,
                    },
                ),
            ),
        };
        Ok(
            GrowthBookClient {
                gb: GrowthBook {
                    features,
                    forced_variations: None,
                    attributes: self.attributes,
                    sticky_bucket_service: self.sticky_bucket_service,
                },
                cache,
                auto_refresh: self.auto_refresh,
                refresh_interval,
                offline: !has_transport,
            },
        )
    }
}

/// The client: a configuration snapshot and the evaluation entry
/// points. Fetching, decryption and the refresh loop live outside;
/// they feed `update_gb` with parsed responses.
#[derive(Debug)]
pub struct GrowthBookClient {
    pub gb: GrowthBook,
    pub cache: Option<InMemoryCache>,
    pub auto_refresh: bool,
    pub refresh_interval: u64,
    pub offline: bool,
}

/// Whether the usage callback fires for a result: every evaluation
/// reports, except unknown features and prerequisite outcomes.
pub open spec fn spec_fires_usage(source: FeatureSource) -> bool {
    source != FeatureSource::UnknownFeature && source != FeatureSource::Prerequisite && source
        != FeatureSource::CyclicPrerequisite
}

impl GrowthBookClient {
    /// Replaces the snapshot with a fetched response, keeping the
    /// attributes and sticky store the client already carries.
    pub fn update_gb(&mut self, response: GrowthBookResponse)
        ensures
            final(self).gb.features == response.features,
            final(self).gb.forced_variations == response.forced_variations,
            final(self).gb.attributes == old(self).gb.attributes,
            final(self).auto_refresh == old(self).auto_refresh,
            final(self).refresh_interval == old(self).refresh_interval,
            final(self).offline == old(self).offline,
    {
        self.gb.features = response.features;
        self.gb.forced_variations = response.forced_variations;
    }

    /// Evaluates a feature and says which callbacks the caller must
    /// fire: the usage callback for every result but unknown-feature
    /// and prerequisite outcomes, the experiment callback when the
    /// result carries an experiment the user is in. The result and
    /// the new sticky store are exactly what the evaluation model
    /// says of the snapshot; everything else in the client is
    /// untouched.
    pub fn resolve_feature(
        &mut self,
        feature_name: &str,
        user_attributes: &Option<Vec<GrowthBookAttribute>>,
    ) -> (r: (FeatureResult, bool, bool))
        ensures
            ({
                let out = spec_gb_check(old(self).gb, feature_name@, *user_attributes);
                &&& r.0@ == out.0
                &&& spec_sticky_model::<InMemoryStickyBucketService>(
                    final(self).gb.sticky_bucket_service,
                ) == out.1
            }),
            spec_result_wf(r.0@),
            r.1 == spec_fires_usage(r.0.source),
            r.2 == (r.0@.experiment_result matches Some(er) && er.in_experiment),
            final(self).gb.features == old(self).gb.features,
            final(self).gb.forced_variations == old(self).gb.forced_variations,
            final(self).gb.attributes == old(self).gb.attributes,
            final(self).cache == old(self).cache,
            final(self).auto_refresh == old(self).auto_refresh,
            final(self).refresh_interval == old(self).refresh_interval,
            final(self).offline == old(self).offline,
    {
        let result = self.gb.check(feature_name, user_attributes);
        let fires_usage = match result.source {
            FeatureSource::UnknownFeature => false,
            FeatureSource::Prerequisite => false,
            FeatureSource::CyclicPrerequisite => false,
            _ => true,
        };
        let fires_experiment = match &result.experiment_result {
            Some(er) => er.in_experiment,
            None => false,
        };
        (result, fires_usage, fires_experiment)
    }

    /// Whether the feature evaluates on for the user: the `on` bit of
    /// the evaluation, which is the negation of its `off` bit.
    pub fn is_on(
        &mut self,
        feature_name: &str,
        user_attributes: &Option<Vec<GrowthBookAttribute>>,
    ) -> (r: bool)
        ensures
            r == spec_gb_check(old(self).gb, feature_name@, *user_attributes).0.on,
            r == !spec_gb_check(old(self).gb, feature_name@, *user_attributes).0.off,
            spec_sticky_model::<InMemoryStickyBucketService>(final(self).gb.sticky_bucket_service)
                == spec_gb_check(old(self).gb, feature_name@, *user_attributes).1,
            final(self).gb.features == old(self).gb.features,
            final(self).gb.forced_variations == old(self).gb.forced_variations,
            final(self).gb.attributes == old(self).gb.attributes,
    {
        let out = self.resolve_feature(feature_name, user_attributes);
        out.0.on
    }

    /// Whether the feature evaluates off for the user: the `off` bit
    /// of the evaluation, which is the negation of its `on` bit.
    pub fn is_off(
        &mut self,
        feature_name: &str,
        user_attributes: &Option<Vec<GrowthBookAttribute>>,
    ) -> (r: bool)
        ensures
            r == spec_gb_check(old(self).gb, feature_name@, *user_attributes).0.off,
            r == !spec_gb_check(old(self).gb, feature_name@, *user_attributes).0.on,
            spec_sticky_model::<InMemoryStickyBucketService>(final(self).gb.sticky_bucket_service)
                == spec_gb_check(old(self).gb, feature_name@, *user_attributes).1,
            final(self).gb.features == old(self).gb.features,
            final(self).gb.forced_variations == old(self).gb.forced_variations,
            final(self).gb.attributes == old(self).gb.attributes,
    {
        let out = self.resolve_feature(feature_name, user_attributes);
        out.0.off
    }

    /// The full result of evaluating the feature, exactly as the
    /// evaluation model says.
    pub fn feature_result(
        &mut self,
        feature_name: &str,
        user_attributes: &Option<Vec<GrowthBookAttribute>>,
    ) -> (r: FeatureResult)
        ensures
            r@ == spec_gb_check(old(self).gb, feature_name@, *user_attributes).0,
            spec_sticky_model::<InMemoryStickyBucketService>(final(self).gb.sticky_bucket_service)
                == spec_gb_check(old(self).gb, feature_name@, *user_attributes).1,
            spec_result_wf(r@),
            final(self).gb.features == old(self).gb.features,
            final(self).gb.forced_variations == old(self).gb.forced_variations,
            final(self).gb.attributes == old(self).gb.attributes,
    {
        let out = self.resolve_feature(feature_name, user_attributes);
        out.0
    }

    /// How many features the snapshot holds.
    pub fn total_features(&self) -> (r: usize)
        ensures
            r == self.gb.features@.len(),
    {
        self.gb.count()
    }
}

/// The evaluation entry points of a client.
pub trait GrowthBookClientTrait {
    /// Whether the feature evaluates on for the user.
    fn is_on(&mut self, feature_name: &str, user_attributes: &Option<Vec<GrowthBookAttribute>>)
        -> bool;

    /// Whether the feature evaluates off for the user.
    fn is_off(&mut self, feature_name: &str, user_attributes: &Option<Vec<GrowthBookAttribute>>)
        -> bool;

    /// The full result of evaluating the feature.
    fn feature_result(
        &mut self,
        feature_name: &str,
        user_attributes: &Option<Vec<GrowthBookAttribute>>,
    ) -> FeatureResult;

    /// How many features the snapshot holds.
    fn total_features(&self) -> usize;
}

impl GrowthBookClientTrait for GrowthBookClient {
    fn is_on(&mut self, feature_name: &str, user_attributes: &Option<Vec<GrowthBookAttribute>>)
        -> bool {
        GrowthBookClient::is_on(self, feature_name, user_attributes)
    }

    fn is_off(&mut self, feature_name: &str, user_attributes: &Option<Vec<GrowthBookAttribute>>)
        -> bool {
        GrowthBookClient::is_off(self, feature_name, user_attributes)
    }

    fn feature_result(
        &mut self,
        feature_name: &str,
        user_attributes: &Option<Vec<GrowthBookAttribute>>,
    ) -> FeatureResult {
        GrowthBookClient::feature_result(self, feature_name, user_attributes)
    }

    fn total_features(&self) -> usize {
        GrowthBookClient::total_features(self)
    }
}

} // verus!
