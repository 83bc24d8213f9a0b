use std::cell::RefCell;

use market_data_core::market_data_traits::{
    AssetProfilerPort, SecretResolver, SettingsServiceTrait,
};
use market_data_core::model::{
    AssetProfile, MarketDataError, MarketDataProviderSetting, QuoteSummary,
};
use market_data_core::provider_registry::{dedupe_by_symbol, rank_and_dedupe, ProviderRegistry};

fn setting(id: &str, priority: i32, enabled: bool) -> MarketDataProviderSetting {
    MarketDataProviderSetting {
        id: id.to_string(),
        name: id.to_string(),
        priority,
        enabled,
    }
}

struct FakeSecrets {
    key: Option<String>,
    fail: bool,
}

impl SecretResolver for FakeSecrets {
    fn get_secret(&self, _provider_id: &str) -> Result<Option<String>, String> {
        if self.fail {
            Err("secret store unavailable".to_string())
        } else {
            Ok(self.key.clone())
        }
    }
}

struct FakeSettings;

impl SettingsServiceTrait for FakeSettings {
    fn get_vn_market_service_url(&self) -> Result<String, String> {
        Ok("http://127.0.0.1:8765".to_string())
    }
}

fn build(settings: Vec<MarketDataProviderSetting>) -> ProviderRegistry {
    let secrets = FakeSecrets { key: Some("SECRET-REDACTED".to_string()), fail: false };
    ProviderRegistry::new(settings, &secrets, Some(&FakeSettings))
}

fn ordered_ids(registry: &ProviderRegistry) -> Vec<String> {
    registry.get_all_providers().iter().map(|e| e.id.clone()).collect()
}

#[test]
fn test_contains_vn_indicator() {
    // Queries with VN indicator
    assert!(ProviderRegistry::contains_vn_indicator("VN"));
    assert!(ProviderRegistry::contains_vn_indicator("vn"));
    assert!(ProviderRegistry::contains_vn_indicator("MBB.VN"));
    assert!(ProviderRegistry::contains_vn_indicator("FPT.vn"));
    assert!(ProviderRegistry::contains_vn_indicator("VN30"));
    assert!(ProviderRegistry::contains_vn_indicator("VNINDEX"));
    assert!(ProviderRegistry::contains_vn_indicator("vn_gold"));
    assert!(ProviderRegistry::contains_vn_indicator("VN_OIL"));
    assert!(ProviderRegistry::contains_vn_indicator("HNX"));
    assert!(ProviderRegistry::contains_vn_indicator("UPCOM"));

    // Queries without VN indicator
    assert!(!ProviderRegistry::contains_vn_indicator("FPT"));
    assert!(!ProviderRegistry::contains_vn_indicator("GOLD"));
    assert!(!ProviderRegistry::contains_vn_indicator("SILVER"));
    assert!(!ProviderRegistry::contains_vn_indicator("AAPL"));
    assert!(!ProviderRegistry::contains_vn_indicator("MSFT"));
    assert!(!ProviderRegistry::contains_vn_indicator(""));
    assert!(!ProviderRegistry::contains_vn_indicator("XAU"));
}

#[test]
fn disabled_settings_never_enter_the_registry() {
    let registry = build(vec![
        setting("YAHOO", 2, false),
        setting("MANUAL", 1, true),
        setting("VN_MARKET", 3, false),
    ]);
    let ids = ordered_ids(&registry);
    assert_eq!(ids, vec!["MANUAL".to_string()]);
    assert!(registry.get_provider("YAHOO").is_none());
    assert!(registry.get_provider("VN_MARKET").is_none());
    assert!(registry.get_profiler("YAHOO").is_none());
}

#[test]
fn priorities_order_the_registry() {
    let registry = build(vec![setting("YAHOO", 2, true), setting("MANUAL", 1, true)]);
    assert_eq!(ordered_ids(&registry), vec!["MANUAL".to_string(), "YAHOO".to_string()]);
}

#[test]
fn equal_priorities_keep_settings_order() {
    let registry = build(vec![
        setting("VN_MARKET", 1, true),
        setting("YAHOO", 1, true),
        setting("MANUAL", 1, true),
    ]);
    assert_eq!(
        ordered_ids(&registry),
        vec!["VN_MARKET".to_string(), "YAHOO".to_string(), "MANUAL".to_string()]
    );
}

#[test]
fn unknown_ids_and_failed_secrets_are_skipped() {
    let registry = build(vec![setting("NO_SUCH_PROVIDER", 1, true), setting("YAHOO", 2, true)]);
    assert_eq!(ordered_ids(&registry), vec!["YAHOO".to_string()]);

    let failing = FakeSecrets { key: None, fail: true };
    let registry = ProviderRegistry::new(
        vec![setting("MANUAL", 1, true), setting("YAHOO", 2, true)],
        &failing,
        Some(&FakeSettings),
    );
    // the secret lookup failure skips the manual provider, never the build
    assert_eq!(ordered_ids(&registry), vec!["YAHOO".to_string()]);
}

#[test]
fn keyed_providers_need_a_non_empty_key() {
    let empty = FakeSecrets { key: Some(String::new()), fail: false };
    let registry = ProviderRegistry::new(
        vec![setting("ALPHA_VANTAGE", 1, true), setting("YAHOO", 2, true)],
        &empty,
        Some(&FakeSettings),
    );
    assert_eq!(ordered_ids(&registry), vec!["YAHOO".to_string()]);

    let keyed = FakeSecrets { key: Some("SECRET-REDACTED".to_string()), fail: false };
    let registry = ProviderRegistry::new(
        vec![setting("ALPHA_VANTAGE", 1, true), setting("YAHOO", 2, true)],
        &keyed,
        Some(&FakeSettings),
    );
    assert_eq!(
        ordered_ids(&registry),
        vec!["ALPHA_VANTAGE".to_string(), "YAHOO".to_string()]
    );
    // marketdata.app registers as a provider without a profiler
    let registry = ProviderRegistry::new(
        vec![setting("MARKETDATA_APP", 1, true)],
        &keyed,
        Some(&FakeSettings),
    );
    assert!(registry.get_provider("MARKETDATA_APP").is_some());
    assert!(registry.get_profiler("MARKETDATA_APP").is_none());
}

#[test]
fn vn_suffix_routes_only_to_the_regional_provider() {
    let with_vn = build(vec![setting("YAHOO", 1, true), setting("VN_MARKET", 2, true)]);
    assert_eq!(with_vn.get_provider_for_symbol("MBB.VN"), Some("VN_MARKET"));
    assert_eq!(with_vn.get_provider_for_symbol("FPT.vn"), Some("VN_MARKET"));
    // the suffix match ignores case entirely
    assert_eq!(with_vn.get_provider_for_symbol("MBB.Vn"), Some("VN_MARKET"));
    assert_eq!(with_vn.get_provider_for_symbol("MBB.vN"), Some("VN_MARKET"));

    let without_vn = build(vec![setting("YAHOO", 1, true), setting("MANUAL", 2, true)]);
    assert_eq!(without_vn.get_provider_for_symbol("MBB.VN"), None);
    assert_eq!(without_vn.get_provider_for_symbol("MBB.Vn"), None);
}

#[test]
fn other_symbols_route_to_the_first_non_regional_provider() {
    let registry = build(vec![
        setting("VN_MARKET", 1, true),
        setting("YAHOO", 2, true),
        setting("MANUAL", 3, true),
    ]);
    assert_eq!(registry.get_provider_for_symbol("AAPL"), Some("YAHOO"));

    let only_vn = build(vec![setting("VN_MARKET", 1, true)]);
    assert_eq!(only_vn.get_provider_for_symbol("AAPL"), None);
}

/// A profiler port that records which profiler each call went to.
struct ScriptedProfilers {
    calls: RefCell<Vec<String>>,
    /// per profiler id: Ok with summaries, or an error message
    script: Vec<(String, Result<Vec<(String, u64)>, String>)>,
}

impl ScriptedProfilers {
    fn summary(symbol: &str, score: u64) -> QuoteSummary {
        QuoteSummary {
            symbol: symbol.to_string(),
            short_name: symbol.to_string(),
            long_name: symbol.to_string(),
            exchange: "TEST".to_string(),
            quote_type: "EQUITY".to_string(),
            type_display: "Stock".to_string(),
            score,
        }
    }
}

impl AssetProfilerPort for ScriptedProfilers {
    fn get_asset_profile(
        &self,
        _profiler_id: &str,
        symbol: &str,
    ) -> Result<AssetProfile, MarketDataError> {
        Err(MarketDataError::NotFound(symbol.to_string()))
    }

    fn search_ticker(
        &self,
        profiler_id: &str,
        _query: &str,
    ) -> Result<Vec<QuoteSummary>, MarketDataError> {
        self.calls.borrow_mut().push(profiler_id.to_string());
        for (id, outcome) in &self.script {
            if id == profiler_id {
                return match outcome {
                    Ok(rows) => Ok(rows
                        .iter()
                        .map(|(symbol, score)| Self::summary(symbol, *score))
                        .collect()),
                    Err(msg) => Err(MarketDataError::ProviderError(msg.clone())),
                };
            }
        }
        Ok(Vec::new())
    }
}

#[test]
fn vn_queries_visit_the_regional_profiler_first() {
    let registry = build(vec![setting("YAHOO", 1, true), setting("VN_MARKET", 2, true)]);
    let port = ScriptedProfilers {
        calls: RefCell::new(Vec::new()),
        script: vec![
            ("VN_MARKET".to_string(), Ok(vec![])),
            ("YAHOO".to_string(), Ok(vec![("AAPL".to_string(), 900000)])),
        ],
    };
    let results = registry.search_ticker(&port, "VN30").unwrap();
    // regional priority is respected even though the regional profiler
    // returned nothing: the search stops there
    assert_eq!(port.calls.borrow().clone(), vec!["VN_MARKET".to_string()]);
    assert!(results.is_empty());
}

#[test]
fn search_stops_at_the_first_profiler_with_results() {
    let registry = build(vec![setting("YAHOO", 1, true), setting("MANUAL", 2, true)]);
    let port = ScriptedProfilers {
        calls: RefCell::new(Vec::new()),
        script: vec![("YAHOO".to_string(), Ok(vec![("AAPL".to_string(), 900000)]))],
    };
    let results = registry.search_ticker(&port, "AAPL").unwrap();
    assert_eq!(port.calls.borrow().clone(), vec!["YAHOO".to_string()]);
    assert_eq!(results.len(), 1);
    assert_eq!(results[0].symbol, "AAPL");
}

#[test]
fn search_falls_back_past_errors_and_keeps_partial_results() {
    let registry = build(vec![setting("YAHOO", 1, true), setting("MANUAL", 2, true)]);
    let port = ScriptedProfilers {
        calls: RefCell::new(Vec::new()),
        script: vec![
            ("YAHOO".to_string(), Err("backend down".to_string())),
            ("MANUAL".to_string(), Ok(vec![("AAPL".to_string(), 700000)])),
        ],
    };
    let results = registry.search_ticker(&port, "AAPL").unwrap();
    assert_eq!(
        port.calls.borrow().clone(),
        vec!["YAHOO".to_string(), "MANUAL".to_string()]
    );
    assert_eq!(results.len(), 1);
}

#[test]
fn search_surfaces_an_error_only_when_all_failed_and_nothing_came_back() {
    let registry = build(vec![setting("YAHOO", 1, true)]);
    let port = ScriptedProfilers {
        calls: RefCell::new(Vec::new()),
        script: vec![("YAHOO".to_string(), Err("backend down".to_string()))],
    };
    match registry.search_ticker(&port, "AAPL") {
        Err(MarketDataError::ProviderError(msg)) => {
            assert_eq!(msg, "All profilers failed. Last error: backend down");
        }
        other => panic!("expected a provider error, got {:?}", other),
    }
}

#[test]
fn search_results_are_ranked_deduplicated_and_capped() {
    let registry = build(vec![setting("YAHOO", 1, true)]);
    let mut rows = Vec::new();
    for i in 0..12u64 {
        rows.push((format!("S{}", i), 10000 * i));
    }
    rows.push(("S3".to_string(), 1)); // duplicate symbol, lower score
    let port = ScriptedProfilers {
        calls: RefCell::new(Vec::new()),
        script: vec![("YAHOO".to_string(), Ok(rows))],
    };
    let results = registry.search_ticker(&port, "S").unwrap();
    assert!(results.len() <= 10);
    for pair in results.windows(2) {
        assert!(pair[0].score >= pair[1].score);
    }
    for i in 0..results.len() {
        for j in (i + 1)..results.len() {
            assert_ne!(results[i].symbol, results[j].symbol);
        }
    }
    assert_eq!(results[0].symbol, "S11");
}

#[test]
fn rank_and_dedupe_keeps_the_first_of_equal_symbols() {
    let rows = vec![
        ScriptedProfilers::summary("AAA", 500000),
        ScriptedProfilers::summary("BBB", 900000),
        ScriptedProfilers::summary("AAA", 700000),
    ];
    let ranked = rank_and_dedupe(rows);
    assert_eq!(ranked.len(), 2);
    assert_eq!(ranked[0].symbol, "BBB");
    assert_eq!(ranked[0].score, 900000);
    assert_eq!(ranked[1].symbol, "AAA");
    assert_eq!(ranked[1].score, 700000);
}

#[test]
fn equal_scores_keep_encounter_order() {
    let rows = vec![
        ScriptedProfilers::summary("FIRST", 700000),
        ScriptedProfilers::summary("SECOND", 700000),
        ScriptedProfilers::summary("THIRD", 700000),
        ScriptedProfilers::summary("TOP", 900000),
    ];
    let ranked = rank_and_dedupe(rows);
    let symbols: Vec<&str> = ranked.iter().map(|s| s.symbol.as_str()).collect();
    assert_eq!(symbols, vec!["TOP", "FIRST", "SECOND", "THIRD"]);
}


#[test]
fn search_without_profilers_succeeds_with_nothing() {
    // marketdata.app is the one backend without a profiler
    let keyed = FakeSecrets { key: Some("SECRET-REDACTED".to_string()), fail: false };
    let registry = ProviderRegistry::new(
        vec![setting("MARKETDATA_APP", 1, true)],
        &keyed,
        Some(&FakeSettings),
    );
    let port = ScriptedProfilers {
        calls: RefCell::new(Vec::new()),
        script: vec![("MARKETDATA_APP".to_string(), Err("never consulted".to_string()))],
    };
    let results = registry.search_ticker(&port, "AAPL").unwrap();
    assert!(results.is_empty());
    assert!(port.calls.borrow().is_empty());
}

#[test]
fn dedupe_keeps_the_best_scored_first_occurrence() {
    let rows = vec![
        ScriptedProfilers::summary("AAA", 900000),
        ScriptedProfilers::summary("BBB", 800000),
        ScriptedProfilers::summary("AAA", 700000),
        ScriptedProfilers::summary("BBB", 600000),
    ];
    let kept = dedupe_by_symbol(rows);
    assert_eq!(kept.len(), 2);
    assert_eq!((kept[0].symbol.as_str(), kept[0].score), ("AAA", 900000));
    assert_eq!((kept[1].symbol.as_str(), kept[1].score), ("BBB", 800000));
}
