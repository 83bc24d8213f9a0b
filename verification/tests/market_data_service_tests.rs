use std::cell::RefCell;

use market_data_core::date::CivilDate;
use market_data_core::decimal::DecimalNumber;
use market_data_core::market_data_traits::{
    AssetProfilerPort, AssetRepositoryTrait, MarketDataRepositoryTrait, ProviderPort,
    SecretResolver, SettingsServiceTrait,
};
use market_data_core::market_data_service::{
    csv_row_should_write, reconcile_csv_row, validate_quote_rules, MarketDataService,
};
use market_data_core::model::{
    Asset, AssetProfile, DataSource, ImportValidationStatus, LatestQuotePair, MarketDataError,
    MarketDataProviderSetting, Quote, QuoteImport, QuoteRequest, QuoteSummary,
    UpdateMarketDataProviderSetting,
};
use market_data_core::provider_registry::ProviderRegistry;

fn dec(mantissa: u128, scale: u32) -> DecimalNumber {
    DecimalNumber { negative: false, mantissa, scale }
}

fn neg(mantissa: u128, scale: u32) -> DecimalNumber {
    DecimalNumber { negative: true, mantissa, scale }
}

fn row(symbol: &str, date: &str, close: DecimalNumber) -> QuoteImport {
    QuoteImport {
        symbol: symbol.to_string(),
        date: date.to_string(),
        open: None,
        high: None,
        low: None,
        close,
        volume: None,
        currency: "USD".to_string(),
        validation_status: ImportValidationStatus::Valid,
        error_message: None,
    }
}

struct FakeSecrets;

impl SecretResolver for FakeSecrets {
    fn get_secret(&self, _provider_id: &str) -> Result<Option<String>, String> {
        Ok(Some("SECRET-REDACTED".to_string()))
    }
}

struct FakeSettings;

impl SettingsServiceTrait for FakeSettings {
    fn get_vn_market_service_url(&self) -> Result<String, String> {
        Ok("http://127.0.0.1:8765".to_string())
    }
}

#[derive(Default)]
struct FakeRepository {
    existing: Vec<(String, String)>,
    exists_fails: bool,
    save_fails: bool,
    batch_save_fails: bool,
    saved_quotes: RefCell<Vec<Quote>>,
    batch_saves: RefCell<usize>,
}

impl MarketDataRepositoryTrait for FakeRepository {
    fn save_quote(&self, quote: &Quote) -> Result<Quote, String> {
        if self.save_fails {
            return Err("disk full".to_string());
        }
        self.saved_quotes.borrow_mut().push(quote.clone());
        Ok(quote.clone())
    }

    fn save_quotes(&self, quotes: &Vec<Quote>) -> Result<(), String> {
        *self.batch_saves.borrow_mut() += 1;
        if self.batch_save_fails {
            return Err("disk full".to_string());
        }
        self.saved_quotes.borrow_mut().extend(quotes.iter().cloned());
        Ok(())
    }

    fn bulk_upsert_quotes(&self, quotes: Vec<Quote>) -> Result<usize, String> {
        Ok(quotes.len())
    }

    fn quote_exists(&self, symbol: &str, date: &str) -> Result<bool, String> {
        if self.exists_fails {
            return Err("connection lost".to_string());
        }
        Ok(self
            .existing
            .iter()
            .any(|(s, d)| s == symbol && d == date))
    }

    fn get_all_providers(&self) -> Result<Vec<MarketDataProviderSetting>, String> {
        Ok(Vec::new())
    }

    fn update_provider_settings(
        &self,
        provider_id: String,
        changes: UpdateMarketDataProviderSetting,
    ) -> Result<MarketDataProviderSetting, String> {
        Ok(MarketDataProviderSetting {
            id: provider_id,
            name: "updated".to_string(),
            priority: changes.priority.unwrap_or(0),
            enabled: changes.enabled.unwrap_or(true),
        })
    }

    fn get_latest_quotes_pair_for_symbols(
        &self,
        _symbol_source_pairs: &Vec<(String, String)>,
    ) -> Result<Vec<(String, LatestQuotePair)>, String> {
        Ok(Vec::new())
    }

    fn get_historical_quotes_for_symbols_in_range(
        &self,
        _symbols: &Vec<String>,
        _start_date: CivilDate,
        _end_date: CivilDate,
    ) -> Result<Vec<Quote>, String> {
        Ok(Vec::new())
    }
}

struct FakeAssets {
    known: Vec<String>,
}

impl AssetRepositoryTrait for FakeAssets {
    fn list_by_symbols(&self, symbols: &Vec<String>) -> Result<Vec<Asset>, String> {
        Ok(self
            .known
            .iter()
            .filter(|k| symbols.contains(k))
            .map(|k| Asset { id: k.clone(), symbol: k.clone() })
            .collect())
    }
}

/// A provider port scripted per provider id.
#[derive(Default)]
struct FakeProviders {
    /// symbols whose bulk fetch succeeds, with one quote each
    quotes: Vec<Quote>,
    /// symbols the provider reports as failed
    failed_symbols: Vec<(String, String, Option<String>)>,
    whole_call_fails: bool,
}

fn quote(symbol: &str, timestamp: i64, close: DecimalNumber) -> Quote {
    Quote {
        id: format!("{}@{}", symbol, timestamp),
        symbol: symbol.to_string(),
        timestamp,
        open: close,
        high: close,
        low: close,
        close,
        adjclose: close,
        volume: dec(0, 0),
        currency: "USD".to_string(),
        data_source: DataSource::Yahoo,
        created_at: 0,
    }
}

impl ProviderPort for FakeProviders {
    fn get_historical_quotes(
        &self,
        _provider_id: &str,
        symbol: &str,
        _start: i64,
        _end: i64,
        _fallback_currency: &str,
    ) -> Result<Vec<Quote>, MarketDataError> {
        if self.whole_call_fails {
            return Err(MarketDataError::ProviderError("backend down".to_string()));
        }
        Ok(self
            .quotes
            .iter()
            .filter(|q| q.symbol == symbol)
            .cloned()
            .collect())
    }

    fn get_historical_quotes_bulk(
        &self,
        _provider_id: &str,
        symbols_with_currencies: &Vec<(String, String, Option<String>)>,
        _start: i64,
        _end: i64,
    ) -> Result<(Vec<Quote>, Vec<(String, String, Option<String>)>), MarketDataError> {
        if self.whole_call_fails {
            return Err(MarketDataError::ProviderError("backend down".to_string()));
        }
        let requested: Vec<&String> =
            symbols_with_currencies.iter().map(|(s, _, _)| s).collect();
        Ok((
            self.quotes
                .iter()
                .filter(|q| requested.contains(&&q.symbol))
                .cloned()
                .collect(),
            self.failed_symbols.clone(),
        ))
    }
}

impl AssetProfilerPort for FakeProviders {
    fn get_asset_profile(
        &self,
        _profiler_id: &str,
        symbol: &str,
    ) -> Result<AssetProfile, MarketDataError> {
        Err(MarketDataError::NotFound(symbol.to_string()))
    }

    fn search_ticker(
        &self,
        _profiler_id: &str,
        _query: &str,
    ) -> Result<Vec<QuoteSummary>, MarketDataError> {
        Ok(Vec::new())
    }
}

fn registry() -> ProviderRegistry {
    ProviderRegistry::new(
        vec![
            MarketDataProviderSetting {
                id: "YAHOO".to_string(),
                name: "Yahoo".to_string(),
                priority: 1,
                enabled: true,
            },
            MarketDataProviderSetting {
                id: "VN_MARKET".to_string(),
                name: "VN market".to_string(),
                priority: 2,
                enabled: true,
            },
        ],
        &FakeSecrets,
        Some(&FakeSettings),
    )
}

fn service(
    repository: FakeRepository,
    assets: FakeAssets,
    providers: FakeProviders,
) -> MarketDataService<FakeRepository, FakeAssets, FakeProviders> {
    MarketDataService::new(registry(), repository, assets, providers)
}

#[test]
fn boundary_equal_prices_validate() {
    let one = dec(1000, 1);
    let mut r = row("AAPL", "2024-01-01", one);
    r.open = Some(one);
    r.high = Some(one);
    r.low = Some(one);
    assert_eq!(validate_quote_rules(&r, true), ImportValidationStatus::Valid);
}

#[test]
fn negative_close_is_rejected() {
    let r = row("AAPL", "2024-01-01", neg(1, 0));
    assert_eq!(
        validate_quote_rules(&r, true),
        ImportValidationStatus::Error("Prices cannot be negative".to_string())
    );
}

#[test]
fn unknown_asset_is_rejected_first() {
    let r = row("ZZZZ", "2024-01-01", dec(1, 0));
    assert_eq!(
        validate_quote_rules(&r, false),
        ImportValidationStatus::Error("Asset 'ZZZZ' not found".to_string())
    );
}

#[test]
fn price_relation_rules_fire_in_order() {
    let mut r = row("AAPL", "2024-01-01", dec(10, 0));
    r.high = Some(dec(5, 0));
    r.open = Some(dec(7, 0));
    assert_eq!(
        validate_quote_rules(&r, true),
        ImportValidationStatus::Error("High price must be >= open price".to_string())
    );

    let mut r = row("AAPL", "2024-01-01", dec(10, 0));
    r.high = Some(dec(5, 0));
    assert_eq!(
        validate_quote_rules(&r, true),
        ImportValidationStatus::Error("High price must be >= close price".to_string())
    );

    let mut r = row("AAPL", "2024-01-01", dec(1, 0));
    r.high = Some(dec(5, 0));
    r.low = Some(dec(7, 0));
    assert_eq!(
        validate_quote_rules(&r, true),
        ImportValidationStatus::Error("High price must be >= low price".to_string())
    );

    let mut r = row("AAPL", "2024-01-01", dec(10, 0));
    r.low = Some(dec(5, 0));
    r.open = Some(dec(3, 0));
    r.high = Some(dec(20, 0));
    assert_eq!(
        validate_quote_rules(&r, true),
        ImportValidationStatus::Error("Low price must be <= open price".to_string())
    );

    let mut r = row("AAPL", "2024-01-01", dec(1, 0));
    r.low = Some(dec(5, 0));
    assert_eq!(
        validate_quote_rules(&r, true),
        ImportValidationStatus::Error("Low price must be <= close price".to_string())
    );

    let mut r = row("AAPL", "2024-01-01", dec(1, 0));
    r.volume = Some(neg(1, 0));
    assert_eq!(
        validate_quote_rules(&r, true),
        ImportValidationStatus::Error("Volume cannot be negative".to_string())
    );
}

#[test]
fn scale_aware_comparisons_validate() {
    // 1.50 == 1.5 at different scales; 1.49 < 1.5
    let mut r = row("AAPL", "2024-01-01", dec(15, 1));
    r.high = Some(dec(150, 2));
    r.low = Some(dec(149, 2));
    r.open = Some(dec(1500, 3));
    assert_eq!(validate_quote_rules(&r, true), ImportValidationStatus::Valid);

    let mut r = row("AAPL", "2024-01-01", dec(15, 1));
    r.high = Some(dec(149, 2));
    assert_eq!(
        validate_quote_rules(&r, true),
        ImportValidationStatus::Error("High price must be >= close price".to_string())
    );
}

#[test]
fn import_quotes_validates_and_persists_in_one_batch() {
    let repo = FakeRepository::default();
    let svc = service(
        repo,
        FakeAssets { known: vec!["AAPL".to_string()] },
        FakeProviders::default(),
    );
    let rows = vec![
        row("AAPL", "2024-01-02", dec(150, 0)),
        row("MISSING", "2024-01-02", dec(1, 0)),
    ];
    let statuses = svc.import_quotes(&rows).unwrap();
    assert_eq!(statuses.len(), 2);
    assert_eq!(statuses[0], ImportValidationStatus::Valid);
    assert_eq!(
        statuses[1],
        ImportValidationStatus::Error("Asset 'MISSING' not found".to_string())
    );
    assert_eq!(*svc.repository.batch_saves.borrow(), 1);
    let saved = svc.repository.saved_quotes.borrow();
    assert_eq!(saved.len(), 1);
    // the import id is the symbol and the date without dashes
    assert_eq!(saved[0].id, "AAPL_20240102");
    // absent prices default to close in this path, absent volume to zero
    assert_eq!(saved[0].open, dec(150, 0));
    assert_eq!(saved[0].high, dec(150, 0));
    assert_eq!(saved[0].low, dec(150, 0));
    assert_eq!(saved[0].adjclose, dec(150, 0));
    assert_eq!(saved[0].volume, dec(0, 0));
    // midnight of 2024-01-02
    assert_eq!(saved[0].timestamp, 1704153600);
}

#[test]
fn csv_import_marks_existing_rows_and_skips_their_write() {
    let repo = FakeRepository {
        existing: vec![("AAPL".to_string(), "2024-01-02".to_string())],
        ..FakeRepository::default()
    };
    let svc = service(
        repo,
        FakeAssets { known: vec!["AAPL".to_string()] },
        FakeProviders::default(),
    );
    let rows = vec![row("AAPL", "2024-01-02", dec(150, 0))];
    let out = svc.import_quotes_from_csv(rows, false).unwrap();
    assert_eq!(out.len(), 1);
    assert_eq!(
        out[0].validation_status,
        ImportValidationStatus::Warning("Quote already exists".to_string())
    );
    assert_eq!(
        out[0].error_message,
        Some("Quote already exists (use overwrite to replace)".to_string())
    );
    // no write was issued for the existing row
    assert!(svc.repository.saved_quotes.borrow().is_empty());
}

#[test]
fn csv_import_overwrite_writes_over_existing_rows() {
    let repo = FakeRepository {
        existing: vec![("AAPL".to_string(), "2024-01-02".to_string())],
        ..FakeRepository::default()
    };
    let svc = service(
        repo,
        FakeAssets { known: vec!["AAPL".to_string()] },
        FakeProviders::default(),
    );
    let rows = vec![row("AAPL", "2024-01-02", dec(150, 0))];
    let out = svc.import_quotes_from_csv(rows, true).unwrap();
    assert_eq!(out[0].validation_status, ImportValidationStatus::Valid);
    let saved = svc.repository.saved_quotes.borrow();
    assert_eq!(saved.len(), 1);
    // this path defaults absent prices and volume to zero
    assert_eq!(saved[0].open, dec(0, 0));
    assert_eq!(saved[0].high, dec(0, 0));
    assert_eq!(saved[0].low, dec(0, 0));
    assert_eq!(saved[0].volume, dec(0, 0));
    assert_eq!(saved[0].close, dec(150, 0));
    // the id is a freshly generated 36-character UUID, not the symbol key
    assert_eq!(saved[0].id.len(), 36);
    assert_ne!(saved[0].id, "AAPL_20240102");
}

#[test]
fn csv_import_rejects_bad_dates_and_reports_save_failures() {
    let repo = FakeRepository { save_fails: true, ..FakeRepository::default() };
    let svc = service(
        repo,
        FakeAssets { known: vec!["AAPL".to_string()] },
        FakeProviders::default(),
    );
    let rows = vec![
        row("AAPL", "02/01/2024", dec(150, 0)),
        row("AAPL", "2024-01-02", dec(150, 0)),
    ];
    let out = svc.import_quotes_from_csv(rows, true).unwrap();
    assert_eq!(
        out[0].validation_status,
        ImportValidationStatus::Error("Invalid date format: 02/01/2024".to_string())
    );
    assert_eq!(
        out[1].validation_status,
        ImportValidationStatus::Error("Failed to save: disk full".to_string())
    );
}

#[test]
fn csv_import_reports_lookup_failures_per_row() {
    let repo = FakeRepository { exists_fails: true, ..FakeRepository::default() };
    let svc = service(
        repo,
        FakeAssets { known: vec!["AAPL".to_string()] },
        FakeProviders::default(),
    );
    let rows = vec![row("AAPL", "2024-01-02", dec(150, 0))];
    let out = svc.import_quotes_from_csv(rows, false).unwrap();
    assert_eq!(
        out[0].validation_status,
        ImportValidationStatus::Error("Database error: connection lost".to_string())
    );
}

#[test]
fn bulk_retrieval_is_all_or_nothing() {
    let providers = FakeProviders {
        quotes: vec![quote("AAPL", 100, dec(150, 0))],
        ..FakeProviders::default()
    };
    let svc = service(
        FakeRepository::default(),
        FakeAssets { known: vec![] },
        providers,
    );
    let requests = vec![
        QuoteRequest {
            symbol: "AAPL".to_string(),
            currency: "USD".to_string(),
            data_source: DataSource::Yahoo,
        },
        // a regional symbol with no regional provider for it registered
        // resolves nowhere in a registry without one; here VN_MARKET is
        // registered, so use a symbol no provider takes after VN routing
        QuoteRequest {
            symbol: "MBB.VN".to_string(),
            currency: "VND".to_string(),
            data_source: DataSource::Yahoo,
        },
    ];
    // both resolve here: AAPL to YAHOO, MBB.VN to VN_MARKET; the VN fetch
    // returns nothing and reports nothing failed, so the call succeeds
    let quotes = svc.get_latest_quotes_bulk(&requests).unwrap();
    assert_eq!(quotes.len(), 1);

    // with a registry lacking the regional provider, the second request
    // cannot resolve, and the whole call fails despite the computable
    // first quote
    let svc = MarketDataService::new(
        ProviderRegistry::new(
            vec![MarketDataProviderSetting {
                id: "YAHOO".to_string(),
                name: "Yahoo".to_string(),
                priority: 1,
                enabled: true,
            }],
            &FakeSecrets,
            Some(&FakeSettings),
        ),
        FakeRepository::default(),
        FakeAssets { known: vec![] },
        FakeProviders {
            quotes: vec![quote("AAPL", 100, dec(150, 0))],
            ..FakeProviders::default()
        },
    );
    match svc.get_latest_quotes_bulk(&requests) {
        Err(MarketDataError::ProviderError(msg)) => {
            assert_eq!(msg, "Failed to fetch 1 quotes");
        }
        other => panic!("expected the all-or-nothing error, got {:?}", other),
    }
}

#[test]
fn bulk_retrieval_keeps_the_latest_quote_per_symbol() {
    let providers = FakeProviders {
        quotes: vec![
            quote("AAPL", 100, dec(150, 0)),
            quote("AAPL", 300, dec(155, 0)),
            quote("AAPL", 200, dec(152, 0)),
        ],
        ..FakeProviders::default()
    };
    let svc = service(
        FakeRepository::default(),
        FakeAssets { known: vec![] },
        providers,
    );
    let requests = vec![QuoteRequest {
        symbol: "AAPL".to_string(),
        currency: "USD".to_string(),
        data_source: DataSource::Yahoo,
    }];
    let quotes = svc.get_latest_quotes_bulk(&requests).unwrap();
    assert_eq!(quotes.len(), 1);
    assert_eq!(quotes[0].timestamp, 300);
    assert_eq!(quotes[0].close, dec(155, 0));
}

#[test]
fn provider_reported_failures_fail_the_whole_call() {
    let providers = FakeProviders {
        quotes: vec![quote("AAPL", 100, dec(150, 0))],
        failed_symbols: vec![("TSLA".to_string(), "USD".to_string(), None)],
        ..FakeProviders::default()
    };
    let svc = service(
        FakeRepository::default(),
        FakeAssets { known: vec![] },
        providers,
    );
    let requests = vec![
        QuoteRequest {
            symbol: "AAPL".to_string(),
            currency: "USD".to_string(),
            data_source: DataSource::Yahoo,
        },
        QuoteRequest {
            symbol: "TSLA".to_string(),
            currency: "USD".to_string(),
            data_source: DataSource::Yahoo,
        },
    ];
    match svc.get_latest_quotes_bulk(&requests) {
        Err(MarketDataError::ProviderError(msg)) => {
            assert_eq!(msg, "Failed to fetch 1 quotes");
        }
        other => panic!("expected the all-or-nothing error, got {:?}", other),
    }
}

#[test]
fn get_latest_quote_wraps_the_bulk_call() {
    let providers = FakeProviders {
        quotes: vec![quote("AAPL", 100, dec(150, 0))],
        ..FakeProviders::default()
    };
    let svc = service(
        FakeRepository::default(),
        FakeAssets { known: vec![] },
        providers,
    );
    let q = svc.get_latest_quote("AAPL", "USD").unwrap().unwrap();
    assert_eq!(q.symbol, "AAPL");

    let empty = service(
        FakeRepository::default(),
        FakeAssets { known: vec![] },
        FakeProviders::default(),
    );
    assert!(empty.get_latest_quote("AAPL", "USD").unwrap().is_none());
}

#[test]
fn unresolvable_historical_requests_are_not_found() {
    let svc = MarketDataService::new(
        ProviderRegistry::new(Vec::new(), &FakeSecrets, Some(&FakeSettings)),
        FakeRepository::default(),
        FakeAssets { known: vec![] },
        FakeProviders::default(),
    );
    match svc.get_historical_quotes("AAPL", 0, 100, "USD") {
        Err(MarketDataError::NotFound(symbol)) => assert_eq!(symbol, "AAPL"),
        other => panic!("expected not-found, got {:?}", other),
    }
    assert!(svc.get_asset_profile("AAPL").unwrap().is_none());
}

#[test]
fn provider_info_rows_carry_names_and_logos() {
    let svc = service(
        FakeRepository::default(),
        FakeAssets { known: vec![] },
        FakeProviders::default(),
    );
    let info = svc.get_provider_info();
    assert_eq!(info.len(), 2);
    assert_eq!(info[0].id, "YAHOO");
    assert_eq!(info[0].name, "Yahoo");
    assert_eq!(info[0].logo_filename, "yahoo.png");
    assert!(info[0].last_synced_date.is_none());
    assert_eq!(info[1].id, "VN_MARKET");
    assert_eq!(info[1].name, "VN_MARKET");
    assert_eq!(info[1].logo_filename, "vn_market.png");
}

#[test]
fn get_quote_import_template() {
    let template = market_data_core::market_data_service::get_quote_import_template();
    assert_eq!(
        template,
        "symbol,date,close,volume,currency,dataSource\nAPPL,2024-01-01,150.00,1000000,USD,YAHOO\nGOOGL,2024-01-01,140.00,800000,USD,YAHOO"
    );
}

#[test]
fn validate_quotes_csv_requires_symbols() {
    let ok = market_data_core::market_data_service::validate_quotes_csv(vec![row(
        "AAPL",
        "2024-01-02",
        dec(1, 0),
    )]);
    assert_eq!(ok.unwrap().len(), 1);

    let bad = market_data_core::market_data_service::validate_quotes_csv(vec![row(
        "",
        "2024-01-02",
        dec(1, 0),
    )]);
    assert_eq!(bad.unwrap_err(), "Quote symbol cannot be empty");
}


#[test]
fn import_quotes_returns_statuses_despite_a_failed_batch_save() {
    let repo = FakeRepository { batch_save_fails: true, ..FakeRepository::default() };
    let svc = service(
        repo,
        FakeAssets { known: vec!["AAPL".to_string()] },
        FakeProviders::default(),
    );
    let rows = vec![row("AAPL", "2024-01-02", dec(150, 0))];
    let statuses = svc.import_quotes(&rows).unwrap();
    assert_eq!(statuses, vec![ImportValidationStatus::Valid]);
    // the batch call was attempted; its failure is not this call's to report
    assert_eq!(*svc.repository.batch_saves.borrow(), 1);
}

#[test]
fn empty_bulk_request_lists_succeed() {
    let svc = service(
        FakeRepository::default(),
        FakeAssets { known: vec![] },
        FakeProviders::default(),
    );
    let quotes = svc.get_latest_quotes_bulk(&Vec::new()).unwrap();
    assert!(quotes.is_empty());
}

#[test]
fn csv_row_reconciliation_follows_the_outcomes() {
    let r = row("AAPL", "2024-01-02", dec(150, 0));

    // without overwrite, an existing quote warns and no write is due
    let exists = Some(Ok(true));
    assert!(!csv_row_should_write(&r, false, &exists));
    let out = reconcile_csv_row(&r, false, &exists, &None);
    assert_eq!(
        out.validation_status,
        ImportValidationStatus::Warning("Quote already exists".to_string())
    );

    // an absent quote makes the write due; its outcomes decide the status
    let exists = Some(Ok(false));
    assert!(csv_row_should_write(&r, false, &exists));
    let saved = Some(Ok(quote("AAPL", 1, dec(150, 0))));
    let out = reconcile_csv_row(&r, false, &exists, &saved);
    assert_eq!(out.validation_status, ImportValidationStatus::Valid);
    let failed: Option<Result<Quote, String>> = Some(Err("disk full".to_string()));
    let out = reconcile_csv_row(&r, false, &exists, &failed);
    assert_eq!(
        out.validation_status,
        ImportValidationStatus::Error("Failed to save: disk full".to_string())
    );

    // a lookup failure is a per-row database error
    let exists: Option<Result<bool, String>> = Some(Err("connection lost".to_string()));
    let out = reconcile_csv_row(&r, false, &exists, &None);
    assert_eq!(
        out.validation_status,
        ImportValidationStatus::Error("Database error: connection lost".to_string())
    );

    // a bad date is rejected before anything else is consulted
    let bad = row("AAPL", "02/01/2024", dec(150, 0));
    let out = reconcile_csv_row(&bad, true, &None, &None);
    assert_eq!(
        out.validation_status,
        ImportValidationStatus::Error("Invalid date format: 02/01/2024".to_string())
    );
    assert_eq!(out.close, dec(150, 0));
    assert_eq!(out.currency, "USD");
}
