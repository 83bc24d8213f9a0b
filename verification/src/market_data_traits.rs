//! Collaborator interfaces the core consumes. Implementations live with
//! the caller: a persistence layer, a secret store, and the network-backed
//! provider and profiler backends. The core states nothing about their
//! behaviour; every verified function that calls them proves its contract
//! for every outcome such a call may produce.

use vstd::prelude::*;
use crate::date::CivilDate;
use crate::model::{
    Asset, AssetProfile, LatestQuotePair, MarketDataError, MarketDataProviderSetting, Quote,
    QuoteSummary, UpdateMarketDataProviderSetting,
};

verus! {

/// Resolves the API key of a provider from the secret store.
pub trait SecretResolver {
    fn get_secret(&self, provider_id: &str) -> Result<Option<String>, String>;
}

/// The slice of the settings service the registry needs: the base URL of
/// the locally reachable regional-market companion service.
pub trait SettingsServiceTrait {
    fn get_vn_market_service_url(&self) -> Result<String, String>;
}

/// Quote retrieval, dispatched to the backend registered under a provider
/// id. Implementations perform network I/O.
pub trait ProviderPort {
    fn get_historical_quotes(
        &self,
        provider_id: &str,
        symbol: &str,
        start: i64,
        end: i64,
        fallback_currency: &str,
    ) -> Result<Vec<Quote>, MarketDataError>;

    fn get_historical_quotes_bulk(
        &self,
        provider_id: &str,
        symbols_with_currencies: &Vec<(String, String, Option<String>)>,
        start: i64,
        end: i64,
    ) -> Result<(Vec<Quote>, Vec<(String, String, Option<String>)>), MarketDataError>;
}

/// Profile lookup and ticker search, dispatched to the profiler registered
/// under a provider id. Implementations perform network I/O.
pub trait AssetProfilerPort {
    fn get_asset_profile(&self, profiler_id: &str, symbol: &str) -> Result<
        AssetProfile,
        MarketDataError,
    >;

    fn search_ticker(&self, profiler_id: &str, query: &str) -> Result<
        Vec<QuoteSummary>,
        MarketDataError,
    >;
}

/// The persistence collaborator. Errors are reported as plain messages.
pub trait MarketDataRepositoryTrait {
    fn save_quote(&self, quote: &Quote) -> Result<Quote, String>;

    fn save_quotes(&self, quotes: &Vec<Quote>) -> Result<(), String>;

    fn bulk_upsert_quotes(&self, quotes: Vec<Quote>) -> Result<usize, String>;

    fn quote_exists(&self, symbol: &str, date: &str) -> Result<bool, String>;

    fn get_all_providers(&self) -> Result<Vec<MarketDataProviderSetting>, String>;

    fn update_provider_settings(
        &self,
        provider_id: String,
        changes: UpdateMarketDataProviderSetting,
    ) -> Result<MarketDataProviderSetting, String>;

    fn get_latest_quotes_pair_for_symbols(
        &self,
        symbol_source_pairs: &Vec<(String, String)>,
    ) -> Result<Vec<(String, LatestQuotePair)>, String>;

    fn get_historical_quotes_for_symbols_in_range(
        &self,
        symbols: &Vec<String>,
        start_date: CivilDate,
        end_date: CivilDate,
    ) -> Result<Vec<Quote>, String>;
}

/// The asset catalogue, as import validation consults it.
pub trait AssetRepositoryTrait {
    fn list_by_symbols(&self, symbols: &Vec<String>) -> Result<Vec<Asset>, String>;
}

} // verus!
