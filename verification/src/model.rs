//! The shared data model: provider settings, quotes, quote requests,
//! import rows and their validation status, search summaries, asset
//! profiles, and the error type of the service.

use vstd::prelude::*;
use crate::decimal::DecimalNumber;

verus! {

/// One unit of search score: a score of `SCORE_UNIT` means an exact match
/// (`1.0`); smaller values rank lower. Scores are fixed-point numbers in
/// millionths so that ranking is exact.
pub const SCORE_UNIT: u64 = 1000000;

/// The backend a quote or profile came from.
#[derive(Debug, Clone, Copy, PartialEq, Eq, Structural)]
pub enum DataSource {
    Yahoo,
    MarketDataApp,
    AlphaVantage,
    MetalPriceApi,
    VnMarket,
    VnFund,
    Manual,
}

impl DataSource {
    pub open spec fn spec_as_str(self) -> Seq<char> {
        match self {
            DataSource::Yahoo => "YAHOO"@,
            DataSource::MarketDataApp => "MARKETDATA_APP"@,
            DataSource::AlphaVantage => "ALPHA_VANTAGE"@,
            DataSource::MetalPriceApi => "METAL_PRICE_API"@,
            DataSource::VnMarket => "VN_MARKET"@,
            DataSource::VnFund => "VN_FUND"@,
            DataSource::Manual => "MANUAL"@,
        }
    }

    pub fn as_str(&self) -> (r: &'static str)
        ensures
            r@ == self.spec_as_str(),
    {
        match self {
            DataSource::Yahoo => "YAHOO",
            DataSource::MarketDataApp => "MARKETDATA_APP",
            DataSource::AlphaVantage => "ALPHA_VANTAGE",
            DataSource::MetalPriceApi => "METAL_PRICE_API",
            DataSource::VnMarket => "VN_MARKET",
            DataSource::VnFund => "VN_FUND",
            DataSource::Manual => "MANUAL",
        }
    }
}

/// A persisted provider setting, as configuration hands it over.
#[derive(Debug, Clone)]
pub struct MarketDataProviderSetting {
    pub id: String,
    pub name: String,
    pub priority: i32,
    pub enabled: bool,
}

/// The ghost image of a provider setting.
pub struct SettingView {
    pub id: Seq<char>,
    pub name: Seq<char>,
    pub priority: int,
    pub enabled: bool,
}

impl View for MarketDataProviderSetting {
    type V = SettingView;

    open spec fn view(&self) -> SettingView {
        SettingView {
            id: self.id@,
            name: self.name@,
            priority: self.priority as int,
            enabled: self.enabled,
        }
    }
}

/// A partial update of a provider setting.
#[derive(Debug, Clone)]
pub struct UpdateMarketDataProviderSetting {
    pub priority: Option<i32>,
    pub enabled: Option<bool>,
}

/// One row of provider information for display.
#[derive(Debug, Clone)]
pub struct MarketDataProviderInfo {
    pub id: String,
    pub name: String,
    pub logo_filename: String,
    pub last_synced_date: Option<i64>,
}

/// A single quote. Timestamps are seconds since the Unix epoch; prices and
/// volume are decimal numbers, never floating point.
#[derive(Debug, Clone)]
pub struct Quote {
    pub id: String,
    pub symbol: String,
    pub timestamp: i64,
    pub open: DecimalNumber,
    pub high: DecimalNumber,
    pub low: DecimalNumber,
    pub close: DecimalNumber,
    pub adjclose: DecimalNumber,
    pub volume: DecimalNumber,
    pub currency: String,
    pub data_source: DataSource,
    pub created_at: i64,
}

impl Quote {
    pub open spec fn well_formed(self) -> bool {
        &&& self.open.well_formed()
        &&& self.high.well_formed()
        &&& self.low.well_formed()
        &&& self.close.well_formed()
        &&& self.adjclose.well_formed()
        &&& self.volume.well_formed()
    }
}

/// An input to bulk quote retrieval.
#[derive(Debug, Clone)]
pub struct QuoteRequest {
    pub symbol: String,
    pub currency: String,
    pub data_source: DataSource,
}

/// The validation outcome of one import row.
#[derive(Debug, Clone, PartialEq)]
pub enum ImportValidationStatus {
    Valid,
    Warning(String),
    Error(String),
}

/// The ghost image of a validation status.
pub enum StatusView {
    Valid,
    Warning(Seq<char>),
    Error(Seq<char>),
}

impl ImportValidationStatus {
    /// A copy carrying the same contents.
    pub fn duplicate(&self) -> (r: ImportValidationStatus)
        ensures
            r@ == self@,
    {
        match self {
            ImportValidationStatus::Valid => ImportValidationStatus::Valid,
            ImportValidationStatus::Warning(m) => ImportValidationStatus::Warning(m.clone()),
            ImportValidationStatus::Error(m) => ImportValidationStatus::Error(m.clone()),
        }
    }
}

impl View for ImportValidationStatus {
    type V = StatusView;

    open spec fn view(&self) -> StatusView {
        match self {
            ImportValidationStatus::Valid => StatusView::Valid,
            ImportValidationStatus::Warning(m) => StatusView::Warning(m@),
            ImportValidationStatus::Error(m) => StatusView::Error(m@),
        }
    }
}

/// A row of a bulk or CSV quote import. The `close` price is mandatory;
/// the other prices and the volume are optional.
#[derive(Debug, Clone)]
pub struct QuoteImport {
    pub symbol: String,
    pub date: String,
    pub open: Option<DecimalNumber>,
    pub high: Option<DecimalNumber>,
    pub low: Option<DecimalNumber>,
    pub close: DecimalNumber,
    pub volume: Option<DecimalNumber>,
    pub currency: String,
    pub validation_status: ImportValidationStatus,
    pub error_message: Option<String>,
}

impl QuoteImport {
    pub open spec fn well_formed(self) -> bool {
        &&& (self.open matches Some(d) ==> d.well_formed())
        &&& (self.high matches Some(d) ==> d.well_formed())
        &&& (self.low matches Some(d) ==> d.well_formed())
        &&& self.close.well_formed()
        &&& (self.volume matches Some(d) ==> d.well_formed())
    }
}

/// One ranked result of a ticker search.
#[derive(Debug, Clone)]
pub struct QuoteSummary {
    pub symbol: String,
    pub short_name: String,
    pub long_name: String,
    pub exchange: String,
    pub quote_type: String,
    pub type_display: String,
    pub score: u64,
}

/// Descriptive metadata of an asset.
#[derive(Debug, Clone)]
pub struct AssetProfile {
    pub id: Option<String>,
    pub isin: Option<String>,
    pub symbol: String,
    pub symbol_mapping: Option<String>,
    pub name: Option<String>,
    pub asset_type: Option<String>,
    pub asset_class: Option<String>,
    pub asset_sub_class: Option<String>,
    pub currency: String,
    pub data_source: String,
    pub notes: Option<String>,
    pub countries: Option<String>,
    pub categories: Option<String>,
    pub classes: Option<String>,
    pub attributes: Option<String>,
    pub sectors: Option<String>,
    pub url: Option<String>,
}

/// A known asset, as the asset repository reports it.
#[derive(Debug, Clone)]
pub struct Asset {
    pub id: String,
    pub symbol: String,
}

/// The latest quote of a symbol paired with the one before it.
#[derive(Debug, Clone)]
pub struct LatestQuotePair {
    pub symbol: String,
    pub latest: Quote,
    pub previous: Option<Quote>,
}

/// The error type of the registry and the service.
#[derive(Debug, Clone, PartialEq)]
pub enum MarketDataError {
    /// No data or no provider for the symbol.
    NotFound(String),
    /// A backend, network or persistence failure.
    ProviderError(String),
    /// The capability is intentionally not implemented by the backend.
    UnsupportedProvider(String),
}

impl MarketDataError {
    /// The message carried by the error.
    pub open spec fn spec_message(&self) -> Seq<char> {
        match self {
            MarketDataError::NotFound(m) => m@,
            MarketDataError::ProviderError(m) => m@,
            MarketDataError::UnsupportedProvider(m) => m@,
        }
    }

    pub fn message(&self) -> (r: &str)
        ensures
            r@ == self.spec_message(),
    {
        match self {
            MarketDataError::NotFound(m) => m.as_str(),
            MarketDataError::ProviderError(m) => m.as_str(),
            MarketDataError::UnsupportedProvider(m) => m.as_str(),
        }
    }
}

/// The ghost image of a market-data error.
pub enum ErrorView {
    NotFound(Seq<char>),
    ProviderError(Seq<char>),
    UnsupportedProvider(Seq<char>),
}

impl View for MarketDataError {
    type V = ErrorView;

    open spec fn view(&self) -> ErrorView {
        match self {
            MarketDataError::NotFound(m) => ErrorView::NotFound(m@),
            MarketDataError::ProviderError(m) => ErrorView::ProviderError(m@),
            MarketDataError::UnsupportedProvider(m) => ErrorView::UnsupportedProvider(m@),
        }
    }
}

} // verus!
