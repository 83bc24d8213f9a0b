//! The manual-entry backend: quotes are entered by the user, so every
//! programmatic fetch is refused, and asset profiles are synthesized
//! locally from the symbol alone.

use vstd::prelude::*;
use crate::model::{AssetProfile, ErrorView, MarketDataError, Quote, QuoteSummary};
use crate::strutil::{spec_starts_with, str_starts_with};

verus! {

pub struct ManualProvider;

impl ManualProvider {
    pub fn new() -> (r: Result<ManualProvider, MarketDataError>)
        ensures
            r is Ok,
    {
        Ok(ManualProvider)
    }

    pub fn name(&self) -> (r: &'static str)
        ensures
            r@ == "Manual"@,
    {
        "Manual"
    }

    /// Quote fetching is intentionally unsupported.
    pub fn get_latest_quote(&self, _symbol: &str, _fallback_currency: &str) -> (r: Result<
        Quote,
        MarketDataError,
    >)
        ensures
            r matches Err(e) && e@ == ErrorView::UnsupportedProvider(
                "Manual provider does not support quote fetching"@,
            ),
    {
        Err(
            MarketDataError::UnsupportedProvider(
                String::from_str("Manual provider does not support quote fetching"),
            ),
        )
    }

    /// Historical fetching is intentionally unsupported.
    pub fn get_historical_quotes(
        &self,
        _symbol: &str,
        _start: i64,
        _end: i64,
        _fallback_currency: &str,
    ) -> (r: Result<Vec<Quote>, MarketDataError>)
        ensures
            r matches Err(e) && e@ == ErrorView::UnsupportedProvider(
                "Manual provider does not support historical quotes"@,
            ),
    {
        Err(
            MarketDataError::UnsupportedProvider(
                String::from_str("Manual provider does not support historical quotes"),
            ),
        )
    }

    /// Bulk historical fetching is intentionally unsupported.
    pub fn get_historical_quotes_bulk(
        &self,
        _symbols_with_currencies: &Vec<(String, String, Option<String>)>,
        _start: i64,
        _end: i64,
    ) -> (r: Result<
        (Vec<Quote>, Vec<(String, String, Option<String>)>),
        MarketDataError,
    >)
        ensures
            r matches Err(e) && e@ == ErrorView::UnsupportedProvider(
                "Manual provider does not support bulk historical quotes"@,
            ),
    {
        Err(
            MarketDataError::UnsupportedProvider(
                String::from_str("Manual provider does not support bulk historical quotes"),
            ),
        )
    }

    /// A profile synthesized from the symbol: a symbol of the shape
    /// `$CASH-<currency>` is a cash asset in that currency; every other
    /// symbol is a common stock.
    pub fn get_asset_profile(&self, symbol: &str) -> (r: Result<AssetProfile, MarketDataError>)
        ensures
            r matches Ok(p) && {
                &&& p.id matches Some(id) && id@ == symbol@
                &&& p.isin is None
                &&& p.name matches Some(nm) && nm@ == symbol@
                &&& p.symbol@ == symbol@
                &&& p.data_source@ == "MANUAL"@
                &&& (spec_starts_with(symbol@, "$CASH-"@) ==> {
                    &&& p.asset_type matches Some(t) && t@ == "CASH"@
                    &&& p.asset_class matches Some(c) && c@ == "CASH"@
                    &&& p.asset_sub_class matches Some(sc) && sc@ == "CASH"@
                    &&& p.currency@ == symbol@.skip(6)
                })
                &&& (!spec_starts_with(symbol@, "$CASH-"@) ==> {
                    &&& p.asset_type matches Some(t) && t@ == "EQUITY"@
                    &&& p.asset_class matches Some(c) && c@ == "EQUITY"@
                    &&& p.asset_sub_class matches Some(sc) && sc@ == "COMMON_STOCK"@
                    &&& p.currency@ == Seq::<char>::empty()
                })
            },
    {
        if str_starts_with(symbol, "$CASH-") {
            proof {
                reveal_strlit("$CASH-");
            }
            let n = symbol.unicode_len();
            let currency = symbol.substring_char(6, n).to_owned();
            proof {
                assert(currency@ =~= symbol@.skip(6));
            }
            Ok(
                AssetProfile {
                    id: Some(symbol.to_owned()),
                    isin: None,
                    symbol: symbol.to_owned(),
                    symbol_mapping: None,
                    name: Some(symbol.to_owned()),
                    asset_type: Some(String::from_str("CASH")),
                    asset_class: Some(String::from_str("CASH")),
                    asset_sub_class: Some(String::from_str("CASH")),
                    currency,
                    data_source: String::from_str("MANUAL"),
                    notes: None,
                    countries: None,
                    categories: None,
                    classes: None,
                    attributes: None,
                    sectors: None,
                    url: None,
                },
            )
        } else {
            Ok(
                AssetProfile {
                    id: Some(symbol.to_owned()),
                    isin: None,
                    symbol: symbol.to_owned(),
                    symbol_mapping: None,
                    name: Some(symbol.to_owned()),
                    asset_type: Some(String::from_str("EQUITY")),
                    asset_class: Some(String::from_str("EQUITY")),
                    asset_sub_class: Some(String::from_str("COMMON_STOCK")),
                    currency: String::new(),
                    data_source: String::from_str("MANUAL"),
                    notes: None,
                    countries: None,
                    categories: None,
                    classes: None,
                    attributes: None,
                    sectors: None,
                    url: None,
                },
            )
        }
    }

    /// Manual assets are never found by search.
    pub fn search_ticker(&self, _query: &str) -> (r: Result<Vec<QuoteSummary>, MarketDataError>)
        ensures
            r matches Ok(v) && v@.len() == 0,
    {
        Ok(Vec::new())
    }
}

} // verus!
