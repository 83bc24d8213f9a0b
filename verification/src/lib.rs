//! Market-data aggregation core: a provider registry with priority-ordered
//! routing and multi-provider ticker search, and a market-data service with
//! bulk quote retrieval, quote-import validation and CSV import
//! reconciliation. Every function in this crate is verified; network,
//! persistence and secret collaborators are injected through the traits in
//! `market_data_traits`.

pub mod date;
pub mod decimal;
pub mod manual_provider;
pub mod market_data_service;
pub mod market_data_traits;
pub mod model;
pub mod provider_registry;
pub mod strutil;
pub mod vn_fund_provider;
pub mod vn_market_provider;
