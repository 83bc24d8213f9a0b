use market_data_core::decimal::{dec_eq_value, dec_le, dec_lt, DecimalNumber};
use market_data_core::manual_provider::ManualProvider;
use market_data_core::model::{DataSource, MarketDataError};
use market_data_core::vn_fund_provider::{search_funds, fund_profile_from_details, VnFundDetails, VnFundInfo};
use market_data_core::vn_market_provider::{
    build_summaries, match_score, normalize_symbol, profile_from_result, quote_from_history_item,
    quotes_from_history, rank_search_results, should_search, VnHistoryItem, VnSearchResult,
};

fn dec(mantissa: u128, scale: u32) -> DecimalNumber {
    DecimalNumber { negative: false, mantissa, scale }
}

#[test]
fn normalize_symbol_strips_the_uppercase_suffix_only() {
    assert_eq!(normalize_symbol("MBB.VN"), "MBB");
    assert_eq!(normalize_symbol("FPT.VN"), "FPT");
    assert_eq!(normalize_symbol("FPT.vn"), "FPT.vn");
    assert_eq!(normalize_symbol("AAPL"), "AAPL");
}

#[test]
fn the_search_gate_admits_regional_queries() {
    assert!(should_search("MBB.VN"));
    assert!(should_search("fpt.vn"));
    assert!(should_search("VNINDEX"));
    assert!(should_search("vn30"));
    assert!(should_search("HNX30"));
    assert!(should_search("VN_GOLD"));
    assert!(should_search("FPT"));
    assert!(should_search("AB12"));
    assert!(should_search("HNAB"));
}

#[test]
fn the_search_gate_blocks_global_names() {
    assert!(!should_search("GOLD"));
    assert!(!should_search("silver"));
    assert!(!should_search("OIL"));
    assert!(!should_search("PLATINUM"));
    assert!(!should_search("AB"));
    assert!(!should_search("ABCDEF"));
    assert!(!should_search("MSFT"));
    assert!(!should_search("AB-12"));
}

#[test]
fn match_scores_have_exact_values() {
    assert_eq!(match_score("FPT", "FPT Corp", "fpt"), 1000000);
    assert_eq!(match_score("FPTX", "Another", "fpt"), 900000);
    assert_eq!(match_score("ABC", "The FPT fund", "fpt"), 700000);
    assert_eq!(match_score("ABC", "Nothing here", "fpt"), 500000);
}

fn search_result(symbol: &str, name: &str, asset_type: &str) -> VnSearchResult {
    VnSearchResult {
        symbol: symbol.to_string(),
        name: name.to_string(),
        asset_type: asset_type.to_string(),
        exchange: "HOSE".to_string(),
        currency: "VND".to_string(),
        data_source: "VN_MARKET".to_string(),
    }
}

#[test]
fn summaries_map_types_and_rank_by_score() {
    let rows = vec![
        search_result("ABC", "Some fund", "FUND"),
        search_result("FPT", "FPT Corp", "STOCK"),
    ];
    let built = build_summaries(&rows, "FPT");
    assert_eq!(built.len(), 2);
    assert_eq!(built[0].quote_type, "MUTUALFUND");
    assert_eq!(built[0].type_display, "Mutual Fund");
    assert_eq!(built[1].quote_type, "EQUITY");
    assert_eq!(built[1].type_display, "Stock");

    let ranked = rank_search_results(rows, "FPT");
    assert_eq!(ranked.len(), 2);
    assert_eq!(ranked[0].symbol, "FPT");
    assert_eq!(ranked[0].score, 1000000);

    let many: Vec<VnSearchResult> =
        (0..15).map(|i| search_result(&format!("S{}", i), "x", "STOCK")).collect();
    assert_eq!(rank_search_results(many, "S").len(), 10);
}

#[test]
fn profiles_map_asset_classes() {
    let p = profile_from_result(&search_result("FPT", "FPT Corp", "STOCK"));
    assert_eq!(p.symbol, "FPT");
    assert_eq!(p.asset_class, Some("Equity".to_string()));
    assert_eq!(p.asset_sub_class, Some("Stock".to_string()));
    assert_eq!(p.data_source, "VN_MARKET");

    let p = profile_from_result(&search_result("VN30", "Index", "INDEX"));
    assert_eq!(p.asset_class, Some("Index".to_string()));

    let p = profile_from_result(&search_result("X", "X", "SOMETHING_ELSE"));
    assert_eq!(p.asset_class, Some("Unknown".to_string()));
}

fn history_item(date: &str, close: Option<DecimalNumber>) -> VnHistoryItem {
    VnHistoryItem {
        date: date.to_string(),
        nav: Some(dec(100, 0)),
        open: None,
        high: None,
        low: None,
        close,
        volume: None,
    }
}

#[test]
fn history_items_become_quotes_with_nav_defaults() {
    let item = history_item("2024-02-29", None);
    let q = quote_from_history_item("FPT", &item, "VND", 7, DataSource::VnMarket).unwrap();
    assert_eq!(q.id, "20240229_FPT");
    assert_eq!(q.symbol, "FPT");
    // leap day: midnight of 2024-02-29
    assert_eq!(q.timestamp, 1709164800);
    // missing prices default to the nav
    assert_eq!(q.open, dec(100, 0));
    assert_eq!(q.close, dec(100, 0));
    assert_eq!(q.adjclose, dec(100, 0));
    assert_eq!(q.volume, dec(0, 0));
    assert_eq!(q.currency, "VND");
    assert_eq!(q.created_at, 7);

    assert!(quote_from_history_item("FPT", &history_item("2023-02-29", None), "VND", 7, DataSource::VnMarket).is_none());
    assert!(quote_from_history_item("FPT", &history_item("2024-13-01", None), "VND", 7, DataSource::VnMarket).is_none());
    assert!(quote_from_history_item("FPT", &history_item("24-01-01", None), "VND", 7, DataSource::VnMarket).is_none());
}

#[test]
fn history_conversion_applies_the_currency_fallback_and_not_found() {
    let items = vec![history_item("2024-01-02", Some(dec(5, 0)))];
    let quotes = quotes_from_history("FPT", &items, "", "USD", 0, DataSource::VnFund).unwrap();
    assert_eq!(quotes[0].currency, "USD");
    assert_eq!(quotes[0].data_source, DataSource::VnFund);

    let quotes = quotes_from_history("FPT", &items, "VND", "USD", 0, DataSource::VnMarket).unwrap();
    assert_eq!(quotes[0].currency, "VND");

    let bad = vec![history_item("not-a-date", None)];
    match quotes_from_history("FPT", &bad, "VND", "USD", 0, DataSource::VnMarket) {
        Err(MarketDataError::NotFound(symbol)) => assert_eq!(symbol, "FPT"),
        other => panic!("expected not-found, got {:?}", other),
    }
}

#[test]
fn fund_search_filters_scores_and_caps() {
    let funds = vec![
        VnFundInfo { symbol: "DCDS".to_string(), fund_name: "Dragon fund".to_string() },
        VnFundInfo { symbol: "VESAF".to_string(), fund_name: "VinaCapital equity".to_string() },
        VnFundInfo { symbol: "XYZ".to_string(), fund_name: "Unrelated".to_string() },
    ];
    let hits = search_funds(&funds, "dragon");
    assert_eq!(hits.len(), 1);
    assert_eq!(hits[0].symbol, "DCDS");
    assert_eq!(hits[0].score, 700000);
    assert_eq!(hits[0].exchange, "VN");
    assert_eq!(hits[0].quote_type, "MUTUALFUND");

    let exact = search_funds(&funds, "vesaf");
    assert_eq!(exact[0].symbol, "VESAF");
    assert_eq!(exact[0].score, 1000000);

    let many: Vec<VnFundInfo> = (0..15)
        .map(|i| VnFundInfo { symbol: format!("F{}", i), fund_name: "fund".to_string() })
        .collect();
    assert_eq!(search_funds(&many, "fund").len(), 10);
}

#[test]
fn fund_profiles_are_mutual_funds() {
    let p = fund_profile_from_details(&VnFundDetails {
        symbol: "DCDS".to_string(),
        fund_name: "Dragon fund".to_string(),
        currency: "VND".to_string(),
    });
    assert_eq!(p.symbol, "DCDS");
    assert_eq!(p.name, Some("Dragon fund".to_string()));
    assert_eq!(p.asset_type, Some("MUTUAL_FUND".to_string()));
    assert_eq!(p.asset_class, Some("Equity".to_string()));
    assert_eq!(p.asset_sub_class, Some("MutualFund".to_string()));
    assert_eq!(p.data_source, "VN_FUND");
}

#[test]
fn manual_provider_refuses_fetches_and_synthesizes_profiles() {
    let provider = ManualProvider::new().unwrap();
    assert_eq!(provider.name(), "Manual");
    match provider.get_latest_quote("AAPL", "USD") {
        Err(MarketDataError::UnsupportedProvider(msg)) => {
            assert_eq!(msg, "Manual provider does not support quote fetching");
        }
        other => panic!("expected unsupported, got {:?}", other),
    }
    assert!(provider.get_historical_quotes("AAPL", 0, 1, "USD").is_err());
    assert!(provider.get_historical_quotes_bulk(&Vec::new(), 0, 1).is_err());

    let cash = provider.get_asset_profile("$CASH-USD").unwrap();
    assert_eq!(cash.currency, "USD");
    assert_eq!(cash.asset_type, Some("CASH".to_string()));
    assert_eq!(cash.asset_class, Some("CASH".to_string()));
    assert_eq!(cash.data_source, "MANUAL");

    let stock = provider.get_asset_profile("AAPL").unwrap();
    assert_eq!(stock.currency, "");
    assert_eq!(stock.asset_type, Some("EQUITY".to_string()));
    assert_eq!(stock.asset_sub_class, Some("COMMON_STOCK".to_string()));

    assert!(provider.search_ticker("AAPL").unwrap().is_empty());
}

#[test]
fn decimal_order_is_value_order() {
    // 1.5 == 1.50 == 1.500
    assert!(dec_eq_value(&dec(15, 1), &dec(150, 2)));
    assert!(dec_eq_value(&dec(15, 1), &dec(1500, 3)));
    // 1.49 < 1.5 < 1.51
    assert!(dec_lt(&dec(149, 2), &dec(15, 1)));
    assert!(dec_lt(&dec(15, 1), &dec(151, 2)));
    assert!(dec_le(&dec(15, 1), &dec(150, 2)));
    // negative zero equals positive zero in value
    let neg_zero = DecimalNumber { negative: true, mantissa: 0, scale: 0 };
    assert!(dec_eq_value(&neg_zero, &dec(0, 5)));
    assert!(neg_zero.is_sign_negative());
    // any negative value is below any non-negative one
    let minus_one = DecimalNumber { negative: true, mantissa: 1, scale: 0 };
    assert!(dec_lt(&minus_one, &dec(0, 0)));
    assert!(dec_le(&minus_one, &neg_zero));
    // extreme scales against extreme mantissas
    let max = DecimalNumber {
        negative: false,
        mantissa: 79228162514264337593543950335,
        scale: 0,
    };
    let tiny = DecimalNumber {
        negative: false,
        mantissa: 1,
        scale: 28,
    };
    assert!(dec_lt(&tiny, &max));
    assert!(!dec_lt(&max, &tiny));
}
