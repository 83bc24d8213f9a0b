//! The computing half of the regional-market backend: symbol
//! normalization, the search gate that keeps global symbols away from the
//! regional service, match scoring, asset-class mapping, and the
//! conversion of plain response values into quotes, summaries and
//! profiles. The HTTP half lives with the caller and hands plain values
//! in.

use vstd::prelude::*;
use crate::date::spec_parse_date;
use crate::decimal::DecimalNumber;
use crate::model::{
    AssetProfile, DataSource, ErrorView, MarketDataError, Quote, QuoteSummary, SCORE_UNIT,
};
use crate::provider_registry::{sorted_by_score_desc, sort_summaries_desc};
use crate::strutil::{
    lower_char, seq_lower, seq_upper, spec_contains_sub, spec_ends_with, spec_starts_with,
    str_contains_lower, str_ends_with, str_eq_lower, str_eq_upper, str_starts_with,
    str_starts_with_lower, str_starts_with_upper, to_lower_char, to_upper_char, upper_char,
};
use crate::date::{compact_date_string, midnight_epoch_seconds, parse_date, spec_compact_date,
    spec_midnight_epoch_seconds};

verus! {

/// One row of the regional service's unified search response, as plain
/// values.
#[derive(Debug, Clone)]
pub struct VnSearchResult {
    pub symbol: String,
    pub name: String,
    pub asset_type: String,
    pub exchange: String,
    pub currency: String,
    pub data_source: String,
}

/// One row of the regional service's history response, as plain values.
/// A field is `None` where the wire value was not a representable number;
/// the defaulting rules below fill it in.
#[derive(Debug, Clone)]
pub struct VnHistoryItem {
    pub date: String,
    pub nav: Option<DecimalNumber>,
    pub open: Option<DecimalNumber>,
    pub high: Option<DecimalNumber>,
    pub low: Option<DecimalNumber>,
    pub close: Option<DecimalNumber>,
    pub volume: Option<DecimalNumber>,
}

impl VnHistoryItem {
    pub open spec fn well_formed(self) -> bool {
        &&& (self.nav matches Some(d) ==> d.well_formed())
        &&& (self.open matches Some(d) ==> d.well_formed())
        &&& (self.high matches Some(d) ==> d.well_formed())
        &&& (self.low matches Some(d) ==> d.well_formed())
        &&& (self.close matches Some(d) ==> d.well_formed())
        &&& (self.volume matches Some(d) ==> d.well_formed())
    }
}

/// Strips the regional suffix `.VN` (exactly in uppercase) so the symbol
/// matches what the regional service expects.
pub fn normalize_symbol(symbol: &str) -> (r: &str)
    ensures
        spec_ends_with(symbol@, ".VN"@) ==> r@ == symbol@.take(symbol@.len() - 3),
        !spec_ends_with(symbol@, ".VN"@) ==> r@ == symbol@,
{
    if str_ends_with(symbol, ".VN") {
        proof {
            reveal_strlit(".VN");
        }
        let n = symbol.unicode_len();
        symbol.substring_char(0, n - 3)
    } else {
        symbol
    }
}

/// A letter or an ASCII digit: a character the case maps move, or a digit.
pub open spec fn spec_is_ascii_alnum(c: char) -> bool {
    ||| crate::date::spec_digit_value(c) is Some
    ||| upper_char(c) != c
    ||| lower_char(c) != c
}

pub fn is_ascii_alnum(c: char) -> (r: bool)
    ensures
        r == spec_is_ascii_alnum(c),
{
    crate::date::digit_value(c).is_some() || to_upper_char(c) != c || to_lower_char(c)
        != c
}

pub open spec fn spec_all_ascii_alnum(s: Seq<char>) -> bool {
    forall|i: int| 0 <= i < s.len() ==> spec_is_ascii_alnum(#[trigger] s[i])
}

pub open spec fn spec_any_digit(s: Seq<char>) -> bool {
    exists|i: int| 0 <= i < s.len() && crate::date::spec_digit_value(#[trigger] s[i]) is Some
}

/// A blocklisted global commodity name, which the regional service must
/// not be asked about.
pub open spec fn spec_is_global_symbol(u: Seq<char>) -> bool {
    ||| u == seq_upper("GOLD"@)
    ||| u == seq_upper("SILVER"@)
    ||| u == seq_upper("OIL"@)
    ||| u == seq_upper("GAS"@)
    ||| u == seq_upper("COPPER"@)
    ||| u == seq_upper("PLATINUM"@)
}

/// The name of a regional index, up to ASCII case.
pub open spec fn spec_is_vn_index(u: Seq<char>) -> bool {
    ||| u == seq_upper("VNINDEX"@)
    ||| u == seq_upper("VN30"@)
    ||| u == seq_upper("HNX"@)
    ||| u == seq_upper("HNX30"@)
    ||| u == seq_upper("UPCOM"@)
    ||| u == seq_upper("VN"@)
    ||| u == seq_upper("VNI"@)
}

/// A short alphanumeric query that plausibly names a regional stock.
pub open spec fn spec_is_likely_vn_stock(q: Seq<char>) -> bool {
    &&& 3 <= q.len() <= 5
    &&& spec_all_ascii_alnum(q)
    &&& {
        ||| spec_starts_with(q, "VN"@)
        ||| spec_starts_with(q, "HN"@)
        ||| spec_starts_with(q, "UP"@)
        ||| spec_any_digit(q)
        ||| q.len() == 3
    }
}

/// Whether the regional service should be consulted for a query at all:
/// blocklisted global names are kept away unless explicitly prefixed for
/// the regional market; regional suffixes, index names, prefixed names
/// and short stock-like queries go through.
pub open spec fn spec_should_search(q: Seq<char>) -> bool {
    let u = seq_upper(q);
    if !spec_starts_with(u, seq_upper("VN_"@)) && spec_is_global_symbol(u) {
        false
    } else {
        ||| spec_starts_with(u, seq_upper("VN_"@))
        ||| spec_ends_with(q, ".VN"@)
        ||| spec_ends_with(q, ".vn"@)
        ||| spec_is_vn_index(u)
        ||| spec_is_likely_vn_stock(q)
    }
}

/// Decides whether the regional service should see the query.
pub fn should_search(query: &str) -> (r: bool)
    ensures
        r == spec_should_search(query@),
{
    let is_vn_prefixed = str_starts_with_upper(query, "VN_");
    let is_global = str_eq_upper(query, "GOLD") || str_eq_upper(query, "SILVER") || str_eq_upper(
        query,
        "OIL",
    ) || str_eq_upper(query, "GAS") || str_eq_upper(query, "COPPER") || str_eq_upper(
        query,
        "PLATINUM",
    );
    if !is_vn_prefixed && is_global {
        return false;
    }
    let is_vn_suffix = str_ends_with(query, ".VN") || str_ends_with(query, ".vn");
    let is_vn_index = str_eq_upper(query, "VNINDEX") || str_eq_upper(query, "VN30")
        || str_eq_upper(query, "HNX") || str_eq_upper(query, "HNX30") || str_eq_upper(
        query,
        "UPCOM",
    ) || str_eq_upper(query, "VN") || str_eq_upper(query, "VNI");
    let is_likely_vn_stock = is_likely_vn_stock(query);
    is_vn_prefixed || is_vn_suffix || is_vn_index || is_likely_vn_stock
}

fn is_likely_vn_stock(query: &str) -> (r: bool)
    ensures
        r == spec_is_likely_vn_stock(query@),
{
    let n = query.unicode_len();
    if n < 3 || n > 5 {
        return false;
    }
    let mut i: usize = 0;
    while i < n
        invariant
            n == query@.len(),
            i <= n,
            forall|j: int| 0 <= j < i ==> spec_is_ascii_alnum(#[trigger] query@[j]),
        decreases n - i,
    {
        if !is_ascii_alnum(query.get_char(i)) {
            return false;
        }
        i = i + 1;
    }
    if str_starts_with(query, "VN") || str_starts_with(query, "HN") || str_starts_with(
        query,
        "UP",
    ) || n == 3 {
        return true;
    }
    let mut i: usize = 0;
    while i < n
        invariant
            n == query@.len(),
            3 <= n <= 5,
            i <= n,
            spec_all_ascii_alnum(query@),
            forall|j: int|
                0 <= j < i ==> !(crate::date::spec_digit_value(#[trigger] query@[j]) is Some),
        decreases n - i,
    {
        if crate::date::digit_value(query.get_char(i)).is_some() {
            return true;
        }
        i = i + 1;
    }
    false
}

/// The match score of a search hit against a query, folded to lowercase:
/// an exact symbol match scores a full `SCORE_UNIT`, a symbol prefix match
/// nine tenths, a name substring match seven tenths, and anything else
/// half.
pub open spec fn spec_match_score(symbol: Seq<char>, name: Seq<char>, query: Seq<char>) -> u64 {
    let sl = seq_lower(symbol);
    let nl = seq_lower(name);
    let ql = seq_lower(query);
    if sl == ql {
        1000000u64
    } else if spec_starts_with(sl, ql) {
        900000u64
    } else if spec_contains_sub(nl, ql) {
        700000u64
    } else {
        500000u64
    }
}

pub fn match_score(symbol: &str, name: &str, query: &str) -> (r: u64)
    ensures
        r == spec_match_score(symbol@, name@, query@),
{
    if str_eq_lower(symbol, query) {
        SCORE_UNIT
    } else if str_starts_with_lower(symbol, query) {
        900000
    } else if str_contains_lower(name, query) {
        700000
    } else {
        500000
    }
}

/// The quote type a search row's asset type maps to.
pub open spec fn spec_quote_type(t: Seq<char>) -> Seq<char> {
    if t == "FUND"@ {
        "MUTUALFUND"@
    } else if t == "STOCK"@ {
        "EQUITY"@
    } else if t == "INDEX"@ {
        "INDEX"@
    } else if t == "COMMODITY"@ {
        "COMMODITY"@
    } else {
        "OTHER"@
    }
}

/// The display name a search row's asset type maps to.
pub open spec fn spec_type_display(t: Seq<char>) -> Seq<char> {
    if t == "FUND"@ {
        "Mutual Fund"@
    } else if t == "STOCK"@ {
        "Stock"@
    } else if t == "INDEX"@ {
        "Index"@
    } else if t == "COMMODITY"@ {
        "Commodity"@
    } else {
        "Other"@
    }
}

fn quote_type_of(t: &str) -> (r: (&'static str, &'static str))
    ensures
        r.0@ == spec_quote_type(t@),
        r.1@ == spec_type_display(t@),
{
    if crate::strutil::str_eq(t, "FUND") {
        ("MUTUALFUND", "Mutual Fund")
    } else if crate::strutil::str_eq(t, "STOCK") {
        ("EQUITY", "Stock")
    } else if crate::strutil::str_eq(t, "INDEX") {
        ("INDEX", "Index")
    } else if crate::strutil::str_eq(t, "COMMODITY") {
        ("COMMODITY", "Commodity")
    } else {
        ("OTHER", "Other")
    }
}

/// A summary is the image of a search row under the scoring and mapping
/// rules for a query.
pub open spec fn is_summary_of(s: QuoteSummary, res: VnSearchResult, q: Seq<char>) -> bool {
    &&& s.symbol@ == res.symbol@
    &&& s.short_name@ == res.name@
    &&& s.long_name@ == res.name@
    &&& s.exchange@ == res.exchange@
    &&& s.quote_type@ == spec_quote_type(res.asset_type@)
    &&& s.type_display@ == spec_type_display(res.asset_type@)
    &&& s.score == spec_match_score(res.symbol@, res.name@, q)
}

/// Builds one summary per search row, in place: the scores and type
/// mappings are exact, row by row.
pub fn build_summaries(results: &Vec<VnSearchResult>, query: &str) -> (r: Vec<QuoteSummary>)
    ensures
        r@.len() == results@.len(),
        forall|k: int| 0 <= k < r@.len() ==> is_summary_of(#[trigger] r@[k], results@[k], query@),
{
    let n = results.len();
    let mut summaries: Vec<QuoteSummary> = Vec::new();
    let mut i: usize = 0;
    while i < n
        invariant
            n == results@.len(),
            i <= n,
            summaries@.len() == i,
            forall|k: int|
                0 <= k < i ==> is_summary_of(#[trigger] summaries@[k], results@[k], query@),
        decreases n - i,
    {
        let res = &results[i];
        let score = match_score(res.symbol.as_str(), res.name.as_str(), query);
        let (quote_type, type_display) = quote_type_of(res.asset_type.as_str());
        summaries.push(
            QuoteSummary {
                symbol: res.symbol.clone(),
                short_name: res.name.clone(),
                long_name: res.name.clone(),
                exchange: res.exchange.clone(),
                quote_type: String::from_str(quote_type),
                type_display: String::from_str(type_display),
                score,
            },
        );
        i = i + 1;
    }
    summaries
}

/// The summary descends from some row of the search response, scored and
/// mapped for the query.
pub open spec fn from_some_row(s: QuoteSummary, results: Seq<VnSearchResult>, q: Seq<char>) -> bool {
    exists|j: int| 0 <= j < results.len() && is_summary_of(s, #[trigger] results[j], q)
}

/// Scores and ranks the summaries of a unified search response: one
/// summary per row from `build_summaries`, sorted by descending score,
/// and at most the ten best kept; every kept summary is the image of a
/// response row.
pub fn rank_search_results(results: Vec<VnSearchResult>, query: &str) -> (r: Vec<QuoteSummary>)
    ensures
        r@.len() <= 10,
        r@.len() == (if results@.len() <= 10 {
            results@.len() as int
        } else {
            10int
        }),
        sorted_by_score_desc(r@),
        forall|i: int| 0 <= i < r@.len() ==> from_some_row(#[trigger] r@[i], results@, query@),
{
    let summaries = build_summaries(&results, query);
    let ghost built = summaries@;
    let mut sorted = sort_summaries_desc(summaries);
    let ghost sorted_full = sorted@;
    if sorted.len() > 10 {
        let ghost before = sorted@;
        sorted.truncate(10);
        proof {
            assert(sorted@ == before.take(10));
        }
    }
    proof {
        assert forall|i: int|
            0 <= i < sorted@.len() implies from_some_row(#[trigger] sorted@[i], results@, query@)
            by {
            assert(sorted@[i] == sorted_full[i]);
            assert(built.contains(sorted_full[i]));
            let j0 = choose|j0: int|
                0 <= j0 < built.len() && #[trigger] built[j0] == sorted_full[i];
            assert(is_summary_of(sorted@[i], results@[j0], query@));
        };
    }
    sorted
}

/// The asset class and sub-class a profile's asset type maps to.
pub open spec fn spec_profile_classes(t: Seq<char>) -> (Seq<char>, Seq<char>) {
    if t == "MUTUAL_FUND"@ {
        ("Equity"@, "MutualFund"@)
    } else if t == "STOCK"@ {
        ("Equity"@, "Stock"@)
    } else if t == "ETF"@ {
        ("Equity"@, "ETF"@)
    } else if t == "COMMODITY"@ {
        ("Commodity"@, "Commodity"@)
    } else if t == "INDEX"@ {
        ("Index"@, "Index"@)
    } else {
        ("Unknown"@, "Unknown"@)
    }
}

fn profile_classes_of(t: &str) -> (r: (&'static str, &'static str))
    ensures
        r.0@ == spec_profile_classes(t@).0,
        r.1@ == spec_profile_classes(t@).1,
{
    if crate::strutil::str_eq(t, "MUTUAL_FUND") {
        ("Equity", "MutualFund")
    } else if crate::strutil::str_eq(t, "STOCK") {
        ("Equity", "Stock")
    } else if crate::strutil::str_eq(t, "ETF") {
        ("Equity", "ETF")
    } else if crate::strutil::str_eq(t, "COMMODITY") {
        ("Commodity", "Commodity")
    } else if crate::strutil::str_eq(t, "INDEX") {
        ("Index", "Index")
    } else {
        ("Unknown", "Unknown")
    }
}

/// The asset profile of the first unified search hit.
pub fn profile_from_result(result: &VnSearchResult) -> (p: AssetProfile)
    ensures
        p.id is None,
        p.isin is None,
        p.symbol@ == result.symbol@,
        p.name matches Some(nm) && nm@ == result.name@,
        p.asset_type matches Some(t) && t@ == result.asset_type@,
        p.asset_class matches Some(c) && c@ == spec_profile_classes(result.asset_type@).0,
        p.asset_sub_class matches Some(sc) && sc@ == spec_profile_classes(result.asset_type@).1,
        p.currency@ == result.currency@,
        p.data_source@ == "VN_MARKET"@,
{
    let (asset_class, asset_sub_class) = profile_classes_of(result.asset_type.as_str());
    AssetProfile {
        id: None,
        isin: None,
        symbol: result.symbol.clone(),
        symbol_mapping: None,
        name: Some(result.name.clone()),
        asset_type: Some(result.asset_type.clone()),
        asset_class: Some(String::from_str(asset_class)),
        asset_sub_class: Some(String::from_str(asset_sub_class)),
        currency: result.currency.clone(),
        data_source: String::from_str("VN_MARKET"),
        notes: None,
        countries: None,
        categories: None,
        classes: None,
        attributes: None,
        sectors: None,
        url: None,
    }
}

/// The quote a history row denotes, `None` when its date does not parse.
/// A missing `nav` counts as zero; missing prices default to the `nav`; a
/// missing volume counts as zero. The id is the compact date followed by
/// the symbol.
pub fn quote_from_history_item(
    symbol: &str,
    item: &VnHistoryItem,
    currency: &str,
    created_at: i64,
    source: DataSource,
) -> (r: Option<Quote>)
    requires
        item.well_formed(),
    ensures
        match spec_parse_date(item.date@) {
            None => r is None,
            Some(d) => r matches Some(q) && {
                let zero = DecimalNumber { negative: false, mantissa: 0, scale: 0 };
                let nav = item.nav.unwrap_or(zero);
                &&& q.id@ == spec_compact_date(d) + "_"@ + symbol@
                &&& q.symbol@ == symbol@
                &&& q.timestamp == spec_midnight_epoch_seconds(d)
                &&& q.open == item.open.unwrap_or(nav)
                &&& q.high == item.high.unwrap_or(nav)
                &&& q.low == item.low.unwrap_or(nav)
                &&& q.close == item.close.unwrap_or(nav)
                &&& q.adjclose == item.close.unwrap_or(nav)
                &&& q.volume == item.volume.unwrap_or(zero)
                &&& q.currency@ == currency@
                &&& q.data_source == source
                &&& q.created_at == created_at
                &&& q.well_formed()
            },
        },
{
    let date = match parse_date(item.date.as_str()) {
        Some(d) => d,
        None => {
            return None;
        },
    };
    let timestamp = midnight_epoch_seconds(&date);
    let id = compact_date_string(&date).concat("_").concat(symbol);
    proof {
        assert(id@ =~= spec_compact_date(date) + "_"@ + symbol@);
    }
    let zero = DecimalNumber { negative: false, mantissa: 0, scale: 0 };
    let nav = match &item.nav {
        Some(v) => *v,
        None => zero,
    };
    let close = match &item.close {
        Some(v) => *v,
        None => nav,
    };
    Some(
        Quote {
            id,
            symbol: symbol.to_owned(),
            timestamp,
            open: match &item.open {
                Some(v) => *v,
                None => nav,
            },
            high: match &item.high {
                Some(v) => *v,
                None => nav,
            },
            low: match &item.low {
                Some(v) => *v,
                None => nav,
            },
            close,
            adjclose: close,
            volume: match &item.volume {
                Some(v) => *v,
                None => zero,
            },
            currency: currency.to_owned(),
            data_source: source,
            created_at,
        },
    )
}

/// The currency the history conversion stamps on its quotes: the
/// response currency unless it is empty, the fallback then.
pub open spec fn spec_history_currency(
    response_currency: Seq<char>,
    fallback_currency: Seq<char>,
) -> Seq<char> {
    if response_currency.len() == 0 {
        fallback_currency
    } else {
        response_currency
    }
}

/// A quote is the image of a history item under the conversion rules for
/// the given symbol, currency, creation time and source.
pub open spec fn is_history_quote_of(
    q: Quote,
    item: VnHistoryItem,
    symbol: Seq<char>,
    currency: Seq<char>,
    created_at: i64,
    source: DataSource,
) -> bool {
    match spec_parse_date(item.date@) {
        None => false,
        Some(d) => {
            let zero = DecimalNumber { negative: false, mantissa: 0, scale: 0 };
            let nav = item.nav.unwrap_or(zero);
            &&& q.id@ == spec_compact_date(d) + "_"@ + symbol
            &&& q.symbol@ == symbol
            &&& q.timestamp == spec_midnight_epoch_seconds(d)
            &&& q.open == item.open.unwrap_or(nav)
            &&& q.high == item.high.unwrap_or(nav)
            &&& q.low == item.low.unwrap_or(nav)
            &&& q.close == item.close.unwrap_or(nav)
            &&& q.adjclose == item.close.unwrap_or(nav)
            &&& q.volume == item.volume.unwrap_or(zero)
            &&& q.currency@ == currency
            &&& q.data_source == source
            &&& q.created_at == created_at
        },
    }
}

/// The quote descends from some item of the history response.
pub open spec fn from_some_history_item(
    q: Quote,
    items: Seq<VnHistoryItem>,
    symbol: Seq<char>,
    currency: Seq<char>,
    created_at: i64,
    source: DataSource,
) -> bool {
    exists|j: int|
        0 <= j < items.len() && is_history_quote_of(
            q,
            #[trigger] items[j],
            symbol,
            currency,
            created_at,
            source,
        )
}

/// Converts a history response into quotes: the response currency wins
/// over the fallback unless it is empty, rows with unparsable dates are
/// dropped, and an empty outcome is the not-found error.
pub fn quotes_from_history(
    symbol: &str,
    items: &Vec<VnHistoryItem>,
    response_currency: &str,
    fallback_currency: &str,
    created_at: i64,
    source: DataSource,
) -> (r: Result<Vec<Quote>, MarketDataError>)
    requires
        forall|i: int| 0 <= i < items@.len() ==> (#[trigger] items@[i]).well_formed(),
    ensures
        match r {
            Ok(quotes) => quotes@.len() > 0 && (exists|i: int|
                0 <= i < items@.len() && spec_parse_date(
                    (#[trigger] items@[i]).date@,
                ) is Some) && forall|k: int|
                0 <= k < quotes@.len() ==> (#[trigger] quotes@[k]).symbol@ == symbol@
                    && quotes@[k].well_formed() && from_some_history_item(
                    quotes@[k],
                    items@,
                    symbol@,
                    spec_history_currency(response_currency@, fallback_currency@),
                    created_at,
                    source,
                ),
            Err(e) => e@ == ErrorView::NotFound(symbol@) && forall|i: int|
                0 <= i < items@.len() ==> spec_parse_date((#[trigger] items@[i]).date@) is None,
        },
{
    let currency = if response_currency.unicode_len() == 0 {
        fallback_currency
    } else {
        response_currency
    };
    let ghost chosen = spec_history_currency(response_currency@, fallback_currency@);
    let n = items.len();
    let mut quotes: Vec<Quote> = Vec::new();
    let mut i: usize = 0;
    while i < n
        invariant
            n == items@.len(),
            i <= n,
            forall|k: int| 0 <= k < items@.len() ==> (#[trigger] items@[k]).well_formed(),
            currency@ == chosen,
            chosen == spec_history_currency(response_currency@, fallback_currency@),
            forall|k: int|
                0 <= k < quotes@.len() ==> (#[trigger] quotes@[k]).symbol@ == symbol@
                    && quotes@[k].well_formed() && from_some_history_item(
                    quotes@[k],
                    items@,
                    symbol@,
                    chosen,
                    created_at,
                    source,
                ),
            quotes@.len() > 0 ==> exists|k: int|
                0 <= k < i && spec_parse_date((#[trigger] items@[k]).date@) is Some,
            quotes@.len() == 0 ==> forall|k: int|
                0 <= k < i ==> spec_parse_date((#[trigger] items@[k]).date@) is None,
        decreases n - i,
    {
        match quote_from_history_item(symbol, &items[i], currency, created_at, source) {
            Some(q) => {
                let ghost qv = q;
                quotes.push(q);
                proof {
                    assert(is_history_quote_of(
                        qv,
                        items@[i as int],
                        symbol@,
                        chosen,
                        created_at,
                        source,
                    ));
                    assert(from_some_history_item(
                        qv,
                        items@,
                        symbol@,
                        chosen,
                        created_at,
                        source,
                    ));
                }
            },
            None => {},
        }
        i = i + 1;
    }
    if quotes.len() == 0 {
        Err(MarketDataError::NotFound(symbol.to_owned()))
    } else {
        Ok(quotes)
    }
}

} // verus!
