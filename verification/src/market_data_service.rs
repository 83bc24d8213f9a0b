//! The market-data service: bulk quote retrieval with provider grouping and
//! per-symbol deduplication, quote-import validation, and CSV import
//! reconciliation, over injected persistence and provider collaborators.

use vstd::prelude::*;
use crate::date::{midnight_epoch_seconds, parse_date, spec_midnight_epoch_seconds, spec_parse_date};
use crate::decimal::{dec_lt, DecimalNumber};
use crate::market_data_traits::{
    AssetProfilerPort, AssetRepositoryTrait, MarketDataRepositoryTrait, ProviderPort,
};
use crate::model::{
    AssetProfile, DataSource, ImportValidationStatus, LatestQuotePair, MarketDataError,
    MarketDataProviderInfo, MarketDataProviderSetting, Quote, QuoteImport, QuoteRequest,
    QuoteSummary, StatusView, UpdateMarketDataProviderSetting,
};
use crate::provider_registry::{
    distinct_symbols, kind_display_name, sorted_by_score_desc, spec_kind_display_name,
    spec_resolved_provider, ProviderRegistry,
};
use crate::date::CivilDate;
use crate::model::ErrorView;
use crate::strutil::{seq_lower, str_eq, to_lower_string, u64_to_string};

verus! {

/// The fixed lookback window used to derive a "latest" quote.
pub const QUOTE_LOOKBACK_DAYS: i64 = 7;

/// Relies on chrono's `Utc::now`: the current time, converted by chrono's
/// `timestamp` to seconds since the Unix epoch. Nothing can be promised of
/// a clock reading.
#[verifier::external_body]
fn utc_now_seconds() -> i64 {
    chrono::Utc::now().timestamp()
}

/// Relies on uuid's `Uuid::new_v4` and its hyphenated rendering: a fresh
/// random UUID. The rendering is documented to be 36 characters; nothing
/// more can be promised of a random value.
#[verifier::external_body]
fn new_uuid_string() -> (r: String)
    ensures
        r@.len() == 36,
{
    uuid::Uuid::new_v4().to_string()
}

/// Whether an optional price is present and carries a negative sign.
pub open spec fn spec_opt_negative(d: Option<DecimalNumber>) -> bool {
    match d {
        Some(v) => v.spec_is_sign_negative(),
        None => false,
    }
}

/// The outcome of the ordered row-validation rules, the first violated
/// rule deciding. Comparisons are inclusive: equal boundary values pass.
/// Rules over an absent optional field are skipped.
pub open spec fn spec_validate_import(row: QuoteImport, asset_found: bool) -> StatusView {
    if !asset_found {
        StatusView::Error("Asset '"@ + row.symbol@ + "' not found"@)
    } else if spec_opt_negative(row.open) || spec_opt_negative(row.high) || spec_opt_negative(
        row.low,
    ) || row.close.spec_is_sign_negative() {
        StatusView::Error("Prices cannot be negative"@)
    } else if spec_opt_negative(row.volume) {
        StatusView::Error("Volume cannot be negative"@)
    } else if row.high matches Some(h) && row.open matches Some(o) && h.value28() < o.value28() {
        StatusView::Error("High price must be >= open price"@)
    } else if row.high matches Some(h) && h.value28() < row.close.value28() {
        StatusView::Error("High price must be >= close price"@)
    } else if row.high matches Some(h) && row.low matches Some(l) && h.value28() < l.value28() {
        StatusView::Error("High price must be >= low price"@)
    } else if row.low matches Some(l) && row.open matches Some(o) && l.value28() > o.value28() {
        StatusView::Error("Low price must be <= open price"@)
    } else if row.low matches Some(l) && l.value28() > row.close.value28() {
        StatusView::Error("Low price must be <= close price"@)
    } else {
        StatusView::Valid
    }
}

/// Applies the ordered validation rules to a row, `asset_found` standing
/// for whether the symbol resolved to at least one known asset.
pub fn validate_quote_rules(row: &QuoteImport, asset_found: bool) -> (r: ImportValidationStatus)
    requires
        row.well_formed(),
    ensures
        r@ == spec_validate_import(*row, asset_found),
{
    if !asset_found {
        let msg = String::from_str("Asset '").concat(row.symbol.as_str()).concat("' not found");
        return ImportValidationStatus::Error(msg);
    }
    let open_neg = match &row.open {
        Some(v) => v.is_sign_negative(),
        None => false,
    };
    let high_neg = match &row.high {
        Some(v) => v.is_sign_negative(),
        None => false,
    };
    let low_neg = match &row.low {
        Some(v) => v.is_sign_negative(),
        None => false,
    };
    if open_neg || high_neg || low_neg || row.close.is_sign_negative() {
        return ImportValidationStatus::Error(String::from_str("Prices cannot be negative"));
    }
    let volume_neg = match &row.volume {
        Some(v) => v.is_sign_negative(),
        None => false,
    };
    if volume_neg {
        return ImportValidationStatus::Error(String::from_str("Volume cannot be negative"));
    }
    if let (Some(h), Some(o)) = (&row.high, &row.open) {
        if dec_lt(h, o) {
            return ImportValidationStatus::Error(
                String::from_str("High price must be >= open price"),
            );
        }
    }
    if let Some(h) = &row.high {
        if dec_lt(h, &row.close) {
            return ImportValidationStatus::Error(
                String::from_str("High price must be >= close price"),
            );
        }
    }
    if let (Some(h), Some(l)) = (&row.high, &row.low) {
        if dec_lt(h, l) {
            return ImportValidationStatus::Error(
                String::from_str("High price must be >= low price"),
            );
        }
    }
    if let (Some(l), Some(o)) = (&row.low, &row.open) {
        if dec_lt(o, l) {
            return ImportValidationStatus::Error(
                String::from_str("Low price must be <= open price"),
            );
        }
    }
    if let Some(l) = &row.low {
        if dec_lt(&row.close, l) {
            return ImportValidationStatus::Error(
                String::from_str("Low price must be <= close price"),
            );
        }
    }
    ImportValidationStatus::Valid
}

/// A field-by-field copy of a quote.
pub fn clone_quote(q: &Quote) -> (r: Quote)
    ensures
        r == *q,
{
    Quote {
        id: q.id.clone(),
        symbol: q.symbol.clone(),
        timestamp: q.timestamp,
        open: q.open,
        high: q.high,
        low: q.low,
        close: q.close,
        adjclose: q.adjclose,
        volume: q.volume,
        currency: q.currency.clone(),
        data_source: q.data_source,
        created_at: q.created_at,
    }
}

/// A field-by-field copy of a quote request.
pub fn clone_request(q: &QuoteRequest) -> (r: QuoteRequest)
    ensures
        r == *q,
{
    QuoteRequest {
        symbol: q.symbol.clone(),
        currency: q.currency.clone(),
        data_source: q.data_source,
    }
}

/// The deterministic quote id of the bulk import path:
/// `<symbol>_<date-without-dashes>`.
pub open spec fn spec_import_quote_id(symbol: Seq<char>, date: Seq<char>) -> Seq<char>
    recommends
        date.len() == 10,
{
    symbol + "_"@ + date.subrange(0, 4) + date.subrange(5, 7) + date.subrange(8, 10)
}

/// The quote the bulk import path synthesizes from a row that validated,
/// or `None` when the row's date does not parse as `YYYY-MM-DD`. Absent
/// `open`, `high` and `low` default to `close`; an absent volume defaults
/// to zero; `adjclose` is `close`.
pub fn quote_from_import(row: &QuoteImport, now: i64) -> (r: Option<Quote>)
    requires
        row.well_formed(),
    ensures
        match spec_parse_date(row.date@) {
            None => r is None,
            Some(d) => match r {
                Some(q) => {
                    &&& q.id@ == spec_import_quote_id(row.symbol@, row.date@)
                    &&& q.symbol@ == row.symbol@
                    &&& q.timestamp == spec_midnight_epoch_seconds(d)
                    &&& q.open == row.open.unwrap_or(row.close)
                    &&& q.high == row.high.unwrap_or(row.close)
                    &&& q.low == row.low.unwrap_or(row.close)
                    &&& q.close == row.close
                    &&& q.adjclose == row.close
                    &&& q.volume == row.volume.unwrap_or(
                        DecimalNumber { negative: false, mantissa: 0, scale: 0 },
                    )
                    &&& q.currency@ == row.currency@
                    &&& q.data_source == DataSource::Manual
                    &&& q.created_at == now
                    &&& q.well_formed()
                },
                None => false,
            },
        },
{
    let date = match parse_date(row.date.as_str()) {
        Some(d) => d,
        None => {
            return None;
        },
    };
    let timestamp = midnight_epoch_seconds(&date);
    // the date string is known well-shaped, so stripping its dashes is
    // taking its three digit groups
    let compact = row.date.as_str().substring_char(0, 4).to_owned().concat(
        row.date.as_str().substring_char(5, 7),
    ).concat(row.date.as_str().substring_char(8, 10));
    let id = row.symbol.clone().concat("_").concat(compact.as_str());
    proof {
        assert(id@ =~= spec_import_quote_id(row.symbol@, row.date@));
    }
    Some(
        Quote {
            id,
            symbol: row.symbol.clone(),
            timestamp,
            open: match &row.open {
                Some(v) => *v,
                None => row.close,
            },
            high: match &row.high {
                Some(v) => *v,
                None => row.close,
            },
            low: match &row.low {
                Some(v) => *v,
                None => row.close,
            },
            close: row.close,
            adjclose: row.close,
            volume: match &row.volume {
                Some(v) => *v,
                None => DecimalNumber { negative: false, mantissa: 0, scale: 0 },
            },
            currency: row.currency.clone(),
            data_source: DataSource::Manual,
            created_at: now,
        },
    )
}

/// Reduces a provider's quotes to one per symbol: the quote with the
/// greatest timestamp wins, the first seen keeping its place on a tie.
pub fn reduce_latest_per_symbol(quotes: &Vec<Quote>) -> (r: Vec<Quote>)
    ensures
        forall|i: int, j: int|
            0 <= i < j < r@.len() ==> (#[trigger] r@[i].symbol)@ != (#[trigger] r@[j].symbol)@,
        forall|i: int| 0 <= i < r@.len() ==> quotes@.contains(#[trigger] r@[i]),
        forall|j: int|
            0 <= j < quotes@.len() ==> exists|i: int|
                0 <= i < r@.len() && (#[trigger] quotes@[j]).symbol@ == r@[i].symbol@
                    && quotes@[j].timestamp <= r@[i].timestamp,
{
    let n = quotes.len();
    let mut out: Vec<Quote> = Vec::new();
    let mut idx: usize = 0;
    while idx < n
        invariant
            n == quotes@.len(),
            idx <= n,
            forall|i: int, j: int|
                0 <= i < j < out@.len() ==> (#[trigger] out@[i].symbol)@ != (
                #[trigger] out@[j].symbol)@,
            forall|i: int| 0 <= i < out@.len() ==> quotes@.contains(#[trigger] out@[i]),
            forall|j: int|
                0 <= j < idx ==> exists|i: int|
                    0 <= i < out@.len() && (#[trigger] quotes@[j]).symbol@ == out@[i].symbol@
                        && quotes@[j].timestamp <= out@[i].timestamp,
        decreases n - idx,
    {
        let q = &quotes[idx];
        let m = out.len();
        let mut found: Option<usize> = None;
        let mut t: usize = 0;
        while t < m
            invariant
                m == out@.len(),
                t <= m,
                idx < n,
                n == quotes@.len(),
                *q == quotes@[idx as int],
                match found {
                    Some(k) => k < t && out@[k as int].symbol@ == quotes@[idx as int].symbol@,
                    None => forall|i: int|
                        0 <= i < t ==> (#[trigger] out@[i]).symbol@ != quotes@[idx as int].symbol@,
                },
            decreases m - t,
        {
            if found.is_none() && str_eq(out[t].symbol.as_str(), q.symbol.as_str()) {
                found = Some(t);
            }
            t = t + 1;
        }
        match found {
            Some(k) => {
                if q.timestamp > out[k].timestamp {
                    let ghost pre = out@;
                    out[k] = clone_quote(q);
                    proof {
                        assert(out@ == pre.update(k as int, quotes@[idx as int]));
                        assert forall|j: int|
                            0 <= j < idx + 1 implies exists|i: int|
                                0 <= i < out@.len() && (#[trigger] quotes@[j]).symbol@
                                    == out@[i].symbol@ && quotes@[j].timestamp
                                    <= out@[i].timestamp by {
                            if j == idx as int {
                                assert(out@[k as int].symbol@ == quotes@[j].symbol@
                                    && quotes@[j].timestamp <= out@[k as int].timestamp);
                            } else {
                                let i0 = choose|i0: int|
                                    0 <= i0 < pre.len() && (#[trigger] quotes@[j]).symbol@
                                        == pre[i0].symbol@ && quotes@[j].timestamp
                                        <= pre[i0].timestamp;
                                if i0 == k as int {
                                    assert(out@[k as int].symbol@ == quotes@[j].symbol@
                                        && quotes@[j].timestamp <= out@[k as int].timestamp);
                                } else {
                                    assert(out@[i0].symbol@ == quotes@[j].symbol@
                                        && quotes@[j].timestamp <= out@[i0].timestamp);
                                }
                            }
                        };
                    }
                } else {
                    proof {
                        assert(out@[k as int].symbol@ == quotes@[idx as int].symbol@
                            && quotes@[idx as int].timestamp <= out@[k as int].timestamp);
                    }
                }
            },
            None => {
                let ghost pre = out@;
                out.push(clone_quote(q));
                proof {
                    assert(out@ == pre.push(quotes@[idx as int]));
                    assert(out@[out@.len() - 1].symbol@ == quotes@[idx as int].symbol@);
                    assert forall|j: int|
                        0 <= j < idx + 1 implies exists|i: int|
                            0 <= i < out@.len() && (#[trigger] quotes@[j]).symbol@
                                == out@[i].symbol@ && quotes@[j].timestamp
                                <= out@[i].timestamp by {
                        if j == idx as int {
                            assert(out@[out@.len() - 1].symbol@ == quotes@[j].symbol@);
                        } else {
                            let i0 = choose|i0: int|
                                0 <= i0 < pre.len() && (#[trigger] quotes@[j]).symbol@
                                    == pre[i0].symbol@ && quotes@[j].timestamp
                                    <= pre[i0].timestamp;
                            assert(out@[i0].symbol@ == quotes@[j].symbol@);
                        }
                    };
                }
            },
        }
        idx = idx + 1;
    }
    out
}

/// A copy of a row with a fresh validation status and error message.
fn row_with_status(row: &QuoteImport, status: ImportValidationStatus, msg: Option<String>) -> (r:
    QuoteImport)
    ensures
        r.symbol@ == row.symbol@,
        r.date@ == row.date@,
        r.open == row.open,
        r.high == row.high,
        r.low == row.low,
        r.close == row.close,
        r.volume == row.volume,
        r.currency@ == row.currency@,
        r.validation_status == status,
        r.error_message == msg,
        row.well_formed() ==> r.well_formed(),
{
    QuoteImport {
        symbol: row.symbol.clone(),
        date: row.date.clone(),
        open: row.open,
        high: row.high,
        low: row.low,
        close: row.close,
        volume: row.volume,
        currency: row.currency.clone(),
        validation_status: status,
        error_message: msg,
    }
}

/// The quote the CSV import path synthesizes from a row whose date parsed,
/// under a caller-supplied id. Absent `open`, `high`, `low` and `volume`
/// all default to zero; `adjclose` is `close`.
pub fn quote_from_csv_row(row: &QuoteImport, id: String, now: i64) -> (q: Quote)
    requires
        row.well_formed(),
        spec_parse_date(row.date@) is Some,
    ensures
        q.id@ == id@,
        q.symbol@ == row.symbol@,
        q.timestamp == spec_midnight_epoch_seconds(spec_parse_date(row.date@).unwrap()),
        q.open == row.open.unwrap_or(DecimalNumber { negative: false, mantissa: 0, scale: 0 }),
        q.high == row.high.unwrap_or(DecimalNumber { negative: false, mantissa: 0, scale: 0 }),
        q.low == row.low.unwrap_or(DecimalNumber { negative: false, mantissa: 0, scale: 0 }),
        q.close == row.close,
        q.adjclose == row.close,
        q.volume == row.volume.unwrap_or(DecimalNumber { negative: false, mantissa: 0, scale: 0 }),
        q.currency@ == row.currency@,
        q.data_source == DataSource::Manual,
        q.created_at == now,
        q.well_formed(),
{
    let date = parse_date(row.date.as_str()).unwrap();
    let zero = DecimalNumber { negative: false, mantissa: 0, scale: 0 };
    Quote {
        id,
        symbol: row.symbol.clone(),
        timestamp: midnight_epoch_seconds(&date),
        open: match &row.open {
            Some(v) => *v,
            None => zero,
        },
        high: match &row.high {
            Some(v) => *v,
            None => zero,
        },
        low: match &row.low {
            Some(v) => *v,
            None => zero,
        },
        close: row.close,
        adjclose: row.close,
        volume: match &row.volume {
            Some(v) => *v,
            None => zero,
        },
        currency: row.currency.clone(),
        data_source: DataSource::Manual,
        created_at: now,
    }
}

/// The fixed CSV template handed to users for quote imports.
pub fn get_quote_import_template() -> (r: String)
    ensures
        r@ == "symbol,date,close,volume,currency,dataSource\nAPPL,2024-01-01,150.00,1000000,USD,YAHOO\nGOOGL,2024-01-01,140.00,800000,USD,YAHOO"@,
{
    String::from_str(
        "symbol,date,close,volume,currency,dataSource\nAPPL,2024-01-01,150.00,1000000,USD,YAHOO\nGOOGL,2024-01-01,140.00,800000,USD,YAHOO",
    )
}

/// The basic shape check run before a CSV import: every row must name a
/// symbol. The rows come back unchanged when all do.
pub fn validate_quotes_csv(quotes: Vec<QuoteImport>) -> (r: Result<Vec<QuoteImport>, String>)
    ensures
        match r {
            Ok(rows) => rows@ == quotes@ && forall|i: int|
                0 <= i < quotes@.len() ==> (#[trigger] quotes@[i]).symbol@.len() > 0,
            Err(msg) => msg@ == "Quote symbol cannot be empty"@ && exists|i: int|
                0 <= i < quotes@.len() && (#[trigger] quotes@[i]).symbol@.len() == 0,
        },
{
    let n = quotes.len();
    let mut i: usize = 0;
    while i < n
        invariant
            n == quotes@.len(),
            i <= n,
            forall|k: int| 0 <= k < i ==> (#[trigger] quotes@[k]).symbol@.len() > 0,
        decreases n - i,
    {
        if quotes[i].symbol.as_str().is_empty() {
            return Err(String::from_str("Quote symbol cannot be empty"));
        }
        i = i + 1;
    }
    Ok(quotes)
}

/// A write is attempted for a CSV row exactly when its date parses and,
/// without `overwrite`, the existence lookup reported the quote absent.
pub open spec fn spec_csv_should_write(
    row: QuoteImport,
    overwrite: bool,
    exists_outcome: Option<Result<bool, String>>,
) -> bool {
    &&& spec_parse_date(row.date@) is Some
    &&& (overwrite || exists_outcome matches Some(Ok(false)))
}

pub fn csv_row_should_write(
    row: &QuoteImport,
    overwrite: bool,
    exists_outcome: &Option<Result<bool, String>>,
) -> (r: bool)
    ensures
        r == spec_csv_should_write(*row, overwrite, *exists_outcome),
{
    let date_ok = parse_date(row.date.as_str()).is_some();
    date_ok && (overwrite || matches!(exists_outcome, Some(Ok(false))))
}

/// One row of the CSV reconciliation, as a function of the collaborator
/// outcomes: the existence lookup (absent when it was not consulted) and
/// the save (absent when no write was attempted). Every field but the
/// status and the message is kept; the status follows the outcomes.
pub fn reconcile_csv_row(
    row: &QuoteImport,
    overwrite: bool,
    exists_outcome: &Option<Result<bool, String>>,
    save_outcome: &Option<Result<Quote, String>>,
) -> (r: QuoteImport)
    requires
        row.well_formed(),
    ensures
        r.symbol@ == row.symbol@,
        r.date@ == row.date@,
        r.open == row.open,
        r.high == row.high,
        r.low == row.low,
        r.close == row.close,
        r.volume == row.volume,
        r.currency@ == row.currency@,
        r.well_formed(),
        spec_parse_date(row.date@) is None ==> r.validation_status@ == StatusView::Error(
            "Invalid date format: "@ + row.date@,
        ) && (r.error_message matches Some(m) && m@ == "Invalid date format: "@ + row.date@),
        (spec_parse_date(row.date@) is Some && !overwrite && *exists_outcome matches Some(
            Ok(true),
        )) ==> r.validation_status@ == StatusView::Warning("Quote already exists"@) && (
        r.error_message matches Some(m) && m@ == "Quote already exists (use overwrite to replace)"@),
        spec_parse_date(row.date@) is Some && !overwrite ==> (*exists_outcome matches Some(
            Err(e),
        ) ==> r.validation_status@ == StatusView::Error("Database error: "@ + e@) && (
        r.error_message matches Some(m) && m@ == "Database error: "@ + e@)),
        (spec_csv_should_write(*row, overwrite, *exists_outcome) && *save_outcome matches Some(
            Ok(_),
        )) ==> r.validation_status@ is Valid && r.error_message == row.error_message,
        spec_csv_should_write(*row, overwrite, *exists_outcome) ==> (*save_outcome matches Some(
            Err(e),
        ) ==> r.validation_status@ == StatusView::Error("Failed to save: "@ + e@) && (
        r.error_message matches Some(m) && m@ == "Failed to save: "@ + e@)),
{
    match parse_date(row.date.as_str()) {
        None => {
            let msg = String::from_str("Invalid date format: ").concat(row.date.as_str());
            let msg2 = msg.clone();
            row_with_status(row, ImportValidationStatus::Error(msg), Some(msg2))
        },
        Some(_) => {
            if !overwrite {
                match exists_outcome {
                    Some(Ok(true)) => {
                        return row_with_status(
                            row,
                            ImportValidationStatus::Warning(
                                String::from_str("Quote already exists"),
                            ),
                            Some(String::from_str("Quote already exists (use overwrite to replace)")),
                        );
                    },
                    Some(Err(e)) => {
                        let msg = String::from_str("Database error: ").concat(e.as_str());
                        let msg2 = msg.clone();
                        return row_with_status(row, ImportValidationStatus::Error(msg), Some(msg2));
                    },
                    _ => {},
                }
            }
            match save_outcome {
                Some(Ok(_)) => {
                    let carried = match &row.error_message {
                        Some(m) => Some(m.clone()),
                        None => None,
                    };
                    row_with_status(row, ImportValidationStatus::Valid, carried)
                },
                Some(Err(e)) => {
                    let msg = String::from_str("Failed to save: ").concat(e.as_str());
                    let msg2 = msg.clone();
                    row_with_status(row, ImportValidationStatus::Error(msg), Some(msg2))
                },
                None => {
                    let carried = match &row.error_message {
                        Some(m) => Some(m.clone()),
                        None => None,
                    };
                    row_with_status(row, row.validation_status.duplicate(), carried)
                },
            }
        },
    }
}

/// The statuses a CSV row with a well-formed date can end in: written
/// and valid, refused by the existence check (only without `overwrite`),
/// or failed by the persistence layer.
pub open spec fn csv_row_status_admissible(s: StatusView, overwrite: bool) -> bool {
    match s {
        StatusView::Valid => true,
        StatusView::Warning(m) => !overwrite && m == "Quote already exists"@,
        StatusView::Error(m) => crate::strutil::spec_starts_with(m, "Failed to save: "@) || (
        !overwrite && crate::strutil::spec_starts_with(m, "Database error: "@)),
    }
}

/// Routes each request and groups the resolvable ones by their resolved
/// provider id, keeping encounter order; the unresolvable requests come
/// back separately, and there is one exactly when some request does not
/// resolve.
pub fn group_requests_by_provider(
    registry: &ProviderRegistry,
    quote_requests: &Vec<QuoteRequest>,
) -> (r: (Vec<(String, Vec<QuoteRequest>)>, Vec<QuoteRequest>))
    ensures
        forall|g: int|
            0 <= g < r.0@.len() ==> forall|m: int|
                0 <= m < (#[trigger] r.0@[g]).1@.len() ==> spec_resolved_provider(
                    *registry,
                    (#[trigger] r.0@[g].1@[m]).symbol@,
                ) == Some(r.0@[g].0@),
        forall|g1: int, g2: int|
            0 <= g1 < g2 < r.0@.len() ==> (#[trigger] r.0@[g1]).0@ != (#[trigger] r.0@[g2]).0@,
        forall|m: int|
            0 <= m < r.1@.len() ==> spec_resolved_provider(
                *registry,
                (#[trigger] r.1@[m]).symbol@,
            ) is None,
        (exists|i: int|
            0 <= i < quote_requests@.len() && spec_resolved_provider(
                *registry,
                (#[trigger] quote_requests@[i]).symbol@,
            ) is None) <==> r.1@.len() > 0,
        quote_requests@.len() == 0 ==> r.0@.len() == 0 && r.1@.len() == 0,
{
    let mut groups: Vec<(String, Vec<QuoteRequest>)> = Vec::new();
    let mut failed_requests: Vec<QuoteRequest> = Vec::new();
    let n = quote_requests.len();
    let mut i: usize = 0;
    while i < n
        invariant
            n == quote_requests@.len(),
            i <= n,
            forall|g: int|
                0 <= g < groups@.len() ==> forall|m: int|
                    0 <= m < (#[trigger] groups@[g]).1@.len() ==> spec_resolved_provider(
                        *registry,
                        (#[trigger] groups@[g].1@[m]).symbol@,
                    ) == Some(groups@[g].0@),
            forall|g1: int, g2: int|
                0 <= g1 < g2 < groups@.len() ==> (#[trigger] groups@[g1]).0@ != (
                #[trigger] groups@[g2]).0@,
            forall|m: int|
                0 <= m < failed_requests@.len() ==> spec_resolved_provider(
                    *registry,
                    (#[trigger] failed_requests@[m]).symbol@,
                ) is None,
            (exists|j: int|
                0 <= j < i && spec_resolved_provider(
                    *registry,
                    (#[trigger] quote_requests@[j]).symbol@,
                ) is None) <==> failed_requests@.len() > 0,
            i == 0 ==> groups@.len() == 0 && failed_requests@.len() == 0,
        decreases n - i,
    {
        let request = &quote_requests[i];
        match registry.get_provider_for_symbol(request.symbol.as_str()) {
            Some(provider_id) => {
                let m = groups.len();
                let mut found: Option<usize> = None;
                let mut t: usize = 0;
                while t < m
                    invariant
                        m == groups@.len(),
                        t <= m,
                        match found {
                            Some(g) => g < t && groups@[g as int].0@ == provider_id@,
                            None => forall|g: int|
                                0 <= g < t ==> (#[trigger] groups@[g]).0@ != provider_id@,
                        },
                    decreases m - t,
                {
                    if found.is_none() && str_eq(groups[t].0.as_str(), provider_id) {
                        found = Some(t);
                    }
                    t = t + 1;
                }
                match found {
                    Some(g) => {
                        let ghost pre = groups@;
                        groups[g].1.push(clone_request(request));
                        proof {
                            assert forall|g2: int|
                                0 <= g2 < groups@.len() implies forall|m2: int|
                                    0 <= m2 < (#[trigger] groups@[g2]).1@.len()
                                        ==> spec_resolved_provider(
                                        *registry,
                                        (#[trigger] groups@[g2].1@[m2]).symbol@,
                                    ) == Some(groups@[g2].0@) by {
                                if g2 != g as int {
                                    assert(groups@[g2] == pre[g2]);
                                } else {
                                    assert(groups@[g2].1@ == pre[g2].1@.push(
                                        *request,
                                    ));
                                }
                            };
                        }
                    },
                    None => {
                        let mut members: Vec<QuoteRequest> = Vec::new();
                        members.push(clone_request(request));
                        groups.push((provider_id.to_owned(), members));
                    },
                }
            },
            None => {
                failed_requests.push(clone_request(request));
            },
        }
        i = i + 1;
    }
    (groups, failed_requests)
}

/// The `(symbol, currency, no hint)` triples of a group, as the bulk
/// provider call receives them, in the group's order.
pub fn bulk_fetch_symbols(requests: &Vec<QuoteRequest>) -> (r: Vec<(String, String, Option<String>)>)
    ensures
        r@.len() == requests@.len(),
        forall|i: int|
            0 <= i < r@.len() ==> (#[trigger] r@[i]).0@ == requests@[i].symbol@ && r@[i].1@
                == requests@[i].currency@ && r@[i].2 is None,
{
    let mut out: Vec<(String, String, Option<String>)> = Vec::new();
    let rcount = requests.len();
    let mut z: usize = 0;
    while z < rcount
        invariant
            rcount == requests@.len(),
            z <= rcount,
            out@.len() == z,
            forall|i: int|
                0 <= i < out@.len() ==> (#[trigger] out@[i]).0@ == requests@[i].symbol@
                    && out@[i].1@ == requests@[i].currency@ && out@[i].2 is None,
        decreases rcount - z,
    {
        out.push((requests[z].symbol.clone(), requests[z].currency.clone(), None));
        z = z + 1;
    }
    out
}

/// The market-data service over its collaborators: the registry that
/// routes symbols, the persistence layer, the asset catalogue, and the
/// network-backed providers.
pub struct MarketDataService<R, A, P> {
    pub registry: ProviderRegistry,
    pub repository: R,
    pub asset_repository: A,
    pub providers: P,
}

impl<
    R: MarketDataRepositoryTrait,
    A: AssetRepositoryTrait,
    P: ProviderPort + AssetProfilerPort,
> MarketDataService<R, A, P> {
    pub open spec fn well_formed(self) -> bool {
        self.registry.well_formed()
    }

    pub fn new(registry: ProviderRegistry, repository: R, asset_repository: A, providers: P) -> (r:
        Self)
        requires
            registry.well_formed(),
        ensures
            r.well_formed(),
            r.registry == registry,
    {
        MarketDataService { registry, repository, asset_repository, providers }
    }

    /// Multi-provider ticker search; see `ProviderRegistry::search_ticker`.
    pub fn search_symbol(&self, query: &str) -> (r: Result<Vec<QuoteSummary>, MarketDataError>)
        requires
            self.well_formed(),
        ensures
            match r {
                Ok(results) => results@.len() <= 10 && sorted_by_score_desc(results@)
                    && distinct_symbols(results@),
                Err(e) => e@ is ProviderError,
            },
            crate::provider_registry::spec_profiler_ids(self.registry.entries@).len() == 0 ==> (
            r matches Ok(results) && results@.len() == 0),
    {
        self.registry.search_ticker(&self.providers, query)
    }

    /// The latest quote of one symbol: a singleton bulk retrieval, keeping
    /// its all-or-nothing failure behaviour.
    pub fn get_latest_quote(&self, symbol: &str, currency: &str) -> (r: Result<
        Option<Quote>,
        MarketDataError,
    >)
        requires
            self.well_formed(),
        ensures
            spec_resolved_provider(self.registry, symbol@) is None ==> r is Err,
            r matches Err(e) ==> e@ is ProviderError,
    {
        let request = QuoteRequest {
            symbol: symbol.to_owned(),
            currency: currency.to_owned(),
            data_source: DataSource::Yahoo,
        };
        let mut requests: Vec<QuoteRequest> = Vec::new();
        requests.push(request);
        proof {
            if spec_resolved_provider(self.registry, symbol@) is None {
                assert(spec_resolved_provider(self.registry, requests@[0].symbol@) is None);
            }
        }
        match self.get_latest_quotes_bulk(&requests) {
            Ok(mut quotes) => {
                if quotes.len() == 0 {
                    Ok(None)
                } else {
                    Ok(Some(quotes.remove(0)))
                }
            },
            Err(e) => Err(e),
        }
    }

    /// Bulk retrieval of the latest quotes: requests are routed to their
    /// providers, grouped per provider, fetched over the fixed lookback
    /// window, and reduced to one quote per symbol within each group.
    ///
    /// The call is all-or-nothing at its boundary: any unresolved request
    /// or provider failure fails the whole call, discarding every quote
    /// computed internally, and the error only carries the failure count.
    pub fn get_latest_quotes_bulk(&self, quote_requests: &Vec<QuoteRequest>) -> (r: Result<
        Vec<Quote>,
        MarketDataError,
    >)
        requires
            self.well_formed(),
        ensures
            (exists|i: int|
                0 <= i < quote_requests@.len() && spec_resolved_provider(
                    self.registry,
                    (#[trigger] quote_requests@[i]).symbol@,
                ) is None) ==> r is Err,
            r is Ok ==> forall|i: int|
                0 <= i < quote_requests@.len() ==> spec_resolved_provider(
                    self.registry,
                    (#[trigger] quote_requests@[i]).symbol@,
                ) is Some,
            r matches Err(e) ==> e@ matches ErrorView::ProviderError(m) && crate::strutil::spec_starts_with(
                m,
                "Failed to fetch "@,
            ),
            quote_requests@.len() == 0 ==> r is Ok,
    {
        let (groups, mut failed_requests) = group_requests_by_provider(
            &self.registry,
            quote_requests,
        );
        let ghost unresolved_failures = failed_requests@.len();
        // Fetch each provider group over the fixed lookback window.
        let now = utc_now_seconds();
        let lookback = QUOTE_LOOKBACK_DAYS * 24 * 60 * 60;
        let start = if now >= i64::MIN + lookback {
            now - lookback
        } else {
            now
        };
        let end = now;
        let mut results: Vec<Quote> = Vec::new();
        let gcount = groups.len();
        let mut g: usize = 0;
        while g < gcount
            invariant
                gcount == groups@.len(),
                g <= gcount,
                failed_requests@.len() >= unresolved_failures,
                gcount == 0 ==> failed_requests@.len() == unresolved_failures,
            decreases gcount - g,
        {
            let provider_id = &groups[g].0;
            let requests = &groups[g].1;
            let rcount = requests.len();
            let symbols_with_currencies = bulk_fetch_symbols(requests);
            match self.providers.get_historical_quotes_bulk(
                provider_id.as_str(),
                &symbols_with_currencies,
                start,
                end,
            ) {
                Ok((quotes, failed_symbols)) => {
                    let mut latest = reduce_latest_per_symbol(&quotes);
                    results.append(&mut latest);
                    // A symbol the provider reported as failed keeps the
                    // data source of the request it is paired with.
                    let fcount = failed_symbols.len();
                    let mut z: usize = 0;
                    while z < fcount && z < rcount
                        invariant
                            fcount == failed_symbols@.len(),
                            rcount == requests@.len(),
                            z <= fcount,
                            z <= rcount,
                            failed_requests@.len() >= unresolved_failures,
                        decreases fcount - z,
                    {
                        failed_requests.push(
                            QuoteRequest {
                                symbol: failed_symbols[z].0.clone(),
                                currency: failed_symbols[z].1.clone(),
                                data_source: requests[z].data_source,
                            },
                        );
                        z = z + 1;
                    }
                },
                Err(_) => {
                    // a total provider failure marks the whole group failed
                    let mut z: usize = 0;
                    while z < rcount
                        invariant
                            rcount == requests@.len(),
                            z <= rcount,
                            failed_requests@.len() >= unresolved_failures,
                        decreases rcount - z,
                    {
                        failed_requests.push(clone_request(&requests[z]));
                        z = z + 1;
                    }
                },
            }
            g = g + 1;
        }
        if failed_requests.len() == 0 {
            Ok(results)
        } else {
            let msg = String::from_str("Failed to fetch ").concat(
                u64_to_string(failed_requests.len() as u64).as_str(),
            ).concat(" quotes");
            proof {
                assert(msg@.take("Failed to fetch "@.len() as int) =~= "Failed to fetch "@);
            }
            Err(MarketDataError::ProviderError(msg))
        }
    }

    /// Historical quotes of one symbol, delegated to its resolved
    /// provider; `NotFound` when no provider resolves.
    pub fn get_historical_quotes(&self, symbol: &str, start: i64, end: i64, currency: &str) -> (r:
        Result<Vec<Quote>, MarketDataError>)
        requires
            self.well_formed(),
        ensures
            spec_resolved_provider(self.registry, symbol@) is None ==> (r matches Err(e)
                && e@ matches ErrorView::NotFound(s) && s == symbol@),
    {
        match self.registry.get_provider_for_symbol(symbol) {
            Some(provider_id) => self.providers.get_historical_quotes(
                provider_id,
                symbol,
                start,
                end,
                currency,
            ),
            None => Err(MarketDataError::NotFound(symbol.to_owned())),
        }
    }

    /// The asset profile of a symbol: absent providers and profilers, and
    /// a profiler's not-found outcome, all map to `None`; any other
    /// profiler failure propagates.
    pub fn get_asset_profile(&self, symbol: &str) -> (r: Result<
        Option<AssetProfile>,
        MarketDataError,
    >)
        requires
            self.well_formed(),
        ensures
            spec_resolved_provider(self.registry, symbol@) is None ==> (r matches Ok(p)
                && p is None),
            (spec_resolved_provider(self.registry, symbol@) matches Some(pid)
                && !self.registry.spec_has_profiler(pid)) ==> (r matches Ok(p) && p is None),
            r matches Err(e) ==> !(e@ is NotFound),
    {
        match self.registry.get_provider_for_symbol(symbol) {
            Some(provider_id) => {
                match self.registry.get_profiler(provider_id) {
                    Some(_) => {
                        match self.providers.get_asset_profile(provider_id, symbol) {
                            Ok(profile) => Ok(Some(profile)),
                            Err(MarketDataError::NotFound(_)) => Ok(None),
                            Err(e) => Err(e),
                        }
                    },
                    None => Ok(None),
                }
            },
            None => Ok(None),
        }
    }

    /// Validates one import row, consulting the asset catalogue for the
    /// symbol; the ordered rules are `validate_quote_rules`.
    pub fn validate_quote_import(&self, quote_import: &QuoteImport) -> (r: ImportValidationStatus)
        requires
            quote_import.well_formed(),
        ensures
            r@ == spec_validate_import(*quote_import, true) || r@ == spec_validate_import(
                *quote_import,
                false,
            ),
    {
        let mut symbols: Vec<String> = Vec::new();
        symbols.push(quote_import.symbol.clone());
        let assets = self.asset_repository.list_by_symbols(&symbols);
        let asset_found = match &assets {
            Ok(list) => list.len() > 0,
            Err(_) => false,
        };
        let r = validate_quote_rules(quote_import, asset_found);
        proof {
            assert(r@ == spec_validate_import(*quote_import, asset_found));
        }
        r
    }

    /// Validates every row, synthesizes a quote for each row that
    /// validated, and persists them in one batch call. The full per-row
    /// status list is returned regardless of the persistence outcome: a
    /// batch-save failure is the repository's to report, never this
    /// call's.
    pub fn import_quotes(&self, quotes: &Vec<QuoteImport>) -> (r: Result<
        Vec<ImportValidationStatus>,
        MarketDataError,
    >)
        requires
            forall|i: int| 0 <= i < quotes@.len() ==> (#[trigger] quotes@[i]).well_formed(),
        ensures
            r matches Ok(statuses) && statuses@.len() == quotes@.len() && forall|i: int|
                #![trigger statuses@[i]]
                0 <= i < statuses@.len() ==> (statuses@[i]@ == spec_validate_import(
                    quotes@[i],
                    true,
                ) || statuses@[i]@ == spec_validate_import(quotes@[i], false)),
    {
        let now = utc_now_seconds();
        let n = quotes.len();
        let mut validation_results: Vec<ImportValidationStatus> = Vec::new();
        let ghost mut flags: Seq<bool> = Seq::empty();
        let mut i: usize = 0;
        while i < n
            invariant
                n == quotes@.len(),
                i <= n,
                forall|k: int| 0 <= k < quotes@.len() ==> (#[trigger] quotes@[k]).well_formed(),
                validation_results@.len() == i,
                flags.len() == i,
                forall|k: int|
                    0 <= k < i ==> (#[trigger] validation_results@[k])@ == spec_validate_import(
                        quotes@[k],
                        flags[k],
                    ),
            decreases n - i,
        {
            let status = self.validate_quote_import(&quotes[i]);
            let ghost sview = status@;
            validation_results.push(status);
            proof {
                let b: bool = sview == spec_validate_import(quotes@[i as int], true);
                flags = flags.push(b);
            }
            i = i + 1;
        }
        let mut valid_quotes: Vec<Quote> = Vec::new();
        let mut i: usize = 0;
        while i < n
            invariant
                n == quotes@.len(),
                i <= n,
                validation_results@.len() == n,
                flags.len() == n,
                forall|k: int| 0 <= k < quotes@.len() ==> (#[trigger] quotes@[k]).well_formed(),
                forall|k: int|
                    0 <= k < n ==> (#[trigger] validation_results@[k])@ == spec_validate_import(
                        quotes@[k],
                        flags[k],
                    ),
            decreases n - i,
        {
            let is_valid = matches!(validation_results[i], ImportValidationStatus::Valid);
            if is_valid {
                match quote_from_import(&quotes[i], now) {
                    Some(q) => {
                        valid_quotes.push(q);
                    },
                    None => {},
                }
            }
            i = i + 1;
        }
        proof {
            assert forall|k: int|
                #![trigger validation_results@[k]]
                0 <= k < validation_results@.len() implies (validation_results@[k]@
                == spec_validate_import(quotes@[k], true) || validation_results@[k]@
                == spec_validate_import(quotes@[k], false)) by {
                assert(validation_results@[k]@ == spec_validate_import(quotes@[k], flags[k]));
            };
        }
        if valid_quotes.len() > 0 {
            match self.repository.save_quotes(&valid_quotes) {
                Ok(_) => {},
                Err(_) => {},
            }
        }
        Ok(validation_results)
    }

    /// Row-by-row CSV import reconciliation. Each row's status and error
    /// message are rewritten in place and the full list is returned; no
    /// row's problem ever fails the call. A row whose date does not parse
    /// as `YYYY-MM-DD` is marked invalid; without `overwrite`, a row whose
    /// `(symbol, date)` already exists is marked as a warning and not
    /// written; otherwise a quote with a fresh unique id is written, the
    /// outcome deciding between valid and a save error.
    pub fn import_quotes_from_csv(&self, quotes: Vec<QuoteImport>, overwrite: bool) -> (r: Result<
        Vec<QuoteImport>,
        MarketDataError,
    >)
        requires
            forall|i: int| 0 <= i < quotes@.len() ==> (#[trigger] quotes@[i]).well_formed(),
        ensures
            r matches Ok(rows) && rows@.len() == quotes@.len(),
            r matches Ok(rows) ==> forall|i: int|
                0 <= i < rows@.len() ==> {
                    let row = #[trigger] rows@[i];
                    &&& row.symbol@ == quotes@[i].symbol@
                    &&& row.date@ == quotes@[i].date@
                    &&& row.open == quotes@[i].open
                    &&& row.high == quotes@[i].high
                    &&& row.low == quotes@[i].low
                    &&& row.close == quotes@[i].close
                    &&& row.volume == quotes@[i].volume
                    &&& row.currency@ == quotes@[i].currency@
                    &&& (spec_parse_date(quotes@[i].date@) is None ==> row.validation_status@
                        == StatusView::Error("Invalid date format: "@ + quotes@[i].date@))
                    &&& (spec_parse_date(quotes@[i].date@) is Some ==> csv_row_status_admissible(
                        row.validation_status@,
                        overwrite,
                    ))
                },
    {
        let now = utc_now_seconds();
        let n = quotes.len();
        let mut out: Vec<QuoteImport> = Vec::new();
        let mut i: usize = 0;
        while i < n
            invariant
                n == quotes@.len(),
                i <= n,
                forall|k: int| 0 <= k < quotes@.len() ==> (#[trigger] quotes@[k]).well_formed(),
                out@.len() == i,
                forall|k: int|
                    0 <= k < i ==> {
                        let row = #[trigger] out@[k];
                        &&& row.symbol@ == quotes@[k].symbol@
                        &&& row.date@ == quotes@[k].date@
                        &&& row.open == quotes@[k].open
                        &&& row.high == quotes@[k].high
                        &&& row.low == quotes@[k].low
                        &&& row.close == quotes@[k].close
                        &&& row.volume == quotes@[k].volume
                        &&& row.currency@ == quotes@[k].currency@
                        &&& (spec_parse_date(quotes@[k].date@) is None ==> row.validation_status@
                            == StatusView::Error("Invalid date format: "@ + quotes@[k].date@))
                        &&& (spec_parse_date(quotes@[k].date@) is Some ==> csv_row_status_admissible(
                            row.validation_status@,
                            overwrite,
                        ))
                    },
            decreases n - i,
        {
            let row = &quotes[i];
            let date_ok = parse_date(row.date.as_str()).is_some();
            let exists_outcome: Option<Result<bool, String>> = if !overwrite && date_ok {
                Some(self.repository.quote_exists(row.symbol.as_str(), row.date.as_str()))
            } else {
                None
            };
            let should_write = csv_row_should_write(row, overwrite, &exists_outcome);
            let save_outcome: Option<Result<Quote, String>> = if should_write {
                let new_quote = quote_from_csv_row(row, new_uuid_string(), now);
                Some(self.repository.save_quote(&new_quote))
            } else {
                None
            };
            let reconciled = reconcile_csv_row(row, overwrite, &exists_outcome, &save_outcome);
            proof {
                if spec_parse_date(row.date@) is Some {
                    assert(csv_row_status_admissible(reconciled.validation_status@, overwrite))
                        by {
                        if spec_csv_should_write(*row, overwrite, exists_outcome) {
                            match save_outcome {
                                Some(Ok(_)) => {},
                                Some(Err(e)) => {
                                    let m = "Failed to save: "@ + e@;
                                    assert(m.take("Failed to save: "@.len() as int)
                                        =~= "Failed to save: "@);
                                },
                                None => {
                                    assert(false);
                                },
                            }
                        } else {
                            match &exists_outcome {
                                Some(Ok(true)) => {},
                                Some(Err(e)) => {
                                    let m = "Database error: "@ + e@;
                                    assert(m.take("Database error: "@.len() as int)
                                        =~= "Database error: "@);
                                },
                                _ => {
                                    assert(false);
                                },
                            }
                        }
                    };
                }
            }
            out.push(reconciled);
            i = i + 1;
        }
        Ok(out)
    }

    /// Delegates a batch upsert to the repository.
    pub fn bulk_upsert_quotes(&self, quotes: Vec<Quote>) -> (r: Result<usize, MarketDataError>)
        ensures
            r matches Err(e) ==> e@ is ProviderError,
    {
        match self.repository.bulk_upsert_quotes(quotes) {
            Ok(count) => Ok(count),
            Err(e) => Err(MarketDataError::ProviderError(e)),
        }
    }

    /// The persisted provider settings.
    pub fn get_provider_settings(&self) -> (r: Result<
        Vec<MarketDataProviderSetting>,
        MarketDataError,
    >)
        ensures
            r matches Err(e) ==> e@ is ProviderError,
    {
        match self.repository.get_all_providers() {
            Ok(settings) => Ok(settings),
            Err(e) => Err(MarketDataError::ProviderError(e)),
        }
    }

    /// Applies a partial settings update through the repository.
    pub fn update_provider_setting(
        &self,
        provider_id: String,
        update: UpdateMarketDataProviderSetting,
    ) -> (r: Result<(), MarketDataError>)
        ensures
            r matches Err(e) ==> e@ is ProviderError,
    {
        match self.repository.update_provider_settings(provider_id, update) {
            Ok(_) => Ok(()),
            Err(e) => Err(MarketDataError::ProviderError(e)),
        }
    }

    /// One information row per registered provider, in priority order: the
    /// id, the backend's display name, a logo file name derived from the
    /// lowercased id, and no sync date, which an outside collaborator
    /// fills in.
    pub fn get_provider_info(&self) -> (r: Vec<MarketDataProviderInfo>)
        ensures
            r@.len() == self.registry.entries@.len(),
            forall|k: int|
                0 <= k < r@.len() ==> {
                    let info = #[trigger] r@[k];
                    &&& info.id@ == self.registry.entries@[k].id@
                    &&& info.name@ == spec_kind_display_name(self.registry.entries@[k].kind)
                    &&& info.logo_filename@ == seq_lower(self.registry.entries@[k].id@) + ".png"@
                    &&& info.last_synced_date is None
                },
    {
        let n = self.registry.entries.len();
        let mut info: Vec<MarketDataProviderInfo> = Vec::new();
        let mut i: usize = 0;
        while i < n
            invariant
                n == self.registry.entries@.len(),
                i <= n,
                info@.len() == i,
                forall|k: int|
                    0 <= k < i ==> {
                        let row = #[trigger] info@[k];
                        &&& row.id@ == self.registry.entries@[k].id@
                        &&& row.name@ == spec_kind_display_name(self.registry.entries@[k].kind)
                        &&& row.logo_filename@ == seq_lower(self.registry.entries@[k].id@)
                            + ".png"@
                        &&& row.last_synced_date is None
                    },
            decreases n - i,
        {
            let entry = &self.registry.entries[i];
            info.push(
                MarketDataProviderInfo {
                    id: entry.id.clone(),
                    name: String::from_str(kind_display_name(entry.kind)),
                    logo_filename: to_lower_string(entry.id.as_str()).concat(".png"),
                    last_synced_date: None,
                },
            );
            i = i + 1;
        }
        info
    }

    /// Persists one quote through the repository.
    pub fn save_quote(&self, quote: &Quote) -> (r: Result<Quote, MarketDataError>)
        ensures
            r matches Err(e) ==> e@ is ProviderError,
    {
        match self.repository.save_quote(quote) {
            Ok(saved) => Ok(saved),
            Err(e) => Err(MarketDataError::ProviderError(e)),
        }
    }

    /// The repository's latest-quote pairs, passed through.
    pub fn get_latest_quotes_pair_for_symbols(
        &self,
        symbol_source_pairs: &Vec<(String, String)>,
    ) -> (r: Result<Vec<(String, LatestQuotePair)>, MarketDataError>)
        ensures
            r matches Err(e) ==> e@ is ProviderError,
    {
        match self.repository.get_latest_quotes_pair_for_symbols(symbol_source_pairs) {
            Ok(pairs) => Ok(pairs),
            Err(e) => Err(MarketDataError::ProviderError(e)),
        }
    }

    /// The repository's historical quotes over a date range, passed
    /// through.
    pub fn get_historical_quotes_for_symbols_in_range(
        &self,
        symbols: &Vec<String>,
        start_date: CivilDate,
        end_date: CivilDate,
    ) -> (r: Result<Vec<Quote>, MarketDataError>)
        ensures
            r matches Err(e) ==> e@ is ProviderError,
    {
        match self.repository.get_historical_quotes_for_symbols_in_range(
            symbols,
            start_date,
            end_date,
        ) {
            Ok(quotes) => Ok(quotes),
            Err(e) => Err(MarketDataError::ProviderError(e)),
        }
    }
}

} // verus!
