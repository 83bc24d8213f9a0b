//! The computing half of the regional fund backend: filtering and scoring
//! the fund list against a query, and building fund profiles. History
//! conversion is shared with the regional-market module. The HTTP half
//! lives with the caller and hands plain values in.

use vstd::prelude::*;
use crate::model::{AssetProfile, QuoteSummary};
use crate::provider_registry::{has_symbol, sorted_by_score_desc, sort_summaries_desc};
use crate::strutil::{seq_lower, spec_contains_sub, str_contains_lower};
use crate::vn_market_provider::{match_score, spec_match_score};

verus! {

/// One fund of the fund service's listing, as plain values.
#[derive(Debug, Clone)]
pub struct VnFundInfo {
    pub symbol: String,
    pub fund_name: String,
}

/// The detailed record of one fund, as plain values.
#[derive(Debug, Clone)]
pub struct VnFundDetails {
    pub symbol: String,
    pub fund_name: String,
    pub currency: String,
}

/// A fund matches a query when the query occurs in its symbol or its
/// name, ignoring ASCII case.
pub open spec fn fund_matches(f: VnFundInfo, q: Seq<char>) -> bool {
    ||| spec_contains_sub(seq_lower(f.symbol@), seq_lower(q))
    ||| spec_contains_sub(seq_lower(f.fund_name@), seq_lower(q))
}

/// A summary is the image of a fund under the scoring rules for a query.
pub open spec fn is_fund_summary_of(s: QuoteSummary, f: VnFundInfo, q: Seq<char>) -> bool {
    &&& s.symbol@ == f.symbol@
    &&& s.short_name@ == f.fund_name@
    &&& s.long_name@ == f.fund_name@
    &&& s.exchange@ == "VN"@
    &&& s.quote_type@ == "MUTUALFUND"@
    &&& s.type_display@ == "Mutual Fund"@
    &&& s.score == spec_match_score(f.symbol@, f.fund_name@, q)
}

/// The summary descends from some fund of the listing that matches the
/// query.
pub open spec fn from_matching_fund(s: QuoteSummary, funds: Seq<VnFundInfo>, q: Seq<char>) -> bool {
    exists|j: int|
        0 <= j < funds.len() && fund_matches(#[trigger] funds[j], q) && is_fund_summary_of(
            s,
            funds[j],
            q,
        )
}

/// Searches the fund listing: funds whose symbol or name carries the
/// query are scored and ranked by descending score, and at most the ten
/// best are kept. A matching fund can only be missing from the result
/// when ten results were kept.
pub fn search_funds(funds: &Vec<VnFundInfo>, query: &str) -> (r: Vec<QuoteSummary>)
    ensures
        r@.len() <= 10,
        sorted_by_score_desc(r@),
        forall|i: int| 0 <= i < r@.len() ==> from_matching_fund(#[trigger] r@[i], funds@, query@),
        forall|j: int|
            0 <= j < funds@.len() && fund_matches(#[trigger] funds@[j], query@) ==> (r@.len() == 10
                || has_symbol(r@, funds@[j].symbol@)),
{
    let n = funds.len();
    let mut matched: Vec<QuoteSummary> = Vec::new();
    let mut i: usize = 0;
    while i < n
        invariant
            n == funds@.len(),
            i <= n,
            forall|k: int|
                0 <= k < matched@.len() ==> from_matching_fund(
                    #[trigger] matched@[k],
                    funds@,
                    query@,
                ),
            forall|j: int|
                0 <= j < i && fund_matches(#[trigger] funds@[j], query@) ==> has_symbol(
                    matched@,
                    funds@[j].symbol@,
                ),
        decreases n - i,
    {
        let fund = &funds[i];
        let hits = str_contains_lower(fund.symbol.as_str(), query) || str_contains_lower(
            fund.fund_name.as_str(),
            query,
        );
        if hits {
            let score = match_score(fund.symbol.as_str(), fund.fund_name.as_str(), query);
            let ghost pre = matched@;
            matched.push(
                QuoteSummary {
                    symbol: fund.symbol.clone(),
                    short_name: fund.fund_name.clone(),
                    long_name: fund.fund_name.clone(),
                    exchange: String::from_str("VN"),
                    quote_type: String::from_str("MUTUALFUND"),
                    type_display: String::from_str("Mutual Fund"),
                    score,
                },
            );
            proof {
                let last = matched@.len() - 1;
                assert(fund_matches(funds@[i as int], query@) && is_fund_summary_of(
                    matched@[last],
                    funds@[i as int],
                    query@,
                ));
                assert(from_matching_fund(matched@[last], funds@, query@));
                assert(matched@[last].symbol@ == funds@[i as int].symbol@);
                assert forall|j: int|
                    0 <= j < i + 1 && fund_matches(#[trigger] funds@[j], query@) implies has_symbol(
                    matched@,
                    funds@[j].symbol@,
                ) by {
                    if j == i as int {
                        assert(matched@[last].symbol@ == funds@[j].symbol@);
                    } else {
                        let i0 = choose|i0: int|
                            0 <= i0 < pre.len() && (#[trigger] pre[i0]).symbol@
                                == funds@[j].symbol@;
                        assert(matched@[i0].symbol@ == funds@[j].symbol@);
                    }
                };
            }
        }
        i = i + 1;
    }
    let ghost filtered = matched@;
    let mut sorted = sort_summaries_desc(matched);
    let ghost sorted_full = sorted@;
    proof {
        assert forall|i2: int|
            0 <= i2 < sorted@.len() implies from_matching_fund(
            #[trigger] sorted@[i2],
            funds@,
            query@,
        ) by {
            assert(filtered.contains(sorted@[i2]));
            let j0 = choose|j0: int|
                0 <= j0 < filtered.len() && #[trigger] filtered[j0] == sorted@[i2];
            assert(from_matching_fund(filtered[j0], funds@, query@));
        };
        assert forall|j: int|
            0 <= j < funds@.len() && fund_matches(#[trigger] funds@[j], query@) implies has_symbol(
            sorted@,
            funds@[j].symbol@,
        ) by {
            let i0 = choose|i0: int|
                0 <= i0 < filtered.len() && (#[trigger] filtered[i0]).symbol@
                    == funds@[j].symbol@;
            assert(sorted@.contains(filtered[i0]));
            let i1 = choose|i1: int|
                0 <= i1 < sorted@.len() && #[trigger] sorted@[i1] == filtered[i0];
            assert(sorted@[i1].symbol@ == funds@[j].symbol@);
        };
    }
    if sorted.len() > 10 {
        let ghost before = sorted@;
        sorted.truncate(10);
        proof {
            assert(sorted@ == before.take(10));
            assert forall|i2: int|
                0 <= i2 < sorted@.len() implies from_matching_fund(
                #[trigger] sorted@[i2],
                funds@,
                query@,
            ) by {
                assert(sorted@[i2] == sorted_full[i2]);
            };
        }
    }
    sorted
}

/// The asset profile of one fund: always a mutual fund of the regional
/// fund service.
pub fn fund_profile_from_details(details: &VnFundDetails) -> (p: AssetProfile)
    ensures
        p.id is None,
        p.isin is None,
        p.symbol@ == details.symbol@,
        p.name matches Some(nm) && nm@ == details.fund_name@,
        p.asset_type matches Some(t) && t@ == "MUTUAL_FUND"@,
        p.asset_class matches Some(c) && c@ == "Equity"@,
        p.asset_sub_class matches Some(sc) && sc@ == "MutualFund"@,
        p.currency@ == details.currency@,
        p.data_source@ == "VN_FUND"@,
{
    AssetProfile {
        id: None,
        isin: None,
        symbol: details.symbol.clone(),
        symbol_mapping: None,
        name: Some(details.fund_name.clone()),
        asset_type: Some(String::from_str("MUTUAL_FUND")),
        asset_class: Some(String::from_str("Equity")),
        asset_sub_class: Some(String::from_str("MutualFund")),
        currency: details.currency.clone(),
        data_source: String::from_str("VN_FUND"),
        notes: None,
        countries: None,
        categories: None,
        classes: None,
        attributes: None,
        sectors: None,
        url: None,
    }
}

} // verus!
