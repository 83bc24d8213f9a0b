//! The provider registry: builds an ordered, priority-sorted set of active
//! providers and profilers from persisted settings and a secret resolver,
//! and routes symbols and searches to them.

use vstd::prelude::*;
use crate::model::{ErrorView, MarketDataError, MarketDataProviderSetting, QuoteSummary};
use crate::market_data_traits::{AssetProfilerPort, SecretResolver, SettingsServiceTrait};
use crate::strutil::{
    spec_contains_sub, spec_ends_with, spec_starts_with, seq_upper, str_contains_upper,
    str_ends_with_upper, str_eq,
};

verus! {

/// The concrete backend a provider id selects.
#[derive(Debug, Clone, Copy, PartialEq, Eq, Structural)]
pub enum ProviderKind {
    Yahoo,
    MarketDataApp,
    AlphaVantage,
    MetalPriceApi,
    VnMarket,
    Manual,
}

/// One activated provider: its id, the priority that ordered it, the
/// backend it selects, and what the backend needs to be instantiated.
#[derive(Debug, Clone)]
pub struct ProviderEntry {
    pub id: String,
    pub priority: i32,
    pub kind: ProviderKind,
    pub has_profiler: bool,
    pub api_key: Option<String>,
    pub base_url: Option<String>,
}

/// The backend a known provider id selects; `None` for an unknown id.
pub open spec fn spec_kind_for_id(id: Seq<char>) -> Option<ProviderKind> {
    if id == "YAHOO"@ {
        Some(ProviderKind::Yahoo)
    } else if id == "MARKETDATA_APP"@ {
        Some(ProviderKind::MarketDataApp)
    } else if id == "ALPHA_VANTAGE"@ {
        Some(ProviderKind::AlphaVantage)
    } else if id == "METAL_PRICE_API"@ {
        Some(ProviderKind::MetalPriceApi)
    } else if id == "VN_MARKET"@ {
        Some(ProviderKind::VnMarket)
    } else if id == "MANUAL"@ {
        Some(ProviderKind::Manual)
    } else {
        None
    }
}

pub fn kind_for_id(id: &str) -> (r: Option<ProviderKind>)
    ensures
        r == spec_kind_for_id(id@),
{
    if str_eq(id, "YAHOO") {
        Some(ProviderKind::Yahoo)
    } else if str_eq(id, "MARKETDATA_APP") {
        Some(ProviderKind::MarketDataApp)
    } else if str_eq(id, "ALPHA_VANTAGE") {
        Some(ProviderKind::AlphaVantage)
    } else if str_eq(id, "METAL_PRICE_API") {
        Some(ProviderKind::MetalPriceApi)
    } else if str_eq(id, "VN_MARKET") {
        Some(ProviderKind::VnMarket)
    } else if str_eq(id, "MANUAL") {
        Some(ProviderKind::Manual)
    } else {
        None
    }
}

/// Whether a backend offers the profiler capability.
pub open spec fn spec_kind_has_profiler(kind: ProviderKind) -> bool {
    match kind {
        ProviderKind::Yahoo => true,
        ProviderKind::MarketDataApp => false,
        ProviderKind::AlphaVantage => true,
        ProviderKind::MetalPriceApi => true,
        ProviderKind::VnMarket => true,
        ProviderKind::Manual => true,
    }
}

#[verifier::when_used_as_spec(spec_kind_has_profiler)]
pub fn kind_has_profiler(kind: ProviderKind) -> (r: bool)
    ensures
        r == spec_kind_has_profiler(kind),
{
    match kind {
        ProviderKind::Yahoo => true,
        ProviderKind::MarketDataApp => false,
        ProviderKind::AlphaVantage => true,
        ProviderKind::MetalPriceApi => true,
        ProviderKind::VnMarket => true,
        ProviderKind::Manual => true,
    }
}

/// Whether a backend requires an API key to be instantiated.
pub open spec fn spec_kind_needs_key(kind: ProviderKind) -> bool {
    match kind {
        ProviderKind::Yahoo => false,
        ProviderKind::MarketDataApp => true,
        ProviderKind::AlphaVantage => true,
        ProviderKind::MetalPriceApi => true,
        ProviderKind::VnMarket => false,
        ProviderKind::Manual => false,
    }
}

/// The display name of a backend.
pub fn kind_display_name(kind: ProviderKind) -> (r: &'static str)
    ensures
        r@ == spec_kind_display_name(kind),
{
    match kind {
        ProviderKind::Yahoo => "Yahoo",
        ProviderKind::MarketDataApp => "MarketData.app",
        ProviderKind::AlphaVantage => "AlphaVantage",
        ProviderKind::MetalPriceApi => "MetalpriceAPI",
        ProviderKind::VnMarket => "VN_MARKET",
        ProviderKind::Manual => "Manual",
    }
}

pub open spec fn spec_kind_display_name(kind: ProviderKind) -> Seq<char> {
    match kind {
        ProviderKind::Yahoo => "Yahoo"@,
        ProviderKind::MarketDataApp => "MarketData.app"@,
        ProviderKind::AlphaVantage => "AlphaVantage"@,
        ProviderKind::MetalPriceApi => "MetalpriceAPI"@,
        ProviderKind::VnMarket => "VN_MARKET"@,
        ProviderKind::Manual => "Manual"@,
    }
}

/// The fields of an entry agree with one another and with its id, and a
/// backend that requires an API key holds a non-empty one.
pub open spec fn entry_consistent(e: ProviderEntry) -> bool {
    &&& spec_kind_for_id(e.id@) == Some(e.kind)
    &&& e.has_profiler == spec_kind_has_profiler(e.kind)
    &&& (spec_kind_needs_key(e.kind) ==> (e.api_key matches Some(key) && key@.len() > 0))
}

pub open spec fn sorted_by_priority(s: Seq<ProviderEntry>) -> bool {
    forall|i: int, j: int| 0 <= i <= j < s.len() ==> #[trigger] s[i].priority <= #[trigger] s[j].priority
}

/// No two settings share an id.
pub open spec fn distinct_setting_ids(s: Seq<MarketDataProviderSetting>) -> bool {
    forall|i: int, j: int| 0 <= i < j < s.len() ==> (#[trigger] s[i].id)@ != (#[trigger] s[j].id)@
}

/// The position of the setting with the given id.
pub open spec fn setting_index(s: Seq<MarketDataProviderSetting>, id: Seq<char>) -> int {
    choose|j: int| 0 <= j < s.len() && (#[trigger] s[j].id)@ == id
}

/// Some entry of the sequence carries the id.
pub open spec fn entries_contain_id(s: Seq<ProviderEntry>, id: Seq<char>) -> bool {
    exists|k: int| 0 <= k < s.len() && (#[trigger] s[k]).id@ == id
}

/// An entry at position `k` descends from an enabled setting.
pub open spec fn entry_from_enabled_setting(
    e: ProviderEntry,
    settings: Seq<MarketDataProviderSetting>,
    upto: int,
) -> bool {
    exists|j: int|
        0 <= j < upto && (#[trigger] settings[j]).enabled && settings[j].id@ == e.id@
            && settings[j].priority == e.priority
}

/// An ordered registry of active providers. The sequence is sorted by
/// priority ascending; the id-keyed provider and profiler lookups and the
/// ordered id lists are all derived from this one sequence, so they cannot
/// fall out of step with one another.
pub struct ProviderRegistry {
    pub entries: Vec<ProviderEntry>,
}

impl ProviderRegistry {
    pub open spec fn well_formed(self) -> bool {
        &&& sorted_by_priority(self.entries@)
        &&& forall|k: int|
            0 <= k < self.entries@.len() ==> entry_consistent(#[trigger] self.entries@[k])
    }

    /// The id appears among the registered providers.
    pub open spec fn spec_has_provider(self, id: Seq<char>) -> bool {
        entries_contain_id(self.entries@, id)
    }

    /// The id appears among the registered profilers.
    pub open spec fn spec_has_profiler(self, id: Seq<char>) -> bool {
        exists|k: int|
            0 <= k < self.entries@.len() && (#[trigger] self.entries@[k]).id@ == id
                && self.entries@[k].has_profiler
    }

    /// Builds the registry from persisted settings.
    ///
    /// Disabled settings are discarded. For providers that require one, an
    /// API key is resolved through the secret resolver; a resolution error,
    /// or a missing or empty key where one is required, skips that provider
    /// and never fails the whole construction. Unknown ids are skipped. The
    /// surviving providers are ordered by priority ascending, ties keeping
    /// the order the settings came in.
    pub fn new<S: SecretResolver, U: SettingsServiceTrait>(
        provider_settings: Vec<MarketDataProviderSetting>,
        secrets: &S,
        settings_service: Option<&U>,
    ) -> (r: ProviderRegistry)
        ensures
            r.well_formed(),
            // only enabled settings ever enter the registry
            forall|k: int|
                0 <= k < r.entries@.len() ==> entry_from_enabled_setting(
                    #[trigger] r.entries@[k],
                    provider_settings@,
                    provider_settings@.len() as int,
                ),
            // equal priorities keep the settings order
            distinct_setting_ids(provider_settings@) ==> forall|k1: int, k2: int|
                0 <= k1 < k2 < r.entries@.len() && (#[trigger] r.entries@[k1]).priority == (
                #[trigger] r.entries@[k2]).priority ==> setting_index(
                    provider_settings@,
                    r.entries@[k1].id@,
                ) < setting_index(provider_settings@, r.entries@[k2].id@),
            // enabled settings whose backend needs neither a secret lookup
            // nor a key are always registered
            forall|j: int|
                0 <= j < provider_settings@.len() && (#[trigger] provider_settings@[j]).enabled
                    && (provider_settings@[j].id@ == "YAHOO"@ || provider_settings@[j].id@
                    == "VN_MARKET"@) ==> r.spec_has_provider(provider_settings@[j].id@),
    {
        let ghost settings = provider_settings@;
        let mut out: Vec<ProviderEntry> = Vec::new();
        let mut j: usize = 0;
        while j < provider_settings.len()
            invariant
                j <= provider_settings@.len(),
                settings == provider_settings@,
                sorted_by_priority(out@),
                forall|k: int| 0 <= k < out@.len() ==> entry_consistent(#[trigger] out@[k]),
                forall|k: int|
                    0 <= k < out@.len() ==> entry_from_enabled_setting(
                        #[trigger] out@[k],
                        settings,
                        j as int,
                    ),
                distinct_setting_ids(settings) ==> forall|k1: int, k2: int|
                    0 <= k1 < k2 < out@.len() && (#[trigger] out@[k1]).priority == (
                    #[trigger] out@[k2]).priority ==> setting_index(settings, out@[k1].id@)
                        < setting_index(settings, out@[k2].id@),
                forall|jj: int|
                    0 <= jj < j && (#[trigger] settings[jj]).enabled && (settings[jj].id@
                        == "YAHOO"@ || settings[jj].id@ == "VN_MARKET"@) ==> entries_contain_id(
                        out@,
                        settings[jj].id@,
                    ),
            decreases provider_settings@.len() - j,
        {
            let ghost iter_start = out@;
            let setting = &provider_settings[j];
            if setting.enabled {
                let kind_opt = kind_for_id(setting.id.as_str());
                // A secret is resolved for every id outside the two that
                // never need one; a resolution failure skips the setting
                // whatever its id selects.
                let needs_lookup = !(str_eq(setting.id.as_str(), "YAHOO") || str_eq(
                    setting.id.as_str(),
                    "VN_MARKET",
                ));
                let mut lookup_failed = false;
                let mut api_key: Option<String> = None;
                if needs_lookup {
                    match secrets.get_secret(setting.id.as_str()) {
                        Ok(key_opt) => {
                            api_key = key_opt;
                        },
                        Err(_) => {
                            lookup_failed = true;
                        },
                    }
                }
                if !lookup_failed {
                    if let Some(kind) = kind_opt {
                        let keyed_ok = if kind_needs_key(kind) {
                            match &api_key {
                                Some(k) => k.as_str().unicode_len() > 0,
                                None => false,
                            }
                        } else {
                            true
                        };
                        if keyed_ok {
                            let base_url: Option<String> = if matches!(kind, ProviderKind::VnMarket) {
                                Some(resolve_vn_market_url(settings_service))
                            } else {
                                None
                            };
                            let entry = ProviderEntry {
                                id: setting.id.clone(),
                                priority: setting.priority,
                                kind,
                                has_profiler: kind_has_profiler(kind),
                                api_key,
                                base_url,
                            };
                            insert_entry_sorted(&mut out, entry, Ghost(settings), Ghost(j as int));
                        }
                    }
                }
            }
            proof {
                assert forall|jj: int|
                    0 <= jj < j + 1 && (#[trigger] settings[jj]).enabled && (settings[jj].id@
                        == "YAHOO"@ || settings[jj].id@ == "VN_MARKET"@) implies entries_contain_id(
                    out@,
                    settings[jj].id@,
                ) by {
                    if jj < j {
                        assert(entries_contain_id(iter_start, settings[jj].id@));
                    } else {
                        assert(jj == j as int);
                        assert(setting.enabled);
                        if settings[jj].id@ == "YAHOO"@ {
                            assert(spec_kind_for_id(setting.id@) == Some(ProviderKind::Yahoo));
                        } else {
                            // the id literals all have different lengths, so
                            // the earlier arms of the id dispatch are closed
                            reveal_strlit("YAHOO");
                            reveal_strlit("MARKETDATA_APP");
                            reveal_strlit("ALPHA_VANTAGE");
                            reveal_strlit("METAL_PRICE_API");
                            reveal_strlit("VN_MARKET");
                            assert("VN_MARKET"@.len() == 9 && "YAHOO"@.len() == 5
                                && "MARKETDATA_APP"@.len() == 14 && "ALPHA_VANTAGE"@.len() == 13
                                && "METAL_PRICE_API"@.len() == 15);
                            assert(spec_kind_for_id(setting.id@) == Some(ProviderKind::VnMarket));
                        }
                        assert(entries_contain_id(out@, settings[jj].id@));
                    }
                };
            }
            j = j + 1;
        }
        ProviderRegistry { entries: out }
    }
}

/// A symbol of the regional market, recognized by its suffix; the match
/// ignores ASCII case.
pub open spec fn spec_is_vn_symbol(sym: Seq<char>) -> bool {
    spec_ends_with(seq_upper(sym), seq_upper(".VN"@))
}

pub fn is_vn_symbol(symbol: &str) -> (r: bool)
    ensures
        r == spec_is_vn_symbol(symbol@),
{
    str_ends_with_upper(symbol, ".VN")
}

/// The first provider id at or after position `i` that is not the
/// regional-market provider.
pub open spec fn spec_first_non_regional_from(s: Seq<ProviderEntry>, i: int) -> Option<Seq<char>>
    decreases s.len() - i,
{
    if i < 0 || i >= s.len() {
        None
    } else if s[i].id@ != "VN_MARKET"@ {
        Some(s[i].id@)
    } else {
        spec_first_non_regional_from(s, i + 1)
    }
}

/// The first provider id in priority order that is not the regional-market
/// provider.
pub open spec fn spec_first_non_regional(s: Seq<ProviderEntry>) -> Option<Seq<char>> {
    spec_first_non_regional_from(s, 0)
}

/// The provider id symbol routing resolves to, if any: the regional
/// provider for a regional-suffixed symbol exactly when it is registered,
/// the first non-regional provider in priority order otherwise.
pub open spec fn spec_resolved_provider(reg: ProviderRegistry, sym: Seq<char>) -> Option<
    Seq<char>,
> {
    if spec_is_vn_symbol(sym) {
        if reg.spec_has_provider("VN_MARKET"@) {
            Some("VN_MARKET"@)
        } else {
            None
        }
    } else {
        spec_first_non_regional(reg.entries@)
    }
}

/// The ids of the registered profilers, in priority order.
pub open spec fn spec_profiler_ids(s: Seq<ProviderEntry>) -> Seq<Seq<char>>
    decreases s.len(),
{
    if s.len() == 0 {
        Seq::empty()
    } else {
        let rest = spec_profiler_ids(s.drop_last());
        if s.last().has_profiler {
            rest.push(s.last().id@)
        } else {
            rest
        }
    }
}

/// The ids of the registered profilers other than the regional-market one,
/// in priority order.
pub open spec fn spec_profiler_ids_except_regional(s: Seq<ProviderEntry>) -> Seq<Seq<char>>
    decreases s.len(),
{
    if s.len() == 0 {
        Seq::empty()
    } else {
        let rest = spec_profiler_ids_except_regional(s.drop_last());
        if s.last().has_profiler && s.last().id@ != "VN_MARKET"@ {
            rest.push(s.last().id@)
        } else {
            rest
        }
    }
}

/// The contents of a list of id strings.
pub open spec fn id_views(s: Seq<String>) -> Seq<Seq<char>> {
    s.map_values(|x: String| x@)
}

/// Without profiler ids there is no profiler entry at all.
proof fn lemma_profiler_ids_empty(s: Seq<ProviderEntry>)
    requires
        spec_profiler_ids(s).len() == 0,
    ensures
        forall|k: int| 0 <= k < s.len() ==> !(#[trigger] s[k]).has_profiler,
    decreases s.len(),
{
    if s.len() > 0 {
        lemma_profiler_ids_empty(s.drop_last());
        assert forall|k: int| 0 <= k < s.len() implies !(#[trigger] s[k]).has_profiler by {
            if k < s.len() - 1 {
                assert(s.drop_last()[k] == s[k]);
            }
        };
    }
}

/// Without profiler entries, the regional-exempt profiler list is empty
/// as well.
proof fn lemma_except_regional_empty(s: Seq<ProviderEntry>)
    requires
        forall|k: int| 0 <= k < s.len() ==> !(#[trigger] s[k]).has_profiler,
    ensures
        spec_profiler_ids_except_regional(s).len() == 0,
    decreases s.len(),
{
    if s.len() > 0 {
        assert forall|k: int|
            0 <= k < s.drop_last().len() implies !(#[trigger] s.drop_last()[k]).has_profiler by {
            assert(s.drop_last()[k] == s[k]);
        };
        lemma_except_regional_empty(s.drop_last());
    }
}

/// Scores never increase along the sequence.
pub open spec fn sorted_by_score_desc(s: Seq<QuoteSummary>) -> bool {
    forall|i: int, j: int|
        0 <= i <= j < s.len() ==> #[trigger] s[i].score >= #[trigger] s[j].score
}

/// Some summary in the sequence carries the symbol.
pub open spec fn has_symbol(s: Seq<QuoteSummary>, sym: Seq<char>) -> bool {
    exists|i: int| 0 <= i < s.len() && (#[trigger] s[i]).symbol@ == sym
}

/// No two summaries share a symbol.
pub open spec fn distinct_symbols(s: Seq<QuoteSummary>) -> bool {
    forall|i: int, j: int|
        0 <= i < j < s.len() ==> (#[trigger] s[i].symbol)@ != (#[trigger] s[j].symbol)@
}

impl ProviderRegistry {
    /// Does the query carry a regional-market indicator: `VN`, or one of
    /// the regional exchange names `HNX` and `UPCOM`, anywhere in the
    /// query, ignoring ASCII case?
    pub fn contains_vn_indicator(query: &str) -> (r: bool)
        ensures
            r == spec_contains_vn_indicator(query@),
    {
        str_contains_upper(query, "VN") || str_contains_upper(query, "HNX")
            || str_contains_upper(query, "UPCOM")
    }

    /// The provider entry registered under the id, if any.
    pub fn get_provider(&self, provider_id: &str) -> (r: Option<&ProviderEntry>)
        ensures
            match r {
                Some(e) => self.spec_has_provider(provider_id@) && e.id@ == provider_id@
                    && exists|k: int|
                    0 <= k < self.entries@.len() && #[trigger] self.entries@[k] == *e,
                None => !self.spec_has_provider(provider_id@),
            },
    {
        let n = self.entries.len();
        let mut i: usize = 0;
        while i < n
            invariant
                n == self.entries@.len(),
                i <= n,
                forall|k: int| 0 <= k < i ==> (#[trigger] self.entries@[k]).id@ != provider_id@,
            decreases n - i,
        {
            if str_eq(self.entries[i].id.as_str(), provider_id) {
                return Some(&self.entries[i]);
            }
            i = i + 1;
        }
        None
    }

    /// The profiler entry registered under the id, if any.
    pub fn get_profiler(&self, provider_id: &str) -> (r: Option<&ProviderEntry>)
        ensures
            match r {
                Some(e) => self.spec_has_profiler(provider_id@) && e.id@ == provider_id@
                    && e.has_profiler && exists|k: int|
                    0 <= k < self.entries@.len() && #[trigger] self.entries@[k] == *e,
                None => !self.spec_has_profiler(provider_id@),
            },
    {
        let n = self.entries.len();
        let mut i: usize = 0;
        while i < n
            invariant
                n == self.entries@.len(),
                i <= n,
                forall|k: int|
                    0 <= k < i ==> !((#[trigger] self.entries@[k]).id@ == provider_id@
                        && self.entries@[k].has_profiler),
            decreases n - i,
        {
            if self.entries[i].has_profiler && str_eq(self.entries[i].id.as_str(), provider_id) {
                return Some(&self.entries[i]);
            }
            i = i + 1;
        }
        None
    }

    /// All registered provider entries, in priority order.
    pub fn get_all_providers(&self) -> (r: &Vec<ProviderEntry>)
        ensures
            r@ == self.entries@,
    {
        &self.entries
    }

    /// Routes a symbol to a provider id.
    ///
    /// A symbol with the regional-market suffix routes to the regional
    /// provider exactly when that provider is registered, and to no other;
    /// every other symbol routes to the first registered provider that is
    /// not the regional one.
    pub fn get_provider_for_symbol(&self, symbol: &str) -> (r: Option<&str>)
        ensures
            spec_is_vn_symbol(symbol@) ==> match r {
                Some(id) => id@ == "VN_MARKET"@ && self.spec_has_provider("VN_MARKET"@),
                None => !self.spec_has_provider("VN_MARKET"@),
            },
            !spec_is_vn_symbol(symbol@) ==> match r {
                Some(id) => spec_first_non_regional(self.entries@) == Some(id@),
                None => spec_first_non_regional(self.entries@) is None,
            },
            match r {
                Some(id) => spec_resolved_provider(*self, symbol@) == Some(id@),
                None => spec_resolved_provider(*self, symbol@) is None,
            },
    {
        let vn = is_vn_symbol(symbol);
        let n = self.entries.len();
        let mut i: usize = 0;
        while i < n
            invariant
                n == self.entries@.len(),
                i <= n,
                vn == spec_is_vn_symbol(symbol@),
                vn ==> forall|k: int|
                    0 <= k < i ==> (#[trigger] self.entries@[k]).id@ != "VN_MARKET"@,
                !vn ==> spec_first_non_regional(self.entries@) == spec_first_non_regional_from(
                    self.entries@,
                    i as int,
                ),
            decreases n - i,
        {
            let is_regional = str_eq(self.entries[i].id.as_str(), "VN_MARKET");
            if vn {
                if is_regional {
                    return Some(self.entries[i].id.as_str());
                }
            } else {
                if !is_regional {
                    return Some(self.entries[i].id.as_str());
                }
            }
            i = i + 1;
        }
        None
    }

    /// The profiler visit order for a query: priority order, except that a
    /// query carrying the regional-market indicator moves the regional
    /// profiler to the front, keeping the relative order of the rest.
    pub fn profiler_search_order(&self, query: &str) -> (r: Vec<String>)
        requires
            self.well_formed(),
        ensures
            !spec_contains_vn_indicator(query@) ==> id_views(r@) == spec_profiler_ids(
                self.entries@,
            ),
            spec_contains_vn_indicator(query@) && self.spec_has_profiler("VN_MARKET"@)
                ==> id_views(r@) == seq!["VN_MARKET"@] + spec_profiler_ids_except_regional(
                self.entries@,
            ),
            spec_contains_vn_indicator(query@) && !self.spec_has_profiler("VN_MARKET"@)
                ==> id_views(r@) == spec_profiler_ids_except_regional(self.entries@),
            spec_contains_vn_indicator(query@) && self.spec_has_profiler("VN_MARKET"@)
                ==> r@.len() > 0 && r@[0]@ == "VN_MARKET"@,
    {
        let n = self.entries.len();
        let mut order: Vec<String> = Vec::new();
        if Self::contains_vn_indicator(query) {
            if self.get_profiler("VN_MARKET").is_some() {
                order.push(String::from_str("VN_MARKET"));
                proof {
                    assert(id_views(order@) =~= seq!["VN_MARKET"@]);
                }
            }
            let ghost prefix = id_views(order@);
            proof {
                assert(id_views(order@) =~= prefix + spec_profiler_ids_except_regional(
                    self.entries@.take(0),
                ));
            }
            let mut i: usize = 0;
            while i < n
                invariant
                    n == self.entries@.len(),
                    i <= n,
                    id_views(order@) == prefix + spec_profiler_ids_except_regional(
                        self.entries@.take(i as int),
                    ),
                decreases n - i,
            {
                let ghost before = order@;
                if self.entries[i].has_profiler && !str_eq(
                    self.entries[i].id.as_str(),
                    "VN_MARKET",
                ) {
                    order.push(self.entries[i].id.clone());
                    proof {
                        assert(id_views(order@) =~= id_views(before).push(
                            self.entries@[i as int].id@,
                        ));
                    }
                }
                proof {
                    assert(self.entries@.take(i + 1).drop_last() =~= self.entries@.take(i as int));
                    assert(self.entries@.take(i + 1).last() == self.entries@[i as int]);
                    assert(id_views(order@) =~= prefix + spec_profiler_ids_except_regional(
                        self.entries@.take(i + 1),
                    ));
                }
                i = i + 1;
            }
            proof {
                assert(self.entries@.take(n as int) =~= self.entries@);
                if prefix.len() > 0 {
                    assert(id_views(order@) =~= seq!["VN_MARKET"@]
                        + spec_profiler_ids_except_regional(self.entries@));
                    assert(order@[0]@ == id_views(order@)[0]);
                } else {
                    assert(id_views(order@) =~= spec_profiler_ids_except_regional(self.entries@));
                }
            }
            order
        } else {
            proof {
                assert(id_views(order@) =~= spec_profiler_ids(self.entries@.take(0)));
            }
            let mut i: usize = 0;
            while i < n
                invariant
                    n == self.entries@.len(),
                    i <= n,
                    id_views(order@) == spec_profiler_ids(self.entries@.take(i as int)),
                decreases n - i,
            {
                let ghost before = order@;
                if self.entries[i].has_profiler {
                    order.push(self.entries[i].id.clone());
                    proof {
                        assert(id_views(order@) =~= id_views(before).push(
                            self.entries@[i as int].id@,
                        ));
                    }
                }
                proof {
                    assert(self.entries@.take(i + 1).drop_last() =~= self.entries@.take(i as int));
                    assert(self.entries@.take(i + 1).last() == self.entries@[i as int]);
                    assert(id_views(order@) =~= spec_profiler_ids(self.entries@.take(i + 1)));
                }
                i = i + 1;
            }
            proof {
                assert(self.entries@.take(n as int) =~= self.entries@);
            }
            order
        }
    }

    /// Multi-provider ticker search with fallback and error aggregation.
    ///
    /// Profilers are visited in the order `profiler_search_order` gives.
    /// Visiting stops as soon as a profiler returns a non-empty result
    /// set, or as soon as the regional profiler has been visited under a
    /// regional-prioritized search. Per-profiler errors are recorded, not
    /// propagated; only when every visited profiler failed and nothing was
    /// accumulated does the call surface an error naming the last failure.
    /// Results are ranked by descending score, deduplicated by symbol and
    /// cut to the ten best.
    pub fn search_ticker<P: AssetProfilerPort>(&self, profilers: &P, query: &str) -> (r: Result<
        Vec<QuoteSummary>,
        MarketDataError,
    >)
        requires
            self.well_formed(),
        ensures
            match r {
                Ok(results) => results@.len() <= 10 && sorted_by_score_desc(results@)
                    && distinct_symbols(results@),
                Err(e) => e@ matches ErrorView::ProviderError(m) && spec_starts_with(
                    m,
                    "All profilers failed. Last error: "@,
                ),
            },
            // with no profiler registered, no backend is consulted and the
            // search trivially succeeds with nothing
            spec_profiler_ids(self.entries@).len() == 0 ==> (r matches Ok(results)
                && results@.len() == 0),
    {
        let order = self.profiler_search_order(query);
        proof {
            if spec_profiler_ids(self.entries@).len() == 0 {
                lemma_profiler_ids_empty(self.entries@);
                assert(!self.spec_has_profiler("VN_MARKET"@));
                lemma_except_regional_empty(self.entries@);
                assert(id_views(order@).len() == order@.len());
                assert(order@.len() == 0);
            }
        }
        let vn_priority = Self::contains_vn_indicator(query);
        let mut all_results: Vec<QuoteSummary> = Vec::new();
        let mut last_error: Option<MarketDataError> = None;
        let mut idx: usize = 0;
        while idx < order.len()
            invariant
                vn_priority == spec_contains_vn_indicator(query@),
                order@.len() == 0 ==> all_results@.len() == 0 && last_error is None,
            decreases order@.len() - idx,
        {
            let profiler_id = &order[idx];
            match profilers.search_ticker(profiler_id.as_str(), query) {
                Ok(mut results) => {
                    let got_results = results.len() > 0;
                    all_results.append(&mut results);
                    // Regional priority is respected even over completeness:
                    // after visiting the regional profiler under a regional
                    // search, later profilers are not consulted.
                    if got_results || (vn_priority && str_eq(profiler_id.as_str(), "VN_MARKET")) {
                        break;
                    }
                },
                Err(e) => {
                    last_error = Some(e);
                },
            }
            idx = idx + 1;
        }
        match last_error {
            Some(e) => {
                if all_results.len() == 0 {
                    let msg = String::from_str("All profilers failed. Last error: ").concat(
                        e.message(),
                    );
                    proof {
                        assert(msg@.take("All profilers failed. Last error: "@.len() as int)
                            =~= "All profilers failed. Last error: "@);
                    }
                    return Err(MarketDataError::ProviderError(msg));
                }
            },
            None => {},
        }
        let ghost accumulated = all_results@;
        let ranked = rank_and_dedupe(all_results);
        proof {
            if accumulated.len() == 0 && ranked@.len() > 0 {
                assert(accumulated.contains(ranked@[0]));
            }
        }
        Ok(ranked)
    }
}

/// The query carries a regional-market indicator token.
pub open spec fn spec_contains_vn_indicator(q: Seq<char>) -> bool {
    ||| spec_contains_sub(seq_upper(q), seq_upper("VN"@))
    ||| spec_contains_sub(seq_upper(q), seq_upper("HNX"@))
    ||| spec_contains_sub(seq_upper(q), seq_upper("UPCOM"@))
}

/// The summaries of one score value, in their order of appearance.
pub open spec fn score_class(s: Seq<QuoteSummary>, val: u64) -> Seq<QuoteSummary> {
    s.filter(|q: QuoteSummary| q.score == val)
}

proof fn lemma_score_class_none(s: Seq<QuoteSummary>, val: u64)
    requires
        forall|i: int| 0 <= i < s.len() ==> (#[trigger] s[i]).score != val,
    ensures
        score_class(s, val) == Seq::<QuoteSummary>::empty(),
    decreases s.len(),
{
    reveal(Seq::filter);
    if s.len() > 0 {
        assert(forall|i: int|
            0 <= i < s.drop_last().len() ==> (#[trigger] s.drop_last()[i]).score != val);
        lemma_score_class_none(s.drop_last(), val);
    }
}

proof fn lemma_score_class_push(s: Seq<QuoteSummary>, e: QuoteSummary, val: u64)
    ensures
        score_class(s.push(e), val) == (if e.score == val {
            score_class(s, val).push(e)
        } else {
            score_class(s, val)
        }),
{
    reveal(Seq::filter);
    assert(s.push(e).drop_last() =~= s);
    assert(s.push(e).last() == e);
}

/// Inserting an element just after every element of its score class, and
/// before none of them, appends it to its class and leaves every other
/// class untouched.
proof fn lemma_score_class_insert(pre: Seq<QuoteSummary>, e: QuoteSummary, k: int, val: u64)
    requires
        0 <= k <= pre.len(),
        forall|m: int| k <= m < pre.len() ==> (#[trigger] pre[m]).score < e.score,
    ensures
        score_class(pre.insert(k, e), val) == (if e.score == val {
            score_class(pre, val).push(e)
        } else {
            score_class(pre, val)
        }),
{
    broadcast use vstd::seq_lib::group_seq_lib_default;

    let a = pre.subrange(0, k);
    let b = pre.subrange(k, pre.len() as int);
    assert(pre.insert(k, e) == a.push(e) + b);
    assert(pre =~= a + b);
    assert(score_class(a.push(e) + b, val) == score_class(a.push(e), val) + score_class(b, val));
    assert(score_class(a + b, val) == score_class(a, val) + score_class(b, val));
    lemma_score_class_push(a, e, val);
    if e.score == val {
        assert(forall|i: int| 0 <= i < b.len() ==> (#[trigger] b[i]).score != val);
        lemma_score_class_none(b, val);
        assert(score_class(pre.insert(k, e), val) =~= score_class(pre, val).push(e));
    } else {
        assert(score_class(pre.insert(k, e), val) =~= score_class(pre, val));
    }
}

/// Sorts summaries by descending score. The sort is stable: within each
/// score value, the summaries keep their order of appearance, which the
/// per-class clause below states exactly.
pub fn sort_summaries_desc(v: Vec<QuoteSummary>) -> (r: Vec<QuoteSummary>)
    ensures
        r@.len() == v@.len(),
        sorted_by_score_desc(r@),
        forall|j: int| 0 <= j < v@.len() ==> r@.contains(#[trigger] v@[j]),
        forall|i: int| 0 <= i < r@.len() ==> v@.contains(#[trigger] r@[i]),
        forall|val: u64| #[trigger] score_class(r@, val) == score_class(v@, val),
{
    let n = v.len();
    let mut out: Vec<QuoteSummary> = Vec::new();
    proof {
        assert(out@ =~= v@.take(0));
    }
    let mut idx: usize = 0;
    while idx < n
        invariant
            n == v@.len(),
            idx <= n,
            out@.len() == idx,
            sorted_by_score_desc(out@),
            forall|j: int| 0 <= j < idx ==> out@.contains(#[trigger] v@[j]),
            forall|i: int| 0 <= i < out@.len() ==> v@.take(idx as int).contains(#[trigger] out@[i]),
            forall|val: u64| #[trigger] score_class(out@, val) == score_class(
                v@.take(idx as int),
                val,
            ),
        decreases n - idx,
    {
        let e = clone_summary(&v[idx]);
        let ghost pre = out@;
        let mut k: usize = out.len();
        while k > 0 && out[k - 1].score < e.score
            invariant
                out@ == pre,
                k <= out@.len(),
                forall|m: int| k <= m < out@.len() ==> (#[trigger] out@[m]).score < e.score,
            decreases k,
        {
            k = k - 1;
        }
        proof {
            assert(forall|m: int| 0 <= m < k ==> (#[trigger] out@[m]).score >= e.score) by {
                if k > 0 {
                    assert(out@[k - 1].score >= e.score);
                    assert(forall|m: int|
                        0 <= m < k ==> (#[trigger] out@[m]).score >= out@[k - 1].score);
                }
            };
        }
        out.insert(k, e);
        proof {
            pre.insert_ensures(k as int, e);
            let post = out@;
            assert(post[k as int] == e);
            assert(e == v@[idx as int]);
            assert(sorted_by_score_desc(post)) by {
                assert forall|i1: int, i2: int|
                    0 <= i1 <= i2 < post.len() implies #[trigger] post[i1].score
                    >= #[trigger] post[i2].score by {
                    let ki = k as int;
                    if i1 < ki {
                        assert(post[i1] == pre[i1]);
                    }
                    if i2 < ki {
                        assert(post[i2] == pre[i2]);
                    }
                    if i1 > ki {
                        assert(post[i1] == pre[i1 - 1]);
                    }
                    if i2 > ki {
                        assert(post[i2] == pre[i2 - 1]);
                    }
                };
            };
            assert forall|j: int| 0 <= j < idx + 1 implies post.contains(#[trigger] v@[j]) by {
                if j == idx as int {
                    assert(post[k as int] == v@[j]);
                } else {
                    let i0 = choose|i0: int| 0 <= i0 < pre.len() && #[trigger] pre[i0] == v@[j];
                    if i0 < k as int {
                        assert(post[i0] == v@[j]);
                    } else {
                        assert(post[i0 + 1] == v@[j]);
                    }
                }
            };
            assert forall|i: int|
                0 <= i < post.len() implies v@.take(idx + 1).contains(#[trigger] post[i]) by {
                let ki = k as int;
                let taken = v@.take(idx + 1);
                if i == ki {
                    assert(taken[idx as int] == post[i]);
                } else {
                    let prev = if i < ki { pre[i] } else { pre[i - 1] };
                    assert(post[i] == prev);
                    let j0 = choose|j0: int|
                        0 <= j0 < v@.take(idx as int).len() && #[trigger] v@.take(idx as int)[j0]
                            == prev;
                    assert(taken[j0] == prev);
                }
            };
            assert forall|val: u64| #[trigger] score_class(post, val) == score_class(
                v@.take(idx + 1),
                val,
            ) by {
                assert(post == pre.insert(k as int, e));
                lemma_score_class_insert(pre, e, k as int, val);
                assert(v@.take(idx + 1) =~= v@.take(idx as int).push(v@[idx as int]));
                lemma_score_class_push(v@.take(idx as int), v@[idx as int], val);
            };
        }
        idx = idx + 1;
    }
    proof {
        assert(v@.take(n as int) == v@);
    }
    out
}

/// A field-by-field copy of a summary.
fn clone_summary(s: &QuoteSummary) -> (r: QuoteSummary)
    ensures
        r == *s,
{
    QuoteSummary {
        symbol: s.symbol.clone(),
        short_name: s.short_name.clone(),
        long_name: s.long_name.clone(),
        exchange: s.exchange.clone(),
        quote_type: s.quote_type.clone(),
        type_display: s.type_display.clone(),
        score: s.score,
    }
}

/// The position of the first summary carrying the symbol, scanning from
/// `k`; the sequence length when there is none.
pub open spec fn first_index_with_symbol(s: Seq<QuoteSummary>, sym: Seq<char>, k: int) -> int
    decreases s.len() - k,
{
    if k < 0 || k >= s.len() {
        s.len() as int
    } else if s[k].symbol@ == sym {
        k
    } else {
        first_index_with_symbol(s, sym, k + 1)
    }
}

/// When nothing before `t` carries the symbol and `t` does, the first
/// index is `t`.
proof fn lemma_first_index_is(s: Seq<QuoteSummary>, sym: Seq<char>, k: int, t: int)
    requires
        0 <= k <= t < s.len(),
        forall|j: int| k <= j < t ==> (#[trigger] s[j]).symbol@ != sym,
        s[t].symbol@ == sym,
    ensures
        first_index_with_symbol(s, sym, k) == t,
    decreases t - k,
{
    if k < t {
        lemma_first_index_is(s, sym, k + 1, t);
    }
}

/// Keeps exactly the first summary of each symbol, dropping later
/// duplicates; since the input is sorted, the kept summary also carries
/// the best score of its symbol.
pub fn dedupe_by_symbol(v: Vec<QuoteSummary>) -> (r: Vec<QuoteSummary>)
    requires
        sorted_by_score_desc(v@),
    ensures
        sorted_by_score_desc(r@),
        distinct_symbols(r@),
        forall|i: int| 0 <= i < r@.len() ==> v@.contains(#[trigger] r@[i]),
        forall|j: int| 0 <= j < v@.len() ==> has_symbol(r@, (#[trigger] v@[j]).symbol@),
        forall|i: int, j: int|
            0 <= i < r@.len() && 0 <= j < v@.len() && (#[trigger] v@[j]).symbol@ == (
            #[trigger] r@[i]).symbol@ ==> v@[j].score <= r@[i].score,
        forall|i: int|
            0 <= i < r@.len() ==> #[trigger] r@[i] == v@[first_index_with_symbol(
                v@,
                r@[i].symbol@,
                0,
            )],
{
    let n = v.len();
    let mut out: Vec<QuoteSummary> = Vec::new();
    let mut idx: usize = 0;
    while idx < n
        invariant
            n == v@.len(),
            idx <= n,
            sorted_by_score_desc(v@),
            sorted_by_score_desc(out@),
            distinct_symbols(out@),
            forall|i: int| 0 <= i < out@.len() ==> v@.take(idx as int).contains(#[trigger] out@[i]),
            forall|j: int| 0 <= j < idx ==> has_symbol(out@, (#[trigger] v@[j]).symbol@),
            forall|i: int, j: int|
                0 <= i < out@.len() && 0 <= j < idx && (#[trigger] v@[j]).symbol@ == (
                #[trigger] out@[i]).symbol@ ==> v@[j].score <= out@[i].score,
            forall|i: int|
                0 <= i < out@.len() ==> #[trigger] out@[i] == v@[first_index_with_symbol(
                    v@,
                    out@[i].symbol@,
                    0,
                )],
        decreases n - idx,
    {
        let mut seen = false;
        let m = out.len();
        let mut t: usize = 0;
        while t < m
            invariant
                m == out@.len(),
                t <= m,
                seen == exists|i: int|
                    0 <= i < t && (#[trigger] out@[i]).symbol@ == v@[idx as int].symbol@,
                idx < n,
                n == v@.len(),
            decreases m - t,
        {
            if str_eq(out[t].symbol.as_str(), v[idx].symbol.as_str()) {
                seen = true;
            }
            t = t + 1;
        }
        proof {
            if seen {
                assert forall|i: int|
                    0 <= i < out@.len() implies v@.take(idx + 1).contains(#[trigger] out@[i]) by {
                    let prev = out@[i];
                    let j0 = choose|j0: int|
                        0 <= j0 < v@.take(idx as int).len() && #[trigger] v@.take(idx as int)[j0]
                            == prev;
                    assert(v@.take(idx + 1)[j0] == prev);
                };
                assert(has_symbol(out@, v@[idx as int].symbol@));
                assert forall|i: int, j: int|
                    0 <= i < out@.len() && 0 <= j < idx + 1 && (#[trigger] v@[j]).symbol@ == (
                    #[trigger] out@[i]).symbol@ implies v@[j].score <= out@[i].score by {
                    if j == idx as int {
                        let taken = v@.take(idx as int);
                        assert(taken.contains(out@[i]));
                        let j0 = choose|j0: int|
                            0 <= j0 < taken.len() && #[trigger] taken[j0] == out@[i];
                        assert(v@[j0] == out@[i]);
                        assert(v@[idx as int].score <= v@[j0].score);
                    }
                };
            }
        }
        if !seen {
            let ghost pre = out@;
            out.push(clone_summary(&v[idx]));
            proof {
                assert(out@ == pre.push(v@[idx as int]));
                assert forall|i1: int, i2: int|
                    0 <= i1 <= i2 < out@.len() implies #[trigger] out@[i1].score
                    >= #[trigger] out@[i2].score by {
                    if i2 < out@.len() - 1 {
                    } else if i1 < out@.len() - 1 {
                        let taken = v@.take(idx as int);
                        assert(taken.contains(pre[i1]));
                        let jw = choose|j: int| 0 <= j < taken.len() && #[trigger] taken[j] == pre[i1];
                        assert(v@[jw] == pre[i1]);
                        assert(v@[jw].score >= v@[idx as int].score);
                    }
                };
                assert forall|i: int|
                    0 <= i < out@.len() implies v@.take(idx + 1).contains(#[trigger] out@[i]) by {
                    let taken = v@.take(idx + 1);
                    if i == out@.len() - 1 {
                        assert(taken[idx as int] == out@[i]);
                    } else {
                        let prev = pre[i];
                        let j0 = choose|j0: int|
                            0 <= j0 < v@.take(idx as int).len() && #[trigger] v@.take(idx as int)[j0]
                                == prev;
                        assert(taken[j0] == prev);
                    }
                };
                assert forall|j: int|
                    0 <= j < idx + 1 implies has_symbol(out@, (#[trigger] v@[j]).symbol@) by {
                    if j == idx as int {
                        assert(out@[out@.len() - 1].symbol@ == v@[j].symbol@);
                    } else {
                        let i0 = choose|i0: int|
                            0 <= i0 < pre.len() && (#[trigger] pre[i0]).symbol@ == v@[j].symbol@;
                        assert(out@[i0].symbol@ == v@[j].symbol@);
                    }
                };
                assert(out@[out@.len() - 1] == v@[first_index_with_symbol(
                    v@,
                    v@[idx as int].symbol@,
                    0,
                )]) by {
                    assert forall|j: int|
                        0 <= j < idx implies (#[trigger] v@[j]).symbol@ != v@[
                        idx as int].symbol@ by {
                        if v@[j].symbol@ == v@[idx as int].symbol@ {
                            assert(has_symbol(pre, v@[j].symbol@));
                            let i0 = choose|i0: int|
                                0 <= i0 < pre.len() && (#[trigger] pre[i0]).symbol@
                                    == v@[j].symbol@;
                            assert(false);
                        }
                    };
                    lemma_first_index_is(v@, v@[idx as int].symbol@, 0, idx as int);
                };
                assert forall|i: int, j: int|
                    0 <= i < out@.len() && 0 <= j < idx + 1 && (#[trigger] v@[j]).symbol@ == (
                    #[trigger] out@[i]).symbol@ implies v@[j].score <= out@[i].score by {
                    if i == out@.len() - 1 {
                        // the fresh entry: an earlier row with its symbol
                        // would already have a representative
                        if j < idx as int {
                            assert(has_symbol(pre, v@[j].symbol@));
                            let i0 = choose|i0: int|
                                0 <= i0 < pre.len() && (#[trigger] pre[i0]).symbol@
                                    == v@[j].symbol@;
                            assert(false);
                        }
                    } else {
                        assert(out@[i] == pre[i]);
                        if j == idx as int {
                            let taken = v@.take(idx as int);
                            assert(taken.contains(pre[i]));
                            let j0 = choose|j0: int|
                                0 <= j0 < taken.len() && #[trigger] taken[j0] == pre[i];
                            assert(v@[j0] == pre[i]);
                            assert(v@[idx as int].score <= v@[j0].score);
                        }
                    }
                };
            }
        }
        idx = idx + 1;
    }
    out
}

/// Ranks search results: sorts by descending score, removes entries with
/// duplicate symbols keeping the first, and truncates to at most ten. An
/// input symbol can only be dropped entirely when ten better-ranked
/// symbols filled the result.
pub fn rank_and_dedupe(results: Vec<QuoteSummary>) -> (r: Vec<QuoteSummary>)
    ensures
        r@.len() <= 10,
        sorted_by_score_desc(r@),
        distinct_symbols(r@),
        forall|i: int| 0 <= i < r@.len() ==> results@.contains(#[trigger] r@[i]),
        forall|j: int|
            0 <= j < results@.len() ==> r@.len() == 10 || has_symbol(
                r@,
                (#[trigger] results@[j]).symbol@,
            ),
        forall|i: int, j: int|
            0 <= i < r@.len() && 0 <= j < results@.len() && (#[trigger] results@[j]).symbol@ == (
            #[trigger] r@[i]).symbol@ ==> results@[j].score <= r@[i].score,
{
    let sorted = sort_summaries_desc(results);
    let ghost sorted_seq = sorted@;
    let mut deduped = dedupe_by_symbol(sorted);
    let ghost deduped_full = deduped@;
    if deduped.len() > 10 {
        let ghost before = deduped@;
        deduped.truncate(10);
        proof {
            assert(deduped@ == before.take(10));
            assert(deduped@.len() == 10);
        }
    }
    proof {
        assert forall|i: int, j: int|
            0 <= i < deduped@.len() && 0 <= j < results@.len() && (#[trigger] results@[j]).symbol@
                == (#[trigger] deduped@[i]).symbol@ implies results@[j].score
            <= deduped@[i].score by {
            assert(deduped@[i] == deduped_full[i]);
            assert(sorted_seq.contains(results@[j]));
            let m = choose|m: int|
                0 <= m < sorted_seq.len() && #[trigger] sorted_seq[m] == results@[j];
            assert(sorted_seq[m].symbol@ == deduped_full[i].symbol@);
            assert(sorted_seq[m].score <= deduped_full[i].score);
        };
    }
    deduped
}

/// Whether a backend requires an API key to be instantiated.
#[verifier::when_used_as_spec(spec_kind_needs_key)]
pub fn kind_needs_key(kind: ProviderKind) -> (r: bool)
    ensures
        r == spec_kind_needs_key(kind),
{
    match kind {
        ProviderKind::Yahoo => false,
        ProviderKind::MarketDataApp => true,
        ProviderKind::AlphaVantage => true,
        ProviderKind::MetalPriceApi => true,
        ProviderKind::VnMarket => false,
        ProviderKind::Manual => false,
    }
}

/// The regional-market service URL from the settings service, with the
/// hard-coded local fallback on a missing service or a lookup failure.
pub fn resolve_vn_market_url<U: SettingsServiceTrait>(settings_service: Option<&U>) -> (r: String)
    ensures
        settings_service is None ==> r@ == "http://127.0.0.1:8765"@,
{
    match settings_service {
        Some(service) => match service.get_vn_market_service_url() {
            Ok(url) => url,
            Err(_) => String::from_str("http://127.0.0.1:8765"),
        },
        None => String::from_str("http://127.0.0.1:8765"),
    }
}

/// Inserts an activated entry at the end of its priority class, keeping
/// the sequence sorted and the construction invariants intact.
fn insert_entry_sorted(
    out: &mut Vec<ProviderEntry>,
    entry: ProviderEntry,
    Ghost(settings): Ghost<Seq<MarketDataProviderSetting>>,
    Ghost(j): Ghost<int>,
)
    requires
        0 <= j < settings.len(),
        settings[j].enabled,
        settings[j].id@ == entry.id@,
        settings[j].priority == entry.priority,
        entry_consistent(entry),
        sorted_by_priority(old(out)@),
        forall|k: int| 0 <= k < old(out)@.len() ==> entry_consistent(#[trigger] old(out)@[k]),
        forall|k: int|
            0 <= k < old(out)@.len() ==> entry_from_enabled_setting(
                #[trigger] old(out)@[k],
                settings,
                j,
            ),
        distinct_setting_ids(settings) ==> forall|k1: int, k2: int|
            0 <= k1 < k2 < old(out)@.len() && (#[trigger] old(out)@[k1]).priority == (
            #[trigger] old(out)@[k2]).priority ==> setting_index(settings, old(out)@[k1].id@)
                < setting_index(settings, old(out)@[k2].id@),
    ensures
        sorted_by_priority(final(out)@),
        final(out)@.len() == old(out)@.len() + 1,
        entries_contain_id(final(out)@, entry.id@),
        forall|id: Seq<char>|
            #[trigger] entries_contain_id(old(out)@, id) ==> entries_contain_id(final(out)@, id),
        forall|k: int| 0 <= k < final(out)@.len() ==> entry_consistent(#[trigger] final(out)@[k]),
        forall|k: int|
            0 <= k < final(out)@.len() ==> entry_from_enabled_setting(
                #[trigger] final(out)@[k],
                settings,
                j + 1,
            ),
        distinct_setting_ids(settings) ==> forall|k1: int, k2: int|
            0 <= k1 < k2 < final(out)@.len() && (#[trigger] final(out)@[k1]).priority == (
            #[trigger] final(out)@[k2]).priority ==> setting_index(settings, final(out)@[k1].id@)
                < setting_index(settings, final(out)@[k2].id@),
{
    let ghost pre = out@;
    let mut k: usize = out.len();
    while k > 0 && out[k - 1].priority > entry.priority
        invariant
            out@ == pre,
            k <= out@.len(),
            forall|m: int| k <= m < out@.len() ==> (#[trigger] out@[m]).priority > entry.priority,
        decreases k,
    {
        k = k - 1;
    }
    proof {
        // everything before the insertion point is no higher in priority
        assert(forall|m: int|
            0 <= m < k ==> (#[trigger] out@[m]).priority <= entry.priority) by {
            if k > 0 {
                assert(out@[k - 1].priority <= entry.priority);
                assert(forall|m: int|
                    0 <= m < k ==> (#[trigger] out@[m]).priority <= out@[k - 1].priority);
            }
        };
    }
    out.insert(k, entry);
    proof {
        let post = out@;
        assert(post == pre.insert(k as int, entry));
        pre.insert_ensures(k as int, entry);
        if distinct_setting_ids(settings) {
            // the new entry's setting position is exactly j
            assert(setting_index(settings, entry.id@) == j) by {
                let w = setting_index(settings, entry.id@);
                assert(0 <= w < settings.len() && settings[w].id@ == entry.id@) by {
                    assert(0 <= j < settings.len() && settings[j].id@ == entry.id@);
                };
                if w != j {
                    assert(settings[w].id@ != settings[j].id@);
                }
            };
            // every earlier entry descends from a setting before j
            assert forall|m: int|
                0 <= m < pre.len() implies setting_index(settings, pre[m].id@) < j by {
                let witness = choose|jj: int|
                    0 <= jj < j && (#[trigger] settings[jj]).enabled && settings[jj].id@
                        == pre[m].id@ && settings[jj].priority == pre[m].priority;
                assert(entry_from_enabled_setting(pre[m], settings, j));
                assert(0 <= witness < j && settings[witness].id@ == pre[m].id@);
                let w = setting_index(settings, pre[m].id@);
                assert(0 <= w < settings.len() && settings[w].id@ == pre[m].id@);
                if w != witness {
                    assert(settings[w].id@ != settings[witness].id@);
                }
            };
        }
        assert forall|k1: int, k2: int|
            0 <= k1 < k2 < post.len() && (#[trigger] post[k1]).priority == (
            #[trigger] post[k2]).priority && distinct_setting_ids(settings) implies setting_index(
            settings,
            post[k1].id@,
        ) < setting_index(settings, post[k2].id@) by {
            if k2 < k as int {
                assert(post[k1] == pre[k1] && post[k2] == pre[k2]);
            } else if k1 < k as int && k2 == k as int {
                // the new entry closes its priority class
                assert(post[k1] == pre[k1]);
                assert(post[k2] == entry);
            } else if k1 < k as int && k2 > k as int {
                assert(post[k1] == pre[k1] && post[k2] == pre[k2 - 1]);
            } else if k1 == k as int {
                // entries after the insertion point outrank the new entry
                assert(post[k1] == entry);
                assert(post[k2] == pre[k2 - 1]);
                assert(pre[k2 - 1].priority > entry.priority);
            } else {
                assert(post[k1] == pre[k1 - 1] && post[k2] == pre[k2 - 1]);
            }
        };
        assert(sorted_by_priority(post)) by {
            assert forall|i1: int, i2: int|
                0 <= i1 <= i2 < post.len() implies #[trigger] post[i1].priority
                <= #[trigger] post[i2].priority by {
                let ki = k as int;
                if i1 < ki {
                    assert(post[i1] == pre[i1]);
                }
                if i2 < ki {
                    assert(post[i2] == pre[i2]);
                }
                if i1 > ki {
                    assert(post[i1] == pre[i1 - 1]);
                }
                if i2 > ki {
                    assert(post[i2] == pre[i2 - 1]);
                }
            };
        };
        assert(post[k as int].id@ == entry.id@);
        assert(entries_contain_id(post, entry.id@));
        assert forall|id: Seq<char>|
            #[trigger] entries_contain_id(pre, id) implies entries_contain_id(post, id) by {
            let k0 = choose|k0: int| 0 <= k0 < pre.len() && (#[trigger] pre[k0]).id@ == id;
            if k0 < k as int {
                assert(post[k0].id@ == id);
            } else {
                assert(post[k0 + 1].id@ == id);
            }
        };
    }
}

} // verus!
