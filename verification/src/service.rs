//! The request pipeline around the cache. A request is answered in two
//! steps with the fetch between them: `lookup` reads the cache and, on a
//! miss, says what to fetch; `store_fetched` stores what was fetched and
//! analysed and hands it out.

use vstd::prelude::*;
use vstd::string::StringExecFns;
use crate::cache::{after_budget_check, after_read, fresh_lookup, SecureCacheManager};
use crate::chart::{chart_outcome, chart_points, chart_url, chart_url_text, ChartData};
use crate::clock::{now, rfc3339_string, rfc3339_text, Timestamp};
use crate::error::{AppError, ErrorKind, Failure};
use crate::model::{
    clamp, AnalysisResult, AnalysisView, CachedData, EntryView, SeriesPayload, SeriesView,
};
use crate::store::{holds_key, written, Slot};

verus! {

/// Minutes that a fetched series stays fresh in the cache.
pub const CACHE_TTL_MINUTES: i64 = 15;

/// Seconds between two sweeps of stale entries.
pub const SWEEP_INTERVAL_SECS: u64 = 300;

/// Seconds after which a fetch is given up.
pub const FETCH_TIMEOUT_SECS: u64 = 30;

/// The key of a request: its three parts with a colon between them.
pub open spec fn cache_key_text(symbol: Seq<char>, range: Seq<char>, interval: Seq<char>) -> Seq<
    char,
> {
    symbol + ":"@ + range + ":"@ + interval
}

/// What a request finds in the cache.
#[derive(Debug)]
pub enum Lookup {
    /// A fresh entry: its series, marked as cached, and its analysis.
    Hit { payload: SeriesPayload, analysis: AnalysisResult },
    /// Nothing fresh: the key to store under, and the address to fetch.
    Miss { key: String, url: String },
}

/// The entry that is stored for a fetched series.
pub open spec fn fetched_entry(series: SeriesView, analysis: AnalysisView, at: Timestamp) -> EntryView {
    EntryView { data: series, analysis, cached_at: at, ttl_minutes: CACHE_TTL_MINUTES }
}

/// A series and an analysis can be stored together: the series has a date
/// for each price and two prices at least, and the analysis has the shape
/// that belongs to that many prices.
pub open spec fn storable(series: SeriesView, analysis: AnalysisView) -> bool {
    series.well_formed() && analysis.fits(series.prices.len())
}

/// What the second step of a request hands out: the series, marked as not
/// from the cache, and its analysis; or why the two are not taken. Fewer
/// than two prices fail first, then any other misfit.
pub open spec fn store_outcome(series: SeriesView, analysis: AnalysisView) -> Result<
    (SeriesView, AnalysisView),
    Failure,
> {
    if series.prices.len() < 2 {
        Err(Failure { kind: ErrorKind::DataParsing, detail: "Insufficient data for analysis"@ })
    } else if !storable(series, analysis) {
        Err(Failure { kind: ErrorKind::DataParsing, detail: "Analysis does not fit the series"@ })
    } else {
        Ok((series.marked(Some(false), None), analysis))
    }
}

/// The store after a fetched entry was offered to it: written where its
/// series and analysis can be stored together, else as it was.
pub open spec fn after_store(s: Seq<Slot>, k: Seq<char>, e: EntryView, max_size: usize, limit: nat) -> Seq<
    Slot,
> {
    if storable(e.data, e.analysis) {
        written(after_budget_check(s, e.weight(), max_size), k, e, limit)
    } else {
        s
    }
}

/// View of what the second step hands out.
pub open spec fn stored_view(r: Result<(SeriesPayload, AnalysisResult), AppError>) -> Result<
    (SeriesView, AnalysisView),
    Failure,
> {
    match r {
        Ok(pair) => Ok((pair.0@, pair.1@)),
        Err(e) => Err(e@),
    }
}

/// `r` is the answer to a request read at the time `at` from a cache that
/// held `before`.
pub open spec fn answers(
    r: Lookup,
    before: Seq<Slot>,
    symbol: Seq<char>,
    range: Seq<char>,
    interval: Seq<char>,
    at: Timestamp,
) -> bool {
    match fresh_lookup(before, cache_key_text(symbol, range, interval), at) {
        Some(e) => r matches Lookup::Hit { payload, analysis } && payload@ == e.data.marked(
            Some(true),
            rfc3339_text(e.cached_at.secs, e.cached_at.nanos),
        ) && analysis@ == e.analysis,
        None => r matches Lookup::Miss { key, url } && key@ == cache_key_text(
            symbol,
            range,
            interval,
        ) && url@ == chart_url_text(symbol, range, interval),
    }
}

pub struct YahooFinanceService {
    cache: SecureCacheManager,
}

impl YahooFinanceService {
    /// The cache of the service.
    pub closed spec fn cache_view(&self) -> SecureCacheManager {
        self.cache
    }

    /// The service is in order when its cache is.
    pub open spec fn wf(&self) -> bool {
        self.cache_view().wf()
    }

    /// A service over `cache`.
    pub fn new(cache: SecureCacheManager) -> (s: YahooFinanceService)
        ensures
            s.cache_view() == cache,
    {
        YahooFinanceService { cache }
    }

    /// The key of a request.
    pub fn generate_cache_key(&self, symbol: &str, range: &str, interval: &str) -> (key: String)
        ensures
            key@ == cache_key_text(symbol@, range@, interval@),
    {
        let mut key = symbol.to_owned();
        key.append(":");
        key.append(range);
        key.append(":");
        key.append(interval);
        key
    }

    /// First step of a request, at the time `at`. A fresh entry under the
    /// request's key is a hit: its series goes out marked as cached, with the
    /// RFC 3339 text of the time it was stored (absent only where the
    /// calendar does not reach that time). Anything else is a miss, a stale
    /// entry is taken out of the cache, and the key and the address to fetch
    /// go out.
    pub fn lookup_at(&mut self, symbol: &str, range: &str, interval: &str, at: &Timestamp) -> (r:
        Lookup)
        requires
            old(self).wf(),
        ensures
            final(self).wf(),
            final(self).cache_view().same_setup(&old(self).cache_view()),
            answers(r, old(self).cache_view().entries(), symbol@, range@, interval@, *at),
            final(self).cache_view().entries() == after_read(
                old(self).cache_view().entries(),
                cache_key_text(symbol@, range@, interval@),
                *at,
            ),
    {
        let key = self.generate_cache_key(symbol, range, interval);
        match self.cache.get_at(key.as_str(), at) {
            Some(entry) => {
                let mut payload = entry.data;
                payload.cached = Some(true);
                payload.cached_at = rfc3339_string(entry.cached_at);
                Lookup::Hit { payload, analysis: entry.analysis }
            },
            None => {
                let url = chart_url(symbol, range, interval);
                Lookup::Miss { key, url }
            },
        }
    }

    /// First step of a request, now by the system clock.
    pub fn lookup(&mut self, symbol: &str, range: &str, interval: &str) -> (r: Lookup)
        requires
            old(self).wf(),
        ensures
            final(self).wf(),
            final(self).cache_view().same_setup(&old(self).cache_view()),
            exists|at: Timestamp| #[trigger]
                answers(r, old(self).cache_view().entries(), symbol@, range@, interval@, at)
                    && final(self).cache_view().entries() == after_read(
                    old(self).cache_view().entries(),
                    cache_key_text(symbol@, range@, interval@),
                    at,
                ),
    {
        let at = now();
        self.lookup_at(symbol, range, interval, &at)
    }

    /// Second step of a request, at the time `at`: the fetched series and
    /// its analysis are stored under `key` for fifteen minutes and handed
    /// out, the series marked as not from the cache. A series of fewer than
    /// two prices, or an analysis that does not fit the series, is refused
    /// and leaves the cache as it was.
    pub fn store_fetched_at(
        &mut self,
        key: String,
        series: SeriesPayload,
        analysis: AnalysisResult,
        at: Timestamp,
    ) -> (r: Result<(SeriesPayload, AnalysisResult), AppError>)
        requires
            old(self).wf(),
        ensures
            final(self).wf(),
            final(self).cache_view().same_setup(&old(self).cache_view()),
            stored_view(r) == store_outcome(series@, analysis@),
            final(self).cache_view().entries() == after_store(
                old(self).cache_view().entries(),
                key@,
                fetched_entry(series@, analysis@, at),
                old(self).cache_view().max_size(),
                old(self).cache_view().max_entries(),
            ),
    {
        if series.prices.len() < 2 {
            return Err(AppError::DataParsing("Insufficient data for analysis".to_owned()));
        }
        if !series.is_well_formed() || !analysis.has_shape_for(series.prices.len()) {
            return Err(AppError::DataParsing("Analysis does not fit the series".to_owned()));
        }
        let entry = CachedData::new_at(
            series.duplicate(),
            analysis.duplicate(),
            at,
            CACHE_TTL_MINUTES,
        );
        let _ = self.cache.set(key, entry);
        let mut payload = series;
        payload.cached = Some(false);
        payload.cached_at = None;
        Ok((payload, analysis))
    }

    /// Second step of a request, now by the system clock.
    pub fn store_fetched(&mut self, key: String, series: SeriesPayload, analysis: AnalysisResult) -> (r:
        Result<(SeriesPayload, AnalysisResult), AppError>)
        requires
            old(self).wf(),
        ensures
            final(self).wf(),
            final(self).cache_view().same_setup(&old(self).cache_view()),
            stored_view(r) == store_outcome(series@, analysis@),
            exists|at: Timestamp|
                at.has_text() && final(self).cache_view().entries() == after_store(
                    old(self).cache_view().entries(),
                    key@,
                    #[trigger] fetched_entry(series@, analysis@, at),
                    old(self).cache_view().max_size(),
                    old(self).cache_view().max_entries(),
                ),
    {
        let at = now();
        self.store_fetched_at(key, series, analysis, at)
    }

    /// Empties the cache and says how many entries it held.
    pub fn clear_cache(&mut self) -> (r: usize)
        requires
            old(self).wf(),
        ensures
            final(self).wf(),
            final(self).cache_view().same_setup(&old(self).cache_view()),
            r == old(self).cache_view().entries().len(),
            final(self).cache_view().entries() == Seq::<Slot>::empty(),
    {
        self.cache.clear()
    }

    /// Takes the entries that are stale at `at` out of the cache and says
    /// how many they were.
    pub fn remove_expired_cache_at(&mut self, at: &Timestamp) -> (r: usize)
        requires
            old(self).wf(),
        ensures
            final(self).wf(),
            final(self).cache_view().same_setup(&old(self).cache_view()),
            final(self).cache_view().entries() == crate::store::unexpired(
                old(self).cache_view().entries(),
                *at,
            ),
            r == old(self).cache_view().entries().len() - final(self).cache_view().entries().len(),
    {
        self.cache.cleanup_expired_at(at)
    }

    /// Takes the entries that are stale now out of the cache and says how
    /// many they were.
    pub fn remove_expired_cache(&mut self) -> (r: usize)
        requires
            old(self).wf(),
        ensures
            final(self).wf(),
            final(self).cache_view().same_setup(&old(self).cache_view()),
            exists|at: Timestamp|
                final(self).cache_view().entries() == #[trigger] crate::store::unexpired(
                    old(self).cache_view().entries(),
                    at,
                ),
            r == old(self).cache_view().entries().len() - final(self).cache_view().entries().len(),
    {
        self.cache.cleanup_expired()
    }

    /// A snapshot of the cache.
    pub fn get_cache_info(&self) -> (r: crate::cache::CacheStats)
        requires
            self.wf(),
        ensures
            r.entry_count == self.cache_view().entries().len(),
            r.size_bytes == clamp(self.cache_view().tracked_size()),
            r.max_size_bytes == self.cache_view().max_size(),
            r.session_id@ == self.cache_view().session(),
    {
        self.cache.get_stats()
    }
}

/// A request whose answer holds a single point fails with a failure of
/// the data, and the cache stays as it was: where nothing stands under the
/// request's key, the lookup misses and changes nothing, the answer gives no
/// series, and no series of fewer than two prices is ever stored.
pub proof fn one_point_request_stores_nothing(
    s: Seq<Slot>,
    symbol: Seq<char>,
    range: Seq<char>,
    interval: Seq<char>,
    at: Timestamp,
    chart: ChartData,
    max_size: usize,
    limit: nat,
)
    requires
        !holds_key(s, cache_key_text(symbol, range, interval)),
        chart_points(chart) is Ok,
        chart_points(chart)->Ok_0.1.len() == 1,
    ensures
        fresh_lookup(s, cache_key_text(symbol, range, interval), at) is None,
        after_read(s, cache_key_text(symbol, range, interval), at) == s,
        chart_outcome(chart) is Err,
        chart_outcome(chart)->Err_0.kind == ErrorKind::DataParsing,
        forall|series: SeriesView, analysis: AnalysisView, t: Timestamp|
            series.prices.len() < 2 ==> store_outcome(series, analysis) is Err && store_outcome(
                series,
                analysis,
            )->Err_0.kind == ErrorKind::DataParsing && #[trigger] after_store(
                s,
                cache_key_text(symbol, range, interval),
                fetched_entry(series, analysis, t),
                max_size,
                limit,
            ) == s,
{
}

} // verus!
