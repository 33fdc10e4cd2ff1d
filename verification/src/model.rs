//! What the cache holds: a price series, its analysis, and when both were
//! stored. Every value has a view over sequences, and the contracts of the
//! crate speak of the views.

use vstd::prelude::*;
use vstd::utf8::encode_utf8;
use crate::clock::{now, text_of, Timestamp};

verus! {

/// Bytes that an entry takes before any of its sequences is counted.
pub const BASE_ENTRY_SIZE: usize = 40;

/// Bytes counted for one value of a series.
pub const VALUE_SIZE: usize = 8;

/// Bytes counted for one slot that may hold a value.
pub const SLOT_SIZE: usize = 16;

/// The views of a sequence of strings.
pub open spec fn texts(v: Seq<String>) -> Seq<Seq<char>> {
    v.map_values(|s: String| s@)
}

/// Length of a text in bytes of UTF-8.
pub open spec fn byte_len(s: Seq<char>) -> nat {
    encode_utf8(s).len()
}

/// Sum of the byte lengths of some texts.
pub open spec fn total_bytes(ts: Seq<Seq<char>>) -> nat
    decreases ts.len(),
{
    if ts.len() == 0 {
        0
    } else {
        total_bytes(ts.drop_last()) + byte_len(ts.last())
    }
}

/// `n`, or the largest `usize` where `n` is beyond it.
pub open spec fn clamp(n: nat) -> usize {
    if n <= usize::MAX {
        n as usize
    } else {
        usize::MAX
    }
}

/// A price series as it is handed to callers. `prices` holds the bit
/// patterns of doubles; `cached` and `cached_at` say where the series came
/// from.
#[derive(Clone, Debug)]
pub struct SeriesPayload {
    pub symbol: String,
    pub dates: Vec<String>,
    pub prices: Vec<u64>,
    pub cached: Option<bool>,
    pub cached_at: Option<String>,
}

pub struct SeriesView {
    pub symbol: Seq<char>,
    pub dates: Seq<Seq<char>>,
    pub prices: Seq<u64>,
    pub cached: Option<bool>,
    pub cached_at: Option<Seq<char>>,
}

impl View for SeriesPayload {
    type V = SeriesView;

    open spec fn view(&self) -> SeriesView {
        SeriesView {
            symbol: self.symbol@,
            dates: texts(self.dates@),
            prices: self.prices@,
            cached: self.cached,
            cached_at: text_of(self.cached_at),
        }
    }
}

impl SeriesView {
    /// The same series with other marks of origin.
    pub open spec fn marked(self, cached: Option<bool>, cached_at: Option<Seq<char>>) -> SeriesView {
        SeriesView { cached, cached_at, ..self }
    }
}

/// Figures computed from a series, each a double carried as its bit
/// pattern; a slot of a moving average is empty until its window is full.
#[derive(Clone, Debug)]
pub struct AnalysisResult {
    pub mean_return_daily: u64,
    pub std_return_daily: u64,
    pub sharpe_annual: u64,
    pub sma5: Vec<Option<u64>>,
    pub sma20: Vec<Option<u64>>,
    pub returns: Vec<u64>,
}

pub struct AnalysisView {
    pub mean_return_daily: u64,
    pub std_return_daily: u64,
    pub sharpe_annual: u64,
    pub sma5: Seq<Option<u64>>,
    pub sma20: Seq<Option<u64>>,
    pub returns: Seq<u64>,
}

impl View for AnalysisResult {
    type V = AnalysisView;

    open spec fn view(&self) -> AnalysisView {
        AnalysisView {
            mean_return_daily: self.mean_return_daily,
            std_return_daily: self.std_return_daily,
            sharpe_annual: self.sharpe_annual,
            sma5: self.sma5@,
            sma20: self.sma20@,
            returns: self.returns@,
        }
    }
}

/// One entry of the cache.
#[derive(Clone, Debug)]
pub struct CachedData {
    pub data: SeriesPayload,
    pub analysis: AnalysisResult,
    pub cached_at: Timestamp,
    pub ttl_minutes: i64,
}

pub struct EntryView {
    pub data: SeriesView,
    pub analysis: AnalysisView,
    pub cached_at: Timestamp,
    pub ttl_minutes: i64,
}

impl View for CachedData {
    type V = EntryView;

    open spec fn view(&self) -> EntryView {
        EntryView {
            data: self.data@,
            analysis: self.analysis@,
            cached_at: self.cached_at,
            ttl_minutes: self.ttl_minutes,
        }
    }
}

impl EntryView {
    /// The entry is stale at `at`: `at` lies after `cached_at` plus the
    /// entry's minutes to live.
    pub open spec fn expired_at(self, at: Timestamp) -> bool {
        at.is_after_minutes_past(self.cached_at, self.ttl_minutes)
    }

    /// The bytes counted for the entry: a fixed part, eight for each price
    /// and each return, the bytes of each date, sixteen for each slot of the
    /// two moving averages.
    pub open spec fn size(self) -> nat {
        (BASE_ENTRY_SIZE + VALUE_SIZE * self.data.prices.len() + total_bytes(self.data.dates)
            + VALUE_SIZE * self.analysis.returns.len() + SLOT_SIZE * self.analysis.sma5.len()
            + SLOT_SIZE * self.analysis.sma20.len()) as nat
    }

    /// The counted bytes as the cache keeps them, held within `usize`.
    pub open spec fn weight(self) -> usize {
        clamp(self.size())
    }
}

pub proof fn total_bytes_push(ts: Seq<Seq<char>>, t: Seq<char>)
    ensures
        total_bytes(ts.push(t)) == total_bytes(ts) + byte_len(t),
{
    assert(ts.push(t).drop_last() =~= ts);
}

fn copy_values(v: &Vec<u64>) -> (r: Vec<u64>)
    ensures
        r@ == v@,
{
    let mut r: Vec<u64> = Vec::new();
    let mut i: usize = 0;
    while i < v.len()
        invariant
            i <= v.len(),
            r@ == v@.take(i as int),
        decreases v.len() - i,
    {
        r.push(v[i]);
        i += 1;
        assert(r@ =~= v@.take(i as int));
    }
    assert(v@.take(v.len() as int) =~= v@);
    r
}

fn copy_slots(v: &Vec<Option<u64>>) -> (r: Vec<Option<u64>>)
    ensures
        r@ == v@,
{
    let mut r: Vec<Option<u64>> = Vec::new();
    let mut i: usize = 0;
    while i < v.len()
        invariant
            i <= v.len(),
            r@ == v@.take(i as int),
        decreases v.len() - i,
    {
        r.push(v[i]);
        i += 1;
        assert(r@ =~= v@.take(i as int));
    }
    assert(v@.take(v.len() as int) =~= v@);
    r
}

fn copy_texts(v: &Vec<String>) -> (r: Vec<String>)
    ensures
        texts(r@) == texts(v@),
{
    let mut r: Vec<String> = Vec::new();
    let mut i: usize = 0;
    while i < v.len()
        invariant
            i <= v.len(),
            r@ == v@.take(i as int),
        decreases v.len() - i,
    {
        r.push(v[i].clone());
        i += 1;
        assert(r@ =~= v@.take(i as int));
    }
    assert(v@.take(v.len() as int) =~= v@);
    r
}

fn copy_text(s: &Option<String>) -> (r: Option<String>)
    ensures
        text_of(r) == text_of(*s),
{
    match s {
        Some(t) => Some(t.clone()),
        None => None,
    }
}

impl SeriesPayload {
    /// A copy with the same view.
    pub fn duplicate(&self) -> (r: SeriesPayload)
        ensures
            r@ == self@,
    {
        SeriesPayload {
            symbol: self.symbol.clone(),
            dates: copy_texts(&self.dates),
            prices: copy_values(&self.prices),
            cached: self.cached,
            cached_at: copy_text(&self.cached_at),
        }
    }
}

impl AnalysisResult {
    /// A copy with the same view.
    pub fn duplicate(&self) -> (r: AnalysisResult)
        ensures
            r@ == self@,
    {
        AnalysisResult {
            mean_return_daily: self.mean_return_daily,
            std_return_daily: self.std_return_daily,
            sharpe_annual: self.sharpe_annual,
            sma5: copy_slots(&self.sma5),
            sma20: copy_slots(&self.sma20),
            returns: copy_values(&self.returns),
        }
    }
}

/// `a + b`, held within `usize`.
fn add_clamped(a: usize, b: usize) -> (r: usize)
    ensures
        r == clamp((a + b) as nat),
{
    a.saturating_add(b)
}

/// `n * unit`, held within `usize`.
fn scaled(n: usize, unit: usize) -> (r: usize)
    ensures
        r == clamp((n * unit) as nat),
{
    match n.checked_mul(unit) {
        Some(p) => p,
        None => usize::MAX,
    }
}

/// Bytes of all the strings of `v` together, held within `usize`.
fn bytes_of_texts(v: &Vec<String>) -> (r: usize)
    ensures
        r == clamp(total_bytes(texts(v@))),
{
    let mut sum: usize = 0;
    let mut i: usize = 0;
    while i < v.len()
        invariant
            i <= v.len(),
            sum == clamp(total_bytes(texts(v@.take(i as int)))),
        decreases v.len() - i,
    {
        let n: usize = v[i].as_str().as_bytes().len();
        proof {
            total_bytes_push(texts(v@.take(i as int)), v@[i as int]@);
            assert(texts(v@.take(i as int)).push(v@[i as int]@) =~= texts(v@.take(i + 1)));
        }
        sum = add_clamped(sum, n);
        i += 1;
    }
    assert(v@.take(v.len() as int) =~= v@);
    sum
}

impl CachedData {
    /// An entry stored at `cached_at` that lives `ttl_minutes` minutes.
    pub fn new_at(
        data: SeriesPayload,
        analysis: AnalysisResult,
        cached_at: Timestamp,
        ttl_minutes: i64,
    ) -> (r: CachedData)
        ensures
            r.data == data,
            r.analysis == analysis,
            r.cached_at == cached_at,
            r.ttl_minutes == ttl_minutes,
    {
        CachedData { data, analysis, cached_at, ttl_minutes }
    }

    /// An entry stored now, by the system clock.
    pub fn new(data: SeriesPayload, analysis: AnalysisResult, ttl_minutes: i64) -> (r: CachedData)
        ensures
            r.data == data,
            r.analysis == analysis,
            r.ttl_minutes == ttl_minutes,
            r.cached_at.has_text(),
    {
        CachedData::new_at(data, analysis, now(), ttl_minutes)
    }

    /// Whether the entry is stale at `at`.
    pub fn is_expired_at(&self, at: &Timestamp) -> (r: bool)
        ensures
            r == self@.expired_at(*at),
    {
        at.after_minutes_past(&self.cached_at, self.ttl_minutes)
    }

    /// Whether the entry is stale now, by the system clock.
    pub fn is_expired(&self) -> (r: bool)
        ensures
            exists|at: Timestamp| r == #[trigger] self@.expired_at(at),
    {
        let at = now();
        self.is_expired_at(&at)
    }

    /// The bytes counted for the entry, held within `usize`.
    pub fn estimated_size(&self) -> (r: usize)
        ensures
            r == self@.weight(),
    {
        let prices = scaled(self.data.prices.len(), VALUE_SIZE);
        let dates = bytes_of_texts(&self.data.dates);
        let rets = scaled(self.analysis.returns.len(), VALUE_SIZE);
        let sma5 = scaled(self.analysis.sma5.len(), SLOT_SIZE);
        let sma20 = scaled(self.analysis.sma20.len(), SLOT_SIZE);
        let a = add_clamped(BASE_ENTRY_SIZE, prices);
        let b = add_clamped(a, dates);
        let c = add_clamped(b, rets);
        let d = add_clamped(c, sma5);
        add_clamped(d, sma20)
    }

    /// A copy with the same view.
    pub fn duplicate(&self) -> (r: CachedData)
        ensures
            r@ == self@,
    {
        CachedData {
            data: self.data.duplicate(),
            analysis: self.analysis.duplicate(),
            cached_at: self.cached_at,
            ttl_minutes: self.ttl_minutes,
        }
    }
}

/// Window of the short moving average.
pub const SMA_SHORT_WINDOW: usize = 5;

/// Window of the long moving average.
pub const SMA_LONG_WINDOW: usize = 20;

/// The slots of a moving average over `window` values are filled as they
/// should be: a slot holds a value exactly where it and the slots before it
/// are `window` at least.
pub open spec fn filled_from_window(slots: Seq<Option<u64>>, window: nat) -> bool {
    forall|i: int| 0 <= i < slots.len() ==> ((#[trigger] slots[i]) is Some <==> i + 1 >= window)
}

impl SeriesView {
    /// A series has a date for each price, and two prices at least.
    pub open spec fn well_formed(self) -> bool {
        self.dates.len() == self.prices.len() && self.prices.len() >= 2
    }
}

impl AnalysisView {
    /// The analysis has the shape that belongs to a series of `n` prices:
    /// a return for each price, the first of them zero, and a slot of each
    /// moving average for each price, empty until its window is full.
    pub open spec fn fits(self, n: nat) -> bool {
        &&& self.returns.len() == n
        &&& (n > 0 ==> self.returns[0] == 0)
        &&& self.sma5.len() == n
        &&& self.sma20.len() == n
        &&& filled_from_window(self.sma5, SMA_SHORT_WINDOW as nat)
        &&& filled_from_window(self.sma20, SMA_LONG_WINDOW as nat)
    }
}

/// Whether the slots of a moving average over `window` values are filled
/// as they should be.
pub fn is_filled_from_window(slots: &Vec<Option<u64>>, window: usize) -> (r: bool)
    ensures
        r == filled_from_window(slots@, window as nat),
{
    let mut i: usize = 0;
    while i < slots.len()
        invariant
            i <= slots.len(),
            filled_from_window(slots@.take(i as int), window as nat),
        decreases slots.len() - i,
    {
        let full: bool = i >= window || i + 1 == window;
        if slots[i].is_some() != full {
            assert(!((slots@[i as int]) is Some <==> i + 1 >= window));
            return false;
        }
        proof {
            assert forall|j: int| 0 <= j < slots@.take(i + 1).len() implies ((
            #[trigger] slots@.take(i + 1)[j]) is Some <==> j + 1 >= window) by {
                if j < i {
                    assert(slots@.take(i as int)[j] == slots@.take(i + 1)[j]);
                }
            }
        }
        i += 1;
    }
    assert(slots@.take(slots.len() as int) =~= slots@);
    true
}

impl SeriesPayload {
    /// Whether the series has a date for each price, and two prices at
    /// least.
    pub fn is_well_formed(&self) -> (r: bool)
        ensures
            r == self@.well_formed(),
    {
        self.dates.len() == self.prices.len() && self.prices.len() >= 2
    }
}

impl AnalysisResult {
    /// Whether the analysis has the shape that belongs to a series of `n`
    /// prices.
    pub fn has_shape_for(&self, n: usize) -> (r: bool)
        ensures
            r == self@.fits(n as nat),
    {
        if self.returns.len() != n || self.sma5.len() != n || self.sma20.len() != n {
            return false;
        }
        if n > 0 && self.returns[0] != 0 {
            return false;
        }
        is_filled_from_window(&self.sma5, SMA_SHORT_WINDOW) && is_filled_from_window(
            &self.sma20,
            SMA_LONG_WINDOW,
        )
    }
}

} // verus!
