use findash_core::cache::SecureCacheManager;
use findash_core::chart::{series_from_chart, ChartData, ChartQuote, ChartResult};
use findash_core::clock::Timestamp;
use findash_core::error::ErrorKind;
use findash_core::model::{AnalysisResult, SeriesPayload};
use findash_core::service::{
    Lookup, YahooFinanceService, CACHE_TTL_MINUTES, FETCH_TIMEOUT_SECS, SWEEP_INTERVAL_SECS,
};

const JAN_2: i64 = 1_704_153_600; // 2024-01-02T00:00:00Z

fn service() -> YahooFinanceService {
    YahooFinanceService::new(SecureCacheManager::new(100, 50))
}

fn fetched() -> (SeriesPayload, AnalysisResult) {
    let series = SeriesPayload {
        symbol: "AAPL".to_string(),
        dates: vec!["2024-01-02".to_string(), "2024-01-03".to_string(), "2024-01-04".to_string()],
        prices: vec![100.0f64.to_bits(), 110.0f64.to_bits(), 121.0f64.to_bits()],
        cached: Some(false),
        cached_at: None,
    };
    let analysis = AnalysisResult {
        mean_return_daily: (0.2f64 / 3.0).to_bits(),
        std_return_daily: 0.04714f64.to_bits(),
        sharpe_annual: 22.4f64.to_bits(),
        sma5: vec![None; 3],
        sma20: vec![None; 3],
        returns: vec![0.0f64.to_bits(), 0.1f64.to_bits(), 0.1f64.to_bits()],
    };
    (series, analysis)
}

fn at(secs: i64, nanos: u32) -> Timestamp {
    Timestamp { secs, nanos }
}

#[test]
fn the_pipeline_has_its_fixed_times() {
    assert_eq!(CACHE_TTL_MINUTES, 15);
    assert_eq!(SWEEP_INTERVAL_SECS, 300);
    assert_eq!(FETCH_TIMEOUT_SECS, 30);
}

#[test]
fn cache_key_joins_the_parts_with_colons() {
    let s = service();
    assert_eq!(s.generate_cache_key("AAPL", "1y", "1d"), "AAPL:1y:1d");
    assert_eq!(s.generate_cache_key("", "", ""), "::");
    assert_eq!(s.generate_cache_key("7203.T", "5d", "1h"), "7203.T:5d:1h");
}

#[test]
fn lookup_in_an_empty_cache_is_a_miss_with_key_and_address() {
    let mut s = service();
    match s.lookup_at("^GSPC", "1y", "1d", &at(JAN_2, 0)) {
        Lookup::Miss { key, url } => {
            assert_eq!(key, "^GSPC:1y:1d");
            assert_eq!(
                url,
                "https://query1.finance.yahoo.com/v8/finance/chart/%5EGSPC?range=1y&interval=1d&events=div,splits"
            );
        }
        Lookup::Hit { .. } => panic!("nothing was stored"),
    }
}

#[test]
fn store_hands_out_the_series_marked_as_fresh() {
    let mut s = service();
    let (mut series, analysis) = fetched();
    series.cached = Some(true);
    series.cached_at = Some("before".to_string());
    let (payload, out) =
        s.store_fetched_at("AAPL:1y:1d".to_string(), series, analysis, at(JAN_2, 0)).unwrap();
    assert_eq!(payload.symbol, "AAPL");
    assert_eq!(payload.prices.len(), 3);
    assert_eq!(payload.cached, Some(false));
    assert_eq!(payload.cached_at, None);
    assert_eq!(out.returns, vec![0.0f64.to_bits(), 0.1f64.to_bits(), 0.1f64.to_bits()]);
    let info = s.get_cache_info();
    assert_eq!(info.entry_count, 1);
    assert_eq!(info.size_bytes, 40 + 24 + 30 + 24 + 48 + 48);
    assert_eq!(info.max_size_bytes, 50 * 1024 * 1024);
}

#[test]
fn lookup_after_store_is_a_hit_marked_as_cached() {
    let mut s = service();
    let (series, analysis) = fetched();
    s.store_fetched_at("AAPL:1y:1d".to_string(), series, analysis, at(JAN_2, 500_000_000))
        .unwrap();
    match s.lookup_at("AAPL", "1y", "1d", &at(JAN_2 + 60, 0)) {
        Lookup::Hit { payload, analysis } => {
            assert_eq!(payload.symbol, "AAPL");
            assert_eq!(payload.dates, vec!["2024-01-02", "2024-01-03", "2024-01-04"]);
            assert_eq!(
                payload.prices,
                vec![100.0f64.to_bits(), 110.0f64.to_bits(), 121.0f64.to_bits()]
            );
            assert_eq!(payload.cached, Some(true));
            assert_eq!(payload.cached_at, Some("2024-01-02T00:00:00.500+00:00".to_string()));
            assert_eq!(f64::from_bits(analysis.sharpe_annual), 22.4);
            assert_eq!(analysis.sma5, vec![None; 3]);
        }
        Lookup::Miss { .. } => panic!("the entry is fresh"),
    }
    // the read did not take the entry out
    assert_eq!(s.get_cache_info().entry_count, 1);
}

#[test]
fn lookup_after_fifteen_minutes_is_a_miss_and_drops_the_entry() {
    let mut s = service();
    let (series, analysis) = fetched();
    s.store_fetched_at("AAPL:1y:1d".to_string(), series, analysis, at(JAN_2, 0)).unwrap();
    assert!(matches!(
        s.lookup_at("AAPL", "1y", "1d", &at(JAN_2 + 15 * 60, 0)),
        Lookup::Hit { .. }
    ));
    assert!(matches!(
        s.lookup_at("AAPL", "1y", "1d", &at(JAN_2 + 15 * 60, 1)),
        Lookup::Miss { .. }
    ));
    assert_eq!(s.get_cache_info().entry_count, 0);
    assert_eq!(s.get_cache_info().size_bytes, 0);
}

#[test]
fn lookup_tells_requests_apart_by_every_part_of_the_key() {
    let mut s = service();
    let (series, analysis) = fetched();
    s.store_fetched_at("AAPL:1y:1d".to_string(), series, analysis, at(JAN_2, 0)).unwrap();
    assert!(matches!(s.lookup_at("AAPL", "1y", "1h", &at(JAN_2, 0)), Lookup::Miss { .. }));
    assert!(matches!(s.lookup_at("AAPL", "5d", "1d", &at(JAN_2, 0)), Lookup::Miss { .. }));
    assert!(matches!(s.lookup_at("MSFT", "1y", "1d", &at(JAN_2, 0)), Lookup::Miss { .. }));
    assert!(matches!(s.lookup_at("AAPL", "1y", "1d", &at(JAN_2, 0)), Lookup::Hit { .. }));
}

#[test]
fn a_request_by_the_clock_misses_then_hits() {
    let mut s = service();
    let key = match s.lookup("AAPL", "1y", "1d") {
        Lookup::Miss { key, .. } => key,
        Lookup::Hit { .. } => panic!("nothing was stored"),
    };
    let (series, analysis) = fetched();
    let (payload, _) = s.store_fetched(key, series, analysis).unwrap();
    assert_eq!(payload.cached, Some(false));
    match s.lookup("AAPL", "1y", "1d") {
        Lookup::Hit { payload, .. } => {
            assert_eq!(payload.cached, Some(true));
            let stamp = payload.cached_at.expect("the time of storing");
            assert!(stamp.ends_with("+00:00"));
            assert_eq!(stamp.as_bytes()[10], b'T');
        }
        Lookup::Miss { .. } => panic!("the entry was stored a moment ago"),
    }
}

#[test]
fn a_symbol_with_one_data_point_fails_and_nothing_is_cached() {
    let mut s = service();
    assert!(matches!(s.lookup_at("ONE", "1d", "1d", &at(JAN_2, 0)), Lookup::Miss { .. }));
    let chart = ChartData {
        result: Some(vec![ChartResult {
            timestamp: Some(vec![JAN_2]),
            quotes: vec![ChartQuote { close: Some(vec![Some(100.0f64.to_bits())]) }],
            symbol: "ONE".to_string(),
        }]),
    };
    let e = series_from_chart(chart).unwrap_err();
    assert_eq!(e.kind(), ErrorKind::DataParsing);
    assert_eq!(e.message(), "Data parsing error: Insufficient price data");
    assert_eq!(s.get_cache_info().entry_count, 0);
    assert_eq!(s.get_cache_info().size_bytes, 0);
    assert!(matches!(s.lookup_at("ONE", "1d", "1d", &at(JAN_2, 0)), Lookup::Miss { .. }));
}

#[test]
fn a_series_of_one_price_is_refused_and_nothing_is_cached() {
    let mut s = service();
    let (series, analysis) = fetched();
    s.store_fetched_at("KEEP:1y:1d".to_string(), series, analysis, at(JAN_2, 0)).unwrap();
    let before = s.get_cache_info();
    let one = SeriesPayload {
        symbol: "ONE".to_string(),
        dates: vec!["2024-01-02".to_string()],
        prices: vec![100.0f64.to_bits()],
        cached: Some(false),
        cached_at: None,
    };
    let analysis = AnalysisResult {
        mean_return_daily: 0,
        std_return_daily: 0,
        sharpe_annual: 0,
        sma5: vec![None],
        sma20: vec![None],
        returns: vec![0],
    };
    let e = s.store_fetched_at("ONE:1d:1d".to_string(), one, analysis, at(JAN_2, 0)).unwrap_err();
    assert_eq!(e.kind(), ErrorKind::DataParsing);
    assert_eq!(e.message(), "Data parsing error: Insufficient data for analysis");
    let after = s.get_cache_info();
    assert_eq!(after.entry_count, before.entry_count);
    assert_eq!(after.size_bytes, before.size_bytes);
    assert!(matches!(s.lookup_at("ONE", "1d", "1d", &at(JAN_2, 0)), Lookup::Miss { .. }));
    assert!(matches!(s.lookup_at("KEEP", "1y", "1d", &at(JAN_2, 0)), Lookup::Hit { .. }));
}

#[test]
fn an_analysis_that_does_not_fit_is_refused_and_nothing_is_cached() {
    let cases: Vec<fn(&mut SeriesPayload, &mut AnalysisResult)> = vec![
        |_, a| a.returns.push(0),
        |_, a| a.returns[0] = 0.1f64.to_bits(),
        |_, a| a.sma5.pop().map(|_| ()).unwrap(),
        |_, a| a.sma20[2] = Some(1.0f64.to_bits()),
        |_, a| a.sma5[1] = Some(1.0f64.to_bits()),
        |p, _| p.dates.pop().map(|_| ()).unwrap(),
    ];
    for change in cases {
        let mut s = service();
        let (mut series, mut analysis) = fetched();
        change(&mut series, &mut analysis);
        let e = s
            .store_fetched_at("AAPL:1y:1d".to_string(), series, analysis, at(JAN_2, 0))
            .unwrap_err();
        assert_eq!(e.kind(), ErrorKind::DataParsing);
        assert_eq!(e.message(), "Data parsing error: Analysis does not fit the series");
        assert_eq!(s.get_cache_info().entry_count, 0);
    }
}

#[test]
fn a_long_series_is_stored_with_its_filled_averages() {
    let mut s = service();
    let n = 25;
    let series = SeriesPayload {
        symbol: "LONG".to_string(),
        dates: vec!["2024-01-02".to_string(); n],
        prices: vec![1.0f64.to_bits(); n],
        cached: None,
        cached_at: None,
    };
    let slots = |w: usize| -> Vec<Option<u64>> {
        (0..n).map(|i| if i + 1 >= w { Some(1.0f64.to_bits()) } else { None }).collect()
    };
    let analysis = AnalysisResult {
        mean_return_daily: 0,
        std_return_daily: 0,
        sharpe_annual: 0,
        sma5: slots(5),
        sma20: slots(20),
        returns: vec![0; n],
    };
    assert!(s.store_fetched_at("LONG:1y:1d".to_string(), series, analysis, at(JAN_2, 0)).is_ok());
    assert_eq!(s.get_cache_info().entry_count, 1);
    assert_eq!(s.get_cache_info().size_bytes, 40 + 58 * n);
}

#[test]
fn clear_cache_counts_what_it_removes() {
    let mut s = service();
    for key in ["a", "b", "c"] {
        let (series, analysis) = fetched();
        s.store_fetched_at(key.to_string(), series, analysis, at(JAN_2, 0)).unwrap();
    }
    assert_eq!(s.clear_cache(), 3);
    assert_eq!(s.clear_cache(), 0);
    assert_eq!(s.get_cache_info().entry_count, 0);
}

#[test]
fn remove_expired_cache_counts_what_it_removes() {
    let mut s = service();
    for (key, secs) in [("a", JAN_2), ("b", JAN_2 + 600), ("c", JAN_2 + 1_200)] {
        let (series, analysis) = fetched();
        s.store_fetched_at(key.to_string(), series, analysis, at(secs, 0)).unwrap();
    }
    // a is fresh till 900 seconds in, b till 1500, c till 2100
    assert_eq!(s.remove_expired_cache_at(&at(JAN_2 + 1_501, 0)), 2);
    assert_eq!(s.remove_expired_cache_at(&at(JAN_2 + 1_501, 0)), 0);
    assert_eq!(s.get_cache_info().entry_count, 1);
    assert_eq!(s.remove_expired_cache(), 1);
    assert_eq!(s.get_cache_info().entry_count, 0);
}
