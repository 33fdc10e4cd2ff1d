use findash_core::error::{AppError, ErrorKind};
use findash_core::export::{build_rows, row_count};
use findash_core::model::{is_filled_from_window, AnalysisResult};
use findash_core::settings::UserSettings;

#[test]
fn each_kind_of_error_has_its_message() {
    let d = || "detail".to_string();
    assert_eq!(AppError::Network(d()).message(), "Network error: detail");
    assert_eq!(AppError::Cache(d()).message(), "Cache error: detail");
    assert_eq!(AppError::Serialization(d()).message(), "Serialization error: detail");
    assert_eq!(AppError::YahooFinance(d()).message(), "Yahoo Finance API error: detail");
    assert_eq!(AppError::DataParsing(d()).message(), "Data parsing error: detail");
    assert_eq!(AppError::Storage(d()).message(), "Storage error: detail");
}

#[test]
fn each_error_knows_its_kind() {
    let d = || String::new();
    assert_eq!(AppError::Network(d()).kind(), ErrorKind::Network);
    assert_eq!(AppError::Cache(d()).kind(), ErrorKind::Cache);
    assert_eq!(AppError::Serialization(d()).kind(), ErrorKind::Serialization);
    assert_eq!(AppError::YahooFinance(d()).kind(), ErrorKind::YahooFinance);
    assert_eq!(AppError::DataParsing(d()).kind(), ErrorKind::DataParsing);
    assert_eq!(AppError::Storage(d()).kind(), ErrorKind::Storage);
}

#[test]
fn default_settings() {
    let s = UserSettings::default();
    assert_eq!(s.default_symbol, "7203.T");
    assert_eq!(s.default_range, "1y");
    assert_eq!(s.default_interval, "1d");
    assert_eq!(s.cache_ttl_minutes, 15);
    assert_eq!(s.theme, "light");
}

#[test]
fn rows_are_counted_where_the_columns_agree() {
    assert_eq!(row_count(3, 3, 3, 3, 3), Some(3));
    assert_eq!(row_count(0, 0, 0, 0, 0), Some(0));
    assert_eq!(row_count(3, 2, 3, 3, 3), None);
    assert_eq!(row_count(3, 3, 4, 3, 3), None);
    assert_eq!(row_count(3, 3, 3, 1, 3), None);
    assert_eq!(row_count(3, 3, 3, 3, 0), None);
}

#[test]
fn slots_fill_from_the_window_on() {
    let v = |x: f64| Some(x.to_bits());
    assert!(is_filled_from_window(&vec![None, None, v(1.0), v(2.0)], 3));
    assert!(!is_filled_from_window(&vec![None, v(0.5), v(1.0), v(2.0)], 3));
    assert!(!is_filled_from_window(&vec![None, None, None, v(2.0)], 3));
    assert!(is_filled_from_window(&vec![None, None], 3));
    assert!(is_filled_from_window(&vec![], 3));
    assert!(is_filled_from_window(&vec![v(1.0), v(2.0)], 1));
    assert!(is_filled_from_window(&vec![v(1.0), v(2.0)], 0));
    assert!(!is_filled_from_window(&vec![None], 0));
}

#[test]
fn analysis_of_three_prices_has_no_average_yet() {
    // prices 100, 110, 121: a return of a tenth twice, after the leading zero
    let a = AnalysisResult {
        mean_return_daily: (0.2f64 / 3.0).to_bits(),
        std_return_daily: 0.04714f64.to_bits(),
        sharpe_annual: 22.4f64.to_bits(),
        sma5: vec![None; 3],
        sma20: vec![None; 3],
        returns: vec![0.0f64.to_bits(), 0.1f64.to_bits(), 0.1f64.to_bits()],
    };
    assert!(a.has_shape_for(3));
    assert!(!a.has_shape_for(4));
}

#[test]
fn analysis_shape_asks_for_a_leading_zero_and_filled_windows() {
    let v = |x: f64| Some(x.to_bits());
    let mut sma5 = vec![None; 4];
    sma5.extend(vec![v(1.0); 2]);
    let good = AnalysisResult {
        mean_return_daily: 0,
        std_return_daily: 0,
        sharpe_annual: 0,
        sma5: sma5.clone(),
        sma20: vec![None; 6],
        returns: vec![0; 6],
    };
    assert!(good.has_shape_for(6));
    let mut bad_return = good.duplicate();
    bad_return.returns[0] = 0.1f64.to_bits();
    assert!(!bad_return.has_shape_for(6));
    let mut early = good.duplicate();
    early.sma5[3] = v(1.0);
    assert!(!early.has_shape_for(6));
    let mut late = good.duplicate();
    late.sma5[4] = None;
    assert!(!late.has_shape_for(6));
    let mut long = good.duplicate();
    long.sma20[5] = v(1.0);
    assert!(!long.has_shape_for(6));
}

#[test]
fn rows_hold_the_columns_side_by_side() {
    let rows = build_rows(
        &vec!["2024-01-02".to_string(), "2024-01-03".to_string()],
        &vec![100.0f64.to_bits(), 110.0f64.to_bits()],
        &vec![0.0f64.to_bits(), 0.1f64.to_bits()],
        &vec![None, Some(105.0f64.to_bits())],
        &vec![None, None],
    )
    .unwrap();
    assert_eq!(rows.len(), 2);
    assert_eq!(rows[0].date, "2024-01-02");
    assert_eq!(rows[0].close, 100.0f64.to_bits());
    assert_eq!(rows[0].ret, 0.0f64.to_bits());
    assert_eq!(rows[0].sma5, None);
    assert_eq!(rows[0].sma20, None);
    assert_eq!(rows[1].date, "2024-01-03");
    assert_eq!(rows[1].close, 110.0f64.to_bits());
    assert_eq!(rows[1].ret, 0.1f64.to_bits());
    assert_eq!(rows[1].sma5, Some(105.0f64.to_bits()));
    assert_eq!(rows[1].sma20, None);
}

#[test]
fn rows_are_refused_where_a_column_is_short() {
    let dates = vec!["d".to_string(); 2];
    assert!(build_rows(&dates, &vec![1, 2], &vec![1], &vec![None; 2], &vec![None; 2]).is_none());
    assert!(build_rows(&dates, &vec![1], &vec![1, 2], &vec![None; 2], &vec![None; 2]).is_none());
    assert!(build_rows(&dates, &vec![1, 2], &vec![1, 2], &vec![None; 3], &vec![None; 2]).is_none());
    assert!(build_rows(&dates, &vec![1, 2], &vec![1, 2], &vec![None; 2], &vec![]).is_none());
    assert_eq!(build_rows(&vec![], &vec![], &vec![], &vec![], &vec![]).unwrap().len(), 0);
}
