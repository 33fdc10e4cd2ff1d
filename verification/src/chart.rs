//! From a chart response to a price series: which answers are usable, which
//! points of an answer count, and the address the answer is asked from.

use vstd::prelude::*;
use vstd::string::StringExecFns;
use vstd::utf8::encode_utf8;
use crate::clock::{text_of, utc_date_string, utc_date_text};
use crate::error::{AppError, ErrorKind, Failure};
use crate::model::{SeriesPayload, SeriesView};

verus! {

/// One quote block of a chart result: the closing prices, a gap where the
/// source had none.
#[derive(Debug)]
pub struct ChartQuote {
    pub close: Option<Vec<Option<u64>>>,
}

/// One result of a chart response.
#[derive(Debug)]
pub struct ChartResult {
    pub timestamp: Option<Vec<i64>>,
    pub quotes: Vec<ChartQuote>,
    pub symbol: String,
}

/// A chart response, as far as the series depends on it.
#[derive(Debug)]
pub struct ChartData {
    pub result: Option<Vec<ChartResult>>,
}

/// A point of a series before its date is known: second and price.
pub type RawPoint = (i64, u64);

/// A point with the text of its date, where the calendar has one.
pub type DatedPoint = (Option<Seq<char>>, u64);

/// The points that count: for each place of `timestamps`, in order, the
/// second and the price, where `closes` reaches that place and holds a price
/// there.
pub open spec fn usable_points(timestamps: Seq<i64>, closes: Seq<Option<u64>>) -> Seq<RawPoint>
    decreases timestamps.len(),
{
    if timestamps.len() == 0 {
        Seq::empty()
    } else {
        let i = timestamps.len() - 1;
        let before = usable_points(timestamps.drop_last(), closes);
        if i < closes.len() && closes[i] is Some {
            before.push((timestamps[i], closes[i]->Some_0))
        } else {
            before
        }
    }
}

/// The points with the texts of their dates.
pub open spec fn dated(points: Seq<RawPoint>) -> Seq<DatedPoint> {
    points.map_values(|p: RawPoint| (utc_date_text(p.0), p.1))
}

/// The views of points held with their date strings.
pub open spec fn point_views(points: Seq<(Option<String>, u64)>) -> Seq<DatedPoint> {
    points.map_values(|p: (Option<String>, u64)| (text_of(p.0), p.1))
}

/// Every point has a date.
pub open spec fn all_dated(points: Seq<DatedPoint>) -> bool {
    forall|i: int| 0 <= i < points.len() ==> (#[trigger] points[i]).0 is Some
}

/// What a series is made of, or why none is made: the first point without
/// a date fails it, then fewer than two points do.
pub open spec fn series_outcome(symbol: Seq<char>, points: Seq<DatedPoint>) -> Result<
    SeriesView,
    Failure,
> {
    if !all_dated(points) {
        Err(Failure { kind: ErrorKind::DataParsing, detail: "Timestamp out of range"@ })
    } else if points.len() < 2 {
        Err(Failure { kind: ErrorKind::DataParsing, detail: "Insufficient price data"@ })
    } else {
        Ok(
            SeriesView {
                symbol,
                dates: points.map_values(|p: DatedPoint| p.0->Some_0),
                prices: points.map_values(|p: DatedPoint| p.1),
                cached: Some(false),
                cached_at: None,
            },
        )
    }
}

/// The points of a response and the symbol they belong to, or why the
/// response has none: no result, an empty result, or no closing prices in
/// its first quote block. A result without timestamps has no points.
pub open spec fn chart_points(chart: ChartData) -> Result<(Seq<char>, Seq<RawPoint>), Failure> {
    if chart.result is None {
        Err(Failure { kind: ErrorKind::YahooFinance, detail: "No result in response"@ })
    } else if chart.result->Some_0@.len() == 0 {
        Err(Failure { kind: ErrorKind::YahooFinance, detail: "Empty result"@ })
    } else {
        let first = chart.result->Some_0@[0];
        if first.quotes@.len() == 0 || first.quotes@[0].close is None {
            Err(Failure { kind: ErrorKind::YahooFinance, detail: "No close data"@ })
        } else {
            let stamps = match first.timestamp {
                Some(t) => t@,
                None => Seq::empty(),
            };
            Ok((first.symbol@, usable_points(stamps, first.quotes@[0].close->Some_0@)))
        }
    }
}

/// What a response gives: its series, or the failure of the response or of
/// its points.
pub open spec fn chart_outcome(chart: ChartData) -> Result<SeriesView, Failure> {
    match chart_points(chart) {
        Ok(sp) => series_outcome(sp.0, dated(sp.1)),
        Err(f) => Err(f),
    }
}

/// View of a series or a failure.
pub open spec fn outcome_view(r: Result<SeriesPayload, AppError>) -> Result<SeriesView, Failure> {
    match r {
        Ok(p) => Ok(p@),
        Err(e) => Err(e@),
    }
}

/// The points of a response that count, in order.
pub fn collect_points(timestamps: &Vec<i64>, closes: &Vec<Option<u64>>) -> (r: Vec<RawPoint>)
    ensures
        r@ == usable_points(timestamps@, closes@),
{
    let mut points: Vec<RawPoint> = Vec::new();
    let mut i: usize = 0;
    while i < timestamps.len()
        invariant
            i <= timestamps.len(),
            points@ == usable_points(timestamps@.take(i as int), closes@),
        decreases timestamps.len() - i,
    {
        proof {
            assert(timestamps@.take(i + 1).drop_last() =~= timestamps@.take(i as int));
        }
        if i < closes.len() {
            match closes[i] {
                Some(price) => {
                    points.push((timestamps[i], price));
                },
                None => {},
            }
        }
        i += 1;
    }
    proof {
        assert(timestamps@.take(timestamps.len() as int) =~= timestamps@);
    }
    points
}

/// Gives each point the text of its date.
pub fn date_points(points: &Vec<RawPoint>) -> (r: Vec<(Option<String>, u64)>)
    ensures
        point_views(r@) == dated(points@),
{
    let mut out: Vec<(Option<String>, u64)> = Vec::new();
    let mut i: usize = 0;
    while i < points.len()
        invariant
            i <= points.len(),
            point_views(out@) == dated(points@.take(i as int)),
        decreases points.len() - i,
    {
        let p = points[i];
        let d = utc_date_string(p.0);
        proof {
            assert(point_views(out@.push((d, p.1))) =~= point_views(out@).push(
                (text_of(d), p.1),
            ));
            assert(dated(points@.take(i + 1)) =~= dated(points@.take(i as int)).push(
                (utc_date_text(p.0), p.1),
            ));
        }
        out.push((d, p.1));
        i += 1;
    }
    proof {
        assert(points@.take(points.len() as int) =~= points@);
    }
    out
}

/// Makes a series of dated points: all of them need a date, and there must
/// be two at least. The series is marked as not from the cache.
pub fn series_from_points(symbol: String, points: Vec<(Option<String>, u64)>) -> (r: Result<
    SeriesPayload,
    AppError,
>)
    ensures
        outcome_view(r) == series_outcome(symbol@, point_views(points@)),
{
    let ghost views = point_views(points@);
    let mut dates: Vec<String> = Vec::new();
    let mut prices: Vec<u64> = Vec::new();
    let mut rest = points;
    let n = rest.len();
    let mut i: usize = 0;
    while i < n
        invariant
            i <= n,
            n == rest@.len(),
            points@.len() == n,
            views == point_views(points@),
            forall|j: int| i <= j < n ==> #[trigger] rest@[j] == points@[j],
            forall|j: int| 0 <= j < i ==> (#[trigger] views[j]).0 is Some,
            dates@.len() == i,
            prices@.len() == i,
            forall|j: int| 0 <= j < i ==> (#[trigger] dates@[j])@ == views[j].0->Some_0,
            forall|j: int| 0 <= j < i ==> #[trigger] prices@[j] == views[j].1,
        decreases n - i,
    {
        let price = rest[i].1;
        let mut date: Option<String> = None;
        std::mem::swap(&mut date, &mut rest[i].0);
        assert(views[i as int] == (text_of(points@[i as int].0), points@[i as int].1));
        match date {
            Some(d) => {
                dates.push(d);
                prices.push(price);
            },
            None => {
                return Err(AppError::DataParsing("Timestamp out of range".to_owned()));
            },
        }
        i += 1;
    }
    if n < 2 {
        return Err(AppError::DataParsing("Insufficient price data".to_owned()));
    }
    let series = SeriesPayload { symbol, dates, prices, cached: Some(false), cached_at: None };
    proof {
        assert(crate::model::texts(series.dates@) =~= views.map_values(
            |p: DatedPoint| p.0->Some_0,
        ));
        assert(series.prices@ =~= views.map_values(|p: DatedPoint| p.1));
    }
    Ok(series)
}

/// Makes the series of a chart response: the first result's timestamps,
/// paired with the closing prices of its first quote block, gaps left out.
pub fn series_from_chart(chart: ChartData) -> (r: Result<SeriesPayload, AppError>)
    ensures
        outcome_view(r) == chart_outcome(chart),
{
    let mut results = match chart.result {
        Some(rs) => rs,
        None => {
            return Err(AppError::YahooFinance("No result in response".to_owned()));
        },
    };
    if results.len() == 0 {
        return Err(AppError::YahooFinance("Empty result".to_owned()));
    }
    let first = results.swap_remove(0);
    let points = {
        if first.quotes.len() == 0 {
            return Err(AppError::YahooFinance("No close data".to_owned()));
        }
        let stamps: Vec<i64> = match first.timestamp {
            Some(t) => t,
            None => Vec::new(),
        };
        match &first.quotes[0].close {
            Some(closes) => collect_points(&stamps, closes),
            None => {
                return Err(AppError::YahooFinance("No close data".to_owned()));
            },
        }
    };
    let with_dates = date_points(&points);
    series_from_points(first.symbol, with_dates)
}

/// A byte that an address takes as it is: a letter or digit of ASCII, or
/// one of `-`, `.`, `_`, `~`.
pub open spec fn is_unreserved(b: u8) -> bool {
    (0x30 <= b <= 0x39) || (0x41 <= b <= 0x5a) || (0x61 <= b <= 0x7a) || b == 0x2d || b == 0x2e
        || b == 0x5f || b == 0x7e
}

/// The digit of base sixteen for `d`, in upper case.
pub open spec fn hex_digit(d: u8) -> char {
    if d < 10 {
        ((0x30 + d) as u8) as char
    } else {
        ((0x37 + d) as u8) as char
    }
}

/// One byte as an address spells it: itself where it is unreserved, else a
/// percent sign and its two digits of base sixteen.
pub open spec fn escaped_byte(b: u8) -> Seq<char> {
    if is_unreserved(b) {
        seq![b as char]
    } else {
        seq!['%', hex_digit(b / 16), hex_digit(b % 16)]
    }
}

/// Bytes as an address spells them, byte by byte.
pub open spec fn percent_encoded(bytes: Seq<u8>) -> Seq<char>
    decreases bytes.len(),
{
    if bytes.len() == 0 {
        Seq::empty()
    } else {
        percent_encoded(bytes.drop_last()) + escaped_byte(bytes.last())
    }
}

/// The address a chart is asked from.
pub open spec fn chart_url_text(symbol: Seq<char>, range: Seq<char>, interval: Seq<char>) -> Seq<
    char,
> {
    "https://query1.finance.yahoo.com/v8/finance/chart/"@ + percent_encoded(encode_utf8(symbol))
        + "?range="@ + range + "&interval="@ + interval + "&events=div,splits"@
}

/// `urlencoding::encode`: the UTF-8 bytes of `s`, each unreserved byte kept
/// and every other one written as a percent sign with two upper-case digits
/// of base sixteen.
#[verifier::external_body]
fn url_encode(s: &str) -> (r: String)
    ensures
        r@ == percent_encoded(encode_utf8(s@)),
{
    urlencoding::encode(s).into_owned()
}

/// The address a chart of `symbol` is asked from; of the three parts only
/// the symbol is escaped.
pub fn chart_url(symbol: &str, range: &str, interval: &str) -> (r: String)
    ensures
        r@ == chart_url_text(symbol@, range@, interval@),
{
    let encoded = url_encode(symbol);
    let mut url = "https://query1.finance.yahoo.com/v8/finance/chart/".to_owned();
    url.append(encoded.as_str());
    url.append("?range=");
    url.append(range);
    url.append("&interval=");
    url.append(interval);
    url.append("&events=div,splits");
    url
}

/// The status `code` stands for success.
pub open spec fn is_success(code: u16) -> bool {
    200 <= code < 300
}

/// Accepts an answer by its status: any status but a success is a failure
/// of the network kind, with the status and the address in the detail.
pub fn ensure_success(code: u16, status: &str, url: &str) -> (r: Result<(), AppError>)
    ensures
        is_success(code) ==> r is Ok,
        !is_success(code) ==> r is Err && r->Err_0@ == (Failure {
            kind: ErrorKind::Network,
            detail: "HTTP "@ + status@ + ": "@ + url@,
        }),
{
    if 200 <= code && code < 300 {
        Ok(())
    } else {
        let mut detail = "HTTP ".to_owned();
        detail.append(status);
        detail.append(": ");
        detail.append(url);
        Err(AppError::Network(detail))
    }
}

} // verus!
