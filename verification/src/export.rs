//! The rows of an export: the columns of a series and of its analysis, laid
//! side by side.

use vstd::prelude::*;

verus! {

/// One row of an export. The numbers are doubles carried as their bit
/// patterns.
#[derive(Clone, Debug)]
pub struct ExportRow {
    pub date: String,
    pub close: u64,
    pub ret: u64,
    pub sma5: Option<u64>,
    pub sma20: Option<u64>,
}

pub struct ExportRowView {
    pub date: Seq<char>,
    pub close: u64,
    pub ret: u64,
    pub sma5: Option<u64>,
    pub sma20: Option<u64>,
}

impl View for ExportRow {
    type V = ExportRowView;

    open spec fn view(&self) -> ExportRowView {
        ExportRowView {
            date: self.date@,
            close: self.close,
            ret: self.ret,
            sma5: self.sma5,
            sma20: self.sma20,
        }
    }
}

/// The views of some rows.
pub open spec fn row_views(rows: Seq<ExportRow>) -> Seq<ExportRowView> {
    rows.map_values(|r: ExportRow| r@)
}

/// The five columns of an export have one length.
pub open spec fn same_length(dates: nat, prices: nat, rets: nat, sma5: nat, sma20: nat) -> bool {
    dates == prices && prices == rets && rets == sma5 && sma5 == sma20
}

/// The rows that five columns of one length make: the `i`-th row holds the
/// `i`-th value of each.
pub open spec fn rows_of(
    dates: Seq<String>,
    prices: Seq<u64>,
    rets: Seq<u64>,
    sma5: Seq<Option<u64>>,
    sma20: Seq<Option<u64>>,
) -> Seq<ExportRowView> {
    Seq::new(
        dates.len(),
        |i: int|
            ExportRowView {
                date: dates[i]@,
                close: prices[i],
                ret: rets[i],
                sma5: sma5[i],
                sma20: sma20[i],
            },
    )
}

/// The number of rows of an export, where its five columns have one
/// length; `None` where they differ.
pub fn row_count(dates: usize, prices: usize, rets: usize, sma5: usize, sma20: usize) -> (r:
    Option<usize>)
    ensures
        r == if same_length(dates as nat, prices as nat, rets as nat, sma5 as nat, sma20 as nat) {
            Some(dates)
        } else {
            None
        },
{
    if dates == prices && prices == rets && rets == sma5 && sma5 == sma20 {
        Some(dates)
    } else {
        None
    }
}

/// Lays five columns side by side; `None` where their lengths differ.
pub fn build_rows(
    dates: &Vec<String>,
    prices: &Vec<u64>,
    rets: &Vec<u64>,
    sma5: &Vec<Option<u64>>,
    sma20: &Vec<Option<u64>>,
) -> (r: Option<Vec<ExportRow>>)
    ensures
        match r {
            Some(rows) => same_length(
                dates@.len(),
                prices@.len(),
                rets@.len(),
                sma5@.len(),
                sma20@.len(),
            ) && row_views(rows@) == rows_of(dates@, prices@, rets@, sma5@, sma20@),
            None => !same_length(dates@.len(), prices@.len(), rets@.len(), sma5@.len(), sma20@.len()),
        },
{
    let n = match row_count(dates.len(), prices.len(), rets.len(), sma5.len(), sma20.len()) {
        Some(n) => n,
        None => {
            return None;
        },
    };
    let mut rows: Vec<ExportRow> = Vec::new();
    let mut i: usize = 0;
    while i < n
        invariant
            i <= n,
            n == dates@.len(),
            n == prices@.len(),
            n == rets@.len(),
            n == sma5@.len(),
            n == sma20@.len(),
            rows@.len() == i,
            forall|j: int|
                0 <= j < i ==> (#[trigger] rows@[j])@ == rows_of(
                    dates@,
                    prices@,
                    rets@,
                    sma5@,
                    sma20@,
                )[j],
        decreases n - i,
    {
        rows.push(
            ExportRow {
                date: dates[i].clone(),
                close: prices[i],
                ret: rets[i],
                sma5: sma5[i],
                sma20: sma20[i],
            },
        );
        i += 1;
    }
    proof {
        assert(row_views(rows@) =~= rows_of(dates@, prices@, rets@, sma5@, sma20@));
    }
    Some(rows)
}

} // verus!
