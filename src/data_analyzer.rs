use vstd::prelude::*;
use crate::events::{MarketDataEvent, Portfolio};

verus! {

/// Where the longest-drawdown scan stands: the running peak, the index at
/// which the current drawdown began (if one is open), and the longest length
/// found so far.
pub ghost struct DrawdownScan {
    pub peak: int,
    pub start: Option<int>,
    pub longest: int,
}

/// One step of the scan at index `i` of `n` values. An open drawdown is
/// closed, and its length `i - start` counted, when the value regains the
/// peak or at the last index; a new peak clears it; a value under the peak
/// opens one if none is open.
pub open spec fn drawdown_step(st: DrawdownScan, i: int, v: int, n: int) -> DrawdownScan {
    let closed = match st.start {
        Some(s) => if v >= st.peak || i == n - 1 {
            DrawdownScan {
                peak: st.peak,
                start: None,
                longest: if i - s > st.longest { i - s } else { st.longest },
            }
        } else {
            st
        },
        None => st,
    };
    if v > closed.peak {
        DrawdownScan { peak: v, start: None, longest: closed.longest }
    } else if v < closed.peak && closed.start is None {
        DrawdownScan { start: Some(i), ..closed }
    } else {
        closed
    }
}

/// The scan after the first `k` values.
pub open spec fn drawdown_scan(values: Seq<i128>, k: int) -> DrawdownScan
    decreases k,
{
    if k <= 0 {
        DrawdownScan { peak: if values.len() > 0 { values[0] as int } else { 0 }, start: None, longest: 0 }
    } else {
        drawdown_step(drawdown_scan(values, k - 1), k - 1, values[k - 1] as int, values.len() as int)
    }
}

/// The longest run of values below a previous peak, in steps.
pub open spec fn longest_drawdown_of(values: Seq<i128>) -> int {
    drawdown_scan(values, values.len() as int).longest
}

proof fn lemma_scan_bounds(values: Seq<i128>, k: int)
    requires
        0 <= k <= values.len(),
    ensures
        0 <= drawdown_scan(values, k).longest <= k,
        drawdown_scan(values, k).start matches Some(s) ==> 0 <= s < k,
    decreases k,
{
    if k > 0 {
        lemma_scan_bounds(values, k - 1);
    }
}

/// The length of the longest drawdown of `values`, as [`longest_drawdown_of`]
/// defines it.
pub fn longest_drawdown(values: &Vec<i128>) -> (r: usize)
    ensures
        r == longest_drawdown_of(values@),
{
    let n = values.len();
    let mut peak: i128 = if n > 0 { values[0] } else { 0 };
    let mut start: Option<usize> = None;
    let mut longest: usize = 0;
    let mut i: usize = 0;
    while i < n
        invariant
            n == values@.len(),
            i <= n,
            drawdown_scan(values@, i as int) == (DrawdownScan {
                peak: peak as int,
                start: match start {
                    Some(s) => Some(s as int),
                    None => None,
                },
                longest: longest as int,
            }),
        decreases n - i,
    {
        proof {
            lemma_scan_bounds(values@, i as int);
        }
        let v = values[i];
        match start {
            Some(s) => {
                if v >= peak || i == n - 1 {
                    if i - s > longest {
                        longest = i - s;
                    }
                    start = None;
                }
            },
            None => {},
        }
        if v > peak {
            peak = v;
            start = None;
        } else if v < peak && start.is_none() {
            start = Some(i);
        }
        i = i + 1;
    }
    longest
}

/// The three series the analyzer accumulates: benchmark closes, portfolio
/// asset value and portfolio cash, each labelled with a bar's timestamp.
pub struct DataAnalyzer {
    market_data_history: Vec<(String, u64)>,
    asset_history: Vec<(String, i128)>,
    cash_history: Vec<(String, i128)>,
}

impl DataAnalyzer {
    pub closed spec fn market_view(&self) -> Seq<(Seq<char>, u64)> {
        self.market_data_history@.map_values(|e: (String, u64)| (e.0@, e.1))
    }

    pub closed spec fn asset_view(&self) -> Seq<(Seq<char>, i128)> {
        self.asset_history@.map_values(|e: (String, i128)| (e.0@, e.1))
    }

    pub closed spec fn cash_view(&self) -> Seq<(Seq<char>, i128)> {
        self.cash_history@.map_values(|e: (String, i128)| (e.0@, e.1))
    }

    pub fn new() -> (r: Self)
        ensures
            r.market_view() == Seq::<(Seq<char>, u64)>::empty(),
            r.asset_view() == Seq::<(Seq<char>, i128)>::empty(),
            r.cash_view() == Seq::<(Seq<char>, i128)>::empty(),
    {
        let r = DataAnalyzer { market_data_history: Vec::new(), asset_history: Vec::new(), cash_history: Vec::new() };
        assert(r.market_view() =~= Seq::<(Seq<char>, u64)>::empty());
        assert(r.asset_view() =~= Seq::<(Seq<char>, i128)>::empty());
        assert(r.cash_view() =~= Seq::<(Seq<char>, i128)>::empty());
        r
    }

    /// Records the bar's close under its timestamp.
    pub fn process_marketevent(&mut self, bar: &MarketDataEvent)
        ensures
            final(self).market_view() == old(self).market_view().push((bar.timestamp@, bar.close)),
            final(self).asset_view() == old(self).asset_view(),
            final(self).cash_view() == old(self).cash_view(),
    {
        self.market_data_history.push((bar.timestamp.clone(), bar.close));
        assert(self.market_view() =~= old(self).market_view().push((bar.timestamp@, bar.close)));
    }

    /// Records the snapshot's asset value and cash under the latest bar's
    /// timestamp; before any bar nothing is recorded.
    pub fn process_portfolioinfo(&mut self, portfolio: &Portfolio)
        ensures
            final(self).market_view() == old(self).market_view(),
            old(self).market_view().len() == 0 ==> final(self).asset_view() == old(self).asset_view()
                && final(self).cash_view() == old(self).cash_view(),
            old(self).market_view().len() > 0 ==> {
                let ts = old(self).market_view().last().0;
                &&& final(self).asset_view() == old(self).asset_view().push((ts, portfolio.asset))
                &&& final(self).cash_view() == old(self).cash_view().push((ts, portfolio.cash))
            },
    {
        let n = self.market_data_history.len();
        if n > 0 {
            let ts = &self.market_data_history[n - 1].0;
            let a = (ts.clone(), portfolio.asset);
            let c = (ts.clone(), portfolio.cash);
            self.asset_history.push(a);
            self.cash_history.push(c);
            assert(self.asset_view() =~= old(self).asset_view().push((old(self).market_view().last().0, portfolio.asset)));
            assert(self.cash_view() =~= old(self).cash_view().push((old(self).market_view().last().0, portfolio.cash)));
        }
    }

    /// Whether the closes or the asset values grew past the lengths seen at
    /// the last render; without growth the chart is not drawn again.
    pub fn grew_since(&self, market_len: usize, asset_len: usize) -> (r: bool)
        ensures
            r == (self.market_view().len() != market_len || self.asset_view().len() != asset_len),
    {
        self.market_data_history.len() != market_len || self.asset_history.len() != asset_len
    }

    /// Lengths of the three series: closes, asset values, cash values.
    pub fn lengths(&self) -> (r: (usize, usize, usize))
        ensures
            r.0 == self.market_view().len(),
            r.1 == self.asset_view().len(),
            r.2 == self.cash_view().len(),
    {
        (self.market_data_history.len(), self.asset_history.len(), self.cash_history.len())
    }

    /// Entry `i` of the closes.
    pub fn market_at(&self, i: usize) -> (r: (&String, u64))
        requires
            i < self.market_view().len(),
        ensures
            r.0@ == self.market_view()[i as int].0,
            r.1 == self.market_view()[i as int].1,
    {
        (&self.market_data_history[i].0, self.market_data_history[i].1)
    }

    /// Entry `i` of the asset values.
    pub fn asset_at(&self, i: usize) -> (r: (&String, i128))
        requires
            i < self.asset_view().len(),
        ensures
            r.0@ == self.asset_view()[i as int].0,
            r.1 == self.asset_view()[i as int].1,
    {
        (&self.asset_history[i].0, self.asset_history[i].1)
    }

    /// Entry `i` of the cash values.
    pub fn cash_at(&self, i: usize) -> (r: (&String, i128))
        requires
            i < self.cash_view().len(),
        ensures
            r.0@ == self.cash_view()[i as int].0,
            r.1 == self.cash_view()[i as int].1,
    {
        (&self.cash_history[i].0, self.cash_history[i].1)
    }
}

} // verus!
