//! One pass over a record's daily candles: the window test, the calendar
//! month buckets whose open and close prices make the monthly returns, the
//! up and down day tally, and the frog-in-the-pan fraction.
use crate::calendar::{date_of_epoch_seconds, utc_date_of, CivilDate, DateWindow};
use vstd::prelude::*;

verus! {

/// How a day's close compares with its open.
#[derive(Clone, Copy, Debug, PartialEq, Eq, Structural)]
pub enum Movement {
    Up,
    Down,
    Flat,
}

/// What the scoring pass reads of one daily candle: its calendar month, the
/// sign of its close minus its open, and whether its open price is zero.
#[derive(Clone, Copy, Debug, PartialEq, Eq, Structural)]
pub struct DayCandle {
    pub year: i32,
    pub month: u32,
    pub movement: Movement,
    pub open_is_zero: bool,
}

/// Seconds of an epoch value in milliseconds, truncated toward zero.
pub open spec fn seconds_of_millis(millis: int) -> int {
    if millis >= 0 {
        millis / 1000
    } else {
        -((-millis) / 1000)
    }
}

impl DayCandle {
    /// The candle of the day that holds `millis` (milliseconds since the
    /// epoch, truncated to whole seconds), or `None` where that instant has
    /// no calendar date.
    pub fn from_epoch_millis(millis: i64, movement: Movement, open_is_zero: bool) -> (r: Option<
        DayCandle,
    >)
        ensures
            r == (match utc_date_of(seconds_of_millis(millis as int)) {
                Some(d) => Some(DayCandle { year: d.year, month: d.month, movement, open_is_zero }),
                None => None,
            }),
    {
        let secs: i64 = millis / 1000;
        match date_of_epoch_seconds(secs) {
            Some(d) => Some(DayCandle { year: d.year, month: d.month, movement, open_is_zero }),
            None => None,
        }
    }
}

/// A candle of `year`/`month` passes the window at month granularity: it is
/// not before the start's month and not after the end's month.
pub open spec fn in_window_spec(year: int, month: int, w: DateWindow) -> bool {
    !(year < w.start.year || (month < w.start.month && year <= w.start.year)) && !(year
        > w.end.year || (month > w.end.month && year >= w.end.year))
}

/// Whether a candle of `year`/`month` lies inside the window.
pub fn in_window(year: i32, month: u32, window: &DateWindow) -> (r: bool)
    ensures
        r == in_window_spec(year as int, month as int, *window),
{
    if year < window.start.year || (month < window.start.month && year <= window.start.year) {
        return false;
    }
    if year > window.end.year || (month > window.end.month && year >= window.end.year) {
        return false;
    }
    true
}

/// The candles that pass the window, in their original order.
pub open spec fn window_filter_spec(candles: Seq<DayCandle>, w: DateWindow) -> Seq<DayCandle> {
    candles.filter(|c: DayCandle| in_window_spec(c.year as int, c.month as int, w))
}

/// Keeps the candles inside the window, in order.
pub fn filter_candles(candles: &Vec<DayCandle>, window: &DateWindow) -> (r: Vec<DayCandle>)
    ensures
        r@ == window_filter_spec(candles@, *window),
{
    let mut out: Vec<DayCandle> = Vec::new();
    let mut i: usize = 0;
    while i < candles.len()
        invariant
            i <= candles.len(),
            out@ == window_filter_spec(candles@.take(i as int), *window),
        decreases candles.len() - i,
    {
        let c = candles[i];
        proof {
            assert(candles@.take(i + 1).drop_last() =~= candles@.take(i as int));
            assert(candles@.take(i + 1).last() == c);
            reveal(Seq::filter);
        }
        if in_window(c.year, c.month, window) {
            out.push(c);
        }
        i = i + 1;
    }
    assert(candles@.take(i as int) =~= candles@);
    out
}

/// One monthly return: from the open of candle `first` to the close of
/// candle `last` (indices into the candle sequence), with the dividend
/// added to the close price where `with_dividend` holds.
#[derive(Clone, Copy, Debug, PartialEq, Eq, Structural)]
pub struct MonthSpan {
    pub first: usize,
    pub last: usize,
    pub with_dividend: bool,
}

/// Day counts over every candle inside the window.
#[derive(Clone, Copy, Debug, PartialEq, Eq, Structural)]
pub struct Tally {
    pub trading_days: usize,
    pub positive_days: usize,
    pub negative_days: usize,
}

/// The month being filled: its month number and its first and latest candle.
#[derive(Clone, Copy, Debug, PartialEq, Eq, Structural)]
pub struct Bucket {
    pub month: u32,
    pub first: usize,
    pub last: usize,
}

/// State of the pass after some prefix of the candles.
pub struct PassState {
    pub spans: Seq<MonthSpan>,
    pub tally: Tally,
    pub bucket: Option<Bucket>,
}

/// The tally after one more trading day.
pub open spec fn count_day(t: Tally, m: Movement) -> Tally {
    Tally {
        trading_days: (t.trading_days + 1) as usize,
        positive_days: if m == Movement::Up {
            (t.positive_days + 1) as usize
        } else {
            t.positive_days
        },
        negative_days: if m == Movement::Down {
            (t.negative_days + 1) as usize
        } else {
            t.negative_days
        },
    }
}

/// The state after candle `c`, at index `i`. A candle outside the window
/// changes nothing. The first candle inside opens a bucket; one of another
/// month closes the bucket into a span (with the dividend only when no span
/// was emitted before) and opens a new one; one of the same month becomes
/// the bucket's latest candle. Every candle inside is counted.
pub open spec fn pass_step(s: PassState, c: DayCandle, i: int, w: DateWindow) -> PassState {
    if !in_window_spec(c.year as int, c.month as int, w) {
        s
    } else {
        let tally = count_day(s.tally, c.movement);
        match s.bucket {
            None => PassState {
                spans: s.spans,
                tally,
                bucket: Some(Bucket { month: c.month, first: i as usize, last: i as usize }),
            },
            Some(b) => {
                if b.month != c.month {
                    PassState {
                        spans: s.spans.push(
                            MonthSpan { first: b.first, last: b.last, with_dividend: s.spans.len() == 0 },
                        ),
                        tally,
                        bucket: Some(Bucket { month: c.month, first: i as usize, last: i as usize }),
                    }
                } else {
                    PassState { spans: s.spans, tally, bucket: Some(Bucket { last: i as usize, ..b }) }
                }
            },
        }
    }
}

/// The state after the first `n` candles.
pub open spec fn pass_spec(candles: Seq<DayCandle>, w: DateWindow, n: nat) -> PassState
    decreases n,
{
    if n == 0 {
        PassState {
            spans: Seq::empty(),
            tally: Tally { trading_days: 0, positive_days: 0, negative_days: 0 },
            bucket: None,
        }
    } else {
        pass_step(pass_spec(candles, w, (n - 1) as nat), candles[n - 1], n - 1, w)
    }
}

/// The monthly spans and the day tally of a whole candle sequence. The
/// bucket still open at the end emits no span.
#[derive(Clone, Debug)]
pub struct MonthlyPlan {
    pub spans: Vec<MonthSpan>,
    pub tally: Tally,
}

/// Errors of the scoring arithmetic.
#[derive(Clone, Copy, Debug, PartialEq, Eq, Structural)]
pub enum ScoreError {
    /// A month opened at a price of zero, or no trading day was counted.
    DivisionByZero,
}

/// Whether some span of `spans` opens on a candle whose open price is zero.
pub open spec fn opens_at_zero(candles: Seq<DayCandle>, spans: Seq<MonthSpan>) -> bool {
    exists|k: int| 0 <= k < spans.len() && candles[#[trigger] spans[k].first as int].open_is_zero
}

proof fn lemma_pass_bounds(candles: Seq<DayCandle>, w: DateWindow, n: nat)
    requires
        n <= candles.len() <= usize::MAX,
    ensures
        ({
            let s = pass_spec(candles, w, n);
            &&& s.tally.positive_days + s.tally.negative_days <= s.tally.trading_days <= n
            &&& s.spans.len() <= n
            &&& forall|k: int|
                0 <= k < s.spans.len() ==> #[trigger] s.spans[k].first <= s.spans[k].last < n
            &&& s.bucket matches Some(b) ==> b.first <= b.last < n
        }),
    decreases n,
{
    if n > 0 {
        lemma_pass_bounds(candles, w, (n - 1) as nat);
        let p = pass_spec(candles, w, (n - 1) as nat);
        let s = pass_spec(candles, w, n);
        assert forall|k: int| 0 <= k < s.spans.len() implies #[trigger] s.spans[k].first
            <= s.spans[k].last < n by {
            if k < p.spans.len() {
                assert(s.spans[k] == p.spans[k]);
            }
        };
    }
}

/// `r` is the outcome of the pass over `candles`: the spans and tally of
/// `pass_spec`, or `DivisionByZero` exactly when some span opens at zero.
pub open spec fn plan_outcome(candles: Seq<DayCandle>, w: DateWindow, r: Result<MonthlyPlan, ScoreError>) -> bool {
    let s = pass_spec(candles, w, candles.len());
    &&& r is Err <==> opens_at_zero(candles, s.spans)
    &&& r matches Err(e) ==> e == ScoreError::DivisionByZero
    &&& r matches Ok(p) ==> p.spans@ == s.spans && p.tally == s.tally
}

/// Runs the pass over all candles.
pub fn monthly_plan(candles: &Vec<DayCandle>, window: &DateWindow) -> (r: Result<MonthlyPlan, ScoreError>)
    ensures
        plan_outcome(candles@, *window, r),
{
    let mut spans: Vec<MonthSpan> = Vec::new();
    let mut tally = Tally { trading_days: 0, positive_days: 0, negative_days: 0 };
    let mut bucket: Option<Bucket> = None;
    let mut i: usize = 0;
    while i < candles.len()
        invariant
            i <= candles.len(),
            spans@ == pass_spec(candles@, *window, i as nat).spans,
            tally == pass_spec(candles@, *window, i as nat).tally,
            bucket == pass_spec(candles@, *window, i as nat).bucket,
        decreases candles.len() - i,
    {
        proof {
            lemma_pass_bounds(candles@, *window, i as nat);
        }
        let c = candles[i];
        if in_window(c.year, c.month, window) {
            tally.trading_days = tally.trading_days + 1;
            match c.movement {
                Movement::Up => tally.positive_days = tally.positive_days + 1,
                Movement::Down => tally.negative_days = tally.negative_days + 1,
                Movement::Flat => {},
            }
            match bucket {
                None => {
                    bucket = Some(Bucket { month: c.month, first: i, last: i });
                },
                Some(b) => {
                    if b.month != c.month {
                        let with_dividend = spans.len() == 0;
                        spans.push(MonthSpan { first: b.first, last: b.last, with_dividend });
                        bucket = Some(Bucket { month: c.month, first: i, last: i });
                    } else {
                        bucket = Some(Bucket { month: b.month, first: b.first, last: i });
                    }
                },
            }
        }
        i = i + 1;
    }
    proof {
        lemma_pass_bounds(candles@, *window, i as nat);
    }
    let mut k: usize = 0;
    while k < spans.len()
        invariant
            k <= spans.len(),
            spans@ == pass_spec(candles@, *window, candles@.len()).spans,
            forall|j: int| 0 <= j < spans@.len() ==> #[trigger] spans@[j].first < candles@.len(),
            forall|j: int| 0 <= j < k ==> !candles@[#[trigger] spans@[j].first as int].open_is_zero,
        decreases spans.len() - k,
    {
        if candles[spans[k].first].open_is_zero {
            return Err(ScoreError::DivisionByZero);
        }
        k = k + 1;
    }
    Ok(MonthlyPlan { spans, tally })
}

/// Two outcomes of the pass over the same candles and window agree: the
/// same spans and tally, or the same error. Scores computed from them are
/// therefore identical.
pub proof fn lemma_plan_is_deterministic(
    candles: Seq<DayCandle>,
    w: DateWindow,
    r1: Result<MonthlyPlan, ScoreError>,
    r2: Result<MonthlyPlan, ScoreError>,
)
    requires
        plan_outcome(candles, w, r1),
        plan_outcome(candles, w, r2),
    ensures
        r1 is Err <==> r2 is Err,
        r1 is Err ==> r1 == r2,
        r1 is Ok ==> r1->Ok_0.spans@ == r2->Ok_0.spans@ && r1->Ok_0.tally == r2->Ok_0.tally,
{
}

/// The dividend enters exactly one monthly return, the first: every span
/// the pass emits carries it if and only if it is the first span.
pub proof fn lemma_dividend_only_first(candles: Seq<DayCandle>, w: DateWindow, n: nat)
    requires
        n <= candles.len(),
    ensures
        forall|k: int|
            0 <= k < pass_spec(candles, w, n).spans.len() ==> (#[trigger] pass_spec(
                candles,
                w,
                n,
            ).spans[k].with_dividend <==> k == 0),
    decreases n,
{
    if n > 0 {
        lemma_dividend_only_first(candles, w, (n - 1) as nat);
        let p = pass_spec(candles, w, (n - 1) as nat);
        let s = pass_spec(candles, w, n);
        assert forall|k: int| 0 <= k < s.spans.len() implies (#[trigger] s.spans[k].with_dividend
            <==> k == 0) by {
            if k < p.spans.len() {
                assert(s.spans[k] == p.spans[k]);
            }
        };
    }
}

/// The pass counts as trading days exactly the candles that the window
/// filter keeps.
pub proof fn lemma_trading_days_are_filtered_candles(candles: Seq<DayCandle>, w: DateWindow, n: nat)
    requires
        n <= candles.len() <= usize::MAX,
    ensures
        pass_spec(candles, w, n).tally.trading_days == window_filter_spec(candles.take(n as int), w).len(),
    decreases n,
{
    reveal(Seq::filter);
    if n == 0 {
        assert(candles.take(0) =~= Seq::<DayCandle>::empty());
    } else {
        lemma_trading_days_are_filtered_candles(candles, w, (n - 1) as nat);
        lemma_pass_bounds(candles, w, (n - 1) as nat);
        assert(candles.take(n as int).drop_last() =~= candles.take(n - 1));
        assert(candles.take(n as int).last() == candles[n - 1]);
    }
}

/// An exact fraction `numerator / denominator`.
#[derive(Clone, Copy, Debug, PartialEq, Eq, Structural)]
pub struct Fraction {
    pub numerator: i128,
    pub denominator: u128,
}

/// Numerator of the frog-in-the-pan score over `trading_days`: the share of
/// down days less the share of up days, negated unless the momentum score
/// is positive.
pub open spec fn fip_numerator(t: Tally, momentum_positive: bool) -> int {
    if momentum_positive {
        t.negative_days - t.positive_days
    } else {
        t.positive_days - t.negative_days
    }
}

/// The frog-in-the-pan score as an exact fraction over the trading days;
/// with no trading day it is not defined.
pub fn fip_fraction(tally: Tally, momentum_positive: bool) -> (r: Result<Fraction, ScoreError>)
    ensures
        tally.trading_days == 0 <==> r is Err,
        r matches Err(e) ==> e == ScoreError::DivisionByZero,
        r matches Ok(f) ==> f.numerator == fip_numerator(tally, momentum_positive)
            && f.denominator == tally.trading_days,
{
    if tally.trading_days == 0 {
        return Err(ScoreError::DivisionByZero);
    }
    let neg = tally.negative_days as i128;
    let pos = tally.positive_days as i128;
    let numerator = if momentum_positive {
        neg - pos
    } else {
        pos - neg
    };
    Ok(Fraction { numerator, denominator: tally.trading_days as u128 })
}

/// The sign of the momentum score flips the frog-in-the-pan score and
/// nothing else: the two fractions have equal denominators and opposite
/// numerators.
pub proof fn lemma_fip_sign_flip(t: Tally)
    ensures
        fip_numerator(t, true) == -fip_numerator(t, false),
{
}

} // verus!
