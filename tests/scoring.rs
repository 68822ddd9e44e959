use momentum::calendar::{CivilDate, DateWindow};
use momentum::run::{plan_record, MarketCap, RecordPlan, RunError, RunSummary};
use momentum::scoring::{
    filter_candles, fip_fraction, in_window, monthly_plan, DayCandle, Fraction, MonthSpan, Movement, ScoreError, Tally,
};

fn window() -> DateWindow {
    DateWindow {
        start: CivilDate { year: 2023, month: 2, day: 1 },
        end: CivilDate { year: 2024, month: 1, day: 31 },
    }
}

fn day(year: i32, month: u32, movement: Movement) -> DayCandle {
    DayCandle { year, month, movement, open_is_zero: false }
}

#[test]
fn candle_dates_come_from_epoch_millis() {
    let c = DayCandle::from_epoch_millis(1431648000000, Movement::Up, false).unwrap();
    assert_eq!((c.year, c.month), (2015, 5));
    let c = DayCandle::from_epoch_millis(-1500, Movement::Flat, true).unwrap();
    assert_eq!((c.year, c.month, c.open_is_zero), (1969, 12, true));
    assert!(DayCandle::from_epoch_millis(i64::MAX, Movement::Flat, false).is_none());
}

#[test]
fn window_test_is_by_month() {
    let w = window();
    assert!(!in_window(2023, 1, &w));
    assert!(in_window(2023, 2, &w));
    assert!(in_window(2024, 1, &w));
    assert!(!in_window(2024, 2, &w));
    assert!(!in_window(2022, 6, &w));
    assert!(!in_window(2025, 1, &w));
}

#[test]
fn filter_keeps_order() {
    let cs = vec![
        day(2023, 1, Movement::Up),
        day(2023, 3, Movement::Down),
        day(2024, 2, Movement::Up),
        day(2023, 2, Movement::Flat),
    ];
    let kept = filter_candles(&cs, &window());
    assert_eq!(kept, vec![cs[1], cs[3]]);
}

#[test]
fn single_return_after_second_month() {
    // March opens at 100 and closes at 110; April's first candle closes March.
    let opens = [100.0f64, 120.0];
    let closes = [110.0f64, 125.0];
    let cs = vec![day(2023, 3, Movement::Up), day(2023, 4, Movement::Up)];
    let plan = monthly_plan(&cs, &window()).unwrap();
    assert_eq!(plan.spans, vec![MonthSpan { first: 0, last: 0, with_dividend: true }]);
    let dividend = 0.0f64;
    let mut score = 1.0f64;
    for s in &plan.spans {
        let d = if s.with_dividend { dividend } else { 0.0 };
        score *= 1.0 + (closes[s.last] + d - opens[s.first]) / opens[s.first];
    }
    score -= 1.0;
    assert!((score - 0.10).abs() < 1e-12);
}

#[test]
fn one_month_emits_nothing() {
    let cs = vec![day(2023, 3, Movement::Up), day(2023, 3, Movement::Down)];
    let plan = monthly_plan(&cs, &window()).unwrap();
    assert!(plan.spans.is_empty());
    assert_eq!(plan.tally, Tally { trading_days: 2, positive_days: 1, negative_days: 1 });
}

#[test]
fn dividend_only_in_first_return() {
    let cs = vec![
        day(2023, 3, Movement::Up),
        day(2023, 3, Movement::Up),
        day(2023, 4, Movement::Down),
        day(2023, 5, Movement::Flat),
        day(2023, 5, Movement::Up),
        day(2023, 6, Movement::Up),
    ];
    let a = monthly_plan(&cs, &window()).unwrap();
    assert_eq!(
        a.spans,
        vec![
            MonthSpan { first: 0, last: 1, with_dividend: true },
            MonthSpan { first: 2, last: 2, with_dividend: false },
            MonthSpan { first: 3, last: 4, with_dividend: false },
        ]
    );
    assert_eq!(a.tally, Tally { trading_days: 6, positive_days: 4, negative_days: 1 });
    let b = monthly_plan(&cs, &window()).unwrap();
    assert_eq!(a.spans, b.spans);
    assert_eq!(a.tally, b.tally);
}

#[test]
fn candles_outside_window_are_not_counted() {
    let cs = vec![day(2022, 12, Movement::Up), day(2023, 3, Movement::Down), day(2024, 3, Movement::Up)];
    let plan = monthly_plan(&cs, &window()).unwrap();
    assert_eq!(plan.tally, Tally { trading_days: 1, positive_days: 0, negative_days: 1 });
}

#[test]
fn zero_open_month_is_division_by_zero() {
    let mut cs = vec![day(2023, 3, Movement::Up), day(2023, 4, Movement::Up)];
    cs[0].open_is_zero = true;
    assert!(matches!(monthly_plan(&cs, &window()), Err(ScoreError::DivisionByZero)));
    // The open of a bucket never closed does not matter.
    let mut cs = vec![day(2023, 3, Movement::Up), day(2023, 4, Movement::Up)];
    cs[1].open_is_zero = true;
    assert!(monthly_plan(&cs, &window()).is_ok());
}

#[test]
fn fip_sign_follows_momentum() {
    let t = Tally { trading_days: 10, positive_days: 8, negative_days: 2 };
    let up = fip_fraction(t, true).unwrap();
    assert_eq!(up, Fraction { numerator: -6, denominator: 10 });
    assert!((up.numerator as f64 / up.denominator as f64 + 0.6).abs() < 1e-12);
    let down = fip_fraction(t, false).unwrap();
    assert_eq!(down, Fraction { numerator: 6, denominator: 10 });
}

#[test]
fn fip_without_trading_days_fails() {
    let t = Tally { trading_days: 0, positive_days: 0, negative_days: 0 };
    assert_eq!(fip_fraction(t, true), Err(ScoreError::DivisionByZero));
}

#[test]
fn low_or_missing_market_cap_is_skipped() {
    let cs = vec![day(2023, 3, Movement::Up), day(2023, 4, Movement::Up)];
    let mut summary = RunSummary::new();
    for cap in [MarketCap::Absent, MarketCap::Below] {
        let plan = plan_record(cap, &cs, &window());
        assert!(matches!(plan, RecordPlan::Skipped));
        assert!(summary.file_record(plan).is_none());
    }
    assert_eq!(summary.records_skipped, 2);
    assert_eq!(summary.records_scored, 0);
    assert!(summary.errors.is_empty());
    let plan = plan_record(MarketCap::AtLeast, &cs, &window());
    let p = summary.file_record(plan).unwrap();
    assert_eq!(p.spans.len(), 1);
    summary.note_scored();
    assert_eq!(summary.records_scored, 1);
}

#[test]
fn record_without_trading_days_is_an_error() {
    let cs = vec![day(2020, 3, Movement::Up)];
    let mut summary = RunSummary::new();
    let plan = plan_record(MarketCap::AtLeast, &cs, &window());
    assert!(matches!(plan, RecordPlan::Failed(ScoreError::DivisionByZero)));
    assert!(summary.file_record(plan).is_none());
    assert_eq!(summary.errors, vec![RunError::Score(ScoreError::DivisionByZero)]);
    summary.note_error(RunError::PageQueryFailed { offset: 500 });
    assert_eq!(summary.errors.len(), 2);
}
