use momentum::calendar::{month_days, previous_year_days, trailing_year_window, CivilDate, DateWindow, WindowError};

#[test]
fn lib_it_works() {
    assert_eq!(2 + 2, 4);
}

#[test]
fn month_lengths_follow_simplified_leap_rule() {
    assert_eq!(month_days(2, 2024), 29);
    assert_eq!(month_days(2, 2023), 28);
    assert_eq!(month_days(4, 2023), 30);
    assert_eq!(month_days(1, 2023), 31);
    assert_eq!(month_days(2, 1900), 29);
    assert_eq!(month_days(0, 2023), 31);
    assert_eq!(month_days(11, 2023), 30);
}

#[test]
fn previous_year_days_sums_twelve_months_less_one() {
    assert_eq!(previous_year_days(3, 2024), 365);
    assert_eq!(previous_year_days(1, 2024), 364);
    assert_eq!(previous_year_days(12, 2023), 364);
}

#[test]
fn window_ends_at_last_month_and_spans_a_year() {
    let now = CivilDate { year: 2024, month: 3, day: 15 };
    let w = trailing_year_window(now).unwrap();
    assert_eq!(
        w,
        DateWindow {
            start: CivilDate { year: 2023, month: 2, day: 1 },
            end: CivilDate { year: 2024, month: 1, day: 31 },
        }
    );
}

#[test]
fn window_in_january_counts_december() {
    let now = CivilDate { year: 2024, month: 1, day: 10 };
    let w = trailing_year_window(now).unwrap();
    assert_eq!(w.end, CivilDate { year: 2023, month: 11, day: 30 });
}

#[test]
fn window_out_of_range_is_calendar_overflow() {
    let now = CivilDate { year: -262144, month: 1, day: 1 };
    assert_eq!(trailing_year_window(now), Err(WindowError::CalendarOverflow));
    let bad = CivilDate { year: 2023, month: 2, day: 30 };
    assert_eq!(trailing_year_window(bad), Err(WindowError::CalendarOverflow));
}
