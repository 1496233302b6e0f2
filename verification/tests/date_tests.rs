use comicshelf::date::{day_index, days_in_month, prev_day, push_date, sub_months, week_range, weekday, Date, Weekday};
use comicshelf::errors::Error;

fn d(year: i32, month: u8, day: u8) -> Date {
    Date { year, month, day }
}

#[test]
fn window_for_a_midweek_reference_date() {
    // Three months before the reference date is a Thursday; the window is
    // the week before the Sunday that precedes it.
    let (start, end) = week_range(&d(2024, 5, 15)).unwrap();
    assert_eq!(start, d(2024, 2, 4));
    assert_eq!(end, d(2024, 2, 10));
}

#[test]
fn window_when_three_months_back_is_already_sunday() {
    // No backward walk happens when the shifted date is a Sunday.
    let (start, end) = week_range(&d(2024, 9, 2)).unwrap();
    assert_eq!(start, d(2024, 5, 26));
    assert_eq!(end, d(2024, 6, 1));
}

#[test]
fn window_clamps_the_day_of_month() {
    // May 31st minus three months lands in February; the day clamps to
    // the leap-year 29th.
    let (start, end) = week_range(&d(2024, 5, 31)).unwrap();
    assert_eq!(start, d(2024, 2, 18));
    assert_eq!(end, d(2024, 2, 24));
}

#[test]
fn window_spans_seven_days_ending_saturday() {
    let (start, end) = week_range(&d(2023, 11, 7)).unwrap();
    assert_eq!(weekday(&start), Weekday::Sun);
    assert_eq!(weekday(&end), Weekday::Sat);
    assert_eq!(day_index(&end), day_index(&start) + 6);
}

#[test]
fn window_is_deterministic() {
    let first = week_range(&d(2022, 7, 19)).unwrap();
    let second = week_range(&d(2022, 7, 19)).unwrap();
    assert_eq!(first, second);
}

#[test]
fn window_fails_at_the_edge_of_the_calendar() {
    assert_eq!(week_range(&d(1, 1, 10)), Err(Error::DateArithmetic));
    assert_eq!(week_range(&d(1, 4, 2)), Err(Error::DateArithmetic));
}

#[test]
fn weekdays_match_the_civil_calendar() {
    assert_eq!(weekday(&d(2024, 5, 15)), Weekday::Wed);
    assert_eq!(weekday(&d(2000, 1, 1)), Weekday::Sat);
    assert_eq!(weekday(&d(1, 1, 1)), Weekday::Mon);
}

#[test]
fn day_index_matches_the_civil_ordinal() {
    // The civil ordinal of 2024-05-15 is 739021 counting from one.
    assert_eq!(day_index(&d(2024, 5, 15)), 739020);
    assert_eq!(day_index(&d(1, 1, 1)), 0);
}

#[test]
fn stepping_back_crosses_month_and_year_boundaries() {
    assert_eq!(prev_day(&d(2024, 3, 1)), Some(d(2024, 2, 29)));
    assert_eq!(prev_day(&d(2023, 3, 1)), Some(d(2023, 2, 28)));
    assert_eq!(prev_day(&d(2024, 1, 1)), Some(d(2023, 12, 31)));
    assert_eq!(prev_day(&d(1, 1, 1)), None);
}

#[test]
fn month_subtraction_clamps_and_underflows() {
    assert_eq!(sub_months(&d(2024, 5, 31), 3), Some(d(2024, 2, 29)));
    assert_eq!(sub_months(&d(2024, 3, 15), 3), Some(d(2023, 12, 15)));
    assert_eq!(sub_months(&d(1, 2, 1), 3), None);
}

#[test]
fn month_lengths_follow_leap_years() {
    assert_eq!(days_in_month(2024, 2), 29);
    assert_eq!(days_in_month(2023, 2), 28);
    assert_eq!(days_in_month(1900, 2), 28);
    assert_eq!(days_in_month(2000, 2), 29);
    assert_eq!(days_in_month(2024, 4), 30);
    assert_eq!(days_in_month(2024, 12), 31);
}

#[test]
fn dates_render_zero_padded() {
    let mut s = String::new();
    push_date(&mut s, &d(987, 6, 5));
    assert_eq!(s, "0987-06-05");
    let mut t = String::new();
    push_date(&mut t, &d(2024, 11, 30));
    assert_eq!(t, "2024-11-30");
}
