use aop_app::dates::{format_date, format_date_long, next_monday, parse_date, Moment};

fn at(year: i32, month: u32, day: u32, hour: u32, minute: u32) -> Moment {
    Moment { year, month, day, hour, minute, second: 0, nanosecond: 0 }
}

#[test]
fn a_typed_date_is_read_in_each_style_it_is_offered_in() {
    assert_eq!(parse_date("2026-08-17"), Some(at(2026, 8, 17, 8, 0)));
    assert_eq!(parse_date("17/08/2026"), Some(at(2026, 8, 17, 8, 0)));
    assert_eq!(parse_date("08/17/2026"), Some(at(2026, 8, 17, 8, 0)));
    assert_eq!(parse_date("17 August 2026"), Some(at(2026, 8, 17, 8, 0)));
}

#[test]
fn a_time_of_day_is_kept_when_one_is_typed() {
    assert_eq!(parse_date("  2026-08-17 14:30 "), Some(at(2026, 8, 17, 14, 30)));
    assert_eq!(parse_date("17/08/2026 09:15"), Some(at(2026, 8, 17, 9, 15)));
}

#[test]
fn a_day_that_reads_both_ways_is_read_day_first() {
    assert_eq!(parse_date("03/04/2026"), Some(at(2026, 4, 3, 8, 0)));
}

#[test]
fn blank_or_unreadable_text_is_no_date() {
    assert_eq!(parse_date("   "), None);
    assert_eq!(parse_date("tomorrow"), None);
    assert_eq!(parse_date("2026-13-40"), None);
}

#[test]
fn a_date_is_written_in_the_style_chosen() {
    let moment = at(2026, 8, 17, 8, 0);
    assert_eq!(format_date(moment, 4).as_deref(), Some("2026-08-17"));
    assert_eq!(format_date(moment, 1).as_deref(), Some("17/08/2026"));
    assert_eq!(format_date(moment, 0).as_deref(), Some("Mon 17/08/26"));
    assert_eq!(format_date(moment, 42).as_deref(), Some("Mon 17/08/26"));
    assert_eq!(format_date_long(moment).as_deref(), Some("17 August 2026"));
}

#[test]
fn numbers_that_name_no_day_are_not_written_as_one() {
    assert_eq!(format_date(at(2026, 2, 30, 8, 0), 4), None);
}

#[test]
fn a_preview_starts_on_the_next_monday() {
    assert_eq!(next_monday(2026, 8, 17), Some((2026, 8, 17)), "a Monday is its own");
    assert_eq!(next_monday(2026, 8, 19), Some((2026, 8, 24)));
    assert_eq!(next_monday(2026, 8, 23), Some((2026, 8, 24)));
    assert_eq!(next_monday(2026, 12, 29), Some((2027, 1, 4)), "across the turn of a year");
    assert_eq!(next_monday(2026, 2, 30), None, "no such day");
}
