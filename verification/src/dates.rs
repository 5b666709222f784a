//! Reading a date somebody typed, and writing one in the style they chose.
//!
//! Reading and writing dates is `chrono`'s work. What is decided here is
//! which styles are tried and in what order, what a bare date means, and
//! which pattern a stored choice stands for.

use chrono::{Datelike, NaiveDate, NaiveDateTime, Timelike};
use vstd::prelude::*;
use crate::state::{date_pattern, date_patterns};
use crate::text::{chars_of, string_of, trim, trim_chars};
use crate::version::opt_view;

verus! {

/// A date and time of day, down to the nanosecond, as plain numbers.
#[derive(Debug, Clone, Copy, PartialEq, Eq, Structural)]
pub struct Moment {
    pub year: i32,
    pub month: u32,
    pub day: u32,
    pub hour: u32,
    pub minute: u32,
    pub second: u32,
    pub nanosecond: u32,
}

/// What `NaiveDateTime::parse_from_str` reads in a text under a pattern.
pub uninterp spec fn datetime_parsed(text: Seq<char>, pattern: Seq<char>) -> Option<Moment>;

/// What `NaiveDate::parse_from_str` reads in a text under a pattern, as
/// year, month and day.
pub uninterp spec fn day_parsed(text: Seq<char>, pattern: Seq<char>) -> Option<(i32, u32, u32)>;

/// What `NaiveDateTime::format` writes for a moment under a pattern, or
/// nothing when the numbers are no moment at all.
pub uninterp spec fn formatted(moment: Moment, pattern: Seq<char>) -> Option<Seq<char>>;

/// `chrono::NaiveDateTime::parse_from_str`: the moment a text holds under a
/// pattern, or nothing when it does not hold one.
#[verifier::external_body]
fn parse_moment(text: &str, pattern: &str) -> (r: Option<Moment>)
    ensures
        r == datetime_parsed(text@, pattern@),
{
    match NaiveDateTime::parse_from_str(text, pattern) {
        Ok(v) => Some(
            Moment {
                year: v.year(),
                month: v.month(),
                day: v.day(),
                hour: v.hour(),
                minute: v.minute(),
                second: v.second(),
                nanosecond: v.nanosecond(),
            },
        ),
        Err(_) => None,
    }
}

/// `chrono::NaiveDate::parse_from_str`: the date a text holds under a
/// pattern, or nothing when it does not hold one.
#[verifier::external_body]
fn parse_day(text: &str, pattern: &str) -> (r: Option<(i32, u32, u32)>)
    ensures
        r == day_parsed(text@, pattern@),
{
    match NaiveDate::parse_from_str(text, pattern) {
        Ok(d) => Some((d.year(), d.month(), d.day())),
        Err(_) => None,
    }
}

/// The patterns this program writes dates in. `chrono` reports a pattern
/// it cannot follow only when the text is written out, and the writing
/// then panics, so nothing else is handed to it.
pub open spec fn known_pattern(pattern: Seq<char>) -> bool {
    date_patterns().contains(pattern) || pattern == "%d %B %Y"@
}

/// `chrono::NaiveDateTime::format`, written out: the moment in the pattern,
/// or nothing when the numbers name no moment.
#[verifier::external_body]
fn format_moment(moment: Moment, pattern: &str) -> (r: Option<String>)
    requires
        known_pattern(pattern@),
    ensures
        opt_view(r) == formatted(moment, pattern@),
{
    let date = match NaiveDate::from_ymd_opt(moment.year, moment.month, moment.day) {
        Some(date) => date,
        None => {
            return None;
        },
    };
    match date.and_hms_nano_opt(moment.hour, moment.minute, moment.second, moment.nanosecond) {
        Some(v) => Some(v.format(pattern).to_string()),
        None => None,
    }
}

/// The styles a date with a time of day is read in, in the order they are
/// tried.
pub open spec fn datetime_patterns() -> Seq<Seq<char>> {
    seq!["%Y-%m-%d %H:%M"@, "%d/%m/%Y %H:%M"@, "%m/%d/%Y %H:%M"@]
}

/// The styles a bare date is read in, in the order they are tried.
pub open spec fn day_patterns() -> Seq<Seq<char>> {
    seq!["%Y-%m-%d"@, "%d/%m/%Y"@, "%m/%d/%Y"@, "%d %b %y"@, "%d %B %Y"@]
}

/// The moment the first of `patterns` reads in `text`.
pub open spec fn first_moment(text: Seq<char>, patterns: Seq<Seq<char>>) -> Option<Moment>
    decreases patterns.len(),
{
    if patterns.len() == 0 {
        None
    } else {
        match datetime_parsed(text, patterns[0]) {
            Some(m) => Some(m),
            None => first_moment(text, patterns.skip(1)),
        }
    }
}

/// The date the first of `patterns` reads in `text`.
pub open spec fn first_day(text: Seq<char>, patterns: Seq<Seq<char>>) -> Option<(i32, u32, u32)>
    decreases patterns.len(),
{
    if patterns.len() == 0 {
        None
    } else {
        match day_parsed(text, patterns[0]) {
            Some(d) => Some(d),
            None => first_day(text, patterns.skip(1)),
        }
    }
}

/// A date on its own means the start of that working day, eight o'clock.
pub open spec fn morning_of(d: (i32, u32, u32)) -> Moment {
    Moment { year: d.0, month: d.1, day: d.2, hour: 8, minute: 0, second: 0, nanosecond: 0 }
}

/// What a typed date means: with a time of day in the first style that
/// reads it, else a bare date in the first style that reads it, at eight in
/// the morning; nothing for blank text or text no style reads.
pub open spec fn typed_date(input: Seq<char>) -> Option<Moment> {
    let text = trim(input);
    if text.len() == 0 {
        None
    } else {
        match first_moment(text, datetime_patterns()) {
            Some(m) => Some(m),
            None => match first_day(text, day_patterns()) {
                Some(d) => Some(morning_of(d)),
                None => None,
            },
        }
    }
}

pub open spec fn strs_view(v: Seq<&str>) -> Seq<Seq<char>> {
    v.map_values(|s: &str| s@)
}

/// Accepts `2026-08-17`, `17/08/2026` and `08/17/2026`, with an optional
/// time of day.
pub fn parse_date(input: &str) -> (r: Option<Moment>)
    ensures
        r == typed_date(input@),
{
    let text = string_of(&trim_chars(&chars_of(input)));
    if text.unicode_len() == 0 {
        return None;
    }
    let with_time: Vec<&str> = vec!["%Y-%m-%d %H:%M", "%d/%m/%Y %H:%M", "%m/%d/%Y %H:%M"];
    proof {
        assert(strs_view(with_time@) =~= datetime_patterns());
        assert(strs_view(with_time@).skip(0) =~= strs_view(with_time@));
    }
    let mut i: usize = 0;
    while i < with_time.len()
        invariant
            i <= with_time.len(),
            text@ == trim(input@),
            text@.len() > 0,
            first_moment(text@, datetime_patterns()) == first_moment(
                text@,
                strs_view(with_time@).skip(i as int),
            ),
        decreases with_time.len() - i,
    {
        let found = parse_moment(text.as_str(), with_time[i]);
        proof {
            let rest = strs_view(with_time@).skip(i as int);
            assert(rest[0] == with_time@[i as int]@);
            assert(rest.skip(1) =~= strs_view(with_time@).skip(i + 1));
        }
        if found.is_some() {
            return found;
        }
        i = i + 1;
    }
    let bare: Vec<&str> = vec!["%Y-%m-%d", "%d/%m/%Y", "%m/%d/%Y", "%d %b %y", "%d %B %Y"];
    proof {
        assert(strs_view(with_time@).skip(i as int) =~= Seq::<Seq<char>>::empty());
        assert(strs_view(bare@) =~= day_patterns());
        assert(strs_view(bare@).skip(0) =~= strs_view(bare@));
    }
    let mut j: usize = 0;
    while j < bare.len()
        invariant
            j <= bare.len(),
            text@ == trim(input@),
            text@.len() > 0,
            first_moment(text@, datetime_patterns()) is None,
            first_day(text@, day_patterns()) == first_day(text@, strs_view(bare@).skip(j as int)),
        decreases bare.len() - j,
    {
        let found = parse_day(text.as_str(), bare[j]);
        proof {
            let rest = strs_view(bare@).skip(j as int);
            assert(rest[0] == bare@[j as int]@);
            assert(rest.skip(1) =~= strs_view(bare@).skip(j + 1));
        }
        match found {
            Some((year, month, day)) => {
                return Some(
                    Moment { year, month, day, hour: 8, minute: 0, second: 0, nanosecond: 0 },
                );
            },
            None => {},
        }
        j = j + 1;
    }
    proof {
        assert(strs_view(bare@).skip(j as int) =~= Seq::<Seq<char>>::empty());
    }
    None
}

/// A moment in the style stored choice `index` picks, the first style for a
/// choice that names none; nothing when the numbers name no moment.
pub fn format_date(value: Moment, index: usize) -> (r: Option<String>)
    ensures
        opt_view(r) == formatted(
            value,
            if index < 5 {
                date_patterns()[index as int]
            } else {
                date_patterns()[0]
            },
        ),
{
    let pattern = date_pattern(index);
    proof {
        if index < 5 {
            assert(date_patterns().contains(date_patterns()[index as int]));
        } else {
            assert(date_patterns().contains(date_patterns()[0]));
        }
    }
    format_moment(value, pattern)
}

/// A moment written out in full, `17 August 2026`.
pub fn format_date_long(value: Moment) -> (r: Option<String>)
    ensures
        opt_view(r) == formatted(value, "%d %B %Y"@),
{
    format_moment(value, "%d %B %Y")
}

/// What `NaiveDate::weekday` gives for a day, counted from Monday as
/// `Weekday::num_days_from_monday` counts, or nothing when the numbers are no
/// day at all.
pub uninterp spec fn weekday_named(year: i32, month: u32, day: u32) -> Option<u32>;

/// What `NaiveDate::succ_opt` gives for a day: the next calendar day, or
/// nothing when the numbers are no day or the day is the last one `chrono`
/// holds.
pub uninterp spec fn day_after_named(year: i32, month: u32, day: u32) -> Option<(i32, u32, u32)>;

/// `NaiveDate::from_ymd_opt`, then `weekday` and `num_days_from_monday`:
/// the day of the week, Monday being nought and Sunday six.
#[verifier::external_body]
fn weekday_of(year: i32, month: u32, day: u32) -> (r: Option<u32>)
    ensures
        r == weekday_named(year, month, day),
        r matches Some(w) ==> w < 7,
{
    match NaiveDate::from_ymd_opt(year, month, day) {
        Some(date) => Some(date.weekday().num_days_from_monday()),
        None => None,
    }
}

/// `NaiveDate::from_ymd_opt`, then `succ_opt`: the next calendar day.
#[verifier::external_body]
fn day_after(year: i32, month: u32, day: u32) -> (r: Option<(i32, u32, u32)>)
    ensures
        r == day_after_named(year, month, day),
{
    match NaiveDate::from_ymd_opt(year, month, day) {
        Some(date) => match date.succ_opt() {
            Some(next) => Some((next.year(), next.month(), next.day())),
            None => None,
        },
        None => None,
    }
}

/// The first Monday on or after a day, looking at most `steps` days on.
pub open spec fn monday_within(year: i32, month: u32, day: u32, steps: nat) -> Option<
    (i32, u32, u32),
>
    decreases steps,
{
    match weekday_named(year, month, day) {
        None => None,
        Some(w) => if w == 0 {
            Some((year, month, day))
        } else if steps == 0 {
            None
        } else {
            match day_after_named(year, month, day) {
                Some(next) => monday_within(next.0, next.1, next.2, (steps - 1) as nat),
                None => None,
            }
        },
    }
}

/// How many days on the next Monday can be.
pub const WEEK_AHEAD: u32 = 6;

/// The next Monday on or after a day, so template previews line up on a
/// tidy week boundary. One comes within [`WEEK_AHEAD`] days of any day;
/// nothing comes back for numbers that are no day, or where the days run
/// out before a Monday does.
pub fn next_monday(year: i32, month: u32, day: u32) -> (r: Option<(i32, u32, u32)>)
    ensures
        r == monday_within(year, month, day, WEEK_AHEAD as nat),
{
    let mut date: (i32, u32, u32) = (year, month, day);
    let mut left: u32 = WEEK_AHEAD;
    loop
        invariant
            left <= WEEK_AHEAD,
            monday_within(date.0, date.1, date.2, left as nat) == monday_within(
                year,
                month,
                day,
                WEEK_AHEAD as nat,
            ),
        decreases left,
    {
        match weekday_of(date.0, date.1, date.2) {
            None => {
                return None;
            },
            Some(w) => {
                if w == 0 {
                    return Some(date);
                }
            },
        }
        if left == 0 {
            return None;
        }
        match day_after(date.0, date.1, date.2) {
            Some(next) => {
                date = next;
            },
            None => {
                return None;
            },
        }
        left = left - 1;
    }
}

/// A date with a time of day that reads both day first and month first is
/// read day first; the month-first reading is taken only when the day-first
/// one reads nothing; and a bare date is read the same way round, at eight
/// in the morning.
pub proof fn a_date_that_reads_both_ways_is_read_day_first(input: Seq<char>)
    requires
        trim(input).len() > 0,
        datetime_parsed(trim(input), "%Y-%m-%d %H:%M"@) is None,
    ensures
        datetime_parsed(trim(input), "%d/%m/%Y %H:%M"@) matches Some(m) ==> typed_date(input)
            == Some(m),
        datetime_parsed(trim(input), "%d/%m/%Y %H:%M"@) is None ==> (datetime_parsed(
            trim(input),
            "%m/%d/%Y %H:%M"@,
        ) matches Some(m) ==> typed_date(input) == Some(m)),
        ({
            let t = trim(input);
            &&& datetime_parsed(t, "%d/%m/%Y %H:%M"@) is None
            &&& datetime_parsed(t, "%m/%d/%Y %H:%M"@) is None
            &&& day_parsed(t, "%Y-%m-%d"@) is None
        }) ==> (day_parsed(trim(input), "%d/%m/%Y"@) matches Some(d) ==> typed_date(input)
            == Some(
            Moment { year: d.0, month: d.1, day: d.2, hour: 8, minute: 0, second: 0, nanosecond: 0 },
        )),
{
    let t = trim(input);
    let p = datetime_patterns();
    let q = day_patterns();
    assert(p[0] == "%Y-%m-%d %H:%M"@);
    assert(p.skip(1)[0] == "%d/%m/%Y %H:%M"@);
    assert(p.skip(1).skip(1)[0] == "%m/%d/%Y %H:%M"@);
    assert(p.skip(1).skip(1).skip(1).len() == 0);
    assert(first_moment(t, p) == first_moment(t, p.skip(1)));
    match datetime_parsed(t, "%d/%m/%Y %H:%M"@) {
        Some(m) => {
            assert(first_moment(t, p.skip(1)) == Some(m));
        },
        None => {
            assert(first_moment(t, p.skip(1)) == first_moment(t, p.skip(1).skip(1)));
            match datetime_parsed(t, "%m/%d/%Y %H:%M"@) {
                Some(m) => {
                    assert(first_moment(t, p.skip(1).skip(1)) == Some(m));
                },
                None => {
                    assert(first_moment(t, p.skip(1).skip(1)) == first_moment(
                        t,
                        p.skip(1).skip(1).skip(1),
                    ));
                    assert(first_moment(t, p) is None);
                    assert(q[0] == "%Y-%m-%d"@);
                    assert(q.skip(1)[0] == "%d/%m/%Y"@);
                    if day_parsed(t, "%Y-%m-%d"@) is None {
                        assert(first_day(t, q) == first_day(t, q.skip(1)));
                    }
                },
            }
        },
    }
}

} // verus!
