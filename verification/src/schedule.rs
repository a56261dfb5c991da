//! Cron schedules: `every <n> <unit>` intervals and calendar schedules such
//! as `weekdays at 9:30am`.
use crate::text::{
    chars_of, concat, append, owned, parse_unsigned, parse_unsigned_str, replace_char,
    replace_char_str, split_once, split_once_at, split_once_char, split_once_str, lowercase, starts_with, str_eq,
    strip_prefix, strip_suffix, to_lowercase, trim, trim_str, ends_with,
};
use crate::text::{all_digits, digits_value, is_digit};
use vstd::prelude::*;

verus! {

/// A schedule expression, normalized (trimmed, lower case) and told apart:
/// an interval after `every `, or a calendar schedule.
pub enum ScheduleExpression {
    Interval(String),
    Calendar(String),
}

pub open spec fn normalized_schedule(expression: Seq<char>) -> Seq<char> {
    lowercase(trim(expression))
}

pub fn schedule_expression(expression: &str) -> (r: ScheduleExpression)
    ensures
        ({
            let n = normalized_schedule(expression@);
            if starts_with(n, "every "@) {
                r matches ScheduleExpression::Interval(rest) && rest@ == n.skip(6)
            } else {
                r matches ScheduleExpression::Calendar(c) && c@ == n
            }
        }),
{
    let normalized = to_lowercase(trim_str(expression).as_str());
    proof {
        reveal_strlit("every ");
    }
    match strip_prefix(normalized.as_str(), "every ") {
        Some(rest) => ScheduleExpression::Interval(rest),
        None => ScheduleExpression::Calendar(normalized),
    }
}

/// The days a calendar schedule runs on; a single day is numbered from
/// Monday (0) to Sunday (6).
pub enum CalendarDays {
    Any,
    Weekdays,
    One(u32),
}

/// A calendar schedule: the days, and the time of day.
pub struct CalendarSchedule {
    pub days: CalendarDays,
    pub hour: u32,
    pub minute: u32,
}

/// The days a day expression names.
pub open spec fn days_of(value: Seq<char>) -> Option<CalendarDays> {
    if value == "weekday"@ || value == "weekdays"@ {
        Some(CalendarDays::Weekdays)
    } else if value == "monday"@ || value == "mon"@ {
        Some(CalendarDays::One(0))
    } else if value == "tuesday"@ || value == "tue"@ || value == "tues"@ {
        Some(CalendarDays::One(1))
    } else if value == "wednesday"@ || value == "wed"@ {
        Some(CalendarDays::One(2))
    } else if value == "thursday"@ || value == "thu"@ || value == "thur"@ || value == "thurs"@ {
        Some(CalendarDays::One(3))
    } else if value == "friday"@ || value == "fri"@ {
        Some(CalendarDays::One(4))
    } else if value == "saturday"@ || value == "sat"@ {
        Some(CalendarDays::One(5))
    } else if value == "sunday"@ || value == "sun"@ {
        Some(CalendarDays::One(6))
    } else {
        None
    }
}

pub fn parse_days(value: &str) -> (r: Result<CalendarDays, String>)
    ensures
        match days_of(value@) {
            Some(d) => r == Ok::<CalendarDays, String>(d),
            None => r matches Err(m) && m@ == "unsupported calendar day '"@ + value@ + "'"@,
        },
{
    let is = |name: &str| -> (b: bool)
        ensures
            b == (value@ == name@),
        { str_eq(value, name) };
    if is("weekday") || is("weekdays") {
        Ok(CalendarDays::Weekdays)
    } else if is("monday") || is("mon") {
        Ok(CalendarDays::One(0))
    } else if is("tuesday") || is("tue") || is("tues") {
        Ok(CalendarDays::One(1))
    } else if is("wednesday") || is("wed") {
        Ok(CalendarDays::One(2))
    } else if is("thursday") || is("thu") || is("thur") || is("thurs") {
        Ok(CalendarDays::One(3))
    } else if is("friday") || is("fri") {
        Ok(CalendarDays::One(4))
    } else if is("saturday") || is("sat") {
        Ok(CalendarDays::One(5))
    } else if is("sunday") || is("sun") {
        Ok(CalendarDays::One(6))
    } else {
        let mut m = concat("unsupported calendar day '", value);
        append(&mut m, "'");
        Err(m)
    }
}

/// Whether a time of day exists, as chrono's `NaiveTime::from_hms_opt`
/// decides it for a whole minute: the hour below 24 and the minute below 60.
fn time_of_day_exists(hour: u32, minute: u32) -> (r: bool)
    ensures
        r == (hour < 24 && minute < 60),
{
    hour < 24 && minute < 60
}

/// The first piece of `s` split at `:`, and the second one if there is one.
pub open spec fn clock_pieces(s: Seq<char>) -> (Seq<char>, Option<Seq<char>>) {
    match split_once(s, ':') {
        Some((h, rest)) => (
            h,
            Some(
                match split_once(rest, ':') {
                    Some((m, _)) => m,
                    None => rest,
                },
            ),
        ),
        None => (s, None),
    }
}

/// The time a time expression names, as hour and minute: spaces ignored, an
/// optional `am` or `pm`, `H` or `H:MM` (further `:` pieces ignored); `12am`
/// is hour 0, a `pm` hour below 12 is 12 later.
pub open spec fn time_of(value: Seq<char>) -> Result<(u32, u32), Seq<char>> {
    let (clock, suffix) = clock_and_suffix(value);
    let (h, m) = clock_pieces(clock);
    match parse_unsigned(h, u32::MAX as nat) {
        None => Err("invalid hour"@),
        Some(hour) => {
            let minute = match m {
                Some(mt) => parse_unsigned(mt, u32::MAX as nat),
                None => Some(0nat),
            };
            match minute {
                None => Err("invalid minute"@),
                Some(minute) => {
                    let hour = if suffix == 1 && hour == 12 {
                        0
                    } else if suffix == 2 && hour < 12 {
                        hour + 12
                    } else {
                        hour
                    };
                    if hour < 24 && minute < 60 {
                        Ok((hour as u32, minute as u32))
                    } else {
                        Err("invalid time '"@ + value + "'"@)
                    }
                },
            }
        },
    }
}

/// A time expression without spaces, split from its `am` (1) or `pm` (2)
/// suffix, if any (0).
pub open spec fn clock_and_suffix(value: Seq<char>) -> (Seq<char>, int) {
    let compact = replace_char(value, ' ', ""@);
    if ends_with(compact, "am"@) {
        (compact.take(compact.len() - 2), 1int)
    } else if ends_with(compact, "pm"@) {
        (compact.take(compact.len() - 2), 2int)
    } else {
        (compact, 0int)
    }
}

fn split_clock(value: &str) -> (r: (String, u8))
    ensures
        (r.0@, r.1 as int) == clock_and_suffix(value@),
{
    proof {
        reveal_strlit("am");
        reveal_strlit("pm");
    }
    let compact = replace_char_str(value, ' ', "");
    match strip_suffix(compact.as_str(), "am") {
        Some(c) => (c, 1),
        None => match strip_suffix(compact.as_str(), "pm") {
            Some(c) => (c, 2),
            None => (compact, 0),
        },
    }
}

fn clock_parts(clock: &str) -> (r: (String, Option<String>))
    ensures
        (r.0@, match r.1 {
            Some(m) => Some(m@),
            None => None,
        }) == clock_pieces(clock@),
{
    match split_once_char(clock, ':') {
        Some((h, rest)) => (
            h,
            Some(
                match split_once_char(rest.as_str(), ':') {
                    Some((m, _)) => m,
                    None => rest,
                },
            ),
        ),
        None => (owned(clock), None),
    }
}

pub fn parse_time(value: &str) -> (r: Result<(u32, u32), String>)
    ensures
        match time_of(value@) {
            Ok(t) => r == Ok::<(u32, u32), String>(t),
            Err(e) => r matches Err(m) && m@ == e,
        },
{
    let (clock, suffix) = split_clock(value);
    let (h, m) = clock_parts(clock.as_str());
    let hour = match parse_unsigned_str(h.as_str(), 4294967295) {
        Some(x) => x,
        None => {
            return Err("invalid hour".to_string());
        },
    };
    let minute = match m {
        Some(mt) => match parse_unsigned_str(mt.as_str(), 4294967295) {
            Some(x) => x,
            None => {
                return Err("invalid minute".to_string());
            },
        },
        None => 0,
    };
    let hour: u32 = hour as u32;
    let minute: u32 = minute as u32;
    let hour: u32 = if suffix == 1 && hour == 12 {
        0
    } else if suffix == 2 && hour < 12 {
        hour + 12
    } else {
        hour
    };
    if time_of_day_exists(hour, minute) {
        Ok((hour, minute))
    } else {
        let mut message = concat("invalid time '", value);
        append(&mut message, "'");
        Err(message)
    }
}

/// A calendar expression: `<days> at <time>`, or a time alone for every
/// day.
pub open spec fn calendar_of(expression: Seq<char>) -> Result<(CalendarDays, (u32, u32)), Seq<char>> {
    match split_once_at(expression, " at "@) {
        Some((day, time)) => match days_of(trim(day)) {
            None => Err("unsupported calendar day '"@ + trim(day) + "'"@),
            Some(d) => match time_of(trim(time)) {
                Ok(t) => Ok((d, t)),
                Err(e) => Err(e),
            },
        },
        None => match time_of(expression) {
            Ok(t) => Ok((CalendarDays::Any, t)),
            Err(e) => Err(e),
        },
    }
}

pub fn parse_calendar(expression: &str) -> (r: Result<CalendarSchedule, String>)
    ensures
        match calendar_of(expression@) {
            Ok((d, (h, m))) => r matches Ok(c) && c.days == d && c.hour == h && c.minute == m,
            Err(e) => r matches Err(x) && x@ == e,
        },
{
    match split_once_str(expression, " at ") {
        Some((day, time)) => {
            let days = match parse_days(trim_str(day.as_str()).as_str()) {
                Ok(d) => d,
                Err(e) => {
                    return Err(e);
                },
            };
            match parse_time(trim_str(time.as_str()).as_str()) {
                Ok((hour, minute)) => Ok(CalendarSchedule { days, hour, minute }),
                Err(e) => Err(e),
            }
        },
        None => match parse_time(expression) {
            Ok((hour, minute)) => Ok(CalendarSchedule { days: CalendarDays::Any, hour, minute }),
            Err(e) => Err(e),
        },
    }
}

/// Whether a calendar schedule runs on a day, numbered from Monday (0).
pub open spec fn runs_on(days: CalendarDays, weekday: u32) -> bool {
    match days {
        CalendarDays::Any => true,
        CalendarDays::Weekdays => weekday < 5,
        CalendarDays::One(d) => weekday == d,
    }
}

pub fn day_matches(days: &CalendarDays, weekday: u32) -> (r: bool)
    requires
        weekday < 7,
    ensures
        r == runs_on(*days, weekday),
{
    match days {
        CalendarDays::Any => true,
        CalendarDays::Weekdays => weekday < 5,
        CalendarDays::One(d) => weekday == *d,
    }
}

/// The next run of a calendar schedule at or after day `k` of the days
/// that `instants` describes: the instant of the first such day that the
/// schedule runs on, that has one instant at the schedule's time, and
/// whose instant is after `after_ms`. Day `k` falls on weekday
/// `(first_weekday + k) % 7`.
pub open spec fn first_run_from(
    days: CalendarDays,
    after_ms: i64,
    first_weekday: u32,
    instants: Seq<Option<i64>>,
    k: int,
) -> Option<i64>
    decreases instants.len() - k,
{
    if k < 0 || k >= instants.len() {
        None
    } else if runs_on(days, ((first_weekday + k) % 7) as u32) && instants[k] is Some && instants[k]->0
        > after_ms {
        instants[k]
    } else {
        first_run_from(days, after_ms, first_weekday, instants, k + 1)
    }
}

/// The next run of a calendar schedule after `after_ms`, looked for over
/// the fourteen days that start with the day of `after_ms`. The caller
/// owns the time zone: `first_weekday` is the weekday of that first day
/// (Monday is 0), and `instants[k]` is the instant, in milliseconds, of the
/// schedule's time on day `k`, or `None` where that local time does not
/// exist or is ambiguous. The first day the schedule runs on whose instant
/// is after `after_ms` gives the run; there is none when no day does.
pub fn next_calendar_after(
    schedule: &CalendarSchedule,
    after_ms: i64,
    first_weekday: u32,
    instants: &Vec<Option<i64>>,
) -> (r: Option<i64>)
    requires
        first_weekday < 7,
        instants@.len() == 14,
    ensures
        r == first_run_from(schedule.days, after_ms, first_weekday, instants@, 0),
{
    let mut k: usize = 0;
    while k < instants.len()
        invariant
            k <= instants@.len() == 14,
            first_weekday < 7,
            first_run_from(schedule.days, after_ms, first_weekday, instants@, 0)
                == first_run_from(schedule.days, after_ms, first_weekday, instants@, k as int),
        decreases instants.len() - k,
    {
        let weekday: u32 = (first_weekday + k as u32) % 7;
        if day_matches(&schedule.days, weekday) {
            if let Some(candidate) = instants[k] {
                if candidate > after_ms {
                    return Some(candidate);
                }
            }
        }
        k = k + 1;
    }
    None
}

proof fn lemma_replace_concat(a: Seq<char>, b: Seq<char>, from: char, to: Seq<char>)
    ensures
        replace_char(a + b, from, to) == replace_char(a, from, to) + replace_char(b, from, to),
    decreases b.len(),
{
    if b.len() == 0 {
        assert(a + b =~= a);
        assert(replace_char(a, from, to) + replace_char(b, from, to) =~= replace_char(a, from, to));
    } else {
        lemma_replace_concat(a, b.drop_last(), from, to);
        assert((a + b).drop_last() =~= a + b.drop_last());
        assert((a + b).last() == b.last());
        let tail = if b.last() == from {
            to
        } else {
            seq![b.last()]
        };
        assert(replace_char(a, from, to) + replace_char(b, from, to) =~= replace_char(a, from, to)
            + replace_char(b.drop_last(), from, to) + tail);
    }
}

proof fn lemma_replace_absent(s: Seq<char>, from: char, to: Seq<char>)
    requires
        !s.contains(from),
    ensures
        replace_char(s, from, to) == s,
    decreases s.len(),
{
    if s.len() > 0 {
        assert(!s.drop_last().contains(from)) by {
            if s.drop_last().contains(from) {
                let i = choose|i: int| 0 <= i < s.drop_last().len() && s.drop_last()[i] == from;
                assert(s[i] == from);
            }
        }
        lemma_replace_absent(s.drop_last(), from, to);
        assert(s[s.len() - 1] != from);
        assert(s.drop_last() + seq![s.last()] =~= s);
    }
}

/// A text that ends with `pm`, spaces removed, still ends with `pm` and not
/// with `am`.
proof fn lemma_pm_suffix(value: Seq<char>)
    requires
        ends_with(value, "pm"@),
    ensures
        clock_and_suffix(value) == (replace_char(value, ' ', ""@).take(replace_char(value, ' ', ""@).len() - 2), 2int),
{
    reveal_strlit("pm");
    reveal_strlit("am");
    let pm = seq!['p', 'm'];
    assert("pm"@ =~= pm);
    let pre = value.take(value.len() - 2);
    assert(value =~= pre + pm);
    lemma_replace_concat(pre, pm, ' ', ""@);
    assert(!pm.contains(' ')) by {
        if pm.contains(' ') {
            let i = choose|i: int| 0 <= i < pm.len() && pm[i] == ' ';
        }
    }
    lemma_replace_absent(pm, ' ', ""@);
    let compact = replace_char(value, ' ', ""@);
    assert(compact == replace_char(pre, ' ', ""@) + pm);
    assert(compact.skip(compact.len() - 2) =~= pm);
    assert(!ends_with(compact, "am"@)) by {
        if ends_with(compact, "am"@) {
            assert(compact.skip(compact.len() - 2)[0] == 'a');
        }
    }
}

/// A `pm` time is never before noon: whatever precedes `pm`, a time that
/// parses has its hour between 12 and 23.
pub proof fn law_pm_time_is_after_noon(value: Seq<char>)
    requires
        ends_with(value, "pm"@),
    ensures
        time_of(value) matches Ok((hour, _)) ==> 12 <= hour < 24,
{
    lemma_pm_suffix(value);
}

/// The hours `1pm` to `12pm`: `12pm` is noon, hour 12, and any other `Hpm`
/// is hour `H + 12`, at minute 0.
pub proof fn law_pm_hours(digits: Seq<char>)
    requires
        digits.len() > 0,
        all_digits(digits),
        1 <= digits_value(digits) <= 12,
    ensures
        time_of(digits + "pm"@) == Ok::<(u32, u32), Seq<char>>(
            (
                if digits_value(digits) == 12 {
                    12u32
                } else {
                    (digits_value(digits) + 12) as u32
                },
                0u32,
            ),
        ),
{
    reveal_strlit("pm");
    let value = digits + "pm"@;
    assert(value.skip(value.len() - 2) =~= "pm"@);
    lemma_pm_suffix(value);
    assert(value.take(value.len() - 2) =~= digits);
    lemma_replace_concat(digits, "pm"@, ' ', ""@);
    assert(!digits.contains(' ')) by {
        if digits.contains(' ') {
            let i = choose|i: int| 0 <= i < digits.len() && digits[i] == ' ';
            assert(is_digit(digits[i]));
        }
    }
    lemma_replace_absent(digits, ' ', ""@);
    assert(!"pm"@.contains(' ')) by {
        if "pm"@.contains(' ') {
            let i = choose|i: int| 0 <= i < "pm"@.len() && "pm"@[i] == ' ';
        }
    }
    lemma_replace_absent("pm"@, ' ', ""@);
    let compact = replace_char(value, ' ', ""@);
    assert(compact == value);
    assert(compact.take(compact.len() - 2) =~= digits);
    assert(!digits.contains(':')) by {
        if digits.contains(':') {
            let i = choose|i: int| 0 <= i < digits.len() && digits[i] == ':';
            assert(is_digit(digits[i]));
        }
    }
    assert(clock_pieces(digits) == (digits, None::<Seq<char>>));
    assert(is_digit(digits[0]));
    assert(parse_unsigned(digits, u32::MAX as nat) == Some(digits_value(digits)));
}

/// A text that ends with `am`, spaces removed, still ends with `am`.
proof fn lemma_am_suffix(value: Seq<char>)
    requires
        ends_with(value, "am"@),
    ensures
        clock_and_suffix(value) == (replace_char(value, ' ', ""@).take(replace_char(value, ' ', ""@).len() - 2), 1int),
{
    reveal_strlit("am");
    let am = seq!['a', 'm'];
    assert("am"@ =~= am);
    let pre = value.take(value.len() - 2);
    assert(value =~= pre + am);
    lemma_replace_concat(pre, am, ' ', ""@);
    assert(!am.contains(' ')) by {
        if am.contains(' ') {
            let i = choose|i: int| 0 <= i < am.len() && am[i] == ' ';
        }
    }
    lemma_replace_absent(am, ' ', ""@);
    let compact = replace_char(value, ' ', ""@);
    assert(compact == replace_char(pre, ' ', ""@) + am);
    assert(compact.skip(compact.len() - 2) =~= am);
}

/// The hours `1am` to `12am`: `12am` is midnight, hour 0, and any other
/// `Ham` is hour `H`, at minute 0.
pub proof fn law_am_hours(digits: Seq<char>)
    requires
        digits.len() > 0,
        all_digits(digits),
        1 <= digits_value(digits) <= 12,
    ensures
        time_of(digits + "am"@) == Ok::<(u32, u32), Seq<char>>(
            (
                if digits_value(digits) == 12 {
                    0u32
                } else {
                    digits_value(digits) as u32
                },
                0u32,
            ),
        ),
{
    reveal_strlit("am");
    let value = digits + "am"@;
    assert(value.skip(value.len() - 2) =~= "am"@);
    lemma_am_suffix(value);
    assert(value.take(value.len() - 2) =~= digits);
    lemma_replace_concat(digits, "am"@, ' ', ""@);
    assert(!digits.contains(' ')) by {
        if digits.contains(' ') {
            let i = choose|i: int| 0 <= i < digits.len() && digits[i] == ' ';
            assert(is_digit(digits[i]));
        }
    }
    lemma_replace_absent(digits, ' ', ""@);
    assert(!"am"@.contains(' ')) by {
        if "am"@.contains(' ') {
            let i = choose|i: int| 0 <= i < "am"@.len() && "am"@[i] == ' ';
        }
    }
    lemma_replace_absent("am"@, ' ', ""@);
    let compact = replace_char(value, ' ', ""@);
    assert(compact == value);
    assert(compact.take(compact.len() - 2) =~= digits);
    assert(!digits.contains(':')) by {
        if digits.contains(':') {
            let i = choose|i: int| 0 <= i < digits.len() && digits[i] == ':';
            assert(is_digit(digits[i]));
        }
    }
    assert(clock_pieces(digits) == (digits, None::<Seq<char>>));
    assert(is_digit(digits[0]));
    assert(parse_unsigned(digits, u32::MAX as nat) == Some(digits_value(digits)));
}

} // verus!
