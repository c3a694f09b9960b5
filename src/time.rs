use vstd::prelude::*;
use vstd::string::StringExecFns;

use chrono::{Datelike, NaiveDate, NaiveDateTime, NaiveTime, TimeDelta, Timelike};

use crate::calendar::{
    add_months, day_number, days_in_month, shift_months, sub_months, ymd_exists, valid_ymd, MIN_YEAR, MAX_YEAR, days_in_month_spec, seconds_between, Date, DateTime, TimeOfDay,
};
use crate::wage_bonuses::{Period, WageAndBonuses};
use vstd::arithmetic::div_mod::lemma_fundamental_div_mod_converse;

verus! {

/// The salary period: from `start` to `end`, both included.
#[derive(Clone, Copy, Debug, PartialEq, Eq, Structural)]
pub struct SaleryPeriod {
    pub start: DateTime,
    pub end: DateTime,
}

impl SaleryPeriod {
    pub fn new(start: DateTime, end: DateTime) -> (r: SaleryPeriod)
        ensures
            r.start == start,
            r.end == end,
    {
        SaleryPeriod { start, end }
    }

    pub fn start(&self) -> (r: DateTime)
        ensures
            r == self.start,
    {
        self.start
    }

    pub fn end(&self) -> (r: DateTime)
        ensures
            r == self.end,
    {
        self.end
    }
}

/// The wall-clock length of a shift, in seconds.
pub fn calculate_shift_time(shift_start: DateTime, shift_end: DateTime) -> (r: i64)
    requires
        shift_start.wf(),
        shift_end.wf(),
    ensures
        r == shift_start.seconds_until(shift_end),
{
    seconds_between(&shift_start, &shift_end)
}

/// Why no salary period could be laid out.
#[derive(Clone, Copy, Debug, PartialEq, Eq, Structural)]
pub enum PeriodError {
    /// The configured first day does not exist in the month.
    InvalidStartDay(u32),
    /// The configured last day does not exist in the month.
    InvalidEndDay(u32),
    /// The period would leave the calendar's range.
    OutOfRange,
}

/// A period from the start of one date to 23:59 of another.
pub open spec fn days_period(first: Date, last: Date) -> SaleryPeriod {
    SaleryPeriod {
        start: DateTime { date: first, time: TimeOfDay { seconds: 0 } },
        end: DateTime { date: last, time: TimeOfDay { seconds: 86340 } },
    }
}

/// The salary period that holds `today`.
pub open spec fn current_period(p: Period, today: Date) -> Result<SaleryPeriod, PeriodError> {
    let y = today.year;
    let m = today.month;
    match p {
        Period::Month => Ok(
            days_period(
                Date { year: y, month: m, day: 1 },
                Date { year: y, month: m, day: days_in_month_spec(y as int, m as int) as u32 },
            ),
        ),
        Period::Special { start_day, end_day } => {
            let end = Date { year: y, month: m, day: end_day };
            let start = Date { year: y, month: m, day: start_day };
            if !valid_ymd(y as int, m as int, end_day as int) {
                Err(PeriodError::InvalidEndDay(end_day))
            } else if !valid_ymd(y as int, m as int, start_day as int) {
                Err(PeriodError::InvalidStartDay(start_day))
            } else {
                match shift_months(start, -1) {
                    None => Err(PeriodError::OutOfRange),
                    Some(prev) => if today.later_than(end) {
                        match (shift_months(end, 1), shift_months(prev, 1)) {
                            (Some(e), Some(s)) => Ok(days_period(s, e)),
                            _ => Err(PeriodError::OutOfRange),
                        }
                    } else {
                        Ok(days_period(prev, end))
                    },
                }
            }
        },
    }
}

/// The salary period `offset` periods before the one that holds `today`.
pub open spec fn offset_period(p: Period, today: Date, offset: int) -> Result<SaleryPeriod, PeriodError> {
    match current_period(p, today) {
        Err(e) => Err(e),
        Ok(c) => if offset > i32::MAX {
            Err(PeriodError::OutOfRange)
        } else {
            match (shift_months(c.start.date, -offset), shift_months(c.end.date, -offset)) {
                (Some(s), Some(e)) => Ok(
                    SaleryPeriod {
                        start: DateTime { date: s, time: c.start.time },
                        end: DateTime { date: e, time: c.end.time },
                    },
                ),
                _ => Err(PeriodError::OutOfRange),
            }
        },
    }
}

/// A date moved by whole months is again a valid date.
pub proof fn lemma_shift_months_wf(d: Date, k: int)
    requires
        d.wf(),
    ensures
        shift_months(d, k) matches Some(r) ==> r.wf(),
{
    if k != 0 {
        let t = d.year * 12 + d.month - 1 + k;
        assert(0 <= t % 12 < 12);
    }
}

/// The salary period that holds `today`.
pub fn current_salery_period(wage_bonuses: &WageAndBonuses, today: Date) -> (r: Result<
    SaleryPeriod,
    PeriodError,
>)
    requires
        today.wf(),
    ensures
        r == current_period(wage_bonuses.period, today),
        r matches Ok(p) ==> p.start.wf() && p.end.wf(),
{
    let y = today.year;
    let m = today.month;
    match wage_bonuses.period() {
        Period::Month => {
            let last = days_in_month(y, m);
            Ok(
                SaleryPeriod::new(
                    DateTime { date: Date { year: y, month: m, day: 1 }, time: TimeOfDay::from_hms(0, 0, 0) },
                    DateTime { date: Date { year: y, month: m, day: last }, time: TimeOfDay::from_hms(23, 59, 0) },
                ),
            )
        },
        Period::Special { start_day, end_day } => {
            let start_day = *start_day;
            let end_day = *end_day;
            if !ymd_exists(y, m, end_day) {
                return Err(PeriodError::InvalidEndDay(end_day));
            }
            if !ymd_exists(y, m, start_day) {
                return Err(PeriodError::InvalidStartDay(start_day));
            }
            let end = Date { year: y, month: m, day: end_day };
            let prev = match sub_months(Date { year: y, month: m, day: start_day }, 1) {
                Some(d) => d,
                None => { return Err(PeriodError::OutOfRange); },
            };
            proof {
                lemma_shift_months_wf(Date { year: y, month: m, day: start_day }, -1);
            }
            let (first, last) = if today.is_after(&end) {
                let e = match add_months(end, 1) {
                    Some(d) => d,
                    None => { return Err(PeriodError::OutOfRange); },
                };
                let s = match add_months(prev, 1) {
                    Some(d) => d,
                    None => { return Err(PeriodError::OutOfRange); },
                };
                proof {
                    lemma_shift_months_wf(end, 1);
                    lemma_shift_months_wf(prev, 1);
                }
                (s, e)
            } else {
                (prev, end)
            };
            Ok(
                SaleryPeriod::new(
                    DateTime { date: first, time: TimeOfDay::from_hms(0, 0, 0) },
                    DateTime { date: last, time: TimeOfDay::from_hms(23, 59, 0) },
                ),
            )
        },
    }
}

/// The salary period `offset` periods before the one that holds `today`:
/// both ends of the current period moved back `offset` calendar months.
pub fn salery_period_from_offset(wage_bonuses: &WageAndBonuses, today: Date, offset: u32) -> (r:
    Result<SaleryPeriod, PeriodError>)
    requires
        today.wf(),
    ensures
        r == offset_period(wage_bonuses.period, today, offset as int),
{
    let salery_period = current_salery_period(wage_bonuses, today)?;
    let start = match sub_months(salery_period.start.date, offset) {
        Some(d) => d,
        None => { return Err(PeriodError::OutOfRange); },
    };
    let end = match sub_months(salery_period.end.date, offset) {
        Some(d) => d,
        None => { return Err(PeriodError::OutOfRange); },
    };
    Ok(
        SaleryPeriod::new(
            DateTime { date: start, time: salery_period.start.time },
            DateTime { date: end, time: salery_period.end.time },
        ),
    )
}

/// Month arithmetic on a date inside the calendar's range, spelled out.
proof fn lemma_month_index(y: int, i: int)
    requires
        0 <= i < 12,
    ensures
        (y * 12 + i) / 12 == y,
        (y * 12 + i) % 12 == i,
{
    lemma_fundamental_div_mod_converse(y * 12 + i, 12, y, i);
}

/// A period that starts on the 15th and ends on the 14th: when today is the
/// 20th it runs from the 15th of this month to the 14th of the next; when
/// today is the 10th, from the 15th of the previous month to the 14th of this.
pub proof fn lemma_period_roll_over(today: Date)
    requires
        today.wf(),
        MIN_YEAR < today.year < MAX_YEAR,
        today.day == 20 || today.day == 10,
    ensures
        ({
            let y = today.year;
            let m = today.month;
            let next = if m == 12 { Date { year: (y + 1) as i32, month: 1, day: 14 } } else { Date { year: y, month: (m + 1) as u32, day: 14 } };
            let prev = if m == 1 { Date { year: (y - 1) as i32, month: 12, day: 15 } } else { Date { year: y, month: (m - 1) as u32, day: 15 } };
            let p = current_period(Period::Special { start_day: 15, end_day: 14 }, today);
            &&& today.day == 20 ==> p == Ok::<SaleryPeriod, PeriodError>(days_period(Date { year: y, month: m, day: 15 }, next))
            &&& today.day == 10 ==> p == Ok::<SaleryPeriod, PeriodError>(days_period(prev, Date { year: y, month: m, day: 14 }))
        }),
{
    let y = today.year as int;
    let m = today.month as int;
    if m == 1 {
        lemma_month_index(y - 1, 11);
        assert(y * 12 + 1 - 1 - 1 == (y - 1) * 12 + 11);
    } else {
        lemma_month_index(y, m - 2);
    }
    lemma_month_index(y, m - 1);
    if m == 12 {
        lemma_month_index(y + 1, 0);
        assert(y * 12 + 12 - 1 + 1 == (y + 1) * 12 + 0);
    } else {
        lemma_month_index(y, m);
    }
}

/// For every offset, the start of the period `offset` periods back is the start
/// of the current period moved back exactly `offset` calendar months.
pub proof fn lemma_offset_moves_start_back(p: Period, today: Date, offset: nat)
    requires
        today.wf(),
    ensures
        offset_period(p, today, offset as int) matches Ok(q) ==> (offset_period(p, today, 0) matches Ok(c)
            && shift_months(c.start.date, -(offset as int)) == Some(q.start.date)
            && q.start.time == c.start.time),
{
}

/// What chrono's `NaiveDateTime::parse_from_str(s, fmt)` yields: year, month,
/// day and seconds since midnight.
pub uninterp spec fn parsed_datetime(s: Seq<char>, fmt: Seq<char>) -> Option<(i32, u32, u32, u32)>;

pub open spec fn digit_char(n: int) -> char {
    if n == 0 { '0' } else if n == 1 { '1' } else if n == 2 { '2' } else if n == 3 { '3' }
    else if n == 4 { '4' } else if n == 5 { '5' } else if n == 6 { '6' } else if n == 7 { '7' }
    else if n == 8 { '8' } else { '9' }
}

pub open spec fn digits(n: nat) -> Seq<char>
    decreases n,
{
    if n < 10 { seq![digit_char(n as int)] } else { digits(n / 10).push(digit_char((n % 10) as int)) }
}

/// An integer written in decimal, with a leading minus when negative.
pub open spec fn decimal(i: int) -> Seq<char> {
    if i < 0 { seq!['-'] + digits((-i) as nat) } else { digits(i as nat) }
}

/// Relies on chrono's NaiveDateTime::parse_from_str; the error is chrono's message.
#[verifier::external_body]
fn parse_datetime(s: &str, fmt: &str) -> (r: Result<DateTime, String>)
    ensures
        r matches Ok(d) ==> d.wf() && parsed_datetime(s@, fmt@) == Some(
            (d.date.year, d.date.month, d.date.day, d.time.seconds),
        ),
        r is Err ==> parsed_datetime(s@, fmt@) is None,
{
    match NaiveDateTime::parse_from_str(s, fmt) {
        Ok(t) => Ok(DateTime {
            date: Date { year: t.year(), month: t.month(), day: t.day() },
            time: TimeOfDay { seconds: t.num_seconds_from_midnight() },
        }),
        Err(e) => Err(e.to_string()),
    }
}

/// Relies on std's `ToString` for `i32`: its decimal form.
#[verifier::external_body]
fn decimal_text(year: i32) -> (r: String)
    ensures
        r@ == decimal(year as int),
{
    year.to_string()
}

/// One failed attempt at reading a date and time.
#[derive(Clone, Debug)]
pub struct ParseFailure {
    pub input: String,
    pub format: String,
    pub reason: String,
}

/// `f` reports that format number `k` did not read `input`.
pub open spec fn reports(f: ParseFailure, input: Seq<char>, k: int) -> bool {
    f.input@ == input && f.format@ == datetime_formats()[k]
}

/// The formats tried, in order of preference.
pub open spec fn datetime_formats() -> Seq<Seq<char>> {
    seq![
        "%d-%m-%Y %H:%M"@,
        "%Y-%d-%m %H:%M"@,
        "%d-%m-%Y %H:%M:%s"@,
        "%Y-%d-%m %H:%M:%s"@,
        "%Y-%m-%d %H:%M"@,
        "%Y-%m-%d %H:%M:%S"@,
    ]
}

/// The reading of `s` by the first of `fmts` that accepts it.
pub open spec fn first_reading(s: Seq<char>, fmts: Seq<Seq<char>>) -> Option<(i32, u32, u32, u32)>
    decreases fmts.len(),
{
    if fmts.len() == 0 {
        None
    } else {
        match first_reading(s, fmts.drop_last()) {
            Some(x) => Some(x),
            None => parsed_datetime(s, fmts.last()),
        }
    }
}

/// The reading of `s` by the preferred formats, and failing that, of `s` with
/// the current year put in front.
pub open spec fn datetime_reading(s: Seq<char>, year: int) -> Option<(i32, u32, u32, u32)> {
    match first_reading(s, datetime_formats()) {
        Some(x) => Some(x),
        None => first_reading(decimal(year) + seq!['-'] + s, datetime_formats()),
    }
}

fn formats() -> (r: Vec<&'static str>)
    ensures
        r@.len() == datetime_formats().len(),
        forall|i: int| 0 <= i < r@.len() ==> r@[i]@ == #[trigger] datetime_formats()[i],
{
    let v = vec![
        "%d-%m-%Y %H:%M",
        "%Y-%d-%m %H:%M",
        "%d-%m-%Y %H:%M:%s",
        "%Y-%d-%m %H:%M:%s",
        "%Y-%m-%d %H:%M",
        "%Y-%m-%d %H:%M:%S",
    ];
    v
}

fn try_formats(input: &str, errors: &mut Vec<ParseFailure>) -> (r: Option<DateTime>)
    ensures
        r matches Some(d) ==> d.wf() && first_reading(input@, datetime_formats()) == Some(
            (d.date.year, d.date.month, d.date.day, d.time.seconds),
        ),
        r is None ==> first_reading(input@, datetime_formats()) is None,
        r is None ==> final(errors)@.len() == old(errors)@.len() + 6,
        final(errors)@.len() >= old(errors)@.len(),
        forall|k: int| 0 <= k < old(errors)@.len() ==> final(errors)@[k] == old(errors)@[k],
        r is None ==> forall|k: int|
            0 <= k < 6 ==> reports(#[trigger] final(errors)@[old(errors)@.len() + k], input@, k),
{
    let fmts = formats();
    let mut i: usize = 0;
    while i < fmts.len()
        invariant
            i <= fmts@.len(),
            fmts@.len() == datetime_formats().len(),
            forall|k: int| 0 <= k < fmts@.len() ==> fmts@[k]@ == #[trigger] datetime_formats()[k],
            first_reading(input@, datetime_formats().take(i as int)) is None,
            errors@.len() == old(errors)@.len() + i,
            forall|k: int| 0 <= k < old(errors)@.len() ==> errors@[k] == old(errors)@[k],
            forall|k: int|
                0 <= k < i ==> reports(#[trigger] errors@[old(errors)@.len() + k], input@, k),
        decreases fmts@.len() - i,
    {
        assert(datetime_formats().take(i as int + 1).drop_last() == datetime_formats().take(i as int));
        assert(fmts@[i as int]@ == datetime_formats()[i as int]);
        match parse_datetime(input, fmts[i]) {
            Ok(d) => {
                proof {
                    lemma_first_reading_prefix(input@, datetime_formats(), i as int + 1);
                }
                return Some(d);
            },
            Err(reason) => {
                errors.push(ParseFailure { input: input.to_owned(), format: fmts[i].to_owned(), reason });
            },
        }
        i = i + 1;
    }
    assert(datetime_formats().take(fmts@.len() as int) == datetime_formats());
    None
}

/// Once a prefix of the formats accepts the input, so do all of them, alike.
proof fn lemma_first_reading_prefix(s: Seq<char>, fmts: Seq<Seq<char>>, k: int)
    requires
        0 <= k <= fmts.len(),
        first_reading(s, fmts.take(k)) is Some,
    ensures
        first_reading(s, fmts) == first_reading(s, fmts.take(k)),
    decreases fmts.len() - k,
{
    if k < fmts.len() {
        assert(fmts.take(k + 1).drop_last() == fmts.take(k));
        lemma_first_reading_prefix(s, fmts, k + 1);
    } else {
        assert(fmts.take(k) == fmts);
    }
}

/// Reads a date and time in the first of the accepted formats that fits; when
/// none does, tries again with `current_year` put in front. On failure every
/// attempt is reported.
pub fn parse_naivedatetime_from_str(date_time: &str, current_year: i32) -> (r: Result<
    DateTime,
    Vec<ParseFailure>,
>)
    ensures
        r matches Ok(d) ==> d.wf() && datetime_reading(date_time@, current_year as int) == Some(
            (d.date.year, d.date.month, d.date.day, d.time.seconds),
        ),
        r is Err <==> datetime_reading(date_time@, current_year as int) is None,
        r matches Err(e) ==> e@.len() == 12 && forall|k: int|
            0 <= k < 6 ==> reports(#[trigger] e@[k], date_time@, k) && reports(
                e@[k + 6],
                decimal(current_year as int) + seq!['-'] + date_time@,
                k,
            ),
{
    let mut errors: Vec<ParseFailure> = Vec::new();
    match try_formats(date_time, &mut errors) {
        Some(d) => { return Ok(d); },
        None => {},
    }
    let ghost first = errors@;
    let mut input = decimal_text(current_year);
    input.append("-");
    input.append(date_time);
    proof {
        reveal_strlit("-");
    }
    assert(input@ == decimal(current_year as int) + seq!['-'] + date_time@);
    match try_formats(input.as_str(), &mut errors) {
        Some(d) => Ok(d),
        None => {
            assert forall|k: int| 0 <= k < 6 implies reports(errors@[k], date_time@, k) && reports(
                errors@[k + 6],
                input@,
                k,
            ) by {
                assert(reports(first[0 + k], date_time@, k));
                assert(errors@[k] == first[k]);
                assert(reports(errors@[6 + k], input@, k));
            }
            Err(errors)
        },
    }
}

/// The largest number of seconds a chrono `TimeDelta` holds.
pub const MAX_DELTA_SECONDS: i64 = 9223372036854775;

/// Relies on chrono's NaiveDateTime::checked_sub_signed, with the minutes made
/// into a `TimeDelta` by `TimeDelta::try_minutes`. `None` comes only when the
/// minutes do not fit a `TimeDelta` or no date-time of the calendar lies that
/// far before `d`.
#[verifier::external_body]
fn minus_minutes(d: &DateTime, minutes: i64) -> (r: Option<DateTime>)
    requires
        d.wf(),
    ensures
        r matches Some(x) ==> x.wf() && (day_number(
            d.date.year as int,
            d.date.month as int,
            d.date.day as int,
        ) - day_number(x.date.year as int, x.date.month as int, x.date.day as int)) * 86400
            + d.time.seconds - x.time.seconds == minutes * 60,
        r is None && -MAX_DELTA_SECONDS <= minutes * 60 <= MAX_DELTA_SECONDS ==> !exists|x: DateTime|
            x.wf() && #[trigger] x.seconds_until(*d) == minutes * 60,
{
    let t = NaiveDateTime::new(
        NaiveDate::from_ymd_opt(d.date.year, d.date.month, d.date.day).unwrap(),
        NaiveTime::from_num_seconds_from_midnight_opt(d.time.seconds, 0).unwrap(),
    );
    t.checked_sub_signed(TimeDelta::try_minutes(minutes)?).map(|x| DateTime {
        date: Date { year: x.year(), month: x.month(), day: x.day() },
        time: TimeOfDay { seconds: x.num_seconds_from_midnight() },
    })
}

/// Why a shift could not be recorded.
#[derive(Clone, Copy, Debug, PartialEq, Eq, Structural)]
pub enum RecordError {
    /// The shift does not end after it starts.
    EndNotAfterStart,
    /// Once the break is taken off, the shift no longer ends after it starts.
    BreakTooLong,
    /// The break moves the end out of the calendar's range.
    BreakOutOfRange,
}

/// The end of a shift to be recorded: its given end, less the break in whole
/// minutes, if any. The shift must end after it starts, before and after the
/// break is taken off.
pub fn shift_end_after_break(start: DateTime, end: DateTime, break_duration: Option<i64>) -> (r:
    Result<DateTime, RecordError>)
    requires
        start.wf(),
        end.wf(),
    ensures
        r == Err::<DateTime, RecordError>(RecordError::EndNotAfterStart) <==> !start.before(end),
        start.before(end) && break_duration is None ==> r == Ok::<DateTime, RecordError>(end),
        r matches Ok(x) ==> x.wf() && start.before(x) && (break_duration matches Some(m)
            ==> x.seconds_until(end) == m * 60),
        r == Err::<DateTime, RecordError>(RecordError::BreakTooLong) ==> (break_duration matches Some(m)
            && exists|x: DateTime| x.wf() && x.seconds_until(end) == m * 60 && !start.before(x)),
        r == Err::<DateTime, RecordError>(RecordError::BreakOutOfRange) ==> (break_duration matches Some(m)
            && (m * 60 < -MAX_DELTA_SECONDS || m * 60 > MAX_DELTA_SECONDS || !exists|x: DateTime|
            x.wf() && #[trigger] x.seconds_until(end) == m * 60)),
{
    if !start.is_before(&end) {
        return Err(RecordError::EndNotAfterStart);
    }
    match break_duration {
        None => Ok(end),
        Some(m) => match minus_minutes(&end, m) {
            Some(x) => {
                if start.is_before(&x) {
                    Ok(x)
                } else {
                    Err(RecordError::BreakTooLong)
                }
            },
            None => Err(RecordError::BreakOutOfRange),
        },
    }
}

} // verus!
