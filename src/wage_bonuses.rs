use vstd::prelude::*;

use chrono::{NaiveTime, Timelike, Weekday};

use crate::calendar::TimeOfDay;

verus! {

/// How the salary period is laid out in the calendar.
#[derive(Clone, Copy, Debug, PartialEq, Eq, Structural)]
pub enum Period {
    /// From `start_day` of one month to `end_day` of the next.
    Special { start_day: u32, end_day: u32 },
    /// From the first to the last day of a calendar month.
    Month,
}

impl Period {
    /// The first day of a special period; zero for a calendar month.
    pub fn start_day(&self) -> (r: u32)
        ensures
            r == (match *self {
                Period::Special { start_day, .. } => start_day,
                Period::Month => 0,
            }),
    {
        match self {
            Period::Special { start_day, .. } => *start_day,
            Period::Month => 0,
        }
    }

    /// A special period that starts on `start` and ends the day before it,
    /// for a first day from the 2nd to the 29th.
    pub fn special_from_start(start: u32) -> (r: Option<Period>)
        ensures
            r == (if 2 <= start <= 29 {
                Some(Period::Special { start_day: start, end_day: (start - 1) as u32 })
            } else {
                None
            }),
    {
        if 2 <= start && start <= 29 {
            Some(Period::Special { start_day: start, end_day: start - 1 })
        } else {
            None
        }
    }

    /// The last day of a special period.
    pub fn end_day(&self) -> (r: u32)
        requires
            self is Special,
        ensures
            r == self->end_day,
    {
        match self {
            Period::Special { end_day, .. } => *end_day,
            Period::Month => 0,
        }
    }
}

/// A malformed configuration value, named by the field that holds it.
#[derive(Clone, Debug, PartialEq, Eq)]
pub enum ConfigError {
    InvalidStartTime(String),
    InvalidEndTime(String),
}

/// What chrono's `NaiveTime::parse_from_str(s, "%H:%M")` yields, in seconds
/// since midnight.
pub uninterp spec fn parsed_hm(s: Seq<char>) -> Option<int>;

/// `c` is the lower-case ASCII letter `l` in either case.
pub open spec fn same_letter(c: char, l: char) -> bool {
    c == l || c as int + 32 == l as int
}

/// `s` spells `name`, ignoring ASCII case.
pub open spec fn names(s: Seq<char>, name: Seq<char>) -> bool {
    s.len() == name.len() && forall|i: int| 0 <= i < s.len() ==> same_letter(s[i], name[i])
}

/// The weekday an English day name stands for, counted from Monday: the
/// three-letter or the full name, in any case.
pub open spec fn parsed_weekday(s: Seq<char>) -> Option<int> {
    if names(s, seq!['m', 'o', 'n']) || names(s, seq!['m', 'o', 'n', 'd', 'a', 'y']) {
        Some(0)
    } else if names(s, seq!['t', 'u', 'e']) || names(s, seq!['t', 'u', 'e', 's', 'd', 'a', 'y']) {
        Some(1)
    } else if names(s, seq!['w', 'e', 'd']) || names(s, seq!['w', 'e', 'd', 'n', 'e', 's', 'd', 'a', 'y']) {
        Some(2)
    } else if names(s, seq!['t', 'h', 'u']) || names(s, seq!['t', 'h', 'u', 'r', 's', 'd', 'a', 'y']) {
        Some(3)
    } else if names(s, seq!['f', 'r', 'i']) || names(s, seq!['f', 'r', 'i', 'd', 'a', 'y']) {
        Some(4)
    } else if names(s, seq!['s', 'a', 't']) || names(s, seq!['s', 'a', 't', 'u', 'r', 'd', 'a', 'y']) {
        Some(5)
    } else if names(s, seq!['s', 'u', 'n']) || names(s, seq!['s', 'u', 'n', 'd', 'a', 'y']) {
        Some(6)
    } else {
        None
    }
}

/// Relies on chrono's NaiveTime::parse_from_str with the format `%H:%M`.
#[verifier::external_body]
fn parse_hm(s: &str) -> (r: Option<TimeOfDay>)
    ensures
        r matches Some(t) ==> parsed_hm(s@) == Some(t.seconds as int) && t.wf(),
        r is None ==> parsed_hm(s@) is None,
{
    NaiveTime::parse_from_str(s, "%H:%M").ok().map(
        |t| TimeOfDay { seconds: t.num_seconds_from_midnight() },
    )
}

/// Relies on chrono's `FromStr` for Weekday: the three-letter or the full
/// English name, ASCII case ignored, and nothing else.
#[verifier::external_body]
fn parse_weekday(s: &str) -> (r: Option<u8>)
    ensures
        r matches Some(w) ==> parsed_weekday(s@) == Some(w as int) && w < 7,
        r is None ==> parsed_weekday(s@) is None,
{
    s.parse::<Weekday>().ok().map(|w| w.num_days_from_monday() as u8)
}

/// The weekdays that a list of day names names, in order; names that do not
/// parse are left out.
pub open spec fn weekdays_of(names: Seq<String>) -> Seq<u8>
    decreases names.len(),
{
    if names.len() == 0 {
        seq![]
    } else {
        let rest = weekdays_of(names.drop_last());
        match parsed_weekday(names.last()@) {
            Some(w) => rest.push(w as u8),
            None => rest,
        }
    }
}

/// The day names of a list that do not parse, in order.
pub open spec fn unknown_days_of(names: Seq<String>) -> Seq<String>
    decreases names.len(),
{
    if names.len() == 0 {
        seq![]
    } else {
        let rest = unknown_days_of(names.drop_last());
        match parsed_weekday(names.last()@) {
            Some(_) => rest,
            None => rest.push(names.last()),
        }
    }
}

/// A bonus as configured: a rate (hundredths of the currency unit per hour),
/// a daily window written `HH:MM`, and optionally the weekdays it applies on.
#[derive(Clone, Debug)]
pub struct Bonus {
    pub bonus_pr_hour: i64,
    pub start: String,
    pub end: String,
    pub days: Option<Vec<String>>,
}

/// A bonus with its window and weekdays read: seconds since midnight, weekdays
/// counted from Monday.
#[derive(Clone, Debug)]
pub struct BonusRule {
    pub rate: i64,
    pub start: u32,
    pub end: u32,
    pub weekdays: Option<Vec<u8>>,
    /// Day names that were left out because they do not parse.
    pub unknown_days: Vec<String>,
}

impl BonusRule {
    pub open spec fn applies_on(self, wd: int) -> bool {
        match self.weekdays {
            Some(v) => v@.contains(wd as u8),
            None => false,
        }
    }
}

/// `r` is what bonus `b` says, read.
pub open spec fn rule_of(b: Bonus, r: BonusRule) -> bool {
    &&& Some(r.start as int) == parsed_hm(b.start@)
    &&& Some(r.end as int) == parsed_hm(b.end@)
    &&& r.rate == b.bonus_pr_hour
    &&& r.start < 86400
    &&& r.end < 86400
    &&& match b.days {
        None => r.weekdays is None && r.unknown_days@.len() == 0,
        Some(d) => r.weekdays matches Some(w) && w@ == weekdays_of(d@) && r.unknown_days@
            == unknown_days_of(d@),
    }
}

/// Both times of a bonus are written `HH:MM`.
pub open spec fn readable(b: Bonus) -> bool {
    parsed_hm(b.start@) is Some && parsed_hm(b.end@) is Some
}

/// `rules` reads each bonus of `bonuses`, in order.
pub open spec fn rules_of(bonuses: Seq<Bonus>, rules: Seq<BonusRule>) -> bool {
    rules.len() == bonuses.len() && forall|i: int| 0 <= i < rules.len() ==> rule_of(bonuses[i], rules[i])
}

fn read_rules(bonuses: &Vec<Bonus>) -> (r: Result<Vec<BonusRule>, ConfigError>)
    ensures
        r is Ok <==> forall|i: int| 0 <= i < bonuses@.len() ==> readable(#[trigger] bonuses@[i]),
        r matches Ok(v) ==> rules_of(bonuses@, v@),
{
    let mut out: Vec<BonusRule> = Vec::new();
    let mut i: usize = 0;
    while i < bonuses.len()
        invariant
            i <= bonuses@.len(),
            forall|k: int| 0 <= k < i ==> readable(#[trigger] bonuses@[k]),
            rules_of(bonuses@.take(i as int), out@),
        decreases bonuses@.len() - i,
    {
        match bonuses[i].rule() {
            Ok(rule) => out.push(rule),
            Err(e) => {
                assert(!readable(bonuses@[i as int]));
                return Err(e);
            },
        }
        assert(bonuses@.take(i as int + 1) == bonuses@.take(i as int).push(bonuses@[i as int]));
        i = i + 1;
    }
    assert(bonuses@.take(bonuses@.len() as int) == bonuses@);
    Ok(out)
}

impl Bonus {
    pub fn new(bonus_pr_hour: i64, start: String, end: String, days: Option<Vec<String>>) -> (r:
        Bonus)
        ensures
            r.bonus_pr_hour == bonus_pr_hour,
            r.start == start,
            r.end == end,
            r.days == days,
    {
        Bonus { bonus_pr_hour, start, end, days }
    }

    pub fn add_days(&mut self, days: Vec<String>)
        ensures
            final(self).days == Some(days),
            final(self).bonus_pr_hour == old(self).bonus_pr_hour,
            final(self).start == old(self).start,
            final(self).end == old(self).end,
    {
        self.days = Some(days);
    }

    /// The start of the daily window, if it is written `HH:MM`.
    pub fn start_time(&self) -> (r: Option<TimeOfDay>)
        ensures
            r matches Some(t) ==> parsed_hm(self.start@) == Some(t.seconds as int),
            r is None ==> parsed_hm(self.start@) is None,
    {
        parse_hm(self.start.as_str())
    }

    /// The end of the daily window, if it is written `HH:MM`.
    pub fn end_time(&self) -> (r: Option<TimeOfDay>)
        ensures
            r matches Some(t) ==> parsed_hm(self.end@) == Some(t.seconds as int),
            r is None ==> parsed_hm(self.end@) is None,
    {
        parse_hm(self.end.as_str())
    }

    pub fn bonus_pr_hour(&self) -> (r: i64)
        ensures
            r == self.bonus_pr_hour,
    {
        self.bonus_pr_hour
    }

    pub fn days(&self) -> (r: &Option<Vec<String>>)
        ensures
            r == &self.days,
    {
        &self.days
    }

    /// The rule this bonus stands for, or which of its times is malformed.
    /// Day names that do not parse are dropped.
    pub fn rule(&self) -> (r: Result<BonusRule, ConfigError>)
        ensures
            parsed_hm(self.start@) is None <==> r == Err::<BonusRule, ConfigError>(
                ConfigError::InvalidStartTime(self.start),
            ),
            parsed_hm(self.start@) is Some && parsed_hm(self.end@) is None <==> r == Err::<
                BonusRule,
                ConfigError,
            >(ConfigError::InvalidEndTime(self.end)),
            r is Ok <==> readable(*self),
            r matches Ok(rule) ==> rule_of(*self, rule),
    {
        let s = match parse_hm(self.start.as_str()) {
            Some(t) => t,
            None => { return Err(ConfigError::InvalidStartTime(self.start.clone())); },
        };
        let e = match parse_hm(self.end.as_str()) {
            Some(t) => t,
            None => { return Err(ConfigError::InvalidEndTime(self.end.clone())); },
        };
        let mut unknown_days: Vec<String> = Vec::new();
        let weekdays = match &self.days {
            None => None,
            Some(names) => {
                let mut w: Vec<u8> = Vec::new();
                let mut i: usize = 0;
                while i < names.len()
                    invariant
                        i <= names.len(),
                        w@ == weekdays_of(names@.take(i as int)),
                        unknown_days@ == unknown_days_of(names@.take(i as int)),
                    decreases names.len() - i,
                {
                    assert(names@.take(i as int + 1).drop_last() == names@.take(i as int));
                    match parse_weekday(names[i].as_str()) {
                        Some(d) => w.push(d),
                        None => unknown_days.push(names[i].clone()),
                    }
                    i = i + 1;
                }
                assert(names@.take(names.len() as int) == names@);
                Some(w)
            },
        };
        Ok(BonusRule { rate: self.bonus_pr_hour, start: s.seconds, end: e.seconds, weekdays, unknown_days })
    }
}

/// The wage configuration: base rate, period layout, and the two kinds of bonus.
#[derive(Clone, Debug)]
pub struct WageAndBonuses {
    pub base_rate: i64,
    pub period: Period,
    pub general_time_periods: Vec<Bonus>,
    pub day_of_week_rates: Vec<Bonus>,
}

/// The configuration with every bonus read into a rule.
#[derive(Clone, Debug)]
pub struct WageRules {
    pub base_rate: i64,
    pub general: Vec<BonusRule>,
    pub weekday: Vec<BonusRule>,
}

impl WageRules {
    pub open spec fn wf(self) -> bool {
        (forall|i: int| 0 <= i < self.general@.len() ==> self.general@[i].start < 86400
            && self.general@[i].end < 86400) && (forall|i: int|
            0 <= i < self.weekday@.len() ==> self.weekday@[i].start < 86400
                && self.weekday@[i].end < 86400)
    }
}

impl WageAndBonuses {
    pub fn new(
        base_rate: i64,
        period: Period,
        general_time_periods: Vec<Bonus>,
        day_of_week_rates: Vec<Bonus>,
    ) -> (r: WageAndBonuses)
        ensures
            r.base_rate == base_rate,
            r.period == period,
            r.general_time_periods == general_time_periods,
            r.day_of_week_rates == day_of_week_rates,
    {
        WageAndBonuses { base_rate, period, general_time_periods, day_of_week_rates }
    }

    pub fn period(&self) -> (r: &Period)
        ensures
            *r == self.period,
    {
        &self.period
    }

    pub fn base_rate(&self) -> (r: i64)
        ensures
            r == self.base_rate,
    {
        self.base_rate
    }

    pub fn general_time_periods(&self) -> (r: &Vec<Bonus>)
        ensures
            r == &self.general_time_periods,
    {
        &self.general_time_periods
    }

    pub fn day_of_week_rates(&self) -> (r: &Vec<Bonus>)
        ensures
            r == &self.day_of_week_rates,
    {
        &self.day_of_week_rates
    }

    /// Every bonus read into a rule, or the first malformed time.
    pub fn rules(&self) -> (r: Result<WageRules, ConfigError>)
        ensures
            r is Ok <==> (forall|i: int| 0 <= i < self.general_time_periods@.len() ==> readable(#[trigger] self.general_time_periods@[i]))
                && (forall|i: int| 0 <= i < self.day_of_week_rates@.len() ==> readable(#[trigger] self.day_of_week_rates@[i])),
            r matches Ok(w) ==> w.wf() && w.base_rate == self.base_rate
                && rules_of(self.general_time_periods@, w.general@)
                && rules_of(self.day_of_week_rates@, w.weekday@),
    {
        let general = read_rules(&self.general_time_periods)?;
        let weekday = read_rules(&self.day_of_week_rates)?;
        Ok(WageRules { base_rate: self.base_rate, general, weekday })
    }
}

} // verus!
