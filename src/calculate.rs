use vstd::prelude::*;

use crate::calendar::{weekday, Date, DateTime, TimeOfDay};
use crate::time::{calculate_shift_time, SaleryPeriod};
use crate::wage_bonuses::{BonusRule, WageRules};

verus! {

/// Time worked at one rate: seconds, and hundredths of the currency unit per hour.
#[derive(Clone, Copy, Debug, PartialEq, Eq, Structural)]
pub struct SaleryEntry {
    pub duration: u32,
    pub bonus_pr_hour: i64,
}

/// A recorded shift.
#[derive(Clone, Copy, Debug, PartialEq, Eq, Structural)]
pub struct Shift {
    pub start: DateTime,
    pub end: DateTime,
}

impl Shift {
    pub open spec fn wf(self) -> bool {
        self.start.wf() && self.end.wf() && self.start.before(self.end)
    }

    /// Whether the shift overlaps the period at all.
    pub open spec fn overlaps(self, p: SaleryPeriod) -> bool {
        self.start.not_after(p.end) && p.start.before(self.end)
    }
}

/// The entry for the part of `[s, e]` inside a rule's daily window, if any.
pub open spec fn overlap_entry(rule: BonusRule, s: int, e: int) -> Option<SaleryEntry> {
    let b = if s > rule.start { s } else { rule.start as int };
    let en = if e < rule.end { e } else { rule.end as int };
    if en > b {
        Some(SaleryEntry { duration: (en - b) as u32, bonus_pr_hour: rule.rate })
    } else {
        None
    }
}

/// Entries of the general bonuses for a same-day span `[s, e]`.
pub open spec fn general_entries(rules: Seq<BonusRule>, s: int, e: int) -> Seq<SaleryEntry>
    decreases rules.len(),
{
    if rules.len() == 0 {
        seq![]
    } else {
        let rest = general_entries(rules.drop_last(), s, e);
        match overlap_entry(rules.last(), s, e) {
            Some(x) => rest.push(x),
            None => rest,
        }
    }
}

/// Entries of the weekday bonuses that apply on weekday `wd`.
pub open spec fn weekday_entries(rules: Seq<BonusRule>, wd: int, s: int, e: int) -> Seq<
    SaleryEntry,
>
    decreases rules.len(),
{
    if rules.len() == 0 {
        seq![]
    } else {
        let rest = weekday_entries(rules.drop_last(), wd, s, e);
        if rules.last().applies_on(wd) {
            match overlap_entry(rules.last(), s, e) {
                Some(x) => rest.push(x),
                None => rest,
            }
        } else {
            rest
        }
    }
}

/// All entries of a same-day span: bonuses first, then the whole span at base rate.
pub open spec fn span_entries(w: WageRules, wd: int, s: int, e: int) -> Seq<SaleryEntry> {
    general_entries(w.general@, s, e) + weekday_entries(w.weekday@, wd, s, e) + seq![
        SaleryEntry { duration: (e - s) as u32, bonus_pr_hour: w.base_rate },
    ]
}

/// Seconds in a day: the exclusive end of the part of a shift before midnight.
pub open spec fn end_of_day() -> int {
    86400
}

/// The entries of one shift in a period: a shift across midnight is cut in
/// two at midnight, the part before midnight kept only if it starts inside the period and
/// the part after only if it ends inside it.
pub open spec fn shift_entries(w: WageRules, sh: Shift, p: SaleryPeriod) -> Seq<SaleryEntry> {
    if sh.start.date != sh.end.date {
        (if p.start.not_after(sh.start) {
            span_entries(w, sh.start.date.weekday(), sh.start.time.seconds as int, end_of_day())
        } else {
            seq![]
        }) + (if sh.end.not_after(p.end) {
            span_entries(w, sh.end.date.weekday(), 0, sh.end.time.seconds as int)
        } else {
            seq![]
        })
    } else {
        span_entries(w, sh.start.date.weekday(), sh.start.time.seconds as int, sh.end.time.seconds as int)
    }
}

/// The entries of every shift that overlaps the period, in order.
pub open spec fn period_entries(w: WageRules, shifts: Seq<Shift>, p: SaleryPeriod) -> Seq<
    SaleryEntry,
>
    decreases shifts.len(),
{
    if shifts.len() == 0 {
        seq![]
    } else {
        let rest = period_entries(w, shifts.drop_last(), p);
        if shifts.last().overlaps(p) {
            rest + shift_entries(w, shifts.last(), p)
        } else {
            rest
        }
    }
}

/// What an entry earns: whole minutes times the hourly rate, in hundredths
/// of the currency unit times sixty.
pub open spec fn entry_value(x: SaleryEntry) -> int {
    (x.duration as int / 60) * x.bonus_pr_hour
}

pub open spec fn earned(s: Seq<SaleryEntry>) -> int
    decreases s.len(),
{
    if s.len() == 0 {
        0
    } else {
        earned(s.drop_last()) + entry_value(s.last())
    }
}

/// Every running total of the entries fits in an `i128`.
pub open spec fn sums_fit(s: Seq<SaleryEntry>) -> bool {
    forall|k: int| 0 < k <= s.len() ==> i128::MIN <= #[trigger] earned(s.take(k)) <= i128::MAX
}

/// Total seconds worked in shifts that overlap the period.
pub open spec fn worked(shifts: Seq<Shift>, p: SaleryPeriod) -> int
    decreases shifts.len(),
{
    if shifts.len() == 0 {
        0
    } else {
        worked(shifts.drop_last(), p) + if shifts.last().overlaps(p) {
            shifts.last().start.seconds_until(shifts.last().end)
        } else {
            0
        }
    }
}

pub open spec fn all_wf(shifts: Seq<Shift>) -> bool {
    forall|i: int| 0 <= i < shifts.len() ==> (#[trigger] shifts[i]).wf()
}

fn overlap(rule: &BonusRule, s: u32, e: u32) -> (r: Option<SaleryEntry>)
    requires
        s <= 86400,
        e <= 86400,
        rule.start < 86400,
        rule.end < 86400,
    ensures
        r == overlap_entry(*rule, s as int, e as int),
{
    let b = if s > rule.start { s } else { rule.start };
    let en = if e < rule.end { e } else { rule.end };
    if en > b {
        Some(SaleryEntry { duration: en - b, bonus_pr_hour: rule.rate })
    } else {
        None
    }
}

/// The entries of a shift that starts and ends on one day: one for each bonus
/// window it overlaps, then the whole shift at base rate.
pub fn salery_entries_from_shift(
    wage_and_bonus: &WageRules,
    shift_start: DateTime,
    shift_end: DateTime,
) -> (r: Vec<SaleryEntry>)
    requires
        wage_and_bonus.wf(),
        shift_start.wf(),
        shift_end.wf(),
        shift_start.date == shift_end.date,
        shift_start.time.seconds <= shift_end.time.seconds,
    ensures
        r@ == span_entries(
            *wage_and_bonus,
            shift_start.date.weekday(),
            shift_start.time.seconds as int,
            shift_end.time.seconds as int,
        ),
{
    span_salery_entries(wage_and_bonus, &shift_start.date, shift_start.time.seconds, shift_end.time.seconds)
}

/// The entries of the span from `s` to `e` seconds after midnight of `date`;
/// `e` may be the end of the day.
fn span_salery_entries(wage_and_bonus: &WageRules, date: &Date, s: u32, e: u32) -> (r: Vec<SaleryEntry>)
    requires
        wage_and_bonus.wf(),
        date.wf(),
        s <= e <= 86400,
    ensures
        r@ == span_entries(*wage_and_bonus, date.weekday(), s as int, e as int),
{
    let ghost w = *wage_and_bonus;
    let mut entries: Vec<SaleryEntry> = Vec::new();
    let mut i: usize = 0;
    while i < wage_and_bonus.general.len()
        invariant
            w == *wage_and_bonus,
            w.wf(),
            s <= 86400,
            e <= 86400,
            i <= w.general@.len(),
            entries@ == general_entries(w.general@.take(i as int), s as int, e as int),
        decreases w.general@.len() - i,
    {
        assert(w.general@.take(i as int + 1).drop_last() == w.general@.take(i as int));
        match overlap(&wage_and_bonus.general[i], s, e) {
            Some(x) => entries.push(x),
            None => {},
        }
        i = i + 1;
    }
    assert(w.general@.take(w.general@.len() as int) == w.general@);
    let shift_weekday = weekday(date);
    let ghost g = entries@;
    let mut j: usize = 0;
    while j < wage_and_bonus.weekday.len()
        invariant
            w == *wage_and_bonus,
            w.wf(),
            s <= 86400,
            e <= 86400,
            j <= w.weekday@.len(),
            shift_weekday as int == date.weekday(),
            entries@ == g + weekday_entries(w.weekday@.take(j as int), shift_weekday as int, s as int, e as int),
        decreases w.weekday@.len() - j,
    {
        assert(w.weekday@.take(j as int + 1).drop_last() == w.weekday@.take(j as int));
        let bonus = &wage_and_bonus.weekday[j];
        let applies = match &bonus.weekdays {
            Some(days) => contains_day(days, shift_weekday),
            None => false,
        };
        if applies {
            match overlap(bonus, s, e) {
                Some(x) => {
                    entries.push(x);
                    assert(entries@ == g + weekday_entries(w.weekday@.take(j as int + 1), shift_weekday as int, s as int, e as int));
                },
                None => {},
            }
        }
        j = j + 1;
    }
    assert(w.weekday@.take(w.weekday@.len() as int) == w.weekday@);
    entries.push(SaleryEntry { duration: e - s, bonus_pr_hour: wage_and_bonus.base_rate });
    entries
}

fn contains_day(days: &Vec<u8>, d: u8) -> (r: bool)
    ensures
        r == days@.contains(d),
{
    let mut i: usize = 0;
    while i < days.len()
        invariant
            i <= days@.len(),
            forall|k: int| 0 <= k < i ==> days@[k] != d,
        decreases days@.len() - i,
    {
        if days[i] == d {
            return true;
        }
        i = i + 1;
    }
    false
}

/// The entries of every shift that overlaps the period.
pub fn salery_entries_from_period(
    shifts: &Vec<Shift>,
    wage_and_bonus: &WageRules,
    salery_period: &SaleryPeriod,
) -> (r: Vec<SaleryEntry>)
    requires
        wage_and_bonus.wf(),
        all_wf(shifts@),
    ensures
        r@ == period_entries(*wage_and_bonus, shifts@, *salery_period),
{
    let mut salery_entries: Vec<SaleryEntry> = Vec::new();
    let mut i: usize = 0;
    while i < shifts.len()
        invariant
            i <= shifts@.len(),
            wage_and_bonus.wf(),
            all_wf(shifts@),
            salery_entries@ == period_entries(*wage_and_bonus, shifts@.take(i as int), *salery_period),
        decreases shifts@.len() - i,
    {
        assert(shifts@.take(i as int + 1).drop_last() == shifts@.take(i as int));
        let shift = shifts[i];
        assert(shift.wf());
        let overlaps = !salery_period.end.is_before(&shift.start) && salery_period.start.is_before(&shift.end);
        if overlaps {
            let mut part = if shift.start.date != shift.end.date {
                let mut both: Vec<SaleryEntry> = Vec::new();
                if !shift.start.is_before(&salery_period.start) {
                    let mut a = span_salery_entries(wage_and_bonus, &shift.start.date, shift.start.time.seconds, 86400);
                    both.append(&mut a);
                }
                if !salery_period.end.is_before(&shift.end) {
                    let midnight = DateTime { date: shift.end.date, time: TimeOfDay::from_hms(0, 0, 0) };
                    let mut b = salery_entries_from_shift(wage_and_bonus, midnight, shift.end);
                    both.append(&mut b);
                }
                both
            } else {
                salery_entries_from_shift(wage_and_bonus, shift.start, shift.end)
            };
            assert(part@ == shift_entries(*wage_and_bonus, shift, *salery_period));
            salery_entries.append(&mut part);
        }
        i = i + 1;
    }
    assert(shifts@.take(shifts@.len() as int) == shifts@);
    salery_entries
}

proof fn lemma_earned_step(s: Seq<SaleryEntry>, k: int)
    requires
        0 <= k < s.len(),
    ensures
        earned(s.take(k + 1)) == earned(s.take(k)) + entry_value(s[k]),
{
    assert(s.take(k + 1).drop_last() == s.take(k));
}

/// The total earned by the entries, in hundredths of the currency unit times
/// sixty; `None` when a running total leaves the range of `i128`.
pub fn total_earned(entries: &Vec<SaleryEntry>) -> (r: Option<i128>)
    ensures
        r is Some <==> sums_fit(entries@),
        r matches Some(v) ==> v == earned(entries@),
{
    let mut acc: i128 = 0;
    let mut i: usize = 0;
    while i < entries.len()
        invariant
            i <= entries@.len(),
            acc == earned(entries@.take(i as int)),
            forall|k: int| 0 < k <= i ==> i128::MIN <= #[trigger] earned(entries@.take(k)) <= i128::MAX,
        decreases entries@.len() - i,
    {
        let x = entries[i];
        proof {
            lemma_earned_step(entries@, i as int);
        }
        let minutes = (x.duration / 60) as i128;
        assert(minutes <= 0x1_0000_0000);
        assert(minutes * x.bonus_pr_hour <= 0x1_0000_0000 * 0x8000_0000_0000_0000) by (nonlinear_arith)
            requires minutes <= 0x1_0000_0000, minutes >= 0, x.bonus_pr_hour <= 0x7fff_ffff_ffff_ffff;
        assert(minutes * x.bonus_pr_hour >= -0x1_0000_0000 * 0x8000_0000_0000_0000) by (nonlinear_arith)
            requires minutes <= 0x1_0000_0000, minutes >= 0, x.bonus_pr_hour >= -0x8000_0000_0000_0000;
        let value = minutes * (x.bonus_pr_hour as i128);
        if (value > 0 && acc > i128::MAX - value) || (value < 0 && acc < i128::MIN - value) {
            assert(!(i128::MIN <= earned(entries@.take(i as int + 1)) <= i128::MAX));
            return None;
        }
        acc = acc + value;
        i = i + 1;
    }
    assert(entries@.take(entries@.len() as int) == entries@);
    Some(acc)
}

/// What the shifts that overlap the period earn, as `total_earned` counts it.
pub fn calculate_salery_from_period(
    shifts: &Vec<Shift>,
    wage_and_bonus: &WageRules,
    salery_period: &SaleryPeriod,
) -> (r: Option<i128>)
    requires
        wage_and_bonus.wf(),
        all_wf(shifts@),
    ensures
        r is Some <==> sums_fit(period_entries(*wage_and_bonus, shifts@, *salery_period)),
        r matches Some(v) ==> v == earned(period_entries(*wage_and_bonus, shifts@, *salery_period)),
{
    let entries = salery_entries_from_period(shifts, wage_and_bonus, salery_period);
    total_earned(&entries)
}

/// Total wall-clock seconds of the shifts that overlap the period.
pub fn duration_worked(shifts: &Vec<Shift>, salery_period: &SaleryPeriod) -> (r: i128)
    requires
        all_wf(shifts@),
    ensures
        r == worked(shifts@, *salery_period),
{
    let mut duration: i128 = 0;
    let mut i: usize = 0;
    while i < shifts.len()
        invariant
            i <= shifts@.len(),
            all_wf(shifts@),
            duration == worked(shifts@.take(i as int), *salery_period),
            -(i as int) * 0x8000_0000_0000_0000 <= duration <= (i as int) * 0x8000_0000_0000_0000,
        decreases shifts@.len() - i,
    {
        assert(shifts@.take(i as int + 1).drop_last() == shifts@.take(i as int));
        let shift = shifts[i];
        assert(shift.wf());
        if !salery_period.end.is_before(&shift.start) && salery_period.start.is_before(&shift.end) {
            let d = calculate_shift_time(shift.start, shift.end);
            assert((i as int + 1) * 0x8000_0000_0000_0000 <= 0x1_0000_0000_0000_0000 * 0x8000_0000_0000_0000) by (nonlinear_arith)
                requires i < 0x1_0000_0000_0000_0000int - 1;
            duration = duration + d as i128;
        }
        i = i + 1;
    }
    assert(shifts@.take(shifts@.len() as int) == shifts@);
    duration
}

/// A shift on one day that lies inside the window of the only general bonus,
/// with no weekday bonus, earns its whole minutes at base rate plus bonus rate.
pub proof fn lemma_single_bonus_adds(w: WageRules, sh: Shift, p: SaleryPeriod)
    requires
        sh.wf(),
        sh.overlaps(p),
        sh.start.date == sh.end.date,
        w.general@.len() == 1,
        w.weekday@.len() == 0,
        w.general@[0].start <= sh.start.time.seconds,
        sh.end.time.seconds <= w.general@[0].end,
    ensures
        earned(period_entries(w, seq![sh], p)) == (sh.end.time.seconds - sh.start.time.seconds) / 60
            * (w.base_rate + w.general@[0].rate),
{
    let s = sh.start.time.seconds as int;
    let e = sh.end.time.seconds as int;
    let b = w.general@[0];
    assert(w.general@.drop_last().len() == 0);
    assert(general_entries(w.general@.drop_last(), s, e) == Seq::<SaleryEntry>::empty());
    assert(w.general@.last() == b);
    assert(overlap_entry(b, s, e) == Some(SaleryEntry { duration: (e - s) as u32, bonus_pr_hour: b.rate }));
    assert(general_entries(w.general@, s, e) =~= seq![SaleryEntry { duration: (e - s) as u32, bonus_pr_hour: b.rate }]);
    assert(seq![sh].drop_last().len() == 0);
    let es = span_entries(w, sh.start.date.weekday(), s, e);
    assert(period_entries(w, seq![sh].drop_last(), p) == Seq::<SaleryEntry>::empty());
    assert(seq![sh].last() == sh);
    assert(period_entries(w, seq![sh], p) =~= es);
    let g = SaleryEntry { duration: (e - s) as u32, bonus_pr_hour: b.rate };
    let base = SaleryEntry { duration: (e - s) as u32, bonus_pr_hour: w.base_rate };
    assert(weekday_entries(w.weekday@, sh.start.date.weekday(), s, e) == Seq::<SaleryEntry>::empty());
    assert(es =~= seq![g, base]);
    assert(es.drop_last() =~= seq![g]);
    assert(es.drop_last().drop_last() =~= Seq::<SaleryEntry>::empty());
    assert(earned(Seq::<SaleryEntry>::empty()) == 0);
    assert(es.drop_last().last() == g);
    assert(es.last() == base);
    assert(earned(es.drop_last()) == entry_value(g));
    assert(earned(es) == (e - s) / 60 * b.rate + (e - s) / 60 * w.base_rate);
    assert((e - s) / 60 * b.rate + (e - s) / 60 * w.base_rate == (e - s) / 60 * (w.base_rate + b.rate)) by (nonlinear_arith);
}

/// A shift from one day into the next that lies inside the period is cut at
/// midnight; the base-rate entries of the two parts together last exactly the
/// shift's wall-clock length.
pub proof fn lemma_midnight_split_duration(w: WageRules, sh: Shift, p: SaleryPeriod)
    requires
        sh.wf(),
        sh.start.date != sh.end.date,
        sh.end.date.number() == sh.start.date.number() + 1,
        p.start.not_after(sh.start),
        sh.end.not_after(p.end),
    ensures
        ({
            let first = span_entries(w, sh.start.date.weekday(), sh.start.time.seconds as int, end_of_day());
            let second = span_entries(w, sh.end.date.weekday(), 0, sh.end.time.seconds as int);
            &&& shift_entries(w, sh, p) == first + second
            &&& first.last().bonus_pr_hour == w.base_rate
            &&& second.last().bonus_pr_hour == w.base_rate
            &&& first.last().duration + second.last().duration == sh.start.seconds_until(sh.end)
        }),
{
}

/// The earnings of a period are a function of the shifts, the rules and the
/// period alone: the same inputs always give the same total.
pub proof fn lemma_calculation_deterministic(
    w1: WageRules,
    w2: WageRules,
    shifts1: Seq<Shift>,
    shifts2: Seq<Shift>,
    first_period: SaleryPeriod,
    second_period: SaleryPeriod,
)
    requires
        w1 == w2,
        shifts1 == shifts2,
        first_period == second_period,
    ensures
        period_entries(w1, shifts1, first_period) == period_entries(w2, shifts2, second_period),
        earned(period_entries(w1, shifts1, first_period)) == earned(period_entries(w2, shifts2, second_period)),
        sums_fit(period_entries(w1, shifts1, first_period)) == sums_fit(period_entries(w2, shifts2, second_period)),
{
}

/// A bonus restricted to Sundays adds nothing to a span that starts on a
/// Monday, and adds its overlap to one that starts on a Sunday.
pub proof fn lemma_weekday_restriction(w: WageRules, s: int, e: int)
    requires
        0 <= s <= e < 86400,
        w.general@.len() == 0,
        w.weekday@.len() == 1,
        w.weekday@[0].weekdays matches Some(v) && v@ == seq![6u8],
    ensures
        span_entries(w, 0, s, e) == seq![SaleryEntry { duration: (e - s) as u32, bonus_pr_hour: w.base_rate }],
        span_entries(w, 6, s, e) == (match overlap_entry(w.weekday@[0], s, e) {
            Some(x) => seq![x, SaleryEntry { duration: (e - s) as u32, bonus_pr_hour: w.base_rate }],
            None => seq![SaleryEntry { duration: (e - s) as u32, bonus_pr_hour: w.base_rate }],
        }),
{
    let rule = w.weekday@[0];
    let v = rule.weekdays->Some_0;
    assert(w.weekday@.drop_last().len() == 0);
    assert(w.weekday@.last() == rule);
    assert(weekday_entries(w.weekday@.drop_last(), 0, s, e) == Seq::<SaleryEntry>::empty());
    assert(weekday_entries(w.weekday@.drop_last(), 6, s, e) == Seq::<SaleryEntry>::empty());
    assert(general_entries(w.general@, s, e) == Seq::<SaleryEntry>::empty());
    assert(v@[0] == 6u8);
    assert(!v@.contains(0u8));
    assert(v@.contains(6u8));
    assert(span_entries(w, 0, s, e) =~= seq![SaleryEntry { duration: (e - s) as u32, bonus_pr_hour: w.base_rate }]);
    match overlap_entry(rule, s, e) {
        Some(x) => {
            assert(span_entries(w, 6, s, e) =~= seq![x, SaleryEntry { duration: (e - s) as u32, bonus_pr_hour: w.base_rate }]);
        },
        None => {
            assert(span_entries(w, 6, s, e) =~= seq![SaleryEntry { duration: (e - s) as u32, bonus_pr_hour: w.base_rate }]);
        },
    }
}

/// Bonus windows that at most touch the span `[s, e]` give no bonus entry:
/// an overlap counts only when its end is strictly after its beginning.
pub proof fn lemma_touching_windows_give_nothing(rules: Seq<BonusRule>, wd: int, s: int, e: int)
    requires
        forall|i: int|
            0 <= i < rules.len() ==> (if e < (#[trigger] rules[i]).end { e } else { rules[i].end as int })
                <= (if s > rules[i].start { s } else { rules[i].start as int }),
    ensures
        general_entries(rules, s, e) == Seq::<SaleryEntry>::empty(),
        weekday_entries(rules, wd, s, e) == Seq::<SaleryEntry>::empty(),
    decreases rules.len(),
{
    if rules.len() > 0 {
        let rest = rules.drop_last();
        assert forall|i: int| 0 <= i < rest.len() implies (if e < (#[trigger] rest[i]).end { e } else { rest[i].end as int })
            <= (if s > rest[i].start { s } else { rest[i].start as int }) by {
            assert(rest[i] == rules[i]);
        }
        lemma_touching_windows_give_nothing(rest, wd, s, e);
        assert(rules.last() == rules[rules.len() - 1]);
        assert(overlap_entry(rules.last(), s, e) is None);
    }
}

} // verus!
