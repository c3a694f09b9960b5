use shift_wage::calculate::{
    calculate_salery_from_period, duration_worked, salery_entries_from_period,
    salery_entries_from_shift, total_earned, SaleryEntry, Shift,
};
use shift_wage::calendar::{Date, DateTime, TimeOfDay};
use shift_wage::cli::{Cli, Operation};
use shift_wage::time::{
    calculate_shift_time, current_salery_period, parse_naivedatetime_from_str,
    salery_period_from_offset, shift_end_after_break, PeriodError, RecordError, SaleryPeriod,
};
use shift_wage::wage_bonuses::{Bonus, ConfigError, Period, WageAndBonuses, WageRules};

fn date(year: i32, month: u32, day: u32) -> Date {
    Date { year, month, day }
}

fn at(year: i32, month: u32, day: u32, h: u32, m: u32) -> DateTime {
    DateTime { date: date(year, month, day), time: TimeOfDay::from_hms(h, m, 0) }
}

fn config(general: Vec<Bonus>, weekday: Vec<Bonus>) -> WageAndBonuses {
    WageAndBonuses::new(10000, Period::Special { start_day: 21, end_day: 20 }, general, weekday)
}

fn rules(general: Vec<Bonus>, weekday: Vec<Bonus>) -> WageRules {
    config(general, weekday).rules().unwrap()
}

fn october() -> SaleryPeriod {
    SaleryPeriod::new(at(2023, 10, 1, 0, 0), at(2023, 11, 30, 23, 59))
}

#[test]
fn bonus_convert_string_to_time() {
    let bonus = Bonus::new(0, "14:00".to_owned(), "0".to_owned(), None).start_time();
    let time = TimeOfDay::from_hms(14, 0, 0);
    assert_eq!(bonus, Some(time));
}

#[test]
fn different_str_formats_for_parsing_naivedatetime() {
    let input = "2023-12-23 23:59";
    let result = parse_naivedatetime_from_str(input, 2026).unwrap();
    let expected = DateTime { date: date(2023, 12, 23), time: TimeOfDay::from_hms(23, 59, 00) };
    assert_eq!(result, expected);
}

#[test]
fn parsing_puts_current_year_in_front() {
    let result = parse_naivedatetime_from_str("12-23 23:59", 2023).unwrap();
    assert_eq!(result, at(2023, 12, 23, 23, 59));
}

#[test]
fn parsing_reports_every_attempt() {
    let errors = parse_naivedatetime_from_str("not a date", 2023).unwrap_err();
    assert_eq!(errors.len(), 12);
    assert_eq!(errors[0].input, "not a date");
    assert_eq!(errors[6].input, "2023-not a date");
    assert_eq!(errors[0].format, "%d-%m-%Y %H:%M");
    assert_eq!(errors[6].format, "%d-%m-%Y %H:%M");
    assert_eq!(errors[5].format, "%Y-%m-%d %H:%M:%S");
    assert_eq!(errors[11].format, "%Y-%m-%d %H:%M:%S");
}

#[test]
fn one_bonus_adds_to_base_rate() {
    let w = rules(vec![Bonus::new(2000, "18:00".to_string(), "23:59".to_string(), None)], vec![]);
    let shifts = vec![Shift { start: at(2023, 10, 3, 19, 0), end: at(2023, 10, 3, 21, 0) }];
    let total = calculate_salery_from_period(&shifts, &w, &october()).unwrap();
    assert_eq!(total, 120 * (10000 + 2000));
}

#[test]
fn midnight_split_keeps_duration() {
    let w = rules(vec![], vec![]);
    let shifts = vec![Shift { start: at(2023, 10, 30, 22, 0), end: at(2023, 10, 31, 2, 0) }];
    let entries = salery_entries_from_period(&shifts, &w, &october());
    assert_eq!(entries.len(), 2);
    assert_eq!(entries[0], SaleryEntry { duration: 7200, bonus_pr_hour: 10000 });
    assert_eq!(entries[1], SaleryEntry { duration: 7200, bonus_pr_hour: 10000 });
    assert_eq!(duration_worked(&shifts, &october()), 4 * 3600);
}

#[test]
fn split_parts_outside_period_are_dropped() {
    let w = rules(vec![], vec![]);
    let p = SaleryPeriod::new(at(2023, 10, 31, 0, 0), at(2023, 11, 30, 23, 59));
    let shifts = vec![Shift { start: at(2023, 10, 30, 22, 0), end: at(2023, 10, 31, 2, 0) }];
    let entries = salery_entries_from_period(&shifts, &w, &p);
    assert_eq!(entries, vec![SaleryEntry { duration: 7200, bonus_pr_hour: 10000 }]);
}

#[test]
fn touching_windows_give_no_bonus() {
    let w = rules(vec![Bonus::new(2000, "11:00".to_string(), "12:00".to_string(), None)], vec![]);
    let entries = salery_entries_from_shift(&w, at(2023, 10, 3, 10, 0), at(2023, 10, 3, 11, 0));
    assert_eq!(entries, vec![SaleryEntry { duration: 3600, bonus_pr_hour: 10000 }]);
}

#[test]
fn weekday_bonus_only_on_its_days() {
    let sunday = Bonus::new(500, "06:00".to_string(), "20:00".to_string(), Some(vec!["Sunday".to_string()]));
    let w = rules(vec![], vec![sunday]);
    // 2023-10-30 is a Monday, 2023-10-29 a Sunday.
    let monday = salery_entries_from_shift(&w, at(2023, 10, 30, 10, 0), at(2023, 10, 30, 12, 0));
    assert_eq!(monday, vec![SaleryEntry { duration: 7200, bonus_pr_hour: 10000 }]);
    let sunday = salery_entries_from_shift(&w, at(2023, 10, 29, 5, 0), at(2023, 10, 29, 12, 0));
    assert_eq!(
        sunday,
        vec![
            SaleryEntry { duration: 6 * 3600, bonus_pr_hour: 500 },
            SaleryEntry { duration: 7 * 3600, bonus_pr_hour: 10000 },
        ]
    );
}

#[test]
fn bonuses_stack() {
    let w = rules(
        vec![
            Bonus::new(100, "00:00".to_string(), "12:00".to_string(), None),
            Bonus::new(200, "09:00".to_string(), "10:00".to_string(), None),
        ],
        vec![],
    );
    let entries = salery_entries_from_shift(&w, at(2023, 10, 3, 8, 30), at(2023, 10, 3, 9, 30));
    assert_eq!(
        entries,
        vec![
            SaleryEntry { duration: 3600, bonus_pr_hour: 100 },
            SaleryEntry { duration: 1800, bonus_pr_hour: 200 },
            SaleryEntry { duration: 3600, bonus_pr_hour: 10000 },
        ]
    );
}

#[test]
fn unknown_day_names_are_dropped() {
    let b = Bonus::new(1, "00:00".to_string(), "01:00".to_string(), Some(vec![
        "sunday".to_string(),
        "søndag".to_string(),
        "Mon".to_string(),
    ]));
    let rule = b.rule().unwrap();
    assert_eq!(rule.weekdays, Some(vec![6, 0]));
    assert_eq!(rule.unknown_days, vec!["søndag".to_string()]);
}

#[test]
fn malformed_times_are_reported() {
    let bad_start = Bonus::new(1, "xx".to_string(), "01:00".to_string(), None);
    assert_eq!(bad_start.rule().unwrap_err(), ConfigError::InvalidStartTime("xx".to_string()));
    let bad_end = Bonus::new(1, "14:00".to_string(), "24:00".to_string(), None);
    assert_eq!(bad_end.rule().unwrap_err(), ConfigError::InvalidEndTime("24:00".to_string()));
    let c = config(vec![], vec![bad_end]);
    assert!(c.rules().is_err());
}

#[test]
fn earned_counts_whole_minutes() {
    let entries = vec![
        SaleryEntry { duration: 119, bonus_pr_hour: 6000 },
        SaleryEntry { duration: 60, bonus_pr_hour: -30 },
    ];
    assert_eq!(total_earned(&entries), Some(6000 - 30));
    assert_eq!(total_earned(&vec![]), Some(0));
}

#[test]
fn calculation_is_repeatable() {
    let w = rules(vec![Bonus::new(2077, "18:00".to_string(), "23:59".to_string(), None)], vec![]);
    let shifts = vec![
        Shift { start: at(2023, 10, 3, 17, 0), end: at(2023, 10, 3, 23, 0) },
        Shift { start: at(2023, 10, 5, 22, 0), end: at(2023, 10, 6, 3, 30) },
    ];
    let a = calculate_salery_from_period(&shifts, &w, &october());
    let b = calculate_salery_from_period(&shifts, &w, &october());
    assert_eq!(a, b);
    assert!(a.is_some());
}

#[test]
fn worked_time_counts_overlapping_shifts_only() {
    let p = SaleryPeriod::new(at(2023, 10, 15, 0, 0), at(2023, 11, 14, 23, 59));
    let shifts = vec![
        Shift { start: at(2023, 10, 14, 8, 0), end: at(2023, 10, 14, 16, 0) },
        Shift { start: at(2023, 10, 14, 22, 0), end: at(2023, 10, 15, 1, 0) },
        Shift { start: at(2023, 11, 14, 23, 0), end: at(2023, 11, 15, 1, 0) },
    ];
    assert_eq!(duration_worked(&shifts, &p), 3 * 3600 + 2 * 3600);
    assert_eq!(calculate_shift_time(at(2023, 12, 31, 23, 0), at(2024, 1, 1, 1, 0)), 7200);
}

#[test]
fn period_rolls_over_after_end_day() {
    let c = WageAndBonuses::new(0, Period::Special { start_day: 15, end_day: 14 }, vec![], vec![]);
    let p = current_salery_period(&c, date(2023, 5, 20)).unwrap();
    assert_eq!(p, SaleryPeriod::new(at(2023, 5, 15, 0, 0), at(2023, 6, 14, 23, 59)));
    let p = current_salery_period(&c, date(2023, 5, 10)).unwrap();
    assert_eq!(p, SaleryPeriod::new(at(2023, 4, 15, 0, 0), at(2023, 5, 14, 23, 59)));
    let p = current_salery_period(&c, date(2023, 12, 20)).unwrap();
    assert_eq!(p, SaleryPeriod::new(at(2023, 12, 15, 0, 0), at(2024, 1, 14, 23, 59)));
}

#[test]
fn offset_moves_back_whole_months() {
    let c = WageAndBonuses::new(0, Period::Special { start_day: 15, end_day: 14 }, vec![], vec![]);
    let p = salery_period_from_offset(&c, date(2023, 5, 20), 3).unwrap();
    assert_eq!(p, SaleryPeriod::new(at(2023, 2, 15, 0, 0), at(2023, 3, 14, 23, 59)));
    let p0 = salery_period_from_offset(&c, date(2023, 5, 20), 0).unwrap();
    assert_eq!(p0, current_salery_period(&c, date(2023, 5, 20)).unwrap());
    assert_eq!(salery_period_from_offset(&c, date(2023, 5, 20), u32::MAX), Err(PeriodError::OutOfRange));
}

#[test]
fn calendar_month_period() {
    let c = WageAndBonuses::new(0, Period::Month, vec![], vec![]);
    let p = current_salery_period(&c, date(2024, 2, 10)).unwrap();
    assert_eq!(p, SaleryPeriod::new(at(2024, 2, 1, 0, 0), at(2024, 2, 29, 23, 59)));
}

#[test]
fn invalid_period_days_are_rejected() {
    let c = WageAndBonuses::new(0, Period::Special { start_day: 30, end_day: 29 }, vec![], vec![]);
    assert_eq!(current_salery_period(&c, date(2023, 2, 10)), Err(PeriodError::InvalidEndDay(29)));
    let c = WageAndBonuses::new(0, Period::Special { start_day: 31, end_day: 30 }, vec![], vec![]);
    assert_eq!(current_salery_period(&c, date(2023, 4, 10)), Err(PeriodError::InvalidStartDay(31)));
}

#[test]
fn period_day_accessors() {
    let p = Period::Special { start_day: 21, end_day: 20 };
    assert_eq!(p.start_day(), 21);
    assert_eq!(p.end_day(), 20);
    assert_eq!(Period::Month.start_day(), 0);
}

#[test]
fn cli_operation_is_handed_out() {
    let cli = Cli { operation: Some(Operation::Remove { id: 7 }) };
    assert!(matches!(cli.operation(), Some(Operation::Remove { id: 7 })));
    assert!(Cli { operation: None }.operation().is_none());
}

#[test]
fn break_comes_off_the_end() {
    let start = at(2023, 10, 30, 22, 0);
    let end = at(2023, 10, 31, 0, 15);
    assert_eq!(shift_end_after_break(start, end, Some(30)), Ok(at(2023, 10, 30, 23, 45)));
    assert_eq!(shift_end_after_break(start, end, None), Ok(end));
    assert_eq!(shift_end_after_break(end, start, None), Err(RecordError::EndNotAfterStart));
    assert_eq!(shift_end_after_break(start, start, None), Err(RecordError::EndNotAfterStart));
    assert_eq!(shift_end_after_break(start, end, Some(i64::MAX)), Err(RecordError::BreakOutOfRange));
}

#[test]
fn break_longer_than_shift_is_refused() {
    let start = at(2023, 10, 30, 10, 0);
    let end = at(2023, 10, 30, 10, 30);
    assert_eq!(shift_end_after_break(start, end, Some(60)), Err(RecordError::BreakTooLong));
    assert_eq!(shift_end_after_break(start, end, Some(30)), Err(RecordError::BreakTooLong));
    assert_eq!(shift_end_after_break(start, end, Some(29)), Ok(at(2023, 10, 30, 10, 1)));
}

#[test]
fn bonus_before_midnight_runs_to_end_of_day() {
    let w = rules(vec![Bonus::new(2000, "22:00".to_string(), "23:59".to_string(), None)], vec![]);
    let shifts = vec![Shift { start: at(2023, 10, 30, 21, 0), end: at(2023, 10, 31, 1, 0) }];
    let entries = salery_entries_from_period(&shifts, &w, &october());
    assert_eq!(
        entries,
        vec![
            SaleryEntry { duration: 119 * 60, bonus_pr_hour: 2000 },
            SaleryEntry { duration: 3 * 3600, bonus_pr_hour: 10000 },
            SaleryEntry { duration: 3600, bonus_pr_hour: 10000 },
        ]
    );
    assert_eq!(calculate_salery_from_period(&shifts, &w, &october()), Some(119 * 2000 + 240 * 10000));
}

#[test]
fn special_period_from_first_day() {
    assert_eq!(Period::special_from_start(15), Some(Period::Special { start_day: 15, end_day: 14 }));
    assert_eq!(Period::special_from_start(29), Some(Period::Special { start_day: 29, end_day: 28 }));
    assert_eq!(Period::special_from_start(1), None);
    assert_eq!(Period::special_from_start(30), None);
}

#[test]
fn day_names_ignore_case_and_take_two_forms() {
    let b = Bonus::new(1, "00:00".to_string(), "01:00".to_string(), Some(vec![
        "SUNDAY".to_string(),
        "sAt".to_string(),
        "thurs".to_string(),
        "Wednesday".to_string(),
        "tu".to_string(),
    ]));
    let rule = b.rule().unwrap();
    assert_eq!(rule.weekdays, Some(vec![6, 5, 2]));
    assert_eq!(rule.unknown_days, vec!["thurs".to_string(), "tu".to_string()]);
}
