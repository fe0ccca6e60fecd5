use chrono::Datelike;
use chrono::NaiveDate;
use jt::allocate::ScriptedSelector;
use jt::tasks::StaticTask;
use jt::tasks::Task;
use jt::week::done_tasks_from;
use jt::week::first_day_of_target_week;
use jt::week::monday_of_week;
use jt::week::plan_week;

fn day_number(date: NaiveDate) -> i64 {
    date.num_days_from_ce() as i64
}

fn date_of(day: i64) -> NaiveDate {
    NaiveDate::from_num_days_from_ce_opt(day as i32).unwrap()
}

fn iso_monday_of(date: NaiveDate) -> NaiveDate {
    let week = date.iso_week();
    NaiveDate::from_isoywd_opt(week.year(), week.week(), chrono::Weekday::Mon).unwrap()
}

#[test]
fn monday_matches_calendar() {
    let samples = [
        NaiveDate::from_ymd_opt(2026, 10, 8).unwrap(),  // a Thursday
        NaiveDate::from_ymd_opt(2026, 10, 5).unwrap(),  // already a Monday
        NaiveDate::from_ymd_opt(2026, 10, 11).unwrap(), // a Sunday
        NaiveDate::from_ymd_opt(2026, 1, 1).unwrap(),   // week spanning a year boundary
        NaiveDate::from_ymd_opt(2024, 12, 31).unwrap(),
        NaiveDate::from_ymd_opt(2000, 2, 29).unwrap(),
    ];
    for date in samples {
        let monday = monday_of_week(day_number(date));
        assert_eq!(date_of(monday), iso_monday_of(date));
    }
}

#[test]
fn target_week_shifts_by_seven_days_for_next() {
    let today = NaiveDate::from_ymd_opt(2026, 10, 8).unwrap();
    let current = first_day_of_target_week(day_number(today), false);
    let next = first_day_of_target_week(day_number(today), true);
    assert_eq!(date_of(current), NaiveDate::from_ymd_opt(2026, 10, 5).unwrap());
    assert_eq!(date_of(next), NaiveDate::from_ymd_opt(2026, 10, 12).unwrap());
    assert_eq!(date_of(next), iso_monday_of(today + chrono::TimeDelta::days(7)));
}

#[test]
fn done_boundary_is_the_day_before_monday() {
    let monday = day_number(NaiveDate::from_ymd_opt(2026, 10, 5).unwrap());
    let boundary = done_tasks_from(monday);
    assert_eq!(date_of(boundary), NaiveDate::from_ymd_opt(2026, 10, 4).unwrap());
}

#[test]
fn week_plan_covers_monday_through_friday() {
    let monday = day_number(NaiveDate::from_ymd_opt(2026, 10, 5).unwrap());
    let tasks = vec![Task::Static(StaticTask {
        key: String::from("T-1"),
        description: String::from("desc"),
        attributes: vec![],
    })];
    let mut sel = ScriptedSelector::new(vec![], vec![]);
    let plans = plan_week(monday, &tasks, 480, Some(480), &mut sel).unwrap();
    assert_eq!(plans.len(), 5);
    for (i, plan) in plans.iter().enumerate() {
        assert_eq!(plan.date, monday + i as i64);
        let sum: u64 = plan.entries.iter().map(|e| e.1).sum();
        assert!(sum >= 480);
    }
    let dates: Vec<NaiveDate> = plans.iter().map(|p| date_of(p.date)).collect();
    assert_eq!(dates[0].weekday(), chrono::Weekday::Mon);
    assert_eq!(dates[4].weekday(), chrono::Weekday::Fri);
}

#[test]
fn week_plan_fails_fast_without_candidates() {
    let monday = day_number(NaiveDate::from_ymd_opt(2026, 10, 5).unwrap());
    let tasks: Vec<Task> = vec![];
    let mut sel = ScriptedSelector::new(vec![], vec![]);
    let err = plan_week(monday, &tasks, 480, Some(480), &mut sel).unwrap_err();
    assert_eq!(err, jt::allocate::AllocationError::NoCandidates);
}
