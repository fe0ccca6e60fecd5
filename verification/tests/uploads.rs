use jt::attributes::ResolutionError;
use jt::attributes::WorkAttribute;
use jt::json::JsonValue;
use jt::submit::SubmissionError;
use jt::submit::submission_request;
use jt::tasks::Issue;
use jt::tasks::StaticTask;
use jt::tasks::Task;
use jt::upload::prepare_worklogs;
use jt::upload::worklogs_to_dispatch;
use jt::week::DayPlan;

fn attr(key: &str, name: &str, id: u64, value: &str) -> WorkAttribute {
    WorkAttribute {
        key: String::from(key),
        name: String::from(name),
        work_attribute_id: id,
        value: String::from(value),
    }
}

fn issue_task(key: &str, field: &str, value: &str) -> Task {
    Task::FromQuery(Issue {
        key: String::from(key),
        fields: vec![(String::from(field), JsonValue::Str(String::from(value)))],
    })
}

#[test]
fn prepares_entries_in_plan_order() {
    let tasks = vec![
        issue_task("ISS-1", "customfield_100", "ABC"),
        Task::Static(StaticTask {
            key: String::from("STAT-1"),
            description: String::from("standing meeting"),
            attributes: vec![attr("fixed", "Fixed", 9, "already-resolved")],
        }),
    ];
    let plans = vec![
        DayPlan { date: 100, entries: vec![(0, 240), (1, 240)] },
        DayPlan { date: 101, entries: vec![(1, 480)] },
    ];
    let worker = String::from("worker-key");
    let dynamic = vec![attr("acct", "Account", 7, "/customfield_100")];
    let statics = vec![attr("site", "Site", 8, "HQ")];
    let out = prepare_worklogs(&tasks, &plans, &worker, &dynamic, &statics).unwrap();
    assert_eq!(out.len(), 3);

    assert_eq!(out[0].worker, "worker-key");
    assert_eq!(out[0].date, 100);
    assert_eq!(out[0].task_key, "ISS-1");
    assert_eq!(out[0].time_spent_seconds, 240 * 60);
    assert_eq!(out[0].attributes.len(), 2);
    assert_eq!(out[0].attributes[0].key, "acct");
    assert_eq!(out[0].attributes[0].value, "ABC");
    assert_eq!(out[0].attributes[1].key, "site");
    assert_eq!(out[0].attributes[1].value, "HQ");

    // The static task's pre-resolved attributes are used as they stand: no
    // templates applied.
    assert_eq!(out[1].date, 100);
    assert_eq!(out[1].task_key, "STAT-1");
    assert_eq!(out[1].attributes.len(), 1);
    assert_eq!(out[1].attributes[0].key, "fixed");
    assert_eq!(out[1].attributes[0].value, "already-resolved");

    assert_eq!(out[2].date, 101);
    assert_eq!(out[2].task_key, "STAT-1");
    assert_eq!(out[2].time_spent_seconds, 480 * 60);
}

#[test]
fn first_resolution_failure_aborts_preparation() {
    let tasks = vec![
        issue_task("ISS-1", "customfield_100", "ABC"),
        issue_task("ISS-2", "other_field", "DEF"),
    ];
    let plans = vec![DayPlan { date: 100, entries: vec![(0, 240), (1, 240)] }];
    let worker = String::from("worker-key");
    let dynamic = vec![attr("acct", "Account", 7, "/customfield_100")];
    let err = prepare_worklogs(&tasks, &plans, &worker, &dynamic, &vec![]).unwrap_err();
    assert_eq!(err, ResolutionError::PathNotFound);
}

#[test]
fn dry_run_dispatches_nothing() {
    let tasks = vec![issue_task("ISS-1", "customfield_100", "ABC")];
    let plans = vec![
        DayPlan { date: 100, entries: vec![(0, 480)] },
        DayPlan { date: 101, entries: vec![(0, 480)] },
        DayPlan { date: 102, entries: vec![(0, 480)] },
        DayPlan { date: 103, entries: vec![(0, 480)] },
        DayPlan { date: 104, entries: vec![(0, 480)] },
    ];
    let worker = String::from("worker-key");
    let dynamic = vec![attr("acct", "Account", 7, "/customfield_100")];
    let prepared = prepare_worklogs(&tasks, &plans, &worker, &dynamic, &vec![]).unwrap();
    assert_eq!(prepared.len(), 5);
    let sent = worklogs_to_dispatch(prepared, true);
    assert!(sent.is_empty());
}

#[test]
fn real_run_dispatches_everything_in_order() {
    let tasks = vec![issue_task("ISS-1", "customfield_100", "ABC")];
    let plans = vec![DayPlan { date: 100, entries: vec![(0, 240), (0, 240)] }];
    let worker = String::from("worker-key");
    let prepared = prepare_worklogs(&tasks, &plans, &worker, &vec![], &vec![]).unwrap();
    let sent = worklogs_to_dispatch(prepared, false);
    assert_eq!(sent.len(), 2);
    assert_eq!(sent[0].date, 100);
    assert_eq!(sent[0].task_key, "ISS-1");
}

#[test]
fn empty_plan_prepares_nothing() {
    let tasks = vec![issue_task("ISS-1", "customfield_100", "ABC")];
    let plans: Vec<DayPlan> = vec![];
    let worker = String::from("worker-key");
    let prepared = prepare_worklogs(&tasks, &plans, &worker, &vec![], &vec![]).unwrap();
    assert!(prepared.is_empty());
}

#[test]
fn submission_needs_a_reviewer() {
    let err = submission_request(&None, &String::from("worker-key"), 100).unwrap_err();
    assert_eq!(err, SubmissionError::NoReviewerConfigured);
}

#[test]
fn submission_period_starts_the_saturday_before() {
    let req = submission_request(
        &Some(String::from("approver-key")),
        &String::from("worker-key"),
        100,
    )
    .unwrap();
    assert_eq!(req.worker, "worker-key");
    assert_eq!(req.reviewer, "approver-key");
    assert_eq!(req.period_start, 98);
}

#[test]
fn uploads_stand_even_when_submission_fails() {
    // Nobody to submit to while submission is requested: the worklogs are
    // prepared and dispatched, and only the submission step fails.
    let tasks = vec![issue_task("ISS-1", "customfield_100", "ABC")];
    let plans = vec![DayPlan { date: 100, entries: vec![(0, 480)] }];
    let worker = String::from("worker-key");
    let prepared = prepare_worklogs(&tasks, &plans, &worker, &vec![], &vec![]).unwrap();
    let sent = worklogs_to_dispatch(prepared, false);
    assert_eq!(sent.len(), 1);
    let err = submission_request(&None, &worker, 100).unwrap_err();
    assert_eq!(err, SubmissionError::NoReviewerConfigured);
}
