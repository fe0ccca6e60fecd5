use jt::config::DEFAULT_DAILY_TARGET_MINUTES;
use jt::config::effective_daily_target;
use jt::config::initial_config;
use jt::json::JsonValue;
use jt::tasks::Issue;
use jt::tasks::StaticTask;
use jt::tasks::Task;
use jt::tasks::assemble_tasks;

fn sample_issue(key: &str, summary: Option<&str>) -> Issue {
    let mut fields = Vec::new();
    if let Some(s) = summary {
        fields.push((String::from("summary"), JsonValue::Str(String::from(s))));
    }
    Issue { key: String::from(key), fields }
}

#[test]
fn init_produces_the_expected_record() {
    let c = initial_config(
        String::from("https://tracker.example.com"),
        String::from("worker-key"),
        Some(String::from("approver-key")),
        450,
    );
    assert_eq!(c.api_endpoint, "https://tracker.example.com");
    assert_eq!(c.worker, "worker-key");
    assert_eq!(c.reviewer.as_deref(), Some("approver-key"));
    assert_eq!(c.daily_target_time_spent_minutes, Some(450));
    assert_eq!(c.default_time_spent_minutes, None);
    assert!(c.static_tasks.is_empty());
    assert!(c.static_attributes.is_empty());
    assert!(c.dynamic_attributes.is_empty());
}

#[test]
fn daily_target_defaults_to_eight_hours() {
    let mut c = initial_config(String::from("u"), String::from("w"), None, 450);
    assert_eq!(effective_daily_target(&c), 450);
    c.daily_target_time_spent_minutes = None;
    assert_eq!(effective_daily_target(&c), DEFAULT_DAILY_TARGET_MINUTES);
    assert_eq!(effective_daily_target(&c), 480);
}

#[test]
fn candidate_list_keeps_issues_before_static_tasks() {
    let issues = vec![sample_issue("ISS-1", Some("First")), sample_issue("ISS-2", Some("Second"))];
    let static_tasks = vec![StaticTask {
        key: String::from("STAT-1"),
        description: String::from("standing meeting"),
        attributes: vec![],
    }];
    let tasks = assemble_tasks(issues, static_tasks);
    assert_eq!(tasks.len(), 3);
    assert_eq!(tasks[0].key(), "ISS-1");
    assert_eq!(tasks[1].key(), "ISS-2");
    assert_eq!(tasks[2].key(), "STAT-1");
    assert!(matches!(tasks[0], Task::FromQuery(_)));
    assert!(matches!(tasks[2], Task::Static(_)));
}

#[test]
fn issue_label_joins_key_and_summary() {
    let task = Task::FromQuery(sample_issue("ISS-1", Some("Fix the hinge")));
    assert_eq!(task.display_label().unwrap(), "ISS-1 - Fix the hinge");
}

#[test]
fn static_label_joins_key_and_description() {
    let task = Task::Static(StaticTask {
        key: String::from("STAT-1"),
        description: String::from("standing meeting"),
        attributes: vec![],
    });
    assert_eq!(task.display_label().unwrap(), "STAT-1 - standing meeting");
}

#[test]
fn issue_without_summary_has_no_label() {
    let task = Task::FromQuery(sample_issue("ISS-1", None));
    assert!(task.display_label().is_none());
}

#[test]
fn issue_with_non_string_summary_has_no_label() {
    let issue = Issue {
        key: String::from("ISS-1"),
        fields: vec![(String::from("summary"), JsonValue::Number(String::from("5")))],
    };
    assert!(Task::FromQuery(issue).display_label().is_none());
}
