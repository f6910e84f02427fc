use activity_archive::json::Json;
use activity_archive::schema::{Event, EventType, SummaryType};
use activity_archive::summarizer::Summarizer;

const MIN: i64 = 60_000;
const HOUR: i64 = 3_600_000;
const DAY: i64 = 86_400_000;

fn focus(ts: i64, app: &str) -> Event {
    let mut e = Event::new("window_focus".to_string(), EventType::WindowFocus);
    e.ts_utc = ts;
    e.ts_local = ts;
    e.app = Some(app.to_string());
    e.title = Some(format!("{} - title", app));
    e
}

fn count(metrics: &Json, group: &str, key: &str) -> Option<u64> {
    metrics.get(group).and_then(|g| g.get(key)).and_then(|v| v.as_u64())
}

#[test]
fn test_hourly_summary_content() {
    let hour = 1_700_000_000_000i64 / HOUR * HOUR;
    let mut events = Vec::new();
    for i in 0..5 {
        events.push(focus(hour + i * 10 * MIN, "Code.exe"));
    }
    for i in 0..3 {
        events.push(focus(hour + (5 + i * 10) * MIN, "Chrome.exe"));
    }
    events.sort_by_key(|e| e.ts_utc);

    let summarizer = Summarizer::new();
    let summary = summarizer.generate_hourly_summary(hour, &events);

    assert!(!summary.content.is_empty());
    assert!(summary.content.contains("Total events: 8"));
    assert!(summary.metrics.get("total_events").unwrap().as_u64().unwrap() == 8);
    assert!(summary.metrics.get("apps").unwrap().is_object());
}

#[test]
fn test_daily_log_content() {
    let day = 19_675i64;
    let start = day * DAY + 10 * HOUR;
    let events = vec![focus(start, "Code.exe"), focus(start + HOUR, "Chrome.exe")];

    let summarizer = Summarizer::new();
    let summary = summarizer.generate_daily_log(day, &events);

    assert!(!summary.content.is_empty());
    assert_eq!(summary.summary_type, SummaryType::Daily);
}

#[test]
fn test_empty_period_summary() {
    let hour = 1_700_000_000_000i64 / HOUR * HOUR - 100 * HOUR;
    let summarizer = Summarizer::new();
    let summary = summarizer.generate_hourly_summary(hour, &[]);
    assert!(summary.content.contains("No activity"));
}

#[test]
fn test_metrics_structure() {
    let hour = 1_700_000_000_000i64 / HOUR * HOUR;
    let events = vec![focus(hour + 5 * MIN, "Code.exe")];

    let summarizer = Summarizer::new();
    let summary = summarizer.generate_hourly_summary(hour, &events);

    let metrics = &summary.metrics;
    assert!(metrics.get("total_events").is_some());
    assert!(metrics.get("event_types").is_some());
    assert!(metrics.get("apps").is_some());
    assert!(metrics.get("projects").is_some());
}

#[test]
fn hourly_summary_text_is_exact() {
    let hour = 1_700_000_000_000i64 / HOUR * HOUR;
    let events = vec![
        focus(hour, "Code.exe"),
        focus(hour + MIN, "Chrome.exe"),
        focus(hour + 2 * MIN, "Chrome.exe"),
    ];
    let summary = Summarizer::new().generate_hourly_summary(hour, &events);
    assert_eq!(
        summary.content,
        "Activity summary for hourly:\n\nTotal events: 3\n\nEvent breakdown:\n  - window_focus: 3\n\n\
         Top applications:\n  - Chrome.exe: 2\n  - Code.exe: 1\n"
    );
    assert_eq!(summary.summary_type, SummaryType::Hourly);
    assert_eq!(summary.period_start, hour);
    assert_eq!(summary.period_end, hour + HOUR);
    assert!(summary.project_key.is_none());
}

#[test]
fn empty_hour_text_is_exact() {
    let summary = Summarizer::new().generate_summary_content(&[], "hourly");
    assert_eq!(summary, "No activity recorded for this hourly.");
}

#[test]
fn daily_log_text_is_exact() {
    let day = 19_675i64;
    let start = day * DAY + 10 * HOUR;
    let mut first = focus(start, "Code.exe");
    first.project_key = Some("archive".to_string());
    let events = vec![first, focus(start + HOUR + 5 * MIN, "Chrome.exe")];

    let summary = Summarizer::new().generate_daily_log(day, &events);
    assert_eq!(
        summary.content,
        "Activity from 10:00 to 11:05\n\nTop projects:\n  - archive: 1 events\n\nNotable activity:\n\
         \x20 - [10:00] Code.exe: Code.exe - title\n  - [11:05] Chrome.exe: Chrome.exe - title\n"
    );
    assert_eq!(summary.period_start, day * DAY);
    assert_eq!(summary.period_end, day * DAY + DAY);
}

#[test]
fn empty_day_text_is_exact() {
    assert_eq!(Summarizer::new().generate_daily_log_content(&[]), "No activity recorded today.");
}

#[test]
fn project_summary_lists_busy_hours() {
    let day = 19_675i64 * DAY;
    let events = vec![
        focus(day + 10 * HOUR + 5 * MIN, "Code.exe"),
        focus(day + 10 * HOUR + 30 * MIN, "Code.exe"),
        focus(day + 14 * HOUR, "Code.exe"),
    ];
    let summary = Summarizer::new().generate_project_summary("archive", day, day + DAY, &events);
    assert_eq!(
        summary.content,
        "Project summary for archive\n\nTotal events: 3\n\nActivity by hour:\n  - 10:00: 2 events\n  - 14:00: 1 events\n"
    );
    assert_eq!(summary.summary_type, SummaryType::Project);
    assert_eq!(summary.project_key.as_deref(), Some("archive"));
}

#[test]
fn empty_project_text_is_exact() {
    let text = Summarizer::new().generate_project_summary_content("archive", &[]);
    assert_eq!(text, "No activity recorded for project archive.");
}

#[test]
fn metrics_counts_add_up_to_total() {
    let hour = 1_700_000_000_000i64 / HOUR * HOUR;
    let mut shell = Event::new("shell_activity".to_string(), EventType::ShellCommand);
    shell.ts_utc = hour + 3 * MIN;
    let events = vec![focus(hour, "Code.exe"), focus(hour + MIN, "Chrome.exe"), shell];
    let metrics = Summarizer::new().calculate_metrics(&events);

    assert_eq!(metrics.get("total_events").unwrap().as_u64(), Some(3));
    let types = ["window_focus", "shell_command"];
    let total: u64 = types.iter().map(|t| count(&metrics, "event_types", t).unwrap()).sum();
    assert_eq!(total, 3);
    assert_eq!(count(&metrics, "apps", "Code.exe"), Some(1));
    assert_eq!(count(&metrics, "apps", "Chrome.exe"), Some(1));
    assert!(metrics.get("projects").unwrap().is_object());
    assert_eq!(count(&metrics, "projects", "archive"), None);
}
