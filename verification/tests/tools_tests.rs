use activity_archive::json::Json;
use activity_archive::tools::{
    cutoff_millis, ActivityArchiveListSessionsTool, ActivityArchivePrivacyAddTool, ActivityArchivePrivacyListTool,
    ActivityArchivePrivacyRemoveTool, ActivityArchiveSearchTool, ActivityArchiveStatsTool,
    ActivityArchiveSummarizeTool, ActivityArchiveSyncNotionTool, ActivityArchiveViewTool,
};

fn db() -> String {
    "test.db".to_string()
}

fn args(members: Vec<(&str, Json)>) -> Json {
    Json::Object(members.into_iter().map(|(k, v)| (k.to_string(), v)).collect())
}

fn text(s: &str) -> Json {
    Json::Str(s.to_string())
}

#[test]
fn test_tool_names_unique() {
    let mut names: Vec<&str> = vec![
        ActivityArchiveViewTool::new(db()).name(),
        ActivityArchiveStatsTool::new(db()).name(),
        ActivityArchiveSearchTool::new(db()).name(),
        ActivityArchiveListSessionsTool::new(db()).name(),
        ActivityArchiveSummarizeTool::new(db()).name(),
        ActivityArchivePrivacyListTool::new(db()).name(),
        ActivityArchivePrivacyAddTool::new(db()).name(),
        ActivityArchivePrivacyRemoveTool::new(db()).name(),
        ActivityArchiveSyncNotionTool::new(db()).name(),
    ];
    let count = names.len();
    names.sort();
    names.dedup();
    assert_eq!(names.len(), count, "tool names must be unique");
}

#[test]
fn test_schemas_are_valid() {
    let schemas = vec![
        (ActivityArchiveViewTool::new(db()).name(), ActivityArchiveViewTool::new(db()).parameters_schema()),
        (ActivityArchiveSearchTool::new(db()).name(), ActivityArchiveSearchTool::new(db()).parameters_schema()),
        (ActivityArchivePrivacyAddTool::new(db()).name(), ActivityArchivePrivacyAddTool::new(db()).parameters_schema()),
    ];
    for (name, schema) in &schemas {
        assert_eq!(schema.get("type").and_then(|t| t.as_str()), Some("object"), "schema for {} is not an object", name);
    }
}

#[test]
fn view_arguments_default_and_clamp() {
    let a = ActivityArchiveViewTool::parse_args(&args(vec![]));
    assert_eq!((a.hours, a.limit), (1, 50));
    assert!(a.source.is_none());
    let a = ActivityArchiveViewTool::parse_args(&args(vec![
        ("hours", Json::Number(0)),
        ("limit", Json::Number(500)),
        ("source", text("shell_activity")),
    ]));
    assert_eq!((a.hours, a.limit), (1, 200));
    assert_eq!(a.source.as_deref(), Some("shell_activity"));
}

#[test]
fn view_rows_and_answer() {
    let row = ActivityArchiveViewTool::format_row("t", "window_focus", "window_focus", &Some("Code".to_string()), &None);
    assert_eq!(row, "[t] window_focus/window_focus | Code | ");
    let empty = ActivityArchiveViewTool::render(3, &vec![]);
    assert!(empty.success);
    assert_eq!(empty.output, "No events in the last 3 hour(s).");
    let some = ActivityArchiveViewTool::render(3, &vec!["a".to_string(), "b".to_string()]);
    assert_eq!(some.output, "2 events:\na\nb");
    assert!(some.error.is_none());
}

#[test]
fn search_needs_a_query() {
    let missing = ActivityArchiveSearchTool::parse_args(&args(vec![])).err().unwrap();
    assert!(!missing.success);
    assert_eq!(missing.error.as_deref(), Some("Missing 'query' parameter"));
    let blank = ActivityArchiveSearchTool::parse_args(&args(vec![("query", text("   "))])).err().unwrap();
    assert_eq!(blank.error.as_deref(), Some("Missing 'query' parameter"));
    let ok = ActivityArchiveSearchTool::parse_args(&args(vec![("query", text("  rust ")), ("limit", Json::Number(0))]))
        .ok()
        .unwrap();
    assert_eq!(ok.query, "rust");
    assert_eq!((ok.hours, ok.limit), (24, 1));
    assert_eq!(ActivityArchiveSearchTool::like_pattern("rust"), "%rust%");
    assert_eq!(ActivityArchiveSearchTool::render("rust", 24, &vec![]).output, "No events matching 'rust' in the last 24h.");
}

#[test]
fn privacy_add_checks_its_arguments() {
    let no_type = ActivityArchivePrivacyAddTool::parse_args(&args(vec![("pattern", text("x"))])).err().unwrap();
    assert_eq!(no_type.error.as_deref(), Some("Missing 'rule_type'"));
    let no_pattern = ActivityArchivePrivacyAddTool::parse_args(&args(vec![("rule_type", text("app"))])).err().unwrap();
    assert_eq!(no_pattern.error.as_deref(), Some("Missing 'pattern'"));
    let (t, p) = ActivityArchivePrivacyAddTool::parse_args(&args(vec![("rule_type", text("app")), ("pattern", text(" *.exe "))]))
        .ok()
        .unwrap();
    assert_eq!((t.as_str(), p.as_str()), ("app", "*.exe"));
    assert_eq!(ActivityArchivePrivacyAddTool::render("r1", "app", "*.exe").output, "Added rule r1: app '*.exe'");
}

#[test]
fn sync_defaults_to_daily_log() {
    assert_eq!(ActivityArchiveSyncNotionTool::parse_args(&args(vec![])), "daily_log");
    assert_eq!(ActivityArchiveSyncNotionTool::parse_args(&args(vec![("type", text("project"))])), "project");
    let r = ActivityArchiveSyncNotionTool::render("session", "j1");
    assert_eq!(r.output, "Queued session sync (job j1). Daemon will process shortly.");
}

#[test]
fn summarize_and_sessions_limits() {
    let (kind, limit) = ActivityArchiveSummarizeTool::parse_args(&args(vec![("limit", Json::Number(99))]));
    assert_eq!(limit, 20);
    assert!(!kind.is_empty());
    assert_eq!(ActivityArchiveListSessionsTool::parse_args(&args(vec![])), (24, 20));
    assert_eq!(ActivityArchiveListSessionsTool::render(&vec![]).output, "No sessions found.");
    assert_eq!(ActivityArchiveStatsTool::parse_args(&args(vec![("hours", Json::Number(-5))])), 1);
}

#[test]
fn cutoff_is_hours_before_now() {
    assert_eq!(cutoff_millis(10 * 3_600_000, 2), Some(8 * 3_600_000));
    assert_eq!(cutoff_millis(i64::MIN, 1), None);
}
