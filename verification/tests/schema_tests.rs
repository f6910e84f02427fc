use activity_archive::json::Json;
use std::collections::hash_map::DefaultHasher;
use std::hash::{Hash, Hasher};
use activity_archive::schema::{
    index_statements, open_timeout_secs, ArtifactType, Entity, EntityType, Event, EventType, NotionSyncType,
    PrivacyAction, PrivacyRule, PrivacyRuleType, RawEvent, Session, SessionLabel, Summary, SummaryType, SyncStatus,
};

fn now_ms() -> i64 {
    std::time::SystemTime::now().duration_since(std::time::UNIX_EPOCH).unwrap().as_millis() as i64
}

fn obj(pairs: Vec<(&str, Json)>) -> Json {
    Json::Object(pairs.into_iter().map(|(k, v)| (k.to_string(), v)).collect())
}

#[test]
fn test_event_creation() {
    let event = Event::new("test_source".to_string(), EventType::WindowFocus);

    assert_eq!(event.source, "test_source");
    assert_eq!(event.event_type, EventType::WindowFocus);
    assert!(event.id.len() > 0);
    assert!(event.ts_utc <= now_ms());
}

#[test]
fn test_event_hash_generation() {
    let mut event1 = Event::new("test_source".to_string(), EventType::WindowFocus);
    event1.app = Some("TestApp".to_string());
    event1.title = Some("Test Title".to_string());

    let mut event2 = Event::new("test_source".to_string(), EventType::WindowFocus);
    event2.app = Some("TestApp".to_string());
    event2.title = Some("Test Title".to_string());

    let hash1 = event1.generate_hash();
    let hash2 = event2.generate_hash();

    assert_eq!(hash1, hash2);

    event2.title = Some("Different Title".to_string());
    let hash3 = event2.generate_hash();
    assert_ne!(hash1, hash3);
}

#[test]
fn test_session_creation() {
    let start_time = now_ms();
    let session = Session::new(start_time);

    assert_eq!(session.start_ts_utc, start_time);
    assert!(session.end_ts_utc.is_none());
    assert_eq!(session.label, SessionLabel::Unknown);
    assert_eq!(session.event_count, 0);
}

#[test]
fn test_entity_creation() {
    let entity = Entity::new(EntityType::App, "TestApp".to_string());

    assert_eq!(entity.entity_type, EntityType::App);
    assert_eq!(entity.name, "TestApp");
    assert_eq!(entity.occurrence_count, 1);
}

#[test]
fn test_summary_creation() {
    let start = now_ms();
    let end = start + 3_600_000;
    let summary = Summary::new(SummaryType::Hourly, start, end);

    assert_eq!(summary.summary_type, SummaryType::Hourly);
    assert_eq!(summary.period_start, start);
    assert_eq!(summary.period_end, end);
    assert!(summary.content.is_empty());
}

#[test]
fn test_privacy_rule_creation() {
    let rule = PrivacyRule::new(PrivacyRuleType::ExcludePath, "**/passwords/**".to_string(), PrivacyAction::Exclude);

    assert_eq!(rule.rule_type, PrivacyRuleType::ExcludePath);
    assert_eq!(rule.pattern, "**/passwords/**");
    assert_eq!(rule.action, PrivacyAction::Exclude);
}

#[test]
fn test_event_type_conversions() {
    assert_eq!(EventType::WindowFocus.as_str(), "window_focus");
    assert_eq!(EventType::ProcessStart.as_str(), "process_start");
    assert_eq!(EventType::BrowserVisit.as_str(), "browser_visit");

    assert_eq!(EventType::from_str("window_focus"), Some(EventType::WindowFocus));
    assert_eq!(EventType::from_str("invalid"), None);
}

#[test]
fn schema_tests_test_session_label_conversions() {
    assert_eq!(SessionLabel::Coding.as_str(), "coding");
    assert_eq!(SessionLabel::Research.as_str(), "research");

    assert_eq!(SessionLabel::from_str("coding"), Some(SessionLabel::Coding));
    assert_eq!(SessionLabel::from_str("invalid"), None);
}

#[test]
fn test_entity_type_conversions() {
    assert_eq!(EntityType::App.as_str(), "app");
    assert_eq!(EntityType::Project.as_str(), "project");

    assert_eq!(EntityType::from_str("app"), Some(EntityType::App));
    assert_eq!(EntityType::from_str("invalid"), None);
}

#[test]
fn test_summary_type_conversions() {
    assert_eq!(SummaryType::Hourly.as_str(), "hourly");
    assert_eq!(SummaryType::Daily.as_str(), "daily");

    assert_eq!(SummaryType::from_str("hourly"), Some(SummaryType::Hourly));
    assert_eq!(SummaryType::from_str("invalid"), None);
}

#[test]
fn test_artifact_type_conversions() {
    assert_eq!(ArtifactType::Screenshot.as_str(), "screenshot");
    assert_eq!(ArtifactType::FileExport.as_str(), "file_export");

    assert_eq!(ArtifactType::from_str("screenshot"), Some(ArtifactType::Screenshot));
    assert_eq!(ArtifactType::from_str("invalid"), None);
}

#[test]
fn test_notion_sync_type_conversions() {
    assert_eq!(NotionSyncType::DailyLog.as_str(), "daily_log");
    assert_eq!(NotionSyncType::Session.as_str(), "session");

    assert_eq!(NotionSyncType::from_str("daily_log"), Some(NotionSyncType::DailyLog));
    assert_eq!(NotionSyncType::from_str("invalid"), None);
}

#[test]
fn test_sync_status_conversions() {
    assert_eq!(SyncStatus::Pending.as_str(), "pending");
    assert_eq!(SyncStatus::Synced.as_str(), "synced");

    assert_eq!(SyncStatus::from_str("pending"), Some(SyncStatus::Pending));
    assert_eq!(SyncStatus::from_str("invalid"), None);
}

#[test]
fn test_privacy_rule_type_conversions() {
    assert_eq!(PrivacyRuleType::ExcludePath.as_str(), "exclude_path");
    assert_eq!(PrivacyRuleType::ExcludeTitle.as_str(), "exclude_title");

    assert_eq!(PrivacyRuleType::from_str("exclude_path"), Some(PrivacyRuleType::ExcludePath));
    assert_eq!(PrivacyRuleType::from_str("invalid"), None);
}

#[test]
fn test_privacy_action_conversions() {
    assert_eq!(PrivacyAction::Exclude.as_str(), "exclude");
    assert_eq!(PrivacyAction::Redact.as_str(), "redact");

    assert_eq!(PrivacyAction::from_str("exclude"), Some(PrivacyAction::Exclude));
    assert_eq!(PrivacyAction::from_str("invalid"), None);
}

#[test]
fn schema_tests_test_raw_event_creation() {
    let payload = obj(vec![("window_title", Json::Str("Test Window".to_string())), ("process_id", Json::Number(1234))]);

    let event = RawEvent::new("window_focus".to_string(), payload.clone());

    assert_eq!(event.source, "window_focus");
    assert_eq!(event.payload, payload);
    assert!(event.id.len() > 0);
    assert!(event.timestamp <= now_ms());
}

#[test]
fn every_name_round_trips() {
    for t in [
        EventType::WindowFocus, EventType::ProcessStart, EventType::ProcessExit, EventType::BrowserVisit,
        EventType::ShellCommand, EventType::FileCreate, EventType::FileModify, EventType::FileDelete,
        EventType::FileRename, EventType::SystemEvent,
    ] {
        assert_eq!(EventType::from_str(t.as_str()), Some(t));
    }
    for t in [SyncStatus::Pending, SyncStatus::Syncing, SyncStatus::Synced, SyncStatus::Failed] {
        assert_eq!(SyncStatus::from_str(t.as_str()), Some(t));
    }
    assert_eq!(SyncStatus::Failed.as_str(), "failed");
    assert_eq!(PrivacyRuleType::Redaction.as_str(), "redaction");
}

#[test]
fn hash_is_sixteen_hex_digits_or_fewer_and_ignores_times() {
    let mut a = Event::new("x".to_string(), EventType::FileCreate);
    a.path = Some("/tmp/a".to_string());
    let mut b = Event::new("y".to_string(), EventType::FileCreate);
    b.path = Some("/tmp/a".to_string());
    b.ts_utc = a.ts_utc + 12345;
    let ha = a.generate_hash();
    assert_eq!(ha, b.generate_hash());
    assert!(!ha.is_empty() && ha.len() <= 16);
    assert!(ha.chars().all(|c| c.is_ascii_hexdigit() && !c.is_ascii_uppercase()));
    // An absent app and an empty app are told apart.
    let mut c = Event::new("x".to_string(), EventType::FileCreate);
    c.path = Some("/tmp/a".to_string());
    c.app = Some(String::new());
    assert_ne!(ha, c.generate_hash());
}

#[test]
fn hash_is_the_default_hasher_over_the_identity_fields() {
    let mut e = Event::new("s".to_string(), EventType::BrowserVisit);
    e.app = Some("Firefox".to_string());
    e.path = Some("/home/u/notes.md".to_string());
    let mut hasher = DefaultHasher::new();
    e.event_type.hash(&mut hasher);
    e.app.hash(&mut hasher);
    e.title.hash(&mut hasher);
    e.path.hash(&mut hasher);
    assert_eq!(e.generate_hash(), format!("{:x}", hasher.finish()));
    // The type alone changes it.
    let mut f = e.clone();
    f.event_type = EventType::ShellCommand;
    assert_ne!(e.generate_hash(), f.generate_hash());
}

#[test]
fn event_type_ordinals_follow_declaration_order() {
    assert_eq!(EventType::WindowFocus.ordinal(), 0);
    assert_eq!(EventType::BrowserVisit.ordinal(), 3);
    assert_eq!(EventType::SystemEvent.ordinal(), 9);
}

#[test]
fn index_statements_are_exact() {
    let s = index_statements();
    assert_eq!(s.len(), 9);
    assert_eq!(s[0], "CREATE INDEX IF NOT EXISTS idx_events_ts_utc ON events (ts_utc)");
    assert_eq!(s[5], "CREATE INDEX IF NOT EXISTS idx_summaries_period ON summaries (summary_type, period_start, period_end)");
    assert_eq!(s[8], "CREATE INDEX IF NOT EXISTS idx_entities_name ON entities (name)");
}

#[test]
fn open_timeout_is_capped() {
    assert_eq!(open_timeout_secs(None), 300);
    assert_eq!(open_timeout_secs(Some(5)), 5);
    assert_eq!(open_timeout_secs(Some(301)), 300);
    assert_eq!(open_timeout_secs(Some(300)), 300);
}
