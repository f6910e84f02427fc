use activity_archive::json::Json;
use activity_archive::notion_sync::{finish_item, mark_syncing, NotionSync};
use activity_archive::schema::{NotionSyncType, Session, SessionLabel, Summary, SummaryType, SyncStatus};

const DAY: i64 = 86_400_000;

fn sync() -> NotionSync {
    NotionSync::new("key".to_string(), "daily".to_string(), "sessions".to_string(), "projects".to_string(), 300)
}

#[test]
fn daily_log_payload_carries_date_text_and_metrics() {
    let mut summary = Summary::new(SummaryType::Daily, 19_675 * DAY, 19_676 * DAY);
    summary.content = "a day".to_string();
    let item = sync().queue_daily_log(&summary);
    assert_eq!(item.sync_type, NotionSyncType::DailyLog);
    assert_eq!(item.target_id, "daily");
    assert_eq!(item.status, SyncStatus::Pending);
    assert_eq!(item.retry_count, 0);
    assert!(item.notion_page_id.is_none());
    assert_eq!(item.payload.get_str("date"), Some("2023-11-14"));
    assert_eq!(item.payload.get_str("summary"), Some("a day"));
    assert!(item.payload.get("metrics").unwrap().is_object());
}

#[test]
fn far_dates_are_written_with_a_signed_year() {
    // 20000-01-02T00:00:00Z
    let t: i64 = 568_971_907_200_000;
    let summary = Summary::new(SummaryType::Daily, t, t + DAY);
    assert_eq!(sync().queue_daily_log(&summary).payload.get_str("date"), Some("+20000-01-02"));
    let session = Session::new(t);
    assert_eq!(sync().queue_session(&session).payload.get_str("start_time"), Some("+20000-01-02T00:00:00+00:00"));
}

#[test]
fn session_payload_lists_its_fields() {
    let mut session = Session::new(1_700_000_000_000);
    session.end_ts_utc = Some(1_700_000_060_000);
    session.label = SessionLabel::Coding;
    session.project_key = Some("archive".to_string());
    session.tags = vec!["rust".to_string(), "verus".to_string()];
    session.event_count = 7;
    let item = sync().queue_session(&session);
    assert_eq!(item.target_id, "sessions");
    assert_eq!(item.payload.get_str("start_time"), Some("2023-11-14T22:13:20+00:00"));
    assert_eq!(item.payload.get_str("end_time"), Some("2023-11-14T22:14:20+00:00"));
    assert_eq!(item.payload.get_str("label"), Some("coding"));
    assert_eq!(item.payload.get_str("project_key"), Some("archive"));
    assert!(matches!(item.payload.get("summary"), Some(Json::Null)));
    assert_eq!(item.payload.get("event_count").and_then(|v| v.as_u64()), Some(7));
    match item.payload.get("tags") {
        Some(Json::Array(tags)) => assert_eq!(tags.len(), 2),
        _ => panic!("tags must be an array"),
    }
}

#[test]
fn project_payload_names_the_project() {
    let mut summary = Summary::new(SummaryType::Project, 0, 19_675 * DAY);
    summary.content = "busy".to_string();
    let item = sync().queue_project("archive", &summary);
    assert_eq!(item.sync_type, NotionSyncType::Project);
    assert_eq!(item.target_id, "projects");
    assert_eq!(item.payload.get_str("name"), Some("archive"));
    assert_eq!(item.payload.get_str("last_activity"), Some("2023-11-14T00:00:00+00:00"));
}

#[test]
fn processing_marks_items_synced_with_their_page() {
    let summary = Summary::new(SummaryType::Daily, 0, DAY);
    let s = sync();
    let mut item = s.queue_daily_log(&summary);
    let page = format!("page_{}", item.id);
    s.process_item(&mut item, 42);
    assert_eq!(item.status, SyncStatus::Synced);
    assert_eq!(item.notion_page_id, Some(page));
    assert_eq!(item.updated_at, 42);
    assert_eq!(item.retry_count, 0);
}

#[test]
fn a_failed_sync_counts_a_retry() {
    let summary = Summary::new(SummaryType::Daily, 0, DAY);
    let mut item = sync().queue_daily_log(&summary);
    mark_syncing(&mut item, 5);
    assert_eq!(item.status, SyncStatus::Syncing);
    finish_item(&mut item, Err("offline".to_string()), 6);
    assert_eq!(item.status, SyncStatus::Failed);
    assert_eq!(item.retry_count, 1);
    assert!(item.notion_page_id.is_none());
    item.retry_count = u32::MAX;
    finish_item(&mut item, Err("offline".to_string()), 7);
    assert_eq!(item.retry_count, u32::MAX);
}

#[test]
fn stats_count_each_status() {
    let statuses = vec![
        SyncStatus::Pending,
        SyncStatus::Synced,
        SyncStatus::Pending,
        SyncStatus::Failed,
        SyncStatus::Syncing,
        SyncStatus::Synced,
        SyncStatus::Synced,
    ];
    let stats = NotionSync::get_sync_stats(&statuses);
    assert_eq!((stats.pending, stats.syncing, stats.synced, stats.failed), (2, 1, 3, 1));
    assert_eq!(stats.pending + stats.syncing + stats.synced + stats.failed, statuses.len() as u32);
    let none = NotionSync::get_sync_stats(&[]);
    assert_eq!((none.pending, none.syncing, none.synced, none.failed), (0, 0, 0, 0));
}
