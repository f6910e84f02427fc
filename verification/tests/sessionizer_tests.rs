use activity_archive::schema::{Event, EventType, Session, SessionLabel};
use activity_archive::sessionizer::{tags_from_text, tags_text, Sessionizer};

const MIN: i64 = 60_000;

fn focus(ts: i64, app: &str) -> Event {
    let mut e = Event::new("window_focus".to_string(), EventType::WindowFocus);
    e.ts_utc = ts;
    e.app = Some(app.to_string());
    e
}

#[test]
fn test_sessionizer_creation() {
    let sessionizer = Sessionizer::new(30, 15);
    assert_eq!(sessionizer.idle_timeout_minutes, 30);
    assert_eq!(sessionizer.context_switch_threshold_minutes, 15);
}

#[test]
fn test_sessionizer_update_sessions_empty() {
    let sessionizer = Sessionizer::new(30, 15);
    assert!(sessionizer.group_events_into_sessions(&vec![]).is_empty());
}

#[test]
fn test_sessionizer_group_events_into_sessions() {
    let sessionizer = Sessionizer::new(30, 15);
    let now = 1_700_000_000_000i64;
    let events = vec![focus(now, "App1"), focus(now + 5 * MIN, "App1"), focus(now + 10 * MIN, "App2")];

    let sessions = sessionizer.group_events_into_sessions(&events);

    assert!(!sessions.is_empty());
    let first_session = &sessions[0];
    assert_eq!(first_session.start_ts_utc, now);
    assert!(first_session.event_count >= 2);
}

#[test]
fn test_sessionizer_idle_timeout() {
    let sessionizer = Sessionizer::new(30, 15);
    let now = 1_700_000_000_000i64;
    let events = vec![focus(now, "App1"), focus(now + 45 * MIN, "App1")];

    let sessions = sessionizer.group_events_into_sessions(&events);

    assert_eq!(sessions.len(), 2);
}

#[test]
fn test_sessionizer_infer_session_label() {
    let sessionizer = Sessionizer::new(30, 15);
    let mut session = Session::new(1_700_000_000_000);
    session.project_key = Some("myproject".to_string());

    let label = sessionizer.infer_session_label(&session);

    assert_eq!(label, SessionLabel::Coding);
}

#[test]
fn test_sessionizer_extract_context() {
    let sessionizer = Sessionizer::new(30, 15);
    let mut event = Event::new("window_focus".to_string(), EventType::WindowFocus);
    event.app = Some("VSCode".to_string());
    event.project_key = Some("myproject".to_string());

    let context = sessionizer.extract_context(&event);

    assert_eq!(context, "VSCode:myproject");
}

#[test]
fn sessionizer_tests_test_session_label_conversions() {
    assert_eq!(SessionLabel::Coding.as_str(), "coding");
    assert_eq!(SessionLabel::Research.as_str(), "research");
    assert_eq!(SessionLabel::Admin.as_str(), "admin");
    assert_eq!(SessionLabel::Messaging.as_str(), "messaging");
    assert_eq!(SessionLabel::Music.as_str(), "music");
    assert_eq!(SessionLabel::Writing.as_str(), "writing");
    assert_eq!(SessionLabel::Design.as_str(), "design");
    assert_eq!(SessionLabel::Unknown.as_str(), "unknown");

    assert_eq!(SessionLabel::from_str("coding"), Some(SessionLabel::Coding));
    assert_eq!(SessionLabel::from_str("invalid"), None);
}

#[test]
fn test_sessionizer_context_switch() {
    let sessionizer = Sessionizer::new(30, 15);
    let now = 1_700_000_000_000i64;
    let events = vec![focus(now, "App1"), focus(now + 10 * MIN, "App2")];

    let sessions = sessionizer.group_events_into_sessions(&events);

    assert_eq!(sessions.len(), 2);
}

#[test]
fn same_context_stays_until_idle() {
    let sessionizer = Sessionizer::new(30, 15);
    let now = 1_700_000_000_000i64;
    let same = sessionizer.group_events_into_sessions(&vec![focus(now, "App1"), focus(now + 20 * MIN, "App1")]);
    assert_eq!(same.len(), 1);
    let idle = sessionizer.group_events_into_sessions(&vec![focus(now, "App1"), focus(now + 31 * MIN, "App1")]);
    assert_eq!(idle.len(), 2);
}

#[test]
fn sessions_cover_every_event_once() {
    let sessionizer = Sessionizer::new(30, 15);
    let now = 1_700_000_000_000i64;
    let mut events = vec![focus(now, "A"), focus(now + MIN, "A"), focus(now + 40 * MIN, "A"), focus(now + 41 * MIN, "B")];
    events[0].project_key = Some("proj".to_string());
    events[1].project_key = Some("proj".to_string());
    let sessions = sessionizer.group_events_into_sessions(&events);
    assert_eq!(sessions.len(), 3);
    let total: u32 = sessions.iter().map(|s| s.event_count).sum();
    assert_eq!(total, 4);
    assert_eq!(sessions[0].end_ts_utc, Some(now + MIN));
    assert_eq!(sessions[0].project_key.as_deref(), Some("proj"));
    assert_eq!(sessions[0].label, SessionLabel::Coding);
    assert_eq!(sessions[1].start_ts_utc, now + 40 * MIN);
    assert_eq!(sessions[1].end_ts_utc, Some(now + 40 * MIN));
    assert_eq!(sessions[1].label, SessionLabel::Unknown);
    assert_eq!(sessions[2].start_ts_utc, now + 41 * MIN);
}

#[test]
fn tags_round_trip_through_text() {
    let tags = vec!["work".to_string(), "rust".to_string(), "".to_string()];
    let text = tags_text(&tags);
    assert_eq!(text, "work,rust,");
    assert_eq!(tags_from_text(&text), tags);
    assert_eq!(tags_text(&vec![]), "");
    assert_eq!(tags_from_text(""), vec!["".to_string()]);
}

#[test]
fn ordinary_groups_fit_their_counters() {
    let sessionizer = Sessionizer::new(30, 15);
    let now = 1_700_000_000_000i64;
    assert!(sessionizer.fits_counts(&vec![]));
    let events: Vec<Event> = (0..50).map(|k| focus(now + k * MIN, if k % 7 == 0 { "App2" } else { "App1" })).collect();
    assert!(sessionizer.fits_counts(&events));
    let total: u32 = sessionizer.group_events_into_sessions(&events).iter().map(|s| s.event_count).sum();
    assert_eq!(total, 50);
}
