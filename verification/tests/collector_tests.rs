use activity_archive::collector::OffsetTracker;
use activity_archive::collectors::browser_history::BrowserHistoryCollector;
use activity_archive::collectors::file_activity::{Debouncer, FileActivityCollector, FileEventKind};
use activity_archive::collectors::process_launch::ProcessLaunchCollector;
use activity_archive::collectors::shell_activity::ShellActivityCollector;
use activity_archive::collectors::window_focus::{FocusState, IdleOutcome, WindowFocusCollector};
use activity_archive::json::Json;
use activity_archive::schema::RawEvent;

fn obj(pairs: Vec<(&str, Json)>) -> Json {
    Json::Object(pairs.into_iter().map(|(k, v)| (k.to_string(), v)).collect())
}

fn s(x: &str) -> Json {
    Json::Str(x.to_string())
}

#[test]
fn browser_history_test_creation() {
    let c = BrowserHistoryCollector::new(":memory:".to_string());
    assert_eq!(c.name(), "browser_history");
}

#[test]
fn test_domain_exclusion() {
    let excl = vec!["*.bank.com".to_string(), "secret.example.org".to_string()];
    assert!(BrowserHistoryCollector::is_domain_excluded("https://www.bank.com/login", &excl));
    assert!(BrowserHistoryCollector::is_domain_excluded("https://secret.example.org/page", &excl));
    assert!(!BrowserHistoryCollector::is_domain_excluded("https://github.com/project", &excl));
}

#[test]
fn file_activity_test_creation() {
    let c = FileActivityCollector::new(":memory:".to_string(), vec![]);
    assert_eq!(c.name(), "file_activity");
}

#[test]
fn test_is_excluded() {
    let pats = vec!["**/.ssh/**".to_string(), "**/node_modules/**".to_string()];
    assert!(FileActivityCollector::is_excluded("C:\\Users\\.ssh\\id_rsa", &pats));
    assert!(!FileActivityCollector::is_excluded("C:\\project\\src\\main.rs", &pats));
}

#[test]
fn process_launch_test_creation() {
    let c = ProcessLaunchCollector::new(":memory:".to_string());
    assert_eq!(c.name(), "process_launch");
}

#[test]
fn test_get_process_list_returns_pids() {
    // The buffer an enumeration filled: three slots reported, one of them empty.
    let buf = vec![4u32, 0, 612, 0, 0];
    let pids = ProcessLaunchCollector::live_pids(&buf, 12);
    assert!(!pids.is_empty(), "should find at least one running process");
    assert_eq!(pids, vec![4, 612]);
}

#[test]
fn shell_activity_test_creation() {
    let c = ShellActivityCollector::new(":memory:".to_string());
    assert_eq!(c.name(), "shell_activity");
}

#[test]
fn test_hash_command() {
    let h1 = ShellActivityCollector::hash_command("git push origin main");
    let h2 = ShellActivityCollector::hash_command("git push origin main");
    let h3 = ShellActivityCollector::hash_command("different command");
    assert_eq!(h1, h2);
    assert_ne!(h1, h3);
    assert_eq!(h1.len(), 16);
}

#[test]
fn test_collector_creation() {
    let collector = WindowFocusCollector::new(":memory:".to_string(), 2, 120);
    assert_eq!(collector.name(), "window_focus");
}

#[test]
fn test_offset_tracker() {
    let tracker = OffsetTracker::new("test_collector".to_string(), ":memory:".to_string());
    assert_eq!(tracker.db_path(), ":memory:");
    assert_eq!(tracker.collector_name(), "test_collector");
}

#[test]
fn test_offset_tracker_creation() {
    let tracker = OffsetTracker::new("test_collector".to_string(), "/tmp/archive.db".to_string());
    assert_eq!(tracker.collector_name(), "test_collector");
}

#[test]
fn collector_tests_test_raw_event_creation() {
    let payload = obj(vec![("test_field", s("test_value"))]);
    let event = RawEvent::new("test_source".to_string(), payload.clone());
    assert_eq!(event.source, "test_source");
    assert_eq!(event.payload, payload);
    assert!(!event.id.is_empty());
}

#[test]
fn test_window_focus_collector_creation() {
    let collector = WindowFocusCollector::new("/tmp/a.db".to_string(), 2, 120);
    assert_eq!(collector.name(), "window_focus");
}

#[test]
fn test_process_launch_collector_creation() {
    let collector = ProcessLaunchCollector::new("/tmp/a.db".to_string());
    assert_eq!(collector.name(), "process_launch");
}

#[test]
fn test_browser_history_collector_creation() {
    let collector = BrowserHistoryCollector::new("/tmp/a.db".to_string());
    assert_eq!(collector.name(), "browser_history");
}

#[test]
fn test_shell_activity_collector_creation() {
    let collector = ShellActivityCollector::new("/tmp/a.db".to_string());
    assert_eq!(collector.name(), "shell_activity");
}

#[test]
fn test_file_activity_collector_creation() {
    let folders = vec!["/tmp/a.db".to_string(), "/test/folder".to_string()];
    let collector = FileActivityCollector::new("/tmp/a.db".to_string(), folders);
    assert_eq!(collector.name(), "file_activity");
    assert_eq!(collector.folders().len(), 2);
}

#[test]
fn test_multiple_collectors() {
    let names = vec![
        WindowFocusCollector::new("/tmp/a.db".to_string(), 2, 120).name(),
        ProcessLaunchCollector::new("/tmp/a.db".to_string()).name(),
        BrowserHistoryCollector::new("/tmp/a.db".to_string()).name(),
        ShellActivityCollector::new("/tmp/a.db".to_string()).name(),
    ];
    assert_eq!(names.len(), 4);
    for n in names {
        assert!(!n.is_empty());
    }
}

#[test]
fn collector_settings_are_clamped() {
    let w = WindowFocusCollector::new("db".to_string(), 0, 3);
    assert_eq!(w.poll_interval_secs(), 1);
    assert_eq!(w.idle_threshold_seconds(), 10);
    let b = BrowserHistoryCollector::new("db".to_string());
    assert_eq!(b.poll_interval_secs(), 60);
    let b = b.with_poll_interval(3);
    assert_eq!(b.poll_interval_secs(), 10);
    let b = b.with_poll_interval(90);
    assert_eq!(b.poll_interval_secs(), 90);
    assert_eq!(ProcessLaunchCollector::new("db".to_string()).poll_interval_secs(), 5);
}

#[test]
fn shell_reads_only_new_non_blank_lines() {
    let c = ShellActivityCollector::new("db".to_string()).with_hash_commands(false);
    let contents = b"old\r\n  ls -la  \n\n   \ngit status\n".to_vec();
    assert!(c.new_commands(contents.len() as u64, &contents).is_none());
    let (cmds, next) = c.new_commands(5, &contents).unwrap();
    assert_eq!(cmds, vec!["ls -la".to_string(), "git status".to_string()]);
    assert_eq!(next, contents.len() as u64);
    let hashed = ShellActivityCollector::new("db".to_string());
    let (cmds, _) = hashed.new_commands(5, &contents).unwrap();
    assert_eq!(cmds[0], ShellActivityCollector::hash_command("ls -la"));
    assert_eq!(cmds[0].len(), 16);
}

#[test]
fn shell_start_offset_resets_after_truncation() {
    assert_eq!(ShellActivityCollector::start_offset(&Some("120".to_string()), Some(500)), 120);
    assert_eq!(ShellActivityCollector::start_offset(&Some("120".to_string()), Some(100)), 0);
    assert_eq!(ShellActivityCollector::start_offset(&Some("junk".to_string()), Some(100)), 0);
    assert_eq!(ShellActivityCollector::start_offset(&None, None), 0);
    assert_eq!(ShellActivityCollector::start_offset(&Some("+7".to_string()), None), 7);
}

#[test]
fn shell_command_event_payload() {
    let c = ShellActivityCollector::new("db".to_string());
    let e = c.command_event("abc".to_string());
    assert_eq!(e.source, "shell_activity");
    assert_eq!(e.payload, obj(vec![("command", s("abc")), ("shell", s("powershell")), ("hashed", Json::Bool(true))]));
}

#[test]
fn browser_visits_skip_excluded_and_advance() {
    let c = BrowserHistoryCollector::new("db".to_string()).with_exclude_domains(vec!["*.bank.com".to_string()]);
    let rows = vec![
        ("https://www.bank.com/a".to_string(), "Bank".to_string(), 500i64),
        ("https://github.com/x".to_string(), "Repo".to_string(), 300i64),
        ("https://docs.rs/".to_string(), "Docs".to_string(), 400i64),
    ];
    let (events, next) = c.process_visits("chrome", 100, &rows);
    assert_eq!(events.len(), 2);
    assert_eq!(next, Some(400));
    assert_eq!(events[0].payload, obj(vec![
        ("url", s("https://github.com/x")),
        ("title", s("Repo")),
        ("browser", s("chrome")),
        ("visit_time", Json::Number(300)),
    ]));
    let (none, stay) = c.process_visits("chrome", 1000, &vec![]);
    assert!(none.is_empty());
    assert_eq!(stay, None);
    assert_eq!(BrowserHistoryCollector::offset_name("edge"), "browser_history_edge");
    assert_eq!(BrowserHistoryCollector::saved_offset(&Some("-42".to_string())), Some(-42));
    assert_eq!(BrowserHistoryCollector::saved_offset(&Some("4x".to_string())), None);
}

#[test]
fn file_changes_are_debounced() {
    let c = FileActivityCollector::new("db".to_string(), vec![]).with_exclude_paths(vec!["**/.ssh/**".to_string()]);
    let mut d = Debouncer::new();
    let paths = vec!["/p/a.txt".to_string(), "/home/.ssh/key".to_string(), "/p/a.txt".to_string()];
    let first = c.events_for(&mut d, FileEventKind::Modify, &paths, 10_000);
    assert_eq!(first.len(), 1);
    assert_eq!(first[0].payload, obj(vec![("action", s("modify")), ("path", s("/p/a.txt"))]));
    let again = c.events_for(&mut d, FileEventKind::Modify, &paths, 10_300);
    assert!(again.is_empty());
    let later = c.events_for(&mut d, FileEventKind::Modify, &paths, 10_600);
    assert_eq!(later.len(), 1);
    let other_kind = c.events_for(&mut d, FileEventKind::Create, &paths, 10_700);
    assert_eq!(other_kind.len(), 1);
    assert!(c.events_for(&mut d, FileEventKind::Other, &paths, 20_000).is_empty());
    assert_eq!(FileActivityCollector::event_kind_to_action(FileEventKind::Remove), Some("delete"));
}

#[test]
fn debouncer_prunes_old_changes() {
    let mut d = Debouncer::new();
    assert!(d.pass_through("a", "modify", 1_000));
    assert!(d.pass_through("b", "modify", 20_000));
    assert_eq!(d.len(), 2);
    d.prune(25_000);
    assert_eq!(d.len(), 1);
    assert!(!d.pass_through("b", "modify", 20_100));
    assert!(d.pass_through("a", "modify", 20_100));
}

#[test]
fn a_full_debouncer_is_pruned_after_a_report() {
    let c = FileActivityCollector::new("db".to_string(), vec![]);
    let mut d = Debouncer::new();
    let old: Vec<String> = (0..1000).map(|i| format!("/p/{i}")).collect();
    assert_eq!(c.events_for(&mut d, FileEventKind::Modify, &old, 0).len(), 1000);
    assert_eq!(d.len(), 1000);
    let one_more = vec!["/p/new".to_string()];
    assert_eq!(c.events_for(&mut d, FileEventKind::Modify, &one_more, 20_000).len(), 1);
    assert_eq!(d.len(), 1);
    let repeat = c.events_for(&mut d, FileEventKind::Modify, &vec!["/p/0".to_string()], 20_100);
    assert_eq!(repeat.len(), 1);
    assert_eq!(d.len(), 2);
}

#[test]
fn process_diff_finds_started_and_exited() {
    let known = ProcessLaunchCollector::pid_set(&vec![1u32, 2, 3]);
    let current = ProcessLaunchCollector::pid_set(&vec![2u32, 4, 4, 5]);
    assert_eq!(current.len(), 3);
    let mut started = ProcessLaunchCollector::new_pids(&known, &current);
    started.sort();
    assert_eq!(started, vec![4, 5]);
    let mut exited = ProcessLaunchCollector::exited_pids(&known, &current);
    exited.sort();
    assert_eq!(exited, vec![1, 3]);
    let e = ProcessLaunchCollector::start_event(42, None);
    assert_eq!(e.payload, obj(vec![
        ("process_name", s("pid_42")),
        ("process_id", Json::Number(42)),
        ("event", s("start")),
    ]));
    let x = ProcessLaunchCollector::exit_event(7);
    assert_eq!(x.payload, obj(vec![("process_id", Json::Number(7)), ("event", s("exit"))]));
    assert_eq!(ProcessLaunchCollector::process_name_of("/usr/bin/code"), "code");
}

#[test]
fn focus_state_reports_idle_once() {
    let mut st = FocusState::new();
    let (o, e) = st.idle_step(Some(200), 120);
    assert_eq!(o, IdleOutcome::WentIdle);
    let e = e.unwrap();
    assert_eq!(e.source, "user_idle");
    assert_eq!(e.payload, obj(vec![("idle_seconds", Json::Number(200))]));
    let (o, e) = st.idle_step(Some(300), 120);
    assert_eq!(o, IdleOutcome::StillIdle);
    assert!(e.is_none());
    let (o, e) = st.idle_step(Some(3), 120);
    assert_eq!(o, IdleOutcome::Woke);
    assert_eq!(e.unwrap().source, "user_active");
    let (o, e) = st.idle_step(None, 120);
    assert_eq!(o, IdleOutcome::Active);
    assert!(e.is_none());
}

#[test]
fn no_focus_check_while_idle() {
    let mut st = FocusState::new();
    let (o, _) = st.idle_step(Some(200), 120);
    assert!(!o.focus_due());
    let (o, _) = st.idle_step(Some(120), 120);
    assert!(!o.focus_due());
    let (o, _) = st.idle_step(Some(5), 120);
    assert!(o.focus_due());
    let (o, _) = st.idle_step(None, 120);
    assert!(o.focus_due());
}

#[test]
fn focus_state_reports_new_windows_only() {
    let mut st = FocusState::new();
    let apps = vec![("code.exe".to_string(), 900u32), ("chrome.exe".to_string(), 901u32)];
    let e = st.focus_step(&apps).unwrap();
    assert_eq!(e.payload, obj(vec![
        ("window_title", s("code.exe - running")),
        ("process_id", Json::Number(900)),
        ("process_name", s("code.exe")),
    ]));
    let e2 = st.focus_step(&apps).unwrap();
    assert_eq!(e2.payload, obj(vec![
        ("window_title", s("chrome.exe - running")),
        ("process_id", Json::Number(901)),
        ("process_name", s("chrome.exe")),
    ]));
    let one = vec![("chrome.exe".to_string(), 901u32)];
    assert!(st.focus_step(&one).is_none());
}

#[test]
fn applications_skip_system_and_unnamed() {
    let found = vec![(4u32, Some("System".to_string())), (500u32, None), (501u32, Some("a.exe".to_string()))];
    assert_eq!(WindowFocusCollector::select_applications(&found), vec![("a.exe".to_string(), 501u32)]);
    let many: Vec<(u32, Option<String>)> = (0..30).map(|i| (1000 + i, Some(format!("p{i}")))).collect();
    assert_eq!(WindowFocusCollector::select_applications(&many).len(), 20);
}
