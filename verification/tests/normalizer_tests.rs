use activity_archive::json::Json;
use activity_archive::normalizer::Normalizer;
use activity_archive::schema::{EntityType, Event, EventType, PrivacyAction, PrivacyRule, PrivacyRuleType, RawEvent};

fn payload(pairs: Vec<(&str, &str)>) -> Json {
    Json::Object(pairs.into_iter().map(|(k, v)| (k.to_string(), Json::Str(v.to_string()))).collect())
}

fn rule(t: PrivacyRuleType, pattern: &str, action: PrivacyAction) -> PrivacyRule {
    PrivacyRule::new(t, pattern.to_string(), action)
}

#[test]
fn raw_events_take_their_type_from_the_source() {
    let file = RawEvent::new("file_activity".to_string(), payload(vec![("action", "rename")]));
    assert_eq!(Normalizer::event_type_of(&file), EventType::FileRename);
    let odd = RawEvent::new("file_activity".to_string(), payload(vec![("action", "touch")]));
    assert_eq!(Normalizer::event_type_of(&odd), EventType::SystemEvent);
    let shell = RawEvent::new("shell_activity".to_string(), payload(vec![]));
    assert_eq!(Normalizer::event_type_of(&shell), EventType::ShellCommand);
    let other = RawEvent::new("clipboard".to_string(), payload(vec![]));
    assert_eq!(Normalizer::event_type_of(&other), EventType::SystemEvent);
}

#[test]
fn parsing_copies_the_payload_fields() {
    let mut raw = RawEvent::new(
        "window_focus".to_string(),
        payload(vec![("window_title", "main.rs - archive"), ("process_name", "Code.exe"), ("url", "https://a.b/c")]),
    );
    raw.timestamp = 1_700_000_000_000;
    let e = Normalizer::new().parse_raw_event(&raw);
    assert_eq!(e.event_type, EventType::WindowFocus);
    assert_eq!(e.ts_utc, 1_700_000_000_000);
    assert_eq!(e.title.as_deref(), Some("main.rs - archive"));
    assert_eq!(e.app.as_deref(), Some("Code.exe"));
    assert_eq!(e.details.get_str("url"), Some("https://a.b/c"));
    assert_eq!(e.raw_ref.as_deref(), Some(raw.id.as_str()));
}

#[test]
fn a_command_replaces_the_url_in_details() {
    let raw = RawEvent::new("shell_activity".to_string(), payload(vec![("url", "https://x.y"), ("command", "ls")]));
    let e = Normalizer::new().parse_raw_event(&raw);
    assert_eq!(e.details.get_str("command"), Some("ls"));
    assert_eq!(e.details.get_str("url"), None);
}

#[test]
fn excluded_events_are_dropped() {
    let mut n = Normalizer::new();
    n.load_privacy_rules(vec![rule(PrivacyRuleType::ExcludeTitle, "*password*", PrivacyAction::Exclude)]);
    let secret = RawEvent::new("window_focus".to_string(), payload(vec![("window_title", "my password manager")]));
    assert!(n.process_raw_event(&secret).is_none());
    let fine = RawEvent::new("window_focus".to_string(), payload(vec![("window_title", "notes")]));
    assert!(n.process_raw_event(&fine).is_some());
}

#[test]
fn redaction_rules_rewrite_titles() {
    let mut n = Normalizer::new();
    n.load_privacy_rules(vec![rule(PrivacyRuleType::Redaction, "*secret*", PrivacyAction::Redact)]);
    let raw = RawEvent::new("window_focus".to_string(), payload(vec![("window_title", "top secret plan")]));
    let out = n.process_raw_event(&raw).unwrap();
    assert_eq!(out.event.title.as_deref(), Some("[REDACTED]"));

    let mut h = Normalizer::new();
    h.load_privacy_rules(vec![rule(PrivacyRuleType::Redaction, "*secret*", PrivacyAction::Hash)]);
    let hashed = h.process_raw_event(&raw).unwrap();
    let title = hashed.event.title.unwrap();
    assert_ne!(title, "top secret plan");
    assert_eq!(title, h.hash_value("top secret plan"));
    assert!(title.chars().all(|c| c.is_ascii_hexdigit()));
}

#[test]
fn projects_come_from_paths_then_titles() {
    let n = Normalizer::new();
    assert_eq!(n.extract_project_from_title("main.rs - archive - Code").as_deref(), Some("main.rs"));
    assert_eq!(n.extract_project_from_title("no separator"), None);
    assert_eq!(n.extract_project_from_path("/home/u/archive/src/main.rs").as_deref(), Some("src"));
    assert_eq!(n.extract_project_from_path("/home/u/docs/notes.txt"), None);

    let mut e = Event::new("file_activity".to_string(), EventType::FileModify);
    e.path = Some("/home/u/docs/notes.txt".to_string());
    e.title = Some("archive - Code".to_string());
    assert_eq!(n.infer_project_key(&e).as_deref(), Some("archive"));
}

#[test]
fn domains_come_from_urls() {
    let n = Normalizer::new();
    assert_eq!(n.extract_domain_from_url("https://docs.rs/regex/latest").as_deref(), Some("docs.rs"));
    assert_eq!(n.extract_domain_from_url("not a url"), None);
}

#[test]
fn entities_follow_app_project_domain() {
    let raw = RawEvent::new(
        "browser_history".to_string(),
        payload(vec![("process_name", "chrome"), ("url", "https://github.com/x"), ("path", "/w/proj/src/a.rs")]),
    );
    let out = Normalizer::new().process_raw_event(&raw).unwrap();
    let kinds: Vec<EntityType> = out.entities.iter().map(|e| e.entity_type).collect();
    assert_eq!(kinds, vec![EntityType::App, EntityType::Project, EntityType::Domain]);
    assert_eq!(out.entities[0].name, "chrome");
    assert_eq!(out.entities[2].name, "github.com");
    assert!(out.entities.iter().all(|e| e.occurrence_count == 1));
    assert!(out.event.hash.is_some());
    assert_eq!(out.event.project_key.as_deref(), Some("src"));
}
