use activity_archive::json::Json;
use activity_archive::privacy::PrivacyManager;
use activity_archive::schema::{Event, EventType, PrivacyAction, PrivacyRuleType};

fn url_details(url: &str) -> Json {
    Json::Object(vec![("url".to_string(), Json::Str(url.to_string()))])
}

#[test]
fn test_add_list_remove_rule() {
    let mut pm = PrivacyManager::new();
    pm.add_exclusion(PrivacyRuleType::ExcludePath, "**/test/**".to_string(), PrivacyAction::Exclude);

    let rules = pm.list_rules();
    assert_eq!(rules.len(), 1);
    assert_eq!(rules[0].pattern, "**/test/**");

    let id = rules[0].id.clone();
    pm.remove_rule(&id);
    assert!(pm.list_rules().is_empty());
}

#[test]
fn test_should_exclude_path() {
    let mut pm = PrivacyManager::new();
    pm.add_exclusion(PrivacyRuleType::ExcludePath, "**/passwords/**".to_string(), PrivacyAction::Exclude);

    let mut event = Event::new("file_activity".to_string(), EventType::FileCreate);
    event.path = Some("/home/user/passwords/secret.txt".to_string());
    assert!(pm.should_exclude(&event));
}

#[test]
fn test_should_exclude_title() {
    let mut pm = PrivacyManager::new();
    pm.add_exclusion(PrivacyRuleType::ExcludeTitle, "*password*".to_string(), PrivacyAction::Exclude);

    let mut event = Event::new("window_focus".to_string(), EventType::WindowFocus);
    event.title = Some("Enter Password".to_string());
    assert!(pm.should_exclude(&event));
}

#[test]
fn test_should_exclude_domain() {
    let mut pm = PrivacyManager::new();
    pm.add_exclusion(PrivacyRuleType::ExcludeDomain, "*.bank.com".to_string(), PrivacyAction::Exclude);

    let mut event = Event::new("browser_visit".to_string(), EventType::BrowserVisit);
    event.details = url_details("https://www.BANK.com/login");
    assert!(pm.should_exclude(&event));

    let mut other = Event::new("browser_visit".to_string(), EventType::BrowserVisit);
    other.details = url_details("https://example.com/");
    assert!(!pm.should_exclude(&other));
}

#[test]
fn test_does_not_exclude_safe_events() {
    let pm = PrivacyManager::new();
    let mut event = Event::new("window_focus".to_string(), EventType::WindowFocus);
    event.title = Some("Safe Document".to_string());
    event.path = Some("/home/user/documents/work.txt".to_string());
    assert!(!pm.should_exclude(&event));
}

#[test]
fn test_redact_replaces_title() {
    let mut pm = PrivacyManager::new();
    pm.add_exclusion(PrivacyRuleType::Redaction, "*secret*".to_string(), PrivacyAction::Redact);

    let mut event = Event::new("window_focus".to_string(), EventType::WindowFocus);
    event.title = Some("My Secret Document".to_string());
    pm.redact(&mut event);
    assert_eq!(event.title.as_deref(), Some("[REDACTED]"));
}

#[test]
fn test_hash_replaces_title_with_hex() {
    let mut pm = PrivacyManager::new();
    pm.add_exclusion(PrivacyRuleType::Redaction, "*token*".to_string(), PrivacyAction::Hash);

    let mut event = Event::new("window_focus".to_string(), EventType::WindowFocus);
    let original = "My Token Value".to_string();
    event.title = Some(original.clone());
    pm.redact(&mut event);

    let hashed = event.title.unwrap();
    assert_ne!(hashed, original);
    assert!(hashed.chars().all(|c| c.is_ascii_hexdigit()));
}

#[test]
fn test_default_rules_cover_common_secrets() {
    let rules = PrivacyManager::default_rules();
    assert!(!rules.is_empty());
    assert!(rules.iter().any(|r| r.rule_type == PrivacyRuleType::ExcludePath && r.pattern.contains("passwords")));
    assert!(rules.iter().any(|r| r.rule_type == PrivacyRuleType::ExcludeTitle && r.pattern.contains("password")));
    assert!(rules.iter().any(|r| r.rule_type == PrivacyRuleType::ExcludeDomain && r.pattern.contains("bank")));
}

#[test]
fn test_initialize_default_rules_seeds_db() {
    let mut pm = PrivacyManager::new();
    pm.initialize_default_rules();
    let rules = pm.list_rules();
    assert_eq!(rules.len(), PrivacyManager::default_rules().len());

    pm.initialize_default_rules();
    assert_eq!(pm.list_rules().len(), PrivacyManager::default_rules().len());
}

#[test]
fn test_privacy_manager_creation() {
    let mut pm = PrivacyManager::new();
    pm.initialize_default_rules();
    assert!(!pm.list_rules().is_empty());
}

#[test]
fn test_privacy_manager_add_exclusion() {
    let mut pm = PrivacyManager::new();
    pm.add_exclusion(PrivacyRuleType::ExcludePath, "**/test/**".to_string(), PrivacyAction::Exclude);
    assert_eq!(pm.stored().len(), 1);
}

#[test]
fn test_privacy_manager_list_rules() {
    let mut pm = PrivacyManager::new();
    pm.add_exclusion(PrivacyRuleType::ExcludePath, "**/test/**".to_string(), PrivacyAction::Exclude);
    let rules = pm.list_rules();
    assert!(!rules.is_empty());
    assert!(rules.iter().any(|r| r.pattern == "**/test/**"));
}

#[test]
fn test_privacy_manager_remove_rule() {
    let mut pm = PrivacyManager::new();
    pm.add_exclusion(PrivacyRuleType::ExcludePath, "**/test/**".to_string(), PrivacyAction::Exclude);
    let rules = pm.list_rules();
    let rule_id = rules[0].id.clone();
    pm.remove_rule(&rule_id);
    let rules_after = pm.list_rules();
    assert!(!rules_after.iter().any(|r| r.id == rule_id));
}

#[test]
fn test_privacy_manager_should_exclude_path() {
    let mut pm = PrivacyManager::new();
    pm.add_exclusion(PrivacyRuleType::ExcludePath, "**/passwords/**".to_string(), PrivacyAction::Exclude);
    let mut event = Event::new("file_activity".to_string(), EventType::FileCreate);
    event.path = Some("/home/user/passwords/secret.txt".to_string());
    assert!(pm.should_exclude(&event));
}

#[test]
fn test_privacy_manager_should_exclude_title() {
    let mut pm = PrivacyManager::new();
    pm.add_exclusion(PrivacyRuleType::ExcludeTitle, "*password*".to_string(), PrivacyAction::Exclude);
    let mut event = Event::new("window_focus".to_string(), EventType::WindowFocus);
    event.title = Some("Enter Password".to_string());
    assert!(pm.should_exclude(&event));
}

#[test]
fn test_privacy_manager_does_not_exclude_safe_events() {
    let pm = PrivacyManager::new();
    let mut event = Event::new("window_focus".to_string(), EventType::WindowFocus);
    event.title = Some("Safe Document".to_string());
    event.path = Some("/home/user/documents/work.txt".to_string());
    assert!(!pm.should_exclude(&event));
}

#[test]
fn test_privacy_manager_redact() {
    let mut pm = PrivacyManager::new();
    pm.add_exclusion(PrivacyRuleType::Redaction, "*secret*".to_string(), PrivacyAction::Redact);
    let mut event = Event::new("window_focus".to_string(), EventType::WindowFocus);
    event.title = Some("My Secret Document".to_string());
    pm.redact(&mut event);
    assert_eq!(event.title, Some("[REDACTED]".to_string()));
}

#[test]
fn test_privacy_manager_hash() {
    let mut pm = PrivacyManager::new();
    pm.add_exclusion(PrivacyRuleType::Redaction, "*token*".to_string(), PrivacyAction::Hash);
    let mut event = Event::new("window_focus".to_string(), EventType::WindowFocus);
    let original_title = "My Token Value".to_string();
    event.title = Some(original_title.clone());
    pm.redact(&mut event);
    assert_ne!(event.title, Some(original_title));
    let hashed = event.title.unwrap();
    assert!(hashed.chars().all(|c| c.is_ascii_hexdigit()));
}

#[test]
fn test_privacy_manager_default_rules() {
    let default_rules = PrivacyManager::default_rules();
    assert!(!default_rules.is_empty());
    assert!(default_rules.iter().any(|r| r.rule_type == PrivacyRuleType::ExcludePath && r.pattern.contains("passwords")));
    assert!(default_rules.iter().any(|r| r.rule_type == PrivacyRuleType::ExcludePath && r.pattern.contains("banking")));
    assert!(default_rules.iter().any(|r| r.rule_type == PrivacyRuleType::ExcludeTitle && r.pattern.contains("password")));
    assert!(default_rules.iter().any(|r| r.rule_type == PrivacyRuleType::ExcludeDomain && r.pattern.contains("bank")));
}

#[test]
fn test_privacy_manager_initialize_default_rules() {
    let mut pm = PrivacyManager::new();
    pm.initialize_default_rules();
    let rules = pm.list_rules();
    assert!(!rules.is_empty());
}

#[test]
fn test_privacy_manager_matches_pattern() {
    let pm = PrivacyManager::new();
    assert!(pm.matches_pattern("/home/user/passwords/secret.txt", "**/passwords/**"));
    assert!(pm.matches_pattern("/home/user/passwords/secret.txt", "**/passwords/*"));
    assert!(!pm.matches_pattern("/home/user/documents/file.txt", "**/passwords/**"));

    assert!(pm.matches_pattern("test.txt", "*.txt"));
    assert!(!pm.matches_pattern("test.txt", "*.md"));

    assert!(pm.matches_pattern("exact_match", "exact_match"));
    assert!(!pm.matches_pattern("exact_match", "different_match"));
}

#[test]
fn test_privacy_manager_hash_value() {
    let pm = PrivacyManager::new();
    let hash1 = pm.hash_value("test_value");
    let hash2 = pm.hash_value("test_value");
    let hash3 = pm.hash_value("different_value");
    assert_eq!(hash1, hash2);
    assert_ne!(hash1, hash3);
    assert!(hash1.chars().all(|c| c.is_ascii_hexdigit()));
}

#[test]
fn rules_list_newest_first_and_default_count() {
    let mut pm = PrivacyManager::new();
    pm.add_exclusion(PrivacyRuleType::ExcludePath, "first".to_string(), PrivacyAction::Exclude);
    pm.add_exclusion(PrivacyRuleType::ExcludePath, "second".to_string(), PrivacyAction::Exclude);
    let rules = pm.list_rules();
    assert_eq!(rules.len(), 2);
    assert!(rules[0].created_at >= rules[1].created_at);
    assert_eq!(PrivacyManager::default_rules().len(), 19);
}

#[test]
fn exclusion_only_grows_with_rules() {
    let mut pm = PrivacyManager::new();
    let mut event = Event::new("file_activity".to_string(), EventType::FileCreate);
    event.path = Some("/home/u/.ssh/id_rsa".to_string());
    assert!(!pm.should_exclude(&event));
    pm.initialize_default_rules();
    assert!(pm.should_exclude(&event));
    pm.add_exclusion(PrivacyRuleType::Redaction, "*".to_string(), PrivacyAction::Redact);
    assert!(pm.should_exclude(&event));
}

#[test]
fn test_privacy_manager_should_exclude_domain() {
    let mut privacy_manager = PrivacyManager::new();

    privacy_manager.add_exclusion(PrivacyRuleType::ExcludeDomain, "*.bank.com".to_string(), PrivacyAction::Exclude);

    let mut event = Event::new("browser_visit".to_string(), EventType::BrowserVisit);
    event.details = url_details("https://www.mybank.com/login");

    assert!(privacy_manager.should_exclude(&event));
}

#[test]
fn domain_rules_cover_the_bare_domain_and_not_others() {
    let mut pm = PrivacyManager::new();
    pm.add_exclusion(PrivacyRuleType::ExcludeDomain, "*.bank.com".to_string(), PrivacyAction::Exclude);
    let mut bare = Event::new("browser_visit".to_string(), EventType::BrowserVisit);
    bare.details = url_details("https://bank.com/");
    assert!(pm.should_exclude(&bare));
    let mut other = Event::new("browser_visit".to_string(), EventType::BrowserVisit);
    other.details = url_details("https://bank.org/");
    assert!(!pm.should_exclude(&other));
}
