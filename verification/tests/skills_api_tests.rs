use activity_archive::json::Json;
use activity_archive::skills_api::{
    install_response, install_source, search_failed_response, set_skill_disabled, skill_enabled, skill_json,
    skills_list_body, strip_disabled, toggle_saved_response, uninstall_response, workspace_skills_dir, InstallBody,
    SkillInfo, TaskOutcome, ToggleDecision,
};

fn strings(v: &[&str]) -> Vec<String> {
    v.iter().map(|s| s.to_string()).collect()
}

fn error_of(body: &Json) -> Option<&str> {
    body.get_str("error")
}

#[test]
fn skills_live_in_the_workspace() {
    assert_eq!(workspace_skills_dir("/home/u/.zeroclaw/workspace"), "/home/u/.zeroclaw/workspace/skills");
}

#[test]
fn install_needs_a_source() {
    let blank = install_source(&InstallBody { source: "  ".to_string() }).err().unwrap();
    assert_eq!(blank.status, 400);
    assert_eq!(error_of(&blank.body), Some("source is required"));
    let ok = install_source(&InstallBody { source: " clawhub:weather ".to_string() }).ok().unwrap();
    assert_eq!(ok, "clawhub:weather");
}

#[test]
fn install_source_trims_unicode_white_space() {
    let ok = install_source(&InstallBody { source: "\u{3000}\t clawhub:weather\u{2009}\u{85}".to_string() }).ok().unwrap();
    assert_eq!(ok, "clawhub:weather");
    let blank = install_source(&InstallBody { source: "\u{a0}\u{2028}".to_string() }).err().unwrap();
    assert_eq!(blank.status, 400);
    // A zero-width space is not white space.
    let kept = install_source(&InstallBody { source: "\u{200b}x".to_string() }).ok().unwrap();
    assert_eq!(kept, "\u{200b}x");
}

#[test]
fn install_outcomes_map_to_answers() {
    let ok = install_response(TaskOutcome::Finished(Ok(("/w/skills/weather".to_string(), 3))));
    assert_eq!(ok.status, 200);
    assert_eq!(ok.body.get_str("status"), Some("ok"));
    assert_eq!(ok.body.get_str("installed_path"), Some("/w/skills/weather"));
    assert_eq!(ok.body.get("files_scanned").and_then(|v| v.as_u64()), Some(3));
    let failed = install_response(TaskOutcome::Finished(Err("bad manifest".to_string())));
    assert_eq!((failed.status, error_of(&failed.body)), (400, Some("install failed: bad manifest")));
    let crashed = install_response(TaskOutcome::Crashed("panicked".to_string()));
    assert_eq!((crashed.status, error_of(&crashed.body)), (500, Some("install task failed: panicked")));
}

#[test]
fn uninstall_outcomes_map_to_answers() {
    assert_eq!(uninstall_response(TaskOutcome::Finished(Ok(()))).status, 200);
    let failed = uninstall_response(TaskOutcome::Finished(Err("missing".to_string())));
    assert_eq!((failed.status, error_of(&failed.body)), (400, Some("uninstall failed: missing")));
    let crashed = uninstall_response(TaskOutcome::Crashed("x".to_string()));
    assert_eq!(crashed.status, 500);
}

#[test]
fn disabling_and_enabling_edit_the_list() {
    let list = strings(&["a", "b"]);
    match set_skill_disabled(&list, "c", true) {
        ToggleDecision::Changed(n) => assert_eq!(n, strings(&["a", "b", "c"])),
        _ => panic!("disabling an enabled skill changes the list"),
    }
    match set_skill_disabled(&list, "a", false) {
        ToggleDecision::Changed(n) => assert_eq!(n, strings(&["b"])),
        _ => panic!("enabling a disabled skill changes the list"),
    }
    match set_skill_disabled(&list, "a", true) {
        ToggleDecision::Unchanged(r) => {
            assert_eq!(r.status, 200);
            assert_eq!(r.body.get("changed"), Some(&Json::Bool(false)));
        }
        _ => panic!("disabling a disabled skill changes nothing"),
    }
    match set_skill_disabled(&list, " ", true) {
        ToggleDecision::Rejected(r) => assert_eq!((r.status, error_of(&r.body)), (400, Some("skill id is required"))),
        _ => panic!("a blank id is refused"),
    }
}

#[test]
fn list_helpers() {
    let list = strings(&["a", "b", "a"]);
    assert_eq!(strip_disabled(&list, "a"), (strings(&["b"]), true));
    assert_eq!(strip_disabled(&list, "z"), (list.clone(), false));
    assert!(!skill_enabled(&Some("b".to_string()), &list));
    assert!(skill_enabled(&Some("c".to_string()), &list));
    assert!(skill_enabled(&None, &list));
}

#[test]
fn save_and_search_answers() {
    let saved = toggle_saved_response(None);
    assert_eq!(saved.status, 200);
    assert_eq!(saved.body.get("changed"), Some(&Json::Bool(true)));
    let failed = toggle_saved_response(Some("disk full".to_string()));
    assert_eq!((failed.status, error_of(&failed.body)), (500, Some("failed to persist config: disk full")));
    let search = search_failed_response("timeout");
    assert_eq!((search.status, error_of(&search.body)), (502, Some("clawhub search failed: timeout")));
}

fn weather() -> SkillInfo {
    SkillInfo {
        id: Some("weather".to_string()),
        name: "Weather".to_string(),
        description: "Forecasts".to_string(),
        version: "1.2.0".to_string(),
        author: None,
        tags: strings(&["api", "daily"]),
        tool_count: 2,
        prompt_count: 1,
        location: Some("/w/skills/weather".to_string()),
    }
}

#[test]
fn listed_skills_show_their_fields() {
    let j = skill_json(&weather(), &strings(&["other"]));
    assert_eq!(j.get_str("id"), Some("weather"));
    assert_eq!(j.get_str("name"), Some("Weather"));
    assert_eq!(j.get_str("version"), Some("1.2.0"));
    assert_eq!(j.get("author"), Some(&Json::Null));
    assert_eq!(j.get("tool_count").and_then(|v| v.as_u64()), Some(2));
    assert_eq!(j.get("prompt_count").and_then(|v| v.as_u64()), Some(1));
    assert_eq!(j.get_str("location"), Some("/w/skills/weather"));
    assert_eq!(j.get("enabled"), Some(&Json::Bool(true)));
    match j.get("tags") {
        Some(Json::Array(tags)) => assert_eq!(tags, &vec![Json::Str("api".to_string()), Json::Str("daily".to_string())]),
        _ => panic!("tags must be an array"),
    }
    let disabled = skill_json(&weather(), &strings(&["weather"]));
    assert_eq!(disabled.get("enabled"), Some(&Json::Bool(false)));
    let mut unnamed = weather();
    unnamed.id = None;
    assert_eq!(skill_json(&unnamed, &strings(&["weather"])).get("enabled"), Some(&Json::Bool(true)));
}

#[test]
fn the_listing_holds_every_skill() {
    let body = skills_list_body(&vec![weather(), weather()], &vec![]);
    match body.get("skills") {
        Some(Json::Array(items)) => assert_eq!(items.len(), 2),
        _ => panic!("skills must be an array"),
    }
}
