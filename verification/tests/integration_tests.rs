use activity_archive::runtime::{
    ActivityArchiveConfig, ActivityArchiveRuntime, ArchiveCollector, CollectorConfig, NotionSyncConfig, PrivacyConfig,
    SessionizerConfig, SummarizerConfig,
};

const WORKSPACE: &str = "/tmp/archive-workspace";

fn collectors_off() -> CollectorConfig {
    CollectorConfig {
        window_focus: false,
        process_launch: false,
        browser_history: false,
        shell_activity: false,
        file_activity: false,
        ..CollectorConfig::default()
    }
}

#[test]
fn config_defaults_match_schema() {
    let config = ActivityArchiveConfig::default();

    assert!(!config.enabled);
    assert!(config.database_path.is_none());
    assert!(config.collectors.window_focus);
    assert!(config.collectors.process_launch);
    assert!(config.collectors.browser_history);
    assert!(config.collectors.shell_activity);
    assert!(!config.collectors.file_activity);
    assert!(config.collectors.file_activity_folders.is_empty());
    assert_eq!(config.collectors.poll_interval_seconds, 2);
    assert_eq!(config.collectors.idle_threshold_seconds, 120);
    assert_eq!(config.sessionizer.idle_timeout_minutes, 30);
    assert_eq!(config.sessionizer.context_switch_threshold_minutes, 15);
    assert!(config.summarizer.enabled);
    assert!(!config.notion_sync.enabled);
    assert_eq!(config.notion_sync.sync_interval_minutes, 5);
    assert!(config.privacy.redact_clipboard);
}

#[test]
fn runtime_creation_with_no_collectors() {
    let config = ActivityArchiveConfig { enabled: true, collectors: collectors_off(), ..ActivityArchiveConfig::default() };

    let runtime = ActivityArchiveRuntime::new(config, WORKSPACE);
    let status = runtime.status();
    assert!(status.enabled);
    assert_eq!(status.collectors_running, 0);
}

#[test]
fn runtime_starts_each_enabled_collector() {
    let config = ActivityArchiveConfig {
        enabled: true,
        collectors: CollectorConfig {
            window_focus: true,
            process_launch: true,
            browser_history: true,
            shell_activity: true,
            file_activity: false,
            ..CollectorConfig::default()
        },
        ..ActivityArchiveConfig::default()
    };

    let runtime = ActivityArchiveRuntime::new(config, WORKSPACE);
    assert_eq!(runtime.status().collectors_running, 4);
    let names: Vec<&str> = runtime.collectors().iter().map(|c| c.name()).collect();
    assert_eq!(names, vec!["window_focus", "process_launch", "browser_history", "shell_activity"]);
}

#[test]
fn collectors_get_their_configured_settings() {
    let config = ActivityArchiveConfig {
        enabled: true,
        database_path: Some("/tmp/a.db".to_string()),
        collectors: CollectorConfig {
            window_focus: true,
            process_launch: false,
            browser_history: false,
            shell_activity: false,
            file_activity: true,
            file_activity_folders: vec!["/home/u/code".to_string(), "/home/u/notes".to_string()],
            poll_interval_seconds: 0,
            idle_threshold_seconds: 120,
        },
        ..ActivityArchiveConfig::default()
    };
    let runtime = ActivityArchiveRuntime::new(config, WORKSPACE);
    match &runtime.collectors()[0] {
        ArchiveCollector::WindowFocus(w) => {
            assert_eq!(w.poll_interval_secs(), 1);
            assert_eq!(w.idle_threshold_seconds(), 120);
            assert_eq!(w.tracker().db_path(), "/tmp/a.db");
        }
        _ => panic!("the window collector comes first"),
    }
    match &runtime.collectors()[1] {
        ArchiveCollector::FileActivity(f) => {
            assert_eq!(f.folders(), &vec!["/home/u/code".to_string(), "/home/u/notes".to_string()]);
            assert_eq!(f.tracker().db_path(), "/tmp/a.db");
            assert_eq!(f.tracker().collector_name(), "file_activity");
        }
        _ => panic!("the file collector comes second"),
    }
}

#[test]
fn database_lands_in_workspace_when_path_unset() {
    let config = ActivityArchiveConfig { enabled: true, ..ActivityArchiveConfig::default() };

    let runtime = ActivityArchiveRuntime::new(config, WORKSPACE);
    let expected = std::path::Path::new(WORKSPACE).join("activity_archive.db");
    assert_eq!(runtime.database_path(), expected.to_string_lossy());
}

#[test]
fn database_path_override_is_honored() {
    let custom = "/tmp/archive-workspace/custom.db".to_string();
    let config = ActivityArchiveConfig {
        enabled: true,
        database_path: Some(custom.clone()),
        ..ActivityArchiveConfig::default()
    };

    let runtime = ActivityArchiveRuntime::new(config, WORKSPACE);
    assert_eq!(runtime.database_path(), custom);
    assert_eq!(runtime.status().database_path, Some(custom));
}

#[test]
fn disabled_runtime_reports_disabled_status() {
    let config = ActivityArchiveConfig::default();
    let runtime = ActivityArchiveRuntime::new(config, WORKSPACE);
    assert!(!runtime.status().enabled);
}

#[test]
fn file_activity_folders_pass_through() {
    let config = ActivityArchiveConfig {
        enabled: true,
        collectors: CollectorConfig {
            file_activity: true,
            file_activity_folders: vec!["/tmp/archive-workspace/watch".to_string()],
            ..collectors_off()
        },
        ..ActivityArchiveConfig::default()
    };

    let runtime = ActivityArchiveRuntime::new(config, WORKSPACE);
    assert_eq!(runtime.status().collectors_running, 1);
    assert_eq!(runtime.collectors()[0].name(), "file_activity");
}

#[test]
fn notion_sync_fields_round_trip_through_runtime() {
    let config = ActivityArchiveConfig {
        enabled: true,
        notion_sync: NotionSyncConfig {
            enabled: true,
            api_key: "test_key".to_string(),
            daily_logs_database_id: "daily".to_string(),
            sessions_database_id: "sessions".to_string(),
            projects_database_id: "projects".to_string(),
            sync_interval_minutes: 10,
        },
        ..ActivityArchiveConfig::default()
    };

    let runtime = ActivityArchiveRuntime::new(config, WORKSPACE);
    assert!(runtime.status().enabled);
    let sync = runtime.notion_sync();
    assert_eq!(sync.api_key, "test_key");
    assert_eq!(sync.daily_logs_database_id, "daily");
    assert_eq!(sync.sessions_database_id, "sessions");
    assert_eq!(sync.projects_database_id, "projects");
    assert_eq!(sync.queue_processor_interval_secs, 600);
}

#[test]
fn privacy_config_passes_through() {
    let config = ActivityArchiveConfig {
        enabled: true,
        privacy: PrivacyConfig {
            exclude_paths: vec!["**/passwords/**".to_string()],
            exclude_titles: vec!["*password*".to_string()],
            exclude_domains: vec!["*.bank.com".to_string()],
            redact_clipboard: true,
            clipboard_whitelist: vec![],
        },
        ..ActivityArchiveConfig::default()
    };

    let runtime = ActivityArchiveRuntime::new(config, WORKSPACE);
    assert!(runtime.status().enabled);
    assert_eq!(runtime.config().privacy.exclude_domains, vec!["*.bank.com".to_string()]);
}

#[test]
fn sessionizer_config_overrides_apply() {
    let config = ActivityArchiveConfig {
        enabled: true,
        sessionizer: SessionizerConfig { idle_timeout_minutes: 60, context_switch_threshold_minutes: 5 },
        summarizer: SummarizerConfig {
            enabled: false,
            hourly_summary_enabled: false,
            daily_log_enabled: false,
            project_summary_enabled: false,
        },
        ..ActivityArchiveConfig::default()
    };

    let runtime = ActivityArchiveRuntime::new(config, WORKSPACE);
    assert_eq!(runtime.sessionizer().idle_timeout_minutes, 60);
    assert_eq!(runtime.sessionizer().context_switch_threshold_minutes, 5);
    let plan = runtime.summarizer_tick(1_700_000_000_000);
    assert!(plan.hourly_from.is_none());
    assert!(plan.daily_day.is_none());
}

#[test]
fn summarizer_tick_plans_previous_hour_and_today() {
    let config = ActivityArchiveConfig { enabled: true, ..ActivityArchiveConfig::default() };
    let runtime = ActivityArchiveRuntime::new(config, WORKSPACE);
    let now = 1_700_000_000_000i64;
    let plan = runtime.summarizer_tick(now);
    assert_eq!(plan.hourly_from, Some(now - 3_600_000));
    assert_eq!(plan.daily_day, Some(now / 86_400_000));
}
