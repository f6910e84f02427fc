//! The archive's configuration and the runtime plan built from it: which
//! database, which collectors, and the settings of the pipeline stages.
//! Running the plan (tasks, timers, shutdown) is the caller's part.

use vstd::prelude::*;
use crate::collectors::browser_history::BrowserHistoryCollector;
use crate::collectors::file_activity::FileActivityCollector;
use crate::collectors::process_launch::ProcessLaunchCollector;
use crate::collectors::shell_activity::ShellActivityCollector;
use crate::collectors::window_focus::WindowFocusCollector;
use crate::notion_sync::NotionSync;
use crate::paths::{is_verbatim, joined, path_join, plain_name};
use crate::sessionizer::Sessionizer;
use crate::summarizer::{DAY_MS, HOUR_MS, Summarizer};
use crate::text::{clone_opt, owned};

verus! {

/// The file name of the archive database in the workspace.
pub const DATABASE_FILE: &'static str = "activity_archive.db";

/// Seconds between two passes of the sessionizer over unassigned events.
pub const SESSIONIZER_INTERVAL_SECS: u64 = 60;

/// Seconds between two summarizer ticks.
pub const SUMMARIZER_INTERVAL_SECS: u64 = 300;

/// Collector configuration.
#[derive(Debug, Clone)]
pub struct CollectorConfig {
    pub window_focus: bool,
    pub process_launch: bool,
    pub browser_history: bool,
    pub shell_activity: bool,
    pub file_activity: bool,
    pub file_activity_folders: Vec<String>,
    pub poll_interval_seconds: u64,
    pub idle_threshold_seconds: u64,
}

/// Sessionizer configuration.
#[derive(Debug, Clone)]
pub struct SessionizerConfig {
    pub idle_timeout_minutes: u64,
    pub context_switch_threshold_minutes: u64,
}

/// Summarizer configuration.
#[derive(Debug, Clone)]
pub struct SummarizerConfig {
    pub enabled: bool,
    pub hourly_summary_enabled: bool,
    pub daily_log_enabled: bool,
    pub project_summary_enabled: bool,
}

/// Notion sync configuration.
#[derive(Debug, Clone)]
pub struct NotionSyncConfig {
    pub enabled: bool,
    pub api_key: String,
    pub daily_logs_database_id: String,
    pub sessions_database_id: String,
    pub projects_database_id: String,
    pub sync_interval_minutes: u64,
}

/// Privacy configuration.
#[derive(Debug, Clone)]
pub struct PrivacyConfig {
    pub exclude_paths: Vec<String>,
    pub exclude_titles: Vec<String>,
    pub exclude_domains: Vec<String>,
    pub redact_clipboard: bool,
    pub clipboard_whitelist: Vec<String>,
}

/// Activity archive configuration.
#[derive(Debug, Clone)]
pub struct ActivityArchiveConfig {
    pub enabled: bool,
    pub database_path: Option<String>,
    pub collectors: CollectorConfig,
    pub sessionizer: SessionizerConfig,
    pub summarizer: SummarizerConfig,
    pub notion_sync: NotionSyncConfig,
    pub privacy: PrivacyConfig,
}

impl Default for CollectorConfig {
    /// Every collector but file activity, no folders, a tick every two
    /// seconds, idle after two minutes.
    fn default() -> (c: CollectorConfig)
        ensures
            c.window_focus && c.process_launch && c.browser_history && c.shell_activity,
            !c.file_activity,
            c.file_activity_folders@.len() == 0,
            c.poll_interval_seconds == 2,
            c.idle_threshold_seconds == 120,
    {
        CollectorConfig {
            window_focus: true,
            process_launch: true,
            browser_history: true,
            shell_activity: true,
            file_activity: false,
            file_activity_folders: Vec::new(),
            poll_interval_seconds: 2,
            idle_threshold_seconds: 120,
        }
    }
}

impl Default for SessionizerConfig {
    /// A session ends after 30 idle minutes; a context switch needs 15.
    fn default() -> (c: SessionizerConfig)
        ensures
            c.idle_timeout_minutes == 30,
            c.context_switch_threshold_minutes == 15,
    {
        SessionizerConfig { idle_timeout_minutes: 30, context_switch_threshold_minutes: 15 }
    }
}

impl Default for SummarizerConfig {
    /// Summaries on, of every kind.
    fn default() -> (c: SummarizerConfig)
        ensures
            c.enabled && c.hourly_summary_enabled && c.daily_log_enabled && c.project_summary_enabled,
    {
        SummarizerConfig {
            enabled: true,
            hourly_summary_enabled: true,
            daily_log_enabled: true,
            project_summary_enabled: true,
        }
    }
}

impl Default for NotionSyncConfig {
    /// Sync off, no key or databases, a pass every five minutes.
    fn default() -> (c: NotionSyncConfig)
        ensures
            !c.enabled,
            c.api_key@.len() == 0,
            c.daily_logs_database_id@.len() == 0,
            c.sessions_database_id@.len() == 0,
            c.projects_database_id@.len() == 0,
            c.sync_interval_minutes == 5,
    {
        NotionSyncConfig {
            enabled: false,
            api_key: String::new(),
            daily_logs_database_id: String::new(),
            sessions_database_id: String::new(),
            projects_database_id: String::new(),
            sync_interval_minutes: 5,
        }
    }
}

impl Default for PrivacyConfig {
    /// No exclusions; clipboard contents redacted, with no exceptions.
    fn default() -> (c: PrivacyConfig)
        ensures
            c.exclude_paths@.len() == 0,
            c.exclude_titles@.len() == 0,
            c.exclude_domains@.len() == 0,
            c.redact_clipboard,
            c.clipboard_whitelist@.len() == 0,
    {
        PrivacyConfig {
            exclude_paths: Vec::new(),
            exclude_titles: Vec::new(),
            exclude_domains: Vec::new(),
            redact_clipboard: true,
            clipboard_whitelist: Vec::new(),
        }
    }
}

impl Default for ActivityArchiveConfig {
    /// The archive off, its database in the workspace, every part at its
    /// default.
    fn default() -> (c: ActivityArchiveConfig)
        ensures
            !c.enabled,
            c.database_path is None,
            c.collectors.window_focus && c.collectors.process_launch && c.collectors.browser_history
                && c.collectors.shell_activity && !c.collectors.file_activity,
            c.collectors.file_activity_folders@.len() == 0,
            c.collectors.poll_interval_seconds == 2,
            c.collectors.idle_threshold_seconds == 120,
            c.sessionizer.idle_timeout_minutes == 30,
            c.sessionizer.context_switch_threshold_minutes == 15,
            c.summarizer.enabled,
            !c.notion_sync.enabled,
            c.notion_sync.sync_interval_minutes == 5,
            c.privacy.redact_clipboard,
    {
        ActivityArchiveConfig {
            enabled: false,
            database_path: None,
            collectors: CollectorConfig::default(),
            sessionizer: SessionizerConfig::default(),
            summarizer: SummarizerConfig::default(),
            notion_sync: NotionSyncConfig::default(),
            privacy: PrivacyConfig::default(),
        }
    }
}

/// A configured collector.
pub enum ArchiveCollector {
    WindowFocus(WindowFocusCollector),
    ProcessLaunch(ProcessLaunchCollector),
    BrowserHistory(BrowserHistoryCollector),
    ShellActivity(ShellActivityCollector),
    FileActivity(FileActivityCollector),
}

/// The kinds of collectors a configuration turns on, in start order.
pub open spec fn enabled_kinds(c: CollectorConfig) -> Seq<Seq<char>> {
    (if c.window_focus { seq!["window_focus"@] } else { Seq::empty() })
        + (if c.process_launch { seq!["process_launch"@] } else { Seq::empty() })
        + (if c.browser_history { seq!["browser_history"@] } else { Seq::empty() })
        + (if c.shell_activity { seq!["shell_activity"@] } else { Seq::empty() })
        + (if c.file_activity { seq!["file_activity"@] } else { Seq::empty() })
}

/// How many of the five collector switches of a configuration are on.
pub open spec fn enabled_count(c: CollectorConfig) -> nat {
    (if c.window_focus { 1nat } else { 0nat }) + (if c.process_launch { 1nat } else { 0nat })
        + (if c.browser_history { 1nat } else { 0nat }) + (if c.shell_activity { 1nat } else { 0nat })
        + (if c.file_activity { 1nat } else { 0nat })
}

/// One collector is started for each switch that is on: a runtime built by
/// `new` reports in its status as many running collectors as the
/// configuration has switches on (four with the first four on, none with all
/// off).
pub proof fn lemma_running_collectors(c: CollectorConfig)
    ensures
        enabled_kinds(c).len() == enabled_count(c),
{
}

/// A collector is built as the configuration asks: its tracker keeps its
/// state in the database `db` under the collector's name, and its settings
/// are the configured ones (the window collector's poll interval and idle
/// threshold, the file collector's folders) or the collector's defaults
/// (process polling every 5 s, browser polling every 60 s with no excluded
/// domains and the database as its path, shell commands hashed, no excluded
/// file paths).
pub open spec fn configured_as(col: ArchiveCollector, c: CollectorConfig, db: Seq<char>) -> bool {
    match col {
        ArchiveCollector::WindowFocus(w) => {
            &&& w.tracker_view().name_view() == "window_focus"@
            &&& w.tracker_view().path_view() == db
            &&& w.poll_view() == (if c.poll_interval_seconds < 1 { 1 } else { c.poll_interval_seconds })
            &&& w.idle_view() == (if c.idle_threshold_seconds < 10 { 10 } else { c.idle_threshold_seconds })
        },
        ArchiveCollector::ProcessLaunch(p) => {
            &&& p.tracker_view().name_view() == "process_launch"@
            &&& p.tracker_view().path_view() == db
            &&& p.poll_view() == 5
        },
        ArchiveCollector::BrowserHistory(b) => {
            &&& b.tracker_view().name_view() == "browser_history"@
            &&& b.tracker_view().path_view() == db
            &&& b.path_view() == db
            &&& b.excluded_view().len() == 0
            &&& b.poll_view() == 60
        },
        ArchiveCollector::ShellActivity(sh) => {
            &&& sh.tracker_view().name_view() == "shell_activity"@
            &&& sh.tracker_view().path_view() == db
            &&& sh.hashes()
        },
        ArchiveCollector::FileActivity(f) => {
            &&& f.tracker_view().name_view() == "file_activity"@
            &&& f.tracker_view().path_view() == db
            &&& f.folders_view().len() == c.file_activity_folders@.len()
            &&& forall|i: int| 0 <= i < f.folders_view().len()
                ==> (#[trigger] f.folders_view()[i])@ == c.file_activity_folders@[i]@
            &&& f.excluded_view().len() == 0
        },
    }
}

/// The name of a configured collector.
pub open spec fn collector_name(c: ArchiveCollector) -> Seq<char> {
    match c {
        ArchiveCollector::WindowFocus(_) => "window_focus"@,
        ArchiveCollector::ProcessLaunch(_) => "process_launch"@,
        ArchiveCollector::BrowserHistory(_) => "browser_history"@,
        ArchiveCollector::ShellActivity(_) => "shell_activity"@,
        ArchiveCollector::FileActivity(_) => "file_activity"@,
    }
}

impl ArchiveCollector {
    /// The collector's name.
    pub fn name(&self) -> (n: &'static str)
        ensures
            n@ == collector_name(*self),
    {
        match self {
            ArchiveCollector::WindowFocus(c) => c.name(),
            ArchiveCollector::ProcessLaunch(c) => c.name(),
            ArchiveCollector::BrowserHistory(c) => c.name(),
            ArchiveCollector::ShellActivity(c) => c.name(),
            ArchiveCollector::FileActivity(c) => c.name(),
        }
    }
}

/// Runtime status.
#[derive(Debug, Clone)]
pub struct RuntimeStatus {
    pub enabled: bool,
    pub collectors_running: usize,
    pub database_path: Option<String>,
}

/// The summaries one summarizer tick asks for.
#[derive(Debug, Clone)]
pub struct SummaryPlan {
    /// The start of the hour to summarize (an hour before the tick).
    pub hourly_from: Option<i64>,
    /// The day of the daily log (days since the Unix epoch, UTC).
    pub daily_day: Option<i64>,
}

/// The archive runtime: the configuration, the database and the pipeline
/// stages it drives.
pub struct ActivityArchiveRuntime {
    config: ActivityArchiveConfig,
    database_path: String,
    collectors: Vec<ArchiveCollector>,
    sessionizer: Sessionizer,
    summarizer: Summarizer,
    notion_sync: NotionSync,
}

impl ActivityArchiveRuntime {
    /// The configuration.
    pub closed spec fn config_view(&self) -> ActivityArchiveConfig {
        self.config
    }

    /// The database path.
    pub closed spec fn database_view(&self) -> Seq<char> {
        self.database_path@
    }

    /// The configured collectors.
    pub closed spec fn collectors_view(&self) -> Seq<ArchiveCollector> {
        self.collectors@
    }

    /// The Notion sync settings.
    pub closed spec fn notion_view(&self) -> NotionSync {
        self.notion_sync
    }

    /// The sessionizer.
    pub closed spec fn sessionizer_view(&self) -> Sessionizer {
        self.sessionizer
    }

    /// The plan for a configuration: the database is the configured path,
    /// else `activity_archive.db` in the workspace; a collector for each
    /// kind turned on, in a fixed order; the sessionizer's thresholds and the
    /// sync settings from the configuration.
    pub fn new(config: ActivityArchiveConfig, workspace_dir: &str) -> (r: ActivityArchiveRuntime)
        requires
            config.notion_sync.sync_interval_minutes <= u64::MAX / 60,
        ensures
            r.config_view() == config,
            match config.database_path {
                Some(p) => r.database_view() == p@,
                None => !is_verbatim(workspace_dir@) ==> joined(workspace_dir@, DATABASE_FILE@, r.database_view()),
            },
            r.collectors_view().len() == enabled_kinds(config.collectors).len(),
            forall|i: int| 0 <= i < r.collectors_view().len()
                ==> collector_name(#[trigger] r.collectors_view()[i]) == enabled_kinds(config.collectors)[i],
            forall|i: int| 0 <= i < r.collectors_view().len()
                ==> configured_as(#[trigger] r.collectors_view()[i], config.collectors, r.database_view()),
            r.sessionizer_view().idle_timeout_minutes == config.sessionizer.idle_timeout_minutes,
            r.sessionizer_view().context_switch_threshold_minutes == config.sessionizer.context_switch_threshold_minutes,
            r.notion_view().api_key@ == config.notion_sync.api_key@,
            r.notion_view().daily_logs_database_id@ == config.notion_sync.daily_logs_database_id@,
            r.notion_view().sessions_database_id@ == config.notion_sync.sessions_database_id@,
            r.notion_view().projects_database_id@ == config.notion_sync.projects_database_id@,
            r.notion_view().queue_processor_interval_secs == config.notion_sync.sync_interval_minutes * 60,
    {
        let database_path = match &config.database_path {
            Some(p) => owned(p.as_str()),
            None => {
                proof {
                    reveal_strlit("activity_archive.db");
                    assert(plain_name(DATABASE_FILE@));
                }
                path_join(workspace_dir, DATABASE_FILE)
            },
        };
        let mut collectors: Vec<ArchiveCollector> = Vec::new();
        let ghost c = config.collectors;
        if config.collectors.window_focus {
            collectors.push(ArchiveCollector::WindowFocus(WindowFocusCollector::new(
                owned(database_path.as_str()),
                config.collectors.poll_interval_seconds,
                config.collectors.idle_threshold_seconds,
            )));
        }
        let ghost k1 = if c.window_focus { seq!["window_focus"@] } else { Seq::<Seq<char>>::empty() };
        if config.collectors.process_launch {
            collectors.push(ArchiveCollector::ProcessLaunch(ProcessLaunchCollector::new(owned(database_path.as_str()))));
        }
        let ghost k2 = k1 + (if c.process_launch { seq!["process_launch"@] } else { Seq::<Seq<char>>::empty() });
        if config.collectors.browser_history {
            collectors.push(ArchiveCollector::BrowserHistory(BrowserHistoryCollector::new(owned(database_path.as_str()))));
        }
        let ghost k3 = k2 + (if c.browser_history { seq!["browser_history"@] } else { Seq::<Seq<char>>::empty() });
        if config.collectors.shell_activity {
            collectors.push(ArchiveCollector::ShellActivity(ShellActivityCollector::new(owned(database_path.as_str()))));
        }
        let ghost k4 = k3 + (if c.shell_activity { seq!["shell_activity"@] } else { Seq::<Seq<char>>::empty() });
        if config.collectors.file_activity {
            let mut folders: Vec<String> = Vec::new();
            let mut i: usize = 0;
            while i < config.collectors.file_activity_folders.len()
                invariant
                    i <= config.collectors.file_activity_folders@.len(),
                    folders@.len() == i,
                    forall|j: int| 0 <= j < i ==> (#[trigger] folders@[j])@ == config.collectors.file_activity_folders@[j]@,
                decreases config.collectors.file_activity_folders@.len() - i,
            {
                folders.push(owned(config.collectors.file_activity_folders[i].as_str()));
                i = i + 1;
            }
            collectors.push(ArchiveCollector::FileActivity(FileActivityCollector::new(owned(database_path.as_str()), folders)));
        }
        proof {
            let names = enabled_kinds(c);
            assert(names =~= k4 + (if c.file_activity { seq!["file_activity"@] } else { Seq::<Seq<char>>::empty() }));
        }
        let sessionizer = Sessionizer::new(config.sessionizer.idle_timeout_minutes,
            config.sessionizer.context_switch_threshold_minutes);
        let notion_sync = NotionSync::new(
            owned(config.notion_sync.api_key.as_str()),
            owned(config.notion_sync.daily_logs_database_id.as_str()),
            owned(config.notion_sync.sessions_database_id.as_str()),
            owned(config.notion_sync.projects_database_id.as_str()),
            config.notion_sync.sync_interval_minutes * 60,
        );
        ActivityArchiveRuntime {
            config,
            database_path,
            collectors,
            sessionizer,
            summarizer: Summarizer::new(),
            notion_sync,
        }
    }

    /// The database path.
    pub fn database_path(&self) -> (p: &str)
        ensures
            p@ == self.database_view(),
    {
        self.database_path.as_str()
    }

    /// The configured collectors.
    pub fn collectors(&self) -> (c: &Vec<ArchiveCollector>)
        ensures
            c@ == self.collectors_view(),
    {
        &self.collectors
    }

    /// The configuration.
    pub fn config(&self) -> (c: &ActivityArchiveConfig)
        ensures
            *c == self.config_view(),
    {
        &self.config
    }

    /// The sessionizer.
    pub fn sessionizer(&self) -> (s: &Sessionizer)
        ensures
            *s == self.sessionizer_view(),
    {
        &self.sessionizer
    }

    /// The summarizer.
    pub closed spec fn summarizer_view(&self) -> Summarizer {
        self.summarizer
    }

    /// The summarizer.
    pub fn summarizer(&self) -> (s: &Summarizer)
        ensures
            *s == self.summarizer_view(),
    {
        &self.summarizer
    }

    /// The Notion sync settings.
    pub fn notion_sync(&self) -> (n: &NotionSync)
        ensures
            *n == self.notion_view(),
    {
        &self.notion_sync
    }

    /// The runtime's status: whether the archive is on, how many collectors
    /// run, and the configured database path.
    pub fn status(&self) -> (s: RuntimeStatus)
        ensures
            s.enabled == self.config_view().enabled,
            s.collectors_running == self.collectors_view().len(),
            s.database_path == self.config_view().database_path,
    {
        RuntimeStatus {
            enabled: self.config.enabled,
            collectors_running: self.collectors.len(),
            database_path: clone_opt(&self.config.database_path),
        }
    }

    /// What a summarizer tick at `now` (UTC milliseconds) asks for: with
    /// summaries on, the hourly summary of the hour before `now` and the
    /// daily log of `now`'s day, each when turned on.
    pub fn summarizer_tick(&self, now: i64) -> (p: SummaryPlan)
        requires
            now >= i64::MIN + HOUR_MS,
        ensures
            p.hourly_from == (if self.config_view().summarizer.enabled && self.config_view().summarizer.hourly_summary_enabled {
                Some((now - HOUR_MS) as i64)
            } else {
                None
            }),
            p.daily_day == (if self.config_view().summarizer.enabled && self.config_view().summarizer.daily_log_enabled {
                Some((now as int / DAY_MS as int) as i64)
            } else {
                None
            }),
    {
        let s = &self.config.summarizer;
        let hourly_from = if s.enabled && s.hourly_summary_enabled { Some(now - HOUR_MS) } else { None };
        let daily_day = if s.enabled && s.daily_log_enabled {
            match now.checked_div_euclid(DAY_MS) {
                Some(d) => Some(d),
                None => None,
            }
        } else {
            None
        };
        SummaryPlan { hourly_from, daily_day }
    }
}

} // verus!
