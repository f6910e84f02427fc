//! Storage names of the archive's enumerations.
//!
//! Every enumeration is stored as a lowercase snake-case name. `as_str` gives
//! that name and `from_str` reads it back; the laws at the end of each block
//! show that the two are inverse to each other.

use vstd::prelude::*;
use crate::text::str_eq;

verus! {

/// Event types.
#[derive(Debug, Clone, Copy, PartialEq, Eq, Hash, Structural)]
pub enum EventType {
    WindowFocus,
    ProcessStart,
    ProcessExit,
    BrowserVisit,
    ShellCommand,
    FileCreate,
    FileModify,
    FileDelete,
    FileRename,
    SystemEvent,
}

impl EventType {
    /// The storage name of a value.
    pub open spec fn name(self) -> Seq<char> {
        match self {
            EventType::WindowFocus => "window_focus"@,
            EventType::ProcessStart => "process_start"@,
            EventType::ProcessExit => "process_exit"@,
            EventType::BrowserVisit => "browser_visit"@,
            EventType::ShellCommand => "shell_command"@,
            EventType::FileCreate => "file_create"@,
            EventType::FileModify => "file_modify"@,
            EventType::FileDelete => "file_delete"@,
            EventType::FileRename => "file_rename"@,
            EventType::SystemEvent => "system_event"@,
        }
    }

    /// The value a storage name stands for, if any.
    pub open spec fn parse(s: Seq<char>) -> Option<EventType> {
        if s == "window_focus"@ {
            Some(EventType::WindowFocus)
        } else if s == "process_start"@ {
            Some(EventType::ProcessStart)
        } else if s == "process_exit"@ {
            Some(EventType::ProcessExit)
        } else if s == "browser_visit"@ {
            Some(EventType::BrowserVisit)
        } else if s == "shell_command"@ {
            Some(EventType::ShellCommand)
        } else if s == "file_create"@ {
            Some(EventType::FileCreate)
        } else if s == "file_modify"@ {
            Some(EventType::FileModify)
        } else if s == "file_delete"@ {
            Some(EventType::FileDelete)
        } else if s == "file_rename"@ {
            Some(EventType::FileRename)
        } else if s == "system_event"@ {
            Some(EventType::SystemEvent)
        } else {
            None
        }
    }

    pub fn as_str(&self) -> (s: &'static str)
        ensures
            s@ == self.name(),
    {
        match self {
            EventType::WindowFocus => "window_focus",
            EventType::ProcessStart => "process_start",
            EventType::ProcessExit => "process_exit",
            EventType::BrowserVisit => "browser_visit",
            EventType::ShellCommand => "shell_command",
            EventType::FileCreate => "file_create",
            EventType::FileModify => "file_modify",
            EventType::FileDelete => "file_delete",
            EventType::FileRename => "file_rename",
            EventType::SystemEvent => "system_event",
        }
    }

    /// The variant's place in declaration order, counted from zero: its
    /// discriminant.
    pub open spec fn position(self) -> isize {
        match self {
            EventType::WindowFocus => 0,
            EventType::ProcessStart => 1,
            EventType::ProcessExit => 2,
            EventType::BrowserVisit => 3,
            EventType::ShellCommand => 4,
            EventType::FileCreate => 5,
            EventType::FileModify => 6,
            EventType::FileDelete => 7,
            EventType::FileRename => 8,
            EventType::SystemEvent => 9,
        }
    }

    /// The discriminant, the value that the derived `Hash` feeds a hasher.
    pub fn ordinal(&self) -> (d: isize)
        ensures
            d == self.position(),
    {
        match self {
            EventType::WindowFocus => 0,
            EventType::ProcessStart => 1,
            EventType::ProcessExit => 2,
            EventType::BrowserVisit => 3,
            EventType::ShellCommand => 4,
            EventType::FileCreate => 5,
            EventType::FileModify => 6,
            EventType::FileDelete => 7,
            EventType::FileRename => 8,
            EventType::SystemEvent => 9,
        }
    }

    pub fn from_str(s: &str) -> (r: Option<EventType>)
        ensures
            r == EventType::parse(s@),
    {
        if str_eq(s, "window_focus") {
            Some(EventType::WindowFocus)
        } else if str_eq(s, "process_start") {
            Some(EventType::ProcessStart)
        } else if str_eq(s, "process_exit") {
            Some(EventType::ProcessExit)
        } else if str_eq(s, "browser_visit") {
            Some(EventType::BrowserVisit)
        } else if str_eq(s, "shell_command") {
            Some(EventType::ShellCommand)
        } else if str_eq(s, "file_create") {
            Some(EventType::FileCreate)
        } else if str_eq(s, "file_modify") {
            Some(EventType::FileModify)
        } else if str_eq(s, "file_delete") {
            Some(EventType::FileDelete)
        } else if str_eq(s, "file_rename") {
            Some(EventType::FileRename)
        } else if str_eq(s, "system_event") {
            Some(EventType::SystemEvent)
        } else {
            None
        }
    }
}

/// Reading back the storage name of a value gives that value, and a name
/// that reads back to a value is that value's storage name.
pub proof fn lemma_event_type_name_round_trip(t: EventType, s: Seq<char>)
    ensures
        EventType::parse(t.name()) == Some(t),
        EventType::parse(s) == Some(t) ==> t.name() == s,
{
    reveal_strlit("window_focus");
    reveal_strlit("process_start");
    reveal_strlit("process_exit");
    reveal_strlit("browser_visit");
    reveal_strlit("shell_command");
    reveal_strlit("file_create");
    reveal_strlit("file_modify");
    reveal_strlit("file_delete");
    reveal_strlit("file_rename");
    reveal_strlit("system_event");
    assert("window_focus"@.len() != "process_start"@.len());
    assert("window_focus"@[0] != "process_exit"@[0]);
    assert("window_focus"@.len() != "browser_visit"@.len());
    assert("window_focus"@.len() != "shell_command"@.len());
    assert("window_focus"@.len() != "file_create"@.len());
    assert("window_focus"@.len() != "file_modify"@.len());
    assert("window_focus"@.len() != "file_delete"@.len());
    assert("window_focus"@.len() != "file_rename"@.len());
    assert("window_focus"@[0] != "system_event"@[0]);
    assert("process_start"@.len() != "process_exit"@.len());
    assert("process_start"@[0] != "browser_visit"@[0]);
    assert("process_start"@[0] != "shell_command"@[0]);
    assert("process_start"@.len() != "file_create"@.len());
    assert("process_start"@.len() != "file_modify"@.len());
    assert("process_start"@.len() != "file_delete"@.len());
    assert("process_start"@.len() != "file_rename"@.len());
    assert("process_start"@.len() != "system_event"@.len());
    assert("process_exit"@.len() != "browser_visit"@.len());
    assert("process_exit"@.len() != "shell_command"@.len());
    assert("process_exit"@.len() != "file_create"@.len());
    assert("process_exit"@.len() != "file_modify"@.len());
    assert("process_exit"@.len() != "file_delete"@.len());
    assert("process_exit"@.len() != "file_rename"@.len());
    assert("process_exit"@[0] != "system_event"@[0]);
    assert("browser_visit"@[0] != "shell_command"@[0]);
    assert("browser_visit"@.len() != "file_create"@.len());
    assert("browser_visit"@.len() != "file_modify"@.len());
    assert("browser_visit"@.len() != "file_delete"@.len());
    assert("browser_visit"@.len() != "file_rename"@.len());
    assert("browser_visit"@.len() != "system_event"@.len());
    assert("shell_command"@.len() != "file_create"@.len());
    assert("shell_command"@.len() != "file_modify"@.len());
    assert("shell_command"@.len() != "file_delete"@.len());
    assert("shell_command"@.len() != "file_rename"@.len());
    assert("shell_command"@.len() != "system_event"@.len());
    assert("file_create"@[5] != "file_modify"@[5]);
    assert("file_create"@[5] != "file_delete"@[5]);
    assert("file_create"@[5] != "file_rename"@[5]);
    assert("file_create"@.len() != "system_event"@.len());
    assert("file_modify"@[5] != "file_delete"@[5]);
    assert("file_modify"@[5] != "file_rename"@[5]);
    assert("file_modify"@.len() != "system_event"@.len());
    assert("file_delete"@[5] != "file_rename"@[5]);
    assert("file_delete"@.len() != "system_event"@.len());
    assert("file_rename"@.len() != "system_event"@.len());
}

/// Session labels.
#[derive(Debug, Clone, Copy, PartialEq, Eq, Hash, Structural)]
pub enum SessionLabel {
    Coding,
    Research,
    Admin,
    Messaging,
    Music,
    Writing,
    Design,
    Unknown,
}

impl SessionLabel {
    /// The storage name of a value.
    pub open spec fn name(self) -> Seq<char> {
        match self {
            SessionLabel::Coding => "coding"@,
            SessionLabel::Research => "research"@,
            SessionLabel::Admin => "admin"@,
            SessionLabel::Messaging => "messaging"@,
            SessionLabel::Music => "music"@,
            SessionLabel::Writing => "writing"@,
            SessionLabel::Design => "design"@,
            SessionLabel::Unknown => "unknown"@,
        }
    }

    /// The value a storage name stands for, if any.
    pub open spec fn parse(s: Seq<char>) -> Option<SessionLabel> {
        if s == "coding"@ {
            Some(SessionLabel::Coding)
        } else if s == "research"@ {
            Some(SessionLabel::Research)
        } else if s == "admin"@ {
            Some(SessionLabel::Admin)
        } else if s == "messaging"@ {
            Some(SessionLabel::Messaging)
        } else if s == "music"@ {
            Some(SessionLabel::Music)
        } else if s == "writing"@ {
            Some(SessionLabel::Writing)
        } else if s == "design"@ {
            Some(SessionLabel::Design)
        } else if s == "unknown"@ {
            Some(SessionLabel::Unknown)
        } else {
            None
        }
    }

    pub fn as_str(&self) -> (s: &'static str)
        ensures
            s@ == self.name(),
    {
        match self {
            SessionLabel::Coding => "coding",
            SessionLabel::Research => "research",
            SessionLabel::Admin => "admin",
            SessionLabel::Messaging => "messaging",
            SessionLabel::Music => "music",
            SessionLabel::Writing => "writing",
            SessionLabel::Design => "design",
            SessionLabel::Unknown => "unknown",
        }
    }

    pub fn from_str(s: &str) -> (r: Option<SessionLabel>)
        ensures
            r == SessionLabel::parse(s@),
    {
        if str_eq(s, "coding") {
            Some(SessionLabel::Coding)
        } else if str_eq(s, "research") {
            Some(SessionLabel::Research)
        } else if str_eq(s, "admin") {
            Some(SessionLabel::Admin)
        } else if str_eq(s, "messaging") {
            Some(SessionLabel::Messaging)
        } else if str_eq(s, "music") {
            Some(SessionLabel::Music)
        } else if str_eq(s, "writing") {
            Some(SessionLabel::Writing)
        } else if str_eq(s, "design") {
            Some(SessionLabel::Design)
        } else if str_eq(s, "unknown") {
            Some(SessionLabel::Unknown)
        } else {
            None
        }
    }
}

/// Reading back the storage name of a value gives that value, and a name
/// that reads back to a value is that value's storage name.
pub proof fn lemma_session_label_name_round_trip(t: SessionLabel, s: Seq<char>)
    ensures
        SessionLabel::parse(t.name()) == Some(t),
        SessionLabel::parse(s) == Some(t) ==> t.name() == s,
{
    reveal_strlit("coding");
    reveal_strlit("research");
    reveal_strlit("admin");
    reveal_strlit("messaging");
    reveal_strlit("music");
    reveal_strlit("writing");
    reveal_strlit("design");
    reveal_strlit("unknown");
    assert("coding"@.len() != "research"@.len());
    assert("coding"@.len() != "admin"@.len());
    assert("coding"@.len() != "messaging"@.len());
    assert("coding"@.len() != "music"@.len());
    assert("coding"@.len() != "writing"@.len());
    assert("coding"@[0] != "design"@[0]);
    assert("coding"@.len() != "unknown"@.len());
    assert("research"@.len() != "admin"@.len());
    assert("research"@.len() != "messaging"@.len());
    assert("research"@.len() != "music"@.len());
    assert("research"@.len() != "writing"@.len());
    assert("research"@.len() != "design"@.len());
    assert("research"@.len() != "unknown"@.len());
    assert("admin"@.len() != "messaging"@.len());
    assert("admin"@[0] != "music"@[0]);
    assert("admin"@.len() != "writing"@.len());
    assert("admin"@.len() != "design"@.len());
    assert("admin"@.len() != "unknown"@.len());
    assert("messaging"@.len() != "music"@.len());
    assert("messaging"@.len() != "writing"@.len());
    assert("messaging"@.len() != "design"@.len());
    assert("messaging"@.len() != "unknown"@.len());
    assert("music"@.len() != "writing"@.len());
    assert("music"@.len() != "design"@.len());
    assert("music"@.len() != "unknown"@.len());
    assert("writing"@.len() != "design"@.len());
    assert("writing"@[0] != "unknown"@[0]);
    assert("design"@.len() != "unknown"@.len());
}

/// Entity types.
#[derive(Debug, Clone, Copy, PartialEq, Eq, Hash, Structural)]
pub enum EntityType {
    App,
    Project,
    Folder,
    Domain,
    Repo,
    Person,
    Document,
}

impl EntityType {
    /// The storage name of a value.
    pub open spec fn name(self) -> Seq<char> {
        match self {
            EntityType::App => "app"@,
            EntityType::Project => "project"@,
            EntityType::Folder => "folder"@,
            EntityType::Domain => "domain"@,
            EntityType::Repo => "repo"@,
            EntityType::Person => "person"@,
            EntityType::Document => "document"@,
        }
    }

    /// The value a storage name stands for, if any.
    pub open spec fn parse(s: Seq<char>) -> Option<EntityType> {
        if s == "app"@ {
            Some(EntityType::App)
        } else if s == "project"@ {
            Some(EntityType::Project)
        } else if s == "folder"@ {
            Some(EntityType::Folder)
        } else if s == "domain"@ {
            Some(EntityType::Domain)
        } else if s == "repo"@ {
            Some(EntityType::Repo)
        } else if s == "person"@ {
            Some(EntityType::Person)
        } else if s == "document"@ {
            Some(EntityType::Document)
        } else {
            None
        }
    }

    pub fn as_str(&self) -> (s: &'static str)
        ensures
            s@ == self.name(),
    {
        match self {
            EntityType::App => "app",
            EntityType::Project => "project",
            EntityType::Folder => "folder",
            EntityType::Domain => "domain",
            EntityType::Repo => "repo",
            EntityType::Person => "person",
            EntityType::Document => "document",
        }
    }

    pub fn from_str(s: &str) -> (r: Option<EntityType>)
        ensures
            r == EntityType::parse(s@),
    {
        if str_eq(s, "app") {
            Some(EntityType::App)
        } else if str_eq(s, "project") {
            Some(EntityType::Project)
        } else if str_eq(s, "folder") {
            Some(EntityType::Folder)
        } else if str_eq(s, "domain") {
            Some(EntityType::Domain)
        } else if str_eq(s, "repo") {
            Some(EntityType::Repo)
        } else if str_eq(s, "person") {
            Some(EntityType::Person)
        } else if str_eq(s, "document") {
            Some(EntityType::Document)
        } else {
            None
        }
    }
}

/// Reading back the storage name of a value gives that value, and a name
/// that reads back to a value is that value's storage name.
pub proof fn lemma_entity_type_name_round_trip(t: EntityType, s: Seq<char>)
    ensures
        EntityType::parse(t.name()) == Some(t),
        EntityType::parse(s) == Some(t) ==> t.name() == s,
{
    reveal_strlit("app");
    reveal_strlit("project");
    reveal_strlit("folder");
    reveal_strlit("domain");
    reveal_strlit("repo");
    reveal_strlit("person");
    reveal_strlit("document");
    assert("app"@.len() != "project"@.len());
    assert("app"@.len() != "folder"@.len());
    assert("app"@.len() != "domain"@.len());
    assert("app"@.len() != "repo"@.len());
    assert("app"@.len() != "person"@.len());
    assert("app"@.len() != "document"@.len());
    assert("project"@.len() != "folder"@.len());
    assert("project"@.len() != "domain"@.len());
    assert("project"@.len() != "repo"@.len());
    assert("project"@.len() != "person"@.len());
    assert("project"@.len() != "document"@.len());
    assert("folder"@[0] != "domain"@[0]);
    assert("folder"@.len() != "repo"@.len());
    assert("folder"@[0] != "person"@[0]);
    assert("folder"@.len() != "document"@.len());
    assert("domain"@.len() != "repo"@.len());
    assert("domain"@[0] != "person"@[0]);
    assert("domain"@.len() != "document"@.len());
    assert("repo"@.len() != "person"@.len());
    assert("repo"@.len() != "document"@.len());
    assert("person"@.len() != "document"@.len());
}

/// Summary types.
#[derive(Debug, Clone, Copy, PartialEq, Eq, Hash, Structural)]
pub enum SummaryType {
    Hourly,
    Daily,
    Weekly,
    Project,
    Topic,
}

impl SummaryType {
    /// The storage name of a value.
    pub open spec fn name(self) -> Seq<char> {
        match self {
            SummaryType::Hourly => "hourly"@,
            SummaryType::Daily => "daily"@,
            SummaryType::Weekly => "weekly"@,
            SummaryType::Project => "project"@,
            SummaryType::Topic => "topic"@,
        }
    }

    /// The value a storage name stands for, if any.
    pub open spec fn parse(s: Seq<char>) -> Option<SummaryType> {
        if s == "hourly"@ {
            Some(SummaryType::Hourly)
        } else if s == "daily"@ {
            Some(SummaryType::Daily)
        } else if s == "weekly"@ {
            Some(SummaryType::Weekly)
        } else if s == "project"@ {
            Some(SummaryType::Project)
        } else if s == "topic"@ {
            Some(SummaryType::Topic)
        } else {
            None
        }
    }

    pub fn as_str(&self) -> (s: &'static str)
        ensures
            s@ == self.name(),
    {
        match self {
            SummaryType::Hourly => "hourly",
            SummaryType::Daily => "daily",
            SummaryType::Weekly => "weekly",
            SummaryType::Project => "project",
            SummaryType::Topic => "topic",
        }
    }

    pub fn from_str(s: &str) -> (r: Option<SummaryType>)
        ensures
            r == SummaryType::parse(s@),
    {
        if str_eq(s, "hourly") {
            Some(SummaryType::Hourly)
        } else if str_eq(s, "daily") {
            Some(SummaryType::Daily)
        } else if str_eq(s, "weekly") {
            Some(SummaryType::Weekly)
        } else if str_eq(s, "project") {
            Some(SummaryType::Project)
        } else if str_eq(s, "topic") {
            Some(SummaryType::Topic)
        } else {
            None
        }
    }
}

/// Reading back the storage name of a value gives that value, and a name
/// that reads back to a value is that value's storage name.
pub proof fn lemma_summary_type_name_round_trip(t: SummaryType, s: Seq<char>)
    ensures
        SummaryType::parse(t.name()) == Some(t),
        SummaryType::parse(s) == Some(t) ==> t.name() == s,
{
    reveal_strlit("hourly");
    reveal_strlit("daily");
    reveal_strlit("weekly");
    reveal_strlit("project");
    reveal_strlit("topic");
    assert("hourly"@.len() != "daily"@.len());
    assert("hourly"@[0] != "weekly"@[0]);
    assert("hourly"@.len() != "project"@.len());
    assert("hourly"@.len() != "topic"@.len());
    assert("daily"@.len() != "weekly"@.len());
    assert("daily"@.len() != "project"@.len());
    assert("daily"@[0] != "topic"@[0]);
    assert("weekly"@.len() != "project"@.len());
    assert("weekly"@.len() != "topic"@.len());
    assert("project"@.len() != "topic"@.len());
}

/// Artifact types.
#[derive(Debug, Clone, Copy, PartialEq, Eq, Hash, Structural)]
pub enum ArtifactType {
    Screenshot,
    FileExport,
    LogExport,
}

impl ArtifactType {
    /// The storage name of a value.
    pub open spec fn name(self) -> Seq<char> {
        match self {
            ArtifactType::Screenshot => "screenshot"@,
            ArtifactType::FileExport => "file_export"@,
            ArtifactType::LogExport => "log_export"@,
        }
    }

    /// The value a storage name stands for, if any.
    pub open spec fn parse(s: Seq<char>) -> Option<ArtifactType> {
        if s == "screenshot"@ {
            Some(ArtifactType::Screenshot)
        } else if s == "file_export"@ {
            Some(ArtifactType::FileExport)
        } else if s == "log_export"@ {
            Some(ArtifactType::LogExport)
        } else {
            None
        }
    }

    pub fn as_str(&self) -> (s: &'static str)
        ensures
            s@ == self.name(),
    {
        match self {
            ArtifactType::Screenshot => "screenshot",
            ArtifactType::FileExport => "file_export",
            ArtifactType::LogExport => "log_export",
        }
    }

    pub fn from_str(s: &str) -> (r: Option<ArtifactType>)
        ensures
            r == ArtifactType::parse(s@),
    {
        if str_eq(s, "screenshot") {
            Some(ArtifactType::Screenshot)
        } else if str_eq(s, "file_export") {
            Some(ArtifactType::FileExport)
        } else if str_eq(s, "log_export") {
            Some(ArtifactType::LogExport)
        } else {
            None
        }
    }
}

/// Reading back the storage name of a value gives that value, and a name
/// that reads back to a value is that value's storage name.
pub proof fn lemma_artifact_type_name_round_trip(t: ArtifactType, s: Seq<char>)
    ensures
        ArtifactType::parse(t.name()) == Some(t),
        ArtifactType::parse(s) == Some(t) ==> t.name() == s,
{
    reveal_strlit("screenshot");
    reveal_strlit("file_export");
    reveal_strlit("log_export");
    assert("screenshot"@.len() != "file_export"@.len());
    assert("screenshot"@[0] != "log_export"@[0]);
    assert("file_export"@.len() != "log_export"@.len());
}

/// Notion sync types.
#[derive(Debug, Clone, Copy, PartialEq, Eq, Hash, Structural)]
pub enum NotionSyncType {
    DailyLog,
    Session,
    Project,
    Pattern,
    Decision,
}

impl NotionSyncType {
    /// The storage name of a value.
    pub open spec fn name(self) -> Seq<char> {
        match self {
            NotionSyncType::DailyLog => "daily_log"@,
            NotionSyncType::Session => "session"@,
            NotionSyncType::Project => "project"@,
            NotionSyncType::Pattern => "pattern"@,
            NotionSyncType::Decision => "decision"@,
        }
    }

    /// The value a storage name stands for, if any.
    pub open spec fn parse(s: Seq<char>) -> Option<NotionSyncType> {
        if s == "daily_log"@ {
            Some(NotionSyncType::DailyLog)
        } else if s == "session"@ {
            Some(NotionSyncType::Session)
        } else if s == "project"@ {
            Some(NotionSyncType::Project)
        } else if s == "pattern"@ {
            Some(NotionSyncType::Pattern)
        } else if s == "decision"@ {
            Some(NotionSyncType::Decision)
        } else {
            None
        }
    }

    pub fn as_str(&self) -> (s: &'static str)
        ensures
            s@ == self.name(),
    {
        match self {
            NotionSyncType::DailyLog => "daily_log",
            NotionSyncType::Session => "session",
            NotionSyncType::Project => "project",
            NotionSyncType::Pattern => "pattern",
            NotionSyncType::Decision => "decision",
        }
    }

    pub fn from_str(s: &str) -> (r: Option<NotionSyncType>)
        ensures
            r == NotionSyncType::parse(s@),
    {
        if str_eq(s, "daily_log") {
            Some(NotionSyncType::DailyLog)
        } else if str_eq(s, "session") {
            Some(NotionSyncType::Session)
        } else if str_eq(s, "project") {
            Some(NotionSyncType::Project)
        } else if str_eq(s, "pattern") {
            Some(NotionSyncType::Pattern)
        } else if str_eq(s, "decision") {
            Some(NotionSyncType::Decision)
        } else {
            None
        }
    }
}

/// Reading back the storage name of a value gives that value, and a name
/// that reads back to a value is that value's storage name.
pub proof fn lemma_notion_sync_type_name_round_trip(t: NotionSyncType, s: Seq<char>)
    ensures
        NotionSyncType::parse(t.name()) == Some(t),
        NotionSyncType::parse(s) == Some(t) ==> t.name() == s,
{
    reveal_strlit("daily_log");
    reveal_strlit("session");
    reveal_strlit("project");
    reveal_strlit("pattern");
    reveal_strlit("decision");
    assert("daily_log"@.len() != "session"@.len());
    assert("daily_log"@.len() != "project"@.len());
    assert("daily_log"@.len() != "pattern"@.len());
    assert("daily_log"@.len() != "decision"@.len());
    assert("session"@[0] != "project"@[0]);
    assert("session"@[0] != "pattern"@[0]);
    assert("session"@.len() != "decision"@.len());
    assert("project"@[1] != "pattern"@[1]);
    assert("project"@.len() != "decision"@.len());
    assert("pattern"@.len() != "decision"@.len());
}

/// Sync status of a queued item.
#[derive(Debug, Clone, Copy, PartialEq, Eq, Hash, Structural)]
pub enum SyncStatus {
    Pending,
    Syncing,
    Synced,
    Failed,
}

impl SyncStatus {
    /// The storage name of a value.
    pub open spec fn name(self) -> Seq<char> {
        match self {
            SyncStatus::Pending => "pending"@,
            SyncStatus::Syncing => "syncing"@,
            SyncStatus::Synced => "synced"@,
            SyncStatus::Failed => "failed"@,
        }
    }

    /// The value a storage name stands for, if any.
    pub open spec fn parse(s: Seq<char>) -> Option<SyncStatus> {
        if s == "pending"@ {
            Some(SyncStatus::Pending)
        } else if s == "syncing"@ {
            Some(SyncStatus::Syncing)
        } else if s == "synced"@ {
            Some(SyncStatus::Synced)
        } else if s == "failed"@ {
            Some(SyncStatus::Failed)
        } else {
            None
        }
    }

    pub fn as_str(&self) -> (s: &'static str)
        ensures
            s@ == self.name(),
    {
        match self {
            SyncStatus::Pending => "pending",
            SyncStatus::Syncing => "syncing",
            SyncStatus::Synced => "synced",
            SyncStatus::Failed => "failed",
        }
    }

    pub fn from_str(s: &str) -> (r: Option<SyncStatus>)
        ensures
            r == SyncStatus::parse(s@),
    {
        if str_eq(s, "pending") {
            Some(SyncStatus::Pending)
        } else if str_eq(s, "syncing") {
            Some(SyncStatus::Syncing)
        } else if str_eq(s, "synced") {
            Some(SyncStatus::Synced)
        } else if str_eq(s, "failed") {
            Some(SyncStatus::Failed)
        } else {
            None
        }
    }
}

/// Reading back the storage name of a value gives that value, and a name
/// that reads back to a value is that value's storage name.
pub proof fn lemma_sync_status_name_round_trip(t: SyncStatus, s: Seq<char>)
    ensures
        SyncStatus::parse(t.name()) == Some(t),
        SyncStatus::parse(s) == Some(t) ==> t.name() == s,
{
    reveal_strlit("pending");
    reveal_strlit("syncing");
    reveal_strlit("synced");
    reveal_strlit("failed");
    assert("pending"@[0] != "syncing"@[0]);
    assert("pending"@.len() != "synced"@.len());
    assert("pending"@.len() != "failed"@.len());
    assert("syncing"@.len() != "synced"@.len());
    assert("syncing"@.len() != "failed"@.len());
    assert("synced"@[0] != "failed"@[0]);
}

/// Privacy rule types.
#[derive(Debug, Clone, Copy, PartialEq, Eq, Hash, Structural)]
pub enum PrivacyRuleType {
    ExcludePath,
    ExcludeTitle,
    ExcludeDomain,
    Redaction,
}

impl PrivacyRuleType {
    /// The storage name of a value.
    pub open spec fn name(self) -> Seq<char> {
        match self {
            PrivacyRuleType::ExcludePath => "exclude_path"@,
            PrivacyRuleType::ExcludeTitle => "exclude_title"@,
            PrivacyRuleType::ExcludeDomain => "exclude_domain"@,
            PrivacyRuleType::Redaction => "redaction"@,
        }
    }

    /// The value a storage name stands for, if any.
    pub open spec fn parse(s: Seq<char>) -> Option<PrivacyRuleType> {
        if s == "exclude_path"@ {
            Some(PrivacyRuleType::ExcludePath)
        } else if s == "exclude_title"@ {
            Some(PrivacyRuleType::ExcludeTitle)
        } else if s == "exclude_domain"@ {
            Some(PrivacyRuleType::ExcludeDomain)
        } else if s == "redaction"@ {
            Some(PrivacyRuleType::Redaction)
        } else {
            None
        }
    }

    pub fn as_str(&self) -> (s: &'static str)
        ensures
            s@ == self.name(),
    {
        match self {
            PrivacyRuleType::ExcludePath => "exclude_path",
            PrivacyRuleType::ExcludeTitle => "exclude_title",
            PrivacyRuleType::ExcludeDomain => "exclude_domain",
            PrivacyRuleType::Redaction => "redaction",
        }
    }

    pub fn from_str(s: &str) -> (r: Option<PrivacyRuleType>)
        ensures
            r == PrivacyRuleType::parse(s@),
    {
        if str_eq(s, "exclude_path") {
            Some(PrivacyRuleType::ExcludePath)
        } else if str_eq(s, "exclude_title") {
            Some(PrivacyRuleType::ExcludeTitle)
        } else if str_eq(s, "exclude_domain") {
            Some(PrivacyRuleType::ExcludeDomain)
        } else if str_eq(s, "redaction") {
            Some(PrivacyRuleType::Redaction)
        } else {
            None
        }
    }
}

/// Reading back the storage name of a value gives that value, and a name
/// that reads back to a value is that value's storage name.
pub proof fn lemma_privacy_rule_type_name_round_trip(t: PrivacyRuleType, s: Seq<char>)
    ensures
        PrivacyRuleType::parse(t.name()) == Some(t),
        PrivacyRuleType::parse(s) == Some(t) ==> t.name() == s,
{
    reveal_strlit("exclude_path");
    reveal_strlit("exclude_title");
    reveal_strlit("exclude_domain");
    reveal_strlit("redaction");
    assert("exclude_path"@.len() != "exclude_title"@.len());
    assert("exclude_path"@.len() != "exclude_domain"@.len());
    assert("exclude_path"@.len() != "redaction"@.len());
    assert("exclude_title"@.len() != "exclude_domain"@.len());
    assert("exclude_title"@.len() != "redaction"@.len());
    assert("exclude_domain"@.len() != "redaction"@.len());
}

/// Privacy actions.
#[derive(Debug, Clone, Copy, PartialEq, Eq, Hash, Structural)]
pub enum PrivacyAction {
    Exclude,
    Redact,
    Hash,
}

impl PrivacyAction {
    /// The storage name of a value.
    pub open spec fn name(self) -> Seq<char> {
        match self {
            PrivacyAction::Exclude => "exclude"@,
            PrivacyAction::Redact => "redact"@,
            PrivacyAction::Hash => "hash"@,
        }
    }

    /// The value a storage name stands for, if any.
    pub open spec fn parse(s: Seq<char>) -> Option<PrivacyAction> {
        if s == "exclude"@ {
            Some(PrivacyAction::Exclude)
        } else if s == "redact"@ {
            Some(PrivacyAction::Redact)
        } else if s == "hash"@ {
            Some(PrivacyAction::Hash)
        } else {
            None
        }
    }

    pub fn as_str(&self) -> (s: &'static str)
        ensures
            s@ == self.name(),
    {
        match self {
            PrivacyAction::Exclude => "exclude",
            PrivacyAction::Redact => "redact",
            PrivacyAction::Hash => "hash",
        }
    }

    pub fn from_str(s: &str) -> (r: Option<PrivacyAction>)
        ensures
            r == PrivacyAction::parse(s@),
    {
        if str_eq(s, "exclude") {
            Some(PrivacyAction::Exclude)
        } else if str_eq(s, "redact") {
            Some(PrivacyAction::Redact)
        } else if str_eq(s, "hash") {
            Some(PrivacyAction::Hash)
        } else {
            None
        }
    }
}

/// Reading back the storage name of a value gives that value, and a name
/// that reads back to a value is that value's storage name.
pub proof fn lemma_privacy_action_name_round_trip(t: PrivacyAction, s: Seq<char>)
    ensures
        PrivacyAction::parse(t.name()) == Some(t),
        PrivacyAction::parse(s) == Some(t) ==> t.name() == s,
{
    reveal_strlit("exclude");
    reveal_strlit("redact");
    reveal_strlit("hash");
    assert("exclude"@.len() != "redact"@.len());
    assert("exclude"@.len() != "hash"@.len());
    assert("redact"@.len() != "hash"@.len());
}

} // verus!
