//! The archive's records and its storage layout.
//!
//! Times are integers: milliseconds since the Unix epoch. `ts_utc`,
//! `timestamp`, `created_at` and the like are UTC; `ts_local` is the local
//! wall-clock reading of the same instant, as the machine's time zone shows it.

use vstd::prelude::*;
use crate::clock::{new_id, now_millis, local_now_millis};
use crate::json::Json;
pub use crate::names::{ArtifactType, EntityType, EventType, NotionSyncType, PrivacyAction, PrivacyRuleType, SessionLabel, SummaryType, SyncStatus};
use crate::text::{fields_hash, hash_fields, hex, hex_of, opt_str, push_str, string_of};

verus! {

/// The longest wait, in seconds, for a locked database.
pub const SQLITE_OPEN_TIMEOUT_CAP_SECS: u64 = 300;

/// The busy timeout of a connection: the requested one, at most the cap;
/// the cap when none is requested.
pub fn open_timeout_secs(requested: Option<u64>) -> (r: u64)
    ensures
        r == (match requested {
            Some(t) => if t < SQLITE_OPEN_TIMEOUT_CAP_SECS { t } else { SQLITE_OPEN_TIMEOUT_CAP_SECS },
            None => SQLITE_OPEN_TIMEOUT_CAP_SECS,
        }),
{
    match requested {
        Some(t) => if t < SQLITE_OPEN_TIMEOUT_CAP_SECS { t } else { SQLITE_OPEN_TIMEOUT_CAP_SECS },
        None => SQLITE_OPEN_TIMEOUT_CAP_SECS,
    }
}

/// The archive's indexes: name, table and columns.
pub open spec fn index_specs() -> Seq<(Seq<char>, Seq<char>, Seq<char>)> {
    seq![
        ("idx_events_ts_utc"@, "events"@, "ts_utc"@),
        ("idx_events_event_type"@, "events"@, "event_type"@),
        ("idx_events_session_id"@, "events"@, "session_id"@),
        ("idx_events_project_key"@, "events"@, "project_key"@),
        ("idx_sessions_start_ts_utc"@, "sessions"@, "start_ts_utc"@),
        ("idx_summaries_period"@, "summaries"@, "summary_type, period_start, period_end"@),
        ("idx_notion_sync_queue_status"@, "notion_sync_queue"@, "status, created_at"@),
        ("idx_entities_type"@, "entities"@, "entity_type"@),
        ("idx_entities_name"@, "entities"@, "name"@),
    ]
}

/// The statement that creates an index, unless it exists.
pub open spec fn index_statement(name: Seq<char>, table: Seq<char>, columns: Seq<char>) -> Seq<char> {
    "CREATE INDEX IF NOT EXISTS "@ + name + " ON "@ + table + " ("@ + columns + ")"@
}

fn index_statement_of(name: &str, table: &str, columns: &str) -> (r: String)
    ensures
        r@ == index_statement(name@, table@, columns@),
{
    let mut v: Vec<char> = Vec::new();
    push_str(&mut v, "CREATE INDEX IF NOT EXISTS ");
    push_str(&mut v, name);
    push_str(&mut v, " ON ");
    push_str(&mut v, table);
    push_str(&mut v, " (");
    push_str(&mut v, columns);
    push_str(&mut v, ")");
    string_of(&v)
}

/// The statements that create the archive's indexes, in order.
pub fn index_statements() -> (r: Vec<String>)
    ensures
        r@.len() == index_specs().len(),
        forall|i: int| 0 <= i < r@.len() ==> (#[trigger] r@[i])@ == index_statement(index_specs()[i].0,
            index_specs()[i].1, index_specs()[i].2),
{
    let mut r: Vec<String> = Vec::new();
    r.push(index_statement_of("idx_events_ts_utc", "events", "ts_utc"));
    r.push(index_statement_of("idx_events_event_type", "events", "event_type"));
    r.push(index_statement_of("idx_events_session_id", "events", "session_id"));
    r.push(index_statement_of("idx_events_project_key", "events", "project_key"));
    r.push(index_statement_of("idx_sessions_start_ts_utc", "sessions", "start_ts_utc"));
    r.push(index_statement_of("idx_summaries_period", "summaries", "summary_type, period_start, period_end"));
    r.push(index_statement_of("idx_notion_sync_queue_status", "notion_sync_queue", "status, created_at"));
    r.push(index_statement_of("idx_entities_type", "entities", "entity_type"));
    r.push(index_statement_of("idx_entities_name", "entities", "name"));
    r
}

/// Raw event from a collector.
#[derive(Debug, Clone)]
pub struct RawEvent {
    pub id: String,
    pub source: String,
    pub payload: Json,
    pub timestamp: i64,
}

impl RawEvent {
    pub fn new(source: String, payload: Json) -> (r: RawEvent)
        ensures
            r.source == source,
            r.payload == payload,
            r.id@.len() == 36,
            r.timestamp >= 0,
    {
        RawEvent { id: new_id(), source, payload, timestamp: now_millis() }
    }
}

/// A new empty JSON object.
pub fn new_empty_object() -> (r: Json)
    ensures
        r is Object,
        r matches Json::Object(m) && m@.len() == 0,
{
    Json::Object(Vec::new())
}

/// Canonical normalized event.
#[derive(Debug, Clone)]
pub struct Event {
    pub id: String,
    pub ts_utc: i64,
    pub ts_local: i64,
    pub source: String,
    pub event_type: EventType,
    pub actor: Option<String>,
    pub host: Option<String>,
    pub app: Option<String>,
    pub title: Option<String>,
    pub path: Option<String>,
    pub details: Json,
    pub sensitivity: u8,
    pub project_key: Option<String>,
    pub session_id: Option<String>,
    pub hash: Option<String>,
    pub raw_ref: Option<String>,
    pub created_at: i64,
}

/// The deduplication hash of an event: the `DefaultHasher` hash of its type's
/// discriminant followed by its app, title and path, each an optional string.
pub open spec fn event_hash(e: Event) -> u64 {
    fields_hash(e.event_type.position(), crate::privacy::opt_view(e.app),
        crate::privacy::opt_view(e.title), crate::privacy::opt_view(e.path))
}

/// The text of an optional string, borrowed.
fn borrow_opt(o: &Option<String>) -> (r: Option<&str>)
    ensures
        opt_str(r) == crate::privacy::opt_view(*o),
{
    match o {
        Some(s) => Some(s.as_str()),
        None => None,
    }
}

impl Event {
    /// A new event of the given source and type at the current time, with no
    /// optional field set and empty details.
    pub fn new(source: String, event_type: EventType) -> (r: Event)
        ensures
            r.source == source,
            r.event_type == event_type,
            r.id@.len() == 36,
            r.ts_utc >= 0,
            r.created_at == r.ts_utc,
            r.actor is None && r.host is None && r.app is None && r.title is None,
            r.path is None && r.project_key is None && r.session_id is None,
            r.hash is None && r.raw_ref is None,
            r.details matches Json::Object(m) && m@.len() == 0,
            r.sensitivity == 0,
    {
        let now = now_millis();
        Event {
            id: new_id(),
            ts_utc: now,
            ts_local: local_now_millis(),
            source,
            event_type,
            actor: None,
            host: None,
            app: None,
            title: None,
            path: None,
            details: new_empty_object(),
            sensitivity: 0,
            project_key: None,
            session_id: None,
            hash: None,
            raw_ref: None,
            created_at: now,
        }
    }

    /// The deduplication hash: the lowercase hexadecimal `DefaultHasher`
    /// hash of the event type, app, title and path, fed to the hasher in that
    /// order, as their derived `Hash` impls feed it. Events that agree on
    /// those four fields get the same hash.
    pub fn generate_hash(&self) -> (r: String)
        ensures
            r@ == hex(event_hash(*self) as nat),
    {
        let h = hash_fields(self.event_type.ordinal(), borrow_opt(&self.app), borrow_opt(&self.title),
            borrow_opt(&self.path));
        string_of(&hex_of(h))
    }
}

/// The deduplication hash depends on an event's type, app, title and path
/// alone: events that agree on those get the same hash, whatever their
/// times, ids or details.
pub proof fn lemma_event_hash_identity(a: Event, b: Event)
    requires
        a.event_type == b.event_type,
        crate::privacy::opt_view(a.app) == crate::privacy::opt_view(b.app),
        crate::privacy::opt_view(a.title) == crate::privacy::opt_view(b.title),
        crate::privacy::opt_view(a.path) == crate::privacy::opt_view(b.path),
    ensures
        event_hash(a) == event_hash(b),
{
}

/// Session (grouped activity block).
#[derive(Debug, Clone)]
pub struct Session {
    pub id: String,
    pub start_ts_utc: i64,
    pub end_ts_utc: Option<i64>,
    pub label: SessionLabel,
    pub project_key: Option<String>,
    pub tags: Vec<String>,
    pub summary: Option<String>,
    pub event_count: u32,
    pub created_at: i64,
}

impl Session {
    pub fn new(start_ts_utc: i64) -> (r: Session)
        ensures
            r.start_ts_utc == start_ts_utc,
            r.end_ts_utc is None,
            r.label == SessionLabel::Unknown,
            r.project_key is None,
            r.tags@.len() == 0,
            r.summary is None,
            r.event_count == 0,
            r.id@.len() == 36,
    {
        Session {
            id: new_id(),
            start_ts_utc,
            end_ts_utc: None,
            label: SessionLabel::Unknown,
            project_key: None,
            tags: Vec::new(),
            summary: None,
            event_count: 0,
            created_at: now_millis(),
        }
    }
}

/// Entity (app, project, folder, domain, repo, person, document).
#[derive(Debug, Clone)]
pub struct Entity {
    pub id: String,
    pub entity_type: EntityType,
    pub name: String,
    pub metadata: Json,
    pub first_seen: i64,
    pub last_seen: i64,
    pub occurrence_count: u32,
}

impl Entity {
    pub fn new(entity_type: EntityType, name: String) -> (r: Entity)
        ensures
            r.entity_type == entity_type,
            r.name == name,
            r.occurrence_count == 1,
            r.first_seen == r.last_seen,
            r.metadata matches Json::Object(m) && m@.len() == 0,
            r.id@.len() == 36,
    {
        let now = now_millis();
        Entity {
            id: new_id(),
            entity_type,
            name,
            metadata: new_empty_object(),
            first_seen: now,
            last_seen: now,
            occurrence_count: 1,
        }
    }
}

/// Summary (hourly, daily, weekly, project, topic).
#[derive(Debug, Clone)]
pub struct Summary {
    pub id: String,
    pub summary_type: SummaryType,
    pub period_start: i64,
    pub period_end: i64,
    pub project_key: Option<String>,
    pub topic: Option<String>,
    pub content: String,
    pub metrics: Json,
    pub created_at: i64,
}

impl Summary {
    pub fn new(summary_type: SummaryType, period_start: i64, period_end: i64) -> (r: Summary)
        ensures
            r.summary_type == summary_type,
            r.period_start == period_start,
            r.period_end == period_end,
            r.project_key is None,
            r.topic is None,
            r.content@.len() == 0,
            r.metrics matches Json::Object(m) && m@.len() == 0,
            r.id@.len() == 36,
    {
        Summary {
            id: new_id(),
            summary_type,
            period_start,
            period_end,
            project_key: None,
            topic: None,
            content: String::new(),
            metrics: new_empty_object(),
            created_at: now_millis(),
        }
    }
}

/// Artifact (linked file, snapshot, export).
#[derive(Debug, Clone)]
pub struct Artifact {
    pub id: String,
    pub artifact_type: ArtifactType,
    pub path: String,
    pub size_bytes: Option<u64>,
    pub created_at: i64,
    pub metadata: Json,
}

impl Artifact {
    pub fn new(artifact_type: ArtifactType, path: String) -> (r: Artifact)
        ensures
            r.artifact_type == artifact_type,
            r.path == path,
            r.size_bytes is None,
            r.metadata matches Json::Object(m) && m@.len() == 0,
            r.id@.len() == 36,
    {
        Artifact {
            id: new_id(),
            artifact_type,
            path,
            size_bytes: None,
            created_at: now_millis(),
            metadata: new_empty_object(),
        }
    }
}

/// Notion sync queue item.
#[derive(Debug, Clone)]
pub struct NotionSyncItem {
    pub id: String,
    pub sync_type: NotionSyncType,
    pub target_id: String,
    pub payload: Json,
    pub status: SyncStatus,
    pub notion_page_id: Option<String>,
    pub error_message: Option<String>,
    pub created_at: i64,
    pub updated_at: i64,
    pub retry_count: u32,
}

impl NotionSyncItem {
    pub fn new(sync_type: NotionSyncType, target_id: String, payload: Json) -> (r: NotionSyncItem)
        ensures
            r.sync_type == sync_type,
            r.target_id == target_id,
            r.payload == payload,
            r.status == SyncStatus::Pending,
            r.notion_page_id is None,
            r.error_message is None,
            r.created_at == r.updated_at,
            r.retry_count == 0,
            r.id@.len() == 36,
    {
        let now = now_millis();
        NotionSyncItem {
            id: new_id(),
            sync_type,
            target_id,
            payload,
            status: SyncStatus::Pending,
            notion_page_id: None,
            error_message: None,
            created_at: now,
            updated_at: now,
            retry_count: 0,
        }
    }
}

/// Privacy rule.
#[derive(Debug, Clone)]
pub struct PrivacyRule {
    pub id: String,
    pub rule_type: PrivacyRuleType,
    pub pattern: String,
    pub action: PrivacyAction,
    pub created_at: i64,
}

impl PrivacyRule {
    pub fn new(rule_type: PrivacyRuleType, pattern: String, action: PrivacyAction) -> (r: PrivacyRule)
        ensures
            r.rule_type == rule_type,
            r.pattern == pattern,
            r.action == action,
            r.id@.len() == 36,
            r.created_at >= 0,
    {
        PrivacyRule { id: new_id(), rule_type, pattern, action, created_at: now_millis() }
    }
}

/// Ingestion offset for a collector.
#[derive(Debug, Clone)]
pub struct IngestionOffset {
    pub collector_name: String,
    pub offset_value: String,
    pub updated_at: i64,
}

impl IngestionOffset {
    pub fn new(collector_name: String, offset_value: String) -> (r: IngestionOffset)
        ensures
            r.collector_name == collector_name,
            r.offset_value == offset_value,
            r.updated_at >= 0,
    {
        IngestionOffset { collector_name, offset_value, updated_at: now_millis() }
    }
}

} // verus!
