//! The Notion sync queue: the payloads queued for daily logs, sessions and
//! projects, the processing of a queued item, and the queue's statistics.

use vstd::prelude::*;
use crate::clock::{date_of, date_text, in_calendar, rfc3339_of, rfc3339_text};
use crate::json::{json_clone, Json, JsonValue};
use crate::names::{NotionSyncType, SyncStatus};
use crate::schema::{NotionSyncItem, Session, Summary};
use crate::text::{owned, push_str, string_of};

verus! {

/// How many pending items one pass over the sync queue takes at most.
pub const SYNC_BATCH_SIZE: u64 = 10;

/// An optional text as JSON: the string, or `null`.
pub open spec fn opt_text_value(s: Option<String>) -> JsonValue {
    match s {
        Some(t) => JsonValue::Str(t@),
        None => JsonValue::Null,
    }
}

/// The payload queued for a daily log.
pub open spec fn daily_log_payload(summary: Summary) -> JsonValue {
    JsonValue::Object(seq![
        ("date"@, JsonValue::Str(date_text(summary.period_start))),
        ("summary"@, JsonValue::Str(summary.content@)),
        ("metrics"@, summary.metrics.value()),
    ])
}

/// The tags of a session as a JSON array of strings.
pub open spec fn tags_value(tags: Seq<String>) -> JsonValue {
    JsonValue::Array(Seq::new(tags.len(), |i: int| JsonValue::Str(tags[i]@)))
}

/// The payload queued for a session.
pub open spec fn session_payload(session: Session) -> JsonValue {
    JsonValue::Object(seq![
        ("start_time"@, JsonValue::Str(rfc3339_text(session.start_ts_utc))),
        ("end_time"@, match session.end_ts_utc {
            Some(t) => JsonValue::Str(rfc3339_text(t)),
            None => JsonValue::Null,
        }),
        ("label"@, JsonValue::Str(session.label.name())),
        ("project_key"@, opt_text_value(session.project_key)),
        ("tags"@, tags_value(session.tags@)),
        ("summary"@, opt_text_value(session.summary)),
        ("event_count"@, JsonValue::Number(session.event_count as int)),
    ])
}

/// The payload queued for a project.
pub open spec fn project_payload(project_key: Seq<char>, summary: Summary) -> JsonValue {
    JsonValue::Object(seq![
        ("name"@, JsonValue::Str(project_key)),
        ("summary"@, JsonValue::Str(summary.content@)),
        ("metrics"@, summary.metrics.value()),
        ("last_activity"@, JsonValue::Str(rfc3339_text(summary.period_end))),
    ])
}

/// A freshly queued item: pending, never tried, with no page yet.
pub open spec fn fresh(item: NotionSyncItem) -> bool {
    &&& item.status == SyncStatus::Pending
    &&& item.notion_page_id is None
    &&& item.error_message is None
    &&& item.retry_count == 0
}

/// The page a sync reports for an item: `page_` and the item's id for the
/// kinds that are synced, none for the others.
pub open spec fn page_for(item: NotionSyncItem) -> Option<Seq<char>> {
    match item.sync_type {
        NotionSyncType::DailyLog | NotionSyncType::Session | NotionSyncType::Project => Some("page_"@ + item.id@),
        NotionSyncType::Pattern | NotionSyncType::Decision => None,
    }
}

/// The counts of queue items by status.
#[derive(Debug, Clone)]
pub struct SyncStats {
    pub pending: u32,
    pub syncing: u32,
    pub synced: u32,
    pub failed: u32,
}

/// The number of statuses equal to `s`.
pub open spec fn status_count(statuses: Seq<SyncStatus>, s: SyncStatus) -> nat
    decreases statuses.len(),
{
    if statuses.len() == 0 {
        0
    } else {
        status_count(statuses.drop_last(), s) + (if statuses.last() == s { 1nat } else { 0nat })
    }
}

/// A count as the 32-bit number the statistics hold (the low 32 bits).
pub open spec fn low32(n: nat) -> u32 {
    (n % 0x1_0000_0000) as u32
}

/// The settings of the Notion sync.
pub struct NotionSync {
    pub api_key: String,
    pub daily_logs_database_id: String,
    pub sessions_database_id: String,
    pub projects_database_id: String,
    pub queue_processor_interval_secs: u64,
}

pub(crate) fn text_json(s: &str) -> (j: Json)
    ensures
        j.value() == JsonValue::Str(s@),
{
    Json::Str(owned(s))
}

pub(crate) fn opt_text_json(s: &Option<String>) -> (j: Json)
    ensures
        j.value() == opt_text_value(*s),
{
    match s {
        Some(t) => Json::Str(owned(t.as_str())),
        None => Json::Null,
    }
}

impl NotionSync {
    /// The sync settings: the API key, the three target databases and the
    /// pause between passes over the queue.
    pub fn new(api_key: String, daily_logs_database_id: String, sessions_database_id: String,
        projects_database_id: String, queue_processor_interval_secs: u64) -> (n: NotionSync)
        ensures
            n.api_key == api_key,
            n.daily_logs_database_id == daily_logs_database_id,
            n.sessions_database_id == sessions_database_id,
            n.projects_database_id == projects_database_id,
            n.queue_processor_interval_secs == queue_processor_interval_secs,
    {
        NotionSync {
            api_key,
            daily_logs_database_id,
            sessions_database_id,
            projects_database_id,
            queue_processor_interval_secs,
        }
    }

    /// The queue item for a daily log, addressed to the daily-logs database.
    pub fn queue_daily_log(&self, summary: &Summary) -> (item: NotionSyncItem)
        requires
            in_calendar(summary.period_start as int),
        ensures
            item.sync_type == NotionSyncType::DailyLog,
            item.target_id@ == self.daily_logs_database_id@,
            item.payload.value() == daily_log_payload(*summary),
            fresh(item),
    {
        let mut m: Vec<(String, Json)> = Vec::new();
        m.push((owned("date"), Json::Str(date_of(summary.period_start))));
        m.push((owned("summary"), text_json(summary.content.as_str())));
        m.push((owned("metrics"), json_clone(&summary.metrics)));
        let payload = Json::Object(m);
        proof {
            reveal_with_fuel(Json::value, 2);
            assert(payload.value()->Object_0 =~= daily_log_payload(*summary)->Object_0);
        }
        NotionSyncItem::new(NotionSyncType::DailyLog, owned(self.daily_logs_database_id.as_str()), payload)
    }

    /// The queue item for a session, addressed to the sessions database.
    pub fn queue_session(&self, session: &Session) -> (item: NotionSyncItem)
        requires
            in_calendar(session.start_ts_utc as int),
            session.end_ts_utc matches Some(t) ==> in_calendar(t as int),
        ensures
            item.sync_type == NotionSyncType::Session,
            item.target_id@ == self.sessions_database_id@,
            item.payload.value() == session_payload(*session),
            fresh(item),
    {
        let mut tags: Vec<Json> = Vec::new();
        let mut i: usize = 0;
        while i < session.tags.len()
            invariant
                i <= session.tags@.len(),
                tags@.len() == i,
                forall|k: int| 0 <= k < i ==> (#[trigger] tags@[k]).value() == JsonValue::Str(session.tags@[k]@),
            decreases session.tags@.len() - i,
        {
            tags.push(text_json(session.tags[i].as_str()));
            i = i + 1;
        }
        let tags_json = Json::Array(tags);
        assert(tags_json.value()->Array_0 =~= tags_value(session.tags@)->Array_0);
        let end = match session.end_ts_utc {
            Some(t) => Json::Str(rfc3339_of(t)),
            None => Json::Null,
        };
        let mut m: Vec<(String, Json)> = Vec::new();
        m.push((owned("start_time"), Json::Str(rfc3339_of(session.start_ts_utc))));
        m.push((owned("end_time"), end));
        m.push((owned("label"), text_json(session.label.as_str())));
        m.push((owned("project_key"), opt_text_json(&session.project_key)));
        m.push((owned("tags"), tags_json));
        m.push((owned("summary"), opt_text_json(&session.summary)));
        m.push((owned("event_count"), Json::Number(session.event_count as i128)));
        let payload = Json::Object(m);
        proof {
            reveal_with_fuel(Json::value, 2);
            assert(payload.value()->Object_0 =~= session_payload(*session)->Object_0);
        }
        NotionSyncItem::new(NotionSyncType::Session, owned(self.sessions_database_id.as_str()), payload)
    }

    /// The queue item for a project, addressed to the projects database.
    pub fn queue_project(&self, project_key: &str, summary: &Summary) -> (item: NotionSyncItem)
        requires
            in_calendar(summary.period_end as int),
        ensures
            item.sync_type == NotionSyncType::Project,
            item.target_id@ == self.projects_database_id@,
            item.payload.value() == project_payload(project_key@, *summary),
            fresh(item),
    {
        let mut m: Vec<(String, Json)> = Vec::new();
        m.push((owned("name"), text_json(project_key)));
        m.push((owned("summary"), text_json(summary.content.as_str())));
        m.push((owned("metrics"), json_clone(&summary.metrics)));
        m.push((owned("last_activity"), Json::Str(rfc3339_of(summary.period_end))));
        let payload = Json::Object(m);
        proof {
            reveal_with_fuel(Json::value, 2);
            assert(payload.value()->Object_0 =~= project_payload(project_key@, *summary)->Object_0);
        }
        NotionSyncItem::new(NotionSyncType::Project, owned(self.projects_database_id.as_str()), payload)
    }

    /// The page a sync of the item reports (see `page_for`).
    pub fn sync_item(&self, item: &NotionSyncItem) -> (r: Option<String>)
        ensures
            match r {
                Some(p) => page_for(*item) == Some(p@),
                None => page_for(*item) is None,
            },
    {
        match item.sync_type {
            NotionSyncType::DailyLog | NotionSyncType::Session | NotionSyncType::Project => {
                let mut v: Vec<char> = Vec::new();
                push_str(&mut v, "page_");
                push_str(&mut v, item.id.as_str());
                Some(string_of(&v))
            },
            NotionSyncType::Pattern | NotionSyncType::Decision => None,
        }
    }

    /// Processes one queued item: it is synced, and ends `Synced` with the
    /// page the sync reported. Only the status, the page and the update time
    /// change.
    pub fn process_item(&self, item: &mut NotionSyncItem, now: i64)
        ensures
            final(item).status == SyncStatus::Synced,
            opt_text_value(final(item).notion_page_id) == (match page_for(*old(item)) {
                Some(p) => JsonValue::Str(p),
                None => JsonValue::Null,
            }),
            final(item).updated_at == now,
            final(item).id == old(item).id,
            final(item).sync_type == old(item).sync_type,
            final(item).target_id == old(item).target_id,
            final(item).payload == old(item).payload,
            final(item).error_message == old(item).error_message,
            final(item).created_at == old(item).created_at,
            final(item).retry_count == old(item).retry_count,
    {
        mark_syncing(item, now);
        let page = self.sync_item(item);
        finish_item(item, Ok(page), now);
    }

    /// The statistics of a queue, given the status of each item.
    pub fn get_sync_stats(statuses: &[SyncStatus]) -> (r: SyncStats)
        ensures
            r.pending == low32(status_count(statuses@, SyncStatus::Pending)),
            r.syncing == low32(status_count(statuses@, SyncStatus::Syncing)),
            r.synced == low32(status_count(statuses@, SyncStatus::Synced)),
            r.failed == low32(status_count(statuses@, SyncStatus::Failed)),
    {
        let mut pending: u64 = 0;
        let mut syncing: u64 = 0;
        let mut synced: u64 = 0;
        let mut failed: u64 = 0;
        let mut i: usize = 0;
        while i < statuses.len()
            invariant
                i <= statuses@.len(),
                pending == status_count(statuses@.take(i as int), SyncStatus::Pending),
                syncing == status_count(statuses@.take(i as int), SyncStatus::Syncing),
                synced == status_count(statuses@.take(i as int), SyncStatus::Synced),
                failed == status_count(statuses@.take(i as int), SyncStatus::Failed),
                pending + syncing + synced + failed == i,
            decreases statuses@.len() - i,
        {
            assert(statuses@.take(i + 1).drop_last() =~= statuses@.take(i as int));
            match statuses[i] {
                SyncStatus::Pending => {
                    pending = pending + 1;
                },
                SyncStatus::Syncing => {
                    syncing = syncing + 1;
                },
                SyncStatus::Synced => {
                    synced = synced + 1;
                },
                SyncStatus::Failed => {
                    failed = failed + 1;
                },
            }
            i = i + 1;
        }
        assert(statuses@.take(i as int) =~= statuses@);
        SyncStats {
            pending: truncate32(pending),
            syncing: truncate32(syncing),
            synced: truncate32(synced),
            failed: truncate32(failed),
        }
    }
}

fn truncate32(n: u64) -> (r: u32)
    ensures
        r == low32(n as nat),
{
    let r = #[verifier::truncate] (n as u32);
    assert(r == n % 0x1_0000_0000) by (bit_vector)
        requires
            r == #[verifier::truncate] (n as u32),
    ;
    r
}

/// Marks an item as being synced.
pub fn mark_syncing(item: &mut NotionSyncItem, now: i64)
    ensures
        final(item).status == SyncStatus::Syncing,
        final(item).notion_page_id is None,
        final(item).updated_at == now,
        final(item).id == old(item).id,
        final(item).sync_type == old(item).sync_type,
        final(item).target_id == old(item).target_id,
        final(item).payload == old(item).payload,
        final(item).error_message == old(item).error_message,
        final(item).created_at == old(item).created_at,
        final(item).retry_count == old(item).retry_count,
{
    item.status = SyncStatus::Syncing;
    item.notion_page_id = None;
    item.updated_at = now;
}

/// Records the outcome of a sync: `Synced` with the reported page, or
/// `Failed` with no page and one more retry counted (saturating).
pub fn finish_item(item: &mut NotionSyncItem, outcome: Result<Option<String>, String>, now: i64)
    ensures
        match outcome {
            Ok(page) => final(item).status == SyncStatus::Synced && final(item).notion_page_id == page
                && final(item).retry_count == old(item).retry_count,
            Err(_) => final(item).status == SyncStatus::Failed && final(item).notion_page_id is None
                && final(item).retry_count == (if old(item).retry_count == u32::MAX { u32::MAX as int } else {
                    old(item).retry_count + 1 }),
        },
        final(item).updated_at == now,
        final(item).id == old(item).id,
        final(item).sync_type == old(item).sync_type,
        final(item).target_id == old(item).target_id,
        final(item).payload == old(item).payload,
        final(item).error_message == old(item).error_message,
        final(item).created_at == old(item).created_at,
{
    match outcome {
        Ok(page) => {
            item.status = SyncStatus::Synced;
            item.notion_page_id = page;
        },
        Err(_) => {
            item.status = SyncStatus::Failed;
            item.notion_page_id = None;
            if item.retry_count < u32::MAX {
                item.retry_count = item.retry_count + 1;
            }
        },
    }
    item.updated_at = now;
}

/// The statistics count every item once: the four counts add up to the
/// number of items.
pub proof fn lemma_status_counts_partition(statuses: Seq<SyncStatus>)
    ensures
        status_count(statuses, SyncStatus::Pending) + status_count(statuses, SyncStatus::Syncing)
            + status_count(statuses, SyncStatus::Synced) + status_count(statuses, SyncStatus::Failed)
            == statuses.len(),
    decreases statuses.len(),
{
    if statuses.len() > 0 {
        lemma_status_counts_partition(statuses.drop_last());
    }
}

} // verus!
