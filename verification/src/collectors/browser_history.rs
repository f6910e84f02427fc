//! Browser history: new visits read from Chrome, Edge and Firefox history
//! databases, one read position (the last visit time) per browser.

use vstd::prelude::*;
use crate::collector::OffsetTracker;
use crate::json::{Json, JsonValue};
use crate::parse::{parse_i64, parsed_i64};
use crate::pattern::{is_url_excluded, url_excluded};
use crate::schema::RawEvent;
use crate::text::{owned, push_str, string_of};

verus! {

/// The payload of one visit event.
pub open spec fn visit_payload(url: Seq<char>, title: Seq<char>, browser: Seq<char>, visit_time: i64) -> JsonValue {
    JsonValue::Object(seq![
        ("url"@, JsonValue::Str(url)),
        ("title"@, JsonValue::Str(title)),
        ("browser"@, JsonValue::Str(browser)),
        ("visit_time"@, JsonValue::Number(visit_time as int)),
    ])
}

/// The visits that no domain pattern excludes, in order.
pub open spec fn kept_visits(rows: Seq<(String, String, i64)>, patterns: Seq<String>) -> Seq<(String, String, i64)>
    decreases rows.len(),
{
    if rows.len() == 0 {
        Seq::empty()
    } else {
        kept_visits(rows.drop_last(), patterns) + (if url_excluded(rows.last().0@, patterns) {
            Seq::empty()
        } else {
            seq![rows.last()]
        })
    }
}

/// The latest of `start` and the visit times of `rows`.
pub open spec fn latest_visit(rows: Seq<(String, String, i64)>, start: i64) -> i64
    decreases rows.len(),
{
    if rows.len() == 0 {
        start
    } else {
        let m = latest_visit(rows.drop_last(), start);
        if rows.last().2 > m {
            rows.last().2
        } else {
            m
        }
    }
}

/// The read position only moves forward: the latest visit time is at least
/// the starting one and every kept visit's time, and when it moved it is
/// the time of one of the visits.
pub proof fn lemma_latest_visit(rows: Seq<(String, String, i64)>, start: i64)
    ensures
        latest_visit(rows, start) >= start,
        forall|i: int| 0 <= i < rows.len() ==> latest_visit(rows, start) >= (#[trigger] rows[i]).2,
        latest_visit(rows, start) != start ==> exists|i: int| 0 <= i < rows.len()
            && (#[trigger] rows[i]).2 == latest_visit(rows, start),
    decreases rows.len(),
{
    if rows.len() > 0 {
        let pre = rows.drop_last();
        lemma_latest_visit(pre, start);
        assert forall|i: int| 0 <= i < rows.len() implies latest_visit(rows, start) >= (#[trigger] rows[i]).2 by {
            if i < pre.len() {
                assert(rows[i] == pre[i]);
            }
        }
        if latest_visit(rows, start) != start {
            if rows.last().2 > latest_visit(pre, start) {
                assert(rows[rows.len() - 1].2 == latest_visit(rows, start));
            } else {
                let k = choose|k: int| 0 <= k < pre.len() && (#[trigger] pre[k]).2 == latest_visit(pre, start);
                assert(rows[k] == pre[k]);
            }
        }
    }
}

/// Browser history collector: polls browser history databases for new
/// visits.
pub struct BrowserHistoryCollector {
    tracker: OffsetTracker,
    db_path: String,
    exclude_domains: Vec<String>,
    poll_interval_secs: u64,
}

impl BrowserHistoryCollector {
    /// The domain patterns whose visits are dropped.
    pub closed spec fn excluded_view(&self) -> Seq<String> {
        self.exclude_domains@
    }

    /// The pause between polls, in seconds.
    pub closed spec fn poll_view(&self) -> u64 {
        self.poll_interval_secs
    }

    /// The offset tracker.
    pub closed spec fn tracker_view(&self) -> OffsetTracker {
        self.tracker
    }

    /// The archive database path, as text.
    pub closed spec fn path_view(&self) -> Seq<char> {
        self.db_path@
    }

    /// A collector for the given database: no excluded domains, a poll each
    /// minute.
    pub fn new(db_path: String) -> (c: BrowserHistoryCollector)
        ensures
            c.excluded_view().len() == 0,
            c.poll_view() == 60,
            c.tracker_view().name_view() == "browser_history"@,
            c.tracker_view().path_view() == db_path@,
            c.path_view() == db_path@,
    {
        let tracker = OffsetTracker::new(owned("browser_history"), owned(db_path.as_str()));
        BrowserHistoryCollector { tracker, db_path, exclude_domains: Vec::new(), poll_interval_secs: 60 }
    }

    /// Sets the domain patterns whose visits are dropped.
    pub fn with_exclude_domains(self, domains: Vec<String>) -> (c: BrowserHistoryCollector)
        ensures
            c.excluded_view() == domains@,
            c.poll_view() == self.poll_view(),
            c.tracker_view() == self.tracker_view(),
            c.path_view() == self.path_view(),
    {
        BrowserHistoryCollector {
            tracker: self.tracker,
            db_path: self.db_path,
            exclude_domains: domains,
            poll_interval_secs: self.poll_interval_secs,
        }
    }

    /// Sets the pause between polls, at least ten seconds.
    pub fn with_poll_interval(self, secs: u64) -> (c: BrowserHistoryCollector)
        ensures
            c.poll_view() == (if secs < 10 { 10 } else { secs }),
            c.excluded_view() == self.excluded_view(),
            c.tracker_view() == self.tracker_view(),
            c.path_view() == self.path_view(),
    {
        BrowserHistoryCollector {
            tracker: self.tracker,
            db_path: self.db_path,
            exclude_domains: self.exclude_domains,
            poll_interval_secs: if secs < 10 { 10 } else { secs },
        }
    }

    /// The collector's name.
    pub fn name(&self) -> (n: &'static str)
        ensures
            n@ == "browser_history"@,
    {
        "browser_history"
    }

    /// The pause between polls, in seconds.
    pub fn poll_interval_secs(&self) -> (s: u64)
        ensures
            s == self.poll_view(),
    {
        self.poll_interval_secs
    }

    /// The offset tracker.
    pub fn tracker(&self) -> (t: &OffsetTracker)
        ensures
            *t == self.tracker_view(),
    {
        &self.tracker
    }

    /// Whether a visited URL is dropped (see `url_excluded`).
    pub fn is_domain_excluded(url: &str, exclude_domains: &Vec<String>) -> (r: bool)
        ensures
            r == url_excluded(url@, exclude_domains@),
    {
        is_url_excluded(url, exclude_domains)
    }

    /// The name under which a browser's read position is stored.
    pub fn offset_name(browser: &str) -> (n: String)
        ensures
            n@ == "browser_history_"@ + browser@,
    {
        let mut v: Vec<char> = Vec::new();
        push_str(&mut v, "browser_history_");
        push_str(&mut v, browser);
        string_of(&v)
    }

    /// The last visit time a stored position holds, when it parses.
    pub fn saved_offset(saved: &Option<String>) -> (r: Option<i64>)
        ensures
            r == (match saved {
                Some(s) => parsed_i64(s@),
                None => None,
            }),
    {
        match saved {
            Some(s) => parse_i64(s.as_str()),
            None => None,
        }
    }

    /// One poll of one browser: the visits newer than `last_time` (as the
    /// history query returned them, in time order) become events, except
    /// those of excluded domains; the result's second part is the new read
    /// position when a kept visit is later than `last_time`.
    pub fn process_visits(&self, browser: &str, last_time: i64, rows: &Vec<(String, String, i64)>)
        -> (r: (Vec<RawEvent>, Option<i64>))
        ensures
            r.0@.len() == kept_visits(rows@, self.excluded_view()).len(),
            forall|i: int| 0 <= i < r.0@.len() ==> {
                let v = #[trigger] kept_visits(rows@, self.excluded_view())[i];
                &&& r.0@[i].source@ == "browser_history"@
                &&& r.0@[i].payload.value() == visit_payload(v.0@, v.1@, browser@, v.2)
            },
            r.1 == (if latest_visit(kept_visits(rows@, self.excluded_view()), last_time) > last_time {
                Some(latest_visit(kept_visits(rows@, self.excluded_view()), last_time))
            } else {
                None
            }),
    {
        let ghost pats = self.exclude_domains@;
        let mut events: Vec<RawEvent> = Vec::new();
        let mut max_time = last_time;
        let mut i: usize = 0;
        while i < rows.len()
            invariant
                i <= rows@.len(),
                pats == self.exclude_domains@,
                events@.len() == kept_visits(rows@.take(i as int), pats).len(),
                forall|k: int| 0 <= k < events@.len() ==> {
                    let v = #[trigger] kept_visits(rows@.take(i as int), pats)[k];
                    &&& events@[k].source@ == "browser_history"@
                    &&& events@[k].payload.value() == visit_payload(v.0@, v.1@, browser@, v.2)
                },
                max_time == latest_visit(kept_visits(rows@.take(i as int), pats), last_time),
            decreases rows@.len() - i,
        {
            let ghost kept_before = kept_visits(rows@.take(i as int), pats);
            assert(rows@.take(i + 1).drop_last() =~= rows@.take(i as int));
            let row = &rows[i];
            if !Self::is_domain_excluded(row.0.as_str(), &self.exclude_domains) {
                if row.2 > max_time {
                    max_time = row.2;
                }
                let e = visit_event(row.0.as_str(), row.1.as_str(), browser, row.2);
                events.push(e);
                let ghost kept_after = kept_visits(rows@.take(i + 1), pats);
                assert(kept_after =~= kept_before.push(rows@[i as int]));
                assert(kept_after.drop_last() =~= kept_before);
            } else {
                assert(kept_visits(rows@.take(i + 1), pats) =~= kept_before);
            }
            i = i + 1;
        }
        assert(rows@.take(i as int) =~= rows@);
        let next = if max_time > last_time { Some(max_time) } else { None };
        (events, next)
    }
}

/// The raw event for one visit.
fn visit_event(url: &str, title: &str, browser: &str, visit_time: i64) -> (e: RawEvent)
    ensures
        e.source@ == "browser_history"@,
        e.payload.value() == visit_payload(url@, title@, browser@, visit_time),
{
    let mut m: Vec<(String, Json)> = Vec::new();
    m.push((owned("url"), Json::Str(owned(url))));
    m.push((owned("title"), Json::Str(owned(title))));
    m.push((owned("browser"), Json::Str(owned(browser))));
    m.push((owned("visit_time"), Json::Number(visit_time as i128)));
    let payload = Json::Object(m);
    proof {
        reveal_with_fuel(Json::value, 2);
        assert(payload.value()->Object_0 =~= visit_payload(url@, title@, browser@, visit_time)->Object_0);
    }
    RawEvent::new(owned("browser_history"), payload)
}

} // verus!
