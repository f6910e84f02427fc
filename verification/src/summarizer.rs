//! Summaries of activity: hourly and daily texts, project texts and the
//! metrics object stored with each summary.
//!
//! The events of a period are handed in by the caller, in time order (the
//! storage query selects them); everything said of a summary is said of
//! those events.

use vstd::prelude::*;
use vstd::string::StrSliceExecFns;
use crate::json::Json;
use crate::names::SummaryType;
use crate::schema::{Event, Summary};
use crate::tally::{counts_view, lemma_tally_empty, lemma_top_lists_busiest, lines, lists_busiest, push_lines, rank, ranked, strs_view, tally, tally_of, top};
use crate::text::{dec, dec_of, owned, pad_zeros, push_chars, push_str, string_of, zero_pad};

verus! {

/// Milliseconds in an hour.
pub const HOUR_MS: i64 = 3_600_000;

/// Milliseconds in a day.
pub const DAY_MS: i64 = 86_400_000;

/// The hour of the day (0 to 23) of a wall-clock reading in milliseconds.
pub open spec fn hour_of(ms: int) -> int {
    (ms % 86_400_000) / 3_600_000
}

/// The minute of the hour (0 to 59) of a wall-clock reading in milliseconds.
pub open spec fn minute_of(ms: int) -> int {
    ((ms % 86_400_000) % 3_600_000) / 60_000
}

/// A number in two digits, zero-padded.
pub open spec fn two_digits(n: int) -> Seq<char> {
    zero_pad(dec(n as nat), 2)
}

/// `%H:%M` of a wall-clock reading.
pub open spec fn clock_text(ms: int) -> Seq<char> {
    two_digits(hour_of(ms)) + ":"@ + two_digits(minute_of(ms))
}

/// The event type names, one per event.
pub open spec fn type_keys(events: Seq<Event>) -> Seq<Seq<char>>
    decreases events.len(),
{
    if events.len() == 0 {
        Seq::empty()
    } else {
        type_keys(events.drop_last()).push(events.last().event_type.name())
    }
}

/// The apps of the events that name one, in order.
pub open spec fn app_keys(events: Seq<Event>) -> Seq<Seq<char>>
    decreases events.len(),
{
    if events.len() == 0 {
        Seq::empty()
    } else {
        app_keys(events.drop_last()) + (match events.last().app {
            Some(a) => seq![a@],
            None => Seq::empty(),
        })
    }
}

/// The projects of the events that name one, in order.
pub open spec fn project_keys(events: Seq<Event>) -> Seq<Seq<char>>
    decreases events.len(),
{
    if events.len() == 0 {
        Seq::empty()
    } else {
        project_keys(events.drop_last()) + (match events.last().project_key {
            Some(p) => seq![p@],
            None => Seq::empty(),
        })
    }
}

/// The text of an hourly (or other) summary: the event count, the count of
/// each event type and, when some event names an app, the five apps seen
/// most often.
pub open spec fn summary_content(events: Seq<Event>, kind: Seq<char>) -> Seq<char> {
    if events.len() == 0 {
        "No activity recorded for this "@ + kind + "."@
    } else {
        "Activity summary for "@ + kind + ":\n\n"@ + "Total events: "@ + dec(events.len()) + "\n\n"@
            + "Event breakdown:\n"@ + lines(tally(type_keys(events)), ""@) + (if app_keys(events).len() == 0 {
            Seq::empty()
        } else {
            "\nTop applications:\n"@ + lines(top(ranked(tally(app_keys(events))), 5), ""@)
        })
    }
}

/// An app's name, or `unknown`.
pub open spec fn app_name(app: Option<String>) -> Seq<char> {
    match app {
        Some(a) => a@,
        None => "unknown"@,
    }
}

/// The daily-log line of an event with a non-empty title.
pub open spec fn note(e: Event) -> Seq<char> {
    match e.title {
        Some(t) => if t@.len() > 0 {
            "  - ["@ + clock_text(e.ts_local as int) + "] "@ + app_name(e.app) + ": "@ + t@ + "\n"@
        } else {
            Seq::empty()
        },
        None => Seq::empty(),
    }
}

/// The daily-log lines of a run of events.
pub open spec fn notes(events: Seq<Event>) -> Seq<char>
    decreases events.len(),
{
    if events.len() == 0 {
        Seq::empty()
    } else {
        notes(events.drop_last()) + note(events.last())
    }
}

/// At most the first `n` events.
pub open spec fn first_events(events: Seq<Event>, n: nat) -> Seq<Event> {
    if events.len() <= n {
        events
    } else {
        events.take(n as int)
    }
}

/// The text of a daily log: the span of the day's activity, the five
/// projects seen most often, and the titled events among the first ten.
pub open spec fn daily_log_content(events: Seq<Event>) -> Seq<char> {
    if events.len() == 0 {
        "No activity recorded today."@
    } else {
        "Activity from "@ + clock_text(events[0].ts_local as int) + " to "@ + clock_text(events.last().ts_local as int)
            + "\n\n"@ + (if project_keys(events).len() == 0 {
            Seq::empty()
        } else {
            "Top projects:\n"@ + lines(top(ranked(tally(project_keys(events))), 5), " events"@) + "\n"@
        }) + "Notable activity:\n"@ + notes(first_events(events, 10))
    }
}

/// The "Top projects" block of a daily log lists the busiest projects of
/// the day, at most five: each with its number of events, from the most
/// events down, and a project left out has no more events than any listed.
pub proof fn lemma_daily_log_lists_busiest_projects(events: Seq<Event>)
    requires
        project_keys(events).len() > 0,
    ensures
        exists|l: Seq<(Seq<char>, nat)>| #[trigger] lists_busiest(l, project_keys(events), 5)
            && daily_log_content(events) == "Activity from "@ + clock_text(events[0].ts_local as int) + " to "@
                + clock_text(events.last().ts_local as int) + "\n\n"@ + "Top projects:\n"@ + lines(l, " events"@)
                + "\n"@ + "Notable activity:\n"@ + notes(first_events(events, 10)),
{
    let l = top(ranked(tally(project_keys(events))), 5);
    lemma_top_lists_busiest(project_keys(events), 5);
    assert(events.len() > 0);
    assert(lists_busiest(l, project_keys(events), 5));
}

/// The "Top applications" block of a summary lists the busiest apps, at
/// most five: each with its number of events, from the most events down,
/// and an app left out has no more events than any listed.
pub proof fn lemma_summary_lists_busiest_apps(events: Seq<Event>, kind: Seq<char>)
    requires
        app_keys(events).len() > 0,
    ensures
        exists|l: Seq<(Seq<char>, nat)>| #[trigger] lists_busiest(l, app_keys(events), 5)
            && summary_content(events, kind) == "Activity summary for "@ + kind + ":\n\n"@ + "Total events: "@
                + dec(events.len()) + "\n\n"@ + "Event breakdown:\n"@ + lines(tally(type_keys(events)), ""@)
                + "\nTop applications:\n"@ + lines(l, ""@),
{
    let l = top(ranked(tally(app_keys(events))), 5);
    lemma_top_lists_busiest(app_keys(events), 5);
    assert(events.len() > 0);
    assert(lists_busiest(l, app_keys(events), 5));
}

/// The number of events whose local hour is `h`.
pub open spec fn hour_count(events: Seq<Event>, h: int) -> nat
    decreases events.len(),
{
    if events.len() == 0 {
        0
    } else {
        hour_count(events.drop_last(), h) + (if hour_of(events.last().ts_local as int) == h { 1nat } else { 0nat })
    }
}

/// The lines for the hours before `n` in which something happened.
pub open spec fn hour_lines(events: Seq<Event>, n: nat) -> Seq<char>
    decreases n,
{
    if n == 0 {
        Seq::empty()
    } else {
        let h = (n - 1) as nat;
        hour_lines(events, h) + (if hour_count(events, h as int) > 0 {
            "  - "@ + dec(h) + ":00: "@ + dec(hour_count(events, h as int)) + " events\n"@
        } else {
            Seq::empty()
        })
    }
}

/// The text of a project summary: the event count and the busy hours.
pub open spec fn project_content(project_key: Seq<char>, events: Seq<Event>) -> Seq<char> {
    if events.len() == 0 {
        "No activity recorded for project "@ + project_key + "."@
    } else {
        "Project summary for "@ + project_key + "\n\n"@ + "Total events: "@ + dec(events.len()) + "\n\n"@
            + "Activity by hour:\n"@ + hour_lines(events, 24)
    }
}

/// A JSON object that holds a tally: one numeric member per entry, in order.
pub open spec fn counts_object(j: Json, t: Seq<(Seq<char>, nat)>) -> bool {
    &&& j matches Json::Object(m)
    &&& m@.len() == t.len()
    &&& forall|i: int| 0 <= i < t.len() ==> (#[trigger] m@[i]).0@ == t[i].0 && m@[i].1 == Json::Number(t[i].1 as i128)
}

/// The metrics of a summary: the event count and the tallies of event
/// types, apps and projects.
pub open spec fn metrics_fit(j: Json, events: Seq<Event>) -> bool {
    &&& j matches Json::Object(m)
    &&& m@.len() == 4
    &&& m@[0].0@ == "total_events"@ && m@[0].1 == Json::Number(events.len() as i128)
    &&& m@[1].0@ == "event_types"@ && counts_object(m@[1].1, tally(type_keys(events)))
    &&& m@[2].0@ == "apps"@ && counts_object(m@[2].1, tally(app_keys(events)))
    &&& m@[3].0@ == "projects"@ && counts_object(m@[3].1, tally(project_keys(events)))
}

/// The milliseconds since midnight of a wall-clock reading.
fn day_millis(ms: i64) -> (d: u64)
    ensures
        d == ms as int % 86_400_000,
        d < 86_400_000,
{
    match ms.checked_rem_euclid(DAY_MS) {
        Some(d) => d as u64,
        None => 0,
    }
}

fn two_digits_of(n: u64) -> (r: Vec<char>)
    ensures
        r@ == two_digits(n as int),
{
    let d = dec_of(n);
    pad_zeros(&d, 2)
}

/// `%H:%M` of a wall-clock reading (see `clock_text`).
pub fn clock_text_of(ms: i64) -> (r: Vec<char>)
    ensures
        r@ == clock_text(ms as int),
{
    let d = day_millis(ms);
    let h = d / 3_600_000;
    let m = (d % 3_600_000) / 60_000;
    let mut r = two_digits_of(h);
    push_str(&mut r, ":");
    let mm = two_digits_of(m);
    push_chars(&mut r, &mm);
    r
}

fn type_keys_of(events: &[Event]) -> (r: Vec<String>)
    ensures
        strs_view(r@) == type_keys(events@),
{
    let mut r: Vec<String> = Vec::new();
    let mut i: usize = 0;
    while i < events.len()
        invariant
            i <= events@.len(),
            strs_view(r@) == type_keys(events@.take(i as int)),
        decreases events@.len() - i,
    {
        r.push(owned(events[i].event_type.as_str()));
        assert(events@.take(i + 1).drop_last() =~= events@.take(i as int));
        assert(strs_view(r@) =~= type_keys(events@.take(i as int)).push(events@[i as int].event_type.name()));
        i = i + 1;
    }
    assert(events@.take(i as int) =~= events@);
    r
}

fn app_keys_of(events: &[Event]) -> (r: Vec<String>)
    ensures
        strs_view(r@) == app_keys(events@),
{
    let mut r: Vec<String> = Vec::new();
    let mut i: usize = 0;
    while i < events.len()
        invariant
            i <= events@.len(),
            strs_view(r@) == app_keys(events@.take(i as int)),
        decreases events@.len() - i,
    {
        let ghost before = strs_view(r@);
        match &events[i].app {
            Some(a) => {
                r.push(a.clone());
                assert(strs_view(r@) =~= before + seq![a@]);
            },
            None => {
                assert(strs_view(r@) =~= before + Seq::<Seq<char>>::empty());
            },
        }
        assert(events@.take(i + 1).drop_last() =~= events@.take(i as int));
        i = i + 1;
    }
    assert(events@.take(i as int) =~= events@);
    r
}

fn project_keys_of(events: &[Event]) -> (r: Vec<String>)
    ensures
        strs_view(r@) == project_keys(events@),
{
    let mut r: Vec<String> = Vec::new();
    let mut i: usize = 0;
    while i < events.len()
        invariant
            i <= events@.len(),
            strs_view(r@) == project_keys(events@.take(i as int)),
        decreases events@.len() - i,
    {
        let ghost before = strs_view(r@);
        match &events[i].project_key {
            Some(p) => {
                r.push(p.clone());
                assert(strs_view(r@) =~= before + seq![p@]);
            },
            None => {
                assert(strs_view(r@) =~= before + Seq::<Seq<char>>::empty());
            },
        }
        assert(events@.take(i + 1).drop_last() =~= events@.take(i as int));
        i = i + 1;
    }
    assert(events@.take(i as int) =~= events@);
    r
}

/// Appends the lines of the (at most) five highest entries of a tally.
fn push_top_five(out: &mut Vec<char>, t: &Vec<(String, u64)>, unit: &str)
    ensures
        final(out)@ == old(out)@ + lines(top(ranked(counts_view(t@)), 5), unit@),
{
    let r = rank(t);
    let n: usize = if r.len() < 5 { r.len() } else { 5 };
    push_lines(out, &r, n, unit);
    assert(counts_view(r@).take(n as int) =~= top(ranked(counts_view(t@)), 5));
}

fn counts_json(t: &Vec<(String, u64)>) -> (j: Json)
    ensures
        counts_object(j, counts_view(t@)),
{
    let mut m: Vec<(String, Json)> = Vec::new();
    let mut i: usize = 0;
    while i < t.len()
        invariant
            i <= t@.len(),
            m@.len() == i,
            forall|k: int| 0 <= k < i ==> (#[trigger] m@[k]).0@ == t@[k].0@ && m@[k].1 == Json::Number(t@[k].1 as i128),
        decreases t@.len() - i,
    {
        m.push((t[i].0.clone(), Json::Number(t[i].1 as i128)));
        i = i + 1;
    }
    Json::Object(m)
}

/// Builds summaries from the events of a period.
pub struct Summarizer {}

impl Summarizer {
    pub fn new() -> (s: Summarizer) {
        Summarizer {}
    }

    /// The text of a summary of the given kind (see `summary_content`).
    pub fn generate_summary_content(&self, events: &[Event], summary_type: &str) -> (r: String)
        ensures
            r@ == summary_content(events@, summary_type@),
    {
        let mut out: Vec<char> = Vec::new();
        if events.len() == 0 {
            push_str(&mut out, "No activity recorded for this ");
            push_str(&mut out, summary_type);
            push_str(&mut out, ".");
            return string_of(&out);
        }
        push_str(&mut out, "Activity summary for ");
        push_str(&mut out, summary_type);
        push_str(&mut out, ":\n\n");
        push_str(&mut out, "Total events: ");
        let n = dec_of(events.len() as u64);
        push_chars(&mut out, &n);
        push_str(&mut out, "\n\n");
        push_str(&mut out, "Event breakdown:\n");
        let types = tally_of(&type_keys_of(events));
        push_lines(&mut out, &types, types.len(), "");
        assert(counts_view(types@).take(types@.len() as int) =~= counts_view(types@));
        let apps = tally_of(&app_keys_of(events));
        proof {
            lemma_tally_empty(app_keys(events@));
        }
        let ghost mid = out@;
        if apps.len() != 0 {
            push_str(&mut out, "\nTop applications:\n");
            push_top_five(&mut out, &apps, "");
        } else {
            assert(out@ =~= mid + Seq::<char>::empty());
        }
        string_of(&out)
    }

    /// The text of a daily log (see `daily_log_content`).
    pub fn generate_daily_log_content(&self, events: &[Event]) -> (r: String)
        ensures
            r@ == daily_log_content(events@),
    {
        let mut out: Vec<char> = Vec::new();
        if events.len() == 0 {
            push_str(&mut out, "No activity recorded today.");
            return string_of(&out);
        }
        let last = events.len() - 1;
        push_str(&mut out, "Activity from ");
        let a = clock_text_of(events[0].ts_local);
        push_chars(&mut out, &a);
        push_str(&mut out, " to ");
        let b = clock_text_of(events[last].ts_local);
        push_chars(&mut out, &b);
        push_str(&mut out, "\n\n");
        let projects = tally_of(&project_keys_of(events));
        proof {
            lemma_tally_empty(project_keys(events@));
        }
        let ghost mid = out@;
        if projects.len() != 0 {
            push_str(&mut out, "Top projects:\n");
            push_top_five(&mut out, &projects, " events");
            push_str(&mut out, "\n");
        } else {
            assert(out@ =~= mid + Seq::<char>::empty());
        }
        push_str(&mut out, "Notable activity:\n");
        let n: usize = if events.len() < 10 { events.len() } else { 10 };
        let ghost head = out@;
        let mut i: usize = 0;
        assert(events@.take(0) =~= Seq::<Event>::empty());
        while i < n
            invariant
                n <= events@.len(),
                i <= n,
                out@ == head + notes(events@.take(i as int)),
            decreases n - i,
        {
            let ghost before = out@;
            let e = &events[i];
            match &e.title {
                Some(t) => {
                    if t.as_str().unicode_len() != 0 {
                        push_str(&mut out, "  - [");
                        let c = clock_text_of(e.ts_local);
                        push_chars(&mut out, &c);
                        push_str(&mut out, "] ");
                        match &e.app {
                            Some(app) => push_str(&mut out, app.as_str()),
                            None => push_str(&mut out, "unknown"),
                        }
                        push_str(&mut out, ": ");
                        push_str(&mut out, t.as_str());
                        push_str(&mut out, "\n");
                        assert(out@ =~= before + note(events@[i as int]));
                    } else {
                        assert(out@ =~= before + note(events@[i as int]));
                    }
                },
                None => {
                    assert(out@ =~= before + note(events@[i as int]));
                },
            }
            assert(events@.take(i + 1).drop_last() =~= events@.take(i as int));
            i = i + 1;
        }
        assert(events@.take(n as int) =~= first_events(events@, 10));
        string_of(&out)
    }

    /// The text of a project summary (see `project_content`).
    pub fn generate_project_summary_content(&self, project_key: &str, events: &[Event]) -> (r: String)
        ensures
            r@ == project_content(project_key@, events@),
    {
        let mut out: Vec<char> = Vec::new();
        if events.len() == 0 {
            push_str(&mut out, "No activity recorded for project ");
            push_str(&mut out, project_key);
            push_str(&mut out, ".");
            return string_of(&out);
        }
        push_str(&mut out, "Project summary for ");
        push_str(&mut out, project_key);
        push_str(&mut out, "\n\n");
        push_str(&mut out, "Total events: ");
        let n = dec_of(events.len() as u64);
        push_chars(&mut out, &n);
        push_str(&mut out, "\n\n");
        push_str(&mut out, "Activity by hour:\n");
        let mut counts: Vec<u64> = Vec::new();
        let mut h: usize = 0;
        while h < 24
            invariant
                h <= 24,
                counts@.len() == h,
                forall|k: int| 0 <= k < h ==> counts@[k] == 0,
            decreases 24 - h,
        {
            counts.push(0);
            h = h + 1;
        }
        let mut i: usize = 0;
        while i < events.len()
            invariant
                i <= events@.len(),
                counts@.len() == 24,
                forall|k: int| 0 <= k < 24 ==> #[trigger] counts@[k] == hour_count(events@.take(i as int), k),
                forall|k: int| 0 <= k < 24 ==> #[trigger] counts@[k] <= i,
            decreases events@.len() - i,
        {
            let d = day_millis(events[i].ts_local);
            let hr = (d / 3_600_000) as usize;
            let c = counts[hr];
            counts.set(hr, c + 1);
            assert(events@.take(i + 1).drop_last() =~= events@.take(i as int));
            i = i + 1;
        }
        assert(events@.take(i as int) =~= events@);
        let ghost head = out@;
        let mut k: usize = 0;
        while k < 24
            invariant
                k <= 24,
                counts@.len() == 24,
                forall|j: int| 0 <= j < 24 ==> #[trigger] counts@[j] == hour_count(events@, j),
                out@ == head + hour_lines(events@, k as nat),
            decreases 24 - k,
        {
            let ghost before = out@;
            let c = counts[k];
            if c > 0 {
                push_str(&mut out, "  - ");
                let kd = dec_of(k as u64);
                push_chars(&mut out, &kd);
                push_str(&mut out, ":00: ");
                let cd = dec_of(c);
                push_chars(&mut out, &cd);
                push_str(&mut out, " events\n");
                assert(out@ =~= before + ("  - "@ + dec(k as nat) + ":00: "@ + dec(hour_count(events@, k as int))
                    + " events\n"@));
            } else {
                assert(out@ =~= before + Seq::<char>::empty());
            }
            k = k + 1;
        }
        string_of(&out)
    }

    /// The metrics object of a summary (see `metrics_fit`).
    pub fn calculate_metrics(&self, events: &[Event]) -> (j: Json)
        ensures
            metrics_fit(j, events@),
    {
        let mut m: Vec<(String, Json)> = Vec::new();
        m.push((owned("total_events"), Json::Number(events.len() as i128)));
        let types = tally_of(&type_keys_of(events));
        m.push((owned("event_types"), counts_json(&types)));
        let apps = tally_of(&app_keys_of(events));
        m.push((owned("apps"), counts_json(&apps)));
        let projects = tally_of(&project_keys_of(events));
        m.push((owned("projects"), counts_json(&projects)));
        Json::Object(m)
    }

    /// The hourly summary of the hour that starts at `hour` (UTC
    /// milliseconds), from the events of that hour.
    pub fn generate_hourly_summary(&self, hour: i64, events: &[Event]) -> (s: Summary)
        requires
            hour + HOUR_MS <= i64::MAX,
        ensures
            s.summary_type == SummaryType::Hourly,
            s.period_start == hour,
            s.period_end == hour + HOUR_MS,
            s.project_key is None,
            s.content@ == summary_content(events@, "hourly"@),
            metrics_fit(s.metrics, events@),
    {
        let mut summary = Summary::new(SummaryType::Hourly, hour, hour + HOUR_MS);
        summary.content = self.generate_summary_content(events, "hourly");
        summary.metrics = self.calculate_metrics(events);
        summary
    }

    /// The daily log of day `day` (days since the Unix epoch, UTC), from
    /// the events of that day.
    pub fn generate_daily_log(&self, day: i64, events: &[Event]) -> (s: Summary)
        requires
            i64::MIN <= day * DAY_MS,
            day * DAY_MS + DAY_MS <= i64::MAX,
        ensures
            s.summary_type == SummaryType::Daily,
            s.period_start == day * DAY_MS,
            s.period_end == day * DAY_MS + DAY_MS,
            s.project_key is None,
            s.content@ == daily_log_content(events@),
            metrics_fit(s.metrics, events@),
    {
        let start = day * DAY_MS;
        let mut summary = Summary::new(SummaryType::Daily, start, start + DAY_MS);
        summary.content = self.generate_daily_log_content(events);
        summary.metrics = self.calculate_metrics(events);
        summary
    }

    /// The summary of a project over a period, from the project's events in
    /// that period.
    pub fn generate_project_summary(&self, project_key: &str, period_start: i64, period_end: i64,
        events: &[Event]) -> (s: Summary)
        ensures
            s.summary_type == SummaryType::Project,
            s.period_start == period_start,
            s.period_end == period_end,
            opt_view_is(s.project_key, project_key@),
            s.content@ == project_content(project_key@, events@),
            metrics_fit(s.metrics, events@),
    {
        let mut summary = Summary::new(SummaryType::Project, period_start, period_end);
        summary.project_key = Some(owned(project_key));
        summary.content = self.generate_project_summary_content(project_key, events);
        summary.metrics = self.calculate_metrics(events);
        summary
    }
}

/// An optional string that holds the given text.
pub open spec fn opt_view_is(s: Option<String>, t: Seq<char>) -> bool {
    s matches Some(x) && x@ == t
}

/// One type name per event.
pub proof fn lemma_type_keys_len(events: Seq<Event>)
    ensures
        type_keys(events).len() == events.len(),
    decreases events.len(),
{
    if events.len() > 0 {
        lemma_type_keys_len(events.drop_last());
    }
}

/// The event breakdown of a summary adds up to its total: the counts of the
/// event types sum to the number of events.
pub proof fn lemma_breakdown_adds_up(events: Seq<Event>)
    ensures
        crate::tally::total(tally(type_keys(events))) == events.len(),
{
    lemma_type_keys_len(events);
    crate::tally::lemma_tally_total(type_keys(events));
}

} // verus!
