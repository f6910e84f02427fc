//! Window focus: on each tick the collector checks whether the user went
//! idle or came back, and otherwise reports the first running application
//! that differs from the one it reported last.

use vstd::prelude::*;
use crate::collector::OffsetTracker;
use crate::json::{Json, JsonValue};
use crate::schema::RawEvent;
use crate::text::{owned, push_str, string_of};

verus! {

/// Applications are reported from the first this many candidates.
pub const MAX_WINDOWS: usize = 20;

/// Process ids below this belong to the system and are skipped.
pub const FIRST_USER_PID: u32 = 100;

/// The payload of a window event.
pub open spec fn window_payload(name: Seq<char>, pid: u32) -> JsonValue {
    JsonValue::Object(seq![
        ("window_title"@, JsonValue::Str(name + " - running"@)),
        ("process_id"@, JsonValue::Number(pid as int)),
        ("process_name"@, JsonValue::Str(name)),
    ])
}

/// The running applications, from candidates in enumeration order (a
/// candidate's name is `None` when it could not be read): those with a
/// user process id and a name, at most `MAX_WINDOWS` of them.
pub open spec fn applications(found: Seq<(u32, Option<String>)>) -> Seq<(Seq<char>, u32)>
    decreases found.len(),
{
    if found.len() == 0 {
        Seq::empty()
    } else {
        let prev = applications(found.drop_last());
        let (pid, name) = found.last();
        if prev.len() >= MAX_WINDOWS || pid < FIRST_USER_PID || name is None {
            prev
        } else {
            prev.push((name->0@, pid))
        }
    }
}

/// What one tick of the idle check decides.
#[derive(Clone, Copy, Debug, PartialEq, Eq, Structural)]
pub enum IdleOutcome {
    /// The user just went idle: report it and skip the tick.
    WentIdle,
    /// The user just came back: report it and go on with the tick.
    Woke,
    /// Still idle: skip the tick.
    StillIdle,
    /// Nothing changed (or the idle time is unknown): go on with the tick.
    Active,
}

/// Whether a tick goes on to the focus check after an idle check with this
/// outcome: not while the user is idle.
pub open spec fn focus_allowed(o: IdleOutcome) -> bool {
    !(o == IdleOutcome::WentIdle || o == IdleOutcome::StillIdle)
}

impl IdleOutcome {
    /// Whether the tick goes on to the focus check (see `focus_allowed`).
    pub fn focus_due(&self) -> (r: bool)
        ensures
            r == focus_allowed(*self),
    {
        match self {
            IdleOutcome::WentIdle => false,
            IdleOutcome::StillIdle => false,
            IdleOutcome::Woke => true,
            IdleOutcome::Active => true,
        }
    }
}

/// The collector's state between ticks.
pub struct FocusState {
    pub is_idle: bool,
    pub last_window: Option<(String, u32)>,
}

/// The outcome of the idle check for an idle reading, a threshold and the
/// current state.
pub open spec fn idle_outcome(idle: Option<u64>, threshold: u64, is_idle: bool) -> IdleOutcome {
    match idle {
        Some(secs) => if secs >= threshold && !is_idle {
            IdleOutcome::WentIdle
        } else if secs < threshold && is_idle {
            IdleOutcome::Woke
        } else if is_idle {
            IdleOutcome::StillIdle
        } else {
            IdleOutcome::Active
        },
        None => IdleOutcome::Active,
    }
}

/// The first application that differs from the last one reported.
pub open spec fn next_window(apps: Seq<(Seq<char>, u32)>, last: Option<(Seq<char>, u32)>) -> Option<(Seq<char>, u32)>
    decreases apps.len(),
{
    if apps.len() == 0 {
        None
    } else if last != Some(apps[0]) {
        Some(apps[0])
    } else {
        next_window(apps.drop_first(), last)
    }
}

/// The last reported window, as text and id.
pub open spec fn window_view(w: Option<(String, u32)>) -> Option<(Seq<char>, u32)> {
    match w {
        Some(x) => Some((x.0@, x.1)),
        None => None,
    }
}

impl FocusState {
    /// Active, with nothing reported yet.
    pub fn new() -> (s: FocusState)
        ensures
            !s.is_idle,
            s.last_window is None,
    {
        FocusState { is_idle: false, last_window: None }
    }

    /// The idle check of one tick (see `idle_outcome`): the state becomes
    /// idle when the reading reaches the threshold and active when it is
    /// below it; the event reports a change, with the reading.
    pub fn idle_step(&mut self, idle: Option<u64>, threshold: u64) -> (r: (IdleOutcome, Option<RawEvent>))
        ensures
            r.0 == idle_outcome(idle, threshold, old(self).is_idle),
            final(self).is_idle == (match idle {
                Some(secs) => secs >= threshold,
                None => old(self).is_idle,
            }),
            final(self).last_window == old(self).last_window,
            match r.0 {
                IdleOutcome::WentIdle => r.1 matches Some(e) && e.source@ == "user_idle"@
                    && e.payload.value() == JsonValue::Object(seq![("idle_seconds"@, JsonValue::Number(idle->0 as int))]),
                IdleOutcome::Woke => r.1 matches Some(e) && e.source@ == "user_active"@
                    && e.payload.value() == JsonValue::Object(seq![("idle_seconds_at_wake"@, JsonValue::Number(idle->0 as int))]),
                _ => r.1 is None,
            },
    {
        match idle {
            Some(secs) => {
                if secs >= threshold && !self.is_idle {
                    self.is_idle = true;
                    (IdleOutcome::WentIdle, Some(seconds_event("user_idle", "idle_seconds", secs)))
                } else if secs < threshold && self.is_idle {
                    self.is_idle = false;
                    (IdleOutcome::Woke, Some(seconds_event("user_active", "idle_seconds_at_wake", secs)))
                } else if self.is_idle {
                    (IdleOutcome::StillIdle, None)
                } else {
                    (IdleOutcome::Active, None)
                }
            },
            None => (IdleOutcome::Active, None),
        }
    }

    /// The focus check of one tick: the first application that differs from
    /// the last one reported becomes an event and the new last one.
    pub fn focus_step(&mut self, apps: &Vec<(String, u32)>) -> (r: Option<RawEvent>)
        ensures
            final(self).is_idle == old(self).is_idle,
            match next_window(apps_view(apps@), window_view(old(self).last_window)) {
                Some(w) => r matches Some(e) && e.source@ == "window_focus"@ && e.payload.value() == window_payload(w.0, w.1)
                    && window_view(final(self).last_window) == Some(w),
                None => r is None && final(self).last_window == old(self).last_window,
            },
    {
        let ghost last = window_view(self.last_window);
        let mut i: usize = 0;
        assert(apps_view(apps@).skip(0) =~= apps_view(apps@));
        while i < apps.len()
            invariant
                i <= apps@.len(),
                self.last_window == old(self).last_window,
                self.is_idle == old(self).is_idle,
                last == window_view(self.last_window),
                next_window(apps_view(apps@), last) == next_window(apps_view(apps@).skip(i as int), last),
            decreases apps@.len() - i,
        {
            let ghost rest = apps_view(apps@).skip(i as int);
            assert(rest[0] == (apps@[i as int].0@, apps@[i as int].1));
            assert(rest.drop_first() =~= apps_view(apps@).skip(i + 1));
            let differs = match &self.last_window {
                Some(w) => !(crate::text::str_eq(w.0.as_str(), apps[i].0.as_str()) && w.1 == apps[i].1),
                None => true,
            };
            if differs {
                let name = apps[i].0.as_str();
                let pid = apps[i].1;
                let e = window_event(name, pid);
                self.last_window = Some((owned(name), pid));
                return Some(e);
            }
            i = i + 1;
        }
        None
    }
}

/// No focus event comes while the user is idle: a tick reaches the focus
/// check exactly when its idle reading is unknown or below the threshold,
/// whatever the state was.
pub proof fn lemma_no_focus_while_idle(idle: Option<u64>, threshold: u64, is_idle: bool)
    ensures
        focus_allowed(idle_outcome(idle, threshold, is_idle)) <==> !(idle matches Some(secs) && secs >= threshold),
{
}

/// Applications as text and id.
pub open spec fn apps_view(apps: Seq<(String, u32)>) -> Seq<(Seq<char>, u32)> {
    Seq::new(apps.len(), |i: int| (apps[i].0@, apps[i].1))
}

fn seconds_event(source: &str, key: &str, secs: u64) -> (e: RawEvent)
    ensures
        e.source@ == source@,
        e.payload.value() == JsonValue::Object(seq![(key@, JsonValue::Number(secs as int))]),
{
    let mut m: Vec<(String, Json)> = Vec::new();
    m.push((owned(key), Json::Number(secs as i128)));
    let payload = Json::Object(m);
    proof {
        reveal_with_fuel(Json::value, 2);
        assert(payload.value()->Object_0 =~= seq![(key@, JsonValue::Number(secs as int))]);
    }
    RawEvent::new(owned(source), payload)
}

fn window_event(name: &str, pid: u32) -> (e: RawEvent)
    ensures
        e.source@ == "window_focus"@,
        e.payload.value() == window_payload(name@, pid),
{
    let mut title: Vec<char> = Vec::new();
    push_str(&mut title, name);
    push_str(&mut title, " - running");
    let mut m: Vec<(String, Json)> = Vec::new();
    m.push((owned("window_title"), Json::Str(string_of(&title))));
    m.push((owned("process_id"), Json::Number(pid as i128)));
    m.push((owned("process_name"), Json::Str(owned(name))));
    let payload = Json::Object(m);
    proof {
        reveal_with_fuel(Json::value, 2);
        assert(payload.value()->Object_0 =~= window_payload(name@, pid)->Object_0);
    }
    RawEvent::new(owned("window_focus"), payload)
}

/// Window focus collector.
pub struct WindowFocusCollector {
    tracker: OffsetTracker,
    poll_interval_secs: u64,
    idle_threshold_seconds: u64,
}

impl WindowFocusCollector {
    /// The pause between ticks, in seconds.
    pub closed spec fn poll_view(&self) -> u64 {
        self.poll_interval_secs
    }

    /// The idle threshold, in seconds.
    pub closed spec fn idle_view(&self) -> u64 {
        self.idle_threshold_seconds
    }

    /// The offset tracker.
    pub closed spec fn tracker_view(&self) -> OffsetTracker {
        self.tracker
    }

    /// A collector for the given database: ticks at least a second apart,
    /// an idle threshold of at least ten seconds.
    pub fn new(db_path: String, poll_interval_seconds: u64, idle_threshold_seconds: u64) -> (c: WindowFocusCollector)
        ensures
            c.poll_view() == (if poll_interval_seconds < 1 { 1 } else { poll_interval_seconds }),
            c.idle_view() == (if idle_threshold_seconds < 10 { 10 } else { idle_threshold_seconds }),
            c.tracker_view().name_view() == "window_focus"@,
            c.tracker_view().path_view() == db_path@,
    {
        WindowFocusCollector {
            tracker: OffsetTracker::new(owned("window_focus"), db_path),
            poll_interval_secs: if poll_interval_seconds < 1 { 1 } else { poll_interval_seconds },
            idle_threshold_seconds: if idle_threshold_seconds < 10 { 10 } else { idle_threshold_seconds },
        }
    }

    /// The collector's name.
    pub fn name(&self) -> (n: &'static str)
        ensures
            n@ == "window_focus"@,
    {
        "window_focus"
    }

    /// The pause between ticks, in seconds.
    pub fn poll_interval_secs(&self) -> (s: u64)
        ensures
            s == self.poll_view(),
    {
        self.poll_interval_secs
    }

    /// The idle threshold, in seconds.
    pub fn idle_threshold_seconds(&self) -> (s: u64)
        ensures
            s == self.idle_view(),
    {
        self.idle_threshold_seconds
    }

    /// The offset tracker.
    pub fn tracker(&self) -> (t: &OffsetTracker)
        ensures
            *t == self.tracker_view(),
    {
        &self.tracker
    }

    /// The running applications among enumerated candidates (see
    /// `applications`).
    pub fn select_applications(found: &Vec<(u32, Option<String>)>) -> (r: Vec<(String, u32)>)
        ensures
            apps_view(r@) == applications(found@),
    {
        let mut r: Vec<(String, u32)> = Vec::new();
        let mut i: usize = 0;
        while i < found.len()
            invariant
                i <= found@.len(),
                apps_view(r@) == applications(found@.take(i as int)),
            decreases found@.len() - i,
        {
            assert(found@.take(i + 1).drop_last() =~= found@.take(i as int));
            assert(found@.take(i + 1).last() == found@[i as int]);
            let pid = found[i].0;
            if r.len() < MAX_WINDOWS && pid >= FIRST_USER_PID {
                match &found[i].1 {
                    Some(name) => {
                        r.push((owned(name.as_str()), pid));
                    },
                    None => {},
                }
            }
            assert(apps_view(r@) =~= applications(found@.take(i + 1)));
            i = i + 1;
        }
        assert(found@.take(i as int) =~= found@);
        r
    }
}

/// Going idle is reported once: after the user went idle, further idle
/// readings at or past the threshold report nothing until a reading below
/// it, which reports the return.
pub proof fn lemma_idle_reported_once(first: Option<u64>, next: u64, threshold: u64, was_idle: bool)
    requires
        idle_outcome(first, threshold, was_idle) == IdleOutcome::WentIdle,
    ensures
        next >= threshold ==> idle_outcome(Some(next), threshold, true) == IdleOutcome::StillIdle,
        next < threshold ==> idle_outcome(Some(next), threshold, true) == IdleOutcome::Woke,
        idle_outcome(None, threshold, true) == IdleOutcome::Active,
{
}

/// A window is reported only when it differs from the last one reported.
pub proof fn lemma_next_window_differs(apps: Seq<(Seq<char>, u32)>, last: Option<(Seq<char>, u32)>)
    ensures
        next_window(apps, last) matches Some(w) ==> last != Some(w) && apps.contains(w),
        next_window(apps, last) is None ==> forall|i: int| 0 <= i < apps.len() ==> last == Some(#[trigger] apps[i]),
    decreases apps.len(),
{
    if apps.len() > 0 {
        lemma_next_window_differs(apps.drop_first(), last);
        if next_window(apps, last) is Some && last == Some(apps[0]) {
            let w = next_window(apps.drop_first(), last)->0;
            let k = choose|k: int| 0 <= k < apps.drop_first().len() && apps.drop_first()[k] == w;
            assert(apps[k + 1] == w);
        }
        if next_window(apps, last) is Some && last != Some(apps[0]) {
            assert(apps[0] == next_window(apps, last)->0);
        }
        if next_window(apps, last) is None {
            assert forall|i: int| 0 <= i < apps.len() implies last == Some(#[trigger] apps[i]) by {
                if i > 0 {
                    assert(apps[i] == apps.drop_first()[i - 1]);
                }
            }
        }
    }
}

} // verus!
