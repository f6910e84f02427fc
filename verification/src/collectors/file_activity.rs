//! File activity: changes reported by a file-system watcher on chosen
//! folders become events, minus excluded paths, with repeats of the same
//! change to the same path within half a second dropped.

use vstd::prelude::*;
use crate::collector::OffsetTracker;
use crate::json::{Json, JsonValue};
use crate::pattern::{is_path_excluded, path_excluded};
use crate::schema::RawEvent;
use crate::text::{owned, str_eq};

verus! {

/// Two reports of the same change to the same path closer than this (in
/// milliseconds) count once.
pub const DEBOUNCE_MS: u64 = 500;

/// Past this many remembered changes, old ones are forgotten.
pub const DEBOUNCE_CAPACITY: usize = 1000;

/// Changes older than this (in milliseconds) are forgotten when pruning.
pub const DEBOUNCE_MEMORY_MS: u64 = 10_000;

/// The kind of a file-system change, as the watcher reports it.
#[derive(Clone, Copy, PartialEq, Eq, Structural)]
pub enum FileEventKind {
    Create,
    Modify,
    Remove,
    Other,
}

/// The action recorded for a kind of change.
pub open spec fn action_name(kind: FileEventKind) -> Option<Seq<char>> {
    match kind {
        FileEventKind::Create => Some("create"@),
        FileEventKind::Modify => Some("modify"@),
        FileEventKind::Remove => Some("delete"@),
        FileEventKind::Other => None,
    }
}

/// The payload of one file event.
pub open spec fn file_payload(action: Seq<char>, path: Seq<char>) -> JsonValue {
    JsonValue::Object(seq![("action"@, JsonValue::Str(action)), ("path"@, JsonValue::Str(path))])
}

/// The remembered changes: path, action and the time it was last let
/// through, at most one entry per path and action.
pub struct Debouncer {
    seen: Vec<(String, String, u64)>,
}

/// The time a change to `path` of kind `action` was last let through.
pub open spec fn last_seen(s: Seq<(String, String, u64)>, path: Seq<char>, action: Seq<char>) -> Option<u64>
    decreases s.len(),
{
    if s.len() == 0 {
        None
    } else if s.last().0@ == path && s.last().1@ == action {
        Some(s.last().2)
    } else {
        last_seen(s.drop_last(), path, action)
    }
}

/// A change is let through unless the same change was let through less
/// than `DEBOUNCE_MS` before (a clock reading earlier than the remembered
/// one counts as no time passed).
pub open spec fn lets_through(last: Option<u64>, now: u64) -> bool {
    match last {
        Some(t) => now < t || now - t >= DEBOUNCE_MS,
        None => true,
    }
}

/// The key of a remembered change: its path and action.
pub open spec fn key_of(e: (String, String, u64)) -> (Seq<char>, Seq<char>) {
    (e.0@, e.1@)
}

/// Each change is remembered at most once.
pub open spec fn unique_changes(s: Seq<(String, String, u64)>) -> bool {
    forall|i: int, j: int| 0 <= i < j < s.len() ==> key_of(#[trigger] s[i]) != key_of(#[trigger] s[j])
}

proof fn lemma_last_seen_absent(s: Seq<(String, String, u64)>, p: Seq<char>, a: Seq<char>)
    requires
        forall|j: int| 0 <= j < s.len() ==> key_of(#[trigger] s[j]) != (p, a),
    ensures
        last_seen(s, p, a) is None,
    decreases s.len(),
{
    if s.len() > 0 {
        assert(key_of(s[s.len() - 1]) != (p, a));
        let t = s.drop_last();
        assert forall|j: int| 0 <= j < t.len() implies key_of(#[trigger] t[j]) != (p, a) by {
            assert(t[j] == s[j]);
        }
        lemma_last_seen_absent(t, p, a);
    }
}

proof fn lemma_last_seen_update(s: Seq<(String, String, u64)>, i: int, e: (String, String, u64))
    requires
        0 <= i < s.len(),
        key_of(s[i]) == key_of(e),
        forall|j: int| i < j < s.len() ==> key_of(#[trigger] s[j]) != key_of(e),
    ensures
        last_seen(s.update(i, e), e.0@, e.1@) == Some(e.2),
        forall|p: Seq<char>, a: Seq<char>| !(p == e.0@ && a == e.1@)
            ==> #[trigger] last_seen(s.update(i, e), p, a) == last_seen(s, p, a),
    decreases s.len(),
{
    let u = s.update(i, e);
    if i == s.len() - 1 {
        assert(u.drop_last() =~= s.drop_last());
        assert forall|p: Seq<char>, a: Seq<char>| !(p == e.0@ && a == e.1@)
            implies #[trigger] last_seen(u, p, a) == last_seen(s, p, a) by {
            assert(u.last() == e);
        }
    } else {
        let t = s.drop_last();
        assert(u.drop_last() =~= t.update(i, e));
        assert forall|j: int| i < j < t.len() implies key_of(#[trigger] t[j]) != key_of(e) by {
            assert(t[j] == s[j]);
        }
        lemma_last_seen_update(t, i, e);
        assert(u.last() == s.last());
        assert(key_of(s[s.len() - 1]) != key_of(e));
        assert forall|p: Seq<char>, a: Seq<char>| !(p == e.0@ && a == e.1@)
            implies #[trigger] last_seen(u, p, a) == last_seen(s, p, a) by {
            assert(last_seen(t.update(i, e), p, a) == last_seen(t, p, a));
        }
    }
}

impl Debouncer {
    /// The remembered changes.
    pub closed spec fn entries(&self) -> Seq<(String, String, u64)> {
        self.seen@
    }

    /// Each change is remembered at most once.
    pub closed spec fn wf(&self) -> bool {
        unique_changes(self.seen@)
    }

    /// When a change was last let through, if it is remembered.
    pub open spec fn last(&self, path: Seq<char>, action: Seq<char>) -> Option<u64> {
        last_seen(self.entries(), path, action)
    }

    /// Nothing remembered.
    pub fn new() -> (d: Debouncer)
        ensures
            d.wf(),
            forall|p: Seq<char>, a: Seq<char>| #[trigger] d.last(p, a) is None,
            d.entries().len() == 0,
    {
        Debouncer { seen: Vec::new() }
    }

    /// The number of remembered changes.
    pub fn len(&self) -> (n: usize)
        ensures
            n == self.entries().len(),
    {
        self.seen.len()
    }

    /// Decides whether a change at time `now` (milliseconds of a monotonic
    /// clock) is let through (see `lets_through`), and if so remembers it.
    pub fn pass_through(&mut self, path: &str, action: &str, now: u64) -> (r: bool)
        requires
            old(self).wf(),
        ensures
            final(self).wf(),
            r == lets_through(old(self).last(path@, action@), now),
            r ==> final(self).last(path@, action@) == Some(now),
            !r ==> final(self).entries() == old(self).entries(),
            forall|p: Seq<char>, a: Seq<char>| !(p == path@ && a == action@)
                ==> #[trigger] final(self).last(p, a) == old(self).last(p, a),
            final(self).entries().len() == old(self).entries().len()
                + (if old(self).last(path@, action@) is None { 1int } else { 0int }),
    {
        let mut i: usize = self.seen.len();
        assert(self.seen@.take(i as int) =~= self.seen@);
        while i > 0
            invariant
                i <= self.seen@.len(),
                self.seen@ == old(self).seen@,
                unique_changes(self.seen@),
                last_seen(self.seen@, path@, action@) == last_seen(self.seen@.take(i as int), path@, action@),
                forall|j: int| i <= j < self.seen@.len() ==> key_of(#[trigger] self.seen@[j]) != (path@, action@),
            decreases i,
        {
            let ghost pre = self.seen@.take(i as int);
            assert(pre.drop_last() =~= self.seen@.take(i - 1));
            assert(pre.last() == self.seen@[i - 1]);
            if str_eq(self.seen[i - 1].0.as_str(), path) && str_eq(self.seen[i - 1].1.as_str(), action) {
                let t = self.seen[i - 1].2;
                if now >= t && now - t < DEBOUNCE_MS {
                    return false;
                }
                let key = (owned(path), owned(action), now);
                proof {
                    lemma_last_seen_update(old(self).seen@, i - 1, key);
                }
                self.seen.set(i - 1, key);
                proof {
                    assert forall|x: int, y: int| 0 <= x < y < self.seen@.len()
                        implies key_of(#[trigger] self.seen@[x]) != key_of(#[trigger] self.seen@[y]) by {
                        assert(key_of(self.seen@[x]) == key_of(old(self).seen@[x]));
                        assert(key_of(self.seen@[y]) == key_of(old(self).seen@[y]));
                    }
                }
                return true;
            }
            i = i - 1;
        }
        assert(self.seen@.take(0) =~= Seq::<(String, String, u64)>::empty());
        let key = (owned(path), owned(action), now);
        self.seen.push(key);
        proof {
            assert(self.seen@.drop_last() =~= old(self).seen@);
            assert forall|x: int, y: int| 0 <= x < y < self.seen@.len()
                implies key_of(#[trigger] self.seen@[x]) != key_of(#[trigger] self.seen@[y]) by {
                assert(self.seen@[x] == old(self).seen@[x]);
                if y < old(self).seen@.len() {
                    assert(self.seen@[y] == old(self).seen@[y]);
                }
            }
        }
        true
    }

    /// Forgets the changes let through more than `DEBOUNCE_MEMORY_MS`
    /// before `now`.
    pub fn prune(&mut self, now: u64)
        requires
            old(self).wf(),
        ensures
            final(self).wf(),
            forall|p: Seq<char>, a: Seq<char>| #[trigger] final(self).last(p, a) == remembered(old(self).last(p, a), now),
            final(self).entries().len() <= old(self).entries().len(),
    {
        let mut kept: Vec<(String, String, u64)> = Vec::new();
        let ghost s = self.seen@;
        let mut i: usize = 0;
        while i < self.seen.len()
            invariant
                i <= s.len(),
                s == self.seen@,
                unique_changes(s),
                unique_changes(kept@),
                kept@.len() <= i,
                forall|k: int| 0 <= k < kept@.len() ==> exists|j: int| 0 <= j < i && key_of(#[trigger] s[j])
                    == key_of(#[trigger] kept@[k]),
                forall|p: Seq<char>, a: Seq<char>| #[trigger] last_seen(kept@, p, a)
                    == remembered(last_seen(s.take(i as int), p, a), now),
            decreases s.len() - i,
        {
            let ghost pre = s.take(i as int);
            assert(s.take(i + 1).drop_last() =~= pre);
            assert(s.take(i + 1).last() == s[i as int]);
            let ghost before = kept@;
            proof {
                assert forall|k: int| 0 <= k < before.len() implies key_of(#[trigger] before[k]) != key_of(s[i as int]) by {
                    let j = choose|j: int| 0 <= j < i && key_of(#[trigger] s[j]) == key_of(before[k]);
                }
            }
            let e = &self.seen[i];
            if (e.2 as u128) + (DEBOUNCE_MEMORY_MS as u128) > (now as u128) {
                kept.push((owned(e.0.as_str()), owned(e.1.as_str()), e.2));
                proof {
                    assert(kept@.drop_last() =~= before);
                    assert forall|x: int, y: int| 0 <= x < y < kept@.len()
                        implies key_of(#[trigger] kept@[x]) != key_of(#[trigger] kept@[y]) by {
                        assert(kept@[x] == before[x]);
                        if y < before.len() {
                            assert(kept@[y] == before[y]);
                        }
                    }
                    assert forall|k: int| 0 <= k < kept@.len() implies exists|j: int| 0 <= j < i + 1
                        && key_of(#[trigger] s[j]) == key_of(#[trigger] kept@[k]) by {
                        if k < before.len() {
                            assert(kept@[k] == before[k]);
                            let j = choose|j: int| 0 <= j < i && key_of(#[trigger] s[j]) == key_of(before[k]);
                            assert(key_of(s[j]) == key_of(kept@[k]));
                        } else {
                            assert(key_of(s[i as int]) == key_of(kept@[k]));
                        }
                    }
                    assert forall|p: Seq<char>, a: Seq<char>| #[trigger] last_seen(kept@, p, a)
                        == remembered(last_seen(s.take(i + 1), p, a), now) by {
                        assert(last_seen(before, p, a) == remembered(last_seen(pre, p, a), now));
                    }
                }
            } else {
                proof {
                    lemma_last_seen_absent(before, s[i as int].0@, s[i as int].1@);
                    assert forall|p: Seq<char>, a: Seq<char>| #[trigger] last_seen(kept@, p, a)
                        == remembered(last_seen(s.take(i + 1), p, a), now) by {
                        assert(last_seen(before, p, a) == remembered(last_seen(pre, p, a), now));
                    }
                }
            }
            i = i + 1;
        }
        assert(s.take(i as int) =~= s);
        self.seen = kept;
    }
}

/// File activity collector: watches folders for file changes.
pub struct FileActivityCollector {
    tracker: OffsetTracker,
    folders: Vec<String>,
    exclude_paths: Vec<String>,
}

impl FileActivityCollector {
    /// The watched folders.
    pub closed spec fn folders_view(&self) -> Seq<String> {
        self.folders@
    }

    /// The path patterns whose changes are dropped.
    pub closed spec fn excluded_view(&self) -> Seq<String> {
        self.exclude_paths@
    }

    /// The offset tracker.
    pub closed spec fn tracker_view(&self) -> OffsetTracker {
        self.tracker
    }

    /// A collector for the given database and folders, excluding nothing.
    pub fn new(db_path: String, folders: Vec<String>) -> (c: FileActivityCollector)
        ensures
            c.folders_view() == folders@,
            c.excluded_view().len() == 0,
            c.tracker_view().name_view() == "file_activity"@,
            c.tracker_view().path_view() == db_path@,
    {
        FileActivityCollector {
            tracker: OffsetTracker::new(owned("file_activity"), db_path),
            folders,
            exclude_paths: Vec::new(),
        }
    }

    /// Sets the path patterns whose changes are dropped.
    pub fn with_exclude_paths(self, patterns: Vec<String>) -> (c: FileActivityCollector)
        ensures
            c.excluded_view() == patterns@,
            c.folders_view() == self.folders_view(),
            c.tracker_view() == self.tracker_view(),
    {
        FileActivityCollector { tracker: self.tracker, folders: self.folders, exclude_paths: patterns }
    }

    /// The collector's name.
    pub fn name(&self) -> (n: &'static str)
        ensures
            n@ == "file_activity"@,
    {
        "file_activity"
    }

    /// The watched folders.
    pub fn folders(&self) -> (f: &Vec<String>)
        ensures
            f@ == self.folders_view(),
    {
        &self.folders
    }

    /// The offset tracker.
    pub fn tracker(&self) -> (t: &OffsetTracker)
        ensures
            *t == self.tracker_view(),
    {
        &self.tracker
    }

    /// Whether a path is excluded (see `path_excluded`).
    pub fn is_excluded(path: &str, patterns: &Vec<String>) -> (r: bool)
        ensures
            r == path_excluded(path@, patterns@),
    {
        is_path_excluded(path, patterns)
    }

    /// The action recorded for a kind of change (see `action_name`).
    pub fn event_kind_to_action(kind: FileEventKind) -> (r: Option<&'static str>)
        ensures
            match r {
                Some(a) => action_name(kind) == Some(a@),
                None => action_name(kind) is None,
            },
    {
        match kind {
            FileEventKind::Create => Some("create"),
            FileEventKind::Modify => Some("modify"),
            FileEventKind::Remove => Some("delete"),
            FileEventKind::Other => None,
        }
    }

    /// The events for one watcher report at time `now`: for a kind of change
    /// that is recorded, one event per path that is not excluded, met for the
    /// first time in the report, and let through by the debouncer (see
    /// `emitted`), in order. The debouncer then remembers the report (see
    /// `after_report`); when it then remembers more than `DEBOUNCE_CAPACITY`
    /// changes (those it held plus those the report `added`), it is pruned
    /// as well.
    pub fn events_for(&self, debouncer: &mut Debouncer, kind: FileEventKind, paths: &Vec<String>, now: u64)
        -> (r: Vec<RawEvent>)
        requires
            old(debouncer).wf(),
        ensures
            final(debouncer).wf(),
            action_name(kind) is None ==> r@.len() == 0 && *final(debouncer) == *old(debouncer),
            action_name(kind) matches Some(action) ==> {
                let sent = emitted(paths@, self.excluded_view(), *old(debouncer), action, now);
                &&& r@.len() == sent.len()
                &&& forall|i: int| 0 <= i < r@.len() ==> (#[trigger] r@[i]).source@ == "file_activity"@
                    && r@[i].payload.value() == file_payload(action, sent[i])
                &&& old(debouncer).entries().len() + added(paths@, self.excluded_view(), *old(debouncer), action)
                    <= DEBOUNCE_CAPACITY ==> forall|p: Seq<char>, a: Seq<char>| #[trigger] final(debouncer).last(p, a)
                        == after_report(*old(debouncer), paths@, self.excluded_view(), action, now, p, a)
                &&& old(debouncer).entries().len() + added(paths@, self.excluded_view(), *old(debouncer), action)
                    > DEBOUNCE_CAPACITY ==> forall|p: Seq<char>, a: Seq<char>| #[trigger] final(debouncer).last(p, a)
                        == remembered(after_report(*old(debouncer), paths@, self.excluded_view(), action, now, p, a), now)
            },
    {
        let action = match Self::event_kind_to_action(kind) {
            Some(a) => a,
            None => {
                return Vec::new();
            },
        };
        let ghost d0 = *debouncer;
        let ghost excl = self.exclude_paths@;
        let mut events: Vec<RawEvent> = Vec::new();
        let mut i: usize = 0;
        while i < paths.len()
            invariant
                i <= paths@.len(),
                debouncer.wf(),
                excl == self.exclude_paths@,
                action_name(kind) == Some(action@),
                events@.len() == emitted(paths@.take(i as int), excl, d0, action@, now).len(),
                forall|k: int| 0 <= k < events@.len() ==> (#[trigger] events@[k]).source@ == "file_activity"@
                    && events@[k].payload.value() == file_payload(action@, emitted(paths@.take(i as int), excl, d0,
                    action@, now)[k]),
                forall|p: Seq<char>, a: Seq<char>| #[trigger] debouncer.last(p, a)
                    == after_report(d0, paths@.take(i as int), excl, action@, now, p, a),
                debouncer.entries().len() == d0.entries().len() + added(paths@.take(i as int), excl, d0, action@),
            decreases paths@.len() - i,
        {
            let ghost pre = paths@.take(i as int);
            let ghost post = paths@.take(i + 1);
            let ghost cur = paths@[i as int]@;
            assert(post.drop_last() =~= pre);
            assert(post.last() == paths@[i as int]);
            let ghost seen_before = exists|k: int| 0 <= k < pre.len() && (#[trigger] pre[k])@ == cur;
            proof {
                assert forall|p: Seq<char>| p != cur implies (occurs_in(post, p) == occurs_in(pre, p)) by {
                    if occurs_in(post, p) {
                        let k = choose|k: int| 0 <= k < post.len() && (#[trigger] post[k])@ == p;
                        assert(k < pre.len());
                        assert(pre[k] == post[k]);
                    }
                    if occurs_in(pre, p) {
                        let k = choose|k: int| 0 <= k < pre.len() && (#[trigger] pre[k])@ == p;
                        assert(post[k] == pre[k]);
                    }
                }
                assert(occurs_in(post, cur)) by {
                    assert(post[i as int] == paths@[i as int]);
                }
                assert(seen_before == occurs_in(pre, cur));
            }
            let p = paths[i].as_str();
            let ghost before_events = events@;
            if !Self::is_excluded(p, &self.exclude_paths) {
                let passed = debouncer.pass_through(p, action, now);
                proof {
                    if seen_before {
                        assert(!passed);
                    }
                }
                if passed {
                    let e = file_event(action, p);
                    events.push(e);
                }
            }
            proof {
                assert(emitted(post, excl, d0, action@, now) == emitted(pre, excl, d0, action@, now) + (if !path_excluded(cur, excl)
                    && !occurs_in(pre, cur) && lets_through(d0.last(cur, action@), now) { seq![cur] } else { Seq::empty() }));
                assert(added(post, excl, d0, action@) == added(pre, excl, d0, action@) + (if !path_excluded(cur, excl)
                    && !occurs_in(pre, cur) && d0.last(cur, action@) is None { 1nat } else { 0nat }));
                assert forall|k: int| 0 <= k < events@.len() implies (#[trigger] events@[k]).source@ == "file_activity"@
                    && events@[k].payload.value() == file_payload(action@, emitted(post, excl, d0, action@, now)[k]) by {
                    if k < before_events.len() {
                        assert(events@[k] == before_events[k]);
                    }
                }
            }
            i = i + 1;
        }
        assert(paths@.take(i as int) =~= paths@);
        if debouncer.len() > DEBOUNCE_CAPACITY {
            debouncer.prune(now);
        }
        events
    }
}

/// Whether some path of the list is `p`.
pub open spec fn occurs_in(paths: Seq<String>, p: Seq<char>) -> bool {
    exists|k: int| 0 <= k < paths.len() && (#[trigger] paths[k])@ == p
}

/// The paths of a report that become events: those not excluded, met for
/// the first time in the report, and let through by the debouncer as it
/// stood before the report.
pub open spec fn emitted(paths: Seq<String>, excl: Seq<String>, d: Debouncer, action: Seq<char>, now: u64)
    -> Seq<Seq<char>>
    decreases paths.len(),
{
    if paths.len() == 0 {
        Seq::empty()
    } else {
        let p = paths.last()@;
        let earlier = paths.drop_last();
        emitted(earlier, excl, d, action, now) + (if !path_excluded(p, excl) && !occurs_in(earlier, p)
            && lets_through(d.last(p, action), now) {
            seq![p]
        } else {
            Seq::empty()
        })
    }
}

/// How many changes a report adds to what the debouncer remembers: the
/// paths not excluded, met for the first time in the report, of which it
/// remembers nothing yet.
pub open spec fn added(paths: Seq<String>, excl: Seq<String>, d: Debouncer, action: Seq<char>) -> nat
    decreases paths.len(),
{
    if paths.len() == 0 {
        0
    } else {
        let p = paths.last()@;
        let earlier = paths.drop_last();
        added(earlier, excl, d, action) + (if !path_excluded(p, excl) && !occurs_in(earlier, p)
            && d.last(p, action) is None {
            1nat
        } else {
            0nat
        })
    }
}

/// What the debouncer remembers of a change after a report: a path of the
/// report that is not excluded is let through or kept as it was; other
/// changes are untouched.
pub open spec fn after_report(d: Debouncer, paths: Seq<String>, excl: Seq<String>, action: Seq<char>, now: u64,
    p: Seq<char>, a: Seq<char>) -> Option<u64> {
    if a == action && occurs_in(paths, p) && !path_excluded(p, excl) {
        if lets_through(d.last(p, a), now) {
            Some(now)
        } else {
            d.last(p, a)
        }
    } else {
        d.last(p, a)
    }
}

/// What pruning at `now` keeps of a remembered time.
pub open spec fn remembered(t: Option<u64>, now: u64) -> Option<u64> {
    match t {
        Some(x) => if x as int + DEBOUNCE_MEMORY_MS > now { Some(x) } else { None },
        None => None,
    }
}

/// Every path an event is emitted for is a path of the report.
pub proof fn lemma_emitted_from_report(paths: Seq<String>, excl: Seq<String>, d: Debouncer, action: Seq<char>, now: u64)
    ensures
        forall|i: int| 0 <= i < emitted(paths, excl, d, action, now).len()
            ==> occurs_in(paths, #[trigger] emitted(paths, excl, d, action, now)[i]),
    decreases paths.len(),
{
    if paths.len() > 0 {
        let earlier = paths.drop_last();
        lemma_emitted_from_report(earlier, excl, d, action, now);
        let e0 = emitted(earlier, excl, d, action, now);
        let e = emitted(paths, excl, d, action, now);
        assert forall|i: int| 0 <= i < e.len() implies occurs_in(paths, #[trigger] e[i]) by {
            if i < e0.len() {
                assert(e[i] == e0[i]);
                assert(occurs_in(earlier, e0[i]));
                let k = choose|k: int| 0 <= k < earlier.len() && (#[trigger] earlier[k])@ == e0[i];
                assert(paths[k] == earlier[k]);
            } else {
                assert(paths[paths.len() - 1]@ == e[i]);
            }
        }
    }
}

/// A report yields at most one event per path.
pub proof fn lemma_emitted_once(paths: Seq<String>, excl: Seq<String>, d: Debouncer, action: Seq<char>, now: u64)
    ensures
        forall|i: int, j: int| 0 <= i < j < emitted(paths, excl, d, action, now).len()
            ==> #[trigger] emitted(paths, excl, d, action, now)[i] != #[trigger] emitted(paths, excl, d, action, now)[j],
    decreases paths.len(),
{
    if paths.len() > 0 {
        let earlier = paths.drop_last();
        lemma_emitted_once(earlier, excl, d, action, now);
        lemma_emitted_from_report(earlier, excl, d, action, now);
        let e0 = emitted(earlier, excl, d, action, now);
        let e = emitted(paths, excl, d, action, now);
        assert forall|i: int, j: int| 0 <= i < j < e.len() implies #[trigger] e[i] != #[trigger] e[j] by {
            if j < e0.len() {
                assert(e[i] == e0[i] && e[j] == e0[j]);
            } else {
                assert(e[i] == e0[i]);
                assert(occurs_in(earlier, e0[i]));
                assert(!occurs_in(earlier, e[j]));
            }
        }
    }
}

/// The raw event for one change.
fn file_event(action: &str, path: &str) -> (e: RawEvent)
    ensures
        e.source@ == "file_activity"@,
        e.payload.value() == file_payload(action@, path@),
{
    let mut m: Vec<(String, Json)> = Vec::new();
    m.push((owned("action"), Json::Str(owned(action))));
    m.push((owned("path"), Json::Str(owned(path))));
    let payload = Json::Object(m);
    proof {
        reveal_with_fuel(Json::value, 2);
        assert(payload.value()->Object_0 =~= file_payload(action@, path@)->Object_0);
    }
    RawEvent::new(owned("file_activity"), payload)
}

} // verus!
