//! Process launches: the list of running processes is compared with the
//! previous one; new processes become start events, vanished ones exit
//! events.

use vstd::prelude::*;
use crate::collector::OffsetTracker;
use crate::json::{Json, JsonValue};
use crate::paths::{file_name_text, path_file_name};
use crate::schema::RawEvent;
use std::collections::HashSet;
use vstd::std_specs::iter::IteratorSpec;
use crate::text::{dec, dec_of, owned, push_chars, push_str, string_of};

verus! {

/// The process ids a process-enumeration buffer reports: the first
/// `bytes_returned / 4` slots (at most the whole buffer), without zeros.
pub open spec fn reported_pids(buf: Seq<u32>, bytes_returned: u32) -> Seq<u32> {
    let n = bytes_returned as int / 4;
    nonzero(if n < buf.len() { buf.take(n) } else { buf })
}

/// The non-zero entries, in order.
pub open spec fn nonzero(s: Seq<u32>) -> Seq<u32>
    decreases s.len(),
{
    if s.len() == 0 {
        s
    } else {
        nonzero(s.drop_last()) + (if s.last() == 0 { Seq::<u32>::empty() } else { seq![s.last()] })
    }
}

/// The payload of a start event.
pub open spec fn start_payload(pid: u32, name: Option<Seq<char>>) -> JsonValue {
    JsonValue::Object(seq![
        ("process_name"@, JsonValue::Str(match name {
            Some(n) => n,
            None => "pid_"@ + dec(pid as nat),
        })),
        ("process_id"@, JsonValue::Number(pid as int)),
        ("event"@, JsonValue::Str("start"@)),
    ])
}

/// The payload of an exit event.
pub open spec fn exit_payload(pid: u32) -> JsonValue {
    JsonValue::Object(seq![("process_id"@, JsonValue::Number(pid as int)), ("event"@, JsonValue::Str("exit"@))])
}

/// Process launch collector: compares process lists between polls.
pub struct ProcessLaunchCollector {
    tracker: OffsetTracker,
    poll_interval_secs: u64,
}

/// The ids in `from` that are not in `other`, each once, in the order in
/// which the set yields them.
fn missing_from(from: &HashSet<u32>, other: &HashSet<u32>) -> (r: Vec<u32>)
    ensures
        r@.no_duplicates(),
        r@.to_set() == from@.difference(other@),
{
    let mut r: Vec<u32> = Vec::new();
    let ghost keys = from.iter().remaining();
    proof {
        assert(keys.unref().to_set() == from@);
        assert(keys.unref().no_duplicates());
    }
    for pid in it: from.iter()
        invariant
            it.seq() == keys,
            keys.unref().to_set() == from@,
            keys.unref().no_duplicates(),
            r@.no_duplicates(),
            forall|p: u32| #[trigger] r@.contains(p) <==> (exists|j: int| 0 <= j < it.index() && *keys[j] == p)
                && !other@.contains(p),
    {
        let ghost i = it.index();
        let ghost r0 = r@;
        assert(*pid == keys.unref()[i]);
        assert(*keys[i] == *pid);
        if !other.contains(pid) {
            proof {
                assert forall|j: int| 0 <= j < i implies *keys[j] != *pid by {
                    assert(keys.unref()[j] == *keys[j]);
                    assert(keys.unref()[i] == *keys[i]);
                }
                assert(!r0.contains(*pid));
            }
            r.push(*pid);
            proof {
                assert forall|p: u32| #[trigger] r@.contains(p) <==> (exists|j: int| 0 <= j < i + 1 && *keys[j] == p)
                    && !other@.contains(p) by {
                    if r@.contains(p) && p != *pid {
                        let k = choose|k: int| 0 <= k < r@.len() && r@[k] == p;
                        assert(r0[k] == p);
                    }
                    if r0.contains(p) {
                        let k = choose|k: int| 0 <= k < r0.len() && r0[k] == p;
                        assert(r@[k] == p);
                    }
                    if p == *pid {
                        assert(r@[r0.len() as int] == p);
                    }
                }
            }
        } else {
            proof {
                assert forall|p: u32| #[trigger] r@.contains(p) <==> (exists|j: int| 0 <= j < i + 1 && *keys[j] == p)
                    && !other@.contains(p) by {
                    if (exists|j: int| 0 <= j < i + 1 && *keys[j] == p) && !other@.contains(p) {
                        let j = choose|j: int| 0 <= j < i + 1 && *keys[j] == p;
                        assert(j < i);
                    }
                }
            }
        }
    }
    proof {
        assert forall|p: u32| r@.to_set().contains(p) <==> from@.difference(other@).contains(p) by {
            if from@.contains(p) {
                assert(keys.unref().to_set().contains(p));
                let j = choose|j: int| 0 <= j < keys.unref().len() && keys.unref()[j] == p;
                assert(*keys[j] == p);
            }
            if r@.contains(p) {
                let j = choose|j: int| 0 <= j < keys.len() && *keys[j] == p;
                assert(keys.unref()[j] == p);
                assert(keys.unref().to_set().contains(p));
            }
        }
        assert(r@.to_set() =~= from@.difference(other@));
    }
    r
}

impl ProcessLaunchCollector {
    /// The pause between polls, in seconds.
    pub closed spec fn poll_view(&self) -> u64 {
        self.poll_interval_secs
    }

    /// The offset tracker.
    pub closed spec fn tracker_view(&self) -> OffsetTracker {
        self.tracker
    }

    /// A collector for the given database, polling every five seconds.
    pub fn new(db_path: String) -> (c: ProcessLaunchCollector)
        ensures
            c.poll_view() == 5,
            c.tracker_view().name_view() == "process_launch"@,
            c.tracker_view().path_view() == db_path@,
    {
        ProcessLaunchCollector { tracker: OffsetTracker::new(owned("process_launch"), db_path), poll_interval_secs: 5 }
    }

    /// The collector's name.
    pub fn name(&self) -> (n: &'static str)
        ensures
            n@ == "process_launch"@,
    {
        "process_launch"
    }

    /// The pause between polls, in seconds.
    pub fn poll_interval_secs(&self) -> (s: u64)
        ensures
            s == self.poll_view(),
    {
        self.poll_interval_secs
    }

    /// The offset tracker.
    pub fn tracker(&self) -> (t: &OffsetTracker)
        ensures
            *t == self.tracker_view(),
    {
        &self.tracker
    }

    /// The process ids in an enumeration buffer (see `reported_pids`).
    pub fn live_pids(buf: &Vec<u32>, bytes_returned: u32) -> (r: Vec<u32>)
        ensures
            r@ == reported_pids(buf@, bytes_returned),
    {
        let count = (bytes_returned / 4) as usize;
        let n = if count < buf.len() { count } else { buf.len() };
        let mut r: Vec<u32> = Vec::new();
        let mut i: usize = 0;
        while i < n
            invariant
                n <= buf@.len(),
                i <= n,
                r@ == nonzero(buf@.take(i as int)),
            decreases n - i,
        {
            assert(buf@.take(i + 1).drop_last() =~= buf@.take(i as int));
            if buf[i] != 0 {
                r.push(buf[i]);
            }
            assert(r@ =~= nonzero(buf@.take(i + 1)));
            i = i + 1;
        }
        assert(buf@.take(n as int) =~= (if (bytes_returned as int / 4) < buf@.len() {
            buf@.take(bytes_returned as int / 4) } else { buf@ }));
        r
    }

    /// The set of process ids in a list, as the collector keeps them
    /// between polls.
    pub fn pid_set(pids: &Vec<u32>) -> (s: HashSet<u32>)
        ensures
            s@ == pids@.to_set(),
    {
        let mut s: HashSet<u32> = HashSet::new();
        let mut i: usize = 0;
        while i < pids.len()
            invariant
                i <= pids@.len(),
                s@ == pids@.take(i as int).to_set(),
            decreases pids@.len() - i,
        {
            s.insert(pids[i]);
            proof {
                assert(pids@.take(i + 1) =~= pids@.take(i as int).push(pids@[i as int]));
                pids@.take(i as int).lemma_push_to_set_commute(pids@[i as int]);
            }
            i = i + 1;
        }
        assert(pids@.take(i as int) =~= pids@);
        s
    }

    /// The processes that started between two polls: those running now
    /// that were not known before, each once.
    pub fn new_pids(known: &HashSet<u32>, current: &HashSet<u32>) -> (r: Vec<u32>)
        ensures
            r@.no_duplicates(),
            r@.to_set() == current@.difference(known@),
    {
        missing_from(current, known)
    }

    /// The processes that exited between two polls: those known before and
    /// no longer running, each once.
    pub fn exited_pids(known: &HashSet<u32>, current: &HashSet<u32>) -> (r: Vec<u32>)
        ensures
            r@.no_duplicates(),
            r@.to_set() == known@.difference(current@),
    {
        missing_from(known, current)
    }

    /// The name of a process from its executable's full path: the file
    /// name, or the whole path when it has none.
    pub fn process_name_of(full_path: &str) -> (r: String)
        ensures
            r@ == (match file_name_text(full_path@) {
                Some(n) => n,
                None => full_path@,
            }),
    {
        match path_file_name(full_path) {
            Some(n) => n,
            None => owned(full_path),
        }
    }

    /// The event for a started process; a process whose name could not be
    /// read is named `pid_` and its id.
    pub fn start_event(pid: u32, name: Option<String>) -> (e: RawEvent)
        ensures
            e.source@ == "process_launch"@,
            e.payload.value() == start_payload(pid, match name {
                Some(n) => Some(n@),
                None => None,
            }),
    {
        let ghost want = if name is Some { name->0@ } else { "pid_"@ + dec(pid as nat) };
        let ghost opt: Option<Seq<char>> = if name is Some { Some(name->0@) } else { None };
        let process_name = match name {
            Some(n) => n,
            None => {
                let mut v: Vec<char> = Vec::new();
                push_str(&mut v, "pid_");
                let d = dec_of(pid as u64);
                push_chars(&mut v, &d);
                string_of(&v)
            },
        };
        let ghost pn = process_name@;
        assert(pn == want);
        let mut m: Vec<(String, Json)> = Vec::new();
        m.push((owned("process_name"), Json::Str(process_name)));
        m.push((owned("process_id"), Json::Number(pid as i128)));
        m.push((owned("event"), Json::Str(owned("start"))));
        let payload = Json::Object(m);
        proof {
            reveal_with_fuel(Json::value, 2);
            assert(payload.value()->Object_0 =~= seq![
                ("process_name"@, JsonValue::Str(pn)),
                ("process_id"@, JsonValue::Number(pid as int)),
                ("event"@, JsonValue::Str("start"@)),
            ]);
            assert(payload.value()->Object_0 =~= start_payload(pid, opt)->Object_0);
        }
        RawEvent::new(owned("process_launch"), payload)
    }

    /// The event for an exited process.
    pub fn exit_event(pid: u32) -> (e: RawEvent)
        ensures
            e.source@ == "process_launch"@,
            e.payload.value() == exit_payload(pid),
    {
        let mut m: Vec<(String, Json)> = Vec::new();
        m.push((owned("process_id"), Json::Number(pid as i128)));
        m.push((owned("event"), Json::Str(owned("exit"))));
        let payload = Json::Object(m);
        proof {
            reveal_with_fuel(Json::value, 2);
            assert(payload.value()->Object_0 =~= exit_payload(pid)->Object_0);
        }
        RawEvent::new(owned("process_launch"), payload)
    }
}

} // verus!
