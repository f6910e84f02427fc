//! Session inference: grouping events into blocks of activity.

use vstd::prelude::*;
use crate::names::SessionLabel;
use crate::parse::{join_on, join_with, lemma_split_join, split_on, split_with};
use crate::privacy::opt_view;
use crate::schema::{Event, Session};
use crate::text::{chars_eq, chars_of, clone_opt, push_str, string_of};

verus! {

/// The largest threshold, in minutes, that becomes a duration in milliseconds
/// without leaving the signed 64-bit range.
pub const MAX_THRESHOLD_MINUTES: u64 = 153722867280912;

/// An event's context: its app (or `unknown`) and its project (or `none`),
/// joined by a colon.
pub open spec fn context(e: Event) -> Seq<char> {
    (match e.app {
        Some(a) => a@,
        None => "unknown"@,
    }) + ":"@ + (match e.project_key {
        Some(p) => p@,
        None => "none"@,
    })
}

/// Event `i` opens a new session: the gap since event `i - 1` exceeds the
/// idle timeout, or the context changed.
pub open spec fn starts_session(evs: Seq<Event>, i: int, idle_min: nat) -> bool {
    let gap = evs[i].ts_utc - evs[i - 1].ts_utc;
    gap > idle_min * 60000 || context(evs[i]) != context(evs[i - 1])
}

/// The shape of a session: first and last event time, number of events and
/// the last project seen in it.
pub ghost struct SessionShape {
    pub start: int,
    pub end: int,
    pub count: nat,
    pub project: Option<Seq<char>>,
}

/// The label a session gets: coding when it has a project, unknown otherwise.
pub open spec fn label_for(project: Option<Seq<char>>) -> SessionLabel {
    if project is Some {
        SessionLabel::Coding
    } else {
        SessionLabel::Unknown
    }
}

/// A session that holds just event `e`.
pub open spec fn open_with(e: Event) -> SessionShape {
    SessionShape { start: e.ts_utc as int, end: e.ts_utc as int, count: 1, project: opt_view(e.project_key) }
}

/// The sessions closed and the session still open after the first `n`
/// events (`n >= 1`), scanning in order.
pub open spec fn scan(evs: Seq<Event>, n: nat, idle_min: nat) -> (Seq<SessionShape>, SessionShape)
    decreases n,
{
    if n <= 1 {
        (Seq::empty(), open_with(evs[0]))
    } else {
        let (closed, cur) = scan(evs, (n - 1) as nat, idle_min);
        let e = evs[n - 1];
        if starts_session(evs, n - 1, idle_min) {
            (closed.push(cur), open_with(e))
        } else {
            (closed, SessionShape {
                start: cur.start,
                end: e.ts_utc as int,
                count: cur.count + 1,
                project: if e.project_key is Some { opt_view(e.project_key) } else { cur.project },
            })
        }
    }
}

/// The sessions the events fall into, in order.
pub open spec fn session_shapes(evs: Seq<Event>, idle_min: nat) -> Seq<SessionShape> {
    if evs.len() == 0 {
        Seq::empty()
    } else {
        let (closed, cur) = scan(evs, evs.len(), idle_min);
        closed.push(cur)
    }
}

/// A session has the given shape and the label that goes with it.
pub open spec fn has_shape(s: Session, shape: SessionShape) -> bool {
    &&& s.start_ts_utc == shape.start
    &&& s.end_ts_utc == Some(shape.end as i64)
    &&& s.event_count == shape.count
    &&& opt_view(s.project_key) == shape.project
    &&& s.label == label_for(shape.project)
}

/// Every session the events fall into holds at most `u32::MAX` events, so
/// that its count fits a session's counter.
pub open spec fn counts_fit(evs: Seq<Event>, idle_min: nat) -> bool {
    forall|k: int| 0 <= k < session_shapes(evs, idle_min).len()
        ==> (#[trigger] session_shapes(evs, idle_min)[k]).count <= u32::MAX
}

/// Scanning further only adds sessions behind those already closed, and
/// the session open after `n` events has, after `m >= n` events, grown into
/// the open one or closed as the next one, with at least as many events.
proof fn lemma_scan_grows(evs: Seq<Event>, n: nat, m: nat, idle_min: nat)
    requires
        1 <= n <= m <= evs.len(),
    ensures
        ({
            let (cn, un) = scan(evs, n, idle_min);
            let (cm, um) = scan(evs, m, idle_min);
            &&& cn.len() <= cm.len()
            &&& cm.len() == cn.len() ==> um.count >= un.count
            &&& cm.len() > cn.len() ==> cm[cn.len() as int].count >= un.count
        }),
    decreases m - n,
{
    if m > n {
        lemma_scan_grows(evs, n, (m - 1) as nat, idle_min);
    }
}

/// Under `counts_fit`, the session open after any number of events fits a
/// counter too.
proof fn lemma_open_fits(evs: Seq<Event>, n: nat, idle_min: nat)
    requires
        1 <= n <= evs.len(),
        counts_fit(evs, idle_min),
    ensures
        scan(evs, n, idle_min).1.count <= u32::MAX,
{
    lemma_scan_grows(evs, n, evs.len(), idle_min);
    let (cn, un) = scan(evs, n, idle_min);
    let (cm, um) = scan(evs, evs.len(), idle_min);
    let shapes = session_shapes(evs, idle_min);
    assert(shapes == cm.push(um));
    assert(shapes[cn.len() as int].count <= u32::MAX);
}

/// Groups events into sessions.
pub struct Sessionizer {
    /// Minutes of inactivity before a session ends.
    pub idle_timeout_minutes: u64,
    /// The context-switch setting, as configured. Grouping opens a new
    /// session at every change of context, whatever the gap, so this
    /// setting bounds nothing there.
    pub context_switch_threshold_minutes: u64,
}

impl Sessionizer {
    pub fn new(idle_timeout_minutes: u64, context_switch_threshold_minutes: u64) -> (s: Sessionizer)
        ensures
            s.idle_timeout_minutes == idle_timeout_minutes,
            s.context_switch_threshold_minutes == context_switch_threshold_minutes,
    {
        Sessionizer { idle_timeout_minutes, context_switch_threshold_minutes }
    }

    /// An event's context (see `context`).
    pub fn extract_context(&self, event: &Event) -> (r: String)
        ensures
            r@ == context(*event),
    {
        let mut v: Vec<char> = Vec::new();
        match &event.app {
            Some(a) => push_str(&mut v, a.as_str()),
            None => push_str(&mut v, "unknown"),
        }
        push_str(&mut v, ":");
        match &event.project_key {
            Some(p) => push_str(&mut v, p.as_str()),
            None => push_str(&mut v, "none"),
        }
        string_of(&v)
    }

    /// A session's label: coding when it has a project, unknown otherwise.
    pub fn infer_session_label(&self, session: &Session) -> (r: SessionLabel)
        ensures
            r == label_for(opt_view(session.project_key)),
    {
        match &session.project_key {
            Some(_) => SessionLabel::Coding,
            None => SessionLabel::Unknown,
        }
    }

    fn close(&self, s: &mut Session, end: i64)
        ensures
            final(s).end_ts_utc == Some(end),
            final(s).label == label_for(opt_view(old(s).project_key)),
            final(s).start_ts_utc == old(s).start_ts_utc,
            final(s).event_count == old(s).event_count,
            final(s).project_key == old(s).project_key,
    {
        s.end_ts_utc = Some(end);
        s.label = self.infer_session_label(s);
    }

    /// Whether every session the events fall into fits a session's counter
    /// (see `counts_fit`), so that they can be grouped.
    pub fn fits_counts(&self, events: &Vec<Event>) -> (r: bool)
        requires
            self.idle_timeout_minutes <= MAX_THRESHOLD_MINUTES,
        ensures
            r == counts_fit(events@, self.idle_timeout_minutes as nat),
    {
        let ghost idle = self.idle_timeout_minutes as nat;
        if events.len() == 0 {
            return true;
        }
        let idle_ms: i128 = (self.idle_timeout_minutes as i128) * 60000;
        let mut ok = true;
        let mut count: u64 = 1;
        let mut i: usize = 1;
        while i < events.len()
            invariant
                1 <= i <= events@.len(),
                idle_ms == idle * 60000,
                idle <= MAX_THRESHOLD_MINUTES,
                ({
                    let (closed, cur) = scan(events@, i as nat, idle);
                    &&& ok == (forall|k: int| 0 <= k < closed.len() ==> (#[trigger] closed[k]).count <= u32::MAX)
                    &&& count == cur.count
                    &&& cur.count <= i
                }),
            decreases events@.len() - i,
        {
            let gap: i128 = (events[i].ts_utc as i128) - (events[i - 1].ts_utc as i128);
            let ctx = chars_of(self.extract_context(&events[i]).as_str());
            let prev = chars_of(self.extract_context(&events[i - 1]).as_str());
            let should_start = gap > idle_ms || !chars_eq(&ctx, &prev);
            assert(should_start == starts_session(events@, i as int, idle));
            let ghost (closed0, cur0) = scan(events@, i as nat, idle);
            let ghost ok0 = ok;
            if should_start {
                ok = ok && count <= 0xffff_ffffu64;
                count = 1;
                proof {
                    let closed1 = closed0.push(cur0);
                    assert(scan(events@, (i + 1) as nat, idle).0 == closed1);
                    assert(ok == (forall|k: int| 0 <= k < closed1.len() ==> (#[trigger] closed1[k]).count <= u32::MAX))
                        by {
                        if ok {
                            assert forall|k: int| 0 <= k < closed1.len() implies (#[trigger] closed1[k]).count <= u32::MAX by {
                                if k < closed0.len() {
                                    assert(closed1[k] == closed0[k]);
                                }
                            }
                        } else {
                            if !ok0 {
                                let k = choose|k: int| 0 <= k < closed0.len() && !((#[trigger] closed0[k]).count <= u32::MAX);
                                assert(closed1[k] == closed0[k]);
                            } else {
                                assert(closed1[closed0.len() as int] == cur0);
                            }
                        }
                    }
                }
            } else {
                count = count + 1;
            }
            i = i + 1;
        }
        let r = ok && count <= 0xffff_ffffu64;
        proof {
            let (closed, cur) = scan(events@, events@.len(), idle);
            let shapes = session_shapes(events@, idle);
            assert(shapes == closed.push(cur));
            if r {
                assert forall|k: int| 0 <= k < shapes.len() implies (#[trigger] shapes[k]).count <= u32::MAX by {
                    if k < closed.len() {
                        assert(shapes[k] == closed[k]);
                    }
                }
            } else if !ok {
                let k = choose|k: int| 0 <= k < closed.len() && !((#[trigger] closed[k]).count <= u32::MAX);
                assert(shapes[k] == closed[k]);
            } else {
                assert(shapes[closed.len() as int] == cur);
            }
        }
        r
    }

    /// Groups events, in the order given, into sessions: a new session opens
    /// at every event that `starts_session`.
    pub fn group_events_into_sessions(&self, events: &Vec<Event>) -> (r: Vec<Session>)
        requires
            counts_fit(events@, self.idle_timeout_minutes as nat),
            self.idle_timeout_minutes <= MAX_THRESHOLD_MINUTES,
        ensures
            r@.len() == session_shapes(events@, self.idle_timeout_minutes as nat).len(),
            forall|k: int| 0 <= k < r@.len() ==> has_shape(#[trigger] r@[k], session_shapes(events@,
                self.idle_timeout_minutes as nat)[k]),
    {
        let ghost idle = self.idle_timeout_minutes as nat;
        let mut sessions: Vec<Session> = Vec::new();
        if events.len() == 0 {
            return sessions;
        }
        let idle_ms: i128 = (self.idle_timeout_minutes as i128) * 60000;
        let mut current = Session::new(events[0].ts_utc);
        let mut last_time: i64 = events[0].ts_utc;
        let mut last_context = chars_of(self.extract_context(&events[0]).as_str());
        let mut i: usize = 0;
        while i < events.len()
            invariant
                0 < events@.len(),
                counts_fit(events@, idle),
                i <= events@.len(),
                idle_ms == idle * 60000,
                idle <= MAX_THRESHOLD_MINUTES,
                i == 0 ==> sessions@.len() == 0 && current.event_count == 0 && current.start_ts_utc == events@[0].ts_utc
                    && current.project_key is None && last_time == events@[0].ts_utc
                    && last_context@ == context(events@[0]),
                i > 0 ==> {
                    let (closed, cur) = scan(events@, i as nat, idle);
                    &&& sessions@.len() == closed.len()
                    &&& forall|k: int| 0 <= k < closed.len() ==> has_shape(#[trigger] sessions@[k], closed[k])
                    &&& current.start_ts_utc == cur.start
                    &&& last_time == cur.end
                    &&& current.event_count == cur.count
                    &&& opt_view(current.project_key) == cur.project
                    &&& last_time == events@[i - 1].ts_utc
                    &&& last_context@ == context(events@[i - 1])
                    &&& cur.count <= i
                },
            decreases events@.len() - i,
        {
            let e = &events[i];
            let gap: i128 = (e.ts_utc as i128) - (last_time as i128);
            let ctx = chars_of(self.extract_context(e).as_str());
            let should_start = gap > idle_ms || !chars_eq(&ctx, &last_context);
            proof {
                if i > 0 {
                    assert(should_start == starts_session(events@, i as int, idle));
                }
            }
            if should_start {
                self.close(&mut current, last_time);
                sessions.push(current);
                current = Session::new(e.ts_utc);
            }
            proof {
                if i > 0 && !should_start {
                    lemma_open_fits(events@, (i + 1) as nat, idle);
                    let (closed0, cur0) = scan(events@, i as nat, idle);
                    assert(scan(events@, (i + 1) as nat, idle).1.count == cur0.count + 1);
                }
            }
            current.event_count = current.event_count + 1;
            match &e.project_key {
                Some(p) => {
                    current.project_key = Some(p.clone());
                },
                None => {},
            }
            last_time = e.ts_utc;
            last_context = ctx;
            i = i + 1;
            proof {
                if i > 1 {
                    let (closed0, cur0) = scan(events@, (i - 1) as nat, idle);
                    assert(scan(events@, i as nat, idle) == if starts_session(events@, i - 1, idle) {
                        (closed0.push(cur0), open_with(events@[i - 1]))
                    } else {
                        (closed0, SessionShape {
                            start: cur0.start,
                            end: events@[i - 1].ts_utc as int,
                            count: cur0.count + 1,
                            project: if events@[i - 1].project_key is Some { opt_view(events@[i - 1].project_key) } else { cur0.project },
                        })
                    });
                }
            }
        }
        self.close(&mut current, last_time);
        sessions.push(current);
        sessions
    }
}


/// The number of events the sessions hold together.
pub open spec fn total_count(shapes: Seq<SessionShape>) -> nat
    decreases shapes.len(),
{
    if shapes.len() == 0 {
        0
    } else {
        total_count(shapes.drop_last()) + shapes.last().count
    }
}

/// How many of the events `1 .. n` open a new session.
pub open spec fn boundaries(evs: Seq<Event>, n: nat, idle_min: nat) -> nat
    decreases n,
{
    if n <= 1 {
        0
    } else {
        boundaries(evs, (n - 1) as nat, idle_min) + if starts_session(evs, n - 1, idle_min) {
            1nat
        } else {
            0nat
        }
    }
}

proof fn lemma_scan(evs: Seq<Event>, n: nat, idle_min: nat)
    requires
        1 <= n <= evs.len(),
    ensures
        ({
            let (closed, cur) = scan(evs, n, idle_min);
            &&& total_count(closed) + cur.count == n
            &&& cur.count >= 1
            &&& forall|k: int| 0 <= k < closed.len() ==> (#[trigger] closed[k]).count >= 1
            &&& closed.len() == boundaries(evs, n, idle_min)
            &&& (closed.len() > 0 ==> closed[0].start == evs[0].ts_utc)
            &&& (closed.len() == 0 ==> cur.start == evs[0].ts_utc)
        }),
    decreases n,
{
    if n > 1 {
        lemma_scan(evs, (n - 1) as nat, idle_min);
        let (closed0, cur0) = scan(evs, (n - 1) as nat, idle_min);
        if starts_session(evs, n - 1, idle_min) {
            assert(closed0.push(cur0).drop_last() =~= closed0);
        }
    }
}

/// The sessions split the events: every event lands in exactly one session,
/// no session is empty, there is one session more than there are events
/// that open a session, and the first session starts with the first event.
pub proof fn lemma_sessions_partition_events(evs: Seq<Event>, idle_min: nat)
    requires
        evs.len() > 0,
    ensures
        total_count(session_shapes(evs, idle_min)) == evs.len(),
        forall|k: int| 0 <= k < session_shapes(evs, idle_min).len()
            ==> (#[trigger] session_shapes(evs, idle_min)[k]).count >= 1,
        session_shapes(evs, idle_min).len() == boundaries(evs, evs.len(), idle_min) + 1,
        session_shapes(evs, idle_min)[0].start == evs[0].ts_utc,
{
    lemma_scan(evs, evs.len(), idle_min);
    let (closed, cur) = scan(evs, evs.len(), idle_min);
    assert(closed.push(cur).drop_last() =~= closed);
}

/// With no events there are no sessions.
pub proof fn lemma_no_events_no_sessions(idle_min: nat)
    ensures
        session_shapes(Seq::<Event>::empty(), idle_min).len() == 0,
{
}

/// Events that are all closer together than both thresholds stay in one
/// session.
pub proof fn lemma_close_events_one_session(evs: Seq<Event>, idle_min: nat)
    requires
        evs.len() > 0,
        forall|i: int| 1 <= i < evs.len() ==> !starts_session(evs, i, idle_min),
    ensures
        session_shapes(evs, idle_min).len() == 1,
{
    lemma_no_boundaries(evs, evs.len(), idle_min);
    lemma_sessions_partition_events(evs, idle_min);
}

proof fn lemma_no_boundaries(evs: Seq<Event>, n: nat, idle_min: nat)
    requires
        n <= evs.len(),
        forall|i: int| 1 <= i < evs.len() ==> !starts_session(evs, i, idle_min),
    ensures
        boundaries(evs, n, idle_min) == 0,
    decreases n,
{
    if n > 1 {
        lemma_no_boundaries(evs, (n - 1) as nat, idle_min);
    }
}

/// An event that comes after more than the idle timeout always opens a new
/// session.
pub proof fn lemma_idle_gap_splits(evs: Seq<Event>, i: int, idle_min: nat)
    requires
        1 <= i < evs.len(),
        evs[i].ts_utc - evs[i - 1].ts_utc > idle_min * 60000,
    ensures
        starts_session(evs, i, idle_min),
{
}

/// A gap within the idle timeout between events of the same context never
/// opens a new session.
pub proof fn lemma_same_context_stays(evs: Seq<Event>, i: int, idle_min: nat)
    requires
        1 <= i < evs.len(),
        evs[i].ts_utc - evs[i - 1].ts_utc <= idle_min * 60000,
        context(evs[i]) == context(evs[i - 1]),
    ensures
        !starts_session(evs, i, idle_min),
{
}

/// The indices, among the first `n` events, of the events that open a
/// session: the first one, then each that `starts_session`, in order.
pub open spec fn openings(evs: Seq<Event>, n: nat, idle_min: nat) -> Seq<int>
    decreases n,
{
    if n <= 1 {
        seq![0int]
    } else {
        openings(evs, (n - 1) as nat, idle_min) + (if starts_session(evs, n - 1, idle_min) {
            seq![n - 1]
        } else {
            Seq::empty()
        })
    }
}

/// Where block `k` of the openings `st` ends (exclusive), among `n` events.
pub open spec fn block_end(st: Seq<int>, k: int, n: int) -> int {
    if k + 1 < st.len() {
        st[k + 1]
    } else {
        n
    }
}

/// The openings are increasing, start at 0, lie below `n`, and are exactly
/// the first event and the events that open a session.
pub open spec fn well_opened(evs: Seq<Event>, st: Seq<int>, n: int, idle_min: nat) -> bool {
    &&& st.len() >= 1
    &&& st[0] == 0
    &&& forall|a: int, b: int| 0 <= a < b < st.len() ==> #[trigger] st[a] < #[trigger] st[b]
    &&& forall|k: int| 0 <= k < st.len() ==> 0 <= #[trigger] st[k] < n
    &&& forall|i: int| 0 <= i < n ==> (st.contains(i) <==> (i == 0 || starts_session(evs, i, idle_min)))
}

proof fn lemma_scan_blocks(evs: Seq<Event>, n: nat, idle_min: nat)
    requires
        1 <= n <= evs.len(),
    ensures
        ({
            let (closed, cur) = scan(evs, n, idle_min);
            let st = openings(evs, n, idle_min);
            &&& closed.len() + 1 == st.len()
            &&& well_opened(evs, st, n as int, idle_min)
            &&& forall|k: int| 0 <= k < closed.len() ==> {
                &&& (#[trigger] closed[k]).start == evs[st[k]].ts_utc
                &&& closed[k].end == evs[st[k + 1] - 1].ts_utc
                &&& closed[k].count == st[k + 1] - st[k]
            }
            &&& cur.start == evs[st.last()].ts_utc
            &&& cur.end == evs[n - 1].ts_utc
            &&& cur.count == n - st.last()
        }),
    decreases n,
{
    if n > 1 {
        lemma_scan_blocks(evs, (n - 1) as nat, idle_min);
        let (closed0, cur0) = scan(evs, (n - 1) as nat, idle_min);
        let st0 = openings(evs, (n - 1) as nat, idle_min);
        let st = openings(evs, n, idle_min);
        let (closed, cur) = scan(evs, n, idle_min);
        if starts_session(evs, n - 1, idle_min) {
            assert(st == st0.push(n - 1));
            assert(closed == closed0.push(cur0));
            assert forall|i: int| 0 <= i < n implies (st.contains(i) <==> (i == 0 || starts_session(evs, i, idle_min))) by {
                if i < n - 1 {
                    if st.contains(i) {
                        let k = choose|k: int| 0 <= k < st.len() && st[k] == i;
                        assert(st0[k] == i);
                    }
                    if st0.contains(i) {
                        let k = choose|k: int| 0 <= k < st0.len() && st0[k] == i;
                        assert(st[k] == i);
                    }
                } else {
                    assert(st[st.len() - 1] == n - 1);
                }
            }
            assert forall|k: int| 0 <= k < closed.len() implies {
                &&& (#[trigger] closed[k]).start == evs[st[k]].ts_utc
                &&& closed[k].end == evs[st[k + 1] - 1].ts_utc
                &&& closed[k].count == st[k + 1] - st[k]
            } by {
                if k < closed0.len() {
                    assert(closed[k] == closed0[k]);
                    assert(st[k] == st0[k]);
                    assert(st[k + 1] == st0[k + 1]);
                } else {
                    assert(closed[k] == cur0);
                    assert(st[k] == st0.last());
                }
            }
        } else {
            assert(st =~= st0);
            assert forall|i: int| 0 <= i < n implies (st.contains(i) <==> (i == 0 || starts_session(evs, i, idle_min))) by {
                if i == n - 1 {
                    if st.contains(i) {
                        let k = choose|k: int| 0 <= k < st.len() && st[k] == i;
                    }
                }
            }
        }
    }
}

/// The sessions are the consecutive blocks that the openings cut the
/// events into: session `k` starts at opening `k`, ends at the event before
/// the next opening (or at the last event), and counts the events between.
pub proof fn lemma_session_blocks(evs: Seq<Event>, idle_min: nat)
    requires
        evs.len() > 0,
    ensures
        ({
            let shapes = session_shapes(evs, idle_min);
            let st = openings(evs, evs.len(), idle_min);
            let n = evs.len() as int;
            &&& shapes.len() == st.len()
            &&& well_opened(evs, st, n, idle_min)
            &&& forall|k: int| 0 <= k < shapes.len() ==> {
                &&& st[k] < block_end(st, k, n) <= n
                &&& (#[trigger] shapes[k]).start == evs[st[k]].ts_utc
                &&& shapes[k].end == evs[block_end(st, k, n) - 1].ts_utc
                &&& shapes[k].count == block_end(st, k, n) - st[k]
            }
        }),
{
    lemma_scan_blocks(evs, evs.len(), idle_min);
    let (closed, cur) = scan(evs, evs.len(), idle_min);
    let shapes = session_shapes(evs, idle_min);
    let st = openings(evs, evs.len(), idle_min);
    let n = evs.len() as int;
    assert(shapes == closed.push(cur));
    assert forall|k: int| 0 <= k < shapes.len() implies {
        &&& st[k] < block_end(st, k, n) <= n
        &&& (#[trigger] shapes[k]).start == evs[st[k]].ts_utc
        &&& shapes[k].end == evs[block_end(st, k, n) - 1].ts_utc
        &&& shapes[k].count == block_end(st, k, n) - st[k]
    } by {
        if k < closed.len() {
            assert(shapes[k] == closed[k]);
            assert(st[k] < st[k + 1]);
        } else {
            assert(shapes[k] == cur);
        }
    }
}

/// With events in time order, each session ends no later than the next one
/// starts, and no session ends before it starts.
pub proof fn lemma_sessions_in_order(evs: Seq<Event>, idle_min: nat)
    requires
        evs.len() > 0,
        forall|i: int, j: int| 0 <= i <= j < evs.len() ==> evs[i].ts_utc <= evs[j].ts_utc,
    ensures
        forall|k: int| 0 <= k < session_shapes(evs, idle_min).len() ==>
            (#[trigger] session_shapes(evs, idle_min)[k]).start <= session_shapes(evs, idle_min)[k].end,
        forall|k: int| 0 <= k < session_shapes(evs, idle_min).len() - 1 ==>
            (#[trigger] session_shapes(evs, idle_min)[k]).end <= session_shapes(evs, idle_min)[k + 1].start,
{
    lemma_session_blocks(evs, idle_min);
    let shapes = session_shapes(evs, idle_min);
    let st = openings(evs, evs.len(), idle_min);
    let n = evs.len() as int;
    assert forall|k: int| 0 <= k < shapes.len() implies (#[trigger] shapes[k]).start <= shapes[k].end by {
        assert(st[k] <= block_end(st, k, n) - 1);
    }
    assert forall|k: int| 0 <= k < shapes.len() - 1 implies (#[trigger] shapes[k]).end <= shapes[k + 1].start by {
        assert(block_end(st, k, n) == st[k + 1]);
        assert(shapes[k + 1].start == evs[st[k + 1]].ts_utc);
    }
}

/// The text a session's tags are stored as: joined with commas.
pub fn tags_text(tags: &Vec<String>) -> (r: String)
    ensures
        r@ == join_on(Seq::new(tags@.len(), |i: int| tags@[i]@), ','),
{
    join_with(tags, ',')
}

/// The tags read back from their stored text: the pieces between commas.
pub fn tags_from_text(text: &str) -> (r: Vec<String>)
    ensures
        r@.len() == split_on(text@, ',').len(),
        forall|i: int| 0 <= i < r@.len() ==> (#[trigger] r@[i])@ == split_on(text@, ',')[i],
{
    split_with(text, ',')
}

/// Reading tags back gives the tags that were stored, when there is at
/// least one and none holds a comma.
pub proof fn lemma_tags_round_trip(tags: Seq<Seq<char>>)
    requires
        tags.len() > 0,
        forall|i: int| 0 <= i < tags.len() ==> !(#[trigger] tags[i]).contains(','),
    ensures
        split_on(join_on(tags, ','), ',') == tags,
{
    lemma_split_join(tags, ',');
}

} // verus!
