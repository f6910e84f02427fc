//! Per-channel inbound-message metrics: a registry of channels by name,
//! kept in name order, that the channel side writes and the gateway reads.

use vstd::prelude::*;
use crate::clock::now_rfc3339;
use crate::text::{chars_of, owned, str_eq};

verus! {

/// The metrics of one channel.
#[derive(Debug, Clone)]
pub struct ChannelMetrics {
    pub channel_type: String,
    pub message_count: u64,
    pub last_message_at: Option<String>,
}

/// Text order: character by character, a proper prefix first.
pub open spec fn lex_less(a: Seq<char>, b: Seq<char>) -> bool
    decreases a.len(),
{
    if a.len() == 0 {
        b.len() > 0
    } else if b.len() == 0 {
        false
    } else if a[0] != b[0] {
        (a[0] as int) < (b[0] as int)
    } else {
        lex_less(a.drop_first(), b.drop_first())
    }
}

/// Text order is irreflexive.
pub proof fn lemma_lex_irreflexive(a: Seq<char>)
    ensures
        !lex_less(a, a),
    decreases a.len(),
{
    if a.len() > 0 {
        lemma_lex_irreflexive(a.drop_first());
    }
}

/// Text order is transitive.
pub proof fn lemma_lex_transitive(a: Seq<char>, b: Seq<char>, c: Seq<char>)
    requires
        lex_less(a, b),
        lex_less(b, c),
    ensures
        lex_less(a, c),
    decreases a.len(),
{
    if a.len() > 0 && b.len() > 0 && c.len() > 0 {
        if a[0] == b[0] && b[0] == c[0] {
            lemma_lex_transitive(a.drop_first(), b.drop_first(), c.drop_first());
        }
    }
}

/// Text order is total: of two different texts, one comes first.
pub proof fn lemma_lex_total(a: Seq<char>, b: Seq<char>)
    requires
        a != b,
    ensures
        lex_less(a, b) || lex_less(b, a),
    decreases a.len(),
{
    if a.len() > 0 && b.len() > 0 && a[0] == b[0] {
        if a.drop_first() == b.drop_first() {
            assert(a =~= seq![a[0]] + a.drop_first());
            assert(b =~= seq![b[0]] + b.drop_first());
        }
        lemma_lex_total(a.drop_first(), b.drop_first());
    } else if a.len() == 0 && b.len() == 0 {
        assert(a =~= b);
    }
}

/// Whether `a` comes before `b` in text order.
pub fn lex_lt(a: &str, b: &str) -> (r: bool)
    ensures
        r == lex_less(a@, b@),
{
    let va = chars_of(a);
    let vb = chars_of(b);
    let mut i: usize = 0;
    assert(a@.skip(0) =~= a@);
    assert(b@.skip(0) =~= b@);
    while i < va.len() && i < vb.len() && va[i] == vb[i]
        invariant
            va@ == a@,
            vb@ == b@,
            i <= va@.len(),
            i <= vb@.len(),
            lex_less(a@, b@) == lex_less(a@.skip(i as int), b@.skip(i as int)),
        decreases va@.len() - i,
    {
        assert(a@.skip(i as int).drop_first() =~= a@.skip(i + 1));
        assert(b@.skip(i as int).drop_first() =~= b@.skip(i + 1));
        i = i + 1;
    }
    if i == va.len() {
        i < vb.len()
    } else if i == vb.len() {
        false
    } else {
        va[i] < vb[i]
    }
}

/// Names strictly increasing in text order.
pub open spec fn sorted_names(s: Seq<(String, ChannelMetrics)>) -> bool {
    forall|i: int, j: int| 0 <= i < j < s.len() ==> lex_less((#[trigger] s[i]).0@, (#[trigger] s[j]).0@)
}

/// Whether a channel of that name is listed.
pub open spec fn listed(s: Seq<(String, ChannelMetrics)>, name: Seq<char>) -> bool {
    exists|i: int| 0 <= i < s.len() && (#[trigger] s[i]).0@ == name
}

/// A position at which a name is listed.
pub open spec fn position_of(s: Seq<(String, ChannelMetrics)>, name: Seq<char>) -> int {
    choose|i: int| 0 <= i < s.len() && (#[trigger] s[i]).0@ == name
}

/// The metrics listed under a name.
pub open spec fn lookup(s: Seq<(String, ChannelMetrics)>, name: Seq<char>) -> Option<ChannelMetrics> {
    if listed(s, name) {
        Some(s[position_of(s, name)].1)
    } else {
        None
    }
}

/// The metrics of a channel that has received nothing yet.
pub open spec fn fresh_metrics(m: ChannelMetrics, channel_type: Seq<char>) -> bool {
    m.channel_type@ == channel_type && m.message_count == 0 && m.last_message_at is None
}

/// The registry of channels, in name order.
pub struct ChannelRegistry {
    entries: Vec<(String, ChannelMetrics)>,
}

proof fn lemma_lookup_at(s: Seq<(String, ChannelMetrics)>, i: int)
    requires
        sorted_names(s),
        0 <= i < s.len(),
    ensures
        lookup(s, s[i].0@) == Some(s[i].1),
{
    let name = s[i].0@;
    assert(listed(s, name));
    let j = position_of(s, name);
    if j < i {
        assert(lex_less(s[j].0@, s[i].0@));
        lemma_lex_irreflexive(name);
    } else if i < j {
        assert(lex_less(s[i].0@, s[j].0@));
        lemma_lex_irreflexive(name);
    }
}

proof fn lemma_lookup_update(s: Seq<(String, ChannelMetrics)>, i: int, m: ChannelMetrics, k: Seq<char>)
    requires
        sorted_names(s),
        0 <= i < s.len(),
    ensures
        sorted_names(s.update(i, (s[i].0, m))),
        lookup(s.update(i, (s[i].0, m)), k) == (if k == s[i].0@ { Some(m) } else { lookup(s, k) }),
{
    let u = s.update(i, (s[i].0, m));
    assert forall|a: int, b: int| 0 <= a < b < u.len() implies lex_less((#[trigger] u[a]).0@, (#[trigger] u[b]).0@) by {
        assert(u[a].0 == s[a].0);
        assert(u[b].0 == s[b].0);
    }
    if k == s[i].0@ {
        lemma_lookup_at(u, i);
    } else {
        if listed(s, k) {
            let j = choose|j: int| 0 <= j < s.len() && (#[trigger] s[j]).0@ == k;
            lemma_lookup_at(s, j);
            assert(u[j].0@ == k);
            lemma_lookup_at(u, j);
        }
        if listed(u, k) {
            let j = choose|j: int| 0 <= j < u.len() && (#[trigger] u[j]).0@ == k;
            assert(s[j].0@ == k);
        }
    }
}

proof fn lemma_lookup_insert(s: Seq<(String, ChannelMetrics)>, p: int, e: (String, ChannelMetrics), k: Seq<char>)
    requires
        sorted_names(s),
        0 <= p <= s.len(),
        forall|j: int| 0 <= j < p ==> lex_less((#[trigger] s[j]).0@, e.0@),
        p < s.len() ==> lex_less(e.0@, s[p].0@),
    ensures
        sorted_names(s.insert(p, e)),
        !listed(s, e.0@),
        lookup(s.insert(p, e), k) == (if k == e.0@ { Some(e.1) } else { lookup(s, k) }),
{
    let u = s.insert(p, e);
    assert forall|j: int| p <= j < s.len() implies lex_less(e.0@, (#[trigger] s[j]).0@) by {
        if j > p {
            lemma_lex_transitive(e.0@, s[p].0@, s[j].0@);
        }
    }
    assert forall|a: int, b: int| 0 <= a < b < u.len() implies lex_less((#[trigger] u[a]).0@, (#[trigger] u[b]).0@) by {
        if a < p && b < p {
            assert(u[a] == s[a] && u[b] == s[b]);
        } else if a < p && b == p {
            assert(u[a] == s[a]);
        } else if a < p {
            assert(u[a] == s[a] && u[b] == s[b - 1]);
            lemma_lex_transitive(s[a].0@, e.0@, s[b - 1].0@);
        } else if a == p {
            assert(u[b] == s[b - 1]);
        } else {
            assert(u[a] == s[a - 1] && u[b] == s[b - 1]);
        }
    }
    if listed(s, e.0@) {
        let j = choose|j: int| 0 <= j < s.len() && (#[trigger] s[j]).0@ == e.0@;
        lemma_lex_irreflexive(e.0@);
        if j < p {
            assert(lex_less(s[j].0@, e.0@));
        } else {
            assert(lex_less(e.0@, s[j].0@));
        }
    }
    assert(u[p] == e);
    if k == e.0@ {
        lemma_lookup_at(u, p);
    } else {
        if listed(s, k) {
            let j = choose|j: int| 0 <= j < s.len() && (#[trigger] s[j]).0@ == k;
            lemma_lookup_at(s, j);
            let uj = if j < p { j } else { j + 1 };
            assert(u[uj] == s[j]);
            lemma_lookup_at(u, uj);
        }
        if listed(u, k) {
            let j = choose|j: int| 0 <= j < u.len() && (#[trigger] u[j]).0@ == k;
            if j < p {
                assert(u[j] == s[j]);
            } else if j > p {
                assert(u[j] == s[j - 1]);
            }
        }
    }
}

impl ChannelRegistry {
    /// The listed channels, in name order.
    pub closed spec fn entries(&self) -> Seq<(String, ChannelMetrics)> {
        self.entries@
    }

    /// The registry keeps its names in strictly increasing order.
    pub closed spec fn wf(&self) -> bool {
        sorted_names(self.entries@)
    }

    /// The metrics of a channel, by name.
    pub open spec fn get(&self, name: Seq<char>) -> Option<ChannelMetrics> {
        lookup(self.entries(), name)
    }

    /// An empty registry.
    pub fn new() -> (r: ChannelRegistry)
        ensures
            r.wf(),
            r.entries().len() == 0,
            forall|k: Seq<char>| #[trigger] r.get(k) is None,
    {
        ChannelRegistry { entries: Vec::new() }
    }

    /// Where a name is, or would go: the first position whose name does not
    /// come before it.
    fn position(&self, name: &str) -> (p: usize)
        requires
            self.wf(),
        ensures
            p <= self.entries().len(),
            forall|j: int| 0 <= j < p ==> lex_less((#[trigger] self.entries()[j]).0@, name@),
            p < self.entries().len() ==> !lex_less(self.entries()[p as int].0@, name@),
    {
        let mut p: usize = 0;
        while p < self.entries.len() && lex_lt(self.entries[p].0.as_str(), name)
            invariant
                p <= self.entries@.len(),
                forall|j: int| 0 <= j < p ==> lex_less((#[trigger] self.entries@[j]).0@, name@),
            decreases self.entries@.len() - p,
        {
            p = p + 1;
        }
        p
    }
}

/// Lists a channel so that it shows in snapshots before any message.
/// A channel already listed keeps its metrics.
pub fn register(registry: &mut ChannelRegistry, name: &str, channel_type: &str)
    requires
        old(registry).wf(),
    ensures
        final(registry).wf(),
        registered(*old(registry), *final(registry), name@, channel_type@),
{
    let p = registry.position(name);
    if p < registry.entries.len() && str_eq(registry.entries[p].0.as_str(), name) {
        proof {
            lemma_lookup_at(registry.entries@, p as int);
        }
        return;
    }
    proof {
        if p < registry.entries@.len() {
            lemma_lex_total(registry.entries@[p as int].0@, name@);
        }
    }
    let m = ChannelMetrics { channel_type: owned(channel_type), message_count: 0, last_message_at: None };
    let e = (owned(name), m);
    proof {
        assert forall|k: Seq<char>| true implies lookup(registry.entries@.insert(p as int, e), k) == (if k == name@ {
            Some(e.1) } else { lookup(registry.entries@, k) }) by {
            lemma_lookup_insert(registry.entries@, p as int, e, k);
        }
        lemma_lookup_insert(registry.entries@, p as int, e, name@);
    }
    registry.entries.insert(p, e);
}

/// Counts one inbound message for a channel (saturating) and stamps the
/// time; a channel not yet listed is listed first, its type taken from
/// its name.
pub fn record_inbound(registry: &mut ChannelRegistry, name: &str)
    requires
        old(registry).wf(),
    ensures
        final(registry).wf(),
        recorded(*old(registry), *final(registry), name@),
{
    let now = now_rfc3339();
    let p = registry.position(name);
    if p < registry.entries.len() && str_eq(registry.entries[p].0.as_str(), name) {
        let key = registry.entries[p].0.clone();
        let old_count = registry.entries[p].1.message_count;
        let ty = registry.entries[p].1.channel_type.clone();
        let count = if old_count < u64::MAX { old_count + 1 } else { u64::MAX };
        let m = ChannelMetrics { channel_type: ty, message_count: count, last_message_at: Some(now) };
        proof {
            lemma_lookup_at(registry.entries@, p as int);
            assert forall|k: Seq<char>| true implies lookup(registry.entries@.update(p as int, (registry.entries@[p as int].0, m)), k)
                == (if k == registry.entries@[p as int].0@ { Some(m) } else { lookup(registry.entries@, k) }) by {
                lemma_lookup_update(registry.entries@, p as int, m, k);
            }
            lemma_lookup_update(registry.entries@, p as int, m, name@);
        }
        registry.entries.set(p, (key, m));
        return;
    }
    proof {
        if p < registry.entries@.len() {
            lemma_lex_total(registry.entries@[p as int].0@, name@);
        }
    }
    let m = ChannelMetrics { channel_type: owned(name), message_count: 1, last_message_at: Some(now) };
    let e = (owned(name), m);
    proof {
        assert forall|k: Seq<char>| true implies lookup(registry.entries@.insert(p as int, e), k) == (if k == name@ {
            Some(e.1) } else { lookup(registry.entries@, k) }) by {
            lemma_lookup_insert(registry.entries@, p as int, e, k);
        }
        lemma_lookup_insert(registry.entries@, p as int, e, name@);
    }
    registry.entries.insert(p, e);
}

/// A copy of the registry's contents, in name order.
pub fn snapshot(registry: &ChannelRegistry) -> (r: Vec<(String, ChannelMetrics)>)
    requires
        registry.wf(),
    ensures
        sorted_names(r@),
        forall|k: Seq<char>| #[trigger] lookup(r@, k) == registry.get(k),
        r@.len() == registry.entries().len(),
{
    let mut r: Vec<(String, ChannelMetrics)> = Vec::new();
    let mut i: usize = 0;
    while i < registry.entries.len()
        invariant
            i <= registry.entries@.len(),
            r@ == registry.entries@.take(i as int),
        decreases registry.entries@.len() - i,
    {
        let e = &registry.entries[i];
        let m = ChannelMetrics {
            channel_type: e.1.channel_type.clone(),
            message_count: e.1.message_count,
            last_message_at: match &e.1.last_message_at {
                Some(t) => Some(t.clone()),
                None => None,
            },
        };
        r.push((e.0.clone(), m));
        assert(r@ =~= registry.entries@.take(i + 1));
        i = i + 1;
    }
    assert(r@ =~= registry.entries@);
    r
}

/// `after` is `before` with the channel `name` registered: a listed
/// channel keeps its metrics, an unlisted one is listed with nothing counted;
/// other channels are untouched.
pub open spec fn registered(before: ChannelRegistry, after: ChannelRegistry, name: Seq<char>, channel_type: Seq<char>) -> bool {
    &&& match before.get(name) {
        Some(m) => after.get(name) == Some(m),
        None => after.get(name) matches Some(m) && fresh_metrics(m, channel_type),
    }
    &&& forall|k: Seq<char>| k != name ==> #[trigger] after.get(k) == before.get(k)
}

/// `after` is `before` with one inbound message counted for `name`
/// (saturating) and its time stamped; an unlisted channel is listed first
/// with its name as its type. Other channels are untouched.
pub open spec fn recorded(before: ChannelRegistry, after: ChannelRegistry, name: Seq<char>) -> bool {
    &&& after.get(name) matches Some(m) && m.last_message_at is Some && match before.get(name) {
        Some(o) => m.channel_type == o.channel_type && m.message_count == (if o.message_count == u64::MAX {
            u64::MAX as int } else { o.message_count + 1 }),
        None => m.channel_type@ == name && m.message_count == 1,
    }
    &&& forall|k: Seq<char>| k != name ==> #[trigger] after.get(k) == before.get(k)
}

/// Registering is idempotent: registering a channel a second time changes
/// nothing, so the messages it has counted are kept.
pub proof fn lemma_register_idempotent(r0: ChannelRegistry, r1: ChannelRegistry, r2: ChannelRegistry,
    name: Seq<char>, channel_type: Seq<char>)
    requires
        registered(r0, r1, name, channel_type),
        registered(r1, r2, name, channel_type),
    ensures
        forall|k: Seq<char>| #[trigger] r2.get(k) == r1.get(k),
        r0.get(name) matches Some(m) ==> r2.get(name) == Some(m),
{
    assert forall|k: Seq<char>| #[trigger] r2.get(k) == r1.get(k) by {
        if k == name {
            assert(r1.get(name) is Some);
        }
    }
}

/// Counting a message after registering: a channel registered with nothing
/// counted has one message after one inbound message, and keeps its type.
pub proof fn lemma_register_then_record(r0: ChannelRegistry, r1: ChannelRegistry, r2: ChannelRegistry,
    name: Seq<char>, channel_type: Seq<char>)
    requires
        r0.get(name) is None,
        registered(r0, r1, name, channel_type),
        recorded(r1, r2, name),
    ensures
        r2.get(name) matches Some(m) && m.message_count == 1 && m.channel_type@ == channel_type
            && m.last_message_at is Some,
{
}

} // verus!
