//! Privacy controls: the rule store, exclusion and redaction.

use vstd::prelude::*;
use vstd::multiset::Multiset;
use crate::names::{PrivacyAction, PrivacyRuleType};
use crate::pattern::{host_of, matches_privacy_pattern, privacy_match, url_host};
use crate::schema::{Event, PrivacyRule};
use crate::text::{chars_of, default_hash, hash_str, hex, hex_of, owned, push_chars, slice_chars, str_eq, string_of};

verus! {

/// The text of an optional string field.
pub open spec fn opt_view(o: Option<String>) -> Option<Seq<char>> {
    match o {
        Some(s) => Some(s@),
        None => None,
    }
}

/// The glob a domain rule is matched with: a leading `*.` reads as `*`, so
/// that `*.example.com` covers every host ending in `example.com`, the bare
/// domain among them.
pub open spec fn domain_glob(p: Seq<char>) -> Seq<char> {
    if p.len() >= 2 && p[0] == '*' && p[1] == '.' {
        seq!['*'] + p.skip(2)
    } else {
        p
    }
}

/// The glob a domain rule is matched with (see `domain_glob`).
fn domain_glob_of(pattern: &str) -> (r: String)
    ensures
        r@ == domain_glob(pattern@),
{
    let p = chars_of(pattern);
    if p.len() >= 2 && p[0] == '*' && p[1] == '.' {
        let mut v: Vec<char> = Vec::new();
        v.push('*');
        let rest = slice_chars(&p, 2, p.len());
        push_chars(&mut v, &rest);
        assert(v@ =~= domain_glob(pattern@));
        string_of(&v)
    } else {
        owned(pattern)
    }
}

/// A rule excludes an event: a path rule whose pattern matches the event's
/// path, a title rule whose pattern matches its title, or a domain rule whose
/// pattern (read by `domain_glob`) matches the host of the `url` in its
/// details. Redaction rules never exclude.
pub open spec fn rule_excludes(rule: PrivacyRule, e: Event) -> bool {
    match rule.rule_type {
        PrivacyRuleType::ExcludePath => e.path matches Some(p) && privacy_match(p@, rule.pattern@),
        PrivacyRuleType::ExcludeTitle => e.title matches Some(t) && privacy_match(t@, rule.pattern@),
        PrivacyRuleType::ExcludeDomain => e.details.str_field("url"@) matches Some(u) && url_host(u)
            matches Some(h) && privacy_match(h, domain_glob(rule.pattern@)),
        PrivacyRuleType::Redaction => false,
    }
}

/// Some rule excludes the event.
pub open spec fn excluded_by(rules: Seq<PrivacyRule>, e: Event) -> bool {
    exists|i: int| 0 <= i < rules.len() && rule_excludes(#[trigger] rules[i], e)
}

/// Two events agree on every field but the title.
pub open spec fn same_but_title(a: Event, b: Event) -> bool {
    &&& a.id == b.id
    &&& a.ts_utc == b.ts_utc
    &&& a.ts_local == b.ts_local
    &&& a.source == b.source
    &&& a.event_type == b.event_type
    &&& a.actor == b.actor
    &&& a.host == b.host
    &&& a.app == b.app
    &&& a.path == b.path
    &&& a.details == b.details
    &&& a.sensitivity == b.sensitivity
    &&& a.project_key == b.project_key
    &&& a.session_id == b.session_id
    &&& a.hash == b.hash
    &&& a.raw_ref == b.raw_ref
    &&& a.created_at == b.created_at
}

/// A redaction rule that rewrites titles (redact or hash) and whose pattern
/// matches `t`.
pub open spec fn rewrites(rule: PrivacyRule, t: Seq<char>) -> bool {
    &&& rule.rule_type == PrivacyRuleType::Redaction
    &&& (rule.action == PrivacyAction::Redact || rule.action == PrivacyAction::Hash)
    &&& privacy_match(t, rule.pattern@)
}

/// The text a title becomes under one redaction rule: `[REDACTED]` for a
/// matching redact rule, its hexadecimal hash for a matching hash rule,
/// unchanged otherwise.
pub open spec fn redact_step(rule: PrivacyRule, title: Option<Seq<char>>) -> Option<Seq<char>> {
    match title {
        Some(t) => if rule.rule_type == PrivacyRuleType::Redaction && privacy_match(t, rule.pattern@) {
            match rule.action {
                PrivacyAction::Redact => Some("[REDACTED]"@),
                PrivacyAction::Hash => Some(hex(default_hash(t) as nat)),
                PrivacyAction::Exclude => title,
            }
        } else {
            title
        },
        None => None,
    }
}

/// The title after every rule, in order, has had its say.
pub open spec fn redacted_title(rules: Seq<PrivacyRule>, title: Option<Seq<char>>) -> Option<Seq<char>>
    decreases rules.len(),
{
    if rules.len() == 0 {
        title
    } else {
        redact_step(rules.last(), redacted_title(rules.drop_last(), title))
    }
}

/// `r` placed into a newest-first list before the first rule older than it.
pub open spec fn insert_newest_first(s: Seq<PrivacyRule>, r: PrivacyRule) -> Seq<PrivacyRule>
    decreases s.len(),
{
    if s.len() == 0 {
        seq![r]
    } else if s[0].created_at < r.created_at {
        seq![r] + s
    } else {
        seq![s[0]] + insert_newest_first(s.drop_first(), r)
    }
}

/// The rules newest first; rules created at the same time keep their order.
pub open spec fn newest_first(s: Seq<PrivacyRule>) -> Seq<PrivacyRule>
    decreases s.len(),
{
    if s.len() == 0 {
        s
    } else {
        insert_newest_first(newest_first(s.drop_last()), s.last())
    }
}

/// A list whose creation times never increase.
pub open spec fn is_newest_first(s: Seq<PrivacyRule>) -> bool {
    forall|i: int, j: int| 0 <= i < j < s.len() ==> s[i].created_at >= s[j].created_at
}

/// A copy of a rule.
pub fn copy_rule(r: &PrivacyRule) -> (c: PrivacyRule)
    ensures
        c == *r,
{
    PrivacyRule {
        id: r.id.clone(),
        rule_type: r.rule_type,
        pattern: r.pattern.clone(),
        action: r.action,
        created_at: r.created_at,
    }
}

proof fn lemma_insert_at(s: Seq<PrivacyRule>, r: PrivacyRule, i: int)
    requires
        0 <= i <= s.len(),
        forall|k: int| 0 <= k < i ==> s[k].created_at >= r.created_at,
        i < s.len() ==> s[i].created_at < r.created_at,
    ensures
        insert_newest_first(s, r) == s.take(i).push(r) + s.skip(i),
    decreases s.len(),
{
    if s.len() == 0 {
        assert(s.take(i).push(r) + s.skip(i) =~= seq![r]);
    } else if i == 0 {
        assert(s.take(0).push(r) + s.skip(0) =~= seq![r] + s);
    } else {
        lemma_insert_at(s.drop_first(), r, i - 1);
        assert(s.take(i).push(r) + s.skip(i) =~= seq![s[0]] + (s.drop_first().take(i - 1).push(r)
            + s.drop_first().skip(i - 1)));
    }
}

fn insert_rule(v: &mut Vec<PrivacyRule>, r: PrivacyRule)
    ensures
        final(v)@ == insert_newest_first(old(v)@, r),
{
    let mut i: usize = 0;
    loop
        invariant
            i <= v@.len(),
            forall|k: int| 0 <= k < i ==> v@[k].created_at >= r.created_at,
        ensures
            i <= v@.len(),
            forall|k: int| 0 <= k < i ==> v@[k].created_at >= r.created_at,
            i < v@.len() ==> v@[i as int].created_at < r.created_at,
        decreases v@.len() - i,
    {
        if i == v.len() {
            break;
        }
        if v[i].created_at < r.created_at {
            break;
        }
        i = i + 1;
    }
    proof {
        lemma_insert_at(v@, r, i as int);
    }
    let ghost before = v@;
    v.insert(i, r);
    assert(v@ =~= before.take(i as int).push(r) + before.skip(i as int));
}

/// Where `insert_newest_first` puts the new rule.
pub open spec fn insert_pos(s: Seq<PrivacyRule>, r: PrivacyRule) -> int
    decreases s.len(),
{
    if s.len() == 0 || s[0].created_at < r.created_at {
        0
    } else {
        1 + insert_pos(s.drop_first(), r)
    }
}

proof fn lemma_insert_pos(s: Seq<PrivacyRule>, r: PrivacyRule)
    ensures
        0 <= insert_pos(s, r) <= s.len(),
        insert_newest_first(s, r) == s.insert(insert_pos(s, r), r),
        forall|k: int| 0 <= k < insert_pos(s, r) ==> s[k].created_at >= r.created_at,
        insert_pos(s, r) < s.len() ==> s[insert_pos(s, r)].created_at < r.created_at,
    decreases s.len(),
{
    if s.len() == 0 {
        assert(s.insert(0, r) =~= seq![r]);
    } else if s[0].created_at < r.created_at {
        assert(s.insert(0, r) =~= seq![r] + s);
    } else {
        let t = s.drop_first();
        lemma_insert_pos(t, r);
        let p = insert_pos(t, r);
        assert(s.insert(p + 1, r) =~= seq![s[0]] + t.insert(p, r));
        assert forall|k: int| 0 <= k < p + 1 implies s[k].created_at >= r.created_at by {
            if k > 0 {
                assert(s[k] == t[k - 1]);
            }
        }
        if p + 1 < s.len() {
            assert(s[p + 1] == t[p]);
        }
    }
}

/// Inserting into a newest-first list keeps it newest first and adds just
/// the one rule.
pub proof fn lemma_insert_newest_first(s: Seq<PrivacyRule>, r: PrivacyRule)
    requires
        is_newest_first(s),
    ensures
        is_newest_first(insert_newest_first(s, r)),
        insert_newest_first(s, r).to_multiset() == s.to_multiset().insert(r),
        insert_newest_first(s, r).len() == s.len() + 1,
{
    broadcast use vstd::seq_lib::group_to_multiset_ensures;
    lemma_insert_pos(s, r);
    let p = insert_pos(s, r);
    let u = s.insert(p, r);
    assert forall|i: int, j: int| 0 <= i < j < u.len() implies u[i].created_at >= u[j].created_at by {
        if j < p {
        } else if j == p {
        } else if i < p {
            assert(u[j] == s[j - 1]);
            if p < s.len() {
                assert(s[p].created_at >= s[j - 1].created_at || p == j - 1);
            }
        } else if i == p {
            assert(u[j] == s[j - 1]);
            assert(s[p].created_at >= s[j - 1].created_at || p == j - 1);
        } else {
            assert(u[i] == s[i - 1]);
            assert(u[j] == s[j - 1]);
        }
    }
}

/// `newest_first` orders the rules newest first and keeps exactly the same
/// rules.
pub proof fn lemma_newest_first(s: Seq<PrivacyRule>)
    ensures
        is_newest_first(newest_first(s)),
        newest_first(s).to_multiset() == s.to_multiset(),
        newest_first(s).len() == s.len(),
    decreases s.len(),
{
    if s.len() > 0 {
        lemma_newest_first(s.drop_last());
        lemma_insert_newest_first(newest_first(s.drop_last()), s.last());
        broadcast use vstd::seq_lib::group_to_multiset_ensures;
        assert(s.drop_last().push(s.last()) =~= s);
    }
}

/// The privacy rule store.
pub struct PrivacyManager {
    rules: Vec<PrivacyRule>,
}

/// `after` is what seeding the defaults turns `before` into: the default rules
/// when `before` is empty, `before` itself otherwise.
pub open spec fn seeded(before: Seq<PrivacyRule>, after: Seq<PrivacyRule>) -> bool {
    if before.len() == 0 {
        is_default_rule_list(after)
    } else {
        after == before
    }
}

/// The kind, pattern and action of the default rules, in order.
pub open spec fn default_rule_specs() -> Seq<(PrivacyRuleType, Seq<char>, PrivacyAction)> {
    seq![
        (PrivacyRuleType::ExcludePath, "**/.ssh/**"@, PrivacyAction::Exclude),
        (PrivacyRuleType::ExcludePath, "**/.gnupg/**"@, PrivacyAction::Exclude),
        (PrivacyRuleType::ExcludePath, "**/.env"@, PrivacyAction::Exclude),
        (PrivacyRuleType::ExcludePath, "**/.env.*"@, PrivacyAction::Exclude),
        (PrivacyRuleType::ExcludePath, "**/passwords/**"@, PrivacyAction::Exclude),
        (PrivacyRuleType::ExcludePath, "**/banking/**"@, PrivacyAction::Exclude),
        (PrivacyRuleType::ExcludeTitle, "*password*"@, PrivacyAction::Exclude),
        (PrivacyRuleType::ExcludeTitle, "*1Password*"@, PrivacyAction::Exclude),
        (PrivacyRuleType::ExcludeTitle, "*KeePass*"@, PrivacyAction::Exclude),
        (PrivacyRuleType::ExcludeTitle, "*Bitwarden*"@, PrivacyAction::Exclude),
        (PrivacyRuleType::ExcludeTitle, "*LastPass*"@, PrivacyAction::Exclude),
        (PrivacyRuleType::ExcludeTitle, "*InPrivate*"@, PrivacyAction::Exclude),
        (PrivacyRuleType::ExcludeTitle, "*Incognito*"@, PrivacyAction::Exclude),
        (PrivacyRuleType::ExcludeTitle, "*Private Browsing*"@, PrivacyAction::Exclude),
        (PrivacyRuleType::ExcludeDomain, "*.bank.com"@, PrivacyAction::Exclude),
        (PrivacyRuleType::ExcludeDomain, "*.bankofamerica.com"@, PrivacyAction::Exclude),
        (PrivacyRuleType::ExcludeDomain, "*.chase.com"@, PrivacyAction::Exclude),
        (PrivacyRuleType::ExcludeDomain, "*.paypal.com"@, PrivacyAction::Exclude),
        (PrivacyRuleType::ExcludeDomain, "*.venmo.com"@, PrivacyAction::Exclude),
    ]
}

/// The rules are the default rules: one per entry of `default_rule_specs`,
/// in that order.
pub open spec fn is_default_rule_list(rules: Seq<PrivacyRule>) -> bool {
    &&& rules.len() == default_rule_specs().len()
    &&& forall|i: int| 0 <= i < rules.len() ==> {
        &&& (#[trigger] rules[i]).rule_type == default_rule_specs()[i].0
        &&& rules[i].pattern@ == default_rule_specs()[i].1
        &&& rules[i].action == default_rule_specs()[i].2
    }
}

fn push_default(v: &mut Vec<PrivacyRule>, t: PrivacyRuleType, p: &str, a: PrivacyAction)
    ensures
        final(v)@.len() == old(v)@.len() + 1,
        forall|i: int| 0 <= i < old(v)@.len() ==> final(v)@[i] == old(v)@[i],
        final(v)@.last().rule_type == t,
        final(v)@.last().pattern@ == p@,
        final(v)@.last().action == a,
{
    v.push(PrivacyRule::new(t, owned(p), a));
}

impl PrivacyManager {
    /// An empty rule store.
    pub fn new() -> (m: PrivacyManager)
        ensures
            m.rules()@.len() == 0,
    {
        PrivacyManager { rules: Vec::new() }
    }

    /// A store holding the given rules (as read back from storage).
    pub fn from_rules(rules: Vec<PrivacyRule>) -> (m: PrivacyManager)
        ensures
            m.rules()@ == rules@,
    {
        PrivacyManager { rules }
    }

    /// The stored rules, in the order they were stored.
    pub closed spec fn rules(&self) -> Vec<PrivacyRule> {
        self.rules
    }

    /// The stored rules, in the order they were stored.
    pub fn stored(&self) -> (r: &Vec<PrivacyRule>)
        ensures
            r@ == self.rules()@,
    {
        &self.rules
    }

    /// Adds a rule of the given kind, pattern and action.
    pub fn add_exclusion(&mut self, rule_type: PrivacyRuleType, pattern: String, action: PrivacyAction)
        ensures
            final(self).rules()@.len() == old(self).rules()@.len() + 1,
            final(self).rules()@.drop_last() == old(self).rules()@,
            final(self).rules()@.last().rule_type == rule_type,
            final(self).rules()@.last().pattern == pattern,
            final(self).rules()@.last().action == action,
    {
        let rule = PrivacyRule::new(rule_type, pattern, action);
        self.rules.push(rule);
        assert(self.rules@.drop_last() =~= old(self).rules@);
    }

    /// Removes every rule with the given id.
    pub fn remove_rule(&mut self, id: &str)
        ensures
            final(self).rules()@ == old(self).rules()@.filter(|r: PrivacyRule| r.id@ != id@),
    {
        let mut kept: Vec<PrivacyRule> = Vec::new();
        let mut i: usize = 0;
        let ghost keep = |r: PrivacyRule| r.id@ != id@;
        assert(self.rules@.take(0).filter(keep) =~= Seq::<PrivacyRule>::empty());
        while i < self.rules.len()
            invariant
                i <= self.rules@.len(),
                self.rules@ == old(self).rules@,
                keep == (|r: PrivacyRule| r.id@ != id@),
                kept@ == self.rules@.take(i as int).filter(keep),
            decreases self.rules@.len() - i,
        {
            let ghost pre = self.rules@.take(i as int);
            assert(self.rules@.take(i + 1) =~= pre.push(self.rules@[i as int]));
            proof {
                pre.lemma_filter_push(self.rules@[i as int], keep);
            }
            if !str_eq(self.rules[i].id.as_str(), id) {
                kept.push(copy_rule(&self.rules[i]));
            }
            i = i + 1;
        }
        assert(self.rules@.take(i as int) =~= self.rules@);
        self.rules = kept;
    }

    /// The stored rules, newest first.
    pub fn list_rules(&self) -> (r: Vec<PrivacyRule>)
        ensures
            r@ == newest_first(self.rules()@),
    {
        let mut out: Vec<PrivacyRule> = Vec::new();
        let mut i: usize = 0;
        while i < self.rules.len()
            invariant
                i <= self.rules@.len(),
                out@ == newest_first(self.rules@.take(i as int)),
            decreases self.rules@.len() - i,
        {
            assert(self.rules@.take(i + 1).drop_last() =~= self.rules@.take(i as int));
            insert_rule(&mut out, copy_rule(&self.rules[i]));
            i = i + 1;
        }
        assert(self.rules@.take(i as int) =~= self.rules@);
        out
    }

    /// Whether a value matches a privacy pattern (see `privacy_match`).
    pub fn matches_pattern(&self, value: &str, pattern: &str) -> (r: bool)
        ensures
            r == privacy_match(value@, pattern@),
    {
        matches_privacy_pattern(value, pattern)
    }

    /// The lowercase hexadecimal `DefaultHasher` hash of a value.
    pub fn hash_value(&self, value: &str) -> (r: String)
        ensures
            r@ == hex(default_hash(value@) as nat),
    {
        string_of(&hex_of(hash_str(value)))
    }

    /// Whether some stored rule excludes the event.
    pub fn should_exclude(&self, event: &Event) -> (r: bool)
        ensures
            r == excluded_by(self.rules()@, *event),
    {
        let mut i: usize = 0;
        while i < self.rules.len()
            invariant
                i <= self.rules@.len(),
                forall|j: int| 0 <= j < i ==> !rule_excludes(#[trigger] self.rules@[j], *event),
            decreases self.rules@.len() - i,
        {
            if self.excludes(&self.rules[i], event) {
                return true;
            }
            i = i + 1;
        }
        false
    }

    fn excludes(&self, rule: &PrivacyRule, event: &Event) -> (r: bool)
        ensures
            r == rule_excludes(*rule, *event),
    {
        match rule.rule_type {
            PrivacyRuleType::ExcludePath => match &event.path {
                Some(p) => matches_privacy_pattern(p.as_str(), rule.pattern.as_str()),
                None => false,
            },
            PrivacyRuleType::ExcludeTitle => match &event.title {
                Some(t) => matches_privacy_pattern(t.as_str(), rule.pattern.as_str()),
                None => false,
            },
            PrivacyRuleType::ExcludeDomain => match event.details.get_str("url") {
                Some(u) => {
                    proof {
                        reveal_strlit("url");
                    }
                    match host_of(u) {
                        Some(h) => {
                            let glob = domain_glob_of(rule.pattern.as_str());
                            matches_privacy_pattern(h.as_str(), glob.as_str())
                        },
                        None => false,
                    }
                },
                None => false,
            },
            PrivacyRuleType::Redaction => false,
        }
    }

    /// Applies the redaction rules, newest first, to the event's title.
    pub fn redact(&self, event: &mut Event)
        ensures
            opt_view(final(event).title) == redacted_title(newest_first(self.rules()@), opt_view(old(event).title)),
            same_but_title(*final(event), *old(event)),
    {
        let rules = self.list_rules();
        let mut i: usize = 0;
        while i < rules.len()
            invariant
                i <= rules@.len(),
                rules@ == newest_first(self.rules()@),
                opt_view(event.title) == redacted_title(rules@.take(i as int), opt_view(old(event).title)),
                same_but_title(*event, *old(event)),
            decreases rules@.len() - i,
        {
            assert(rules@.take(i + 1).drop_last() =~= rules@.take(i as int));
            let rule = &rules[i];
            if rule.rule_type == PrivacyRuleType::Redaction {
                let new_title = match &event.title {
                    Some(t) => if matches_privacy_pattern(t.as_str(), rule.pattern.as_str()) {
                        match rule.action {
                            PrivacyAction::Redact => Some(owned("[REDACTED]")),
                            PrivacyAction::Hash => Some(self.hash_value(t.as_str())),
                            PrivacyAction::Exclude => None,
                        }
                    } else {
                        None
                    },
                    None => None,
                };
                match new_title {
                    Some(nt) => {
                        event.title = Some(nt);
                    },
                    None => {},
                }
            }
            i = i + 1;
        }
        assert(rules@.take(i as int) =~= rules@);
    }

    /// The default rules: path, title and domain exclusions for common secrets.
    pub fn default_rules() -> (r: Vec<PrivacyRule>)
        ensures
            is_default_rule_list(r@),
    {
        let mut v: Vec<PrivacyRule> = Vec::new();
        push_default(&mut v, PrivacyRuleType::ExcludePath, "**/.ssh/**", PrivacyAction::Exclude);
        push_default(&mut v, PrivacyRuleType::ExcludePath, "**/.gnupg/**", PrivacyAction::Exclude);
        push_default(&mut v, PrivacyRuleType::ExcludePath, "**/.env", PrivacyAction::Exclude);
        push_default(&mut v, PrivacyRuleType::ExcludePath, "**/.env.*", PrivacyAction::Exclude);
        push_default(&mut v, PrivacyRuleType::ExcludePath, "**/passwords/**", PrivacyAction::Exclude);
        push_default(&mut v, PrivacyRuleType::ExcludePath, "**/banking/**", PrivacyAction::Exclude);
        push_default(&mut v, PrivacyRuleType::ExcludeTitle, "*password*", PrivacyAction::Exclude);
        push_default(&mut v, PrivacyRuleType::ExcludeTitle, "*1Password*", PrivacyAction::Exclude);
        push_default(&mut v, PrivacyRuleType::ExcludeTitle, "*KeePass*", PrivacyAction::Exclude);
        push_default(&mut v, PrivacyRuleType::ExcludeTitle, "*Bitwarden*", PrivacyAction::Exclude);
        push_default(&mut v, PrivacyRuleType::ExcludeTitle, "*LastPass*", PrivacyAction::Exclude);
        push_default(&mut v, PrivacyRuleType::ExcludeTitle, "*InPrivate*", PrivacyAction::Exclude);
        push_default(&mut v, PrivacyRuleType::ExcludeTitle, "*Incognito*", PrivacyAction::Exclude);
        push_default(&mut v, PrivacyRuleType::ExcludeTitle, "*Private Browsing*", PrivacyAction::Exclude);
        push_default(&mut v, PrivacyRuleType::ExcludeDomain, "*.bank.com", PrivacyAction::Exclude);
        push_default(&mut v, PrivacyRuleType::ExcludeDomain, "*.bankofamerica.com", PrivacyAction::Exclude);
        push_default(&mut v, PrivacyRuleType::ExcludeDomain, "*.chase.com", PrivacyAction::Exclude);
        push_default(&mut v, PrivacyRuleType::ExcludeDomain, "*.paypal.com", PrivacyAction::Exclude);
        push_default(&mut v, PrivacyRuleType::ExcludeDomain, "*.venmo.com", PrivacyAction::Exclude);
        v
    }

    /// Stores the default rules when the store is empty; leaves it alone
    /// otherwise.
    pub fn initialize_default_rules(&mut self)
        ensures
            seeded(old(self).rules()@, final(self).rules()@),
    {
        if self.rules.len() == 0 {
            self.rules = Self::default_rules();
        }
    }
}

/// Seeding the defaults twice is the same as seeding them once: the second
/// time finds the store non-empty and leaves it as it is.
pub proof fn lemma_seeding_idempotent(a: Seq<PrivacyRule>, b: Seq<PrivacyRule>, c: Seq<PrivacyRule>)
    requires
        seeded(a, b),
        seeded(b, c),
    ensures
        c == b,
        a.len() == 0 ==> c.len() == default_rule_specs().len(),
{
}

/// Adding a rule never lets through an event that was excluded before.
pub proof fn lemma_exclusion_monotone(rules: Seq<PrivacyRule>, r: PrivacyRule, e: Event)
    requires
        excluded_by(rules, e),
    ensures
        excluded_by(rules.push(r), e),
{
    let i = choose|i: int| 0 <= i < rules.len() && rule_excludes(#[trigger] rules[i], e);
    assert(rules.push(r)[i] == rules[i]);
}

/// Without rules, nothing is excluded and no title changes.
pub proof fn lemma_no_rules(e: Event, title: Option<Seq<char>>)
    ensures
        !excluded_by(Seq::<PrivacyRule>::empty(), e),
        redacted_title(newest_first(Seq::<PrivacyRule>::empty()), title) == title,
{
}

/// Rules that are not redaction rules never change a title.
pub proof fn lemma_only_redaction_rules_redact(rules: Seq<PrivacyRule>, title: Option<Seq<char>>)
    requires
        forall|i: int| 0 <= i < rules.len() ==> (#[trigger] rules[i]).rule_type != PrivacyRuleType::Redaction,
    ensures
        redacted_title(rules, title) == title,
    decreases rules.len(),
{
    if rules.len() > 0 {
        lemma_only_redaction_rules_redact(rules.drop_last(), title);
        assert(rules.last() == rules[rules.len() - 1]);
    }
}

/// A title only changes when there is one and some rule rewrites it: the
/// first rule to change it still sees the title as it came.
pub proof fn lemma_changed_title_has_a_rule(rules: Seq<PrivacyRule>, title: Option<Seq<char>>)
    ensures
        redacted_title(rules, title) != title ==> (title matches Some(t)
            && exists|i: int| 0 <= i < rules.len() && #[trigger] rewrites(rules[i], t)),
    decreases rules.len(),
{
    if rules.len() > 0 {
        let pre = rules.drop_last();
        lemma_changed_title_has_a_rule(pre, title);
        if redacted_title(rules, title) != title {
            if redacted_title(pre, title) != title {
                let t = title->0;
                let i = choose|i: int| 0 <= i < pre.len() && #[trigger] rewrites(pre[i], t);
                assert(rules[i] == pre[i]);
            } else {
                let t = title->0;
                assert(rewrites(rules[rules.len() - 1], t));
            }
        }
    }
}

/// Redaction rewrites only the title, and a rewritten title had a stored
/// redact or hash rule matching it; with no title, nothing changes.
pub proof fn lemma_redaction_law(m: PrivacyManager, title: Option<Seq<char>>)
    ensures
        redacted_title(newest_first(m.rules()@), title) != title ==> (title matches Some(t)
            && exists|i: int| 0 <= i < m.rules()@.len() && #[trigger] rewrites(m.rules()@[i], t)),
        title is None ==> redacted_title(newest_first(m.rules()@), title) is None,
{
    let s = m.rules()@;
    let n = newest_first(s);
    lemma_newest_first(s);
    lemma_changed_title_has_a_rule(n, title);
    lemma_none_stays_none(n);
    if redacted_title(n, title) != title {
        let t = title->0;
        let i = choose|i: int| 0 <= i < n.len() && #[trigger] rewrites(n[i], t);
        n.to_multiset_ensures();
        s.to_multiset_ensures();
        assert(n.contains(n[i]));
        assert(n.to_multiset().count(n[i]) > 0);
        assert(s.contains(n[i]));
        let j = choose|j: int| 0 <= j < s.len() && s[j] == n[i];
        assert(rewrites(s[j], t));
    }
}

/// A matching hash rule replaces a title with the hexadecimal hash of that
/// very title, and a matching redact rule with `[REDACTED]`.
pub proof fn lemma_hash_rule_hashes_the_title(rule: PrivacyRule, t: Seq<char>)
    requires
        rule.rule_type == PrivacyRuleType::Redaction,
        privacy_match(t, rule.pattern@),
    ensures
        rule.action == PrivacyAction::Hash ==> redact_step(rule, Some(t)) == Some(hex(default_hash(t) as nat)),
        rule.action == PrivacyAction::Redact ==> redact_step(rule, Some(t)) == Some("[REDACTED]"@),
{
}

/// Under a manager whose one stored rule is a hash rule matching a title,
/// redaction turns that title into the hexadecimal hash of the title
/// itself.
pub proof fn lemma_single_hash_rule(m: PrivacyManager, t: Seq<char>)
    requires
        m.rules()@.len() == 1,
        m.rules()@[0].rule_type == PrivacyRuleType::Redaction,
        m.rules()@[0].action == PrivacyAction::Hash,
        privacy_match(t, m.rules()@[0].pattern@),
    ensures
        redacted_title(newest_first(m.rules()@), Some(t)) == Some(hex(default_hash(t) as nat)),
{
    broadcast use vstd::seq_lib::group_to_multiset_ensures;
    let s = m.rules()@;
    let n = newest_first(s);
    lemma_newest_first(s);
    assert(n.to_multiset().count(n[0]) > 0);
    assert(s.to_multiset().count(n[0]) > 0);
    assert(s.contains(n[0]));
    assert(n[0] == s[0]);
    assert(n.drop_last().len() == 0);
    assert(redacted_title(n.drop_last(), Some(t)) == Some(t));
}

/// No title stays no title.
proof fn lemma_none_stays_none(rules: Seq<PrivacyRule>)
    ensures
        redacted_title(rules, None) is None,
    decreases rules.len(),
{
    if rules.len() > 0 {
        lemma_none_stays_none(rules.drop_last());
    }
}

/// `list_rules` gives every stored rule once, newest first.
pub proof fn lemma_list_rules(m: PrivacyManager)
    ensures
        is_newest_first(newest_first(m.rules()@)),
        newest_first(m.rules()@).to_multiset() == m.rules()@.to_multiset(),
{
    lemma_newest_first(m.rules()@);
}

} // verus!
