//! The normalization pipeline: raw collector events become canonical events,
//! filtered and redacted by privacy rules, with their entities and project.

use vstd::prelude::*;
use crate::json::Json;
use crate::names::{EntityType, EventType, PrivacyAction, PrivacyRuleType};
use crate::paths::{file_name_text, parent_text, path_file_name, path_parent};
use crate::pattern::{host_of, matches_pipeline_pattern, pipeline_match, url_host};
use crate::privacy::{copy_rule, opt_view};
use crate::schema::{Entity, Event, PrivacyRule, RawEvent, event_hash};
use crate::text::{chars_of, contains, contains_seq, default_hash, find, first_occurrence, hash_str,
    hex, hex_of, lowercase, owned, push_str, slice_chars, str_eq, string_of, to_lowercase, trim, trimmed};

verus! {

/// The event type a raw event stands for, by its source (and, for file
/// activity, by the `action` in its payload).
pub open spec fn event_type_for(raw: RawEvent) -> EventType {
    let src = raw.source@;
    if src == "window_focus"@ {
        EventType::WindowFocus
    } else if src == "process_launch"@ {
        EventType::ProcessStart
    } else if src == "browser_history"@ {
        EventType::BrowserVisit
    } else if src == "shell_activity"@ {
        EventType::ShellCommand
    } else if src == "file_activity"@ {
        match raw.payload.str_field("action"@) {
            Some(a) => if a == "create"@ {
                EventType::FileCreate
            } else if a == "modify"@ {
                EventType::FileModify
            } else if a == "delete"@ {
                EventType::FileDelete
            } else if a == "rename"@ {
                EventType::FileRename
            } else {
                EventType::SystemEvent
            },
            None => EventType::SystemEvent,
        }
    } else {
        EventType::SystemEvent
    }
}

/// A file change becomes the event type named after its action: `create`,
/// `modify`, `delete` and `rename` give `file_create`, `file_modify`,
/// `file_delete` and `file_rename`.
pub proof fn lemma_file_action_type(raw: RawEvent)
    requires
        raw.source@ == "file_activity"@,
        raw.payload.str_field("action"@) matches Some(a)
            && (a == "create"@ || a == "modify"@ || a == "delete"@ || a == "rename"@),
    ensures
        event_type_for(raw).name() == "file_"@ + raw.payload.str_field("action"@)->0,
{
    reveal_strlit("file_activity");
    reveal_strlit("window_focus");
    reveal_strlit("process_launch");
    reveal_strlit("browser_history");
    reveal_strlit("shell_activity");
    reveal_strlit("create");
    reveal_strlit("modify");
    reveal_strlit("delete");
    reveal_strlit("rename");
    reveal_strlit("file_");
    reveal_strlit("file_create");
    reveal_strlit("file_modify");
    reveal_strlit("file_delete");
    reveal_strlit("file_rename");
    let a = raw.payload.str_field("action"@)->0;
    assert("file_"@ + "create"@ =~= "file_create"@);
    assert("file_"@ + "modify"@ =~= "file_modify"@);
    assert("file_"@ + "delete"@ =~= "file_delete"@);
    assert("file_"@ + "rename"@ =~= "file_rename"@);
    assert(raw.source@[0] != "window_focus"@[0]);
    assert(raw.source@[0] != "process_launch"@[0]);
    assert(raw.source@[0] != "browser_history"@[0]);
    assert(raw.source@[0] != "shell_activity"@[0]);
    if a == "create"@ {
        assert(event_type_for(raw) == EventType::FileCreate);
    } else if a == "modify"@ {
        assert("modify"@ != "create"@);
        assert(event_type_for(raw) == EventType::FileModify);
    } else if a == "delete"@ {
        assert("delete"@ != "create"@ && "delete"@ != "modify"@);
        assert(event_type_for(raw) == EventType::FileDelete);
    } else {
        assert("rename"@ != "create"@ && "rename"@ != "modify"@ && "rename"@ != "delete"@);
        assert(event_type_for(raw) == EventType::FileRename);
    }
}

/// Each collector's events get that collector's type: window focus,
/// process starts, browser visits and shell commands; any other source
/// but file activity gives a system event.
pub proof fn lemma_source_types(raw: RawEvent)
    ensures
        raw.source@ == "window_focus"@ ==> event_type_for(raw) == EventType::WindowFocus,
        raw.source@ == "process_launch"@ ==> event_type_for(raw) == EventType::ProcessStart,
        raw.source@ == "browser_history"@ ==> event_type_for(raw) == EventType::BrowserVisit,
        raw.source@ == "shell_activity"@ ==> event_type_for(raw) == EventType::ShellCommand,
        raw.source@ != "window_focus"@ && raw.source@ != "process_launch"@ && raw.source@ != "browser_history"@
            && raw.source@ != "shell_activity"@ && raw.source@ != "file_activity"@
            ==> event_type_for(raw) == EventType::SystemEvent,
{
    reveal_strlit("window_focus");
    reveal_strlit("process_launch");
    reveal_strlit("browser_history");
    reveal_strlit("shell_activity");
    if raw.source@ == "process_launch"@ {
        assert(raw.source@[0] != "window_focus"@[0]);
    }
    if raw.source@ == "browser_history"@ {
        assert(raw.source@[0] != "window_focus"@[0]);
        assert(raw.source@[0] != "process_launch"@[0]);
    }
    if raw.source@ == "shell_activity"@ {
        assert(raw.source@[0] != "window_focus"@[0]);
        assert(raw.source@[0] != "process_launch"@[0]);
        assert(raw.source@[0] != "browser_history"@[0]);
    }
}

/// Each file action has its own event type: file changes with two different
/// actions among `create`, `modify`, `delete` and `rename` get two
/// different types.
pub proof fn lemma_file_actions_differ(r1: RawEvent, r2: RawEvent)
    requires
        r1.source@ == "file_activity"@,
        r2.source@ == "file_activity"@,
        r1.payload.str_field("action"@) matches Some(a)
            && (a == "create"@ || a == "modify"@ || a == "delete"@ || a == "rename"@),
        r2.payload.str_field("action"@) matches Some(a)
            && (a == "create"@ || a == "modify"@ || a == "delete"@ || a == "rename"@),
        r1.payload.str_field("action"@) != r2.payload.str_field("action"@),
    ensures
        event_type_for(r1) != event_type_for(r2),
{
    lemma_file_action_type(r1);
    lemma_file_action_type(r2);
    let a1 = r1.payload.str_field("action"@)->0;
    let a2 = r2.payload.str_field("action"@)->0;
    reveal_strlit("file_");
    if event_type_for(r1) == event_type_for(r2) {
        assert(("file_"@ + a1).skip(5) =~= a1);
        assert(("file_"@ + a2).skip(5) =~= a2);
    }
}

/// A matching hash rule of the pipeline replaces a title with the
/// hexadecimal hash of that very title, and a matching redact rule with
/// `[REDACTED]`.
pub proof fn lemma_pipeline_hash_rewrites_title(rule: PrivacyRule, t: Seq<char>)
    requires
        rule.rule_type == PrivacyRuleType::Redaction,
        pipeline_match(t, rule.pattern@),
    ensures
        rule.action == PrivacyAction::Hash ==> pipeline_redact_step(rule, Some(t)) == Some(hex(default_hash(t) as nat)),
        rule.action == PrivacyAction::Redact ==> pipeline_redact_step(rule, Some(t)) == Some("[REDACTED]"@),
{
}

/// The URL kept in an event's details: the payload's `url`, unless the
/// payload also has a `command`, whose details replace it.
pub open spec fn details_url(raw: RawEvent) -> Option<Seq<char>> {
    if raw.payload.str_field("command"@) is Some {
        None
    } else {
        raw.payload.str_field("url"@)
    }
}

/// The details an event gets: `{"command": ..}` when the payload has a
/// command, else `{"url": ..}` when it has a URL, else an empty object.
pub open spec fn details_fit(raw: RawEvent, d: Json) -> bool {
    match raw.payload.str_field("command"@) {
        Some(c) => d matches Json::Object(m) && m@.len() == 1 && m@[0].0@ == "command"@ && m@[0].1.text() == Some(c),
        None => match raw.payload.str_field("url"@) {
            Some(u) => d matches Json::Object(m) && m@.len() == 1 && m@[0].0@ == "url"@ && m@[0].1.text() == Some(u),
            None => d matches Json::Object(m) && m@.len() == 0,
        },
    }
}

/// A pipeline rule excludes an event with the given path, title and URL:
/// the whole value (the full URL for domain rules) must match the glob.
pub open spec fn pipeline_rule_excludes(rule: PrivacyRule, path: Option<Seq<char>>, title: Option<Seq<char>>,
    url: Option<Seq<char>>) -> bool {
    match rule.rule_type {
        PrivacyRuleType::ExcludePath => path matches Some(p) && pipeline_match(p, rule.pattern@),
        PrivacyRuleType::ExcludeTitle => title matches Some(t) && pipeline_match(t, rule.pattern@),
        PrivacyRuleType::ExcludeDomain => url matches Some(u) && pipeline_match(u, rule.pattern@),
        PrivacyRuleType::Redaction => false,
    }
}

/// Some loaded rule excludes the raw event.
pub open spec fn raw_excluded(rules: Seq<PrivacyRule>, raw: RawEvent) -> bool {
    exists|i: int| 0 <= i < rules.len() && pipeline_rule_excludes(#[trigger] rules[i],
        raw.payload.str_field("path"@), raw.payload.str_field("window_title"@), details_url(raw))
}

/// A title under one pipeline redaction rule.
pub open spec fn pipeline_redact_step(rule: PrivacyRule, title: Option<Seq<char>>) -> Option<Seq<char>> {
    match title {
        Some(t) => if rule.rule_type == PrivacyRuleType::Redaction && pipeline_match(t, rule.pattern@) {
            match rule.action {
                PrivacyAction::Redact => Some("[REDACTED]"@),
                PrivacyAction::Hash => Some(hex(default_hash(t) as nat)),
                PrivacyAction::Exclude => title,
            }
        } else {
            title
        },
        None => None,
    }
}

/// A title after every loaded rule, in order.
pub open spec fn pipeline_redacted(rules: Seq<PrivacyRule>, title: Option<Seq<char>>) -> Option<Seq<char>>
    decreases rules.len(),
{
    if rules.len() == 0 {
        title
    } else {
        pipeline_redact_step(rules.last(), pipeline_redacted(rules.drop_last(), title))
    }
}

/// A path may name a project: lowercased, it mentions `.git` or `src`.
pub open spec fn path_may_name_project(path: Seq<char>) -> bool {
    contains_seq(lowercase(path), ".git"@) || contains_seq(lowercase(path), "src"@)
}

/// The project a window title names: the trimmed text before the first
/// ` - `, when there is one.
pub open spec fn title_project(title: Option<Seq<char>>) -> Option<Seq<char>> {
    match title {
        Some(t) => match first_occurrence(t, " - "@) {
            Some(i) => Some(trimmed(t.take(i))),
            None => None,
        },
        None => None,
    }
}

/// The project a path names: for a path that may name a project, the file
/// name of its parent directory, when it has one.
pub open spec fn path_project(path: Seq<char>) -> Option<Seq<char>> {
    if path_may_name_project(path) {
        match parent_text(path) {
            Some(q) => file_name_text(q),
            None => None,
        }
    } else {
        None
    }
}

/// The project an optional path names.
pub open spec fn opt_path_project(path: Option<Seq<char>>) -> Option<Seq<char>> {
    match path {
        Some(p) => path_project(p),
        None => None,
    }
}

/// An event's project: the one its path names, failing that the one its
/// title names.
pub open spec fn inferred_project(path: Option<Seq<char>>, title: Option<Seq<char>>) -> Option<Seq<char>> {
    match opt_path_project(path) {
        Some(n) => Some(n),
        None => title_project(title),
    }
}

/// Canonical event with the entities found in it.
pub struct Normalized {
    pub event: Event,
    pub entities: Vec<Entity>,
}

/// The entities an event mentions, in order: its app, the project its path
/// names, the domain of its URL.
pub open spec fn entities_fit(ents: Seq<Entity>, app: Option<Seq<char>>, path_project: Option<Seq<char>>,
    domain: Option<Seq<char>>) -> bool {
    let want = (if app is Some { seq![(EntityType::App, app->0)] } else { Seq::empty() })
        + (if path_project is Some { seq![(EntityType::Project, path_project->0)] } else { Seq::empty() })
        + (if domain is Some { seq![(EntityType::Domain, domain->0)] } else { Seq::empty() });
    &&& ents.len() == want.len()
    &&& forall|i: int| 0 <= i < ents.len() ==> (#[trigger] ents[i]).entity_type == want[i].0
        && ents[i].name@ == want[i].1 && ents[i].occurrence_count == 1
}

/// Turns raw collector events into canonical events.
pub struct Normalizer {
    privacy_rules: Vec<PrivacyRule>,
}

impl Normalizer {
    /// A normalizer with no privacy rules.
    pub fn new() -> (n: Normalizer)
        ensures
            n.rules()@.len() == 0,
    {
        Normalizer { privacy_rules: Vec::new() }
    }

    /// The loaded privacy rules.
    pub closed spec fn rules(&self) -> Vec<PrivacyRule> {
        self.privacy_rules
    }

    /// Replaces the loaded privacy rules (as read from storage, in order).
    pub fn load_privacy_rules(&mut self, rules: Vec<PrivacyRule>)
        ensures
            final(self).rules()@ == rules@,
    {
        self.privacy_rules = rules;
    }

    /// The event type for a raw event (see `event_type_for`).
    pub fn event_type_of(raw: &RawEvent) -> (t: EventType)
        ensures
            t == event_type_for(*raw),
    {
        proof {
            reveal_strlit("action");
        }
        let src = raw.source.as_str();
        if str_eq(src, "window_focus") {
            EventType::WindowFocus
        } else if str_eq(src, "process_launch") {
            EventType::ProcessStart
        } else if str_eq(src, "browser_history") {
            EventType::BrowserVisit
        } else if str_eq(src, "shell_activity") {
            EventType::ShellCommand
        } else if str_eq(src, "file_activity") {
            match raw.payload.get_str("action") {
                Some(a) => if str_eq(a, "create") {
                    EventType::FileCreate
                } else if str_eq(a, "modify") {
                    EventType::FileModify
                } else if str_eq(a, "delete") {
                    EventType::FileDelete
                } else if str_eq(a, "rename") {
                    EventType::FileRename
                } else {
                    EventType::SystemEvent
                },
                None => EventType::SystemEvent,
            }
        } else {
            EventType::SystemEvent
        }
    }

    /// Parses a raw event into a canonical event: type, time, title, app,
    /// path, details and the reference to the raw event.
    pub fn parse_raw_event(&self, raw: &RawEvent) -> (e: Event)
        ensures
            e.source == raw.source,
            e.event_type == event_type_for(*raw),
            e.ts_utc == raw.timestamp,
            opt_view(e.title) == raw.payload.str_field("window_title"@),
            opt_view(e.app) == raw.payload.str_field("process_name"@),
            opt_view(e.path) == raw.payload.str_field("path"@),
            details_fit(*raw, e.details),
            e.details.str_field("url"@) == details_url(*raw),
            opt_view(e.raw_ref) == Some(raw.id@),
            e.project_key is None && e.hash is None && e.session_id is None,
    {
        proof {
            reveal_strlit("window_title");
            reveal_strlit("process_name");
            reveal_strlit("path");
            reveal_strlit("url");
            reveal_strlit("command");
        }
        let mut event = Event::new(raw.source.clone(), Self::event_type_of(raw));
        event.ts_utc = raw.timestamp;
        event.ts_local = crate::clock::local_now_millis();
        match raw.payload.get_str("window_title") {
            Some(t) => {
                event.title = Some(owned(t));
            },
            None => {},
        }
        match raw.payload.get_str("process_name") {
            Some(n) => {
                event.app = Some(owned(n));
            },
            None => {},
        }
        match raw.payload.get_str("path") {
            Some(p) => {
                event.path = Some(owned(p));
            },
            None => {},
        }
        match raw.payload.get_str("url") {
            Some(u) => {
                event.details = single_field("url", u);
            },
            None => {},
        }
        match raw.payload.get_str("command") {
            Some(c) => {
                event.details = single_field("command", c);
            },
            None => {},
        }
        event.raw_ref = Some(raw.id.clone());
        proof {
            assert(crate::json::member(Seq::<(String, Json)>::empty(), "url"@) is None);
            assert("command"@.len() != "url"@.len());
        }
        event
    }

    fn rule_excludes(&self, rule: &PrivacyRule, event: &Event) -> (r: bool)
        ensures
            r == pipeline_rule_excludes(*rule, opt_view(event.path), opt_view(event.title),
                event.details.str_field("url"@)),
    {
        match rule.rule_type {
            PrivacyRuleType::ExcludePath => match &event.path {
                Some(p) => matches_pipeline_pattern(p.as_str(), rule.pattern.as_str()),
                None => false,
            },
            PrivacyRuleType::ExcludeTitle => match &event.title {
                Some(t) => matches_pipeline_pattern(t.as_str(), rule.pattern.as_str()),
                None => false,
            },
            PrivacyRuleType::ExcludeDomain => {
                proof {
                    reveal_strlit("url");
                }
                match event.details.get_str("url") {
                    Some(u) => matches_pipeline_pattern(u, rule.pattern.as_str()),
                    None => false,
                }
            },
            PrivacyRuleType::Redaction => false,
        }
    }

    /// Whether some loaded rule excludes the event.
    pub fn should_exclude(&self, event: &Event) -> (r: bool)
        ensures
            r == exists|i: int| 0 <= i < self.rules()@.len() && pipeline_rule_excludes(#[trigger] self.rules()@[i],
                opt_view(event.path), opt_view(event.title), event.details.str_field("url"@)),
    {
        let mut i: usize = 0;
        while i < self.privacy_rules.len()
            invariant
                i <= self.privacy_rules@.len(),
                forall|j: int| 0 <= j < i ==> !pipeline_rule_excludes(#[trigger] self.privacy_rules@[j],
                    opt_view(event.path), opt_view(event.title), event.details.str_field("url"@)),
            decreases self.privacy_rules@.len() - i,
        {
            if self.rule_excludes(&self.privacy_rules[i], event) {
                assert(pipeline_rule_excludes(self.rules()@[i as int], opt_view(event.path), opt_view(event.title),
                    event.details.str_field("url"@)));
                return true;
            }
            i = i + 1;
        }
        false
    }

    /// The lowercase hexadecimal `DefaultHasher` hash of a value.
    pub fn hash_value(&self, value: &str) -> (r: String)
        ensures
            r@ == hex(default_hash(value@) as nat),
    {
        string_of(&hex_of(hash_str(value)))
    }

    /// Applies the loaded redaction rules, in order, to the event's title.
    pub fn apply_privacy_rules(&self, event: &mut Event)
        ensures
            opt_view(final(event).title) == pipeline_redacted(self.rules()@, opt_view(old(event).title)),
            final(event).path == old(event).path,
            final(event).app == old(event).app,
            final(event).details == old(event).details,
            final(event).source == old(event).source,
            final(event).event_type == old(event).event_type,
            final(event).ts_utc == old(event).ts_utc,
            final(event).raw_ref == old(event).raw_ref,
            final(event).project_key == old(event).project_key,
    {
        let mut i: usize = 0;
        while i < self.privacy_rules.len()
            invariant
                i <= self.privacy_rules@.len(),
                opt_view(event.title) == pipeline_redacted(self.privacy_rules@.take(i as int), opt_view(old(event).title)),
                event.path == old(event).path,
                event.app == old(event).app,
                event.details == old(event).details,
                event.source == old(event).source,
                event.event_type == old(event).event_type,
                event.ts_utc == old(event).ts_utc,
                event.raw_ref == old(event).raw_ref,
                event.project_key == old(event).project_key,
            decreases self.privacy_rules@.len() - i,
        {
            assert(self.privacy_rules@.take(i + 1).drop_last() =~= self.privacy_rules@.take(i as int));
            let rule = &self.privacy_rules[i];
            if rule.rule_type == PrivacyRuleType::Redaction {
                let new_title = match &event.title {
                    Some(t) => if matches_pipeline_pattern(t.as_str(), rule.pattern.as_str()) {
                        match rule.action {
                            PrivacyAction::Redact => Some(owned("[REDACTED]")),
                            PrivacyAction::Hash => Some(self.hash_value(t.as_str())),
                            PrivacyAction::Exclude => None,
                        }
                    } else {
                        None
                    },
                    None => None,
                };
                match new_title {
                    Some(nt) => {
                        event.title = Some(nt);
                    },
                    None => {},
                }
            }
            i = i + 1;
        }
        assert(self.privacy_rules@.take(i as int) =~= self.privacy_rules@);
    }

    /// The project a file path names: the name of the path's parent
    /// directory, for a path that mentions `.git` or `src`.
    pub fn extract_project_from_path(&self, path: &str) -> (r: Option<String>)
        ensures
            opt_view(r) == path_project(path@),
    {
        let lower = to_lowercase(path);
        let lv = chars_of(lower.as_str());
        let git = chars_of(".git");
        let src = chars_of("src");
        if contains(&lv, &git) || contains(&lv, &src) {
            match path_parent(path) {
                Some(parent) => path_file_name(parent.as_str()),
                None => None,
            }
        } else {
            None
        }
    }

    /// The project a window title names (see `title_project`).
    pub fn extract_project_from_title(&self, title: &str) -> (r: Option<String>)
        ensures
            opt_view(r) == title_project(Some(title@)),
    {
        let tv = chars_of(title);
        let sep = chars_of(" - ");
        match find(&tv, &sep) {
            Some(i) => {
                let head = slice_chars(&tv, 0, i);
                assert(head@ =~= title@.take(i as int));
                let hs = string_of(&head);
                Some(owned(trim(hs.as_str())))
            },
            None => None,
        }
    }

    /// The host of a URL (see `url_host`).
    pub fn extract_domain_from_url(&self, url: &str) -> (r: Option<String>)
        ensures
            opt_view(r) == url_host(url@),
    {
        host_of(url)
    }

    /// The event's project: from its path when the path names one, else
    /// from its title.
    pub fn infer_project_key(&self, event: &Event) -> (r: Option<String>)
        ensures
            opt_view(r) == inferred_project(opt_view(event.path), opt_view(event.title)),
    {
        match &event.path {
            Some(p) => match self.extract_project_from_path(p.as_str()) {
                Some(name) => {
                    return Some(name);
                },
                None => {},
            },
            None => {},
        }
        match &event.title {
            Some(t) => self.extract_project_from_title(t.as_str()),
            None => None,
        }
    }

    /// The entities an event mentions: its app, the project its path names
    /// and the host of its URL.
    pub fn extract_entities(&self, event: &Event) -> (r: Vec<Entity>)
        ensures
            entities_fit(r@, opt_view(event.app), opt_path_project(opt_view(event.path)), url_host_of(event.details)),
    {
        let mut v: Vec<Entity> = Vec::new();
        let ghost mut want: Seq<(EntityType, Seq<char>)> = Seq::empty();
        match &event.app {
            Some(a) => {
                v.push(Entity::new(EntityType::App, a.clone()));
            },
            None => {},
        }
        let mut pp: Option<String> = None;
        match &event.path {
            Some(p) => {
                pp = self.extract_project_from_path(p.as_str());
                match &pp {
                    Some(name) => {
                        v.push(Entity::new(EntityType::Project, name.clone()));
                    },
                    None => {},
                }
            },
            None => {},
        }
        proof {
            reveal_strlit("url");
        }
        let dom = match event.details.get_str("url") {
            Some(u) => self.extract_domain_from_url(u),
            None => None,
        };
        match &dom {
            Some(d) => {
                v.push(Entity::new(EntityType::Domain, d.clone()));
            },
            None => {},
        }
        assert(entities_fit(v@, opt_view(event.app), opt_view(pp), url_host_of(event.details)));
        v
    }

    /// Normalizes a raw event: parses it, drops it when a rule excludes it,
    /// redacts its title, finds its entities and project and stamps its
    /// deduplication hash. `None` means the event was excluded.
    pub fn process_raw_event(&self, raw: &RawEvent) -> (r: Option<Normalized>)
        ensures
            r is None <==> raw_excluded(self.rules()@, *raw),
            r matches Some(n) ==> {
                let e = n.event;
                let title = pipeline_redacted(self.rules()@, raw.payload.str_field("window_title"@));
                &&& e.source == raw.source
                &&& e.event_type == event_type_for(*raw)
                &&& e.ts_utc == raw.timestamp
                &&& opt_view(e.title) == title
                &&& opt_view(e.app) == raw.payload.str_field("process_name"@)
                &&& opt_view(e.path) == raw.payload.str_field("path"@)
                &&& details_fit(*raw, e.details)
                &&& opt_view(e.raw_ref) == Some(raw.id@)
                &&& opt_view(e.project_key) == inferred_project(opt_view(e.path), title)
                &&& opt_view(e.hash) == Some(hex(event_hash(e) as nat))
                &&& entities_fit(n.entities@, opt_view(e.app), opt_path_project(opt_view(e.path)), url_host_of(e.details))
            },
    {
        let mut event = self.parse_raw_event(raw);
        if self.should_exclude(&event) {
            return None;
        }
        assert(!raw_excluded(self.rules()@, *raw)) by {
            if raw_excluded(self.rules()@, *raw) {
                let i = choose|i: int| 0 <= i < self.rules()@.len() && pipeline_rule_excludes(#[trigger] self.rules()@[i],
                    raw.payload.str_field("path"@), raw.payload.str_field("window_title"@), details_url(*raw));
                assert(pipeline_rule_excludes(self.rules()@[i], opt_view(event.path), opt_view(event.title),
                    event.details.str_field("url"@)));
            }
        }
        self.apply_privacy_rules(&mut event);
        let entities = self.extract_entities(&event);
        let ghost before = event;
        event.project_key = self.infer_project_key(&event);
        event.hash = Some(event.generate_hash());
        assert(event_hash(event) == event_hash(before));
        assert(url_host_of(event.details) == url_host_of(before.details));
        assert(event.source == raw.source);
        assert(event.event_type == event_type_for(*raw));
        assert(event.ts_utc == raw.timestamp);
        assert(opt_view(event.title) == pipeline_redacted(self.rules()@, raw.payload.str_field("window_title"@)));
        assert(opt_view(event.app) == raw.payload.str_field("process_name"@));
        assert(opt_view(event.path) == raw.payload.str_field("path"@));
        assert(details_fit(*raw, event.details));
        assert(opt_view(event.raw_ref) == Some(raw.id@));
        assert(opt_view(event.project_key) == inferred_project(opt_view(event.path), opt_view(event.title)));
        assert(opt_view(event.hash) == Some(hex(event_hash(event) as nat)));
        let r = Normalized { event, entities };
        assert(entities_fit(r.entities@, opt_view(r.event.app), opt_path_project(opt_view(r.event.path)),
            url_host_of(r.event.details)));
        Some(r)
    }
}

/// The host of the `url` in an event's details, if any.
pub open spec fn url_host_of(details: Json) -> Option<Seq<char>> {
    match details.str_field("url"@) {
        Some(u) => url_host(u),
        None => None,
    }
}

fn single_field(key: &str, value: &str) -> (j: Json)
    ensures
        j matches Json::Object(m) && m@.len() == 1 && m@[0].0@ == key@ && m@[0].1.text() == Some(value@),
        j.str_field(key@) == Some(value@),
        forall|k: Seq<char>| k != key@ ==> #[trigger] j.field(k) is None,
{
    let mut m: Vec<(String, Json)> = Vec::new();
    m.push((owned(key), Json::Str(owned(value))));
    let j = Json::Object(m);
    assert(m@[0].0@ == key@);
    assert forall|k: Seq<char>| k != key@ implies #[trigger] j.field(k) is None by {
        assert(m@.drop_first().len() == 0);
        assert(crate::json::member(m@.drop_first(), k) is None);
    }
    j
}

} // verus!
