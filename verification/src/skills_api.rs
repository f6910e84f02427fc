//! The dashboard's skill-management endpoints: what each request is
//! answered, and how the list of disabled skills changes. Installing,
//! removing and searching skills, and saving the configuration, are the
//! caller's part.

use vstd::prelude::*;
use vstd::string::StrSliceExecFns;
use crate::json::{Json, JsonValue};
use crate::paths::{is_verbatim, joined, path_join, plain_name};
use crate::notion_sync::{opt_text_json, opt_text_value, tags_value, text_json};
use crate::text::{owned, push_str, str_eq, string_of, trim, trimmed};

verus! {

/// The body of an install request: `clawhub:<slug>`, a clawhub URL, a git
/// URL or a local path.
pub struct InstallBody {
    pub source: String,
}

/// The query of a registry search.
pub struct SearchQuery {
    pub q: String,
}

/// An HTTP answer: a status code and a JSON body.
#[derive(Debug, Clone)]
pub struct ApiResponse {
    pub status: u16,
    pub body: Json,
}

/// How a background task ended: with the operation's result, or by failing
/// to run at all.
pub enum TaskOutcome<T> {
    Finished(Result<T, String>),
    Crashed(String),
}

/// A body with one member.
pub open spec fn one_member(key: Seq<char>, v: JsonValue) -> JsonValue {
    JsonValue::Object(seq![(key, v)])
}

/// An error body.
pub open spec fn error_body(msg: Seq<char>) -> JsonValue {
    one_member("error"@, JsonValue::Str(msg))
}

fn error_response(status: u16, msg: Vec<char>) -> (r: ApiResponse)
    ensures
        r.status == status,
        r.body.value() == error_body(msg@),
{
    let mut m: Vec<(String, Json)> = Vec::new();
    m.push((owned("error"), Json::Str(string_of(&msg))));
    let body = Json::Object(m);
    proof {
        reveal_with_fuel(Json::value, 2);
        assert(body.value()->Object_0 =~= error_body(msg@)->Object_0);
    }
    ApiResponse { status, body }
}

fn prefixed(prefix: &str, rest: &str) -> (r: Vec<char>)
    ensures
        r@ == prefix@ + rest@,
{
    let mut v: Vec<char> = Vec::new();
    push_str(&mut v, prefix);
    push_str(&mut v, rest);
    v
}

/// The skills directory of a workspace: `skills` in it.
pub fn workspace_skills_dir(workspace_dir: &str) -> (r: String)
    ensures
        !is_verbatim(workspace_dir@) ==> joined(workspace_dir@, "skills"@, r@),
{
    proof {
        reveal_strlit("skills");
        assert(plain_name("skills"@));
    }
    path_join(workspace_dir, "skills")
}

/// The source to install: the trimmed source, or a 400 answer when it is
/// blank.
pub fn install_source(body: &InstallBody) -> (r: Result<String, ApiResponse>)
    ensures
        match r {
            Ok(s) => s@ == trimmed(body.source@) && s@.len() > 0,
            Err(e) => trimmed(body.source@).len() == 0 && e.status == 400
                && e.body.value() == error_body("source is required"@),
        },
{
    let t = trim(body.source.as_str());
    if t.unicode_len() == 0 {
        let mut m: Vec<char> = Vec::new();
        push_str(&mut m, "source is required");
        return Err(error_response(400, m));
    }
    Ok(owned(t))
}

/// The answer to an install: 200 with the installed path and the number of
/// files scanned; 400 when the install failed; 500 when its task failed.
pub fn install_response(outcome: TaskOutcome<(String, u64)>) -> (r: ApiResponse)
    ensures
        match outcome {
            TaskOutcome::Finished(Ok((path, files))) => r.status == 200 && r.body.value() == JsonValue::Object(seq![
                ("status"@, JsonValue::Str("ok"@)),
                ("installed_path"@, JsonValue::Str(path@)),
                ("files_scanned"@, JsonValue::Number(files as int)),
            ]),
            TaskOutcome::Finished(Err(e)) => r.status == 400 && r.body.value() == error_body("install failed: "@ + e@),
            TaskOutcome::Crashed(e) => r.status == 500 && r.body.value() == error_body("install task failed: "@ + e@),
        },
{
    match outcome {
        TaskOutcome::Finished(Ok((path, files))) => {
            let ghost pv = path@;
            let mut m: Vec<(String, Json)> = Vec::new();
            m.push((owned("status"), Json::Str(owned("ok"))));
            m.push((owned("installed_path"), Json::Str(path)));
            m.push((owned("files_scanned"), Json::Number(files as i128)));
            let body = Json::Object(m);
            proof {
                reveal_with_fuel(Json::value, 2);
                assert(body.value()->Object_0 =~= seq![
                    ("status"@, JsonValue::Str("ok"@)),
                    ("installed_path"@, JsonValue::Str(pv)),
                    ("files_scanned"@, JsonValue::Number(files as int)),
                ]);
            }
            ApiResponse { status: 200, body }
        },
        TaskOutcome::Finished(Err(e)) => error_response(400, prefixed("install failed: ", e.as_str())),
        TaskOutcome::Crashed(e) => error_response(500, prefixed("install task failed: ", e.as_str())),
    }
}

/// The list without `id`.
pub open spec fn without(list: Seq<String>, id: Seq<char>) -> Seq<Seq<char>>
    decreases list.len(),
{
    if list.len() == 0 {
        Seq::empty()
    } else {
        without(list.drop_last(), id) + (if list.last()@ == id { Seq::empty() } else { seq![list.last()@] })
    }
}

/// Whether `id` is in the list.
pub open spec fn listed(list: Seq<String>, id: Seq<char>) -> bool {
    exists|i: int| 0 <= i < list.len() && (#[trigger] list[i])@ == id
}

proof fn lemma_without_len(list: Seq<String>, id: Seq<char>)
    ensures
        without(list, id).len() <= list.len(),
        without(list, id).len() == list.len() <==> !listed(list, id),
    decreases list.len(),
{
    if list.len() > 0 {
        let pre = list.drop_last();
        lemma_without_len(pre, id);
        if listed(pre, id) {
            let k = choose|k: int| 0 <= k < pre.len() && (#[trigger] pre[k])@ == id;
            assert(list[k] == pre[k]);
        }
        if listed(list, id) && list.last()@ != id {
            let k = choose|k: int| 0 <= k < list.len() && (#[trigger] list[k])@ == id;
            assert(pre[k] == list[k]);
        }
        if list.last()@ == id {
            assert(list[list.len() - 1]@ == id);
        }
    }
}

/// The disabled list without `id`, and whether that changed it.
pub fn strip_disabled(list: &Vec<String>, id: &str) -> (r: (Vec<String>, bool))
    ensures
        r.0@.len() == without(list@, id@).len(),
        forall|i: int| 0 <= i < r.0@.len() ==> (#[trigger] r.0@[i])@ == without(list@, id@)[i],
        r.1 == listed(list@, id@),
{
    let mut out: Vec<String> = Vec::new();
    let mut i: usize = 0;
    while i < list.len()
        invariant
            i <= list@.len(),
            out@.len() == without(list@.take(i as int), id@).len(),
            forall|k: int| 0 <= k < out@.len() ==> (#[trigger] out@[k])@ == without(list@.take(i as int), id@)[k],
        decreases list@.len() - i,
    {
        assert(list@.take(i + 1).drop_last() =~= list@.take(i as int));
        assert(list@.take(i + 1).last() == list@[i as int]);
        if !str_eq(list[i].as_str(), id) {
            out.push(owned(list[i].as_str()));
        }
        i = i + 1;
    }
    assert(list@.take(i as int) =~= list@);
    let changed = out.len() != list.len();
    proof {
        lemma_without_len(list@, id@);
    }
    (out, changed)
}

/// The answer to an uninstall: 200 `ok`; 400 when it failed; 500 when its
/// task failed.
pub fn uninstall_response(outcome: TaskOutcome<()>) -> (r: ApiResponse)
    ensures
        match outcome {
            TaskOutcome::Finished(Ok(_)) => r.status == 200 && r.body.value() == one_member("status"@, JsonValue::Str("ok"@)),
            TaskOutcome::Finished(Err(e)) => r.status == 400 && r.body.value() == error_body("uninstall failed: "@ + e@),
            TaskOutcome::Crashed(e) => r.status == 500 && r.body.value() == error_body("uninstall task failed: "@ + e@),
        },
{
    match outcome {
        TaskOutcome::Finished(Ok(_)) => {
            let mut m: Vec<(String, Json)> = Vec::new();
            m.push((owned("status"), Json::Str(owned("ok"))));
            let body = Json::Object(m);
            proof {
                reveal_with_fuel(Json::value, 2);
                assert(body.value()->Object_0 =~= one_member("status"@, JsonValue::Str("ok"@))->Object_0);
            }
            ApiResponse { status: 200, body }
        },
        TaskOutcome::Finished(Err(e)) => error_response(400, prefixed("uninstall failed: ", e.as_str())),
        TaskOutcome::Crashed(e) => error_response(500, prefixed("uninstall task failed: ", e.as_str())),
    }
}

/// What enabling or disabling a skill comes to.
pub enum ToggleDecision {
    /// The request is refused with this answer.
    Rejected(ApiResponse),
    /// Nothing changes; the request is answered with this.
    Unchanged(ApiResponse),
    /// The disabled list becomes this; it is to be saved.
    Changed(Vec<String>),
}

/// The body of a successful toggle.
pub open spec fn toggled_body(changed: bool) -> JsonValue {
    JsonValue::Object(seq![("status"@, JsonValue::Str("ok"@)), ("changed"@, JsonValue::Bool(changed))])
}

fn toggled(changed: bool) -> (r: ApiResponse)
    ensures
        r.status == 200,
        r.body.value() == toggled_body(changed),
{
    let mut m: Vec<(String, Json)> = Vec::new();
    m.push((owned("status"), Json::Str(owned("ok"))));
    m.push((owned("changed"), Json::Bool(changed)));
    let body = Json::Object(m);
    proof {
        reveal_with_fuel(Json::value, 2);
        assert(body.value()->Object_0 =~= toggled_body(changed)->Object_0);
    }
    ApiResponse { status: 200, body }
}

/// Enabling (`disabled` false) or disabling a skill: a blank id is refused;
/// disabling a skill that is enabled appends it to the list; enabling a
/// disabled one removes it; anything else changes nothing.
pub fn set_skill_disabled(list: &Vec<String>, id: &str, disabled: bool) -> (r: ToggleDecision)
    ensures
        trimmed(id@).len() == 0 ==> (r matches ToggleDecision::Rejected(e) && e.status == 400
            && e.body.value() == error_body("skill id is required"@)),
        trimmed(id@).len() > 0 && disabled && !listed(list@, id@) ==> (r matches ToggleDecision::Changed(n)
            && n@.len() == list@.len() + 1 && n@.last()@ == id@
            && forall|i: int| 0 <= i < list@.len() ==> #[trigger] n@[i] == list@[i]),
        trimmed(id@).len() > 0 && !disabled && listed(list@, id@) ==> (r matches ToggleDecision::Changed(n)
            && n@.len() == without(list@, id@).len()
            && forall|i: int| 0 <= i < n@.len() ==> (#[trigger] n@[i])@ == without(list@, id@)[i]),
        trimmed(id@).len() > 0 && disabled == listed(list@, id@) ==> (r matches ToggleDecision::Unchanged(a)
            && a.status == 200 && a.body.value() == toggled_body(false)),
{
    if trim(id).unicode_len() == 0 {
        let mut m: Vec<char> = Vec::new();
        push_str(&mut m, "skill id is required");
        return ToggleDecision::Rejected(error_response(400, m));
    }
    let (stripped, was_disabled) = strip_disabled(list, id);
    if disabled && !was_disabled {
        let mut n: Vec<String> = Vec::new();
        let mut i: usize = 0;
        while i < list.len()
            invariant
                i <= list@.len(),
                n@.len() == i,
                forall|k: int| 0 <= k < i ==> #[trigger] n@[k] == list@[k],
            decreases list@.len() - i,
        {
            n.push(list[i].clone());
            i = i + 1;
        }
        n.push(owned(id));
        ToggleDecision::Changed(n)
    } else if !disabled && was_disabled {
        ToggleDecision::Changed(stripped)
    } else {
        ToggleDecision::Unchanged(toggled(false))
    }
}

/// The answer once the changed list was saved (`None`) or failed to save.
pub fn toggle_saved_response(save_error: Option<String>) -> (r: ApiResponse)
    ensures
        match save_error {
            None => r.status == 200 && r.body.value() == toggled_body(true),
            Some(e) => r.status == 500 && r.body.value() == error_body("failed to persist config: "@ + e@),
        },
{
    match save_error {
        None => toggled(true),
        Some(e) => error_response(500, prefixed("failed to persist config: ", e.as_str())),
    }
}

/// Whether a listed skill shows as enabled: one without a directory name
/// always does; others unless disabled.
pub fn skill_enabled(id: &Option<String>, disabled: &Vec<String>) -> (r: bool)
    ensures
        r == (match *id {
            Some(n) => !listed(disabled@, n@),
            None => true,
        }),
{
    match id {
        Some(n) => {
            let (_, found) = strip_disabled(disabled, n.as_str());
            !found
        },
        None => true,
    }
}

/// What the dashboard shows of an installed skill: its directory name (the
/// skill's id, when it has one), its manifest's fields, how many tools and
/// prompts it brings, and where it lives.
pub struct SkillInfo {
    pub id: Option<String>,
    pub name: String,
    pub description: String,
    pub version: String,
    pub author: Option<String>,
    pub tags: Vec<String>,
    pub tool_count: usize,
    pub prompt_count: usize,
    pub location: Option<String>,
}

/// A listed skill as the dashboard receives it; it shows as enabled unless
/// its id is disabled.
pub open spec fn skill_value(s: SkillInfo, disabled: Seq<String>) -> JsonValue {
    JsonValue::Object(seq![
        ("id"@, opt_text_value(s.id)),
        ("name"@, JsonValue::Str(s.name@)),
        ("description"@, JsonValue::Str(s.description@)),
        ("version"@, JsonValue::Str(s.version@)),
        ("author"@, opt_text_value(s.author)),
        ("tags"@, tags_value(s.tags@)),
        ("tool_count"@, JsonValue::Number(s.tool_count as int)),
        ("prompt_count"@, JsonValue::Number(s.prompt_count as int)),
        ("location"@, opt_text_value(s.location)),
        ("enabled"@, JsonValue::Bool(match s.id {
            Some(n) => !listed(disabled, n@),
            None => true,
        })),
    ])
}

/// A listed skill as JSON (see `skill_value`).
pub fn skill_json(skill: &SkillInfo, disabled: &Vec<String>) -> (j: Json)
    ensures
        j.value() == skill_value(*skill, disabled@),
{
    let mut tags: Vec<Json> = Vec::new();
    let mut i: usize = 0;
    while i < skill.tags.len()
        invariant
            i <= skill.tags@.len(),
            tags@.len() == i,
            forall|k: int| 0 <= k < i ==> (#[trigger] tags@[k]).value() == JsonValue::Str(skill.tags@[k]@),
        decreases skill.tags@.len() - i,
    {
        tags.push(text_json(skill.tags[i].as_str()));
        i = i + 1;
    }
    let tags_json = Json::Array(tags);
    assert(tags_json.value()->Array_0 =~= tags_value(skill.tags@)->Array_0);
    let enabled = skill_enabled(&skill.id, disabled);
    let mut m: Vec<(String, Json)> = Vec::new();
    m.push((owned("id"), opt_text_json(&skill.id)));
    m.push((owned("name"), text_json(skill.name.as_str())));
    m.push((owned("description"), text_json(skill.description.as_str())));
    m.push((owned("version"), text_json(skill.version.as_str())));
    m.push((owned("author"), opt_text_json(&skill.author)));
    m.push((owned("tags"), tags_json));
    m.push((owned("tool_count"), Json::Number(skill.tool_count as i128)));
    m.push((owned("prompt_count"), Json::Number(skill.prompt_count as i128)));
    m.push((owned("location"), opt_text_json(&skill.location)));
    m.push((owned("enabled"), Json::Bool(enabled)));
    let j = Json::Object(m);
    proof {
        reveal_with_fuel(Json::value, 2);
        assert(j.value()->Object_0 =~= skill_value(*skill, disabled@)->Object_0);
    }
    j
}

/// The answer to a skill listing: every installed skill, disabled ones
/// included, under `skills`.
pub fn skills_list_body(skills: &Vec<SkillInfo>, disabled: &Vec<String>) -> (j: Json)
    ensures
        j.value() == one_member("skills"@, JsonValue::Array(Seq::new(skills@.len(),
            |i: int| skill_value(skills@[i], disabled@)))),
{
    let mut items: Vec<Json> = Vec::new();
    let mut i: usize = 0;
    while i < skills.len()
        invariant
            i <= skills@.len(),
            items@.len() == i,
            forall|k: int| 0 <= k < i ==> (#[trigger] items@[k]).value() == skill_value(skills@[k], disabled@),
        decreases skills@.len() - i,
    {
        items.push(skill_json(&skills[i], disabled));
        i = i + 1;
    }
    let arr = Json::Array(items);
    assert(arr.value()->Array_0 =~= Seq::new(skills@.len(), |i: int| skill_value(skills@[i], disabled@)));
    let mut m: Vec<(String, Json)> = Vec::new();
    m.push((owned("skills"), arr));
    let j = Json::Object(m);
    proof {
        reveal_with_fuel(Json::value, 2);
        assert(j.value()->Object_0 =~= one_member("skills"@, JsonValue::Array(Seq::new(skills@.len(),
            |i: int| skill_value(skills@[i], disabled@))))->Object_0);
    }
    j
}

/// The answer to a failed registry search: 502.
pub fn search_failed_response(error: &str) -> (r: ApiResponse)
    ensures
        r.status == 502,
        r.body.value() == error_body("clawhub search failed: "@ + error@),
{
    error_response(502, prefixed("clawhub search failed: ", error))
}

} // verus!
