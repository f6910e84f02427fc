//! The agent tools over the archive: their names, descriptions and
//! parameter schemas, how each reads its arguments, and the text each
//! answers with. The queries themselves run against the database in the
//! caller.

use vstd::prelude::*;
use vstd::string::StrSliceExecFns;
use crate::json::{Json, JsonValue};
use crate::summarizer::HOUR_MS;
use crate::text::{dec, dec_int, dec_of, dec_of_i64, ends_with, owned, starts_with, push_chars, push_str, string_of, trim, trimmed};

verus! {

/// What a tool call answers: success with output, or failure with an error.
#[derive(Debug, Clone)]
pub struct ToolResult {
    pub success: bool,
    pub output: String,
    pub error: Option<String>,
}

/// A successful answer with the given text.
pub open spec fn ok_with(r: ToolResult, text: Seq<char>) -> bool {
    r.success && r.output@ == text && r.error is None
}

/// A failed answer with the given error text.
pub open spec fn err_with(r: ToolResult, text: Seq<char>) -> bool {
    !r.success && r.output@.len() == 0 && (r.error matches Some(e) && e@ == text)
}

fn ok_result(text: Vec<char>) -> (r: ToolResult)
    ensures
        ok_with(r, text@),
{
    ToolResult { success: true, output: string_of(&text), error: None }
}

fn err_result(text: Vec<char>) -> (r: ToolResult)
    ensures
        err_with(r, text@),
{
    ToolResult { success: false, output: String::new(), error: Some(string_of(&text)) }
}

/// The integer argument `key` (`get(key).and_then(as_i64)`), or `default`.
pub open spec fn int_arg(args: Json, key: Seq<char>, default: i64) -> i64 {
    match args.field(key) {
        Some(v) => match v {
            Json::Number(n) => if i64::MIN <= n <= i64::MAX { n as i64 } else { default },
            _ => default,
        },
        None => default,
    }
}

/// At least one.
pub open spec fn at_least_one(n: i64) -> i64 {
    if n < 1 { 1 } else { n }
}

/// `n` kept within `lo..=hi`.
pub open spec fn clamped(n: i64, lo: i64, hi: i64) -> i64 {
    if n < lo { lo } else if n > hi { hi } else { n }
}

/// Lines joined with a separator.
pub open spec fn joined(rows: Seq<Seq<char>>, sep: Seq<char>) -> Seq<char>
    decreases rows.len(),
{
    if rows.len() == 0 {
        Seq::empty()
    } else if rows.len() == 1 {
        rows[0]
    } else {
        joined(rows.drop_last(), sep) + sep + rows.last()
    }
}

/// An optional text, or nothing.
pub open spec fn or_empty(s: Option<String>) -> Seq<char> {
    match s {
        Some(t) => t@,
        None => Seq::empty(),
    }
}

fn int_arg_of(args: &Json, key: &str, default: i64) -> (r: i64)
    ensures
        r == int_arg(*args, key@, default),
{
    match args.get(key) {
        Some(v) => match v.as_i64() {
            Some(n) => n,
            None => default,
        },
        None => default,
    }
}

fn push_opt(out: &mut Vec<char>, s: &Option<String>)
    ensures
        final(out)@ == old(out)@ + or_empty(*s),
{
    match s {
        Some(t) => push_str(out, t.as_str()),
        None => {
            assert(out@ =~= old(out)@ + Seq::<char>::empty());
        },
    }
}

fn push_count(out: &mut Vec<char>, n: usize)
    ensures
        final(out)@ == old(out)@ + dec(n as nat),
{
    let d = dec_of(n as u64);
    push_chars(out, &d);
}

fn push_int(out: &mut Vec<char>, n: i64)
    ensures
        final(out)@ == old(out)@ + dec_int(n as int),
{
    let d = dec_of_i64(n);
    push_chars(out, &d);
}

/// Appends lines joined with a separator.
fn push_joined(out: &mut Vec<char>, rows: &Vec<String>, sep: &str)
    ensures
        final(out)@ == old(out)@ + joined(strs(rows@), sep@),
{
    let ghost start = out@;
    let mut i: usize = 0;
    assert(strs(rows@).take(0) =~= Seq::<Seq<char>>::empty());
    while i < rows.len()
        invariant
            i <= rows@.len(),
            out@ == start + joined(strs(rows@).take(i as int), sep@),
        decreases rows@.len() - i,
    {
        let ghost pre = strs(rows@).take(i as int);
        let ghost post = strs(rows@).take(i + 1);
        assert(post.drop_last() =~= pre);
        assert(post.last() == rows@[i as int]@);
        if i > 0 {
            push_str(out, sep);
        }
        push_str(out, rows[i].as_str());
        proof {
            if i == 0 {
                assert(post.len() == 1);
                assert(out@ =~= start + post[0]);
            } else {
                assert(out@ =~= start + joined(pre, sep@) + sep@ + post.last());
            }
        }
        i = i + 1;
    }
    assert(strs(rows@).take(i as int) =~= strs(rows@));
}

/// The texts of a list of strings.
pub open spec fn strs(s: Seq<String>) -> Seq<Seq<char>> {
    Seq::new(s.len(), |i: int| s[i]@)
}

/// The start of a look-back window of `hours` hours before `now` (UTC
/// milliseconds); `None` when it falls outside the range of times.
pub fn cutoff_millis(now: i64, hours: i64) -> (r: Option<i64>)
    requires
        hours >= 1,
    ensures
        r == (if now - hours * HOUR_MS >= i64::MIN { Some((now - hours * HOUR_MS) as i64) } else { None }),
{
    let c: i128 = (now as i128) - (hours as i128) * 3_600_000i128;
    if c >= -9_223_372_036_854_775_808i128 {
        Some(c as i64)
    } else {
        None
    }
}

/// The value of a property of a tool's parameter schema.
pub open spec fn prop(ty: Seq<char>, desc: Option<Seq<char>>, default: Option<JsonValue>) -> JsonValue {
    JsonValue::Object(seq![("type"@, JsonValue::Str(ty))]
        + (match desc {
            Some(d) => seq![("description"@, JsonValue::Str(d))],
            None => Seq::empty(),
        }) + (match default {
            Some(v) => seq![("default"@, v)],
            None => Seq::empty(),
        }))
}

/// A parameter schema: an object with the given properties and required
/// names.
pub open spec fn schema(props: Seq<(Seq<char>, JsonValue)>, required: Seq<Seq<char>>) -> JsonValue {
    JsonValue::Object(seq![("type"@, JsonValue::Str("object"@)), ("properties"@, JsonValue::Object(props))]
        + (if required.len() == 0 {
            Seq::empty()
        } else {
            seq![("required"@, JsonValue::Array(Seq::new(required.len(), |i: int| JsonValue::Str(required[i]))))]
        }))
}

fn str_json(s: &str) -> (j: Json)
    ensures
        j.value() == JsonValue::Str(s@),
{
    Json::Str(owned(s))
}

fn prop_json(ty: &str, desc: Option<&str>, default: Option<Json>) -> (j: Json)
    ensures
        j.value() == prop(ty@, match desc {
            Some(d) => Some(d@),
            None => None,
        }, match default {
            Some(v) => Some(v.value()),
            None => None,
        }),
{
    let ghost dv: Option<Seq<char>> = if desc is Some { Some(desc->0@) } else { None };
    let ghost fv: Option<JsonValue> = if default is Some { Some(default->0.value()) } else { None };
    let mut m: Vec<(String, Json)> = Vec::new();
    m.push((owned("type"), str_json(ty)));
    match desc {
        Some(d) => m.push((owned("description"), str_json(d))),
        None => {},
    }
    match default {
        Some(v) => m.push((owned("default"), v)),
        None => {},
    }
    let j = Json::Object(m);
    proof {
        assert(j.value()->Object_0 =~= prop(ty@, dv, fv)->Object_0);
    }
    j
}

fn schema_json(props: Vec<(String, Json)>, required: Vec<&str>) -> (j: Json)
    ensures
        j.value() == schema(Seq::new(props@.len(), |i: int| (props@[i].0@, props@[i].1.value())),
            Seq::new(required@.len(), |i: int| required@[i]@)),
{
    let ghost pv = Seq::new(props@.len(), |i: int| (props@[i].0@, props@[i].1.value()));
    let ghost rv = Seq::new(required@.len(), |i: int| required@[i]@);
    let props_json = Json::Object(props);
    assert(props_json.value()->Object_0 =~= pv);
    let mut m: Vec<(String, Json)> = Vec::new();
    m.push((owned("type"), str_json("object")));
    m.push((owned("properties"), props_json));
    if required.len() > 0 {
        let mut names: Vec<Json> = Vec::new();
        let mut i: usize = 0;
        while i < required.len()
            invariant
                i <= required@.len(),
                names@.len() == i,
                forall|k: int| 0 <= k < i ==> (#[trigger] names@[k]).value() == JsonValue::Str(required@[k]@),
            decreases required@.len() - i,
        {
            names.push(str_json(required[i]));
            i = i + 1;
        }
        let arr = Json::Array(names);
        assert(arr.value()->Array_0 =~= Seq::new(rv.len(), |i: int| JsonValue::Str(rv[i])));
        m.push((owned("required"), arr));
    }
    let j = Json::Object(m);
    proof {
        assert(j.value()->Object_0 =~= schema(pv, rv)->Object_0);
    }
    j
}

fn int_json(n: i64) -> (j: Json)
    ensures
        j.value() == JsonValue::Number(n as int),
{
    Json::Number(n as i128)
}

/// The arguments of the event view.
pub struct ViewArgs {
    pub hours: i64,
    pub limit: i64,
    pub source: Option<String>,
}

/// The event view: recent events.
pub struct ActivityArchiveViewTool {
    pub db_path: String,
}

/// The event view's parameter schema.
pub open spec fn view_schema() -> JsonValue {
    schema(seq![
        ("hours"@, prop("integer"@, Some("Look-back window in hours (default: 1)"@), Some(JsonValue::Number(1)))),
        ("limit"@, prop("integer"@, Some("Max events to return (default: 50, max: 200)"@), Some(JsonValue::Number(50)))),
        ("source"@, prop("string"@, Some("Filter by source (window_focus, browser_history, shell_activity, file_activity, process_launch)"@), None)),
    ], Seq::empty())
}

/// A line of the event view.
pub open spec fn event_row(ts: Seq<char>, source: Seq<char>, etype: Seq<char>, app: Option<String>,
    title: Option<String>) -> Seq<char> {
    "["@ + ts + "] "@ + source + "/"@ + etype + " | "@ + or_empty(app) + " | "@ + or_empty(title)
}

impl ActivityArchiveViewTool {
    pub fn new(db_path: String) -> (t: ActivityArchiveViewTool)
        ensures
            t.db_path == db_path,
    {
        ActivityArchiveViewTool { db_path }
    }

    pub fn name(&self) -> (n: &'static str)
        ensures
            n@ == "activity_archive_view"@,
    {
        "activity_archive_view"
    }

    pub fn description(&self) -> (d: &'static str)
        ensures
            d@ == "View recent events from the desktop activity archive. Returns event type, app, title, and timestamp."@,
    {
        "View recent events from the desktop activity archive. Returns event type, app, title, and timestamp."
    }

    pub fn parameters_schema(&self) -> (j: Json)
        ensures
            j.value() == view_schema(),
    {
        let mut p: Vec<(String, Json)> = Vec::new();
        p.push((owned("hours"), prop_json("integer", Some("Look-back window in hours (default: 1)"), Some(int_json(1)))));
        p.push((owned("limit"), prop_json("integer", Some("Max events to return (default: 50, max: 200)"), Some(int_json(50)))));
        p.push((owned("source"), prop_json("string",
            Some("Filter by source (window_focus, browser_history, shell_activity, file_activity, process_launch)"), None)));
        let ghost pv = Seq::new(p@.len(), |i: int| (p@[i].0@, p@[i].1.value()));
        let j = schema_json(p, Vec::new());
        proof {
            assert(Seq::new(0nat, |i: int| ""@) =~= Seq::<Seq<char>>::empty());
            assert(pv =~= view_schema()->Object_0[1].1->Object_0);
        }
        j
    }

    /// The arguments: hours (default 1, at least 1), limit (default 50,
    /// within 1..=200) and an optional source.
    pub fn parse_args(args: &Json) -> (r: ViewArgs)
        ensures
            r.hours == at_least_one(int_arg(*args, "hours"@, 1)),
            r.limit == clamped(int_arg(*args, "limit"@, 50), 1, 200),
            match r.source {
                Some(s) => args.str_field("source"@) == Some(s@),
                None => args.str_field("source"@) is None,
            },
    {
        let h = int_arg_of(args, "hours", 1);
        let l = int_arg_of(args, "limit", 50);
        let source = match args.get_str("source") {
            Some(s) => Some(owned(s)),
            None => None,
        };
        ViewArgs {
            hours: if h < 1 { 1 } else { h },
            limit: if l < 1 { 1 } else if l > 200 { 200 } else { l },
            source,
        }
    }

    /// One line of the view (see `event_row`).
    pub fn format_row(ts: &str, source: &str, etype: &str, app: &Option<String>, title: &Option<String>) -> (r: String)
        ensures
            r@ == event_row(ts@, source@, etype@, *app, *title),
    {
        let mut v: Vec<char> = Vec::new();
        push_str(&mut v, "[");
        push_str(&mut v, ts);
        push_str(&mut v, "] ");
        push_str(&mut v, source);
        push_str(&mut v, "/");
        push_str(&mut v, etype);
        push_str(&mut v, " | ");
        push_opt(&mut v, app);
        push_str(&mut v, " | ");
        push_opt(&mut v, title);
        string_of(&v)
    }

    /// The answer: the count and the lines, or a note that there are none.
    pub fn render(hours: i64, rows: &Vec<String>) -> (r: ToolResult)
        ensures
            rows@.len() == 0 ==> ok_with(r, "No events in the last "@ + dec_int(hours as int) + " hour(s)."@),
            rows@.len() > 0 ==> ok_with(r, dec(rows@.len()) + " events:\n"@ + joined(strs(rows@), "\n"@)),
    {
        let mut v: Vec<char> = Vec::new();
        if rows.len() == 0 {
            push_str(&mut v, "No events in the last ");
            push_int(&mut v, hours);
            push_str(&mut v, " hour(s).");
        } else {
            push_count(&mut v, rows.len());
            push_str(&mut v, " events:\n");
            push_joined(&mut v, rows, "\n");
        }
        ok_result(v)
    }
}

/// The statistics tool.
pub struct ActivityArchiveStatsTool {
    pub db_path: String,
}

/// The statistics tool's parameter schema.
pub open spec fn stats_schema() -> JsonValue {
    schema(seq![("hours"@, prop("integer"@, Some("Look-back window (default: 24)"@), Some(JsonValue::Number(24))))],
        Seq::empty())
}

/// A `name (count)` line.
pub open spec fn count_row(name: Seq<char>, count: i64) -> Seq<char> {
    "  "@ + name + " ("@ + dec_int(count as int) + ")"@
}

/// The statistics text.
pub open spec fn stats_text(hours: i64, total: i64, sessions: i64, apps: Seq<Seq<char>>, sources: Seq<Seq<char>>)
    -> Seq<char> {
    "Activity stats (last "@ + dec_int(hours as int) + "h):\n"@ + "Total events: "@ + dec_int(total as int) + "\n"@
        + "Sessions: "@ + dec_int(sessions as int) + "\n\n"@ + "Top apps:\n"@ + joined(apps, "\n"@) + "\n\n"@
        + "By source:\n"@ + joined(sources, "\n"@)
}

impl ActivityArchiveStatsTool {
    pub fn new(db_path: String) -> (t: ActivityArchiveStatsTool)
        ensures
            t.db_path == db_path,
    {
        ActivityArchiveStatsTool { db_path }
    }

    pub fn name(&self) -> (n: &'static str)
        ensures
            n@ == "activity_archive_stats"@,
    {
        "activity_archive_stats"
    }

    pub fn description(&self) -> (d: &'static str)
        ensures
            d@ == "Get aggregate statistics: top apps, event counts, session count, and active time."@,
    {
        "Get aggregate statistics: top apps, event counts, session count, and active time."
    }

    pub fn parameters_schema(&self) -> (j: Json)
        ensures
            j.value() == stats_schema(),
    {
        let mut p: Vec<(String, Json)> = Vec::new();
        p.push((owned("hours"), prop_json("integer", Some("Look-back window (default: 24)"), Some(int_json(24)))));
        let ghost pv = Seq::new(p@.len(), |i: int| (p@[i].0@, p@[i].1.value()));
        let j = schema_json(p, Vec::new());
        proof {
            assert(Seq::new(0nat, |i: int| ""@) =~= Seq::<Seq<char>>::empty());
            assert(pv =~= stats_schema()->Object_0[1].1->Object_0);
        }
        j
    }

    /// The look-back in hours: default 24, at least 1.
    pub fn parse_args(args: &Json) -> (hours: i64)
        ensures
            hours == at_least_one(int_arg(*args, "hours"@, 24)),
    {
        let h = int_arg_of(args, "hours", 24);
        if h < 1 { 1 } else { h }
    }

    /// A `name (count)` line (see `count_row`).
    pub fn count_row(name: &str, count: i64) -> (r: String)
        ensures
            r@ == count_row(name@, count),
    {
        let mut v: Vec<char> = Vec::new();
        push_str(&mut v, "  ");
        push_str(&mut v, name);
        push_str(&mut v, " (");
        push_int(&mut v, count);
        push_str(&mut v, ")");
        string_of(&v)
    }

    /// The answer (see `stats_text`).
    pub fn render(hours: i64, total: i64, sessions: i64, top_apps: &Vec<String>, sources: &Vec<String>) -> (r: ToolResult)
        ensures
            ok_with(r, stats_text(hours, total, sessions, strs(top_apps@), strs(sources@))),
    {
        let mut v: Vec<char> = Vec::new();
        push_str(&mut v, "Activity stats (last ");
        push_int(&mut v, hours);
        push_str(&mut v, "h):\n");
        push_str(&mut v, "Total events: ");
        push_int(&mut v, total);
        push_str(&mut v, "\n");
        push_str(&mut v, "Sessions: ");
        push_int(&mut v, sessions);
        push_str(&mut v, "\n\n");
        push_str(&mut v, "Top apps:\n");
        push_joined(&mut v, top_apps, "\n");
        push_str(&mut v, "\n\n");
        push_str(&mut v, "By source:\n");
        push_joined(&mut v, sources, "\n");
        ok_result(v)
    }
}

/// The arguments of a search.
pub struct SearchArgs {
    pub query: String,
    pub hours: i64,
    pub limit: i64,
}

/// The search tool.
pub struct ActivityArchiveSearchTool {
    pub db_path: String,
}

/// The search tool's parameter schema.
pub open spec fn search_schema() -> JsonValue {
    schema(seq![
        ("query"@, prop("string"@, Some("Search term"@), None)),
        ("hours"@, prop("integer"@, Some("Look-back (default: 24)"@), Some(JsonValue::Number(24)))),
        ("limit"@, prop("integer"@, Some("Max results (default: 30)"@), Some(JsonValue::Number(30)))),
    ], seq!["query"@])
}

/// A line of the search answer.
pub open spec fn search_row(ts: Seq<char>, src: Seq<char>, app: Option<String>, title: Option<String>) -> Seq<char> {
    "["@ + ts + "] "@ + src + " | "@ + or_empty(app) + " | "@ + or_empty(title)
}

impl ActivityArchiveSearchTool {
    pub fn new(db_path: String) -> (t: ActivityArchiveSearchTool)
        ensures
            t.db_path == db_path,
    {
        ActivityArchiveSearchTool { db_path }
    }

    pub fn name(&self) -> (n: &'static str)
        ensures
            n@ == "activity_archive_search"@,
    {
        "activity_archive_search"
    }

    pub fn description(&self) -> (d: &'static str)
        ensures
            d@ == "Search activity archive events by keyword in title, app, or details."@,
    {
        "Search activity archive events by keyword in title, app, or details."
    }

    pub fn parameters_schema(&self) -> (j: Json)
        ensures
            j.value() == search_schema(),
    {
        let mut p: Vec<(String, Json)> = Vec::new();
        p.push((owned("query"), prop_json("string", Some("Search term"), None)));
        p.push((owned("hours"), prop_json("integer", Some("Look-back (default: 24)"), Some(int_json(24)))));
        p.push((owned("limit"), prop_json("integer", Some("Max results (default: 30)"), Some(int_json(30)))));
        let ghost pv = Seq::new(p@.len(), |i: int| (p@[i].0@, p@[i].1.value()));
        let mut req: Vec<&str> = Vec::new();
        req.push("query");
        let ghost rv = Seq::new(req@.len(), |i: int| req@[i]@);
        let j = schema_json(p, req);
        proof {
            assert(rv =~= seq!["query"@]);
            assert(pv =~= search_schema()->Object_0[1].1->Object_0);
        }
        j
    }

    /// The arguments: the trimmed query, which must not be blank; hours
    /// (default 24, at least 1); limit (default 30, within 1..=100).
    pub fn parse_args(args: &Json) -> (r: Result<SearchArgs, ToolResult>)
        ensures
            match r {
                Ok(a) => args.str_field("query"@) matches Some(q) && trimmed(q).len() > 0 && a.query@ == trimmed(q)
                    && a.hours == at_least_one(int_arg(*args, "hours"@, 24))
                    && a.limit == clamped(int_arg(*args, "limit"@, 30), 1, 100),
                Err(e) => (args.str_field("query"@) is None || trimmed(args.str_field("query"@)->0).len() == 0)
                    && err_with(e, "Missing 'query' parameter"@),
            },
    {
        let query = match args.get_str("query") {
            Some(q) => trim(q),
            None => {
                let mut m: Vec<char> = Vec::new();
                push_str(&mut m, "Missing 'query' parameter");
                return Err(err_result(m));
            },
        };
        if query.unicode_len() == 0 {
            let mut m: Vec<char> = Vec::new();
            push_str(&mut m, "Missing 'query' parameter");
            return Err(err_result(m));
        }
        let h = int_arg_of(args, "hours", 24);
        let l = int_arg_of(args, "limit", 30);
        Ok(SearchArgs {
            query: owned(query),
            hours: if h < 1 { 1 } else { h },
            limit: if l < 1 { 1 } else if l > 100 { 100 } else { l },
        })
    }

    /// The `LIKE` pattern for a query: the query between `%` signs.
    pub fn like_pattern(query: &str) -> (r: String)
        ensures
            r@ == "%"@ + query@ + "%"@,
    {
        let mut v: Vec<char> = Vec::new();
        push_str(&mut v, "%");
        push_str(&mut v, query);
        push_str(&mut v, "%");
        string_of(&v)
    }

    /// One line of the answer (see `search_row`).
    pub fn format_row(ts: &str, src: &str, app: &Option<String>, title: &Option<String>) -> (r: String)
        ensures
            r@ == search_row(ts@, src@, *app, *title),
    {
        let mut v: Vec<char> = Vec::new();
        push_str(&mut v, "[");
        push_str(&mut v, ts);
        push_str(&mut v, "] ");
        push_str(&mut v, src);
        push_str(&mut v, " | ");
        push_opt(&mut v, app);
        push_str(&mut v, " | ");
        push_opt(&mut v, title);
        string_of(&v)
    }

    /// The answer: the matches, or a note that there are none.
    pub fn render(query: &str, hours: i64, rows: &Vec<String>) -> (r: ToolResult)
        ensures
            rows@.len() == 0 ==> ok_with(r, "No events matching '"@ + query@ + "' in the last "@ + dec_int(hours as int)
                + "h."@),
            rows@.len() > 0 ==> ok_with(r, dec(rows@.len()) + " results for '"@ + query@ + "':\n"@
                + joined(strs(rows@), "\n"@)),
    {
        let mut v: Vec<char> = Vec::new();
        if rows.len() == 0 {
            push_str(&mut v, "No events matching '");
            push_str(&mut v, query);
            push_str(&mut v, "' in the last ");
            push_int(&mut v, hours);
            push_str(&mut v, "h.");
        } else {
            push_count(&mut v, rows.len());
            push_str(&mut v, " results for '");
            push_str(&mut v, query);
            push_str(&mut v, "':\n");
            push_joined(&mut v, rows, "\n");
        }
        ok_result(v)
    }
}

/// The session list tool.
pub struct ActivityArchiveListSessionsTool {
    pub db_path: String,
}

/// The session list's parameter schema.
pub open spec fn sessions_schema() -> JsonValue {
    schema(seq![
        ("hours"@, prop("integer"@, Some("Look-back (default: 24)"@), Some(JsonValue::Number(24)))),
        ("limit"@, prop("integer"@, None, Some(JsonValue::Number(20)))),
    ], Seq::empty())
}

/// A line of the session list.
pub open spec fn session_row(start: Seq<char>, end: Option<String>, app: Option<String>, proj: Option<String>,
    count: Option<i64>) -> Seq<char> {
    start + " → "@ + (match end {
        Some(e) => e@,
        None => "ongoing"@,
    }) + " | "@ + or_empty(app) + " | "@ + or_empty(proj) + " ("@ + dec_int(match count {
        Some(c) => c as int,
        None => 0,
    }) + " events)"@
}

impl ActivityArchiveListSessionsTool {
    pub fn new(db_path: String) -> (t: ActivityArchiveListSessionsTool)
        ensures
            t.db_path == db_path,
    {
        ActivityArchiveListSessionsTool { db_path }
    }

    pub fn name(&self) -> (n: &'static str)
        ensures
            n@ == "activity_archive_sessions"@,
    {
        "activity_archive_sessions"
    }

    pub fn description(&self) -> (d: &'static str)
        ensures
            d@ == "List inferred activity sessions with duration and dominant app."@,
    {
        "List inferred activity sessions with duration and dominant app."
    }

    pub fn parameters_schema(&self) -> (j: Json)
        ensures
            j.value() == sessions_schema(),
    {
        let mut p: Vec<(String, Json)> = Vec::new();
        p.push((owned("hours"), prop_json("integer", Some("Look-back (default: 24)"), Some(int_json(24)))));
        p.push((owned("limit"), prop_json("integer", None, Some(int_json(20)))));
        let ghost pv = Seq::new(p@.len(), |i: int| (p@[i].0@, p@[i].1.value()));
        let j = schema_json(p, Vec::new());
        proof {
            assert(Seq::new(0nat, |i: int| ""@) =~= Seq::<Seq<char>>::empty());
            assert(pv =~= sessions_schema()->Object_0[1].1->Object_0);
        }
        j
    }

    /// The arguments: hours (default 24, at least 1) and limit (default 20,
    /// within 1..=50).
    pub fn parse_args(args: &Json) -> (r: (i64, i64))
        ensures
            r.0 == at_least_one(int_arg(*args, "hours"@, 24)),
            r.1 == clamped(int_arg(*args, "limit"@, 20), 1, 50),
    {
        let h = int_arg_of(args, "hours", 24);
        let l = int_arg_of(args, "limit", 20);
        (if h < 1 { 1 } else { h }, if l < 1 { 1 } else if l > 50 { 50 } else { l })
    }

    /// One line of the list (see `session_row`).
    pub fn format_row(start: &str, end: &Option<String>, app: &Option<String>, proj: &Option<String>,
        count: Option<i64>) -> (r: String)
        ensures
            r@ == session_row(start@, *end, *app, *proj, count),
    {
        let mut v: Vec<char> = Vec::new();
        push_str(&mut v, start);
        push_str(&mut v, " → ");
        match end {
            Some(e) => push_str(&mut v, e.as_str()),
            None => push_str(&mut v, "ongoing"),
        }
        push_str(&mut v, " | ");
        push_opt(&mut v, app);
        push_str(&mut v, " | ");
        push_opt(&mut v, proj);
        push_str(&mut v, " (");
        let c: i64 = match count {
            Some(c) => c,
            None => 0,
        };
        push_int(&mut v, c);
        push_str(&mut v, " events)");
        string_of(&v)
    }

    /// The answer: the sessions, or a note that there are none.
    pub fn render(rows: &Vec<String>) -> (r: ToolResult)
        ensures
            rows@.len() == 0 ==> ok_with(r, "No sessions found."@),
            rows@.len() > 0 ==> ok_with(r, dec(rows@.len()) + " sessions:\n"@ + joined(strs(rows@), "\n"@)),
    {
        let mut v: Vec<char> = Vec::new();
        if rows.len() == 0 {
            push_str(&mut v, "No sessions found.");
        } else {
            push_count(&mut v, rows.len());
            push_str(&mut v, " sessions:\n");
            push_joined(&mut v, rows, "\n");
        }
        ok_result(v)
    }
}

/// The summaries tool.
pub struct ActivityArchiveSummarizeTool {
    pub db_path: String,
}

/// The summaries tool's parameter schema.
pub open spec fn summarize_schema() -> JsonValue {
    schema(seq![
        ("type"@, JsonValue::Object(seq![
            ("type"@, JsonValue::Str("string"@)),
            ("enum"@, JsonValue::Array(seq![JsonValue::Str("hourly"@), JsonValue::Str("daily"@)])),
            ("default"@, JsonValue::Str("daily"@)),
        ])),
        ("date"@, prop("string"@, Some("Date in YYYY-MM-DD format (default: today)"@), None)),
        ("limit"@, prop("integer"@, None, Some(JsonValue::Number(5)))),
    ], Seq::empty())
}

/// One summary in the answer.
pub open spec fn summary_row(period: Seq<char>, content: Seq<char>) -> Seq<char> {
    "── "@ + period + " ──\n"@ + content
}

fn enum_prop(values: Vec<&str>, default: &str) -> (j: Json)
    ensures
        j.value() == JsonValue::Object(seq![
            ("type"@, JsonValue::Str("string"@)),
            ("enum"@, JsonValue::Array(Seq::new(values@.len(), |i: int| JsonValue::Str(values@[i]@)))),
            ("default"@, JsonValue::Str(default@)),
        ]),
{
    let mut items: Vec<Json> = Vec::new();
    let mut i: usize = 0;
    while i < values.len()
        invariant
            i <= values@.len(),
            items@.len() == i,
            forall|k: int| 0 <= k < i ==> (#[trigger] items@[k]).value() == JsonValue::Str(values@[k]@),
        decreases values@.len() - i,
    {
        items.push(str_json(values[i]));
        i = i + 1;
    }
    let arr = Json::Array(items);
    assert(arr.value()->Array_0 =~= Seq::new(values@.len(), |i: int| JsonValue::Str(values@[i]@)));
    let mut m: Vec<(String, Json)> = Vec::new();
    m.push((owned("type"), str_json("string")));
    m.push((owned("enum"), arr));
    m.push((owned("default"), str_json(default)));
    let j = Json::Object(m);
    proof {
        assert(j.value()->Object_0 =~= seq![
            ("type"@, JsonValue::Str("string"@)),
            ("enum"@, JsonValue::Array(Seq::new(values@.len(), |i: int| JsonValue::Str(values@[i]@)))),
            ("default"@, JsonValue::Str(default@)),
        ]);
    }
    j
}

impl ActivityArchiveSummarizeTool {
    pub fn new(db_path: String) -> (t: ActivityArchiveSummarizeTool)
        ensures
            t.db_path == db_path,
    {
        ActivityArchiveSummarizeTool { db_path }
    }

    pub fn name(&self) -> (n: &'static str)
        ensures
            n@ == "activity_archive_summarize"@,
    {
        "activity_archive_summarize"
    }

    pub fn description(&self) -> (d: &'static str)
        ensures
            d@ == "Get pre-generated hourly or daily summaries."@,
    {
        "Get pre-generated hourly or daily summaries."
    }

    pub fn parameters_schema(&self) -> (j: Json)
        ensures
            j.value() == summarize_schema(),
    {
        let mut kinds: Vec<&str> = Vec::new();
        kinds.push("hourly");
        kinds.push("daily");
        let ghost kv = Seq::new(kinds@.len(), |i: int| JsonValue::Str(kinds@[i]@));
        assert(kv =~= seq![JsonValue::Str("hourly"@), JsonValue::Str("daily"@)]);
        let mut p: Vec<(String, Json)> = Vec::new();
        p.push((owned("type"), enum_prop(kinds, "daily")));
        p.push((owned("date"), prop_json("string", Some("Date in YYYY-MM-DD format (default: today)"), None)));
        p.push((owned("limit"), prop_json("integer", None, Some(int_json(5)))));
        let ghost pv = Seq::new(p@.len(), |i: int| (p@[i].0@, p@[i].1.value()));
        let j = schema_json(p, Vec::new());
        proof {
            assert(Seq::new(0nat, |i: int| ""@) =~= Seq::<Seq<char>>::empty());
            assert(pv =~= summarize_schema()->Object_0[1].1->Object_0);
        }
        j
    }

    /// The arguments: the summary type (default `daily`) and limit (default
    /// 5, within 1..=20).
    pub fn parse_args(args: &Json) -> (r: (String, i64))
        ensures
            r.0@ == (match args.str_field("type"@) {
                Some(t) => t,
                None => "daily"@,
            }),
            r.1 == clamped(int_arg(*args, "limit"@, 5), 1, 20),
    {
        let t = match args.get_str("type") {
            Some(t) => owned(t),
            None => owned("daily"),
        };
        let l = int_arg_of(args, "limit", 5);
        (t, if l < 1 { 1 } else if l > 20 { 20 } else { l })
    }

    /// One summary of the answer (see `summary_row`).
    pub fn format_row(period: &str, content: &str) -> (r: String)
        ensures
            r@ == summary_row(period@, content@),
    {
        let mut v: Vec<char> = Vec::new();
        push_str(&mut v, "── ");
        push_str(&mut v, period);
        push_str(&mut v, " ──\n");
        push_str(&mut v, content);
        string_of(&v)
    }

    /// The answer: the summaries, or a note that there are none.
    pub fn render(summary_type: &str, rows: &Vec<String>) -> (r: ToolResult)
        ensures
            rows@.len() == 0 ==> ok_with(r, "No "@ + summary_type@ + " summaries found."@),
            rows@.len() > 0 ==> ok_with(r, joined(strs(rows@), "\n\n"@)),
    {
        let mut v: Vec<char> = Vec::new();
        if rows.len() == 0 {
            push_str(&mut v, "No ");
            push_str(&mut v, summary_type);
            push_str(&mut v, " summaries found.");
        } else {
            push_joined(&mut v, rows, "\n\n");
            assert(v@ =~= joined(strs(rows@), "\n\n"@));
        }
        ok_result(v)
    }
}

/// The privacy rule list tool.
pub struct ActivityArchivePrivacyListTool {
    pub db_path: String,
}

/// A line of the rule list.
pub open spec fn rule_row(id: Seq<char>, rule_type: Seq<char>, pattern: Seq<char>, action: Seq<char>) -> Seq<char> {
    "  ["@ + id + "] "@ + rule_type + " '"@ + pattern + "' → "@ + action
}

impl ActivityArchivePrivacyListTool {
    pub fn new(db_path: String) -> (t: ActivityArchivePrivacyListTool)
        ensures
            t.db_path == db_path,
    {
        ActivityArchivePrivacyListTool { db_path }
    }

    pub fn name(&self) -> (n: &'static str)
        ensures
            n@ == "activity_archive_privacy_list"@,
    {
        "activity_archive_privacy_list"
    }

    pub fn description(&self) -> (d: &'static str)
        ensures
            d@ == "List active privacy rules for the activity archive."@,
    {
        "List active privacy rules for the activity archive."
    }

    pub fn parameters_schema(&self) -> (j: Json)
        ensures
            j.value() == schema(Seq::empty(), Seq::empty()),
    {
        let p: Vec<(String, Json)> = Vec::new();
        let ghost pv = Seq::new(p@.len(), |i: int| (p@[i].0@, p@[i].1.value()));
        let req: Vec<&str> = Vec::new();
        let ghost rv = Seq::new(req@.len(), |i: int| req@[i]@);
        let j = schema_json(p, req);
        proof {
            assert(pv =~= Seq::<(Seq<char>, JsonValue)>::empty());
            assert(rv =~= Seq::<Seq<char>>::empty());
        }
        j
    }

    /// One line of the list (see `rule_row`).
    pub fn format_row(id: &str, rule_type: &str, pattern: &str, action: &str) -> (r: String)
        ensures
            r@ == rule_row(id@, rule_type@, pattern@, action@),
    {
        let mut v: Vec<char> = Vec::new();
        push_str(&mut v, "  [");
        push_str(&mut v, id);
        push_str(&mut v, "] ");
        push_str(&mut v, rule_type);
        push_str(&mut v, " '");
        push_str(&mut v, pattern);
        push_str(&mut v, "' → ");
        push_str(&mut v, action);
        string_of(&v)
    }

    /// The answer: the rules, or a note that there are none.
    pub fn render(rows: &Vec<String>) -> (r: ToolResult)
        ensures
            rows@.len() == 0 ==> ok_with(r, "No privacy rules configured."@),
            rows@.len() > 0 ==> ok_with(r, dec(rows@.len()) + " rules:\n"@ + joined(strs(rows@), "\n"@)),
    {
        let mut v: Vec<char> = Vec::new();
        if rows.len() == 0 {
            push_str(&mut v, "No privacy rules configured.");
        } else {
            push_count(&mut v, rows.len());
            push_str(&mut v, " rules:\n");
            push_joined(&mut v, rows, "\n");
        }
        ok_result(v)
    }
}

/// The tool that adds a privacy rule.
pub struct ActivityArchivePrivacyAddTool {
    pub db_path: String,
}

/// The rule-adding tool's parameter schema.
pub open spec fn privacy_add_schema() -> JsonValue {
    schema(seq![
        ("rule_type"@, JsonValue::Object(seq![
            ("type"@, JsonValue::Str("string"@)),
            ("enum"@, JsonValue::Array(seq![JsonValue::Str("exclude_path"@), JsonValue::Str("exclude_title"@),
                JsonValue::Str("exclude_domain"@)])),
        ])),
        ("pattern"@, prop("string"@, Some("Glob pattern to exclude"@), None)),
    ], seq!["rule_type"@, "pattern"@])
}

impl ActivityArchivePrivacyAddTool {
    pub fn new(db_path: String) -> (t: ActivityArchivePrivacyAddTool)
        ensures
            t.db_path == db_path,
    {
        ActivityArchivePrivacyAddTool { db_path }
    }

    pub fn name(&self) -> (n: &'static str)
        ensures
            n@ == "activity_archive_privacy_add"@,
    {
        "activity_archive_privacy_add"
    }

    pub fn description(&self) -> (d: &'static str)
        ensures
            d@ == "Add a privacy exclusion rule. Types: exclude_path, exclude_title, exclude_domain."@,
    {
        "Add a privacy exclusion rule. Types: exclude_path, exclude_title, exclude_domain."
    }

    pub fn parameters_schema(&self) -> (j: Json)
        ensures
            j.value() == privacy_add_schema(),
    {
        let mut kinds: Vec<Json> = Vec::new();
        kinds.push(str_json("exclude_path"));
        kinds.push(str_json("exclude_title"));
        kinds.push(str_json("exclude_domain"));
        let arr = Json::Array(kinds);
        assert(arr.value()->Array_0 =~= seq![JsonValue::Str("exclude_path"@), JsonValue::Str("exclude_title"@),
            JsonValue::Str("exclude_domain"@)]);
        let mut rt: Vec<(String, Json)> = Vec::new();
        rt.push((owned("type"), str_json("string")));
        rt.push((owned("enum"), arr));
        let rule_type = Json::Object(rt);
        assert(rule_type.value()->Object_0 =~= privacy_add_schema()->Object_0[1].1->Object_0[0].1->Object_0);
        let mut p: Vec<(String, Json)> = Vec::new();
        p.push((owned("rule_type"), rule_type));
        p.push((owned("pattern"), prop_json("string", Some("Glob pattern to exclude"), None)));
        let ghost pv = Seq::new(p@.len(), |i: int| (p@[i].0@, p@[i].1.value()));
        let mut req: Vec<&str> = Vec::new();
        req.push("rule_type");
        req.push("pattern");
        let ghost rv = Seq::new(req@.len(), |i: int| req@[i]@);
        let j = schema_json(p, req);
        proof {
            assert(rv =~= seq!["rule_type"@, "pattern"@]);
            assert(pv =~= privacy_add_schema()->Object_0[1].1->Object_0);
        }
        j
    }

    /// The arguments: the rule type (any text) and the trimmed pattern,
    /// which must not be blank.
    pub fn parse_args(args: &Json) -> (r: Result<(String, String), ToolResult>)
        ensures
            match r {
                Ok((t, p)) => args.str_field("pattern"@) matches Some(q) && trimmed(q).len() > 0 && p@ == trimmed(q)
                    && args.str_field("rule_type"@) == Some(t@),
                Err(e) => if args.str_field("rule_type"@) is None {
                    err_with(e, "Missing 'rule_type'"@)
                } else {
                    (args.str_field("pattern"@) is None || trimmed(args.str_field("pattern"@)->0).len() == 0)
                        && err_with(e, "Missing 'pattern'"@)
                },
            },
    {
        let rule_type = match args.get_str("rule_type") {
            Some(t) => t,
            None => {
                let mut m: Vec<char> = Vec::new();
                push_str(&mut m, "Missing 'rule_type'");
                return Err(err_result(m));
            },
        };
        let pattern = match args.get_str("pattern") {
            Some(p) => trim(p),
            None => {
                let mut m: Vec<char> = Vec::new();
                push_str(&mut m, "Missing 'pattern'");
                return Err(err_result(m));
            },
        };
        if pattern.unicode_len() == 0 {
            let mut m: Vec<char> = Vec::new();
            push_str(&mut m, "Missing 'pattern'");
            return Err(err_result(m));
        }
        Ok((owned(rule_type), owned(pattern)))
    }

    /// The answer once the rule is stored under `id`.
    pub fn render(id: &str, rule_type: &str, pattern: &str) -> (r: ToolResult)
        ensures
            ok_with(r, "Added rule "@ + id@ + ": "@ + rule_type@ + " '"@ + pattern@ + "'"@),
    {
        let mut v: Vec<char> = Vec::new();
        push_str(&mut v, "Added rule ");
        push_str(&mut v, id);
        push_str(&mut v, ": ");
        push_str(&mut v, rule_type);
        push_str(&mut v, " '");
        push_str(&mut v, pattern);
        push_str(&mut v, "'");
        ok_result(v)
    }
}

/// The tool that removes a privacy rule.
pub struct ActivityArchivePrivacyRemoveTool {
    pub db_path: String,
}

/// The rule-removing tool's parameter schema.
pub open spec fn privacy_remove_schema() -> JsonValue {
    schema(seq![("id"@, prop("string"@, Some("Rule ID to remove"@), None))], seq!["id"@])
}

impl ActivityArchivePrivacyRemoveTool {
    pub fn new(db_path: String) -> (t: ActivityArchivePrivacyRemoveTool)
        ensures
            t.db_path == db_path,
    {
        ActivityArchivePrivacyRemoveTool { db_path }
    }

    pub fn name(&self) -> (n: &'static str)
        ensures
            n@ == "activity_archive_privacy_remove"@,
    {
        "activity_archive_privacy_remove"
    }

    pub fn description(&self) -> (d: &'static str)
        ensures
            d@ == "Remove a privacy rule by its ID."@,
    {
        "Remove a privacy rule by its ID."
    }

    pub fn parameters_schema(&self) -> (j: Json)
        ensures
            j.value() == privacy_remove_schema(),
    {
        let mut p: Vec<(String, Json)> = Vec::new();
        p.push((owned("id"), prop_json("string", Some("Rule ID to remove"), None)));
        let ghost pv = Seq::new(p@.len(), |i: int| (p@[i].0@, p@[i].1.value()));
        let mut req: Vec<&str> = Vec::new();
        req.push("id");
        let ghost rv = Seq::new(req@.len(), |i: int| req@[i]@);
        let j = schema_json(p, req);
        proof {
            assert(rv =~= seq!["id"@]);
            assert(pv =~= privacy_remove_schema()->Object_0[1].1->Object_0);
        }
        j
    }

    /// The argument: the rule's id.
    pub fn parse_args(args: &Json) -> (r: Result<String, ToolResult>)
        ensures
            match r {
                Ok(id) => args.str_field("id"@) == Some(id@),
                Err(e) => args.str_field("id"@) is None && err_with(e, "Missing 'id'"@),
            },
    {
        match args.get_str("id") {
            Some(i) => Ok(owned(i)),
            None => {
                let mut m: Vec<char> = Vec::new();
                push_str(&mut m, "Missing 'id'");
                Err(err_result(m))
            },
        }
    }

    /// The answer once `deleted` rules were removed.
    pub fn render(id: &str, deleted: usize) -> (r: ToolResult)
        ensures
            deleted > 0 ==> ok_with(r, "Removed privacy rule "@ + id@ + "."@),
            deleted == 0 ==> err_with(r, "No rule found with ID '"@ + id@ + "'."@),
    {
        let mut v: Vec<char> = Vec::new();
        if deleted > 0 {
            push_str(&mut v, "Removed privacy rule ");
            push_str(&mut v, id);
            push_str(&mut v, ".");
            ok_result(v)
        } else {
            push_str(&mut v, "No rule found with ID '");
            push_str(&mut v, id);
            push_str(&mut v, "'.");
            err_result(v)
        }
    }
}

/// The tool that queues a Notion sync.
pub struct ActivityArchiveSyncNotionTool {
    pub db_path: String,
}

/// The sync tool's parameter schema.
pub open spec fn sync_schema() -> JsonValue {
    schema(seq![
        ("type"@, JsonValue::Object(seq![
            ("type"@, JsonValue::Str("string"@)),
            ("enum"@, JsonValue::Array(seq![JsonValue::Str("daily_log"@), JsonValue::Str("session"@),
                JsonValue::Str("project"@)])),
            ("default"@, JsonValue::Str("daily_log"@)),
        ])),
    ], Seq::empty())
}

impl ActivityArchiveSyncNotionTool {
    pub fn new(db_path: String) -> (t: ActivityArchiveSyncNotionTool)
        ensures
            t.db_path == db_path,
    {
        ActivityArchiveSyncNotionTool { db_path }
    }

    pub fn name(&self) -> (n: &'static str)
        ensures
            n@ == "activity_archive_sync_notion"@,
    {
        "activity_archive_sync_notion"
    }

    pub fn description(&self) -> (d: &'static str)
        ensures
            d@ == "Trigger a Notion sync for recent summaries/sessions."@,
    {
        "Trigger a Notion sync for recent summaries/sessions."
    }

    pub fn parameters_schema(&self) -> (j: Json)
        ensures
            j.value() == sync_schema(),
    {
        let mut kinds: Vec<&str> = Vec::new();
        kinds.push("daily_log");
        kinds.push("session");
        kinds.push("project");
        let ghost kv = Seq::new(kinds@.len(), |i: int| JsonValue::Str(kinds@[i]@));
        assert(kv =~= seq![JsonValue::Str("daily_log"@), JsonValue::Str("session"@), JsonValue::Str("project"@)]);
        let mut p: Vec<(String, Json)> = Vec::new();
        p.push((owned("type"), enum_prop(kinds, "daily_log")));
        let ghost pv = Seq::new(p@.len(), |i: int| (p@[i].0@, p@[i].1.value()));
        let j = schema_json(p, Vec::new());
        proof {
            assert(Seq::new(0nat, |i: int| ""@) =~= Seq::<Seq<char>>::empty());
            assert(pv =~= sync_schema()->Object_0[1].1->Object_0);
        }
        j
    }

    /// The argument: the kind of sync, `daily_log` by default.
    pub fn parse_args(args: &Json) -> (r: String)
        ensures
            r@ == (match args.str_field("type"@) {
                Some(t) => t,
                None => "daily_log"@,
            }),
    {
        match args.get_str("type") {
            Some(t) => owned(t),
            None => owned("daily_log"),
        }
    }

    /// The answer once the job is queued under `id`.
    pub fn render(sync_type: &str, id: &str) -> (r: ToolResult)
        ensures
            ok_with(r, "Queued "@ + sync_type@ + " sync (job "@ + id@ + "). Daemon will process shortly."@),
    {
        let mut v: Vec<char> = Vec::new();
        push_str(&mut v, "Queued ");
        push_str(&mut v, sync_type);
        push_str(&mut v, " sync (job ");
        push_str(&mut v, id);
        push_str(&mut v, "). Daemon will process shortly.");
        ok_result(v)
    }
}

/// The names of the nine tools, in registration order.
pub open spec fn tool_names() -> Seq<Seq<char>> {
    seq![
        "activity_archive_view"@,
        "activity_archive_stats"@,
        "activity_archive_search"@,
        "activity_archive_sessions"@,
        "activity_archive_summarize"@,
        "activity_archive_privacy_list"@,
        "activity_archive_privacy_add"@,
        "activity_archive_privacy_remove"@,
        "activity_archive_sync_notion"@,
    ]
}

/// Two texts that share what comes before and after a middle part are
/// equal exactly when their middle parts are.
proof fn lemma_middle(x: Seq<char>, p: Seq<char>, q: Seq<char>, y: Seq<char>)
    ensures
        (x + p + y == x + q + y) <==> p == q,
{
    if x + p + y == x + q + y {
        assert((x + p + y).len() == x.len() + p.len() + y.len());
        assert((x + q + y).len() == x.len() + q.len() + y.len());
        assert(p.len() == q.len());
        assert(p =~= (x + p + y).subrange(x.len() as int, (x.len() + p.len()) as int));
        assert(q =~= (x + q + y).subrange(x.len() as int, (x.len() + q.len()) as int));
    }
}

/// The count shown in a session line.
pub open spec fn shown_count(count: Option<i64>) -> int {
    match count {
        Some(c) => c as int,
        None => 0,
    }
}

/// A session line starts with the start, ` → ` and the end (`ongoing`
/// when there is none), then ` | ` and the app; it ends with its project
/// column: ` | `, the project (empty when there is none), then the event
/// count in brackets.
pub proof fn lemma_session_row_ends_with_project(start: Seq<char>, end: Option<String>, app: Option<String>,
    proj: Option<String>, count: Option<i64>)
    ensures
        starts_with(session_row(start, end, app, proj, count), start + " → "@ + (match end {
            Some(x) => x@,
            None => "ongoing"@,
        }) + " | "@ + or_empty(app)),
        ends_with(session_row(start, end, app, proj, count),
            " | "@ + or_empty(proj) + " ("@ + dec_int(shown_count(count)) + " events)"@),
{
    let row = session_row(start, end, app, proj, count);
    let e = match end {
        Some(x) => x@,
        None => "ongoing"@,
    };
    let head = start + " → "@ + e + " | "@ + or_empty(app);
    let tail = " | "@ + or_empty(proj) + " ("@ + dec_int(shown_count(count)) + " events)"@;
    assert(row =~= head + tail);
    assert(row.subrange(row.len() - tail.len(), row.len() as int) =~= tail);
    assert(row.subrange(0, head.len() as int) =~= head);
}

/// Session lines that differ only in the project differ exactly when the
/// project texts do: the line shows the session's project.
pub proof fn lemma_session_row_shows_project(start: Seq<char>, end: Option<String>, app: Option<String>,
    p1: Option<String>, p2: Option<String>, count: Option<i64>)
    ensures
        session_row(start, end, app, p1, count) == session_row(start, end, app, p2, count)
            <==> or_empty(p1) == or_empty(p2),
{
    let e = match end {
        Some(x) => x@,
        None => "ongoing"@,
    };
    let x = start + " → "@ + e + " | "@ + or_empty(app) + " | "@;
    let y = " ("@ + dec_int(shown_count(count)) + " events)"@;
    assert(session_row(start, end, app, p1, count) =~= x + or_empty(p1) + y);
    assert(session_row(start, end, app, p2, count) =~= x + or_empty(p2) + y);
    lemma_middle(x, or_empty(p1), or_empty(p2), y);
}

/// Session lines that differ only in the app differ exactly when the app
/// texts do: the line shows the session's app.
pub proof fn lemma_session_row_shows_app(start: Seq<char>, end: Option<String>, a1: Option<String>,
    a2: Option<String>, proj: Option<String>, count: Option<i64>)
    ensures
        session_row(start, end, a1, proj, count) == session_row(start, end, a2, proj, count)
            <==> or_empty(a1) == or_empty(a2),
{
    let e = match end {
        Some(x) => x@,
        None => "ongoing"@,
    };
    let x = start + " → "@ + e + " | "@;
    let y = " | "@ + or_empty(proj) + " ("@ + dec_int(shown_count(count)) + " events)"@;
    assert(session_row(start, end, a1, proj, count) =~= x + or_empty(a1) + y);
    assert(session_row(start, end, a2, proj, count) =~= x + or_empty(a2) + y);
    lemma_middle(x, or_empty(a1), or_empty(a2), y);
}

/// An event line ends with ` | ` and the event's title (empty when there is
/// none), and lines that differ only in the app differ exactly when the app
/// texts do.
pub proof fn lemma_event_row_columns(ts: Seq<char>, source: Seq<char>, etype: Seq<char>, a1: Option<String>,
    a2: Option<String>, title: Option<String>)
    ensures
        ends_with(event_row(ts, source, etype, a1, title), " | "@ + or_empty(title)),
        event_row(ts, source, etype, a1, title) == event_row(ts, source, etype, a2, title)
            <==> or_empty(a1) == or_empty(a2),
{
    let x = "["@ + ts + "] "@ + source + "/"@ + etype + " | "@;
    let y = " | "@ + or_empty(title);
    let row = event_row(ts, source, etype, a1, title);
    assert(row =~= x + or_empty(a1) + y);
    assert(event_row(ts, source, etype, a2, title) =~= x + or_empty(a2) + y);
    assert(row.subrange(row.len() - y.len(), row.len() as int) =~= y);
    lemma_middle(x, or_empty(a1), or_empty(a2), y);
}

/// A search line ends with ` | ` and the event's title (empty when there is
/// none), and lines that differ only in the app differ exactly when the app
/// texts do.
pub proof fn lemma_search_row_columns(ts: Seq<char>, src: Seq<char>, a1: Option<String>, a2: Option<String>,
    title: Option<String>)
    ensures
        ends_with(search_row(ts, src, a1, title), " | "@ + or_empty(title)),
        search_row(ts, src, a1, title) == search_row(ts, src, a2, title) <==> or_empty(a1) == or_empty(a2),
{
    let x = "["@ + ts + "] "@ + src + " | "@;
    let y = " | "@ + or_empty(title);
    let row = search_row(ts, src, a1, title);
    assert(row =~= x + or_empty(a1) + y);
    assert(search_row(ts, src, a2, title) =~= x + or_empty(a2) + y);
    assert(row.subrange(row.len() - y.len(), row.len() as int) =~= y);
    lemma_middle(x, or_empty(a1), or_empty(a2), y);
}

/// No two tools share a name.
pub proof fn lemma_tool_names_unique()
    ensures
        forall|i: int, j: int| 0 <= i < j < tool_names().len() ==> tool_names()[i] != tool_names()[j],
{
    reveal_strlit("activity_archive_view");
    reveal_strlit("activity_archive_stats");
    reveal_strlit("activity_archive_search");
    reveal_strlit("activity_archive_sessions");
    reveal_strlit("activity_archive_summarize");
    reveal_strlit("activity_archive_privacy_list");
    reveal_strlit("activity_archive_privacy_add");
    reveal_strlit("activity_archive_privacy_remove");
    reveal_strlit("activity_archive_sync_notion");
    let n = tool_names();
    assert forall|i: int, j: int| 0 <= i < j < n.len() implies n[i] != n[j] by {
        if n[i] == n[j] {
            assert(n[i].len() == n[j].len());
            assert(n[i][16] == n[j][16]);
            assert(n[i][17] == n[j][17]);
            assert(n[i][23] == n[j][23]);
        }
    }
}

} // verus!
