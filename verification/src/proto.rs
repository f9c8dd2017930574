//! Recognising hosts and bringing their payloads into one shape.

use vstd::prelude::*;
use crate::env;
use crate::env::{env_str, Env};
use crate::json;
use crate::lead;
use crate::json::{arr, as_str_lossy, copy_all, get, is_plain_object, is_truthy, one};
use crate::json::{pick, pick_bool, pick_str, text_field, views, Json, JsonView, Members, Object};
use crate::text;
use crate::text::{cat2, cat3, chars_of, cut_text, decimal, find_char, is_alnum, join, lower_char, same};

verus! {

broadcast use crate::json::group_json;

/// The grace that the hook adds to the popup's wait.
pub const WAIT_HTTP_MARGIN_MS: u64 = 300_000;

/// The wait written into the configuration of a host that counts seconds.
pub const HOST_WAIT_SEC: u64 = 4_200;

/// The wait written into the configuration of a host that counts milliseconds.
pub const HOST_WAIT_MS: u64 = 4_200_000;

/// How long the report of an event may take.
pub const EVENT_TIMEOUT_MS: u64 = 8_000;

/// The hosts that ask for permissions only through `PermissionRequest`.
pub open spec fn event_only(source: Seq<char>) -> bool {
    source == "codex"@
}

/// Whether a host asks for permissions only through `PermissionRequest`.
pub fn is_permission_event_only(source: &str) -> (r: bool)
    ensures
        r == event_only(source@),
{
    same(source, "codex")
}

// ---------------------------------------------------------------------------
// Tool names
// ---------------------------------------------------------------------------

/// The characters of a namespace.
pub open spec fn namespace_char(c: char) -> bool {
    text::alnum(c) || c == '_' || c == '.' || c == '-'
}

/// A name without its leading namespace: one or more namespace characters and
/// a slash.
pub open spec fn without_namespace(name: Seq<char>) -> Seq<char> {
    let i = text::index_of(name, '/');
    if 0 < i < name.len() && (forall|k: int| 0 <= k < i ==> namespace_char(#[trigger] name[k])) {
        name.skip(i + 1)
    } else {
        name
    }
}

/// The ASCII letters and digits of a text, made small.
pub open spec fn letters(s: Seq<char>) -> Seq<char>
    decreases s.len(),
{
    if s.len() == 0 {
        s
    } else if text::alnum(s.last()) {
        letters(s.drop_last()).push(text::lower(s.last()))
    } else {
        letters(s.drop_last())
    }
}

/// A tool's name in the form in which tools are compared: without namespace,
/// only small ASCII letters and digits, without a leading `vscode`.
pub open spec fn normal_name(name: Seq<char>) -> Seq<char> {
    let l = letters(without_namespace(name));
    if text::starts_with(l, "vscode"@) {
        l.skip("vscode"@.len() as int)
    } else {
        l
    }
}

/// Brings a tool's name into the form in which tools are compared.
pub fn normalize_tool_name(name: &str) -> (r: String)
    ensures
        r@ == normal_name(name@),
{
    let v = chars_of(name);
    let i: usize = find_char(&v, '/');
    let mut from: usize = 0;
    if 0 < i && i < v.len() {
        let mut k: usize = 0;
        let mut all = true;
        while k < i
            invariant
                k <= i < v@.len(),
                all == (forall|j: int| 0 <= j < k ==> namespace_char(#[trigger] v@[j])),
            decreases i - k,
        {
            let c = v[k];
            all = all && (is_alnum(c) || c == '_' || c == '.' || c == '-');
            k += 1;
        }
        if all {
            from = i + 1;
        }
    }
    let ghost rest = without_namespace(name@);
    assert(v@.skip(from as int) =~= rest);
    let mut l: Vec<char> = Vec::new();
    let mut k: usize = from;
    while k < v.len()
        invariant
            from <= k <= v@.len(),
            rest == v@.skip(from as int),
            l@ == letters(rest.take(k - from)),
        decreases v.len() - k,
    {
        proof {
            let next = rest.take(k - from + 1);
            assert(next.drop_last() =~= rest.take(k - from));
            assert(next.last() == v@[k as int]);
        }
        if is_alnum(v[k]) {
            l.push(lower_char(v[k]));
        }
        k += 1;
    }
    assert(rest.take(k - from) =~= rest);
    let p = chars_of("vscode");
    if text::matches_at(&l, &p, 0) {
        let r = text::text_between(&l, p.len(), l.len());
        assert(l@.subrange(p@.len() as int, l@.len() as int) =~= l@.skip(p@.len() as int));
        r
    } else {
        let r = text::text_between(&l, 0, l.len());
        assert(l@.subrange(0, l@.len() as int) =~= l@);
        r
    }
}

/// The names, in normal form, of the tools that ask the user something.
pub open spec fn ask_name(n: Seq<char>) -> bool {
    ||| n == "askuserquestion"@
    ||| n == "askuserquestions"@
    ||| n == "askuser"@
    ||| n == "askquestions"@
    ||| n == "askquestion"@
    ||| n == "question"@
}

/// Whether a tool's name is that of a tool that asks the user something.
pub fn is_ask_tool_name(name: &str) -> (r: bool)
    ensures
        r == ask_name(normal_name(name@)),
{
    let n = normalize_tool_name(name);
    same(n.as_str(), "askuserquestion") || same(n.as_str(), "askuserquestions") || same(
        n.as_str(),
        "askuser",
    ) || same(n.as_str(), "askquestions") || same(n.as_str(), "askquestion") || same(
        n.as_str(),
        "question",
    )
}

/// Whether the member named `k` is truthy.
pub open spec fn holds(v: JsonView, k: Seq<char>) -> bool {
    v.field(k) is Some && v.field(k)->0.truthy()
}

fn is_set(v: &Json, k: &str) -> (r: bool)
    ensures
        r == holds(v@, k@),
{
    match get(v, k) {
        Some(x) => is_truthy(x),
        None => false,
    }
}

/// The input of a payload's tool.
pub open spec fn input_of(p: JsonView) -> Option<JsonView> {
    p.pick(seq!["tool_input", "toolInput"])
}

/// Whether a payload is a question to the user: by its tool's name, or by an
/// input that holds questions (and no command or file), or one question (and no
/// command).
pub open spec fn asks(p: JsonView) -> bool {
    ||| ask_name(normal_name(p.pick_text(seq!["tool_name", "tool", "name"])))
    ||| match input_of(p) {
        Some(ti) => {
            ||| (ti.items("questions"@).len() > 0 && !holds(ti, "command"@) && !holds(
                ti,
                "file_path"@,
            ) && !holds(ti, "filePath"@))
            ||| (ti.text_field("question"@) is Some && !holds(ti, "command"@))
        },
        None => false,
    }
}

/// Whether a payload is a question to the user.
pub fn is_ask_tool(payload: &Json) -> (r: bool)
    ensures
        r == asks(payload@),
{
    let tool = pick_str(payload, &["tool_name", "tool", "name"]);
    if is_ask_tool_name(tool.as_str()) {
        return true;
    }
    match pick(payload, &["tool_input", "toolInput"]) {
        Some(ti) => {
            (arr(ti, "questions").len() > 0 && !is_set(ti, "command") && !is_set(ti, "file_path")
                && !is_set(ti, "filePath")) || (text_field(ti, "question").is_some() && !is_set(
                ti,
                "command",
            ))
        },
        None => false,
    }
}

/// The `questions` object made of an input's single question `q`.
pub open spec fn single_question(ti: JsonView, q: Seq<char>) -> JsonView {
    let options = match ti.field("options"@) {
        Some(JsonView::Arr(a)) => a,
        _ => ti.items("choices"@),
    };
    let entry = JsonView::object().with("question"@, JsonView::Str(q)).with(
        "header"@,
        JsonView::Str(ti.pick_text(seq!["header"])),
    ).with("options"@, JsonView::Arr(options)).with(
        "multiSelect"@,
        JsonView::Bool(ti.pick_flag(seq!["multiSelect", "multiple"])),
    );
    JsonView::object().with("questions"@, JsonView::Arr(seq![entry]))
}

/// The questions of a payload as an object with a `questions` array: the tool's
/// input itself where it has one, one made of a single `question`, or else the
/// input as it is.
pub open spec fn question_input(p: JsonView) -> JsonView {
    let ti = match input_of(p) {
        Some(v) => v,
        None => JsonView::object(),
    };
    match ti.text_field("question"@) {
        Some(q) if ti.items("questions"@).len() == 0 => single_question(ti, q),
        _ => ti,
    }
}

fn make_single_question(ti: &Json, q: &str) -> (r: Json)
    ensures
        r@ == single_question(ti@, q@),
{
    let options = match get(ti, "options") {
        Some(Json::Arr(a)) => Json::Arr(copy_all(a.as_slice())),
        _ => Json::Arr(copy_all(arr(ti, "choices"))),
    };
    let entry = Json::object().with("question", Json::text(q)).with(
        "header",
        Json::Str(pick_str(ti, &["header"])),
    ).with("options", options).with(
        "multiSelect",
        Json::Bool(pick_bool(ti, &["multiSelect", "multiple"])),
    );
    Json::object().with("questions", one(entry))
}

/// The questions of a payload as an object with a `questions` array.
pub fn tool_input_questions(payload: &Json) -> (r: Json)
    ensures
        r@ == question_input(payload@),
{
    let ti = match pick(payload, &["tool_input", "toolInput"]) {
        Some(v) => v.clone(),
        None => Json::object(),
    };
    if arr(&ti, "questions").len() > 0 {
        return ti;
    }
    if let Some(q) = text_field(&ti, "question") {
        return make_single_question(&ti, q);
    }
    ti
}

// ---------------------------------------------------------------------------
// Hosts and protocols
// ---------------------------------------------------------------------------

/// The host that a payload comes from. What was said explicitly comes first,
/// then the marks of each host, then the directories that hosts leave.
pub open spec fn source_of(p: JsonView, e: Env, zcode_dir: bool, trae_dir: bool) -> Seq<char> {
    match env::said(e.source) {
        Some(s) => s,
        None => match p.pick(seq!["source"]) {
            Some(s) => s.lossy(),
            None => if env::said(e.zcode_plugin_root) is Some || env::said(
                e.zcode_cli_home,
            ) is Some {
                "zcode"@
            } else if p.pick_flag(seq!["cursor_version", "conversation_id"]) {
                "cursor"@
            } else if p.pick_flag(seq!["llm_tool_name"]) || (p.pick_flag(seq!["workspace_roots"])
                && p.pick_flag(seq!["tool_use_id"])) {
                "trae"@
            } else if p.pick_flag(seq!["turn_id", "trigger"]) {
                "codex"@
            } else if zcode_dir {
                "zcode"@
            } else if trae_dir {
                "trae"@
            } else {
                lead::source_of(e.lead@)
            },
        },
    }
}

/// Finds the host that a payload comes from. `zcode_dir` and `trae_dir` say
/// whether the home directory holds `.zcode` and `.trae-cn`.
pub fn detect_source(payload: &Json, e: &Env, zcode_dir: bool, trae_dir: bool) -> (r: String)
    ensures
        r@ == source_of(payload@, *e, zcode_dir, trae_dir),
{
    if let Some(s) = env_str(&e.source) {
        return s;
    }
    if let Some(s) = pick(payload, &["source"]) {
        return as_str_lossy(s);
    }
    let found = if env_str(&e.zcode_plugin_root).is_some() || env_str(&e.zcode_cli_home).is_some() {
        "zcode"
    } else if pick_bool(payload, &["cursor_version", "conversation_id"]) {
        "cursor"
    } else if pick_bool(payload, &["llm_tool_name"]) || (pick_bool(payload, &["workspace_roots"])
        && pick_bool(payload, &["tool_use_id"])) {
        "trae"
    } else if pick_bool(payload, &["turn_id", "trigger"]) {
        "codex"
    } else if zcode_dir {
        "zcode"
    } else if trae_dir {
        "trae"
    } else {
        return lead::source(e.lead.as_str());
    };
    found.to_owned()
}

/// The names of Cursor's events.
pub open spec fn cursor_event(e: Seq<char>) -> bool {
    ||| e == "beforeShellExecution"@
    ||| e == "afterShellExecution"@
    ||| e == "beforeMCPExecution"@
    ||| e == "afterMCPExecution"@
    ||| e == "beforeReadFile"@
    ||| e == "afterFileEdit"@
    ||| e == "beforeSubmitPrompt"@
    ||| e == "afterAgentResponse"@
    ||| e == "afterAgentThought"@
    ||| e == "preToolUse"@
    ||| e == "postToolUse"@
    ||| e == "postToolUseFailure"@
    ||| e == "sessionStart"@
    ||| e == "sessionEnd"@
    ||| e == "subagentStart"@
    ||| e == "subagentStop"@
    ||| e == "preCompact"@
    ||| e == "stop"@
    ||| e == "afterTabFileEdit"@
    ||| e == "beforeTabFileRead"@
    ||| e == "workspaceOpen"@
}

/// Whether an event's name is one of Cursor's.
pub fn is_cursor_event(e: &str) -> (r: bool)
    ensures
        r == cursor_event(e@),
{
    same(e, "beforeShellExecution") || same(e, "afterShellExecution") || same(
        e,
        "beforeMCPExecution",
    ) || same(e, "afterMCPExecution") || same(e, "beforeReadFile") || same(e, "afterFileEdit")
        || same(e, "beforeSubmitPrompt") || same(e, "afterAgentResponse") || same(
        e,
        "afterAgentThought",
    ) || same(e, "preToolUse") || same(e, "postToolUse") || same(e, "postToolUseFailure") || same(
        e,
        "sessionStart",
    ) || same(e, "sessionEnd") || same(e, "subagentStart") || same(e, "subagentStop") || same(
        e,
        "preCompact",
    ) || same(e, "stop") || same(e, "afterTabFileEdit") || same(e, "beforeTabFileRead") || same(
        e,
        "workspaceOpen",
    )
}

/// How a payload wants to be handled.
#[derive(Clone, Copy, PartialEq, Eq, Structural, Debug)]
pub enum Protocol {
    Cursor,
    Ancli,
    OpencodePermission,
    OpencodeQuestion,
    OpencodeEvent,
}

impl Protocol {
    /// The protocol's name.
    pub open spec fn name(self) -> Seq<char> {
        match self {
            Protocol::Cursor => "cursor"@,
            Protocol::Ancli => "ancli"@,
            Protocol::OpencodePermission => "opencode-permission"@,
            Protocol::OpencodeQuestion => "opencode-question"@,
            Protocol::OpencodeEvent => "opencode-event"@,
        }
    }

    /// The protocol's name.
    pub fn as_str(self) -> (r: &'static str)
        ensures
            r@ == self.name(),
    {
        match self {
            Protocol::Cursor => "cursor",
            Protocol::Ancli => "ancli",
            Protocol::OpencodePermission => "opencode-permission",
            Protocol::OpencodeQuestion => "opencode-question",
            Protocol::OpencodeEvent => "opencode-event",
        }
    }
}

/// How a payload wants to be handled. An event's name decides; only without
/// one do the shapes of OpenCode count.
pub open spec fn protocol_of(p: JsonView) -> Protocol {
    let event = match p.text_field("hook_event_name"@) {
        Some(s) => s,
        None => Seq::empty(),
    };
    if cursor_event(event) {
        Protocol::Cursor
    } else if event.len() > 0 {
        Protocol::Ancli
    } else if p.field("permission"@) matches Some(v) && v is Obj {
        Protocol::OpencodePermission
    } else if p.field("questions"@) matches Some(v) && v is Arr {
        Protocol::OpencodeQuestion
    } else if p.text_field("event"@) is Some {
        Protocol::OpencodeEvent
    } else {
        Protocol::Ancli
    }
}

/// Finds how a payload wants to be handled.
pub fn detect_protocol(payload: &Json) -> (r: Protocol)
    ensures
        r == protocol_of(payload@),
{
    let event = match text_field(payload, "hook_event_name") {
        Some(s) => s,
        None => "",
    };
    proof {
        reveal_strlit("");
        assert(""@ =~= Seq::<char>::empty());
    }
    if is_cursor_event(event) {
        return Protocol::Cursor;
    }
    if !event.is_empty() {
        return Protocol::Ancli;
    }
    if let Some(Json::Obj(_)) = get(payload, "permission") {
        return Protocol::OpencodePermission;
    }
    if let Some(Json::Arr(_)) = get(payload, "questions") {
        return Protocol::OpencodeQuestion;
    }
    if text_field(payload, "event").is_some() {
        return Protocol::OpencodeEvent;
    }
    Protocol::Ancli
}

// ---------------------------------------------------------------------------
// Summaries and rules
// ---------------------------------------------------------------------------

/// A value as a summary shows it: a text as it is, anything else as compact
/// JSON.
pub open spec fn shown(v: JsonView) -> Seq<char> {
    match v {
        JsonView::Str(s) => s,
        _ => json::compact(v),
    }
}

/// One line of a summary, made of a name and the shown value.
pub open spec fn summary_line(name: Seq<char>, printed: Seq<char>) -> Seq<char> {
    name + ": "@ + text::cut(printed, 400)
}

/// The lines of the first `n` members.
pub open spec fn summary_lines(m: Members, n: int) -> Seq<Seq<char>> {
    Seq::new(n as nat, |i: int| summary_line(m[i].0, shown(m[i].1)))
}

/// The summary of a tool's input: its first four members, one to a line.
pub open spec fn summary(v: JsonView) -> Seq<char> {
    let m = v.members();
    text::joined(
        summary_lines(
            m,
            if m.len() < 4 {
                m.len() as int
            } else {
                4
            },
        ),
        "\n"@,
    )
}

/// One line of a summary, made of a name and the printed value.
pub fn summary_entry(name: &str, printed: &str) -> (r: String)
    ensures
        r@ == summary_line(name@, printed@),
{
    let short = cut_text(printed, 400);
    cat3(name, ": ", short.as_str())
}

/// Summarises a tool's input.
pub fn summarize_tool_input(tool_input: &Json) -> (r: String)
    ensures
        r@ == summary(tool_input@),
{
    let ghost m = tool_input@.members();
    let mut parts: Vec<String> = Vec::new();
    if let Json::Obj(o) = tool_input {
        let n: usize = if o.entries.len() < 4 {
            o.entries.len()
        } else {
            4
        };
        let mut i: usize = 0;
        while i < n
            invariant
                i <= n <= o.entries@.len(),
                m == o@,
                parts@.len() == i,
                forall|k: int|
                    0 <= k < i ==> (#[trigger] parts@[k])@ == summary_line(m[k].0, shown(m[k].1)),
            decreases n - i,
        {
            assert(m[i as int] == (o.entries@[i as int].0@, o.entries@[i as int].1@));
            let printed = match &o.entries[i].1 {
                Json::Str(s) => s.clone(),
                other => json::compact_text(other),
            };
            parts.push(summary_entry(o.entries[i].0.as_str(), printed.as_str()));
            i += 1;
        }
    }
    let r = join(&parts, "\n");
    assert(text::texts(parts@) =~= summary_lines(m, parts@.len() as int));
    r
}

/// The part of a tool's input that an "always allow" rule is made of.
pub open spec fn rule_of(input: JsonView) -> Seq<char> {
    match input.pick(
        seq!["command", "pattern", "file_path", "filePath", "path", "url", "description"],
    ) {
        Some(JsonView::Str(s)) => text::cut(s, 200),
        _ => "*"@,
    }
}

/// Picks the part of a tool's input that an "always allow" rule is made of,
/// whatever the tool.
pub fn rule_content_for(_tool: &str, tool_input: &Json) -> (r: String)
    ensures
        r@ == rule_of(tool_input@),
{
    match pick(
        tool_input,
        &["command", "pattern", "file_path", "filePath", "path", "url", "description"],
    ) {
        Some(Json::Str(s)) => cut_text(s.as_str(), 200),
        _ => "*".to_owned(),
    }
}

/// The entry that adds `rules` to the permissions kept at `dest`.
pub open spec fn add_rules(rules: JsonView, dest: Seq<char>) -> JsonView {
    JsonView::object().with("type"@, JsonView::Str("addRules"@)).with(
        "rules"@,
        JsonView::Arr(seq![rules]),
    ).with("behavior"@, JsonView::Str("allow"@)).with("destination"@, JsonView::Str(dest))
}

/// The rule that allows `tool` on `content`.
pub open spec fn tool_rule(tool: Seq<char>, content: Seq<char>) -> JsonView {
    JsonView::object().with("toolName"@, JsonView::Str(tool)).with(
        "ruleContent"@,
        JsonView::Str(content),
    )
}

/// The permission entry for one suggestion of the host: an entry that has rules
/// is kept but for its behaviour and, where it names none, its destination;
/// another object becomes a rule; anything else becomes a rule's content.
pub open spec fn update_of(s: JsonView, tool: Seq<char>, dest: Seq<char>) -> JsonView {
    if s is Obj && s.field("rules"@) is Some {
        let keep = s.pick_text(seq!["destination"]);
        s.set("behavior"@, JsonView::Str("allow"@)).set(
            "destination"@,
            JsonView::Str(
                if keep.len() == 0 {
                    dest
                } else {
                    keep
                },
            ),
        )
    } else if s is Obj {
        add_rules(s, dest)
    } else {
        add_rules(tool_rule(tool, s.lossy()), dest)
    }
}

/// Where new permissions are kept.
pub open spec fn destination(e: Env) -> Seq<char> {
    match env::said(e.permission_dest) {
        Some(s) => s,
        None => "projectSettings"@,
    }
}

/// The permission entries of an "always allow": one for each of the host's
/// first four suggestions, or one rule made of the tool's input.
pub open spec fn updates_of(
    tool: Seq<char>,
    input: JsonView,
    suggestions: Seq<JsonView>,
    dest: Seq<char>,
) -> Seq<JsonView> {
    if suggestions.len() > 0 {
        Seq::new(
            if suggestions.len() < 4 {
                suggestions.len()
            } else {
                4
            },
            |i: int| update_of(suggestions[i], tool, dest),
        )
    } else {
        seq![add_rules(tool_rule(tool, rule_of(input)), dest)]
    }
}

fn make_add_rules(rules: Json, dest: &str) -> (r: Json)
    ensures
        r@ == add_rules(rules@, dest@),
{
    Json::object().with("type", Json::text("addRules")).with("rules", one(rules)).with(
        "behavior",
        Json::text("allow"),
    ).with("destination", Json::text(dest))
}

fn make_tool_rule(tool: &str, content: &str) -> (r: Json)
    ensures
        r@ == tool_rule(tool@, content@),
{
    Json::object().with("toolName", Json::text(tool)).with("ruleContent", Json::text(content))
}

fn make_update(s: &Json, tool: &str, dest: &str) -> (r: Json)
    ensures
        r@ == update_of(s@, tool@, dest@),
{
    if is_plain_object(s) {
        if get(s, "rules").is_some() {
            let keep = pick_str(s, &["destination"]);
            let d = if keep.as_str().is_empty() {
                Json::text(dest)
            } else {
                Json::Str(keep)
            };
            s.clone().set("behavior", Json::text("allow")).set("destination", d)
        } else {
            make_add_rules(s.clone(), dest)
        }
    } else {
        let content = as_str_lossy(s);
        make_add_rules(make_tool_rule(tool, content.as_str()), dest)
    }
}

/// Makes the permission entries of an "always allow".
pub fn build_permission_updates(
    tool: &str,
    tool_input: &Json,
    suggestions: &[Json],
    e: &Env,
) -> (r: Vec<Json>)
    ensures
        views(r@) == updates_of(tool@, tool_input@, views(suggestions@), destination(*e)),
{
    let dest = match env_str(&e.permission_dest) {
        Some(s) => s,
        None => "projectSettings".to_owned(),
    };
    let mut r: Vec<Json> = Vec::new();
    if suggestions.len() > 0 {
        let n: usize = if suggestions.len() < 4 {
            suggestions.len()
        } else {
            4
        };
        let mut i: usize = 0;
        while i < n
            invariant
                i <= n <= suggestions@.len(),
                r@.len() == i,
                forall|k: int|
                    0 <= k < i ==> (#[trigger] r@[k])@ == update_of(
                        suggestions@[k]@,
                        tool@,
                        dest@,
                    ),
            decreases n - i,
        {
            r.push(make_update(&suggestions[i], tool, dest.as_str()));
            i += 1;
        }
    } else {
        let rule = rule_content_for(tool, tool_input);
        r.push(make_add_rules(make_tool_rule(tool, rule.as_str()), dest.as_str()));
    }
    assert(views(r@) =~= updates_of(tool@, tool_input@, views(suggestions@), destination(*e)));
    r
}

// ---------------------------------------------------------------------------
// Questions and answers
// ---------------------------------------------------------------------------

/// An option of a question: a text is its label, an object is read by the given
/// names.
pub open spec fn option_of(
    o: JsonView,
    j: int,
    labels: Seq<&str>,
    descriptions: Seq<&str>,
) -> JsonView {
    let label = match o {
        JsonView::Str(s) => s,
        _ => o.pick_text(labels),
    };
    let description = match o {
        JsonView::Str(_) => Seq::empty(),
        _ => o.pick_text(descriptions),
    };
    JsonView::object().with("id"@, JsonView::Str("o"@ + text::int_text(j))).with(
        "label"@,
        JsonView::Str(label),
    ).with("description"@, JsonView::Str(description))
}

/// The label of an option.
pub open spec fn label_of(o: JsonView, labels: Seq<&str>) -> Seq<char> {
    match o {
        JsonView::Str(s) => s,
        _ => o.pick_text(labels),
    }
}

/// The options among the first `n` that have a label; each keeps the number of
/// its place.
pub open spec fn options_of(
    raw: Seq<JsonView>,
    n: int,
    labels: Seq<&str>,
    descriptions: Seq<&str>,
) -> Seq<JsonView>
    decreases n,
{
    if n <= 0 {
        Seq::empty()
    } else {
        let head = options_of(raw, n - 1, labels, descriptions);
        if label_of(raw[n - 1], labels).len() > 0 {
            head.push(option_of(raw[n - 1], n - 1, labels, descriptions))
        } else {
            head
        }
    }
}

/// The smaller of two lengths.
pub open spec fn at_most(n: nat, most: int) -> int {
    if n < most {
        n as int
    } else {
        most
    }
}

/// Reads the first six options of a question.
pub fn read_options(raw: &[Json], labels: &[&str], descriptions: &[&str]) -> (r: Vec<Json>)
    ensures
        views(r@) == options_of(views(raw@), at_most(raw@.len(), 6), labels@, descriptions@),
{
    let n: usize = if raw.len() < 6 {
        raw.len()
    } else {
        6
    };
    let mut r: Vec<Json> = Vec::new();
    assert(views(r@) =~= Seq::empty());
    let mut j: usize = 0;
    while j < n
        invariant
            j <= n <= raw@.len(),
            views(r@) == options_of(views(raw@), j as int, labels@, descriptions@),
        decreases n - j,
    {
        let (label, description) = match &raw[j] {
            Json::Str(s) => (s.clone(), String::new()),
            o => (pick_str(o, labels), pick_str(o, descriptions)),
        };
        let ghost before = views(r@);
        assert(views(raw@)[j as int] == raw@[j as int]@);
        if !label.as_str().is_empty() {
            let id = cat2("o", decimal(j as u64).as_str());
            let o = Json::object().with("id", Json::Str(id)).with("label", Json::Str(label)).with(
                "description",
                Json::Str(description),
            );
            r.push(o);
            assert(views(r@) =~= before.push(o@));
        }
        j += 1;
    }
    r
}

/// The question a payload asks at place `i`.
pub open spec fn question_of(q: JsonView, i: int) -> JsonView {
    let asked = q.pick_text(seq!["question", "text", "title"]);
    let options = options_of(
        q.items("options"@),
        at_most(q.items("options"@).len(), 6),
        seq!["label", "text", "value"],
        seq!["description", "hint"],
    );
    JsonView::object().with("id"@, JsonView::Str("q"@ + text::int_text(i))).with(
        "question"@,
        JsonView::Str(
            if asked.len() == 0 {
                "问题 "@ + text::int_text(i + 1)
            } else {
                asked
            },
        ),
    ).with("header"@, JsonView::Str(q.pick_text(seq!["header"]))).with(
        "multiSelect"@,
        JsonView::Bool(q.pick_flag(seq!["multiSelect", "multiple"])),
    ).with(
        "custom"@,
        JsonView::Bool(
            match q.field("custom"@) {
                Some(JsonView::Bool(b)) => b,
                _ => options.len() == 0 || q.pick_flag(seq!["allowFreeformInput", "openEnded"]),
            },
        ),
    ).with("options"@, JsonView::Arr(options))
}

/// The first four questions of an input.
pub open spec fn questions_of(input: JsonView) -> Seq<JsonView> {
    let raw = input.items("questions"@);
    Seq::new(at_most(raw.len(), 4) as nat, |i: int| question_of(raw[i], i))
}

fn make_question(q: &Json, i: usize) -> (r: Json)
    requires
        i < 4,
    ensures
        r@ == question_of(q@, i as int),
{
    let asked = pick_str(q, &["question", "text", "title"]);
    let question = if asked.as_str().is_empty() {
        cat2("问题 ", decimal((i + 1) as u64).as_str())
    } else {
        asked
    };
    let options = read_options(
        arr(q, "options"),
        &["label", "text", "value"],
        &["description", "hint"],
    );
    let custom = match get(q, "custom") {
        Some(Json::Bool(b)) => *b,
        _ => options.len() == 0 || pick_bool(q, &["allowFreeformInput", "openEnded"]),
    };
    Json::object().with("id", Json::Str(cat2("q", decimal(i as u64).as_str()))).with(
        "question",
        Json::Str(question),
    ).with("header", Json::Str(pick_str(q, &["header"]))).with(
        "multiSelect",
        Json::Bool(pick_bool(q, &["multiSelect", "multiple"])),
    ).with("custom", Json::Bool(custom)).with("options", Json::Arr(options))
}

/// Reads the questions of a tool's input in the popup's shape.
pub fn questions_from_tool_input(tool_input: &Json) -> (r: Vec<Json>)
    ensures
        views(r@) == questions_of(tool_input@),
        r@.len() <= 4,
{
    let raw = arr(tool_input, "questions");
    let n: usize = if raw.len() < 4 {
        raw.len()
    } else {
        4
    };
    let mut r: Vec<Json> = Vec::new();
    let mut i: usize = 0;
    while i < n
        invariant
            i <= n <= raw@.len(),
            n <= 4,
            r@.len() == i,
            forall|k: int| 0 <= k < i ==> (#[trigger] r@[k])@ == question_of(raw@[k]@, k),
        decreases n - i,
    {
        r.push(make_question(&raw[i], i));
        i += 1;
    }
    assert(views(r@) =~= questions_of(tool_input@));
    r
}

/// The answer to one question, as the agent wants it: all of a list, or its
/// first, by whether several may be chosen; of a text all of it, or its first
/// character. An empty answer, and one of another shape, is none.
pub open spec fn answer_value(v: JsonView, multi: bool) -> Option<JsonView> {
    match v {
        JsonView::Arr(a) => if a.len() == 0 {
            None
        } else if multi {
            Some(v)
        } else {
            Some(a[0])
        },
        JsonView::Str(s) => if s.len() == 0 {
            None
        } else if multi {
            Some(v)
        } else {
            Some(JsonView::Str(s.take(1)))
        },
        _ => None,
    }
}

/// The answer to question `q` among `answers`, which are kept by the
/// questions' ids.
pub open spec fn answer_to(q: JsonView, answers: JsonView) -> Option<JsonView> {
    match answers.field(q.pick_text(seq!["id"])) {
        Some(v) => answer_value(v, q.pick_flag(seq!["multiSelect"])),
        None => None,
    }
}

/// The answers to the first `n` questions, kept by the questions' texts.
pub open spec fn answer_map(questions: Seq<JsonView>, answers: JsonView, n: int) -> Members
    decreases n,
{
    if n <= 0 {
        Members::empty()
    } else {
        let head = answer_map(questions, answers, n - 1);
        match answer_to(questions[n - 1], answers) {
            Some(v) => json::put(head, questions[n - 1].pick_text(seq!["question"]), v),
            None => head,
        }
    }
}

fn make_answer(v: &Json, multi: bool) -> (r: Option<Json>)
    ensures
        match r {
            Some(x) => answer_value(v@, multi) == Some(x@),
            None => answer_value(v@, multi) is None,
        },
{
    match v {
        Json::Arr(a) => {
            assert(v@ == JsonView::Arr(views(a@)));
            if a.len() == 0 {
                None
            } else if multi {
                Some(v.clone())
            } else {
                Some(a[0].clone())
            }
        },
        Json::Str(s) => {
            if s.as_str().is_empty() {
                None
            } else if multi {
                Some(v.clone())
            } else {
                let chars = chars_of(s.as_str());
                let first = text::text_between(&chars, 0, 1);
                assert(first@ =~= s@.take(1));
                Some(Json::Str(first))
            }
        },
        _ => None,
    }
}

/// Brings the popup's answers, kept by the questions' ids, into the agent's
/// shape, kept by the questions' texts.
pub fn build_answer_map(questions: &[Json], answers: &Json) -> (r: Json)
    ensures
        r@ == JsonView::Obj(answer_map(views(questions@), answers@, questions@.len() as int)),
{
    let mut out = Object::new();
    let mut i: usize = 0;
    while i < questions.len()
        invariant
            i <= questions@.len(),
            out@ == answer_map(views(questions@), answers@, i as int),
        decreases questions.len() - i,
    {
        let q = &questions[i];
        assert(views(questions@)[i as int] == q@);
        let id = pick_str(q, &["id"]);
        if let Some(v) = get(answers, id.as_str()) {
            if let Some(x) = make_answer(v, pick_bool(q, &["multiSelect"])) {
                out.put(pick_str(q, &["question"]).as_str(), x);
            }
        }
        i += 1;
    }
    Json::Obj(out)
}

/// One answer as text: the items of a list with `、` between them.
pub open spec fn answer_text(v: JsonView) -> Seq<char> {
    match v {
        JsonView::Arr(a) => text::joined(a.map_values(|x: JsonView| x.lossy()), "、"@),
        _ => v.lossy(),
    }
}

/// The answers as text: one line for each question.
pub open spec fn answers_text(v: JsonView) -> Seq<char> {
    text::joined(
        v.members().map_values(|e: (Seq<char>, JsonView)| e.0 + " → "@ + answer_text(e.1)),
        "\n"@,
    )
}

fn print_answer(v: &Json) -> (r: String)
    ensures
        r@ == answer_text(v@),
{
    match v {
        Json::Arr(a) => {
            assert(v@ == JsonView::Arr(views(a@)));
            let parts = texts_of(a.as_slice());
            join(&parts, "、")
        },
        _ => as_str_lossy(v),
    }
}

/// The items of a list as texts.
pub fn texts_of(a: &[Json]) -> (r: Vec<String>)
    ensures
        text::texts(r@) == views(a@).map_values(|x: JsonView| x.lossy()),
{
    let mut r: Vec<String> = Vec::new();
    let mut i: usize = 0;
    while i < a.len()
        invariant
            i <= a@.len(),
            r@.len() == i,
            forall|k: int| 0 <= k < i ==> (#[trigger] r@[k])@ == a@[k]@.lossy(),
        decreases a.len() - i,
    {
        r.push(as_str_lossy(&a[i]));
        i += 1;
    }
    assert(text::texts(r@) =~= views(a@).map_values(|x: JsonView| x.lossy()));
    r
}

/// Prints the answers, one line for each question.
pub fn format_answer_map(map: &Json) -> (r: String)
    ensures
        r@ == answers_text(map@),
{
    let mut parts: Vec<String> = Vec::new();
    let ghost m = map@.members();
    if let Json::Obj(o) = map {
        let mut i: usize = 0;
        while i < o.entries.len()
            invariant
                i <= o.entries@.len(),
                m == o@,
                parts@.len() == i,
                forall|k: int|
                    0 <= k < i ==> (#[trigger] parts@[k])@ == m[k].0 + " → "@ + answer_text(m[k].1),
            decreases o.entries.len() - i,
        {
            assert(m[i as int] == (o.entries@[i as int].0@, o.entries@[i as int].1@));
            let a = print_answer(&o.entries[i].1);
            parts.push(cat3(o.entries[i].0.as_str(), " → ", a.as_str()));
            i += 1;
        }
    }
    assert(text::texts(parts@) =~= m.map_values(
        |e: (Seq<char>, JsonView)| e.0 + " → "@ + answer_text(e.1),
    ));
    join(&parts, "\n")
}

// ---------------------------------------------------------------------------
// What the hook makes of a payload, word for word
// ---------------------------------------------------------------------------

proof fn lemma_answers_of_others(questions: Seq<JsonView>, answers: JsonView, n: int, name: Seq<char>)
    requires
        0 <= n <= questions.len(),
        forall|j: int|
            0 <= j < n ==> (#[trigger] questions[j]).pick_text(seq!["question"]) != name,
    ensures
        json::lookup(answer_map(questions, answers, n), name) is None,
    decreases n,
{
    if n > 0 {
        lemma_answers_of_others(questions, answers, n - 1, name);
        let head = answer_map(questions, answers, n - 1);
        let q = questions[n - 1].pick_text(seq!["question"]);
        if let Some(v) = answer_to(questions[n - 1], answers) {
            json::law_put_then_lookup(head, q, v, name);
        }
    } else {
        json::lemma_position(Members::empty(), name);
    }
}

/// Every answer goes under the text of its question, where no two questions have the
/// same; a question without an answer has none.
pub proof fn law_answers_go_under_their_questions(
    questions: Seq<JsonView>,
    answers: JsonView,
    n: int,
    i: int,
)
    requires
        0 <= i < n <= questions.len(),
        forall|j: int, k: int|
            0 <= j < k < n ==> (#[trigger] questions[j]).pick_text(seq!["question"]) != (
            #[trigger] questions[k]).pick_text(seq!["question"]),
    ensures
        json::lookup(
            answer_map(questions, answers, n),
            questions[i].pick_text(seq!["question"]),
        ) == answer_to(questions[i], answers),
    decreases n,
{
    let name = questions[i].pick_text(seq!["question"]);
    let head = answer_map(questions, answers, n - 1);
    let q = questions[n - 1].pick_text(seq!["question"]);
    if i == n - 1 {
        assert forall|j: int| 0 <= j < n - 1 implies (#[trigger] questions[j]).pick_text(
            seq!["question"],
        ) != name by {
            assert(questions[i].pick_text(seq!["question"]) == name);
        }
        lemma_answers_of_others(questions, answers, n - 1, name);
    } else {
        law_answers_go_under_their_questions(questions, answers, n - 1, i);
        assert(questions[i].pick_text(seq!["question"]) != questions[n - 1].pick_text(
            seq!["question"],
        ));
    }
    if let Some(v) = answer_to(questions[n - 1], answers) {
        json::law_put_then_lookup(head, q, v, name);
    }
}

/// Of the choices to a question the first one counts, unless several may be made.
pub proof fn law_one_choice_unless_several_may_be_made(chosen: Seq<JsonView>)
    ensures
        chosen.len() > 0 ==> answer_value(JsonView::Arr(chosen), false) == Some(chosen[0]),
        chosen.len() > 0 ==> answer_value(JsonView::Arr(chosen), true) == Some(
            JsonView::Arr(chosen),
        ),
        chosen.len() == 0 ==> answer_value(JsonView::Arr(chosen), true) is None && answer_value(
            JsonView::Arr(chosen),
            false,
        ) is None,
{
}

/// A question is shown as it is asked: its words, its heading, and whether several
/// choices may be made.
pub proof fn law_questions_are_shown_as_asked(
    input: JsonView,
    raw: Seq<JsonView>,
    i: int,
    said: Seq<char>,
    header: Seq<char>,
    multi: bool,
)
    requires
        input.field("questions"@) == Some(JsonView::Arr(raw)),
        0 <= i < raw.len(),
        raw.len() <= 4,
        raw[i].field("question"@) == Some(JsonView::Str(said)),
        said.len() > 0,
        raw[i].field("header"@) == Some(JsonView::Str(header)),
        raw[i].field("multiSelect"@) == Some(JsonView::Bool(multi)),
        raw[i].field("multiple"@) is None,
    ensures
        questions_of(input).len() == raw.len(),
        ({
            let q = questions_of(input)[i];
            &&& q.field("question"@) == Some(JsonView::Str(said))
            &&& q.field("header"@) == Some(JsonView::Str(header))
            &&& q.field("multiSelect"@) == Some(JsonView::Bool(multi))
            &&& q.field("id"@) == Some(JsonView::Str("q"@ + text::int_text(i)))
        }),
{
    broadcast use crate::json::group_fields;

    lemma_question_fields(raw[i], i);
    let keys: Seq<&str> = seq!["question", "text", "title"];
    assert(keys[0]@ == "question"@);
    json::lemma_picked(raw[i], "header", JsonView::Str(header));
    let flags: Seq<&str> = seq!["multiSelect", "multiple"];
    assert(flags[0]@ == "multiSelect"@ && flags[1]@ == "multiple"@);
    if multi {
        json::law_the_first_name_counts(raw[i], flags, 0);
    } else {
        json::law_no_name_counts(raw[i], flags);
    }
    json::law_the_first_name_counts(raw[i], keys, 0);
}

/// The members of a shown question.
pub proof fn lemma_question_fields(q: JsonView, i: int)
    ensures
        ({
            let shown = question_of(q, i);
            let asked = q.pick_text(seq!["question", "text", "title"]);
            &&& shown is Obj
            &&& shown.field("id"@) == Some(JsonView::Str("q"@ + text::int_text(i)))
            &&& shown.field("question"@) == Some(
                JsonView::Str(
                    if asked.len() == 0 {
                        "问题 "@ + text::int_text(i + 1)
                    } else {
                        asked
                    },
                ),
            )
            &&& shown.field("header"@) == Some(JsonView::Str(q.pick_text(seq!["header"])))
            &&& shown.field("multiSelect"@) == Some(
                JsonView::Bool(q.pick_flag(seq!["multiSelect", "multiple"])),
            )
            &&& shown.field("options"@) == Some(
                JsonView::Arr(
                    options_of(
                        q.items("options"@),
                        at_most(q.items("options"@).len(), 6),
                        seq!["label", "text", "value"],
                        seq!["description", "hint"],
                    ),
                ),
            )
        }),
{
    broadcast use crate::json::group_fields;

    reveal_strlit("id");
    reveal_strlit("question");
    reveal_strlit("header");
    reveal_strlit("multiSelect");
    reveal_strlit("custom");
    reveal_strlit("options");
    assert("id"@.len() == 2);
    assert("question"@.len() == 8);
    assert("header"@.len() == 6);
    assert("multiSelect"@.len() == 11);
    assert("custom"@.len() == 6);
    assert("options"@.len() == 7);
    assert("header"@[0] == 'h');
    assert("custom"@[0] == 'c');
}

proof fn lemma_option_fields(o: JsonView, j: int, labels: Seq<&str>, descriptions: Seq<&str>)
    ensures
        ({
            let shown = option_of(o, j, labels, descriptions);
            &&& shown.field("label"@) == Some(JsonView::Str(label_of(o, labels)))
            &&& shown.field("id"@) == Some(JsonView::Str("o"@ + text::int_text(j)))
        }),
{
    broadcast use crate::json::group_fields;

    reveal_strlit("id");
    reveal_strlit("label");
    reveal_strlit("description");
    assert("id"@.len() == 2);
    assert("label"@.len() == 5);
    assert("description"@.len() == 11);
}

proof fn lemma_options_shown(
    raw: Seq<JsonView>,
    n: int,
    labels: Seq<&str>,
    descriptions: Seq<&str>,
)
    requires
        0 <= n <= raw.len(),
        forall|j: int| 0 <= j < n ==> label_of(#[trigger] raw[j], labels).len() > 0,
    ensures
        options_of(raw, n, labels, descriptions).len() == n,
        forall|j: int|
            0 <= j < n ==> #[trigger] options_of(raw, n, labels, descriptions)[j] == option_of(
                raw[j],
                j,
                labels,
                descriptions,
            ),
    decreases n,
{
    if n > 0 {
        lemma_options_shown(raw, n - 1, labels, descriptions);
        assert(label_of(raw[n - 1], labels).len() > 0);
    }
}

/// The choices to a question are shown in the order and in the words in which they
/// are offered, up to six of them.
pub proof fn law_choices_are_shown_as_offered(q: JsonView, i: int, raw: Seq<JsonView>, j: int)
    requires
        q.field("options"@) == Some(JsonView::Arr(raw)),
        raw.len() <= 6,
        forall|k: int|
            0 <= k < raw.len() ==> ((#[trigger] raw[k]).field("label"@) matches Some(
                JsonView::Str(s),
            ) && s.len() > 0),
        0 <= j < raw.len(),
    ensures
        question_of(q, i).items("options"@).len() == raw.len(),
        question_of(q, i).items("options"@)[j].field("label"@) == raw[j].field("label"@),
{
    let labels: Seq<&str> = seq!["label", "text", "value"];
    let descriptions: Seq<&str> = seq!["description", "hint"];
    assert(labels[0]@ == "label"@);
    lemma_question_fields(q, i);
    assert forall|k: int| 0 <= k < raw.len() implies label_of(#[trigger] raw[k], labels).len() > 0 by {
        json::law_the_first_name_counts(raw[k], labels, 0);
    }
    lemma_options_shown(raw, raw.len() as int, labels, descriptions);
    json::law_the_first_name_counts(raw[j], labels, 0);
    lemma_option_fields(raw[j], j, labels, descriptions);
    assert(q.items("options"@) == raw);
    assert(question_of(q, i).items("options"@)[j] == option_of(raw[j], j, labels, descriptions));
}

/// An input with one bare question asks just that, with its choices.
pub proof fn law_a_bare_question_is_asked(
    p: JsonView,
    input: JsonView,
    said: Seq<char>,
    choices: Seq<JsonView>,
)
    requires
        p.field("tool_input"@) == Some(input),
        input.field("question"@) == Some(JsonView::Str(said)),
        input.field("questions"@) is None,
    ensures
        ({
            let list = question_input(p).items("questions"@);
            &&& list.len() == 1
            &&& list[0].field("question"@) == Some(JsonView::Str(said))
            &&& input.field("options"@) == Some(JsonView::Arr(choices)) ==> list[0].items("options"@)
                == choices
            &&& input.field("options"@) is None && input.field("choices"@) == Some(
                JsonView::Arr(choices),
            ) ==> list[0].items("options"@) == choices
        }),
{
    broadcast use crate::json::group_fields;

    reveal_strlit("question");
    reveal_strlit("header");
    reveal_strlit("options");
    reveal_strlit("multiSelect");
    reveal_strlit("questions");
    assert("question"@.len() == 8);
    assert("header"@.len() == 6);
    assert("options"@.len() == 7);
    assert("multiSelect"@.len() == 11);
    assert("questions"@.len() == 9);
    let keys: Seq<&str> = seq!["tool_input", "toolInput"];
    assert(keys[0]@ == "tool_input"@);
    json::law_the_first_name_counts(p, keys, 0);
}

/// What a permission would be granted for is what the tool is about to run or touch:
/// the command, else the pattern, else the file, else the address; nothing of the
/// kind stands for everything.
pub proof fn law_the_rule_is_what_the_tool_does(input: JsonView, s: Seq<char>)
    requires
        0 < s.len() <= 200,
    ensures
        input.field("command"@) == Some(JsonView::Str(s)) ==> rule_of(input) == s,
        input.field("command"@) is None && input.field("pattern"@) == Some(JsonView::Str(s))
            ==> rule_of(input) == s,
        input.field("command"@) is None && input.field("pattern"@) is None && input.field(
            "file_path"@,
        ) == Some(JsonView::Str(s)) ==> rule_of(input) == s,
        input.field("command"@) is None && input.field("pattern"@) is None && input.field(
            "file_path"@,
        ) is None && input.field("filePath"@) is None && input.field("path"@) == Some(
            JsonView::Str(s),
        ) ==> rule_of(input) == s,
        input.field("command"@) is None && input.field("pattern"@) is None && input.field(
            "file_path"@,
        ) is None && input.field("filePath"@) is None && input.field("path"@) is None
            && input.field("url"@) == Some(JsonView::Str(s)) ==> rule_of(input) == s,
        input.field("command"@) is None && input.field("pattern"@) is None && input.field(
            "file_path"@,
        ) is None && input.field("filePath"@) is None && input.field("path"@) is None
            && input.field("url"@) is None && input.field("description"@) is None ==> rule_of(input)
            == "*"@,
{
    let keys: Seq<&str> = seq![
        "command",
        "pattern",
        "file_path",
        "filePath",
        "path",
        "url",
        "description",
    ];
    assert(keys[0]@ == "command"@ && keys[1]@ == "pattern"@ && keys[2]@ == "file_path"@ && keys[3]@
        == "filePath"@ && keys[4]@ == "path"@ && keys[5]@ == "url"@ && keys[6]@ == "description"@);
    let x = JsonView::Str(s);
    if input.field("command"@) == Some(x) {
        json::law_the_first_name_counts(input, keys, 0);
    } else if input.field("command"@) is None {
        if input.field("pattern"@) == Some(x) {
            json::law_the_first_name_counts(input, keys, 1);
        } else if input.field("pattern"@) is None {
            if input.field("file_path"@) == Some(x) {
                json::law_the_first_name_counts(input, keys, 2);
            } else if input.field("file_path"@) is None && input.field("filePath"@) is None {
                if input.field("path"@) == Some(x) {
                    json::law_the_first_name_counts(input, keys, 4);
                } else if input.field("path"@) is None {
                    if input.field("url"@) == Some(x) {
                        json::law_the_first_name_counts(input, keys, 5);
                    } else if input.field("url"@) is None && input.field("description"@) is None {
                        json::law_no_name_counts(input, keys);
                    }
                }
            }
        }
    }
}

/// What the host is asked to allow for good: where it suggests nothing, the tool and
/// its rule; where it suggests rules, those, kept where they say, else where they go
/// by default. It is always asked to allow, never to deny.
pub proof fn law_what_is_allowed_for_good(
    tool: Seq<char>,
    input: JsonView,
    suggestions: Seq<JsonView>,
    dest: Seq<char>,
    i: int,
)
    requires
        0 <= i < updates_of(tool, input, suggestions, dest).len(),
    ensures
        updates_of(tool, input, suggestions, dest)[i].field("behavior"@) == Some(
            JsonView::Str("allow"@),
        ),
        suggestions.len() == 0 ==> ({
            let u = updates_of(tool, input, suggestions, dest)[0];
            let rules = u.items("rules"@);
            &&& updates_of(tool, input, suggestions, dest).len() == 1
            &&& u.field("type"@) == Some(JsonView::Str("addRules"@))
            &&& u.field("destination"@) == Some(JsonView::Str(dest))
            &&& rules.len() == 1
            &&& rules[0].field("toolName"@) == Some(JsonView::Str(tool))
            &&& rules[0].field("ruleContent"@) == Some(JsonView::Str(rule_of(input)))
        }),
        suggestions.len() > 0 && suggestions[i].field("rules"@) is Some ==> ({
            let u = updates_of(tool, input, suggestions, dest)[i];
            &&& u.field("rules"@) == suggestions[i].field("rules"@)
            &&& suggestions[i].field("destination"@) is None ==> u.field("destination"@) == Some(
                JsonView::Str(dest),
            )
        }),
        0 < suggestions.len() <= 4 ==> updates_of(tool, input, suggestions, dest).len()
            == suggestions.len(),
{
    broadcast use crate::json::group_fields;

    reveal_strlit("type");
    reveal_strlit("rules");
    reveal_strlit("behavior");
    reveal_strlit("destination");
    reveal_strlit("toolName");
    reveal_strlit("ruleContent");
    assert("type"@.len() == 4);
    assert("rules"@.len() == 5);
    assert("behavior"@.len() == 8);
    assert("destination"@.len() == 11);
    assert("toolName"@.len() == 8);
    assert("ruleContent"@.len() == 11);
    assert("behavior"@[0] == 'b');
    assert("destination"@[0] == 'd');
    assert("toolName"@[0] == 't');
    assert("ruleContent"@[0] == 'r');
    if suggestions.len() > 0 {
        if suggestions[i].field("destination"@) is None {
            json::lemma_unpicked(suggestions[i], "destination");
        }
    }
}

/// What is allowed for good goes into the project's settings unless the environment
/// names another place.
pub proof fn law_where_rules_go(e: Env, place: String)
    ensures
        e.permission_dest is None ==> destination(e) == "projectSettings"@,
        e.permission_dest == Some(place) && place@.len() > 0 ==> destination(e) == place@,
{
}

/// A payload with one of Cursor's events speaks Cursor's protocol, one with any other
/// event the lead host's; without an event, a permission, questions or an event of
/// OpenCode's make it OpenCode's.
pub proof fn law_the_protocol_shows_in_the_payload(p: JsonView, event: Seq<char>)
    ensures
        p.field("hook_event_name"@) == Some(JsonView::Str(event)) && (event
            == "beforeShellExecution"@ || event == "beforeMCPExecution"@ || event == "preToolUse"@
            || event == "beforeReadFile"@ || event == "beforeSubmitPrompt"@ || event
            == "afterFileEdit"@ || event == "afterShellExecution"@ || event == "afterMCPExecution"@
            || event == "afterAgentResponse"@ || event == "afterAgentThought"@ || event
            == "postToolUse"@ || event == "postToolUseFailure"@ || event == "sessionStart"@ || event
            == "sessionEnd"@ || event == "subagentStart"@ || event == "subagentStop"@ || event
            == "preCompact"@ || event == "stop"@ || event == "afterTabFileEdit"@ || event
            == "beforeTabFileRead"@ || event == "workspaceOpen"@) ==> protocol_of(p)
            == Protocol::Cursor,
        p.field("hook_event_name"@) == Some(JsonView::Str(event)) && (event == "PreToolUse"@ || event
            == "PostToolUse"@ || event == "PermissionRequest"@ || event == "Notification"@ || event
            == "Stop"@ || event == "SubagentStop"@ || event == "SubagentStart"@ || event
            == "SessionStart"@ || event == "SessionEnd"@ || event == "UserPromptSubmit"@ || event
            == "PreCompact"@) ==> protocol_of(p) == Protocol::Ancli,
        p.field("hook_event_name"@) is None && (p.field("permission"@) matches Some(JsonView::Obj(_)))
            ==> protocol_of(p) == Protocol::OpencodePermission,
        p.field("hook_event_name"@) is None && p.field("permission"@) is None && (p.field(
            "questions"@,
        ) matches Some(JsonView::Arr(_))) ==> protocol_of(p) == Protocol::OpencodeQuestion,
        p.field("hook_event_name"@) is None && p.field("permission"@) is None && p.field(
            "questions"@,
        ) is None && p.field("event"@) == Some(JsonView::Str(event)) ==> protocol_of(p)
            == Protocol::OpencodeEvent,
        p.field("hook_event_name"@) is None && p.field("permission"@) is None && p.field(
            "questions"@,
        ) is None && p.field("event"@) is None ==> protocol_of(p) == Protocol::Ancli,
{
    lemma_event_names_differ();
}

/// The events of the lead host are none of Cursor's, whose names begin small.
proof fn lemma_event_names_differ()
    ensures
        forall|e: Seq<char>| #[trigger] cursor_event(e) ==> e.len() > 0 && 'a' <= e[0] <= 'z',
        "PreToolUse"@.len() > 0 && "PreToolUse"@[0] == 'P',
        "PostToolUse"@.len() > 0 && "PostToolUse"@[0] == 'P',
        "PermissionRequest"@.len() > 0 && "PermissionRequest"@[0] == 'P',
        "Notification"@.len() > 0 && "Notification"@[0] == 'N',
        "Stop"@.len() > 0 && "Stop"@[0] == 'S',
        "SubagentStop"@.len() > 0 && "SubagentStop"@[0] == 'S',
        "SubagentStart"@.len() > 0 && "SubagentStart"@[0] == 'S',
        "SessionStart"@.len() > 0 && "SessionStart"@[0] == 'S',
        "SessionEnd"@.len() > 0 && "SessionEnd"@[0] == 'S',
        "UserPromptSubmit"@.len() > 0 && "UserPromptSubmit"@[0] == 'U',
        "PreCompact"@.len() > 0 && "PreCompact"@[0] == 'P',
{
    reveal_strlit("beforeShellExecution");
    assert("beforeShellExecution"@.len() == 20 && "beforeShellExecution"@[0] == 'b');
    reveal_strlit("afterShellExecution");
    assert("afterShellExecution"@.len() == 19 && "afterShellExecution"@[0] == 'a');
    reveal_strlit("beforeMCPExecution");
    assert("beforeMCPExecution"@.len() == 18 && "beforeMCPExecution"@[0] == 'b');
    reveal_strlit("afterMCPExecution");
    assert("afterMCPExecution"@.len() == 17 && "afterMCPExecution"@[0] == 'a');
    reveal_strlit("beforeReadFile");
    assert("beforeReadFile"@.len() == 14 && "beforeReadFile"@[0] == 'b');
    reveal_strlit("afterFileEdit");
    assert("afterFileEdit"@.len() == 13 && "afterFileEdit"@[0] == 'a');
    reveal_strlit("beforeSubmitPrompt");
    assert("beforeSubmitPrompt"@.len() == 18 && "beforeSubmitPrompt"@[0] == 'b');
    reveal_strlit("afterAgentResponse");
    assert("afterAgentResponse"@.len() == 18 && "afterAgentResponse"@[0] == 'a');
    reveal_strlit("afterAgentThought");
    assert("afterAgentThought"@.len() == 17 && "afterAgentThought"@[0] == 'a');
    reveal_strlit("preToolUse");
    assert("preToolUse"@.len() == 10 && "preToolUse"@[0] == 'p');
    reveal_strlit("postToolUse");
    assert("postToolUse"@.len() == 11 && "postToolUse"@[0] == 'p');
    reveal_strlit("postToolUseFailure");
    assert("postToolUseFailure"@.len() == 18 && "postToolUseFailure"@[0] == 'p');
    reveal_strlit("sessionStart");
    assert("sessionStart"@.len() == 12 && "sessionStart"@[0] == 's');
    reveal_strlit("sessionEnd");
    assert("sessionEnd"@.len() == 10 && "sessionEnd"@[0] == 's');
    reveal_strlit("subagentStart");
    assert("subagentStart"@.len() == 13 && "subagentStart"@[0] == 's');
    reveal_strlit("subagentStop");
    assert("subagentStop"@.len() == 12 && "subagentStop"@[0] == 's');
    reveal_strlit("preCompact");
    assert("preCompact"@.len() == 10 && "preCompact"@[0] == 'p');
    reveal_strlit("stop");
    assert("stop"@.len() == 4 && "stop"@[0] == 's');
    reveal_strlit("afterTabFileEdit");
    assert("afterTabFileEdit"@.len() == 16 && "afterTabFileEdit"@[0] == 'a');
    reveal_strlit("beforeTabFileRead");
    assert("beforeTabFileRead"@.len() == 17 && "beforeTabFileRead"@[0] == 'b');
    reveal_strlit("workspaceOpen");
    assert("workspaceOpen"@.len() == 13 && "workspaceOpen"@[0] == 'w');
    reveal_strlit("PreToolUse");
    assert("PreToolUse"@.len() == 10 && "PreToolUse"@[0] == 'P');
    reveal_strlit("PostToolUse");
    assert("PostToolUse"@.len() == 11 && "PostToolUse"@[0] == 'P');
    reveal_strlit("PermissionRequest");
    assert("PermissionRequest"@.len() == 17 && "PermissionRequest"@[0] == 'P');
    reveal_strlit("Notification");
    assert("Notification"@.len() == 12 && "Notification"@[0] == 'N');
    reveal_strlit("Stop");
    assert("Stop"@.len() == 4 && "Stop"@[0] == 'S');
    reveal_strlit("SubagentStop");
    assert("SubagentStop"@.len() == 12 && "SubagentStop"@[0] == 'S');
    reveal_strlit("SubagentStart");
    assert("SubagentStart"@.len() == 13 && "SubagentStart"@[0] == 'S');
    reveal_strlit("SessionStart");
    assert("SessionStart"@.len() == 12 && "SessionStart"@[0] == 'S');
    reveal_strlit("SessionEnd");
    assert("SessionEnd"@.len() == 10 && "SessionEnd"@[0] == 'S');
    reveal_strlit("UserPromptSubmit");
    assert("UserPromptSubmit"@.len() == 16 && "UserPromptSubmit"@[0] == 'U');
    reveal_strlit("PreCompact");
    assert("PreCompact"@.len() == 10 && "PreCompact"@[0] == 'P');
}

/// Who sends a payload: what the environment or the payload says, else what shows
/// in the environment or the payload, else the lead host.
pub proof fn law_who_sends_a_payload(
    p: JsonView,
    e: Env,
    zcode_dir: bool,
    trae_dir: bool,
    name: Seq<char>,
    said: String,
)
    requires
        name.len() > 0,
    ensures
        e.source == Some(said) && said@.len() > 0 ==> source_of(p, e, zcode_dir, trae_dir) == said@,
        e.source is None && p.field("source"@) == Some(JsonView::Str(name)) ==> source_of(
            p,
            e,
            zcode_dir,
            trae_dir,
        ) == name,
        e.source is None && p.field("source"@) is None && e.zcode_plugin_root == Some(said)
            && said@.len() > 0 ==> source_of(p, e, zcode_dir, trae_dir) == "zcode"@,
        e.source is None && p.field("source"@) is None && e.zcode_plugin_root is None
            && e.zcode_cli_home is None ==> {
            &&& p.field("cursor_version"@) == Some(JsonView::Str(name)) ==> source_of(
                p,
                e,
                zcode_dir,
                trae_dir,
            ) == "cursor"@
            &&& p.field("cursor_version"@) is None && p.field("conversation_id"@) is None ==> {
                &&& p.field("llm_tool_name"@) == Some(JsonView::Str(name)) ==> source_of(
                    p,
                    e,
                    zcode_dir,
                    trae_dir,
                ) == "trae"@
                &&& p.field("llm_tool_name"@) is None && p.field("workspace_roots"@) is None ==> {
                    &&& p.field("turn_id"@) == Some(JsonView::Str(name)) ==> source_of(
                        p,
                        e,
                        zcode_dir,
                        trae_dir,
                    ) == "codex"@
                    &&& p.field("turn_id"@) is None && p.field("trigger"@) is None ==> source_of(
                        p,
                        e,
                        zcode_dir,
                        trae_dir,
                    ) == (if zcode_dir {
                        "zcode"@
                    } else if trae_dir {
                        "trae"@
                    } else {
                        e.lead@ + "-code"@
                    })
                }
            }
        },
{
    if p.field("source"@) == Some(JsonView::Str(name)) {
        json::lemma_picked(p, "source", JsonView::Str(name));
    }
    if p.field("source"@) is None {
        json::lemma_unpicked(p, "source");
    }
    let a: Seq<&str> = seq!["cursor_version", "conversation_id"];
    assert(a[0]@ == "cursor_version"@ && a[1]@ == "conversation_id"@);
    if p.field("cursor_version"@) == Some(JsonView::Str(name)) {
        json::law_the_first_name_counts(p, a, 0);
    }
    if p.field("cursor_version"@) is None && p.field("conversation_id"@) is None {
        json::law_no_name_counts(p, a);
    }
    let b: Seq<&str> = seq!["turn_id", "trigger"];
    assert(b[0]@ == "turn_id"@ && b[1]@ == "trigger"@);
    if p.field("turn_id"@) == Some(JsonView::Str(name)) {
        json::law_the_first_name_counts(p, b, 0);
    }
    if p.field("turn_id"@) is None && p.field("trigger"@) is None {
        json::law_no_name_counts(p, b);
    }
    if p.field("llm_tool_name"@) == Some(JsonView::Str(name)) {
        json::lemma_picked(p, "llm_tool_name", JsonView::Str(name));
    }
    if p.field("llm_tool_name"@) is None {
        json::lemma_unpicked(p, "llm_tool_name");
    }
    if p.field("workspace_roots"@) is None {
        json::lemma_unpicked(p, "workspace_roots");
    }
}

proof fn lemma_letters(s: Seq<char>)
    requires
        forall|i: int| 0 <= i < s.len() ==> text::alnum(#[trigger] s[i]),
    ensures
        letters(s) == text::lowered(s),
    decreases s.len(),
{
    if s.len() > 0 {
        let head = s.drop_last();
        assert forall|i: int| 0 <= i < head.len() implies text::alnum(#[trigger] head[i]) by {
            assert(head[i] == s[i]);
        }
        lemma_letters(head);
        assert(s.last() == s[s.len() - 1]);
        assert(text::lowered(head).push(text::lower(s.last())) =~= text::lowered(s));
    } else {
        assert(text::lowered(s) =~= s);
    }
}

proof fn lemma_plain_name(s: Seq<char>, small: Seq<char>)
    requires
        s.len() > 0,
        forall|i: int| 0 <= i < s.len() ==> text::alnum(#[trigger] s[i]),
        text::lowered(s) == small,
        s[0] != 'v',
        s[0] != 'V',
    ensures
        normal_name(s) == small,
{
    text::lemma_index_of(s, '/');
    if text::index_of(s, '/') < s.len() {
        assert(text::alnum(s[text::index_of(s, '/')]));
    }
    lemma_letters(s);
    reveal_strlit("vscode");
    assert("vscode"@[0] == 'v');
    if text::starts_with(small, "vscode"@) {
        assert(small.subrange(0, 6)[0] == 'v');
        assert(small[0] == text::lower(s[0]));
    }
}

/// The tool that asks the user is known by its names, however they are written.
pub proof fn law_the_asking_tool_is_known(p: JsonView, name: Seq<char>)
    requires
        p.field("tool_name"@) == Some(JsonView::Str(name)),
        name == "AskUserQuestion"@ || name == "askUserQuestions"@ || name == "AskUser"@ || name
            == "askQuestions"@ || name == "askQuestion"@ || name == "question"@,
    ensures
        asks(p),
{
    reveal_strlit("AskUserQuestion");
    reveal_strlit("askUserQuestions");
    reveal_strlit("AskUser");
    reveal_strlit("askQuestions");
    reveal_strlit("askQuestion");
    reveal_strlit("question");
    reveal_strlit("askuserquestion");
    reveal_strlit("askuserquestions");
    reveal_strlit("askuser");
    reveal_strlit("askquestions");
    reveal_strlit("askquestion");
    let keys: Seq<&str> = seq!["tool_name", "tool", "name"];
    assert(keys[0]@ == "tool_name"@);
    assert("AskUserQuestion"@.len() == 15);
    assert("AskUserQuestion"@[0] == 'A');
    assert("AskUserQuestion"@[1] == 's');
    assert("AskUserQuestion"@[2] == 'k');
    assert("AskUserQuestion"@[3] == 'U');
    assert("AskUserQuestion"@[4] == 's');
    assert("AskUserQuestion"@[5] == 'e');
    assert("AskUserQuestion"@[6] == 'r');
    assert("AskUserQuestion"@[7] == 'Q');
    assert("AskUserQuestion"@[8] == 'u');
    assert("AskUserQuestion"@[9] == 'e');
    assert("AskUserQuestion"@[10] == 's');
    assert("AskUserQuestion"@[11] == 't');
    assert("AskUserQuestion"@[12] == 'i');
    assert("AskUserQuestion"@[13] == 'o');
    assert("AskUserQuestion"@[14] == 'n');
    assert("askUserQuestions"@.len() == 16);
    assert("askUserQuestions"@[0] == 'a');
    assert("askUserQuestions"@[1] == 's');
    assert("askUserQuestions"@[2] == 'k');
    assert("askUserQuestions"@[3] == 'U');
    assert("askUserQuestions"@[4] == 's');
    assert("askUserQuestions"@[5] == 'e');
    assert("askUserQuestions"@[6] == 'r');
    assert("askUserQuestions"@[7] == 'Q');
    assert("askUserQuestions"@[8] == 'u');
    assert("askUserQuestions"@[9] == 'e');
    assert("askUserQuestions"@[10] == 's');
    assert("askUserQuestions"@[11] == 't');
    assert("askUserQuestions"@[12] == 'i');
    assert("askUserQuestions"@[13] == 'o');
    assert("askUserQuestions"@[14] == 'n');
    assert("askUserQuestions"@[15] == 's');
    assert("AskUser"@.len() == 7);
    assert("AskUser"@[0] == 'A');
    assert("AskUser"@[1] == 's');
    assert("AskUser"@[2] == 'k');
    assert("AskUser"@[3] == 'U');
    assert("AskUser"@[4] == 's');
    assert("AskUser"@[5] == 'e');
    assert("AskUser"@[6] == 'r');
    assert("askQuestions"@.len() == 12);
    assert("askQuestions"@[0] == 'a');
    assert("askQuestions"@[1] == 's');
    assert("askQuestions"@[2] == 'k');
    assert("askQuestions"@[3] == 'Q');
    assert("askQuestions"@[4] == 'u');
    assert("askQuestions"@[5] == 'e');
    assert("askQuestions"@[6] == 's');
    assert("askQuestions"@[7] == 't');
    assert("askQuestions"@[8] == 'i');
    assert("askQuestions"@[9] == 'o');
    assert("askQuestions"@[10] == 'n');
    assert("askQuestions"@[11] == 's');
    assert("askQuestion"@.len() == 11);
    assert("askQuestion"@[0] == 'a');
    assert("askQuestion"@[1] == 's');
    assert("askQuestion"@[2] == 'k');
    assert("askQuestion"@[3] == 'Q');
    assert("askQuestion"@[4] == 'u');
    assert("askQuestion"@[5] == 'e');
    assert("askQuestion"@[6] == 's');
    assert("askQuestion"@[7] == 't');
    assert("askQuestion"@[8] == 'i');
    assert("askQuestion"@[9] == 'o');
    assert("askQuestion"@[10] == 'n');
    assert("question"@.len() == 8);
    assert("question"@[0] == 'q');
    assert("question"@[1] == 'u');
    assert("question"@[2] == 'e');
    assert("question"@[3] == 's');
    assert("question"@[4] == 't');
    assert("question"@[5] == 'i');
    assert("question"@[6] == 'o');
    assert("question"@[7] == 'n');
    assert("askuserquestion"@.len() == 15);
    assert("askuserquestion"@[0] == 'a');
    assert("askuserquestion"@[1] == 's');
    assert("askuserquestion"@[2] == 'k');
    assert("askuserquestion"@[3] == 'u');
    assert("askuserquestion"@[4] == 's');
    assert("askuserquestion"@[5] == 'e');
    assert("askuserquestion"@[6] == 'r');
    assert("askuserquestion"@[7] == 'q');
    assert("askuserquestion"@[8] == 'u');
    assert("askuserquestion"@[9] == 'e');
    assert("askuserquestion"@[10] == 's');
    assert("askuserquestion"@[11] == 't');
    assert("askuserquestion"@[12] == 'i');
    assert("askuserquestion"@[13] == 'o');
    assert("askuserquestion"@[14] == 'n');
    assert("askuserquestions"@.len() == 16);
    assert("askuserquestions"@[0] == 'a');
    assert("askuserquestions"@[1] == 's');
    assert("askuserquestions"@[2] == 'k');
    assert("askuserquestions"@[3] == 'u');
    assert("askuserquestions"@[4] == 's');
    assert("askuserquestions"@[5] == 'e');
    assert("askuserquestions"@[6] == 'r');
    assert("askuserquestions"@[7] == 'q');
    assert("askuserquestions"@[8] == 'u');
    assert("askuserquestions"@[9] == 'e');
    assert("askuserquestions"@[10] == 's');
    assert("askuserquestions"@[11] == 't');
    assert("askuserquestions"@[12] == 'i');
    assert("askuserquestions"@[13] == 'o');
    assert("askuserquestions"@[14] == 'n');
    assert("askuserquestions"@[15] == 's');
    assert("askuser"@.len() == 7);
    assert("askuser"@[0] == 'a');
    assert("askuser"@[1] == 's');
    assert("askuser"@[2] == 'k');
    assert("askuser"@[3] == 'u');
    assert("askuser"@[4] == 's');
    assert("askuser"@[5] == 'e');
    assert("askuser"@[6] == 'r');
    assert("askquestions"@.len() == 12);
    assert("askquestions"@[0] == 'a');
    assert("askquestions"@[1] == 's');
    assert("askquestions"@[2] == 'k');
    assert("askquestions"@[3] == 'q');
    assert("askquestions"@[4] == 'u');
    assert("askquestions"@[5] == 'e');
    assert("askquestions"@[6] == 's');
    assert("askquestions"@[7] == 't');
    assert("askquestions"@[8] == 'i');
    assert("askquestions"@[9] == 'o');
    assert("askquestions"@[10] == 'n');
    assert("askquestions"@[11] == 's');
    assert("askquestion"@.len() == 11);
    assert("askquestion"@[0] == 'a');
    assert("askquestion"@[1] == 's');
    assert("askquestion"@[2] == 'k');
    assert("askquestion"@[3] == 'q');
    assert("askquestion"@[4] == 'u');
    assert("askquestion"@[5] == 'e');
    assert("askquestion"@[6] == 's');
    assert("askquestion"@[7] == 't');
    assert("askquestion"@[8] == 'i');
    assert("askquestion"@[9] == 'o');
    assert("askquestion"@[10] == 'n');
    json::law_the_first_name_counts(p, keys, 0);
    if name == "AskUserQuestion"@ {
        assert forall|i: int| 0 <= i < "AskUserQuestion"@.len() implies text::alnum(#[trigger] "AskUserQuestion"@[i]) by {
            assert(i == 0 || i == 1 || i == 2 || i == 3 || i == 4 || i == 5 || i == 6 || i == 7 || i == 8 || i == 9 || i == 10 || i == 11 || i == 12 || i == 13 || i == 14);
            assert("AskUserQuestion"@[0] == 'A');
            assert("AskUserQuestion"@[1] == 's');
            assert("AskUserQuestion"@[2] == 'k');
            assert("AskUserQuestion"@[3] == 'U');
            assert("AskUserQuestion"@[4] == 's');
            assert("AskUserQuestion"@[5] == 'e');
            assert("AskUserQuestion"@[6] == 'r');
            assert("AskUserQuestion"@[7] == 'Q');
            assert("AskUserQuestion"@[8] == 'u');
            assert("AskUserQuestion"@[9] == 'e');
            assert("AskUserQuestion"@[10] == 's');
            assert("AskUserQuestion"@[11] == 't');
            assert("AskUserQuestion"@[12] == 'i');
            assert("AskUserQuestion"@[13] == 'o');
            assert("AskUserQuestion"@[14] == 'n');
        }
        assert(text::lowered(name) =~= "askuserquestion"@);
        lemma_plain_name(name, "askuserquestion"@);
    } else if name == "askUserQuestions"@ {
        assert forall|i: int| 0 <= i < "askUserQuestions"@.len() implies text::alnum(#[trigger] "askUserQuestions"@[i]) by {
            assert(i == 0 || i == 1 || i == 2 || i == 3 || i == 4 || i == 5 || i == 6 || i == 7 || i == 8 || i == 9 || i == 10 || i == 11 || i == 12 || i == 13 || i == 14 || i == 15);
            assert("askUserQuestions"@[0] == 'a');
            assert("askUserQuestions"@[1] == 's');
            assert("askUserQuestions"@[2] == 'k');
            assert("askUserQuestions"@[3] == 'U');
            assert("askUserQuestions"@[4] == 's');
            assert("askUserQuestions"@[5] == 'e');
            assert("askUserQuestions"@[6] == 'r');
            assert("askUserQuestions"@[7] == 'Q');
            assert("askUserQuestions"@[8] == 'u');
            assert("askUserQuestions"@[9] == 'e');
            assert("askUserQuestions"@[10] == 's');
            assert("askUserQuestions"@[11] == 't');
            assert("askUserQuestions"@[12] == 'i');
            assert("askUserQuestions"@[13] == 'o');
            assert("askUserQuestions"@[14] == 'n');
            assert("askUserQuestions"@[15] == 's');
        }
        assert(text::lowered(name) =~= "askuserquestions"@);
        lemma_plain_name(name, "askuserquestions"@);
    } else if name == "AskUser"@ {
        assert forall|i: int| 0 <= i < "AskUser"@.len() implies text::alnum(#[trigger] "AskUser"@[i]) by {
            assert(i == 0 || i == 1 || i == 2 || i == 3 || i == 4 || i == 5 || i == 6);
            assert("AskUser"@[0] == 'A');
            assert("AskUser"@[1] == 's');
            assert("AskUser"@[2] == 'k');
            assert("AskUser"@[3] == 'U');
            assert("AskUser"@[4] == 's');
            assert("AskUser"@[5] == 'e');
            assert("AskUser"@[6] == 'r');
        }
        assert(text::lowered(name) =~= "askuser"@);
        lemma_plain_name(name, "askuser"@);
    } else if name == "askQuestions"@ {
        assert forall|i: int| 0 <= i < "askQuestions"@.len() implies text::alnum(#[trigger] "askQuestions"@[i]) by {
            assert(i == 0 || i == 1 || i == 2 || i == 3 || i == 4 || i == 5 || i == 6 || i == 7 || i == 8 || i == 9 || i == 10 || i == 11);
            assert("askQuestions"@[0] == 'a');
            assert("askQuestions"@[1] == 's');
            assert("askQuestions"@[2] == 'k');
            assert("askQuestions"@[3] == 'Q');
            assert("askQuestions"@[4] == 'u');
            assert("askQuestions"@[5] == 'e');
            assert("askQuestions"@[6] == 's');
            assert("askQuestions"@[7] == 't');
            assert("askQuestions"@[8] == 'i');
            assert("askQuestions"@[9] == 'o');
            assert("askQuestions"@[10] == 'n');
            assert("askQuestions"@[11] == 's');
        }
        assert(text::lowered(name) =~= "askquestions"@);
        lemma_plain_name(name, "askquestions"@);
    } else if name == "askQuestion"@ {
        assert forall|i: int| 0 <= i < "askQuestion"@.len() implies text::alnum(#[trigger] "askQuestion"@[i]) by {
            assert(i == 0 || i == 1 || i == 2 || i == 3 || i == 4 || i == 5 || i == 6 || i == 7 || i == 8 || i == 9 || i == 10);
            assert("askQuestion"@[0] == 'a');
            assert("askQuestion"@[1] == 's');
            assert("askQuestion"@[2] == 'k');
            assert("askQuestion"@[3] == 'Q');
            assert("askQuestion"@[4] == 'u');
            assert("askQuestion"@[5] == 'e');
            assert("askQuestion"@[6] == 's');
            assert("askQuestion"@[7] == 't');
            assert("askQuestion"@[8] == 'i');
            assert("askQuestion"@[9] == 'o');
            assert("askQuestion"@[10] == 'n');
        }
        assert(text::lowered(name) =~= "askquestion"@);
        lemma_plain_name(name, "askquestion"@);
    } else {
        assert forall|i: int| 0 <= i < "question"@.len() implies text::alnum(#[trigger] "question"@[i]) by {
            assert(i == 0 || i == 1 || i == 2 || i == 3 || i == 4 || i == 5 || i == 6 || i == 7);
            assert("question"@[0] == 'q');
            assert("question"@[1] == 'u');
            assert("question"@[2] == 'e');
            assert("question"@[3] == 's');
            assert("question"@[4] == 't');
            assert("question"@[5] == 'i');
            assert("question"@[6] == 'o');
            assert("question"@[7] == 'n');
        }
        assert(text::lowered(name) =~= "question"@);
        lemma_plain_name(name, "question"@);
    }
}

/// A tool that runs a command never passes for one that asks.
pub proof fn law_what_runs_a_command_does_not_ask(p: JsonView, input: JsonView, c: Seq<char>)
    requires
        p.field("tool_input"@) == Some(input),
        input.field("command"@) == Some(JsonView::Str(c)),
        c.len() > 0,
        !ask_name(normal_name(p.pick_text(seq!["tool_name", "tool", "name"]))),
    ensures
        !asks(p),
{
    let keys: Seq<&str> = seq!["tool_input", "toolInput"];
    assert(keys[0]@ == "tool_input"@);
    json::law_the_first_name_counts(p, keys, 0);
}

/// An input with questions asks, whatever its tool is called.
pub proof fn law_questions_are_asked_by_any_tool(p: JsonView, input: JsonView, raw: Seq<JsonView>)
    requires
        p.field("tool_input"@) == Some(input),
        input.field("questions"@) == Some(JsonView::Arr(raw)),
        raw.len() > 0,
        input.field("command"@) is None,
        input.field("file_path"@) is None,
        input.field("filePath"@) is None,
    ensures
        asks(p),
{
    let keys: Seq<&str> = seq!["tool_input", "toolInput"];
    assert(keys[0]@ == "tool_input"@);
    json::law_the_first_name_counts(p, keys, 0);
}

/// How long hosts are told to wait, and how long the hook waits for its reports.
pub proof fn law_how_long_is_waited()
    ensures
        HOST_WAIT_SEC == 4_200,
        HOST_WAIT_MS == 4_200_000,
        HOST_WAIT_MS == HOST_WAIT_SEC * 1_000,
        WAIT_HTTP_MARGIN_MS == 300_000,
        EVENT_TIMEOUT_MS == 8_000,
{
}

/// Codex alone takes permissions only in their own event.
pub proof fn law_only_codex_takes_permissions_in_their_event(source: Seq<char>)
    ensures
        event_only("codex"@),
        source != "codex"@ ==> !event_only(source),
{
}

/// Answers are told one to a line, each after its question; several choices with a
/// mark between them.
pub proof fn law_answers_in_words(
    q: Seq<char>,
    a: Seq<char>,
    r: Seq<char>,
    b: Seq<char>,
    c: Seq<char>,
)
    ensures
        answers_text(JsonView::Obj(seq![(q, JsonView::Str(a))])) == q + " → "@ + a,
        answers_text(JsonView::Obj(seq![(q, JsonView::Str(a)), (r, JsonView::Str(b))])) == (q
            + " → "@ + a) + "\n"@ + (r + " → "@ + b),
        answer_text(JsonView::Arr(seq![JsonView::Str(b), JsonView::Str(c)])) == b + "、"@ + c,
{
    let f = |e: (Seq<char>, JsonView)| e.0 + " → "@ + answer_text(e.1);
    let one = seq![(q, JsonView::Str(a))];
    let two = seq![(q, JsonView::Str(a)), (r, JsonView::Str(b))];
    assert(one.map_values(f) =~= seq![q + " → "@ + a]);
    assert(two.map_values(f) =~= seq![q + " → "@ + a, r + " → "@ + b]);
    text::law_joining(q + " → "@ + a, r + " → "@ + b, b, "\n"@);
    let g = |x: JsonView| x.lossy();
    let both = seq![JsonView::Str(b), JsonView::Str(c)];
    assert(both.map_values(g) =~= seq![b, c]);
    text::law_joining(b, c, c, "、"@);
}

/// A tool's input is summed up by its first four members, one to a line, each after its
/// name.
pub proof fn law_inputs_are_summed_up(m: Members, name: Seq<char>, said: Seq<char>)
    requires
        said.len() <= 400,
    ensures
        summary(JsonView::Obj(seq![(name, JsonView::Str(said))])) == name + ": "@ + said,
        m.len() > 4 ==> summary(JsonView::Obj(m)) == summary(JsonView::Obj(m.take(4))),
        summary(JsonView::Obj(Members::empty())) == Seq::<char>::empty(),
{
    let one = seq![(name, JsonView::Str(said))];
    assert(summary_lines(one, 1) =~= seq![name + ": "@ + said]);
    text::law_joining(name + ": "@ + said, said, said, "\n"@);
    if m.len() > 4 {
        assert(summary_lines(m, 4) =~= summary_lines(m.take(4), 4));
    }
    assert(summary_lines(Members::empty(), 0) =~= Seq::empty());
}

/// A question without words gets its number for them.
pub proof fn law_questions_without_words_are_numbered(q: JsonView, i: int)
    requires
        q.field("question"@) is None,
        q.field("text"@) is None,
        q.field("title"@) is None,
    ensures
        question_of(q, i).field("question"@) == Some(JsonView::Str("问题 "@ + text::int_text(i + 1))),
{
    lemma_question_fields(q, i);
    let keys: Seq<&str> = seq!["question", "text", "title"];
    assert(keys[0]@ == "question"@ && keys[1]@ == "text"@ && keys[2]@ == "title"@);
    json::law_no_name_counts(q, keys);
}

/// Other words can be typed where there is nothing to choose from, or where the
/// question says so.
pub proof fn law_when_other_words_can_be_typed(q: JsonView, i: int, on: bool)
    ensures
        q.field("custom"@) == Some(JsonView::Bool(on)) ==> question_of(q, i).field("custom"@) == Some(
            JsonView::Bool(on),
        ),
        q.field("custom"@) is None && q.field("options"@) is None ==> question_of(q, i).field(
            "custom"@,
        ) == Some(JsonView::Bool(true)),
        q.field("custom"@) is None && q.field("allowFreeformInput"@) == Some(JsonView::Bool(true))
            ==> question_of(q, i).field("custom"@) == Some(JsonView::Bool(true)),
{
    broadcast use crate::json::group_fields;

    let keys: Seq<&str> = seq!["allowFreeformInput", "openEnded"];
    assert(keys[0]@ == "allowFreeformInput"@);
    if q.field("allowFreeformInput"@) == Some(JsonView::Bool(true)) {
        json::law_the_first_name_counts(q, keys, 0);
    }
    reveal_strlit("id");
    reveal_strlit("question");
    reveal_strlit("header");
    reveal_strlit("multiSelect");
    reveal_strlit("custom");
    reveal_strlit("options");
    assert("id"@.len() == 2);
    assert("question"@.len() == 8);
    assert("header"@.len() == 6);
    assert("multiSelect"@.len() == 11);
    assert("custom"@.len() == 6);
    assert("options"@.len() == 7);
    assert("header"@[0] == 'h');
    assert("custom"@[0] == 'c');
}

/// The tools that ask the user are these, and no others.
pub proof fn law_which_tools_ask(n: Seq<char>)
    ensures
        ask_name("askuserquestion"@),
        ask_name("askuserquestions"@),
        ask_name("askuser"@),
        ask_name("askquestions"@),
        ask_name("askquestion"@),
        ask_name("question"@),
        n != "askuserquestion"@ && n != "askuserquestions"@ && n != "askuser"@ && n
            != "askquestions"@ && n != "askquestion"@ && n != "question"@ ==> !ask_name(n),
{
}

/// A tool's input is known by either of its names.
pub proof fn law_where_a_tools_input_is(p: JsonView, v: JsonView)
    requires
        v.truthy(),
    ensures
        p.field("tool_input"@) == Some(v) ==> input_of(p) == Some(v),
        p.field("tool_input"@) is None && p.field("toolInput"@) == Some(v) ==> input_of(p) == Some(v),
        p.field("tool_input"@) is None && p.field("toolInput"@) is None ==> input_of(p) is None,
{
    let keys: Seq<&str> = seq!["tool_input", "toolInput"];
    assert(keys[0]@ == "tool_input"@ && keys[1]@ == "toolInput"@);
    if p.field("tool_input"@) == Some(v) {
        json::law_the_first_name_counts(p, keys, 0);
    } else if p.field("tool_input"@) is None && p.field("toolInput"@) == Some(v) {
        json::law_the_first_name_counts(p, keys, 1);
    } else if p.field("tool_input"@) is None && p.field("toolInput"@) is None {
        json::law_no_name_counts(p, keys);
    }
}

/// Each protocol is called by its own name.
pub proof fn law_what_protocols_are_called()
    ensures
        Protocol::Cursor.name() == "cursor"@,
        Protocol::Ancli.name() == "ancli"@,
        Protocol::OpencodePermission.name() == "opencode-permission"@,
        Protocol::OpencodeQuestion.name() == "opencode-question"@,
        Protocol::OpencodeEvent.name() == "opencode-event"@,
        forall|a: Protocol, b: Protocol| #[trigger] a.name() == #[trigger] b.name() ==> a == b,
{
    reveal_strlit("cursor");
    reveal_strlit("ancli");
    reveal_strlit("opencode-permission");
    reveal_strlit("opencode-question");
    reveal_strlit("opencode-event");
    assert("cursor"@.len() == 6);
    assert("ancli"@.len() == 5);
    assert("opencode-permission"@.len() == 19);
    assert("opencode-question"@.len() == 17);
    assert("opencode-event"@.len() == 14);
}

} // verus!
