//! Bringing a request for a popup into the one shape that popups can show.

use vstd::prelude::*;
use crate::env::{Reading, DEFAULT_CONFIRM_TIMEOUT_MS, MAX_CONFIRM_TIMEOUT_MS};
use crate::json;
use crate::lead;
use crate::json::{get, Json, JsonView};
use crate::proto;
use crate::session;
use crate::text;
use crate::text::{cat2, cut_text, decimal, first_or, same};

verus! {

broadcast use crate::json::group_json;

// ---------------------------------------------------------------------------
// Kinds
// ---------------------------------------------------------------------------

/// What is fixed for a kind of popup: its title, and the action that it falls
/// back to, where there is a safe one.
pub struct KindSpec {
    pub title: &'static str,
    pub default_action: Option<&'static str>,
}

/// The kinds of popups.
pub open spec fn known_kind(kind: Seq<char>) -> bool {
    kind == "ask"@ || kind == "permission"@ || kind == "notification"@ || kind == "custom"@
}

/// The title of a kind.
pub open spec fn kind_title(kind: Seq<char>) -> Seq<char> {
    if kind == "ask"@ {
        "Agent 提问"@
    } else if kind == "permission"@ {
        "需要权限确认"@
    } else if kind == "notification"@ {
        "番茄钟"@
    } else {
        "需要确认"@
    }
}

/// The action that a kind falls back to: questions are cancelled, permissions
/// refused, and for the others nothing is decided.
pub open spec fn kind_action(kind: Seq<char>) -> Option<Seq<char>> {
    if kind == "ask"@ {
        Some("cancel"@)
    } else if kind == "permission"@ {
        Some("deny"@)
    } else {
        None
    }
}

/// The model of an optional text.
pub open spec fn text_view(o: Option<&str>) -> Option<Seq<char>> {
    match o {
        Some(s) => Some(s@),
        None => None,
    }
}

/// What is fixed for a kind of popup.
pub fn kind_spec(kind: &str) -> (r: Option<KindSpec>)
    ensures
        r is Some == known_kind(kind@),
        r matches Some(k) ==> k.title@ == kind_title(kind@) && text_view(k.default_action)
            == kind_action(kind@),
{
    if same(kind, "ask") {
        Some(KindSpec { title: "Agent 提问", default_action: Some("cancel") })
    } else if same(kind, "permission") {
        Some(KindSpec { title: "需要权限确认", default_action: Some("deny") })
    } else if same(kind, "notification") {
        Some(KindSpec { title: "番茄钟", default_action: None })
    } else if same(kind, "custom") {
        Some(KindSpec { title: "需要确认", default_action: None })
    } else {
        None
    }
}

/// The kinds that wait for the user.
pub open spec fn waits(kind: Seq<char>) -> bool {
    kind == "ask"@ || kind == "permission"@ || kind == "custom"@
}

/// Whether a kind waits for the user.
pub fn is_interactive(kind: &str) -> (r: bool)
    ensures
        r == waits(kind@),
{
    same(kind, "ask") || same(kind, "permission") || same(kind, "custom")
}

// ---------------------------------------------------------------------------
// Reading members
// ---------------------------------------------------------------------------

/// A text, cut to `n` characters; empty where there is none.
pub open spec fn cap(v: Option<JsonView>, n: nat) -> Seq<char> {
    match v {
        Some(JsonView::Str(s)) => text::cut(s, n),
        _ => Seq::empty(),
    }
}

/// A text, cut to `n` characters; empty where there is none.
pub fn cap_text(v: Option<&Json>, n: usize) -> (r: String)
    ensures
        r@ == cap(json::opt_view(v), n as nat),
{
    match v {
        Some(Json::Str(s)) => cut_text(s.as_str(), n),
        _ => String::new(),
    }
}

/// Cuts a text to `n` characters.
pub fn truncate_str(s: &str, n: usize) -> (r: String)
    ensures
        r@ == text::cut(s@, n as nat),
{
    cut_text(s, n)
}

/// A text that is not empty.
pub open spec fn filled(v: Option<JsonView>) -> Option<Seq<char>> {
    match v {
        Some(JsonView::Str(s)) if s.len() > 0 => Some(s),
        _ => None,
    }
}

/// A text that is not empty.
pub fn non_empty(v: Option<&Json>) -> (r: Option<String>)
    ensures
        match r {
            Some(s) => filled(json::opt_view(v)) == Some(s@),
            None => filled(json::opt_view(v)) is None,
        },
{
    match v {
        Some(Json::Str(s)) => if s.as_str().is_empty() {
            None
        } else {
            Some(s.clone())
        },
        _ => None,
    }
}

/// A boolean, or the default where there is none.
pub open spec fn truth(v: Option<JsonView>, default: bool) -> bool {
    match v {
        Some(JsonView::Bool(b)) => b,
        _ => default,
    }
}

fn bool_or(v: Option<&Json>, default: bool) -> (r: bool)
    ensures
        r == truth(json::opt_view(v), default),
{
    match v {
        Some(Json::Bool(b)) => *b,
        _ => default,
    }
}

/// The first of the named members that is a text with something in it, cut to
/// `n` characters; empty where there is none.
pub open spec fn cap_first(v: JsonView, keys: Seq<&str>, n: nat) -> Seq<char>
    decreases keys.len(),
{
    if keys.len() == 0 {
        Seq::empty()
    } else {
        text::either(cap(v.field(keys[0]@), n), cap_first(v, keys.drop_first(), n))
    }
}

fn read_first(v: &Json, keys: &[&str], n: usize) -> (r: String)
    ensures
        r@ == cap_first(v@, keys@, n as nat),
{
    let mut i: usize = 0;
    assert(keys@.skip(0) =~= keys@);
    while i < keys.len()
        invariant
            i <= keys@.len(),
            cap_first(v@, keys@, n as nat) == cap_first(v@, keys@.skip(i as int), n as nat),
        decreases keys.len() - i,
    {
        assert(keys@.skip(i as int).drop_first() =~= keys@.skip(i as int + 1));
        assert(keys@.skip(i as int)[0] == keys@[i as int]);
        let s = cap_text(get(v, keys[i]), n);
        if !s.as_str().is_empty() {
            return s;
        }
        i += 1;
    }
    String::new()
}

/// A number of milliseconds held between 5 seconds and 2 hours.
pub open spec fn held(n: int) -> int {
    if n < 5_000 {
        5_000
    } else if n > MAX_CONFIRM_TIMEOUT_MS {
        MAX_CONFIRM_TIMEOUT_MS as int
    } else {
        n
    }
}

/// How long a popup waits: a positive number, rounded and held between 5
/// seconds and 2 hours, else an hour. `written` is what a text reads as.
pub open spec fn clamp_of(v: Option<JsonView>, written: Reading) -> int {
    match v {
        Some(JsonView::Int(n)) if n > 0 => held(n),
        Some(JsonView::Frac(f)) if f.positive => held(f.rounded),
        Some(JsonView::Str(_)) => match written {
            Reading::Finite(a) if a.positive => held(a.rounded as int),
            _ => DEFAULT_CONFIRM_TIMEOUT_MS as int,
        },
        _ => DEFAULT_CONFIRM_TIMEOUT_MS as int,
    }
}

fn hold_within(n: i64) -> (r: u64)
    ensures
        r == held(n as int),
{
    if n < 5_000 {
        5_000
    } else if n > 7_200_000 {
        7_200_000
    } else {
        n as u64
    }
}

/// How long a popup waits. `written` is what the value reads as where it is a
/// text.
pub fn clamp_timeout_ms(v: Option<&Json>, written: Reading) -> (r: u64)
    ensures
        r == clamp_of(json::opt_view(v), written),
        5_000 <= r <= MAX_CONFIRM_TIMEOUT_MS,
{
    match v {
        Some(Json::PosInt(n)) => if *n == 0 {
            DEFAULT_CONFIRM_TIMEOUT_MS
        } else if *n > 7_200_000 {
            7_200_000
        } else {
            hold_within(*n as i64)
        },
        Some(Json::NegInt(n)) => if *n > 0 {
            hold_within(*n)
        } else {
            DEFAULT_CONFIRM_TIMEOUT_MS
        },
        Some(Json::Frac(f)) => if f.positive {
            hold_within(f.rounded)
        } else {
            DEFAULT_CONFIRM_TIMEOUT_MS
        },
        Some(Json::Str(_)) => match written {
            Reading::Finite(a) => if a.positive {
                hold_within(a.rounded)
            } else {
                DEFAULT_CONFIRM_TIMEOUT_MS
            },
            _ => DEFAULT_CONFIRM_TIMEOUT_MS,
        },
        _ => DEFAULT_CONFIRM_TIMEOUT_MS,
    }
}

// ---------------------------------------------------------------------------
// Questions
// ---------------------------------------------------------------------------

/// An id that a value names, or one made of a letter and the value's place.
pub open spec fn id_or(v: Option<JsonView>, letter: Seq<char>, place: int) -> Seq<char> {
    match filled(v) {
        Some(s) => s,
        None => letter + text::int_text(place),
    }
}

fn read_id(v: Option<&Json>, letter: &str, place: usize) -> (r: String)
    ensures
        r@ == id_or(json::opt_view(v), letter@, place as int),
{
    match non_empty(v) {
        Some(s) => s,
        None => cat2(letter, decimal(place as u64).as_str()),
    }
}

/// An option: a text is its label, an object is read by its members. One without
/// a label is none.
pub open spec fn option_of(o: JsonView, j: int) -> Option<JsonView> {
    let label = match o {
        JsonView::Str(s) => text::cut(s, 60),
        _ => cap_first(o, seq!["label", "text", "value", "name"], 60),
    };
    let id = match o {
        JsonView::Str(_) => "o"@ + text::int_text(j),
        _ => id_or(o.field("id"@), "o"@, j),
    };
    let description = match o {
        JsonView::Str(_) => Seq::empty(),
        _ => text::either(cap(o.field("description"@), 160), cap(o.field("hint"@), 160)),
    };
    if label.len() == 0 {
        None
    } else {
        Some(
            JsonView::object().with("id"@, JsonView::Str(id)).with(
                "label"@,
                JsonView::Str(label),
            ).with("description"@, JsonView::Str(description)),
        )
    }
}

/// The options among the first `n` that have a label.
pub open spec fn options_of(raw: Seq<JsonView>, n: int) -> Seq<JsonView>
    decreases n,
{
    if n <= 0 {
        Seq::empty()
    } else {
        match option_of(raw[n - 1], n - 1) {
            Some(o) => options_of(raw, n - 1).push(o),
            None => options_of(raw, n - 1),
        }
    }
}

fn normalize_option(o: &Json, j: usize) -> (r: Option<Json>)
    ensures
        session::owned_view(r) == option_of(o@, j as int),
{
    let (id, label, description) = match o {
        Json::Str(s) => (
            cat2("o", decimal(j as u64).as_str()),
            cut_text(s.as_str(), 60),
            String::new(),
        ),
        _ => (
            read_id(get(o, "id"), "o", j),
            read_first(o, &["label", "text", "value", "name"], 60),
            first_or(
                cap_text(get(o, "description"), 160).as_str(),
                cap_text(get(o, "hint"), 160).as_str(),
            ),
        ),
    };
    if label.as_str().is_empty() {
        return None;
    }
    Some(
        Json::object().with("id", Json::Str(id)).with("label", Json::Str(label)).with(
            "description",
            Json::Str(description),
        ),
    )
}

fn read_options(raw: &[Json]) -> (r: Vec<Json>)
    ensures
        json::views(r@) == options_of(json::views(raw@), proto::at_most(raw@.len(), 6)),
{
    let n: usize = if raw.len() < 6 {
        raw.len()
    } else {
        6
    };
    let mut r: Vec<Json> = Vec::new();
    assert(json::views(r@) =~= Seq::empty());
    let mut j: usize = 0;
    while j < n
        invariant
            j <= n <= raw@.len(),
            json::views(r@) == options_of(json::views(raw@), j as int),
        decreases n - j,
    {
        assert(json::views(raw@)[j as int] == raw@[j as int]@);
        let ghost before = json::views(r@);
        if let Some(o) = normalize_option(&raw[j], j) {
            let ghost added = o@;
            r.push(o);
            assert(json::views(r@) =~= before.push(added));
        }
        j += 1;
    }
    r
}

/// A question at place `i`: one that is no object, or says nothing, is none.
/// Without options there is always room for an answer in words, as it could not
/// be answered otherwise.
pub open spec fn question_of(q: JsonView, i: int) -> Option<JsonView> {
    let said = cap_first(q, seq!["question", "text", "title"], 200);
    let raw = q.items("options"@);
    let options = options_of(raw, proto::at_most(raw.len(), 6));
    if !(q is Obj) || said.len() == 0 {
        None
    } else {
        Some(
            JsonView::object().with("id"@, JsonView::Str(id_or(q.field("id"@), "q"@, i))).with(
                "question"@,
                JsonView::Str(said),
            ).with("header"@, JsonView::Str(cap(q.field("header"@), 24))).with(
                "multiSelect"@,
                JsonView::Bool(
                    truth(q.field("multiSelect"@), false) || truth(q.field("multiple"@), false),
                ),
            ).with(
                "custom"@,
                JsonView::Bool(options.len() == 0 || truth(q.field("custom"@), false)),
            ).with(
                "options"@,
                JsonView::Arr(options),
            ),
        )
    }
}

/// The questions among the first `n` that ask something.
pub open spec fn questions_of(raw: Seq<JsonView>, n: int) -> Seq<JsonView>
    decreases n,
{
    if n <= 0 {
        Seq::empty()
    } else {
        match question_of(raw[n - 1], n - 1) {
            Some(q) => questions_of(raw, n - 1).push(q),
            None => questions_of(raw, n - 1),
        }
    }
}

fn normalize_question(q: &Json, i: usize) -> (r: Option<Json>)
    ensures
        session::owned_view(r) == question_of(q@, i as int),
{
    if !json::is_plain_object(q) {
        return None;
    }
    let said = read_first(q, &["question", "text", "title"], 200);
    if said.as_str().is_empty() {
        return None;
    }
    let options = read_options(json::arr(q, "options"));
    let none = options.len() == 0;
    assert(json::views(options@).len() == options@.len());
    Some(
        Json::object().with("id", Json::Str(read_id(get(q, "id"), "q", i))).with(
            "question",
            Json::Str(said),
        ).with("header", Json::Str(cap_text(get(q, "header"), 24))).with(
            "multiSelect",
            Json::Bool(
                bool_or(get(q, "multiSelect"), false) || bool_or(get(q, "multiple"), false),
            ),
        ).with("custom", Json::Bool(none || bool_or(get(q, "custom"), false))).with(
            "options",
            Json::Arr(options),
        ),
    )
}

fn normalize_questions(raw: &[Json]) -> (r: Vec<Json>)
    ensures
        json::views(r@) == questions_of(json::views(raw@), proto::at_most(raw@.len(), 4)),
{
    let n: usize = if raw.len() < 4 {
        raw.len()
    } else {
        4
    };
    let mut r: Vec<Json> = Vec::new();
    assert(json::views(r@) =~= Seq::empty());
    let mut i: usize = 0;
    while i < n
        invariant
            i <= n <= raw@.len(),
            json::views(r@) == questions_of(json::views(raw@), i as int),
        decreases n - i,
    {
        assert(json::views(raw@)[i as int] == raw@[i as int]@);
        let ghost before = json::views(r@);
        if let Some(q) = normalize_question(&raw[i], i) {
            let ghost added = q@;
            r.push(q);
            assert(json::views(r@) =~= before.push(added));
        }
        i += 1;
    }
    r
}

// ---------------------------------------------------------------------------
// Permissions
// ---------------------------------------------------------------------------

/// A suggestion of a host at place `i`; one without a label is none.
pub open spec fn suggestion_of(s: JsonView, i: int) -> Option<JsonView> {
    let label = match s {
        JsonView::Str(t) => text::cut(t, 60),
        _ => cap_first(s, seq!["label", "ruleContent", "rule", "pattern"], 60),
    };
    let id = match s {
        JsonView::Str(_) => "s"@ + text::int_text(i),
        _ => id_or(s.field("id"@), "s"@, i),
    };
    let tool = match s {
        JsonView::Str(_) => Seq::empty(),
        _ => cap(s.field("toolName"@), 60),
    };
    let rule = match s {
        JsonView::Str(t) => text::cut(t, 200),
        _ => cap_first(s, seq!["ruleContent", "rule", "pattern"], 200),
    };
    if label.len() == 0 {
        None
    } else {
        Some(
            JsonView::object().with("id"@, JsonView::Str(id)).with(
                "label"@,
                JsonView::Str(label),
            ).with("toolName"@, JsonView::Str(tool)).with("ruleContent"@, JsonView::Str(rule)),
        )
    }
}

/// The suggestions among the first `n` that have a label.
pub open spec fn suggestions_of(raw: Seq<JsonView>, n: int) -> Seq<JsonView>
    decreases n,
{
    if n <= 0 {
        Seq::empty()
    } else {
        match suggestion_of(raw[n - 1], n - 1) {
            Some(s) => suggestions_of(raw, n - 1).push(s),
            None => suggestions_of(raw, n - 1),
        }
    }
}

fn normalize_suggestion(s: &Json, i: usize) -> (r: Option<Json>)
    ensures
        session::owned_view(r) == suggestion_of(s@, i as int),
{
    let (id, label, tool, rule) = match s {
        Json::Str(t) => (
            cat2("s", decimal(i as u64).as_str()),
            cut_text(t.as_str(), 60),
            String::new(),
            cut_text(t.as_str(), 200),
        ),
        _ => (
            read_id(get(s, "id"), "s", i),
            read_first(s, &["label", "ruleContent", "rule", "pattern"], 60),
            cap_text(get(s, "toolName"), 60),
            read_first(s, &["ruleContent", "rule", "pattern"], 200),
        ),
    };
    if label.as_str().is_empty() {
        return None;
    }
    Some(
        Json::object().with("id", Json::Str(id)).with("label", Json::Str(label)).with(
            "toolName",
            Json::Str(tool),
        ).with("ruleContent", Json::Str(rule)),
    )
}

fn normalize_suggestions(raw: &[Json]) -> (r: Vec<Json>)
    ensures
        json::views(r@) == suggestions_of(json::views(raw@), proto::at_most(raw@.len(), 4)),
{
    let n: usize = if raw.len() < 4 {
        raw.len()
    } else {
        4
    };
    let mut r: Vec<Json> = Vec::new();
    assert(json::views(r@) =~= Seq::empty());
    let mut i: usize = 0;
    while i < n
        invariant
            i <= n <= raw@.len(),
            json::views(r@) == suggestions_of(json::views(raw@), i as int),
        decreases n - i,
    {
        assert(json::views(raw@)[i as int] == raw@[i as int]@);
        let ghost before = json::views(r@);
        if let Some(s) = normalize_suggestion(&raw[i], i) {
            let ghost added = s@;
            r.push(s);
            assert(json::views(r@) =~= before.push(added));
        }
        i += 1;
    }
    r
}

/// What a permission is about. The tool may stand on the top level; only an
/// explicit refusal takes "always allow" away.
pub open spec fn permission_of(p: JsonView, top: JsonView) -> JsonView {
    let raw = p.items("suggestions"@);
    let tool = text::either(
        cap(p.field("tool"@), 60),
        text::either(cap(top.field("toolName"@), 60), cap(top.field("tool"@), 60)),
    );
    JsonView::object().with("tool"@, JsonView::Str(tool)).with(
        "rule"@,
        JsonView::Str(cap(p.field("rule"@), 200)),
    ).with(
        "suggestions"@,
        JsonView::Arr(suggestions_of(raw, proto::at_most(raw.len(), 4))),
    ).with("canAlways"@, JsonView::Bool(truth(p.field("canAlways"@), true)))
}

fn normalize_permission(p: &Json, top: &Json) -> (r: Json)
    ensures
        r@ == permission_of(p@, top@),
{
    let suggestions = normalize_suggestions(json::arr(p, "suggestions"));
    let tool = first_or(
        cap_text(get(p, "tool"), 60).as_str(),
        first_or(
            cap_text(get(top, "toolName"), 60).as_str(),
            cap_text(get(top, "tool"), 60).as_str(),
        ).as_str(),
    );
    Json::object().with("tool", Json::Str(tool)).with(
        "rule",
        Json::Str(cap_text(get(p, "rule"), 200)),
    ).with("suggestions", Json::Arr(suggestions)).with(
        "canAlways",
        Json::Bool(bool_or(get(p, "canAlways"), true)),
    )
}

// ---------------------------------------------------------------------------
// Input, actions, context
// ---------------------------------------------------------------------------

/// The field for words: permissions have one unless they say otherwise.
pub open spec fn input_of(i: JsonView, kind: Seq<char>) -> JsonView {
    JsonView::object().with(
        "enabled"@,
        JsonView::Bool(truth(i.field("enabled"@), kind == "permission"@)),
    ).with("label"@, JsonView::Str(cap(i.field("label"@), 40))).with(
        "placeholder"@,
        JsonView::Str(cap(i.field("placeholder"@), 80)),
    ).with("required"@, JsonView::Bool(truth(i.field("required"@), false)))
}

fn normalize_input(i: &Json, kind: &str) -> (r: Json)
    ensures
        r@ == input_of(i@, kind@),
{
    Json::object().with(
        "enabled",
        Json::Bool(bool_or(get(i, "enabled"), same(kind, "permission"))),
    ).with("label", Json::Str(cap_text(get(i, "label"), 40))).with(
        "placeholder",
        Json::Str(cap_text(get(i, "placeholder"), 80)),
    ).with("required", Json::Bool(bool_or(get(i, "required"), false)))
}

/// A button: it has an id and a label, both texts.
pub open spec fn action_of(a: JsonView) -> Option<JsonView> {
    match (a.text_field("id"@), a.text_field("label"@)) {
        (Some(id), Some(label)) => {
            let style = match a.text_field("style"@) {
                Some(s) if s == "primary"@ || s == "danger"@ => s,
                _ => "default"@,
            };
            Some(
                JsonView::object().with("id"@, JsonView::Str(id)).with(
                    "label"@,
                    JsonView::Str(text::cut(label, 24)),
                ).with("style"@, JsonView::Str(style)),
            )
        },
        _ => None,
    }
}

/// The buttons among the first `n`, four at most.
pub open spec fn actions_of(raw: Seq<JsonView>, n: int) -> Seq<JsonView>
    decreases n,
{
    if n <= 0 {
        Seq::empty()
    } else {
        let head = actions_of(raw, n - 1);
        match action_of(raw[n - 1]) {
            Some(a) if head.len() < 4 => head.push(a),
            _ => head,
        }
    }
}

fn normalize_action(a: &Json) -> (r: Option<Json>)
    ensures
        session::owned_view(r) == action_of(a@),
{
    let id = match json::text_field(a, "id") {
        Some(s) => s,
        None => return None,
    };
    let label = match json::text_field(a, "label") {
        Some(s) => s,
        None => return None,
    };
    let style = match json::text_field(a, "style") {
        Some(s) => if same(s, "primary") || same(s, "danger") {
            s
        } else {
            "default"
        },
        None => "default",
    };
    Some(
        Json::object().with("id", Json::text(id)).with("label", Json::Str(cut_text(label, 24))).with(
            "style",
            Json::text(style),
        ),
    )
}

fn normalize_actions(raw: &[Json]) -> (r: Vec<Json>)
    ensures
        json::views(r@) == actions_of(json::views(raw@), raw@.len() as int),
{
    let mut r: Vec<Json> = Vec::new();
    assert(json::views(r@) =~= Seq::empty());
    let mut i: usize = 0;
    while i < raw.len()
        invariant
            i <= raw@.len(),
            json::views(r@) == actions_of(json::views(raw@), i as int),
        decreases raw.len() - i,
    {
        assert(json::views(raw@)[i as int] == raw@[i as int]@);
        assert(json::views(r@).len() == r@.len());
        let ghost before = json::views(r@);
        if let Some(a) = normalize_action(&raw[i]) {
            if r.len() < 4 {
                let ghost added = a@;
                r.push(a);
                assert(json::views(r@) =~= before.push(added));
            }
        }
        i += 1;
    }
    r
}

/// The context, with every member in place and cut.
pub open spec fn context_of(c: JsonView) -> JsonView {
    JsonView::object().with("agent"@, JsonView::Str(cap(c.field("agent"@), 32))).with(
        "agentType"@,
        JsonView::Str(cap(c.field("agentType"@), 60)),
    ).with("agentId"@, JsonView::Str(cap(c.field("agentId"@), 40))).with(
        "session"@,
        JsonView::Str(cap(c.field("session"@), 16)),
    ).with("project"@, JsonView::Str(cap(c.field("project"@), 60))).with(
        "task"@,
        JsonView::Str(cap(c.field("task"@), 200)),
    ).with("tool"@, JsonView::Str(cap(c.field("tool"@), 60))).with(
        "toolDetail"@,
        JsonView::Str(cap(c.field("toolDetail"@), 160)),
    )
}

fn normalize_context(c: &Json) -> (r: Json)
    ensures
        r@ == context_of(c@),
{
    Json::object().with("agent", Json::Str(cap_text(get(c, "agent"), 32))).with(
        "agentType",
        Json::Str(cap_text(get(c, "agentType"), 60)),
    ).with("agentId", Json::Str(cap_text(get(c, "agentId"), 40))).with(
        "session",
        Json::Str(cap_text(get(c, "session"), 16)),
    ).with("project", Json::Str(cap_text(get(c, "project"), 60))).with(
        "task",
        Json::Str(cap_text(get(c, "task"), 200)),
    ).with("tool", Json::Str(cap_text(get(c, "tool"), 60))).with(
        "toolDetail",
        Json::Str(cap_text(get(c, "toolDetail"), 160)),
    )
}

// ---------------------------------------------------------------------------
// The whole request
// ---------------------------------------------------------------------------

/// The kind of a request; one that is not known is `custom`.
pub open spec fn kind_of(o: JsonView) -> Seq<char> {
    match filled(o.field("kind"@)) {
        Some(k) if known_kind(k) => k,
        _ => "custom"@,
    }
}

/// How a popup looks: as the request says, else by its kind or its type.
pub open spec fn flavor_of(o: JsonView) -> Seq<char> {
    let kind = kind_of(o);
    match filled(o.field("flavor"@)) {
        Some(f) => f,
        None => if kind == "ask"@ || kind == "permission"@ {
            kind
        } else {
            match filled(o.field("type"@)) {
                Some(t) => t,
                None => "agent"@,
            }
        },
    }
}

/// The action that a request falls back to.
pub open spec fn fallback_of(o: JsonView) -> JsonView {
    match filled(o.field("defaultAction"@)) {
        Some(a) => JsonView::Str(a),
        None => match kind_action(kind_of(o)) {
            Some(a) => JsonView::Str(a),
            None => JsonView::Null,
        },
    }
}

/// The buttons of a request. A custom popup without buttons gets one, as it
/// could not be closed otherwise.
pub open spec fn buttons_of(o: JsonView) -> Seq<JsonView> {
    let raw = o.items("actions"@);
    let given = actions_of(raw, raw.len() as int);
    if given.len() == 0 && kind_of(o) == "custom"@ {
        seq![
            JsonView::object().with("id"@, JsonView::Str("ok"@)).with(
                "label"@,
                JsonView::Str("知道了"@),
            ).with("style"@, JsonView::Str("default"@)),
        ]
    } else {
        given
    }
}

/// A member, or `null` where there is none.
pub open spec fn or_null(v: Option<JsonView>) -> JsonView {
    match v {
        Some(x) => x,
        None => JsonView::Null,
    }
}

/// What every popup has.
pub open spec fn common_of(o: JsonView, written: Reading) -> JsonView {
    let kind = kind_of(o);
    JsonView::object().with("kind"@, JsonView::Str(kind)).with(
        "flavor"@,
        JsonView::Str(text::cut(flavor_of(o), 24)),
    ).with("source"@, JsonView::Str(cap(o.field("source"@), 32))).with(
        "title"@,
        JsonView::Str(text::either(cap(o.field("title"@), 120), kind_title(kind))),
    ).with("message"@, JsonView::Str(cap(o.field("message"@), 360))).with(
        "sub"@,
        JsonView::Str(cap(o.field("sub"@), 160)),
    ).with("detail"@, JsonView::Str(cap(o.field("detail"@), 2000))).with(
        "timeoutMs"@,
        JsonView::Int(clamp_of(o.field("timeoutMs"@), written)),
    ).with("defaultAction"@, fallback_of(o)).with("actions"@, JsonView::Arr(buttons_of(o))).with(
        "input"@,
        input_of(or_null(o.field("input"@)), kind),
    ).with("context"@, context_of(or_null(o.field("context"@))))
}

/// A request in the shape that popups can show. Anything but an object counts
/// as the object without members.
pub open spec fn normal_form(o: JsonView, written: Reading) -> JsonView {
    let kind = kind_of(o);
    let base = common_of(o, written);
    if kind == "ask"@ {
        let raw = o.items("questions"@);
        base.with("questions"@, JsonView::Arr(questions_of(raw, proto::at_most(raw.len(), 4))))
    } else if kind == "permission"@ {
        base.with("permission"@, permission_of(or_null(o.field("permission"@)), o))
    } else {
        base
    }
}

fn read_kind(o: &Json) -> (r: String)
    ensures
        r@ == kind_of(o@),
        known_kind(r@),
{
    if let Some(k) = non_empty(get(o, "kind")) {
        if kind_spec(k.as_str()).is_some() {
            return k;
        }
    }
    "custom".to_owned()
}

fn read_flavor(o: &Json, kind: &str) -> (r: String)
    requires
        kind@ == kind_of(o@),
    ensures
        r@ == flavor_of(o@),
{
    if let Some(f) = non_empty(get(o, "flavor")) {
        return f;
    }
    if same(kind, "ask") || same(kind, "permission") {
        return kind.to_owned();
    }
    match non_empty(get(o, "type")) {
        Some(t) => t,
        None => "agent".to_owned(),
    }
}

fn read_fallback(o: &Json, kind: &str) -> (r: Json)
    requires
        kind@ == kind_of(o@),
    ensures
        r@ == fallback_of(o@),
{
    match non_empty(get(o, "defaultAction")) {
        Some(a) => Json::Str(a),
        None => if same(kind, "ask") {
            Json::text("cancel")
        } else if same(kind, "permission") {
            Json::text("deny")
        } else {
            Json::Null
        },
    }
}

fn read_buttons(o: &Json, kind: &str) -> (r: Vec<Json>)
    requires
        kind@ == kind_of(o@),
    ensures
        json::views(r@) == buttons_of(o@),
{
    let mut given = normalize_actions(json::arr(o, "actions"));
    assert(json::views(given@).len() == given@.len());
    if given.len() == 0 && same(kind, "custom") {
        let ok = Json::object().with("id", Json::text("ok")).with("label", Json::text("知道了")).with(
            "style",
            Json::text("default"),
        );
        let ghost button = ok@;
        given.push(ok);
        assert(json::views(given@) =~= seq![button]);
    }
    given
}

fn make_common(o: &Json, kind: &str, written: Reading) -> (r: Json)
    requires
        kind@ == kind_of(o@),
        known_kind(kind@),
    ensures
        r@ == common_of(o@, written),
{
    let nothing = Json::Null;
    let default_title = match kind_spec(kind) {
        Some(k) => k.title,
        None => "",
    };
    let title = first_or(cap_text(get(o, "title"), 120).as_str(), default_title);
    let flavor = read_flavor(o, kind);
    let input = match get(o, "input") {
        Some(i) => normalize_input(i, kind),
        None => normalize_input(&nothing, kind),
    };
    let context = match get(o, "context") {
        Some(c) => normalize_context(c),
        None => normalize_context(&nothing),
    };
    Json::object().with("kind", Json::text(kind)).with(
        "flavor",
        Json::Str(cut_text(flavor.as_str(), 24)),
    ).with("source", Json::Str(cap_text(get(o, "source"), 32))).with("title", Json::Str(title)).with(
        "message",
        Json::Str(cap_text(get(o, "message"), 360)),
    ).with("sub", Json::Str(cap_text(get(o, "sub"), 160))).with(
        "detail",
        Json::Str(cap_text(get(o, "detail"), 2000)),
    ).with("timeoutMs", Json::PosInt(clamp_timeout_ms(get(o, "timeoutMs"), written))).with(
        "defaultAction",
        read_fallback(o, kind),
    ).with("actions", Json::Arr(read_buttons(o, kind))).with("input", input).with(
        "context",
        context,
    )
}

/// Brings a request into the shape that popups can show. `written` is what its
/// `timeoutMs` reads as where that is a text.
pub fn normalize_interaction(input: &Json, written: Reading) -> (r: Json)
    ensures
        r@ == normal_form(input@, written),
{
    let kind = read_kind(input);
    let base = make_common(input, kind.as_str(), written);
    if same(kind.as_str(), "ask") {
        let questions = normalize_questions(json::arr(input, "questions"));
        return base.with("questions", Json::Arr(questions));
    }
    if same(kind.as_str(), "permission") {
        let nothing = Json::Null;
        let permission = match get(input, "permission") {
            Some(p) => normalize_permission(p, input),
            None => normalize_permission(&nothing, input),
        };
        return base.with("permission", permission);
    }
    base
}

/// How long a popup waits. `written` is what its `timeoutMs` reads as where that
/// is a text (in the normal form it is a number).
pub fn timeout_of(payload: &Json, written: Reading) -> (r: u64)
    ensures
        r == clamp_of(payload@.field("timeoutMs"@), written),
        5_000 <= r <= MAX_CONFIRM_TIMEOUT_MS,
{
    clamp_timeout_ms(get(payload, "timeoutMs"), written)
}

/// The action that a popup in its normal form falls back to.
pub fn default_action_of(payload: &Json) -> (r: Option<String>)
    ensures
        match r {
            Some(a) => filled(payload@.field("defaultAction"@)) == Some(a@),
            None => filled(payload@.field("defaultAction"@)) is None,
        },
{
    non_empty(get(payload, "defaultAction"))
}

/// The size that a popup starts with, in logical pixels.
pub open spec fn size_of(kind: Seq<char>) -> (int, int) {
    if kind == "ask"@ {
        (460, 260)
    } else if kind == "permission"@ {
        (432, 240)
    } else {
        (400, 176)
    }
}

/// The size that a popup starts with, in logical pixels.
pub fn popup_size(kind: &str) -> (r: (u32, u32))
    ensures
        r.0 == size_of(kind@).0,
        r.1 == size_of(kind@).1,
{
    if same(kind, "ask") {
        (460, 260)
    } else if same(kind, "permission") {
        (432, 240)
    } else {
        (400, 176)
    }
}

/// The name under which a source is shown; one that is not known is shown as it
/// is.
pub open spec fn label_of(s: Seq<char>, lead: Seq<char>) -> Seq<char> {
    if s == "zcode"@ {
        "ZCode"@
    } else if s == lead::source_of(lead) {
        lead::label_of(lead)
    } else if s == "vscode"@ {
        "VS Code"@
    } else if s == "trae"@ {
        "Trae"@
    } else if s == "cursor"@ {
        "Cursor"@
    } else if s == "opencode"@ {
        "OpenCode"@
    } else if s == "codex"@ {
        "Codex"@
    } else if s == "qwen"@ {
        "Qwen Code"@
    } else if s == "manual"@ {
        "手动"@
    } else {
        s
    }
}

/// The name under which a source is shown. `lead` names the lead host.
pub fn source_label(s: &str, lead: &str) -> (r: String)
    ensures
        r@ == label_of(s@, lead@),
{
    let known = if same(s, "zcode") {
        "ZCode"
    } else if same(s, lead::source(lead).as_str()) {
        return lead::label(lead);
    } else if same(s, "vscode") {
        "VS Code"
    } else if same(s, "trae") {
        "Trae"
    } else if same(s, "cursor") {
        "Cursor"
    } else if same(s, "opencode") {
        "OpenCode"
    } else if same(s, "codex") {
        "Codex"
    } else if same(s, "qwen") {
        "Qwen Code"
    } else if same(s, "manual") {
        "手动"
    } else {
        s
    };
    known.to_owned()
}

// ---------------------------------------------------------------------------
// Laws
// ---------------------------------------------------------------------------

proof fn lemma_common_fields(o: JsonView, written: Reading)
    ensures
        ({
            let c = common_of(o, written);
            &&& c is Obj
            &&& c.field("kind"@) == Some(JsonView::Str(kind_of(o)))
            &&& c.field("timeoutMs"@) == Some(JsonView::Int(clamp_of(o.field("timeoutMs"@), written)))
            &&& c.field("defaultAction"@) == Some(fallback_of(o))
            &&& c.field("actions"@) == Some(JsonView::Arr(buttons_of(o)))
            &&& c.field("questions"@) is None
        }),
{
    broadcast use crate::json::group_fields;

    reveal_strlit("kind");
    reveal_strlit("flavor");
    reveal_strlit("source");
    reveal_strlit("title");
    reveal_strlit("message");
    reveal_strlit("sub");
    reveal_strlit("detail");
    reveal_strlit("timeoutMs");
    reveal_strlit("defaultAction");
    reveal_strlit("actions");
    reveal_strlit("input");
    reveal_strlit("context");
    reveal_strlit("questions");
    assert("kind"@.len() == 4 && "flavor"@.len() == 6 && "source"@.len() == 6 && "title"@.len() == 5);
    assert("message"@.len() == 7 && "sub"@.len() == 3 && "detail"@.len() == 6);
    assert("timeoutMs"@.len() == 9 && "defaultAction"@.len() == 13 && "actions"@.len() == 7);
    assert("input"@.len() == 5 && "context"@.len() == 7 && "questions"@.len() == 9);
    assert("timeoutMs"@[0] == 't' && "questions"@[0] == 'q');
    assert("message"@[0] == 'm' && "actions"@[0] == 'a' && "context"@[0] == 'c');
}

proof fn lemma_normal_fields(o: JsonView, written: Reading)
    ensures
        ({
            let n = normal_form(o, written);
            &&& n is Obj
            &&& n.field("kind"@) == Some(JsonView::Str(kind_of(o)))
            &&& n.field("timeoutMs"@) == Some(JsonView::Int(clamp_of(o.field("timeoutMs"@), written)))
            &&& n.field("defaultAction"@) == Some(fallback_of(o))
            &&& n.field("actions"@) == Some(JsonView::Arr(buttons_of(o)))
            &&& kind_of(o) == "ask"@ ==> n.field("questions"@) == Some(
                JsonView::Arr(
                    questions_of(
                        o.items("questions"@),
                        proto::at_most(o.items("questions"@).len(), 4),
                    ),
                ),
            )
        }),
{
    broadcast use crate::json::group_fields;

    lemma_common_fields(o, written);
}

/// A popup that nobody answers never allows anything by itself: unless the
/// request names another action, a question is cancelled, a permission is denied,
/// and anything else falls back to nothing.
pub proof fn law_safe_when_unanswered(o: JsonView, written: Reading)
    requires
        filled(o.field("defaultAction"@)) is None,
    ensures
        kind_of(o) == "ask"@ ==> normal_form(o, written).field("defaultAction"@) == Some(
            JsonView::Str("cancel"@),
        ),
        kind_of(o) == "permission"@ ==> normal_form(o, written).field("defaultAction"@) == Some(
            JsonView::Str("deny"@),
        ),
        kind_of(o) != "ask"@ && kind_of(o) != "permission"@ ==> normal_form(o, written).field(
            "defaultAction"@,
        ) == Some(JsonView::Null),
{
    lemma_normal_fields(o, written);
    reveal_strlit("ask");
    reveal_strlit("permission");
    assert("ask"@.len() == 3 && "permission"@.len() == 10);
}

/// Whatever is asked for, the popup is of a known kind and waits between five
/// seconds and two hours, and a custom one can be closed.
pub proof fn law_normal_form_can_be_shown(o: JsonView, written: Reading)
    ensures
        ({
            let n = normal_form(o, written);
            &&& n.text_field("kind"@) matches Some(k) && known_kind(k)
            &&& n.field("timeoutMs"@) matches Some(JsonView::Int(ms)) && 5_000 <= ms <= 7_200_000
            &&& kind_of(o) == "custom"@ ==> n.items("actions"@).len() > 0
        }),
{
    lemma_normal_fields(o, written);
}

proof fn lemma_question_can_be_answered(q: JsonView, i: int)
    requires
        question_of(q, i) is Some,
    ensures
        question_of(q, i)->0.items("options"@).len() > 0 || question_of(q, i)->0.field("custom"@)
            == Some(JsonView::Bool(true)),
{
    broadcast use crate::json::group_fields;

    reveal_strlit("id");
    reveal_strlit("header");
    reveal_strlit("question");
    reveal_strlit("multiSelect");
    reveal_strlit("custom");
    reveal_strlit("options");
    assert("id"@.len() == 2 && "header"@.len() == 6 && "question"@.len() == 8);
    assert("multiSelect"@.len() == 11 && "custom"@.len() == 6 && "options"@.len() == 7);
    assert("header"@[0] == 'h' && "custom"@[0] == 'c');
}

/// Every question of a popup can be answered: it has options to choose from, or
/// room for words.
pub proof fn law_questions_can_be_answered(raw: Seq<JsonView>, n: int, i: int)
    requires
        0 <= n <= raw.len(),
        0 <= i < questions_of(raw, n).len(),
    ensures
        questions_of(raw, n)[i].items("options"@).len() > 0 || questions_of(raw, n)[i].field(
            "custom"@,
        ) == Some(JsonView::Bool(true)),
    decreases n,
{
    if n > 0 {
        let head = questions_of(raw, n - 1);
        match question_of(raw[n - 1], n - 1) {
            Some(q) => {
                if i < head.len() {
                    law_questions_can_be_answered(raw, n - 1, i);
                } else {
                    lemma_question_can_be_answered(raw[n - 1], n - 1);
                }
            },
            None => {
                law_questions_can_be_answered(raw, n - 1, i);
            },
        }
    }
}

// ---------------------------------------------------------------------------
// The normal form of a normal form
// ---------------------------------------------------------------------------

proof fn lemma_cut_again(s: Seq<char>, n: nat)
    requires
        n > 0,
    ensures
        text::cut(text::cut(s, n), n) == text::cut(s, n),
        s.len() > 0 ==> text::cut(s, n).len() > 0,
{
}

proof fn lemma_cap_again(v: Option<JsonView>, n: nat)
    requires
        n > 0,
    ensures
        cap(Some(JsonView::Str(cap(v, n))), n) == cap(v, n),
{
    if let Some(JsonView::Str(s)) = v {
        lemma_cut_again(s, n);
    }
}

/// The first of the named members is taken where it has something to say.
proof fn lemma_first_again(v: JsonView, keys: Seq<&str>, s: Seq<char>, n: nat)
    requires
        keys.len() > 0,
        v.field(keys[0]@) == Some(JsonView::Str(s)),
        text::cut(s, n) == s,
        s.len() > 0,
    ensures
        cap_first(v, keys, n) == s,
{
}

proof fn lemma_first_is_cut(v: JsonView, keys: Seq<&str>, n: nat)
    requires
        n > 0,
    ensures
        text::cut(cap_first(v, keys, n), n) == cap_first(v, keys, n),
    decreases keys.len(),
{
    if keys.len() > 0 {
        lemma_first_is_cut(v, keys.drop_first(), n);
        if let Some(JsonView::Str(s)) = v.field(keys[0]@) {
            lemma_cut_again(s, n);
        }
    }
}

/// Whether an option is in its normal form, at whatever place.
spec fn settled_option(o: JsonView) -> bool {
    forall|j: int| #[trigger] option_of(o, j) == Some(o)
}

proof fn lemma_option_again(o: JsonView, j: int)
    requires
        option_of(o, j) is Some,
    ensures
        settled_option(option_of(o, j)->0),
{
    broadcast use crate::json::group_fields;

    let r = option_of(o, j)->0;
    reveal_strlit("o");
    reveal_strlit("id");
    reveal_strlit("label");
    reveal_strlit("description");
    reveal_strlit("hint");
    assert("id"@.len() == 2 && "label"@.len() == 5 && "description"@.len() == 11);
    assert("hint"@.len() == 4);
    let label = match o {
        JsonView::Str(s) => text::cut(s, 60),
        _ => cap_first(o, seq!["label", "text", "value", "name"], 60),
    };
    let id = match o {
        JsonView::Str(_) => "o"@ + text::int_text(j),
        _ => id_or(o.field("id"@), "o"@, j),
    };
    let description = match o {
        JsonView::Str(_) => Seq::empty(),
        _ => text::either(cap(o.field("description"@), 160), cap(o.field("hint"@), 160)),
    };
    if let JsonView::Str(s) = o {
        lemma_cut_again(s, 60);
    } else {
        lemma_first_is_cut(o, seq!["label", "text", "value", "name"], 60);
    }
    lemma_cap_again(o.field("description"@), 160);
    lemma_cap_again(o.field("hint"@), 160);
    assert(text::cut(description, 160) == description);
    assert(id.len() > 0);
    assert(r.field("id"@) == Some(JsonView::Str(id)));
    assert(r.field("label"@) == Some(JsonView::Str(label)));
    assert(r.field("description"@) == Some(JsonView::Str(description)));
    assert(r.field("hint"@) is None);
    lemma_first_again(r, seq!["label", "text", "value", "name"], label, 60);
    assert(text::either(cap(r.field("description"@), 160), cap(r.field("hint"@), 160))
        =~= description);
    assert forall|k: int| #[trigger] option_of(r, k) == Some(r) by {
        assert(id_or(r.field("id"@), "o"@, k) == id);
    }
}

proof fn lemma_options_settled(raw: Seq<JsonView>, n: int)
    requires
        0 <= n <= raw.len(),
    ensures
        options_of(raw, n).len() <= n,
        forall|i: int| 0 <= i < options_of(raw, n).len() ==> settled_option(
            #[trigger] options_of(raw, n)[i],
        ),
    decreases n,
{
    if n > 0 {
        lemma_options_settled(raw, n - 1);
        if option_of(raw[n - 1], n - 1) is Some {
            lemma_option_again(raw[n - 1], n - 1);
        }
    }
}

proof fn lemma_options_stay(list: Seq<JsonView>, n: int)
    requires
        0 <= n <= list.len(),
        forall|i: int| 0 <= i < list.len() ==> settled_option(#[trigger] list[i]),
    ensures
        options_of(list, n) == list.take(n),
    decreases n,
{
    if n > 0 {
        lemma_options_stay(list, n - 1);
        assert(settled_option(list[n - 1]));
        assert(option_of(list[n - 1], n - 1) == Some(list[n - 1]));
        assert(list.take(n - 1).push(list[n - 1]) =~= list.take(n));
    } else {
        assert(list.take(0) =~= Seq::empty());
    }
}

/// Whether a question is in its normal form, at whatever place.
spec fn settled_question(q: JsonView) -> bool {
    forall|i: int| #[trigger] question_of(q, i) == Some(q)
}

proof fn lemma_question_again(q: JsonView, i: int)
    requires
        question_of(q, i) is Some,
    ensures
        settled_question(question_of(q, i)->0),
{
    broadcast use crate::json::group_fields;

    let r = question_of(q, i)->0;
    reveal_strlit("q");
    reveal_strlit("id");
    reveal_strlit("header");
    reveal_strlit("question");
    reveal_strlit("multiSelect");
    reveal_strlit("multiple");
    reveal_strlit("custom");
    reveal_strlit("options");
    assert("id"@.len() == 2 && "header"@.len() == 6 && "question"@.len() == 8);
    assert("multiSelect"@.len() == 11 && "custom"@.len() == 6 && "options"@.len() == 7);
    assert("multiple"@.len() == 8 && "multiple"@[0] == 'm' && "question"@[0] == 'q');
    assert("header"@[0] == 'h' && "custom"@[0] == 'c');
    let said = cap_first(q, seq!["question", "text", "title"], 200);
    let raw = q.items("options"@);
    let n = proto::at_most(raw.len(), 6);
    let options = options_of(raw, n);
    let id = id_or(q.field("id"@), "q"@, i);
    let header = cap(q.field("header"@), 24);
    let many = truth(q.field("multiSelect"@), false) || truth(q.field("multiple"@), false);
    let words = options.len() == 0 || truth(q.field("custom"@), false);
    lemma_first_is_cut(q, seq!["question", "text", "title"], 200);
    lemma_cap_again(q.field("header"@), 24);
    lemma_options_settled(raw, n);
    lemma_options_stay(options, options.len() as int);
    assert(options.take(options.len() as int) =~= options);
    assert(r.field("id"@) == Some(JsonView::Str(id)));
    assert(r.field("question"@) == Some(JsonView::Str(said)));
    assert(r.field("header"@) == Some(JsonView::Str(header)));
    assert(r.field("multiSelect"@) == Some(JsonView::Bool(many)));
    assert(r.field("multiple"@) is None);
    assert(r.field("custom"@) == Some(JsonView::Bool(words)));
    assert(r.field("options"@) == Some(JsonView::Arr(options)));
    assert(r.items("options"@) == options);
    lemma_first_again(r, seq!["question", "text", "title"], said, 200);
    assert(options_of(options, proto::at_most(options.len(), 6)) == options);
    assert forall|k: int| #[trigger] question_of(r, k) == Some(r) by {
        assert(id_or(r.field("id"@), "q"@, k) == id);
    }
}

proof fn lemma_questions_settled(raw: Seq<JsonView>, n: int)
    requires
        0 <= n <= raw.len(),
    ensures
        questions_of(raw, n).len() <= n,
        forall|i: int| 0 <= i < questions_of(raw, n).len() ==> settled_question(
            #[trigger] questions_of(raw, n)[i],
        ),
    decreases n,
{
    if n > 0 {
        lemma_questions_settled(raw, n - 1);
        if question_of(raw[n - 1], n - 1) is Some {
            lemma_question_again(raw[n - 1], n - 1);
        }
    }
}

proof fn lemma_questions_stay(list: Seq<JsonView>, n: int)
    requires
        0 <= n <= list.len(),
        forall|i: int| 0 <= i < list.len() ==> settled_question(#[trigger] list[i]),
    ensures
        questions_of(list, n) == list.take(n),
    decreases n,
{
    if n > 0 {
        lemma_questions_stay(list, n - 1);
        assert(settled_question(list[n - 1]));
        assert(question_of(list[n - 1], n - 1) == Some(list[n - 1]));
        assert(list.take(n - 1).push(list[n - 1]) =~= list.take(n));
    } else {
        assert(list.take(0) =~= Seq::empty());
    }
}

/// Whether a suggestion is in its normal form, at whatever place.
spec fn settled_suggestion(s: JsonView) -> bool {
    forall|i: int| #[trigger] suggestion_of(s, i) == Some(s)
}

proof fn lemma_suggestion_again(s: JsonView, i: int)
    requires
        suggestion_of(s, i) is Some,
    ensures
        settled_suggestion(suggestion_of(s, i)->0),
{
    broadcast use crate::json::group_fields;

    let r = suggestion_of(s, i)->0;
    reveal_strlit("s");
    reveal_strlit("id");
    reveal_strlit("label");
    reveal_strlit("toolName");
    reveal_strlit("ruleContent");
    reveal_strlit("rule");
    reveal_strlit("pattern");
    assert("id"@.len() == 2 && "label"@.len() == 5 && "toolName"@.len() == 8);
    assert("ruleContent"@.len() == 11 && "rule"@.len() == 4 && "pattern"@.len() == 7);
    let names = seq!["label", "ruleContent", "rule", "pattern"];
    let rules = seq!["ruleContent", "rule", "pattern"];
    let label = match s {
        JsonView::Str(t) => text::cut(t, 60),
        _ => cap_first(s, names, 60),
    };
    let id = match s {
        JsonView::Str(_) => "s"@ + text::int_text(i),
        _ => id_or(s.field("id"@), "s"@, i),
    };
    let tool = match s {
        JsonView::Str(_) => Seq::empty(),
        _ => cap(s.field("toolName"@), 60),
    };
    let rule = match s {
        JsonView::Str(t) => text::cut(t, 200),
        _ => cap_first(s, rules, 200),
    };
    if let JsonView::Str(t) = s {
        lemma_cut_again(t, 60);
        lemma_cut_again(t, 200);
    } else {
        lemma_first_is_cut(s, names, 60);
        lemma_first_is_cut(s, rules, 200);
    }
    lemma_cap_again(s.field("toolName"@), 60);
    assert(r.field("id"@) == Some(JsonView::Str(id)));
    assert(r.field("label"@) == Some(JsonView::Str(label)));
    assert(r.field("toolName"@) == Some(JsonView::Str(tool)));
    assert(r.field("ruleContent"@) == Some(JsonView::Str(rule)));
    assert(r.field("rule"@) is None);
    assert(r.field("pattern"@) is None);
    assert(text::cut(tool, 60) == tool);
    lemma_first_again(r, names, label, 60);
    assert(cap_first(r, rules, 200) =~= rule) by {
        let more = rules.drop_first();
        let last = more.drop_first();
        assert(rules[0] == "ruleContent" && more[0] == "rule" && last[0] == "pattern");
        assert(last.drop_first().len() == 0);
        assert(cap_first(r, last.drop_first(), 200) =~= Seq::empty());
        assert(cap_first(r, last, 200) =~= Seq::empty());
        assert(cap_first(r, more, 200) =~= Seq::empty());
    }
    assert forall|k: int| #[trigger] suggestion_of(r, k) == Some(r) by {
        assert(id_or(r.field("id"@), "s"@, k) == id);
    }
}

proof fn lemma_suggestions_settled(raw: Seq<JsonView>, n: int)
    requires
        0 <= n <= raw.len(),
    ensures
        suggestions_of(raw, n).len() <= n,
        forall|i: int| 0 <= i < suggestions_of(raw, n).len() ==> settled_suggestion(
            #[trigger] suggestions_of(raw, n)[i],
        ),
    decreases n,
{
    if n > 0 {
        lemma_suggestions_settled(raw, n - 1);
        if suggestion_of(raw[n - 1], n - 1) is Some {
            lemma_suggestion_again(raw[n - 1], n - 1);
        }
    }
}

proof fn lemma_suggestions_stay(list: Seq<JsonView>, n: int)
    requires
        0 <= n <= list.len(),
        forall|i: int| 0 <= i < list.len() ==> settled_suggestion(#[trigger] list[i]),
    ensures
        suggestions_of(list, n) == list.take(n),
    decreases n,
{
    if n > 0 {
        lemma_suggestions_stay(list, n - 1);
        assert(settled_suggestion(list[n - 1]));
        assert(suggestion_of(list[n - 1], n - 1) == Some(list[n - 1]));
        assert(list.take(n - 1).push(list[n - 1]) =~= list.take(n));
    } else {
        assert(list.take(0) =~= Seq::empty());
    }
}

/// The permission of a popup in its normal form, whose top level names no tool.
proof fn lemma_permission_again(p: JsonView, top: JsonView, normal: JsonView)
    requires
        normal.field("toolName"@) is None,
        normal.field("tool"@) is None,
    ensures
        permission_of(permission_of(p, top), normal) == permission_of(p, top),
{
    broadcast use crate::json::group_fields;

    let r = permission_of(p, top);
    reveal_strlit("tool");
    reveal_strlit("rule");
    reveal_strlit("suggestions");
    reveal_strlit("canAlways");
    assert("tool"@.len() == 4 && "rule"@.len() == 4 && "suggestions"@.len() == 11);
    assert("canAlways"@.len() == 9 && "tool"@[0] == 't' && "rule"@[0] == 'r');
    let raw = p.items("suggestions"@);
    let n = proto::at_most(raw.len(), 4);
    let list = suggestions_of(raw, n);
    let tool = text::either(
        cap(p.field("tool"@), 60),
        text::either(cap(top.field("toolName"@), 60), cap(top.field("tool"@), 60)),
    );
    let rule = cap(p.field("rule"@), 200);
    lemma_cap_again(p.field("tool"@), 60);
    lemma_cap_again(top.field("toolName"@), 60);
    lemma_cap_again(top.field("tool"@), 60);
    lemma_cap_again(p.field("rule"@), 200);
    lemma_suggestions_settled(raw, n);
    lemma_suggestions_stay(list, list.len() as int);
    assert(list.take(list.len() as int) =~= list);
    assert(r.field("tool"@) == Some(JsonView::Str(tool)));
    assert(r.field("rule"@) == Some(JsonView::Str(rule)));
    assert(r.field("suggestions"@) == Some(JsonView::Arr(list)));
    assert(r.items("suggestions"@) == list);
    assert(text::cut(tool, 60) == tool);
    assert(text::either(
        cap(r.field("tool"@), 60),
        text::either(cap(normal.field("toolName"@), 60), cap(normal.field("tool"@), 60)),
    ) =~= tool);
}

proof fn lemma_input_again(i: JsonView, kind: Seq<char>)
    ensures
        input_of(input_of(i, kind), kind) == input_of(i, kind),
{
    broadcast use crate::json::group_fields;

    let r = input_of(i, kind);
    reveal_strlit("enabled");
    reveal_strlit("label");
    reveal_strlit("placeholder");
    reveal_strlit("required");
    assert("enabled"@.len() == 7 && "label"@.len() == 5 && "placeholder"@.len() == 11);
    assert("required"@.len() == 8);
    lemma_cap_again(i.field("label"@), 40);
    lemma_cap_again(i.field("placeholder"@), 80);
    assert(r.field("label"@) == Some(JsonView::Str(cap(i.field("label"@), 40))));
    assert(r.field("placeholder"@) == Some(JsonView::Str(cap(i.field("placeholder"@), 80))));
}

proof fn lemma_context_again(c: JsonView)
    ensures
        context_of(context_of(c)) == context_of(c),
{
    broadcast use crate::json::group_fields;

    let r = context_of(c);
    reveal_strlit("agent");
    reveal_strlit("agentType");
    reveal_strlit("agentId");
    reveal_strlit("session");
    reveal_strlit("project");
    reveal_strlit("task");
    reveal_strlit("tool");
    reveal_strlit("toolDetail");
    assert("agent"@.len() == 5 && "agentType"@.len() == 9 && "agentId"@.len() == 7);
    assert("session"@.len() == 7 && "project"@.len() == 7 && "task"@.len() == 4);
    assert("tool"@.len() == 4 && "toolDetail"@.len() == 10);
    assert("agentId"@[0] == 'a' && "session"@[0] == 's' && "project"@[0] == 'p');
    assert("task"@[1] == 'a' && "tool"@[1] == 'o');
    lemma_cap_again(c.field("agent"@), 32);
    lemma_cap_again(c.field("agentType"@), 60);
    lemma_cap_again(c.field("agentId"@), 40);
    lemma_cap_again(c.field("session"@), 16);
    lemma_cap_again(c.field("project"@), 60);
    lemma_cap_again(c.field("task"@), 200);
    lemma_cap_again(c.field("tool"@), 60);
    lemma_cap_again(c.field("toolDetail"@), 160);
    assert(r.field("agent"@) == Some(JsonView::Str(cap(c.field("agent"@), 32))));
    assert(r.field("agentType"@) == Some(JsonView::Str(cap(c.field("agentType"@), 60))));
    assert(r.field("agentId"@) == Some(JsonView::Str(cap(c.field("agentId"@), 40))));
    assert(r.field("session"@) == Some(JsonView::Str(cap(c.field("session"@), 16))));
    assert(r.field("project"@) == Some(JsonView::Str(cap(c.field("project"@), 60))));
    assert(r.field("task"@) == Some(JsonView::Str(cap(c.field("task"@), 200))));
    assert(r.field("tool"@) == Some(JsonView::Str(cap(c.field("tool"@), 60))));
    assert(r.field("toolDetail"@) == Some(JsonView::Str(cap(c.field("toolDetail"@), 160))));
}

proof fn lemma_action_again(a: JsonView)
    requires
        action_of(a) is Some,
    ensures
        action_of(action_of(a)->0) == action_of(a),
{
    broadcast use crate::json::group_fields;

    let r = action_of(a)->0;
    reveal_strlit("id");
    reveal_strlit("label");
    reveal_strlit("style");
    assert("id"@.len() == 2 && "label"@.len() == 5 && "style"@.len() == 5);
    assert("label"@[0] == 'l' && "style"@[0] == 's');
    lemma_cut_again(a.text_field("label"@)->0, 24);
    let label = text::cut(a.text_field("label"@)->0, 24);
    assert(r.field("id"@) == Some(JsonView::Str(a.text_field("id"@)->0)));
    assert(r.field("label"@) == Some(JsonView::Str(label)));
}

proof fn lemma_actions_settled(raw: Seq<JsonView>, n: int)
    requires
        0 <= n <= raw.len(),
    ensures
        actions_of(raw, n).len() <= 4,
        forall|i: int| 0 <= i < actions_of(raw, n).len() ==> action_of(
            #[trigger] actions_of(raw, n)[i],
        ) == Some(actions_of(raw, n)[i]),
    decreases n,
{
    if n > 0 {
        lemma_actions_settled(raw, n - 1);
        if action_of(raw[n - 1]) is Some {
            lemma_action_again(raw[n - 1]);
        }
    }
}

proof fn lemma_actions_stay(list: Seq<JsonView>, n: int)
    requires
        0 <= n <= list.len() <= 4,
        forall|i: int| 0 <= i < list.len() ==> action_of(#[trigger] list[i]) == Some(list[i]),
    ensures
        actions_of(list, n) == list.take(n),
    decreases n,
{
    if n > 0 {
        lemma_actions_stay(list, n - 1);
        assert(list.take(n - 1).push(list[n - 1]) =~= list.take(n));
    } else {
        assert(list.take(0) =~= Seq::empty());
    }
}

proof fn lemma_buttons_settled(o: JsonView)
    ensures
        buttons_of(o).len() <= 4,
        forall|i: int| 0 <= i < buttons_of(o).len() ==> action_of(#[trigger] buttons_of(o)[i])
            == Some(buttons_of(o)[i]),
        kind_of(o) == "custom"@ ==> buttons_of(o).len() > 0,
{
    broadcast use crate::json::group_fields;

    let raw = o.items("actions"@);
    lemma_actions_settled(raw, raw.len() as int);
    let ok = JsonView::object().with("id"@, JsonView::Str("ok"@)).with(
        "label"@,
        JsonView::Str("知道了"@),
    ).with("style"@, JsonView::Str("default"@));
    reveal_strlit("id");
    reveal_strlit("label");
    reveal_strlit("style");
    reveal_strlit("知道了");
    reveal_strlit("default");
    reveal_strlit("primary");
    reveal_strlit("danger");
    assert("id"@.len() == 2 && "label"@.len() == 5 && "style"@.len() == 5);
    assert("label"@[0] == 'l' && "style"@[0] == 's' && "知道了"@.len() == 3);
    assert(ok.field("id"@) == Some(JsonView::Str("ok"@)));
    assert(ok.field("label"@) == Some(JsonView::Str("知道了"@)));
    assert(ok.field("style"@) == Some(JsonView::Str("default"@)));
    assert(action_of(ok) == Some(ok));
}

proof fn lemma_shown_fields(o: JsonView, written: Reading)
    ensures
        ({
            let c = common_of(o, written);
            let kind = kind_of(o);
            &&& c.field("flavor"@) == Some(JsonView::Str(text::cut(flavor_of(o), 24)))
            &&& c.field("source"@) == Some(JsonView::Str(cap(o.field("source"@), 32)))
            &&& c.field("title"@) == Some(
                JsonView::Str(text::either(cap(o.field("title"@), 120), kind_title(kind))),
            )
            &&& c.field("message"@) == Some(JsonView::Str(cap(o.field("message"@), 360)))
            &&& c.field("sub"@) == Some(JsonView::Str(cap(o.field("sub"@), 160)))
            &&& c.field("detail"@) == Some(JsonView::Str(cap(o.field("detail"@), 2000)))
            &&& c.field("input"@) == Some(input_of(or_null(o.field("input"@)), kind))
            &&& c.field("context"@) == Some(context_of(or_null(o.field("context"@))))
            &&& c.field("permission"@) is None
            &&& c.field("tool"@) is None
            &&& c.field("toolName"@) is None
        }),
{
    broadcast use crate::json::group_fields;

    reveal_strlit("kind");
    reveal_strlit("flavor");
    reveal_strlit("source");
    reveal_strlit("title");
    reveal_strlit("message");
    reveal_strlit("sub");
    reveal_strlit("detail");
    reveal_strlit("timeoutMs");
    reveal_strlit("defaultAction");
    reveal_strlit("actions");
    reveal_strlit("input");
    reveal_strlit("context");
    reveal_strlit("permission");
    reveal_strlit("tool");
    reveal_strlit("toolName");
    assert("kind"@.len() == 4 && "flavor"@.len() == 6 && "source"@.len() == 6 && "title"@.len() == 5);
    assert("message"@.len() == 7 && "sub"@.len() == 3 && "detail"@.len() == 6);
    assert("timeoutMs"@.len() == 9 && "defaultAction"@.len() == 13 && "actions"@.len() == 7);
    assert("input"@.len() == 5 && "context"@.len() == 7 && "permission"@.len() == 10);
    assert("tool"@.len() == 4 && "toolName"@.len() == 8);
    assert("kind"@[0] == 'k' && "tool"@[0] == 't');
    assert("flavor"@[0] == 'f' && "source"@[0] == 's' && "detail"@[0] == 'd');
    assert("title"@[0] == 't' && "input"@[0] == 'i');
    assert("message"@[0] == 'm' && "actions"@[0] == 'a' && "context"@[0] == 'c');
}

/// The members that every normal form has.
proof fn lemma_normal_shown(o: JsonView, written: Reading)
    ensures
        ({
            let c = common_of(o, written);
            let n = normal_form(o, written);
            &&& n.field("flavor"@) == c.field("flavor"@)
            &&& n.field("source"@) == c.field("source"@)
            &&& n.field("title"@) == c.field("title"@)
            &&& n.field("message"@) == c.field("message"@)
            &&& n.field("sub"@) == c.field("sub"@)
            &&& n.field("detail"@) == c.field("detail"@)
            &&& n.field("input"@) == c.field("input"@)
            &&& n.field("context"@) == c.field("context"@)
            &&& n.field("tool"@) is None
            &&& n.field("toolName"@) is None
            &&& kind_of(o) == "permission"@ ==> n.field("permission"@) == Some(
                permission_of(or_null(o.field("permission"@)), o),
            )
        }),
{
    broadcast use crate::json::group_fields;

    lemma_common_fields(o, written);
    lemma_shown_fields(o, written);
    reveal_strlit("ask");
    reveal_strlit("permission");
    reveal_strlit("questions");
    reveal_strlit("tool");
    reveal_strlit("toolName");
    assert("ask"@.len() == 3 && "permission"@.len() == 10 && "questions"@.len() == 9);
    assert("tool"@.len() == 4 && "toolName"@.len() == 8);
}

proof fn lemma_titles_are_short(kind: Seq<char>)
    ensures
        0 < kind_title(kind).len() <= 120,
{
    reveal_strlit("Agent 提问");
    reveal_strlit("需要权限确认");
    reveal_strlit("番茄钟");
    reveal_strlit("需要确认");
}

proof fn lemma_common_again(o: JsonView, written: Reading, again: Reading)
    ensures
        common_of(normal_form(o, written), again) == common_of(o, written),
{
    let n = normal_form(o, written);
    let kind = kind_of(o);
    lemma_normal_fields(o, written);
    lemma_shown_fields(o, written);
    lemma_normal_shown(o, written);
    lemma_buttons_settled(o);
    lemma_titles_are_short(kind);
    lemma_cut_again(flavor_of(o), 24);
    lemma_cap_again(o.field("source"@), 32);
    lemma_cap_again(o.field("title"@), 120);
    lemma_cap_again(o.field("message"@), 360);
    lemma_cap_again(o.field("sub"@), 160);
    lemma_cap_again(o.field("detail"@), 2000);
    lemma_input_again(or_null(o.field("input"@)), kind);
    lemma_context_again(or_null(o.field("context"@)));
    reveal_strlit("agent");
    reveal_strlit("ask");
    reveal_strlit("permission");
    reveal_strlit("custom");
    reveal_strlit("notification");
    reveal_strlit("cancel");
    reveal_strlit("deny");
    assert("ask"@.len() == 3 && "permission"@.len() == 10 && "custom"@.len() == 6);
    assert("agent"@.len() == 5 && "cancel"@.len() == 6 && "deny"@.len() == 4);
    assert("notification"@.len() == 12);
    assert(kind_of(n) == kind);
    assert(flavor_of(o).len() > 0);
    assert(flavor_of(n) == text::cut(flavor_of(o), 24));
    assert(fallback_of(n) == fallback_of(o));
    let list = buttons_of(o);
    lemma_actions_stay(list, list.len() as int);
    assert(list.take(list.len() as int) =~= list);
    assert(n.items("actions"@) == list);
    assert(buttons_of(n) == list);
    let title = text::either(cap(o.field("title"@), 120), kind_title(kind));
    assert(text::cut(title, 120) == title);
    assert(text::either(cap(n.field("title"@), 120), kind_title(kind)) == title);
    assert(clamp_of(n.field("timeoutMs"@), again) == clamp_of(o.field("timeoutMs"@), written));
}

/// Bringing a request into its normal form twice gives what bringing it there once
/// gives.
pub proof fn law_normal_form_is_settled(o: JsonView, written: Reading, again: Reading)
    ensures
        normal_form(normal_form(o, written), again) == normal_form(o, written),
{
    let n = normal_form(o, written);
    let kind = kind_of(o);
    lemma_common_again(o, written, again);
    lemma_normal_fields(o, written);
    lemma_normal_shown(o, written);
    assert(kind_of(n) == kind);
    if kind == "ask"@ {
        let raw = o.items("questions"@);
        let list = questions_of(raw, proto::at_most(raw.len(), 4));
        lemma_questions_settled(raw, proto::at_most(raw.len(), 4));
        lemma_questions_stay(list, list.len() as int);
        assert(list.take(list.len() as int) =~= list);
        assert(n.items("questions"@) == list);
    } else if kind == "permission"@ {
        lemma_permission_again(or_null(o.field("permission"@)), o, n);
    }
}

// ---------------------------------------------------------------------------
// What is kept of a request
// ---------------------------------------------------------------------------

#[verifier::spinoff_prover]
#[verifier::rlimit(30)]
proof fn lemma_common_words(o: JsonView, written: Reading)
    ensures
        ({
            let c = common_of(o, written);
            &&& c is Obj
            &&& c.field("kind"@) == Some(JsonView::Str(kind_of(o)))
            &&& c.field("flavor"@) == Some(JsonView::Str(text::cut(flavor_of(o), 24)))
            &&& c.field("source"@) == Some(JsonView::Str(cap(o.field("source"@), 32)))
            &&& c.field("title"@) == Some(
                JsonView::Str(text::either(cap(o.field("title"@), 120), kind_title(kind_of(o)))),
            )
            &&& c.field("message"@) == Some(JsonView::Str(cap(o.field("message"@), 360)))
            &&& c.field("sub"@) == Some(JsonView::Str(cap(o.field("sub"@), 160)))
            &&& c.field("detail"@) == Some(JsonView::Str(cap(o.field("detail"@), 2000)))
            &&& c.field("timeoutMs"@) == Some(JsonView::Int(clamp_of(o.field("timeoutMs"@), written)))
            &&& c.field("defaultAction"@) == Some(fallback_of(o))
            &&& c.field("actions"@) == Some(JsonView::Arr(buttons_of(o)))
            &&& c.field("input"@) == Some(input_of(or_null(o.field("input"@)), kind_of(o)))
            &&& c.field("context"@) == Some(context_of(or_null(o.field("context"@))))
            &&& c.field("questions"@) is None
            &&& c.field("permission"@) is None
        }),
{
    broadcast use crate::json::group_fields;

    reveal_strlit("kind");
    reveal_strlit("flavor");
    reveal_strlit("source");
    reveal_strlit("title");
    reveal_strlit("message");
    reveal_strlit("sub");
    reveal_strlit("detail");
    reveal_strlit("timeoutMs");
    reveal_strlit("defaultAction");
    reveal_strlit("actions");
    reveal_strlit("input");
    reveal_strlit("context");
    reveal_strlit("questions");
    reveal_strlit("permission");
    assert("kind"@.len() == 4);
    assert("flavor"@.len() == 6);
    assert("source"@.len() == 6);
    assert("title"@.len() == 5);
    assert("message"@.len() == 7);
    assert("sub"@.len() == 3);
    assert("detail"@.len() == 6);
    assert("timeoutMs"@.len() == 9);
    assert("defaultAction"@.len() == 13);
    assert("actions"@.len() == 7);
    assert("input"@.len() == 5);
    assert("context"@.len() == 7);
    assert("questions"@.len() == 9);
    assert("permission"@.len() == 10);
    assert("flavor"@[0] == 'f');
    assert("source"@[0] == 's');
    assert("title"@[0] == 't');
    assert("message"@[0] == 'm');
    assert("detail"@[0] == 'd');
    assert("timeoutMs"@[0] == 't');
    assert("actions"@[0] == 'a');
    assert("input"@[0] == 'i');
    assert("context"@[0] == 'c');
    assert("questions"@[0] == 'q');
}

proof fn lemma_normal_words(o: JsonView, written: Reading)
    ensures
        ({
            let c = common_of(o, written);
            let n = normal_form(o, written);
            &&& n is Obj
            &&& forall|k: Seq<char>|
                k != "questions"@ && k != "permission"@ ==> #[trigger] n.field(k) == c.field(k)
            &&& kind_of(o) == "permission"@ ==> n.field("permission"@) == Some(
                permission_of(or_null(o.field("permission"@)), o),
            )
            &&& kind_of(o) != "permission"@ ==> n.field("permission"@) is None
            &&& kind_of(o) != "ask"@ ==> n.field("questions"@) is None
        }),
{
    broadcast use crate::json::group_fields;

    lemma_common_words(o, written);
    reveal_strlit("questions");
    reveal_strlit("permission");
    reveal_strlit("ask");
    assert("questions"@.len() == 9);
    assert("permission"@.len() == 10);
    assert("ask"@.len() == 3);
}

/// A popup is of the kind that was asked for, where there is such a kind, else a
/// custom one.
pub proof fn law_the_kind_is_kept(o: JsonView, written: Reading, kind: Seq<char>)
    requires
        o.field("kind"@) == Some(JsonView::Str(kind)),
    ensures
        kind == "ask"@ || kind == "permission"@ || kind == "notification"@ || kind == "custom"@
            ==> normal_form(o, written).field("kind"@) == Some(JsonView::Str(kind)),
        kind != "ask"@ && kind != "permission"@ && kind != "notification"@ && kind != "custom"@
            ==> normal_form(o, written).field("kind"@) == Some(JsonView::Str("custom"@)),
        normal_form(o, written) is Obj,
{
    lemma_normal_fields(o, written);
    reveal_strlit("ask");
    reveal_strlit("permission");
    reveal_strlit("notification");
    reveal_strlit("custom");
    assert("ask"@.len() == 3);
    assert("permission"@.len() == 10);
    assert("notification"@.len() == 12);
    assert("custom"@.len() == 6);
}

/// A popup looks as the request says, else by its kind.
pub proof fn law_the_flavor_is_kept(o: JsonView, written: Reading, flavor: Seq<char>)
    ensures
        o.field("flavor"@) == Some(JsonView::Str(flavor)) && 0 < flavor.len() <= 24 ==> normal_form(
            o,
            written,
        ).field("flavor"@) == Some(JsonView::Str(flavor)),
        o.field("flavor"@) is None && o.field("kind"@) == Some(JsonView::Str("ask"@))
            ==> normal_form(o, written).field("flavor"@) == Some(JsonView::Str("ask"@)),
        o.field("flavor"@) is None && o.field("kind"@) == Some(JsonView::Str("permission"@))
            ==> normal_form(o, written).field("flavor"@) == Some(JsonView::Str("permission"@)),
        o.field("flavor"@) is None && o.field("type"@) is None && o.field("kind"@) == Some(
            JsonView::Str("notification"@),
        ) ==> normal_form(o, written).field("flavor"@) == Some(JsonView::Str("agent"@)),
        o.field("flavor"@) is None && o.field("kind"@) is None && o.field("type"@) == Some(
            JsonView::Str(flavor),
        ) && 0 < flavor.len() <= 24 ==> normal_form(o, written).field("flavor"@) == Some(
            JsonView::Str(flavor),
        ),
{
    lemma_normal_words(o, written);
    lemma_common_words(o, written);
    reveal_strlit("ask");
    reveal_strlit("permission");
    reveal_strlit("notification");
    reveal_strlit("custom");
    reveal_strlit("agent");
    reveal_strlit("flavor");
    reveal_strlit("questions");
    assert("ask"@.len() == 3);
    assert("permission"@.len() == 10);
    assert("notification"@.len() == 12);
    assert("custom"@.len() == 6);
    assert("agent"@.len() == 5);
    assert("flavor"@.len() == 6);
    assert("questions"@.len() == 9);
    assert("custom"@[0] == 'c');
    assert("flavor"@[0] == 'f');
}

/// What a request says is what the popup shows, as long as it is not too long: its
/// title, message, further words, detail and sender.
pub proof fn law_words_are_shown(o: JsonView, written: Reading, key: Seq<char>, words: Seq<char>)
    requires
        o.field(key) == Some(JsonView::Str(words)),
    ensures
        key == "title"@ && 0 < words.len() <= 120 ==> normal_form(o, written).field(key) == Some(
            JsonView::Str(words),
        ),
        key == "message"@ && words.len() <= 360 ==> normal_form(o, written).field(key) == Some(
            JsonView::Str(words),
        ),
        key == "sub"@ && words.len() <= 160 ==> normal_form(o, written).field(key) == Some(
            JsonView::Str(words),
        ),
        key == "detail"@ && words.len() <= 2000 ==> normal_form(o, written).field(key) == Some(
            JsonView::Str(words),
        ),
        key == "source"@ && words.len() <= 32 ==> normal_form(o, written).field(key) == Some(
            JsonView::Str(words),
        ),
{
    lemma_normal_words(o, written);
    lemma_common_words(o, written);
    reveal_strlit("title");
    reveal_strlit("message");
    reveal_strlit("sub");
    reveal_strlit("detail");
    reveal_strlit("source");
    reveal_strlit("questions");
    reveal_strlit("permission");
    assert("title"@.len() == 5);
    assert("message"@.len() == 7);
    assert("sub"@.len() == 3);
    assert("detail"@.len() == 6);
    assert("source"@.len() == 6);
    assert("questions"@.len() == 9);
    assert("permission"@.len() == 10);
    assert("detail"@[0] == 'd');
    assert("source"@[0] == 's');
}

/// What is too long is cut, and ends in an ellipsis.
pub proof fn law_long_words_are_cut(o: JsonView, written: Reading, words: Seq<char>)
    requires
        o.field("message"@) == Some(JsonView::Str(words)),
        words.len() > 360,
    ensures
        normal_form(o, written).field("message"@) matches Some(JsonView::Str(s)) && s.len() == 360
            && s.last() == '…' && s.take(359) == words.take(359),
{
    lemma_normal_words(o, written);
    lemma_common_words(o, written);
    reveal_strlit("message");
    reveal_strlit("questions");
    reveal_strlit("permission");
    assert("message"@.len() == 7);
    assert("questions"@.len() == 9);
    assert("permission"@.len() == 10);
    assert(text::cut(words, 360).take(359) =~= words.take(359));
}

/// A popup without a title gets that of its kind.
pub proof fn law_popups_have_a_title(o: JsonView, written: Reading)
    requires
        o.field("title"@) is None,
    ensures
        o.field("kind"@) == Some(JsonView::Str("ask"@)) ==> normal_form(o, written).field("title"@)
            == Some(JsonView::Str("Agent 提问"@)),
        o.field("kind"@) == Some(JsonView::Str("permission"@)) ==> normal_form(o, written).field(
            "title"@,
        ) == Some(JsonView::Str("需要权限确认"@)),
        o.field("kind"@) == Some(JsonView::Str("notification"@)) ==> normal_form(o, written).field(
            "title"@,
        ) == Some(JsonView::Str("番茄钟"@)),
        o.field("kind"@) is None || o.field("kind"@) == Some(JsonView::Str("custom"@))
            ==> normal_form(o, written).field("title"@) == Some(JsonView::Str("需要确认"@)),
{
    lemma_normal_words(o, written);
    lemma_common_words(o, written);
    reveal_strlit("title");
    reveal_strlit("ask");
    reveal_strlit("permission");
    reveal_strlit("notification");
    reveal_strlit("custom");
    reveal_strlit("questions");
    assert("title"@.len() == 5);
    assert("ask"@.len() == 3);
    assert("permission"@.len() == 10);
    assert("notification"@.len() == 12);
    assert("custom"@.len() == 6);
    assert("questions"@.len() == 9);
}

/// Only a custom popup without buttons gets one, which closes it.
pub proof fn law_only_custom_popups_get_a_button(o: JsonView, written: Reading)
    requires
        o.field("actions"@) is None,
    ensures
        ({
            let buttons = normal_form(o, written).items("actions"@);
            &&& o.field("kind"@) is None || o.field("kind"@) == Some(JsonView::Str("custom"@)) ==> {
                &&& buttons.len() == 1
                &&& buttons[0].field("id"@) == Some(JsonView::Str("ok"@))
                &&& buttons[0].field("label"@) == Some(JsonView::Str("知道了"@))
            }
            &&& o.field("kind"@) == Some(JsonView::Str("ask"@)) || o.field("kind"@) == Some(
                JsonView::Str("permission"@),
            ) || o.field("kind"@) == Some(JsonView::Str("notification"@)) ==> buttons.len() == 0
        }),
{
    broadcast use crate::json::group_fields;

    lemma_normal_fields(o, written);
    reveal_strlit("id");
    reveal_strlit("label");
    reveal_strlit("style");
    reveal_strlit("ask");
    reveal_strlit("permission");
    reveal_strlit("notification");
    reveal_strlit("custom");
    assert("id"@.len() == 2);
    assert("label"@.len() == 5);
    assert("style"@.len() == 5);
    assert("ask"@.len() == 3);
    assert("permission"@.len() == 10);
    assert("notification"@.len() == 12);
    assert("custom"@.len() == 6);
    assert("label"@[0] == 'l');
    assert("style"@[0] == 's');
}

/// A popup waits as long as the request says, but at least five seconds and at most
/// two hours; one whose request says nothing waits for an hour.
pub proof fn law_popups_wait_as_long_as_asked(o: JsonView, written: Reading, n: int)
    ensures
        o.field("timeoutMs"@) == Some(JsonView::Int(n)) && 5_000 <= n <= 7_200_000 ==> normal_form(
            o,
            written,
        ).field("timeoutMs"@) == Some(JsonView::Int(n)),
        o.field("timeoutMs"@) == Some(JsonView::Int(n)) && 0 < n < 5_000 ==> normal_form(
            o,
            written,
        ).field("timeoutMs"@) == Some(JsonView::Int(5_000)),
        o.field("timeoutMs"@) == Some(JsonView::Int(n)) && n > 7_200_000 ==> normal_form(
            o,
            written,
        ).field("timeoutMs"@) == Some(JsonView::Int(7_200_000)),
        o.field("timeoutMs"@) == Some(JsonView::Int(n)) && n <= 0 ==> normal_form(o, written).field(
            "timeoutMs"@,
        ) == Some(JsonView::Int(3_600_000)),
        o.field("timeoutMs"@) is None ==> normal_form(o, written).field("timeoutMs"@) == Some(
            JsonView::Int(3_600_000),
        ),
{
    lemma_normal_fields(o, written);
}

/// What a popup falls back to is what the request names.
pub proof fn law_the_named_action_stands(o: JsonView, written: Reading, action: Seq<char>)
    requires
        o.field("defaultAction"@) == Some(JsonView::Str(action)),
        action.len() > 0,
    ensures
        normal_form(o, written).field("defaultAction"@) == Some(JsonView::Str(action)),
{
    lemma_normal_fields(o, written);
}

/// Words can be typed into a permission's popup unless the request says otherwise,
/// into any other only where it says so.
pub proof fn law_where_words_can_be_typed(o: JsonView, written: Reading, input: JsonView, on: bool)
    ensures
        o.field("input"@) is None && o.field("kind"@) == Some(JsonView::Str("permission"@)) ==> (
        normal_form(o, written).field("input"@) matches Some(i) && i.field("enabled"@) == Some(
            JsonView::Bool(true),
        )),
        o.field("input"@) is None && o.field("kind"@) != Some(JsonView::Str("permission"@)) ==> (
        normal_form(o, written).field("input"@) matches Some(i) && i.field("enabled"@) == Some(
            JsonView::Bool(false),
        )),
        o.field("input"@) == Some(input) && input.field("enabled"@) == Some(JsonView::Bool(on)) ==> (
        normal_form(o, written).field("input"@) matches Some(i) && i.field("enabled"@) == Some(
            JsonView::Bool(on),
        )),
{
    broadcast use crate::json::group_fields;

    lemma_normal_words(o, written);
    lemma_common_words(o, written);
    reveal_strlit("input");
    reveal_strlit("enabled");
    reveal_strlit("label");
    reveal_strlit("placeholder");
    reveal_strlit("required");
    reveal_strlit("permission");
    reveal_strlit("questions");
    reveal_strlit("custom");
    assert("input"@.len() == 5);
    assert("enabled"@.len() == 7);
    assert("label"@.len() == 5);
    assert("placeholder"@.len() == 11);
    assert("required"@.len() == 8);
    assert("permission"@.len() == 10);
    assert("questions"@.len() == 9);
    assert("custom"@.len() == 6);
    assert("input"@[0] == 'i');
    assert("label"@[0] == 'l');
}

/// What a permission's popup asks for is what the request asks for: the tool, the
/// rule, and whether it may be granted for good, which it may unless the request says
/// otherwise.
pub proof fn law_the_permission_is_shown(
    o: JsonView,
    written: Reading,
    p: JsonView,
    tool: Seq<char>,
    rule: Seq<char>,
    always: bool,
)
    requires
        o.field("kind"@) == Some(JsonView::Str("permission"@)),
        o.field("permission"@) == Some(p),
    ensures
        p.field("tool"@) == Some(JsonView::Str(tool)) && 0 < tool.len() <= 60 ==> (normal_form(
            o,
            written,
        ).field("permission"@) matches Some(q) && q.field("tool"@) == Some(JsonView::Str(tool))),
        p.field("rule"@) == Some(JsonView::Str(rule)) && rule.len() <= 200 ==> (normal_form(
            o,
            written,
        ).field("permission"@) matches Some(q) && q.field("rule"@) == Some(JsonView::Str(rule))),
        p.field("canAlways"@) == Some(JsonView::Bool(always)) ==> (normal_form(o, written).field(
            "permission"@,
        ) matches Some(q) && q.field("canAlways"@) == Some(JsonView::Bool(always))),
        p.field("canAlways"@) is None ==> (normal_form(o, written).field(
            "permission"@,
        ) matches Some(q) && q.field("canAlways"@) == Some(JsonView::Bool(true))),
{
    broadcast use crate::json::group_fields;

    lemma_normal_words(o, written);
    reveal_strlit("tool");
    reveal_strlit("rule");
    reveal_strlit("suggestions");
    reveal_strlit("canAlways");
    reveal_strlit("permission");
    reveal_strlit("ask");
    assert("tool"@.len() == 4);
    assert("rule"@.len() == 4);
    assert("suggestions"@.len() == 11);
    assert("canAlways"@.len() == 9);
    assert("permission"@.len() == 10);
    assert("ask"@.len() == 3);
    assert("tool"@[0] == 't');
    assert("rule"@[0] == 'r');
}

/// The context of a request is shown with it: who asks, in which session, project and
/// task, and with which tool.
pub proof fn law_the_context_is_shown(
    o: JsonView,
    written: Reading,
    c: JsonView,
    key: Seq<char>,
    words: Seq<char>,
)
    requires
        o.field("context"@) == Some(c),
        c.field(key) == Some(JsonView::Str(words)),
    ensures
        ({
            let most = if key == "agent"@ {
                32int
            } else if key == "agentType"@ {
                60
            } else if key == "agentId"@ {
                40
            } else if key == "session"@ {
                16
            } else if key == "project"@ {
                60
            } else if key == "task"@ {
                200
            } else if key == "tool"@ {
                60
            } else if key == "toolDetail"@ {
                160
            } else {
                -1
            };
            words.len() <= most ==> (normal_form(o, written).field("context"@) matches Some(d)
                && d.field(key) == Some(JsonView::Str(words)))
        }),
{
    broadcast use crate::json::group_fields;

    lemma_normal_words(o, written);
    lemma_common_words(o, written);
    reveal_strlit("agent");
    reveal_strlit("agentType");
    reveal_strlit("agentId");
    reveal_strlit("session");
    reveal_strlit("project");
    reveal_strlit("task");
    reveal_strlit("tool");
    reveal_strlit("toolDetail");
    reveal_strlit("context");
    reveal_strlit("questions");
    reveal_strlit("permission");
    assert("agent"@.len() == 5);
    assert("agentType"@.len() == 9);
    assert("agentId"@.len() == 7);
    assert("session"@.len() == 7);
    assert("project"@.len() == 7);
    assert("task"@.len() == 4);
    assert("tool"@.len() == 4);
    assert("toolDetail"@.len() == 10);
    assert("context"@.len() == 7);
    assert("questions"@.len() == 9);
    assert("permission"@.len() == 10);
    assert("agentType"@[0] == 'a');
    assert("agentId"@[0] == 'a');
    assert("session"@[0] == 's');
    assert("project"@[0] == 'p');
    assert("task"@[1] == 'a');
    assert("tool"@[1] == 'o');
    assert("toolDetail"@[0] == 't');
    assert("context"@[0] == 'c');
    assert("questions"@[0] == 'q');
    assert("permission"@[0] == 'p');
}

/// Popups are as large as their kind needs.
pub proof fn law_popups_sizes()
    ensures
        size_of("ask"@) == (460int, 260int),
        size_of("permission"@) == (432int, 240int),
        size_of("notification"@) == (400int, 176int),
        size_of("custom"@) == (400int, 176int),
{
    reveal_strlit("ask");
    reveal_strlit("permission");
    reveal_strlit("notification");
    reveal_strlit("custom");
    assert("ask"@.len() == 3);
    assert("permission"@.len() == 10);
    assert("notification"@.len() == 12);
    assert("custom"@.len() == 6);
}

/// Every host is called by its name; another sender by what it calls itself.
pub proof fn law_hosts_are_called_by_their_names(lead: Seq<char>, other: Seq<char>)
    requires
        lead + "-code"@ != "zcode"@,
        lead + "-code"@ != "vscode"@,
        lead + "-code"@ != "opencode"@,
        lead.len() > 0,
    ensures
        label_of("zcode"@, lead) == "ZCode"@,
        label_of(lead + "-code"@, lead) == lead::label_of(lead),
        label_of("vscode"@, lead) == "VS Code"@,
        label_of("trae"@, lead) == "Trae"@,
        label_of("cursor"@, lead) == "Cursor"@,
        label_of("opencode"@, lead) == "OpenCode"@,
        label_of("codex"@, lead) == "Codex"@,
        label_of("qwen"@, lead) == "Qwen Code"@,
        label_of("manual"@, lead) == "手动"@,
        other != "zcode"@ && other != lead + "-code"@ && other != "vscode"@ && other != "trae"@
            && other != "cursor"@ && other != "opencode"@ && other != "codex"@ && other != "qwen"@
            && other != "manual"@ ==> label_of(other, lead) == other,
{
    reveal_strlit("zcode");
    reveal_strlit("vscode");
    reveal_strlit("trae");
    reveal_strlit("cursor");
    reveal_strlit("opencode");
    reveal_strlit("codex");
    reveal_strlit("qwen");
    reveal_strlit("manual");
    reveal_strlit("-code");
    assert("zcode"@.len() == 5);
    assert("vscode"@.len() == 6);
    assert("trae"@.len() == 4);
    assert("cursor"@.len() == 6);
    assert("opencode"@.len() == 8);
    assert("codex"@.len() == 5);
    assert("qwen"@.len() == 4);
    assert("manual"@.len() == 6);
    assert("-code"@.len() == 5);
    assert("zcode"@[0] == 'z');
    assert("vscode"@[0] == 'v');
    assert("trae"@[0] == 't');
    assert("cursor"@[0] == 'c');
    assert("codex"@[0] == 'c');
    assert("qwen"@[0] == 'q');
    assert("manual"@[0] == 'm');
    assert("-code"@[0] == '-');
    let s = lead + "-code"@;
    assert(s.len() == lead.len() + 5);
    assert(s[lead.len() as int] == '-');
    assert(s.last() == 'e');
    assert("trae"@.len() == 4 && "trae"@[0] == 't');
    assert("cursor"@[5] == 'r');
    assert("codex"@.len() == 5);
    assert("manual"@[5] == 'l');
    assert("-code"@[4] == 'e');
}

proof fn lemma_shown_question(q: JsonView, i: int, said: Seq<char>)
    requires
        q.field("question"@) == Some(JsonView::Str(said)),
        0 < said.len() <= 200,
    ensures
        question_of(q, i) matches Some(s) && s.field("question"@) == Some(JsonView::Str(said))
            && s.field("id"@) == Some(JsonView::Str(id_or(q.field("id"@), "q"@, i))) && s.field(
            "header"@,
        ) == Some(JsonView::Str(cap(q.field("header"@), 24))) && s.field("multiSelect"@) == Some(
            JsonView::Bool(
                truth(q.field("multiSelect"@), false) || truth(q.field("multiple"@), false),
            ),
        ) && s.field("options"@) == Some(
            JsonView::Arr(options_of(q.items("options"@), proto::at_most(q.items("options"@).len(), 6))),
        ),
{
    broadcast use crate::json::group_fields;

    let keys: Seq<&str> = seq!["question", "text", "title"];
    assert(keys[0]@ == "question"@);
    assert(cap_first(q, keys, 200) == said);
    reveal_strlit("id");
    reveal_strlit("question");
    reveal_strlit("header");
    reveal_strlit("multiSelect");
    reveal_strlit("custom");
    reveal_strlit("options");
    assert("id"@.len() == 2);
    assert("question"@.len() == 8);
    assert("header"@.len() == 6);
    assert("multiSelect"@.len() == 11);
    assert("custom"@.len() == 6);
    assert("options"@.len() == 7);
    assert("header"@[0] == 'h');
    assert("custom"@[0] == 'c');
}

proof fn lemma_all_questions_shown(raw: Seq<JsonView>, n: int)
    requires
        0 <= n <= raw.len(),
        forall|j: int|
            0 <= j < n ==> ((#[trigger] raw[j]).field("question"@) matches Some(JsonView::Str(s))
                && 0 < s.len() <= 200),
    ensures
        questions_of(raw, n).len() == n,
        forall|j: int|
            0 <= j < n ==> Some(#[trigger] questions_of(raw, n)[j]) == question_of(raw[j], j),
    decreases n,
{
    if n > 0 {
        lemma_all_questions_shown(raw, n - 1);
        let q = raw[n - 1];
        assert(q.field("question"@) matches Some(JsonView::Str(s)) && 0 < s.len() <= 200);
        lemma_shown_question(q, n - 1, q.field("question"@)->0->Str_0);
    }
}

/// A popup asks what the request asks: every question, up to four, in its words, with
/// its id, its heading and whether several choices may be made.
pub proof fn law_the_popup_asks_what_is_asked(
    o: JsonView,
    written: Reading,
    raw: Seq<JsonView>,
    i: int,
    id: Seq<char>,
    header: Seq<char>,
    multi: bool,
)
    requires
        o.field("kind"@) == Some(JsonView::Str("ask"@)),
        o.field("questions"@) == Some(JsonView::Arr(raw)),
        raw.len() <= 4,
        forall|j: int|
            0 <= j < raw.len() ==> ((#[trigger] raw[j]).field("question"@) matches Some(
                JsonView::Str(s),
            ) && 0 < s.len() <= 200),
        0 <= i < raw.len(),
        raw[i].field("id"@) == Some(JsonView::Str(id)),
        id.len() > 0,
        raw[i].field("header"@) == Some(JsonView::Str(header)),
        header.len() <= 24,
        raw[i].field("multiSelect"@) == Some(JsonView::Bool(multi)),
        raw[i].field("multiple"@) is None,
    ensures
        ({
            let shown = normal_form(o, written).items("questions"@);
            &&& shown.len() == raw.len()
            &&& shown[i].field("question"@) == raw[i].field("question"@)
            &&& shown[i].field("id"@) == Some(JsonView::Str(id))
            &&& shown[i].field("header"@) == Some(JsonView::Str(header))
            &&& shown[i].field("multiSelect"@) == Some(JsonView::Bool(multi))
        }),
{
    lemma_normal_fields(o, written);
    reveal_strlit("ask");
    reveal_strlit("permission");
    assert("ask"@.len() == 3);
    assert("permission"@.len() == 10);
    let n = raw.len() as int;
    lemma_all_questions_shown(raw, n);
    let said = raw[i].field("question"@)->0->Str_0;
    lemma_shown_question(raw[i], i, said);
    assert(o.items("questions"@) == raw);
    assert(proto::at_most(raw.len(), 4) == n);
    let shown = questions_of(raw, n);
    assert(Some(shown[i]) == question_of(raw[i], i));
}

/// Whatever is asked for, a popup asks four questions at most, of six choices at most
/// each.
pub proof fn law_popups_ask_little(raw: Seq<JsonView>, n: int)
    requires
        0 <= n <= raw.len(),
    ensures
        questions_of(raw, n).len() <= n,
        options_of(raw, n).len() <= n,
        suggestions_of(raw, n).len() <= n,
        actions_of(raw, n).len() <= 4,
    decreases n,
{
    if n > 0 {
        law_popups_ask_little(raw, n - 1);
    }
}

/// A choice is shown in its words and under its id, however it is given.
pub proof fn law_a_choice_is_shown(o: JsonView, j: int, label: Seq<char>, id: Seq<char>)
    requires
        0 < label.len() <= 60,
    ensures
        option_of(JsonView::Str(label), j) matches Some(s) && s.field("label"@) == Some(
            JsonView::Str(label),
        ) && s.field("id"@) == Some(JsonView::Str("o"@ + text::int_text(j))),
        o.field("label"@) == Some(JsonView::Str(label)) && o.field("id"@) == Some(JsonView::Str(id))
            && id.len() > 0 ==> (option_of(o, j) matches Some(s) && s.field("label"@) == Some(
            JsonView::Str(label),
        ) && s.field("id"@) == Some(JsonView::Str(id))),
        option_of(JsonView::Str(Seq::empty()), j) is None,
{
    broadcast use crate::json::group_fields;

    let keys: Seq<&str> = seq!["label", "text", "value", "name"];
    assert(keys[0]@ == "label"@);
    if o.field("label"@) == Some(JsonView::Str(label)) {
        assert(cap_first(o, keys, 60) == label);
    }
    reveal_strlit("id");
    reveal_strlit("label");
    reveal_strlit("description");
    assert("id"@.len() == 2);
    assert("label"@.len() == 5);
    assert("description"@.len() == 11);
}

/// A button is shown in its words, under its id and in its style; one without an id or
/// words is not shown, and an unknown style is the ordinary one.
pub proof fn law_a_button_is_shown(a: JsonView, id: Seq<char>, label: Seq<char>, style: Seq<char>)
    requires
        a.field("id"@) == Some(JsonView::Str(id)),
        a.field("label"@) == Some(JsonView::Str(label)),
        label.len() <= 24,
    ensures
        action_of(a) matches Some(s) && s.field("id"@) == Some(JsonView::Str(id)) && s.field("label"@)
            == Some(JsonView::Str(label)),
        a.field("style"@) == Some(JsonView::Str(style)) && (style == "primary"@ || style == "danger"@)
            ==> action_of(a)->0.field("style"@) == Some(JsonView::Str(style)),
        a.field("style"@) is None || (a.field("style"@) == Some(JsonView::Str(style)) && style
            != "primary"@ && style != "danger"@) ==> action_of(a)->0.field("style"@) == Some(
            JsonView::Str("default"@),
        ),
{
    broadcast use crate::json::group_fields;

    reveal_strlit("id");
    reveal_strlit("label");
    reveal_strlit("style");
    assert("id"@.len() == 2);
    assert("label"@.len() == 5);
    assert("style"@.len() == 5);
    assert("label"@[0] == 'l');
    assert("style"@[0] == 's');
}

/// The buttons of a request are those of the popup, in their order.
pub proof fn law_the_requests_buttons_are_shown(
    o: JsonView,
    written: Reading,
    raw: Seq<JsonView>,
    i: int,
)
    requires
        o.field("actions"@) == Some(JsonView::Arr(raw)),
        raw.len() <= 4,
        forall|j: int|
            0 <= j < raw.len() ==> (#[trigger] raw[j]).text_field("id"@) is Some && raw[j].text_field(
                "label"@,
            ) is Some,
        0 <= i < raw.len(),
    ensures
        normal_form(o, written).items("actions"@).len() == raw.len(),
        normal_form(o, written).items("actions"@)[i].field("id"@) == raw[i].field("id"@),
{
    broadcast use crate::json::group_fields;

    lemma_normal_fields(o, written);
    lemma_all_buttons_shown(raw, raw.len() as int);
    reveal_strlit("id");
    reveal_strlit("label");
    reveal_strlit("style");
    assert("id"@.len() == 2);
    assert("label"@.len() == 5);
    assert("style"@.len() == 5);
    assert("label"@[0] == 'l');
    assert("style"@[0] == 's');
    assert(Some(actions_of(raw, raw.len() as int)[i]) == action_of(raw[i]));
}

proof fn lemma_all_buttons_shown(raw: Seq<JsonView>, n: int)
    requires
        0 <= n <= raw.len() <= 4,
        forall|j: int|
            0 <= j < raw.len() ==> (#[trigger] raw[j]).text_field("id"@) is Some && raw[j].text_field(
                "label"@,
            ) is Some,
    ensures
        actions_of(raw, n).len() == n,
        forall|j: int| 0 <= j < n ==> Some(#[trigger] actions_of(raw, n)[j]) == action_of(raw[j]),
    decreases n,
{
    if n > 0 {
        lemma_all_buttons_shown(raw, n - 1);
        assert(raw[n - 1].text_field("id"@) is Some);
    }
}

/// A suggestion for a rule is shown as it is named, else by its place.
pub proof fn law_a_suggestion_is_shown(s: JsonView, i: int, label: Seq<char>, rule: Seq<char>)
    requires
        0 < label.len() <= 60,
        0 < rule.len() <= 200,
    ensures
        suggestion_of(JsonView::Str(label), i) matches Some(r) && r.field("label"@) == Some(
            JsonView::Str(label),
        ) && r.field("ruleContent"@) == Some(JsonView::Str(label)) && r.field("id"@) == Some(
            JsonView::Str("s"@ + text::int_text(i)),
        ),
        !(s is Str) && s.field("label"@) == Some(JsonView::Str(label)) && s.field("ruleContent"@)
            == Some(JsonView::Str(rule)) ==> (suggestion_of(s, i) matches Some(r) && r.field(
            "label"@,
        ) == Some(JsonView::Str(label)) && r.field("ruleContent"@) == Some(JsonView::Str(rule))),
        !(s is Str) && s.field("id"@) is None && s.field("label"@) == Some(JsonView::Str(label)) ==> (
        suggestion_of(s, i) matches Some(r) && r.field("id"@) == Some(
            JsonView::Str("s"@ + text::int_text(i)),
        )),
{
    broadcast use crate::json::group_fields;

    let names: Seq<&str> = seq!["label", "ruleContent", "rule", "pattern"];
    assert(names[0]@ == "label"@);
    let rules: Seq<&str> = seq!["ruleContent", "rule", "pattern"];
    assert(rules[0]@ == "ruleContent"@);
    assert(text::cut(label, 60) == label);
    assert(text::cut(label, 200) == label);
    assert(text::cut(rule, 200) == rule);
    reveal_strlit("id");
    reveal_strlit("label");
    reveal_strlit("toolName");
    reveal_strlit("ruleContent");
    assert("id"@.len() == 2);
    assert("label"@.len() == 5);
    assert("toolName"@.len() == 8);
    assert("ruleContent"@.len() == 11);
}

/// What is suggested with a permission is shown with it, four at the most.
pub proof fn law_permissions_are_shown_with_suggestions(
    p: JsonView,
    top: JsonView,
    raw: Seq<JsonView>,
)
    requires
        p.field("suggestions"@) == Some(JsonView::Arr(raw)),
    ensures
        permission_of(p, top).items("suggestions"@) == suggestions_of(
            raw,
            if raw.len() < 4 {
                raw.len() as int
            } else {
                4
            },
        ),
{
    broadcast use crate::json::group_fields;

    reveal_strlit("tool");
    reveal_strlit("rule");
    reveal_strlit("suggestions");
    reveal_strlit("canAlways");
    assert("tool"@.len() == 4);
    assert("rule"@.len() == 4);
    assert("suggestions"@.len() == 11);
    assert("canAlways"@.len() == 9);
    assert("tool"@[0] == 't');
    assert("rule"@[0] == 'r');
}

/// The field for words has the hint that is asked for, and must be filled where that is
/// asked for.
pub proof fn law_the_field_for_words(i: JsonView, kind: Seq<char>, s: Seq<char>, on: bool)
    requires
        s.len() <= 40,
    ensures
        i.field("placeholder"@) == Some(JsonView::Str(s)) ==> input_of(i, kind).field("placeholder"@)
            == Some(JsonView::Str(s)),
        i.field("label"@) == Some(JsonView::Str(s)) ==> input_of(i, kind).field("label"@) == Some(
            JsonView::Str(s),
        ),
        i.field("required"@) == Some(JsonView::Bool(on)) ==> input_of(i, kind).field("required"@)
            == Some(JsonView::Bool(on)),
        i.field("required"@) is None ==> input_of(i, kind).field("required"@) == Some(
            JsonView::Bool(false),
        ),
{
    broadcast use crate::json::group_fields;

    assert(text::cut(s, 40) == s);
    assert(text::cut(s, 80) == s);
    reveal_strlit("enabled");
    reveal_strlit("label");
    reveal_strlit("placeholder");
    reveal_strlit("required");
    assert("enabled"@.len() == 7);
    assert("label"@.len() == 5);
    assert("placeholder"@.len() == 11);
    assert("required"@.len() == 8);
}

/// A choice is known by any of its names, and its hint stands for a description.
pub proof fn law_a_choices_other_names(o: JsonView, j: int, s: Seq<char>, hint: Seq<char>)
    requires
        !(o is Str),
        0 < s.len() <= 60,
        0 < hint.len() <= 160,
    ensures
        o.field("label"@) is None && o.field("text"@) is None && o.field("value"@) == Some(
            JsonView::Str(s),
        ) ==> (option_of(o, j) matches Some(r) && r.field("label"@) == Some(JsonView::Str(s))),
        o.field("label"@) == Some(JsonView::Str(s)) && o.field("description"@) is None && o.field(
            "hint"@,
        ) == Some(JsonView::Str(hint)) ==> (option_of(o, j) matches Some(r) && r.field(
            "description"@,
        ) == Some(JsonView::Str(hint))),
{
    broadcast use crate::json::group_fields;

    let names: Seq<&str> = seq!["label", "text", "value", "name"];
    assert(names[0]@ == "label"@);
    let n1 = names.drop_first();
    assert(n1[0]@ == "text"@);
    let n2 = n1.drop_first();
    assert(n2[0]@ == "value"@);
    assert(text::cut(s, 60) == s);
    assert(text::cut(hint, 160) == hint);
    assert(cap_first(o, names, 60) == text::either(cap(o.field("label"@), 60), cap_first(o, n1, 60)));
    assert(cap_first(o, n1, 60) == text::either(cap(o.field("text"@), 60), cap_first(o, n2, 60)));
    assert(cap_first(o, n2, 60) == text::either(
        cap(o.field("value"@), 60),
        cap_first(o, n2.drop_first(), 60),
    ));
    reveal_strlit("id");
    reveal_strlit("label");
    reveal_strlit("description");
    assert("id"@.len() == 2);
    assert("label"@.len() == 5);
    assert("description"@.len() == 11);
}

} // verus!
