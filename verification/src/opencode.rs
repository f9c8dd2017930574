//! OpenCode: its plugin hands the requests in and takes `{status}`, `{answers}`
//! or `{reject}` back.

use vstd::prelude::*;
use crate::ancli;
use crate::ancli::{question_headline, read_action};
use crate::env;
use crate::env::{timeout_ms, Env};
use crate::http;
use crate::http::encode_uri_component;
use crate::json;
use crate::json::{arr, as_str_lossy, empty_array, get, is_truthy, one, pick, pick_bool, pick_str};
use crate::json::{views, Json, JsonView};
use crate::proto;
use crate::proto::{read_options, summarize_tool_input, texts_of};
use crate::session;
use crate::step::{Step, StepView};
use crate::text;
use crate::text::{basename, cat2, cat3, chars_of, collapse, decimal, first_or, join, same, short_session};

verus! {

broadcast use crate::json::group_json;

/// How long handing an answer back may take.
pub const REPLY_TIMEOUT_MS: u64 = 8_000;

// ---------------------------------------------------------------------------
// Context
// ---------------------------------------------------------------------------

/// The context that the plugin hands in.
pub open spec fn context_of(p: JsonView) -> JsonView {
    let dir = p.pick_text(seq!["directory"]);
    let project = text::either(p.pick_text(seq!["project"]), text::base_of(dir));
    JsonView::object().with("agent"@, JsonView::Str("opencode"@)).with(
        "agentType"@,
        JsonView::Str(p.pick_text(seq!["agent", "agentType"])),
    ).with("agentId"@, JsonView::Str(Seq::empty())).with(
        "session"@,
        JsonView::Str(text::short_id(p.pick_text(seq!["sessionID", "sessionId"]))),
    ).with("project"@, JsonView::Str(project)).with(
        "task"@,
        JsonView::Str(text::collapsed(p.pick_text(seq!["sessionTitle", "title"]), 160)),
    ).with("tool"@, JsonView::Str(Seq::empty())).with("toolDetail"@, JsonView::Str(Seq::empty()))
}

fn base_context(payload: &Json) -> (r: Json)
    ensures
        r@ == context_of(payload@),
{
    let dir = pick_str(payload, &["directory"]);
    let explicit = pick_str(payload, &["project"]);
    let project = first_or(explicit.as_str(), basename(dir.as_str()).as_str());
    let short = short_session(pick_str(payload, &["sessionID", "sessionId"]).as_str());
    let task = collapse(pick_str(payload, &["sessionTitle", "title"]).as_str(), 160);
    Json::object().with("agent", Json::text("opencode")).with(
        "agentType",
        Json::Str(pick_str(payload, &["agent", "agentType"])),
    ).with("agentId", Json::Str(String::new())).with("session", Json::Str(short)).with(
        "project",
        Json::Str(project),
    ).with("task", Json::Str(task)).with("tool", Json::Str(String::new())).with(
        "toolDetail",
        Json::Str(String::new()),
    )
}

/// The context that the plugin hands in, with some members overridden.
pub fn context(payload: &Json, extra: &[(&str, Json)]) -> (r: Json)
    ensures
        r@ == JsonView::Obj(
            json::put_all(context_of(payload@).members(), session::extra_members(extra@)),
        ),
{
    session::with_extra(base_context(payload), extra)
}

// ---------------------------------------------------------------------------
// Permissions
// ---------------------------------------------------------------------------

/// The permission that a payload asks for: its `permission`, or the payload
/// itself.
pub open spec fn permission_of(payload: JsonView) -> JsonView {
    match payload.pick(seq!["permission"]) {
        Some(v) => v,
        None => payload,
    }
}

/// What the permission is for.
pub open spec fn type_of(p: JsonView) -> Seq<char> {
    text::either(p.pick_text(seq!["type", "permission"]), "tool"@)
}

/// The patterns that the permission covers, a single one as a list.
pub open spec fn patterns_of(p: JsonView) -> Option<JsonView> {
    match p.field("patterns"@) {
        Some(v) if v.truthy() => Some(v),
        _ => match p.pick(seq!["pattern"]) {
            Some(v) => Some(JsonView::Arr(seq![v])),
            None => None,
        },
    }
}

/// The patterns as text.
pub open spec fn patterns_text(patterns: Option<JsonView>) -> Seq<char> {
    match patterns {
        Some(JsonView::Arr(a)) => text::joined(a.map_values(|x: JsonView| x.lossy()), "  "@),
        Some(v) => v.lossy(),
        None => Seq::empty(),
    }
}

/// The first pattern; of a text its first character.
pub open spec fn first_pattern(patterns: Option<JsonView>) -> Seq<char> {
    match patterns {
        Some(JsonView::Arr(a)) => session::first_text(a),
        Some(JsonView::Str(s)) => if s.len() > 0 {
            s.take(1)
        } else {
            s
        },
        _ => Seq::empty(),
    }
}

fn read_patterns(p: &Json) -> (r: Option<Json>)
    ensures
        session::owned_view(r) == patterns_of(p@),
{
    if let Some(v) = get(p, "patterns") {
        if is_truthy(v) {
            return Some(v.clone());
        }
    }
    match pick(p, &["pattern"]) {
        Some(v) => Some(one(v.clone())),
        None => None,
    }
}

fn print_patterns(patterns: &Option<Json>) -> (r: String)
    ensures
        r@ == patterns_text(session::owned_view(*patterns)),
{
    match patterns {
        Some(Json::Arr(a)) => {
            assert(Json::Arr(*a)@ == JsonView::Arr(views(a@)));
            join(&texts_of(a.as_slice()), "  ")
        },
        Some(v) => as_str_lossy(v),
        None => String::new(),
    }
}

fn read_first_pattern(patterns: &Option<Json>) -> (r: String)
    ensures
        r@ == first_pattern(session::owned_view(*patterns)),
{
    match patterns {
        Some(Json::Arr(a)) => {
            assert(Json::Arr(*a)@ == JsonView::Arr(views(a@)));
            session::first_item(a.as_slice())
        },
        Some(Json::Str(s)) => {
            let v = chars_of(s.as_str());
            if v.len() > 0 {
                assert(v@.subrange(0, 1) =~= v@.take(1));
                text::text_between(&v, 0, 1)
            } else {
                s.clone()
            }
        },
        _ => String::new(),
    }
}

/// The request for a popup that asks for a permission.
pub open spec fn permission_body(payload: JsonView, ms: int) -> JsonView {
    let p = permission_of(payload);
    let rule = first_pattern(patterns_of(p));
    let meta = match p.pick(seq!["metadata"]) {
        Some(v) => v,
        None => JsonView::object(),
    };
    JsonView::object().with("kind"@, JsonView::Str("permission"@)).with(
        "source"@,
        JsonView::Str("opencode"@),
    ).with(
        "title"@,
        JsonView::Str(text::either(p.pick_text(seq!["title"]), "允许 "@ + type_of(p) + "？"@)),
    ).with("message"@, JsonView::Str(patterns_text(patterns_of(p)))).with(
        "detail"@,
        JsonView::Str(proto::summary(meta)),
    ).with(
        "permission"@,
        JsonView::object().with("tool"@, JsonView::Str(type_of(p))).with(
            "rule"@,
            JsonView::Str(rule),
        ).with("suggestions"@, JsonView::Arr(Seq::empty())).with(
            "canAlways"@,
            JsonView::Bool(false),
        ),
    ).with(
        "context"@,
        context_of(payload).set("tool"@, JsonView::Str(type_of(p))).set(
            "toolDetail"@,
            JsonView::Str(text::collapsed(rule, 160)),
        ),
    ).with("timeoutMs"@, JsonView::Int(ms))
}

/// What is done with a permission request: a popup asks.
pub fn run_permission(payload: &Json, e: &Env) -> (r: Step)
    ensures
        r@ == StepView::Interact(
            permission_body(payload@, env::wait_of(e.timeout)),
            env::wait_of(e.timeout),
        ),
{
    let ms: u64 = timeout_ms(e.timeout);
    let p = match pick(payload, &["permission"]) {
        Some(v) => v,
        None => payload,
    };
    let perm_type = first_or(pick_str(p, &["type", "permission"]).as_str(), "tool");
    let patterns = read_patterns(p);
    let rule = read_first_pattern(&patterns);
    let title = first_or(
        pick_str(p, &["title"]).as_str(),
        cat3("允许 ", perm_type.as_str(), "？").as_str(),
    );
    let detail = match pick(p, &["metadata"]) {
        Some(v) => summarize_tool_input(v),
        None => summarize_tool_input(&Json::object()),
    };
    let permission = Json::object().with("tool", Json::text(perm_type.as_str())).with(
        "rule",
        Json::text(rule.as_str()),
    ).with("suggestions", empty_array()).with("canAlways", Json::Bool(false));
    let ctx = base_context(payload).set("tool", Json::Str(perm_type)).set(
        "toolDetail",
        Json::Str(collapse(rule.as_str(), 160)),
    );
    let body = Json::object().with("kind", Json::text("permission")).with(
        "source",
        Json::text("opencode"),
    ).with("title", Json::Str(title)).with("message", Json::Str(print_patterns(&patterns))).with(
        "detail",
        Json::Str(detail),
    ).with("permission", permission).with("context", ctx).with("timeoutMs", Json::PosInt(ms));
    Step::Interact(body, ms)
}

/// The answer once a reply to a permission request is there: what the user
/// decided, or else that OpenCode is to ask by itself.
pub open spec fn permission_answer_of(reply: JsonView) -> JsonView {
    let words = JsonView::Str(reply.pick_text(seq!["text"]));
    match ancli::user_action(reply) {
        Some(action) if reply.truthy() => if action == "allow"@ {
            JsonView::object().with("status"@, JsonView::Str("allow"@)).with("message"@, words)
        } else {
            JsonView::object().with("status"@, JsonView::Str("deny"@)).with("message"@, words)
        },
        _ => JsonView::object().with("status"@, JsonView::Str("ask"@)),
    }
}

/// The answer once a reply to a permission request is there.
pub fn permission_answer(reply: &Json) -> (r: Json)
    ensures
        r@ == permission_answer_of(reply@),
{
    if is_truthy(reply) {
        if let Some(action) = read_action(reply) {
            let words = Json::Str(pick_str(reply, &["text"]));
            let status = if same(action.as_str(), "allow") {
                Json::text("allow")
            } else {
                Json::text("deny")
            };
            return Json::object().with("status", status).with("message", words);
        }
    }
    Json::object().with("status", Json::text("ask"))
}

// ---------------------------------------------------------------------------
// Questions
// ---------------------------------------------------------------------------

/// The question that a payload asks at place `i`.
pub open spec fn question_of(q: JsonView, i: int) -> JsonView {
    let options = proto::options_of(
        q.items("options"@),
        proto::at_most(q.items("options"@).len(), 6),
        seq!["label", "text"],
        seq!["description"],
    );
    JsonView::object().with("id"@, JsonView::Str("q"@ + text::int_text(i))).with(
        "question"@,
        JsonView::Str(
            text::either(q.pick_text(seq!["question", "text"]), "问题 "@ + text::int_text(i + 1)),
        ),
    ).with("header"@, JsonView::Str(q.pick_text(seq!["header"]))).with(
        "multiSelect"@,
        JsonView::Bool(q.pick_flag(seq!["multiple", "multiSelect"])),
    ).with(
        "custom"@,
        JsonView::Bool(
            match q.field("custom"@) {
                Some(JsonView::Bool(b)) => b,
                _ => options.len() == 0,
            },
        ),
    ).with("options"@, JsonView::Arr(options))
}

/// The first four questions of a payload.
pub open spec fn questions_of(payload: JsonView) -> Seq<JsonView> {
    let raw = payload.items("questions"@);
    Seq::new(proto::at_most(raw.len(), 4) as nat, |i: int| question_of(raw[i], i))
}

fn make_question(q: &Json, i: usize) -> (r: Json)
    requires
        i < 4,
    ensures
        r@ == question_of(q@, i as int),
{
    let options = read_options(arr(q, "options"), &["label", "text"], &["description"]);
    let question = first_or(
        pick_str(q, &["question", "text"]).as_str(),
        cat2("问题 ", decimal((i + 1) as u64).as_str()).as_str(),
    );
    let custom = match get(q, "custom") {
        Some(Json::Bool(b)) => *b,
        _ => options.len() == 0,
    };
    Json::object().with("id", Json::Str(cat2("q", decimal(i as u64).as_str()))).with(
        "question",
        Json::Str(question),
    ).with("header", Json::Str(pick_str(q, &["header"]))).with(
        "multiSelect",
        Json::Bool(pick_bool(q, &["multiple", "multiSelect"])),
    ).with("custom", Json::Bool(custom)).with("options", Json::Arr(options))
}

/// Reads the questions of a payload in the popup's shape.
pub fn read_questions(payload: &Json) -> (r: Vec<Json>)
    ensures
        views(r@) == questions_of(payload@),
        r@.len() <= 4,
{
    let raw = arr(payload, "questions");
    let n: usize = if raw.len() < 4 {
        raw.len()
    } else {
        4
    };
    let mut r: Vec<Json> = Vec::new();
    let mut i: usize = 0;
    while i < n
        invariant
            i <= n <= raw@.len(),
            n <= 4,
            r@.len() == i,
            forall|k: int| 0 <= k < i ==> (#[trigger] r@[k])@ == question_of(raw@[k]@, k),
        decreases n - i,
    {
        r.push(make_question(&raw[i], i));
        i += 1;
    }
    assert(views(r@) =~= questions_of(payload@));
    r
}

/// The request for a popup with a payload's questions.
pub open spec fn question_body(payload: JsonView, ms: int) -> JsonView {
    JsonView::object().with("kind"@, JsonView::Str("ask"@)).with(
        "source"@,
        JsonView::Str("opencode"@),
    ).with("title"@, JsonView::Str("Agent 提问"@)).with(
        "message"@,
        JsonView::Str(ancli::headline(questions_of(payload))),
    ).with("questions"@, JsonView::Arr(questions_of(payload))).with(
        "context"@,
        context_of(payload).set("tool"@, JsonView::Str("question"@)),
    ).with("timeoutMs"@, JsonView::Int(ms))
}

/// The answer that refuses the questions.
pub open spec fn rejection() -> JsonView {
    JsonView::object().with("reject"@, JsonView::Bool(true))
}

/// What is done with questions: refused where there are none, else a popup asks.
pub fn run_question(payload: &Json, e: &Env) -> (r: Step)
    ensures
        r@ == (if questions_of(payload@).len() == 0 {
            StepView::Print(rejection())
        } else {
            StepView::Interact(
                question_body(payload@, env::wait_of(e.timeout)),
                env::wait_of(e.timeout),
            )
        }),
{
    let questions = read_questions(payload);
    assert(views(questions@).len() == questions@.len());
    if questions.len() == 0 {
        return Step::Print(Json::object().with("reject", Json::Bool(true)));
    }
    let ms: u64 = timeout_ms(e.timeout);
    let message = question_headline(&questions);
    let body = Json::object().with("kind", Json::text("ask")).with(
        "source",
        Json::text("opencode"),
    ).with("title", Json::text("Agent 提问")).with("message", Json::Str(message)).with(
        "questions",
        Json::Arr(questions),
    ).with("context", base_context(payload).set("tool", Json::text("question"))).with(
        "timeoutMs",
        Json::PosInt(ms),
    );
    Step::Interact(body, ms)
}

/// The answers to one question, as a list.
pub open spec fn answer_list(q: JsonView, answers: JsonView) -> JsonView {
    match answers.field(q.pick_text(seq!["id"])) {
        Some(v) if v.truthy() => match v {
            JsonView::Arr(_) => v,
            _ => JsonView::Arr(seq![v]),
        },
        _ => JsonView::Arr(Seq::empty()),
    }
}

/// The answer once a reply to a payload's questions is there: a list of answers
/// for each question where the user submitted them, else a refusal.
pub open spec fn question_answer_of(payload: JsonView, reply: JsonView) -> JsonView {
    if reply.truthy() && ancli::user_action(reply) == Some("submit"@) {
        let answers = match reply.pick(seq!["answers"]) {
            Some(v) => v,
            None => JsonView::object(),
        };
        JsonView::object().with(
            "answers"@,
            JsonView::Arr(
                questions_of(payload).map_values(|q: JsonView| answer_list(q, answers)),
            ),
        ).with("text"@, JsonView::Str(reply.pick_text(seq!["text"])))
    } else {
        rejection()
    }
}

fn make_answer_list(q: &Json, answers: &Json) -> (r: Json)
    ensures
        r@ == answer_list(q@, answers@),
{
    let id = pick_str(q, &["id"]);
    if let Some(v) = get(answers, id.as_str()) {
        if is_truthy(v) {
            return match v {
                Json::Arr(_) => v.clone(),
                _ => one(v.clone()),
            };
        }
    }
    empty_array()
}

/// The answer once a reply to a payload's questions is there.
pub fn question_answer(payload: &Json, reply: &Json) -> (r: Json)
    ensures
        r@ == question_answer_of(payload@, reply@),
{
    let submitted = is_truthy(reply) && match read_action(reply) {
        Some(a) => same(a.as_str(), "submit"),
        None => false,
    };
    if !submitted {
        return Json::object().with("reject", Json::Bool(true));
    }
    let questions = read_questions(payload);
    let answers = match pick(reply, &["answers"]) {
        Some(v) => v.clone(),
        None => Json::object(),
    };
    let mut lists: Vec<Json> = Vec::new();
    let mut i: usize = 0;
    while i < questions.len()
        invariant
            i <= questions@.len(),
            lists@.len() == i,
            forall|k: int|
                0 <= k < i ==> (#[trigger] lists@[k])@ == answer_list(questions@[k]@, answers@),
        decreases questions.len() - i,
    {
        lists.push(make_answer_list(&questions[i], &answers));
        i += 1;
    }
    assert(views(lists@) =~= questions_of(payload@).map_values(
        |q: JsonView| answer_list(q, answers@),
    )) by {
        assert(views(questions@) == questions_of(payload@));
    }
    Json::object().with("answers", Json::Arr(lists)).with(
        "text",
        Json::Str(pick_str(reply, &["text"])),
    )
}

// ---------------------------------------------------------------------------
// Events
// ---------------------------------------------------------------------------

/// The kind under which an event is reported: by its name, or by what the
/// payload says.
pub open spec fn kind_of(payload: JsonView) -> Seq<char> {
    let event = payload.pick_text(seq!["event", "type"]);
    if event == "session.idle"@ {
        "stop"@
    } else if event == "session.error"@ {
        "notification"@
    } else if event == "session.created"@ {
        "session-start"@
    } else if event == "session.deleted"@ {
        "session-end"@
    } else {
        payload.pick_text(seq!["kind"])
    }
}

/// What an event tells.
pub open spec fn properties_of(payload: JsonView) -> JsonView {
    match payload.pick(seq!["properties", "data"]) {
        Some(v) => v,
        None => payload,
    }
}

/// The report of an event.
pub open spec fn event_body(payload: JsonView) -> JsonView {
    let kind = kind_of(payload);
    let props = properties_of(payload);
    let notification = kind == "notification"@;
    JsonView::object().with("kind"@, JsonView::Str(kind)).with(
        "source"@,
        JsonView::Str("opencode"@),
    ).with(
        "message"@,
        JsonView::Str(
            if notification {
                text::either(props.pick_text(seq!["error", "message"]), "OpenCode 会话异常"@)
            } else {
                Seq::empty()
            },
        ),
    ).with(
        "context"@,
        context_of(props).set(
            "tool"@,
            JsonView::Str(
                if notification && props.pick_flag(seq!["error"]) {
                    "error"@
                } else {
                    Seq::empty()
                },
            ),
        ),
    )
}

fn read_kind(payload: &Json) -> (r: String)
    ensures
        r@ == kind_of(payload@),
{
    let event = pick_str(payload, &["event", "type"]);
    if same(event.as_str(), "session.idle") {
        "stop".to_owned()
    } else if same(event.as_str(), "session.error") {
        "notification".to_owned()
    } else if same(event.as_str(), "session.created") {
        "session-start".to_owned()
    } else if same(event.as_str(), "session.deleted") {
        "session-end".to_owned()
    } else {
        pick_str(payload, &["kind"])
    }
}

/// What is done with an event: one of a kind is reported, nothing is printed.
pub fn run_event(payload: &Json) -> (r: Step)
    ensures
        r@ == (if kind_of(payload@).len() == 0 {
            StepView::Silent
        } else {
            StepView::Event(event_body(payload@), None)
        }),
{
    let kind = read_kind(payload);
    if kind.as_str().is_empty() {
        return Step::Silent;
    }
    let props = match pick(payload, &["properties", "data"]) {
        Some(v) => v,
        None => payload,
    };
    let notification = same(kind.as_str(), "notification");
    let message = if notification {
        first_or(pick_str(props, &["error", "message"]).as_str(), "OpenCode 会话异常")
    } else {
        String::new()
    };
    let tool = if notification && pick_bool(props, &["error"]) {
        "error".to_owned()
    } else {
        String::new()
    };
    let ctx = base_context(props).set("tool", Json::Str(tool));
    let body = Json::object().with("kind", Json::Str(kind)).with(
        "source",
        Json::text("opencode"),
    ).with("message", Json::Str(message)).with("context", ctx);
    Step::Event(body, None)
}

// ---------------------------------------------------------------------------
// Handing answers back
// ---------------------------------------------------------------------------

/// One try to hand an answer back to OpenCode's server.
pub struct Delivery {
    pub url: String,
    pub body: Json,
}

/// The model of a [`Delivery`].
pub struct DeliveryView {
    pub url: Seq<char>,
    pub body: JsonView,
}

impl View for Delivery {
    type V = DeliveryView;

    open spec fn view(&self) -> DeliveryView {
        DeliveryView { url: self.url@, body: self.body@ }
    }
}

/// A text without the slashes at its end.
pub open spec fn without_end_slashes(s: Seq<char>) -> Seq<char>
    decreases s.len(),
{
    if s.len() > 0 && s.last() == '/' {
        without_end_slashes(s.drop_last())
    } else {
        s
    }
}

fn trim_slashes(s: &str) -> (r: String)
    ensures
        r@ == without_end_slashes(s@),
{
    let v = chars_of(s);
    let mut end: usize = v.len();
    assert(v@.take(end as int) =~= v@);
    while end > 0 && v[end - 1] == '/'
        invariant
            end <= v@.len(),
            without_end_slashes(v@) == without_end_slashes(v@.take(end as int)),
        decreases end,
    {
        assert(v@.take(end as int).drop_last() =~= v@.take(end - 1));
        end -= 1;
    }
    assert(v@.subrange(0, end as int) =~= v@.take(end as int));
    text::text_between(&v, 0, end)
}

/// The address of one of the two routes by which an answer can go back.
pub open spec fn route_url(
    server: Seq<char>,
    head: Seq<char>,
    id: Seq<char>,
    tail: Seq<char>,
) -> Seq<char> {
    without_end_slashes(server) + head + http::encoded(id) + tail
}

fn make_route_url(server: &str, head: &str, id: &str, tail: &str) -> (r: String)
    ensures
        r@ == route_url(server@, head@, id@, tail@),
{
    let base = trim_slashes(server);
    cat2(cat3(base.as_str(), head, encode_uri_component(id).as_str()).as_str(), tail)
}

/// Whether an outcome refuses the questions.
pub open spec fn rejects(out: JsonView) -> bool {
    out.field("reject"@) is Some && out.field("reject"@)->0.truthy()
}

/// The tries by which an outcome goes back to OpenCode's server: by the
/// session's route, then by the question's. Without the server or the
/// question's id there are none.
pub open spec fn deliveries_of(payload: JsonView, out: JsonView) -> Seq<DeliveryView> {
    let server = payload.pick_text(seq!["serverUrl"]);
    let session = payload.pick_text(seq!["sessionID"]);
    let request = payload.pick_text(seq!["requestID"]);
    let id = JsonView::object().with("requestID"@, JsonView::Str(request));
    if server.len() == 0 || request.len() == 0 {
        Seq::empty()
    } else if rejects(out) {
        Seq::empty().push(
            DeliveryView {
                url: route_url(server, "/session/"@, session, "/question/reject"@),
                body: id,
            },
        ).push(
            DeliveryView {
                url: route_url(server, "/question/"@, request, "/reject"@),
                body: JsonView::object(),
            },
        )
    } else {
        let answers = match out.pick(seq!["answers"]) {
            Some(v) => v,
            None => JsonView::Arr(Seq::empty()),
        };
        Seq::empty().push(
            DeliveryView {
                url: route_url(server, "/session/"@, session, "/question/reply"@),
                body: id.with("answers"@, answers),
            },
        ).push(
            DeliveryView {
                url: route_url(server, "/question/"@, request, "/reply"@),
                body: JsonView::object().with("answers"@, answers),
            },
        )
    }
}

/// The models of a list of tries.
pub open spec fn delivery_views(s: Seq<Delivery>) -> Seq<DeliveryView> {
    s.map_values(|d: Delivery| d@)
}

/// The tries by which an outcome goes back to OpenCode's server.
pub fn deliveries(payload: &Json, out: &Json) -> (r: Vec<Delivery>)
    ensures
        delivery_views(r@) == deliveries_of(payload@, out@),
{
    let server = pick_str(payload, &["serverUrl"]);
    let session = pick_str(payload, &["sessionID"]);
    let request = pick_str(payload, &["requestID"]);
    let mut r: Vec<Delivery> = Vec::new();
    if server.as_str().is_empty() || request.as_str().is_empty() {
        assert(delivery_views(r@) =~= Seq::empty());
        return r;
    }
    let id = Json::object().with("requestID", Json::text(request.as_str()));
    let rejected = match get(out, "reject") {
        Some(v) => is_truthy(v),
        None => false,
    };
    if rejected {
        r.push(
            Delivery {
                url: make_route_url(
                    server.as_str(),
                    "/session/",
                    session.as_str(),
                    "/question/reject",
                ),
                body: id,
            },
        );
        r.push(
            Delivery {
                url: make_route_url(server.as_str(), "/question/", request.as_str(), "/reject"),
                body: Json::object(),
            },
        );
    } else {
        let answers = match pick(out, &["answers"]) {
            Some(v) => v.clone(),
            None => empty_array(),
        };
        r.push(
            Delivery {
                url: make_route_url(
                    server.as_str(),
                    "/session/",
                    session.as_str(),
                    "/question/reply",
                ),
                body: id.with("answers", answers.clone()),
            },
        );
        r.push(
            Delivery {
                url: make_route_url(server.as_str(), "/question/", request.as_str(), "/reply"),
                body: Json::object().with("answers", answers),
            },
        );
    }
    assert(delivery_views(r@) =~= deliveries_of(payload@, out@));
    r
}

/// Whether a server took what was handed to it. None: it was not reached.
pub fn accepted(status: Option<u16>) -> (r: bool)
    ensures
        r == (status matches Some(c) && c < 400),
{
    match status {
        Some(c) => c < 400,
        None => false,
    }
}

/// What is printed at the end: that the outcome was handed back, or the outcome
/// itself for the plugin to hand back.
pub fn finish_question(out: Json, delivered: bool) -> (r: Json)
    ensures
        r@ == (if delivered {
            JsonView::object().with("ok"@, JsonView::Bool(true))
        } else {
            out@
        }),
{
    if delivered {
        Json::object().with("ok", Json::Bool(true))
    } else {
        out
    }
}

// ---------------------------------------------------------------------------
// Laws
// ---------------------------------------------------------------------------

/// Without a decision by the user a permission goes back to OpenCode's own
/// question, and questions are refused.
pub proof fn law_undecided_goes_back_to_opencode(payload: JsonView, reply: JsonView)
    requires
        reply.pick_text(seq!["decidedBy"]) != "user"@,
    ensures
        permission_answer_of(reply).field("status"@) == Some(JsonView::Str("ask"@)),
        question_answer_of(payload, reply) == rejection(),
{
    broadcast use crate::json::group_fields;

}

/// Submitted answers come back one list for each question, in order.
pub proof fn law_one_answer_list_for_each_question(payload: JsonView, reply: JsonView)
    requires
        reply.truthy(),
        ancli::user_action(reply) == Some("submit"@),
    ensures
        question_answer_of(payload, reply).items("answers"@).len() == questions_of(payload).len(),
{
    broadcast use crate::json::group_fields;

}

// ---------------------------------------------------------------------------
// What OpenCode is told, word for word
// ---------------------------------------------------------------------------

/// A permission that the user grants is allowed, with the user's words; any other
/// action of the user's denies it, and where the user did not decide OpenCode asks by
/// itself.
pub proof fn law_opencode_gets_the_users_verdict(
    reply: JsonView,
    action: Seq<char>,
    words: Seq<char>,
    by: Seq<char>,
)
    requires
        reply.field("text"@) == Some(JsonView::Str(words)),
        reply.field("action"@) == Some(JsonView::Str(action)),
        reply.field("decidedBy"@) == Some(JsonView::Str(by)),
    ensures
        by == "user"@ && action == "allow"@ ==> permission_answer_of(reply).field("status"@) == Some(
            JsonView::Str("allow"@),
        ) && permission_answer_of(reply).field("message"@) == Some(JsonView::Str(words)),
        by == "user"@ && action != "allow"@ ==> permission_answer_of(reply).field("status"@) == Some(
            JsonView::Str("deny"@),
        ) && permission_answer_of(reply).field("message"@) == Some(JsonView::Str(words)),
        by != "user"@ ==> permission_answer_of(reply).field("status"@) == Some(
            JsonView::Str("ask"@),
        ),
{
    broadcast use crate::json::group_fields;

    json::lemma_picked(reply, "text", JsonView::Str(words));
    json::lemma_picked(reply, "action", JsonView::Str(action));
    json::lemma_picked(reply, "decidedBy", JsonView::Str(by));
    reveal_strlit("status");
    reveal_strlit("message");
    assert("status"@.len() == 6);
    assert("message"@.len() == 7);
}

/// The members of a shown question.
proof fn lemma_shown_question(q: JsonView, i: int)
    ensures
        ({
            let shown = question_of(q, i);
            &&& shown is Obj
            &&& shown.field("id"@) == Some(JsonView::Str("q"@ + text::int_text(i)))
            &&& shown.field("question"@) == Some(
                JsonView::Str(
                    text::either(
                        q.pick_text(seq!["question", "text"]),
                        "问题 "@ + text::int_text(i + 1),
                    ),
                ),
            )
            &&& shown.field("header"@) == Some(JsonView::Str(q.pick_text(seq!["header"])))
            &&& shown.field("multiSelect"@) == Some(
                JsonView::Bool(q.pick_flag(seq!["multiple", "multiSelect"])),
            )
        }),
{
    broadcast use crate::json::group_fields;

    reveal_strlit("id");
    reveal_strlit("question");
    reveal_strlit("header");
    reveal_strlit("multiSelect");
    reveal_strlit("custom");
    reveal_strlit("options");
    assert("id"@.len() == 2);
    assert("question"@.len() == 8);
    assert("header"@.len() == 6);
    assert("multiSelect"@.len() == 11);
    assert("custom"@.len() == 6);
    assert("options"@.len() == 7);
    assert("header"@[0] == 'h');
    assert("custom"@[0] == 'c');
}

/// Each answer that the user chose in the popup, found there under the question's id,
/// comes back to OpenCode at the question's place; a question without an answer has an
/// empty list there. Only a submitted popup is an answer, any other rejects the
/// questions.
pub proof fn law_each_answer_comes_back_at_its_place(
    payload: JsonView,
    reply: JsonView,
    answers: JsonView,
    i: int,
    id: Seq<char>,
    picked: Seq<JsonView>,
    ms: int,
)
    requires
        ancli::chosen(reply, "submit"@),
        reply.field("answers"@) == Some(answers),
        answers is Obj,
        0 <= i < question_body(payload, ms).items("questions"@).len(),
        question_body(payload, ms).items("questions"@)[i].field("id"@) == Some(JsonView::Str(id)),
    ensures
        ({
            let out = question_answer_of(payload, reply);
            let list = out.items("answers"@);
            &&& out.field("reject"@) is None
            &&& list.len() == question_body(payload, ms).items("questions"@).len()
            &&& answers.field(id) == Some(JsonView::Arr(picked)) ==> list[i] == JsonView::Arr(picked)
            &&& answers.field(id) is None ==> list[i] == JsonView::Arr(Seq::empty())
        }),
{
    broadcast use crate::json::group_fields;

    ancli::lemma_chosen(reply, "submit"@);
    json::lemma_picked(reply, "answers", answers);
    lemma_question_body_fields(payload, ms);
    let q = questions_of(payload)[i];
    json::lemma_picked(q, "id", JsonView::Str(id));
    reveal_strlit("answers");
    reveal_strlit("text");
    reveal_strlit("reject");
    assert("answers"@.len() == 7);
    assert("text"@.len() == 4);
    assert("reject"@.len() == 6);
}

/// Whatever else the user does rejects the questions.
pub proof fn law_other_actions_reject_the_questions(
    payload: JsonView,
    reply: JsonView,
    action: Seq<char>,
)
    requires
        ancli::chosen(reply, action),
        action != "submit"@,
    ensures
        question_answer_of(payload, reply).field("reject"@) == Some(JsonView::Bool(true)),
        question_answer_of(payload, reply).field("answers"@) is None,
{
    broadcast use crate::json::group_fields;

    ancli::lemma_chosen(reply, action);
    reveal_strlit("answers");
    reveal_strlit("reject");
    assert("answers"@.len() == 7);
    assert("reject"@.len() == 6);
}

proof fn lemma_question_body_fields(payload: JsonView, ms: int)
    ensures
        ({
            let b = question_body(payload, ms);
            &&& b.field("kind"@) == Some(JsonView::Str("ask"@))
            &&& b.field("source"@) == Some(JsonView::Str("opencode"@))
            &&& b.field("title"@) == Some(JsonView::Str("Agent 提问"@))
            &&& b.field("message"@) == Some(JsonView::Str(ancli::headline(questions_of(payload))))
            &&& b.field("questions"@) == Some(JsonView::Arr(questions_of(payload)))
            &&& b.field("timeoutMs"@) == Some(JsonView::Int(ms))
        }),
{
    broadcast use crate::json::group_fields;

    reveal_strlit("kind");
    reveal_strlit("source");
    reveal_strlit("title");
    reveal_strlit("message");
    reveal_strlit("questions");
    reveal_strlit("context");
    reveal_strlit("timeoutMs");
    assert("kind"@.len() == 4);
    assert("source"@.len() == 6);
    assert("title"@.len() == 5);
    assert("message"@.len() == 7);
    assert("questions"@.len() == 9);
    assert("context"@.len() == 7);
    assert("timeoutMs"@.len() == 9);
    assert("message"@[0] == 'm');
    assert("questions"@[0] == 'q');
    assert("context"@[0] == 'c');
    assert("timeoutMs"@[0] == 't');
}

/// OpenCode's questions go to the user in their own words, up to four of them, and for
/// as long as the hook waits.
pub proof fn law_opencodes_questions_go_to_the_user(
    payload: JsonView,
    ms: int,
    raw: Seq<JsonView>,
    i: int,
    said: Seq<char>,
    multi: bool,
)
    requires
        payload.field("questions"@) == Some(JsonView::Arr(raw)),
        0 <= i < raw.len(),
        raw.len() <= 4,
        raw[i].field("question"@) == Some(JsonView::Str(said)),
        said.len() > 0,
        raw[i].field("multiple"@) == Some(JsonView::Bool(multi)),
        raw[i].field("multiSelect"@) is None,
    ensures
        ({
            let b = question_body(payload, ms);
            let shown = b.items("questions"@);
            &&& b.field("kind"@) == Some(JsonView::Str("ask"@))
            &&& b.field("source"@) == Some(JsonView::Str("opencode"@))
            &&& b.field("timeoutMs"@) == Some(JsonView::Int(ms))
            &&& shown.len() == raw.len()
            &&& shown[i].field("question"@) == Some(JsonView::Str(said))
            &&& shown[i].field("multiSelect"@) == Some(JsonView::Bool(multi))
        }),
{
    lemma_question_body_fields(payload, ms);
    lemma_shown_question(raw[i], i);
    let keys: Seq<&str> = seq!["question", "text"];
    assert(keys[0]@ == "question"@);
    json::law_the_first_name_counts(raw[i], keys, 0);
    let flags: Seq<&str> = seq!["multiple", "multiSelect"];
    assert(flags[0]@ == "multiple"@ && flags[1]@ == "multiSelect"@);
    if multi {
        json::law_the_first_name_counts(raw[i], flags, 0);
    } else {
        json::law_no_name_counts(raw[i], flags);
    }
    assert(questions_of(payload)[i] == question_of(raw[i], i));
}

/// OpenCode's permission requests go to the user, who is told what kind of permission
/// it is and for what; they cannot be granted for good there.
pub proof fn law_opencodes_permissions_go_to_the_user(
    payload: JsonView,
    ms: int,
    p: JsonView,
    kind: Seq<char>,
    pattern: Seq<char>,
    title: Seq<char>,
)
    requires
        payload.field("permission"@) == Some(p),
        p.field("type"@) == Some(JsonView::Str(kind)),
        kind.len() > 0,
    ensures
        ({
            let b = permission_body(payload, ms);
            &&& b.field("kind"@) == Some(JsonView::Str("permission"@))
            &&& b.field("source"@) == Some(JsonView::Str("opencode"@))
            &&& b.field("timeoutMs"@) == Some(JsonView::Int(ms))
            &&& b.field("permission"@) matches Some(a)
            &&& a.field("tool"@) == Some(JsonView::Str(kind))
            &&& a.field("canAlways"@) == Some(JsonView::Bool(false))
            &&& p.field("patterns"@) == Some(JsonView::Arr(seq![JsonView::Str(pattern)])) ==> a.field(
                "rule"@,
            ) == Some(JsonView::Str(pattern))
            &&& p.field("title"@) == Some(JsonView::Str(title)) && title.len() > 0 ==> b.field(
                "title"@,
            ) == Some(JsonView::Str(title))
            &&& p.field("title"@) is None ==> b.field("title"@) == Some(
                JsonView::Str("允许 "@ + kind + "？"@),
            )
        }),
{
    broadcast use crate::json::group_fields;

    json::lemma_picked(payload, "permission", p);
    let keys: Seq<&str> = seq!["type", "permission"];
    assert(keys[0]@ == "type"@);
    json::law_the_first_name_counts(p, keys, 0);
    if p.field("title"@) == Some(JsonView::Str(title)) {
        json::lemma_picked(p, "title", JsonView::Str(title));
    }
    if p.field("title"@) is None {
        json::lemma_unpicked(p, "title");
    }
    reveal_strlit("kind");
    reveal_strlit("source");
    reveal_strlit("title");
    reveal_strlit("message");
    reveal_strlit("detail");
    reveal_strlit("permission");
    reveal_strlit("context");
    reveal_strlit("timeoutMs");
    reveal_strlit("tool");
    reveal_strlit("rule");
    reveal_strlit("suggestions");
    reveal_strlit("canAlways");
    assert("kind"@.len() == 4);
    assert("source"@.len() == 6);
    assert("title"@.len() == 5);
    assert("message"@.len() == 7);
    assert("detail"@.len() == 6);
    assert("permission"@.len() == 10);
    assert("context"@.len() == 7);
    assert("timeoutMs"@.len() == 9);
    assert("tool"@.len() == 4);
    assert("rule"@.len() == 4);
    assert("suggestions"@.len() == 11);
    assert("canAlways"@.len() == 9);
    assert("kind"@[0] == 'k');
    assert("source"@[0] == 's');
    assert("message"@[0] == 'm');
    assert("detail"@[0] == 'd');
    assert("context"@[0] == 'c');
    assert("timeoutMs"@[0] == 't');
    assert("tool"@[0] == 't');
    assert("rule"@[0] == 'r');
    assert("canAlways"@[0] == 'c');
}

/// Each of OpenCode's events is reported as what it is: an idle session as the end of a
/// turn, an error as something that waits for the user, with what went wrong.
pub proof fn law_opencodes_events_are_reported_as_what_they_are(
    payload: JsonView,
    event: Seq<char>,
    data: JsonView,
    error: Seq<char>,
)
    requires
        payload.field("event"@) == Some(JsonView::Str(event)),
        event.len() > 0,
    ensures
        event_body(payload).field("source"@) == Some(JsonView::Str("opencode"@)),
        event == "session.idle"@ ==> event_body(payload).field("kind"@) == Some(
            JsonView::Str("stop"@),
        ),
        event == "session.error"@ ==> event_body(payload).field("kind"@) == Some(
            JsonView::Str("notification"@),
        ),
        event == "session.created"@ ==> event_body(payload).field("kind"@) == Some(
            JsonView::Str("session-start"@),
        ),
        event == "session.deleted"@ ==> event_body(payload).field("kind"@) == Some(
            JsonView::Str("session-end"@),
        ),
        event == "session.error"@ && payload.field("properties"@) == Some(data) && data.field(
            "error"@,
        ) == Some(JsonView::Str(error)) && error.len() > 0 ==> event_body(payload).field("message"@)
            == Some(JsonView::Str(error)),
{
    broadcast use crate::json::group_fields;

    let keys: Seq<&str> = seq!["event", "type"];
    assert(keys[0]@ == "event"@);
    json::law_the_first_name_counts(payload, keys, 0);
    if payload.field("properties"@) == Some(data) && data.field("error"@) == Some(
        JsonView::Str(error),
    ) && error.len() > 0 {
        let places: Seq<&str> = seq!["properties", "data"];
        assert(places[0]@ == "properties"@);
        json::law_the_first_name_counts(payload, places, 0);
        let words: Seq<&str> = seq!["error", "message"];
        assert(words[0]@ == "error"@);
        json::law_the_first_name_counts(data, words, 0);
    }
    reveal_strlit("kind");
    reveal_strlit("source");
    reveal_strlit("message");
    reveal_strlit("context");
    reveal_strlit("session.idle");
    reveal_strlit("session.error");
    reveal_strlit("session.created");
    reveal_strlit("session.deleted");
    reveal_strlit("notification");
    reveal_strlit("stop");
    reveal_strlit("session-start");
    reveal_strlit("session-end");
    assert("kind"@.len() == 4);
    assert("source"@.len() == 6);
    assert("message"@.len() == 7);
    assert("context"@.len() == 7);
    assert("session.idle"@.len() == 12);
    assert("session.error"@.len() == 13);
    assert("session.created"@.len() == 15);
    assert("session.deleted"@.len() == 15);
    assert("notification"@.len() == 12);
    assert("stop"@.len() == 4);
    assert("session-start"@.len() == 13);
    assert("session-end"@.len() == 11);
    assert("kind"@[0] == 'k');
    assert("message"@[0] == 'm');
    assert("context"@[0] == 'c');
    assert("session.idle"@[0] == 's');
    assert("session.error"@[7] == '.');
    assert("session.created"@[8] == 'c');
    assert("session.deleted"@[8] == 'd');
    assert("notification"@[0] == 'n');
    assert("stop"@[0] == 's');
    assert("session-start"@[7] == '-');
}

/// The context of what OpenCode sends names the session, the project and the task.
pub proof fn law_opencodes_context(p: JsonView, s: Seq<char>)
    requires
        s.len() > 0,
    ensures
        context_of(p).field("agent"@) == Some(JsonView::Str("opencode"@)),
        p.field("sessionID"@) == Some(JsonView::Str(s)) ==> context_of(p).field("session"@) == Some(
            JsonView::Str(text::short_id(s)),
        ),
        p.field("project"@) == Some(JsonView::Str(s)) ==> context_of(p).field("project"@) == Some(
            JsonView::Str(s),
        ),
        p.field("project"@) is None && p.field("directory"@) == Some(JsonView::Str(s)) ==> context_of(
            p,
        ).field("project"@) == Some(JsonView::Str(text::base_of(s))),
        p.field("sessionTitle"@) == Some(JsonView::Str(s)) ==> context_of(p).field("task"@) == Some(
            JsonView::Str(text::collapsed(s, 160)),
        ),
{
    broadcast use crate::json::group_fields;

    let ids: Seq<&str> = seq!["sessionID", "sessionId"];
    assert(ids[0]@ == "sessionID"@);
    let titles: Seq<&str> = seq!["sessionTitle", "title"];
    assert(titles[0]@ == "sessionTitle"@);
    if p.field("sessionID"@) == Some(JsonView::Str(s)) {
        json::law_the_first_name_counts(p, ids, 0);
    }
    if p.field("sessionTitle"@) == Some(JsonView::Str(s)) {
        json::law_the_first_name_counts(p, titles, 0);
    }
    if p.field("project"@) == Some(JsonView::Str(s)) {
        json::lemma_picked(p, "project", JsonView::Str(s));
    }
    if p.field("project"@) is None {
        json::lemma_unpicked(p, "project");
    }
    if p.field("directory"@) == Some(JsonView::Str(s)) {
        json::lemma_picked(p, "directory", JsonView::Str(s));
    }
    reveal_strlit("agent");
    reveal_strlit("agentType");
    reveal_strlit("agentId");
    reveal_strlit("session");
    reveal_strlit("project");
    reveal_strlit("task");
    reveal_strlit("tool");
    reveal_strlit("toolDetail");
    assert("agent"@.len() == 5);
    assert("agentType"@.len() == 9);
    assert("agentId"@.len() == 7);
    assert("session"@.len() == 7);
    assert("project"@.len() == 7);
    assert("task"@.len() == 4);
    assert("tool"@.len() == 4);
    assert("toolDetail"@.len() == 10);
    assert("agentId"@[0] == 'a');
    assert("session"@[0] == 's');
    assert("project"@[0] == 'p');
    assert("task"@[1] == 'a');
    assert("tool"@[1] == 'o');
}

/// What the user answered goes to OpenCode's server: an answer to where replies go, a
/// rejection to where rejections go, each by the request's id, and the answers with the
/// answer alone. Without a server or a request nothing is sent.
pub proof fn law_answers_are_delivered(
    payload: JsonView,
    out: JsonView,
    server: Seq<char>,
    session: Seq<char>,
    request: Seq<char>,
    answers: Seq<JsonView>,
)
    requires
        payload.field("serverUrl"@) == Some(JsonView::Str(server)),
        payload.field("sessionID"@) == Some(JsonView::Str(session)),
        payload.field("requestID"@) == Some(JsonView::Str(request)),
    ensures
        server.len() == 0 || request.len() == 0 ==> deliveries_of(payload, out).len() == 0,
        server.len() > 0 && request.len() > 0 && server.last() != '/' ==> {
            let list = deliveries_of(payload, out);
            &&& list.len() == 2
            &&& list[0].body.field("requestID"@) == Some(JsonView::Str(request))
            &&& out.field("reject"@) == Some(JsonView::Bool(true)) ==> {
                &&& list[0].url == server + "/session/"@ + http::encoded(session)
                    + "/question/reject"@
                &&& list[1].url == server + "/question/"@ + http::encoded(request) + "/reject"@
                &&& list[0].body.field("answers"@) is None
            }
            &&& out.field("reject"@) is None && out.field("answers"@) == Some(JsonView::Arr(answers))
                ==> {
                &&& list[0].url == server + "/session/"@ + http::encoded(session)
                    + "/question/reply"@
                &&& list[1].url == server + "/question/"@ + http::encoded(request) + "/reply"@
                &&& list[0].body.field("answers"@) == Some(JsonView::Arr(answers))
                &&& list[1].body.field("answers"@) == Some(JsonView::Arr(answers))
            }
        },
{
    broadcast use crate::json::group_fields;

    json::lemma_picked(payload, "serverUrl", JsonView::Str(server));
    json::lemma_picked(payload, "sessionID", JsonView::Str(session));
    json::lemma_picked(payload, "requestID", JsonView::Str(request));
    if out.field("answers"@) == Some(JsonView::Arr(answers)) {
        json::lemma_picked(out, "answers", JsonView::Arr(answers));
    }
    reveal_strlit("requestID");
    reveal_strlit("answers");
    assert("requestID"@.len() == 9);
    assert("answers"@.len() == 7);
}

/// Several patterns are told with room between them, one as it is.
pub proof fn law_patterns_are_told(a: Seq<char>, b: Seq<char>)
    ensures
        patterns_text(Some(JsonView::Arr(seq![JsonView::Str(a), JsonView::Str(b)]))) == a + "  "@
            + b,
        patterns_text(Some(JsonView::Str(a))) == a,
        patterns_text(None) == Seq::<char>::empty(),
{
    let both = seq![JsonView::Str(a), JsonView::Str(b)];
    assert(both.map_values(|x: JsonView| x.lossy()) =~= seq![a, b]);
    text::law_joining(a, b, a, "  "@);
}

/// What is about to be done is summed up, and nothing is suggested, nor allowed for
/// good.
pub proof fn law_what_opencode_is_about_to_do(payload: JsonView, ms: int, meta: JsonView)
    requires
        permission_of(payload).field("metadata"@) == Some(meta),
        meta.truthy(),
    ensures
        permission_body(payload, ms).field("detail"@) == Some(JsonView::Str(proto::summary(meta))),
        permission_body(payload, ms).field("permission"@) matches Some(a) && a.field("suggestions"@)
            == Some(JsonView::Arr(Seq::empty())) && a.field("canAlways"@) == Some(
            JsonView::Bool(false),
        ),
{
    broadcast use crate::json::group_fields;

    json::lemma_picked(permission_of(payload), "metadata", meta);
    reveal_strlit("kind");
    reveal_strlit("source");
    reveal_strlit("title");
    reveal_strlit("message");
    reveal_strlit("detail");
    reveal_strlit("permission");
    reveal_strlit("context");
    reveal_strlit("timeoutMs");
    assert("kind"@.len() == 4);
    assert("source"@.len() == 6);
    assert("title"@.len() == 5);
    assert("message"@.len() == 7);
    assert("detail"@.len() == 6);
    assert("permission"@.len() == 10);
    assert("context"@.len() == 7);
    assert("timeoutMs"@.len() == 9);
    assert("source"@[0] == 's');
    assert("message"@[0] == 'm');
    assert("detail"@[0] == 'd');
    assert("context"@[0] == 'c');
    reveal_strlit("tool");
    reveal_strlit("rule");
    reveal_strlit("suggestions");
    reveal_strlit("canAlways");
    assert("tool"@.len() == 4);
    assert("rule"@.len() == 4);
    assert("suggestions"@.len() == 11);
    assert("canAlways"@.len() == 9);
    assert("tool"@[0] == 't');
    assert("rule"@[0] == 'r');
}

/// An event's properties are known by either of their names; one without any is its own.
/// A failure without words is told as one.
pub proof fn law_where_an_events_properties_are(payload: JsonView, props: JsonView)
    ensures
        payload.field("properties"@) == Some(props) && props.truthy() ==> properties_of(payload)
            == props,
        payload.field("properties"@) is None && payload.field("data"@) == Some(props)
            && props.truthy() ==> properties_of(payload) == props,
        payload.field("properties"@) is None && payload.field("data"@) is None ==> properties_of(
            payload,
        ) == payload,
        kind_of(payload) == "notification"@ && properties_of(payload).field("error"@) is None
            && properties_of(payload).field("message"@) is None ==> event_body(payload).field(
            "message"@,
        ) == Some(JsonView::Str("OpenCode 会话异常"@)),
{
    broadcast use crate::json::group_fields;

    let keys: Seq<&str> = seq!["properties", "data"];
    assert(keys[0]@ == "properties"@ && keys[1]@ == "data"@);
    if payload.field("properties"@) == Some(props) && props.truthy() {
        json::law_the_first_name_counts(payload, keys, 0);
    }
    if payload.field("properties"@) is None && payload.field("data"@) == Some(props)
        && props.truthy() {
        json::law_the_first_name_counts(payload, keys, 1);
    }
    if payload.field("properties"@) is None && payload.field("data"@) is None {
        json::law_no_name_counts(payload, keys);
    }
    let words: Seq<&str> = seq!["error", "message"];
    assert(words[0]@ == "error"@ && words[1]@ == "message"@);
    let q = properties_of(payload);
    if q.field("error"@) is None && q.field("message"@) is None {
        json::law_no_name_counts(q, words);
    }
    reveal_strlit("kind");
    reveal_strlit("source");
    reveal_strlit("message");
    reveal_strlit("context");
    assert("kind"@.len() == 4);
    assert("source"@.len() == 6);
    assert("message"@.len() == 7);
    assert("context"@.len() == 7);
    assert("message"@[0] == 'm');
    assert("context"@[0] == 'c');
}

/// A question's choices are shown as they are offered, and other words can be typed where
/// there are none, or where that is asked for.
pub proof fn law_what_opencode_offers(q: JsonView, i: int, raw: Seq<JsonView>, on: bool)
    ensures
        q.field("options"@) == Some(JsonView::Arr(raw)) && raw.len() <= 6 ==> question_of(
            q,
            i,
        ).items("options"@) == proto::options_of(
            raw,
            raw.len() as int,
            seq!["label", "text"],
            seq!["description"],
        ),
        q.field("custom"@) == Some(JsonView::Bool(on)) ==> question_of(q, i).field("custom"@) == Some(
            JsonView::Bool(on),
        ),
        q.field("custom"@) is None && q.field("options"@) is None ==> question_of(q, i).field(
            "custom"@,
        ) == Some(JsonView::Bool(true)),
{
    broadcast use crate::json::group_fields;

    reveal_strlit("id");
    reveal_strlit("question");
    reveal_strlit("header");
    reveal_strlit("multiSelect");
    reveal_strlit("custom");
    reveal_strlit("options");
    assert("id"@.len() == 2);
    assert("question"@.len() == 8);
    assert("header"@.len() == 6);
    assert("multiSelect"@.len() == 11);
    assert("custom"@.len() == 6);
    assert("options"@.len() == 7);
    assert("header"@[0] == 'h');
    assert("custom"@[0] == 'c');
}

/// What OpenCode is about to do is known by one pattern as by several, and the context
/// says it.
pub proof fn law_what_opencodes_context_tells(payload: JsonView, p: JsonView, s: Seq<char>, ms: int)
    requires
        s.len() > 0,
    ensures
        p.field("patterns"@) is None && p.field("pattern"@) == Some(JsonView::Str(s)) ==> patterns_of(
            p,
        ) == Some(JsonView::Arr(seq![JsonView::Str(s)])),
        permission_body(payload, ms).field("context"@) matches Some(c) && c.field("toolDetail"@)
            == Some(
            JsonView::Str(text::collapsed(first_pattern(patterns_of(permission_of(payload))), 160)),
        ) && c.field("agent"@) == Some(JsonView::Str("opencode"@)),
        question_body(payload, ms).field("context"@) matches Some(c) && c.field("tool"@) == Some(
            JsonView::Str("question"@),
        ),
        p.field("agent"@) is None && p.field("agentType"@) == Some(JsonView::Str(s)) ==> context_of(
            p,
        ).field("agentType"@) == Some(JsonView::Str(s)),
        p.field("sessionID"@) is None && p.field("sessionId"@) == Some(JsonView::Str(s))
            ==> context_of(p).field("session"@) == Some(JsonView::Str(text::short_id(s))),
{
    broadcast use crate::json::group_fields;

    if p.field("pattern"@) == Some(JsonView::Str(s)) {
        json::lemma_picked(p, "pattern", JsonView::Str(s));
    }
    let kinds: Seq<&str> = seq!["agent", "agentType"];
    assert(kinds[0]@ == "agent"@ && kinds[1]@ == "agentType"@);
    if p.field("agent"@) is None && p.field("agentType"@) == Some(JsonView::Str(s)) {
        json::law_the_first_name_counts(p, kinds, 1);
    }
    let ids: Seq<&str> = seq!["sessionID", "sessionId"];
    assert(ids[0]@ == "sessionID"@ && ids[1]@ == "sessionId"@);
    if p.field("sessionID"@) is None && p.field("sessionId"@) == Some(JsonView::Str(s)) {
        json::law_the_first_name_counts(p, ids, 1);
    }
    reveal_strlit("kind");
    reveal_strlit("source");
    reveal_strlit("title");
    reveal_strlit("message");
    reveal_strlit("detail");
    reveal_strlit("permission");
    reveal_strlit("context");
    reveal_strlit("timeoutMs");
    reveal_strlit("questions");
    assert("kind"@.len() == 4);
    assert("source"@.len() == 6);
    assert("title"@.len() == 5);
    assert("message"@.len() == 7);
    assert("detail"@.len() == 6);
    assert("permission"@.len() == 10);
    assert("context"@.len() == 7);
    assert("timeoutMs"@.len() == 9);
    assert("questions"@.len() == 9);
    assert("source"@[0] == 's');
    assert("message"@[0] == 'm');
    assert("detail"@[0] == 'd');
    assert("context"@[0] == 'c');
    assert("timeoutMs"@[0] == 't');
    assert("questions"@[0] == 'q');
    reveal_strlit("agent");
    reveal_strlit("agentType");
    reveal_strlit("agentId");
    reveal_strlit("session");
    reveal_strlit("project");
    reveal_strlit("task");
    reveal_strlit("tool");
    reveal_strlit("toolDetail");
    assert("agent"@.len() == 5);
    assert("agentType"@.len() == 9);
    assert("agentId"@.len() == 7);
    assert("session"@.len() == 7);
    assert("project"@.len() == 7);
    assert("task"@.len() == 4);
    assert("tool"@.len() == 4);
    assert("toolDetail"@.len() == 10);
    assert("agentId"@[0] == 'a');
    assert("session"@[0] == 's');
    assert("project"@[0] == 'p');
    assert("task"@[1] == 'a');
    assert("tool"@[1] == 'o');
}

} // verus!
