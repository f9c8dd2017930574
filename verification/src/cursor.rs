//! Cursor: camelCase events, no event of its own for permissions, and an answer
//! to everything.

use vstd::prelude::*;
use crate::ancli;
use crate::ancli::{question_headline, read_action};
use crate::cache;
use crate::cache::local_rule_match;
use crate::env;
use crate::env::{env_flag, timeout_ms, Env};
use crate::json;
use crate::json::{arr, empty_array, get, is_truthy, pick, pick_str, Json, JsonView};
use crate::proto;
use crate::proto::{build_answer_map, is_ask_tool, questions_from_tool_input, summarize_tool_input};
use crate::proto::tool_input_questions;
use crate::session;
use crate::session::{build_context, first_item};
use crate::step::{Step, StepView};
use crate::text;
use crate::text::{cat2, collapse, first_or, same};

verus! {

broadcast use crate::json::group_json;

// ---------------------------------------------------------------------------
// Reading a payload
// ---------------------------------------------------------------------------

/// The name under which the other hosts know an event; empty for one that they
/// do not have.
pub open spec fn alias_of(event: Seq<char>) -> Seq<char> {
    if event == "beforeShellExecution"@ || event == "beforeMCPExecution"@ || event
        == "beforeReadFile"@ || event == "preToolUse"@ {
        "PreToolUse"@
    } else if event == "afterShellExecution"@ || event == "afterMCPExecution"@ || event
        == "afterFileEdit"@ || event == "postToolUse"@ || event == "afterAgentThought"@ {
        "PostToolUse"@
    } else if event == "postToolUseFailure"@ {
        "PostToolUseFailure"@
    } else if event == "beforeSubmitPrompt"@ {
        "UserPromptSubmit"@
    } else if event == "sessionStart"@ {
        "SessionStart"@
    } else if event == "sessionEnd"@ {
        "SessionEnd"@
    } else if event == "subagentStart"@ {
        "SubagentStart"@
    } else if event == "subagentStop"@ {
        "SubagentStop"@
    } else if event == "stop"@ {
        "Stop"@
    } else if event == "preCompact"@ {
        "PreCompact"@
    } else if event == "afterAgentResponse"@ {
        "Stop"@
    } else {
        ""@
    }
}

/// The name under which the other hosts know an event.
pub fn event_alias(event: &str) -> (r: &'static str)
    ensures
        r@ == alias_of(event@),
{
    if same(event, "beforeShellExecution") || same(event, "beforeMCPExecution") || same(
        event,
        "beforeReadFile",
    ) || same(event, "preToolUse") {
        "PreToolUse"
    } else if same(event, "afterShellExecution") || same(event, "afterMCPExecution") || same(
        event,
        "afterFileEdit",
    ) || same(event, "postToolUse") || same(event, "afterAgentThought") {
        "PostToolUse"
    } else if same(event, "postToolUseFailure") {
        "PostToolUseFailure"
    } else if same(event, "beforeSubmitPrompt") {
        "UserPromptSubmit"
    } else if same(event, "sessionStart") {
        "SessionStart"
    } else if same(event, "sessionEnd") {
        "SessionEnd"
    } else if same(event, "subagentStart") {
        "SubagentStart"
    } else if same(event, "subagentStop") {
        "SubagentStop"
    } else if same(event, "stop") {
        "Stop"
    } else if same(event, "preCompact") {
        "PreCompact"
    } else if same(event, "afterAgentResponse") {
        "Stop"
    } else {
        ""
    }
}

/// The tool that an event is about.
pub open spec fn tool_named(p: JsonView, event: Seq<char>) -> Seq<char> {
    if event == "beforeShellExecution"@ {
        "Shell"@
    } else if event == "beforeReadFile"@ {
        "Read"@
    } else {
        text::either(p.pick_text(seq!["tool_name", "tool", "name"]), "tool"@)
    }
}

/// The tool that an event is about.
pub fn tool_of(payload: &Json, event: &str) -> (r: String)
    ensures
        r@ == tool_named(payload@, event@),
{
    if same(event, "beforeShellExecution") {
        "Shell".to_owned()
    } else if same(event, "beforeReadFile") {
        "Read".to_owned()
    } else {
        first_or(pick_str(payload, &["tool_name", "tool", "name"]).as_str(), "tool")
    }
}

/// The tool's input as the detail reads it: `tool_input` where it is truthy or
/// the empty text, else `toolInput`.
pub open spec fn detail_input(p: JsonView) -> Option<JsonView> {
    match p.field("tool_input"@) {
        Some(v) if v.truthy() || v is Str => Some(v),
        _ => p.field("toolInput"@),
    }
}

/// What an event is about, in one line.
pub open spec fn detail_text(p: JsonView, event: Seq<char>) -> Seq<char> {
    if event == "beforeShellExecution"@ {
        text::collapsed(p.pick_text(seq!["command"]), 160)
    } else if event == "beforeReadFile"@ {
        text::collapsed(p.pick_text(seq!["file_path"]), 160)
    } else {
        match detail_input(p) {
            Some(JsonView::Str(s)) => text::collapsed(s, 160),
            Some(v) => text::collapsed(proto::summary(v), 160),
            None => Seq::empty(),
        }
    }
}

/// What an event is about, in one line.
pub fn detail_of(payload: &Json, event: &str) -> (r: String)
    ensures
        r@ == detail_text(payload@, event@),
{
    if same(event, "beforeShellExecution") {
        return collapse(pick_str(payload, &["command"]).as_str(), 160);
    }
    if same(event, "beforeReadFile") {
        return collapse(pick_str(payload, &["file_path"]).as_str(), 160);
    }
    let first = get(payload, "tool_input");
    let usable = match first {
        Some(Json::Str(_)) => true,
        Some(v) => is_truthy(v),
        None => false,
    };
    let ti = if usable {
        first
    } else {
        get(payload, "toolInput")
    };
    match ti {
        Some(Json::Str(s)) => collapse(s.as_str(), 160),
        Some(v) => collapse(summarize_tool_input(v).as_str(), 160),
        None => String::new(),
    }
}

/// The tool's input as the session remembers it: the payload's, or one made of
/// its command or its file.
pub open spec fn input_remembered(p: JsonView) -> JsonView {
    match p.pick(seq!["tool_input"]) {
        Some(v) => v,
        None => match p.pick(seq!["command"]) {
            Some(c) => JsonView::object().with("command"@, c),
            None => match p.pick(seq!["file_path"]) {
                Some(f) => JsonView::object().with("file_path"@, f),
                None => JsonView::object(),
            },
        },
    }
}

/// The tool's input as the session remembers it.
pub fn session_tool_input(payload: &Json) -> (r: Json)
    ensures
        r@ == input_remembered(payload@),
{
    if let Some(v) = pick(payload, &["tool_input"]) {
        return v.clone();
    }
    if let Some(c) = pick(payload, &["command"]) {
        return Json::object().with("command", c.clone());
    }
    if let Some(f) = pick(payload, &["file_path"]) {
        return Json::object().with("file_path", f.clone());
    }
    Json::object()
}

/// The directory that a payload works in.
pub open spec fn cwd_of(p: JsonView) -> Seq<char> {
    text::either(p.pick_text(seq!["cwd"]), session::first_text(p.items("workspace_roots"@)))
}

fn read_cwd(payload: &Json) -> (r: String)
    ensures
        r@ == cwd_of(payload@),
{
    first_or(
        pick_str(payload, &["cwd"]).as_str(),
        first_item(arr(payload, "workspace_roots")).as_str(),
    )
}

/// The payload in the other hosts' shape, from which the session is
/// remembered.
pub open spec fn common_payload(p: JsonView) -> JsonView {
    let event = ancli::event_of(p);
    JsonView::object().with(
        "session_id"@,
        JsonView::Str(p.pick_text(seq!["conversation_id", "generation_id"])),
    ).with("cwd"@, JsonView::Str(cwd_of(p))).with(
        "agent_type"@,
        JsonView::Str(p.pick_text(seq!["subagent_type", "subagent"])),
    ).with("prompt"@, JsonView::Str(p.pick_text(seq!["prompt"]))).with(
        "tool_name"@,
        JsonView::Str(tool_named(p, event)),
    ).with("tool_input"@, input_remembered(p)).with(
        "last_assistant_message"@,
        JsonView::Str(p.pick_text(seq!["text"])),
    )
}

/// The payload in the other hosts' shape, from which the session is
/// remembered.
pub fn session_payload(payload: &Json) -> (r: Json)
    ensures
        r@ == common_payload(payload@),
{
    let event = pick_str(payload, &["hook_event_name"]);
    Json::object().with(
        "session_id",
        Json::Str(pick_str(payload, &["conversation_id", "generation_id"])),
    ).with("cwd", Json::Str(read_cwd(payload))).with(
        "agent_type",
        Json::Str(pick_str(payload, &["subagent_type", "subagent"])),
    ).with("prompt", Json::Str(pick_str(payload, &["prompt"]))).with(
        "tool_name",
        Json::Str(tool_of(payload, event.as_str())),
    ).with("tool_input", session_tool_input(payload)).with(
        "last_assistant_message",
        Json::Str(pick_str(payload, &["text"])),
    )
}

/// The context that a popup shows.
pub open spec fn shown_context(p: JsonView, session: Option<JsonView>) -> JsonView {
    let event = ancli::event_of(p);
    let seen = JsonView::object().with(
        "session_id"@,
        JsonView::Str(p.pick_text(seq!["conversation_id"])),
    ).with("cwd"@, JsonView::Str(cwd_of(p)));
    session::context_of(seen, "cursor"@, session).set(
        "tool"@,
        JsonView::Str(tool_named(p, event)),
    ).set("toolDetail"@, JsonView::Str(detail_text(p, event)))
}

/// Makes the context that a popup shows.
pub fn popup_context(payload: &Json, session: Option<&Json>) -> (r: Json)
    ensures
        r@ == shown_context(payload@, json::opt_view(session)),
{
    let event = pick_str(payload, &["hook_event_name"]);
    let seen = Json::object().with(
        "session_id",
        Json::Str(pick_str(payload, &["conversation_id"])),
    ).with("cwd", Json::Str(read_cwd(payload)));
    build_context(&seen, "cursor", session).set(
        "tool",
        Json::Str(tool_of(payload, event.as_str())),
    ).set("toolDetail", Json::Str(detail_of(payload, event.as_str())))
}

// ---------------------------------------------------------------------------
// Events that can be stopped
// ---------------------------------------------------------------------------

/// The events that can be stopped.
pub open spec fn blocking(event: Seq<char>) -> bool {
    event == "preToolUse"@ || event == "beforeMCPExecution"@ || event == "beforeShellExecution"@
        || event == "beforeReadFile"@
}

/// Whether a payload is a question to the user that a popup can ask.
pub open spec fn asking(p: JsonView, e: Env) -> bool {
    ancli::event_of(p) == "preToolUse"@ && proto::asks(p) && env::flag(e.ask, true)
        && ancli::asked(p).len() > 0
}

/// Whether a payload is a question to the user that a popup can ask.
pub fn is_asking(payload: &Json, e: &Env) -> (r: bool)
    ensures
        r == asking(payload@, *e),
{
    let event = pick_str(payload, &["hook_event_name"]);
    if !(same(event.as_str(), "preToolUse") && is_ask_tool(payload) && env_flag(&e.ask, true)) {
        return false;
    }
    let questions = questions_from_tool_input(&tool_input_questions(payload));
    assert(json::views(questions@).len() == questions@.len());
    questions.len() > 0
}

/// The answer with a permission alone.
pub open spec fn plain(permission: Seq<char>) -> JsonView {
    JsonView::object().with("permission"@, JsonView::Str(permission))
}

fn make_plain(permission: &str) -> (r: Json)
    ensures
        r@ == plain(permission@),
{
    Json::object().with("permission", Json::text(permission))
}

/// The request for a popup with a payload's questions.
pub open spec fn ask_body(p: JsonView, ctx: JsonView, ms: int) -> JsonView {
    JsonView::object().with("kind"@, JsonView::Str("ask"@)).with(
        "source"@,
        JsonView::Str("cursor"@),
    ).with("title"@, JsonView::Str("Agent 提问"@)).with(
        "message"@,
        JsonView::Str(ancli::headline(ancli::asked(p))),
    ).with("questions"@, JsonView::Arr(ancli::asked(p))).with(
        "context"@,
        ctx.set("toolDetail"@, JsonView::Str(Seq::empty())),
    ).with("timeoutMs"@, JsonView::Int(ms))
}

fn make_ask_body(payload: &Json, ctx: Json, ms: u64) -> (r: Json)
    ensures
        r@ == ask_body(payload@, ctx@, ms as int),
{
    let questions = questions_from_tool_input(&tool_input_questions(payload));
    let message = question_headline(&questions);
    Json::object().with("kind", Json::text("ask")).with("source", Json::text("cursor")).with(
        "title",
        Json::text("Agent 提问"),
    ).with("message", Json::Str(message)).with("questions", Json::Arr(questions)).with(
        "context",
        ctx.set("toolDetail", Json::Str(String::new())),
    ).with("timeoutMs", Json::PosInt(ms))
}

/// The request for a popup that asks for a permission.
pub open spec fn permission_body(p: JsonView, ctx: JsonView, ms: int) -> JsonView {
    let event = ancli::event_of(p);
    let shell = event == "beforeShellExecution"@;
    let tool = tool_named(p, event);
    JsonView::object().with("kind"@, JsonView::Str("permission"@)).with(
        "source"@,
        JsonView::Str("cursor"@),
    ).with(
        "title"@,
        JsonView::Str(
            if shell {
                "允许执行命令？"@
            } else {
                tool + " 需要授权"@
            },
        ),
    ).with(
        "message"@,
        JsonView::Str(
            if shell {
                p.pick_text(seq!["command"])
            } else {
                Seq::empty()
            },
        ),
    ).with(
        "detail"@,
        JsonView::Str(
            if shell {
                "cwd: "@ + cwd_of(p)
            } else {
                proto::summary(input_remembered(p))
            },
        ),
    ).with(
        "permission"@,
        JsonView::object().with("tool"@, JsonView::Str(tool)).with(
            "rule"@,
            JsonView::Str(detail_text(p, event)),
        ).with("suggestions"@, JsonView::Arr(Seq::empty())).with(
            "canAlways"@,
            JsonView::Bool(true),
        ),
    ).with("context"@, ctx).with("timeoutMs"@, JsonView::Int(ms))
}

fn make_permission_body(payload: &Json, ctx: Json, ms: u64) -> (r: Json)
    ensures
        r@ == permission_body(payload@, ctx@, ms as int),
{
    let event = pick_str(payload, &["hook_event_name"]);
    let shell = same(event.as_str(), "beforeShellExecution");
    let tool = tool_of(payload, event.as_str());
    let title = if shell {
        "允许执行命令？".to_owned()
    } else {
        cat2(tool.as_str(), " 需要授权")
    };
    let message = if shell {
        pick_str(payload, &["command"])
    } else {
        String::new()
    };
    let detail = if shell {
        cat2("cwd: ", read_cwd(payload).as_str())
    } else {
        summarize_tool_input(&session_tool_input(payload))
    };
    let permission = Json::object().with("tool", Json::Str(tool)).with(
        "rule",
        Json::Str(detail_of(payload, event.as_str())),
    ).with("suggestions", empty_array()).with("canAlways", Json::Bool(true));
    Json::object().with("kind", Json::text("permission")).with("source", Json::text("cursor")).with(
        "title",
        Json::Str(title),
    ).with("message", Json::Str(message)).with("detail", Json::Str(detail)).with(
        "permission",
        permission,
    ).with("context", ctx).with("timeoutMs", Json::PosInt(ms))
}

/// The answer when a local rule covers a request. A file to be read takes the
/// permission alone.
pub open spec fn rule_answer(event: Seq<char>) -> JsonView {
    if event == "beforeReadFile"@ {
        plain("allow"@)
    } else {
        plain("allow"@).with("agent_message"@, JsonView::Str("命中番茄钟「始终允许」规则"@))
    }
}

/// What is done with an event that can be stopped: a question is asked, a rule
/// that covers the request lets it go on, else the permission is asked for.
/// Where permissions are switched off the host decides.
pub open spec fn blocking_step_of(
    p: JsonView,
    ctx: JsonView,
    rules: Seq<JsonView>,
    e: Env,
) -> StepView {
    let event = ancli::event_of(p);
    let ms = env::wait_of(e.timeout);
    if asking(p, e) {
        StepView::Interact(ask_body(p, ctx, ms), ms)
    } else if env::flag(e.permission, true) {
        if cache::rule_matches("cursor"@, tool_named(p, event), detail_text(p, event), rules, e) {
            StepView::Print(rule_answer(event))
        } else {
            StepView::Interact(permission_body(p, ctx, ms), ms)
        }
    } else {
        StepView::Print(JsonView::object())
    }
}

fn blocking_step(payload: &Json, ctx: Json, rules: &[Json], e: &Env) -> (r: Step)
    ensures
        r@ == blocking_step_of(payload@, ctx@, json::views(rules@), *e),
{
    let ms: u64 = timeout_ms(e.timeout);
    if is_asking(payload, e) {
        return Step::Interact(make_ask_body(payload, ctx, ms), ms);
    }
    if !env_flag(&e.permission, true) {
        return Step::Print(Json::object());
    }
    let event = pick_str(payload, &["hook_event_name"]);
    let tool = tool_of(payload, event.as_str());
    let detail = detail_of(payload, event.as_str());
    if local_rule_match("cursor", tool.as_str(), detail.as_str(), rules, e) {
        let allow = make_plain("allow");
        return Step::Print(
            if same(event.as_str(), "beforeReadFile") {
                allow
            } else {
                allow.with("agent_message", Json::text("命中番茄钟「始终允许」规则"))
            },
        );
    }
    Step::Interact(make_permission_body(payload, ctx, ms), ms)
}

// ---------------------------------------------------------------------------
// Other events
// ---------------------------------------------------------------------------

/// The kind under which an event that cannot be stopped is reported; empty for
/// one that is not reported.
pub open spec fn report_kind(event: Seq<char>) -> Seq<char> {
    if event == "sessionStart"@ {
        "session-start"@
    } else if event == "sessionEnd"@ {
        "session-end"@
    } else if event == "subagentStart"@ {
        "session-start"@
    } else if event == "subagentStop"@ {
        "subagent-stop"@
    } else if event == "preCompact"@ {
        "notification"@
    } else if event == "postToolUse"@ || event == "postToolUseFailure"@ || event
        == "afterShellExecution"@ || event == "afterMCPExecution"@ || event == "afterFileEdit"@
        || event == "afterAgentThought"@ {
        "tool-after"@
    } else {
        ""@
    }
}

fn kind_of(event: &str) -> (r: &'static str)
    ensures
        r@ == report_kind(event@),
{
    if same(event, "sessionStart") {
        "session-start"
    } else if same(event, "sessionEnd") {
        "session-end"
    } else if same(event, "subagentStart") {
        "session-start"
    } else if same(event, "subagentStop") {
        "subagent-stop"
    } else if same(event, "preCompact") {
        "notification"
    } else if same(event, "postToolUse") || same(event, "postToolUseFailure") || same(
        event,
        "afterShellExecution",
    ) || same(event, "afterMCPExecution") || same(event, "afterFileEdit") || same(
        event,
        "afterAgentThought",
    ) {
        "tool-after"
    } else {
        ""
    }
}

/// The report of an event that cannot be stopped.
pub open spec fn report_body(event: Seq<char>, tool: Seq<char>, ctx: JsonView) -> JsonView {
    let kind = report_kind(event);
    let body = JsonView::object().with("kind"@, JsonView::Str(kind)).with(
        "source"@,
        JsonView::Str("cursor"@),
    ).with("tool"@, JsonView::Str(tool)).with(
        "message"@,
        JsonView::Str(
            if kind == "notification"@ {
                event
            } else {
                Seq::empty()
            },
        ),
    );
    if kind == "notification"@ {
        body.with("context"@, ctx)
    } else {
        body
    }
}

/// What is done with an event that cannot be stopped. Whatever it is, the host
/// gets an answer that decides nothing.
pub open spec fn other_step_of(p: JsonView, ctx: JsonView) -> StepView {
    let event = ancli::event_of(p);
    if event == "beforeSubmitPrompt"@ {
        StepView::Print(JsonView::object().with("continue"@, JsonView::Bool(true)))
    } else if event == "stop"@ {
        StepView::Event(
            JsonView::object().with("kind"@, JsonView::Str("stop"@)).with(
                "source"@,
                JsonView::Str("cursor"@),
            ).with("context"@, ctx),
            Some(JsonView::object()),
        )
    } else if report_kind(event).len() > 0 {
        StepView::Event(report_body(event, tool_named(p, event), ctx), Some(JsonView::object()))
    } else {
        StepView::Print(JsonView::object())
    }
}

fn other_step(payload: &Json, ctx: Json) -> (r: Step)
    ensures
        r@ == other_step_of(payload@, ctx@),
{
    let event = pick_str(payload, &["hook_event_name"]);
    if same(event.as_str(), "beforeSubmitPrompt") {
        return Step::Print(Json::object().with("continue", Json::Bool(true)));
    }
    if same(event.as_str(), "stop") {
        let body = Json::object().with("kind", Json::text("stop")).with(
            "source",
            Json::text("cursor"),
        ).with("context", ctx);
        return Step::Event(body, Some(Json::object()));
    }
    let kind = kind_of(event.as_str());
    if kind.is_empty() {
        return Step::Print(Json::object());
    }
    let notification = same(kind, "notification");
    let tool = tool_of(payload, event.as_str());
    let message = if notification {
        event
    } else {
        String::new()
    };
    let body = Json::object().with("kind", Json::text(kind)).with(
        "source",
        Json::text("cursor"),
    ).with("tool", Json::Str(tool)).with("message", Json::Str(message));
    let full = if notification {
        body.with("context", ctx)
    } else {
        body
    };
    Step::Event(full, Some(Json::object()))
}

/// What is done with a payload.
pub open spec fn run_step_of(
    p: JsonView,
    session: Option<JsonView>,
    rules: Seq<JsonView>,
    e: Env,
) -> StepView {
    let ctx = shown_context(p, session);
    if blocking(ancli::event_of(p)) {
        blocking_step_of(p, ctx, rules, e)
    } else {
        other_step_of(p, ctx)
    }
}

/// What is done with a payload. `session` is what is remembered of its session,
/// `rules` are the local rules that still count.
pub fn run(payload: &Json, session: Option<&Json>, rules: &[Json], e: &Env) -> (r: Step)
    ensures
        r@ == run_step_of(payload@, json::opt_view(session), json::views(rules@), *e),
{
    let ctx = popup_context(payload, session);
    let event = pick_str(payload, &["hook_event_name"]);
    if same(event.as_str(), "preToolUse") || same(event.as_str(), "beforeMCPExecution") || same(
        event.as_str(),
        "beforeShellExecution",
    ) || same(event.as_str(), "beforeReadFile") {
        blocking_step(payload, ctx, rules, e)
    } else {
        other_step(payload, ctx)
    }
}

// ---------------------------------------------------------------------------
// Replies
// ---------------------------------------------------------------------------

/// The answer once a reply to a payload's questions is there.
pub open spec fn ask_answer_of(p: JsonView, reply: JsonView) -> JsonView {
    let words = reply.pick_text(seq!["text"]);
    match ancli::user_action(reply) {
        Some(action) if action == "submit"@ => {
            let answers = JsonView::Obj(
                proto::answer_map(
                    ancli::asked(p),
                    match reply.field("answers"@) {
                        Some(a) => a,
                        None => JsonView::Null,
                    },
                    ancli::asked(p).len() as int,
                ),
            );
            plain("allow"@).with("updated_input"@, input_remembered(p).set("answers"@, answers))
        },
        Some(action) if action == "cancel"@ || action == "deny"@ => plain("deny"@).with(
            "user_message"@,
            JsonView::Str(text::either(words, "已在番茄钟弹窗中取消"@)),
        ).with("agent_message"@, JsonView::Str(text::either(words, "用户取消了这次提问"@))),
        _ => plain("ask"@).with(
            "user_message"@,
            JsonView::Str("番茄钟未获得回答，交回 Cursor 原生提问"@),
        ),
    }
}

/// The answer once a reply to a permission request is there.
pub open spec fn permission_answer_of(event: Seq<char>, reply: JsonView) -> JsonView {
    let words = reply.pick_text(seq!["text"]);
    match ancli::user_action(reply) {
        Some(action) if action == "allow"@ || action == "allow-always"@ => if event
            == "beforeReadFile"@ {
            plain("allow"@)
        } else {
            plain("allow"@).with(
                "agent_message"@,
                JsonView::Str(text::either(words, "用户在番茄钟弹窗中允许"@)),
            )
        },
        Some(_) => if event == "beforeReadFile"@ {
            plain("deny"@)
        } else {
            plain("deny"@).with(
                "user_message"@,
                JsonView::Str(text::either(words, "已在番茄钟弹窗中拒绝"@)),
            ).with(
                "agent_message"@,
                JsonView::Str(
                    if words.len() == 0 {
                        "用户通过番茄钟弹窗拒绝"@
                    } else {
                        "用户拒绝："@ + words
                    },
                ),
            )
        },
        None => plain("ask"@).with(
            "user_message"@,
            JsonView::Str("番茄钟未获得决策，交回 Cursor 原生确认"@),
        ),
    }
}

/// The answer once a popup's reply is there.
pub open spec fn answer_of(p: JsonView, e: Env, reply: JsonView) -> JsonView {
    if asking(p, e) {
        ask_answer_of(p, reply)
    } else {
        permission_answer_of(ancli::event_of(p), reply)
    }
}

/// What comes of a popup's reply.
pub struct Answer {
    /// What is printed.
    pub output: Json,
    /// Whether the request's rule is to be added to the local rules.
    pub remember: bool,
}

fn make_ask_answer(payload: &Json, reply: &Json) -> (r: Json)
    ensures
        r@ == ask_answer_of(payload@, reply@),
{
    let words = pick_str(reply, &["text"]);
    if let Some(action) = read_action(reply) {
        if same(action.as_str(), "submit") {
            let questions = questions_from_tool_input(&tool_input_questions(payload));
            assert(json::views(questions@).len() == questions@.len());
            let nothing = Json::Null;
            let answers = match get(reply, "answers") {
                Some(a) => build_answer_map(questions.as_slice(), a),
                None => build_answer_map(questions.as_slice(), &nothing),
            };
            return make_plain("allow").with(
                "updated_input",
                session_tool_input(payload).set("answers", answers),
            );
        }
        if same(action.as_str(), "cancel") || same(action.as_str(), "deny") {
            return make_plain("deny").with(
                "user_message",
                Json::Str(first_or(words.as_str(), "已在番茄钟弹窗中取消")),
            ).with("agent_message", Json::Str(first_or(words.as_str(), "用户取消了这次提问")));
        }
    }
    make_plain("ask").with("user_message", Json::text("番茄钟未获得回答，交回 Cursor 原生提问"))
}

fn make_permission_answer(event: &str, reply: &Json) -> (r: Json)
    ensures
        r@ == permission_answer_of(event@, reply@),
{
    let words = pick_str(reply, &["text"]);
    let read_file = same(event, "beforeReadFile");
    let action = match read_action(reply) {
        Some(a) => a,
        None => return make_plain("ask").with(
            "user_message",
            Json::text("番茄钟未获得决策，交回 Cursor 原生确认"),
        ),
    };
    if same(action.as_str(), "allow") || same(action.as_str(), "allow-always") {
        let allow = make_plain("allow");
        if read_file {
            allow
        } else {
            allow.with("agent_message", Json::Str(first_or(words.as_str(), "用户在番茄钟弹窗中允许")))
        }
    } else {
        let deny = make_plain("deny");
        if read_file {
            deny
        } else {
            let told = if words.as_str().is_empty() {
                "用户通过番茄钟弹窗拒绝".to_owned()
            } else {
                cat2("用户拒绝：", words.as_str())
            };
            deny.with("user_message", Json::Str(first_or(words.as_str(), "已在番茄钟弹窗中拒绝"))).with(
                "agent_message",
                Json::Str(told),
            )
        }
    }
}

/// What comes of a popup's reply.
pub fn answer(payload: &Json, e: &Env, reply: &Json) -> (r: Answer)
    ensures
        r.output@ == answer_of(payload@, *e, reply@),
        r.remember == (!asking(payload@, *e) && ancli::user_action(reply@) == Some(
            "allow-always"@,
        )),
{
    if is_asking(payload, e) {
        return Answer { output: make_ask_answer(payload, reply), remember: false };
    }
    let event = pick_str(payload, &["hook_event_name"]);
    let remember = match read_action(reply) {
        Some(a) => same(a.as_str(), "allow-always"),
        None => false,
    };
    Answer { output: make_permission_answer(event.as_str(), reply), remember }
}

// ---------------------------------------------------------------------------
// Laws
// ---------------------------------------------------------------------------

/// Without a decision by the user the request goes back to Cursor's own
/// confirmation: the popup neither allows nor refuses it.
pub proof fn law_undecided_goes_back_to_cursor(p: JsonView, e: Env, reply: JsonView)
    requires
        reply.pick_text(seq!["decidedBy"]) != "user"@,
    ensures
        answer_of(p, e, reply).field("permission"@) == Some(JsonView::Str("ask"@)),
{
    broadcast use crate::json::group_fields;

}

/// Every payload is answered: no step leaves the host without output.
pub proof fn law_cursor_always_gets_an_answer(
    p: JsonView,
    session: Option<JsonView>,
    rules: Seq<JsonView>,
    e: Env,
)
    ensures
        match run_step_of(p, session, rules, e) {
            StepView::Silent => false,
            StepView::Event(_, output) => output is Some,
            _ => true,
        },
{
}

/// A file to be read is answered with the permission and nothing else, once the
/// user decided.
pub proof fn law_read_file_takes_the_permission_alone(reply: JsonView)
    requires
        reply.pick_text(seq!["decidedBy"]) == "user"@,
    ensures
        permission_answer_of("beforeReadFile"@, reply).members().len() == 1,
{
}

// ---------------------------------------------------------------------------
// What Cursor is told, word for word
// ---------------------------------------------------------------------------

/// The user's answers let the tool go on, in its input as it was; a question that is
/// cancelled or refused stops it, with the user's words.
pub proof fn law_cursor_gets_the_users_answers(
    p: JsonView,
    e: Env,
    reply: JsonView,
    input: JsonView,
    words: Seq<char>,
    key: Seq<char>,
)
    requires
        asking(p, e),
        p.field("tool_input"@) == Some(input),
        input is Obj,
        reply.field("text"@) == Some(JsonView::Str(words)),
    ensures
        ancli::chosen(reply, "submit"@) ==> {
            let out = answer_of(p, e, reply);
            &&& out.field("permission"@) == Some(JsonView::Str("allow"@))
            &&& out.field("updated_input"@) matches Some(u)
            &&& u.field("answers"@) matches Some(JsonView::Obj(_))
            &&& key != "answers"@ ==> u.field(key) == input.field(key)
        },
        ancli::chosen(reply, "cancel"@) || ancli::chosen(reply, "deny"@) ==> {
            let out = answer_of(p, e, reply);
            &&& out.field("permission"@) == Some(JsonView::Str("deny"@))
            &&& out.field("updated_input"@) is None
            &&& words.len() > 0 ==> out.field("user_message"@) == Some(JsonView::Str(words))
                && out.field("agent_message"@) == Some(JsonView::Str(words))
            &&& words.len() == 0 ==> out.field("user_message"@) == Some(
                JsonView::Str("已在番茄钟弹窗中取消"@),
            ) && out.field("agent_message"@) == Some(JsonView::Str("用户取消了这次提问"@))
        },
{
    broadcast use crate::json::group_fields;

    ancli::lemma_words_differ();
    json::lemma_picked(reply, "text", JsonView::Str(words));
    json::lemma_picked(p, "tool_input", input);
    if ancli::chosen(reply, "submit"@) {
        ancli::lemma_chosen(reply, "submit"@);
    }
    if ancli::chosen(reply, "cancel"@) {
        ancli::lemma_chosen(reply, "cancel"@);
    }
    if ancli::chosen(reply, "deny"@) {
        ancli::lemma_chosen(reply, "deny"@);
    }
    reveal_strlit("permission");
    reveal_strlit("updated_input");
    reveal_strlit("user_message");
    reveal_strlit("agent_message");
    reveal_strlit("answers");
    assert("permission"@.len() == 10);
    assert("updated_input"@.len() == 13);
    assert("user_message"@.len() == 12);
    assert("agent_message"@.len() == 13);
    assert("answers"@.len() == 7);
    assert("updated_input"@[0] == 'u');
    assert("agent_message"@[0] == 'a');
}

/// The answers that Cursor gets are the user's, each under the words of its question.
pub proof fn law_cursor_gets_each_answer_under_its_question(
    p: JsonView,
    e: Env,
    reply: JsonView,
    answers: JsonView,
    i: int,
)
    requires
        asking(p, e),
        ancli::chosen(reply, "submit"@),
        reply.field("answers"@) == Some(answers),
        0 <= i < ancli::asked(p).len(),
        forall|j: int, k: int|
            0 <= j < k < ancli::asked(p).len() ==> (#[trigger] ancli::asked(p)[j]).pick_text(
                seq!["question"],
            ) != (#[trigger] ancli::asked(p)[k]).pick_text(seq!["question"]),
    ensures
        answer_of(p, e, reply).field("updated_input"@) matches Some(u) && (u.field(
            "answers"@,
        ) matches Some(a) && a.field(ancli::asked(p)[i].pick_text(seq!["question"]))
            == proto::answer_to(ancli::asked(p)[i], answers)),
{
    broadcast use crate::json::group_fields;

    ancli::lemma_chosen(reply, "submit"@);
    proto::law_answers_go_under_their_questions(
        ancli::asked(p),
        answers,
        ancli::asked(p).len() as int,
        i,
    );
    reveal_strlit("permission");
    reveal_strlit("updated_input");
    reveal_strlit("answers");
    assert("permission"@.len() == 10);
    assert("updated_input"@.len() == 13);
    assert("answers"@.len() == 7);
}

/// A permission that the user grants, once or for good, is granted to Cursor, and one
/// that is refused is refused, with the user's words where Cursor takes any.
pub proof fn law_cursor_gets_the_users_verdict(
    p: JsonView,
    e: Env,
    reply: JsonView,
    event: Seq<char>,
    words: Seq<char>,
)
    requires
        p.field("hook_event_name"@) == Some(JsonView::Str(event)),
        !asking(p, e),
        reply.field("text"@) == Some(JsonView::Str(words)),
    ensures
        ancli::chosen(reply, "allow"@) || ancli::chosen(reply, "allow-always"@) ==> {
            let out = answer_of(p, e, reply);
            &&& out.field("permission"@) == Some(JsonView::Str("allow"@))
            &&& event != "beforeReadFile"@ && words.len() > 0 ==> out.field("agent_message"@)
                == Some(JsonView::Str(words))
            &&& event != "beforeReadFile"@ && words.len() == 0 ==> out.field("agent_message"@)
                == Some(JsonView::Str("用户在番茄钟弹窗中允许"@))
        },
        ancli::chosen(reply, "deny"@) ==> {
            let out = answer_of(p, e, reply);
            &&& out.field("permission"@) == Some(JsonView::Str("deny"@))
            &&& event != "beforeReadFile"@ && words.len() > 0 ==> out.field("user_message"@)
                == Some(JsonView::Str(words)) && out.field("agent_message"@) == Some(
                JsonView::Str("用户拒绝："@ + words),
            )
            &&& event != "beforeReadFile"@ && words.len() == 0 ==> out.field("user_message"@)
                == Some(JsonView::Str("已在番茄钟弹窗中拒绝"@)) && out.field("agent_message"@)
                == Some(JsonView::Str("用户通过番茄钟弹窗拒绝"@))
        },
{
    broadcast use crate::json::group_fields;

    ancli::lemma_words_differ();
    json::lemma_picked(p, "hook_event_name", JsonView::Str(event));
    json::lemma_picked(reply, "text", JsonView::Str(words));
    if ancli::chosen(reply, "allow"@) {
        ancli::lemma_chosen(reply, "allow"@);
    }
    if ancli::chosen(reply, "allow-always"@) {
        ancli::lemma_chosen(reply, "allow-always"@);
    }
    if ancli::chosen(reply, "deny"@) {
        ancli::lemma_chosen(reply, "deny"@);
    }
    reveal_strlit("permission");
    reveal_strlit("user_message");
    reveal_strlit("agent_message");
    assert("permission"@.len() == 10);
    assert("user_message"@.len() == 12);
    assert("agent_message"@.len() == 13);
}

/// Where nobody decides, Cursor asks by itself, and says why.
pub proof fn law_cursor_asks_by_itself(p: JsonView, e: Env, reply: JsonView, by: Seq<char>)
    requires
        reply.field("decidedBy"@) == Some(JsonView::Str(by)),
        by != "user"@,
    ensures
        answer_of(p, e, reply).field("permission"@) == Some(JsonView::Str("ask"@)),
        asking(p, e) ==> answer_of(p, e, reply).field("user_message"@) == Some(
            JsonView::Str("番茄钟未获得回答，交回 Cursor 原生提问"@),
        ),
        !asking(p, e) ==> answer_of(p, e, reply).field("user_message"@) == Some(
            JsonView::Str("番茄钟未获得决策，交回 Cursor 原生确认"@),
        ),
{
    broadcast use crate::json::group_fields;

    json::lemma_picked(reply, "decidedBy", JsonView::Str(by));
    reveal_strlit("permission");
    reveal_strlit("user_message");
    assert("permission"@.len() == 10);
    assert("user_message"@.len() == 12);
}

/// Four events wait for a permission: before a tool, a command, a tool of another
/// server or a file is used. Each goes to the user, unless it is a question, or a
/// local rule covers it and lets it go on at once, or permissions are switched off
/// and Cursor is told nothing.
pub proof fn law_four_events_wait_for_a_permission(
    p: JsonView,
    session: Option<JsonView>,
    rules: Seq<JsonView>,
    e: Env,
    event: Seq<char>,
)
    requires
        p.field("hook_event_name"@) == Some(JsonView::Str(event)),
        event == "preToolUse"@ || event == "beforeMCPExecution"@ || event == "beforeShellExecution"@
            || event == "beforeReadFile"@,
    ensures
        ({
            let covered = cache::rule_matches(
                "cursor"@,
                tool_named(p, event),
                detail_text(p, event),
                rules,
                e,
            );
            let done = run_step_of(p, session, rules, e);
            &&& asking(p, e) ==> (done matches StepView::Interact(b, ms) && ms == env::wait_of(
                e.timeout,
            ) && b.field("kind"@) == Some(JsonView::Str("ask"@)) && b.field("source"@) == Some(
                JsonView::Str("cursor"@),
            ) && b.items("questions"@) == ancli::asked(p) && b.field("timeoutMs"@) == Some(
                JsonView::Int(ms),
            ))
            &&& !asking(p, e) && e.permission is None && !covered ==> (
            done matches StepView::Interact(b, ms) && ms == env::wait_of(e.timeout) && b.field(
                "kind"@,
            ) == Some(JsonView::Str("permission"@)) && b.field("source"@) == Some(
                JsonView::Str("cursor"@),
            ) && b.field("timeoutMs"@) == Some(JsonView::Int(ms)) && (b.field(
                "permission"@,
            ) matches Some(a) && a.field("tool"@) == Some(JsonView::Str(tool_named(p, event)))
                && a.field("rule"@) == Some(JsonView::Str(detail_text(p, event))) && a.field(
                "canAlways"@,
            ) == Some(JsonView::Bool(true))))
            &&& !asking(p, e) && e.permission is None && covered ==> (done matches StepView::Print(o)
                && o.field("permission"@) == Some(JsonView::Str("allow"@)))
            &&& !asking(p, e) && (e.permission matches Some(v) && v@ == "0"@) ==> done
                == StepView::Print(JsonView::Obj(Seq::empty()))
        }),
{
    broadcast use crate::json::group_fields;

    json::lemma_picked(p, "hook_event_name", JsonView::Str(event));
    if let Some(v) = e.permission {
        env::law_four_words_switch_off(v, true);
    }
    reveal_strlit("kind");
    reveal_strlit("source");
    reveal_strlit("title");
    reveal_strlit("message");
    reveal_strlit("detail");
    reveal_strlit("permission");
    reveal_strlit("questions");
    reveal_strlit("context");
    reveal_strlit("timeoutMs");
    reveal_strlit("tool");
    reveal_strlit("rule");
    reveal_strlit("suggestions");
    reveal_strlit("canAlways");
    reveal_strlit("agent_message");
    assert("kind"@.len() == 4);
    assert("source"@.len() == 6);
    assert("title"@.len() == 5);
    assert("message"@.len() == 7);
    assert("detail"@.len() == 6);
    assert("permission"@.len() == 10);
    assert("questions"@.len() == 9);
    assert("context"@.len() == 7);
    assert("timeoutMs"@.len() == 9);
    assert("tool"@.len() == 4);
    assert("rule"@.len() == 4);
    assert("suggestions"@.len() == 11);
    assert("canAlways"@.len() == 9);
    assert("agent_message"@.len() == 13);
    assert("kind"@[0] == 'k');
    assert("source"@[0] == 's');
    assert("message"@[0] == 'm');
    assert("detail"@[0] == 'd');
    assert("questions"@[0] == 'q');
    assert("context"@[0] == 'c');
    assert("timeoutMs"@[0] == 't');
    assert("tool"@[0] == 't');
    assert("rule"@[0] == 'r');
    assert("canAlways"@[0] == 'c');
}

/// What is asked for before a command is the command, before a file is read the file.
pub proof fn law_what_cursor_asks_for(p: JsonView, event: Seq<char>, said: Seq<char>)
    requires
        said.len() > 0,
    ensures
        tool_named(p, "beforeShellExecution"@) == "Shell"@,
        tool_named(p, "beforeReadFile"@) == "Read"@,
        event != "beforeShellExecution"@ && event != "beforeReadFile"@ && p.field("tool_name"@)
            == Some(JsonView::Str(said)) ==> tool_named(p, event) == said,
        p.field("command"@) == Some(JsonView::Str(said)) ==> detail_text(p, "beforeShellExecution"@)
            == text::collapsed(said, 160),
        p.field("file_path"@) == Some(JsonView::Str(said)) ==> detail_text(p, "beforeReadFile"@)
            == text::collapsed(said, 160),
{
    reveal_strlit("beforeShellExecution");
    reveal_strlit("beforeReadFile");
    assert("beforeShellExecution"@.len() == 20);
    assert("beforeReadFile"@.len() == 14);
    let keys: Seq<&str> = seq!["tool_name", "tool", "name"];
    assert(keys[0]@ == "tool_name"@);
    if p.field("tool_name"@) == Some(JsonView::Str(said)) {
        json::law_the_first_name_counts(p, keys, 0);
    }
    if p.field("command"@) == Some(JsonView::Str(said)) {
        json::lemma_picked(p, "command", JsonView::Str(said));
    }
    if p.field("file_path"@) == Some(JsonView::Str(said)) {
        json::lemma_picked(p, "file_path", JsonView::Str(said));
    }
}

/// Every other event is reported as what it is, if it is, and answered with nothing;
/// a prompt is let through.
pub proof fn law_cursors_events_are_reported_as_what_they_are(
    p: JsonView,
    session: Option<JsonView>,
    rules: Seq<JsonView>,
    e: Env,
    event: Seq<char>,
)
    requires
        p.field("hook_event_name"@) == Some(JsonView::Str(event)),
        event != "preToolUse"@,
        event != "beforeMCPExecution"@,
        event != "beforeShellExecution"@,
        event != "beforeReadFile"@,
    ensures
        ({
            let done = run_step_of(p, session, rules, e);
            let kind = if event == "stop"@ {
                "stop"@
            } else if event == "sessionStart"@ || event == "subagentStart"@ {
                "session-start"@
            } else if event == "sessionEnd"@ {
                "session-end"@
            } else if event == "subagentStop"@ {
                "subagent-stop"@
            } else if event == "preCompact"@ {
                "notification"@
            } else if event == "postToolUse"@ || event == "postToolUseFailure"@ || event
                == "afterShellExecution"@ || event == "afterMCPExecution"@ || event
                == "afterFileEdit"@ || event == "afterAgentThought"@ {
                "tool-after"@
            } else {
                ""@
            };
            &&& event == "beforeSubmitPrompt"@ ==> (done matches StepView::Print(o) && o.field(
                "continue"@,
            ) == Some(JsonView::Bool(true)))
            &&& event != "beforeSubmitPrompt"@ && kind == ""@ ==> done == StepView::Print(
                JsonView::Obj(Seq::empty()),
            )
            &&& event != "beforeSubmitPrompt"@ && kind != ""@ ==> (done matches StepView::Event(
                b,
                Some(o),
            ) && o == JsonView::Obj(Seq::empty()) && b.field("kind"@) == Some(JsonView::Str(kind))
                && b.field("source"@) == Some(JsonView::Str("cursor"@)))
        }),
{
    broadcast use crate::json::group_fields;

    json::lemma_picked(p, "hook_event_name", JsonView::Str(event));
    reveal_strlit("");
    assert(""@.len() == 0);
    reveal_strlit("kind");
    reveal_strlit("source");
    reveal_strlit("tool");
    reveal_strlit("message");
    reveal_strlit("context");
    reveal_strlit("continue");
    assert("kind"@.len() == 4);
    assert("source"@.len() == 6);
    assert("tool"@.len() == 4);
    assert("message"@.len() == 7);
    assert("context"@.len() == 7);
    assert("continue"@.len() == 8);
    assert("kind"@[0] == 'k');
    assert("tool"@[0] == 't');
    assert("message"@[0] == 'm');
    assert("context"@[0] == 'c');
    reveal_strlit("stop");
    reveal_strlit("session-start");
    reveal_strlit("session-end");
    reveal_strlit("subagent-stop");
    reveal_strlit("notification");
    reveal_strlit("tool-after");
    assert("stop"@.len() == 4);
    assert("session-start"@.len() == 13);
    assert("session-end"@.len() == 11);
    assert("subagent-stop"@.len() == 13);
    assert("notification"@.len() == 12);
    assert("tool-after"@.len() == 10);
    assert("session-start"@[1] == 'e');
    assert("subagent-stop"@[1] == 'u');
    reveal_strlit("beforeSubmitPrompt");
    reveal_strlit("stop");
    reveal_strlit("sessionStart");
    reveal_strlit("subagentStart");
    reveal_strlit("sessionEnd");
    reveal_strlit("subagentStop");
    reveal_strlit("preCompact");
    reveal_strlit("postToolUse");
    reveal_strlit("postToolUseFailure");
    reveal_strlit("afterShellExecution");
    reveal_strlit("afterMCPExecution");
    reveal_strlit("afterFileEdit");
    reveal_strlit("afterAgentThought");
    assert("beforeSubmitPrompt"@.len() == 18);
    assert("stop"@.len() == 4);
    assert("sessionStart"@.len() == 12);
    assert("subagentStart"@.len() == 13);
    assert("sessionEnd"@.len() == 10);
    assert("subagentStop"@.len() == 12);
    assert("preCompact"@.len() == 10);
    assert("postToolUse"@.len() == 11);
    assert("postToolUseFailure"@.len() == 18);
    assert("afterShellExecution"@.len() == 19);
    assert("afterMCPExecution"@.len() == 17);
    assert("afterFileEdit"@.len() == 13);
    assert("afterAgentThought"@.len() == 17);
    assert("beforeSubmitPrompt"@[0] == 'b');
    assert("sessionStart"@[1] == 'e');
    assert("subagentStart"@[0] == 's');
    assert("sessionEnd"@[0] == 's');
    assert("subagentStop"@[1] == 'u');
    assert("preCompact"@[0] == 'p');
    assert("postToolUseFailure"@[0] == 'p');
    assert("afterMCPExecution"@[5] == 'M');
    assert("afterFileEdit"@[0] == 'a');
    assert("afterAgentThought"@[5] == 'A');
}

/// Each of Cursor's events counts, for what is remembered of a session, as the event
/// of the lead host that stands for the same.
pub proof fn law_what_cursors_events_stand_for()
    ensures
        alias_of("beforeShellExecution"@) == "PreToolUse"@,
        alias_of("beforeMCPExecution"@) == "PreToolUse"@,
        alias_of("beforeReadFile"@) == "PreToolUse"@,
        alias_of("preToolUse"@) == "PreToolUse"@,
        alias_of("afterShellExecution"@) == "PostToolUse"@,
        alias_of("afterMCPExecution"@) == "PostToolUse"@,
        alias_of("afterFileEdit"@) == "PostToolUse"@,
        alias_of("postToolUse"@) == "PostToolUse"@,
        alias_of("afterAgentThought"@) == "PostToolUse"@,
        alias_of("postToolUseFailure"@) == "PostToolUseFailure"@,
        alias_of("beforeSubmitPrompt"@) == "UserPromptSubmit"@,
        alias_of("sessionStart"@) == "SessionStart"@,
        alias_of("sessionEnd"@) == "SessionEnd"@,
        alias_of("subagentStart"@) == "SubagentStart"@,
        alias_of("subagentStop"@) == "SubagentStop"@,
        alias_of("stop"@) == "Stop"@,
        alias_of("preCompact"@) == "PreCompact"@,
        alias_of("afterAgentResponse"@) == "Stop"@,
{
    reveal_strlit("beforeShellExecution");
    reveal_strlit("beforeMCPExecution");
    reveal_strlit("beforeReadFile");
    reveal_strlit("preToolUse");
    reveal_strlit("afterShellExecution");
    reveal_strlit("afterMCPExecution");
    reveal_strlit("afterFileEdit");
    reveal_strlit("postToolUse");
    reveal_strlit("afterAgentThought");
    reveal_strlit("postToolUseFailure");
    reveal_strlit("beforeSubmitPrompt");
    reveal_strlit("sessionStart");
    reveal_strlit("sessionEnd");
    reveal_strlit("subagentStart");
    reveal_strlit("subagentStop");
    reveal_strlit("stop");
    reveal_strlit("preCompact");
    reveal_strlit("afterAgentResponse");
    assert("beforeShellExecution"@.len() == 20);
    assert("beforeMCPExecution"@.len() == 18);
    assert("beforeReadFile"@.len() == 14);
    assert("preToolUse"@.len() == 10);
    assert("afterShellExecution"@.len() == 19);
    assert("afterMCPExecution"@.len() == 17);
    assert("afterFileEdit"@.len() == 13);
    assert("postToolUse"@.len() == 11);
    assert("afterAgentThought"@.len() == 17);
    assert("postToolUseFailure"@.len() == 18);
    assert("beforeSubmitPrompt"@.len() == 18);
    assert("sessionStart"@.len() == 12);
    assert("sessionEnd"@.len() == 10);
    assert("subagentStart"@.len() == 13);
    assert("subagentStop"@.len() == 12);
    assert("stop"@.len() == 4);
    assert("preCompact"@.len() == 10);
    assert("afterAgentResponse"@.len() == 18);
    assert("beforeMCPExecution"@[0] == 'b');
    assert("beforeMCPExecution"@[6] == 'M');
    assert("preToolUse"@[0] == 'p');
    assert("preToolUse"@[3] == 'T');
    assert("afterMCPExecution"@[5] == 'M');
    assert("afterFileEdit"@[0] == 'a');
    assert("afterAgentThought"@[5] == 'A');
    assert("postToolUseFailure"@[0] == 'p');
    assert("beforeSubmitPrompt"@[0] == 'b');
    assert("beforeSubmitPrompt"@[6] == 'S');
    assert("sessionStart"@[1] == 'e');
    assert("sessionEnd"@[0] == 's');
    assert("subagentStart"@[0] == 's');
    assert("subagentStop"@[1] == 'u');
    assert("preCompact"@[0] == 'p');
    assert("preCompact"@[3] == 'C');
    assert("afterAgentResponse"@[0] == 'a');
}

/// What is remembered of a payload of Cursor's is told in the lead host's words: the
/// conversation, the directory, the prompt and the tool.
pub proof fn law_what_is_remembered_of_cursor(p: JsonView, event: Seq<char>, s: Seq<char>)
    requires
        s.len() > 0,
        p.field("hook_event_name"@) == Some(JsonView::Str(event)),
    ensures
        p.field("conversation_id"@) == Some(JsonView::Str(s)) ==> common_payload(p).field(
            "session_id"@,
        ) == Some(JsonView::Str(s)),
        p.field("cwd"@) == Some(JsonView::Str(s)) ==> common_payload(p).field("cwd"@) == Some(
            JsonView::Str(s),
        ),
        p.field("prompt"@) == Some(JsonView::Str(s)) ==> common_payload(p).field("prompt"@) == Some(
            JsonView::Str(s),
        ),
        p.field("text"@) == Some(JsonView::Str(s)) ==> common_payload(p).field(
            "last_assistant_message"@,
        ) == Some(JsonView::Str(s)),
        common_payload(p).field("tool_name"@) == Some(JsonView::Str(tool_named(p, event))),
        p.field("tool_input"@) is None && p.field("command"@) == Some(JsonView::Str(s)) ==> (
        common_payload(p).field("tool_input"@) matches Some(i) && i.field("command"@) == Some(
            JsonView::Str(s),
        )),
{
    broadcast use crate::json::group_fields;

    json::lemma_picked(p, "hook_event_name", JsonView::Str(event));
    let keys: Seq<&str> = seq!["conversation_id", "generation_id"];
    assert(keys[0]@ == "conversation_id"@);
    if p.field("conversation_id"@) == Some(JsonView::Str(s)) {
        json::law_the_first_name_counts(p, keys, 0);
    }
    if p.field("cwd"@) == Some(JsonView::Str(s)) {
        json::lemma_picked(p, "cwd", JsonView::Str(s));
    }
    if p.field("prompt"@) == Some(JsonView::Str(s)) {
        json::lemma_picked(p, "prompt", JsonView::Str(s));
    }
    if p.field("text"@) == Some(JsonView::Str(s)) {
        json::lemma_picked(p, "text", JsonView::Str(s));
    }
    if p.field("tool_input"@) is None {
        json::lemma_unpicked(p, "tool_input");
    }
    if p.field("command"@) == Some(JsonView::Str(s)) {
        json::lemma_picked(p, "command", JsonView::Str(s));
    }
    reveal_strlit("session_id");
    reveal_strlit("cwd");
    reveal_strlit("agent_type");
    reveal_strlit("prompt");
    reveal_strlit("tool_name");
    reveal_strlit("tool_input");
    reveal_strlit("last_assistant_message");
    assert("session_id"@.len() == 10);
    assert("cwd"@.len() == 3);
    assert("agent_type"@.len() == 10);
    assert("prompt"@.len() == 6);
    assert("tool_name"@.len() == 9);
    assert("tool_input"@.len() == 10);
    assert("last_assistant_message"@.len() == 22);
    assert("session_id"@[0] == 's');
    assert("agent_type"@[0] == 'a');
    assert("tool_input"@[0] == 't');
}

/// A shell command is asked for as such, with the directory that it runs in; any other
/// tool by its name.
pub proof fn law_how_cursors_requests_are_titled(p: JsonView, ctx: JsonView, ms: int)
    ensures
        ({
            let b = permission_body(p, ctx, ms);
            let event = ancli::event_of(p);
            &&& event == "beforeShellExecution"@ ==> b.field("title"@) == Some(
                JsonView::Str("允许执行命令？"@),
            ) && b.field("detail"@) == Some(JsonView::Str("cwd: "@ + cwd_of(p)))
            &&& event == "beforeReadFile"@ ==> b.field("title"@) == Some(
                JsonView::Str("Read"@ + " 需要授权"@),
            )
            &&& event != "beforeShellExecution"@ ==> b.field("message"@) == Some(
                JsonView::Str(Seq::empty()),
            )
            &&& b.field("permission"@) matches Some(a) && a.field("suggestions"@) == Some(
                JsonView::Arr(Seq::empty()),
            )
            &&& b.field("context"@) == Some(ctx)
            &&& b.field("timeoutMs"@) == Some(JsonView::Int(ms))
        }),
{
    broadcast use crate::json::group_fields;

    reveal_strlit("beforeShellExecution");
    reveal_strlit("beforeReadFile");
    assert("beforeShellExecution"@.len() == 20);
    assert("beforeReadFile"@.len() == 14);
    reveal_strlit("kind");
    reveal_strlit("source");
    reveal_strlit("title");
    reveal_strlit("message");
    reveal_strlit("detail");
    reveal_strlit("permission");
    reveal_strlit("context");
    reveal_strlit("timeoutMs");
    assert("kind"@.len() == 4);
    assert("source"@.len() == 6);
    assert("title"@.len() == 5);
    assert("message"@.len() == 7);
    assert("detail"@.len() == 6);
    assert("permission"@.len() == 10);
    assert("context"@.len() == 7);
    assert("timeoutMs"@.len() == 9);
    assert("source"@[0] == 's');
    assert("message"@[0] == 'm');
    assert("detail"@[0] == 'd');
    assert("context"@[0] == 'c');
    reveal_strlit("tool");
    reveal_strlit("rule");
    reveal_strlit("suggestions");
    reveal_strlit("canAlways");
    assert("tool"@.len() == 4);
    assert("rule"@.len() == 4);
    assert("suggestions"@.len() == 11);
    assert("canAlways"@.len() == 9);
    assert("tool"@[0] == 't');
    assert("rule"@[0] == 'r');
}

/// A session is known by the conversation, else by what is generated in it, and an agent
/// by either of its names.
pub proof fn law_cursors_other_names(p: JsonView, s: Seq<char>)
    requires
        s.len() > 0,
    ensures
        p.field("conversation_id"@) is None && p.field("generation_id"@) == Some(JsonView::Str(s))
            ==> common_payload(p).field("session_id"@) == Some(JsonView::Str(s)),
        p.field("subagent_type"@) == Some(JsonView::Str(s)) ==> common_payload(p).field(
            "agent_type"@,
        ) == Some(JsonView::Str(s)),
        p.field("subagent_type"@) is None && p.field("subagent"@) == Some(JsonView::Str(s))
            ==> common_payload(p).field("agent_type"@) == Some(JsonView::Str(s)),
        p.field("tool_input"@) is None ==> detail_input(p) == p.field("toolInput"@),
{
    broadcast use crate::json::group_fields;

    let ids: Seq<&str> = seq!["conversation_id", "generation_id"];
    assert(ids[0]@ == "conversation_id"@ && ids[1]@ == "generation_id"@);
    if p.field("conversation_id"@) is None && p.field("generation_id"@) == Some(JsonView::Str(s)) {
        json::law_the_first_name_counts(p, ids, 1);
    }
    let agents: Seq<&str> = seq!["subagent_type", "subagent"];
    assert(agents[0]@ == "subagent_type"@ && agents[1]@ == "subagent"@);
    if p.field("subagent_type"@) == Some(JsonView::Str(s)) {
        json::law_the_first_name_counts(p, agents, 0);
    }
    if p.field("subagent_type"@) is None && p.field("subagent"@) == Some(JsonView::Str(s)) {
        json::law_the_first_name_counts(p, agents, 1);
    }
    reveal_strlit("session_id");
    reveal_strlit("cwd");
    reveal_strlit("agent_type");
    reveal_strlit("prompt");
    reveal_strlit("tool_name");
    reveal_strlit("tool_input");
    reveal_strlit("last_assistant_message");
    assert("session_id"@.len() == 10);
    assert("cwd"@.len() == 3);
    assert("agent_type"@.len() == 10);
    assert("prompt"@.len() == 6);
    assert("tool_name"@.len() == 9);
    assert("tool_input"@.len() == 10);
    assert("last_assistant_message"@.len() == 22);
    assert("session_id"@[0] == 's');
    assert("agent_type"@[0] == 'a');
    assert("tool_input"@[0] == 't');
}

/// What a rule covers is allowed; the reason is said but to a reader of files, which
/// takes none.
pub proof fn law_cursor_is_told_of_the_rule(event: Seq<char>)
    ensures
        rule_answer(event).field("permission"@) == Some(JsonView::Str("allow"@)),
        event != "beforeReadFile"@ ==> rule_answer(event).field("agent_message"@) == Some(
            JsonView::Str("命中番茄钟「始终允许」规则"@),
        ),
        event == "beforeReadFile"@ ==> rule_answer(event).field("agent_message"@) is None,
{
    broadcast use crate::json::group_fields;

    reveal_strlit("permission");
    reveal_strlit("agent_message");
    assert("permission"@.len() == 10);
    assert("agent_message"@.len() == 13);
}

/// Where Cursor names no directory, the first root of its workspace is one.
pub proof fn law_where_cursor_runs(p: JsonView, s: Seq<char>, roots: Seq<JsonView>)
    requires
        s.len() > 0,
        p.field("cwd"@) is None,
        p.field("workspace_roots"@) == Some(JsonView::Arr(roots)),
        roots.len() > 0,
        roots[0] == JsonView::Str(s),
    ensures
        cwd_of(p) == s,
{
    json::lemma_unpicked(p, "cwd");
}

/// A question of Cursor's is shown as one, with its context but for the detail of a tool;
/// a permission with what its tool is about to do.
pub proof fn law_what_cursors_popups_show(
    p: JsonView,
    ctx: JsonView,
    ms: int,
    session: Option<JsonView>,
)
    ensures
        ask_body(p, ctx, ms).field("title"@) == Some(JsonView::Str("Agent 提问"@)),
        ask_body(p, ctx, ms).field("questions"@) == Some(JsonView::Arr(ancli::asked(p))),
        ask_body(p, ctx, ms).field("timeoutMs"@) == Some(JsonView::Int(ms)),
        ctx is Obj ==> (ask_body(p, ctx, ms).field("context"@) matches Some(c) && c.field(
            "toolDetail"@,
        ) == Some(JsonView::Str(Seq::empty())) && c.field("task"@) == ctx.field("task"@)),
        shown_context(p, session).field("toolDetail"@) == Some(
            JsonView::Str(detail_text(p, ancli::event_of(p))),
        ),
{
    broadcast use crate::json::group_fields;

    reveal_strlit("kind");
    reveal_strlit("source");
    reveal_strlit("title");
    reveal_strlit("message");
    reveal_strlit("questions");
    reveal_strlit("context");
    reveal_strlit("timeoutMs");
    assert("kind"@.len() == 4);
    assert("source"@.len() == 6);
    assert("title"@.len() == 5);
    assert("message"@.len() == 7);
    assert("questions"@.len() == 9);
    assert("context"@.len() == 7);
    assert("timeoutMs"@.len() == 9);
    assert("message"@[0] == 'm');
    assert("questions"@[0] == 'q');
    assert("context"@[0] == 'c');
    assert("timeoutMs"@[0] == 't');
    reveal_strlit("toolDetail");
    reveal_strlit("tool");
    reveal_strlit("task");
    assert("toolDetail"@.len() == 10);
    assert("tool"@.len() == 4);
    assert("task"@.len() == 4);
    assert("tool"@[1] == 'o');
    assert("task"@[1] == 'a');
}

} // verus!
