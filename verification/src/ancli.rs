//! The hosts that speak the lead host's protocol: the lead host, ZCode, VS Code
//! Copilot, Qwen Code, Trae and Codex.

use vstd::prelude::*;
use crate::cache;
use crate::cache::local_rule_match;
use crate::env;
use crate::env::{env_flag, env_str, timeout_ms, Env};
use crate::json;
use crate::json::{arr, copy_all, get, is_truthy, pick, pick_str, Json, JsonView};
use crate::proto;
use crate::proto::{build_answer_map, build_permission_updates, format_answer_map, is_ask_tool};
use crate::proto::{is_permission_event_only, questions_from_tool_input, rule_content_for};
use crate::proto::{summarize_tool_input, tool_input_questions};
use crate::session;
use crate::step;
use crate::step::{print_or_silent, Step, StepView};
use crate::text;
use crate::text::{cat2, cat3, collapse, decimal, first_or, same, to_lower};

verus! {

broadcast use crate::json::group_json;

/// Where a payload goes.
#[derive(Clone, Copy, PartialEq, Eq, Structural, Debug)]
pub enum Route {
    /// A question to the user.
    Ask,
    /// A request for a permission.
    Permission,
    /// Anything else, which is at most reported.
    Report,
}

/// The name of a payload's event.
pub open spec fn event_of(p: JsonView) -> Seq<char> {
    p.pick_text(seq!["hook_event_name"])
}

/// Where a payload goes: questions first, unless they are switched off, then
/// permission requests, unless these are.
pub open spec fn route_of(p: JsonView, e: Env) -> Route {
    if proto::asks(p) && env::flag(e.ask, true) {
        Route::Ask
    } else if event_of(p) == "PermissionRequest"@ && env::flag(e.permission, true) {
        Route::Permission
    } else {
        Route::Report
    }
}

/// Finds where a payload goes.
pub fn route(payload: &Json, e: &Env) -> (r: Route)
    ensures
        r == route_of(payload@, *e),
{
    if is_ask_tool(payload) && env_flag(&e.ask, true) {
        return Route::Ask;
    }
    let event = pick_str(payload, &["hook_event_name"]);
    if same(event.as_str(), "PermissionRequest") && env_flag(&e.permission, true) {
        return Route::Permission;
    }
    Route::Report
}

// ---------------------------------------------------------------------------
// Reports
// ---------------------------------------------------------------------------

/// The kind under which an event is reported; none for an event that is not
/// known, which is passed over.
pub open spec fn report_kind(event: Seq<char>) -> Option<Seq<char>> {
    if event == "Notification"@ {
        Some("notification"@)
    } else if event == "Stop"@ {
        Some("stop"@)
    } else if event == "SubagentStop"@ {
        Some("subagent-stop"@)
    } else if event == "SubagentStart"@ {
        Some("subagent-start"@)
    } else if event == "PostToolUse"@ {
        Some("tool-after"@)
    } else if event == "PreToolUse"@ {
        Some("tool-before"@)
    } else if event == "SessionStart"@ {
        Some("session-start"@)
    } else if event == "SessionEnd"@ {
        Some("session-end"@)
    } else if event == "PreCompact"@ {
        Some("pre-compact"@)
    } else if event == "PostCompact"@ {
        Some("post-compact"@)
    } else if event == "Interrupt"@ {
        Some("interrupt"@)
    } else if event == "UserPromptSubmit"@ {
        Some("prompt"@)
    } else {
        None
    }
}

fn kind_of(event: &str) -> (r: Option<&'static str>)
    ensures
        match r {
            Some(k) => report_kind(event@) == Some(k@),
            None => report_kind(event@) is None,
        },
{
    if same(event, "Notification") {
        Some("notification")
    } else if same(event, "Stop") {
        Some("stop")
    } else if same(event, "SubagentStop") {
        Some("subagent-stop")
    } else if same(event, "SubagentStart") {
        Some("subagent-start")
    } else if same(event, "PostToolUse") {
        Some("tool-after")
    } else if same(event, "PreToolUse") {
        Some("tool-before")
    } else if same(event, "SessionStart") {
        Some("session-start")
    } else if same(event, "SessionEnd") {
        Some("session-end")
    } else if same(event, "PreCompact") {
        Some("pre-compact")
    } else if same(event, "PostCompact") {
        Some("post-compact")
    } else if same(event, "Interrupt") {
        Some("interrupt")
    } else if same(event, "UserPromptSubmit") {
        Some("prompt")
    } else {
        None
    }
}

/// The report of an event of a known kind. Notifications carry a message, tool
/// events the tool, and notifications, prompts and the end of a turn the
/// context.
pub open spec fn report_of(
    p: JsonView,
    event: Seq<char>,
    kind: Seq<char>,
    source: Seq<char>,
    context: JsonView,
) -> JsonView {
    let head = JsonView::object().with("kind"@, JsonView::Str(kind));
    let named = if event == "Notification"@ {
        head.with(
            "message"@,
            JsonView::Str(text::either(p.pick_text(seq!["message"]), "Agent 需要你的确认"@)),
        )
    } else if event == "PostToolUse"@ || event == "PreToolUse"@ {
        head.with("tool"@, JsonView::Str(p.pick_text(seq!["tool_name"])))
    } else {
        head
    };
    let body = named.with("source"@, JsonView::Str(source));
    if event == "Notification"@ || event == "Stop"@ || event == "UserPromptSubmit"@ {
        body.with("context"@, context)
    } else {
        body
    }
}

/// What is done with a payload that is neither a question nor a permission
/// request: a known event is reported and nothing is printed.
pub open spec fn report_step_of(p: JsonView, source: Seq<char>, context: JsonView) -> StepView {
    match report_kind(event_of(p)) {
        Some(kind) => StepView::Event(report_of(p, event_of(p), kind, source, context), None),
        None => StepView::Silent,
    }
}

/// What is done with a payload that is neither a question nor a permission
/// request.
pub fn report(payload: &Json, source: &str, context: Json) -> (r: Step)
    ensures
        r@ == report_step_of(payload@, source@, context@),
{
    let event = pick_str(payload, &["hook_event_name"]);
    let ev = event.as_str();
    let kind = match kind_of(ev) {
        Some(k) => k,
        None => return Step::Silent,
    };
    let head = Json::object().with("kind", Json::text(kind));
    let named = if same(ev, "Notification") {
        let message = pick_str(payload, &["message"]);
        head.with("message", Json::Str(first_or(message.as_str(), "Agent 需要你的确认")))
    } else if same(ev, "PostToolUse") || same(ev, "PreToolUse") {
        head.with("tool", Json::Str(pick_str(payload, &["tool_name"])))
    } else {
        head
    };
    let body = named.with("source", Json::text(source));
    let full = if same(ev, "Notification") || same(ev, "Stop") || same(ev, "UserPromptSubmit") {
        body.with("context", context)
    } else {
        body
    };
    Step::Event(full, None)
}

// ---------------------------------------------------------------------------
// Questions
// ---------------------------------------------------------------------------

/// The questions that a payload asks.
pub open spec fn asked(p: JsonView) -> Seq<JsonView> {
    proto::questions_of(proto::question_input(p))
}

/// The headline of a popup with questions: the question, or their number.
pub open spec fn headline(questions: Seq<JsonView>) -> Seq<char> {
    if questions.len() == 1 {
        questions[0].pick_text(seq!["question"])
    } else {
        text::int_text(questions.len() as int) + " 个问题等待回答"@
    }
}

/// The headline of a popup with questions.
pub fn question_headline(questions: &Vec<Json>) -> (r: String)
    ensures
        r@ == headline(json::views(questions@)),
{
    if questions.len() == 1 {
        assert(json::views(questions@)[0] == questions@[0]@);
        pick_str(&questions[0], &["question"])
    } else {
        cat2(decimal(questions.len() as u64).as_str(), " 个问题等待回答")
    }
}

/// The request for a popup with a payload's questions.
pub open spec fn ask_body(p: JsonView, source: Seq<char>, context: JsonView, ms: int) -> JsonView {
    JsonView::object().with("kind"@, JsonView::Str("ask"@)).with(
        "source"@,
        JsonView::Str(source),
    ).with("title"@, JsonView::Str("Agent 提问"@)).with(
        "message"@,
        JsonView::Str(headline(asked(p))),
    ).with("questions"@, JsonView::Arr(asked(p))).with(
        "context"@,
        context.set(
            "tool"@,
            JsonView::Str(text::either(p.pick_text(seq!["tool_name"]), "AskUserQuestion"@)),
        ).set("toolDetail"@, JsonView::Str(Seq::empty())),
    ).with("timeoutMs"@, JsonView::Int(ms))
}

/// Whether the user decided, and how: the action of a reply that the user gave.
pub open spec fn user_action(reply: JsonView) -> Option<Seq<char>> {
    if reply.pick_text(seq!["decidedBy"]) == "user"@ {
        Some(reply.pick_text(seq!["action"]))
    } else {
        None
    }
}

/// Whether the user decided, and how.
pub fn read_action(reply: &Json) -> (r: Option<String>)
    ensures
        match r {
            Some(a) => user_action(reply@) == Some(a@),
            None => user_action(reply@) is None,
        },
{
    let by = pick_str(reply, &["decidedBy"]);
    if same(by.as_str(), "user") {
        Some(pick_str(reply, &["action"]))
    } else {
        None
    }
}

/// A decision in the shape of `hookSpecificOutput`.
pub open spec fn output_of(inner: JsonView) -> JsonView {
    JsonView::object().with("hookSpecificOutput"@, inner)
}

/// An answer to a permission request.
pub open spec fn request_answer(decision: JsonView) -> JsonView {
    output_of(
        JsonView::object().with("hookEventName"@, JsonView::Str("PermissionRequest"@)).with(
            "decision"@,
            decision,
        ),
    )
}

/// An answer to a tool's use, with its reason.
pub open spec fn use_answer(permission: Seq<char>, reason: Seq<char>) -> JsonView {
    JsonView::object().with("hookEventName"@, JsonView::Str("PreToolUse"@)).with(
        "permissionDecision"@,
        JsonView::Str(permission),
    ).with("permissionDecisionReason"@, JsonView::Str(reason))
}

/// The decision that lets a tool go on, or stops it, with a message.
pub open spec fn verdict(behavior: Seq<char>, message: Seq<char>) -> JsonView {
    JsonView::object().with("behavior"@, JsonView::Str(behavior)).with(
        "message"@,
        JsonView::Str(message),
    )
}

fn make_output(inner: Json) -> (r: Json)
    ensures
        r@ == output_of(inner@),
{
    Json::object().with("hookSpecificOutput", inner)
}

fn make_request_answer(decision: Json) -> (r: Json)
    ensures
        r@ == request_answer(decision@),
{
    make_output(
        Json::object().with("hookEventName", Json::text("PermissionRequest")).with(
            "decision",
            decision,
        ),
    )
}

fn make_use_answer(permission: &str, reason: &str) -> (r: Json)
    ensures
        r@ == use_answer(permission@, reason@),
{
    Json::object().with("hookEventName", Json::text("PreToolUse")).with(
        "permissionDecision",
        Json::text(permission),
    ).with("permissionDecisionReason", Json::text(reason))
}

fn make_verdict(behavior: &str, message: &str) -> (r: Json)
    ensures
        r@ == verdict(behavior@, message@),
{
    Json::object().with("behavior", Json::text(behavior)).with("message", Json::text(message))
}

/// How answers go back to the host: `deny` puts them into the reason of a
/// refusal, anything else into the tool's input. VS Code takes the first unless
/// told otherwise.
pub open spec fn ask_mode(source: Seq<char>, e: Env) -> Seq<char> {
    text::lowered(
        match env::said(e.ask_mode) {
            Some(m) => m,
            None => if source == "vscode"@ {
                "deny"@
            } else {
                "answers"@
            },
        },
    )
}

/// What is printed when the user answered.
pub open spec fn submitted(p: JsonView, source: Seq<char>, e: Env, answers: JsonView) -> JsonView {
    let input = match proto::input_of(p) {
        Some(v) => v,
        None => JsonView::object(),
    };
    let updated = input.set("answers"@, answers);
    if ask_mode(source, e) == "deny"@ {
        let reason = "用户在番茄钟弹窗中的回答：\n"@ + proto::answers_text(answers);
        output_of(use_answer("deny"@, reason).with("additionalContext"@, JsonView::Str(reason)))
    } else if event_of(p) == "PermissionRequest"@ {
        request_answer(
            JsonView::object().with("behavior"@, JsonView::Str("allow"@)).with(
                "updatedInput"@,
                updated,
            ),
        )
    } else {
        output_of(use_answer("allow"@, "用户在番茄钟弹窗内作答"@).with("updatedInput"@, updated))
    }
}

/// What is printed when the user cancelled.
pub open spec fn cancelled(p: JsonView, words: Seq<char>) -> JsonView {
    let reason = if words.len() > 0 {
        "用户取消："@ + words
    } else {
        "用户取消了这次提问（番茄钟弹窗）"@
    };
    if event_of(p) == "PermissionRequest"@ {
        request_answer(verdict("deny"@, reason))
    } else {
        output_of(use_answer("deny"@, reason))
    }
}

/// What is printed once a reply to a payload's questions is there: the answers
/// or the refusal where the user decided, else nothing.
pub open spec fn ask_answer_of(p: JsonView, source: Seq<char>, e: Env, reply: JsonView) -> Option<
    JsonView,
> {
    match user_action(reply) {
        Some(action) if reply.truthy() => if action == "submit"@ {
            let answers = JsonView::Obj(
                proto::answer_map(
                    asked(p),
                    match reply.field("answers"@) {
                        Some(a) => a,
                        None => JsonView::Null,
                    },
                    asked(p).len() as int,
                ),
            );
            Some(submitted(p, source, e, answers))
        } else if action == "cancel"@ || action == "deny"@ {
            Some(cancelled(p, reply.pick_text(seq!["text"])))
        } else {
            None
        },
        _ => None,
    }
}

fn make_submitted(payload: &Json, source: &str, e: &Env, answers: Json) -> (r: Json)
    ensures
        r@ == submitted(payload@, source@, *e, answers@),
{
    let mode = match env_str(&e.ask_mode) {
        Some(m) => to_lower(m.as_str()),
        None => if same(source, "vscode") {
            to_lower("deny")
        } else {
            to_lower("answers")
        },
    };
    if same(mode.as_str(), "deny") {
        let lines = format_answer_map(&answers);
        let reason = cat2("用户在番茄钟弹窗中的回答：\n", lines.as_str());
        return make_output(
            make_use_answer("deny", reason.as_str()).with("additionalContext", Json::Str(reason)),
        );
    }
    let input = match pick(payload, &["tool_input", "toolInput"]) {
        Some(v) => v.clone(),
        None => Json::object(),
    };
    let updated = input.set("answers", answers);
    let event = pick_str(payload, &["hook_event_name"]);
    if same(event.as_str(), "PermissionRequest") {
        make_request_answer(
            Json::object().with("behavior", Json::text("allow")).with("updatedInput", updated),
        )
    } else {
        make_output(
            make_use_answer("allow", "用户在番茄钟弹窗内作答").with("updatedInput", updated),
        )
    }
}

fn make_cancelled(payload: &Json, words: &str) -> (r: Json)
    ensures
        r@ == cancelled(payload@, words@),
{
    let reason = if words.is_empty() {
        "用户取消了这次提问（番茄钟弹窗）".to_owned()
    } else {
        cat2("用户取消：", words)
    };
    let event = pick_str(payload, &["hook_event_name"]);
    if same(event.as_str(), "PermissionRequest") {
        make_request_answer(make_verdict("deny", reason.as_str()))
    } else {
        make_output(make_use_answer("deny", reason.as_str()))
    }
}

/// What is printed once a reply to a payload's questions is there.
pub fn ask_answer(payload: &Json, source: &str, e: &Env, reply: &Json) -> (r: Option<Json>)
    ensures
        session::owned_view(r) == ask_answer_of(payload@, source@, *e, reply@),
{
    if !is_truthy(reply) {
        return None;
    }
    let action = match read_action(reply) {
        Some(a) => a,
        None => return None,
    };
    if same(action.as_str(), "submit") {
        let questions = questions_from_tool_input(&tool_input_questions(payload));
        let nothing = Json::Null;
        let answers = match get(reply, "answers") {
            Some(a) => build_answer_map(questions.as_slice(), a),
            None => build_answer_map(questions.as_slice(), &nothing),
        };
        assert(json::views(questions@).len() == questions@.len());
        return Some(make_submitted(payload, source, e, answers));
    }
    if same(action.as_str(), "cancel") || same(action.as_str(), "deny") {
        let words = pick_str(reply, &["text"]);
        return Some(make_cancelled(payload, words.as_str()));
    }
    None
}

/// What is done with a question: nothing without questions, the cached decision
/// where there is one, else a popup.
pub open spec fn ask_step_of(
    p: JsonView,
    source: Seq<char>,
    context: JsonView,
    cached: Option<JsonView>,
    e: Env,
) -> StepView {
    if asked(p).len() == 0 {
        StepView::Silent
    } else {
        match cached {
            Some(reply) => step::print_view(ask_answer_of(p, source, e, reply)),
            None => StepView::Interact(
                ask_body(p, source, context, env::wait_of(e.timeout)),
                env::wait_of(e.timeout),
            ),
        }
    }
}

/// What is done with a question. `cached` is the decision that the cache still
/// gives for the payload's key.
pub fn handle_ask(
    payload: &Json,
    source: &str,
    context: Json,
    cached: Option<&Json>,
    e: &Env,
) -> (r: Step)
    ensures
        r@ == ask_step_of(payload@, source@, context@, json::opt_view(cached), *e),
{
    let questions = questions_from_tool_input(&tool_input_questions(payload));
    assert(json::views(questions@).len() == questions@.len());
    if questions.len() == 0 {
        return Step::Silent;
    }
    if let Some(reply) = cached {
        return print_or_silent(ask_answer(payload, source, e, reply));
    }
    let ms: u64 = timeout_ms(e.timeout);
    let message = question_headline(&questions);
    let tool = pick_str(payload, &["tool_name"]);
    let ctx = context.set(
        "tool",
        Json::Str(first_or(tool.as_str(), "AskUserQuestion")),
    ).set("toolDetail", Json::Str(String::new()));
    let body = Json::object().with("kind", Json::text("ask")).with(
        "source",
        Json::text(source),
    ).with("title", Json::text("Agent 提问")).with("message", Json::Str(message)).with(
        "questions",
        Json::Arr(questions),
    ).with("context", ctx).with("timeoutMs", Json::PosInt(ms));
    Step::Interact(body, ms)
}

// ---------------------------------------------------------------------------
// Permissions
// ---------------------------------------------------------------------------

/// The tool that a payload asks a permission for.
pub open spec fn tool_of(p: JsonView) -> Seq<char> {
    text::either(p.pick_text(seq!["tool_name"]), "工具"@)
}

/// The input of the tool that a payload asks a permission for.
pub open spec fn permission_input(p: JsonView) -> JsonView {
    match p.pick(seq!["tool_input"]) {
        Some(v) => v,
        None => JsonView::object(),
    }
}

/// The tool that a payload asks a permission for.
pub fn permission_tool(payload: &Json) -> (r: String)
    ensures
        r@ == tool_of(payload@),
{
    first_or(pick_str(payload, &["tool_name"]).as_str(), "工具")
}

fn read_input(payload: &Json) -> (r: Json)
    ensures
        r@ == permission_input(payload@),
{
    match pick(payload, &["tool_input"]) {
        Some(v) => v.clone(),
        None => Json::object(),
    }
}

/// The rule that would cover a payload's request.
pub fn permission_rule(payload: &Json) -> (r: String)
    ensures
        r@ == proto::rule_of(permission_input(payload@)),
{
    let input = read_input(payload);
    rule_content_for(permission_tool(payload).as_str(), &input)
}

/// The request for a popup that asks for a permission.
pub open spec fn permission_body(
    p: JsonView,
    source: Seq<char>,
    context: JsonView,
    e: Env,
) -> JsonView {
    let rule = proto::rule_of(permission_input(p));
    JsonView::object().with("kind"@, JsonView::Str("permission"@)).with(
        "source"@,
        JsonView::Str(source),
    ).with("title"@, JsonView::Str("允许 "@ + tool_of(p) + "？"@)).with(
        "message"@,
        JsonView::Str(p.pick_text(seq!["message"])),
    ).with("detail"@, JsonView::Str(proto::summary(permission_input(p)))).with(
        "permission"@,
        JsonView::object().with("tool"@, JsonView::Str(tool_of(p))).with(
            "rule"@,
            JsonView::Str(rule),
        ).with("suggestions"@, JsonView::Arr(p.items("permission_suggestions"@))).with(
            "canAlways"@,
            JsonView::Bool(env::flag(e.always_allow, true)),
        ),
    ).with(
        "context"@,
        context.set("tool"@, JsonView::Str(tool_of(p))).set(
            "toolDetail"@,
            JsonView::Str(text::collapsed(rule, 160)),
        ),
    ).with("timeoutMs"@, JsonView::Int(env::wait_of(e.timeout)))
}

/// What is done with a permission request: a local rule that covers it lets it
/// go on, else a popup asks.
pub open spec fn permission_step_of(
    p: JsonView,
    source: Seq<char>,
    context: JsonView,
    rules: Seq<JsonView>,
    e: Env,
) -> StepView {
    if cache::rule_matches(source, tool_of(p), proto::rule_of(permission_input(p)), rules, e) {
        StepView::Print(request_answer(verdict("allow"@, "命中本地「始终允许」规则"@)))
    } else {
        StepView::Interact(permission_body(p, source, context, e), env::wait_of(e.timeout))
    }
}

/// What is done with a permission request. `rules` are the local rules that
/// still count.
pub fn handle_permission(
    payload: &Json,
    source: &str,
    context: Json,
    rules: &[Json],
    e: &Env,
) -> (r: Step)
    ensures
        r@ == permission_step_of(payload@, source@, context@, json::views(rules@), *e),
{
    let tool = permission_tool(payload);
    let input = read_input(payload);
    let rule = rule_content_for(tool.as_str(), &input);
    if local_rule_match(source, tool.as_str(), rule.as_str(), rules, e) {
        return Step::Print(make_request_answer(make_verdict("allow", "命中本地「始终允许」规则")));
    }
    let ms: u64 = timeout_ms(e.timeout);
    let suggestions = copy_all(arr(payload, "permission_suggestions"));
    let permission = Json::object().with("tool", Json::text(tool.as_str())).with(
        "rule",
        Json::text(rule.as_str()),
    ).with("suggestions", Json::Arr(suggestions)).with(
        "canAlways",
        Json::Bool(env_flag(&e.always_allow, true)),
    );
    let ctx = context.set("tool", Json::text(tool.as_str())).set(
        "toolDetail",
        Json::Str(collapse(rule.as_str(), 160)),
    );
    let body = Json::object().with("kind", Json::text("permission")).with(
        "source",
        Json::text(source),
    ).with("title", Json::Str(cat3("允许 ", tool.as_str(), "？"))).with(
        "message",
        Json::Str(pick_str(payload, &["message"])),
    ).with("detail", Json::Str(summarize_tool_input(&input))).with("permission", permission).with(
        "context",
        ctx,
    ).with("timeoutMs", Json::PosInt(ms));
    Step::Interact(body, ms)
}

/// The decision of an "always allow". A host that takes permissions only in
/// this event would throw the answer away over the entries, so it gets none.
pub open spec fn always_decision(p: JsonView, source: Seq<char>, e: Env) -> JsonView {
    let plain = verdict("allow"@, "用户选择始终允许（已记入番茄钟本地规则）"@);
    if proto::event_only(source) {
        plain
    } else {
        plain.with(
            "updatedPermissions"@,
            JsonView::Arr(
                proto::updates_of(
                    tool_of(p),
                    permission_input(p),
                    p.items("permission_suggestions"@),
                    proto::destination(e),
                ),
            ),
        )
    }
}

/// What is printed once a reply to a permission request is there: the user's
/// decision, else nothing.
pub open spec fn permission_answer_of(
    p: JsonView,
    source: Seq<char>,
    e: Env,
    reply: JsonView,
) -> Option<JsonView> {
    let words = reply.pick_text(seq!["text"]);
    match user_action(reply) {
        Some(action) if reply.truthy() => if action == "allow"@ {
            Some(
                request_answer(
                    verdict("allow"@, text::either(words, "用户通过番茄钟弹窗允许"@)),
                ),
            )
        } else if action == "allow-always"@ {
            Some(request_answer(always_decision(p, source, e)))
        } else if action == "deny"@ {
            Some(
                request_answer(
                    verdict(
                        "deny"@,
                        if words.len() == 0 {
                            "用户通过番茄钟弹窗拒绝"@
                        } else {
                            "用户拒绝："@ + words
                        },
                    ),
                ),
            )
        } else {
            None
        },
        _ => None,
    }
}

/// Whether a reply adds a local rule.
pub open spec fn always(reply: JsonView) -> bool {
    reply.truthy() && user_action(reply) == Some("allow-always"@)
}

/// What comes of a reply to a permission request.
pub struct PermissionAnswer {
    /// What is printed, if anything.
    pub output: Option<Json>,
    /// Whether the request's rule is to be added to the local rules.
    pub remember: bool,
}

fn make_always_decision(payload: &Json, source: &str, e: &Env) -> (r: Json)
    ensures
        r@ == always_decision(payload@, source@, *e),
{
    let plain = make_verdict("allow", "用户选择始终允许（已记入番茄钟本地规则）");
    if is_permission_event_only(source) {
        return plain;
    }
    let tool = permission_tool(payload);
    let input = read_input(payload);
    let updates = build_permission_updates(
        tool.as_str(),
        &input,
        arr(payload, "permission_suggestions"),
        e,
    );
    plain.with("updatedPermissions", Json::Arr(updates))
}

/// What comes of a reply to a permission request.
pub fn permission_answer(payload: &Json, source: &str, e: &Env, reply: &Json) -> (r:
    PermissionAnswer)
    ensures
        session::owned_view(r.output) == permission_answer_of(payload@, source@, *e, reply@),
        r.remember == always(reply@),
{
    let nothing = PermissionAnswer { output: None, remember: false };
    if !is_truthy(reply) {
        return nothing;
    }
    let action = match read_action(reply) {
        Some(a) => a,
        None => return nothing,
    };
    let words = pick_str(reply, &["text"]);
    proof {
        reveal_strlit("allow");
        reveal_strlit("allow-always");
        reveal_strlit("deny");
        assert("allow"@.len() == 5 && "allow-always"@.len() == 12 && "deny"@.len() == 4);
    }
    if same(action.as_str(), "allow") {
        let message = first_or(words.as_str(), "用户通过番茄钟弹窗允许");
        return PermissionAnswer {
            output: Some(make_request_answer(make_verdict("allow", message.as_str()))),
            remember: false,
        };
    }
    if same(action.as_str(), "allow-always") {
        return PermissionAnswer {
            output: Some(make_request_answer(make_always_decision(payload, source, e))),
            remember: true,
        };
    }
    if same(action.as_str(), "deny") {
        let message = if words.as_str().is_empty() {
            "用户通过番茄钟弹窗拒绝".to_owned()
        } else {
            cat2("用户拒绝：", words.as_str())
        };
        return PermissionAnswer {
            output: Some(make_request_answer(make_verdict("deny", message.as_str()))),
            remember: false,
        };
    }
    nothing
}

// ---------------------------------------------------------------------------
// The whole run
// ---------------------------------------------------------------------------

/// What is done with a payload.
pub open spec fn run_step_of(
    p: JsonView,
    source: Seq<char>,
    context: JsonView,
    cached: Option<JsonView>,
    rules: Seq<JsonView>,
    e: Env,
) -> StepView {
    match route_of(p, e) {
        Route::Ask => ask_step_of(p, source, context, cached, e),
        Route::Permission => permission_step_of(p, source, context, rules, e),
        Route::Report => report_step_of(p, source, context),
    }
}

/// What is done with a payload. `cached` is the decision that the cache still
/// gives for the payload's key, `rules` are the local rules that still count.
pub fn run(
    payload: &Json,
    source: &str,
    context: Json,
    cached: Option<&Json>,
    rules: &[Json],
    e: &Env,
) -> (r: Step)
    ensures
        r@ == run_step_of(payload@, source@, context@, json::opt_view(cached), json::views(rules@), *e),
{
    match route(payload, e) {
        Route::Ask => handle_ask(payload, source, context, cached, e),
        Route::Permission => handle_permission(payload, source, context, rules, e),
        Route::Report => report(payload, source, context),
    }
}

// ---------------------------------------------------------------------------
// Laws
// ---------------------------------------------------------------------------

/// Without a decision by the user nothing is printed, neither to a question nor
/// to a permission request, and no rule is added: the host asks by itself.
pub proof fn law_no_decision_without_the_user(
    p: JsonView,
    source: Seq<char>,
    e: Env,
    reply: JsonView,
)
    requires
        reply.pick_text(seq!["decidedBy"]) != "user"@,
    ensures
        ask_answer_of(p, source, e, reply) is None,
        permission_answer_of(p, source, e, reply) is None,
        !always(reply),
{
}

/// A reported event is never answered: in particular the end of a turn is never
/// blocked.
pub proof fn law_reports_print_nothing(p: JsonView, source: Seq<char>, context: JsonView)
    ensures
        match report_step_of(p, source, context) {
            StepView::Event(_, output) => output is None,
            StepView::Silent => true,
            _ => false,
        },
{
}

/// A host that takes permissions only in this event never gets permission
/// entries, whatever the user chose.
pub proof fn law_event_only_hosts_get_no_entries(
    p: JsonView,
    source: Seq<char>,
    e: Env,
    reply: JsonView,
)
    requires
        proto::event_only(source),
    ensures
        permission_answer_of(p, source, e, reply) matches Some(out) ==> {
            &&& out.field("hookSpecificOutput"@) is Some
            &&& out.field("hookSpecificOutput"@)->0.field("decision"@) is Some
            &&& out.field("hookSpecificOutput"@)->0.field("decision"@)->0.field(
                "updatedPermissions"@,
            ) is None
        },
{
    broadcast use crate::json::group_fields;

    reveal_strlit("hookEventName");
    reveal_strlit("decision");
    reveal_strlit("behavior");
    reveal_strlit("message");
    reveal_strlit("updatedPermissions");
    assert("hookEventName"@.len() == 13 && "decision"@.len() == 8);
    assert("behavior"@.len() == 8 && "message"@.len() == 7);
    assert("updatedPermissions"@.len() == 18);
}

/// A question that comes twice, once before the tool's use and once as a permission
/// request, is asked once: what the user said to the first payload is cached for
/// any other with the same id of the tool's use, which for 90 seconds is answered by
/// it without a popup. Where the first ended without the user's decision, the second
/// prints nothing either.
pub proof fn law_a_question_is_asked_once(
    first: JsonView,
    second: JsonView,
    source: Seq<char>,
    context: JsonView,
    e: Env,
    reply: JsonView,
    at: int,
    later: int,
)
    requires
        cache::use_id(first) is Some,
        cache::use_id(second) == cache::use_id(first),
        asked(second).len() > 0,
        i64::MIN <= at <= i64::MAX,
        later - at <= cache::CACHE_TTL_MS,
    ensures
        cache::key_of(second) == cache::key_of(first),
        ({
            let cached = cache::cached(cache::cache_entry_of(reply, at), later);
            let done = ask_step_of(second, source, context, cached, e);
            &&& done == step::print_view(ask_answer_of(second, source, e, reply))
            &&& !(done is Interact)
            &&& reply.pick_text(seq!["decidedBy"]) != "user"@ ==> done is Silent
        }),
{
    cache::law_cache_reads_back(reply, at, later);
}

// ---------------------------------------------------------------------------
// What is printed to the host, word for word
// ---------------------------------------------------------------------------

/// Whether a reply says that the user took this action.
pub open spec fn chosen(reply: JsonView, action: Seq<char>) -> bool {
    reply.field("decidedBy"@) == Some(JsonView::Str("user"@)) && reply.field("action"@) == Some(
        JsonView::Str(action),
    )
}

/// Whether answers go back to the host in the reason of a refusal: where the
/// environment says `deny`, and for VS Code where it says nothing.
pub open spec fn answers_in_reason(source: Seq<char>, e: Env) -> bool {
    match e.ask_mode {
        Some(m) if m@.len() > 0 => text::lowered(m@) == "deny"@,
        _ => source == "vscode"@,
    }
}

/// What is printed, under the member that the host reads.
pub open spec fn told(out: Option<JsonView>) -> Option<JsonView> {
    match out {
        Some(o) => o.field("hookSpecificOutput"@),
        None => None,
    }
}

/// What a reply in which the user took an action is read as.
pub proof fn lemma_chosen(reply: JsonView, action: Seq<char>)
    requires
        chosen(reply, action),
    ensures
        reply.truthy(),
        user_action(reply) == Some(action),
{
    json::lemma_picked(reply, "decidedBy", JsonView::Str("user"@));
    json::lemma_picked(reply, "action", JsonView::Str(action));
}

proof fn lemma_mode(source: Seq<char>, e: Env)
    ensures
        (ask_mode(source, e) == "deny"@) == answers_in_reason(source, e),
{
    reveal_strlit("deny");
    reveal_strlit("answers");
    assert("deny"@.len() == 4);
    assert("deny"@[0] == 'd');
    assert("deny"@[1] == 'e');
    assert("deny"@[2] == 'n');
    assert("deny"@[3] == 'y');
    assert("answers"@.len() == 7);
    assert("answers"@[0] == 'a');
    assert("answers"@[1] == 'n');
    assert("answers"@[2] == 's');
    assert("answers"@[3] == 'w');
    assert("answers"@[4] == 'e');
    assert("answers"@[5] == 'r');
    assert("answers"@[6] == 's');
    assert(text::lowered("deny"@) =~= "deny"@);
    assert(text::lowered("answers"@).len() == 7);
}

/// The actions that the user can take all differ.
pub proof fn lemma_words_differ()
    ensures
        "submit"@ != "cancel"@,
        "submit"@ != "deny"@,
        "allow"@ != "allow-always"@,
        "allow"@ != "deny"@,
        "allow-always"@ != "deny"@,
        "cancel"@ != "deny"@,
{
    reveal_strlit("submit");
    reveal_strlit("cancel");
    reveal_strlit("deny");
    reveal_strlit("allow");
    reveal_strlit("allow-always");
    assert("submit"@.len() == 6);
    assert("cancel"@.len() == 6);
    assert("deny"@.len() == 4);
    assert("allow"@.len() == 5);
    assert("allow-always"@.len() == 12);
    assert("submit"@[0] == 's');
    assert("cancel"@[0] == 'c');
}

/// The answers of a reply that the user submitted let the tool go on: what is printed
/// allows it, with the tool's input as it was and the answers in it. For a question
/// that came as a permission request it is that request which is allowed.
pub proof fn law_submitted_answers_let_the_tool_go_on(
    p: JsonView,
    source: Seq<char>,
    e: Env,
    reply: JsonView,
    input: JsonView,
    key: Seq<char>,
)
    requires
        chosen(reply, "submit"@),
        !answers_in_reason(source, e),
        p.field("tool_input"@) == Some(input),
        input is Obj,
    ensures
        p.pick_text(seq!["hook_event_name"]) != "PermissionRequest"@ ==> {
            &&& told(ask_answer_of(p, source, e, reply)) matches Some(h)
            &&& h.field("hookEventName"@) == Some(JsonView::Str("PreToolUse"@))
            &&& h.field("permissionDecision"@) == Some(JsonView::Str("allow"@))
            &&& h.field("updatedInput"@) matches Some(u)
            &&& u.field("answers"@) matches Some(JsonView::Obj(_))
            &&& key != "answers"@ ==> u.field(key) == input.field(key)
        },
        p.pick_text(seq!["hook_event_name"]) == "PermissionRequest"@ ==> {
            &&& told(ask_answer_of(p, source, e, reply)) matches Some(h)
            &&& h.field("hookEventName"@) == Some(JsonView::Str("PermissionRequest"@))
            &&& h.field("decision"@) matches Some(d)
            &&& d.field("behavior"@) == Some(JsonView::Str("allow"@))
            &&& d.field("updatedInput"@) matches Some(u)
            &&& u.field("answers"@) matches Some(JsonView::Obj(_))
            &&& key != "answers"@ ==> u.field(key) == input.field(key)
        },
{
    broadcast use crate::json::group_fields;

    lemma_chosen(reply, "submit"@);
    lemma_mode(source, e);
    let keys: Seq<&str> = seq!["tool_input", "toolInput"];
    assert(keys[0]@ == "tool_input"@);
    json::law_the_first_name_counts(p, keys, 0);
    reveal_strlit("hookSpecificOutput");
    reveal_strlit("hookEventName");
    reveal_strlit("permissionDecision");
    reveal_strlit("permissionDecisionReason");
    reveal_strlit("updatedInput");
    reveal_strlit("decision");
    reveal_strlit("behavior");
    reveal_strlit("answers");
    assert("hookSpecificOutput"@.len() == 18);
    assert("hookEventName"@.len() == 13);
    assert("permissionDecision"@.len() == 18);
    assert("permissionDecisionReason"@.len() == 24);
    assert("updatedInput"@.len() == 12);
    assert("decision"@.len() == 8);
    assert("behavior"@.len() == 8);
    assert("answers"@.len() == 7);
    assert("hookSpecificOutput"@[0] == 'h');
    assert("permissionDecision"@[0] == 'p');
    assert("decision"@[0] == 'd');
    assert("behavior"@[0] == 'b');
}

/// Where the host takes answers only in the reason of a refusal, it gets them there,
/// and once more as context.
pub proof fn law_answers_can_go_back_in_the_reason(
    p: JsonView,
    source: Seq<char>,
    e: Env,
    reply: JsonView,
)
    requires
        chosen(reply, "submit"@),
        answers_in_reason(source, e),
    ensures
        told(ask_answer_of(p, source, e, reply)) matches Some(h) && h.field("hookEventName"@) == Some(
            JsonView::Str("PreToolUse"@),
        ) && h.field("permissionDecision"@) == Some(JsonView::Str("deny"@)) && (h.field(
            "permissionDecisionReason"@,
        ) matches Some(JsonView::Str(s)) && text::starts_with(s, "用户在番茄钟弹窗中的回答：\n"@))
            && h.field("additionalContext"@) == h.field("permissionDecisionReason"@),
{
    broadcast use crate::json::group_fields;

    lemma_chosen(reply, "submit"@);
    lemma_mode(source, e);
    reveal_strlit("hookEventName");
    reveal_strlit("permissionDecision");
    reveal_strlit("permissionDecisionReason");
    reveal_strlit("additionalContext");
    assert("hookEventName"@.len() == 13);
    assert("permissionDecision"@.len() == 18);
    assert("permissionDecisionReason"@.len() == 24);
    assert("additionalContext"@.len() == 17);
    let answers = JsonView::Obj(
        proto::answer_map(
            asked(p),
            match reply.field("answers"@) {
                Some(a) => a,
                None => JsonView::Null,
            },
            asked(p).len() as int,
        ),
    );
    let head = "用户在番茄钟弹窗中的回答：\n"@;
    let reason = head + proto::answers_text(answers);
    assert(reason.subrange(0, head.len() as int) =~= head);
}

/// A question that the user cancelled, or refused, stops the tool, with the user's
/// words where there are any.
pub proof fn law_a_cancelled_question_stops_the_tool(
    p: JsonView,
    source: Seq<char>,
    e: Env,
    reply: JsonView,
    words: Seq<char>,
)
    requires
        chosen(reply, "cancel"@) || chosen(reply, "deny"@),
        reply.field("text"@) == Some(JsonView::Str(words)),
    ensures
        ({
            let reason = JsonView::Str(
                if words.len() > 0 {
                    "用户取消："@ + words
                } else {
                    "用户取消了这次提问（番茄钟弹窗）"@
                },
            );
            &&& p.pick_text(seq!["hook_event_name"]) != "PermissionRequest"@ ==> {
                &&& told(ask_answer_of(p, source, e, reply)) matches Some(h)
                &&& h.field("hookEventName"@) == Some(JsonView::Str("PreToolUse"@))
                &&& h.field("permissionDecision"@) == Some(JsonView::Str("deny"@))
                &&& h.field("permissionDecisionReason"@) == Some(reason)
                &&& h.field("updatedInput"@) is None
            }
            &&& p.pick_text(seq!["hook_event_name"]) == "PermissionRequest"@ ==> {
                &&& told(ask_answer_of(p, source, e, reply)) matches Some(h)
                &&& h.field("hookEventName"@) == Some(JsonView::Str("PermissionRequest"@))
                &&& h.field("decision"@) matches Some(d)
                &&& d.field("behavior"@) == Some(JsonView::Str("deny"@))
                &&& d.field("message"@) == Some(reason)
            }
        }),
{
    broadcast use crate::json::group_fields;

    lemma_words_differ();
    if chosen(reply, "cancel"@) {
        lemma_chosen(reply, "cancel"@);
    } else {
        lemma_chosen(reply, "deny"@);
    }
    json::lemma_picked(reply, "text", JsonView::Str(words));
    reveal_strlit("hookEventName");
    reveal_strlit("permissionDecision");
    reveal_strlit("permissionDecisionReason");
    reveal_strlit("updatedInput");
    reveal_strlit("decision");
    reveal_strlit("behavior");
    reveal_strlit("message");
    assert("hookEventName"@.len() == 13);
    assert("permissionDecision"@.len() == 18);
    assert("permissionDecisionReason"@.len() == 24);
    assert("updatedInput"@.len() == 12);
    assert("decision"@.len() == 8);
    assert("behavior"@.len() == 8);
    assert("message"@.len() == 7);
    assert("decision"@[0] == 'd');
    assert("behavior"@[0] == 'b');
}

/// An action that is none of these decides nothing about a question.
pub proof fn law_other_actions_answer_no_question(
    p: JsonView,
    source: Seq<char>,
    e: Env,
    reply: JsonView,
    action: Seq<char>,
)
    requires
        chosen(reply, action),
        action != "submit"@,
        action != "cancel"@,
        action != "deny"@,
    ensures
        ask_answer_of(p, source, e, reply) is None,
{
    lemma_chosen(reply, action);
}

/// The answer that the user chose in the popup for a question, found there under the
/// question's id, comes back to the host under the question's own words: the one
/// choice, or all of them where several may be made.
pub proof fn law_each_answer_comes_back_under_its_question(
    p: JsonView,
    source: Seq<char>,
    context: JsonView,
    e: Env,
    reply: JsonView,
    input: JsonView,
    raw: Seq<JsonView>,
    answers: JsonView,
    picked: Seq<JsonView>,
    i: int,
    said: Seq<char>,
    header: Seq<char>,
    multi: bool,
)
    requires
        p.field("tool_input"@) == Some(input),
        input.field("questions"@) == Some(JsonView::Arr(raw)),
        0 <= i < raw.len(),
        raw.len() <= 4,
        forall|j: int|
            0 <= j < raw.len() ==> ((#[trigger] raw[j]).field("question"@) matches Some(
                JsonView::Str(s),
            ) && s.len() > 0),
        forall|j: int, k: int|
            0 <= j < k < raw.len() ==> (#[trigger] raw[j]).field("question"@) != (
            #[trigger] raw[k]).field("question"@),
        raw[i].field("question"@) == Some(JsonView::Str(said)),
        raw[i].field("header"@) == Some(JsonView::Str(header)),
        raw[i].field("multiSelect"@) == Some(JsonView::Bool(multi)),
        raw[i].field("multiple"@) is None,
        chosen(reply, "submit"@),
        reply.field("answers"@) == Some(answers),
        picked.len() > 0,
        !answers_in_reason(source, e),
        p.pick_text(seq!["hook_event_name"]) != "PermissionRequest"@,
        ask_step_of(p, source, context, None, e) matches StepView::Interact(body, _) && (body.items(
            "questions"@,
        )[i].field("id"@) matches Some(JsonView::Str(id)) && answers.field(id) == Some(
            JsonView::Arr(picked),
        )),
    ensures
        told(ask_answer_of(p, source, e, reply)) matches Some(h) && (h.field(
            "updatedInput"@,
        ) matches Some(u) && (u.field("answers"@) matches Some(a) && a.field(said) == Some(
            if multi {
                JsonView::Arr(picked)
            } else {
                picked[0]
            },
        ))),
{
    broadcast use crate::json::group_fields;

    lemma_chosen(reply, "submit"@);
    lemma_mode(source, e);
    let keys: Seq<&str> = seq!["tool_input", "toolInput"];
    assert(keys[0]@ == "tool_input"@);
    json::law_the_first_name_counts(p, keys, 0);
    let qs = asked(p);
    let n = qs.len() as int;
    assert(proto::question_input(p) == input);
    assert(n == raw.len());
    assert forall|j: int| 0 <= j < n implies (#[trigger] qs[j]).field("question"@)
        == raw[j].field("question"@) && qs[j].field("question"@) == Some(
        JsonView::Str(qs[j].pick_text(seq!["question"])),
    ) by {
        proto::lemma_question_fields(raw[j], j);
        let names: Seq<&str> = seq!["question", "text", "title"];
        assert(names[0]@ == "question"@);
        json::law_the_first_name_counts(raw[j], names, 0);
        assert(qs[j] == proto::question_of(raw[j], j));
        json::lemma_picked(qs[j], "question", raw[j].field("question"@)->0);
    }
    assert forall|j: int, k: int| 0 <= j < k < n implies (#[trigger] qs[j]).pick_text(
        seq!["question"],
    ) != (#[trigger] qs[k]).pick_text(seq!["question"]) by {
        assert(raw[j].field("question"@) != raw[k].field("question"@));
        assert(qs[j].field("question"@) == raw[j].field("question"@));
        assert(qs[k].field("question"@) == raw[k].field("question"@));
    }
    proto::law_answers_go_under_their_questions(qs, answers, n, i);
    proto::law_questions_are_shown_as_asked(input, raw, i, said, header, multi);
    assert(qs[i].field("question"@) == raw[i].field("question"@));
    let id = "q"@ + text::int_text(i);
    json::lemma_picked(qs[i], "id", JsonView::Str(id));
    json::lemma_picked(qs[i], "multiSelect", JsonView::Bool(multi));
    lemma_ask_body_fields(p, source, context, env::wait_of(e.timeout));
    reveal_strlit("hookSpecificOutput");
    reveal_strlit("hookEventName");
    reveal_strlit("permissionDecision");
    reveal_strlit("permissionDecisionReason");
    reveal_strlit("updatedInput");
    reveal_strlit("answers");
    assert("hookSpecificOutput"@.len() == 18);
    assert("hookEventName"@.len() == 13);
    assert("permissionDecision"@.len() == 18);
    assert("permissionDecisionReason"@.len() == 24);
    assert("updatedInput"@.len() == 12);
    assert("answers"@.len() == 7);
    assert("hookSpecificOutput"@[0] == 'h');
    assert("permissionDecision"@[0] == 'p');
}

proof fn lemma_ask_body_fields(p: JsonView, source: Seq<char>, context: JsonView, ms: int)
    ensures
        ({
            let b = ask_body(p, source, context, ms);
            &&& b is Obj
            &&& b.field("kind"@) == Some(JsonView::Str("ask"@))
            &&& b.field("source"@) == Some(JsonView::Str(source))
            &&& b.field("title"@) == Some(JsonView::Str("Agent 提问"@))
            &&& b.field("message"@) == Some(JsonView::Str(headline(asked(p))))
            &&& b.field("questions"@) == Some(JsonView::Arr(asked(p)))
            &&& b.field("timeoutMs"@) == Some(JsonView::Int(ms))
            &&& b.field("context"@) == Some(
                context.set(
                    "tool"@,
                    JsonView::Str(text::either(p.pick_text(seq!["tool_name"]), "AskUserQuestion"@)),
                ).set("toolDetail"@, JsonView::Str(Seq::empty())),
            )
        }),
{
    broadcast use crate::json::group_fields;

    reveal_strlit("kind");
    reveal_strlit("source");
    reveal_strlit("title");
    reveal_strlit("message");
    reveal_strlit("questions");
    reveal_strlit("context");
    reveal_strlit("timeoutMs");
    assert("kind"@.len() == 4);
    assert("source"@.len() == 6);
    assert("title"@.len() == 5);
    assert("message"@.len() == 7);
    assert("questions"@.len() == 9);
    assert("context"@.len() == 7);
    assert("timeoutMs"@.len() == 9);
    assert("message"@[0] == 'm');
    assert("questions"@[0] == 'q');
    assert("context"@[0] == 'c');
    assert("timeoutMs"@[0] == 't');
}

/// A question goes to the user as a popup of its kind, from its sender, with all that
/// is asked, and for as long as the hook waits; the popup's headline is the one
/// question, or how many there are.
pub proof fn law_questions_go_to_the_user(
    p: JsonView,
    source: Seq<char>,
    context: JsonView,
    e: Env,
    said: Seq<char>,
)
    requires
        asked(p).len() > 0,
    ensures
        ask_step_of(p, source, context, None, e) matches StepView::Interact(body, ms) && {
            &&& ms == env::wait_of(e.timeout)
            &&& body.field("kind"@) == Some(JsonView::Str("ask"@))
            &&& body.field("source"@) == Some(JsonView::Str(source))
            &&& body.field("timeoutMs"@) == Some(JsonView::Int(ms))
            &&& body.items("questions"@) == asked(p)
            &&& asked(p).len() == 1 && asked(p)[0].field("question"@) == Some(JsonView::Str(said))
                ==> body.field("message"@) == Some(JsonView::Str(said))
            &&& asked(p).len() != 1 ==> body.field("message"@) == Some(
                JsonView::Str(text::int_text(asked(p).len() as int) + " 个问题等待回答"@),
            )
        },
{
    lemma_ask_body_fields(p, source, context, env::wait_of(e.timeout));
    if asked(p)[0].field("question"@) == Some(JsonView::Str(said)) {
        json::lemma_picked(asked(p)[0], "question", JsonView::Str(said));
    }
}

/// What the user decides about a permission is what the host is told: it may go on,
/// may go on and never ask again, or may not, with the user's words.
pub proof fn law_the_users_verdict_is_printed(
    p: JsonView,
    source: Seq<char>,
    e: Env,
    reply: JsonView,
    words: Seq<char>,
)
    requires
        reply.field("text"@) == Some(JsonView::Str(words)),
    ensures
        chosen(reply, "allow"@) ==> {
            &&& told(permission_answer_of(p, source, e, reply)) matches Some(h)
            &&& h.field("hookEventName"@) == Some(JsonView::Str("PermissionRequest"@))
            &&& h.field("decision"@) matches Some(d)
            &&& d.field("behavior"@) == Some(JsonView::Str("allow"@))
            &&& d.field("updatedPermissions"@) is None
            &&& words.len() > 0 ==> d.field("message"@) == Some(JsonView::Str(words))
            &&& words.len() == 0 ==> d.field("message"@) == Some(
                JsonView::Str("用户通过番茄钟弹窗允许"@),
            )
        },
        chosen(reply, "allow"@) ==> !always(reply),
        chosen(reply, "allow-always"@) ==> {
            &&& told(permission_answer_of(p, source, e, reply)) matches Some(h)
            &&& h.field("hookEventName"@) == Some(JsonView::Str("PermissionRequest"@))
            &&& h.field("decision"@) matches Some(d)
            &&& d.field("behavior"@) == Some(JsonView::Str("allow"@))
            &&& source == "codex"@ ==> d.field("updatedPermissions"@) is None
            &&& source != "codex"@ ==> d.items("updatedPermissions"@).len() > 0
        },
        chosen(reply, "allow-always"@) ==> always(reply),
        chosen(reply, "deny"@) ==> {
            &&& told(permission_answer_of(p, source, e, reply)) matches Some(h)
            &&& h.field("hookEventName"@) == Some(JsonView::Str("PermissionRequest"@))
            &&& h.field("decision"@) matches Some(d)
            &&& d.field("behavior"@) == Some(JsonView::Str("deny"@))
            &&& words.len() > 0 ==> d.field("message"@) == Some(
                JsonView::Str("用户拒绝："@ + words),
            )
            &&& words.len() == 0 ==> d.field("message"@) == Some(
                JsonView::Str("用户通过番茄钟弹窗拒绝"@),
            )
        },
        chosen(reply, "deny"@) ==> !always(reply),
{
    broadcast use crate::json::group_fields;

    lemma_words_differ();
    json::lemma_picked(reply, "text", JsonView::Str(words));
    if chosen(reply, "allow"@) {
        lemma_chosen(reply, "allow"@);
    }
    if chosen(reply, "allow-always"@) {
        lemma_chosen(reply, "allow-always"@);
    }
    if chosen(reply, "deny"@) {
        lemma_chosen(reply, "deny"@);
    }
    reveal_strlit("hookEventName");
    reveal_strlit("decision");
    reveal_strlit("behavior");
    reveal_strlit("message");
    reveal_strlit("updatedPermissions");
    assert("hookEventName"@.len() == 13);
    assert("decision"@.len() == 8);
    assert("behavior"@.len() == 8);
    assert("message"@.len() == 7);
    assert("updatedPermissions"@.len() == 18);
    assert("decision"@[0] == 'd');
    assert("behavior"@[0] == 'b');
}

/// What the host is asked to allow for good names the tool and its rule, and says to
/// allow it.
pub proof fn law_always_names_the_tool_and_its_rule(
    p: JsonView,
    source: Seq<char>,
    e: Env,
    reply: JsonView,
    input: JsonView,
    tool: Seq<char>,
    rule: Seq<char>,
)
    requires
        chosen(reply, "allow-always"@),
        source != "codex"@,
        p.field("tool_name"@) == Some(JsonView::Str(tool)),
        tool.len() > 0,
        p.field("tool_input"@) == Some(input),
        input.field("command"@) == Some(JsonView::Str(rule)),
        0 < rule.len() <= 200,
        p.field("permission_suggestions"@) is None,
        e.permission_dest is None,
    ensures
        told(permission_answer_of(p, source, e, reply)) matches Some(h) && (h.field(
            "decision"@,
        ) matches Some(d) && {
            let list = d.items("updatedPermissions"@);
            let rules = list[0].items("rules"@);
            &&& list.len() == 1
            &&& list[0].field("type"@) == Some(JsonView::Str("addRules"@))
            &&& list[0].field("behavior"@) == Some(JsonView::Str("allow"@))
            &&& list[0].field("destination"@) == Some(JsonView::Str("projectSettings"@))
            &&& rules.len() == 1
            &&& rules[0].field("toolName"@) == Some(JsonView::Str(tool))
            &&& rules[0].field("ruleContent"@) == Some(JsonView::Str(rule))
        }),
{
    broadcast use crate::json::group_fields;

    lemma_words_differ();
    lemma_chosen(reply, "allow-always"@);
    json::lemma_picked(p, "tool_name", JsonView::Str(tool));
    json::lemma_picked(p, "tool_input", input);
    proto::law_the_rule_is_what_the_tool_does(input, rule);
    let none = p.items("permission_suggestions"@);
    proto::law_what_is_allowed_for_good(tool, input, none, proto::destination(e), 0);
    reveal_strlit("hookEventName");
    reveal_strlit("decision");
    reveal_strlit("behavior");
    reveal_strlit("message");
    reveal_strlit("updatedPermissions");
    assert("hookEventName"@.len() == 13);
    assert("decision"@.len() == 8);
    assert("behavior"@.len() == 8);
    assert("message"@.len() == 7);
    assert("updatedPermissions"@.len() == 18);
    assert("decision"@[0] == 'd');
    assert("behavior"@[0] == 'b');
}

proof fn lemma_permission_body_fields(p: JsonView, source: Seq<char>, context: JsonView, e: Env)
    ensures
        ({
            let b = permission_body(p, source, context, e);
            let asked_for = b.field("permission"@);
            &&& b is Obj
            &&& b.field("kind"@) == Some(JsonView::Str("permission"@))
            &&& b.field("source"@) == Some(JsonView::Str(source))
            &&& b.field("title"@) == Some(JsonView::Str("允许 "@ + tool_of(p) + "？"@))
            &&& b.field("message"@) == Some(JsonView::Str(p.pick_text(seq!["message"])))
            &&& b.field("detail"@) == Some(JsonView::Str(proto::summary(permission_input(p))))
            &&& b.field("timeoutMs"@) == Some(JsonView::Int(env::wait_of(e.timeout)))
            &&& asked_for is Some
            &&& asked_for->0.field("tool"@) == Some(JsonView::Str(tool_of(p)))
            &&& asked_for->0.field("rule"@) == Some(
                JsonView::Str(proto::rule_of(permission_input(p))),
            )
            &&& asked_for->0.field("suggestions"@) == Some(
                JsonView::Arr(p.items("permission_suggestions"@)),
            )
            &&& asked_for->0.field("canAlways"@) == Some(
                JsonView::Bool(env::flag(e.always_allow, true)),
            )
        }),
{
    broadcast use crate::json::group_fields;

    reveal_strlit("kind");
    reveal_strlit("source");
    reveal_strlit("title");
    reveal_strlit("message");
    reveal_strlit("detail");
    reveal_strlit("permission");
    reveal_strlit("context");
    reveal_strlit("timeoutMs");
    reveal_strlit("tool");
    reveal_strlit("rule");
    reveal_strlit("suggestions");
    reveal_strlit("canAlways");
    assert("kind"@.len() == 4);
    assert("source"@.len() == 6);
    assert("title"@.len() == 5);
    assert("message"@.len() == 7);
    assert("detail"@.len() == 6);
    assert("permission"@.len() == 10);
    assert("context"@.len() == 7);
    assert("timeoutMs"@.len() == 9);
    assert("tool"@.len() == 4);
    assert("rule"@.len() == 4);
    assert("suggestions"@.len() == 11);
    assert("canAlways"@.len() == 9);
    assert("kind"@[0] == 'k');
    assert("source"@[0] == 's');
    assert("message"@[0] == 'm');
    assert("detail"@[0] == 'd');
    assert("context"@[0] == 'c');
    assert("timeoutMs"@[0] == 't');
    assert("tool"@[0] == 't');
    assert("rule"@[0] == 'r');
    assert("canAlways"@[0] == 'c');
}

/// A permission request that no local rule covers goes to the user, as a popup that
/// names the tool and what it is about to do; whether it may be granted for good is
/// for the environment to say.
pub proof fn law_permissions_go_to_the_user(
    p: JsonView,
    source: Seq<char>,
    context: JsonView,
    rules: Seq<JsonView>,
    e: Env,
    input: JsonView,
    tool: Seq<char>,
    rule: Seq<char>,
)
    requires
        p.field("tool_name"@) == Some(JsonView::Str(tool)),
        tool.len() > 0,
        p.field("tool_input"@) == Some(input),
        input.field("command"@) == Some(JsonView::Str(rule)),
        0 < rule.len() <= 200,
        !cache::rule_matches(source, tool, rule, rules, e),
    ensures
        permission_step_of(p, source, context, rules, e) matches StepView::Interact(body, ms) && {
            &&& ms == env::wait_of(e.timeout)
            &&& body.field("kind"@) == Some(JsonView::Str("permission"@))
            &&& body.field("source"@) == Some(JsonView::Str(source))
            &&& body.field("title"@) == Some(JsonView::Str("允许 "@ + tool + "？"@))
            &&& body.field("timeoutMs"@) == Some(JsonView::Int(ms))
            &&& body.field("permission"@) matches Some(asked_for)
            &&& asked_for.field("tool"@) == Some(JsonView::Str(tool))
            &&& asked_for.field("rule"@) == Some(JsonView::Str(rule))
            &&& e.always_allow is None ==> asked_for.field("canAlways"@) == Some(
                JsonView::Bool(true),
            )
        },
{
    json::lemma_picked(p, "tool_name", JsonView::Str(tool));
    json::lemma_picked(p, "tool_input", input);
    proto::law_the_rule_is_what_the_tool_does(input, rule);
    lemma_permission_body_fields(p, source, context, e);
}

/// A permission request that a local rule covers is allowed at once, without a
/// popup.
pub proof fn law_a_covered_request_is_allowed(
    p: JsonView,
    source: Seq<char>,
    context: JsonView,
    rules: Seq<JsonView>,
    e: Env,
)
    requires
        cache::rule_matches(source, tool_of(p), proto::rule_of(permission_input(p)), rules, e),
    ensures
        permission_step_of(p, source, context, rules, e) matches StepView::Print(out) && (told(
            Some(out),
        ) matches Some(h) && {
            &&& h.field("hookEventName"@) == Some(JsonView::Str("PermissionRequest"@))
            &&& h.field("decision"@) matches Some(d)
            &&& d.field("behavior"@) == Some(JsonView::Str("allow"@))
            &&& d.field("message"@) == Some(JsonView::Str("命中本地「始终允许」规则"@))
        }),
{
    broadcast use crate::json::group_fields;

    reveal_strlit("hookEventName");
    reveal_strlit("decision");
    reveal_strlit("behavior");
    reveal_strlit("message");
    assert("hookEventName"@.len() == 13);
    assert("decision"@.len() == 8);
    assert("behavior"@.len() == 8);
    assert("message"@.len() == 7);
    assert("decision"@[0] == 'd');
    assert("behavior"@[0] == 'b');
}

/// What the user allowed for good is not asked again: once a request was answered
/// so, its rule is remembered, and for 30 days the same request of the same host is
/// allowed at once, without a popup.
pub proof fn law_what_is_always_allowed_is_not_asked_again(
    p: JsonView,
    source: Seq<char>,
    context: JsonView,
    e: Env,
    reply: JsonView,
    rules: Seq<JsonView>,
    tool: Seq<char>,
    input: JsonView,
    rule: Seq<char>,
    now: int,
    later: int,
)
    requires
        chosen(reply, "allow-always"@),
        source == "vscode"@ || source == "trae"@ || source == "cursor"@ || source == "codex"@,
        e.local_always_allow is None,
        p.field("tool_name"@) == Some(JsonView::Str(tool)),
        tool.len() > 0,
        p.field("tool_input"@) == Some(input),
        input.field("command"@) == Some(JsonView::Str(rule)),
        0 < rule.len() <= 200,
        i64::MIN <= now <= i64::MAX,
        later - now < 2_592_000_000,
    ensures
        always(reply),
        ({
            let stored = cache::rules_after(source, tool, rule, rules, now);
            let counting = cache::rules_of(JsonView::Arr(stored), later);
            permission_step_of(p, source, context, counting, e) matches StepView::Print(out) && (
            told(Some(out)) matches Some(h) && (h.field("decision"@) matches Some(d) && d.field(
                "behavior"@,
            ) == Some(JsonView::Str("allow"@))))
        }),
{
    lemma_chosen(reply, "allow-always"@);
    json::lemma_picked(p, "tool_name", JsonView::Str(tool));
    json::lemma_picked(p, "tool_input", input);
    proto::law_the_rule_is_what_the_tool_does(input, rule);
    cache::law_always_allow_is_remembered(source, tool, rule, rules, now, later, e);
    let stored = cache::rules_after(source, tool, rule, rules, now);
    law_a_covered_request_is_allowed(
        p,
        source,
        context,
        cache::rules_of(JsonView::Arr(stored), later),
        e,
    );
}

/// Each event is reported as what it is, with its sender, and any other is passed
/// over.
pub proof fn law_events_are_reported_as_what_they_are(
    p: JsonView,
    source: Seq<char>,
    context: JsonView,
    event: Seq<char>,
)
    requires
        p.field("hook_event_name"@) == Some(JsonView::Str(event)),
    ensures
        ({
            let kind = if event == "Notification"@ {
                "notification"@
            } else if event == "Stop"@ {
                "stop"@
            } else if event == "SubagentStop"@ {
                "subagent-stop"@
            } else if event == "SubagentStart"@ {
                "subagent-start"@
            } else if event == "PostToolUse"@ {
                "tool-after"@
            } else if event == "PreToolUse"@ {
                "tool-before"@
            } else if event == "SessionStart"@ {
                "session-start"@
            } else if event == "SessionEnd"@ {
                "session-end"@
            } else if event == "PreCompact"@ {
                "pre-compact"@
            } else if event == "PostCompact"@ {
                "post-compact"@
            } else if event == "Interrupt"@ {
                "interrupt"@
            } else if event == "UserPromptSubmit"@ {
                "prompt"@
            } else {
                ""@
            };
            if kind == ""@ {
                report_step_of(p, source, context) is Silent
            } else {
                report_step_of(p, source, context) matches StepView::Event(body, None) && body.field(
                    "kind"@,
                ) == Some(JsonView::Str(kind)) && body.field("source"@) == Some(
                    JsonView::Str(source),
                ) && (event == "Notification"@ || event == "Stop"@ || event == "UserPromptSubmit"@
                    ==> body.field("context"@) == Some(context))
            }
        }),
{
    broadcast use crate::json::group_fields;

    json::lemma_picked(p, "hook_event_name", JsonView::Str(event));
    reveal_strlit("kind");
    reveal_strlit("message");
    reveal_strlit("tool");
    reveal_strlit("source");
    reveal_strlit("context");
    assert("kind"@.len() == 4);
    assert("message"@.len() == 7);
    assert("tool"@.len() == 4);
    assert("source"@.len() == 6);
    assert("context"@.len() == 7);
    assert("kind"@[0] == 'k');
    assert("message"@[0] == 'm');
    assert("tool"@[0] == 't');
    assert("context"@[0] == 'c');
    reveal_strlit("");
    assert(""@.len() == 0);
    reveal_strlit("notification");
    reveal_strlit("stop");
    reveal_strlit("subagent-stop");
    reveal_strlit("subagent-start");
    reveal_strlit("tool-after");
    reveal_strlit("tool-before");
    reveal_strlit("session-start");
    reveal_strlit("session-end");
    reveal_strlit("pre-compact");
    reveal_strlit("post-compact");
    reveal_strlit("interrupt");
    reveal_strlit("prompt");
    assert("notification"@.len() == 12);
    assert("stop"@.len() == 4);
    assert("subagent-stop"@.len() == 13);
    assert("subagent-start"@.len() == 14);
    assert("tool-after"@.len() == 10);
    assert("tool-before"@.len() == 11);
    assert("session-start"@.len() == 13);
    assert("session-end"@.len() == 11);
    assert("pre-compact"@.len() == 11);
    assert("post-compact"@.len() == 12);
    assert("interrupt"@.len() == 9);
    assert("prompt"@.len() == 6);
    assert("notification"@[0] == 'n');
    assert("subagent-stop"@[1] == 'u');
    assert("tool-before"@[0] == 't');
    assert("session-start"@[1] == 'e');
    assert("session-end"@[0] == 's');
    assert("pre-compact"@[0] == 'p');
    assert("post-compact"@[0] == 'p');
    reveal_strlit("Notification");
    reveal_strlit("Stop");
    reveal_strlit("SubagentStop");
    reveal_strlit("SubagentStart");
    reveal_strlit("PostToolUse");
    reveal_strlit("PreToolUse");
    reveal_strlit("SessionStart");
    reveal_strlit("SessionEnd");
    reveal_strlit("PreCompact");
    reveal_strlit("PostCompact");
    reveal_strlit("Interrupt");
    reveal_strlit("UserPromptSubmit");
    assert("Notification"@.len() == 12);
    assert("Stop"@.len() == 4);
    assert("SubagentStop"@.len() == 12);
    assert("SubagentStart"@.len() == 13);
    assert("PostToolUse"@.len() == 11);
    assert("PreToolUse"@.len() == 10);
    assert("SessionStart"@.len() == 12);
    assert("SessionEnd"@.len() == 10);
    assert("PreCompact"@.len() == 10);
    assert("PostCompact"@.len() == 11);
    assert("Interrupt"@.len() == 9);
    assert("UserPromptSubmit"@.len() == 16);
    assert("Notification"@[0] == 'N');
    assert("SubagentStop"@[0] == 'S');
    assert("SubagentStop"@[1] == 'u');
    assert("PostToolUse"@[4] == 'T');
    assert("PreToolUse"@[0] == 'P');
    assert("PreToolUse"@[3] == 'T');
    assert("SessionStart"@[0] == 'S');
    assert("SessionStart"@[1] == 'e');
    assert("SessionEnd"@[0] == 'S');
    assert("PreCompact"@[0] == 'P');
    assert("PreCompact"@[3] == 'C');
    assert("PostCompact"@[4] == 'C');
}

/// The report of a notification passes its message on, that of a tool's use the
/// tool.
pub proof fn law_reports_tell_what_happened(
    p: JsonView,
    source: Seq<char>,
    context: JsonView,
    event: Seq<char>,
    said: Seq<char>,
)
    requires
        p.field("hook_event_name"@) == Some(JsonView::Str(event)),
        said.len() > 0,
    ensures
        event == "Notification"@ && p.field("message"@) == Some(JsonView::Str(said)) ==> (
        report_step_of(p, source, context) matches StepView::Event(body, _) && body.field("message"@)
            == Some(JsonView::Str(said))),
        event == "Notification"@ && p.field("message"@) is None ==> (report_step_of(
            p,
            source,
            context,
        ) matches StepView::Event(body, _) && body.field("message"@) == Some(
            JsonView::Str("Agent 需要你的确认"@),
        )),
        (event == "PostToolUse"@ || event == "PreToolUse"@) && p.field("tool_name"@) == Some(
            JsonView::Str(said),
        ) ==> (report_step_of(p, source, context) matches StepView::Event(body, _) && body.field(
            "tool"@,
        ) == Some(JsonView::Str(said))),
{
    broadcast use crate::json::group_fields;

    json::lemma_picked(p, "hook_event_name", JsonView::Str(event));
    if p.field("message"@) == Some(JsonView::Str(said)) {
        json::lemma_picked(p, "message", JsonView::Str(said));
    }
    if p.field("message"@) is None {
        json::lemma_unpicked(p, "message");
    }
    if p.field("tool_name"@) == Some(JsonView::Str(said)) {
        json::lemma_picked(p, "tool_name", JsonView::Str(said));
    }
    reveal_strlit("kind");
    reveal_strlit("message");
    reveal_strlit("tool");
    reveal_strlit("source");
    reveal_strlit("context");
    assert("kind"@.len() == 4);
    assert("message"@.len() == 7);
    assert("tool"@.len() == 4);
    assert("source"@.len() == 6);
    assert("context"@.len() == 7);
    assert("kind"@[0] == 'k');
    assert("message"@[0] == 'm');
    assert("tool"@[0] == 't');
    assert("context"@[0] == 'c');
    reveal_strlit("Notification");
    reveal_strlit("Stop");
    reveal_strlit("SubagentStop");
    reveal_strlit("SubagentStart");
    reveal_strlit("PostToolUse");
    reveal_strlit("PreToolUse");
    assert("Notification"@.len() == 12);
    assert("Stop"@.len() == 4);
    assert("SubagentStop"@.len() == 12);
    assert("SubagentStart"@.len() == 13);
    assert("PostToolUse"@.len() == 11);
    assert("PreToolUse"@.len() == 10);
    assert("Notification"@[0] == 'N');
    assert("SubagentStop"@[0] == 'S');
}

/// Questions go to the user before anything else, permission requests next, and all
/// the rest is at most reported; what is switched off is only reported too.
pub proof fn law_where_payloads_go(
    p: JsonView,
    source: Seq<char>,
    context: JsonView,
    cached: Option<JsonView>,
    rules: Seq<JsonView>,
    e: Env,
    event: Seq<char>,
)
    requires
        p.field("hook_event_name"@) == Some(JsonView::Str(event)),
    ensures
        proto::asks(p) && e.ask is None ==> run_step_of(p, source, context, cached, rules, e)
            == ask_step_of(p, source, context, cached, e),
        !proto::asks(p) && event == "PermissionRequest"@ && e.permission is None ==> run_step_of(
            p,
            source,
            context,
            cached,
            rules,
            e,
        ) == permission_step_of(p, source, context, rules, e),
        !proto::asks(p) && event != "PermissionRequest"@ ==> run_step_of(
            p,
            source,
            context,
            cached,
            rules,
            e,
        ) == report_step_of(p, source, context),
        event == "PermissionRequest"@ && (e.ask matches Some(a) && a@ == "0"@) && (
        e.permission matches Some(b) && b@ == "0"@) ==> run_step_of(
            p,
            source,
            context,
            cached,
            rules,
            e,
        ) is Silent,
{
    json::lemma_picked(p, "hook_event_name", JsonView::Str(event));
    if let Some(a) = e.ask {
        env::law_four_words_switch_off(a, true);
    }
    if let Some(b) = e.permission {
        env::law_four_words_switch_off(b, true);
    }
    reveal_strlit("PermissionRequest");
    reveal_strlit("Notification");
    reveal_strlit("Stop");
    reveal_strlit("SubagentStop");
    reveal_strlit("SubagentStart");
    reveal_strlit("PostToolUse");
    reveal_strlit("PreToolUse");
    reveal_strlit("SessionStart");
    reveal_strlit("SessionEnd");
    reveal_strlit("PreCompact");
    reveal_strlit("PostCompact");
    reveal_strlit("Interrupt");
    reveal_strlit("UserPromptSubmit");
    assert("PermissionRequest"@.len() == 17);
    assert("Notification"@.len() == 12);
    assert("Stop"@.len() == 4);
    assert("SubagentStop"@.len() == 12);
    assert("SubagentStart"@.len() == 13);
    assert("PostToolUse"@.len() == 11);
    assert("PreToolUse"@.len() == 10);
    assert("SessionStart"@.len() == 12);
    assert("SessionEnd"@.len() == 10);
    assert("PreCompact"@.len() == 10);
    assert("PostCompact"@.len() == 11);
    assert("Interrupt"@.len() == 9);
    assert("UserPromptSubmit"@.len() == 16);
    assert("Notification"@[0] == 'N');
    assert("SubagentStop"@[0] == 'S');
    assert("SubagentStop"@[1] == 'u');
    assert("PostToolUse"@[4] == 'T');
    assert("PreToolUse"@[0] == 'P');
    assert("PreToolUse"@[3] == 'T');
    assert("SessionStart"@[0] == 'S');
    assert("SessionStart"@[1] == 'e');
    assert("SessionEnd"@[0] == 'S');
    assert("PreCompact"@[0] == 'P');
    assert("PreCompact"@[3] == 'C');
    assert("PostCompact"@[4] == 'C');
}

/// What the user did is said with it: that answers were given here, and that what was
/// always allowed is now a rule.
pub proof fn law_decisions_say_where_they_come_from(
    p: JsonView,
    source: Seq<char>,
    e: Env,
    answers: JsonView,
)
    ensures
        always_decision(p, source, e).field("behavior"@) == Some(JsonView::Str("allow"@)),
        always_decision(p, source, e).field("message"@) == Some(
            JsonView::Str("用户选择始终允许（已记入番茄钟本地规则）"@),
        ),
        ask_mode(source, e) != "deny"@ && event_of(p) != "PermissionRequest"@ ==> (submitted(
            p,
            source,
            e,
            answers,
        ).field("hookSpecificOutput"@) matches Some(h) && h.field("permissionDecisionReason"@)
            == Some(JsonView::Str("用户在番茄钟弹窗内作答"@))),
{
    broadcast use crate::json::group_fields;

    reveal_strlit("behavior");
    reveal_strlit("message");
    reveal_strlit("updatedPermissions");
    assert("behavior"@.len() == 8);
    assert("message"@.len() == 7);
    assert("updatedPermissions"@.len() == 18);
    reveal_strlit("hookEventName");
    reveal_strlit("permissionDecision");
    reveal_strlit("permissionDecisionReason");
    reveal_strlit("updatedInput");
    assert("hookEventName"@.len() == 13);
    assert("permissionDecision"@.len() == 18);
    assert("permissionDecisionReason"@.len() == 24);
    assert("updatedInput"@.len() == 12);
}

/// A host's suggestions for rules are shown with its request, and a tool without a name
/// is just called a tool.
pub proof fn law_suggestions_are_shown(
    p: JsonView,
    source: Seq<char>,
    context: JsonView,
    e: Env,
    raw: Seq<JsonView>,
)
    requires
        p.field("permission_suggestions"@) == Some(JsonView::Arr(raw)),
    ensures
        permission_body(p, source, context, e).field("permission"@) matches Some(a) && a.items(
            "suggestions"@,
        ) == raw,
        p.field("tool_name"@) is None ==> tool_of(p) == "工具"@,
{
    broadcast use crate::json::group_fields;

    reveal_strlit("kind");
    reveal_strlit("source");
    reveal_strlit("title");
    reveal_strlit("message");
    reveal_strlit("detail");
    reveal_strlit("permission");
    reveal_strlit("context");
    reveal_strlit("timeoutMs");
    assert("kind"@.len() == 4);
    assert("source"@.len() == 6);
    assert("title"@.len() == 5);
    assert("message"@.len() == 7);
    assert("detail"@.len() == 6);
    assert("permission"@.len() == 10);
    assert("context"@.len() == 7);
    assert("timeoutMs"@.len() == 9);
    assert("source"@[0] == 's');
    assert("message"@[0] == 'm');
    assert("detail"@[0] == 'd');
    assert("context"@[0] == 'c');
    reveal_strlit("tool");
    reveal_strlit("rule");
    reveal_strlit("suggestions");
    reveal_strlit("canAlways");
    assert("tool"@.len() == 4);
    assert("rule"@.len() == 4);
    assert("suggestions"@.len() == 11);
    assert("canAlways"@.len() == 9);
    assert("tool"@[0] == 't');
    assert("rule"@[0] == 'r');
    if p.field("tool_name"@) is None {
        json::lemma_unpicked(p, "tool_name");
    }
}

} // verus!
