//! What the pages' calls mean.

use vstd::prelude::*;
use crate::interaction;
use crate::interaction::{Decision, DecisionView};
use crate::json;
use crate::json::{get, text_field, Json, JsonView};
use crate::payload;
use crate::payload::non_empty;
use crate::text::same;

verus! {

/// What a page's answer says.
pub struct Response {
    /// The popup that it answers.
    pub id: String,
    /// What the user decided; none where the page names no popup or no action.
    pub decision: Option<Decision>,
    /// The action, where one is named.
    pub action: Option<String>,
}

/// The answers that a page gives.
pub open spec fn answers_of(p: JsonView) -> JsonView {
    match p.field("answers"@) {
        Some(a) => a,
        None => JsonView::object(),
    }
}

/// What a page's answer says. Only one that names a popup and an action is a
/// decision of the user's.
pub fn interaction_respond(p: &Json) -> (r: Response)
    ensures
        r.id@ == interaction::named(p@, "id"@),
        interaction::opt_text(r.action) == payload::filled(p@.field("action"@)),
        r.decision is Some == (r.id@.len() > 0 && r.action is Some),
        r.decision matches Some(d) ==> d@ == (DecisionView {
            action: payload::filled(p@.field("action"@)),
            answers: answers_of(p@),
            text: interaction::named(p@, "text"@),
            decided_by: "user"@,
        }),
{
    let id = match text_field(p, "id") {
        Some(s) => s.to_owned(),
        None => String::new(),
    };
    let action = non_empty(get(p, "action"));
    let text = match text_field(p, "text") {
        Some(s) => s.to_owned(),
        None => String::new(),
    };
    let answers = match get(p, "answers") {
        Some(a) => a.clone(),
        None => Json::object(),
    };
    let decision = match &action {
        Some(a) => if id.as_str().is_empty() {
            None
        } else {
            Some(Decision::user(a.clone(), answers, text))
        },
        None => None,
    };
    Response { id, decision, action }
}

/// Whether the next phase starts: a popup that nothing waited for asked for it.
pub fn starts_next(resolved: bool, action: &Option<String>) -> (r: bool)
    ensures
        r == (!resolved && interaction::opt_text(*action) == Some("start-next"@)),
{
    match action {
        Some(a) => !resolved && same(a.as_str(), "start-next"),
        None => false,
    }
}

/// What a decision with an action alone says; none where the popup or the action
/// is not named.
pub fn respond_confirm(id: &str, action: &str) -> (r: Option<Decision>)
    ensures
        r is Some == (id@.len() > 0 && action@.len() > 0),
        r matches Some(d) ==> d@ == (DecisionView {
            action: Some(action@),
            answers: JsonView::object(),
            text: Seq::empty(),
            decided_by: "user"@,
        }),
{
    if id.is_empty() || action.is_empty() {
        return None;
    }
    Some(Decision::user(action.to_owned(), Json::object(), String::new()))
}

/// What is said of a hook's installation from the settings: that it is not there
/// yet, and what to do instead.
pub fn hook_install(agent: &str) -> (r: Json)
    ensures
        r@ == JsonView::object().with("ok"@, JsonView::Bool(false)).with(
            "agent"@,
            JsonView::Str(agent@),
        ).with(
            "message"@,
            JsonView::Str(
                "还没接上「一键安装 hook」。要现在就配，可以在设置抽屉里点「复制配置」手动粘贴。"@,
            ),
        ).with("files"@, JsonView::Arr(Seq::empty())).with(
            "command"@,
            JsonView::Str(Seq::empty()),
        ).with("log"@, JsonView::Str(Seq::empty())),
{
    Json::object().with("ok", Json::Bool(false)).with("agent", Json::text(agent)).with(
        "message",
        Json::text(
            "还没接上「一键安装 hook」。要现在就配，可以在设置抽屉里点「复制配置」手动粘贴。",
        ),
    ).with("files", json::empty_array()).with("command", Json::Str(String::new())).with(
        "log",
        Json::Str(String::new()),
    )
}

/// The answers that a page gives come through as they are; none are none.
pub proof fn law_answers_come_through(p: JsonView, a: JsonView, name: Seq<char>)
    ensures
        p.field("answers"@) == Some(a) ==> answers_of(p) == a,
        p.field("answers"@) is None ==> answers_of(p).field(name) is None,
{
    broadcast use crate::json::group_fields;

}

} // verus!
