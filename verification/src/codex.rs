//! Codex's one-way notification at the end of a turn.

use vstd::prelude::*;
use crate::json;
use crate::json::{arr, as_str_lossy, pick_str, Json, JsonView};
use crate::session;
use crate::session::{build_context, first_item};
use crate::step::{Step, StepView};
use crate::text;
use crate::text::{collapse, first_or, same};

verus! {

broadcast use crate::json::group_json;

/// The type of a notification.
pub open spec fn type_of(p: JsonView) -> Seq<char> {
    p.pick_text(seq!["type", "event"])
}

/// Whether a notification tells the end of a turn.
pub open spec fn turn_complete(p: JsonView) -> bool {
    type_of(p) == "agent-turn-complete"@
}

/// The directory that a notification speaks of.
pub open spec fn cwd_of(p: JsonView) -> Seq<char> {
    text::either(p.pick_text(seq!["cwd"]), session::first_text(p.items("workspace-roots"@)))
}

/// The last thing that the user said.
pub open spec fn task_of(p: JsonView) -> Seq<char> {
    let inputs = p.items("input-messages"@);
    text::collapsed(
        if inputs.len() > 0 {
            inputs.last().lossy()
        } else {
            Seq::empty()
        },
        160,
    )
}

/// The last thing that the agent said.
pub open spec fn last_of(p: JsonView) -> Seq<char> {
    text::collapsed(p.pick_text(seq!["last-assistant-message", "message"]), 160)
}

/// The thread of a notification.
pub open spec fn thread_of(p: JsonView) -> Seq<char> {
    p.pick_text(seq!["thread-id", "thread_id"])
}

/// The notification in the other hosts' shape, from which the session is
/// remembered.
pub open spec fn common_payload(p: JsonView) -> JsonView {
    JsonView::object().with("session_id"@, JsonView::Str(thread_of(p))).with(
        "cwd"@,
        JsonView::Str(cwd_of(p)),
    ).with("prompt"@, JsonView::Str(task_of(p))).with(
        "last_assistant_message"@,
        JsonView::Str(last_of(p)),
    )
}

fn read_cwd(payload: &Json) -> (r: String)
    ensures
        r@ == cwd_of(payload@),
{
    first_or(
        pick_str(payload, &["cwd"]).as_str(),
        first_item(arr(payload, "workspace-roots")).as_str(),
    )
}

fn read_task(payload: &Json) -> (r: String)
    ensures
        r@ == task_of(payload@),
{
    let inputs = arr(payload, "input-messages");
    let said = if inputs.len() > 0 {
        assert(json::views(inputs@).last() == inputs@.last()@);
        as_str_lossy(&inputs[inputs.len() - 1])
    } else {
        String::new()
    };
    collapse(said.as_str(), 160)
}

fn read_last(payload: &Json) -> (r: String)
    ensures
        r@ == last_of(payload@),
{
    collapse(pick_str(payload, &["last-assistant-message", "message"]).as_str(), 160)
}

/// The notification in the other hosts' shape, from which the session is
/// remembered.
pub fn session_payload(payload: &Json) -> (r: Json)
    ensures
        r@ == common_payload(payload@),
{
    Json::object().with(
        "session_id",
        Json::Str(pick_str(payload, &["thread-id", "thread_id"])),
    ).with("cwd", Json::Str(read_cwd(payload))).with("prompt", Json::Str(read_task(payload))).with(
        "last_assistant_message",
        Json::Str(read_last(payload)),
    )
}

/// The event under which a notification is remembered.
pub fn session_event(payload: &Json) -> (r: &'static str)
    ensures
        r@ == (if turn_complete(payload@) {
            "Stop"@
        } else {
            "Notification"@
        }),
{
    let event = pick_str(payload, &["type", "event"]);
    if same(event.as_str(), "agent-turn-complete") {
        "Stop"
    } else {
        "Notification"
    }
}

/// The kind under which a notification is reported.
pub open spec fn kind_of(event_type: Seq<char>) -> Seq<char> {
    if event_type == "agent-turn-complete"@ {
        "stop"@
    } else {
        "notification"@
    }
}

/// The kind under which a notification is reported.
pub fn report_kind(event_type: &str) -> (r: &'static str)
    ensures
        r@ == kind_of(event_type@),
{
    if same(event_type, "agent-turn-complete") {
        "stop"
    } else {
        "notification"
    }
}

/// The report of a notification.
pub open spec fn report_of(p: JsonView, session: Option<JsonView>) -> JsonView {
    let seen = JsonView::object().with("session_id"@, JsonView::Str(thread_of(p))).with(
        "cwd"@,
        JsonView::Str(cwd_of(p)),
    );
    JsonView::object().with("kind"@, JsonView::Str(kind_of(type_of(p)))).with(
        "source"@,
        JsonView::Str("codex"@),
    ).with(
        "message"@,
        JsonView::Str(
            if turn_complete(p) {
                Seq::empty()
            } else {
                text::either(last_of(p), text::either(type_of(p), "Codex 事件"@))
            },
        ),
    ).with("context"@, session::context_of(seen, "codex"@, session))
}

/// What is done with a notification: it is reported, and nothing is printed.
pub fn run_notify(payload: &Json, session: Option<&Json>) -> (r: Step)
    ensures
        r@ == StepView::Event(report_of(payload@, json::opt_view(session)), None),
{
    let event = pick_str(payload, &["type", "event"]);
    let complete = same(event.as_str(), "agent-turn-complete");
    let seen = Json::object().with(
        "session_id",
        Json::Str(pick_str(payload, &["thread-id", "thread_id"])),
    ).with("cwd", Json::Str(read_cwd(payload)));
    let context = build_context(&seen, "codex", session);
    let kind = report_kind(event.as_str());
    let message = if complete {
        String::new()
    } else {
        first_or(
            read_last(payload).as_str(),
            first_or(event.as_str(), "Codex 事件").as_str(),
        )
    };
    let body = Json::object().with("kind", Json::text(kind)).with("source", Json::text("codex")).with(
        "message",
        Json::Str(message),
    ).with("context", context);
    Step::Event(body, None)
}

// ---------------------------------------------------------------------------
// Laws
// ---------------------------------------------------------------------------

/// The end of a turn is reported as just that, without a message; anything else as
/// something that waits for the user, with what Codex says, or what it is called.
pub proof fn law_what_codex_says_is_reported(
    p: JsonView,
    session: Option<JsonView>,
    event: Seq<char>,
    said: Seq<char>,
)
    requires
        p.field("type"@) == Some(JsonView::Str(event)),
        event.len() > 0,
    ensures
        report_of(p, session).field("source"@) == Some(JsonView::Str("codex"@)),
        event == "agent-turn-complete"@ ==> report_of(p, session).field("kind"@) == Some(
            JsonView::Str("stop"@),
        ) && report_of(p, session).field("message"@) == Some(JsonView::Str(Seq::empty())),
        event != "agent-turn-complete"@ ==> report_of(p, session).field("kind"@) == Some(
            JsonView::Str("notification"@),
        ),
        event != "agent-turn-complete"@ && p.field("last-assistant-message"@) == Some(
            JsonView::Str(said),
        ) && text::collapsed(said, 160).len() > 0 ==> report_of(p, session).field("message"@) == Some(
            JsonView::Str(text::collapsed(said, 160)),
        ),
        event != "agent-turn-complete"@ && p.field("last-assistant-message"@) is None && p.field(
            "message"@,
        ) is None ==> report_of(p, session).field("message"@) == Some(JsonView::Str(event)),
{
    broadcast use crate::json::group_fields;

    let keys: Seq<&str> = seq!["type", "event"];
    assert(keys[0]@ == "type"@);
    json::law_the_first_name_counts(p, keys, 0);
    let words: Seq<&str> = seq!["last-assistant-message", "message"];
    assert(words[0]@ == "last-assistant-message"@ && words[1]@ == "message"@);
    if p.field("last-assistant-message"@) == Some(JsonView::Str(said)) && said.len() > 0 {
        json::law_the_first_name_counts(p, words, 0);
    }
    if p.field("last-assistant-message"@) is None && p.field("message"@) is None {
        json::law_no_name_counts(p, words);
        assert(text::collapsed(Seq::<char>::empty(), 160).len() == 0);
    }
    assert(text::collapsed(Seq::<char>::empty(), 160).len() == 0);
    reveal_strlit("kind");
    reveal_strlit("source");
    reveal_strlit("message");
    reveal_strlit("context");
    assert("kind"@.len() == 4);
    assert("source"@.len() == 6);
    assert("message"@.len() == 7);
    assert("context"@.len() == 7);
    assert("message"@[0] == 'm');
    assert("context"@[0] == 'c');
}

/// What is remembered of Codex's notification: the thread, the directory, the last
/// thing that the user said, and what was answered.
pub proof fn law_what_is_remembered_of_codex(p: JsonView, s: Seq<char>, said: Seq<JsonView>)
    requires
        s.len() > 0,
    ensures
        p.field("thread-id"@) == Some(JsonView::Str(s)) ==> common_payload(p).field("session_id"@)
            == Some(JsonView::Str(s)),
        p.field("cwd"@) == Some(JsonView::Str(s)) ==> common_payload(p).field("cwd"@) == Some(
            JsonView::Str(s),
        ),
        p.field("input-messages"@) == Some(JsonView::Arr(said)) && said.len() > 0 && said.last()
            == JsonView::Str(s) ==> common_payload(p).field("prompt"@) == Some(
            JsonView::Str(text::collapsed(s, 160)),
        ),
        p.field("last-assistant-message"@) == Some(JsonView::Str(s)) ==> common_payload(p).field(
            "last_assistant_message"@,
        ) == Some(JsonView::Str(text::collapsed(s, 160))),
{
    broadcast use crate::json::group_fields;

    let ids: Seq<&str> = seq!["thread-id", "thread_id"];
    assert(ids[0]@ == "thread-id"@);
    if p.field("thread-id"@) == Some(JsonView::Str(s)) {
        json::law_the_first_name_counts(p, ids, 0);
    }
    if p.field("cwd"@) == Some(JsonView::Str(s)) {
        json::lemma_picked(p, "cwd", JsonView::Str(s));
    }
    let words: Seq<&str> = seq!["last-assistant-message", "message"];
    assert(words[0]@ == "last-assistant-message"@);
    if p.field("last-assistant-message"@) == Some(JsonView::Str(s)) {
        json::law_the_first_name_counts(p, words, 0);
    }
    reveal_strlit("session_id");
    reveal_strlit("cwd");
    reveal_strlit("prompt");
    reveal_strlit("last_assistant_message");
    assert("session_id"@.len() == 10);
    assert("cwd"@.len() == 3);
    assert("prompt"@.len() == 6);
    assert("last_assistant_message"@.len() == 22);
}

/// A thread and a directory are known by either of their names.
pub proof fn law_codexs_other_names(p: JsonView, s: Seq<char>, roots: Seq<JsonView>)
    requires
        s.len() > 0,
    ensures
        p.field("thread-id"@) is None && p.field("thread_id"@) == Some(JsonView::Str(s))
            ==> thread_of(p) == s,
        p.field("cwd"@) is None && p.field("workspace-roots"@) == Some(JsonView::Arr(roots))
            && roots.len() > 0 && roots[0] == JsonView::Str(s) ==> cwd_of(p) == s,
{
    let ids: Seq<&str> = seq!["thread-id", "thread_id"];
    assert(ids[0]@ == "thread-id"@ && ids[1]@ == "thread_id"@);
    if p.field("thread-id"@) is None && p.field("thread_id"@) == Some(JsonView::Str(s)) {
        json::law_the_first_name_counts(p, ids, 1);
    }
    if p.field("cwd"@) is None {
        json::lemma_unpicked(p, "cwd");
    }
}

/// A notification that says nothing at all is reported as Codex's.
pub proof fn law_codexs_unnamed_events(p: JsonView, session: Option<JsonView>)
    requires
        p.field("type"@) is None,
        p.field("event"@) is None,
        p.field("last-assistant-message"@) is None,
        p.field("message"@) is None,
    ensures
        report_of(p, session).field("kind"@) == Some(JsonView::Str("notification"@)),
        report_of(p, session).field("message"@) == Some(JsonView::Str("Codex 事件"@)),
{
    broadcast use crate::json::group_fields;

    let keys: Seq<&str> = seq!["type", "event"];
    assert(keys[0]@ == "type"@ && keys[1]@ == "event"@);
    json::law_no_name_counts(p, keys);
    let words: Seq<&str> = seq!["last-assistant-message", "message"];
    assert(words[0]@ == "last-assistant-message"@ && words[1]@ == "message"@);
    json::law_no_name_counts(p, words);
    assert(text::collapsed(Seq::<char>::empty(), 160).len() == 0);
    reveal_strlit("agent-turn-complete");
    assert("agent-turn-complete"@.len() > 0);
    reveal_strlit("kind");
    reveal_strlit("source");
    reveal_strlit("message");
    reveal_strlit("context");
    assert("kind"@.len() == 4);
    assert("source"@.len() == 6);
    assert("message"@.len() == 7);
    assert("context"@.len() == 7);
    assert("message"@[0] == 'm');
    assert("context"@[0] == 'c');
}

} // verus!
