//! The way of a decision: from the popup over the gateway to the host.

use vstd::prelude::*;
use crate::ancli;
use crate::cache;
use crate::cursor;
use crate::env::{self, Env, Reading};
use crate::interaction::{self, DecisionView};
use crate::json::{self, JsonView};
use crate::opencode;
use crate::payload;
use crate::proto;
use crate::step::StepView;
use crate::text;

verus! {

/// What the user decided in a popup.
pub open spec fn by_user(action: Seq<char>, answers: JsonView, words: Seq<char>) -> DecisionView {
    DecisionView { action: Some(action), answers, text: words, decided_by: "user"@ }
}

proof fn lemma_decision_fields(d: DecisionView, kind: Seq<char>)
    ensures
        ({
            let j = interaction::decision_json(d, kind);
            &&& j is Obj
            &&& j.field("action"@) == Some(
                match d.action {
                    Some(a) => JsonView::Str(a),
                    None => JsonView::Null,
                },
            )
            &&& j.field("answers"@) == Some(d.answers)
            &&& j.field("text"@) == Some(JsonView::Str(d.text))
            &&& j.field("decidedBy"@) == Some(JsonView::Str(d.decided_by))
        }),
{
    broadcast use crate::json::group_fields;

    reveal_strlit("ok");
    reveal_strlit("kind");
    reveal_strlit("action");
    reveal_strlit("answers");
    reveal_strlit("text");
    reveal_strlit("decidedBy");
    assert("ok"@.len() == 2 && "kind"@.len() == 4 && "action"@.len() == 6);
    assert("answers"@.len() == 7 && "text"@.len() == 4 && "decidedBy"@.len() == 9);
    assert("kind"@[0] == 'k' && "text"@[0] == 't');
}

proof fn lemma_text_picked(v: JsonView, k: &str, s: Seq<char>)
    requires
        v.field(k@) == Some(JsonView::Str(s)),
    ensures
        v.pick_text(seq![k]) == s,
{
    let keys = seq![k];
    assert(keys.drop_first() =~= Seq::empty());
    assert(v.pick(keys.drop_first()) is None);
    if s.len() == 0 {
        assert(s =~= Seq::empty());
    }
}

/// A decision can be told: it reads back as it was where the answers do.
pub proof fn law_decisions_are_plain(d: DecisionView, kind: Seq<char>)
    requires
        json::plain(d.answers, json::MAX_DEPTH as int - 1),
    ensures
        json::plain(interaction::decision_json(d, kind), json::MAX_DEPTH as int),
{
    broadcast use crate::json::group_fields;

    reveal_strlit("ok");
    reveal_strlit("kind");
    reveal_strlit("action");
    reveal_strlit("answers");
    reveal_strlit("text");
    reveal_strlit("decidedBy");
    assert("ok"@.len() == 2 && "kind"@.len() == 4 && "action"@.len() == 6);
    assert("answers"@.len() == 7 && "text"@.len() == 4 && "decidedBy"@.len() == 9);
    assert("kind"@[0] == 'k' && "text"@[0] == 't');
    let depth = json::MAX_DEPTH as int;
    let action = match d.action {
        Some(a) => JsonView::Str(a),
        None => JsonView::Null,
    };
    let j0 = JsonView::object();
    let j1 = j0.with("ok"@, JsonView::Bool(true));
    let j2 = j1.with("kind"@, JsonView::Str(kind));
    let j3 = j2.with("action"@, action);
    let j4 = j3.with("answers"@, d.answers);
    let j5 = j4.with("text"@, JsonView::Str(d.text));
    json::lemma_plain_with(j0, "ok"@, JsonView::Bool(true), depth);
    json::lemma_plain_with(j1, "kind"@, JsonView::Str(kind), depth);
    json::lemma_plain_with(j2, "action"@, action, depth);
    json::lemma_plain_with(j3, "answers"@, d.answers, depth);
    json::lemma_plain_with(j4, "text"@, JsonView::Str(d.text), depth);
    json::lemma_plain_with(j5, "decidedBy"@, JsonView::Str(d.decided_by), depth);
}

/// What the user decided is what the hook reads: the action, the answers and the
/// words.
pub proof fn law_the_users_decision_is_read(
    action: Seq<char>,
    answers: JsonView,
    words: Seq<char>,
    kind: Seq<char>,
)
    ensures
        ({
            let reply = interaction::decision_json(by_user(action, answers, words), kind);
            &&& reply.truthy()
            &&& ancli::user_action(reply) == Some(action)
            &&& reply.field("answers"@) == Some(answers)
            &&& reply.pick_text(seq!["text"]) == words
        }),
{
    let d = by_user(action, answers, words);
    let reply = interaction::decision_json(d, kind);
    lemma_decision_fields(d, kind);
    lemma_text_picked(reply, "decidedBy", "user"@);
    lemma_text_picked(reply, "action", action);
    lemma_text_picked(reply, "text", words);
}

/// A permission that the user granted or refused in the popup is granted or
/// refused to the host, with the user's words; one granted for good is also
/// remembered.
pub proof fn law_the_host_gets_the_users_verdict(
    p: JsonView,
    source: Seq<char>,
    e: Env,
    answers: JsonView,
    words: Seq<char>,
    kind: Seq<char>,
)
    ensures
        ({
            let reply = interaction::decision_json(by_user("allow"@, answers, words), kind);
            &&& ancli::permission_answer_of(p, source, e, reply) == Some(
                ancli::request_answer(
                    ancli::verdict("allow"@, text::either(words, "用户通过番茄钟弹窗允许"@)),
                ),
            )
            &&& cursor::permission_answer_of(ancli::event_of(p), reply).field("permission"@)
                == Some(JsonView::Str("allow"@))
            &&& opencode::permission_answer_of(reply).field("status"@) == Some(
                JsonView::Str("allow"@),
            )
        }),
        ({
            let reply = interaction::decision_json(by_user("deny"@, answers, words), kind);
            &&& ancli::permission_answer_of(p, source, e, reply) == Some(
                ancli::request_answer(
                    ancli::verdict(
                        "deny"@,
                        if words.len() == 0 {
                            "用户通过番茄钟弹窗拒绝"@
                        } else {
                            "用户拒绝："@ + words
                        },
                    ),
                ),
            )
            &&& cursor::permission_answer_of(ancli::event_of(p), reply).field("permission"@)
                == Some(JsonView::Str("deny"@))
            &&& opencode::permission_answer_of(reply).field("status"@) == Some(
                JsonView::Str("deny"@),
            )
        }),
        ({
            let reply = interaction::decision_json(by_user("allow-always"@, answers, words), kind);
            &&& ancli::permission_answer_of(p, source, e, reply) == Some(
                ancli::request_answer(ancli::always_decision(p, source, e)),
            )
            &&& ancli::always(reply)
            &&& cursor::permission_answer_of(ancli::event_of(p), reply).field("permission"@)
                == Some(JsonView::Str("allow"@))
        }),
{
    broadcast use crate::json::group_fields;

    reveal_strlit("allow");
    reveal_strlit("deny");
    reveal_strlit("allow-always");
    assert("allow"@.len() == 5 && "deny"@.len() == 4 && "allow-always"@.len() == 12);
    law_the_users_decision_is_read("allow"@, answers, words, kind);
    law_the_users_decision_is_read("deny"@, answers, words, kind);
    law_the_users_decision_is_read("allow-always"@, answers, words, kind);
}

/// Answers that the user gave in the popup are those that the host gets.
pub proof fn law_the_host_gets_the_users_answers(
    p: JsonView,
    source: Seq<char>,
    e: Env,
    answers: JsonView,
    words: Seq<char>,
    kind: Seq<char>,
)
    ensures
        ({
            let reply = interaction::decision_json(by_user("submit"@, answers, words), kind);
            let given = JsonView::Obj(
                proto::answer_map(ancli::asked(p), answers, ancli::asked(p).len() as int),
            );
            ancli::ask_answer_of(p, source, e, reply) == Some(
                ancli::submitted(p, source, e, given),
            )
        }),
        ({
            let reply = interaction::decision_json(by_user("cancel"@, answers, words), kind);
            &&& ancli::ask_answer_of(p, source, e, reply) == Some(ancli::cancelled(p, words))
            &&& opencode::question_answer_of(p, reply) == opencode::rejection()
        }),
{
    reveal_strlit("submit");
    reveal_strlit("cancel");
    assert("submit"@[0] == 's' && "cancel"@[0] == 'c');
    law_the_users_decision_is_read("submit"@, answers, words, kind);
    law_the_users_decision_is_read("cancel"@, answers, words, kind);
}

/// A popup that ended otherwise than by the user decides nothing: the host asks by
/// itself, whatever the popup fell back to.
pub proof fn law_an_unanswered_popup_decides_nothing(
    p: JsonView,
    source: Seq<char>,
    e: Env,
    d: DecisionView,
    kind: Seq<char>,
)
    requires
        d.decided_by != "user"@,
    ensures
        ({
            let reply = interaction::decision_json(d, kind);
            &&& ancli::permission_answer_of(p, source, e, reply) is None
            &&& ancli::ask_answer_of(p, source, e, reply) is None
            &&& !ancli::always(reply)
            &&& cursor::answer_of(p, e, reply).field("permission"@) == Some(JsonView::Str("ask"@))
            &&& opencode::permission_answer_of(reply).field("status"@) == Some(
                JsonView::Str("ask"@),
            )
            &&& opencode::question_answer_of(p, reply) == opencode::rejection()
        }),
{
    let reply = interaction::decision_json(d, kind);
    lemma_decision_fields(d, kind);
    lemma_text_picked(reply, "decidedBy", d.decided_by);
    ancli::law_no_decision_without_the_user(p, source, e, reply);
    cursor::law_undecided_goes_back_to_cursor(p, e, reply);
    opencode::law_undecided_goes_back_to_opencode(p, reply);
}

// ---------------------------------------------------------------------------
// There and back
// ---------------------------------------------------------------------------

/// What the host asks is what the popup asks, question by question; and what the user
/// chooses there for a question goes back to the host under the words of that
/// question. So the user's choice reaches the host whatever lies between.
pub proof fn law_a_question_goes_there_and_back(
    p: JsonView,
    source: Seq<char>,
    context: JsonView,
    e: Env,
    input: JsonView,
    raw: Seq<JsonView>,
    i: int,
    said: Seq<char>,
    header: Seq<char>,
    multi: bool,
    answers: JsonView,
    picked: Seq<JsonView>,
    words: Seq<char>,
)
    requires
        p.field("tool_input"@) == Some(input),
        input.field("questions"@) == Some(JsonView::Arr(raw)),
        0 <= i < raw.len(),
        raw.len() <= 4,
        forall|j: int|
            0 <= j < raw.len() ==> ((#[trigger] raw[j]).field("question"@) matches Some(
                JsonView::Str(s),
            ) && 0 < s.len() <= 200),
        forall|j: int, k: int|
            0 <= j < k < raw.len() ==> (#[trigger] raw[j]).field("question"@) != (
            #[trigger] raw[k]).field("question"@),
        raw[i].field("question"@) == Some(JsonView::Str(said)),
        raw[i].field("header"@) == Some(JsonView::Str(header)),
        header.len() <= 24,
        raw[i].field("multiSelect"@) == Some(JsonView::Bool(multi)),
        raw[i].field("multiple"@) is None,
        picked.len() > 0,
        !ancli::answers_in_reason(source, e),
        p.pick_text(seq!["hook_event_name"]) != "PermissionRequest"@,
        ancli::ask_step_of(p, source, context, None, e) matches StepView::Interact(body, _) && ({
            let shown = payload::normal_form(body, Reading::Absent).items("questions"@);
            shown[i].field("id"@) matches Some(JsonView::Str(id)) && answers.field(id) == Some(
                JsonView::Arr(picked),
            )
        }),
    ensures
        ({
            let reply = interaction::decision_json(by_user("submit"@, answers, words), "ask"@);
            ancli::told(ancli::ask_answer_of(p, source, e, reply)) matches Some(h) && h.field(
                "permissionDecision"@,
            ) == Some(JsonView::Str("allow"@)) && (h.field("updatedInput"@) matches Some(u) && (
            u.field("answers"@) matches Some(a) && a.field(said) == Some(
                if multi {
                    JsonView::Arr(picked)
                } else {
                    picked[0]
                },
            )))
        }),
        ancli::ask_step_of(p, source, context, None, e) matches StepView::Interact(body, _) && ({
            let popup = payload::normal_form(body, Reading::Absent);
            let shown = popup.items("questions"@);
            &&& popup.field("kind"@) == Some(JsonView::Str("ask"@))
            &&& shown.len() == raw.len()
            &&& shown[i].field("question"@) == Some(JsonView::Str(said))
            &&& shown[i].field("multiSelect"@) == Some(JsonView::Bool(multi))
        }),
{
    let reply = interaction::decision_json(by_user("submit"@, answers, words), "ask"@);
    lemma_decision_fields(by_user("submit"@, answers, words), "ask"@);
    let keys: Seq<&str> = seq!["tool_input", "toolInput"];
    assert(keys[0]@ == "tool_input"@);
    json::law_the_first_name_counts(p, keys, 0);
    assert(proto::question_input(p) == input);
    proto::law_questions_are_shown_as_asked(input, raw, i, said, header, multi);
    let qs = ancli::asked(p);
    ancli::law_questions_go_to_the_user(p, source, context, e, said);
    let body = ancli::ask_body(p, source, context, env::wait_of(e.timeout));
    assert(body.items("questions"@) == qs);
    assert(body.field("questions"@) == Some(JsonView::Arr(qs)));
    assert forall|j: int| 0 <= j < qs.len() implies ((#[trigger] qs[j]).field("question"@) matches Some(
        JsonView::Str(s),
    ) && 0 < s.len() <= 200) by {
        proto::lemma_question_fields(raw[j], j);
        let names: Seq<&str> = seq!["question", "text", "title"];
        assert(names[0]@ == "question"@);
        assert(raw[j].field("question"@) matches Some(JsonView::Str(s)) && 0 < s.len() <= 200);
        json::law_the_first_name_counts(raw[j], names, 0);
        assert(qs[j] == proto::question_of(raw[j], j));
    }
    proto::lemma_question_fields(raw[i], i);
    assert(qs[i] == proto::question_of(raw[i], i));
    lemma_shown_as_object(raw[i], i);
    let id = "q"@ + text::int_text(i);
    reveal_strlit("q");
    assert(id.len() > 0);
    payload::law_the_popup_asks_what_is_asked(
        body,
        Reading::Absent,
        qs,
        i,
        id,
        header,
        multi,
    );
    payload::law_the_kind_is_kept(body, Reading::Absent, "ask"@);
    ancli::law_each_answer_comes_back_under_its_question(
        p,
        source,
        context,
        e,
        reply,
        input,
        raw,
        answers,
        picked,
        i,
        said,
        header,
        multi,
    );
    ancli::law_submitted_answers_let_the_tool_go_on(p, source, e, reply, input, "questions"@);
}

proof fn lemma_shown_as_object(q: JsonView, i: int)
    ensures
        proto::question_of(q, i).field("multiple"@) is None,
{
    broadcast use crate::json::group_fields;

    reveal_strlit("id");
    reveal_strlit("question");
    reveal_strlit("header");
    reveal_strlit("multiSelect");
    reveal_strlit("custom");
    reveal_strlit("options");
    reveal_strlit("multiple");
    assert("id"@.len() == 2);
    assert("question"@.len() == 8);
    assert("header"@.len() == 6);
    assert("multiSelect"@.len() == 11);
    assert("custom"@.len() == 6);
    assert("options"@.len() == 7);
    assert("multiple"@.len() == 8);
    assert("question"@[0] == 'q');
    assert("header"@[0] == 'h');
    assert("custom"@[0] == 'c');
    assert("multiple"@[0] == 'm');
}

/// What the host asks a permission for is what the popup asks for: the same tool, the
/// same rule; and what the user decides there is what the host is told.
pub proof fn law_a_permission_goes_there_and_back(
    p: JsonView,
    source: Seq<char>,
    context: JsonView,
    rules: Seq<JsonView>,
    e: Env,
    input: JsonView,
    tool: Seq<char>,
    rule: Seq<char>,
    action: Seq<char>,
    answers: JsonView,
    words: Seq<char>,
)
    requires
        p.field("tool_name"@) == Some(JsonView::Str(tool)),
        0 < tool.len() <= 60,
        p.field("tool_input"@) == Some(input),
        input.field("command"@) == Some(JsonView::Str(rule)),
        0 < rule.len() <= 200,
        action == "allow"@ || action == "allow-always"@ || action == "deny"@,
        !cache::rule_matches(source, tool, rule, rules, e),
    ensures
        ancli::permission_step_of(p, source, context, rules, e) matches StepView::Interact(body, _)
            && ({
            let popup = payload::normal_form(body, Reading::Absent);
            &&& popup.field("kind"@) == Some(JsonView::Str("permission"@))
            &&& popup.field("permission"@) matches Some(a)
            &&& a.field("tool"@) == Some(JsonView::Str(tool))
            &&& a.field("rule"@) == Some(JsonView::Str(rule))
            &&& popup.field("defaultAction"@) == Some(JsonView::Str("deny"@))
        }),
        ({
            let reply = interaction::decision_json(by_user(action, answers, words), "permission"@);
            ancli::told(ancli::permission_answer_of(p, source, e, reply)) matches Some(h) && (h.field(
                "decision"@,
            ) matches Some(d) && d.field("behavior"@) == Some(
                JsonView::Str(
                    if action == "deny"@ {
                        "deny"@
                    } else {
                        "allow"@
                    },
                ),
            ))
        }),
{
    ancli::law_permissions_go_to_the_user(p, source, context, rules, e, input, tool, rule);
    json::lemma_picked(p, "tool_name", JsonView::Str(tool));
    json::lemma_picked(p, "tool_input", input);
    let body = ancli::permission_body(p, source, context, e);
    proto::law_the_rule_is_what_the_tool_does(input, rule);
    let asked_for = body.field("permission"@)->0;
    payload::law_the_permission_is_shown(body, Reading::Absent, asked_for, tool, rule, true);
    payload::law_the_kind_is_kept(body, Reading::Absent, "permission"@);
    lemma_no_fallback(p, source, context, e);
    payload::law_safe_when_unanswered(body, Reading::Absent);
    ancli::lemma_words_differ();
    let reply = interaction::decision_json(by_user(action, answers, words), "permission"@);
    lemma_decision_fields(by_user(action, answers, words), "permission"@);
    ancli::law_the_users_verdict_is_printed(p, source, e, reply, words);
}

proof fn lemma_no_fallback(p: JsonView, source: Seq<char>, context: JsonView, e: Env)
    ensures
        ancli::permission_body(p, source, context, e).field("defaultAction"@) is None,
        payload::kind_of(ancli::permission_body(p, source, context, e)) == "permission"@,
{
    broadcast use crate::json::group_fields;

    reveal_strlit("kind");
    reveal_strlit("source");
    reveal_strlit("title");
    reveal_strlit("message");
    reveal_strlit("detail");
    reveal_strlit("permission");
    reveal_strlit("context");
    reveal_strlit("timeoutMs");
    reveal_strlit("defaultAction");
    assert("kind"@.len() == 4);
    assert("source"@.len() == 6);
    assert("title"@.len() == 5);
    assert("message"@.len() == 7);
    assert("detail"@.len() == 6);
    assert("permission"@.len() == 10);
    assert("context"@.len() == 7);
    assert("timeoutMs"@.len() == 9);
    assert("defaultAction"@.len() == 13);
    assert("source"@[0] == 's');
    assert("message"@[0] == 'm');
    assert("detail"@[0] == 'd');
    assert("context"@[0] == 'c');
}

} // verus!
