//! Popups by hand, to try them without any agent.

use vstd::prelude::*;
use crate::args;
use crate::args::{collect_flag, first};
use crate::env;
use crate::env::{timeout_ms, Env};
use crate::json;
use crate::json::{Json, JsonView};
use crate::step::{Step, StepView};
use crate::text;
use crate::text::{cat2, decimal, first_or};

verus! {

broadcast use crate::json::group_json;

/// The context that the arguments give.
pub open spec fn context_of(a: Seq<Seq<char>>) -> JsonView {
    JsonView::object().with(
        "agent"@,
        JsonView::Str(text::either(args::first_value(a, "agent"@), "manual"@)),
    ).with("agentType"@, JsonView::Str(args::first_value(a, "agent-type"@))).with(
        "session"@,
        JsonView::Str("manual"@),
    ).with(
        "project"@,
        JsonView::Str(text::either(args::first_value(a, "project"@), "manual"@)),
    ).with("task"@, JsonView::Str(args::first_value(a, "task"@))).with(
        "tool"@,
        JsonView::Str(Seq::empty()),
    ).with("toolDetail"@, JsonView::Str(Seq::empty()))
}

/// Makes the context that the arguments give.
pub fn manual_context(args: &[String]) -> (r: Json)
    ensures
        r@ == context_of(text::texts(args@)),
{
    Json::object().with(
        "agent",
        Json::Str(first_or(first(args, "agent").as_str(), "manual")),
    ).with("agentType", Json::Str(first(args, "agent-type"))).with(
        "session",
        Json::text("manual"),
    ).with("project", Json::Str(first_or(first(args, "project").as_str(), "manual"))).with(
        "task",
        Json::Str(first(args, "task")),
    ).with("tool", Json::Str(String::new())).with("toolDetail", Json::Str(String::new()))
}

/// The options that the arguments give, which all questions share.
pub open spec fn options_of(labels: Seq<Seq<char>>) -> Seq<JsonView> {
    Seq::new(
        labels.len(),
        |j: int|
            JsonView::object().with("id"@, JsonView::Str("o"@ + text::int_text(j))).with(
                "label"@,
                JsonView::Str(labels[j]),
            ).with("description"@, JsonView::Str(Seq::empty())),
    )
}

/// The questions that the arguments give, with one to try where they give none.
pub open spec fn asked(a: Seq<Seq<char>>) -> Seq<Seq<char>> {
    let given = args::flag_values(a, "question"@);
    if given.len() == 0 {
        seq!["手动测试提问"@]
    } else {
        given
    }
}

/// The questions in the popup's shape. There is always room for an answer in
/// words.
pub open spec fn questions_of(a: Seq<Seq<char>>) -> Seq<JsonView> {
    let options = options_of(args::flag_values(a, "option"@));
    Seq::new(
        asked(a).len(),
        |i: int|
            JsonView::object().with("id"@, JsonView::Str("q"@ + text::int_text(i))).with(
                "question"@,
                JsonView::Str(asked(a)[i]),
            ).with("header"@, JsonView::Str("测试"@)).with(
                "multiSelect"@,
                JsonView::Bool(false),
            ).with("custom"@, JsonView::Bool(true)).with("options"@, JsonView::Arr(options)),
    )
}

/// Makes the options that the arguments give.
pub fn read_options(args: &[String]) -> (r: Vec<Json>)
    ensures
        json::views(r@) == options_of(args::flag_values(text::texts(args@), "option"@)),
{
    let labels = collect_flag(args, "option");
    let ghost all = text::texts(labels@);
    let mut r: Vec<Json> = Vec::new();
    let mut j: usize = 0;
    while j < labels.len()
        invariant
            j <= labels@.len(),
            all == text::texts(labels@),
            r@.len() == j,
            forall|k: int| 0 <= k < j ==> (#[trigger] r@[k])@ == options_of(all)[k],
        decreases labels.len() - j,
    {
        assert(all[j as int] == labels@[j as int]@);
        let id = cat2("o", decimal(j as u64).as_str());
        r.push(
            Json::object().with("id", Json::Str(id)).with("label", Json::text(labels[j].as_str())).with(
                "description",
                Json::Str(String::new()),
            ),
        );
        j += 1;
    }
    assert(json::views(r@) =~= options_of(all));
    r
}

/// Makes the questions that the arguments give.
pub fn read_questions(args: &[String]) -> (r: Vec<Json>)
    ensures
        json::views(r@) == questions_of(text::texts(args@)),
{
    let ghost a = text::texts(args@);
    let mut given = collect_flag(args, "question");
    assert(text::texts(given@).len() == given@.len());
    if given.len() == 0 {
        given.push("手动测试提问".to_owned());
    }
    assert(text::texts(given@) =~= asked(a));
    let ghost options = options_of(args::flag_values(a, "option"@));
    let mut r: Vec<Json> = Vec::new();
    let mut i: usize = 0;
    while i < given.len()
        invariant
            i <= given@.len(),
            a == text::texts(args@),
            text::texts(given@) == asked(a),
            r@.len() == i,
            forall|k: int| 0 <= k < i ==> (#[trigger] r@[k])@ == questions_of(a)[k],
        decreases given.len() - i,
    {
        assert(asked(a)[i as int] == given@[i as int]@);
        let id = cat2("q", decimal(i as u64).as_str());
        r.push(
            Json::object().with("id", Json::Str(id)).with(
                "question",
                Json::text(given[i].as_str()),
            ).with("header", Json::text("测试")).with("multiSelect", Json::Bool(false)).with(
                "custom",
                Json::Bool(true),
            ).with("options", Json::Arr(read_options(args))),
        );
        i += 1;
    }
    assert(json::views(r@) =~= questions_of(a));
    r
}

/// The request for a popup with questions.
pub open spec fn ask_body(a: Seq<Seq<char>>, ms: int) -> JsonView {
    JsonView::object().with("kind"@, JsonView::Str("ask"@)).with(
        "source"@,
        JsonView::Str("manual"@),
    ).with("title"@, JsonView::Str("手动测试 · 提问"@)).with(
        "questions"@,
        JsonView::Arr(questions_of(a)),
    ).with(
        "context"@,
        context_of(a).set("tool"@, JsonView::Str("AskUserQuestion"@)),
    ).with("timeoutMs"@, JsonView::Int(ms))
}

/// Asks questions by hand.
pub fn run_ask(args: &[String], e: &Env) -> (r: Step)
    ensures
        r@ == StepView::Interact(
            ask_body(text::texts(args@), env::wait_of(e.timeout)),
            env::wait_of(e.timeout),
        ),
{
    let ms: u64 = timeout_ms(e.timeout);
    let body = Json::object().with("kind", Json::text("ask")).with(
        "source",
        Json::text("manual"),
    ).with("title", Json::text("手动测试 · 提问")).with(
        "questions",
        Json::Arr(read_questions(args)),
    ).with("context", manual_context(args).set("tool", Json::text("AskUserQuestion"))).with(
        "timeoutMs",
        Json::PosInt(ms),
    );
    Step::Interact(body, ms)
}

/// The request for a popup that asks for a permission.
pub open spec fn permission_body(a: Seq<Seq<char>>, ms: int) -> JsonView {
    let tool = text::either(args::first_value(a, "tool"@), "Bash"@);
    let detail = args::first_value(a, "detail"@);
    JsonView::object().with("kind"@, JsonView::Str("permission"@)).with(
        "source"@,
        JsonView::Str("manual"@),
    ).with("title"@, JsonView::Str("手动测试 · 权限"@)).with("detail"@, JsonView::Str(detail)).with(
        "permission"@,
        JsonView::object().with("tool"@, JsonView::Str(tool)).with(
            "rule"@,
            JsonView::Str(text::either(detail, "*"@)),
        ).with("canAlways"@, JsonView::Bool(true)),
    ).with(
        "context"@,
        context_of(a).set("tool"@, JsonView::Str(tool)).set("toolDetail"@, JsonView::Str(detail)),
    ).with("timeoutMs"@, JsonView::Int(ms))
}

/// Asks for a permission by hand.
pub fn run_permission(args: &[String], e: &Env) -> (r: Step)
    ensures
        r@ == StepView::Interact(
            permission_body(text::texts(args@), env::wait_of(e.timeout)),
            env::wait_of(e.timeout),
        ),
{
    let ms: u64 = timeout_ms(e.timeout);
    let tool = first_or(first(args, "tool").as_str(), "Bash");
    let detail = first(args, "detail");
    let rule = first_or(detail.as_str(), "*");
    let permission = Json::object().with("tool", Json::text(tool.as_str())).with(
        "rule",
        Json::Str(rule),
    ).with("canAlways", Json::Bool(true));
    let ctx = manual_context(args).set("tool", Json::Str(tool)).set(
        "toolDetail",
        Json::text(detail.as_str()),
    );
    let body = Json::object().with("kind", Json::text("permission")).with(
        "source",
        Json::text("manual"),
    ).with("title", Json::text("手动测试 · 权限")).with("detail", Json::Str(detail)).with(
        "permission",
        permission,
    ).with("context", ctx).with("timeoutMs", Json::PosInt(ms));
    Step::Interact(body, ms)
}

// ---------------------------------------------------------------------------
// Laws
// ---------------------------------------------------------------------------

/// What is asked by hand is what the arguments say: the questions in their order, each
/// with all the choices, and room for other words.
pub proof fn law_what_is_asked_by_hand(a: Seq<Seq<char>>, ms: int, i: int, j: int)
    requires
        0 <= i < args::flag_values(a, "question"@).len(),
    ensures
        ({
            let b = ask_body(a, ms);
            let shown = b.items("questions"@);
            let choices = shown[i].items("options"@);
            let given = args::flag_values(a, "option"@);
            &&& b.field("kind"@) == Some(JsonView::Str("ask"@))
            &&& b.field("source"@) == Some(JsonView::Str("manual"@))
            &&& b.field("timeoutMs"@) == Some(JsonView::Int(ms))
            &&& shown.len() == args::flag_values(a, "question"@).len()
            &&& shown[i].field("question"@) == Some(
                JsonView::Str(args::flag_values(a, "question"@)[i]),
            )
            &&& shown[i].field("custom"@) == Some(JsonView::Bool(true))
            &&& choices.len() == given.len()
            &&& 0 <= j < given.len() ==> choices[j].field("label"@) == Some(JsonView::Str(given[j]))
        }),
{
    broadcast use crate::json::group_fields;

    reveal_strlit("kind");
    reveal_strlit("source");
    reveal_strlit("title");
    reveal_strlit("questions");
    reveal_strlit("context");
    reveal_strlit("timeoutMs");
    assert("kind"@.len() == 4);
    assert("source"@.len() == 6);
    assert("title"@.len() == 5);
    assert("questions"@.len() == 9);
    assert("context"@.len() == 7);
    assert("timeoutMs"@.len() == 9);
    assert("questions"@[0] == 'q');
    assert("timeoutMs"@[0] == 't');
    reveal_strlit("id");
    reveal_strlit("question");
    reveal_strlit("header");
    reveal_strlit("multiSelect");
    reveal_strlit("custom");
    reveal_strlit("options");
    reveal_strlit("label");
    reveal_strlit("description");
    assert("id"@.len() == 2);
    assert("question"@.len() == 8);
    assert("header"@.len() == 6);
    assert("multiSelect"@.len() == 11);
    assert("custom"@.len() == 6);
    assert("options"@.len() == 7);
    assert("label"@.len() == 5);
    assert("description"@.len() == 11);
    assert("header"@[0] == 'h');
    assert("multiSelect"@[0] == 'm');
    assert("custom"@[0] == 'c');
    assert("description"@[0] == 'd');
}

/// What is asked for by hand is what the arguments say: the tool, or `Bash`, and what
/// it is about to do, or anything.
pub proof fn law_what_is_asked_for_by_hand(a: Seq<Seq<char>>, ms: int)
    ensures
        ({
            let b = permission_body(a, ms);
            let tools = args::flag_values(a, "tool"@);
            let details = args::flag_values(a, "detail"@);
            &&& b.field("kind"@) == Some(JsonView::Str("permission"@))
            &&& b.field("source"@) == Some(JsonView::Str("manual"@))
            &&& b.field("timeoutMs"@) == Some(JsonView::Int(ms))
            &&& b.field("permission"@) matches Some(p)
            &&& p.field("canAlways"@) == Some(JsonView::Bool(true))
            &&& tools.len() > 0 && tools[0].len() > 0 ==> p.field("tool"@) == Some(
                JsonView::Str(tools[0]),
            )
            &&& tools.len() == 0 ==> p.field("tool"@) == Some(JsonView::Str("Bash"@))
            &&& details.len() > 0 && details[0].len() > 0 ==> p.field("rule"@) == Some(
                JsonView::Str(details[0]),
            ) && b.field("detail"@) == Some(JsonView::Str(details[0]))
            &&& details.len() == 0 ==> p.field("rule"@) == Some(JsonView::Str("*"@))
        }),
{
    broadcast use crate::json::group_fields;

    reveal_strlit("kind");
    reveal_strlit("source");
    reveal_strlit("title");
    reveal_strlit("detail");
    reveal_strlit("permission");
    reveal_strlit("context");
    reveal_strlit("timeoutMs");
    reveal_strlit("tool");
    reveal_strlit("rule");
    reveal_strlit("canAlways");
    assert("kind"@.len() == 4);
    assert("source"@.len() == 6);
    assert("title"@.len() == 5);
    assert("detail"@.len() == 6);
    assert("permission"@.len() == 10);
    assert("context"@.len() == 7);
    assert("timeoutMs"@.len() == 9);
    assert("tool"@.len() == 4);
    assert("rule"@.len() == 4);
    assert("canAlways"@.len() == 9);
    assert("kind"@[0] == 'k');
    assert("source"@[0] == 's');
    assert("detail"@[0] == 'd');
    assert("timeoutMs"@[0] == 't');
    assert("tool"@[0] == 't');
    assert("rule"@[0] == 'r');
    assert("canAlways"@[0] == 'c');
}

/// The context of what is asked by hand is what the arguments say, else it is said to
/// be by hand.
pub proof fn law_context_by_hand(a: Seq<Seq<char>>)
    ensures
        ({
            let c = context_of(a);
            let agents = args::flag_values(a, "agent"@);
            let tasks = args::flag_values(a, "task"@);
            let projects = args::flag_values(a, "project"@);
            &&& agents.len() > 0 && agents[0].len() > 0 ==> c.field("agent"@) == Some(
                JsonView::Str(agents[0]),
            )
            &&& agents.len() == 0 ==> c.field("agent"@) == Some(JsonView::Str("manual"@))
            &&& tasks.len() > 0 ==> c.field("task"@) == Some(JsonView::Str(tasks[0]))
            &&& projects.len() > 0 && projects[0].len() > 0 ==> c.field("project"@) == Some(
                JsonView::Str(projects[0]),
            )
            &&& projects.len() == 0 ==> c.field("project"@) == Some(JsonView::Str("manual"@))
            &&& c.field("session"@) == Some(JsonView::Str("manual"@))
        }),
{
    broadcast use crate::json::group_fields;

    reveal_strlit("agent");
    reveal_strlit("agentType");
    reveal_strlit("session");
    reveal_strlit("project");
    reveal_strlit("task");
    reveal_strlit("tool");
    reveal_strlit("toolDetail");
    assert("agent"@.len() == 5);
    assert("agentType"@.len() == 9);
    assert("session"@.len() == 7);
    assert("project"@.len() == 7);
    assert("task"@.len() == 4);
    assert("tool"@.len() == 4);
    assert("toolDetail"@.len() == 10);
    assert("session"@[0] == 's');
    assert("project"@[0] == 'p');
    assert("task"@[1] == 'a');
    assert("tool"@[1] == 'o');
}

/// Without a question by hand one is asked all the same, under its title.
pub proof fn law_something_is_asked_by_hand(a: Seq<Seq<char>>, ms: int)
    ensures
        ask_body(a, ms).field("title"@) == Some(JsonView::Str("手动测试 · 提问"@)),
        permission_body(a, ms).field("title"@) == Some(JsonView::Str("手动测试 · 权限"@)),
        args::flag_values(a, "question"@).len() == 0 ==> questions_of(a).len() == 1
            && questions_of(a)[0].field("question"@) == Some(JsonView::Str("手动测试提问"@))
            && questions_of(a)[0].field("header"@) == Some(JsonView::Str("测试"@)),
        args::flag_values(a, "agent-type"@).len() > 0 ==> context_of(a).field("agentType"@) == Some(
            JsonView::Str(args::flag_values(a, "agent-type"@)[0]),
        ),
{
    broadcast use crate::json::group_fields;

    reveal_strlit("kind");
    reveal_strlit("source");
    reveal_strlit("title");
    reveal_strlit("questions");
    reveal_strlit("context");
    reveal_strlit("timeoutMs");
    reveal_strlit("detail");
    reveal_strlit("permission");
    assert("kind"@.len() == 4);
    assert("source"@.len() == 6);
    assert("title"@.len() == 5);
    assert("questions"@.len() == 9);
    assert("context"@.len() == 7);
    assert("timeoutMs"@.len() == 9);
    assert("detail"@.len() == 6);
    assert("permission"@.len() == 10);
    assert("source"@[0] == 's');
    assert("questions"@[0] == 'q');
    assert("timeoutMs"@[0] == 't');
    assert("detail"@[0] == 'd');
    reveal_strlit("id");
    reveal_strlit("question");
    reveal_strlit("header");
    reveal_strlit("multiSelect");
    reveal_strlit("custom");
    reveal_strlit("options");
    assert("id"@.len() == 2);
    assert("question"@.len() == 8);
    assert("header"@.len() == 6);
    assert("multiSelect"@.len() == 11);
    assert("custom"@.len() == 6);
    assert("options"@.len() == 7);
    assert("header"@[0] == 'h');
    assert("custom"@[0] == 'c');
    reveal_strlit("agent");
    reveal_strlit("agentType");
    reveal_strlit("session");
    reveal_strlit("project");
    reveal_strlit("task");
    reveal_strlit("tool");
    reveal_strlit("toolDetail");
    assert("agent"@.len() == 5);
    assert("agentType"@.len() == 9);
    assert("session"@.len() == 7);
    assert("project"@.len() == 7);
    assert("task"@.len() == 4);
    assert("tool"@.len() == 4);
    assert("toolDetail"@.len() == 10);
    assert("session"@[0] == 's');
    assert("project"@[0] == 'p');
    assert("task"@[1] == 'a');
    assert("tool"@[1] == 'o');
}

/// What is asked by hand is said to be asked by the asking tool, what is asked for to be
/// by the tool and with the detail that are named, and every choice has its own id.
pub proof fn law_context_of_what_is_asked_by_hand(a: Seq<Seq<char>>, ms: int, j: int)
    requires
        0 <= j < args::flag_values(a, "option"@).len(),
    ensures
        ask_body(a, ms).field("context"@) matches Some(c) && c.field("tool"@) == Some(
            JsonView::Str("AskUserQuestion"@),
        ),
        args::flag_values(a, "detail"@).len() > 0 ==> (permission_body(a, ms).field(
            "context"@,
        ) matches Some(c) && c.field("toolDetail"@) == Some(
            JsonView::Str(args::flag_values(a, "detail"@)[0]),
        )),
        ({
            let o = options_of(args::flag_values(a, "option"@))[j];
            &&& o.field("id"@) == Some(JsonView::Str("o"@ + text::int_text(j)))
            &&& o.field("description"@) == Some(JsonView::Str(Seq::empty()))
        }),
        questions_of(a).len() > 0 ==> questions_of(a)[0].field("id"@) == Some(
            JsonView::Str("q"@ + text::int_text(0)),
        ) && questions_of(a)[0].field("multiSelect"@) == Some(JsonView::Bool(false)),
{
    broadcast use crate::json::group_fields;

    reveal_strlit("kind");
    reveal_strlit("source");
    reveal_strlit("title");
    reveal_strlit("questions");
    reveal_strlit("context");
    reveal_strlit("timeoutMs");
    reveal_strlit("detail");
    reveal_strlit("permission");
    assert("kind"@.len() == 4);
    assert("source"@.len() == 6);
    assert("title"@.len() == 5);
    assert("questions"@.len() == 9);
    assert("context"@.len() == 7);
    assert("timeoutMs"@.len() == 9);
    assert("detail"@.len() == 6);
    assert("permission"@.len() == 10);
    assert("source"@[0] == 's');
    assert("questions"@[0] == 'q');
    assert("timeoutMs"@[0] == 't');
    assert("detail"@[0] == 'd');
    reveal_strlit("id");
    reveal_strlit("question");
    reveal_strlit("header");
    reveal_strlit("multiSelect");
    reveal_strlit("custom");
    reveal_strlit("options");
    reveal_strlit("label");
    reveal_strlit("description");
    assert("id"@.len() == 2);
    assert("question"@.len() == 8);
    assert("header"@.len() == 6);
    assert("multiSelect"@.len() == 11);
    assert("custom"@.len() == 6);
    assert("options"@.len() == 7);
    assert("label"@.len() == 5);
    assert("description"@.len() == 11);
    assert("header"@[0] == 'h');
    assert("multiSelect"@[0] == 'm');
    assert("custom"@[0] == 'c');
    assert("description"@[0] == 'd');
    reveal_strlit("agent");
    reveal_strlit("agentType");
    reveal_strlit("session");
    reveal_strlit("project");
    reveal_strlit("task");
    reveal_strlit("tool");
    reveal_strlit("toolDetail");
    assert("agent"@.len() == 5);
    assert("agentType"@.len() == 9);
    assert("session"@.len() == 7);
    assert("project"@.len() == 7);
    assert("task"@.len() == 4);
    assert("tool"@.len() == 4);
    assert("toolDetail"@.len() == 10);
    assert("session"@[0] == 's');
    assert("project"@[0] == 'p');
    assert("task"@[1] == 'a');
    assert("tool"@[1] == 'o');
}

} // verus!
