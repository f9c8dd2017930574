//! The gateway's test of itself: what its answers have to be, and the report.

use vstd::prelude::*;
use crate::interaction;
use crate::json;
use crate::json::{get, print_compact, text_field, Json, JsonView};
use crate::text;
use crate::text::{cat2, cat3, decimal, has_prefix, join, parse_number, read_second_word, same};
use crate::text::split_text;

verus! {

broadcast use crate::json::group_json;

/// How long a popup that nobody answers may keep its caller.
pub const QUICK_MS: u64 = 3_000;

/// Why a test failed, if it did.
pub open spec fn failure(r: Result<(), String>) -> Option<Seq<char>> {
    match r {
        Ok(_) => None,
        Err(e) => Some(e@),
    }
}

/// A test that passes where `good` holds.
pub open spec fn outcome(good: bool, why: Seq<char>) -> Option<Seq<char>> {
    if good {
        None
    } else {
        Some(why)
    }
}

// ---------------------------------------------------------------------------
// The report
// ---------------------------------------------------------------------------

/// The line of a test in the report.
pub open spec fn line_of(name: Seq<char>, why: Option<Seq<char>>) -> Seq<char> {
    match why {
        None => "PASS "@ + name,
        Some(e) => "FAIL "@ + name + ": "@ + e,
    }
}

/// Adds the line of a test to the report.
pub fn record(results: &mut Vec<String>, name: &str, outcome: Result<(), String>)
    ensures
        text::texts(final(results)@) == text::texts(old(results)@).push(
            line_of(name@, failure(outcome)),
        ),
{
    let ghost before = text::texts(results@);
    let line = match outcome {
        Ok(_) => cat2("PASS ", name),
        Err(e) => {
            let mut l = cat3("FAIL ", name, ": ");
            l.append(e.as_str());
            l
        },
    };
    results.push(line);
    assert(text::texts(results@) =~= before.push(line@));
}

/// How many of the first `n` lines are of tests that failed.
pub open spec fn failed(lines: Seq<Seq<char>>, n: int) -> nat
    decreases n,
{
    if n <= 0 {
        0
    } else if text::starts_with(lines[n - 1], "FAIL"@) {
        failed(lines, n - 1) + 1
    } else {
        failed(lines, n - 1)
    }
}

/// The report of all tests.
pub fn report(results: &Vec<String>) -> (r: String)
    ensures
        ({
            let lines = text::texts(results@);
            r@ == "[gateway-smoke] "@ + text::decimal_text(lines.len()) + " 项，"@
                + text::decimal_text(failed(lines, lines.len() as int)) + " 失败\n  "@
                + text::joined(lines, "\n  "@)
        }),
{
    let ghost lines = text::texts(results@);
    let mut bad: u64 = 0;
    let mut i: usize = 0;
    while i < results.len()
        invariant
            i <= results@.len(),
            lines == text::texts(results@),
            bad == failed(lines, i as int),
            bad <= i,
        decreases results.len() - i,
    {
        assert(lines[i as int] == results@[i as int]@);
        if has_prefix(results[i].as_str(), "FAIL") {
            bad = bad + 1;
        }
        i += 1;
    }
    let mut r = cat3("[gateway-smoke] ", decimal(results.len() as u64).as_str(), " 项，");
    r.append(decimal(bad).as_str());
    r.append(" 失败\n  ");
    r.append(join(results, "\n  ").as_str());
    r
}

// ---------------------------------------------------------------------------
// Answers
// ---------------------------------------------------------------------------

/// Whether an answer says that all went well.
pub open spec fn is_ok(body: JsonView) -> bool {
    body.field("ok"@) == Some(JsonView::Bool(true))
}

/// An answer as a failed test shows it.
pub open spec fn shown(code: int, body: JsonView) -> Seq<char> {
    "status="@ + text::int_text(code) + " body="@ + json::compact(body)
}

fn show(code: u16, body: &Json) -> (r: String)
    ensures
        r@ == shown(code as int, body@),
{
    let mut r = cat3("status=", decimal(code as u64).as_str(), " body=");
    r.append(print_compact(body).as_str());
    r
}

/// An answer has to be one that says that all went well.
pub fn expect_ok(code: u16, body: &Json) -> (r: Result<(), String>)
    ensures
        failure(r) == outcome(code == 200 && is_ok(body@), shown(code as int, body@)),
{
    let ok = match get(body, "ok") {
        Some(Json::Bool(b)) => *b,
        _ => false,
    };
    if code == 200 && ok {
        Ok(())
    } else {
        Err(show(code, body))
    }
}

/// The status of an answer has to be the one that is wanted. `what` says what was
/// sent.
pub fn expect_status(code: u16, want: u16, what: &str) -> (r: Result<(), String>)
    ensures
        failure(r) == outcome(
            code == want,
            what@ + "期望 "@ + text::int_text(want as int) + "，实际 "@ + text::int_text(code as int),
        ),
{
    if code == want {
        return Ok(());
    }
    let mut e = cat3(what, "期望 ", decimal(want as u64).as_str());
    e.append("，实际 ");
    e.append(decimal(code as u64).as_str());
    Err(e)
}

/// The status in the first line of a response; none where there is none.
pub open spec fn status_in(line: Seq<char>) -> Option<int> {
    text::number_of(text::second_word(line), 10, u16::MAX as int)
}

/// The status of a response.
pub fn read_status(response: &str) -> (r: Result<u16, String>)
    ensures
        ({
            let line = text::split_by(response@, "\n"@)[0];
            match status_in(line) {
                Some(n) => r matches Ok(c) && c == n,
                None => r matches Err(e) && e@ == "响应无法解析："@ + json::compact(
                    JsonView::Str(line),
                ),
            }
        }),
{
    proof {
        reveal_strlit("\n");
        assert("\n"@.len() == 1);
    }
    let lines = split_text(response, "\n");
    let ghost all = text::split_by(response@, "\n"@);
    assert(all.len() == lines@.len());
    assert(all.len() > 0);
    assert(all[0] == lines@[0]@);
    let word = read_second_word(lines[0].as_str());
    match parse_number(word.as_str(), 10, 0xFFFF) {
        Some(n) => Ok(n as u16),
        None => {
            let line = Json::text(lines[0].as_str());
            Err(cat2("响应无法解析：", print_compact(&line).as_str()))
        },
    }
}

/// A number in what an answer says of agents, none where it says none.
pub open spec fn activity_number(body: JsonView, name: Seq<char>) -> Option<int> {
    match body.field("activity"@) {
        Some(a) => match a.field(name) {
            Some(JsonView::Int(n)) if 0 <= n <= u64::MAX => Some(n),
            _ => None,
        },
        None => None,
    }
}

fn read_number(body: &Json, name: &str) -> (r: Option<u64>)
    ensures
        match r {
            Some(n) => activity_number(body@, name@) == Some(n as int),
            None => activity_number(body@, name@) is None,
        },
{
    match get(body, "activity") {
        Some(a) => match get(a, name) {
            Some(Json::PosInt(n)) => Some(*n),
            Some(Json::NegInt(n)) => if *n >= 0 {
                Some(*n as u64)
            } else {
                None
            },
            _ => None,
        },
        None => None,
    }
}

/// A call of a tool has to be counted.
pub fn expect_tool_calls(body: &Json) -> (r: Result<(), String>)
    ensures
        ({
            let n = match activity_number(body@, "toolCalls"@) {
                Some(n) => n,
                None => 0,
            };
            failure(r) == outcome(n >= 1, "toolCalls="@ + text::int_text(n))
        }),
{
    let n: u64 = match read_number(body, "toolCalls") {
        Some(n) => n,
        None => 0,
    };
    if n >= 1 {
        Ok(())
    } else {
        Err(cat2("toolCalls=", decimal(n).as_str()))
    }
}

/// How often agents wanted the user's attention.
pub fn interruptions(body: &Json) -> (r: Result<u64, String>)
    ensures
        match activity_number(body@, "interruptions"@) {
            Some(n) => r matches Ok(k) && k == n,
            None => r matches Err(e) && e@ == "status 里读不到 activity.interruptions："@
                + json::compact(body@),
        },
{
    match read_number(body, "interruptions") {
        Some(n) => Ok(n),
        None => Err(
            cat2("status 里读不到 activity.interruptions：", print_compact(body).as_str()),
        ),
    }
}

/// Two more interruptions have to be counted.
pub fn expect_two_more(before: u64, after: u64) -> (r: Result<(), String>)
    requires
        before + 2 <= u64::MAX,
    ensures
        failure(r) == outcome(
            after == before + 2,
            "打断计数应从 "@ + text::int_text(before as int) + " 涨到 "@ + text::int_text(before + 2)
                + "，实际 "@ + text::int_text(after as int),
        ),
{
    let want: u64 = before + 2;
    if after == want {
        return Ok(());
    }
    let mut e = cat3("打断计数应从 ", decimal(before).as_str(), " 涨到 ");
    e.append(decimal(want).as_str());
    e.append("，实际 ");
    e.append(decimal(after).as_str());
    Err(e)
}

// ---------------------------------------------------------------------------
// Decisions
// ---------------------------------------------------------------------------

/// Who decided, and what.
pub fn decision_of(body: &Json) -> (r: (String, String))
    ensures
        r.0@ == interaction::named(body@, "decidedBy"@),
        r.1@ == interaction::named(body@, "action"@),
{
    (read_text(body, "decidedBy"), read_text(body, "action"))
}

fn read_text(body: &Json, name: &str) -> (r: String)
    ensures
        r@ == interaction::named(body@, name@),
{
    match text_field(body, name) {
        Some(t) => t.to_owned(),
        None => String::new(),
    }
}

/// Whether an answer is this decision.
pub open spec fn decides(body: JsonView, by: Seq<char>, action: Seq<char>) -> bool {
    interaction::named(body, "decidedBy"@) == by && interaction::named(body, "action"@) == action
}

/// A decision as a failed test shows it.
pub open spec fn decision_shown(body: JsonView) -> Seq<char> {
    "decidedBy="@ + interaction::named(body, "decidedBy"@) + " action="@ + interaction::named(
        body,
        "action"@,
    )
}

fn show_decision(body: &Json) -> (r: String)
    ensures
        r@ == decision_shown(body@),
{
    let (by, action) = decision_of(body);
    let mut r = cat3("decidedBy=", by.as_str(), " action=");
    r.append(action.as_str());
    r
}

fn is_decision(body: &Json, by: &str, action: &str) -> (r: bool)
    ensures
        r == decides(body@, by@, action@),
{
    let (b, a) = decision_of(body);
    same(b.as_str(), by) && same(a.as_str(), action)
}

/// A popup's answer has to be this decision.
pub fn expect_decision(code: u16, body: &Json, by: &str, action: &str) -> (r: Result<(), String>)
    ensures
        failure(r) == outcome(
            code == 200 && decides(body@, by@, action@),
            "status="@ + text::int_text(code as int) + " "@ + decision_shown(body@) + " body="@
                + json::compact(body@),
        ),
{
    if code == 200 && is_decision(body, by, action) {
        return Ok(());
    }
    let mut e = cat3("status=", decimal(code as u64).as_str(), " ");
    e.append(show_decision(body).as_str());
    e.append(" body=");
    e.append(print_compact(body).as_str());
    Err(e)
}

/// A popup that was put aside and taken up again has to be answered by the user.
pub fn expect_kept(code: u16, body: &Json) -> (r: Result<(), String>)
    ensures
        failure(r) == outcome(
            code == 200 && decides(body@, "user"@, "allow-always"@),
            "status="@ + text::int_text(code as int) + " "@ + decision_shown(body@)
                + " —— 收起/唤回期间被提前收尾了"@,
        ),
{
    if code == 200 && is_decision(body, "user", "allow-always") {
        return Ok(());
    }
    let mut e = cat3("status=", decimal(code as u64).as_str(), " ");
    e.append(show_decision(body).as_str());
    e.append(" —— 收起/唤回期间被提前收尾了");
    Err(e)
}

/// The first of the answers that a decision brings, none where it brings none.
pub open spec fn first_answer(body: JsonView) -> JsonView {
    match body.field("answers"@) {
        Some(JsonView::Obj(m)) => if m.len() > 0 {
            m[0].1
        } else {
            JsonView::Null
        },
        _ => JsonView::Null,
    }
}

/// Whether an answer is this one choice.
pub open spec fn chooses(v: JsonView, choice: Seq<char>) -> bool {
    v == JsonView::Arr(seq![JsonView::Str(choice)])
}

fn is_choice(v: &Json, choice: &str) -> (r: bool)
    ensures
        r == chooses(v@, choice@),
{
    match v {
        Json::Arr(a) => {
            let ghost want = seq![JsonView::Str(choice@)];
            assert(v@ == JsonView::Arr(json::views(a@)));
            if a.len() != 1 {
                assert(json::views(a@).len() != want.len());
                return false;
            }
            assert(json::views(a@)[0] == a@[0]@);
            match &a[0] {
                Json::Str(s) => {
                    let r = same(s.as_str(), choice);
                    proof {
                        if r {
                            assert(json::views(a@) =~= want);
                        } else {
                            assert(json::views(a@)[0] != want[0]);
                        }
                    }
                    r
                },
                _ => {
                    assert(json::views(a@)[0] != want[0]);
                    false
                },
            }
        },
        _ => false,
    }
}

/// The user's choice has to come back as it was made.
pub fn expect_choice(body: &Json, choice: &str) -> (r: Result<(), String>)
    ensures
        failure(r) == (if !decides(body@, "user"@, "submit"@) {
            Some(decision_shown(body@) + " body="@ + json::compact(body@))
        } else {
            outcome(
                chooses(first_answer(body@), choice@),
                "answers 没原样回传："@ + json::compact(first_answer(body@)),
            )
        }),
{
    if !is_decision(body, "user", "submit") {
        let mut e = show_decision(body);
        e.append(" body=");
        e.append(print_compact(body).as_str());
        return Err(e);
    }
    let none = Json::Null;
    let first = match get(body, "answers") {
        Some(Json::Obj(o)) => if o.entries.len() > 0 {
            assert(o@[0] == (o.entries@[0].0@, o.entries@[0].1@));
            &o.entries[0].1
        } else {
            assert(o@.len() == 0);
            &none
        },
        _ => &none,
    };
    assert(first@ == first_answer(body@));
    if is_choice(first, choice) {
        Ok(())
    } else {
        Err(cat2("answers 没原样回传：", print_compact(first).as_str()))
    }
}

/// The user's refusal has to come back with the words that go with it.
pub fn expect_denied(body: &Json, words: &str) -> (r: Result<(), String>)
    ensures
        failure(r) == outcome(
            decides(body@, "user"@, "deny"@) && interaction::named(body@, "text"@) == words@,
            decision_shown(body@) + " text="@ + json::compact(
                JsonView::Str(interaction::named(body@, "text"@)),
            ) + " body="@ + json::compact(body@),
        ),
{
    let t = read_text(body, "text");
    if is_decision(body, "user", "deny") && same(t.as_str(), words) {
        return Ok(());
    }
    let mut e = show_decision(body);
    e.append(" text=");
    e.append(print_compact(&Json::Str(t)).as_str());
    e.append(" body=");
    e.append(print_compact(body).as_str());
    Err(e)
}

/// The user's taking back of a question has to come back as such.
pub fn expect_cancelled(body: &Json) -> (r: Result<(), String>)
    ensures
        failure(r) == outcome(
            decides(body@, "user"@, "cancel"@),
            decision_shown(body@) + " body="@ + json::compact(body@),
        ),
{
    if is_decision(body, "user", "cancel") {
        return Ok(());
    }
    let mut e = show_decision(body);
    e.append(" body=");
    e.append(print_compact(body).as_str());
    Err(e)
}

/// A notice must not keep its caller.
pub fn expect_quick(ms: u64) -> (r: Result<(), String>)
    ensures
        failure(r) == outcome(
            ms <= QUICK_MS,
            "纯通知不该阻塞，实际花了 "@ + text::int_text(ms as int) + "ms"@,
        ),
{
    if ms <= QUICK_MS {
        Ok(())
    } else {
        Err(cat3("纯通知不该阻塞，实际花了 ", decimal(ms).as_str(), "ms"))
    }
}

// ---------------------------------------------------------------------------
// What the report says, word for word
// ---------------------------------------------------------------------------

/// A test that passed has a line that says so, and one that failed a line that says so
/// and why; only the latter are counted as failed.
pub proof fn law_the_report_tells_failures(
    lines: Seq<Seq<char>>,
    n: int,
    name: Seq<char>,
    why: Seq<char>,
)
    requires
        0 < n <= lines.len(),
    ensures
        line_of(name, None) == "PASS "@ + name,
        line_of(name, Some(why)) == "FAIL "@ + name + ": "@ + why,
        lines[n - 1] == line_of(name, None) ==> failed(lines, n) == failed(lines, n - 1),
        lines[n - 1] == line_of(name, Some(why)) ==> failed(lines, n) == failed(lines, n - 1) + 1,
        failed(lines, 0) == 0,
{
    reveal_strlit("PASS ");
    reveal_strlit("FAIL ");
    reveal_strlit("FAIL");
    assert("FAIL"@.len() == 4);
    assert("FAIL"@[0] == 'F');
    assert("FAIL"@[1] == 'A');
    assert("FAIL"@[2] == 'I');
    assert("FAIL"@[3] == 'L');
    assert("PASS "@.len() == 5 && "PASS "@[0] == 'P');
    assert("FAIL "@.len() == 5);
    assert("FAIL "@.take(4) =~= "FAIL"@);
    let good = line_of(name, None);
    let bad = line_of(name, Some(why));
    assert(good[0] == 'P');
    assert(bad.take(4) =~= "FAIL "@.take(4));
    if text::starts_with(good, "FAIL"@) {
        assert(good.take(4)[0] == good[0]);
    }
}

/// A test passes just where what it expects holds, and else fails with its reason.
pub proof fn law_a_test_fails_with_its_reason(good: bool, why: Seq<char>)
    ensures
        outcome(good, why) is None <==> good,
        !good ==> outcome(good, why) == Some(why),
{
}

/// An answer is a decision by whom and for what it says it is.
pub proof fn law_an_answer_names_its_decision(body: JsonView, by: Seq<char>, action: Seq<char>)
    requires
        body.field("decidedBy"@) == Some(JsonView::Str(by)),
        body.field("action"@) == Some(JsonView::Str(action)),
    ensures
        decides(body, by, action),
        forall|b: Seq<char>, a: Seq<char>| #[trigger] decides(body, b, a) ==> b == by && a == action,
        decision_shown(body) == "decidedBy="@ + by + " action="@ + action,
{
}

/// What is counted is read from what an answer says of agents.
pub proof fn law_what_is_counted_is_read(
    body: JsonView,
    activity: JsonView,
    name: Seq<char>,
    n: u64,
)
    ensures
        body.field("activity"@) == Some(activity) && activity.field(name) == Some(
            JsonView::Int(n as int),
        ) ==> activity_number(body, name) == Some(n as int),
        body.field("activity"@) is None ==> activity_number(body, name) is None,
        body.field("activity"@) == Some(activity) && activity.field(name) is None
            ==> activity_number(body, name) is None,
{
}

/// An answer says that all went well by one member, and brings its first answer first.
pub proof fn law_what_an_answer_brings(
    body: JsonView,
    m: json::Members,
    choice: Seq<char>,
    other: Seq<char>,
)
    ensures
        is_ok(body) <==> body.field("ok"@) == Some(JsonView::Bool(true)),
        body.field("answers"@) == Some(JsonView::Obj(m)) && m.len() > 0 ==> first_answer(body)
            == m[0].1,
        body.field("answers"@) is None ==> first_answer(body) == JsonView::Null,
        chooses(JsonView::Arr(seq![JsonView::Str(choice)]), choice),
        other != choice ==> !chooses(JsonView::Arr(seq![JsonView::Str(choice)]), other),
{
    let a = seq![JsonView::Str(choice)];
    let b = seq![JsonView::Str(other)];
    assert(a[0] == JsonView::Str(choice) && b[0] == JsonView::Str(other));
}

} // verus!
