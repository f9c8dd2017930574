//! The hook: reading hosts' payloads, remembering, asking.

use pomodoro::ancli;
use pomodoro::args::{collect_flag, first, flag_value};
use pomodoro::cache::{
    cache_entry, cache_key_for, cache_read, local_rule_add, local_rule_enabled, local_rule_key,
    local_rule_match, local_rule_read_all, CACHE_TTL_MS, LOCAL_RULE_TTL_MS,
};
use pomodoro::cli::{
    command, inline_payload, no_gateway_hint, notify_body, notify_taken, sessions_view,
    take_source, usage, Command,
};
use pomodoro::codex;
use pomodoro::cursor;
use pomodoro::cursor::{detail_of, event_alias, session_tool_input, tool_of};
use pomodoro::env::{Env, Reading};
use pomodoro::install::hook_agent_names;
use pomodoro::json::{
    arr, get, is_truthy, parse_json_maybe, parse_stored, pick, pick_str, print_compact,
    print_pretty, Json, Object,
};
use pomodoro::manual;
use pomodoro::opencode;
use pomodoro::proto::{
    build_answer_map, build_permission_updates, detect_protocol, detect_source, format_answer_map,
    is_ask_tool, is_ask_tool_name, is_permission_event_only, normalize_tool_name,
    questions_from_tool_input, rule_content_for, summarize_tool_input, tool_input_questions,
};
use pomodoro::session;
use pomodoro::session::{build_context, is_session_file, remember_context, session_file, with_extra};
use pomodoro::sha1::sha1_hex_prefix;
use pomodoro::step::Step;
use serde_json::Value;

fn j(text: &str) -> Json {
    parse_stored(text).unwrap()
}

fn v(x: &Json) -> Value {
    serde_json::from_str(&print_compact(x)).unwrap()
}

fn vs(x: &[Json]) -> Vec<Value> {
    x.iter().map(v).collect()
}

fn env() -> Env {
    Env {
        source: None,
        zcode_plugin_root: None,
        zcode_cli_home: None,
        ask: None,
        permission: None,
        always_allow: None,
        local_always_allow: None,
        ask_mode: None,
        permission_dest: None,
        timeout: Reading::Absent,
        lead: "lead".to_string(),
    }
}

fn args(list: &[&str]) -> Vec<String> {
    list.iter().map(|s| s.to_string()).collect()
}

fn object(text: &str) -> Object {
    match j(text) {
        Json::Obj(o) => o,
        _ => panic!("not an object"),
    }
}

// ---------------------------------------------------------------------------
// Values
// ---------------------------------------------------------------------------

#[test]
fn js_falsy_set_is_respected() {
    assert!(!is_truthy(&Json::Null));
    assert!(!is_truthy(&j("false")));
    assert!(!is_truthy(&j("0")));
    assert!(!is_truthy(&j("\"\"")));
    assert!(is_truthy(&j("[]")));
    assert!(is_truthy(&j("{}")));
    assert!(is_truthy(&j("\"0\"")));
    assert!(!is_truthy(&j("0.0")));
    assert!(!is_truthy(&j("-0.0")));
    assert!(is_truthy(&j("0.1")));
}

#[test]
fn pick_skips_falsy_like_js_or() {
    let p = j(r#"{ "a": "", "b": "有值", "c": "后面" }"#);
    assert_eq!(v(pick(&p, &["a", "b", "c"]).unwrap()), "有值");
    assert_eq!(pick_str(&p, &["a", "b"]), "有值");
    assert_eq!(pick_str(&p, &["a", "nope"]), "");
    assert_eq!(pick_str(&j("{}"), &["x"]), "");
    assert_eq!(pick_str(&j(r#"{ "n": 0, "b": false, "s": "x" }"#), &["n", "b", "s"]), "x");
    assert_eq!(pick_str(&j(r#"{ "n": -7 }"#), &["n"]), "-7");
    assert_eq!(pick_str(&j(r#"{ "n": 1.5 }"#), &["n"]), "1.5");
}

#[test]
fn parse_json_maybe_never_panics() {
    assert_eq!(v(&parse_json_maybe("")), v(&Json::object()));
    assert_eq!(v(&parse_json_maybe("不是 json")), v(&Json::object()));
    assert_eq!(print_compact(&parse_json_maybe("[1,2]")), "[1,2]");
    assert_eq!(v(&parse_json_maybe(r#"{"a":1}"#))["a"], 1);
    assert!(parse_stored("{").is_none());
}

#[test]
fn json_key_order_is_preserved() {
    assert_eq!(print_compact(&j(r#"{"z":1,"a":2,"m":3}"#)), r#"{"z":1,"a":2,"m":3}"#);
    assert_eq!(print_pretty(&j(r#"{"z":1,"a":[]}"#)), "{\n  \"z\": 1,\n  \"a\": []\n}");
}

#[test]
fn numbers_print_as_they_were_read() {
    let t = r#"[0,-1,18446744073709551615,-9223372036854775808,1.5,-2.25,0.001]"#;
    assert_eq!(print_compact(&j(t)), t);
}

// ---------------------------------------------------------------------------
// The cache and the local rules
// ---------------------------------------------------------------------------

#[test]
fn cache_roundtrip_and_ttl() {
    let now = 1_700_000_000_000;
    let entry = cache_entry(&j(r#"{ "ok": true, "decidedBy": "user" }"#), now);
    let got = cache_read(&entry, now).unwrap();
    assert_eq!(v(&got)["decidedBy"], "user");
    let stale = cache_entry(&j(r#"{ "ok": true }"#), now - CACHE_TTL_MS - 1000);
    assert!(cache_read(&stale, now).is_none());
    assert!(cache_read(&j("{}"), now).is_none());
}

#[test]
fn cache_key_prefers_tool_use_id() {
    let a = j(r#"{ "tool_use_id": "abc", "tool_name": "AskUserQuestion" }"#);
    let b = j(r#"{ "tool_use_id": "abc", "tool_name": "别的" }"#);
    assert_eq!(cache_key_for(&a), cache_key_for(&b));
    assert_eq!(cache_key_for(&a).len(), 20);
    let c = j(r#"{ "tool_name": "Bash", "tool_input": { "command": "ls" } }"#);
    let d = j(r#"{ "tool_name": "Bash", "tool_input": { "command": "pwd" } }"#);
    assert_ne!(cache_key_for(&c), cache_key_for(&d));
    assert_ne!(cache_key_for(&c), cache_key_for(&a));
}

#[test]
fn cache_key_matches_node_reference_values() {
    let cases = [
        (
            r#"{ "tool_use_id": "toolu_01ABC", "tool_name": "AskUserQuestion" }"#,
            "66e360e7cbbf78f9605d",
        ),
        (
            r#"{ "tool_name": "Bash", "tool_input": { "command": "npm test" } }"#,
            "e0577db1ad921bbd923c",
        ),
        (
            r#"{ "tool_name": "Bash", "tool_input": { "command": "ls", "description": "列出文件" } }"#,
            "31a0563aa3f874a34cdc",
        ),
        (r#"{ "tool_name": "", "tool_input": {} }"#, "9a61b7a78c1cfef7acbb"),
        (
            r#"{ "tool_name": "Write", "tool_input": { "file_path": "C:\\项目\\a b.ts", "content": "x=1" } }"#,
            "ee81053d4420ea5addb9",
        ),
        (
            r#"{ "tool_name": "AskUserQuestion", "tool_input": { "questions": [{ "question": "继续吗？", "options": ["是", "否"] }] } }"#,
            "019f6a3e6fc706ce4bc3",
        ),
    ];
    for (payload, want) in cases {
        assert_eq!(cache_key_for(&j(payload)), want, "payload={payload}");
    }
}

#[test]
fn local_rules_only_apply_to_known_sources() {
    assert!(!local_rule_enabled("lead-code", &env()));
    assert!(!local_rule_enabled("zcode", &env()));
    assert!(local_rule_enabled("vscode", &env()));
    assert!(local_rule_enabled("trae", &env()));
    assert!(local_rule_enabled("cursor", &env()));
    assert!(local_rule_enabled("codex", &env()));
    let mut off = env();
    off.local_always_allow = Some("off".to_string());
    assert!(!local_rule_enabled("cursor", &off));
}

#[test]
fn normalize_tool_name_used_in_rule_key() {
    let k1 = local_rule_key("cursor", "vscode/askQuestions");
    let k2 = local_rule_key("cursor", "ask_questions");
    assert_eq!(k1, k2);
    assert_ne!(local_rule_key("cursor", "Bash"), local_rule_key("trae", "Bash"));
}

#[test]
fn a_rule_that_was_added_covers_the_request_for_thirty_days() {
    let now = 1_700_000_000_000;
    let stored = local_rule_add("cursor", "Shell", "npm test", &[], now, &env()).unwrap();
    let rules = local_rule_read_all(&stored, now + LOCAL_RULE_TTL_MS - 1);
    assert_eq!(rules.len(), 1);
    assert!(local_rule_match("cursor", "Shell", "npm test", &rules, &env()));
    assert!(local_rule_match("cursor", "Shell", "npm test -- --watch", &rules, &env()));
    assert!(!local_rule_match("cursor", "Shell", "rm -rf /", &rules, &env()));
    assert!(!local_rule_match("trae", "Shell", "npm test", &rules, &env()));
    assert!(local_rule_read_all(&stored, now + LOCAL_RULE_TTL_MS + 1).is_empty());
    assert!(local_rule_add("zcode", "Shell", "npm test", &[], now, &env()).is_none());
    let again = local_rule_add("cursor", "Shell", "npm test", &rules, now, &env()).unwrap();
    assert_eq!(v(&again).as_array().unwrap().len(), 1);
}

// ---------------------------------------------------------------------------
// Hosts
// ---------------------------------------------------------------------------

#[test]
fn tool_name_normalization_covers_every_host_style() {
    assert_eq!(normalize_tool_name("AskUserQuestion"), "askuserquestion");
    assert_eq!(normalize_tool_name("vscode/askQuestions"), "askquestions");
    assert_eq!(normalize_tool_name("vscode_askQuestions"), "askquestions");
    assert_eq!(normalize_tool_name("question"), "question");
    assert_eq!(normalize_tool_name("ask_user_question"), "askuserquestion");
    assert_eq!(normalize_tool_name("copilot/AskUserQuestion"), "askuserquestion");
    assert_eq!(normalize_tool_name(""), "");
    assert!(!is_ask_tool_name("Bash"));
    assert!(!is_ask_tool_name("apply_patch"));
    assert!(is_ask_tool_name("vscode/askQuestions"));
}

#[test]
fn ask_tool_detected_from_three_payload_shapes() {
    assert!(is_ask_tool(&j(r#"{ "tool_name": "AskUserQuestion" }"#)));
    assert!(is_ask_tool(&j(
        r#"{ "tool_name": "x", "tool_input": { "question": "选哪个？" } }"#
    )));
    assert!(is_ask_tool(&j(r#"{ "tool_input": { "questions": [{ "question": "a" }] } }"#)));
    assert!(!is_ask_tool(&j(
        r#"{ "tool_input": { "questions": [{ "question": "a" }], "command": "ls" } }"#
    )));
    assert!(!is_ask_tool(&j(r#"{ "tool_name": "Bash", "tool_input": { "command": "ls" } }"#)));
}

#[test]
fn tool_input_questions_normalizes_single_question_shape() {
    let p = j(
        r#"{ "tool_input": { "question": "用哪个？", "header": "方案",
                "options": ["A", "B"], "multiSelect": true, "command": "别带我" } }"#,
    );
    let q = v(&tool_input_questions(&p));
    let a = q["questions"].as_array().unwrap();
    assert_eq!(a.len(), 1);
    assert_eq!(a[0]["question"], "用哪个？");
    assert_eq!(a[0]["header"], "方案");
    assert_eq!(a[0]["multiSelect"], true);
    assert_eq!(a[0]["options"].as_array().unwrap().len(), 2);
    assert!(q.get("command").is_none());

    let p = j(r#"{ "tool_input": { "questions": [{ "question": "a" }] } }"#);
    assert_eq!(v(&tool_input_questions(&p))["questions"].as_array().unwrap().len(), 1);

    let p = j(r#"{ "tool_input": { "command": "ls" } }"#);
    assert_eq!(v(&tool_input_questions(&p))["command"], "ls");
}

#[test]
fn protocol_detection_priority() {
    let p = |t: &str| detect_protocol(&j(t)).as_str();
    assert_eq!(p(r#"{ "hook_event_name": "preToolUse" }"#), "cursor");
    assert_eq!(p(r#"{ "hook_event_name": "PreToolUse" }"#), "ancli");
    assert_eq!(p(r#"{ "permission": { "type": "bash" } }"#), "opencode-permission");
    assert_eq!(p(r#"{ "questions": [] }"#), "opencode-question");
    assert_eq!(p(r#"{ "event": "session.idle" }"#), "opencode-event");
    assert_eq!(p("{}"), "ancli");
    assert_eq!(p(r#"{ "hook_event_name": 42 }"#), "ancli");
}

#[test]
fn questions_cap_at_four_times_six() {
    let options: Vec<String> = (0..9).map(|i| format!("\"选项{i}\"")).collect();
    let questions: Vec<String> = (0..6)
        .map(|i| format!(r#"{{ "question": "第{i}题", "options": [{}] }}"#, options.join(",")))
        .collect();
    let out = vs(&questions_from_tool_input(&j(&format!(
        r#"{{ "questions": [{}] }}"#,
        questions.join(",")
    ))));
    assert_eq!(out.len(), 4);
    assert_eq!(out[0]["options"].as_array().unwrap().len(), 6);
    assert_eq!(out[0]["id"], "q0");
    assert_eq!(out[0]["options"][0]["id"], "o0");
    assert_eq!(out[0]["custom"], false);
}

#[test]
fn questions_without_options_force_custom_input() {
    let out = vs(&questions_from_tool_input(&j(
        r#"{ "questions": [{ "text": "第二题", "multiple": true }] }"#,
    )));
    assert_eq!(out.len(), 1);
    assert_eq!(out[0]["custom"], true);
    assert_eq!(out[0]["multiSelect"], true);
    assert_eq!(out[0]["question"], "第二题");
    let out = questions_from_tool_input(&j(r#"{ "questions": [{ "question": "   " }] }"#));
    assert_eq!(out.len(), 1);
}

#[test]
fn options_drop_empty_labels() {
    let out = vs(&questions_from_tool_input(&j(
        r#"{ "questions": [{ "question": "q", "options": [
                "A", { "label": "" }, { "text": "B", "hint": "稳" }
            ]}] }"#,
    )));
    let opts = out[0]["options"].as_array().unwrap();
    assert_eq!(opts.len(), 2);
    assert_eq!(opts[0]["label"], "A");
    assert_eq!(opts[1]["label"], "B");
    assert_eq!(opts[1]["description"], "稳");
}

#[test]
fn answer_map_keys_by_question_text() {
    let questions = vec![
        j(r#"{ "id": "q0", "question": "用哪种？", "multiSelect": false }"#),
        j(r#"{ "id": "q1", "question": "哪些？", "multiSelect": true }"#),
    ];
    let answers = j(r#"{ "q0": ["A 方案"], "q1": ["x", "y"] }"#);
    let map = build_answer_map(&questions, &answers);
    assert_eq!(v(&map)["用哪种？"], "A 方案");
    assert_eq!(v(&map)["哪些？"].as_array().unwrap().len(), 2);
    assert_eq!(format_answer_map(&map), "用哪种？ → A 方案\n哪些？ → x、y");
    let map = v(&build_answer_map(&questions, &j(r#"{ "q1": ["only"] }"#)));
    assert!(map.get("用哪种？").is_none());
    assert_eq!(map["哪些？"][0], "only");
}

#[test]
fn permission_updates_shape() {
    let e = env();
    let updates = vs(&build_permission_updates("Bash", &j(r#"{ "command": "npm test" }"#), &[], &e));
    assert_eq!(updates.len(), 1);
    assert_eq!(updates[0]["type"], "addRules");
    assert_eq!(updates[0]["behavior"], "allow");
    assert_eq!(updates[0]["rules"][0]["toolName"], "Bash");
    assert_eq!(updates[0]["rules"][0]["ruleContent"], "npm test");
    assert_eq!(updates[0]["destination"], "projectSettings");

    let updates = vs(&build_permission_updates(
        "Bash",
        &j("{}"),
        &[j("\"npm run build\""), j(r#"{ "toolName": "Bash", "ruleContent": "ls" }"#)],
        &e,
    ));
    assert_eq!(updates.len(), 2);
    assert_eq!(updates[0]["rules"][0]["ruleContent"], "npm run build");
    assert_eq!(updates[1]["rules"][0]["toolName"], "Bash");

    let updates = vs(&build_permission_updates(
        "Bash",
        &j("{}"),
        &[j(r#"{ "type": "addRules", "rules": [], "destination": "userSettings" }"#)],
        &e,
    ));
    assert_eq!(updates[0]["behavior"], "allow");
    assert_eq!(updates[0]["destination"], "userSettings");
}

#[test]
fn rule_content_and_summary() {
    assert_eq!(rule_content_for("Bash", &j(r#"{ "command": "npm test" }"#)), "npm test");
    assert_eq!(rule_content_for("x", &j(r#"{ "file_path": "/a", "command": "ls" }"#)), "ls");
    assert_eq!(rule_content_for("x", &j("{}")), "*");
    assert_eq!(rule_content_for("x", &j(r#"{ "command": 42 }"#)), "*");
    let long = "a".repeat(500);
    let got = rule_content_for("x", &j(&format!(r#"{{ "command": "{long}" }}"#)));
    assert_eq!(got.chars().count(), 200);
    assert!(got.ends_with('…'));

    let summary = summarize_tool_input(&j(
        r#"{ "a": "1", "b": { "n": 2 }, "c": "3", "d": "4", "e": "5" }"#,
    ));
    assert_eq!(summary.split('\n').count(), 4);
    assert!(summary.starts_with("a: 1"));
    assert!(summary.contains(r#"b: {"n":2}"#), "{summary}");
    assert_eq!(summarize_tool_input(&j("\"不是对象\"")), "");
}

#[test]
fn source_detection_uses_explicit_markers() {
    let s = |t: &str| detect_source(&j(t), &env(), false, false);
    assert_eq!(s(r#"{ "source": "trae" }"#), "trae");
    assert_eq!(s(r#"{ "conversation_id": "x" }"#), "cursor");
    assert_eq!(s(r#"{ "turn_id": "x" }"#), "codex");
    assert_eq!(s(r#"{ "trigger": "x" }"#), "codex");
    assert_eq!(s(r#"{ "llm_tool_name": "x" }"#), "trae");
    assert_eq!(s(r#"{ "workspace_roots": ["/a"], "tool_use_id": "t" }"#), "trae");
    let mut e = env();
    e.source = Some("qwen".to_string());
    assert_eq!(detect_source(&j(r#"{ "source": "trae" }"#), &e, false, false), "qwen");
}

#[test]
fn some_hosts_only_decide_on_permission_events() {
    assert!(is_permission_event_only("codex"));
    assert!(!is_permission_event_only("cursor"));
}

// ---------------------------------------------------------------------------
// Sessions
// ---------------------------------------------------------------------------

#[test]
fn merge_then_read_roundtrip() {
    let now = 1_700_000_000_000;
    assert!(session::read("s1", None, now).is_none());
    let written = session::merge("s1", None, &object(r#"{ "source": "zcode" }"#), now).unwrap();
    assert_eq!(v(&written)["sessionId"], "s1");
    assert_eq!(v(&written)["source"], "zcode");
    let back = session::read("s1", Some(&written), now).unwrap();
    assert_eq!(v(&back)["source"], "zcode");
    assert!(session::read("", Some(&written), now).is_none());
    assert!(session::merge("", None, &object("{}"), now).is_none());
    assert!(session::read("s1", Some(&written), now + session::SESSION_TTL_MS + 1).is_none());
}

#[test]
fn merge_is_shallow_and_forces_ids() {
    let now = 1_700_000_000_000;
    let p1 = object(r#"{ "task": "老任务", "sessionId": "伪造的" }"#);
    let one = session::merge("s2", None, &p1, now).unwrap();
    let merged = v(&session::merge("s2", Some(&one), &object(r#"{ "lastTool": "Bash" }"#), now).unwrap());
    assert_eq!(merged["sessionId"], "s2");
    assert_eq!(merged["task"], "老任务");
    assert_eq!(merged["lastTool"], "Bash");
}

#[test]
fn remember_context_records_task_and_tool() {
    let now = 1_700_000_000_000;
    let p = j(r#"{ "session_id": "s3", "cwd": "C:\\proj\\alpha", "prompt": "  帮我把   这个重构一下 " }"#);
    let one = remember_context(&p, "UserPromptSubmit", "codex", None, now).unwrap().next.unwrap();
    assert_eq!(v(&one)["task"], "帮我把 这个重构一下");
    assert_eq!(v(&one)["cwd"], "C:\\proj\\alpha");
    assert_eq!(v(&one)["source"], "codex");

    let p = j(r#"{ "session_id": "s3", "tool_name": "Bash", "tool_input": { "command": "npm test" } }"#);
    let two = remember_context(&p, "PreToolUse", "codex", Some(&one), now).unwrap().next.unwrap();
    assert_eq!(v(&two)["lastTool"], "Bash");
    assert_eq!(v(&two)["lastToolDetail"], "npm test");
    assert_eq!(v(&two)["task"], "帮我把 这个重构一下");

    let three = remember_context(&j(r#"{ "session_id": "s3" }"#), "SessionStart", "codex", Some(&two), now)
        .unwrap()
        .next
        .unwrap();
    assert_eq!(v(&three)["task"], "");

    assert!(remember_context(&j(r#"{ "prompt": "x" }"#), "UserPromptSubmit", "codex", None, now).is_none());
}

#[test]
fn build_context_shape_matches_normalized_fields() {
    let s = j(r#"{ "task": "重构弹窗", "lastTool": "Bash", "lastToolDetail": "npm test" }"#);
    let p = j(r#"{ "session_id": "abcdefghij", "agent_type": "Explore" }"#);
    let ctx = v(&build_context(&p, "zcode", Some(&s)));
    assert_eq!(ctx["agent"], "zcode");
    assert_eq!(ctx["agentType"], "Explore");
    assert_eq!(ctx["session"], "efghij");
    assert_eq!(ctx["task"], "重构弹窗");
    assert_eq!(ctx["tool"], "Bash");
    assert_eq!(ctx["toolDetail"], "npm test");
    assert_eq!(ctx["project"], "");
    for k in ["agent", "agentType", "agentId", "session", "project", "task", "tool", "toolDetail"] {
        assert!(ctx.get(k).is_some(), "{k}");
    }
}

#[test]
fn build_context_prefers_payload_cwd_over_session() {
    let s = j(r#"{ "cwd": "C:\\old\\proj", "project": "老项目" }"#);
    let ctx = v(&build_context(&j(r#"{ "cwd": "C:\\new\\alpha" }"#), "lead-code", Some(&s)));
    assert_eq!(ctx["project"], "alpha");
    let ctx = v(&build_context(&j("{}"), "lead-code", Some(&s)));
    assert_eq!(ctx["project"], "proj");
    let s = j(r#"{ "project": "只有项目名" }"#);
    let ctx = v(&build_context(&j("{}"), "lead-code", Some(&s)));
    assert_eq!(ctx["project"], "只有项目名");
    let ctx = v(&build_context(&j(r#"{ "working_directory": "D:\\ws\\beta" }"#), "lead-code", None));
    assert_eq!(ctx["project"], "beta");
}

#[test]
fn with_extra_overrides_even_with_empty() {
    let ctx = j(r#"{ "tool": "Bash", "toolDetail": "npm test" }"#);
    let out = v(&with_extra(
        ctx,
        &[("toolDetail", Json::text("")), ("tool", Json::text("AskUserQuestion"))],
    ));
    assert_eq!(out["toolDetail"], "");
    assert_eq!(out["tool"], "AskUserQuestion");
}

#[test]
fn list_is_sorted_newest_first() {
    let now = 1_700_000_000_000;
    let a = session::merge("la", None, &object(r#"{ "task": "A" }"#), now).unwrap();
    let b = session::merge("lb", None, &object(r#"{ "task": "B" }"#), now + 5).unwrap();
    let old = session::merge("lc", None, &object(r#"{ "task": "C" }"#), now - session::SESSION_TTL_MS).unwrap();
    let all = vs(&session::list(&[a, old, b], now + 5));
    assert_eq!(all.len(), 2);
    let ia = all.iter().position(|s| s["task"] == "A").unwrap();
    let ib = all.iter().position(|s| s["task"] == "B").unwrap();
    assert!(ib < ia);
}

#[test]
fn session_key_matches_node_reference_values() {
    assert_eq!(sha1_hex_prefix("unknown", 16), "50d8b4a941c26b89");
    assert_eq!(session_file(""), session_file("unknown"));
    assert_eq!(sha1_hex_prefix("abcdefghij", 16), "d68c19a0a345b7ea");
    assert_eq!(
        sha1_hex_prefix("1a2b3c4d-5e6f-7890-abcd-ef1234567890", 16),
        "4b953287f113b091"
    );
    assert_eq!(session_file("abcdefghij"), "session-d68c19a0a345b7ea.json");
    assert!(is_session_file("session-d68c19a0a345b7ea.json"));
    assert!(!is_session_file("rules.json"));
}

// ---------------------------------------------------------------------------
// Codex, Cursor, OpenCode, the command line
// ---------------------------------------------------------------------------

#[test]
fn event_type_drives_kind() {
    assert_eq!(codex::report_kind("agent-turn-complete"), "stop");
    assert_eq!(codex::report_kind(""), "notification");
    assert_eq!(codex::report_kind("别的事件"), "notification");
}

#[test]
fn kebab_case_payload_fields_are_read() {
    let p = j(
        r#"{ "type": "agent-turn-complete", "thread-id": "t-1", "workspace-roots": ["C:\\ws"],
             "input-messages": ["第一句", "最后一句"], "last-assistant-message": "干完了" }"#,
    );
    assert_eq!(pick_str(&p, &["type", "event"]), "agent-turn-complete");
    assert_eq!(pick_str(&p, &["thread-id", "thread_id"]), "t-1");
    assert_eq!(arr(&p, "workspace-roots").len(), 1);
    assert_eq!(arr(&p, "input-messages").len(), 2);
    assert_eq!(pick_str(&p, &["last-assistant-message", "message"]), "干完了");
    match codex::run_notify(&p, None) {
        Step::Event(body, out) => {
            let b = v(&body);
            assert_eq!(b["kind"], "stop");
            assert_eq!(b["source"], "codex");
            assert!(out.is_none());
        }
        _ => panic!("an event"),
    }
}

#[test]
fn event_aliases_cover_cursor_casing() {
    assert_eq!(event_alias("preToolUse"), "PreToolUse");
    assert_eq!(event_alias("beforeReadFile"), "PreToolUse");
    assert_eq!(event_alias("afterAgentThought"), "PostToolUse");
    assert_eq!(event_alias("stop"), "Stop");
    assert_eq!(event_alias("afterAgentResponse"), "Stop");
    assert_eq!(event_alias("workspaceOpen"), "");
}

#[test]
fn tool_names_are_synthesized_for_non_tool_events() {
    assert_eq!(tool_of(&j("{}"), "beforeShellExecution"), "Shell");
    assert_eq!(tool_of(&j("{}"), "beforeReadFile"), "Read");
    assert_eq!(tool_of(&j("{}"), "preToolUse"), "tool");
    assert_eq!(tool_of(&j(r#"{ "tool_name": "Edit" }"#), "preToolUse"), "Edit");
}

#[test]
fn detail_falls_back_through_tool_input_shapes() {
    assert_eq!(detail_of(&j(r#"{ "command": "npm test" }"#), "beforeShellExecution"), "npm test");
    assert_eq!(detail_of(&j(r#"{ "file_path": "a/b.ts" }"#), "beforeReadFile"), "a/b.ts");
    assert_eq!(detail_of(&j(r#"{ "tool_input": "raw text" }"#), "preToolUse"), "raw text");
    assert_eq!(detail_of(&j(r#"{ "tool_input": { "a": "1" } }"#), "preToolUse"), "a: 1");
    assert_eq!(
        detail_of(&j(r#"{ "tool_input": "", "toolInput": { "b": "2" } }"#), "preToolUse"),
        ""
    );
    assert_eq!(detail_of(&j(r#"{ "toolInput": { "b": "2" } }"#), "preToolUse"), "b: 2");
    assert_eq!(detail_of(&j(r#"{ "command": "a\nb" }"#), "beforeShellExecution"), "a b");
}

#[test]
fn session_tool_input_prefers_command_then_file_path() {
    assert_eq!(v(&session_tool_input(&j(r#"{ "tool_input": { "x": 1 } }"#)))["x"], 1);
    assert_eq!(v(&session_tool_input(&j(r#"{ "command": "ls" }"#)))["command"], "ls");
    assert_eq!(v(&session_tool_input(&j(r#"{ "file_path": "a.ts" }"#)))["file_path"], "a.ts");
    assert!(v(&session_tool_input(&j("{}"))).as_object().unwrap().is_empty());
}

#[test]
fn cursor_gets_the_users_decision_or_its_own_question() {
    let p = j(r#"{ "hook_event_name": "beforeShellExecution", "command": "npm test" }"#);
    assert!(!cursor::is_asking(&p, &env()));
    match cursor::run(&p, None, &[], &env()) {
        Step::Interact(body, ms) => {
            assert_eq!(v(&body)["kind"], "permission");
            assert_eq!(ms, 3_600_000);
        }
        _ => panic!("a popup"),
    }
    let allow = cursor::answer(&p, &env(), &j(r#"{ "decidedBy": "user", "action": "allow" }"#));
    assert_eq!(v(&allow.output)["permission"], "allow");
    assert!(!allow.remember);
    let always =
        cursor::answer(&p, &env(), &j(r#"{ "decidedBy": "user", "action": "allow-always" }"#));
    assert!(always.remember);
    let late = cursor::answer(&p, &env(), &j(r#"{ "decidedBy": "timeout", "action": "deny" }"#));
    assert_eq!(v(&late.output)["permission"], "ask");
}

#[test]
fn context_uses_plugin_supplied_fields() {
    let p = j(
        r#"{ "sessionID": "abcdefghij", "directory": "C:\\ws\\proj", "sessionTitle": "重构弹窗", "agent": "build" }"#,
    );
    let ctx = v(&opencode::context(&p, &[("tool", Json::text("bash"))]));
    assert_eq!(ctx["agent"], "opencode");
    assert_eq!(ctx["agentType"], "build");
    assert_eq!(ctx["session"], "efghij");
    assert_eq!(ctx["project"], "proj");
    assert_eq!(ctx["task"], "重构弹窗");
    assert_eq!(ctx["tool"], "bash");
}

#[test]
fn context_project_prefers_explicit_then_dir() {
    let ctx = v(&opencode::context(&j(r#"{ "project": "显式", "directory": "C:\\a\\b" }"#), &[]));
    assert_eq!(ctx["project"], "显式");
    let ctx = v(&opencode::context(&j(r#"{ "directory": "C:\\a\\b" }"#), &[]));
    assert_eq!(ctx["project"], "b");
    let ctx = v(&opencode::context(&j("{}"), &[]));
    assert_eq!(ctx["project"], "");
}

#[test]
fn question_shape_defaults_and_caps() {
    let p = j(r#"{ "questions": [{ "text": "继续吗" }, { "question": "q2", "options": ["A"] }] }"#);
    assert_eq!(arr(&p, "questions").len(), 2);
    let qs = vs(&opencode::read_questions(&p));
    assert_eq!(qs[0]["question"], "继续吗");
    assert_eq!(qs[0]["custom"], true);
    assert_eq!(qs[1]["question"], "q2");
    assert_eq!(qs[1]["options"].as_array().unwrap().len(), 1);
    let qs = vs(&opencode::read_questions(&j(r#"{ "questions": [{}] }"#)));
    assert_eq!(qs[0]["question"], "问题 1");
}

#[test]
fn empty_questions_reject_immediately() {
    assert!(arr(&j("{}"), "questions").is_empty());
    match opencode::run_question(&j("{}"), &env()) {
        Step::Print(out) => assert_eq!(v(&out)["reject"], true),
        _ => panic!("a rejection"),
    }
}

#[test]
fn opencode_gets_only_the_users_decision() {
    let allow = opencode::permission_answer(&j(r#"{ "decidedBy": "user", "action": "allow" }"#));
    assert_eq!(v(&allow)["status"], "allow");
    let late = opencode::permission_answer(&j(r#"{ "decidedBy": "timeout", "action": "deny" }"#));
    assert_eq!(v(&late)["status"], "ask");
    let out = opencode::question_answer(
        &j(r#"{ "questions": [{ "question": "a", "options": ["x"] }, { "question": "b" }] }"#),
        &j(r#"{ "decidedBy": "user", "action": "submit", "answers": { "q0": ["x"] } }"#),
    );
    assert_eq!(v(&out)["answers"].as_array().unwrap().len(), 2);
}

#[test]
fn manual_context_defaults_to_manual() {
    let ctx = v(&manual::manual_context(&args(&[])));
    assert_eq!(ctx["agent"], "manual");
    assert_eq!(ctx["project"], "manual");
    assert_eq!(ctx["session"], "manual");
    assert_eq!(ctx["task"], "");
    let ctx = v(&manual::manual_context(&args(&[
        "--agent", "zcode", "--task", "重构", "--project", "p",
    ])));
    assert_eq!(ctx["agent"], "zcode");
    assert_eq!(ctx["task"], "重构");
    assert_eq!(ctx["project"], "p");
}

#[test]
fn ask_options_are_shared_across_questions() {
    let options = vs(&manual::read_options(&args(&["--option", "A", "--option", "B"])));
    assert_eq!(options.len(), 2);
    assert_eq!(options[0]["id"], "o0");
    assert_eq!(options[1]["label"], "B");
    let qs = collect_flag(&args(&[]), "question");
    assert!(qs.is_empty());
    assert_eq!(manual::read_questions(&args(&[])).len(), 1);
}

#[test]
fn tool_defaults_to_bash_and_rule_to_star() {
    match manual::run_permission(&args(&[]), &env()) {
        Step::Interact(body, _) => {
            let b = v(&body);
            assert_eq!(b["permission"]["tool"], "Bash");
            assert_eq!(b["permission"]["rule"], "*");
        }
        _ => panic!("a popup"),
    }
    assert_eq!(first(&args(&[]), "tool"), "");
}

#[test]
fn collect_flag_gathers_repeats() {
    let a = args(&["--question", "A", "--question", "B", "--option", "x"]);
    assert_eq!(collect_flag(&a, "question"), vec!["A", "B"]);
    assert_eq!(collect_flag(&a, "option"), vec!["x"]);
    assert!(collect_flag(&a, "nope").is_empty());
    assert_eq!(flag_value(&a, "question").unwrap(), "A");
    assert!(flag_value(&args(&["--agent"]), "agent").is_none());
}

#[test]
fn a_permission_is_decided_by_the_user_alone() {
    let p = j(
        r#"{ "hook_event_name": "PermissionRequest", "tool_name": "Bash", "tool_input": { "command": "npm test" } }"#,
    );
    let ctx = build_context(&p, "lead-code", None);
    match ancli::run(&p, "lead-code", ctx, None, &[], &env()) {
        Step::Interact(body, ms) => {
            let b = v(&body);
            assert_eq!(b["kind"], "permission");
            assert_eq!(b["permission"]["tool"], "Bash");
            assert_eq!(ms, 3_600_000);
        }
        _ => panic!("a popup"),
    }
    let e = env();
    let r = ancli::permission_answer(&p, "lead-code", &e, &j(r#"{ "decidedBy": "timeout", "action": "deny" }"#));
    assert!(r.output.is_none());
    assert!(!r.remember);
    let r = ancli::permission_answer(&p, "lead-code", &e, &j(r#"{ "decidedBy": "user", "action": "allow" }"#));
    let out = v(&r.output.unwrap());
    assert_eq!(out["hookSpecificOutput"]["decision"]["behavior"], "allow");
    let r = ancli::permission_answer(&p, "lead-code", &e, &j(r#"{ "decidedBy": "user", "action": "deny" }"#));
    let out = v(&r.output.unwrap());
    assert_eq!(out["hookSpecificOutput"]["decision"]["behavior"], "deny");
}

#[test]
fn reports_print_nothing() {
    let p = j(r#"{ "hook_event_name": "Stop", "session_id": "s" }"#);
    match ancli::run(&p, "lead-code", Json::object(), None, &[], &env()) {
        Step::Event(body, out) => {
            assert_eq!(v(&body)["kind"], "stop");
            assert!(out.is_none());
        }
        _ => panic!("an event"),
    }
}

// ---------------------------------------------------------------------------
// The command line
// ---------------------------------------------------------------------------

#[test]
fn sessions_view_shape_is_stable() {
    assert!(v(&sessions_view(&[])).is_array());
    let s = j(r#"{ "sessionId": "abcdefghij", "cwd": "C:\\a\\b", "at": 0, "task": "t" }"#);
    let rows = v(&sessions_view(&[s]));
    assert_eq!(rows[0]["session"], "efghij");
    assert_eq!(rows[0]["project"], "b");
    assert_eq!(rows[0]["since"], "1970-01-01T00:00:00.000Z");
    assert_eq!(rows[0]["agentType"], "");
}

#[test]
fn usage_text_mentions_every_host() {
    let names = hook_agent_names("lead");
    assert_eq!(names, "zcode / lead / vscode / trae / cursor / opencode / codex / qwen");
    let u = usage("1.2.3", "lead");
    assert!(u.starts_with("番茄钟 Agent Hook CLI v1.2.3\n用法:\n  pomodoro-hook.exe  "));
    assert!(u.contains(&format!("\n\n  宿主：{names} / all\n  --print")));
    assert!(u.ends_with("（默认不动）"));
}

#[test]
fn the_source_is_taken_out_of_the_arguments() {
    let mut a = args(&["ask", "--source", "zcode", "--question", "q"]);
    assert_eq!(take_source(&mut a).as_deref(), Some("zcode"));
    assert_eq!(a, args(&["ask", "--question", "q"]));
    let mut a = args(&["ask", "--source"]);
    assert_eq!(take_source(&mut a), None);
    assert_eq!(a.len(), 2);
}

#[test]
fn commands_are_told_apart() {
    assert_eq!(command(&args(&[])), Command::Hook);
    assert_eq!(command(&args(&["-h"])), Command::Help);
    assert_eq!(command(&args(&["install", "--agent", "zcode", "--clean"])), Command::Install(false, true, false));
    assert_eq!(command(&args(&["opencode-event"])), Command::OpencodeEvent);
    assert_eq!(command(&args(&["sessions"])), Command::Sessions);
    assert_eq!(command(&args(&["bogus"])), Command::Unknown);
    assert!(command(&args(&["help"])).local());
    assert!(!command(&args(&["status"])).local());
    assert_eq!(no_gateway_hint(&args(&[])), None);
    assert!(no_gateway_hint(&args(&["status"])).is_some());
}

#[test]
fn codex_payloads_come_from_the_last_argument_that_looks_like_one() {
    let p = inline_payload(&args(&["codex-notify", "{\"a\":1}", " {\"a\":2}", "x"])).unwrap();
    assert_eq!(v(&p)["a"], 2);
    assert!(inline_payload(&args(&["{\"a\":1}"])).is_none());
    assert!(inline_payload(&args(&["codex-notify", "x"])).is_none());
}

#[test]
fn notifications_take_their_options_in_pairs() {
    let b = v(&notify_body(&args(&["notify", "--title", "T", "--title", "U", "--sub"])));
    assert_eq!(b["title"], "U");
    assert_eq!(b["message"], "");
    assert_eq!(b["sub"], "");
    assert_eq!(b["type"], "agent");
    assert_eq!(v(&notify_body(&args(&["notify"])))["title"], "番茄钟");
    assert!(notify_taken(&j(r#"{ "ok": true }"#)));
    assert!(!notify_taken(&j(r#"{ "ok": false }"#)));
    assert!(!notify_taken(&Json::Null));
    assert!(get(&j(r#"{ "ok": true }"#), "ok").is_some());
}
