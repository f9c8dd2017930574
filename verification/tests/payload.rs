//! Requests for popups in their normal form.

use pomodoro::env::{Amount, Reading, DEFAULT_CONFIRM_TIMEOUT_MS, MAX_CONFIRM_TIMEOUT_MS};
use pomodoro::json::{parse_stored, print_compact, Json};
use pomodoro::payload::{
    clamp_timeout_ms, default_action_of, is_interactive, kind_spec, normalize_interaction,
    popup_size, source_label, timeout_of, truncate_str,
};
use serde_json::Value;

fn j(text: &str) -> Json {
    parse_stored(text).unwrap()
}

fn v(x: &Json) -> Value {
    serde_json::from_str(&print_compact(x)).unwrap()
}

fn norm(text: &str) -> Value {
    v(&normalize_interaction(&j(text), Reading::Absent))
}

fn reads_as(x: f64) -> Reading {
    Reading::Finite(Amount { zero: x == 0.0, positive: x > 0.0, rounded: x.round() as i64 })
}

#[test]
fn unknown_kind_falls_back_to_custom() {
    let p = norm(r#"{ "kind": "nonsense" }"#);
    assert_eq!(p["kind"], "custom");
    assert_eq!(p["actions"][0]["id"], "ok");
    assert_eq!(p["defaultAction"], Value::Null);
}

#[test]
fn kind_defaults_are_safe() {
    assert_eq!(norm(r#"{"kind":"permission"}"#)["defaultAction"], "deny");
    assert_eq!(norm(r#"{"kind":"ask"}"#)["defaultAction"], "cancel");
    assert_eq!(norm(r#"{"kind":"notification"}"#)["defaultAction"], Value::Null);
    assert_eq!(kind_spec("permission").unwrap().default_action, Some("deny"));
    assert_eq!(kind_spec("ask").unwrap().title, "Agent 提问");
    assert!(kind_spec("nonsense").is_none());
}

#[test]
fn explicit_default_action_wins() {
    let p = norm(r#"{ "kind": "permission", "defaultAction": "allow" }"#);
    assert_eq!(p["defaultAction"], "allow");
}

#[test]
fn timeout_is_clamped() {
    let clamp = |t: &str| clamp_timeout_ms(Some(&j(t)), Reading::Absent);
    assert_eq!(clamp("120000"), 120_000);
    assert_eq!(clamp("10"), 5_000);
    assert_eq!(clamp("99999999"), MAX_CONFIRM_TIMEOUT_MS);
    assert_eq!(clamp("0"), DEFAULT_CONFIRM_TIMEOUT_MS);
    assert_eq!(clamp("-5"), DEFAULT_CONFIRM_TIMEOUT_MS);
    assert_eq!(clamp("\"abc\""), DEFAULT_CONFIRM_TIMEOUT_MS);
    assert_eq!(clamp_timeout_ms(None, Reading::Absent), DEFAULT_CONFIRM_TIMEOUT_MS);
    assert_eq!(clamp_timeout_ms(Some(&j("\"120000\"")), reads_as(120_000.0)), 120_000);
    assert_eq!(clamp("6000.4"), 6_000);
    assert_eq!(clamp("6000.5"), 6_001);
    assert_eq!(clamp("0.2"), 5_000);
    assert_eq!(clamp("-0.5"), DEFAULT_CONFIRM_TIMEOUT_MS);
    assert_eq!(clamp("18446744073709551615"), MAX_CONFIRM_TIMEOUT_MS);
    assert_eq!(clamp("1e300"), MAX_CONFIRM_TIMEOUT_MS);
}

#[test]
fn titles_default_per_kind() {
    assert_eq!(norm(r#"{"kind":"ask"}"#)["title"], "Agent 提问");
    assert_eq!(norm(r#"{"kind":"permission"}"#)["title"], "需要权限确认");
    assert_eq!(norm(r#"{"kind":"notification"}"#)["title"], "番茄钟");
    assert_eq!(norm(r#"{"kind":"custom"}"#)["title"], "需要确认");
    assert_eq!(norm(r#"{"kind":"ask","title":"选个方案"}"#)["title"], "选个方案");
}

#[test]
fn questions_are_normalized_and_capped() {
    let p = norm(
        r#"{
        "kind": "ask",
        "questions": [
            { "question": "用哪种？", "header": "方案",
              "options": ["A 方案", { "id": "b", "label": "B 方案", "description": "稳" }] },
            { "text": "第二题", "multiple": true },
            { "question": "   " },
            { "question": "第四题" },
            { "question": "第五题会被丢掉" }
        ]
    }"#,
    );
    let qs = p["questions"].as_array().unwrap();
    assert_eq!(qs.len(), 4);
    assert_eq!(qs[0]["id"], "q0");
    assert_eq!(qs[0]["question"], "用哪种？");
    assert_eq!(qs[0]["options"][0]["label"], "A 方案");
    assert_eq!(qs[0]["options"][0]["id"], "o0");
    assert_eq!(qs[0]["options"][1]["description"], "稳");
    assert_eq!(qs[0]["custom"], false);
    assert_eq!(qs[1]["custom"], true);
    assert_eq!(qs[1]["multiSelect"], true);
    assert_eq!(qs[2]["question"], "   ");
    assert_eq!(qs[3]["question"], "第四题");
}

#[test]
fn a_question_without_options_always_takes_words() {
    let p = norm(r#"{"kind":"ask","questions":[{"question":"q","custom":false}]}"#);
    assert_eq!(p["questions"][0]["custom"], true);
    let p = norm(r#"{"kind":"ask","questions":[{"question":"q","custom":true,"options":["a"]}]}"#);
    assert_eq!(p["questions"][0]["custom"], true);
}

#[test]
fn ask_without_questions_still_normalizes() {
    let p = norm(r#"{ "kind": "ask" }"#);
    assert_eq!(p["questions"], Value::Array(Vec::new()));
}

#[test]
fn permission_reads_tool_from_top_level() {
    let p = norm(r#"{ "kind": "permission", "tool": "Bash" }"#);
    assert_eq!(p["permission"]["tool"], "Bash");
    let p2 = norm(r#"{ "kind": "permission", "toolName": "Edit" }"#);
    assert_eq!(p2["permission"]["tool"], "Edit");
    let p3 = norm(
        r#"{ "kind": "permission", "toolName": "Edit",
             "permission": { "tool": "Bash", "rule": "npm test" } }"#,
    );
    assert_eq!(p3["permission"]["tool"], "Bash");
    assert_eq!(p3["permission"]["rule"], "npm test");
    assert_eq!(p3["permission"]["canAlways"], true);
}

#[test]
fn can_always_only_off_when_explicit_false() {
    assert_eq!(norm(r#"{"kind":"permission"}"#)["permission"]["canAlways"], true);
    assert_eq!(
        norm(r#"{"kind":"permission","permission":{"canAlways":false}}"#)["permission"]["canAlways"],
        false
    );
}

#[test]
fn permission_input_defaults_on_ask_defaults_off() {
    assert_eq!(norm(r#"{"kind":"permission"}"#)["input"]["enabled"], true);
    assert_eq!(norm(r#"{"kind":"ask"}"#)["input"]["enabled"], false);
    assert_eq!(
        norm(r#"{"kind":"permission","input":{"enabled":false}}"#)["input"]["enabled"],
        false
    );
    assert_eq!(norm(r#"{"kind":"ask","input":{"enabled":true}}"#)["input"]["enabled"], true);
}

#[test]
fn actions_require_id_and_label_and_are_capped() {
    let p = norm(
        r#"{
        "kind": "custom",
        "actions": [
            { "id": "a", "label": "第一个", "style": "primary" },
            { "id": "b", "label": "第二个", "style": "danger" },
            { "id": "c", "label": "第三个", "style": "weird" },
            { "label": "没有 id 会被丢" },
            { "id": "d" },
            { "id": "e", "label": "第四个" },
            { "id": "f", "label": "第五个会被截掉" }
        ]
    }"#,
    );
    let a = p["actions"].as_array().unwrap();
    assert_eq!(a.len(), 4);
    assert_eq!(a[0]["id"], "a");
    assert_eq!(a[0]["style"], "primary");
    assert_eq!(a[1]["style"], "danger");
    assert_eq!(a[2]["style"], "default");
    assert_eq!(a[3]["id"], "e");
}

#[test]
fn text_caps_truncate_with_ellipsis() {
    let long = "x".repeat(500);
    let p = norm(&format!(r#"{{ "kind": "custom", "message": "{long}", "detail": "{long}" }}"#));
    assert_eq!(p["message"].as_str().unwrap().chars().count(), 360);
    assert!(p["message"].as_str().unwrap().ends_with('…'));
    assert_eq!(p["detail"].as_str().unwrap().chars().count(), 500);
    assert!(!p["detail"].as_str().unwrap().ends_with('…'));
    let p2 = norm(r#"{ "kind": "custom", "message": "短" }"#);
    assert_eq!(p2["message"], "短");
    assert_eq!(truncate_str("abcdef", 3), "ab…");
}

#[test]
fn context_keeps_every_key_and_caps_values() {
    let p = norm(
        r#"{
        "kind": "permission",
        "context": { "agent": "lead-code", "tool": "Bash", "task": "重构缓存层",
                     "project": "pomodoro-fluent", "unknown": "应被忽略" }
    }"#,
    );
    let c = p["context"].as_object().unwrap();
    assert_eq!(c.len(), 8);
    assert_eq!(c["agent"], "lead-code");
    assert_eq!(c["task"], "重构缓存层");
    assert_eq!(c["session"], "");
    assert_eq!(c["toolDetail"], "");
    assert!(!c.contains_key("unknown"));
}

#[test]
fn flavor_derivation() {
    assert_eq!(norm(r#"{"kind":"ask"}"#)["flavor"], "ask");
    assert_eq!(norm(r#"{"kind":"permission"}"#)["flavor"], "permission");
    assert_eq!(norm(r#"{"kind":"notification","type":"work"}"#)["flavor"], "work");
    assert_eq!(norm(r#"{"kind":"notification"}"#)["flavor"], "agent");
    assert_eq!(
        norm(r#"{"kind":"notification","type":"work","flavor":"break"}"#)["flavor"],
        "break"
    );
}

#[test]
fn non_string_fields_are_treated_as_empty() {
    let p = norm(r#"{ "kind": "custom", "title": 42, "message": {"a":1}, "sub": null }"#);
    assert_eq!(p["title"], "需要确认");
    assert_eq!(p["message"], "");
    assert_eq!(p["sub"], "");
}

#[test]
fn popup_sizes_match_main_js() {
    assert_eq!(popup_size("ask"), (460, 260));
    assert_eq!(popup_size("permission"), (432, 240));
    assert_eq!(popup_size("notification"), (400, 176));
    assert_eq!(popup_size("custom"), (400, 176));
}

#[test]
fn interactive_kinds() {
    assert!(is_interactive("ask"));
    assert!(is_interactive("permission"));
    assert!(is_interactive("custom"));
    assert!(!is_interactive("notification"));
    assert!(!is_interactive("未知"));
}

#[test]
fn what_a_normal_form_waits_for() {
    let p = normalize_interaction(&j(r#"{"kind":"ask","timeoutMs":"120000"}"#), reads_as(120000.0));
    assert_eq!(timeout_of(&p, Reading::Absent), 120_000);
    assert_eq!(default_action_of(&p).as_deref(), Some("cancel"));
    let p = normalize_interaction(&j("[1]"), Reading::Absent);
    assert_eq!(timeout_of(&p, Reading::Absent), 3_600_000);
    assert_eq!(default_action_of(&p), None);
}

#[test]
fn sources_have_names() {
    assert_eq!(source_label("zcode", "lead"), "ZCode");
    assert_eq!(source_label("lead-code", "lead"), "Lead Code");
    assert_eq!(source_label("manual", "lead"), "手动");
    assert_eq!(source_label("someone", "lead"), "someone");
}
