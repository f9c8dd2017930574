//! What is written and read back.

use pomodoro::cache::{
    cache_load, cache_write, local_rule_load, local_rule_match, local_rule_write, CACHE_TTL_MS,
    LOCAL_RULE_MAX, LOCAL_RULE_TTL_MS,
};
use pomodoro::config;
use pomodoro::env::{Env, Reading};
use pomodoro::gateway::{listen_error, port_candidates, write_discovery};
use pomodoro::http::find_gateway;
use pomodoro::install::{
    backup_path, codex_notes, failure_report, printed_note, read_json, trae_notes, vscode_note,
    written_note, Host, MAX_CONFIG_BYTES,
};
use pomodoro::json::{parse_stored, print_compact, print_pretty, Json, Object};
use pomodoro::lead;
use pomodoro::opencode::accepted;
use pomodoro::selftest::{
    decision_of, expect_cancelled, expect_choice, expect_decision, expect_denied, expect_kept,
    expect_ok, expect_quick, expect_status, expect_tool_calls, expect_two_more, interruptions,
    read_status, record, report,
};
use pomodoro::session;
use pomodoro::time::now_ms;

fn j(text: &str) -> Json {
    parse_stored(text).unwrap()
}

fn env() -> Env {
    Env {
        source: None,
        zcode_plugin_root: None,
        zcode_cli_home: None,
        ask: None,
        permission: None,
        always_allow: None,
        local_always_allow: None,
        ask_mode: None,
        permission_dest: None,
        timeout: Reading::Absent,
        lead: "lead".to_string(),
    }
}

fn nested(levels: usize) -> String {
    format!("{}{}", "[".repeat(levels), "]".repeat(levels))
}

// ---------------------------------------------------------------------------
// Values and files
// ---------------------------------------------------------------------------

#[test]
fn plain_values_read_back() {
    let text = r#"{"z":[1,-2,{"中":"\"\\\n\u0001😀"}],"a":18446744073709551615,"b":-9223372036854775808,"n":null,"t":true}"#;
    let v = j(text);
    assert_eq!(print_compact(&v), text);
    assert_eq!(print_compact(&j(&print_pretty(&v))), text);
    assert_eq!(print_compact(&j(&print_compact(&v))), text);
}

#[test]
fn only_so_many_levels_are_read() {
    assert!(parse_stored(&nested(127)).is_some());
    assert!(parse_stored(&nested(128)).is_none());
}

#[test]
fn a_decision_comes_back_from_its_file_for_ninety_seconds() {
    let reply = j(r#"{ "ok": true, "answers": { "q0": ["A"] }, "decidedBy": "user" }"#);
    let text = cache_write(&reply, 1_000);
    assert!(text.starts_with(r#"{"at":1000,"result":{"ok":true"#));
    let back = cache_load(Some(&text), 1_000 + CACHE_TTL_MS).unwrap();
    assert_eq!(print_compact(&back), print_compact(&reply));
    assert!(cache_load(Some(&text), 1_001 + CACHE_TTL_MS).is_none());
    assert!(cache_load(Some("{oops"), 1_000).is_none());
    assert!(cache_load(None, 1_000).is_none());
}

#[test]
fn an_allowed_command_stays_allowed_over_its_file() {
    let now = 1_700_000_000_000;
    let text = local_rule_write("codex", "Bash", "npm test", &[], now, &env()).unwrap();
    let later = now + LOCAL_RULE_TTL_MS - 1;
    let rules = local_rule_load(Some(&text), later);
    assert!(local_rule_match("codex", "Bash", "npm test", &rules, &env()));
    assert!(local_rule_load(Some(&text), later + 1).is_empty());
    assert!(local_rule_load(None, later).is_empty());
    assert!(local_rule_load(Some("{}"), later).is_empty());
    assert!(local_rule_write("qwen", "Bash", "npm test", &[], now, &env()).is_none());
}

#[test]
fn rules_stay_few() {
    let now = 1_700_000_000_000;
    let mut rules: Vec<Json> = Vec::new();
    for i in 0..LOCAL_RULE_MAX + 5 {
        let rule = format!("cmd {i};");
        let text = local_rule_write("codex", "Bash", &rule, &rules, now, &env()).unwrap();
        rules = local_rule_load(Some(&text), now);
    }
    assert_eq!(rules.len(), LOCAL_RULE_MAX);
    assert!(!local_rule_match("codex", "Bash", "cmd 0;", &rules, &env()));
    assert!(local_rule_match("codex", "Bash", "cmd 204;", &rules, &env()));
}

#[test]
fn a_session_comes_back_from_its_file() {
    let now = 1_700_000_000_000;
    let mut patch = Object::new();
    patch.put("task", Json::text("重构"));
    let next = session::merge("s", None, &patch, now).unwrap();
    let text = session::write("s", &next);
    let back = session::load("s", Some(&text), now + session::SESSION_TTL_MS).unwrap();
    assert_eq!(print_compact(&back), print_compact(&next));
    assert!(session::load("s", Some(&text), now + session::SESSION_TTL_MS + 1).is_none());
    assert!(session::load("", Some(&text), now).is_none());
    assert!(session::load("s", Some("null"), now).is_none());
    assert!(session::load("s", None, now).is_none());
}

#[test]
fn a_setting_comes_back_from_its_file() {
    let merged = config::save_patch(
        Some(r#"{ "other": { "a": [1] } }"#),
        &j(r#"{ "gatewayEnabled": false }"#),
    );
    let text = config::write(&merged);
    assert!(text.starts_with("{\n  \"other\": {\n"));
    let back = config::load(Some(&text));
    assert_eq!(print_compact(&back), r#"{"other":{"a":[1]},"gatewayEnabled":false}"#);
    assert!(!config::gateway_enabled(&back));
}

#[test]
fn the_hook_finds_the_gateway_in_its_file() {
    let text = write_discovery(5280, "secret", 1, now_ms()).unwrap();
    let g = find_gateway(&None, &None, &["{".to_string(), text]).unwrap();
    assert_eq!((g.port, g.token.as_str()), (5280, "secret"));
}

#[test]
fn ports_that_cannot_be_had_are_named() {
    let all = port_candidates(&None);
    assert_eq!(listen_error(&all, "busy"), "端口 5277~5296 均无法监听：busy");
}

#[test]
fn a_server_takes_what_it_does_not_refuse() {
    assert!(accepted(Some(200)));
    assert!(accepted(Some(399)));
    assert!(!accepted(Some(400)));
    assert!(!accepted(None));
}

// ---------------------------------------------------------------------------
// Installations
// ---------------------------------------------------------------------------

#[test]
fn the_lead_hosts_names_follow_from_one() {
    assert_eq!(lead::source("lead"), "lead-code");
    assert_eq!(lead::dir("lead"), ".lead");
    assert_eq!(lead::label("lead"), "Lead Code");
    assert_eq!(lead::label("Étoile"), "Étoile Code");
    assert_eq!(Host::Lead.as_str("lead"), "lead");
    assert_eq!(Host::Lead.config_file("lead"), vec![".lead", "settings.json"]);
    assert_eq!(Host::Qwen.config_file("lead"), vec![".qwen", "settings.json"]);
}

#[test]
fn broken_configurations_count_as_empty() {
    let read = |bytes: Option<u64>, text: Option<&str>| {
        print_compact(&Json::Obj(read_json(bytes, text)))
    };
    assert_eq!(read(Some(9), Some(r#"{"a":1}"#)), r#"{"a":1}"#);
    assert_eq!(read(Some(MAX_CONFIG_BYTES), Some(r#"{"a":1}"#)), r#"{"a":1}"#);
    assert_eq!(read(Some(MAX_CONFIG_BYTES + 1), Some(r#"{"a":1}"#)), "{}");
    assert_eq!(read(None, Some(r#"{"a":1}"#)), "{}");
    assert_eq!(read(Some(9), None), "{}");
    assert_eq!(read(Some(9), Some("[1]")), "{}");
    assert_eq!(read(Some(9), Some("{")), "{}");
}

#[test]
fn installations_are_talked_about() {
    assert_eq!(backup_path("a.json"), "a.json.pomodoro.bak");
    assert_eq!(
        written_note("/h/a.json", "a.json"),
        "已写入 /h/a.json（原文件备份为 a.json.pomodoro.bak）"
    );
    assert_eq!(printed_note("/h/a.json", "{}"), "--- /h/a.json ---\n{}");
    let failed = vec!["trae".to_string(), "codex".to_string()];
    assert_eq!(failure_report(&failed), "有 2 个宿主安装失败：trae、codex");
    let note = vscode_note("lead");
    assert!(note.starts_with("提示：VS Code 默认还会读取 ~/.lead/settings.json（Lead Code 的 hooks），\n      两处"));
    assert!(note.ends_with("\"chat.hookFilesLocations\": { \"~/.lead/settings.json\": false }"));
    let notes = trae_notes("lead");
    assert!(notes.contains("\n  2) Trae 会同时读 Lead Code 的 Hook 配置并合并执行；若 ~/.lead/settings.json\n"));
}

#[test]
fn codex_is_warned_of_what_stands_in_the_way() {
    let plain = codex_notes("/h/hooks.json", None);
    assert!(plain.starts_with("Codex 注意事项：\n  1) 配置在 /h/hooks.json（用户级"));
    assert!(plain.ends_with("install --agent codex --with-notify"));
    assert_eq!(codex_notes("/h/hooks.json", Some("model = 1\n")), plain);
    let off = codex_notes("/h/hooks.json", Some("[features]\nhooks = false\n"));
    assert!(off.starts_with(&plain) && off.ends_with("删掉这行或改成 true 再试。"));
    let both = codex_notes("/h/hooks.json", Some("[features]\nhooks = false\n[hooks]\n"));
    assert!(both.starts_with(&off) && both.ends_with("建议二选一。"));
}

// ---------------------------------------------------------------------------
// The gateway's test of itself
// ---------------------------------------------------------------------------

#[test]
fn tests_are_reported() {
    let mut lines: Vec<String> = Vec::new();
    record(&mut lines, "health", Ok(()));
    record(&mut lines, "status", Err("status=500 body=null".to_string()));
    assert_eq!(lines, vec!["PASS health", "FAIL status: status=500 body=null"]);
    assert_eq!(
        report(&lines),
        "[gateway-smoke] 2 项，1 失败\n  PASS health\n  FAIL status: status=500 body=null"
    );
}

#[test]
fn answers_are_judged() {
    assert!(expect_ok(200, &j(r#"{ "ok": true }"#)).is_ok());
    assert_eq!(
        expect_ok(500, &j(r#"{"ok":true}"#)).unwrap_err(),
        r#"status=500 body={"ok":true}"#
    );
    assert!(expect_ok(200, &j(r#"{ "ok": 1 }"#)).is_err());
    assert!(expect_status(403, 403, "x").is_ok());
    assert_eq!(expect_status(200, 401, "").unwrap_err(), "期望 401，实际 200");
    assert_eq!(
        expect_status(200, 403, "非回环 Host ").unwrap_err(),
        "非回环 Host 期望 403，实际 200"
    );
    assert_eq!(read_status("HTTP/1.1 403 Forbidden\r\nA: b\r\n\r\n"), Ok(403));
    assert_eq!(read_status("nothing").unwrap_err(), "响应无法解析：\"nothing\"");
    assert_eq!(read_status("").unwrap_err(), "响应无法解析：\"\"");
    assert!(expect_tool_calls(&j(r#"{ "activity": { "toolCalls": 1 } }"#)).is_ok());
    assert_eq!(expect_tool_calls(&j("{}")).unwrap_err(), "toolCalls=0");
    assert_eq!(interruptions(&j(r#"{ "activity": { "interruptions": 4 } }"#)), Ok(4));
    assert_eq!(
        interruptions(&j("{}")).unwrap_err(),
        "status 里读不到 activity.interruptions：{}"
    );
    assert!(expect_two_more(1, 3).is_ok());
    assert_eq!(expect_two_more(1, 2).unwrap_err(), "打断计数应从 1 涨到 3，实际 2");
    assert!(expect_quick(3_000).is_ok());
    assert_eq!(expect_quick(3_001).unwrap_err(), "纯通知不该阻塞，实际花了 3001ms");
}

#[test]
fn decisions_are_judged() {
    let deny = j(r#"{"action":"deny","text":"不要","decidedBy":"user"}"#);
    assert_eq!(decision_of(&deny), ("user".to_string(), "deny".to_string()));
    assert!(expect_denied(&deny, "不要").is_ok());
    assert_eq!(
        expect_denied(&deny, "别").unwrap_err(),
        r#"decidedBy=user action=deny text="不要" body={"action":"deny","text":"不要","decidedBy":"user"}"#
    );
    assert!(expect_decision(200, &deny, "user", "deny").is_ok());
    assert_eq!(
        expect_decision(200, &j("{}"), "timeout", "deny").unwrap_err(),
        "status=200 decidedBy= action= body={}"
    );
    assert!(expect_kept(200, &j(r#"{ "action": "allow-always", "decidedBy": "user" }"#)).is_ok());
    assert_eq!(
        expect_kept(200, &deny).unwrap_err(),
        "status=200 decidedBy=user action=deny —— 收起/唤回期间被提前收尾了"
    );
    let chosen = j(r#"{"action":"submit","decidedBy":"user","answers":{"q":["A"]}}"#);
    assert!(expect_choice(&chosen, "A").is_ok());
    assert_eq!(expect_choice(&chosen, "B").unwrap_err(), r#"answers 没原样回传：["A"]"#);
    assert!(expect_choice(&deny, "A").unwrap_err().starts_with("decidedBy=user action=deny body="));
    let none = j(r#"{"action":"submit","decidedBy":"user","answers":{}}"#);
    assert_eq!(expect_choice(&none, "A").unwrap_err(), "answers 没原样回传：null");
    assert!(expect_cancelled(&j(r#"{ "action": "cancel", "decidedBy": "user" }"#)).is_ok());
    assert!(expect_cancelled(&deny).is_err());
}
