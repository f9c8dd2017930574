//! Installing the hook into hosts' configurations.

use pomodoro::install::{
    codex_hooks_disabled, codex_inline_hooks, exit_code, hook_fingerprint, is_pomodoro_entry,
    own_path, plugin_config, strip_source_flags, targets, Host, Installer,
};
use pomodoro::json::{parse_stored, print_compact, Json, Object};
use serde_json::Value;

fn j(text: &str) -> Json {
    parse_stored(text).unwrap()
}

fn object(text: &str) -> Object {
    match j(text) {
        Json::Obj(o) => o,
        _ => panic!("not an object"),
    }
}

fn v(x: &Json) -> Value {
    serde_json::from_str(&print_compact(x)).unwrap()
}

fn list(o: &Object, k: &str) -> Vec<Json> {
    match o.get(k) {
        Some(Json::Arr(a)) => a.clone(),
        _ => panic!("no list"),
    }
}

fn inst() -> Installer {
    Installer::new(true, false, false, "C:\\app\\pomodoro-hook.exe".to_string(), "lead".to_string())
}

fn args(list: &[&str]) -> Vec<String> {
    list.iter().map(|s| s.to_string()).collect()
}

#[test]
fn fingerprint_ignores_source_and_quotes() {
    let a = j(r#"{ "hooks": [{ "type": "command",
        "command": "\"C:\\app\\pomodoro-hook.exe\" --source lead-code" }] }"#);
    let b = j(r#"{ "hooks": [{ "type": "command",
        "command": "\"C:\\app\\pomodoro-hook.exe\" --source qwen" }] }"#);
    assert_eq!(hook_fingerprint(&a), hook_fingerprint(&b));
    assert_eq!(hook_fingerprint(&a), "C:\\app\\pomodoro-hook.exe");
}

#[test]
fn fingerprint_handles_legacy_node_form() {
    let legacy = j(r#"{ "hooks": [{ "type": "command",
        "command": "node \"C:\\app\\bin\\pomodoro-hook.js\" --source lead-code" }] }"#);
    let fp = hook_fingerprint(&legacy);
    assert_eq!(fp, "node C:\\app\\bin\\pomodoro-hook.js");
    assert!(is_pomodoro_entry(&fp));
}

#[test]
fn strip_source_flags_does_not_eat_neighbours() {
    assert_eq!(strip_source_flags("a --source b c"), "a  c");
    assert_eq!(strip_source_flags("a --source"), "a --source");
    assert_eq!(strip_source_flags("--source x"), "");
    assert_eq!(strip_source_flags("cmd --sourceish x"), "cmd --sourceish x");
    assert_eq!(strip_source_flags("a --source   "), "a --source   ");
}

#[test]
fn clean_removes_stale_copies_but_keeps_others() {
    let i = Installer::new(false, true, false, "C:\\app\\pomodoro-hook.exe".to_string(), "lead".to_string());
    let mut container = object(
        r#"{ "PreToolUse": [
            { "hooks": [{ "type": "command", "command": "node \"D:\\old\\pomodoro-hook.js\" --source lead-code" }] },
            { "hooks": [{ "type": "command", "command": "someone-elses-hook" }] },
            { "hooks": [{ "type": "command", "command": "\"C:\\app\\pomodoro-hook.exe\" --source lead-code" }] }
        ] }"#,
    );
    let entry = j(r#"{ "matcher": "*", "hooks": [{ "type": "command",
        "command": "\"C:\\app\\pomodoro-hook.exe\" --source lead-code" }] }"#);
    i.push_hook(&mut container, "PreToolUse", entry);
    let l = list(&container, "PreToolUse");
    assert_eq!(l.len(), 2);
    assert!(l.iter().any(|e| hook_fingerprint(e) == "someone-elses-hook"));
    assert!(l.iter().any(|e| hook_fingerprint(e).contains("C:\\app\\pomodoro-hook.exe")));
}

#[test]
fn without_clean_stale_entries_survive() {
    let i = inst();
    let mut container = object(
        r#"{ "Stop": [{ "hooks": [{ "type": "command", "command": "node \"D:\\old\\pomodoro-hook.js\"" }] }] }"#,
    );
    let entry = j(r#"{ "hooks": [{ "type": "command", "command": "\"C:\\app\\pomodoro-hook.exe\"" }] }"#);
    i.push_hook(&mut container, "Stop", entry);
    assert_eq!(list(&container, "Stop").len(), 2);
}

#[test]
fn same_entry_is_not_pushed_twice() {
    let i = inst();
    let mut container = object("{}");
    let entry = |source: &str| {
        j(&format!(
            r#"{{ "matcher": "*", "hooks": [{{ "type": "command",
                "command": "\"C:\\app\\pomodoro-hook.exe\" --source {source}", "timeout": 4200 }}] }}"#
        ))
    };
    i.push_hook(&mut container, "PreToolUse", entry("trae"));
    i.push_hook(&mut container, "PreToolUse", entry("vscode"));
    assert_eq!(list(&container, "PreToolUse").len(), 1);
}

#[test]
fn hook_command_quotes_path() {
    let cmd = v(&inst().hook_command_shell("codex"))["command"].as_str().unwrap().to_string();
    assert_eq!(cmd, "\"C:\\app\\pomodoro-hook.exe\" --source codex");
    assert!(!cmd.starts_with("node "));
}

#[test]
fn installing_twice_changes_nothing() {
    for host in [
        Host::Zcode, Host::Lead, Host::Vscode, Host::Trae, Host::Cursor, Host::Codex, Host::Qwen,
    ] {
        let mut cfg = object(r#"{ "mine": { "keep": 1 } }"#);
        inst().install_config(host, &mut cfg);
        let once = print_compact(&Json::Obj(cfg.clone()));
        assert!(once.contains("pomodoro-hook.exe"), "{}", host.as_str("lead"));
        assert!(once.starts_with(r#"{"mine":{"keep":1}"#));
        inst().install_config(host, &mut cfg);
        assert_eq!(print_compact(&Json::Obj(cfg)), once, "{}", host.as_str("lead"));
    }
}

#[test]
fn targets_are_named_or_all() {
    assert_eq!(targets(&args(&["--agent", "codex"]), "lead").unwrap().len(), 1);
    assert_eq!(targets(&args(&["--agent", "all"]), "lead").unwrap().len(), 8);
    assert!(targets(&args(&["--agent", "bogus"]), "lead").is_err());
    assert_eq!(exit_code(0), 0);
    assert_eq!(exit_code(2), 1);
    assert_eq!(own_path(&Some("X".to_string()), None), "X");
    assert_eq!(own_path(&None, None), "pomodoro-hook.exe");
    assert_eq!(own_path(&None, Some("C:\\h.exe".to_string())), "C:\\h.exe");
}

#[test]
fn the_plugin_is_listed_once() {
    let mut cfg = object(r#"{ "plugin": ["other"] }"#);
    plugin_config(&mut cfg, "C:\\u\\p.ts");
    plugin_config(&mut cfg, "C:\\u\\p.ts");
    assert_eq!(print_compact(&Json::Obj(cfg)), r#"{"plugin":["other","file://C:/u/p.ts"]}"#);
}

#[test]
fn the_notify_setting_takes_the_place_of_the_old_one() {
    let once = inst().install_codex_notify("model = \"x\"\nnotify = [\"old\"]\n");
    assert!(once.contains("C:\\\\app\\\\pomodoro-hook.exe"), "{once}");
    assert!(!once.contains("old"));
    assert_eq!(inst().install_codex_notify(&once), format!("{once}\n"));
    assert_eq!(
        inst().install_codex_notify("\n\n"),
        "# 番茄钟：回合结束时通知（由 pomodoro-hook install 写入）\n\
         notify = [\"C:\\\\app\\\\pomodoro-hook.exe\", \"codex-notify\"]\n"
    );
}

#[test]
fn codex_settings_are_read() {
    assert!(codex_hooks_disabled("[features]\nhooks = false\n"));
    assert!(!codex_hooks_disabled("[features]\nhooks = true\n"));
    assert!(!codex_hooks_disabled("[other]\nhooks = false\n"));
    assert!(codex_inline_hooks("[hooks]\nx = 1\n"));
    assert!(!codex_inline_hooks("[features]\n"));
}
