//! The about panel, the configuration, the timer's state, the tray, the watchdog
//! and the pages' calls.

use pomodoro::about::{
    app_info, check_update, compare_version, is_allowed_external, parse_version, platform_label,
    release_error, repo_url, update_report,
};
use pomodoro::commands::{hook_install, interaction_respond, respond_confirm, starts_next};
use pomodoro::config::{apply_patch, gateway_enabled, load, save_patch};
use pomodoro::json::{as_str_lossy, get, parse_stored, print_compact, Json};
use pomodoro::smoke::{Handshake, Seen};
use pomodoro::state::{TimerState, TrayPatch, TraySync};
use pomodoro::tray::{
    build_menu, menu_action, phase_color, set_pending_tooltip, sync_from_patch, tooltip_text,
    MenuAction, MenuLine,
};
use pomodoro::watchdog::{enabled, log_is_full, observe, recovered_line, stalled_line, Note};
use serde_json::Value;

fn j(text: &str) -> Json {
    parse_stored(text).unwrap()
}

fn v(x: &Json) -> Value {
    serde_json::from_str(&print_compact(x)).unwrap()
}

fn f(x: &Json) -> f64 {
    as_str_lossy(x).parse().unwrap()
}

fn patch(text: &str) -> TrayPatch {
    let p = j(text);
    let text_of = |k: &str| match get(&p, k) {
        Some(Json::Str(s)) => Some(s.clone()),
        _ => None,
    };
    TrayPatch {
        phase: text_of("phase"),
        running: match get(&p, "running") {
            Some(Json::Bool(b)) => Some(*b),
            _ => None,
        },
        time_left_text: text_of("timeLeftText"),
        remain_ms: get(&p, "remainMs").cloned(),
        total_ms: get(&p, "totalMs").cloned(),
        completed_focus: get(&p, "completedFocus").cloned(),
        round_in_cycle: get(&p, "roundInCycle").cloned(),
        rounds: get(&p, "rounds").cloned(),
    }
}

#[test]
fn parse_version_strips_v_and_takes_leading_digits() {
    assert_eq!(parse_version("v1.1.3"), vec![1, 1, 3]);
    assert_eq!(parse_version("1.1.3"), vec![1, 1, 3]);
    assert_eq!(parse_version("V2.0.0"), vec![2, 0, 0]);
    assert_eq!(parse_version("1.1.3-beta"), vec![1, 1, 3]);
    assert_eq!(parse_version("1.1.3+build.7"), vec![1, 1, 3, 7]);
    assert_eq!(parse_version("  1.2.3  "), vec![1, 2, 3]);
}

#[test]
fn parse_version_never_returns_empty() {
    assert_eq!(parse_version(""), vec![0]);
    assert_eq!(parse_version("v"), vec![0]);
    assert_eq!(parse_version("abc"), vec![0]);
    assert_eq!(parse_version("1.99999999999999999999.3"), vec![1]);
}

#[test]
fn compare_version_orders_correctly() {
    assert_eq!(compare_version("1.1.6", "1.1.6"), 0);
    assert!(compare_version("1.1.6", "1.1.5") > 0);
    assert!(compare_version("1.1.5", "1.1.6") < 0);
    assert!(compare_version("1.2.0", "1.10.0") < 0);
    assert!(compare_version("2.0.0", "1.99.99") > 0);
    assert_eq!(compare_version("18446744073709551615", "1"), 1);
}

#[test]
fn compare_version_pads_missing_segments() {
    assert_eq!(compare_version("1.1", "1.1.0"), 0);
    assert!(compare_version("1.1.1", "1.1") > 0);
    assert!(compare_version("1.0", "1.0.1") < 0);
}

#[test]
fn compare_version_ignores_prerelease_suffix() {
    assert_eq!(compare_version("1.1.6-beta", "1.1.6"), 0);
    assert!(compare_version("1.1.6-beta", "1.1.5") > 0);
}

#[test]
fn platform_label_matches_electron_wording() {
    let p = platform_label("windows", "x86_64");
    assert!(p.starts_with("win32-"), "{p}");
    assert!(p.ends_with("-x64") || p.ends_with("-arm64") || p.ends_with("-x86"), "{p}");
    assert_eq!(p, "win32-x64");
    assert_eq!(platform_label("macos", "aarch64"), "darwin-arm64");
    assert_eq!(platform_label("linux", "x86"), "linux-x86");
}

#[test]
fn external_url_whitelist() {
    assert!(is_allowed_external("https://github.com/HonorVanEr/pomodoro-fluent"));
    assert!(is_allowed_external("http://example.com"));
    assert!(!is_allowed_external("file:///C:/windows/system32/calc.exe"));
    assert!(!is_allowed_external("javascript:alert(1)"));
    assert!(!is_allowed_external("ms-settings:"));
    assert!(!is_allowed_external(""));
    assert!(!is_allowed_external("https:/"));
    assert!(!is_allowed_external("https://"));
    assert!(is_allowed_external("http://é"));
}

#[test]
fn repo_url_points_at_the_real_repo() {
    assert_eq!(repo_url(), "https://github.com/HonorVanEr/pomodoro-fluent");
}

#[test]
fn updates_are_reported() {
    assert_eq!(v(&check_update("1.0.0", Err("x".to_string())))["error"], "x");
    assert_eq!(v(&check_update("1.0.0", Ok("?".to_string())))["error"], "返回内容解析失败");
    assert_eq!(v(&check_update("1.0.0", Ok("{}".to_string())))["error"], "没读到 release 版本号");
    let r = v(&check_update(
        "1.0.0",
        Ok(r#"{ "tag_name": "v1.0.1", "body": " 说明 ", "published_at": "p" }"#.to_string()),
    ));
    assert_eq!(r["ok"], true);
    assert_eq!(r["latestVersion"], "1.0.1");
    assert_eq!(r["hasUpdate"], true);
    assert_eq!(r["releaseUrl"], "https://github.com/HonorVanEr/pomodoro-fluent/releases/latest");
    assert_eq!(r["publishedAt"], "p");
    assert_eq!(r["notes"], "说明");
    let data = j(&format!(r#"{{ "tag_name": "1.0.0", "body": "{}", "html_url": "u" }}"#, "字".repeat(900)));
    let r = v(&update_report("1.0.0", &data));
    assert_eq!(r["hasUpdate"], false);
    assert_eq!(r["notes"].as_str().unwrap().chars().count(), 800);
    assert_eq!(r["releaseUrl"], "u");
    assert_eq!(release_error(403).as_deref(), Some("GitHub 接口限流，稍后再试"));
    assert_eq!(release_error(404).as_deref(), Some("仓库还没有 release"));
    assert_eq!(release_error(500).as_deref(), Some("GitHub 返回 500"));
    assert_eq!(release_error(200), None);
}

#[test]
fn the_about_panel_shows() {
    let a = v(&app_info("番茄钟", "1.2.3", "windows", "x86_64"));
    assert_eq!(a["version"], "1.2.3");
    assert_eq!(a["platform"], "win32-x64");
    assert_eq!(a["license"], "MIT");
}

#[test]
fn save_patch_merges_rather_than_replaces() {
    let merged = v(&apply_patch(
        j(r#"{ "gatewayEnabled": true, "other": 1 }"#),
        &j(r#"{ "gatewayEnabled": false }"#),
    ));
    assert_eq!(merged["gatewayEnabled"], false);
    assert_eq!(merged["other"], 1);
    let saved = save_patch(Some(r#"{ "a": 1 }"#), &j(r#"{ "b": 2 }"#));
    assert_eq!(print_compact(&saved), r#"{"a":1,"b":2}"#);
    assert_eq!(print_compact(&save_patch(None, &j("3"))), "{}");
}

#[test]
fn a_broken_configuration_counts_as_empty() {
    assert_eq!(print_compact(&load(None)), "{}");
    assert_eq!(print_compact(&load(Some("{oops"))), "{}");
    assert_eq!(print_compact(&load(Some("[1]"))), "{}");
    assert!(gateway_enabled(&load(None)));
    assert!(gateway_enabled(&j(r#"{ "gatewayEnabled": "no" }"#)));
    assert!(!gateway_enabled(&j(r#"{ "gatewayEnabled": false }"#)));
}

#[test]
fn merge_overwrites_only_present_fields() {
    let mut s = TimerState {
        phase: "work".into(),
        running: true,
        remain_ms: j("1000.0"),
        total_ms: j("1500.0"),
        completed_focus: j("2.0"),
        round_in_cycle: j("2.0"),
        rounds: j("4.0"),
    };
    s.merge(&patch(r#"{ "phase": "break", "running": false, "timeLeftText": "05:00" }"#));
    assert_eq!(s.phase, "break");
    assert!(!s.running);
    assert_eq!(f(&s.remain_ms), 1000.0);
    assert_eq!(f(&s.total_ms), 1500.0);
    assert_eq!(f(&s.completed_focus), 2.0);
    assert_eq!(f(&s.round_in_cycle), 2.0);
    assert_eq!(f(&s.rounds), 4.0);
}

#[test]
fn merge_accepts_full_snapshot() {
    let mut s = TimerState::default();
    s.merge(&patch(
        r#"{ "running": true, "phase": "longBreak", "timeLeftText": "14:59",
             "remainMs": 899000, "totalMs": 900000,
             "completedFocus": 3, "roundInCycle": 4, "rounds": 4 }"#,
    ));
    assert_eq!(s.phase, "longBreak");
    assert!(s.running);
    assert_eq!(f(&s.remain_ms), 899_000.0);
    assert_eq!(f(&s.total_ms), 900_000.0);
    assert_eq!(f(&s.completed_focus), 3.0);
    assert_eq!(f(&s.round_in_cycle), 4.0);
    assert_eq!(f(&s.rounds), 4.0);
}

#[test]
fn merge_tolerates_empty_payload() {
    let mut s = TimerState::default();
    s.merge(&patch("{}"));
    assert_eq!(s.phase, "work");
    assert!(!s.running);
    assert_eq!(f(&s.rounds), 0.0);
}

#[test]
fn an_empty_report_keeps_a_running_timer() {
    let mut s = TimerState {
        phase: "work".into(),
        running: true,
        remain_ms: j("1000.0"),
        total_ms: j("1500.0"),
        completed_focus: j("2.0"),
        round_in_cycle: j("2.0"),
        rounds: j("4.0"),
    };
    s.merge(&patch("{}"));
    assert_eq!(s.phase, "work");
    assert!(s.running);
    assert_eq!(f(&s.remain_ms), 1000.0);
    assert_eq!(f(&s.rounds), 4.0);
    s.merge(&patch(r#"{ "running": false }"#));
    assert!(!s.running);
}

fn show(l: &MenuLine) -> String {
    match l {
        MenuLine::Item(id, label) => format!("{id}={label}"),
        MenuLine::Separator => "-".to_string(),
        MenuLine::Submenu(id, label, items) => {
            let inner: Vec<String> = items.iter().map(|e| format!("{}={}", e.0, e.1)).collect();
            format!("{id}={label}[{}]", inner.join(","))
        }
    }
}

#[test]
fn the_menu_puts_what_waits_first() {
    let lines: Vec<String> = build_menu(&[], false).iter().map(show).collect();
    assert_eq!(
        lines,
        vec!["show=显示主窗口", "-", "toggle=开始", "reset=重置", "skip=跳到下一阶段", "-", "quit=退出"]
    );
    let a = j(r#"{ "id": "a", "kind": "ask", "title": "选" }"#);
    let b = j(r#"{ "id": "b", "kind": "permission", "tool": "Bash" }"#);
    let lines: Vec<String> = build_menu(&[a.clone()], true).iter().map(show).collect();
    assert_eq!(lines[0], "pending=待处理的确认（1）");
    assert_eq!(lines[1], "-");
    assert_eq!(lines[4], "toggle=暂停");
    let lines: Vec<String> = build_menu(&[a, b], true).iter().map(show).collect();
    assert_eq!(lines[0], "pending=待处理的确认（2）");
    assert_eq!(lines[1], "pending-pick=选择要处理的…[pending:a=提问 · 选,pending:b=权限 · Bash]");
    assert_eq!(lines[2], "-");
}

#[test]
fn menu_items_do_what_they_say() {
    assert!(matches!(menu_action("show"), MenuAction::Show));
    assert!(matches!(menu_action("toggle"), MenuAction::Command("toggle")));
    assert!(matches!(menu_action("reset"), MenuAction::Command("reset")));
    assert!(matches!(menu_action("skip"), MenuAction::Command("skip")));
    assert!(matches!(menu_action("pending"), MenuAction::ReopenFirst));
    assert!(matches!(menu_action("pending-pick"), MenuAction::Nothing));
    assert!(matches!(menu_action("quit"), MenuAction::Quit));
    assert!(matches!(menu_action("?"), MenuAction::Nothing));
    match menu_action("pending:x1") {
        MenuAction::Reopen(id) => assert_eq!(id, "x1"),
        _ => panic!("reopens"),
    }
}

#[test]
fn the_tray_changes_only_what_has_changed() {
    let mut t = TraySync::default();
    let c = sync_from_patch(&mut t, &patch(r#"{ "phase": "work", "running": true, "timeLeftText": "24:59" }"#));
    assert_eq!(c.icon.as_deref(), Some("work"));
    assert_eq!(c.tooltip.as_deref(), Some("番茄钟 24:59"));
    assert_eq!(c.menu, Some(true));
    assert_eq!(set_pending_tooltip(&mut t, 2).as_deref(), Some("番茄钟 24:59 · 2 条确认待处理"));
    assert_eq!(set_pending_tooltip(&mut t, 2), None);
    let c = sync_from_patch(&mut t, &patch(r#"{ "phase": "work", "running": true, "timeLeftText": "24:58" }"#));
    assert_eq!(c.icon, None);
    assert_eq!(c.tooltip.as_deref(), Some("番茄钟 24:58 · 2 条确认待处理"));
    assert_eq!(c.menu, None);
    let c = sync_from_patch(&mut t, &patch("{}"));
    assert!(c.icon.is_none() && c.tooltip.is_none() && c.menu.is_none());
    let c = sync_from_patch(&mut t, &patch(r#"{ "running": false }"#));
    assert!(c.icon.is_none() && c.tooltip.is_none());
    assert_eq!(c.menu, Some(false));
    let c = sync_from_patch(&mut TraySync::default(), &patch("{}"));
    assert_eq!(c.icon.as_deref(), Some("idle"));
    assert_eq!(c.tooltip.as_deref(), Some("番茄钟"));
    assert_eq!(c.menu, Some(false));
    assert_eq!(tooltip_text(None, 0), "番茄钟");
    assert_eq!(tooltip_text(Some(""), 1), "番茄钟 · 1 条确认待处理");
    assert_eq!(phase_color("work"), (255, 107, 129));
    assert_eq!(phase_color("longBreak"), (96, 165, 250));
    assert_eq!(phase_color("?"), phase_color("idle"));
}

#[test]
fn the_watchdog_notes_a_stall_three_times() {
    assert!(enabled(None));
    assert!(enabled(Some("1")));
    assert!(!enabled(Some("0")));
    let mut n: u8 = 0;
    assert_eq!(observe(&mut n, true), Note::Nothing);
    for _ in 0..3 {
        assert_eq!(observe(&mut n, false), Note::Stalled);
    }
    assert_eq!(observe(&mut n, false), Note::Nothing);
    assert_eq!(observe(&mut n, true), Note::Recovered(4));
    assert_eq!(n, 0);
    assert_eq!(recovered_line(7, 4), "7\t主线程恢复（本轮累计停滞 4 次上报）");
    assert_eq!(stalled_line(7, 3000, Some("tray.set_icon")), "7\t停滞 3000ms\ttray.set_icon");
    assert!(stalled_line(7, 3000, None).ends_with("(未登记 —— 不在 timed 包住的调用里)"));
    assert!(!log_is_full(65_536));
    assert!(log_is_full(65_537));
}

#[test]
fn both_calls_complete_the_handshake() {
    let mut h = Handshake::new();
    assert_eq!(h.on_tray_update(), Seen::First);
    assert_eq!(h.on_tray_update(), Seen::Again);
    assert_eq!(h.on_pending_get_held(), Seen::Complete);
    assert_eq!(h.on_pending_get_held(), Seen::Again);
    assert!(pomodoro::smoke::enabled(true));
}

#[test]
fn only_named_actions_are_decisions() {
    let r = interaction_respond(&j(
        r#"{ "id": "a", "action": "submit", "text": "t", "answers": { "q0": ["x"] } }"#,
    ));
    assert_eq!(r.id, "a");
    let d = r.decision.unwrap();
    assert_eq!(d.action.as_deref(), Some("submit"));
    assert_eq!(d.text, "t");
    assert_eq!(print_compact(&d.answers), r#"{"q0":["x"]}"#);
    assert_eq!(d.decided_by, "user");
    assert!(interaction_respond(&j(r#"{ "id": "a", "action": null }"#)).decision.is_none());
    assert!(interaction_respond(&j(r#"{ "action": "x" }"#)).decision.is_none());
    let r = interaction_respond(&j(r#"{ "action": "start-next" }"#));
    assert!(starts_next(false, &r.action));
    assert!(!starts_next(true, &r.action));
    assert!(!starts_next(false, &None));
    assert!(respond_confirm("", "x").is_none());
    assert!(respond_confirm("a", "").is_none());
    assert_eq!(respond_confirm("a", "ok").unwrap().action.as_deref(), Some("ok"));
    assert_eq!(v(&hook_install("zcode"))["agent"], "zcode");
    assert_eq!(v(&hook_install("zcode"))["ok"], false);
}
