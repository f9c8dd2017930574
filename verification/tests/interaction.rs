//! Popups that wait, and the popup windows.

use pomodoro::env::Reading;
use pomodoro::interaction::{
    id_from, menu_label, new_id, settle, summary_of, Decision, Pending, PendingState, Store,
};
use pomodoro::json::{parse_stored, print_compact, Json};
use pomodoro::payload::normalize_interaction;
use pomodoro::popup::{prepare, PopupStore};
use serde_json::Value;

fn j(text: &str) -> Json {
    parse_stored(text).unwrap()
}

fn v(x: &Json) -> Value {
    serde_json::from_str(&print_compact(x)).unwrap()
}

fn norm(text: &str) -> Json {
    normalize_interaction(&j(text), Reading::Absent)
}

fn perm_payload(tool: &str) -> Json {
    norm(&format!(
        r#"{{ "kind": "permission", "permission": {{ "tool": "{tool}" }}, "title": "允许 Bash？" }}"#
    ))
    .set("id", Json::text("test-id"))
}

fn direct(title: &str) -> Json {
    norm(&format!(
        r#"{{ "kind": "permission", "source": "manual", "title": "{title}",
             "permission": {{ "tool": "Bash", "rule": "npm test" }} }}"#
    ))
}

#[test]
fn decision_json_shape_matches_docs() {
    let d = Decision::user("allow-always".to_string(), Json::object(), "备注".into());
    let r = v(&d.to_json("permission"));
    assert_eq!(r["ok"], true);
    assert_eq!(r["kind"], "permission");
    assert_eq!(r["action"], "allow-always");
    assert_eq!(r["decidedBy"], "user");
    assert_eq!(r["text"], "备注");

    let r = v(&Decision::dismissed().to_json("ask"));
    assert_eq!(r["action"], Value::Null);
    assert_eq!(r["decidedBy"], "dismissed");
    assert_eq!(r["answers"], v(&Json::object()));

    let r = v(&Decision::timeout(Some("deny".into())).to_json("permission"));
    assert_eq!(r["action"], "deny");
    assert_eq!(r["decidedBy"], "timeout");

    let r = v(&Decision::shown().to_json("notification"));
    assert_eq!(r["action"], "shown");
    assert_eq!(r["decidedBy"], "shown");
}

#[test]
fn ids_are_unique_and_url_safe() {
    let a = new_id(0);
    let b = new_id(0);
    assert_eq!(a.len(), 24);
    assert!(a.chars().all(|c| c.is_ascii_hexdigit()));
    assert_ne!(a, b);
}

#[test]
fn ids_without_random_bytes_come_from_the_moment() {
    assert_eq!(id_from(None, 0x0102_0304_0506_0708), "080706050403020100000000");
    assert_eq!(id_from(Some(vec![0xab, 0x01]), 5), "ab01");
}

#[test]
fn menu_label_prefers_tool_then_title() {
    let p = perm_payload("Bash");
    assert_eq!(menu_label(&p), "权限 · Bash");
    let p = norm(r#"{ "kind": "ask", "title": "选个方案" }"#);
    assert_eq!(menu_label(&p), "提问 · 选个方案");
    let p = j(r#"{ "kind": "custom" }"#);
    assert_eq!(menu_label(&p), "确认");
}

#[test]
fn menu_label_collapses_whitespace_and_truncates() {
    let p = norm(r#"{ "kind": "ask", "title": "多行\n标题\t带空白" }"#);
    assert_eq!(menu_label(&p), "提问 · 多行 标题 带空白");
    let long = "很长的标题".repeat(20);
    let p = norm(&format!(r#"{{ "kind": "ask", "title": "{long}" }}"#));
    let label = menu_label(&p);
    assert!(label.ends_with('…'));
    assert!(label.chars().count() <= 2 + 3 + 36, "{}", label.chars().count());
    let p = j(&format!(r#"{{ "kind": "ask", "title": "{}" }}"#, "x".repeat(36)));
    assert_eq!(menu_label(&p), format!("提问 · {}", "x".repeat(35)));
}

#[test]
fn menu_label_reads_tool_from_raw_payload_too() {
    let p = norm(
        r#"{ "kind": "permission", "permission": { "tool": "Bash" }, "title": "允许 Bash？" }"#,
    );
    assert_eq!(menu_label(&p), "权限 · Bash");
    let p = norm(
        r#"{ "kind": "permission", "context": { "tool": "Edit" }, "permission": { "tool": "Bash" } }"#,
    );
    assert_eq!(menu_label(&p), "权限 · Edit");
}

#[test]
fn summary_tool_falls_back_to_permission_tool() {
    let p = Pending {
        kind: "permission".into(),
        default_action: Some("deny".into()),
        state: PendingState::Active,
        held_at: 0,
        expires_at: 0,
        payload: perm_payload("Bash"),
    };
    let s = v(&summary_of("id1", &p));
    assert_eq!(s["tool"], "Bash");
    assert_eq!(s["state"], "active");
    assert_eq!(s["kind"], "permission");
    assert_eq!(s["id"], "id1");
}

#[test]
fn a_popup_is_put_aside_once_and_waits_on() {
    let mut s = Store::new();
    assert!(s.register("a", direct("[smoke] 收起幂等"), 60_000, 1_000).is_empty());
    let first = v(&s.hold("a", 2_000).unwrap());
    assert_eq!(first["title"], "[smoke] 收起幂等");
    assert_eq!(first["tool"], "Bash");
    assert_eq!(first["state"], "held");
    assert_eq!(first["heldAt"], 2_000);
    assert_eq!(first["expiresAt"], 61_000);
    assert!(s.hold("a", 3_000).is_none());
    assert_eq!(s.count(), 1);
    assert_eq!(s.resolve("a"), Some(true));
    assert_eq!(s.resolve("a"), None);
}

#[test]
fn a_new_popup_ends_the_open_one_and_spares_those_put_aside() {
    let mut s = Store::new();
    s.register("held", direct("先收起"), 60_000, 0);
    s.hold("held", 10).unwrap();
    s.register("open", direct("开着的"), 60_000, 20);
    let victims = s.register("new", direct("后到的新弹窗"), 60_000, 30);
    assert_eq!(victims, vec!["open"]);
    assert_eq!(s.count(), 2);
    let held = s.list_held();
    assert_eq!(held.len(), 1);
    assert_eq!(v(&held[0])["id"], "held");
    assert_eq!(s.first_pending_id().as_deref(), Some("new"));
}

#[test]
fn only_popups_put_aside_are_taken_up_again() {
    let mut s = Store::new();
    let p = direct("[smoke] 唤回守卫").set("id", Json::text("g"));
    s.register("g", p, 60_000, 0);
    assert!(s.reopen("g").is_none());
    assert!(s.reopen("smoke-nonexistent").is_none());
    s.hold("g", 5).unwrap();
    let back = v(&s.reopen("g").unwrap());
    assert_eq!(back["id"], "g");
    assert_eq!(back["title"], "[smoke] 唤回守卫");
    assert_eq!(back["permission"]["tool"], "Bash");
    assert!(s.list_held().is_empty());
    assert_eq!(s.resolve("g"), Some(false));
}

#[test]
fn nothing_is_left_when_all_are_dismissed() {
    let mut s = Store::new();
    s.register("a", direct("a"), 60_000, 0);
    s.hold("a", 1);
    s.register("b", direct("b"), 60_000, 2);
    assert_eq!(s.dismiss_all(true), vec!["b"]);
    assert_eq!(s.count(), 1);
    assert_eq!(s.dismiss_all(false), vec!["a"]);
    assert_eq!(s.count(), 0);
    assert!(s.list_held().is_empty());
    assert_eq!(s.first_pending_id(), None);
}

#[test]
fn lists_run_in_the_order_of_putting_aside() {
    let mut s = Store::new();
    s.register("a", direct("a"), 60_000, 0);
    s.hold("a", 30);
    s.register("b", direct("b"), 60_000, 0);
    s.hold("b", 10);
    s.register("c", direct("c"), 60_000, 0);
    let ids: Vec<Value> = s.list().iter().map(|x| v(x)["id"].clone()).collect();
    assert_eq!(ids, vec!["c", "b", "a"]);
    let chips = v(&s.held_chip_items());
    assert_eq!(chips[0]["id"], "b");
    assert_eq!(chips[0]["label"], "权限 · Bash");
    assert_eq!(chips[1]["title"], "a");
    assert_eq!(s.held_target(None).as_deref(), Some("b"));
    assert_eq!(s.held_target(Some("")).as_deref(), Some("b"));
    assert_eq!(s.held_target(Some("x")).as_deref(), Some("x"));
    assert_eq!(Store::new().held_target(None), None);
}

#[test]
fn a_wait_that_is_over_falls_back_to_the_default() {
    let mut s = Store::new();
    s.register("a", direct("a"), 5_000, 0);
    let d = s.timed_out("a").unwrap();
    assert_eq!(d.action.as_deref(), Some("deny"));
    assert_eq!(d.decided_by, "timeout");
    assert!(s.timed_out("a").is_none());
    let d = settle(None);
    assert_eq!(d.action, None);
    assert_eq!(d.decided_by, "timeout");
    let d = settle(Some(Decision::dismissed()));
    assert_eq!(d.decided_by, "dismissed");
}

#[test]
fn registering_an_id_again_replaces_it() {
    let mut s = Store::new();
    s.register("a", direct("one"), 5_000, 0);
    assert!(s.register("a", direct("two"), 5_000, 0).is_empty());
    assert_eq!(s.count(), 1);
    assert_eq!(s.take("a").unwrap().kind, "permission");
    assert!(s.take("a").is_none());
}

#[test]
fn store_default_is_empty() {
    let s = PopupStore::default();
    assert!(s.payloads.is_empty());
    assert!(s.current.is_none());
}

#[test]
fn a_popup_gets_what_its_window_needs() {
    let o = prepare(j(r#"{"kind":"ask","title":"t"}"#), "f1".to_string());
    assert_eq!(o.id, "f1");
    assert_eq!(o.label, "notify-f1");
    assert_eq!(o.url, "notify.html?id=f1");
    assert_eq!(o.size, (460, 260));
    assert!(o.interactive);
    let d = v(&o.data);
    assert_eq!(d["id"], "f1");
    assert_eq!(d["flavor"], "ask");
    assert_eq!(d["interactive"], true);
    let o = prepare(j(r#"{"kind":"bogus","type":"work","id":"x"}"#), "f2".to_string());
    assert_eq!(o.id, "x");
    assert_eq!(v(&o.data)["kind"], "notification");
    assert_eq!(v(&o.data)["flavor"], "work");
    assert!(!o.interactive);
    let o = prepare(j("3"), "f3".to_string());
    assert_eq!(v(&o.data)["flavor"], "agent");
}

#[test]
fn one_popup_is_open_at_a_time() {
    let mut s = PopupStore::default();
    assert!(s.dismiss_previous("a").is_none());
    s.open(&prepare(j(r#"{"kind":"ask"}"#), "a".to_string()));
    assert_eq!(v(&s.get_payload("a").unwrap())["id"], "a");
    let r = s.dismiss_previous("b").unwrap();
    assert_eq!(r.dismissed.as_deref(), Some("a"));
    assert_eq!(r.label, "notify-a");
    assert!(s.get_payload("a").is_none());
    s.open(&prepare(j(r#"{"kind":"ask"}"#), "b".to_string()));
    let r = s.dismiss_previous("b").unwrap();
    assert_eq!(r.dismissed, None);
    s.open(&prepare(j(r#"{"kind":"notification"}"#), "n".to_string()));
    s.forget("other");
    assert!(s.current.is_some());
    assert_eq!(s.close_by_id("x"), None);
    assert_eq!(s.close_by_id("n").as_deref(), Some("notify-n"));
    s.forget("notify-n");
    assert!(s.payloads.is_empty());
}
