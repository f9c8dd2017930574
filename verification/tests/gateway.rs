//! The gateway: who is let in, and what requests and events lead to.

use pomodoro::env::Reading;
use pomodoro::gateway::{
    answer, authorized, constant_time_eq, discovery_body, done, gateway_state, handle_event,
    handle_request, header_value, host_is_loopback, host_ok, identified, is_running, notify_popup,
    observe_timer_state, parse_body, plan, port, port_candidates, random_hex, read_body,
    remaining_ms, request, request_payload, status_body, takes_break, timer_command, token_from,
    write_discovery, Endpoint, Plan, Request, Routed, Scene, Verb, BODY_LIMIT,
    BREAK_SUGGEST_COOLDOWN_MS,
};
use pomodoro::json::{parse_stored, print_compact, Json};
use pomodoro::state::{Activity, GatewayState, TimerState};
use serde_json::Value;

fn j(text: &str) -> Json {
    parse_stored(text).unwrap()
}

fn v(x: &Json) -> Value {
    serde_json::from_str(&print_compact(x)).unwrap()
}

fn req(verb: Verb, url: &str, headers: &[(&str, &str)]) -> Request {
    Request {
        verb,
        url: url.to_string(),
        headers: headers.iter().map(|h| (h.0.to_string(), h.1.to_string())).collect(),
    }
}

fn code(r: Routed) -> u16 {
    match r {
        Routed::Reply(a) => a.code,
        _ => panic!("not answered at once"),
    }
}

fn scene(now: i64) -> Scene {
    Scene { pending: 0, phase: "work".to_string(), running: true, now, lead: "lead".to_string() }
}

#[test]
fn constant_time_eq_matches_plain_eq() {
    assert!(constant_time_eq(b"abc", b"abc"));
    assert!(!constant_time_eq(b"abc", b"abd"));
    assert!(!constant_time_eq(b"abc", b"abcd"));
    assert!(!constant_time_eq(b"", b"a"));
    assert!(constant_time_eq(b"", b""));
}

#[test]
fn random_hex_length_and_charset() {
    let t = random_hex(24);
    assert_eq!(t.len(), 48);
    assert!(t.chars().all(|c| c.is_ascii_hexdigit()));
    assert_ne!(random_hex(24), t);
}

#[test]
fn a_token_is_made_of_all_its_bytes_or_empty() {
    assert_eq!(token_from(Some(vec![0x00, 0x0f, 0xa5, 0xff])), "000fa5ff");
    assert_eq!(token_from(Some(Vec::new())), "");
    assert_eq!(token_from(None), "");
    assert_eq!(random_hex(0), "");
}

#[test]
fn host_is_loopback_only_accepts_loopback() {
    for ok in [
        "127.0.0.1", "127.0.0.1:5277", "localhost", "LocalHost:1", "[::1]", "[::1]:5277",
        " 127.0.0.1 ",
    ] {
        assert!(host_is_loopback(ok), "{ok}");
    }
    for bad in [
        "evil.example.com",
        "evil.example.com:5277",
        "127.0.0.1.evil.com",
        "localhost.evil.com",
        "127.0.0.2",
        "[::2]",
        "127.0.0.1:",
        "127.0.0.1:abc",
        "[::1]x",
        "",
    ] {
        assert!(!host_is_loopback(bad), "{bad:?}");
    }
}

#[test]
fn brackets_hold_the_one_address_and_a_port_is_a_number() {
    for ok in ["[::1]:0", " [::1]:65535 ", "LOCALHOST:80"] {
        assert!(host_is_loopback(ok), "{ok}");
    }
    for bad in [
        "[::1]:abc", "[::1]:", "[::1]:80a", "[::1", "[localhost]", "[127.0.0.1]:80", "::1", "[]",
        "[[::1]]", ":80", "localhost:",
    ] {
        assert!(!host_is_loopback(bad), "{bad}");
    }
}

#[test]
fn every_host_header_is_looked_at() {
    assert!(!host_ok(&req(Verb::Get, "/", &[])));
    assert!(host_ok(&req(Verb::Get, "/", &[("HOST", "localhost")])));
    assert!(!host_ok(&req(Verb::Get, "/", &[("Host", "localhost"), ("host", "evil.com")])));
}

#[test]
fn requests_are_routed() {
    let good = [("Host", "127.0.0.1"), ("Authorization", "Bearer tok ")];
    assert_eq!(code(handle_request(&req(Verb::Get, "/health?x=1", &[]), "tok")), 200);
    assert_eq!(code(handle_request(&req(Verb::Get, "/api/status", &[("Host", "evil.example.com")]), "tok")), 403);
    assert_eq!(code(handle_request(&req(Verb::Get, "/api/status", &[("Host", "127.0.0.1")]), "tok")), 401);
    assert_eq!(code(handle_request(&req(Verb::Get, "/api/status", &good), "other")), 401);
    assert_eq!(code(handle_request(&req(Verb::Get, "/api/status", &good), "")), 401);
    assert!(matches!(handle_request(&req(Verb::Get, "/api/status", &good), "tok"), Routed::Status));
    assert!(matches!(
        handle_request(&req(Verb::Post, "/api/confirm", &good), "tok"),
        Routed::Body(Endpoint::Confirm)
    ));
    assert_eq!(code(handle_request(&req(Verb::Get, "/api/confirm", &good), "tok")), 404);
    assert_eq!(code(handle_request(&req(Verb::Other, "/api/status", &good), "tok")), 404);
    assert_eq!(code(handle_request(&req(Verb::Post, "/health", &good), "tok")), 404);
    assert!(authorized(&req(Verb::Get, "/", &[("authorization", "bearer tok")]), "tok"));
    assert!(!authorized(&req(Verb::Get, "/", &[("authorization", "BEARER tok")]), "tok"));
    assert!(!authorized(&req(Verb::Get, "/", &[("authorization", "tok")]), "tok"));
    assert_eq!(
        header_value(&req(Verb::Get, "/", &[("X-A", "1"), ("x-a", "2")]), "x-a").as_deref(),
        Some("1")
    );
}

#[test]
fn bodies_are_read_within_limits() {
    assert_eq!(read_body(None).err().unwrap().code, 400);
    assert_eq!(read_body(Some(vec![b' '; BODY_LIMIT + 1])).err().unwrap().code, 413);
    assert_eq!(print_compact(&read_body(Some(vec![b' '; 10])).ok().unwrap()), "{}");
    assert_eq!(print_compact(&parse_body("").ok().unwrap()), "{}");
    let bad = parse_body("{oops").err().unwrap();
    assert_eq!(bad.code, 400);
    assert_eq!(v(&bad.body)["error"], "invalid json");
    let text = "{\"a\":\"\u{fffd}\"}";
    let mut bytes = b"{\"a\":\"".to_vec();
    bytes.push(0xff);
    bytes.extend_from_slice(b"\"}");
    assert_eq!(print_compact(&read_body(Some(bytes)).ok().unwrap()), text);
}

#[test]
fn the_timer_takes_three_commands() {
    assert_eq!(timer_command(&j(r#"{ "command": "skip" }"#)).ok().unwrap(), "skip");
    let bad = timer_command(&j(r#"{ "command": "explode" }"#)).err().unwrap();
    assert_eq!(bad.code, 400);
    assert_eq!(v(&bad.body)["error"], "command must be toggle|reset|skip");
    assert!(timer_command(&j("{}")).is_err());
}

#[test]
fn older_confirmations_are_custom_popups() {
    let p = request_payload(Endpoint::Confirm, j(r#"{ "kind": "ask", "title": "t" }"#));
    assert_eq!(print_compact(&p), r#"{"kind":"custom","title":"t"}"#);
    let p = request_payload(Endpoint::Confirm, j("[]"));
    assert_eq!(print_compact(&p), r#"{"kind":"custom"}"#);
    let p = request_payload(Endpoint::Interaction, j(r#"{ "kind": "ask" }"#));
    assert_eq!(print_compact(&p), r#"{"kind":"ask"}"#);
    assert_eq!(v(&identified(p, "i"))["id"], "i");
    assert_eq!(done().code, 200);
    assert_eq!(v(&answer(j("1")).body), 1);
}

#[test]
fn notifications_and_empty_questions_do_not_wait() {
    match request(&j(r#"{ "kind": "notification", "title": "t" }"#), Reading::Absent) {
        Plan::Show(popup, reply) => {
            assert_eq!(v(&popup)["title"], "t");
            assert_eq!(v(&reply)["decidedBy"], "shown");
            assert_eq!(v(&reply)["action"], "shown");
        }
        _ => panic!("does not wait"),
    }
    match request(&j(r#"{ "kind": "ask", "questions": [] }"#), Reading::Absent) {
        Plan::Show(popup, reply) => {
            assert_eq!(v(&popup)["kind"], "notification");
            assert_eq!(v(&popup)["flavor"], "ask");
            assert_eq!(v(&reply)["kind"], "notification");
        }
        _ => panic!("does not wait"),
    }
    match request(&j(r#"{ "kind": "permission", "timeoutMs": 5000 }"#), Reading::Absent) {
        Plan::Wait(kind, p, ms) => {
            assert_eq!(kind, "permission");
            assert_eq!(v(&p)["defaultAction"], "deny");
            assert_eq!(ms, 5_000);
        }
        _ => panic!("waits"),
    }
    match plan(j(r#"{ "kind": "notification", "actions": [{}] }"#)) {
        Plan::Wait(kind, _, ms) => assert_eq!((kind.as_str(), ms), ("notification", 3_600_000)),
        _ => panic!("waits"),
    }
    assert_eq!(remaining_ms(5_000, 200), 4_800);
    assert_eq!(remaining_ms(5_000, 6_000), 1);
    let n = notify_popup(j(r#"{ "title": "x" }"#), Reading::Absent);
    assert_eq!(v(&n)["kind"], "notification");
    assert_eq!(v(&notify_popup(j(r#"{ "kind": "ask" }"#), Reading::Absent))["kind"], "ask");
}

#[test]
fn events_are_counted_and_may_be_shown() {
    let mut s = GatewayState::default();
    let o = handle_event(&mut s, &j(r#"{ "kind": "tool-after", "tool": "smoke" }"#), &scene(0));
    assert_eq!(v(&o.reply)["activity"]["toolCalls"], 1);
    assert_eq!(v(&o.reply)["triggered"], Value::Null);
    assert!(o.popup.is_none() && o.publish);
    for kind in ["permission", "ask"] {
        let ev = j(&format!(r#"{{ "kind": "{kind}", "source": "manual", "message": "m" }}"#));
        let o = handle_event(&mut s, &ev, &scene(0));
        assert_eq!(v(&o.reply)["ok"], true);
        assert_eq!(v(&o.reply)["triggered"], "notify");
        let p = v(&o.popup.unwrap());
        assert_eq!(p["kind"], kind);
        assert_eq!(p["sub"], "手动");
    }
    assert_eq!(s.activity.interruptions, 2);
    handle_event(&mut s, &j(r#"{ "kind": "session-start" }"#), &scene(0));
    handle_event(&mut s, &j(r#"{ "kind": "session-end" }"#), &scene(0));
    assert_eq!(s.activity.sessions, 2);
    handle_event(&mut s, &j(r#"{ "kind": "prompt" }"#), &scene(0));
    let o = handle_event(&mut s, &j(r#"{ "kind": "interrupt" }"#), &scene(0));
    assert_eq!(v(&o.reply)["error"], "unknown kind: interrupt");
    assert!(!o.publish);
    let o = handle_event(&mut s, &j(r#"{ "kind": "permission" }"#), &scene(0));
    assert_eq!(v(&o.popup.unwrap())["title"], "Agent 需要权限确认");
}

#[test]
fn a_break_is_suggested_now_and_then() {
    let mut s = GatewayState::default();
    let stop = j(r#"{ "kind": "stop", "source": "zcode", "context": { "task": "重构" } }"#);
    let t = BREAK_SUGGEST_COOLDOWN_MS;
    let mut busy = scene(t);
    busy.pending = 1;
    assert!(handle_event(&mut s, &stop, &busy).suggestion.is_none());
    let mut resting = scene(t);
    resting.phase = "break".to_string();
    assert!(handle_event(&mut s, &stop, &resting).suggestion.is_none());
    let mut paused = scene(t);
    paused.running = false;
    assert!(handle_event(&mut s, &stop, &paused).suggestion.is_none());
    let o = handle_event(&mut s, &stop, &scene(t));
    let b = v(&o.suggestion.unwrap());
    assert_eq!(b["kind"], "custom");
    assert_eq!(b["message"], "「重构」这轮跑完了，要趁机休息一下吗？");
    assert_eq!(b["actions"][0]["id"], "break");
    assert_eq!(b["defaultAction"], "ignore");
    assert_eq!(b["timeoutMs"], 120_000);
    assert_eq!(b["source"], "zcode");
    assert_eq!(v(&o.reply)["triggered"], "break-suggest");
    assert!(handle_event(&mut s, &stop, &scene(2 * t - 1)).suggestion.is_none());
    assert!(handle_event(&mut s, &stop, &scene(2 * t)).suggestion.is_some());
    assert_eq!(s.activity.stops, 6);
    assert!(takes_break(&j(r#"{ "action": "break" }"#)));
    assert!(!takes_break(&j(r#"{ "action": null }"#)));
}

#[test]
fn a_new_working_phase_starts_the_counts_anew() {
    let mut s = GatewayState::default();
    s.activity.tool_calls = 5;
    assert!(!observe_timer_state(&mut s, "", 1));
    assert!(!observe_timer_state(&mut s, "break", 1));
    assert_eq!(s.activity.tool_calls, 5);
    assert!(observe_timer_state(&mut s, "work", 2));
    assert_eq!(s.activity.tool_calls, 0);
    assert_eq!(s.activity.since, Some(2));
    s.activity.stops = 1;
    assert!(!observe_timer_state(&mut s, "work", 3));
    assert_eq!(s.activity.stops, 1);
}

#[test]
fn the_state_is_told() {
    let a = Activity { since: Some(7), tool_calls: 1, interruptions: 2, stops: 3, sessions: 4 };
    let b = v(&status_body(&TimerState::default(), &a, 2, 5277));
    assert_eq!(b["ok"], true);
    assert_eq!(b["timer"]["phase"], "work");
    assert_eq!(b["timer"]["remainMs"], 0.0);
    assert_eq!(b["activity"]["interruptions"], 2);
    assert_eq!(b["pending"], 2);
    assert_eq!(b["gateway"]["version"], 2);
    assert_eq!(b["gateway"]["port"], 5277);
    let g = v(&gateway_state(0, "h", "p", &a));
    assert_eq!(g["enabled"], false);
    assert_eq!(g["port"], Value::Null);
    assert_eq!(g["hookPath"], "h");
    assert_eq!(v(&gateway_state(5278, "h", "p", &a))["port"], 5278);
    assert_eq!(port(0), None);
    assert_eq!(port(1), Some(1));
    assert!(!is_running(0) && is_running(1));
}

#[test]
fn ports_are_tried_in_a_row() {
    let p = port_candidates(&None);
    assert_eq!(p.len(), 20);
    assert_eq!((p[0], p[19]), (5277, 5296));
    assert_eq!(port_candidates(&Some("6000".to_string()))[0], 6000);
    assert_eq!(port_candidates(&Some("70000".to_string()))[0], 5277);
    assert_eq!(port_candidates(&Some("65530".to_string())).len(), 6);
}

#[test]
fn the_discovery_file_says_where_the_gateway_is() {
    let b = v(&discovery_body(5277, "tok", 42, 0).unwrap());
    assert_eq!(b["port"], 5277);
    assert_eq!(b["token"], "tok");
    assert_eq!(b["pid"], 42);
    assert_eq!(b["version"], 2);
    assert_eq!(b["startedAt"], "1970-01-01T00:00:00.000Z");
    assert!(discovery_body(5277, "", 42, 0).is_none());
    let text = write_discovery(5277, "tok", 42, 0).unwrap();
    assert!(text.starts_with("{\n  \"port\": 5277,\n"));
    assert!(write_discovery(5277, "", 42, 0).is_none());
}
