//! Examples of what holds across calls.

use pomodoro::about::compare_version;
use pomodoro::ancli;
use pomodoro::cache;
use pomodoro::cursor;
use pomodoro::env::{Env, Reading};
use pomodoro::gateway::{
    answer, answer_text, handle_event, has_room, read_body, request, Plan, Scene,
};
use pomodoro::geometry::{detect_edge, dock_geometry, pick_work_area, Edge, Metrics, Rect};
use pomodoro::http::{decode_chunked, raw_request, read_reply, read_response, reply_json, Progress};
use pomodoro::install::{hook_fingerprint, Host, Installer};
use pomodoro::interaction::Decision;
use pomodoro::json::{parse_stored, print_compact, Json, Object};
use pomodoro::opencode;
use pomodoro::payload::normalize_interaction;
use pomodoro::popup::{prepare, PopupStore};
use pomodoro::state::{GatewayState, WindowState};
use pomodoro::step::Step;
use pomodoro::text::{collapse, fold_chars};
use pomodoro::time::{civil_from_days, iso8601_ms};
use pomodoro::tray::{build_menu, menu_action, MenuAction, MenuLine};
use pomodoro::window::{
    dock_hide, dock_hide_step, drag_step, end_drag, reveal_from_dock, schedule_dock_hide,
    set_pin_mini, start_drag, Hide,
};
use serde_json::Value;

fn j(text: &str) -> Json {
    parse_stored(text).unwrap()
}

fn object(text: &str) -> Object {
    match j(text) {
        Json::Obj(o) => o,
        _ => panic!("not an object"),
    }
}

fn v(x: &Json) -> Value {
    serde_json::from_str(&print_compact(x)).unwrap()
}

fn env() -> Env {
    Env {
        source: None,
        zcode_plugin_root: None,
        zcode_cli_home: None,
        ask: None,
        permission: None,
        always_allow: None,
        local_always_allow: None,
        ask_mode: None,
        permission_dest: None,
        timeout: Reading::Absent,
        lead: "lead".to_string(),
    }
}

fn installer(clean: bool, own: &str) -> Installer {
    Installer::new(false, clean, false, own.to_string(), "lead".to_string())
}

const HOSTS: [Host; 7] = [
    Host::Zcode, Host::Lead, Host::Vscode, Host::Trae, Host::Cursor, Host::Codex, Host::Qwen,
];

#[test]
fn versions_stand_in_one_order() {
    let rising = ["0.9", "1", "1.0.1", "1.1.0-beta", "1.2", "1.10", "2.0.0"];
    for a in 0..rising.len() {
        for b in 0..rising.len() {
            let want = if a < b { -1 } else { i32::from(a > b) };
            assert_eq!(compare_version(rising[a], rising[b]), want, "{a} {b}");
            assert_eq!(compare_version(rising[b], rising[a]), -want);
        }
    }
}

#[test]
fn a_zero_segment_makes_no_difference() {
    for a in ["", "v", "1", " v1.2 ", "1.2.3-beta", "1..2", "abc", "1.99999999999999999999", "v \t"] {
        assert_eq!(compare_version(&format!("{a}.0"), a), 0, "{a:?}");
    }
}

#[test]
fn decoding_undoes_encoding() {
    let parts: [&[u8]; 3] = [b"hello", b" \r\n0\r\n\r\nworld!!!!!", &[0u8; 300]];
    let mut data: Vec<u8> = Vec::new();
    for p in parts {
        data.extend_from_slice(format!("{:x}\r\n", p.len()).as_bytes());
        data.extend_from_slice(p);
        data.extend_from_slice(b"\r\n");
    }
    data.extend_from_slice(b"0\r\n\r\n");
    assert_eq!(decode_chunked(&data).unwrap(), parts.concat());
    for n in 0..data.len() - 2 {
        assert!(decode_chunked(&data[..n]).is_none(), "{n}");
    }
    assert!(decode_chunked(&data[..data.len() - 2]).is_some());
}

#[test]
fn only_the_count_that_is_raised_needs_room() {
    let mut s = GatewayState::default();
    s.activity.stops = u64::MAX;
    let tool = j(r#"{ "kind": "tool-after" }"#);
    assert!(has_room(&s.activity, &tool) && has_room(&s.activity, &j(r#"{ "kind": "?" }"#)));
    assert!(!has_room(&s.activity, &j(r#"{ "kind": "stop" }"#)));
    let scene =
        Scene { pending: 0, phase: "work".to_string(), running: true, now: 0, lead: "lead".to_string() };
    handle_event(&mut s, &tool, &scene);
    assert_eq!((s.activity.tool_calls, s.activity.stops), (1, u64::MAX));
}

#[test]
fn others_hooks_keep_their_order() {
    let mut cfg = object(
        r#"{ "hooks": { "Stop": [
            { "hooks": [{ "command": "b" }] },
            { "hooks": [{ "command": "node \"/old/pomodoro-hook.js\"" }] },
            { "hooks": [{ "command": "a" }] }, "odd", { "hooks": [{ "command": "b" }] } ] } }"#,
    );
    installer(true, "/new/pomodoro-hook").install_config(Host::Codex, &mut cfg);
    let cfg = v(&Json::Obj(cfg));
    let list = cfg["hooks"]["Stop"].as_array().unwrap();
    assert_eq!(list.len(), 5);
    assert_eq!(list[0]["hooks"][0]["command"], "b");
    assert_eq!(list[1]["hooks"][0]["command"], "a");
    assert_eq!(list[2], "odd");
    assert_eq!(list[3]["hooks"][0]["command"], "b");
    assert_eq!(list[4]["hooks"][0]["command"], "\"/new/pomodoro-hook\" --source codex");
}

#[test]
fn members_read_as_they_were_set() {
    let mut o = object(r#"{ "a": 1, "b": 2 }"#);
    o.put("a", Json::text("x"));
    o.put("c", Json::Null);
    assert_eq!(print_compact(&Json::Obj(o.clone())), r#"{"a":"x","b":2,"c":null}"#);
    o.put("a", Json::Bool(true));
    o.put_all(&object(r#"{ "d": 4, "b": 3 }"#));
    assert_eq!(print_compact(&Json::Obj(o)), r#"{"a":true,"b":3,"c":null,"d":4}"#);
}

#[test]
fn folding_twice_is_folding_once() {
    let once: String = fold_chars("  a \t\n b　c ").into_iter().collect();
    assert_eq!(once, "a b c");
    let twice: String = fold_chars(&once).into_iter().collect();
    assert_eq!(twice, once);
    assert_eq!(collapse(&collapse("  a \t b ", 10), 10), "a b");
}

#[test]
fn later_days_have_later_dates() {
    let day = 86_400_000;
    let mut before = iso8601_ms(-3 * day);
    for d in -2..800 {
        let date = iso8601_ms(d * day);
        assert!(before < date, "{before} {date}");
        before = date;
    }
    assert_eq!(before, "1972-03-10T00:00:00.000Z");
}

#[test]
fn a_complete_response_stays_as_it_is() {
    let head = "HTTP/1.1 200 OK\r\nTransfer-Encoding: chunked\r\n\r\n";
    let whole = format!("{head}3\r\nabc\r\n0\r\n\r\n");
    for more in ["", "x", "4\r\nmore\r\n0\r\n\r\n"] {
        for closed in [false, true] {
            match read_response(format!("{whole}{more}").as_bytes(), closed) {
                Progress::Done(200, b) => assert_eq!(b, b"abc"),
                _ => panic!("complete"),
            }
        }
    }
}

#[test]
fn whatever_waits_can_be_answered() {
    for raw in ["{}", "[]", r#"{ "kind": "ask", "questions": [{ "question": "?" }] }"#] {
        match request(&j(raw), Reading::Absent) {
            Plan::Wait(_, p, ms) => {
                assert!((5_000..=7_200_000).contains(&ms));
                let p = v(&p);
                let actions = p["actions"].as_array().map_or(0, |a| a.len());
                let words = p["questions"][0]["custom"] == true;
                assert!(actions > 0 || words, "{p}");
            }
            _ => panic!("waits"),
        }
    }
}

#[test]
fn a_file_to_be_read_takes_the_permission_alone() {
    let p = j(r#"{ "hook_event_name": "beforeReadFile", "file_path": "a" }"#);
    let a = cursor::answer(&p, &env(), &j(r#"{ "decidedBy": "user", "action": "deny" }"#));
    assert_eq!(print_compact(&a.output), r#"{"permission":"deny"}"#);
}

#[test]
fn forgetting_a_popup_twice_is_forgetting_it_once() {
    let mut s = PopupStore::default();
    s.open(&prepare(j(r#"{"kind":"ask"}"#), "a".to_string()));
    s.forget("notify-a");
    assert!(s.current.is_none() && s.get_payload("a").is_none());
    s.forget("notify-a");
    assert!(s.current.is_none() && s.payloads.is_empty());
}

#[test]
fn items_of_the_menu_reopen_their_popups() {
    let held = [j(r#"{ "id": "a:b", "kind": "ask" }"#), j(r#"{ "id": "c", "kind": "ask" }"#)];
    let mut seen: Vec<String> = Vec::new();
    for line in build_menu(&held, true) {
        if let MenuLine::Submenu(_, _, items) = line {
            for item in items {
                match menu_action(&item.0) {
                    MenuAction::Reopen(id) => seen.push(id),
                    _ => panic!("reopens"),
                }
            }
        }
    }
    assert_eq!(seen, vec!["a:b", "c"]);
}

#[test]
fn a_narrower_rule_does_not_take_a_broader_one_away() {
    let stored = [j(r#"{"source":"cursor","tool":"Bash","rule":"*","at":1000}"#)];
    let covered = |rule: &str, rules: &[Json]| {
        cache::local_rule_match("cursor", "Bash", rule, rules, &env())
    };
    let after = cache::local_rule_add("cursor", "Bash", "ls", &stored, 2000, &env()).unwrap();
    let rules = cache::local_rule_read_all(&after, 2000);
    assert_eq!(print_compact(&rules[0]), print_compact(&stored[0]));
    assert!(covered("pwd", &rules) && covered("ls", &rules));
    // The broader one runs out first; the narrower one is still there then.
    let rules = cache::local_rule_read_all(&after, 1000 + cache::LOCAL_RULE_TTL_MS);
    assert!(covered("ls", &rules) && !covered("pwd", &rules));
    // One that lasts makes the narrower one superfluous.
    let lasting = [j(r#"{"source":"cursor","tool":"Bash","rule":"*"}"#)];
    let after = cache::local_rule_add("cursor", "Bash", "ls", &lasting, 2000, &env()).unwrap();
    assert_eq!(v(&after), v(&Json::Arr(lasting.to_vec())));
    // The same one is renewed.
    let after = cache::local_rule_add("cursor", "Bash", "", &stored, 2000, &env()).unwrap();
    assert_eq!(v(&after).as_array().unwrap().len(), 1);
    assert_eq!(v(&after)[0]["at"], 2000);
}

#[test]
fn a_question_is_asked_once() {
    let ask = |event: &str| {
        j(&format!(
            r#"{{ "hook_event_name": "{event}", "tool_name": "AskUserQuestion",
                "tool_use_id": "u1", "tool_input": {{ "questions": [{{ "question": "?" }}] }} }}"#
        ))
    };
    let (first, second) = (ask("PreToolUse"), ask("PermissionRequest"));
    assert_eq!(cache::cache_key_for(&first), cache::cache_key_for(&second));
    let step = |cached: Option<&Json>| {
        ancli::handle_ask(&second, "lead-code", Json::object(), cached, &env())
    };
    assert!(matches!(step(None), Step::Interact(_, _)));
    let reply = j(r#"{ "decidedBy": "user", "action": "submit", "answers": { "q0": ["x"] } }"#);
    let text = cache::cache_write(&reply, 1_000);
    match step(cache::cache_load(Some(&text), 91_000).as_ref()) {
        Step::Print(out) => {
            let decision = &v(&out)["hookSpecificOutput"]["decision"];
            assert_eq!(decision["updatedInput"]["answers"]["?"], "x");
        }
        _ => panic!("answered without a popup"),
    }
    let late = j(r#"{ "decidedBy": "timeout", "action": "submit" }"#);
    let text = cache::cache_write(&late, 1_000);
    assert!(matches!(step(cache::cache_load(Some(&text), 2_000).as_ref()), Step::Silent));
}

#[test]
fn a_normal_form_is_settled() {
    let long = "字".repeat(3_000);
    for raw in [
        "null".to_string(),
        format!(r#"{{ "title": "{long}", "flavor": "{long}", "timeoutMs": 1.5, "detail": "{long}" }}"#),
        format!(
            r#"{{ "kind": "ask", "questions": [7, {{ "text": "{long}", "multiple": true,
                "options": ["", "甲", {{ "value": "{long}", "hint": "h" }}] }}, {{ "title": "t" }}] }}"#
        ),
        r#"{ "kind": "permission", "toolName": "Bash", "defaultAction": "",
             "permission": { "suggestions": ["a", {}, { "pattern": "p" }] } }"#
            .to_string(),
        r#"{ "actions": [{ "id": "", "label": "x", "style": "odd" }, 3], "timeoutMs": "9" }"#.to_string(),
    ] {
        let once = normalize_interaction(&j(&raw), Reading::Absent);
        let twice = normalize_interaction(&once, Reading::Infinite(true));
        assert_eq!(print_compact(&twice), print_compact(&once));
    }
}

#[test]
fn moments_of_four_digit_years_are_ordered_texts() {
    let (first, last) = (-62_167_219_200_000, 253_402_300_799_999);
    assert_eq!(iso8601_ms(first), "0000-01-01T00:00:00.000Z");
    assert_eq!(iso8601_ms(last), "9999-12-31T23:59:59.999Z");
    let mut t: i64 = first;
    let mut before = iso8601_ms(t);
    while t < last - 12_345_678_901 {
        t += 12_345_678_901;
        let text = iso8601_ms(t);
        assert_eq!(text.len(), 24);
        assert!(before < text, "{before} {text}");
        before = text;
    }
}

#[test]
fn the_calendar_goes_on_day_by_day() {
    let day = |z: i64| iso8601_ms(z * 86_400_000)[..10].to_string();
    assert_eq!(day(0), "1970-01-01");
    assert_eq!(civil_from_days(0), (1970, 1, 1));
    assert_eq!(civil_from_days(-100_000_000), (-271_821, 4, 20));
    assert_eq!(civil_from_days(100_000_000), (275_760, 9, 13));
    assert_eq!((day(11_015), day(11_016), day(11_017)), (
        "2000-02-28".to_string(), "2000-02-29".to_string(), "2000-03-01".to_string()
    ));
    assert_eq!((day(-25_509), day(-25_508)), ("1900-02-28".to_string(), "1900-03-01".to_string()));
    assert_eq!((day(-1), day(30), day(31)), (
        "1969-12-31".to_string(), "1970-01-31".to_string(), "1970-02-01".to_string()
    ));
}

// ---------------------------------------------------------------------------
// The window
// ---------------------------------------------------------------------------

#[test]
fn a_docked_window_docks_again() {
    let m = Metrics::design();
    let wa = Rect::new(0, 0, 1920, 1040);
    for edge in [Edge::Left, Edge::Right, Edge::Top, Edge::Bottom] {
        for hidden in [false, true] {
            let b = Rect::new(700, 400, m.mini_w, m.mini_h);
            let docked = dock_geometry(edge, b, wa, hidden, &m);
            assert!(detect_edge(docked, wa, &m).is_some());
            assert_eq!(dock_geometry(edge, docked, wa, hidden, &m), docked);
        }
    }
}

#[test]
fn the_largest_share_wins() {
    let left = Rect::new(0, 0, 100, 100);
    let right = Rect::new(100, 0, 100, 100);
    assert_eq!(pick_work_area(Rect::new(60, 0, 60, 10), &[left, right]), Some(left));
    assert_eq!(pick_work_area(Rect::new(90, 0, 60, 10), &[left, right]), Some(right));
}

#[test]
fn what_was_called_off_does_nothing() {
    let m = Metrics::design();
    let wa = Rect::new(0, 0, 1920, 1040);
    let b = Rect::new(0, 100, m.mini_w, m.mini_h);
    let docked = || {
        let mut w = WindowState::default();
        set_pin_mini(&mut w, true);
        start_drag(&mut w, b, (5, 105), wa);
        end_drag(&mut w, b, wa, &m);
        assert!(reveal_from_dock(&mut w, None, b));
        w
    };
    let mut w = docked();
    let token = schedule_dock_hide(&mut w);
    schedule_dock_hide(&mut w);
    assert!(!dock_hide(&mut w, token));
    let mut w = docked();
    let token = schedule_dock_hide(&mut w);
    end_drag(&mut w, b, wa, &m);
    assert!(!dock_hide(&mut w, token));
    let mut w = docked();
    let token = schedule_dock_hide(&mut w);
    set_pin_mini(&mut w, false);
    assert!(!dock_hide(&mut w, token));
    let mut w = docked();
    let token = schedule_dock_hide(&mut w);
    let mut left = 10;
    let mut tries = 0;
    while let Hide::Retry(n) = dock_hide_step(&w, token, None, b, left) {
        left = n;
        tries += 1;
    }
    assert_eq!(tries, 10);
    assert!(dock_hide(&mut w, token));
}

#[test]
fn a_drag_stays_on_its_screen_near_the_edge() {
    let m = Metrics::design();
    let a = Rect::new(0, 0, 1920, 1040);
    let b = Rect::new(1920, 0, 1920, 1040);
    assert_eq!(drag_step(a, (1920 + m.drag_switch_margin, 500), &[a, b], &m), a);
    assert_eq!(drag_step(a, (1000, 500), &[a, b], &m), a);
    assert_eq!(drag_step(a, (3000, 500), &[a, b], &m), b);
}

// ---------------------------------------------------------------------------
// Installations
// ---------------------------------------------------------------------------

#[test]
fn the_program_identifies_its_entries() {
    let own = "/opt/my app/pomodoro-hook";
    let i = installer(false, own);
    for source in ["lead-code", "qwen", "-"] {
        let h = i.hook_command_shell(source);
        let timed = h.clone().set("timeout", Json::PosInt(30));
        for hook in [h, timed] {
            let plain = Json::object().with("hooks", Json::Arr(vec![hook.clone()]));
            let matched =
                Json::object().with("matcher", Json::text("*")).with("hooks", Json::Arr(vec![hook]));
            assert_eq!(hook_fingerprint(&plain), own);
            assert_eq!(hook_fingerprint(&matched), own);
        }
    }
}

#[test]
fn installing_again_changes_nothing_with_cleaning() {
    for host in HOSTS {
        let i = installer(true, "C:\\new\\pomodoro-hook.exe");
        let mut cfg = object(r#"{ "version": 3, "hooks": { "Stop": [], "events": {} } }"#);
        installer(false, "D:\\old\\pomodoro-hook.exe").install_config(host, &mut cfg);
        i.install_config(host, &mut cfg);
        let once = print_compact(&Json::Obj(cfg.clone()));
        i.install_config(host, &mut cfg);
        assert_eq!(print_compact(&Json::Obj(cfg)), once, "{}", host.as_str("lead"));
    }
}

#[test]
fn others_hooks_and_settings_stay() {
    let other = r#"{ "hooks": [{ "type": "command", "command": "someone-elses" }] }"#;
    for host in HOSTS {
        for clean in [false, true] {
            let event = if matches!(host, Host::Cursor) { "stop" } else { "Stop" };
            let hooks = format!(r#""{event}": [{other}]"#);
            let hooks = if matches!(host, Host::Zcode) {
                format!(r#""events": {{ {hooks} }}"#)
            } else {
                hooks
            };
            let mut cfg = object(&format!(r#"{{ "mine": [1], "hooks": {{ {hooks} }} }}"#));
            installer(clean, "C:\\pomodoro-hook.exe").install_config(host, &mut cfg);
            let cfg = v(&Json::Obj(cfg));
            assert_eq!(cfg["mine"][0], 1);
            let hooks =
                if matches!(host, Host::Zcode) { &cfg["hooks"]["events"] } else { &cfg["hooks"] };
            let list = hooks[event].as_array().unwrap();
            assert_eq!(list.len(), 2);
            assert_eq!(list[0], v(&j(other)));
        }
    }
}

// ---------------------------------------------------------------------------
// From the popup to the host
// ---------------------------------------------------------------------------

fn over_the_wire(d: &Decision, kind: &str) -> Json {
    let a = answer(d.to_json(kind));
    reply_json(read_reply(a.code, answer_text(&a).as_bytes())).unwrap()
}

#[test]
fn the_host_gets_what_the_user_decided() {
    let p = j(r#"{ "hook_event_name": "PermissionRequest", "tool_name": "Bash",
        "tool_input": { "command": "ls" } }"#);
    let user = |action: &str, words: &str| {
        Decision::user(action.to_string(), Json::object(), words.to_string())
    };
    let reply = over_the_wire(&user("deny", "别删"), "permission");
    assert_eq!(print_compact(&reply), print_compact(&user("deny", "别删").to_json("permission")));
    let out = ancli::permission_answer(&p, "lead-code", &env(), &reply).output.unwrap();
    let decision = &v(&out)["hookSpecificOutput"]["decision"];
    assert_eq!(decision["behavior"], "deny");
    assert_eq!(decision["message"], "用户拒绝：别删");
    assert_eq!(v(&opencode::permission_answer(&reply))["status"], "deny");

    let reply = over_the_wire(&user("allow-always", ""), "permission");
    let got = ancli::permission_answer(&p, "lead-code", &env(), &reply);
    assert!(got.remember);
    assert_eq!(v(&got.output.unwrap())["hookSpecificOutput"]["decision"]["behavior"], "allow");

    for end in [Decision::dismissed(), Decision::timeout(Some("allow".to_string()))] {
        let reply = over_the_wire(&end, "permission");
        let got = ancli::permission_answer(&p, "lead-code", &env(), &reply);
        assert!(got.output.is_none() && !got.remember);
        assert_eq!(v(&opencode::permission_answer(&reply))["status"], "ask");
    }
}

#[test]
fn the_host_gets_the_users_answers() {
    let p = j(r#"{ "hook_event_name": "PreToolUse", "tool_name": "AskUserQuestion",
        "tool_input": { "questions": [{ "question": "用哪个？", "options": ["甲", "乙"] }] } }"#);
    let d = Decision::user("submit".to_string(), j(r#"{ "q0": ["乙"] }"#), String::new());
    let out = ancli::ask_answer(&p, "lead-code", &env(), &over_the_wire(&d, "ask")).unwrap();
    let input = &v(&out)["hookSpecificOutput"]["updatedInput"];
    assert_eq!(input["answers"]["用哪个？"], "乙");
    assert_eq!(input["questions"][0]["question"], "用哪个？");
}

#[test]
fn the_gateway_reads_what_the_hook_sends() {
    let body = j(r#"{ "kind": "ask", "title": "中文 \"x\"", "n": [1, -2, null] }"#);
    let sent = raw_request(5277, "t", "POST", "/api/interaction", Some(&body));
    let data = sent.split("\r\n\r\n").nth(1).unwrap();
    let read = read_body(Some(data.as_bytes().to_vec())).ok().unwrap();
    assert_eq!(print_compact(&read), print_compact(&body));
}
