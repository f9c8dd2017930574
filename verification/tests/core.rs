//! Paths, settings, texts and times.

use pomodoro::env::{
    env_flag, env_str, hook_wait_ms, timeout_ms, Amount, Reading, DEFAULT_CONFIRM_TIMEOUT_MS,
    DEFAULT_HOOK_TIMEOUT_S, HOST_HOOK_TIMEOUT_S, MAX_CONFIRM_TIMEOUT_MS, MAX_HOOK_TIMEOUT_S,
};
use pomodoro::paths::{
    config_path, gateway_candidates, gateway_file, home_dir, hook_dir, hook_exe_path,
    hook_script_path, opencode_plugin_path, plugin_source_candidates, resolve_plugin_source,
    roaming_app_data, user_data_dir, watchdog_log, Place, Root, Var, Vars, PLUGIN_FILE_NAME,
};
use pomodoro::sha1::{sha1, sha1_hex_prefix};
use pomodoro::text::{
    basename, collapse, contains_text, decimal_signed, first_or, join, parse_number,
    read_second_word, short_session, split_text, to_lower, trim,
};
use pomodoro::time::{iso8601_ms, iso8601_now};

fn vars() -> Vars {
    Vars {
        user_data: Var::Unset,
        gateway_file: Var::Unset,
        appdata: Var::Filled,
        userprofile: Var::Filled,
        homedrive: Var::Unset,
        homepath: Var::Unset,
    }
}

fn path(p: &Place) -> String {
    p.parts.join("/")
}

fn set(s: &str) -> Option<String> {
    Some(s.to_string())
}

#[test]
fn timeout_layers_are_nested() {
    assert!(HOST_HOOK_TIMEOUT_S * 1000 > hook_wait_ms());
    assert!(hook_wait_ms() > DEFAULT_CONFIRM_TIMEOUT_MS);
    assert!(MAX_CONFIRM_TIMEOUT_MS >= DEFAULT_CONFIRM_TIMEOUT_MS);
    assert!(MAX_HOOK_TIMEOUT_S >= DEFAULT_HOOK_TIMEOUT_S);
}

#[test]
fn user_data_override_wins() {
    let mut v = vars();
    assert_eq!(user_data_dir(&v).root, Root::AppData);
    assert_eq!(path(&user_data_dir(&v)), "pomodoro-fluent");
    v.user_data = Var::Filled;
    assert_eq!(user_data_dir(&v).root, Root::UserData);
    assert!(user_data_dir(&v).parts.is_empty());
    v.user_data = Var::Empty;
    v.appdata = Var::Unset;
    assert_eq!(user_data_dir(&v).root, Root::Nothing);
    assert_eq!(path(&user_data_dir(&v)), "pomodoro-fluent");
}

#[test]
fn gateway_candidates_try_legacy_dir_first() {
    let list = gateway_candidates(&vars());
    assert_eq!(list.len(), 2);
    assert!(path(&list[0]).ends_with("番茄钟/gateway.json"));
    assert!(path(&list[1]).ends_with("pomodoro-fluent/gateway.json"));
    assert_eq!(list[0].root, list[1].root);
    assert_eq!(list[0].parts.len(), list[1].parts.len());
}

#[test]
fn a_named_discovery_file_is_the_only_one() {
    let mut v = vars();
    v.gateway_file = Var::Filled;
    let list = gateway_candidates(&v);
    assert_eq!(list.len(), 1);
    assert_eq!(list[0].root, Root::GatewayFile);
    assert_eq!(gateway_file(&v).root, Root::GatewayFile);
    v.gateway_file = Var::Empty;
    assert_eq!(path(&gateway_file(&v)), "pomodoro-fluent/gateway.json");
}

#[test]
fn home_falls_back_step_by_step() {
    let mut v = vars();
    assert_eq!(home_dir(&v).root, Root::UserProfile);
    v.userprofile = Var::Empty;
    v.homedrive = Var::Empty;
    v.homepath = Var::Filled;
    assert_eq!(home_dir(&v).root, Root::Drive);
    v.homedrive = Var::Unset;
    assert_eq!(home_dir(&v).root, Root::Here);
    v.appdata = Var::Empty;
    assert_eq!(roaming_app_data(&v).root, Root::Here);
    assert_eq!(path(&roaming_app_data(&v)), "AppData/Roaming");
}

#[test]
fn hook_paths_live_under_user_data() {
    let v = vars();
    let root = path(&user_data_dir(&v));
    assert!(path(&hook_dir(&v)).starts_with(&root));
    assert!(path(&hook_exe_path(&v)).starts_with(&root));
    assert!(path(&opencode_plugin_path(&v)).starts_with(&root));
    assert!(path(&hook_exe_path(&v)).ends_with("hook/pomodoro-hook.exe"));
    assert!(path(&opencode_plugin_path(&v)).ends_with("hook/opencode/pomodoro-opencode.ts"));
}

#[test]
fn paths_share_one_root() {
    let v = vars();
    let root = path(&user_data_dir(&v));
    assert_eq!(path(&config_path(&v)), format!("{root}/config.json"));
    assert!(path(&hook_script_path(&v)).starts_with(&root));
    assert!(path(&opencode_plugin_path(&v)).starts_with(&root));
    assert!(path(&hook_script_path(&v)).ends_with("hook/pomodoro-hook.js"));
    assert!(path(&opencode_plugin_path(&v)).ends_with("hook/opencode/pomodoro-opencode.ts"));
    assert_eq!(path(&watchdog_log(&v)), format!("{root}/watchdog.log"));
}

#[test]
fn plugin_source_candidates_cover_prod_and_dev_layout() {
    let list = plugin_source_candidates(Some(5));
    assert!(list.len() >= 2);
    assert!(path(&list[0]).ends_with("opencode/pomodoro-opencode.ts"));
    assert_eq!(list[0].parts.last().unwrap(), PLUGIN_FILE_NAME);
    assert_eq!(opencode_plugin_path(&vars()).parts.last(), list[0].parts.last());
    assert!(list.iter().skip(1).any(|p| path(p).contains("bin")));
    assert_eq!(list.len(), 4);
    assert_eq!(list[3].root, Root::Program(3));
    assert_eq!(plugin_source_candidates(Some(1)).len(), 2);
    assert_eq!(plugin_source_candidates(None).len(), 0);
}

#[test]
fn the_first_plugin_source_that_exists_is_taken() {
    let p = resolve_plugin_source(Some(3), &[false, false, true, true]).unwrap();
    assert_eq!(p.root, Root::Program(2));
    assert_eq!(path(&p), "bin/opencode/pomodoro-opencode.ts");
    assert!(resolve_plugin_source(Some(3), &[false, false, false, false]).is_none());
    assert!(resolve_plugin_source(None, &[]).is_none());
    assert!(resolve_plugin_source(Some(0), &[false, true]).is_none());
}

#[test]
fn env_flag_matches_js_semantics() {
    assert!(env_flag(&None, true));
    assert!(!env_flag(&None, false));
    for on in ["1", "true", "TRUE", "Yes", "on"] {
        assert!(env_flag(&set(on), false), "{on}");
    }
    for off in ["0", "false", "FALSE", "no", "Off"] {
        assert!(!env_flag(&set(off), true), "{off}");
    }
    assert!(env_flag(&set(""), true));
    assert!(env_flag(&set("maybe"), false));
    // Blanks around a word make it another word.
    assert!(env_flag(&set(" 0 "), false));
}

#[test]
fn empty_variables_count_as_unset() {
    assert_eq!(env_str(&None), None);
    assert_eq!(env_str(&set("")), None);
    assert_eq!(env_str(&set("x")), set("x"));
}

fn seconds(x: f64) -> Reading {
    if x.is_nan() {
        Reading::Absent
    } else if x.is_infinite() {
        Reading::Infinite(x > 0.0)
    } else {
        Reading::Finite(Amount { zero: x == 0.0, positive: x > 0.0, rounded: x.round() as i64 })
    }
}

#[test]
fn timeout_ms_clamps_like_js() {
    assert_eq!(timeout_ms(Reading::Absent), 3_600_000);
    assert_eq!(timeout_ms(seconds(1.0)), 5_000);
    assert_eq!(timeout_ms(seconds(0.4)), 5_000);
    assert_eq!(timeout_ms(seconds(100.6)), 101_000);
    assert_eq!(timeout_ms(seconds(99_999.0)), 7_200_000);
    assert_eq!(timeout_ms(seconds(0.0)), 3_600_000);
    assert_eq!(timeout_ms(seconds(-3.0)), 5_000);
    assert_eq!(timeout_ms(seconds(f64::INFINITY)), 7_200_000);
    assert_eq!(timeout_ms(seconds(f64::NEG_INFINITY)), 5_000);
    assert_eq!(timeout_ms(seconds(f64::NAN)), 3_600_000);
}

#[test]
fn collapse_folds_whitespace_and_truncates_in_place() {
    assert_eq!(collapse("  多行\n标题\t带空白 ", 100), "多行 标题 带空白");
    assert_eq!(collapse("   ", 10), "");
    let long = "x".repeat(50);
    let out = collapse(&long, 10);
    assert_eq!(out.chars().count(), 10);
    assert!(out.ends_with('…'));
    let cn = "很长的标题".repeat(5);
    assert_eq!(collapse(&cn, 6).chars().count(), 6);
    assert_eq!(collapse("abc", 0), "…");
    assert_eq!(collapse(&collapse("a  b\u{3000}c d", 5), 5), collapse("a  b\u{3000}c d", 5));
}

#[test]
fn iso8601_ms_matches_js_to_iso_string() {
    assert_eq!(iso8601_ms(0), "1970-01-01T00:00:00.000Z");
    assert_eq!(iso8601_ms(1_789_948_800_000), "2026-09-21T00:00:00.000Z");
    assert_eq!(iso8601_ms(1_709_210_096_789), "2024-02-29T12:34:56.789Z");
    assert_eq!(iso8601_ms(1_704_067_199_999), "2023-12-31T23:59:59.999Z");
    assert_eq!(iso8601_ms(951_868_800_000), "2000-03-01T00:00:00.000Z");
    assert_eq!(iso8601_ms(-1), "1969-12-31T23:59:59.999Z");
}

#[test]
fn iso8601_matches_js_to_iso_string() {
    assert_eq!(iso8601_ms(0), "1970-01-01T00:00:00.000Z");
    assert_eq!(iso8601_ms(1_789_948_800_000), "2026-09-21T00:00:00.000Z");
    assert_eq!(iso8601_ms(1_709_210_096_789), "2024-02-29T12:34:56.789Z");
    assert_eq!(iso8601_ms(1_704_067_199_999), "2023-12-31T23:59:59.999Z");
    assert_eq!(iso8601_ms(951_868_800_000), "2000-03-01T00:00:00.000Z");
}

#[test]
fn iso8601_now_has_expected_shape() {
    let s = iso8601_now();
    assert_eq!(s.len(), 24, "{s}");
    assert!(s.ends_with('Z'));
    assert_eq!(&s[4..5], "-");
    assert_eq!(&s[10..11], "T");
    assert!(s.as_str() > "2024-01-01T00:00:00.000Z");
}

#[test]
fn years_beyond_four_digits_carry_a_sign() {
    assert_eq!(iso8601_ms(253_402_300_800_000), "+010000-01-01T00:00:00.000Z");
    assert_eq!(iso8601_ms(-62_198_755_200_000), "-000001-01-01T00:00:00.000Z");
}

#[test]
fn sha1_matches_known_vectors() {
    assert_eq!(sha1_hex_prefix("", 40), "da39a3ee5e6b4b0d3255bfef95601890afd80709");
    assert_eq!(sha1_hex_prefix("abc", 40), "a9993e364706816aba3e25717850c26c9cd0d89d");
    assert_eq!(
        sha1_hex_prefix("The quick brown fox jumps over the lazy dog", 40),
        "2fd4e1c67a2d28fced849ee1bb76e7391b93eb12"
    );
    assert_eq!(
        sha1_hex_prefix("abcdbcdecdefdefgefghfghighijhijkijkljklmklmnlmnomnopnopq", 40),
        "84983e441c3bd26ebaae4aa1f95129e5e54670f1"
    );
    assert_eq!(
        sha1_hex_prefix(&"a".repeat(1_000_000), 40),
        "34aa973cd4c4daa4f61eeb2bdbad27316534016f"
    );
}

#[test]
fn sha1_prefix_length_matches_js_slice() {
    assert_eq!(sha1_hex_prefix("x", 20).len(), 20);
    assert_eq!(sha1_hex_prefix("x", 16).len(), 16);
    assert!(sha1_hex_prefix("x", 20)
        .chars()
        .all(|c| c.is_ascii_hexdigit() && !c.is_ascii_uppercase()));
    assert_eq!(sha1(b"abc").len(), 20);
    assert_eq!(sha1_hex_prefix("x", 99).len(), 40);
}

#[test]
fn short_session_keeps_last_six_chars() {
    assert_eq!(short_session("abcdefghij"), "efghij");
    assert_eq!(short_session("abc"), "abc");
    assert_eq!(short_session(""), "");
    assert_eq!(short_session("会话标识一二三四五六七八"), "三四五六七八");
}

#[test]
fn basename_handles_both_separators() {
    assert_eq!(basename(r"C:\Users\me\proj"), "proj");
    assert_eq!(basename("/home/me/proj/"), "proj");
    assert_eq!(basename(""), "");
    assert_eq!(basename("单段"), "单段");
}

#[test]
fn small_texts() {
    assert_eq!(trim("\t a b \u{a0}"), "a b");
    assert_eq!(to_lower("HéLLO"), "héllo");
    assert_eq!(first_or("", "x"), "x");
    assert_eq!(first_or("y", "x"), "y");
    assert_eq!(decimal_signed(i64::MIN), "-9223372036854775808");
    assert_eq!(parse_number("007", 10, 7), Some(7));
    assert_eq!(parse_number("8", 10, 7), None);
    assert_eq!(parse_number("", 10, 7), None);
    assert_eq!(parse_number("+5", 10, 65535), Some(5));
    assert_eq!(parse_number("ff", 16, 255), Some(255));
    assert_eq!(read_second_word("HTTP/1.1  200 OK"), "200");
    assert!(contains_text("abcabd", "abd"));
    assert!(!contains_text("abcab", "abd"));
    assert_eq!(split_text("a,b,,c", ","), vec!["a", "b", "", "c"]);
    assert_eq!(join(&vec!["a".to_string(), "b".to_string()], "、"), "a、b");
}
