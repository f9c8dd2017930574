//! Writing the hook into the hosts' configurations.

use vstd::prelude::*;
use crate::args::flag_value;
use crate::env;
use crate::env::env_str;
use crate::interaction;
use crate::json;
use crate::lead;
use crate::json::{arr, get, is_truthy, one, parse_stored, pick_str, Json, JsonView, Members};
use crate::json::Object;
use crate::proto::{texts_of, HOST_WAIT_MS, HOST_WAIT_SEC};
use crate::text;
use crate::text::{cat2, cat3, chars_of, contains_text, decimal, join, same};
use crate::text::{split_text, text_between, trim_chars};

verus! {

broadcast use crate::json::group_json;

/// The most bytes that a configuration file may have.
pub const MAX_CONFIG_BYTES: u64 = 8_388_608;

/// The hosts that the hook can be installed into.
#[derive(Clone, Copy, PartialEq, Eq, Structural, Debug)]
pub enum Host {
    Zcode,
    Lead,
    Vscode,
    Trae,
    Cursor,
    Opencode,
    Codex,
    Qwen,
}

impl Host {
    /// The host's name.
    pub open spec fn name(self, lead: Seq<char>) -> Seq<char> {
        match self {
            Host::Zcode => "zcode"@,
            Host::Lead => lead,
            Host::Vscode => "vscode"@,
            Host::Trae => "trae"@,
            Host::Cursor => "cursor"@,
            Host::Opencode => "opencode"@,
            Host::Codex => "codex"@,
            Host::Qwen => "qwen"@,
        }
    }

    /// The host's name. `lead` is the lead host's.
    pub fn as_str<'a>(self, lead: &'a str) -> (r: &'a str)
        ensures
            r@ == self.name(lead@),
    {
        match self {
            Host::Zcode => "zcode",
            Host::Lead => lead,
            Host::Vscode => "vscode",
            Host::Trae => "trae",
            Host::Cursor => "cursor",
            Host::Opencode => "opencode",
            Host::Codex => "codex",
            Host::Qwen => "qwen",
        }
    }

    /// The host's configuration file, as the names below the home directory (for
    /// OpenCode, below its configuration directory).
    pub open spec fn place(self, lead: Seq<char>) -> Seq<Seq<char>> {
        match self {
            Host::Zcode => seq![".zcode"@, "cli"@, "config.json"@],
            Host::Lead => seq![lead::dir_of(lead), "settings.json"@],
            Host::Vscode => seq![".copilot"@, "hooks"@, "pomodoro.json"@],
            Host::Trae => seq![".trae-cn"@, "hooks.json"@],
            Host::Cursor => seq![".cursor"@, "hooks.json"@],
            Host::Opencode => seq!["opencode.json"@],
            Host::Codex => seq![".codex"@, "hooks.json"@],
            Host::Qwen => seq![".qwen"@, "settings.json"@],
        }
    }

    /// The host's configuration file, as the names below the home directory (for
    /// OpenCode, below its configuration directory).
    pub fn config_file(self, lead: &str) -> (r: Vec<String>)
        ensures
            text::texts(r@) == self.place(lead@),
    {
        let mut r: Vec<String> = Vec::new();
        match self {
            Host::Zcode => {
                r.push(".zcode".to_owned());
                r.push("cli".to_owned());
                r.push("config.json".to_owned());
            },
            Host::Lead => {
                r.push(lead::dir(lead));
                r.push("settings.json".to_owned());
            },
            Host::Vscode => {
                r.push(".copilot".to_owned());
                r.push("hooks".to_owned());
                r.push("pomodoro.json".to_owned());
            },
            Host::Trae => {
                r.push(".trae-cn".to_owned());
                r.push("hooks.json".to_owned());
            },
            Host::Cursor => {
                r.push(".cursor".to_owned());
                r.push("hooks.json".to_owned());
            },
            Host::Opencode => {
                r.push("opencode.json".to_owned());
            },
            Host::Codex => {
                r.push(".codex".to_owned());
                r.push("hooks.json".to_owned());
            },
            Host::Qwen => {
                r.push(".qwen".to_owned());
                r.push("settings.json".to_owned());
            },
        }
        assert(text::texts(r@) =~= self.place(lead@));
        r
    }
}

/// All hosts, in the order in which they are installed.
pub open spec fn all_hosts() -> Seq<Host> {
    seq![
        Host::Zcode,
        Host::Lead,
        Host::Vscode,
        Host::Trae,
        Host::Cursor,
        Host::Opencode,
        Host::Codex,
        Host::Qwen,
    ]
}

/// All hosts, in the order in which they are installed.
pub fn hosts() -> (r: Vec<Host>)
    ensures
        r@ == all_hosts(),
{
    let mut r: Vec<Host> = Vec::new();
    r.push(Host::Zcode);
    r.push(Host::Lead);
    r.push(Host::Vscode);
    r.push(Host::Trae);
    r.push(Host::Cursor);
    r.push(Host::Opencode);
    r.push(Host::Codex);
    r.push(Host::Qwen);
    assert(r@ =~= all_hosts());
    r
}

/// The names of all hosts, with ` / ` between them.
pub open spec fn host_names(lead: Seq<char>) -> Seq<char> {
    text::joined(all_hosts().map_values(|h: Host| h.name(lead)), " / "@)
}

/// The names of all hosts, with ` / ` between them.
pub fn hook_agent_names(lead: &str) -> (r: String)
    ensures
        r@ == host_names(lead@),
{
    let all = hosts();
    let mut names: Vec<String> = Vec::new();
    let mut i: usize = 0;
    while i < all.len()
        invariant
            i <= all@.len(),
            names@.len() == i,
            forall|k: int| 0 <= k < i ==> (#[trigger] names@[k])@ == all@[k].name(lead@),
        decreases all.len() - i,
    {
        names.push(all[i].as_str(lead).to_owned());
        i += 1;
    }
    assert(text::texts(names@) =~= all@.map_values(|h: Host| h.name(lead@)));
    join(&names, " / ")
}

/// The host of a name.
pub open spec fn host_named(name: Seq<char>, lead: Seq<char>) -> Option<Host> {
    if name == "zcode"@ {
        Some(Host::Zcode)
    } else if name == lead {
        Some(Host::Lead)
    } else if name == "vscode"@ {
        Some(Host::Vscode)
    } else if name == "trae"@ {
        Some(Host::Trae)
    } else if name == "cursor"@ {
        Some(Host::Cursor)
    } else if name == "opencode"@ {
        Some(Host::Opencode)
    } else if name == "codex"@ {
        Some(Host::Codex)
    } else if name == "qwen"@ {
        Some(Host::Qwen)
    } else {
        None
    }
}

fn find_host(name: &str, lead: &str) -> (r: Option<Host>)
    ensures
        r == host_named(name@, lead@),
{
    if same(name, "zcode") {
        Some(Host::Zcode)
    } else if same(name, lead) {
        Some(Host::Lead)
    } else if same(name, "vscode") {
        Some(Host::Vscode)
    } else if same(name, "trae") {
        Some(Host::Trae)
    } else if same(name, "cursor") {
        Some(Host::Cursor)
    } else if same(name, "opencode") {
        Some(Host::Opencode)
    } else if same(name, "codex") {
        Some(Host::Codex)
    } else if same(name, "qwen") {
        Some(Host::Qwen)
    } else {
        None
    }
}

/// What the arguments ask to be installed: the host that `--agent` names, or
/// all of them.
pub open spec fn wanted(args: Seq<Seq<char>>) -> Seq<char> {
    let given = crate::args::flag_values(args, "agent"@);
    if given.len() > 0 {
        given[0]
    } else {
        "all"@
    }
}

/// The hosts that the arguments ask for, or the message that there is no such
/// host.
pub fn targets(args: &[String], lead: &str) -> (r: Result<Vec<Host>, String>)
    ensures
        ({
            let agent = wanted(text::texts(args@));
            if agent == "all"@ {
                r matches Ok(v) && v@ == all_hosts()
            } else {
                match host_named(agent, lead@) {
                    Some(h) => r matches Ok(v) && v@ == seq![h],
                    None => r matches Err(m) && m@ == "未知 agent: "@ + agent + "（可选："@
                        + host_names(lead@) + " / all）"@,
                }
            }
        }),
{
    let agent = match flag_value(args, "agent") {
        Some(a) => a,
        None => "all".to_owned(),
    };
    if same(agent.as_str(), "all") {
        return Ok(hosts());
    }
    match find_host(agent.as_str(), lead) {
        Some(h) => {
            let mut v: Vec<Host> = Vec::new();
            v.push(h);
            assert(v@ =~= seq![h]);
            Ok(v)
        },
        None => {
            let mut m = cat3("未知 agent: ", agent.as_str(), "（可选：");
            m.append(hook_agent_names(lead).as_str());
            m.append(" / all）");
            Err(m)
        },
    }
}

/// The exit code of an installation: not zero as soon as one host failed.
pub fn exit_code(failed: usize) -> (r: i32)
    ensures
        r == (if failed > 0 {
            1int
        } else {
            0
        }),
{
    if failed > 0 {
        1
    } else {
        0
    }
}

/// The path that goes into the hosts' configurations: the one that is set, else
/// the program's own, else its name.
pub fn own_path(set: &Option<String>, exe: Option<String>) -> (r: String)
    ensures
        r@ == (match env::said(*set) {
            Some(p) => p,
            None => match exe {
                Some(p) => p@,
                None => "pomodoro-hook.exe"@,
            },
        }),
{
    match env_str(set) {
        Some(p) => p,
        None => match exe {
            Some(p) => p,
            None => "pomodoro-hook.exe".to_owned(),
        },
    }
}

/// The configuration that a file holds: what is missing, too long, broken or no
/// object counts as an empty one.
pub open spec fn config_in(bytes: Option<u64>, text: Option<Seq<char>>) -> Members {
    match (bytes, text) {
        (Some(n), Some(t)) if n <= MAX_CONFIG_BYTES => match json::parsed(t) {
            Some(JsonView::Obj(m)) => m,
            _ => Members::empty(),
        },
        _ => Members::empty(),
    }
}

/// The configuration that a file holds. `bytes` is its length and `text` what it
/// holds, none where they cannot be had.
pub fn read_json(bytes: Option<u64>, text: Option<&str>) -> (r: Object)
    ensures
        r@ == config_in(bytes, interaction::opt_str(text)),
{
    if let (Some(n), Some(t)) = (bytes, text) {
        if n <= MAX_CONFIG_BYTES {
            if let Some(Json::Obj(o)) = parse_stored(t) {
                return o;
            }
        }
    }
    Object::new()
}

// ---------------------------------------------------------------------------
// What is said about an installation
// ---------------------------------------------------------------------------

/// Where the file that is about to be overwritten is kept.
pub fn backup_path(path: &str) -> (r: String)
    ensures
        r@ == path@ + ".pomodoro.bak"@,
{
    cat2(path, ".pomodoro.bak")
}

/// What is said of a file that was written. `base` is its bare name.
pub fn written_note(path: &str, base: &str) -> (r: String)
    ensures
        r@ == "已写入 "@ + path@ + "（原文件备份为 "@ + base@ + ".pomodoro.bak）"@,
{
    let mut r = cat3("已写入 ", path, "（原文件备份为 ");
    r.append(base);
    r.append(".pomodoro.bak）");
    r
}

/// What is shown of a file in place of writing it.
pub fn printed_note(path: &str, content: &str) -> (r: String)
    ensures
        r@ == "--- "@ + path@ + " ---\n"@ + content@,
{
    let mut r = cat3("--- ", path, " ---\n");
    r.append(content);
    r
}

/// What is said of hosts whose installation failed.
pub fn failure_report(failed: &Vec<String>) -> (r: String)
    ensures
        r@ == "有 "@ + text::decimal_text(failed@.len()) + " 个宿主安装失败："@ + text::joined(
            text::texts(failed@),
            "、"@,
        ),
{
    let mut r = cat3("有 ", decimal(failed.len() as u64).as_str(), " 个宿主安装失败：");
    r.append(join(failed, "、").as_str());
    r
}

/// The lead host's settings, as hints name them.
pub open spec fn lead_settings(lead: Seq<char>) -> Seq<char> {
    "~/"@ + lead::dir_of(lead) + "/settings.json"@
}

fn make_lead_settings(lead: &str) -> (r: String)
    ensures
        r@ == lead_settings(lead@),
{
    cat3("~/", lead::dir(lead).as_str(), "/settings.json")
}

/// What is said after the installation for VS Code.
pub fn vscode_note(lead: &str) -> (r: String)
    ensures
        r@ == "提示：VS Code 默认还会读取 "@ + lead_settings(lead@) + "（"@ + lead::label_of(lead@)
            + " 的 hooks），\n      两处都装会对同一次工具调用跑两遍。不想重复就在 VS Code 设置里加：\n      \"chat.hookFilesLocations\": { \""@
            + lead_settings(lead@) + "\": false }"@,
{
    let settings = make_lead_settings(lead);
    let mut r = cat3("提示：VS Code 默认还会读取 ", settings.as_str(), "（");
    r.append(lead::label(lead).as_str());
    r.append(
        " 的 hooks），\n      两处都装会对同一次工具调用跑两遍。不想重复就在 VS Code 设置里加：\n      \"chat.hookFilesLocations\": { \"",
    );
    r.append(settings.as_str());
    r.append("\": false }");
    r
}

/// What is said after the installation for Trae.
pub fn trae_notes(lead: &str) -> (r: String)
    ensures
        r@
            == "Trae 两条注意事项：\n  1) 创建 Hook 时选「本地自动运行」而非「沙箱运行」—— 沙箱会限制系统权限，\n     hook 可能连不上本机 127.0.0.1:5277 的番茄钟网关（连不上就静默跳过，不弹窗）。\n  2) Trae 会同时读 "@
            + lead::label_of(lead@) + " 的 Hook 配置并合并执行；若 "@ + lead_settings(lead@)
            + "\n     里也有番茄钟的 hook，同一次调用会跑两遍。二选一，或用 --clean 收敛。"@,
{
    let label = lead::label(lead);
    let mut r = cat2(
        "Trae 两条注意事项：\n  1) 创建 Hook 时选「本地自动运行」而非「沙箱运行」—— 沙箱会限制系统权限，\n     hook 可能连不上本机 127.0.0.1:5277 的番茄钟网关（连不上就静默跳过，不弹窗）。\n  2) Trae 会同时读 ",
        label.as_str(),
    );
    r.append(" 的 Hook 配置并合并执行；若 ");
    r.append(make_lead_settings(lead).as_str());
    r.append("\n     里也有番茄钟的 hook，同一次调用会跑两遍。二选一，或用 --clean 收敛。");
    r
}

/// What is said after the installation for Codex, before the warnings.
pub open spec fn codex_advice(path: Seq<char>) -> Seq<char> {
    "Codex 注意事项：\n  1) 配置在 "@ + path
        + "（用户级，不受项目信任影响）；项目级 .codex/ 只在项目被信任后加载。\n     同一层里 hooks.json 与 config.toml 的 [hooks] 同时存在会两条都跑并告警 → 二选一。\n  2) 审批走 PermissionRequest（只在 Codex 本来就要问时才触发）。PreToolUse 只上报活动：\n     它的 allow/ask 在 Codex 上不生效，只有 deny 有效（带非空 reason）。\n  3) 本命令不改写 config.toml 的 notify，避免覆盖你已有的通知工具；\n     需要旧的回合结束回调时加：install --agent codex --with-notify"@
}

/// The warning that hooks are switched off.
pub open spec fn codex_off_warning() -> Seq<char> {
    "\n  ⚠ 你的 ~/.codex/config.toml 里写了 [features] hooks = false —— hooks 被关了，\n     弹窗不会出现。删掉这行或改成 true 再试。"@
}

/// The warning that the configuration holds hooks of its own.
pub open spec fn codex_twice_warning() -> Seq<char> {
    "\n  ⚠ 你的 ~/.codex/config.toml 里已有内联 [hooks] 段 —— 会与本次写入的 hooks.json\n     同时加载并告警，同一次调用可能跑两遍。建议二选一。"@
}

/// What is said after the installation for Codex: advice, and a warning for each
/// thing in its own configuration that stands in the way. `path` is the file that
/// was written, `config` what the configuration holds, none where it cannot be read.
pub fn codex_notes(path: &str, config: Option<&str>) -> (r: String)
    ensures
        r@ == codex_advice(path@) + (match config {
            Some(c) if hooks_disabled(c@) => codex_off_warning(),
            _ => Seq::empty(),
        }) + (match config {
            Some(c) if inline_hooks(c@) => codex_twice_warning(),
            _ => Seq::empty(),
        }),
{
    let mut r = cat3(
        "Codex 注意事项：\n  1) 配置在 ",
        path,
        "（用户级，不受项目信任影响）；项目级 .codex/ 只在项目被信任后加载。\n     同一层里 hooks.json 与 config.toml 的 [hooks] 同时存在会两条都跑并告警 → 二选一。\n  2) 审批走 PermissionRequest（只在 Codex 本来就要问时才触发）。PreToolUse 只上报活动：\n     它的 allow/ask 在 Codex 上不生效，只有 deny 有效（带非空 reason）。\n  3) 本命令不改写 config.toml 的 notify，避免覆盖你已有的通知工具；\n     需要旧的回合结束回调时加：install --agent codex --with-notify",
    );
    proof {
        assert(r@ =~= codex_advice(path@));
        assert(r@ + Seq::<char>::empty() =~= r@);
    }
    if let Some(c) = config {
        if codex_hooks_disabled(c) {
            r.append(
                "\n  ⚠ 你的 ~/.codex/config.toml 里写了 [features] hooks = false —— hooks 被关了，\n     弹窗不会出现。删掉这行或改成 true 再试。",
            );
        }
        assert(r@ + Seq::<char>::empty() =~= r@);
        if codex_inline_hooks(c) {
            r.append(
                "\n  ⚠ 你的 ~/.codex/config.toml 里已有内联 [hooks] 段 —— 会与本次写入的 hooks.json\n     同时加载并告警，同一次调用可能跑两遍。建议二选一。",
            );
        }
    }
    r
}

// ---------------------------------------------------------------------------
// Fingerprints
// ---------------------------------------------------------------------------

/// White space as regular expressions know it.
pub open spec fn blank(c: char) -> bool {
    let n = c as u32;
    (text::white(c) && n != 0x85) || n == 0xFEFF
}

fn is_blank(c: char) -> (r: bool)
    ensures
        r == blank(c),
{
    let n: u32 = c as u32;
    (text::is_white(c) && n != 0x85) || n == 0xFEFF
}

/// How many characters from place `i` on are blank (or are not).
pub open spec fn run_of(s: Seq<char>, i: int, blanks: bool) -> int
    decreases s.len() - i,
{
    if 0 <= i < s.len() && blank(s[i]) == blanks {
        1 + run_of(s, i + 1, blanks)
    } else {
        0
    }
}

/// The length of a source flag with its value at place `i`: `--source`, blanks,
/// and something that is not blank. 0 where there is none.
pub open spec fn source_flag(s: Seq<char>, i: int) -> int {
    if text::occurs_at(s, "--source"@, i) {
        let a = "--source"@.len() as int;
        let b = run_of(s, i + a, true);
        let c = run_of(s, i + a + b, false);
        if b > 0 && c > 0 {
            a + b + c
        } else {
            0
        }
    } else {
        0
    }
}

proof fn lemma_run_bound(s: Seq<char>, i: int, blanks: bool)
    requires
        0 <= i <= s.len(),
    ensures
        0 <= run_of(s, i, blanks) <= s.len() - i,
    decreases s.len() - i,
{
    if i < s.len() && blank(s[i]) == blanks {
        lemma_run_bound(s, i + 1, blanks);
    }
}

/// A source flag ends within its text.
pub proof fn lemma_flag_bound(s: Seq<char>, i: int)
    ensures
        source_flag(s, i) > 0 ==> i + source_flag(s, i) <= s.len(),
{
    if text::occurs_at(s, "--source"@, i) {
        let a = "--source"@.len() as int;
        lemma_run_bound(s, i + a, true);
        lemma_run_bound(s, i + a + run_of(s, i + a, true), false);
    }
}

/// A text from place `i` on without its source flags.
pub open spec fn stripped_from(s: Seq<char>, i: int) -> Seq<char>
    decreases s.len() - i,
{
    if i < 0 || i >= s.len() {
        Seq::empty()
    } else if source_flag(s, i) > 0 {
        proof {
            lemma_flag_bound(s, i);
        }
        stripped_from(s, i + source_flag(s, i))
    } else {
        seq![s[i]] + stripped_from(s, i + 1)
    }
}

/// A text without its source flags.
pub open spec fn stripped(s: Seq<char>) -> Seq<char> {
    stripped_from(s, 0)
}

fn read_run(s: &Vec<char>, from: usize, blanks: bool) -> (r: usize)
    requires
        from <= s@.len(),
    ensures
        r == run_of(s@, from as int, blanks),
        from + r <= s@.len(),
{
    let mut i: usize = from;
    while i < s.len() && is_blank(s[i]) == blanks
        invariant
            from <= i <= s@.len(),
            run_of(s@, from as int, blanks) == i - from + run_of(s@, i as int, blanks),
        decreases s.len() - i,
    {
        i += 1;
    }
    i - from
}

fn strip_chars(s: &Vec<char>) -> (r: Vec<char>)
    ensures
        r@ == stripped(s@),
{
    let flag = chars_of("--source");
    let mut out: Vec<char> = Vec::new();
    let mut i: usize = 0;
    assert(out@ + stripped(s@) =~= stripped(s@));
    proof {
        reveal_strlit("--source");
    }
    while i < s.len()
        invariant
            i <= s@.len(),
            flag@ == "--source"@,
            flag@.len() == 8,
            out@ + stripped_from(s@, i as int) == stripped(s@),
        decreases s.len() - i,
    {
        if text::matches_at(s, &flag, i) {
            assert(i + 8 <= s.len());
            let a: usize = i + flag.len();
            let b: usize = read_run(s, a, true);
            if b > 0 {
                let c: usize = read_run(s, a + b, false);
                if c > 0 {
                    assert(source_flag(s@, i as int) == 8 + b + c);
                    i = a + b + c;
                    continue ;
                }
            }
        }
        assert(source_flag(s@, i as int) == 0);
        let ghost before = out@;
        out.push(s[i]);
        assert(before + (seq![s@[i as int]] + stripped_from(s@, i + 1)) =~= out@ + stripped_from(
            s@,
            i + 1,
        ));
        i += 1;
    }
    assert(out@ + Seq::<char>::empty() =~= out@);
    out
}

/// A text without its source flags.
pub fn strip_source_flags(s: &str) -> (r: String)
    ensures
        r@ == stripped(s@),
{
    let v = strip_chars(&chars_of(s));
    let r = text_between(&v, 0, v.len());
    assert(v@.subrange(0, v@.len() as int) =~= v@);
    r
}

/// A text without quotation marks.
pub open spec fn unquoted(s: Seq<char>) -> Seq<char>
    decreases s.len(),
{
    if s.len() == 0 {
        s
    } else if s.last() == '"' || s.last() == '\'' {
        unquoted(s.drop_last())
    } else {
        unquoted(s.drop_last()).push(s.last())
    }
}

fn unquote(s: &Vec<char>) -> (r: Vec<char>)
    ensures
        r@ == unquoted(s@),
{
    let mut out: Vec<char> = Vec::new();
    let mut i: usize = 0;
    while i < s.len()
        invariant
            i <= s@.len(),
            out@ == unquoted(s@.take(i as int)),
        decreases s.len() - i,
    {
        assert(s@.take(i as int + 1).drop_last() =~= s@.take(i as int));
        if !(s[i] == '"' || s[i] == '\'') {
            out.push(s[i]);
        }
        i += 1;
    }
    assert(s@.take(i as int) =~= s@);
    out
}

/// The command of one hook of an entry, with its arguments.
pub open spec fn command_line(h: JsonView) -> Seq<char> {
    h.pick_text(seq!["command"]) + " "@ + text::joined(
        h.items("args"@).map_values(|x: JsonView| x.lossy()),
        " "@,
    )
}

/// The commands of an entry in one text.
pub open spec fn commands_of(entry: JsonView) -> Seq<char> {
    text::joined(entry.items("hooks"@).map_values(|h: JsonView| command_line(h)), "|"@)
}

/// What identifies an entry: its commands, without their source flags and
/// quotation marks.
pub open spec fn fingerprint(entry: JsonView) -> Seq<char> {
    text::trimmed(unquoted(stripped(commands_of(entry))))
}

fn print_command(h: &Json) -> (r: String)
    ensures
        r@ == command_line(h@),
{
    let cmd = pick_str(h, &["command"]);
    let args = join(&texts_of(arr(h, "args")), " ");
    cat3(cmd.as_str(), " ", args.as_str())
}

/// What identifies an entry.
pub fn hook_fingerprint(entry: &Json) -> (r: String)
    ensures
        r@ == fingerprint(entry@),
{
    let hooks = arr(entry, "hooks");
    let ghost all = entry@.items("hooks"@);
    let mut parts: Vec<String> = Vec::new();
    let mut i: usize = 0;
    while i < hooks.len()
        invariant
            i <= hooks@.len(),
            parts@.len() == i,
            forall|k: int| 0 <= k < i ==> (#[trigger] parts@[k])@ == command_line(hooks@[k]@),
        decreases hooks.len() - i,
    {
        parts.push(print_command(&hooks[i]));
        i += 1;
    }
    assert(text::texts(parts@) =~= all.map_values(|h: JsonView| command_line(h))) by {
        assert(json::views(hooks@) == all);
    }
    let line = join(&parts, "|");
    let bare = unquote(&strip_chars(&chars_of(line.as_str())));
    trim_chars(&bare)
}

/// Whether a fingerprint is that of one of this program's own entries, in any
/// of its versions.
pub open spec fn own_kind(fp: Seq<char>) -> bool {
    text::contains(fp, "pomodoro-hook"@)
}

/// Whether a fingerprint is that of one of this program's own entries.
pub fn is_pomodoro_entry(fp: &str) -> (r: bool)
    ensures
        r == own_kind(fp@),
{
    contains_text(fp, "pomodoro-hook")
}

// ---------------------------------------------------------------------------
// Entries
// ---------------------------------------------------------------------------

/// The command that a host runs.
pub open spec fn shell_command(own: Seq<char>, source: Seq<char>) -> Seq<char> {
    "\""@ + own + "\" --source "@ + source
}

/// The hook that runs the command.
pub open spec fn command_of(own: Seq<char>, source: Seq<char>) -> JsonView {
    JsonView::object().with("type"@, JsonView::Str("command"@)).with(
        "command"@,
        JsonView::Str(shell_command(own, source)),
    )
}

/// The entries that are left when stale copies of this program are removed:
/// those of others, and those of this very copy.
pub open spec fn cleaned(list: Seq<JsonView>, own: Seq<char>, n: int) -> Seq<JsonView>
    decreases n,
{
    if n <= 0 {
        Seq::empty()
    } else {
        let head = cleaned(list, own, n - 1);
        let fp = fingerprint(list[n - 1]);
        if own_kind(fp) && !text::contains(fp, own) {
            head
        } else {
            head.push(list[n - 1])
        }
    }
}

/// Whether a list has an entry of this fingerprint.
pub open spec fn has_print(list: Seq<JsonView>, fp: Seq<char>) -> bool {
    exists|i: int| 0 <= i < list.len() && fingerprint(#[trigger] list[i]) == fp
}

/// The list of an event's entries.
pub open spec fn entries_of(hooks: Members, event: Seq<char>) -> Seq<JsonView> {
    match json::lookup(hooks, event) {
        Some(JsonView::Arr(a)) => a,
        _ => Seq::empty(),
    }
}

/// A list with an entry added, unless one of the same fingerprint is there;
/// where asked for, stale copies are removed before.
pub open spec fn added(list: Seq<JsonView>, entry: JsonView, own: Seq<char>, clean: bool) -> Seq<
    JsonView,
> {
    let left = if clean {
        cleaned(list, own, list.len() as int)
    } else {
        list
    };
    if has_print(left, fingerprint(entry)) {
        left
    } else {
        left.push(entry)
    }
}

/// The hooks after an entry is added to an event.
pub open spec fn pushed(
    hooks: Members,
    event: Seq<char>,
    entry: JsonView,
    own: Seq<char>,
    clean: bool,
) -> Members {
    json::put(hooks, event, JsonView::Arr(added(entries_of(hooks, event), entry, own, clean)))
}

/// An entry for every tool.
pub open spec fn plain_entry(h: JsonView) -> JsonView {
    JsonView::object().with("hooks"@, JsonView::Arr(seq![h]))
}

/// An entry for the tools that a pattern matches.
pub open spec fn matched_entry(matcher: Seq<char>, h: JsonView) -> JsonView {
    JsonView::object().with("matcher"@, JsonView::Str(matcher)).with(
        "hooks"@,
        JsonView::Arr(seq![h]),
    )
}

fn make_plain(h: &Json) -> (r: Json)
    ensures
        r@ == plain_entry(h@),
{
    Json::object().with("hooks", one(h.clone()))
}

fn make_matched(matcher: &str, h: &Json) -> (r: Json)
    ensures
        r@ == matched_entry(matcher@, h@),
{
    Json::object().with("matcher", Json::text(matcher)).with("hooks", one(h.clone()))
}

fn clean_list(list: &Vec<Json>, own: &str) -> (r: Vec<Json>)
    ensures
        json::views(r@) == cleaned(json::views(list@), own@, list@.len() as int),
{
    let mut r: Vec<Json> = Vec::new();
    assert(json::views(r@) =~= Seq::empty());
    let mut i: usize = 0;
    while i < list.len()
        invariant
            i <= list@.len(),
            json::views(r@) == cleaned(json::views(list@), own@, i as int),
        decreases list.len() - i,
    {
        assert(json::views(list@)[i as int] == list@[i as int]@);
        let ghost before = json::views(r@);
        let fp = hook_fingerprint(&list[i]);
        if !is_pomodoro_entry(fp.as_str()) || contains_text(fp.as_str(), own) {
            let c = list[i].clone();
            r.push(c);
            assert(json::views(r@) =~= before.push(list@[i as int]@));
        }
        i += 1;
    }
    r
}

fn any_print(list: &Vec<Json>, fp: &str) -> (r: bool)
    ensures
        r == has_print(json::views(list@), fp@),
{
    let mut i: usize = 0;
    while i < list.len()
        invariant
            i <= list@.len(),
            forall|k: int| 0 <= k < i ==> fingerprint(#[trigger] json::views(list@)[k]) != fp@,
        decreases list.len() - i,
    {
        assert(json::views(list@)[i as int] == list@[i as int]@);
        if same(hook_fingerprint(&list[i]).as_str(), fp) {
            return true;
        }
        i += 1;
    }
    false
}

/// The installation of one run.
pub struct Installer {
    /// Whether the changes are only printed.
    pub print: bool,
    /// Whether stale copies are removed.
    pub clean: bool,
    /// Whether Codex's old notification is set too.
    pub with_notify: bool,
    /// The path that goes into the configurations.
    pub own: String,
    /// The name of the lead host.
    pub lead: String,
}

impl Installer {
    /// An installation that writes `own` into the configurations.
    pub fn new(print: bool, clean: bool, with_notify: bool, own: String, lead: String) -> (r:
        Installer)
        ensures
            r.print == print,
            r.clean == clean,
            r.with_notify == with_notify,
            r.own == own,
            r.lead == lead,
    {
        Installer { print, clean, with_notify, own, lead }
    }

    fn command_text(&self, source: &str) -> (r: String)
        ensures
            r@ == shell_command(self.own@, source@),
    {
        let mut r = cat2("\"", self.own.as_str());
        r.append("\" --source ");
        r.append(source);
        r
    }

    /// The hook that runs this program for a source.
    pub fn hook_command_shell(&self, source: &str) -> (r: Json)
        ensures
            r@ == command_of(self.own@, source@),
    {
        Json::object().with("type", Json::text("command")).with(
            "command",
            Json::Str(self.command_text(source)),
        )
    }

    /// Adds an entry to an event.
    pub fn push_hook(&self, container: &mut Object, event: &str, entry: Json)
        ensures
            final(container)@ == pushed(
                old(container)@,
                event@,
                entry@,
                self.own@,
                self.clean,
            ),
    {
        let mut list: Vec<Json> = match container.get(event) {
            Some(Json::Arr(a)) => json::copy_all(a.as_slice()),
            _ => {
                let v: Vec<Json> = Vec::new();
                assert(json::views(v@) =~= Seq::empty());
                v
            },
        };
        assert(json::views(list@) == entries_of(container@, event@));
        assert(json::views(list@).len() == list@.len());
        if self.clean {
            list = clean_list(&list, self.own.as_str());
        }
        let fp = hook_fingerprint(&entry);
        let ghost left = json::views(list@);
        if !any_print(&list, fp.as_str()) {
            let ghost e = entry@;
            list.push(entry);
            assert(json::views(list@) =~= left.push(e));
        }
        container.put(event, Json::Arr(list));
    }
}

// ---------------------------------------------------------------------------
// Configurations
// ---------------------------------------------------------------------------

/// The members of an object's member that is an object; of any other, none.
pub open spec fn inner(m: Members, k: Seq<char>) -> Members {
    match json::lookup(m, k) {
        Some(JsonView::Obj(o)) => o,
        _ => Members::empty(),
    }
}

/// The members of an object's member that is an object.
pub fn take_object(cfg: &Object, key: &str) -> (r: Object)
    ensures
        r@ == inner(cfg@, key@),
{
    match cfg.get(key) {
        Some(Json::Obj(o)) => o.clone(),
        _ => Object::new(),
    }
}

/// A hook that the host lets run for this many seconds.
pub open spec fn timed(h: JsonView, seconds: int) -> JsonView {
    h.set("timeout"@, JsonView::Int(seconds))
}

fn make_timed(h: &Json, seconds: u64) -> (r: Json)
    ensures
        r@ == timed(h@, seconds as int),
{
    h.clone().set("timeout", Json::PosInt(seconds))
}

/// The hooks of the lead host and its kin.
pub open spec fn ancli_hooks(
    hooks: Members,
    own: Seq<char>,
    clean: bool,
    source: Seq<char>,
) -> Members {
    let h = command_of(own, source);
    let long = timed(h, HOST_WAIT_SEC as int);
    let m1 = pushed(hooks, "Notification"@, plain_entry(h), own, clean);
    let m2 = pushed(m1, "PermissionRequest"@, matched_entry("*"@, long), own, clean);
    let m3 = pushed(
        m2,
        "PreToolUse"@,
        matched_entry("AskUserQuestion|askQuestions|askQuestion"@, long),
        own,
        clean,
    );
    let m4 = pushed(m3, "UserPromptSubmit"@, plain_entry(h), own, clean);
    let m5 = pushed(m4, "Stop"@, plain_entry(h), own, clean);
    let m6 = pushed(m5, "SubagentStop"@, plain_entry(h), own, clean);
    pushed(m6, "PostToolUse"@, matched_entry("*"@, h), own, clean)
}

/// The hooks of Trae.
pub open spec fn trae_hooks(hooks: Members, own: Seq<char>, clean: bool) -> Members {
    let h = command_of(own, "trae"@);
    let long = timed(h, HOST_WAIT_SEC as int);
    let short = timed(h, 30);
    let m1 = pushed(hooks, "PreToolUse"@, matched_entry("AskUserQuestion"@, long), own, clean);
    let m2 = pushed(m1, "Notification"@, plain_entry(short), own, clean);
    let m3 = pushed(m2, "Stop"@, plain_entry(short), own, clean);
    let m4 = pushed(m3, "SessionStart"@, plain_entry(short), own, clean);
    let m5 = pushed(m4, "UserPromptSubmit"@, plain_entry(short), own, clean);
    pushed(m5, "PostToolUse"@, matched_entry("*"@, short), own, clean)
}

/// The hooks of Codex.
pub open spec fn codex_hooks(hooks: Members, own: Seq<char>, clean: bool) -> Members {
    let h = command_of(own, "codex"@);
    let long = timed(h, HOST_WAIT_SEC as int);
    let short = timed(h, 30);
    let tools = matched_entry("Bash|apply_patch|Edit|Write|mcp__.*"@, short);
    let m1 = pushed(hooks, "PermissionRequest"@, plain_entry(long), own, clean);
    let m2 = pushed(m1, "PreToolUse"@, tools, own, clean);
    let m3 = pushed(m2, "PostToolUse"@, tools, own, clean);
    let m4 = pushed(m3, "UserPromptSubmit"@, plain_entry(short), own, clean);
    let m5 = pushed(m4, "Stop"@, plain_entry(short), own, clean);
    let m6 = pushed(m5, "SubagentStart"@, plain_entry(short), own, clean);
    let m7 = pushed(m6, "SubagentStop"@, plain_entry(short), own, clean);
    let m8 = pushed(m7, "SessionStart"@, plain_entry(short), own, clean);
    let m9 = pushed(m8, "SessionEnd"@, plain_entry(short), own, clean);
    let m10 = pushed(m9, "PreCompact"@, plain_entry(short), own, clean);
    let m11 = pushed(m10, "PostCompact"@, plain_entry(short), own, clean);
    pushed(m11, "Interrupt"@, plain_entry(short), own, clean)
}

/// The events of ZCode.
pub open spec fn zcode_events(events: Members, own: Seq<char>, clean: bool) -> Members {
    let h = command_of(own, "zcode"@);
    let long = h.set("timeoutMs"@, JsonView::Int(HOST_WAIT_MS as int));
    let m1 = pushed(events, "PermissionRequest"@, matched_entry("*"@, long), own, clean);
    let m2 = pushed(m1, "PreToolUse"@, matched_entry("AskUserQuestion"@, long), own, clean);
    let m3 = pushed(m2, "Stop"@, plain_entry(h), own, clean);
    let m4 = pushed(m3, "PostToolUse"@, matched_entry("*"@, h), own, clean);
    pushed(m4, "PostToolUseFailure"@, matched_entry("*"@, h), own, clean)
}

/// The members with a truthy `k`: set to `v` where it is not.
pub open spec fn defaulted(m: Members, k: Seq<char>, v: JsonView) -> Members {
    match json::lookup(m, k) {
        Some(x) if x.truthy() => m,
        _ => json::put(m, k, v),
    }
}

fn put_default(m: &mut Object, k: &str, v: Json)
    ensures
        final(m)@ == defaulted(old(m)@, k@, v@),
{
    let set = match m.get(k) {
        Some(x) => is_truthy(x),
        None => false,
    };
    if !set {
        m.put(k, v);
    }
}

/// The hooks of ZCode, which have to be switched on.
pub open spec fn zcode_hooks(hooks: Members, own: Seq<char>, clean: bool) -> Members {
    let on = defaulted(
        json::put(hooks, "enabled"@, JsonView::Bool(true)),
        "timeoutMs"@,
        JsonView::Int(HOST_WAIT_MS as int),
    );
    json::put(on, "events"@, JsonView::Obj(zcode_events(inner(on, "events"@), own, clean)))
}

/// Whether a list has an entry whose command is this program's.
pub open spec fn has_own_command(list: Seq<JsonView>) -> bool {
    exists|i: int|
        0 <= i < list.len() && own_kind((#[trigger] list[i]).pick_text(seq!["command"]))
}

/// The hooks after an entry is added to an event of a host that keeps bare
/// entries: not where one of this program's is there, nor where the event holds
/// no list.
pub open spec fn added_once(hooks: Members, event: Seq<char>, entry: JsonView) -> Members {
    match json::lookup(hooks, event) {
        None => json::put(hooks, event, JsonView::Arr(seq![entry])),
        Some(JsonView::Arr(list)) => if has_own_command(list) {
            hooks
        } else {
            json::put(hooks, event, JsonView::Arr(list.push(entry)))
        },
        Some(_) => hooks,
    }
}

fn any_own_command(list: &Vec<Json>) -> (r: bool)
    ensures
        r == has_own_command(json::views(list@)),
{
    let mut i: usize = 0;
    while i < list.len()
        invariant
            i <= list@.len(),
            forall|k: int|
                0 <= k < i ==> !own_kind((#[trigger] json::views(list@)[k]).pick_text(seq!["command"])),
        decreases list.len() - i,
    {
        assert(json::views(list@)[i as int] == list@[i as int]@);
        if is_pomodoro_entry(pick_str(&list[i], &["command"]).as_str()) {
            return true;
        }
        i += 1;
    }
    false
}

fn add_once(hooks: &mut Object, event: &str, entry: Json)
    ensures
        final(hooks)@ == added_once(old(hooks)@, event@, entry@),
{
    let list: Option<Vec<Json>> = match hooks.get(event) {
        None => {
            hooks.put(event, one(entry));
            return;
        },
        Some(Json::Arr(a)) => if any_own_command(a) {
            None
        } else {
            let mut l = json::copy_all(a.as_slice());
            let ghost before = json::views(l@);
            let ghost e = entry@;
            l.push(entry);
            assert(json::views(l@) =~= before.push(e));
            Some(l)
        },
        Some(_) => None,
    };
    if let Some(l) = list {
        hooks.put(event, Json::Arr(l));
    }
}

/// A bare entry of VS Code.
pub open spec fn vscode_entry(own: Seq<char>, seconds: int) -> JsonView {
    JsonView::object().with("type"@, JsonView::Str("command"@)).with(
        "command"@,
        JsonView::Str(shell_command(own, "vscode"@)),
    ).with("timeout"@, JsonView::Int(seconds))
}

/// The hooks of VS Code.
pub open spec fn vscode_hooks(hooks: Members, own: Seq<char>) -> Members {
    let long = vscode_entry(own, HOST_WAIT_SEC as int);
    let short = vscode_entry(own, 30);
    let m1 = added_once(hooks, "PreToolUse"@, long);
    let m2 = added_once(m1, "PostToolUse"@, short);
    let m3 = added_once(m2, "SessionStart"@, short);
    let m4 = added_once(m3, "UserPromptSubmit"@, short);
    let m5 = added_once(m4, "SubagentStart"@, short);
    let m6 = added_once(m5, "SubagentStop"@, short);
    let m7 = added_once(m6, "PreCompact"@, short);
    added_once(m7, "Stop"@, short)
}

/// A bare entry of Cursor.
pub open spec fn cursor_entry(own: Seq<char>) -> JsonView {
    JsonView::object().with("command"@, JsonView::Str(shell_command(own, "cursor"@)))
}

/// The hooks of Cursor.
pub open spec fn cursor_hooks(hooks: Members, own: Seq<char>) -> Members {
    let bare = cursor_entry(own);
    let long = bare.with("timeout"@, JsonView::Int(HOST_WAIT_SEC as int));
    let m1 = added_once(hooks, "beforeShellExecution"@, long);
    let m2 = added_once(m1, "preToolUse"@, long);
    let m3 = added_once(m2, "beforeMCPExecution"@, long);
    let m4 = added_once(m3, "beforeSubmitPrompt"@, bare);
    let m5 = added_once(m4, "afterFileEdit"@, bare);
    let m6 = added_once(m5, "afterShellExecution"@, bare);
    let m7 = added_once(m6, "afterAgentResponse"@, bare);
    added_once(m7, "stop"@, bare)
}

/// A host's configuration after the installation (OpenCode's is made by
/// [`plugin_config`]).
pub open spec fn config_of(
    host: Host,
    cfg: Members,
    own: Seq<char>,
    clean: bool,
    lead: Seq<char>,
) -> Members {
    match host {
        Host::Lead => json::put(
            cfg,
            "hooks"@,
            JsonView::Obj(ancli_hooks(inner(cfg, "hooks"@), own, clean, lead::source_of(lead))),
        ),
        Host::Qwen => json::put(
            cfg,
            "hooks"@,
            JsonView::Obj(ancli_hooks(inner(cfg, "hooks"@), own, clean, "qwen"@)),
        ),
        Host::Vscode => {
            let v = defaulted(cfg, "version"@, JsonView::Int(1));
            json::put(v, "hooks"@, JsonView::Obj(vscode_hooks(inner(v, "hooks"@), own)))
        },
        Host::Trae => {
            let v = json::put(cfg, "version"@, JsonView::Int(1));
            json::put(v, "hooks"@, JsonView::Obj(trae_hooks(inner(v, "hooks"@), own, clean)))
        },
        Host::Cursor => {
            let v = defaulted(cfg, "version"@, JsonView::Int(1));
            json::put(v, "hooks"@, JsonView::Obj(cursor_hooks(inner(v, "hooks"@), own)))
        },
        Host::Codex => json::put(
            cfg,
            "hooks"@,
            JsonView::Obj(codex_hooks(inner(cfg, "hooks"@), own, clean)),
        ),
        Host::Zcode => json::put(
            cfg,
            "hooks"@,
            JsonView::Obj(zcode_hooks(inner(cfg, "hooks"@), own, clean)),
        ),
        Host::Opencode => cfg,
    }
}

impl Installer {
    /// Adds the hooks of the lead host and its kin.
    pub fn install_ancli_hooks(&self, hooks: &mut Object, source: &str)
        ensures
            final(hooks)@ == ancli_hooks(old(hooks)@, self.own@, self.clean, source@),
    {
        let h = self.hook_command_shell(source);
        let long = make_timed(&h, HOST_WAIT_SEC);
        self.push_hook(hooks, "Notification", make_plain(&h));
        self.push_hook(hooks, "PermissionRequest", make_matched("*", &long));
        self.push_hook(
            hooks,
            "PreToolUse",
            make_matched("AskUserQuestion|askQuestions|askQuestion", &long),
        );
        self.push_hook(hooks, "UserPromptSubmit", make_plain(&h));
        self.push_hook(hooks, "Stop", make_plain(&h));
        self.push_hook(hooks, "SubagentStop", make_plain(&h));
        self.push_hook(hooks, "PostToolUse", make_matched("*", &h));
    }

    /// Adds the hooks of Trae.
    pub fn install_trae(&self, hooks: &mut Object)
        ensures
            final(hooks)@ == trae_hooks(old(hooks)@, self.own@, self.clean),
    {
        let h = self.hook_command_shell("trae");
        let long = make_timed(&h, HOST_WAIT_SEC);
        let short = make_timed(&h, 30);
        self.push_hook(hooks, "PreToolUse", make_matched("AskUserQuestion", &long));
        self.push_hook(hooks, "Notification", make_plain(&short));
        self.push_hook(hooks, "Stop", make_plain(&short));
        self.push_hook(hooks, "SessionStart", make_plain(&short));
        self.push_hook(hooks, "UserPromptSubmit", make_plain(&short));
        self.push_hook(hooks, "PostToolUse", make_matched("*", &short));
    }

    /// Adds the hooks of Codex.
    pub fn install_codex(&self, hooks: &mut Object)
        ensures
            final(hooks)@ == codex_hooks(old(hooks)@, self.own@, self.clean),
    {
        let h = self.hook_command_shell("codex");
        let long = make_timed(&h, HOST_WAIT_SEC);
        let short = make_timed(&h, 30);
        let matcher = "Bash|apply_patch|Edit|Write|mcp__.*";
        self.push_hook(hooks, "PermissionRequest", make_plain(&long));
        self.push_hook(hooks, "PreToolUse", make_matched(matcher, &short));
        self.push_hook(hooks, "PostToolUse", make_matched(matcher, &short));
        self.push_hook(hooks, "UserPromptSubmit", make_plain(&short));
        self.push_hook(hooks, "Stop", make_plain(&short));
        self.push_hook(hooks, "SubagentStart", make_plain(&short));
        self.push_hook(hooks, "SubagentStop", make_plain(&short));
        self.push_hook(hooks, "SessionStart", make_plain(&short));
        self.push_hook(hooks, "SessionEnd", make_plain(&short));
        self.push_hook(hooks, "PreCompact", make_plain(&short));
        self.push_hook(hooks, "PostCompact", make_plain(&short));
        self.push_hook(hooks, "Interrupt", make_plain(&short));
    }

    /// Adds the hooks of ZCode.
    pub fn install_zcode(&self, hooks: &mut Object)
        ensures
            final(hooks)@ == zcode_hooks(old(hooks)@, self.own@, self.clean),
    {
        hooks.put("enabled", Json::Bool(true));
        put_default(hooks, "timeoutMs", Json::PosInt(HOST_WAIT_MS));
        let mut events = take_object(hooks, "events");
        let h = self.hook_command_shell("zcode");
        let long = h.clone().set("timeoutMs", Json::PosInt(HOST_WAIT_MS));
        self.push_hook(&mut events, "PermissionRequest", make_matched("*", &long));
        self.push_hook(&mut events, "PreToolUse", make_matched("AskUserQuestion", &long));
        self.push_hook(&mut events, "Stop", make_plain(&h));
        self.push_hook(&mut events, "PostToolUse", make_matched("*", &h));
        self.push_hook(&mut events, "PostToolUseFailure", make_matched("*", &h));
        hooks.put("events", Json::Obj(events));
    }

    fn make_vscode_entry(&self, seconds: u64) -> (r: Json)
        ensures
            r@ == vscode_entry(self.own@, seconds as int),
    {
        Json::object().with("type", Json::text("command")).with(
            "command",
            Json::Str(self.command_text("vscode")),
        ).with("timeout", Json::PosInt(seconds))
    }

    /// Adds the hooks of VS Code.
    pub fn install_vscode(&self, hooks: &mut Object)
        ensures
            final(hooks)@ == vscode_hooks(old(hooks)@, self.own@),
    {
        add_once(hooks, "PreToolUse", self.make_vscode_entry(HOST_WAIT_SEC));
        add_once(hooks, "PostToolUse", self.make_vscode_entry(30));
        add_once(hooks, "SessionStart", self.make_vscode_entry(30));
        add_once(hooks, "UserPromptSubmit", self.make_vscode_entry(30));
        add_once(hooks, "SubagentStart", self.make_vscode_entry(30));
        add_once(hooks, "SubagentStop", self.make_vscode_entry(30));
        add_once(hooks, "PreCompact", self.make_vscode_entry(30));
        add_once(hooks, "Stop", self.make_vscode_entry(30));
    }

    fn make_cursor_entry(&self) -> (r: Json)
        ensures
            r@ == cursor_entry(self.own@),
    {
        Json::object().with("command", Json::Str(self.command_text("cursor")))
    }

    /// Adds the hooks of Cursor.
    pub fn install_cursor(&self, hooks: &mut Object)
        ensures
            final(hooks)@ == cursor_hooks(old(hooks)@, self.own@),
    {
        let bare = self.make_cursor_entry();
        let long = bare.clone().with("timeout", Json::PosInt(HOST_WAIT_SEC));
        add_once(hooks, "beforeShellExecution", long.clone());
        add_once(hooks, "preToolUse", long.clone());
        add_once(hooks, "beforeMCPExecution", long);
        add_once(hooks, "beforeSubmitPrompt", bare.clone());
        add_once(hooks, "afterFileEdit", bare.clone());
        add_once(hooks, "afterShellExecution", bare.clone());
        add_once(hooks, "afterAgentResponse", bare.clone());
        add_once(hooks, "stop", bare);
    }

    /// A host's configuration after the installation.
    pub fn install_config(&self, host: Host, cfg: &mut Object)
        ensures
            final(cfg)@ == config_of(host, old(cfg)@, self.own@, self.clean, self.lead@),
    {
        match host {
            Host::Opencode => {
                return;
            },
            Host::Vscode => put_default(cfg, "version", Json::PosInt(1)),
            Host::Cursor => put_default(cfg, "version", Json::PosInt(1)),
            Host::Trae => cfg.put("version", Json::PosInt(1)),
            _ => {},
        }
        let mut hooks = take_object(cfg, "hooks");
        match host {
            Host::Lead => self.install_ancli_hooks(&mut hooks, lead::source(self.lead.as_str()).as_str()),
            Host::Qwen => self.install_ancli_hooks(&mut hooks, "qwen"),
            Host::Vscode => self.install_vscode(&mut hooks),
            Host::Trae => self.install_trae(&mut hooks),
            Host::Cursor => self.install_cursor(&mut hooks),
            Host::Codex => self.install_codex(&mut hooks),
            Host::Zcode => self.install_zcode(&mut hooks),
            Host::Opencode => {},
        }
        cfg.put("hooks", Json::Obj(hooks));
    }
}

// ---------------------------------------------------------------------------
// OpenCode's plugin
// ---------------------------------------------------------------------------

/// A path with forward slashes.
pub open spec fn forward(path: Seq<char>) -> Seq<char> {
    path.map_values(
        |c: char|
            if c == '\\' {
                '/'
            } else {
                c
            },
    )
}

/// The address under which OpenCode loads a plugin.
pub open spec fn plugin_url(path: Seq<char>) -> Seq<char> {
    "file://"@ + forward(path)
}

/// OpenCode's configuration after the installation: the plugin is in its list,
/// once.
pub open spec fn plugin_config_of(cfg: Members, path: Seq<char>) -> Members {
    let list = match json::lookup(cfg, "plugin"@) {
        Some(JsonView::Arr(a)) => a,
        _ => Seq::empty(),
    };
    let entry = JsonView::Str(plugin_url(path));
    json::put(
        cfg,
        "plugin"@,
        JsonView::Arr(
            if list.contains(entry) {
                list
            } else {
                list.push(entry)
            },
        ),
    )
}

fn make_plugin_url(path: &str) -> (r: String)
    ensures
        r@ == plugin_url(path@),
{
    let v = chars_of(path);
    let mut r = "file://".to_owned();
    let mut i: usize = 0;
    assert("file://"@ + forward(v@.take(0)) =~= "file://"@);
    while i < v.len()
        invariant
            i <= v@.len(),
            r@ == "file://"@ + forward(v@.take(i as int)),
        decreases v.len() - i,
    {
        let c = v[i];
        if c == '\\' {
            r.push('/');
        } else {
            r.push(c);
        }
        assert(r@ =~= "file://"@ + forward(v@.take(i as int + 1)));
        i += 1;
    }
    assert(v@.take(i as int) =~= v@);
    r
}

/// Puts the plugin into OpenCode's configuration.
pub fn plugin_config(cfg: &mut Object, path: &str)
    ensures
        final(cfg)@ == plugin_config_of(old(cfg)@, path@),
{
    let entry = make_plugin_url(path);
    let mut list: Vec<Json> = match cfg.get("plugin") {
        Some(Json::Arr(a)) => json::copy_all(a.as_slice()),
        _ => {
            let v: Vec<Json> = Vec::new();
            assert(json::views(v@) =~= Seq::empty());
            v
        },
    };
    let ghost all = json::views(list@);
    let mut found = false;
    let mut i: usize = 0;
    while i < list.len()
        invariant
            i <= list@.len(),
            all == json::views(list@),
            found == (exists|k: int| 0 <= k < i && #[trigger] all[k] == JsonView::Str(entry@)),
        decreases list.len() - i,
    {
        assert(all[i as int] == list@[i as int]@);
        if let Json::Str(s) = &list[i] {
            if same(s.as_str(), entry.as_str()) {
                found = true;
            }
        }
        i += 1;
    }
    assert(found == all.contains(JsonView::Str(entry@)));
    if !found {
        list.push(Json::Str(entry));
        assert(json::views(list@) =~= all.push(JsonView::Str(entry@)));
    }
    cfg.put("plugin", Json::Arr(list));
}

// ---------------------------------------------------------------------------
// Codex's config.toml
// ---------------------------------------------------------------------------

/// A line without the carriage returns at its end.
pub open spec fn without_returns(s: Seq<char>) -> Seq<char>
    decreases s.len(),
{
    if s.len() > 0 && s.last() == '\r' {
        without_returns(s.drop_last())
    } else {
        s
    }
}

/// The lines of a file.
pub open spec fn lines_of(file: Seq<char>) -> Seq<Seq<char>> {
    text::split_by(file, "\n"@).map_values(|l: Seq<char>| without_returns(l))
}

/// Whether a line sets `notify`.
pub open spec fn sets_notify(line: Seq<char>) -> bool {
    let t = text::trimmed_start(line);
    text::starts_with(t, "notify"@) && text::starts_with(
        text::trimmed_start(t.skip("notify"@.len() as int)),
        "="@,
    )
}

/// The place of the first line that sets `notify`, or the number of lines.
pub open spec fn notify_place(lines: Seq<Seq<char>>) -> int
    decreases lines.len(),
{
    if lines.len() == 0 || sets_notify(lines[0]) {
        0
    } else {
        1 + notify_place(lines.drop_first())
    }
}

/// Lines without the blank ones at their end.
pub open spec fn without_blank_end(lines: Seq<Seq<char>>) -> Seq<Seq<char>>
    decreases lines.len(),
{
    if lines.len() > 0 && text::trimmed(lines.last()).len() == 0 {
        without_blank_end(lines.drop_last())
    } else {
        lines
    }
}

/// A path inside a TOML text.
pub open spec fn escaped(path: Seq<char>) -> Seq<char>
    decreases path.len(),
{
    if path.len() == 0 {
        path
    } else if path.last() == '\\' {
        escaped(path.drop_last()).push('\\').push('\\')
    } else {
        escaped(path.drop_last()).push(path.last())
    }
}

/// The line that sets `notify` to this program.
pub open spec fn notify_line(own: Seq<char>) -> Seq<char> {
    "notify = [\""@ + escaped(own) + "\", \"codex-notify\"]"@
}

/// The lines after `notify` is set: in place of the line that sets it, or at the
/// end, under a comment and after one empty line.
pub open spec fn notify_lines(lines: Seq<Seq<char>>, own: Seq<char>) -> Seq<Seq<char>> {
    let i = notify_place(lines);
    if i < lines.len() {
        lines.update(i, notify_line(own))
    } else {
        let rest = without_blank_end(lines);
        let spaced = if rest.len() > 0 {
            rest.push(Seq::empty())
        } else {
            rest
        };
        spaced.push("# 番茄钟：回合结束时通知（由 pomodoro-hook install 写入）"@).push(notify_line(own))
    }
}

/// Codex's `config.toml` after `notify` is set.
pub open spec fn notify_config_of(file: Seq<char>, own: Seq<char>) -> Seq<char> {
    text::joined(notify_lines(lines_of(file), own), "\n"@) + "\n"@
}

fn drop_returns(line: &str) -> (r: String)
    ensures
        r@ == without_returns(line@),
{
    let v = chars_of(line);
    let mut end: usize = v.len();
    assert(v@.take(end as int) =~= v@);
    while end > 0 && v[end - 1] == '\r'
        invariant
            end <= v@.len(),
            without_returns(v@) == without_returns(v@.take(end as int)),
        decreases end,
    {
        assert(v@.take(end as int).drop_last() =~= v@.take(end - 1));
        end -= 1;
    }
    assert(v@.subrange(0, end as int) =~= v@.take(end as int));
    text_between(&v, 0, end)
}

fn read_lines(file: &str) -> (r: Vec<String>)
    ensures
        text::texts(r@) == lines_of(file@),
{
    proof {
        reveal_strlit("\n");
    }
    let raw = split_text(file, "\n");
    let mut r: Vec<String> = Vec::new();
    let mut i: usize = 0;
    while i < raw.len()
        invariant
            i <= raw@.len(),
            r@.len() == i,
            forall|k: int| 0 <= k < i ==> (#[trigger] r@[k])@ == without_returns(raw@[k]@),
        decreases raw.len() - i,
    {
        r.push(drop_returns(raw[i].as_str()));
        i += 1;
    }
    assert(text::texts(r@) =~= lines_of(file@)) by {
        assert(text::texts(raw@) == text::split_by(file@, "\n"@));
    }
    r
}

fn trim_front(v: &Vec<char>) -> (r: Vec<char>)
    ensures
        r@ == text::trimmed_start(v@),
{
    let mut i: usize = 0;
    assert(v@.skip(0) =~= v@);
    while i < v.len() && text::is_white(v[i])
        invariant
            i <= v@.len(),
            text::trimmed_start(v@) == text::trimmed_start(v@.skip(i as int)),
        decreases v.len() - i,
    {
        assert(v@.skip(i as int).drop_first() =~= v@.skip(i as int + 1));
        i += 1;
    }
    drop_front(v, i)
}

fn drop_front(v: &Vec<char>, n: usize) -> (r: Vec<char>)
    requires
        n <= v@.len(),
    ensures
        r@ == v@.skip(n as int),
{
    let mut r: Vec<char> = Vec::new();
    let mut i: usize = n;
    while i < v.len()
        invariant
            n <= i <= v@.len(),
            r@ == v@.subrange(n as int, i as int),
        decreases v.len() - i,
    {
        r.push(v[i]);
        assert(r@ =~= v@.subrange(n as int, i + 1));
        i += 1;
    }
    assert(r@ =~= v@.skip(n as int));
    r
}

fn is_notify(line: &str) -> (r: bool)
    ensures
        r == sets_notify(line@),
{
    let t = trim_front(&chars_of(line));
    let word = chars_of("notify");
    if !text::matches_at(&t, &word, 0) {
        return false;
    }
    let rest = trim_front(&drop_front(&t, word.len()));
    text::matches_at(&rest, &chars_of("="), 0)
}

fn escape(path: &str) -> (r: String)
    ensures
        r@ == escaped(path@),
{
    let mut r = String::new();
    for c in it: path.chars()
        invariant
            it.seq() == path@,
            r@ == escaped(path@.take(it.index() as int)),
    {
        proof {
            let next = path@.take(it.index() as int + 1);
            assert(next.drop_last() =~= path@.take(it.index() as int));
            assert(next.last() == c);
        }
        if c == '\\' {
            r.push('\\');
            r.push('\\');
        } else {
            r.push(c);
        }
    }
    assert(path@.take(path@.len() as int) =~= path@);
    r
}

fn make_notify_line(own: &str) -> (r: String)
    ensures
        r@ == notify_line(own@),
{
    cat3("notify = [\"", escape(own).as_str(), "\", \"codex-notify\"]")
}

fn find_notify(lines: &Vec<String>) -> (r: usize)
    ensures
        r == notify_place(text::texts(lines@)),
        r <= lines@.len(),
{
    let ghost all = text::texts(lines@);
    let mut i: usize = 0;
    assert(all.skip(0) =~= all);
    while i < lines.len()
        invariant
            i <= lines@.len(),
            all == text::texts(lines@),
            notify_place(all) == i + notify_place(all.skip(i as int)),
        decreases lines.len() - i,
    {
        assert(all.skip(i as int)[0] == lines@[i as int]@);
        assert(all.skip(i as int).drop_first() =~= all.skip(i as int + 1));
        if is_notify(lines[i].as_str()) {
            return i;
        }
        i += 1;
    }
    i
}

fn set_notify(lines: &mut Vec<String>, own: &str)
    ensures
        text::texts(final(lines)@) == notify_lines(text::texts(old(lines)@), own@),
{
    let ghost all = text::texts(lines@);
    let line = make_notify_line(own);
    let i: usize = find_notify(lines);
    if i < lines.len() {
        lines.set(i, line);
        assert(text::texts(lines@) =~= all.update(i as int, notify_line(own@)));
        return;
    }
    while lines.len() > 0 && text::trim(lines[lines.len() - 1].as_str()).as_str().is_empty()
        invariant
            without_blank_end(all) == without_blank_end(text::texts(lines@)),
        decreases lines.len(),
    {
        let ghost before = text::texts(lines@);
        assert(before.last() == lines@.last()@);
        lines.pop();
        assert(text::texts(lines@) =~= before.drop_last());
    }
    let ghost rest = text::texts(lines@);
    proof {
        if lines@.len() > 0 {
            assert(rest.last() == lines@.last()@);
        }
        assert(rest == without_blank_end(all));
    }
    if lines.len() > 0 {
        lines.push(String::new());
        assert(text::texts(lines@) =~= rest.push(Seq::empty()));
    }
    let ghost spaced = text::texts(lines@);
    lines.push("# 番茄钟：回合结束时通知（由 pomodoro-hook install 写入）".to_owned());
    lines.push(line);
    assert(text::texts(lines@) =~= spaced.push(
        "# 番茄钟：回合结束时通知（由 pomodoro-hook install 写入）"@,
    ).push(notify_line(own@)));
}

impl Installer {
    /// Codex's `config.toml` after `notify` is set to this program.
    pub fn install_codex_notify(&self, file: &str) -> (r: String)
        ensures
            r@ == notify_config_of(file@, self.own@),
    {
        let mut lines = read_lines(file);
        set_notify(&mut lines, self.own.as_str());
        cat2(join(&lines, "\n").as_str(), "\n")
    }
}

/// A section's name as its head line `[name]` gives it, the line being trimmed
/// and its first bracket dropped.
pub open spec fn section_name(rest: Seq<char>) -> Seq<char> {
    text::trimmed(without_brackets(rest))
}

/// A text without the closing brackets at its end.
pub open spec fn without_brackets(s: Seq<char>) -> Seq<char>
    decreases s.len(),
{
    if s.len() > 0 && s.last() == ']' {
        without_brackets(s.drop_last())
    } else {
        s
    }
}

/// A text without its white space.
pub open spec fn dense(s: Seq<char>) -> Seq<char>
    decreases s.len(),
{
    if s.len() == 0 {
        s
    } else if text::white(s.last()) {
        dense(s.drop_last())
    } else {
        dense(s.drop_last()).push(s.last())
    }
}

/// Whether the lines from place `i` on switch hooks off: `hooks = false` in the
/// section `[features]`. `inside` says whether place `i` is in that section.
pub open spec fn switches_off(lines: Seq<Seq<char>>, i: int, inside: bool) -> bool
    decreases lines.len() - i,
{
    if i < 0 || i >= lines.len() {
        false
    } else {
        let t = text::trimmed(lines[i]);
        if t.len() > 0 && t[0] == '[' {
            switches_off(lines, i + 1, section_name(t.drop_first()) == "features"@)
        } else if inside && (dense(t) == "hooks=false"@ || dense(t) == "codex_hooks=false"@) {
            true
        } else {
            switches_off(lines, i + 1, inside)
        }
    }
}

/// Whether Codex's `config.toml` switches hooks off.
pub open spec fn hooks_disabled(file: Seq<char>) -> bool {
    switches_off(text::split_by(file, "\n"@), 0, false)
}

fn drop_brackets(v: &Vec<char>) -> (r: Vec<char>)
    ensures
        r@ == without_brackets(v@),
{
    let mut end: usize = v.len();
    assert(v@.take(end as int) =~= v@);
    while end > 0 && v[end - 1] == ']'
        invariant
            end <= v@.len(),
            without_brackets(v@) == without_brackets(v@.take(end as int)),
        decreases end,
    {
        assert(v@.take(end as int).drop_last() =~= v@.take(end - 1));
        end -= 1;
    }
    let mut r: Vec<char> = Vec::new();
    let mut i: usize = 0;
    while i < end
        invariant
            i <= end <= v@.len(),
            r@ == v@.take(i as int),
        decreases end - i,
    {
        r.push(v[i]);
        assert(r@ =~= v@.take(i as int + 1));
        i += 1;
    }
    r
}

fn squeeze(v: &Vec<char>) -> (r: String)
    ensures
        r@ == dense(v@),
{
    let mut r = String::new();
    let mut i: usize = 0;
    while i < v.len()
        invariant
            i <= v@.len(),
            r@ == dense(v@.take(i as int)),
        decreases v.len() - i,
    {
        assert(v@.take(i as int + 1).drop_last() =~= v@.take(i as int));
        if !text::is_white(v[i]) {
            r.push(v[i]);
        }
        i += 1;
    }
    assert(v@.take(i as int) =~= v@);
    r
}

/// Whether Codex's `config.toml` switches hooks off.
pub fn codex_hooks_disabled(file: &str) -> (r: bool)
    ensures
        r == hooks_disabled(file@),
{
    proof {
        reveal_strlit("\n");
    }
    let lines = split_text(file, "\n");
    let ghost all = text::split_by(file@, "\n"@);
    let mut inside = false;
    let mut i: usize = 0;
    while i < lines.len()
        invariant
            i <= lines@.len(),
            all == text::texts(lines@),
            all == text::split_by(file@, "\n"@),
            switches_off(all, 0, false) == switches_off(all, i as int, inside),
        decreases lines.len() - i,
    {
        assert(all[i as int] == lines@[i as int]@);
        let t = chars_of(text::trim(lines[i].as_str()).as_str());
        if t.len() > 0 && t[0] == '[' {
            let rest = drop_front(&t, 1);
            assert(rest@ =~= t@.drop_first());
            let name = trim_chars(&drop_brackets(&rest));
            inside = same(name.as_str(), "features");
        } else if inside {
            let d = squeeze(&t);
            if same(d.as_str(), "hooks=false") || same(d.as_str(), "codex_hooks=false") {
                return true;
            }
        }
        i += 1;
    }
    false
}

/// Whether a line opens an inline `[hooks]` section.
pub open spec fn opens_hooks(line: Seq<char>) -> bool {
    let t = text::trimmed_start(line);
    text::starts_with(t, "[hooks]"@) || text::starts_with(t, "[[hooks."@)
}

/// Whether Codex's `config.toml` has hooks of its own.
pub open spec fn inline_hooks(file: Seq<char>) -> bool {
    let lines = text::split_by(file, "\n"@);
    exists|i: int| 0 <= i < lines.len() && opens_hooks(#[trigger] lines[i])
}

/// Whether Codex's `config.toml` has hooks of its own.
pub fn codex_inline_hooks(file: &str) -> (r: bool)
    ensures
        r == inline_hooks(file@),
{
    proof {
        reveal_strlit("\n");
    }
    let lines = split_text(file, "\n");
    let ghost all = text::split_by(file@, "\n"@);
    let mut i: usize = 0;
    while i < lines.len()
        invariant
            i <= lines@.len(),
            all == text::texts(lines@),
            all == text::split_by(file@, "\n"@),
            forall|k: int| 0 <= k < i ==> !opens_hooks(#[trigger] all[k]),
        decreases lines.len() - i,
    {
        assert(all[i as int] == lines@[i as int]@);
        let t = trim_front(&chars_of(lines[i].as_str()));
        if text::matches_at(&t, &chars_of("[hooks]"), 0) || text::matches_at(
            &t,
            &chars_of("[[hooks."),
            0,
        ) {
            return true;
        }
        i += 1;
    }
    false
}

// ---------------------------------------------------------------------------
// Laws
// ---------------------------------------------------------------------------

proof fn lemma_cleaned(list: Seq<JsonView>, own: Seq<char>, n: int)
    requires
        0 <= n <= list.len(),
    ensures
        forall|i: int|
            0 <= i < cleaned(list, own, n).len() ==> {
                let fp = fingerprint(#[trigger] cleaned(list, own, n)[i]);
                !own_kind(fp) || text::contains(fp, own)
            },
        forall|k: int|
            0 <= k < n && (!own_kind(fingerprint(#[trigger] list[k])) || text::contains(
                fingerprint(list[k]),
                own,
            )) ==> cleaned(list, own, n).contains(list[k]),
    decreases n,
{
    if n > 0 {
        lemma_cleaned(list, own, n - 1);
        let head = cleaned(list, own, n - 1);
        let all = cleaned(list, own, n);
        assert forall|k: int|
            0 <= k < n && (!own_kind(fingerprint(#[trigger] list[k])) || text::contains(
                fingerprint(list[k]),
                own,
            )) implies all.contains(list[k]) by {
            if k == n - 1 {
                assert(all[all.len() - 1] == list[k]);
            } else {
                assert(head.contains(list[k]));
                let j = choose|j: int| 0 <= j < head.len() && head[j] == list[k];
                assert(all[j] == list[k]);
            }
        }
    }
}

proof fn lemma_cleaned_again(list: Seq<JsonView>, own: Seq<char>)
    requires
        forall|i: int|
            0 <= i < list.len() ==> {
                let fp = fingerprint(#[trigger] list[i]);
                !own_kind(fp) || text::contains(fp, own)
            },
    ensures
        forall|n: int| 0 <= n <= list.len() ==> #[trigger] cleaned(list, own, n) == list.take(n),
{
    assert forall|n: int| 0 <= n <= list.len() implies #[trigger] cleaned(list, own, n)
        == list.take(n) by {
        lemma_cleaned_prefix(list, own, n);
    }
}

proof fn lemma_cleaned_prefix(list: Seq<JsonView>, own: Seq<char>, n: int)
    requires
        0 <= n <= list.len(),
        forall|i: int|
            0 <= i < list.len() ==> {
                let fp = fingerprint(#[trigger] list[i]);
                !own_kind(fp) || text::contains(fp, own)
            },
    ensures
        cleaned(list, own, n) == list.take(n),
    decreases n,
{
    if n > 0 {
        lemma_cleaned_prefix(list, own, n - 1);
        assert(list.take(n - 1).push(list[n - 1]) =~= list.take(n));
    } else {
        assert(list.take(0) =~= Seq::empty());
    }
}

/// Others' hooks are never touched: an entry that is not this program's is still
/// there after an installation, with or without cleaning.
pub proof fn law_others_hooks_stay(
    list: Seq<JsonView>,
    entry: JsonView,
    own: Seq<char>,
    clean: bool,
    k: int,
)
    requires
        0 <= k < list.len(),
        !own_kind(fingerprint(list[k])),
    ensures
        added(list, entry, own, clean).contains(list[k]),
{
    let left = if clean {
        cleaned(list, own, list.len() as int)
    } else {
        list
    };
    if clean {
        lemma_cleaned(list, own, list.len() as int);
    }
    assert(left.contains(list[k]));
    let j = choose|j: int| 0 <= j < left.len() && left[j] == list[k];
    assert(added(list, entry, own, clean)[j] == list[k]);
}

/// The entries of a list that are not this program's.
pub open spec fn others(list: Seq<JsonView>) -> Seq<JsonView> {
    list.filter(|x: JsonView| !own_kind(fingerprint(x)))
}

/// One more entry at the end of a list counts among the others' where it is one.
pub proof fn lemma_others_push(list: Seq<JsonView>, x: JsonView)
    ensures
        others(list.push(x)) == (if own_kind(fingerprint(x)) {
            others(list)
        } else {
            others(list).push(x)
        }),
{
    reveal(Seq::filter);
    assert(list.push(x).drop_last() =~= list);
}

proof fn lemma_others_cleaned(list: Seq<JsonView>, own: Seq<char>, n: int)
    requires
        0 <= n <= list.len(),
    ensures
        others(cleaned(list, own, n)) == others(list.take(n)),
    decreases n,
{
    if n > 0 {
        lemma_others_cleaned(list, own, n - 1);
        lemma_others_push(list.take(n - 1), list[n - 1]);
        assert(list.take(n - 1).push(list[n - 1]) =~= list.take(n));
        lemma_others_push(cleaned(list, own, n - 1), list[n - 1]);
    } else {
        assert(list.take(0) =~= Seq::empty());
    }
}

/// Others' hooks are the same after an entry of this program's was added, in the
/// same order, with or without cleaning.
pub proof fn law_others_hooks_keep_their_order(
    list: Seq<JsonView>,
    entry: JsonView,
    own: Seq<char>,
    clean: bool,
)
    requires
        own_kind(fingerprint(entry)),
    ensures
        others(added(list, entry, own, clean)) == others(list),
{
    let left = if clean {
        cleaned(list, own, list.len() as int)
    } else {
        list
    };
    lemma_others_cleaned(list, own, list.len() as int);
    assert(list.take(list.len() as int) =~= list);
    lemma_others_push(left, entry);
}

/// Cleaning leaves no stale copy: every entry that is left is the new one,
/// another program's, or this very copy's.
pub proof fn law_cleaning_removes_stale_copies(
    list: Seq<JsonView>,
    entry: JsonView,
    own: Seq<char>,
    i: int,
)
    requires
        0 <= i < added(list, entry, own, true).len(),
    ensures
        ({
            let e = added(list, entry, own, true)[i];
            e == entry || !own_kind(fingerprint(e)) || text::contains(fingerprint(e), own)
        }),
{
    lemma_cleaned(list, own, list.len() as int);
}

/// An entry that was added is there, and adding it again changes nothing.
pub proof fn lemma_added_again(
    list: Seq<JsonView>,
    entry: JsonView,
    own: Seq<char>,
    clean: bool,
)
    requires
        clean ==> !own_kind(fingerprint(entry)) || text::contains(fingerprint(entry), own),
    ensures
        has_print(added(list, entry, own, clean), fingerprint(entry)),
        added(added(list, entry, own, clean), entry, own, clean) == added(list, entry, own, clean),
{
    let once = added(list, entry, own, clean);
    let left = if clean {
        cleaned(list, own, list.len() as int)
    } else {
        list
    };
    if has_print(left, fingerprint(entry)) {
        assert(once == left);
    } else {
        assert(once[once.len() - 1] == entry);
    }
    assert(has_print(once, fingerprint(entry)));
    if clean {
        lemma_cleaned(list, own, list.len() as int);
        assert forall|i: int| 0 <= i < once.len() implies ({
            let fp = fingerprint(#[trigger] once[i]);
            !own_kind(fp) || text::contains(fp, own)
        }) by {
            if i < left.len() {
                assert(once[i] == left[i]);
            }
        }
        lemma_cleaned_again(once, own);
        assert(once.take(once.len() as int) =~= once);
    }
    assert(added(once, entry, own, clean) == once);
}

/// The entry is in place after an installation, and installing once more changes
/// nothing, as long as cleaning does not take the entry itself for a stale copy.
pub proof fn law_installing_twice_is_installing_once(
    hooks: Members,
    event: Seq<char>,
    entry: JsonView,
    own: Seq<char>,
    clean: bool,
)
    requires
        clean ==> !own_kind(fingerprint(entry)) || text::contains(fingerprint(entry), own),
    ensures
        has_print(entries_of(pushed(hooks, event, entry, own, clean), event), fingerprint(entry)),
        pushed(pushed(hooks, event, entry, own, clean), event, entry, own, clean) == pushed(
            hooks,
            event,
            entry,
            own,
            clean,
        ),
{
    let list = entries_of(hooks, event);
    let once = added(list, entry, own, clean);
    lemma_added_again(list, entry, own, clean);
    json::law_put_then_lookup(hooks, event, JsonView::Arr(once), event);
    json::law_put_overwrites(hooks, event, JsonView::Arr(once), JsonView::Arr(once));
}

// ---------------------------------------------------------------------------
// Hosts and files, word for word
// ---------------------------------------------------------------------------

/// Every host is known by its name, and has its settings in its own file.
pub proof fn law_hosts_are_known_by_their_names(lead: Seq<char>, other: Seq<char>)
    requires
        lead != "zcode"@,
        lead != "vscode"@,
        lead != "trae"@,
        lead != "cursor"@,
        lead != "opencode"@,
        lead != "codex"@,
        lead != "qwen"@,
    ensures
        host_named("zcode"@, lead) == Some(Host::Zcode),
        host_named(lead, lead) == Some(Host::Lead),
        host_named("vscode"@, lead) == Some(Host::Vscode),
        host_named("trae"@, lead) == Some(Host::Trae),
        host_named("cursor"@, lead) == Some(Host::Cursor),
        host_named("opencode"@, lead) == Some(Host::Opencode),
        host_named("codex"@, lead) == Some(Host::Codex),
        host_named("qwen"@, lead) == Some(Host::Qwen),
        forall|h: Host| host_named(#[trigger] h.name(lead), lead) == Some(h),
        other != "zcode"@ && other != lead && other != "vscode"@ && other != "trae"@ && other
            != "cursor"@ && other != "opencode"@ && other != "codex"@ && other != "qwen"@
            ==> host_named(other, lead) is None,
        Host::Zcode.place(lead) == seq![".zcode"@, "cli"@, "config.json"@],
        Host::Lead.place(lead) == seq!["."@ + lead, "settings.json"@],
        Host::Vscode.place(lead) == seq![".copilot"@, "hooks"@, "pomodoro.json"@],
        Host::Trae.place(lead) == seq![".trae-cn"@, "hooks.json"@],
        Host::Cursor.place(lead) == seq![".cursor"@, "hooks.json"@],
        Host::Opencode.place(lead) == seq!["opencode.json"@],
        Host::Codex.place(lead) == seq![".codex"@, "hooks.json"@],
        Host::Qwen.place(lead) == seq![".qwen"@, "settings.json"@],
{
    reveal_strlit("zcode");
    reveal_strlit("vscode");
    reveal_strlit("trae");
    reveal_strlit("cursor");
    reveal_strlit("opencode");
    reveal_strlit("codex");
    reveal_strlit("qwen");
    assert("zcode"@.len() == 5);
    assert("vscode"@.len() == 6);
    assert("trae"@.len() == 4);
    assert("cursor"@.len() == 6);
    assert("opencode"@.len() == 8);
    assert("codex"@.len() == 5);
    assert("qwen"@.len() == 4);
    assert("zcode"@[0] == 'z');
    assert("vscode"@[0] == 'v');
    assert("trae"@[0] == 't');
    assert("cursor"@[0] == 'c');
    assert("codex"@[0] == 'c');
    assert("qwen"@[0] == 'q');
}

/// An installation is for the host that is named, and for every host where none is.
pub proof fn law_all_hosts_unless_one_is_named(args: Seq<Seq<char>>, h: Host)
    ensures
        crate::args::flag_values(args, "agent"@).len() == 0 ==> wanted(args) == "all"@,
        crate::args::flag_values(args, "agent"@).len() > 0 ==> wanted(args)
            == crate::args::flag_values(args, "agent"@)[0],
        all_hosts().contains(h),
        all_hosts().len() == 8,
        all_hosts().no_duplicates(),
{
    let all = all_hosts();
    match h {
        Host::Zcode => assert(all[0] == h),
        Host::Lead => assert(all[1] == h),
        Host::Vscode => assert(all[2] == h),
        Host::Trae => assert(all[3] == h),
        Host::Cursor => assert(all[4] == h),
        Host::Opencode => assert(all[5] == h),
        Host::Codex => assert(all[6] == h),
        Host::Qwen => assert(all[7] == h),
    }
}

/// What is read of a configuration is its object, where it has one and is not too long;
/// else none of it.
pub proof fn law_what_is_read_of_a_configuration(n: u64, t: Seq<char>, m: Members)
    ensures
        n <= 8_388_608 && json::parsed(t) == Some(JsonView::Obj(m)) ==> config_in(Some(n), Some(t))
            == m,
        n > 8_388_608 ==> config_in(Some(n), Some(t)).len() == 0,
        json::parsed(t) is None ==> config_in(Some(n), Some(t)).len() == 0,
        config_in(None, Some(t)).len() == 0,
        config_in(Some(n), None).len() == 0,
{
}

/// This program's entries are told from others' by its name.
pub proof fn law_own_entries_are_told_by_name(before: Seq<char>, after: Seq<char>, fp: Seq<char>)
    ensures
        own_kind(before + "pomodoro-hook"@ + after),
        own_kind(fp) <==> text::contains(fp, "pomodoro-hook"@),
{
    text::lemma_between(before, "pomodoro-hook"@, after);
}

proof fn lemma_notify_place(lines: Seq<Seq<char>>)
    ensures
        0 <= notify_place(lines) <= lines.len(),
        notify_place(lines) < lines.len() ==> sets_notify(lines[notify_place(lines)]),
        forall|i: int| 0 <= i < notify_place(lines) ==> !sets_notify(#[trigger] lines[i]),
    decreases lines.len(),
{
    if lines.len() > 0 && !sets_notify(lines[0]) {
        let rest = lines.drop_first();
        lemma_notify_place(rest);
        assert forall|i: int| 0 <= i < notify_place(lines) implies !sets_notify(
            #[trigger] lines[i],
        ) by {
            if i > 0 {
                assert(rest[i - 1] == lines[i]);
            }
        }
    }
}

proof fn lemma_without_blank_end(lines: Seq<Seq<char>>)
    ensures
        without_blank_end(lines).len() <= lines.len(),
        without_blank_end(lines) == lines.take(without_blank_end(lines).len() as int),
        forall|i: int|
            without_blank_end(lines).len() <= i < lines.len() ==> text::trimmed(
                #[trigger] lines[i],
            ).len() == 0,
    decreases lines.len(),
{
    if lines.len() > 0 && text::trimmed(lines.last()).len() == 0 {
        let head = lines.drop_last();
        lemma_without_blank_end(head);
        let n = without_blank_end(lines).len() as int;
        assert(head.take(n) =~= lines.take(n));
        assert forall|i: int| n <= i < lines.len() implies text::trimmed(#[trigger] lines[i]).len()
            == 0 by {
            if i < head.len() {
                assert(head[i] == lines[i]);
            }
        }
    } else {
        assert(lines.take(lines.len() as int) =~= lines);
    }
}

/// Setting Codex's notification puts its line in place of the one that was there, or at
/// the end, and leaves every other line that says anything as it was.
pub proof fn law_setting_the_notification_leaves_the_rest(
    lines: Seq<Seq<char>>,
    own: Seq<char>,
    i: int,
)
    ensures
        notify_lines(lines, own).contains(notify_line(own)),
        0 <= i < lines.len() && !sets_notify(lines[i]) && text::trimmed(lines[i]).len() > 0
            ==> notify_lines(lines, own)[i] == lines[i],
        0 <= i < lines.len() && sets_notify(lines[i]) && (forall|j: int|
            0 <= j < i ==> !sets_notify(#[trigger] lines[j])) ==> notify_lines(lines, own).len()
            == lines.len() && notify_lines(lines, own)[i] == notify_line(own),
{
    let k = notify_place(lines);
    let done = notify_lines(lines, own);
    lemma_notify_place(lines);
    if k < lines.len() {
        assert(done[k] == notify_line(own));
        if 0 <= i < lines.len() && sets_notify(lines[i]) && k < i {
            assert(sets_notify(lines[k]));
        }
    } else {
        lemma_without_blank_end(lines);
        assert(done[done.len() - 1] == notify_line(own));
        let rest = without_blank_end(lines);
        if 0 <= i < lines.len() {
            assert(!sets_notify(lines[i]));
            if text::trimmed(lines[i]).len() > 0 {
                assert(i < rest.len());
                assert(done[i] == rest[i]);
            }
        }
    }
}

proof fn lemma_nothing_escaped(path: Seq<char>)
    requires
        forall|i: int| 0 <= i < path.len() ==> #[trigger] path[i] != '\\',
    ensures
        escaped(path) == path,
    decreases path.len(),
{
    if path.len() > 0 {
        let head = path.drop_last();
        assert forall|i: int| 0 <= i < head.len() implies #[trigger] head[i] != '\\' by {
            assert(head[i] == path[i]);
        }
        lemma_nothing_escaped(head);
        assert(path.last() == path[path.len() - 1]);
        assert(head.push(path.last()) =~= path);
    }
}

/// The line of Codex's notification runs this program with the command for it; in its
/// path every backslash is doubled.
pub proof fn law_the_line_of_the_notification(path: Seq<char>, more: Seq<char>)
    requires
        forall|i: int| 0 <= i < path.len() ==> #[trigger] path[i] != '\\',
    ensures
        notify_line(path) == "notify = [\""@ + path + "\", \"codex-notify\"]"@,
        escaped(more.push('\\')) == escaped(more) + seq!['\\', '\\'],
{
    lemma_nothing_escaped(path);
    let m = more.push('\\');
    assert(m.drop_last() =~= more);
    assert(m.last() == '\\');
    assert(escaped(m) =~= escaped(more) + seq!['\\', '\\']);
}

proof fn lemma_stays_inside(lines: Seq<Seq<char>>, i: int, j: int)
    requires
        0 <= i <= j < lines.len(),
        dense(text::trimmed(lines[j])) == "hooks=false"@ || dense(text::trimmed(lines[j]))
            == "codex_hooks=false"@,
        forall|k: int|
            i <= k <= j ==> !(text::trimmed(#[trigger] lines[k]).len() > 0 && text::trimmed(
                lines[k],
            )[0] == '['),
    ensures
        switches_off(lines, i, true),
    decreases j - i,
{
    assert(!(text::trimmed(lines[i]).len() > 0 && text::trimmed(lines[i])[0] == '['));
    if i < j {
        if !(dense(text::trimmed(lines[i])) == "hooks=false"@ || dense(text::trimmed(lines[i]))
            == "codex_hooks=false"@) {
            lemma_stays_inside(lines, i + 1, j);
        }
    }
}

proof fn lemma_comes_inside(lines: Seq<Seq<char>>, from: int, i: int, j: int, inside: bool)
    requires
        0 <= from <= i < j < lines.len(),
        text::trimmed(lines[i]).len() > 0,
        text::trimmed(lines[i])[0] == '[',
        section_name(text::trimmed(lines[i]).drop_first()) == "features"@,
        dense(text::trimmed(lines[j])) == "hooks=false"@ || dense(text::trimmed(lines[j]))
            == "codex_hooks=false"@,
        forall|k: int|
            i < k <= j ==> !(text::trimmed(#[trigger] lines[k]).len() > 0 && text::trimmed(
                lines[k],
            )[0] == '['),
    ensures
        switches_off(lines, from, inside),
    decreases i - from,
{
    if from == i {
        lemma_stays_inside(lines, i + 1, j);
    } else {
        let t = text::trimmed(lines[from]);
        if t.len() > 0 && t[0] == '[' {
            lemma_comes_inside(
                lines,
                from + 1,
                i,
                j,
                section_name(t.drop_first()) == "features"@,
            );
        } else {
            lemma_comes_inside(lines, from + 1, i, j, inside);
        }
    }
}

proof fn lemma_never_off(lines: Seq<Seq<char>>, i: int, inside: bool)
    requires
        0 <= i <= lines.len(),
        forall|k: int|
            0 <= k < lines.len() ==> dense(text::trimmed(#[trigger] lines[k])) != "hooks=false"@
                && dense(text::trimmed(lines[k])) != "codex_hooks=false"@,
    ensures
        !switches_off(lines, i, inside),
    decreases lines.len() - i,
{
    if i < lines.len() {
        let t = text::trimmed(lines[i]);
        assert(dense(t) != "hooks=false"@ && dense(t) != "codex_hooks=false"@);
        if t.len() > 0 && t[0] == '[' {
            lemma_never_off(lines, i + 1, section_name(t.drop_first()) == "features"@);
        } else {
            lemma_never_off(lines, i + 1, inside);
        }
    }
}

/// Codex's hooks are off where its section of features says so, however it is spaced;
/// where no line says so they are not.
pub proof fn law_hooks_are_off_where_the_features_say_so(file: Seq<char>, i: int, j: int)
    ensures
        ({
            let lines = text::split_by(file, "\n"@);
            &&& 0 <= i < j < lines.len() && text::trimmed(lines[i]) == "[features]"@ && (dense(
                text::trimmed(lines[j]),
            ) == "hooks=false"@ || dense(text::trimmed(lines[j])) == "codex_hooks=false"@) && (
            forall|k: int|
                i < k <= j ==> !(text::trimmed(#[trigger] lines[k]).len() > 0 && text::trimmed(
                    lines[k],
                )[0] == '[')) ==> hooks_disabled(file)
            &&& (forall|k: int|
                0 <= k < lines.len() ==> dense(text::trimmed(#[trigger] lines[k])) != "hooks=false"@
                    && dense(text::trimmed(lines[k])) != "codex_hooks=false"@) ==> !hooks_disabled(
                file,
            )
        }),
{
    let lines = text::split_by(file, "\n"@);
    if 0 <= i < j < lines.len() && text::trimmed(lines[i]) == "[features]"@ && (dense(
        text::trimmed(lines[j]),
    ) == "hooks=false"@ || dense(text::trimmed(lines[j])) == "codex_hooks=false"@) && (forall|k: int|
        i < k <= j ==> !(text::trimmed(#[trigger] lines[k]).len() > 0 && text::trimmed(lines[k])[0]
            == '[')) {
        lemma_features();
        lemma_comes_inside(lines, 0, i, j, false);
    }
    if forall|k: int|
        0 <= k < lines.len() ==> dense(text::trimmed(#[trigger] lines[k])) != "hooks=false"@ && dense(
            text::trimmed(lines[k]),
        ) != "codex_hooks=false"@ {
        lemma_never_off(lines, 0, false);
    }
}

proof fn lemma_features()
    ensures
        "[features]"@.len() > 0,
        "[features]"@[0] == '[',
        section_name("[features]"@.drop_first()) == "features"@,
{
    reveal_strlit("[features]");
    reveal_strlit("features");
    assert("[features]"@.len() == 10);
    assert("[features]"@[0] == '[');
    assert("[features]"@[1] == 'f');
    assert("[features]"@[2] == 'e');
    assert("[features]"@[3] == 'a');
    assert("[features]"@[4] == 't');
    assert("[features]"@[5] == 'u');
    assert("[features]"@[6] == 'r');
    assert("[features]"@[7] == 'e');
    assert("[features]"@[8] == 's');
    assert("[features]"@[9] == ']');
    assert("features"@.len() == 8);
    assert("features"@[0] == 'f');
    assert("features"@[1] == 'e');
    assert("features"@[2] == 'a');
    assert("features"@[3] == 't');
    assert("features"@[4] == 'u');
    assert("features"@[5] == 'r');
    assert("features"@[6] == 'e');
    assert("features"@[7] == 's');
    let s = "[features]"@.drop_first();
    assert(s.last() == ']');
    assert(s.drop_last() =~= "features"@);
    assert("features"@.last() == 's');
    assert(without_brackets("features"@) == "features"@);
    assert(without_brackets(s) == "features"@);
    text::law_what_is_trimmed_stays("features"@);
}

/// Codex's configuration has hooks of its own where a line opens their section.
pub proof fn law_a_line_opens_inline_hooks(file: Seq<char>, i: int)
    ensures
        ({
            let lines = text::split_by(file, "\n"@);
            &&& 0 <= i < lines.len() && text::starts_with(text::trimmed_start(lines[i]), "[hooks]"@)
                ==> inline_hooks(file)
            &&& 0 <= i < lines.len() && text::starts_with(text::trimmed_start(lines[i]), "[[hooks."@)
                ==> inline_hooks(file)
        }),
{
    let lines = text::split_by(file, "\n"@);
    if 0 <= i < lines.len() && opens_hooks(lines[i]) {
        assert(opens_hooks(lines[i]));
    }
}

/// What a hook runs is this program, quoted, with who runs it.
pub proof fn law_what_a_hook_runs(own: Seq<char>, source: Seq<char>)
    ensures
        command_of(own, source).field("type"@) == Some(JsonView::Str("command"@)),
        command_of(own, source).field("command"@) == Some(
            JsonView::Str("\""@ + own + "\" --source "@ + source),
        ),
{
    broadcast use crate::json::group_fields;

    reveal_strlit("type");
    reveal_strlit("command");
    assert("type"@.len() == 4);
    assert("command"@.len() == 7);
}

/// A command is told with its arguments after it, and a line sets the notification
/// where it begins with its name and an equals sign.
pub proof fn law_commands_are_told_with_their_arguments(
    h: JsonView,
    c: Seq<char>,
    a: Seq<char>,
    b: Seq<char>,
)
    requires
        h.field("command"@) == Some(JsonView::Str(c)),
    ensures
        h.field("args"@) == Some(JsonView::Arr(seq![JsonView::Str(a), JsonView::Str(b)]))
            ==> command_line(h) == c + " "@ + (a + " "@ + b),
        h.field("args"@) is None ==> command_line(h) == c + " "@,
{
    json::lemma_picked(h, "command", JsonView::Str(c));
    let both = seq![JsonView::Str(a), JsonView::Str(b)];
    assert(both.map_values(|x: JsonView| x.lossy()) =~= seq![a, b]);
    text::law_joining(a, b, a, " "@);
    let none = Seq::<JsonView>::empty();
    assert(none.map_values(|x: JsonView| x.lossy()) =~= Seq::empty());
    assert(c + " "@ + Seq::<char>::empty() =~= c + " "@);
}

} // verus!
