//! The hook's command line: what a call asks for, and what the small commands
//! print and send.

use vstd::prelude::*;
use crate::install;
use crate::install::hook_agent_names;
use crate::interaction;
use crate::json;
use crate::json::{get, is_truthy, parse_json_maybe, pick_str, Json, JsonView};
use crate::text;
use crate::text::{basename, cat2, chars_of, first_or, same, short_session};
use crate::time;
use crate::time::iso8601_ms;

verus! {

broadcast use crate::json::group_json;

/// How long the small commands wait for the gateway, in milliseconds.
pub const COMMAND_TIMEOUT_MS: u64 = 8_000;

/// How long the hook waits for its input, in milliseconds.
pub const STDIN_TIMEOUT_MS: u64 = 5_000;

// ---------------------------------------------------------------------------
// The source
// ---------------------------------------------------------------------------

/// The place of an argument, or their number.
pub open spec fn place_of(args: Seq<Seq<char>>, a: Seq<char>) -> int
    decreases args.len(),
{
    if args.len() == 0 || args[0] == a {
        0
    } else {
        1 + place_of(args.drop_first(), a)
    }
}

/// The arguments without the source, and the source: what follows the first
/// `--source`, where something follows it.
pub open spec fn source_split(args: Seq<Seq<char>>) -> (Option<Seq<char>>, Seq<Seq<char>>) {
    let i = place_of(args, "--source"@);
    if i + 1 < args.len() {
        (Some(args[i + 1]), args.take(i) + args.skip(i + 2))
    } else {
        (None, args)
    }
}

proof fn lemma_place(args: Seq<Seq<char>>, a: Seq<char>)
    ensures
        0 <= place_of(args, a) <= args.len(),
    decreases args.len(),
{
    if args.len() > 0 && args[0] != a {
        lemma_place(args.drop_first(), a);
    }
}

fn find_arg(args: &[String], a: &str) -> (r: usize)
    ensures
        r == place_of(text::texts(args@), a@),
        r <= args@.len(),
{
    let mut i: usize = 0;
    let ghost av = text::texts(args@);
    assert(av.skip(0) =~= av);
    while i < args.len()
        invariant
            i <= args@.len(),
            av == text::texts(args@),
            place_of(av, a@) == i + place_of(av.skip(i as int), a@),
        decreases args.len() - i,
    {
        assert(av.skip(i as int).drop_first() =~= av.skip(i as int + 1));
        assert(av.skip(i as int)[0] == args@[i as int]@);
        if same(args[i].as_str(), a) {
            return i;
        }
        i += 1;
    }
    i
}

/// Takes the source out of the arguments.
pub fn take_source(args: &mut Vec<String>) -> (r: Option<String>)
    ensures
        interaction::opt_text(r) == source_split(text::texts(old(args)@)).0,
        text::texts(final(args)@) == source_split(text::texts(old(args)@)).1,
{
    let ghost before = text::texts(args@);
    let i: usize = find_arg(args.as_slice(), "--source");
    if i >= args.len() || i + 1 >= args.len() {
        return None;
    }
    let _flag = args.remove(i);
    let source = args.remove(i);
    assert(text::texts(args@) =~= before.take(i as int) + before.skip(i + 2));
    Some(source)
}

// ---------------------------------------------------------------------------
// Commands
// ---------------------------------------------------------------------------

/// What a call asks for.
#[derive(Clone, Copy, PartialEq, Eq, Structural, Debug)]
pub enum Command {
    Help,
    /// Only to print; also to clean; also the notify setting.
    Install(bool, bool, bool),
    /// A host's event, read from the input.
    Hook,
    OpencodePermission,
    OpencodeQuestion,
    OpencodeEvent,
    CodexNotify,
    Status,
    Sessions,
    Ask,
    Permission,
    Notify,
    Unknown,
}

impl Command {
    /// Whether the command does without the gateway.
    pub open spec fn is_local(self) -> bool {
        self is Help || self is Install
    }

    /// Whether the command does without the gateway.
    pub fn local(self) -> (r: bool)
        ensures
            r == self.is_local(),
    {
        match self {
            Command::Help => true,
            Command::Install(_, _, _) => true,
            _ => false,
        }
    }
}

/// Whether an argument is given.
pub open spec fn given(args: Seq<Seq<char>>, a: Seq<char>) -> bool {
    place_of(args, a) < args.len()
}

/// What the arguments ask for.
pub open spec fn command_of(args: Seq<Seq<char>>) -> Command {
    if args.len() == 0 {
        Command::Hook
    } else {
        let c = args[0];
        if c == "--help"@ || c == "-h"@ || c == "help"@ {
            Command::Help
        } else if c == "install"@ {
            Command::Install(
                given(args, "--print"@),
                given(args, "--clean"@),
                given(args, "--with-notify"@),
            )
        } else if c == "opencode-permission"@ {
            Command::OpencodePermission
        } else if c == "opencode-question"@ {
            Command::OpencodeQuestion
        } else if c == "opencode-event"@ {
            Command::OpencodeEvent
        } else if c == "codex-notify"@ {
            Command::CodexNotify
        } else if c == "status"@ {
            Command::Status
        } else if c == "sessions"@ {
            Command::Sessions
        } else if c == "ask"@ {
            Command::Ask
        } else if c == "permission"@ {
            Command::Permission
        } else if c == "notify"@ {
            Command::Notify
        } else {
            Command::Unknown
        }
    }
}

/// What the arguments ask for.
pub fn command(args: &[String]) -> (r: Command)
    ensures
        r == command_of(text::texts(args@)),
{
    if args.len() == 0 {
        return Command::Hook;
    }
    assert(text::texts(args@)[0] == args@[0]@);
    let c = args[0].as_str();
    if same(c, "--help") || same(c, "-h") || same(c, "help") {
        Command::Help
    } else if same(c, "install") {
        Command::Install(
            find_arg(args, "--print") < args.len(),
            find_arg(args, "--clean") < args.len(),
            find_arg(args, "--with-notify") < args.len(),
        )
    } else if same(c, "opencode-permission") {
        Command::OpencodePermission
    } else if same(c, "opencode-question") {
        Command::OpencodeQuestion
    } else if same(c, "opencode-event") {
        Command::OpencodeEvent
    } else if same(c, "codex-notify") {
        Command::CodexNotify
    } else if same(c, "status") {
        Command::Status
    } else if same(c, "sessions") {
        Command::Sessions
    } else if same(c, "ask") {
        Command::Ask
    } else if same(c, "permission") {
        Command::Permission
    } else if same(c, "notify") {
        Command::Notify
    } else {
        Command::Unknown
    }
}

/// What is said where no gateway is found: nothing to a host, a hint to a person.
pub fn no_gateway_hint(args: &[String]) -> (r: Option<String>)
    ensures
        interaction::opt_text(r) == (if args@.len() == 0 {
            None
        } else {
            Some("[pomodoro-hook] 找不到番茄钟网关（应用未启动？）"@)
        }),
{
    if args.len() == 0 {
        None
    } else {
        Some("[pomodoro-hook] 找不到番茄钟网关（应用未启动？）".to_owned())
    }
}

// ---------------------------------------------------------------------------
// Codex
// ---------------------------------------------------------------------------

/// Whether an argument looks like a JSON object.
pub open spec fn looks_like_object(a: Seq<char>) -> bool {
    text::trimmed(a).len() > 0 && text::trimmed(a)[0] == '{'
}

/// The last argument behind the command that looks like a JSON object.
pub open spec fn inline_of(args: Seq<Seq<char>>) -> Option<Seq<char>>
    decreases args.len(),
{
    if args.len() <= 1 {
        None
    } else if looks_like_object(args.last()) {
        Some(args.last())
    } else {
        inline_of(args.drop_last())
    }
}

fn is_like_object(a: &str) -> (r: bool)
    ensures
        r == looks_like_object(a@),
{
    let t = chars_of(text::trim(a).as_str());
    t.len() > 0 && t[0] == '{'
}

/// The value that the arguments of a notification hold; none where they hold
/// none, or one that counts as false: then it is read from the input.
pub fn inline_payload(args: &[String]) -> (r: Option<Json>)
    ensures
        crate::session::owned_view(r) == (match inline_of(text::texts(args@)) {
            Some(a) => if json::maybe(a).truthy() {
                Some(json::maybe(a))
            } else {
                None
            },
            None => None,
        }),
{
    let ghost av = text::texts(args@);
    let mut i: usize = args.len();
    assert(av.take(i as int) =~= av);
    while i > 1
        invariant
            i <= args@.len(),
            av == text::texts(args@),
            inline_of(av) == inline_of(av.take(i as int)),
        decreases i,
    {
        assert(av.take(i as int).last() == args@[i - 1]@);
        assert(av.take(i as int).drop_last() =~= av.take(i - 1));
        if is_like_object(args[i - 1].as_str()) {
            let v = parse_json_maybe(args[i - 1].as_str());
            return if is_truthy(&v) {
                Some(v)
            } else {
                None
            };
        }
        i -= 1;
    }
    None
}

// ---------------------------------------------------------------------------
// Notifications
// ---------------------------------------------------------------------------

/// The value of an option among the first `n` arguments: what follows the last
/// `--key`.
pub open spec fn option_of(args: Seq<Seq<char>>, key: Seq<char>, n: int) -> Option<Seq<char>>
    decreases n,
{
    if n <= 1 {
        None
    } else if args[n - 1] == "--"@ + key && n < args.len() {
        Some(args[n])
    } else {
        option_of(args, key, n - 1)
    }
}

/// The value of an option, or its default.
pub open spec fn option_or(args: Seq<Seq<char>>, key: Seq<char>, default: Seq<char>) -> Seq<char> {
    match option_of(args, key, args.len() - 1) {
        Some(v) => v,
        None => default,
    }
}

fn read_option(args: &[String], key: &str, default: &str) -> (r: String)
    ensures
        r@ == option_or(text::texts(args@), key@, default@),
{
    let flag = cat2("--", key);
    let ghost av = text::texts(args@);
    if args.len() < 1 {
        return default.to_owned();
    }
    let mut n: usize = args.len() - 1;
    while n > 1
        invariant
            n < args@.len(),
            av == text::texts(args@),
            flag@ == "--"@ + key@,
            option_of(av, key@, av.len() - 1) == option_of(av, key@, n as int),
        decreases n,
    {
        assert(av[n - 1] == args@[n - 1]@);
        if same(args[n - 1].as_str(), flag.as_str()) {
            assert(av[n as int] == args@[n as int]@);
            return args[n].clone();
        }
        n -= 1;
    }
    default.to_owned()
}

/// What a notification from the command line shows.
pub open spec fn notify_of(args: Seq<Seq<char>>) -> JsonView {
    JsonView::object().with("title"@, JsonView::Str(option_or(args, "title"@, "番茄钟"@))).with(
        "message"@,
        JsonView::Str(option_or(args, "message"@, Seq::empty())),
    ).with("sub"@, JsonView::Str(option_or(args, "sub"@, Seq::empty()))).with(
        "type"@,
        JsonView::Str(option_or(args, "type"@, "agent"@)),
    )
}

/// What a notification from the command line shows.
pub fn notify_body(args: &[String]) -> (r: Json)
    ensures
        r@ == notify_of(text::texts(args@)),
{
    proof {
        reveal_strlit("");
        assert(""@ =~= Seq::empty());
    }
    Json::object().with("title", Json::Str(read_option(args, "title", "番茄钟"))).with(
        "message",
        Json::Str(read_option(args, "message", "")),
    ).with("sub", Json::Str(read_option(args, "sub", ""))).with(
        "type",
        Json::Str(read_option(args, "type", "agent")),
    )
}

/// Whether the gateway took a notification.
pub fn notify_taken(reply: &Json) -> (r: bool)
    ensures
        r == (reply@.truthy() && (match reply@.field("ok"@) {
            Some(v) => v.truthy(),
            None => false,
        })),
{
    is_truthy(reply) && (match get(reply, "ok") {
        Some(v) => is_truthy(v),
        None => false,
    })
}

// ---------------------------------------------------------------------------
// Sessions
// ---------------------------------------------------------------------------

/// What is shown of a session.
pub open spec fn session_row(s: JsonView) -> JsonView {
    let cwd = s.pick_text(seq!["cwd"]);
    let project = text::either(
        s.pick_text(seq!["project"]),
        if cwd.len() == 0 {
            Seq::empty()
        } else {
            text::base_of(cwd)
        },
    );
    JsonView::object().with(
        "session"@,
        JsonView::Str(text::short_id(s.pick_text(seq!["sessionId"]))),
    ).with("source"@, JsonView::Str(s.pick_text(seq!["source"]))).with(
        "project"@,
        JsonView::Str(project),
    ).with("task"@, JsonView::Str(s.pick_text(seq!["task"]))).with(
        "lastTool"@,
        JsonView::Str(s.pick_text(seq!["lastTool"])),
    ).with("lastToolDetail"@, JsonView::Str(s.pick_text(seq!["lastToolDetail"]))).with(
        "agentType"@,
        JsonView::Str(s.pick_text(seq!["agentType"])),
    ).with(
        "since"@,
        JsonView::Str(
            time::iso_text(
                match s.i64_field("at"@) {
                    Some(n) => n,
                    None => 0,
                },
            ),
        ),
    )
}

fn show_session(s: &Json) -> (r: Json)
    ensures
        r@ == session_row(s@),
{
    let cwd = pick_str(s, &["cwd"]);
    let base = if cwd.as_str().is_empty() {
        String::new()
    } else {
        basename(cwd.as_str())
    };
    let project = first_or(pick_str(s, &["project"]).as_str(), base.as_str());
    let at: i64 = match json::i64_field(s, "at") {
        Some(n) => n,
        None => 0,
    };
    Json::object().with(
        "session",
        Json::Str(short_session(pick_str(s, &["sessionId"]).as_str())),
    ).with("source", Json::Str(pick_str(s, &["source"]))).with("project", Json::Str(project)).with(
        "task",
        Json::Str(pick_str(s, &["task"])),
    ).with("lastTool", Json::Str(pick_str(s, &["lastTool"]))).with(
        "lastToolDetail",
        Json::Str(pick_str(s, &["lastToolDetail"])),
    ).with("agentType", Json::Str(pick_str(s, &["agentType"]))).with(
        "since",
        Json::Str(iso8601_ms(at)),
    )
}

/// What is shown of the sessions, in the order given.
pub fn sessions_view(list: &[Json]) -> (r: Json)
    ensures
        r@ == JsonView::Arr(json::views(list@).map_values(|s: JsonView| session_row(s))),
{
    let mut out: Vec<Json> = Vec::new();
    let mut i: usize = 0;
    while i < list.len()
        invariant
            i <= list@.len(),
            out@.len() == i,
            forall|k: int| 0 <= k < i ==> (#[trigger] out@[k])@ == session_row(list@[k]@),
        decreases list.len() - i,
    {
        out.push(show_session(&list[i]));
        i += 1;
    }
    assert(json::views(out@) =~= json::views(list@).map_values(|s: JsonView| session_row(s)));
    Json::Arr(out)
}

// ---------------------------------------------------------------------------
// Help
// ---------------------------------------------------------------------------

/// The help, before the hosts.
pub open spec fn usage_head() -> Seq<char> {
    "\n用法:\n  pomodoro-hook.exe                       # hook 模式：stdin JSON（自动识别宿主协议）\n  pomodoro-hook.exe codex-notify          # Codex CLI：回合结束通知（JSON 走参数或 stdin）\n  pomodoro-hook.exe opencode-permission   # OpenCode 插件：权限请求 → stdout {status}\n  pomodoro-hook.exe opencode-question     # OpenCode 插件：提问 → stdout {answers}\n  pomodoro-hook.exe opencode-event        # OpenCode 插件：会话事件上报\n  pomodoro-hook.exe ask --question \"Q\" --option A --option B [--task \"任务\" --agent zcode]\n  pomodoro-hook.exe permission --tool Bash --detail \"npm test\" [--task \"任务\"]\n  pomodoro-hook.exe notify --title T --message M [--sub S] [--type agent]\n  pomodoro-hook.exe status\n  pomodoro-hook.exe sessions               # 查看 hook 跟踪到的会话（任务/最近工具/项目）\n  pomodoro-hook.exe install --agent <宿主> [--print] [--clean] [--with-notify]\n\n  宿主："@
}

/// The help, behind the hosts.
pub open spec fn usage_tail() -> Seq<char> {
    " / all\n  --print        只打印将要写入的配置，不动文件\n  --clean        同时清掉指向番茄钟 hook 其它副本的旧条目\n  --with-notify  仅 Codex：额外改写 config.toml 的 notify（默认不动）"@
}

/// The help. `lead` names the lead host.
pub fn usage(version: &str, lead: &str) -> (r: String)
    ensures
        r@ == "番茄钟 Agent Hook CLI v"@ + version@ + usage_head() + install::host_names(lead@)
            + usage_tail(),
{
    let mut r = cat2("番茄钟 Agent Hook CLI v", version);
    r.append(
        "\n用法:\n  pomodoro-hook.exe                       # hook 模式：stdin JSON（自动识别宿主协议）\n  pomodoro-hook.exe codex-notify          # Codex CLI：回合结束通知（JSON 走参数或 stdin）\n  pomodoro-hook.exe opencode-permission   # OpenCode 插件：权限请求 → stdout {status}\n  pomodoro-hook.exe opencode-question     # OpenCode 插件：提问 → stdout {answers}\n  pomodoro-hook.exe opencode-event        # OpenCode 插件：会话事件上报\n  pomodoro-hook.exe ask --question \"Q\" --option A --option B [--task \"任务\" --agent zcode]\n  pomodoro-hook.exe permission --tool Bash --detail \"npm test\" [--task \"任务\"]\n  pomodoro-hook.exe notify --title T --message M [--sub S] [--type agent]\n  pomodoro-hook.exe status\n  pomodoro-hook.exe sessions               # 查看 hook 跟踪到的会话（任务/最近工具/项目）\n  pomodoro-hook.exe install --agent <宿主> [--print] [--clean] [--with-notify]\n\n  宿主：",
    );
    r.append(hook_agent_names(lead).as_str());
    r.append(
        " / all\n  --print        只打印将要写入的配置，不动文件\n  --clean        同时清掉指向番茄钟 hook 其它副本的旧条目\n  --with-notify  仅 Codex：额外改写 config.toml 的 notify（默认不动）",
    );
    r
}

// ---------------------------------------------------------------------------
// Laws
// ---------------------------------------------------------------------------

/// A source that is given is taken out and changes nothing else of the call.
pub proof fn law_source_is_taken_out(before: Seq<Seq<char>>, source: Seq<char>, after: Seq<Seq<char>>)
    requires
        forall|i: int| 0 <= i < before.len() ==> #[trigger] before[i] != "--source"@,
    ensures
        source_split(before + seq!["--source"@, source] + after) == (Some(source), before + after),
{
    let args = before + seq!["--source"@, source] + after;
    lemma_place_after(before, seq!["--source"@, source] + after, "--source"@);
    assert(before + (seq!["--source"@, source] + after) =~= args);
    let tail = seq!["--source"@, source] + after;
    assert(tail[0] == "--source"@);
    let i = place_of(args, "--source"@);
    assert(i == before.len());
    assert(args[i + 1] == source);
    assert(args.take(i) + args.skip(i + 2) =~= before + after);
}

proof fn lemma_place_after(before: Seq<Seq<char>>, tail: Seq<Seq<char>>, a: Seq<char>)
    requires
        forall|i: int| 0 <= i < before.len() ==> #[trigger] before[i] != a,
    ensures
        place_of(before + tail, a) == before.len() + place_of(tail, a),
    decreases before.len(),
{
    let all = before + tail;
    if before.len() == 0 {
        assert(all =~= tail);
    } else {
        assert(all[0] == before[0]);
        assert(all.drop_first() =~= before.drop_first() + tail);
        assert forall|i: int| 0 <= i < before.drop_first().len() implies #[trigger] before.drop_first()[i]
            != a by {
            assert(before.drop_first()[i] == before[i + 1]);
        }
        lemma_place_after(before.drop_first(), tail, a);
    }
}

/// Every command is known by its name, and no other is; without one the hook runs.
pub proof fn law_commands_are_known_by_their_names(args: Seq<Seq<char>>)
    ensures
        args.len() == 0 ==> command_of(args) == Command::Hook,
        args.len() > 0 && (args[0] == "--help"@ || args[0] == "-h"@ || args[0] == "help"@)
            ==> command_of(args) == Command::Help,
        args.len() > 0 && args[0] == "opencode-permission"@ ==> command_of(args)
            == Command::OpencodePermission,
        args.len() > 0 && args[0] == "opencode-question"@ ==> command_of(args)
            == Command::OpencodeQuestion,
        args.len() > 0 && args[0] == "opencode-event"@ ==> command_of(args)
            == Command::OpencodeEvent,
        args.len() > 0 && args[0] == "codex-notify"@ ==> command_of(args) == Command::CodexNotify,
        args.len() > 0 && args[0] == "status"@ ==> command_of(args) == Command::Status,
        args.len() > 0 && args[0] == "sessions"@ ==> command_of(args) == Command::Sessions,
        args.len() > 0 && args[0] == "ask"@ ==> command_of(args) == Command::Ask,
        args.len() > 0 && args[0] == "permission"@ ==> command_of(args) == Command::Permission,
        args.len() > 0 && args[0] == "notify"@ ==> command_of(args) == Command::Notify,
        args.len() > 0 && args[0] == "install"@ ==> command_of(args) is Install,
        args.len() > 0 && args[0] != "--help"@ && args[0] != "-h"@ && args[0] != "help"@ && args[0]
            != "opencode-permission"@ && args[0] != "opencode-question"@ && args[0]
            != "opencode-event"@ && args[0] != "codex-notify"@ && args[0] != "status"@ && args[0]
            != "sessions"@ && args[0] != "ask"@ && args[0] != "permission"@ && args[0] != "notify"@
            && args[0] != "install"@ ==> command_of(args) == Command::Unknown,
{
    reveal_strlit("--help");
    reveal_strlit("-h");
    reveal_strlit("help");
    reveal_strlit("opencode-permission");
    reveal_strlit("opencode-question");
    reveal_strlit("opencode-event");
    reveal_strlit("codex-notify");
    reveal_strlit("status");
    reveal_strlit("sessions");
    reveal_strlit("ask");
    reveal_strlit("permission");
    reveal_strlit("notify");
    reveal_strlit("install");
    assert("--help"@.len() == 6);
    assert("-h"@.len() == 2);
    assert("help"@.len() == 4);
    assert("opencode-permission"@.len() == 19);
    assert("opencode-question"@.len() == 17);
    assert("opencode-event"@.len() == 14);
    assert("codex-notify"@.len() == 12);
    assert("status"@.len() == 6);
    assert("sessions"@.len() == 8);
    assert("ask"@.len() == 3);
    assert("permission"@.len() == 10);
    assert("notify"@.len() == 6);
    assert("install"@.len() == 7);
    assert("--help"@[0] == '-');
    assert("status"@[0] == 's');
    assert("notify"@[0] == 'n');
}

proof fn lemma_place_is(args: Seq<Seq<char>>, a: Seq<char>)
    ensures
        place_of(args, a) < args.len() <==> args.contains(a),
        0 <= place_of(args, a) <= args.len(),
        place_of(args, a) < args.len() ==> args[place_of(args, a)] == a,
    decreases args.len(),
{
    if args.len() > 0 {
        if args[0] == a {
            assert(args.contains(a));
        } else {
            let rest = args.drop_first();
            lemma_place_is(rest, a);
            if args.contains(a) {
                let i = choose|i: int| 0 <= i < args.len() && args[i] == a;
                assert(rest[i - 1] == a);
            }
            if rest.contains(a) {
                let i = choose|i: int| 0 <= i < rest.len() && rest[i] == a;
                assert(args[i + 1] == a);
            }
        }
    }
}

/// An installation prints, cleans up and sets Codex's notification where it is told to.
pub proof fn law_installations_do_as_told(args: Seq<Seq<char>>)
    requires
        args.len() > 0,
        args[0] == "install"@,
    ensures
        command_of(args) matches Command::Install(print, clean, notify) && print == args.contains(
            "--print"@,
        ) && clean == args.contains("--clean"@) && notify == args.contains("--with-notify"@),
{
    reveal_strlit("--help");
    reveal_strlit("-h");
    reveal_strlit("help");
    reveal_strlit("install");
    assert("--help"@.len() == 6);
    assert("-h"@.len() == 2);
    assert("help"@.len() == 4);
    assert("install"@.len() == 7);
    lemma_place_is(args, "--print"@);
    lemma_place_is(args, "--clean"@);
    lemma_place_is(args, "--with-notify"@);
}

/// Only help and installations do without the gateway.
pub proof fn law_what_does_without_the_gateway(args: Seq<Seq<char>>)
    requires
        args.len() > 0,
    ensures
        args[0] == "help"@ || args[0] == "install"@ ==> command_of(args).is_local(),
        args[0] == "status"@ || args[0] == "ask"@ || args[0] == "permission"@ || args[0] == "notify"@
            || args[0] == "codex-notify"@ || args[0] == "opencode-permission"@
            ==> !command_of(args).is_local(),
{
    law_commands_are_known_by_their_names(args);
}

/// Without a source among the arguments there is none, and they stay as they are.
pub proof fn law_no_source_no_change(args: Seq<Seq<char>>)
    requires
        !args.contains("--source"@),
    ensures
        source_split(args) == (None::<Seq<char>>, args),
{
    lemma_place_is(args, "--source"@);
}

/// The members of what a notification says by hand.
proof fn lemma_notify_fields(args: Seq<Seq<char>>)
    ensures
        notify_of(args).field("title"@) == Some(
            JsonView::Str(option_or(args, "title"@, "番茄钟"@)),
        ),
        notify_of(args).field("message"@) == Some(
            JsonView::Str(option_or(args, "message"@, Seq::empty())),
        ),
        notify_of(args).field("sub"@) == Some(JsonView::Str(option_or(args, "sub"@, Seq::empty()))),
        notify_of(args).field("type"@) == Some(JsonView::Str(option_or(args, "type"@, "agent"@))),
{
    broadcast use crate::json::group_fields;

    reveal_strlit("title");
    reveal_strlit("message");
    reveal_strlit("sub");
    reveal_strlit("type");
    assert("title"@.len() == 5);
    assert("message"@.len() == 7);
    assert("sub"@.len() == 3);
    assert("type"@.len() == 4);
}

proof fn lemma_no_option(args: Seq<Seq<char>>, key: Seq<char>, n: int)
    requires
        0 <= n < args.len(),
        forall|i: int| 1 <= i < n ==> #[trigger] args[i] != "--"@ + key,
    ensures
        option_of(args, key, n) is None,
    decreases n,
{
    if n > 1 {
        lemma_no_option(args, key, n - 1);
        assert(args[n - 1] != "--"@ + key);
    }
}

/// A notification by hand says what its options say; without them it is the
/// program's own, from an agent, and says nothing.
pub proof fn law_notifications_by_hand(args: Seq<Seq<char>>, said: Seq<char>)
    requires
        args.len() > 0,
    ensures
        option_of(args, "title"@, args.len() - 1) == Some(said) ==> notify_of(args).field("title"@)
            == Some(JsonView::Str(said)),
        option_of(args, "message"@, args.len() - 1) == Some(said) ==> notify_of(args).field(
            "message"@,
        ) == Some(JsonView::Str(said)),
        option_of(args, "sub"@, args.len() - 1) == Some(said) ==> notify_of(args).field("sub"@)
            == Some(JsonView::Str(said)),
        option_of(args, "type"@, args.len() - 1) == Some(said) ==> notify_of(args).field("type"@)
            == Some(JsonView::Str(said)),
        !args.contains("--title"@) ==> notify_of(args).field("title"@) == Some(
            JsonView::Str("番茄钟"@),
        ),
        !args.contains("--type"@) ==> notify_of(args).field("type"@) == Some(
            JsonView::Str("agent"@),
        ),
{
    lemma_notify_fields(args);
    reveal_strlit("--");
    reveal_strlit("title");
    reveal_strlit("--title");
    reveal_strlit("type");
    reveal_strlit("--type");
    assert("--"@ + "title"@ =~= "--title"@);
    assert("--"@ + "type"@ =~= "--type"@);
    if !args.contains("--title"@) {
        lemma_no_option(args, "title"@, args.len() - 1);
    }
    if !args.contains("--type"@) {
        lemma_no_option(args, "type"@, args.len() - 1);
    }
}

/// An option's value is what follows it.
pub proof fn law_options_have_the_value_that_follows(
    args: Seq<Seq<char>>,
    key: Seq<char>,
    n: int,
    value: Seq<char>,
)
    requires
        option_of(args, key, n) == Some(value),
    ensures
        exists|i: int|
            #![trigger args[i]]
            1 <= i < args.len() - 1 && args[i] == "--"@ + key && args[i + 1] == value,
    decreases n,
{
    if args[n - 1] == "--"@ + key && n < args.len() {
        assert(args[n - 1] == "--"@ + key && args[(n - 1) + 1] == value);
    } else {
        law_options_have_the_value_that_follows(args, key, n - 1, value);
    }
}

/// The row of a session says what is remembered of it.
pub proof fn law_sessions_are_listed_as_remembered(s: JsonView, x: Seq<char>)
    requires
        x.len() > 0,
    ensures
        s.field("sessionId"@) == Some(JsonView::Str(x)) ==> session_row(s).field("session"@) == Some(
            JsonView::Str(text::short_id(x)),
        ),
        s.field("source"@) == Some(JsonView::Str(x)) ==> session_row(s).field("source"@) == Some(
            JsonView::Str(x),
        ),
        s.field("project"@) == Some(JsonView::Str(x)) ==> session_row(s).field("project"@) == Some(
            JsonView::Str(x),
        ),
        s.field("project"@) is None && s.field("cwd"@) == Some(JsonView::Str(x)) ==> session_row(
            s,
        ).field("project"@) == Some(JsonView::Str(text::base_of(x))),
        s.field("task"@) == Some(JsonView::Str(x)) ==> session_row(s).field("task"@) == Some(
            JsonView::Str(x),
        ),
        s.field("lastTool"@) == Some(JsonView::Str(x)) ==> session_row(s).field("lastTool"@) == Some(
            JsonView::Str(x),
        ),
        s.field("lastToolDetail"@) == Some(JsonView::Str(x)) ==> session_row(s).field(
            "lastToolDetail"@,
        ) == Some(JsonView::Str(x)),
        s.field("agentType"@) == Some(JsonView::Str(x)) ==> session_row(s).field("agentType"@)
            == Some(JsonView::Str(x)),
        s.i64_field("at"@) matches Some(n) ==> session_row(s).field("since"@) == Some(
            JsonView::Str(time::iso_text(n)),
        ),
{
    broadcast use crate::json::group_fields;

    let v = JsonView::Str(x);
    if s.field("sessionId"@) == Some(v) {
        json::lemma_picked(s, "sessionId", v);
    }
    if s.field("source"@) == Some(v) {
        json::lemma_picked(s, "source", v);
    }
    if s.field("project"@) == Some(v) {
        json::lemma_picked(s, "project", v);
    }
    if s.field("project"@) is None {
        json::lemma_unpicked(s, "project");
    }
    if s.field("cwd"@) == Some(v) {
        json::lemma_picked(s, "cwd", v);
    }
    if s.field("task"@) == Some(v) {
        json::lemma_picked(s, "task", v);
    }
    if s.field("lastTool"@) == Some(v) {
        json::lemma_picked(s, "lastTool", v);
    }
    if s.field("lastToolDetail"@) == Some(v) {
        json::lemma_picked(s, "lastToolDetail", v);
    }
    if s.field("agentType"@) == Some(v) {
        json::lemma_picked(s, "agentType", v);
    }
    reveal_strlit("session");
    reveal_strlit("source");
    reveal_strlit("project");
    reveal_strlit("task");
    reveal_strlit("lastTool");
    reveal_strlit("lastToolDetail");
    reveal_strlit("agentType");
    reveal_strlit("since");
    assert("session"@.len() == 7);
    assert("source"@.len() == 6);
    assert("project"@.len() == 7);
    assert("task"@.len() == 4);
    assert("lastTool"@.len() == 8);
    assert("lastToolDetail"@.len() == 14);
    assert("agentType"@.len() == 9);
    assert("since"@.len() == 5);
    assert("session"@[0] == 's');
    assert("project"@[0] == 'p');
}

} // verus!
