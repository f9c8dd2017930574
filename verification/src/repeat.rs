//! Installing over an earlier installation.
use vstd::prelude::*;

use crate::install::{self, Host};
use crate::json::{self, JsonView, Members};
use crate::lead;
use crate::proto::{HOST_WAIT_MS, HOST_WAIT_SEC};
use crate::text;

verus! {

// ---------------------------------------------------------------------------
// What identifies an entry
// ---------------------------------------------------------------------------

/// A text that is one word.
pub open spec fn word(s: Seq<char>) -> bool {
    s.len() > 0 && forall|i: int| 0 <= i < s.len() ==> !install::blank(#[trigger] s[i])
}

proof fn lemma_run_stops(s: Seq<char>, i: int, blanks: bool, end: int)
    requires
        0 <= i <= end < s.len(),
        install::blank(s[end]) != blanks,
    ensures
        0 <= install::run_of(s, i, blanks) <= end - i,
    decreases end - i,
{
    if i < end && install::blank(s[i]) == blanks {
        lemma_run_stops(s, i + 1, blanks, end);
    }
}

proof fn lemma_run_is(s: Seq<char>, i: int, blanks: bool, end: int)
    requires
        0 <= i <= end < s.len(),
        install::blank(s[end]) != blanks,
        forall|k: int| i <= k < end ==> install::blank(#[trigger] s[k]) == blanks,
    ensures
        install::run_of(s, i, blanks) == end - i,
    decreases end - i,
{
    if i < end {
        lemma_run_is(s, i + 1, blanks, end);
    }
}

proof fn lemma_run_agrees(s: Seq<char>, t: Seq<char>, i: int, blanks: bool, end: int)
    requires
        0 <= i <= end < s.len(),
        end < t.len(),
        forall|k: int| 0 <= k <= end ==> #[trigger] s[k] == t[k],
        install::blank(s[end]) != blanks,
    ensures
        install::run_of(s, i, blanks) == install::run_of(t, i, blanks),
    decreases end - i,
{
    if i < end && install::blank(s[i]) == blanks {
        lemma_run_agrees(s, t, i + 1, blanks, end);
    }
}

/// Before a quotation mark and a blank, a flag is the same whatever follows, and
/// ends before the blank.
proof fn lemma_flag_agrees(s: Seq<char>, t: Seq<char>, i: int, p: int)
    requires
        0 <= i < p,
        2 <= p <= s.len(),
        p <= t.len(),
        forall|k: int| 0 <= k < p ==> #[trigger] s[k] == t[k],
        s[p - 2] == '"',
        s[p - 1] == ' ',
    ensures
        install::source_flag(s, i) == install::source_flag(t, i),
        0 <= install::source_flag(s, i) < p - i,
{
    reveal_strlit("--source");
    let flag = "--source"@;
    assert(flag.len() == 8);
    if i + 8 <= p {
        assert(s.subrange(i, i + 8) =~= t.subrange(i, i + 8));
        if text::occurs_at(s, flag, i) {
            if i + 8 == p {
                assert(s.subrange(i, i + 8)[7] == ' ');
            }
            if i + 8 == p - 1 {
                assert(s.subrange(i, i + 8)[7] == '"');
            }
            lemma_run_stops(s, i + 8, true, p - 2);
            lemma_run_agrees(s, t, i + 8, true, p - 2);
            let b = install::run_of(s, i + 8, true);
            lemma_run_stops(s, i + 8 + b, false, p - 1);
            lemma_run_agrees(s, t, i + 8 + b, false, p - 1);
        }
    } else {
        if text::occurs_at(s, flag, i) {
            assert(s.subrange(i, i + 8)[p - 1 - i] == ' ');
        }
        if text::occurs_at(t, flag, i) {
            assert(t.subrange(i, i + 8)[p - 1 - i] == t[p - 1]);
            assert(t[p - 1] == s[p - 1]);
        }
    }
}

proof fn lemma_stripped_agrees(s: Seq<char>, t: Seq<char>, i: int, p: int)
    requires
        0 <= i <= p,
        2 <= p <= s.len(),
        p <= t.len(),
        forall|k: int| 0 <= k < p ==> #[trigger] s[k] == t[k],
        s[p - 2] == '"',
        s[p - 1] == ' ',
        install::stripped_from(s, p) == install::stripped_from(t, p),
    ensures
        install::stripped_from(s, i) == install::stripped_from(t, i),
    decreases p - i,
{
    if i < p {
        lemma_flag_agrees(s, t, i, p);
        if install::source_flag(s, i) > 0 {
            lemma_stripped_agrees(s, t, i + install::source_flag(s, i), p);
        } else {
            lemma_stripped_agrees(s, t, i + 1, p);
        }
    }
}

/// The command line of a hook, up to its source flag.
spec fn before_flag(own: Seq<char>) -> Seq<char> {
    "\""@ + own + "\" "@
}

proof fn lemma_flag_is_taken(own: Seq<char>, source: Seq<char>)
    requires
        word(source),
    ensures
        ({
            let line = install::shell_command(own, source) + " "@;
            let p = before_flag(own).len() as int;
            &&& p >= 2
            &&& p <= line.len()
            &&& line.take(p) == before_flag(own)
            &&& line[p - 2] == '"'
            &&& line[p - 1] == ' '
            &&& install::stripped_from(line, p) == seq![' ']
        }),
{
    reveal_strlit("--source");
    reveal_strlit("\"");
    reveal_strlit("\" ");
    reveal_strlit(" ");
    reveal_strlit("\" --source ");
    let line = install::shell_command(own, source) + " "@;
    let p = before_flag(own).len() as int;
    let n = source.len() as int;
    assert(line =~= before_flag(own) + "--source"@ + " "@ + source + " "@);
    assert(line.take(p) =~= before_flag(own));
    assert(line[p - 2] == '"');
    assert(line[p - 1] == ' ');
    assert(line.subrange(p, p + 8) =~= "--source"@);
    assert(line[p + 8] == ' ');
    assert(install::blank(' '));
    assert(line[p + 9] == source[0]);
    lemma_run_is(line, p + 8, true, p + 9);
    assert forall|k: int| p + 9 <= k < p + 9 + n implies !install::blank(#[trigger] line[k]) by {
        assert(line[k] == source[k - p - 9]);
    }
    assert(line[p + 9 + n] == ' ');
    lemma_run_is(line, p + 9, false, p + 9 + n);
    assert(install::source_flag(line, p) == 9 + n);
    let end = p + 9 + n;
    assert(line.len() == end + 1);
    assert(install::source_flag(line, end) == 0);
    assert(install::stripped_from(line, end + 1) =~= Seq::empty());
    assert(install::stripped_from(line, end) =~= seq![' ']);
}

/// What a hook's command is identified by does not depend on its source.
proof fn lemma_stripped_line(own: Seq<char>, first: Seq<char>, second: Seq<char>)
    requires
        word(first),
        word(second),
    ensures
        install::stripped(install::shell_command(own, first) + " "@) == install::stripped(
            install::shell_command(own, second) + " "@,
        ),
{
    lemma_flag_is_taken(own, first);
    lemma_flag_is_taken(own, second);
    let s = install::shell_command(own, first) + " "@;
    let t = install::shell_command(own, second) + " "@;
    let p = before_flag(own).len() as int;
    assert forall|k: int| 0 <= k < p implies #[trigger] s[k] == t[k] by {
        assert(s[k] == s.take(p)[k]);
        assert(t[k] == t.take(p)[k]);
    }
    lemma_stripped_agrees(s, t, 0, p);
}

/// The commands of an entry with one hook.
proof fn lemma_one_command(entry: JsonView, h: JsonView, line: Seq<char>)
    requires
        entry.field("hooks"@) == Some(JsonView::Arr(seq![h])),
        h.field("command"@) == Some(JsonView::Str(line)),
        h.field("args"@) is None,
        line.len() > 0,
    ensures
        install::commands_of(entry) == line + " "@,
{
    let hooks = entry.items("hooks"@);
    let lines = hooks.map_values(|x: JsonView| install::command_line(x));
    assert(lines.len() == 1);
    assert(lines[0] == install::command_line(h));
    let args = h.items("args"@).map_values(|x: JsonView| x.lossy());
    assert(args.len() == 0);
    assert(h.pick(seq!["command"]) == Some(JsonView::Str(line)));
    assert(text::joined(args, " "@) =~= Seq::empty());
    assert(line + " "@ + Seq::<char>::empty() =~= line + " "@);
}

proof fn lemma_command_fields(own: Seq<char>, source: Seq<char>)
    ensures
        ({
            let h = install::command_of(own, source);
            &&& h.field("command"@) == Some(JsonView::Str(install::shell_command(own, source)))
            &&& h.field("args"@) is None
            &&& install::shell_command(own, source).len() > 0
        }),
{
    broadcast use crate::json::group_fields;

    reveal_strlit("type");
    reveal_strlit("command");
    reveal_strlit("args");
    reveal_strlit("\"");
    assert("type"@.len() == 4 && "command"@.len() == 7 && "args"@.len() == 4);
    assert("type"@[0] == 't' && "args"@[0] == 'a');
}

/// An entry is identified by the program that it runs: neither the source that
/// is handed over, nor the tools that the entry matches, nor the time that the
/// host grants make it another.
pub proof fn law_the_program_identifies_its_entries(
    own: Seq<char>,
    first: Seq<char>,
    second: Seq<char>,
    matcher: Seq<char>,
    seconds: int,
)
    requires
        word(first),
        word(second),
    ensures
        ({
            let h = install::command_of(own, first);
            let fp = install::fingerprint(install::plain_entry(install::command_of(own, second)));
            &&& install::fingerprint(install::plain_entry(h)) == fp
            &&& install::fingerprint(install::matched_entry(matcher, h)) == fp
            &&& install::fingerprint(install::plain_entry(install::timed(h, seconds))) == fp
            &&& install::fingerprint(
                install::matched_entry(matcher, install::timed(h, seconds)),
            ) == fp
        }),
{
    broadcast use crate::json::group_fields;

    let h = install::command_of(own, first);
    let g = install::command_of(own, second);
    let long = install::timed(h, seconds);
    let line = install::shell_command(own, first);
    lemma_command_fields(own, first);
    lemma_command_fields(own, second);
    lemma_stripped_line(own, first, second);
    reveal_strlit("hooks");
    reveal_strlit("matcher");
    reveal_strlit("timeout");
    reveal_strlit("command");
    reveal_strlit("args");
    assert("hooks"@.len() == 5 && "matcher"@.len() == 7);
    assert("timeout"@[0] == 't' && "command"@[0] == 'c' && "args"@.len() == 4);
    assert("timeout"@.len() == 7);
    lemma_one_command(install::plain_entry(g), g, install::shell_command(own, second));
    lemma_one_command(install::plain_entry(h), h, line);
    lemma_one_command(install::matched_entry(matcher, h), h, line);
    lemma_one_command(install::plain_entry(long), long, line);
    lemma_one_command(install::matched_entry(matcher, long), long, line);
}

// ---------------------------------------------------------------------------
// Entries of many events
// ---------------------------------------------------------------------------

/// Entries with the events that they go to.
pub type Steps = Seq<(Seq<char>, JsonView)>;

/// Whether every event occurs once.
pub open spec fn events_differ(steps: Steps) -> bool {
    forall|i: int, j: int|
        0 <= i < j < steps.len() ==> (#[trigger] steps[i]).0 != (#[trigger] steps[j]).0
}

/// The hooks after the first `n` entries are added.
pub open spec fn pushed_upto(
    hooks: Members,
    steps: Steps,
    own: Seq<char>,
    clean: bool,
    n: int,
) -> Members
    decreases n,
{
    if n <= 0 {
        hooks
    } else {
        install::pushed(
            pushed_upto(hooks, steps, own, clean, n - 1),
            steps[n - 1].0,
            steps[n - 1].1,
            own,
            clean,
        )
    }
}

proof fn lemma_put_same(m: Members, k: Seq<char>, v: JsonView)
    requires
        json::lookup(m, k) == Some(v),
    ensures
        json::put(m, k, v) == m,
{
    json::lemma_position(m, k);
    assert(json::put(m, k, v) =~= m);
}

proof fn lemma_upto_spares(
    hooks: Members,
    steps: Steps,
    own: Seq<char>,
    clean: bool,
    n: int,
    event: Seq<char>,
)
    requires
        0 <= n <= steps.len(),
        forall|i: int| 0 <= i < n ==> (#[trigger] steps[i]).0 != event,
    ensures
        json::lookup(pushed_upto(hooks, steps, own, clean, n), event) == json::lookup(
            hooks,
            event,
        ),
    decreases n,
{
    if n > 0 {
        lemma_upto_spares(hooks, steps, own, clean, n - 1, event);
        let m = pushed_upto(hooks, steps, own, clean, n - 1);
        let list = install::added(
            install::entries_of(m, steps[n - 1].0),
            steps[n - 1].1,
            own,
            clean,
        );
        json::law_put_then_lookup(m, steps[n - 1].0, JsonView::Arr(list), event);
    }
}

proof fn lemma_upto_has(
    hooks: Members,
    steps: Steps,
    own: Seq<char>,
    clean: bool,
    n: int,
    k: int,
)
    requires
        0 <= k < n <= steps.len(),
        events_differ(steps),
    ensures
        json::lookup(pushed_upto(hooks, steps, own, clean, n), steps[k].0) == Some(
            JsonView::Arr(
                install::added(
                    install::entries_of(hooks, steps[k].0),
                    steps[k].1,
                    own,
                    clean,
                ),
            ),
        ),
    decreases n,
{
    let m = pushed_upto(hooks, steps, own, clean, n - 1);
    let list = install::added(install::entries_of(m, steps[n - 1].0), steps[n - 1].1, own, clean);
    json::law_put_then_lookup(m, steps[n - 1].0, JsonView::Arr(list), steps[k].0);
    if k == n - 1 {
        lemma_upto_spares(hooks, steps, own, clean, n - 1, steps[k].0);
    } else {
        lemma_upto_has(hooks, steps, own, clean, n - 1, k);
    }
}

/// Whether cleaning spares an entry of this fingerprint.
pub open spec fn spared(fp: Seq<char>, own: Seq<char>) -> bool {
    !install::own_kind(fp) || text::contains(fp, own)
}

proof fn lemma_pushing_again(
    hooks: Members,
    steps: Steps,
    own: Seq<char>,
    clean: bool,
    n: int,
)
    requires
        0 <= n <= steps.len(),
        events_differ(steps),
        forall|i: int|
            0 <= i < steps.len() && clean ==> spared(
                install::fingerprint((#[trigger] steps[i]).1),
                own,
            ),
    ensures
        ({
            let m = pushed_upto(hooks, steps, own, clean, steps.len() as int);
            pushed_upto(m, steps, own, clean, n) == m
        }),
    decreases n,
{
    if n > 0 {
        let m = pushed_upto(hooks, steps, own, clean, steps.len() as int);
        lemma_pushing_again(hooks, steps, own, clean, n - 1);
        let event = steps[n - 1].0;
        let entry = steps[n - 1].1;
        lemma_upto_has(hooks, steps, own, clean, steps.len() as int, n - 1);
        let once = install::added(install::entries_of(hooks, event), entry, own, clean);
        install::lemma_added_again(install::entries_of(hooks, event), entry, own, clean);
        assert(install::entries_of(m, event) == once);
        lemma_put_same(m, event, JsonView::Arr(once));
    }
}

/// The hooks after the first `n` bare entries are added.
pub open spec fn added_upto(hooks: Members, steps: Steps, n: int) -> Members
    decreases n,
{
    if n <= 0 {
        hooks
    } else {
        install::added_once(added_upto(hooks, steps, n - 1), steps[n - 1].0, steps[n - 1].1)
    }
}

/// Whether an event takes no further bare entry of this program's.
spec fn settled(hooks: Members, event: Seq<char>) -> bool {
    match json::lookup(hooks, event) {
        None => false,
        Some(JsonView::Arr(list)) => install::has_own_command(list),
        Some(_) => true,
    }
}

/// Whether a bare entry is recognised as this program's.
pub open spec fn recognised(entry: JsonView) -> bool {
    install::own_kind(entry.pick_text(seq!["command"]))
}

proof fn lemma_added_settles(hooks: Members, event: Seq<char>, entry: JsonView, other: Seq<char>)
    requires
        recognised(entry),
    ensures
        settled(install::added_once(hooks, event, entry), event),
        settled(hooks, other) ==> settled(install::added_once(hooks, event, entry), other),
        settled(hooks, event) ==> install::added_once(hooks, event, entry) == hooks,
{
    let old_list = match json::lookup(hooks, event) {
        Some(JsonView::Arr(list)) => list,
        _ => Seq::empty(),
    };
    let list = old_list.push(entry);
    assert(list[list.len() - 1] == entry);
    assert(install::has_own_command(list));
    assert(Seq::<JsonView>::empty().push(entry) =~= seq![entry]);
    json::law_put_then_lookup(hooks, event, JsonView::Arr(list), event);
    json::law_put_then_lookup(hooks, event, JsonView::Arr(list), other);
}

proof fn lemma_added_settle(hooks: Members, steps: Steps, n: int, k: int)
    requires
        0 <= k < n <= steps.len(),
        forall|i: int| 0 <= i < steps.len() ==> recognised((#[trigger] steps[i]).1),
    ensures
        settled(added_upto(hooks, steps, n), steps[k].0),
    decreases n,
{
    let m = added_upto(hooks, steps, n - 1);
    lemma_added_settles(m, steps[n - 1].0, steps[n - 1].1, steps[k].0);
    if k < n - 1 {
        lemma_added_settle(hooks, steps, n - 1, k);
    }
}

proof fn lemma_adding_again(hooks: Members, steps: Steps, n: int)
    requires
        0 <= n <= steps.len(),
        forall|i: int| 0 <= i < steps.len() ==> recognised((#[trigger] steps[i]).1),
    ensures
        ({
            let m = added_upto(hooks, steps, steps.len() as int);
            added_upto(m, steps, n) == m
        }),
    decreases n,
{
    if n > 0 {
        let m = added_upto(hooks, steps, steps.len() as int);
        lemma_adding_again(hooks, steps, n - 1);
        lemma_added_settle(hooks, steps, steps.len() as int, n - 1);
        lemma_added_settles(m, steps[n - 1].0, steps[n - 1].1, steps[n - 1].0);
    }
}

// ---------------------------------------------------------------------------
// Whole configurations
// ---------------------------------------------------------------------------

/// The entries of the lead host and its kin.
pub open spec fn ancli_steps(own: Seq<char>, source: Seq<char>) -> Steps {
    let h = install::command_of(own, source);
    let long = install::timed(h, HOST_WAIT_SEC as int);
    seq![
        ("Notification"@, install::plain_entry(h)),
        ("PermissionRequest"@, install::matched_entry("*"@, long)),
        ("PreToolUse"@, install::matched_entry("AskUserQuestion|askQuestions|askQuestion"@, long)),
        ("UserPromptSubmit"@, install::plain_entry(h)),
        ("Stop"@, install::plain_entry(h)),
        ("SubagentStop"@, install::plain_entry(h)),
        ("PostToolUse"@, install::matched_entry("*"@, h)),
    ]
}

/// The entries of Trae.
pub open spec fn trae_steps(own: Seq<char>) -> Steps {
    let h = install::command_of(own, "trae"@);
    let long = install::timed(h, HOST_WAIT_SEC as int);
    let short = install::timed(h, 30);
    seq![
        ("PreToolUse"@, install::matched_entry("AskUserQuestion"@, long)),
        ("Notification"@, install::plain_entry(short)),
        ("Stop"@, install::plain_entry(short)),
        ("SessionStart"@, install::plain_entry(short)),
        ("UserPromptSubmit"@, install::plain_entry(short)),
        ("PostToolUse"@, install::matched_entry("*"@, short)),
    ]
}

/// The entries of Codex.
pub open spec fn codex_steps(own: Seq<char>) -> Steps {
    let h = install::command_of(own, "codex"@);
    let long = install::timed(h, HOST_WAIT_SEC as int);
    let short = install::timed(h, 30);
    let tools = install::matched_entry("Bash|apply_patch|Edit|Write|mcp__.*"@, short);
    seq![
        ("PermissionRequest"@, install::plain_entry(long)),
        ("PreToolUse"@, tools),
        ("PostToolUse"@, tools),
        ("UserPromptSubmit"@, install::plain_entry(short)),
        ("Stop"@, install::plain_entry(short)),
        ("SubagentStart"@, install::plain_entry(short)),
        ("SubagentStop"@, install::plain_entry(short)),
        ("SessionStart"@, install::plain_entry(short)),
        ("SessionEnd"@, install::plain_entry(short)),
        ("PreCompact"@, install::plain_entry(short)),
        ("PostCompact"@, install::plain_entry(short)),
        ("Interrupt"@, install::plain_entry(short)),
    ]
}

/// The entries of ZCode.
pub open spec fn zcode_steps(own: Seq<char>) -> Steps {
    let h = install::command_of(own, "zcode"@);
    let long = h.set("timeoutMs"@, JsonView::Int(HOST_WAIT_MS as int));
    seq![
        ("PermissionRequest"@, install::matched_entry("*"@, long)),
        ("PreToolUse"@, install::matched_entry("AskUserQuestion"@, long)),
        ("Stop"@, install::plain_entry(h)),
        ("PostToolUse"@, install::matched_entry("*"@, h)),
        ("PostToolUseFailure"@, install::matched_entry("*"@, h)),
    ]
}

/// The bare entries of VS Code.
pub open spec fn vscode_steps(own: Seq<char>) -> Steps {
    let short = install::vscode_entry(own, 30);
    seq![
        ("PreToolUse"@, install::vscode_entry(own, HOST_WAIT_SEC as int)),
        ("PostToolUse"@, short),
        ("SessionStart"@, short),
        ("UserPromptSubmit"@, short),
        ("SubagentStart"@, short),
        ("SubagentStop"@, short),
        ("PreCompact"@, short),
        ("Stop"@, short),
    ]
}

/// The bare entries of Cursor.
pub open spec fn cursor_steps(own: Seq<char>) -> Steps {
    let bare = install::cursor_entry(own);
    let long = bare.with("timeout"@, JsonView::Int(HOST_WAIT_SEC as int));
    seq![
        ("beforeShellExecution"@, long),
        ("preToolUse"@, long),
        ("beforeMCPExecution"@, long),
        ("beforeSubmitPrompt"@, bare),
        ("afterFileEdit"@, bare),
        ("afterShellExecution"@, bare),
        ("afterAgentResponse"@, bare),
        ("stop"@, bare),
    ]
}

proof fn lemma_ancli_events_differ(own: Seq<char>, source: Seq<char>)
    ensures
        events_differ(ancli_steps(own, source)),
{
    reveal_strlit("Notification");
    reveal_strlit("PermissionRequest");
    reveal_strlit("PreToolUse");
    reveal_strlit("UserPromptSubmit");
    reveal_strlit("Stop");
    reveal_strlit("SubagentStop");
    reveal_strlit("PostToolUse");
    assert("Notification"@.len() == 12);
    assert("PermissionRequest"@.len() == 17);
    assert("PreToolUse"@.len() == 10);
    assert("UserPromptSubmit"@.len() == 16);
    assert("Stop"@.len() == 4);
    assert("SubagentStop"@.len() == 12);
    assert("PostToolUse"@.len() == 11);
    assert("Notification"@[0] == 'N');
    assert("SubagentStop"@[0] == 'S');
}

proof fn lemma_trae_events_differ(own: Seq<char>)
    ensures
        events_differ(trae_steps(own)),
{
    reveal_strlit("PreToolUse");
    reveal_strlit("Notification");
    reveal_strlit("Stop");
    reveal_strlit("SessionStart");
    reveal_strlit("UserPromptSubmit");
    reveal_strlit("PostToolUse");
    assert("PreToolUse"@.len() == 10);
    assert("Notification"@.len() == 12);
    assert("Stop"@.len() == 4);
    assert("SessionStart"@.len() == 12);
    assert("UserPromptSubmit"@.len() == 16);
    assert("PostToolUse"@.len() == 11);
    assert("Notification"@[0] == 'N');
    assert("SessionStart"@[0] == 'S');
}

proof fn lemma_codex_events_differ(own: Seq<char>)
    ensures
        events_differ(codex_steps(own)),
{
    reveal_strlit("PermissionRequest");
    reveal_strlit("PreToolUse");
    reveal_strlit("PostToolUse");
    reveal_strlit("UserPromptSubmit");
    reveal_strlit("Stop");
    reveal_strlit("SubagentStart");
    reveal_strlit("SubagentStop");
    reveal_strlit("SessionStart");
    reveal_strlit("SessionEnd");
    reveal_strlit("PreCompact");
    reveal_strlit("PostCompact");
    reveal_strlit("Interrupt");
    assert("PermissionRequest"@.len() == 17);
    assert("PreToolUse"@.len() == 10);
    assert("PostToolUse"@.len() == 11);
    assert("UserPromptSubmit"@.len() == 16);
    assert("Stop"@.len() == 4);
    assert("SubagentStart"@.len() == 13);
    assert("SubagentStop"@.len() == 12);
    assert("SessionStart"@.len() == 12);
    assert("SessionEnd"@.len() == 10);
    assert("PreCompact"@.len() == 10);
    assert("PostCompact"@.len() == 11);
    assert("Interrupt"@.len() == 9);
    assert("PreToolUse"@[0] == 'P');
    assert("SessionEnd"@[0] == 'S');
    assert("PreToolUse"@[3] == 'T');
    assert("PreCompact"@[3] == 'C');
    assert("PostToolUse"@[4] == 'T');
    assert("PostCompact"@[4] == 'C');
    assert("SubagentStop"@[1] == 'u');
    assert("SessionStart"@[1] == 'e');
    assert("PreCompact"@[0] == 'P');
}

proof fn lemma_zcode_events_differ(own: Seq<char>)
    ensures
        events_differ(zcode_steps(own)),
{
    reveal_strlit("PermissionRequest");
    reveal_strlit("PreToolUse");
    reveal_strlit("Stop");
    reveal_strlit("PostToolUse");
    reveal_strlit("PostToolUseFailure");
    assert("PermissionRequest"@.len() == 17);
    assert("PreToolUse"@.len() == 10);
    assert("Stop"@.len() == 4);
    assert("PostToolUse"@.len() == 11);
    assert("PostToolUseFailure"@.len() == 18);
}

/// What identifies this program's entries.
pub open spec fn mark(own: Seq<char>) -> Seq<char> {
    install::fingerprint(install::plain_entry(install::command_of(own, "codex"@)))
}

/// A path as they mostly are: without quotation marks, without a source flag,
/// and without white space around it.
pub open spec fn ordinary(own: Seq<char>) -> bool {
    &&& own.len() > 0
    &&& !text::white(own[0])
    &&& !text::white(own.last())
    &&& forall|i: int| 0 <= i < own.len() ==> #[trigger] own[i] != '"' && own[i] != '\''
    &&& !text::contains(own, "--source"@)
}

proof fn lemma_nothing_stripped(line: Seq<char>, i: int, p: int)
    requires
        0 <= i <= p <= line.len(),
        forall|k: int| i <= k < p ==> #[trigger] install::source_flag(line, k) == 0,
    ensures
        install::stripped_from(line, i) == line.subrange(i, p) + install::stripped_from(line, p),
    decreases p - i,
{
    if i < p {
        lemma_nothing_stripped(line, i + 1, p);
        assert(install::source_flag(line, i) == 0);
        assert(line.subrange(i, p) =~= seq![line[i]] + line.subrange(i + 1, p));
        assert(seq![line[i]] + (line.subrange(i + 1, p) + install::stripped_from(line, p))
            =~= line.subrange(i, p) + install::stripped_from(line, p));
    } else {
        assert(line.subrange(p, p) + install::stripped_from(line, p) =~= install::stripped_from(
            line,
            p,
        ));
    }
}

proof fn lemma_unquoted_parts(a: Seq<char>, b: Seq<char>)
    ensures
        install::unquoted(a + b) == install::unquoted(a) + install::unquoted(b),
    decreases b.len(),
{
    if b.len() == 0 {
        assert(a + b =~= a);
        assert(install::unquoted(a) + b =~= install::unquoted(a));
    } else {
        assert((a + b).drop_last() =~= a + b.drop_last());
        lemma_unquoted_parts(a, b.drop_last());
        assert(install::unquoted(a + b) =~= install::unquoted(a) + install::unquoted(b));
    }
}

proof fn lemma_nothing_unquoted(s: Seq<char>)
    requires
        forall|i: int| 0 <= i < s.len() ==> #[trigger] s[i] != '"' && s[i] != '\'',
    ensures
        install::unquoted(s) == s,
    decreases s.len(),
{
    if s.len() > 0 {
        let head = s.drop_last();
        assert forall|i: int| 0 <= i < head.len() implies #[trigger] head[i] != '"' && head[i]
            != '\'' by {
            assert(head[i] == s[i]);
        }
        lemma_nothing_unquoted(head);
        assert(s.last() == s[s.len() - 1]);
        assert(head.push(s.last()) =~= s);
    }
}

/// An ordinary path is what identifies its entries.
pub proof fn law_an_ordinary_path_is_its_mark(own: Seq<char>)
    requires
        ordinary(own),
    ensures
        mark(own) == own,
        spared(mark(own), own),
{
    reveal_strlit("codex");
    reveal_strlit("hooks");
    reveal_strlit("--source");
    reveal_strlit("\"");
    reveal_strlit("\" ");
    let flag = "--source"@;
    let line = install::shell_command(own, "codex"@) + " "@;
    let p = before_flag(own).len() as int;
    lemma_flag_is_taken(own, "codex"@);
    assert forall|k: int| 0 <= k < p implies #[trigger] install::source_flag(line, k) == 0 by {
        if text::occurs_at(line, flag, k) {
            let here = line.subrange(k, k + 8);
            assert(line[0] == line.take(p)[0]);
            assert(here[0] == '-');
            if k + 8 > p - 2 {
                if k <= p - 2 {
                    assert(here[p - 2 - k] == '"');
                } else {
                    assert(here[p - 1 - k] == ' ');
                }
            } else {
                assert forall|j: int| 0 <= j < 8 implies own.subrange(k - 1, k + 7)[j]
                    == #[trigger] flag[j] by {
                    assert(here[j] == line.take(p)[k + j]);
                }
                assert(own.subrange(k - 1, k + 7) =~= flag);
                assert(text::occurs_at(own, flag, k - 1));
            }
        }
    }
    lemma_nothing_stripped(line, 0, p);
    assert(line.subrange(0, p) =~= before_flag(own));
    let left = before_flag(own) + seq![' '];
    assert(install::stripped(line) == left);
    let tail = seq![' ', ' '];
    assert(left =~= seq!['"'] + own + seq!['"'] + tail);
    lemma_unquoted_parts(seq!['"'] + own + seq!['"'], tail);
    lemma_unquoted_parts(seq!['"'] + own, seq!['"']);
    lemma_unquoted_parts(seq!['"'], own);
    lemma_nothing_unquoted(own);
    lemma_nothing_unquoted(tail);
    let quote = seq!['"'];
    assert(quote.last() == '"');
    assert(quote.drop_last() =~= Seq::empty());
    assert(install::unquoted(quote.drop_last()) =~= Seq::empty());
    assert(install::unquoted(quote) =~= Seq::empty());
    assert(install::unquoted(left) =~= own + tail);
    let t = own + tail;
    assert(text::trimmed_start(t) == t);
    assert(t.drop_last() =~= own + seq![' ']);
    assert(t.drop_last().drop_last() =~= own);
    assert(text::trimmed_end(t) == own) by {
        reveal_with_fuel(text::trimmed_end, 3);
    }
    broadcast use crate::json::group_fields;

    let h = install::command_of(own, "codex"@);
    lemma_command_fields(own, "codex"@);
    lemma_one_command(install::plain_entry(h), h, install::shell_command(own, "codex"@));
    assert(own.subrange(0, own.len() as int) =~= own);
    assert(text::occurs_at(own, own, 0));
}

proof fn lemma_entry_mark(own: Seq<char>, source: Seq<char>, h: JsonView, entry: JsonView)
    requires
        word(source),
        entry.field("hooks"@) == Some(JsonView::Arr(seq![h])),
        h.field("command"@) == Some(JsonView::Str(install::shell_command(own, source))),
        h.field("args"@) is None,
    ensures
        install::fingerprint(entry) == mark(own),
{
    broadcast use crate::json::group_fields;

    reveal_strlit("codex");
    reveal_strlit("hooks");
    let c = install::command_of(own, "codex"@);
    lemma_command_fields(own, source);
    lemma_command_fields(own, "codex"@);
    lemma_stripped_line(own, source, "codex"@);
    lemma_one_command(entry, h, install::shell_command(own, source));
    lemma_one_command(install::plain_entry(c), c, install::shell_command(own, "codex"@));
}

/// The hooks of an installation carry its mark.
proof fn lemma_marks(own: Seq<char>, source: Seq<char>, matcher: Seq<char>, key: Seq<char>, n: int)
    requires
        word(source),
        key == "timeout"@ || key == "timeoutMs"@,
    ensures
        ({
            let h = install::command_of(own, source);
            let long = h.set(key, JsonView::Int(n));
            &&& install::fingerprint(install::plain_entry(h)) == mark(own)
            &&& install::fingerprint(install::matched_entry(matcher, h)) == mark(own)
            &&& install::fingerprint(install::plain_entry(long)) == mark(own)
            &&& install::fingerprint(install::matched_entry(matcher, long)) == mark(own)
        }),
{
    broadcast use crate::json::group_fields;

    let h = install::command_of(own, source);
    let long = h.set(key, JsonView::Int(n));
    lemma_command_fields(own, source);
    reveal_strlit("hooks");
    reveal_strlit("matcher");
    reveal_strlit("timeout");
    reveal_strlit("timeoutMs");
    reveal_strlit("command");
    reveal_strlit("args");
    assert("hooks"@.len() == 5 && "matcher"@.len() == 7 && "args"@.len() == 4);
    assert("timeout"@[0] == 't' && "command"@[0] == 'c' && "timeoutMs"@.len() == 9);
    assert("timeout"@.len() == 7 && "command"@.len() == 7);
    lemma_entry_mark(own, source, h, install::plain_entry(h));
    lemma_entry_mark(own, source, h, install::matched_entry(matcher, h));
    lemma_entry_mark(own, source, long, install::plain_entry(long));
    lemma_entry_mark(own, source, long, install::matched_entry(matcher, long));
}

#[verifier::spinoff_prover]
#[verifier::rlimit(30)]
proof fn lemma_ancli_steps(hooks: Members, own: Seq<char>, clean: bool, source: Seq<char>)
    ensures
        install::ancli_hooks(hooks, own, clean, source) == pushed_upto(hooks, ancli_steps(own, source), own, clean, 7),
{
    let steps = ancli_steps(own, source);
    let m0 = pushed_upto(hooks, steps, own, clean, 0);
    let m1 = pushed_upto(hooks, steps, own, clean, 1);
    assert(m1 == install::pushed(m0, steps[0].0, steps[0].1, own, clean));
    let m2 = pushed_upto(hooks, steps, own, clean, 2);
    assert(m2 == install::pushed(m1, steps[1].0, steps[1].1, own, clean));
    let m3 = pushed_upto(hooks, steps, own, clean, 3);
    assert(m3 == install::pushed(m2, steps[2].0, steps[2].1, own, clean));
    let m4 = pushed_upto(hooks, steps, own, clean, 4);
    assert(m4 == install::pushed(m3, steps[3].0, steps[3].1, own, clean));
    let m5 = pushed_upto(hooks, steps, own, clean, 5);
    assert(m5 == install::pushed(m4, steps[4].0, steps[4].1, own, clean));
    let m6 = pushed_upto(hooks, steps, own, clean, 6);
    assert(m6 == install::pushed(m5, steps[5].0, steps[5].1, own, clean));
    let m7 = pushed_upto(hooks, steps, own, clean, 7);
    assert(m7 == install::pushed(m6, steps[6].0, steps[6].1, own, clean));
}

proof fn lemma_ancli_marked(own: Seq<char>, source: Seq<char>)
    requires
        word(source),
    ensures
        forall|i: int|
            0 <= i < ancli_steps(own, source).len() ==> install::fingerprint((#[trigger] ancli_steps(own, source)[i]).1) == mark(own),
{
    let steps = ancli_steps(own, source);
    lemma_marks(own, source, "*"@, "timeout"@, HOST_WAIT_SEC as int);
    lemma_marks(
        own,
        source,
        "AskUserQuestion|askQuestions|askQuestion"@,
        "timeout"@,
        HOST_WAIT_SEC as int,
    );
    assert forall|i: int| 0 <= i < steps.len() implies install::fingerprint(
        (#[trigger] steps[i]).1,
    ) == mark(own) by {
        assert(i == 0 || i == 1 || i == 2 || i == 3 || i == 4 || i == 5 || i == 6);
    }
}

proof fn lemma_ancli_spared(own: Seq<char>, source: Seq<char>)
    requires
        word(source),
        spared(mark(own), own),
    ensures
        forall|i: int|
            0 <= i < ancli_steps(own, source).len() ==> spared(
                install::fingerprint((#[trigger] ancli_steps(own, source)[i]).1),
                own,
            ),
{
    lemma_ancli_marked(own, source);
}

proof fn lemma_ancli_again(hooks: Members, own: Seq<char>, clean: bool, source: Seq<char>)
    requires
        word(source),
        clean ==> spared(mark(own), own),
    ensures
        ({
            let m = install::ancli_hooks(hooks, own, clean, source);
            install::ancli_hooks(m, own, clean, source) == m
        }),
{
    let steps = ancli_steps(own, source);
    let m = install::ancli_hooks(hooks, own, clean, source);
    if clean {
        lemma_ancli_spared(own, source);
    }
    lemma_ancli_events_differ(own, source);
    lemma_ancli_steps(hooks, own, clean, source);
    lemma_ancli_steps(m, own, clean, source);
    lemma_pushing_again(hooks, steps, own, clean, 7);
}

#[verifier::spinoff_prover]
#[verifier::rlimit(30)]
proof fn lemma_trae_steps(hooks: Members, own: Seq<char>, clean: bool)
    ensures
        install::trae_hooks(hooks, own, clean) == pushed_upto(hooks, trae_steps(own), own, clean, 6),
{
    let steps = trae_steps(own);
    let m0 = pushed_upto(hooks, steps, own, clean, 0);
    let m1 = pushed_upto(hooks, steps, own, clean, 1);
    assert(m1 == install::pushed(m0, steps[0].0, steps[0].1, own, clean));
    let m2 = pushed_upto(hooks, steps, own, clean, 2);
    assert(m2 == install::pushed(m1, steps[1].0, steps[1].1, own, clean));
    let m3 = pushed_upto(hooks, steps, own, clean, 3);
    assert(m3 == install::pushed(m2, steps[2].0, steps[2].1, own, clean));
    let m4 = pushed_upto(hooks, steps, own, clean, 4);
    assert(m4 == install::pushed(m3, steps[3].0, steps[3].1, own, clean));
    let m5 = pushed_upto(hooks, steps, own, clean, 5);
    assert(m5 == install::pushed(m4, steps[4].0, steps[4].1, own, clean));
    let m6 = pushed_upto(hooks, steps, own, clean, 6);
    assert(m6 == install::pushed(m5, steps[5].0, steps[5].1, own, clean));
}

proof fn lemma_trae_marked(own: Seq<char>)
    ensures
        forall|i: int|
            0 <= i < trae_steps(own).len() ==> install::fingerprint((#[trigger] trae_steps(own)[i]).1) == mark(own),
{
    let steps = trae_steps(own);
    reveal_strlit("trae");
    lemma_marks(own, "trae"@, "AskUserQuestion"@, "timeout"@, HOST_WAIT_SEC as int);
    lemma_marks(own, "trae"@, "*"@, "timeout"@, 30);
    assert forall|i: int| 0 <= i < steps.len() implies install::fingerprint(
        (#[trigger] steps[i]).1,
    ) == mark(own) by {
        assert(i == 0 || i == 1 || i == 2 || i == 3 || i == 4 || i == 5);
    }
}

proof fn lemma_trae_spared(own: Seq<char>)
    requires
        spared(mark(own), own),
    ensures
        forall|i: int|
            0 <= i < trae_steps(own).len() ==> spared(
                install::fingerprint((#[trigger] trae_steps(own)[i]).1),
                own,
            ),
{
    lemma_trae_marked(own);
}

proof fn lemma_trae_again(hooks: Members, own: Seq<char>, clean: bool)
    requires
        clean ==> spared(mark(own), own),
    ensures
        ({
            let m = install::trae_hooks(hooks, own, clean);
            install::trae_hooks(m, own, clean) == m
        }),
{
    let steps = trae_steps(own);
    let m = install::trae_hooks(hooks, own, clean);
    if clean {
        lemma_trae_spared(own);
    }
    lemma_trae_events_differ(own);
    lemma_trae_steps(hooks, own, clean);
    lemma_trae_steps(m, own, clean);
    lemma_pushing_again(hooks, steps, own, clean, 6);
}

#[verifier::spinoff_prover]
#[verifier::rlimit(30)]
proof fn lemma_codex_steps(hooks: Members, own: Seq<char>, clean: bool)
    ensures
        install::codex_hooks(hooks, own, clean) == pushed_upto(hooks, codex_steps(own), own, clean, 12),
{
    let steps = codex_steps(own);
    let m0 = pushed_upto(hooks, steps, own, clean, 0);
    let m1 = pushed_upto(hooks, steps, own, clean, 1);
    assert(m1 == install::pushed(m0, steps[0].0, steps[0].1, own, clean));
    let m2 = pushed_upto(hooks, steps, own, clean, 2);
    assert(m2 == install::pushed(m1, steps[1].0, steps[1].1, own, clean));
    let m3 = pushed_upto(hooks, steps, own, clean, 3);
    assert(m3 == install::pushed(m2, steps[2].0, steps[2].1, own, clean));
    let m4 = pushed_upto(hooks, steps, own, clean, 4);
    assert(m4 == install::pushed(m3, steps[3].0, steps[3].1, own, clean));
    let m5 = pushed_upto(hooks, steps, own, clean, 5);
    assert(m5 == install::pushed(m4, steps[4].0, steps[4].1, own, clean));
    let m6 = pushed_upto(hooks, steps, own, clean, 6);
    assert(m6 == install::pushed(m5, steps[5].0, steps[5].1, own, clean));
    let m7 = pushed_upto(hooks, steps, own, clean, 7);
    assert(m7 == install::pushed(m6, steps[6].0, steps[6].1, own, clean));
    let m8 = pushed_upto(hooks, steps, own, clean, 8);
    assert(m8 == install::pushed(m7, steps[7].0, steps[7].1, own, clean));
    let m9 = pushed_upto(hooks, steps, own, clean, 9);
    assert(m9 == install::pushed(m8, steps[8].0, steps[8].1, own, clean));
    let m10 = pushed_upto(hooks, steps, own, clean, 10);
    assert(m10 == install::pushed(m9, steps[9].0, steps[9].1, own, clean));
    let m11 = pushed_upto(hooks, steps, own, clean, 11);
    assert(m11 == install::pushed(m10, steps[10].0, steps[10].1, own, clean));
    let m12 = pushed_upto(hooks, steps, own, clean, 12);
    assert(m12 == install::pushed(m11, steps[11].0, steps[11].1, own, clean));
}

proof fn lemma_codex_marked(own: Seq<char>)
    ensures
        forall|i: int|
            0 <= i < codex_steps(own).len() ==> install::fingerprint((#[trigger] codex_steps(own)[i]).1) == mark(own),
{
    let steps = codex_steps(own);
    reveal_strlit("codex");
    lemma_marks(own, "codex"@, "*"@, "timeout"@, HOST_WAIT_SEC as int);
    lemma_marks(own, "codex"@, "Bash|apply_patch|Edit|Write|mcp__.*"@, "timeout"@, 30);
    assert forall|i: int| 0 <= i < steps.len() implies install::fingerprint(
        (#[trigger] steps[i]).1,
    ) == mark(own) by {
        assert(i == 0 || i == 1 || i == 2 || i == 3 || i == 4 || i == 5 || i == 6 || i == 7 || i == 8 || i == 9 || i == 10 || i == 11);
    }
}

proof fn lemma_codex_spared(own: Seq<char>)
    requires
        spared(mark(own), own),
    ensures
        forall|i: int|
            0 <= i < codex_steps(own).len() ==> spared(
                install::fingerprint((#[trigger] codex_steps(own)[i]).1),
                own,
            ),
{
    lemma_codex_marked(own);
}

proof fn lemma_codex_again(hooks: Members, own: Seq<char>, clean: bool)
    requires
        clean ==> spared(mark(own), own),
    ensures
        ({
            let m = install::codex_hooks(hooks, own, clean);
            install::codex_hooks(m, own, clean) == m
        }),
{
    let steps = codex_steps(own);
    let m = install::codex_hooks(hooks, own, clean);
    if clean {
        lemma_codex_spared(own);
    }
    lemma_codex_events_differ(own);
    lemma_codex_steps(hooks, own, clean);
    lemma_codex_steps(m, own, clean);
    lemma_pushing_again(hooks, steps, own, clean, 12);
}

#[verifier::spinoff_prover]
#[verifier::rlimit(30)]
proof fn lemma_zcode_steps(hooks: Members, own: Seq<char>, clean: bool)
    ensures
        install::zcode_events(hooks, own, clean) == pushed_upto(hooks, zcode_steps(own), own, clean, 5),
{
    let steps = zcode_steps(own);
    let m0 = pushed_upto(hooks, steps, own, clean, 0);
    let m1 = pushed_upto(hooks, steps, own, clean, 1);
    assert(m1 == install::pushed(m0, steps[0].0, steps[0].1, own, clean));
    let m2 = pushed_upto(hooks, steps, own, clean, 2);
    assert(m2 == install::pushed(m1, steps[1].0, steps[1].1, own, clean));
    let m3 = pushed_upto(hooks, steps, own, clean, 3);
    assert(m3 == install::pushed(m2, steps[2].0, steps[2].1, own, clean));
    let m4 = pushed_upto(hooks, steps, own, clean, 4);
    assert(m4 == install::pushed(m3, steps[3].0, steps[3].1, own, clean));
    let m5 = pushed_upto(hooks, steps, own, clean, 5);
    assert(m5 == install::pushed(m4, steps[4].0, steps[4].1, own, clean));
}

proof fn lemma_zcode_marked(own: Seq<char>)
    ensures
        forall|i: int|
            0 <= i < zcode_steps(own).len() ==> install::fingerprint((#[trigger] zcode_steps(own)[i]).1) == mark(own),
{
    let steps = zcode_steps(own);
    reveal_strlit("zcode");
    lemma_marks(own, "zcode"@, "*"@, "timeoutMs"@, HOST_WAIT_MS as int);
    lemma_marks(own, "zcode"@, "AskUserQuestion"@, "timeoutMs"@, HOST_WAIT_MS as int);
    assert forall|i: int| 0 <= i < steps.len() implies install::fingerprint(
        (#[trigger] steps[i]).1,
    ) == mark(own) by {
        assert(i == 0 || i == 1 || i == 2 || i == 3 || i == 4);
    }
}

proof fn lemma_zcode_spared(own: Seq<char>)
    requires
        spared(mark(own), own),
    ensures
        forall|i: int|
            0 <= i < zcode_steps(own).len() ==> spared(
                install::fingerprint((#[trigger] zcode_steps(own)[i]).1),
                own,
            ),
{
    lemma_zcode_marked(own);
}

proof fn lemma_zcode_events_again(hooks: Members, own: Seq<char>, clean: bool)
    requires
        clean ==> spared(mark(own), own),
    ensures
        ({
            let m = install::zcode_events(hooks, own, clean);
            install::zcode_events(m, own, clean) == m
        }),
{
    let steps = zcode_steps(own);
    let m = install::zcode_events(hooks, own, clean);
    if clean {
        lemma_zcode_spared(own);
    }
    lemma_zcode_events_differ(own);
    lemma_zcode_steps(hooks, own, clean);
    lemma_zcode_steps(m, own, clean);
    lemma_pushing_again(hooks, steps, own, clean, 5);
}

proof fn lemma_defaulted(m: Members, k: Seq<char>, v: JsonView, other: Seq<char>)
    requires
        v.truthy(),
    ensures
        ({
            let d = install::defaulted(m, k, v);
            &&& json::lookup(d, k) matches Some(x) && x.truthy()
            &&& other != k ==> json::lookup(d, other) == json::lookup(m, other)
        }),
{
    json::law_put_then_lookup(m, k, v, other);
}

proof fn lemma_zcode_again(hooks: Members, own: Seq<char>, clean: bool)
    requires
        clean ==> spared(mark(own), own),
    ensures
        ({
            let m = install::zcode_hooks(hooks, own, clean);
            install::zcode_hooks(m, own, clean) == m
        }),
{
    reveal_strlit("enabled");
    reveal_strlit("timeoutMs");
    reveal_strlit("events");
    assert("enabled"@.len() == 7 && "timeoutMs"@.len() == 9 && "events"@.len() == 6);
    let yes = JsonView::Bool(true);
    let wait = JsonView::Int(HOST_WAIT_MS as int);
    let first = json::put(hooks, "enabled"@, yes);
    let on = install::defaulted(first, "timeoutMs"@, wait);
    let events = install::zcode_events(install::inner(on, "events"@), own, clean);
    let m = install::zcode_hooks(hooks, own, clean);
    assert(m == json::put(on, "events"@, JsonView::Obj(events)));
    json::law_put_then_lookup(hooks, "enabled"@, yes, "timeoutMs"@);
    lemma_defaulted(first, "timeoutMs"@, wait, "enabled"@);
    json::law_put_then_lookup(on, "events"@, JsonView::Obj(events), "enabled"@);
    json::law_put_then_lookup(on, "events"@, JsonView::Obj(events), "timeoutMs"@);
    lemma_put_same(m, "enabled"@, yes);
    assert(install::defaulted(m, "timeoutMs"@, wait) == m);
    lemma_zcode_events_again(install::inner(on, "events"@), own, clean);
    lemma_put_same(m, "events"@, JsonView::Obj(events));
}

proof fn lemma_bare_steps(hooks: Members, own: Seq<char>)
    ensures
        install::vscode_hooks(hooks, own) == added_upto(hooks, vscode_steps(own), 8),
        install::cursor_hooks(hooks, own) == added_upto(hooks, cursor_steps(own), 8),
{
    reveal_with_fuel(added_upto, 9);
}

/// The sources of the lead host and its kin are words.
proof fn lemma_sources_are_words(lead: Seq<char>)
    requires
        word(lead),
    ensures
        word(lead::source_of(lead)),
        word("qwen"@),
{
    let source = lead::source_of(lead);
    reveal_strlit("qwen");
    reveal_strlit("-code");
    assert forall|i: int| 0 <= i < source.len() implies !install::blank(#[trigger] source[i]) by {
        if i < lead.len() {
            assert(source[i] == lead[i]);
        } else {
            assert(source[i] == "-code"@[i - lead.len()]);
        }
    }
}

/// Bare entries are recognised where their command is.
proof fn lemma_bare_recognised(own: Seq<char>)
    ensures
        install::own_kind(install::shell_command(own, "vscode"@)) ==> forall|i: int|
            0 <= i < vscode_steps(own).len() ==> recognised((#[trigger] vscode_steps(own)[i]).1),
        install::own_kind(install::shell_command(own, "cursor"@)) ==> forall|i: int|
            0 <= i < cursor_steps(own).len() ==> recognised((#[trigger] cursor_steps(own)[i]).1),
{
    broadcast use crate::json::group_fields;

    reveal_strlit("type");
    reveal_strlit("command");
    reveal_strlit("timeout");
    reveal_strlit("\"");
    assert("type"@.len() == 4 && "command"@.len() == 7);
    let line = JsonView::Str(install::shell_command(own, "vscode"@));
    assert(install::vscode_entry(own, HOST_WAIT_SEC as int).pick(seq!["command"]) == Some(line));
    assert(install::vscode_entry(own, 30).pick(seq!["command"]) == Some(line));
    let other = JsonView::Str(install::shell_command(own, "cursor"@));
    let bare = install::cursor_entry(own);
    let long = bare.with("timeout"@, JsonView::Int(HOST_WAIT_SEC as int));
    assert(bare.pick(seq!["command"]) == Some(other));
    assert(long.pick(seq!["command"]) == Some(other));
}

proof fn lemma_bare_again(hooks: Members, own: Seq<char>)
    ensures
        install::own_kind(install::shell_command(own, "vscode"@)) ==> {
            let m = install::vscode_hooks(hooks, own);
            install::vscode_hooks(m, own) == m
        },
        install::own_kind(install::shell_command(own, "cursor"@)) ==> {
            let m = install::cursor_hooks(hooks, own);
            install::cursor_hooks(m, own) == m
        },
{
    lemma_bare_recognised(own);
    lemma_bare_steps(hooks, own);
    if install::own_kind(install::shell_command(own, "vscode"@)) {
        lemma_bare_steps(install::vscode_hooks(hooks, own), own);
        lemma_adding_again(hooks, vscode_steps(own), 8);
    }
    if install::own_kind(install::shell_command(own, "cursor"@)) {
        lemma_bare_steps(install::cursor_hooks(hooks, own), own);
        lemma_adding_again(hooks, cursor_steps(own), 8);
    }
}

#[verifier::spinoff_prover]
#[verifier::rlimit(30)]
proof fn lemma_hooks_again(cfg: Members, own: Seq<char>, clean: bool, lead: Seq<char>, host: Host)
    requires
        word(lead),
        clean ==> spared(mark(own), own),
        host is Lead || host is Qwen || host is Codex || host is Zcode,
    ensures
        ({
            let m = install::config_of(host, cfg, own, clean, lead);
            install::config_of(host, m, own, clean, lead) == m
        }),
{
    let m = install::config_of(host, cfg, own, clean, lead);
    let hooks = install::inner(cfg, "hooks"@);
    let done = json::lookup(m, "hooks"@)->0;
    match host {
        Host::Lead => {
            let source = lead::source_of(lead);
            lemma_sources_are_words(lead);
            lemma_ancli_again(hooks, own, clean, source);
            json::law_put_then_lookup(
                cfg,
                "hooks"@,
                JsonView::Obj(install::ancli_hooks(hooks, own, clean, source)),
                "hooks"@,
            );
        },
        Host::Qwen => {
            reveal_strlit("qwen");
            lemma_ancli_again(hooks, own, clean, "qwen"@);
            json::law_put_then_lookup(
                cfg,
                "hooks"@,
                JsonView::Obj(install::ancli_hooks(hooks, own, clean, "qwen"@)),
                "hooks"@,
            );
        },
        Host::Codex => {
            lemma_codex_again(hooks, own, clean);
            json::law_put_then_lookup(
                cfg,
                "hooks"@,
                JsonView::Obj(install::codex_hooks(hooks, own, clean)),
                "hooks"@,
            );
        },
        _ => {
            lemma_zcode_again(hooks, own, clean);
            json::law_put_then_lookup(
                cfg,
                "hooks"@,
                JsonView::Obj(install::zcode_hooks(hooks, own, clean)),
                "hooks"@,
            );
        },
    }
    lemma_put_same(m, "hooks"@, done);
}

/// Installing over an installation changes nothing, whatever the host: its
/// configuration stays as it is, member for member. The path that is written has
/// to show in what identifies its entries, or cleaning would take them for stale
/// copies; and hosts that keep bare entries have to recognise it.
pub proof fn law_installing_again_changes_nothing(
    host: Host,
    cfg: Members,
    own: Seq<char>,
    clean: bool,
    lead: Seq<char>,
)
    requires
        word(lead),
        clean ==> spared(mark(own), own),
        host is Vscode ==> install::own_kind(install::shell_command(own, "vscode"@)),
        host is Cursor ==> install::own_kind(install::shell_command(own, "cursor"@)),
    ensures
        ({
            let m = install::config_of(host, cfg, own, clean, lead);
            install::config_of(host, m, own, clean, lead) == m
        }),
{
    reveal_strlit("version");
    reveal_strlit("hooks");
    assert("version"@.len() == 7 && "hooks"@.len() == 5);
    let m = install::config_of(host, cfg, own, clean, lead);
    let one = JsonView::Int(1);
    let v = install::defaulted(cfg, "version"@, one);
    let w = json::put(cfg, "version"@, one);
    match host {
        Host::Vscode => {
            let done = JsonView::Obj(install::vscode_hooks(install::inner(v, "hooks"@), own));
            lemma_defaulted(cfg, "version"@, one, "hooks"@);
            json::law_put_then_lookup(v, "hooks"@, done, "version"@);
            lemma_bare_again(install::inner(v, "hooks"@), own);
            lemma_put_same(m, "hooks"@, done);
        },
        Host::Cursor => {
            let done = JsonView::Obj(install::cursor_hooks(install::inner(v, "hooks"@), own));
            lemma_defaulted(cfg, "version"@, one, "hooks"@);
            json::law_put_then_lookup(v, "hooks"@, done, "version"@);
            lemma_bare_again(install::inner(v, "hooks"@), own);
            lemma_put_same(m, "hooks"@, done);
        },
        Host::Trae => {
            let done = JsonView::Obj(install::trae_hooks(install::inner(w, "hooks"@), own, clean));
            json::law_put_then_lookup(cfg, "version"@, one, "hooks"@);
            json::law_put_then_lookup(w, "hooks"@, done, "version"@);
            lemma_trae_again(install::inner(w, "hooks"@), own, clean);
            lemma_put_same(m, "version"@, one);
            lemma_put_same(m, "hooks"@, done);
        },
        Host::Opencode => {},
        _ => lemma_hooks_again(cfg, own, clean, lead, host),
    }
}

/// OpenCode's plugin is listed once, however often it is installed.
pub proof fn law_listing_the_plugin_again_changes_nothing(cfg: Members, path: Seq<char>)
    ensures
        ({
            let m = install::plugin_config_of(cfg, path);
            &&& json::lookup(m, "plugin"@) matches Some(JsonView::Arr(list)) && list.contains(
                JsonView::Str(install::plugin_url(path)),
            )
            &&& install::plugin_config_of(m, path) == m
        }),
{
    let entry = JsonView::Str(install::plugin_url(path));
    let list = match json::lookup(cfg, "plugin"@) {
        Some(JsonView::Arr(a)) => a,
        _ => Seq::empty(),
    };
    let done = if list.contains(entry) {
        list
    } else {
        list.push(entry)
    };
    if !list.contains(entry) {
        assert(done[done.len() - 1] == entry);
    }
    json::law_put_then_lookup(cfg, "plugin"@, JsonView::Arr(done), "plugin"@);
    lemma_put_same(json::put(cfg, "plugin"@, JsonView::Arr(done)), "plugin"@, JsonView::Arr(done));
}

// ---------------------------------------------------------------------------
// What an installation leaves alone
// ---------------------------------------------------------------------------

/// The entries of an event in a host's configuration.
pub open spec fn host_entries(host: Host, cfg: Members, event: Seq<char>) -> Seq<JsonView> {
    let hooks = install::inner(cfg, "hooks"@);
    install::entries_of(
        if host is Zcode {
            install::inner(hooks, "events"@)
        } else {
            hooks
        },
        event,
    )
}

proof fn lemma_pushed_keeps(
    hooks: Members,
    steps: Steps,
    own: Seq<char>,
    clean: bool,
    n: int,
    event: Seq<char>,
    x: JsonView,
)
    requires
        0 <= n <= steps.len(),
        install::entries_of(hooks, event).contains(x),
        !install::own_kind(install::fingerprint(x)),
    ensures
        install::entries_of(pushed_upto(hooks, steps, own, clean, n), event).contains(x),
    decreases n,
{
    if n > 0 {
        lemma_pushed_keeps(hooks, steps, own, clean, n - 1, event, x);
        let m = pushed_upto(hooks, steps, own, clean, n - 1);
        let key = steps[n - 1].0;
        let list = install::entries_of(m, key);
        let done = install::added(list, steps[n - 1].1, own, clean);
        json::law_put_then_lookup(m, key, JsonView::Arr(done), event);
        if key == event {
            let k = choose|k: int| 0 <= k < list.len() && list[k] == x;
            install::law_others_hooks_stay(list, steps[n - 1].1, own, clean, k);
        }
    }
}

proof fn lemma_added_keeps(hooks: Members, steps: Steps, n: int, event: Seq<char>, x: JsonView)
    requires
        0 <= n <= steps.len(),
        install::entries_of(hooks, event).contains(x),
    ensures
        install::entries_of(added_upto(hooks, steps, n), event).contains(x),
    decreases n,
{
    if n > 0 {
        lemma_added_keeps(hooks, steps, n - 1, event, x);
        let m = added_upto(hooks, steps, n - 1);
        let key = steps[n - 1].0;
        let list = install::entries_of(m, key);
        let done = list.push(steps[n - 1].1);
        json::law_put_then_lookup(m, key, JsonView::Arr(done), event);
        if json::lookup(m, key) is None {
            assert(done =~= seq![steps[n - 1].1]);
        }
        if key == event {
            let k = choose|k: int| 0 <= k < list.len() && list[k] == x;
            assert(done[k] == x);
        }
    }
}

proof fn lemma_ancli_entries_stay(
    host: Host,
    cfg: Members,
    own: Seq<char>,
    clean: bool,
    lead: Seq<char>,
    event: Seq<char>,
    x: JsonView,
)
    requires
        host is Lead || host is Qwen,
        host_entries(host, cfg, event).contains(x),
        !install::own_kind(install::fingerprint(x)),
    ensures
        host_entries(host, install::config_of(host, cfg, own, clean, lead), event).contains(x),
{
    let hooks = install::inner(cfg, "hooks"@);
    let source = if host is Lead {
        lead::source_of(lead)
    } else {
        "qwen"@
    };
    let done = install::ancli_hooks(hooks, own, clean, source);
    lemma_ancli_steps(hooks, own, clean, source);
    lemma_pushed_keeps(hooks, ancli_steps(own, source), own, clean, 7, event, x);
    json::law_put_then_lookup(cfg, "hooks"@, JsonView::Obj(done), "hooks"@);
}

proof fn lemma_codex_entries_stay(
    host: Host,
    cfg: Members,
    own: Seq<char>,
    clean: bool,
    lead: Seq<char>,
    event: Seq<char>,
    x: JsonView,
)
    requires
        host is Codex,
        host_entries(host, cfg, event).contains(x),
        !install::own_kind(install::fingerprint(x)),
    ensures
        host_entries(host, install::config_of(host, cfg, own, clean, lead), event).contains(x),
{
    let hooks = install::inner(cfg, "hooks"@);
    let done = install::codex_hooks(hooks, own, clean);
    lemma_codex_steps(hooks, own, clean);
    lemma_pushed_keeps(hooks, codex_steps(own), own, clean, 12, event, x);
    json::law_put_then_lookup(cfg, "hooks"@, JsonView::Obj(done), "hooks"@);
}

proof fn lemma_trae_entries_stay(
    host: Host,
    cfg: Members,
    own: Seq<char>,
    clean: bool,
    lead: Seq<char>,
    event: Seq<char>,
    x: JsonView,
)
    requires
        host is Trae,
        host_entries(host, cfg, event).contains(x),
        !install::own_kind(install::fingerprint(x)),
    ensures
        host_entries(host, install::config_of(host, cfg, own, clean, lead), event).contains(x),
{
    reveal_strlit("version");
    reveal_strlit("hooks");
    assert("version"@.len() == 7 && "hooks"@.len() == 5);
    let hooks = install::inner(cfg, "hooks"@);
    let w = json::put(cfg, "version"@, JsonView::Int(1));
    let done = install::trae_hooks(hooks, own, clean);
    json::law_put_then_lookup(cfg, "version"@, JsonView::Int(1), "hooks"@);
    lemma_trae_steps(hooks, own, clean);
    lemma_pushed_keeps(hooks, trae_steps(own), own, clean, 6, event, x);
    json::law_put_then_lookup(w, "hooks"@, JsonView::Obj(done), "hooks"@);
}

proof fn lemma_bare_entries_stay(
    host: Host,
    cfg: Members,
    own: Seq<char>,
    clean: bool,
    lead: Seq<char>,
    event: Seq<char>,
    x: JsonView,
)
    requires
        host is Vscode || host is Cursor,
        host_entries(host, cfg, event).contains(x),
        !install::own_kind(install::fingerprint(x)),
    ensures
        host_entries(host, install::config_of(host, cfg, own, clean, lead), event).contains(x),
{
    reveal_strlit("version");
    reveal_strlit("hooks");
    assert("version"@.len() == 7 && "hooks"@.len() == 5);
    let hooks = install::inner(cfg, "hooks"@);
    let v = install::defaulted(cfg, "version"@, JsonView::Int(1));
    let done = if host is Vscode {
        install::vscode_hooks(hooks, own)
    } else {
        install::cursor_hooks(hooks, own)
    };
    lemma_defaulted(cfg, "version"@, JsonView::Int(1), "hooks"@);
    lemma_bare_steps(hooks, own);
    lemma_added_keeps(hooks, vscode_steps(own), 8, event, x);
    lemma_added_keeps(hooks, cursor_steps(own), 8, event, x);
    json::law_put_then_lookup(v, "hooks"@, JsonView::Obj(done), "hooks"@);
}

proof fn lemma_zcode_entries_stay(
    host: Host,
    cfg: Members,
    own: Seq<char>,
    clean: bool,
    lead: Seq<char>,
    event: Seq<char>,
    x: JsonView,
)
    requires
        host is Zcode,
        host_entries(host, cfg, event).contains(x),
        !install::own_kind(install::fingerprint(x)),
    ensures
        host_entries(host, install::config_of(host, cfg, own, clean, lead), event).contains(x),
{
    reveal_strlit("enabled");
    reveal_strlit("timeoutMs");
    reveal_strlit("events");
    assert("enabled"@.len() == 7 && "timeoutMs"@.len() == 9 && "events"@.len() == 6);
    let hooks = install::inner(cfg, "hooks"@);
    let yes = JsonView::Bool(true);
    let wait = JsonView::Int(HOST_WAIT_MS as int);
    let first = json::put(hooks, "enabled"@, yes);
    let on = install::defaulted(first, "timeoutMs"@, wait);
    let events = install::inner(hooks, "events"@);
    let done = install::zcode_events(events, own, clean);
    json::law_put_then_lookup(hooks, "enabled"@, yes, "events"@);
    lemma_defaulted(first, "timeoutMs"@, wait, "events"@);
    lemma_zcode_steps(events, own, clean);
    lemma_pushed_keeps(events, zcode_steps(own), own, clean, 5, event, x);
    json::law_put_then_lookup(on, "events"@, JsonView::Obj(done), "events"@);
    json::law_put_then_lookup(
        cfg,
        "hooks"@,
        JsonView::Obj(install::zcode_hooks(hooks, own, clean)),
        "hooks"@,
    );
}

/// Others' hooks stay, whatever the host: an entry that is not this program's is
/// still among its event's entries after an installation, with or without
/// cleaning.
pub proof fn law_others_entries_stay(
    host: Host,
    cfg: Members,
    own: Seq<char>,
    clean: bool,
    lead: Seq<char>,
    event: Seq<char>,
    x: JsonView,
)
    requires
        host_entries(host, cfg, event).contains(x),
        !install::own_kind(install::fingerprint(x)),
    ensures
        host_entries(host, install::config_of(host, cfg, own, clean, lead), event).contains(x),
{
    match host {
        Host::Lead => lemma_ancli_entries_stay(host, cfg, own, clean, lead, event, x),
        Host::Qwen => lemma_ancli_entries_stay(host, cfg, own, clean, lead, event, x),
        Host::Codex => lemma_codex_entries_stay(host, cfg, own, clean, lead, event, x),
        Host::Trae => lemma_trae_entries_stay(host, cfg, own, clean, lead, event, x),
        Host::Vscode => lemma_bare_entries_stay(host, cfg, own, clean, lead, event, x),
        Host::Cursor => lemma_bare_entries_stay(host, cfg, own, clean, lead, event, x),
        Host::Zcode => lemma_zcode_entries_stay(host, cfg, own, clean, lead, event, x),
        Host::Opencode => {},
    }
}

/// The entries of a host's list that are not this program's: hosts that keep bare
/// entries have them told by their command, the others by their fingerprint.
pub open spec fn others_of(host: Host, list: Seq<JsonView>) -> Seq<JsonView> {
    if host is Vscode || host is Cursor {
        list.filter(|x: JsonView| !recognised(x))
    } else {
        install::others(list)
    }
}

proof fn lemma_pushed_spares_others(
    hooks: Members,
    steps: Steps,
    own: Seq<char>,
    clean: bool,
    n: int,
    event: Seq<char>,
)
    requires
        0 <= n <= steps.len(),
        forall|i: int|
            0 <= i < steps.len() ==> install::own_kind(
                install::fingerprint((#[trigger] steps[i]).1),
            ),
    ensures
        install::others(install::entries_of(pushed_upto(hooks, steps, own, clean, n), event))
            == install::others(install::entries_of(hooks, event)),
    decreases n,
{
    if n > 0 {
        lemma_pushed_spares_others(hooks, steps, own, clean, n - 1, event);
        let m = pushed_upto(hooks, steps, own, clean, n - 1);
        let key = steps[n - 1].0;
        let entry = steps[n - 1].1;
        let list = install::entries_of(m, key);
        let done = install::added(list, entry, own, clean);
        json::law_put_then_lookup(m, key, JsonView::Arr(done), event);
        assert(install::own_kind(install::fingerprint(entry)));
        install::law_others_hooks_keep_their_order(list, entry, own, clean);
    }
}

proof fn lemma_added_spares_others(hooks: Members, steps: Steps, n: int, event: Seq<char>)
    requires
        0 <= n <= steps.len(),
        forall|i: int| 0 <= i < steps.len() ==> recognised((#[trigger] steps[i]).1),
    ensures
        install::entries_of(added_upto(hooks, steps, n), event).filter(
            |x: JsonView| !recognised(x),
        ) == install::entries_of(hooks, event).filter(|x: JsonView| !recognised(x)),
    decreases n,
{
    if n > 0 {
        lemma_added_spares_others(hooks, steps, n - 1, event);
        let m = added_upto(hooks, steps, n - 1);
        let key = steps[n - 1].0;
        let entry = steps[n - 1].1;
        let list = install::entries_of(m, key);
        let done = list.push(entry);
        json::law_put_then_lookup(m, key, JsonView::Arr(done), event);
        if json::lookup(m, key) is None {
            assert(done =~= seq![entry]);
        }
        assert(recognised(entry));
        assert(done.filter(|x: JsonView| !recognised(x)) == list.filter(
            |x: JsonView| !recognised(x),
        )) by {
            reveal(Seq::filter);
            assert(done.drop_last() =~= list);
        }
    }
}

proof fn lemma_ancli_others_stay(
    host: Host,
    cfg: Members,
    own: Seq<char>,
    clean: bool,
    lead: Seq<char>,
    event: Seq<char>,
)
    requires
        host is Lead || host is Qwen,
        word(lead),
        install::own_kind(mark(own)),
    ensures
        others_of(host, host_entries(host, install::config_of(host, cfg, own, clean, lead), event))
            == others_of(host, host_entries(host, cfg, event)),
{
    let hooks = install::inner(cfg, "hooks"@);
    let source = if host is Lead {
        lead::source_of(lead)
    } else {
        "qwen"@
    };
    lemma_sources_are_words(lead);
    let done = install::ancli_hooks(hooks, own, clean, source);
    lemma_ancli_steps(hooks, own, clean, source);
    lemma_ancli_marked(own, source);
    lemma_pushed_spares_others(hooks, ancli_steps(own, source), own, clean, 7, event);
    json::law_put_then_lookup(cfg, "hooks"@, JsonView::Obj(done), "hooks"@);
}

proof fn lemma_codex_others_stay(
    host: Host,
    cfg: Members,
    own: Seq<char>,
    clean: bool,
    lead: Seq<char>,
    event: Seq<char>,
)
    requires
        host is Codex,
        word(lead),
        install::own_kind(mark(own)),
    ensures
        others_of(host, host_entries(host, install::config_of(host, cfg, own, clean, lead), event))
            == others_of(host, host_entries(host, cfg, event)),
{
    let hooks = install::inner(cfg, "hooks"@);
    let done = install::codex_hooks(hooks, own, clean);
    lemma_codex_steps(hooks, own, clean);
    lemma_codex_marked(own);
    lemma_pushed_spares_others(hooks, codex_steps(own), own, clean, 12, event);
    json::law_put_then_lookup(cfg, "hooks"@, JsonView::Obj(done), "hooks"@);
}

proof fn lemma_trae_others_stay(
    host: Host,
    cfg: Members,
    own: Seq<char>,
    clean: bool,
    lead: Seq<char>,
    event: Seq<char>,
)
    requires
        host is Trae,
        word(lead),
        install::own_kind(mark(own)),
    ensures
        others_of(host, host_entries(host, install::config_of(host, cfg, own, clean, lead), event))
            == others_of(host, host_entries(host, cfg, event)),
{
    reveal_strlit("version");
    reveal_strlit("hooks");
    assert("version"@.len() == 7 && "hooks"@.len() == 5);
    let hooks = install::inner(cfg, "hooks"@);
    let w = json::put(cfg, "version"@, JsonView::Int(1));
    let done = install::trae_hooks(hooks, own, clean);
    json::law_put_then_lookup(cfg, "version"@, JsonView::Int(1), "hooks"@);
    lemma_trae_steps(hooks, own, clean);
    lemma_trae_marked(own);
    lemma_pushed_spares_others(hooks, trae_steps(own), own, clean, 6, event);
    json::law_put_then_lookup(w, "hooks"@, JsonView::Obj(done), "hooks"@);
}

proof fn lemma_zcode_others_stay(
    host: Host,
    cfg: Members,
    own: Seq<char>,
    clean: bool,
    lead: Seq<char>,
    event: Seq<char>,
)
    requires
        host is Zcode,
        word(lead),
        install::own_kind(mark(own)),
    ensures
        others_of(host, host_entries(host, install::config_of(host, cfg, own, clean, lead), event))
            == others_of(host, host_entries(host, cfg, event)),
{
    reveal_strlit("enabled");
    reveal_strlit("timeoutMs");
    reveal_strlit("events");
    assert("enabled"@.len() == 7 && "timeoutMs"@.len() == 9 && "events"@.len() == 6);
    let hooks = install::inner(cfg, "hooks"@);
    let yes = JsonView::Bool(true);
    let wait = JsonView::Int(HOST_WAIT_MS as int);
    let first = json::put(hooks, "enabled"@, yes);
    let on = install::defaulted(first, "timeoutMs"@, wait);
    let events = install::inner(hooks, "events"@);
    let done = install::zcode_events(events, own, clean);
    json::law_put_then_lookup(hooks, "enabled"@, yes, "events"@);
    lemma_defaulted(first, "timeoutMs"@, wait, "events"@);
    lemma_zcode_steps(events, own, clean);
    lemma_zcode_marked(own);
    lemma_pushed_spares_others(events, zcode_steps(own), own, clean, 5, event);
    json::law_put_then_lookup(on, "events"@, JsonView::Obj(done), "events"@);
    json::law_put_then_lookup(
        cfg,
        "hooks"@,
        JsonView::Obj(install::zcode_hooks(hooks, own, clean)),
        "hooks"@,
    );
}

proof fn lemma_bare_others_stay(
    host: Host,
    cfg: Members,
    own: Seq<char>,
    clean: bool,
    lead: Seq<char>,
    event: Seq<char>,
)
    requires
        host is Vscode || host is Cursor,
        word(lead),
        host is Vscode ==> install::own_kind(install::shell_command(own, "vscode"@)),
        host is Cursor ==> install::own_kind(install::shell_command(own, "cursor"@)),
    ensures
        others_of(host, host_entries(host, install::config_of(host, cfg, own, clean, lead), event))
            == others_of(host, host_entries(host, cfg, event)),
{
    reveal_strlit("version");
    reveal_strlit("hooks");
    assert("version"@.len() == 7 && "hooks"@.len() == 5);
    let hooks = install::inner(cfg, "hooks"@);
    let v = install::defaulted(cfg, "version"@, JsonView::Int(1));
    let done = if host is Vscode {
        install::vscode_hooks(hooks, own)
    } else {
        install::cursor_hooks(hooks, own)
    };
    lemma_defaulted(cfg, "version"@, JsonView::Int(1), "hooks"@);
    lemma_bare_steps(hooks, own);
    lemma_bare_recognised(own);
    if host is Vscode {
        lemma_added_spares_others(hooks, vscode_steps(own), 8, event);
    } else {
        lemma_added_spares_others(hooks, cursor_steps(own), 8, event);
    }
    json::law_put_then_lookup(v, "hooks"@, JsonView::Obj(done), "hooks"@);
}

/// Others' hooks are the same after an installation, in the same order, whatever the
/// host and with or without cleaning, as long as the path that is written names this
/// program.
pub proof fn law_others_entries_keep_their_order(
    host: Host,
    cfg: Members,
    own: Seq<char>,
    clean: bool,
    lead: Seq<char>,
    event: Seq<char>,
)
    requires
        word(lead),
        install::own_kind(mark(own)),
        host is Vscode ==> install::own_kind(install::shell_command(own, "vscode"@)),
        host is Cursor ==> install::own_kind(install::shell_command(own, "cursor"@)),
    ensures
        others_of(host, host_entries(host, install::config_of(host, cfg, own, clean, lead), event))
            == others_of(host, host_entries(host, cfg, event)),
{
    match host {
        Host::Lead => lemma_ancli_others_stay(host, cfg, own, clean, lead, event),
        Host::Qwen => lemma_ancli_others_stay(host, cfg, own, clean, lead, event),
        Host::Codex => lemma_codex_others_stay(host, cfg, own, clean, lead, event),
        Host::Trae => lemma_trae_others_stay(host, cfg, own, clean, lead, event),
        Host::Vscode => lemma_bare_others_stay(host, cfg, own, clean, lead, event),
        Host::Cursor => lemma_bare_others_stay(host, cfg, own, clean, lead, event),
        Host::Zcode => lemma_zcode_others_stay(host, cfg, own, clean, lead, event),
        Host::Opencode => {},
    }
}

/// An installation touches no other setting of a host's.
pub proof fn law_other_settings_stay(
    host: Host,
    cfg: Members,
    own: Seq<char>,
    clean: bool,
    lead: Seq<char>,
    key: Seq<char>,
)
    requires
        key != "hooks"@,
        key != "version"@,
    ensures
        json::lookup(install::config_of(host, cfg, own, clean, lead), key) == json::lookup(
            cfg,
            key,
        ),
{
    let one = JsonView::Int(1);
    let v = install::defaulted(cfg, "version"@, one);
    let w = json::put(cfg, "version"@, one);
    let m = install::config_of(host, cfg, own, clean, lead);
    lemma_defaulted(cfg, "version"@, one, key);
    json::law_put_then_lookup(cfg, "version"@, one, key);
    if !(host is Opencode) {
        let base = match host {
            Host::Vscode => v,
            Host::Cursor => v,
            Host::Trae => w,
            _ => cfg,
        };
        assert(exists|h: JsonView| m == json::put(base, "hooks"@, h));
        let h = choose|h: JsonView| m == json::put(base, "hooks"@, h);
        json::law_put_then_lookup(base, "hooks"@, h, key);
    }
}

// ---------------------------------------------------------------------------
// What an installation puts in place
// ---------------------------------------------------------------------------

/// The command line that a host runs this program with.
pub open spec fn line_of(own: Seq<char>, source: Seq<char>) -> Seq<char> {
    "\""@ + own + "\" --source "@ + source
}

/// The entries of an event in a configuration, as its members give them.
pub open spec fn listed(cfg: Members, event: Seq<char>) -> Seq<JsonView> {
    match JsonView::Obj(cfg).field("hooks"@) {
        Some(hooks) => hooks.items(event),
        None => Seq::empty(),
    }
}

/// The entries of an event in ZCode's configuration, one level further down.
pub open spec fn listed_below(cfg: Members, event: Seq<char>) -> Seq<JsonView> {
    match JsonView::Obj(cfg).field("hooks"@) {
        Some(hooks) => match hooks.field("events"@) {
            Some(events) => events.items(event),
            None => Seq::empty(),
        },
        None => Seq::empty(),
    }
}

/// Whether no entry of a list is this program's.
pub open spec fn foreign(list: Seq<JsonView>) -> bool {
    forall|i: int|
        0 <= i < list.len() ==> !text::contains(
            install::fingerprint(#[trigger] list[i]),
            "pomodoro-hook"@,
        )
}

/// Whether a list is as it was, with one entry more at its end, which has the host
/// run this line for the tools that the pattern matches (without a pattern, always)
/// and wait so long for it (under that name; where nothing is given, as long as the
/// host likes).
pub open spec fn runs_too(
    before: Seq<JsonView>,
    after: Seq<JsonView>,
    matcher: Option<Seq<char>>,
    line: Seq<char>,
    key: Seq<char>,
    wait: Option<int>,
) -> bool {
    let entry = after.last();
    let hooks = entry.items("hooks"@);
    &&& after.len() == before.len() + 1
    &&& after.drop_last() == before
    &&& entry.field("matcher"@) == match matcher {
        Some(m) => Some(JsonView::Str(m)),
        None => None,
    }
    &&& hooks.len() == 1
    &&& hooks[0].field("type"@) == Some(JsonView::Str("command"@))
    &&& hooks[0].field("command"@) == Some(JsonView::Str(line))
    &&& hooks[0].field(key) == match wait {
        Some(n) => Some(JsonView::Int(n)),
        None => None,
    }
}

/// Whether a list of bare entries is as it was, with one more at its end, which has
/// the host run this line and wait so long for it.
pub open spec fn runs_bare(
    before: Seq<JsonView>,
    after: Seq<JsonView>,
    line: Seq<char>,
    wait: Option<int>,
) -> bool {
    let entry = after.last();
    &&& after.len() == before.len() + 1
    &&& after.drop_last() == before
    &&& entry.field("command"@) == Some(JsonView::Str(line))
    &&& entry.field("timeout"@) == match wait {
        Some(n) => Some(JsonView::Int(n)),
        None => None,
    }
}

proof fn lemma_foreign_stay(list: Seq<JsonView>, own: Seq<char>, n: int)
    requires
        0 <= n <= list.len(),
        foreign(list),
    ensures
        install::cleaned(list, own, n) == list.take(n),
    decreases n,
{
    if n > 0 {
        lemma_foreign_stay(list, own, n - 1);
        assert(!text::contains(install::fingerprint(list[n - 1]), "pomodoro-hook"@));
        assert(list.take(n - 1).push(list[n - 1]) =~= list.take(n));
    } else {
        assert(list.take(0) =~= Seq::empty());
    }
}

/// To others' entries this program's is added.
proof fn lemma_added_to_foreign(list: Seq<JsonView>, entry: JsonView, own: Seq<char>, clean: bool)
    requires
        foreign(list),
        text::contains(install::fingerprint(entry), "pomodoro-hook"@),
    ensures
        install::added(list, entry, own, clean) == list.push(entry),
{
    lemma_foreign_stay(list, own, list.len() as int);
    assert(list.take(list.len() as int) =~= list);
    if install::has_print(list, install::fingerprint(entry)) {
        let i = choose|i: int|
            0 <= i < list.len() && install::fingerprint(#[trigger] list[i]) == install::fingerprint(
                entry,
            );
        assert(!text::contains(install::fingerprint(list[i]), "pomodoro-hook"@));
    }
}

proof fn lemma_pushed_to_foreign(
    hooks: Members,
    steps: Steps,
    own: Seq<char>,
    clean: bool,
    k: int,
)
    requires
        0 <= k < steps.len(),
        events_differ(steps),
        foreign(install::entries_of(hooks, steps[k].0)),
        install::fingerprint(steps[k].1) == mark(own),
        text::contains(mark(own), "pomodoro-hook"@),
    ensures
        install::entries_of(
            pushed_upto(hooks, steps, own, clean, steps.len() as int),
            steps[k].0,
        ) == install::entries_of(hooks, steps[k].0).push(steps[k].1),
{
    lemma_upto_has(hooks, steps, own, clean, steps.len() as int, k);
    lemma_added_to_foreign(install::entries_of(hooks, steps[k].0), steps[k].1, own, clean);
}

/// The members of the entries that are written.
proof fn lemma_written(
    before: Seq<JsonView>,
    own: Seq<char>,
    source: Seq<char>,
    matcher: Seq<char>,
    key: Seq<char>,
    n: int,
)
    requires
        key == "timeout"@ || key == "timeoutMs"@,
    ensures
        ({
            let h = install::command_of(own, source);
            let long = h.set(key, JsonView::Int(n));
            let line = line_of(own, source);
            &&& runs_too(before, before.push(install::plain_entry(h)), None, line, key, None)
            &&& runs_too(
                before,
                before.push(install::matched_entry(matcher, h)),
                Some(matcher),
                line,
                key,
                None,
            )
            &&& runs_too(before, before.push(install::plain_entry(long)), None, line, key, Some(n))
            &&& runs_too(
                before,
                before.push(install::matched_entry(matcher, long)),
                Some(matcher),
                line,
                key,
                Some(n),
            )
        }),
{
    broadcast use crate::json::group_fields;

    reveal_strlit("hooks");
    reveal_strlit("matcher");
    reveal_strlit("timeout");
    reveal_strlit("timeoutMs");
    reveal_strlit("command");
    reveal_strlit("type");
    assert("hooks"@.len() == 5);
    assert("matcher"@.len() == 7);
    assert("timeout"@.len() == 7);
    assert("timeoutMs"@.len() == 9);
    assert("command"@.len() == 7);
    assert("type"@.len() == 4);
    assert("matcher"@[0] == 'm');
    assert("timeout"@[0] == 't');
    assert("command"@[0] == 'c');
    let h = install::command_of(own, source);
    let long = h.set(key, JsonView::Int(n));
    assert(before.push(install::plain_entry(h)).drop_last() =~= before);
    assert(before.push(install::matched_entry(matcher, h)).drop_last() =~= before);
    assert(before.push(install::plain_entry(long)).drop_last() =~= before);
    assert(before.push(install::matched_entry(matcher, long)).drop_last() =~= before);
}

proof fn lemma_hooks_put(cfg: Members, done: Members, event: Seq<char>)
    ensures
        listed(json::put(cfg, "hooks"@, JsonView::Obj(done)), event) == install::entries_of(
            done,
            event,
        ),
        listed(cfg, event) == install::entries_of(install::inner(cfg, "hooks"@), event),
        listed_below(json::put(cfg, "hooks"@, JsonView::Obj(done)), event) == install::entries_of(
            install::inner(done, "events"@),
            event,
        ),
        listed_below(cfg, event) == install::entries_of(
            install::inner(install::inner(cfg, "hooks"@), "events"@),
            event,
        ),
{
    json::law_put_then_lookup(cfg, "hooks"@, JsonView::Obj(done), "hooks"@);
    json::lemma_position(Members::empty(), event);
    json::lemma_position(Members::empty(), "events"@);
}

#[verifier::spinoff_prover]
#[verifier::rlimit(60)]
proof fn lemma_ancli_written(cfg: Members, own: Seq<char>, clean: bool, source: Seq<char>)
    requires
        word(source),
        text::contains(mark(own), "pomodoro-hook"@),
    ensures
        ({
            let after = json::put(
                cfg,
                "hooks"@,
                JsonView::Obj(
                    install::ancli_hooks(install::inner(cfg, "hooks"@), own, clean, source),
                ),
            );
            &&& foreign(listed(cfg, "Notification"@)) ==> runs_too(
                listed(cfg, "Notification"@),
                listed(after, "Notification"@),
                None,
                line_of(own, source),
                "timeout"@,
                None,
            )
            &&& foreign(listed(cfg, "PermissionRequest"@)) ==> runs_too(
                listed(cfg, "PermissionRequest"@),
                listed(after, "PermissionRequest"@),
                Some("*"@),
                line_of(own, source),
                "timeout"@,
                Some(4_200),
            )
            &&& foreign(listed(cfg, "PreToolUse"@)) ==> runs_too(
                listed(cfg, "PreToolUse"@),
                listed(after, "PreToolUse"@),
                Some("AskUserQuestion|askQuestions|askQuestion"@),
                line_of(own, source),
                "timeout"@,
                Some(4_200),
            )
            &&& foreign(listed(cfg, "UserPromptSubmit"@)) ==> runs_too(
                listed(cfg, "UserPromptSubmit"@),
                listed(after, "UserPromptSubmit"@),
                None,
                line_of(own, source),
                "timeout"@,
                None,
            )
            &&& foreign(listed(cfg, "Stop"@)) ==> runs_too(
                listed(cfg, "Stop"@),
                listed(after, "Stop"@),
                None,
                line_of(own, source),
                "timeout"@,
                None,
            )
            &&& foreign(listed(cfg, "SubagentStop"@)) ==> runs_too(
                listed(cfg, "SubagentStop"@),
                listed(after, "SubagentStop"@),
                None,
                line_of(own, source),
                "timeout"@,
                None,
            )
            &&& foreign(listed(cfg, "PostToolUse"@)) ==> runs_too(
                listed(cfg, "PostToolUse"@),
                listed(after, "PostToolUse"@),
                Some("*"@),
                line_of(own, source),
                "timeout"@,
                None,
            )
        }),
{
    let steps = ancli_steps(own, source);
    let hooks = install::inner(cfg, "hooks"@);
    let done = install::ancli_hooks(hooks, own, clean, source);
    lemma_ancli_steps(hooks, own, clean, source);
    lemma_ancli_events_differ(own, source);
    lemma_ancli_marked(own, source);
    lemma_hooks_put(cfg, done, "Notification"@);
    assert(steps[0].0 == "Notification"@);
    assert(install::fingerprint(steps[0].1) == mark(own));
    if foreign(install::entries_of(hooks, "Notification"@)) {
        lemma_pushed_to_foreign(hooks, steps, own, clean, 0);
        lemma_written(install::entries_of(hooks, "Notification"@), own, source, "*"@, "timeout"@, 0);
    }
    lemma_hooks_put(cfg, done, "PermissionRequest"@);
    assert(steps[1].0 == "PermissionRequest"@);
    assert(install::fingerprint(steps[1].1) == mark(own));
    if foreign(install::entries_of(hooks, "PermissionRequest"@)) {
        lemma_pushed_to_foreign(hooks, steps, own, clean, 1);
        lemma_written(install::entries_of(hooks, "PermissionRequest"@), own, source, "*"@, "timeout"@, 4_200);
    }
    lemma_hooks_put(cfg, done, "PreToolUse"@);
    assert(steps[2].0 == "PreToolUse"@);
    assert(install::fingerprint(steps[2].1) == mark(own));
    if foreign(install::entries_of(hooks, "PreToolUse"@)) {
        lemma_pushed_to_foreign(hooks, steps, own, clean, 2);
        lemma_written(install::entries_of(hooks, "PreToolUse"@), own, source, "AskUserQuestion|askQuestions|askQuestion"@, "timeout"@, 4_200);
    }
    lemma_hooks_put(cfg, done, "UserPromptSubmit"@);
    assert(steps[3].0 == "UserPromptSubmit"@);
    assert(install::fingerprint(steps[3].1) == mark(own));
    if foreign(install::entries_of(hooks, "UserPromptSubmit"@)) {
        lemma_pushed_to_foreign(hooks, steps, own, clean, 3);
        lemma_written(install::entries_of(hooks, "UserPromptSubmit"@), own, source, "*"@, "timeout"@, 0);
    }
    lemma_hooks_put(cfg, done, "Stop"@);
    assert(steps[4].0 == "Stop"@);
    assert(install::fingerprint(steps[4].1) == mark(own));
    if foreign(install::entries_of(hooks, "Stop"@)) {
        lemma_pushed_to_foreign(hooks, steps, own, clean, 4);
        lemma_written(install::entries_of(hooks, "Stop"@), own, source, "*"@, "timeout"@, 0);
    }
    lemma_hooks_put(cfg, done, "SubagentStop"@);
    assert(steps[5].0 == "SubagentStop"@);
    assert(install::fingerprint(steps[5].1) == mark(own));
    if foreign(install::entries_of(hooks, "SubagentStop"@)) {
        lemma_pushed_to_foreign(hooks, steps, own, clean, 5);
        lemma_written(install::entries_of(hooks, "SubagentStop"@), own, source, "*"@, "timeout"@, 0);
    }
    lemma_hooks_put(cfg, done, "PostToolUse"@);
    assert(steps[6].0 == "PostToolUse"@);
    assert(install::fingerprint(steps[6].1) == mark(own));
    if foreign(install::entries_of(hooks, "PostToolUse"@)) {
        lemma_pushed_to_foreign(hooks, steps, own, clean, 6);
        lemma_written(install::entries_of(hooks, "PostToolUse"@), own, source, "*"@, "timeout"@, 0);
    }
}

/// After an installation the lead host, and Qwen Code, run this program at every event
/// that is theirs to report: for every permission that they ask for, for every question,
/// and for what is only told. To those that wait for the user they grant the long wait.
pub proof fn law_the_lead_host_runs_this_program(host: Host, cfg: Members, own: Seq<char>, clean: bool, lead: Seq<char>)
    requires
        host is Lead || host is Qwen,
        word(lead),
        text::contains(mark(own), "pomodoro-hook"@),
    ensures
        foreign(listed(cfg, "Notification"@)) ==> runs_too(
            listed(cfg, "Notification"@),
            listed(install::config_of(host, cfg, own, clean, lead), "Notification"@),
            None,
            line_of(own, if host is Lead {
                    lead + "-code"@
                } else {
                    "qwen"@
                }),
            "timeout"@,
            None,
        ),
        foreign(listed(cfg, "PermissionRequest"@)) ==> runs_too(
            listed(cfg, "PermissionRequest"@),
            listed(install::config_of(host, cfg, own, clean, lead), "PermissionRequest"@),
            Some("*"@),
            line_of(own, if host is Lead {
                    lead + "-code"@
                } else {
                    "qwen"@
                }),
            "timeout"@,
            Some(4_200),
        ),
        foreign(listed(cfg, "PreToolUse"@)) ==> runs_too(
            listed(cfg, "PreToolUse"@),
            listed(install::config_of(host, cfg, own, clean, lead), "PreToolUse"@),
            Some("AskUserQuestion|askQuestions|askQuestion"@),
            line_of(own, if host is Lead {
                    lead + "-code"@
                } else {
                    "qwen"@
                }),
            "timeout"@,
            Some(4_200),
        ),
        foreign(listed(cfg, "UserPromptSubmit"@)) ==> runs_too(
            listed(cfg, "UserPromptSubmit"@),
            listed(install::config_of(host, cfg, own, clean, lead), "UserPromptSubmit"@),
            None,
            line_of(own, if host is Lead {
                    lead + "-code"@
                } else {
                    "qwen"@
                }),
            "timeout"@,
            None,
        ),
        foreign(listed(cfg, "Stop"@)) ==> runs_too(
            listed(cfg, "Stop"@),
            listed(install::config_of(host, cfg, own, clean, lead), "Stop"@),
            None,
            line_of(own, if host is Lead {
                    lead + "-code"@
                } else {
                    "qwen"@
                }),
            "timeout"@,
            None,
        ),
        foreign(listed(cfg, "SubagentStop"@)) ==> runs_too(
            listed(cfg, "SubagentStop"@),
            listed(install::config_of(host, cfg, own, clean, lead), "SubagentStop"@),
            None,
            line_of(own, if host is Lead {
                    lead + "-code"@
                } else {
                    "qwen"@
                }),
            "timeout"@,
            None,
        ),
        foreign(listed(cfg, "PostToolUse"@)) ==> runs_too(
            listed(cfg, "PostToolUse"@),
            listed(install::config_of(host, cfg, own, clean, lead), "PostToolUse"@),
            Some("*"@),
            line_of(own, if host is Lead {
                    lead + "-code"@
                } else {
                    "qwen"@
                }),
            "timeout"@,
            None,
        ),
{
    let source = if host is Lead {
        lead::source_of(lead)
    } else {
        "qwen"@
    };
    lemma_sources_are_words(lead);
    lemma_ancli_written(cfg, own, clean, source);
}

#[verifier::spinoff_prover]
#[verifier::rlimit(60)]
/// After an installation Codex runs this program at every event that is its to report,
/// and waits long for its answer to a permission request.
pub proof fn law_codex_runs_this_program(cfg: Members, own: Seq<char>, clean: bool, lead: Seq<char>)
    requires
        text::contains(mark(own), "pomodoro-hook"@),
    ensures
        foreign(listed(cfg, "PermissionRequest"@)) ==> runs_too(
            listed(cfg, "PermissionRequest"@),
            listed(install::config_of(Host::Codex, cfg, own, clean, lead), "PermissionRequest"@),
            None,
            line_of(own, "codex"@),
            "timeout"@,
            Some(4_200),
        ),
        foreign(listed(cfg, "PreToolUse"@)) ==> runs_too(
            listed(cfg, "PreToolUse"@),
            listed(install::config_of(Host::Codex, cfg, own, clean, lead), "PreToolUse"@),
            Some("Bash|apply_patch|Edit|Write|mcp__.*"@),
            line_of(own, "codex"@),
            "timeout"@,
            Some(30),
        ),
        foreign(listed(cfg, "PostToolUse"@)) ==> runs_too(
            listed(cfg, "PostToolUse"@),
            listed(install::config_of(Host::Codex, cfg, own, clean, lead), "PostToolUse"@),
            Some("Bash|apply_patch|Edit|Write|mcp__.*"@),
            line_of(own, "codex"@),
            "timeout"@,
            Some(30),
        ),
        foreign(listed(cfg, "UserPromptSubmit"@)) ==> runs_too(
            listed(cfg, "UserPromptSubmit"@),
            listed(install::config_of(Host::Codex, cfg, own, clean, lead), "UserPromptSubmit"@),
            None,
            line_of(own, "codex"@),
            "timeout"@,
            Some(30),
        ),
        foreign(listed(cfg, "Stop"@)) ==> runs_too(
            listed(cfg, "Stop"@),
            listed(install::config_of(Host::Codex, cfg, own, clean, lead), "Stop"@),
            None,
            line_of(own, "codex"@),
            "timeout"@,
            Some(30),
        ),
        foreign(listed(cfg, "SubagentStart"@)) ==> runs_too(
            listed(cfg, "SubagentStart"@),
            listed(install::config_of(Host::Codex, cfg, own, clean, lead), "SubagentStart"@),
            None,
            line_of(own, "codex"@),
            "timeout"@,
            Some(30),
        ),
        foreign(listed(cfg, "SubagentStop"@)) ==> runs_too(
            listed(cfg, "SubagentStop"@),
            listed(install::config_of(Host::Codex, cfg, own, clean, lead), "SubagentStop"@),
            None,
            line_of(own, "codex"@),
            "timeout"@,
            Some(30),
        ),
        foreign(listed(cfg, "SessionStart"@)) ==> runs_too(
            listed(cfg, "SessionStart"@),
            listed(install::config_of(Host::Codex, cfg, own, clean, lead), "SessionStart"@),
            None,
            line_of(own, "codex"@),
            "timeout"@,
            Some(30),
        ),
        foreign(listed(cfg, "SessionEnd"@)) ==> runs_too(
            listed(cfg, "SessionEnd"@),
            listed(install::config_of(Host::Codex, cfg, own, clean, lead), "SessionEnd"@),
            None,
            line_of(own, "codex"@),
            "timeout"@,
            Some(30),
        ),
        foreign(listed(cfg, "PreCompact"@)) ==> runs_too(
            listed(cfg, "PreCompact"@),
            listed(install::config_of(Host::Codex, cfg, own, clean, lead), "PreCompact"@),
            None,
            line_of(own, "codex"@),
            "timeout"@,
            Some(30),
        ),
        foreign(listed(cfg, "PostCompact"@)) ==> runs_too(
            listed(cfg, "PostCompact"@),
            listed(install::config_of(Host::Codex, cfg, own, clean, lead), "PostCompact"@),
            None,
            line_of(own, "codex"@),
            "timeout"@,
            Some(30),
        ),
        foreign(listed(cfg, "Interrupt"@)) ==> runs_too(
            listed(cfg, "Interrupt"@),
            listed(install::config_of(Host::Codex, cfg, own, clean, lead), "Interrupt"@),
            None,
            line_of(own, "codex"@),
            "timeout"@,
            Some(30),
        ),
{
    let steps = codex_steps(own);
    let hooks = install::inner(cfg, "hooks"@);
    let done = install::codex_hooks(hooks, own, clean);
    lemma_codex_steps(hooks, own, clean);
    lemma_codex_events_differ(own);
    lemma_codex_marked(own);
    lemma_hooks_put(cfg, done, "PermissionRequest"@);
    assert(steps[0].0 == "PermissionRequest"@);
    assert(install::fingerprint(steps[0].1) == mark(own));
    if foreign(install::entries_of(hooks, "PermissionRequest"@)) {
        lemma_pushed_to_foreign(hooks, steps, own, clean, 0);
        lemma_written(install::entries_of(hooks, "PermissionRequest"@), own, "codex"@, "*"@, "timeout"@, 4_200);
    }
    lemma_hooks_put(cfg, done, "PreToolUse"@);
    assert(steps[1].0 == "PreToolUse"@);
    assert(install::fingerprint(steps[1].1) == mark(own));
    if foreign(install::entries_of(hooks, "PreToolUse"@)) {
        lemma_pushed_to_foreign(hooks, steps, own, clean, 1);
        lemma_written(install::entries_of(hooks, "PreToolUse"@), own, "codex"@, "Bash|apply_patch|Edit|Write|mcp__.*"@, "timeout"@, 30);
    }
    lemma_hooks_put(cfg, done, "PostToolUse"@);
    assert(steps[2].0 == "PostToolUse"@);
    assert(install::fingerprint(steps[2].1) == mark(own));
    if foreign(install::entries_of(hooks, "PostToolUse"@)) {
        lemma_pushed_to_foreign(hooks, steps, own, clean, 2);
        lemma_written(install::entries_of(hooks, "PostToolUse"@), own, "codex"@, "Bash|apply_patch|Edit|Write|mcp__.*"@, "timeout"@, 30);
    }
    lemma_hooks_put(cfg, done, "UserPromptSubmit"@);
    assert(steps[3].0 == "UserPromptSubmit"@);
    assert(install::fingerprint(steps[3].1) == mark(own));
    if foreign(install::entries_of(hooks, "UserPromptSubmit"@)) {
        lemma_pushed_to_foreign(hooks, steps, own, clean, 3);
        lemma_written(install::entries_of(hooks, "UserPromptSubmit"@), own, "codex"@, "*"@, "timeout"@, 30);
    }
    lemma_hooks_put(cfg, done, "Stop"@);
    assert(steps[4].0 == "Stop"@);
    assert(install::fingerprint(steps[4].1) == mark(own));
    if foreign(install::entries_of(hooks, "Stop"@)) {
        lemma_pushed_to_foreign(hooks, steps, own, clean, 4);
        lemma_written(install::entries_of(hooks, "Stop"@), own, "codex"@, "*"@, "timeout"@, 30);
    }
    lemma_hooks_put(cfg, done, "SubagentStart"@);
    assert(steps[5].0 == "SubagentStart"@);
    assert(install::fingerprint(steps[5].1) == mark(own));
    if foreign(install::entries_of(hooks, "SubagentStart"@)) {
        lemma_pushed_to_foreign(hooks, steps, own, clean, 5);
        lemma_written(install::entries_of(hooks, "SubagentStart"@), own, "codex"@, "*"@, "timeout"@, 30);
    }
    lemma_hooks_put(cfg, done, "SubagentStop"@);
    assert(steps[6].0 == "SubagentStop"@);
    assert(install::fingerprint(steps[6].1) == mark(own));
    if foreign(install::entries_of(hooks, "SubagentStop"@)) {
        lemma_pushed_to_foreign(hooks, steps, own, clean, 6);
        lemma_written(install::entries_of(hooks, "SubagentStop"@), own, "codex"@, "*"@, "timeout"@, 30);
    }
    lemma_hooks_put(cfg, done, "SessionStart"@);
    assert(steps[7].0 == "SessionStart"@);
    assert(install::fingerprint(steps[7].1) == mark(own));
    if foreign(install::entries_of(hooks, "SessionStart"@)) {
        lemma_pushed_to_foreign(hooks, steps, own, clean, 7);
        lemma_written(install::entries_of(hooks, "SessionStart"@), own, "codex"@, "*"@, "timeout"@, 30);
    }
    lemma_hooks_put(cfg, done, "SessionEnd"@);
    assert(steps[8].0 == "SessionEnd"@);
    assert(install::fingerprint(steps[8].1) == mark(own));
    if foreign(install::entries_of(hooks, "SessionEnd"@)) {
        lemma_pushed_to_foreign(hooks, steps, own, clean, 8);
        lemma_written(install::entries_of(hooks, "SessionEnd"@), own, "codex"@, "*"@, "timeout"@, 30);
    }
    lemma_hooks_put(cfg, done, "PreCompact"@);
    assert(steps[9].0 == "PreCompact"@);
    assert(install::fingerprint(steps[9].1) == mark(own));
    if foreign(install::entries_of(hooks, "PreCompact"@)) {
        lemma_pushed_to_foreign(hooks, steps, own, clean, 9);
        lemma_written(install::entries_of(hooks, "PreCompact"@), own, "codex"@, "*"@, "timeout"@, 30);
    }
    lemma_hooks_put(cfg, done, "PostCompact"@);
    assert(steps[10].0 == "PostCompact"@);
    assert(install::fingerprint(steps[10].1) == mark(own));
    if foreign(install::entries_of(hooks, "PostCompact"@)) {
        lemma_pushed_to_foreign(hooks, steps, own, clean, 10);
        lemma_written(install::entries_of(hooks, "PostCompact"@), own, "codex"@, "*"@, "timeout"@, 30);
    }
    lemma_hooks_put(cfg, done, "Interrupt"@);
    assert(steps[11].0 == "Interrupt"@);
    assert(install::fingerprint(steps[11].1) == mark(own));
    if foreign(install::entries_of(hooks, "Interrupt"@)) {
        lemma_pushed_to_foreign(hooks, steps, own, clean, 11);
        lemma_written(install::entries_of(hooks, "Interrupt"@), own, "codex"@, "*"@, "timeout"@, 30);
    }
}

#[verifier::spinoff_prover]
#[verifier::rlimit(60)]
/// After an installation Trae runs this program at every event that is its to report,
/// and waits long for its answer to a question.
pub proof fn law_trae_runs_this_program(cfg: Members, own: Seq<char>, clean: bool, lead: Seq<char>)
    requires
        text::contains(mark(own), "pomodoro-hook"@),
    ensures
        foreign(listed(cfg, "PreToolUse"@)) ==> runs_too(
            listed(cfg, "PreToolUse"@),
            listed(install::config_of(Host::Trae, cfg, own, clean, lead), "PreToolUse"@),
            Some("AskUserQuestion"@),
            line_of(own, "trae"@),
            "timeout"@,
            Some(4_200),
        ),
        foreign(listed(cfg, "Notification"@)) ==> runs_too(
            listed(cfg, "Notification"@),
            listed(install::config_of(Host::Trae, cfg, own, clean, lead), "Notification"@),
            None,
            line_of(own, "trae"@),
            "timeout"@,
            Some(30),
        ),
        foreign(listed(cfg, "Stop"@)) ==> runs_too(
            listed(cfg, "Stop"@),
            listed(install::config_of(Host::Trae, cfg, own, clean, lead), "Stop"@),
            None,
            line_of(own, "trae"@),
            "timeout"@,
            Some(30),
        ),
        foreign(listed(cfg, "SessionStart"@)) ==> runs_too(
            listed(cfg, "SessionStart"@),
            listed(install::config_of(Host::Trae, cfg, own, clean, lead), "SessionStart"@),
            None,
            line_of(own, "trae"@),
            "timeout"@,
            Some(30),
        ),
        foreign(listed(cfg, "UserPromptSubmit"@)) ==> runs_too(
            listed(cfg, "UserPromptSubmit"@),
            listed(install::config_of(Host::Trae, cfg, own, clean, lead), "UserPromptSubmit"@),
            None,
            line_of(own, "trae"@),
            "timeout"@,
            Some(30),
        ),
        foreign(listed(cfg, "PostToolUse"@)) ==> runs_too(
            listed(cfg, "PostToolUse"@),
            listed(install::config_of(Host::Trae, cfg, own, clean, lead), "PostToolUse"@),
            Some("*"@),
            line_of(own, "trae"@),
            "timeout"@,
            Some(30),
        ),
{
    reveal_strlit("version");
    reveal_strlit("hooks");
    assert("version"@.len() == 7);
    assert("hooks"@.len() == 5);
    let w = json::put(cfg, "version"@, JsonView::Int(1));
    json::law_put_then_lookup(cfg, "version"@, JsonView::Int(1), "hooks"@);
    let steps = trae_steps(own);
    let hooks = install::inner(cfg, "hooks"@);
    let done = install::trae_hooks(hooks, own, clean);
    lemma_trae_steps(hooks, own, clean);
    lemma_trae_events_differ(own);
    lemma_trae_marked(own);
    lemma_hooks_put(w, done, "PreToolUse"@);
    assert(steps[0].0 == "PreToolUse"@);
    assert(install::fingerprint(steps[0].1) == mark(own));
    if foreign(install::entries_of(hooks, "PreToolUse"@)) {
        lemma_pushed_to_foreign(hooks, steps, own, clean, 0);
        lemma_written(install::entries_of(hooks, "PreToolUse"@), own, "trae"@, "AskUserQuestion"@, "timeout"@, 4_200);
    }
    lemma_hooks_put(w, done, "Notification"@);
    assert(steps[1].0 == "Notification"@);
    assert(install::fingerprint(steps[1].1) == mark(own));
    if foreign(install::entries_of(hooks, "Notification"@)) {
        lemma_pushed_to_foreign(hooks, steps, own, clean, 1);
        lemma_written(install::entries_of(hooks, "Notification"@), own, "trae"@, "*"@, "timeout"@, 30);
    }
    lemma_hooks_put(w, done, "Stop"@);
    assert(steps[2].0 == "Stop"@);
    assert(install::fingerprint(steps[2].1) == mark(own));
    if foreign(install::entries_of(hooks, "Stop"@)) {
        lemma_pushed_to_foreign(hooks, steps, own, clean, 2);
        lemma_written(install::entries_of(hooks, "Stop"@), own, "trae"@, "*"@, "timeout"@, 30);
    }
    lemma_hooks_put(w, done, "SessionStart"@);
    assert(steps[3].0 == "SessionStart"@);
    assert(install::fingerprint(steps[3].1) == mark(own));
    if foreign(install::entries_of(hooks, "SessionStart"@)) {
        lemma_pushed_to_foreign(hooks, steps, own, clean, 3);
        lemma_written(install::entries_of(hooks, "SessionStart"@), own, "trae"@, "*"@, "timeout"@, 30);
    }
    lemma_hooks_put(w, done, "UserPromptSubmit"@);
    assert(steps[4].0 == "UserPromptSubmit"@);
    assert(install::fingerprint(steps[4].1) == mark(own));
    if foreign(install::entries_of(hooks, "UserPromptSubmit"@)) {
        lemma_pushed_to_foreign(hooks, steps, own, clean, 4);
        lemma_written(install::entries_of(hooks, "UserPromptSubmit"@), own, "trae"@, "*"@, "timeout"@, 30);
    }
    lemma_hooks_put(w, done, "PostToolUse"@);
    assert(steps[5].0 == "PostToolUse"@);
    assert(install::fingerprint(steps[5].1) == mark(own));
    if foreign(install::entries_of(hooks, "PostToolUse"@)) {
        lemma_pushed_to_foreign(hooks, steps, own, clean, 5);
        lemma_written(install::entries_of(hooks, "PostToolUse"@), own, "trae"@, "*"@, "timeout"@, 30);
    }
}

#[verifier::spinoff_prover]
#[verifier::rlimit(60)]
/// After an installation ZCode runs this program at every event that is its to report,
/// and waits long for its answers.
pub proof fn law_zcode_runs_this_program(cfg: Members, own: Seq<char>, clean: bool, lead: Seq<char>)
    requires
        text::contains(mark(own), "pomodoro-hook"@),
    ensures
        foreign(listed_below(cfg, "PermissionRequest"@)) ==> runs_too(
            listed_below(cfg, "PermissionRequest"@),
            listed_below(install::config_of(Host::Zcode, cfg, own, clean, lead), "PermissionRequest"@),
            Some("*"@),
            line_of(own, "zcode"@),
            "timeoutMs"@,
            Some(4_200_000),
        ),
        foreign(listed_below(cfg, "PreToolUse"@)) ==> runs_too(
            listed_below(cfg, "PreToolUse"@),
            listed_below(install::config_of(Host::Zcode, cfg, own, clean, lead), "PreToolUse"@),
            Some("AskUserQuestion"@),
            line_of(own, "zcode"@),
            "timeoutMs"@,
            Some(4_200_000),
        ),
        foreign(listed_below(cfg, "Stop"@)) ==> runs_too(
            listed_below(cfg, "Stop"@),
            listed_below(install::config_of(Host::Zcode, cfg, own, clean, lead), "Stop"@),
            None,
            line_of(own, "zcode"@),
            "timeoutMs"@,
            None,
        ),
        foreign(listed_below(cfg, "PostToolUse"@)) ==> runs_too(
            listed_below(cfg, "PostToolUse"@),
            listed_below(install::config_of(Host::Zcode, cfg, own, clean, lead), "PostToolUse"@),
            Some("*"@),
            line_of(own, "zcode"@),
            "timeoutMs"@,
            None,
        ),
        foreign(listed_below(cfg, "PostToolUseFailure"@)) ==> runs_too(
            listed_below(cfg, "PostToolUseFailure"@),
            listed_below(install::config_of(Host::Zcode, cfg, own, clean, lead), "PostToolUseFailure"@),
            Some("*"@),
            line_of(own, "zcode"@),
            "timeoutMs"@,
            None,
        ),
{
    let outer = install::inner(cfg, "hooks"@);
    lemma_zcode_events_put(outer, own, clean);
    let steps = zcode_steps(own);
    let hooks = install::inner(outer, "events"@);
    let done = install::zcode_hooks(outer, own, clean);
    lemma_zcode_steps(hooks, own, clean);
    lemma_zcode_events_differ(own);
    lemma_zcode_marked(own);
    lemma_hooks_put(cfg, done, "PermissionRequest"@);
    assert(steps[0].0 == "PermissionRequest"@);
    assert(install::fingerprint(steps[0].1) == mark(own));
    if foreign(install::entries_of(hooks, "PermissionRequest"@)) {
        lemma_pushed_to_foreign(hooks, steps, own, clean, 0);
        lemma_written(install::entries_of(hooks, "PermissionRequest"@), own, "zcode"@, "*"@, "timeoutMs"@, 4_200_000);
    }
    lemma_hooks_put(cfg, done, "PreToolUse"@);
    assert(steps[1].0 == "PreToolUse"@);
    assert(install::fingerprint(steps[1].1) == mark(own));
    if foreign(install::entries_of(hooks, "PreToolUse"@)) {
        lemma_pushed_to_foreign(hooks, steps, own, clean, 1);
        lemma_written(install::entries_of(hooks, "PreToolUse"@), own, "zcode"@, "AskUserQuestion"@, "timeoutMs"@, 4_200_000);
    }
    lemma_hooks_put(cfg, done, "Stop"@);
    assert(steps[2].0 == "Stop"@);
    assert(install::fingerprint(steps[2].1) == mark(own));
    if foreign(install::entries_of(hooks, "Stop"@)) {
        lemma_pushed_to_foreign(hooks, steps, own, clean, 2);
        lemma_written(install::entries_of(hooks, "Stop"@), own, "zcode"@, "*"@, "timeoutMs"@, 0);
    }
    lemma_hooks_put(cfg, done, "PostToolUse"@);
    assert(steps[3].0 == "PostToolUse"@);
    assert(install::fingerprint(steps[3].1) == mark(own));
    if foreign(install::entries_of(hooks, "PostToolUse"@)) {
        lemma_pushed_to_foreign(hooks, steps, own, clean, 3);
        lemma_written(install::entries_of(hooks, "PostToolUse"@), own, "zcode"@, "*"@, "timeoutMs"@, 0);
    }
    lemma_hooks_put(cfg, done, "PostToolUseFailure"@);
    assert(steps[4].0 == "PostToolUseFailure"@);
    assert(install::fingerprint(steps[4].1) == mark(own));
    if foreign(install::entries_of(hooks, "PostToolUseFailure"@)) {
        lemma_pushed_to_foreign(hooks, steps, own, clean, 4);
        lemma_written(install::entries_of(hooks, "PostToolUseFailure"@), own, "zcode"@, "*"@, "timeoutMs"@, 0);
    }
}

proof fn lemma_zcode_events_put(hooks: Members, own: Seq<char>, clean: bool)
    ensures
        install::inner(install::zcode_hooks(hooks, own, clean), "events"@) == install::zcode_events(
            install::inner(hooks, "events"@),
            own,
            clean,
        ),
        json::lookup(install::zcode_hooks(hooks, own, clean), "enabled"@) == Some(
            JsonView::Bool(true),
        ),
        json::lookup(hooks, "timeoutMs"@) is None ==> json::lookup(
            install::zcode_hooks(hooks, own, clean),
            "timeoutMs"@,
        ) == Some(JsonView::Int(4_200_000)),
{
    reveal_strlit("enabled");
    reveal_strlit("timeoutMs");
    reveal_strlit("events");
    assert("enabled"@.len() == 7);
    assert("timeoutMs"@.len() == 9);
    assert("events"@.len() == 6);
    let yes = JsonView::Bool(true);
    let wait = JsonView::Int(HOST_WAIT_MS as int);
    let first = json::put(hooks, "enabled"@, yes);
    let on = install::defaulted(first, "timeoutMs"@, wait);
    let events = install::inner(hooks, "events"@);
    let done = JsonView::Obj(install::zcode_events(events, own, clean));
    json::law_put_then_lookup(hooks, "enabled"@, yes, "events"@);
    json::law_put_then_lookup(hooks, "enabled"@, yes, "timeoutMs"@);
    json::law_put_then_lookup(first, "timeoutMs"@, wait, "enabled"@);
    lemma_defaulted(first, "timeoutMs"@, wait, "events"@);
    lemma_defaulted(first, "timeoutMs"@, wait, "enabled"@);
    json::law_put_then_lookup(on, "events"@, done, "events"@);
    json::law_put_then_lookup(on, "events"@, done, "enabled"@);
    json::law_put_then_lookup(on, "events"@, done, "timeoutMs"@);
}

/// After an installation ZCode's hooks are switched on, whatever they were before,
/// and wait long unless they are told how long.
pub proof fn law_zcodes_hooks_are_switched_on(
    cfg: Members,
    own: Seq<char>,
    clean: bool,
    lead: Seq<char>,
)
    ensures
        JsonView::Obj(install::config_of(Host::Zcode, cfg, own, clean, lead)).field(
            "hooks"@,
        ) matches Some(hooks) && hooks.field("enabled"@) == Some(JsonView::Bool(true)) && (
        JsonView::Obj(cfg).field("hooks"@) is None ==> hooks.field("timeoutMs"@) == Some(
            JsonView::Int(4_200_000),
        )),
{
    let outer = install::inner(cfg, "hooks"@);
    lemma_zcode_events_put(outer, own, clean);
    json::law_put_then_lookup(
        cfg,
        "hooks"@,
        JsonView::Obj(install::zcode_hooks(outer, own, clean)),
        "hooks"@,
    );
    json::lemma_position(Members::empty(), "timeoutMs"@);
}

/// After an installation Trae's configuration is of version 1, and so are those of
/// VS Code and Cursor where they name none.
pub proof fn law_the_version_is_named(cfg: Members, own: Seq<char>, clean: bool, lead: Seq<char>)
    ensures
        json::lookup(install::config_of(Host::Trae, cfg, own, clean, lead), "version"@) == Some(
            JsonView::Int(1),
        ),
        json::lookup(cfg, "version"@) is None ==> json::lookup(
            install::config_of(Host::Vscode, cfg, own, clean, lead),
            "version"@,
        ) == Some(JsonView::Int(1)),
        json::lookup(cfg, "version"@) is None ==> json::lookup(
            install::config_of(Host::Cursor, cfg, own, clean, lead),
            "version"@,
        ) == Some(JsonView::Int(1)),
{
    reveal_strlit("version");
    reveal_strlit("hooks");
    assert("version"@.len() == 7);
    assert("hooks"@.len() == 5);
    let one = JsonView::Int(1);
    let w = json::put(cfg, "version"@, one);
    json::law_put_then_lookup(cfg, "version"@, one, "version"@);
    let v = install::defaulted(cfg, "version"@, one);
    json::law_put_then_lookup(
        w,
        "hooks"@,
        JsonView::Obj(install::trae_hooks(install::inner(w, "hooks"@), own, clean)),
        "version"@,
    );
    json::law_put_then_lookup(
        v,
        "hooks"@,
        JsonView::Obj(install::vscode_hooks(install::inner(v, "hooks"@), own)),
        "version"@,
    );
    json::law_put_then_lookup(
        v,
        "hooks"@,
        JsonView::Obj(install::cursor_hooks(install::inner(v, "hooks"@), own)),
        "version"@,
    );
}

/// Whether an event of a configuration with bare entries can take one more: it holds
/// none yet, or a list in which no command is this program's.
pub open spec fn open_for_one(cfg: Members, event: Seq<char>) -> bool {
    match JsonView::Obj(cfg).field("hooks"@) {
        Some(hooks) => match hooks.field(event) {
            Some(JsonView::Arr(list)) => forall|i: int|
                0 <= i < list.len() ==> !text::contains(
                    (#[trigger] list[i]).pick_text(seq!["command"]),
                    "pomodoro-hook"@,
                ),
            Some(_) => false,
            None => true,
        },
        None => true,
    }
}

proof fn lemma_bare_spares(hooks: Members, steps: Steps, n: int, event: Seq<char>)
    requires
        0 <= n <= steps.len(),
        forall|i: int| 0 <= i < n ==> (#[trigger] steps[i]).0 != event,
    ensures
        json::lookup(added_upto(hooks, steps, n), event) == json::lookup(hooks, event),
    decreases n,
{
    if n > 0 {
        lemma_bare_spares(hooks, steps, n - 1, event);
        let m = added_upto(hooks, steps, n - 1);
        let key = steps[n - 1].0;
        let list = install::entries_of(m, key).push(steps[n - 1].1);
        json::law_put_then_lookup(m, key, JsonView::Arr(list), event);
        assert(Seq::<JsonView>::empty().push(steps[n - 1].1) =~= seq![steps[n - 1].1]);
    }
}

proof fn lemma_bare_has(cfg: Members, hooks: Members, steps: Steps, n: int, k: int)
    requires
        0 <= k < n <= steps.len(),
        events_differ(steps),
        hooks == install::inner(cfg, "hooks"@),
        open_for_one(cfg, steps[k].0),
    ensures
        json::lookup(added_upto(hooks, steps, n), steps[k].0) == Some(
            JsonView::Arr(install::entries_of(hooks, steps[k].0).push(steps[k].1)),
        ),
    decreases n,
{
    let m = added_upto(hooks, steps, n - 1);
    let key = steps[n - 1].0;
    let list = install::entries_of(m, key).push(steps[n - 1].1);
    json::law_put_then_lookup(m, key, JsonView::Arr(list), steps[k].0);
    assert(Seq::<JsonView>::empty().push(steps[n - 1].1) =~= seq![steps[n - 1].1]);
    if k == n - 1 {
        lemma_bare_spares(hooks, steps, n - 1, steps[k].0);
        json::lemma_position(Members::empty(), steps[k].0);
        if let Some(JsonView::Arr(old_list)) = json::lookup(hooks, steps[k].0) {
            if install::has_own_command(old_list) {
                let i = choose|i: int|
                    0 <= i < old_list.len() && install::own_kind(
                        (#[trigger] old_list[i]).pick_text(seq!["command"]),
                    );
                assert(!text::contains(
                    old_list[i].pick_text(seq!["command"]),
                    "pomodoro-hook"@,
                ));
            }
        }
    } else {
        lemma_bare_has(cfg, hooks, steps, n - 1, k);
    }
}

proof fn lemma_bare_events_differ(own: Seq<char>)
    ensures
        events_differ(vscode_steps(own)),
        events_differ(cursor_steps(own)),
{
    lemma_vscode_events_differ(own);
    lemma_cursor_events_differ(own);
}

proof fn lemma_vscode_events_differ(own: Seq<char>)
    ensures
        events_differ(vscode_steps(own)),
{
    reveal_strlit("PreToolUse");
    reveal_strlit("PostToolUse");
    reveal_strlit("SessionStart");
    reveal_strlit("UserPromptSubmit");
    reveal_strlit("SubagentStart");
    reveal_strlit("SubagentStop");
    reveal_strlit("PreCompact");
    reveal_strlit("Stop");
    assert("PreToolUse"@.len() == 10);
    assert("PostToolUse"@.len() == 11);
    assert("SessionStart"@.len() == 12);
    assert("UserPromptSubmit"@.len() == 16);
    assert("SubagentStart"@.len() == 13);
    assert("SubagentStop"@.len() == 12);
    assert("PreCompact"@.len() == 10);
    assert("Stop"@.len() == 4);
    assert("PreToolUse"@[3] == 'T');
    assert("SessionStart"@[1] == 'e');
    assert("SubagentStop"@[1] == 'u');
    assert("PreCompact"@[3] == 'C');
}

proof fn lemma_cursor_events_differ(own: Seq<char>)
    ensures
        events_differ(cursor_steps(own)),
{
    reveal_strlit("beforeShellExecution");
    reveal_strlit("preToolUse");
    reveal_strlit("beforeMCPExecution");
    reveal_strlit("beforeSubmitPrompt");
    reveal_strlit("afterFileEdit");
    reveal_strlit("afterShellExecution");
    reveal_strlit("afterAgentResponse");
    reveal_strlit("stop");
    assert("beforeShellExecution"@.len() == 20);
    assert("preToolUse"@.len() == 10);
    assert("beforeMCPExecution"@.len() == 18);
    assert("beforeSubmitPrompt"@.len() == 18);
    assert("afterFileEdit"@.len() == 13);
    assert("afterShellExecution"@.len() == 19);
    assert("afterAgentResponse"@.len() == 18);
    assert("stop"@.len() == 4);
    assert("beforeMCPExecution"@[6] == 'M');
    assert("beforeSubmitPrompt"@[6] == 'S');
    assert("afterAgentResponse"@[6] == 'g');
}

#[verifier::spinoff_prover]
#[verifier::rlimit(60)]
/// After an installation VS Code runs this program at every event that is its to report,
/// and waits long where the user is asked.
pub proof fn law_vscode_runs_this_program(cfg: Members, own: Seq<char>, clean: bool, lead: Seq<char>)
    ensures
        open_for_one(cfg, "PreToolUse"@) ==> runs_bare(
            listed(cfg, "PreToolUse"@),
            listed(install::config_of(Host::Vscode, cfg, own, clean, lead), "PreToolUse"@),
            line_of(own, "vscode"@),
            Some(4_200),
        ),
        open_for_one(cfg, "PostToolUse"@) ==> runs_bare(
            listed(cfg, "PostToolUse"@),
            listed(install::config_of(Host::Vscode, cfg, own, clean, lead), "PostToolUse"@),
            line_of(own, "vscode"@),
            Some(30),
        ),
        open_for_one(cfg, "SessionStart"@) ==> runs_bare(
            listed(cfg, "SessionStart"@),
            listed(install::config_of(Host::Vscode, cfg, own, clean, lead), "SessionStart"@),
            line_of(own, "vscode"@),
            Some(30),
        ),
        open_for_one(cfg, "UserPromptSubmit"@) ==> runs_bare(
            listed(cfg, "UserPromptSubmit"@),
            listed(install::config_of(Host::Vscode, cfg, own, clean, lead), "UserPromptSubmit"@),
            line_of(own, "vscode"@),
            Some(30),
        ),
        open_for_one(cfg, "SubagentStart"@) ==> runs_bare(
            listed(cfg, "SubagentStart"@),
            listed(install::config_of(Host::Vscode, cfg, own, clean, lead), "SubagentStart"@),
            line_of(own, "vscode"@),
            Some(30),
        ),
        open_for_one(cfg, "SubagentStop"@) ==> runs_bare(
            listed(cfg, "SubagentStop"@),
            listed(install::config_of(Host::Vscode, cfg, own, clean, lead), "SubagentStop"@),
            line_of(own, "vscode"@),
            Some(30),
        ),
        open_for_one(cfg, "PreCompact"@) ==> runs_bare(
            listed(cfg, "PreCompact"@),
            listed(install::config_of(Host::Vscode, cfg, own, clean, lead), "PreCompact"@),
            line_of(own, "vscode"@),
            Some(30),
        ),
        open_for_one(cfg, "Stop"@) ==> runs_bare(
            listed(cfg, "Stop"@),
            listed(install::config_of(Host::Vscode, cfg, own, clean, lead), "Stop"@),
            line_of(own, "vscode"@),
            Some(30),
        ),
{
    broadcast use crate::json::group_fields;

    reveal_strlit("version");
    reveal_strlit("hooks");
    reveal_strlit("type");
    reveal_strlit("command");
    reveal_strlit("timeout");
    assert("version"@.len() == 7);
    assert("hooks"@.len() == 5);
    assert("type"@.len() == 4);
    assert("command"@.len() == 7);
    assert("timeout"@.len() == 7);
    assert("version"@[0] == 'v');
    assert("command"@[0] == 'c');
    assert("timeout"@[0] == 't');
    let v = install::defaulted(cfg, "version"@, JsonView::Int(1));
    lemma_defaulted(cfg, "version"@, JsonView::Int(1), "hooks"@);
    let hooks = install::inner(cfg, "hooks"@);
    let steps = vscode_steps(own);
    let done = install::vscode_hooks(hooks, own);
    lemma_bare_steps(hooks, own);
    lemma_bare_events_differ(own);
    lemma_hooks_put(v, done, "PreToolUse"@);
    lemma_hooks_put(cfg, done, "PreToolUse"@);
    assert(steps[0].0 == "PreToolUse"@);
    if open_for_one(cfg, "PreToolUse"@) {
        lemma_bare_has(cfg, hooks, steps, 8, 0);
        let before = install::entries_of(hooks, "PreToolUse"@);
        assert(before.push(steps[0].1).drop_last() =~= before);
    }
    lemma_hooks_put(v, done, "PostToolUse"@);
    lemma_hooks_put(cfg, done, "PostToolUse"@);
    assert(steps[1].0 == "PostToolUse"@);
    if open_for_one(cfg, "PostToolUse"@) {
        lemma_bare_has(cfg, hooks, steps, 8, 1);
        let before = install::entries_of(hooks, "PostToolUse"@);
        assert(before.push(steps[1].1).drop_last() =~= before);
    }
    lemma_hooks_put(v, done, "SessionStart"@);
    lemma_hooks_put(cfg, done, "SessionStart"@);
    assert(steps[2].0 == "SessionStart"@);
    if open_for_one(cfg, "SessionStart"@) {
        lemma_bare_has(cfg, hooks, steps, 8, 2);
        let before = install::entries_of(hooks, "SessionStart"@);
        assert(before.push(steps[2].1).drop_last() =~= before);
    }
    lemma_hooks_put(v, done, "UserPromptSubmit"@);
    lemma_hooks_put(cfg, done, "UserPromptSubmit"@);
    assert(steps[3].0 == "UserPromptSubmit"@);
    if open_for_one(cfg, "UserPromptSubmit"@) {
        lemma_bare_has(cfg, hooks, steps, 8, 3);
        let before = install::entries_of(hooks, "UserPromptSubmit"@);
        assert(before.push(steps[3].1).drop_last() =~= before);
    }
    lemma_hooks_put(v, done, "SubagentStart"@);
    lemma_hooks_put(cfg, done, "SubagentStart"@);
    assert(steps[4].0 == "SubagentStart"@);
    if open_for_one(cfg, "SubagentStart"@) {
        lemma_bare_has(cfg, hooks, steps, 8, 4);
        let before = install::entries_of(hooks, "SubagentStart"@);
        assert(before.push(steps[4].1).drop_last() =~= before);
    }
    lemma_hooks_put(v, done, "SubagentStop"@);
    lemma_hooks_put(cfg, done, "SubagentStop"@);
    assert(steps[5].0 == "SubagentStop"@);
    if open_for_one(cfg, "SubagentStop"@) {
        lemma_bare_has(cfg, hooks, steps, 8, 5);
        let before = install::entries_of(hooks, "SubagentStop"@);
        assert(before.push(steps[5].1).drop_last() =~= before);
    }
    lemma_hooks_put(v, done, "PreCompact"@);
    lemma_hooks_put(cfg, done, "PreCompact"@);
    assert(steps[6].0 == "PreCompact"@);
    if open_for_one(cfg, "PreCompact"@) {
        lemma_bare_has(cfg, hooks, steps, 8, 6);
        let before = install::entries_of(hooks, "PreCompact"@);
        assert(before.push(steps[6].1).drop_last() =~= before);
    }
    lemma_hooks_put(v, done, "Stop"@);
    lemma_hooks_put(cfg, done, "Stop"@);
    assert(steps[7].0 == "Stop"@);
    if open_for_one(cfg, "Stop"@) {
        lemma_bare_has(cfg, hooks, steps, 8, 7);
        let before = install::entries_of(hooks, "Stop"@);
        assert(before.push(steps[7].1).drop_last() =~= before);
    }
}

#[verifier::spinoff_prover]
#[verifier::rlimit(60)]
/// After an installation Cursor runs this program at every event that is its to report,
/// and waits long where the user is asked.
pub proof fn law_cursor_runs_this_program(cfg: Members, own: Seq<char>, clean: bool, lead: Seq<char>)
    ensures
        open_for_one(cfg, "beforeShellExecution"@) ==> runs_bare(
            listed(cfg, "beforeShellExecution"@),
            listed(install::config_of(Host::Cursor, cfg, own, clean, lead), "beforeShellExecution"@),
            line_of(own, "cursor"@),
            Some(4_200),
        ),
        open_for_one(cfg, "preToolUse"@) ==> runs_bare(
            listed(cfg, "preToolUse"@),
            listed(install::config_of(Host::Cursor, cfg, own, clean, lead), "preToolUse"@),
            line_of(own, "cursor"@),
            Some(4_200),
        ),
        open_for_one(cfg, "beforeMCPExecution"@) ==> runs_bare(
            listed(cfg, "beforeMCPExecution"@),
            listed(install::config_of(Host::Cursor, cfg, own, clean, lead), "beforeMCPExecution"@),
            line_of(own, "cursor"@),
            Some(4_200),
        ),
        open_for_one(cfg, "beforeSubmitPrompt"@) ==> runs_bare(
            listed(cfg, "beforeSubmitPrompt"@),
            listed(install::config_of(Host::Cursor, cfg, own, clean, lead), "beforeSubmitPrompt"@),
            line_of(own, "cursor"@),
            None,
        ),
        open_for_one(cfg, "afterFileEdit"@) ==> runs_bare(
            listed(cfg, "afterFileEdit"@),
            listed(install::config_of(Host::Cursor, cfg, own, clean, lead), "afterFileEdit"@),
            line_of(own, "cursor"@),
            None,
        ),
        open_for_one(cfg, "afterShellExecution"@) ==> runs_bare(
            listed(cfg, "afterShellExecution"@),
            listed(install::config_of(Host::Cursor, cfg, own, clean, lead), "afterShellExecution"@),
            line_of(own, "cursor"@),
            None,
        ),
        open_for_one(cfg, "afterAgentResponse"@) ==> runs_bare(
            listed(cfg, "afterAgentResponse"@),
            listed(install::config_of(Host::Cursor, cfg, own, clean, lead), "afterAgentResponse"@),
            line_of(own, "cursor"@),
            None,
        ),
        open_for_one(cfg, "stop"@) ==> runs_bare(
            listed(cfg, "stop"@),
            listed(install::config_of(Host::Cursor, cfg, own, clean, lead), "stop"@),
            line_of(own, "cursor"@),
            None,
        ),
{
    broadcast use crate::json::group_fields;

    reveal_strlit("version");
    reveal_strlit("hooks");
    reveal_strlit("type");
    reveal_strlit("command");
    reveal_strlit("timeout");
    assert("version"@.len() == 7);
    assert("hooks"@.len() == 5);
    assert("type"@.len() == 4);
    assert("command"@.len() == 7);
    assert("timeout"@.len() == 7);
    assert("version"@[0] == 'v');
    assert("command"@[0] == 'c');
    assert("timeout"@[0] == 't');
    let v = install::defaulted(cfg, "version"@, JsonView::Int(1));
    lemma_defaulted(cfg, "version"@, JsonView::Int(1), "hooks"@);
    let hooks = install::inner(cfg, "hooks"@);
    let steps = cursor_steps(own);
    let done = install::cursor_hooks(hooks, own);
    lemma_bare_steps(hooks, own);
    lemma_bare_events_differ(own);
    lemma_hooks_put(v, done, "beforeShellExecution"@);
    lemma_hooks_put(cfg, done, "beforeShellExecution"@);
    assert(steps[0].0 == "beforeShellExecution"@);
    if open_for_one(cfg, "beforeShellExecution"@) {
        lemma_bare_has(cfg, hooks, steps, 8, 0);
        let before = install::entries_of(hooks, "beforeShellExecution"@);
        assert(before.push(steps[0].1).drop_last() =~= before);
    }
    lemma_hooks_put(v, done, "preToolUse"@);
    lemma_hooks_put(cfg, done, "preToolUse"@);
    assert(steps[1].0 == "preToolUse"@);
    if open_for_one(cfg, "preToolUse"@) {
        lemma_bare_has(cfg, hooks, steps, 8, 1);
        let before = install::entries_of(hooks, "preToolUse"@);
        assert(before.push(steps[1].1).drop_last() =~= before);
    }
    lemma_hooks_put(v, done, "beforeMCPExecution"@);
    lemma_hooks_put(cfg, done, "beforeMCPExecution"@);
    assert(steps[2].0 == "beforeMCPExecution"@);
    if open_for_one(cfg, "beforeMCPExecution"@) {
        lemma_bare_has(cfg, hooks, steps, 8, 2);
        let before = install::entries_of(hooks, "beforeMCPExecution"@);
        assert(before.push(steps[2].1).drop_last() =~= before);
    }
    lemma_hooks_put(v, done, "beforeSubmitPrompt"@);
    lemma_hooks_put(cfg, done, "beforeSubmitPrompt"@);
    assert(steps[3].0 == "beforeSubmitPrompt"@);
    if open_for_one(cfg, "beforeSubmitPrompt"@) {
        lemma_bare_has(cfg, hooks, steps, 8, 3);
        let before = install::entries_of(hooks, "beforeSubmitPrompt"@);
        assert(before.push(steps[3].1).drop_last() =~= before);
    }
    lemma_hooks_put(v, done, "afterFileEdit"@);
    lemma_hooks_put(cfg, done, "afterFileEdit"@);
    assert(steps[4].0 == "afterFileEdit"@);
    if open_for_one(cfg, "afterFileEdit"@) {
        lemma_bare_has(cfg, hooks, steps, 8, 4);
        let before = install::entries_of(hooks, "afterFileEdit"@);
        assert(before.push(steps[4].1).drop_last() =~= before);
    }
    lemma_hooks_put(v, done, "afterShellExecution"@);
    lemma_hooks_put(cfg, done, "afterShellExecution"@);
    assert(steps[5].0 == "afterShellExecution"@);
    if open_for_one(cfg, "afterShellExecution"@) {
        lemma_bare_has(cfg, hooks, steps, 8, 5);
        let before = install::entries_of(hooks, "afterShellExecution"@);
        assert(before.push(steps[5].1).drop_last() =~= before);
    }
    lemma_hooks_put(v, done, "afterAgentResponse"@);
    lemma_hooks_put(cfg, done, "afterAgentResponse"@);
    assert(steps[6].0 == "afterAgentResponse"@);
    if open_for_one(cfg, "afterAgentResponse"@) {
        lemma_bare_has(cfg, hooks, steps, 8, 6);
        let before = install::entries_of(hooks, "afterAgentResponse"@);
        assert(before.push(steps[6].1).drop_last() =~= before);
    }
    lemma_hooks_put(v, done, "stop"@);
    lemma_hooks_put(cfg, done, "stop"@);
    assert(steps[7].0 == "stop"@);
    if open_for_one(cfg, "stop"@) {
        lemma_bare_has(cfg, hooks, steps, 8, 7);
        let before = install::entries_of(hooks, "stop"@);
        assert(before.push(steps[7].1).drop_last() =~= before);
    }
}

proof fn lemma_ancli_none(own: Seq<char>, source: Seq<char>, event: Seq<char>)
    requires
        event != "Notification"@,
        event != "PermissionRequest"@,
        event != "PreToolUse"@,
        event != "UserPromptSubmit"@,
        event != "Stop"@,
        event != "SubagentStop"@,
        event != "PostToolUse"@,
    ensures
        forall|i: int| 0 <= i < ancli_steps(own, source).len() ==> (#[trigger] ancli_steps(own, source)[i]).0 != event,
        ancli_steps(own, source).len() == 7,
{
    let steps = ancli_steps(own, source);
    assert forall|i: int| 0 <= i < steps.len() implies (#[trigger] steps[i]).0 != event by {
        assert(i == 0 || i == 1 || i == 2 || i == 3 || i == 4 || i == 5 || i == 6);
    }
}

proof fn lemma_trae_none(own: Seq<char>, event: Seq<char>)
    requires
        event != "PreToolUse"@,
        event != "Notification"@,
        event != "Stop"@,
        event != "SessionStart"@,
        event != "UserPromptSubmit"@,
        event != "PostToolUse"@,
    ensures
        forall|i: int| 0 <= i < trae_steps(own).len() ==> (#[trigger] trae_steps(own)[i]).0 != event,
        trae_steps(own).len() == 6,
{
    let steps = trae_steps(own);
    assert forall|i: int| 0 <= i < steps.len() implies (#[trigger] steps[i]).0 != event by {
        assert(i == 0 || i == 1 || i == 2 || i == 3 || i == 4 || i == 5);
    }
}

proof fn lemma_codex_none(own: Seq<char>, event: Seq<char>)
    requires
        event != "PermissionRequest"@,
        event != "PreToolUse"@,
        event != "PostToolUse"@,
        event != "UserPromptSubmit"@,
        event != "Stop"@,
        event != "SubagentStart"@,
        event != "SubagentStop"@,
        event != "SessionStart"@,
        event != "SessionEnd"@,
        event != "PreCompact"@,
        event != "PostCompact"@,
        event != "Interrupt"@,
    ensures
        forall|i: int| 0 <= i < codex_steps(own).len() ==> (#[trigger] codex_steps(own)[i]).0 != event,
        codex_steps(own).len() == 12,
{
    let steps = codex_steps(own);
    assert forall|i: int| 0 <= i < steps.len() implies (#[trigger] steps[i]).0 != event by {
        assert(i == 0 || i == 1 || i == 2 || i == 3 || i == 4 || i == 5 || i == 6 || i == 7 || i == 8 || i == 9 || i == 10 || i == 11);
    }
}

proof fn lemma_zcode_none(own: Seq<char>, event: Seq<char>)
    requires
        event != "PermissionRequest"@,
        event != "PreToolUse"@,
        event != "Stop"@,
        event != "PostToolUse"@,
        event != "PostToolUseFailure"@,
    ensures
        forall|i: int| 0 <= i < zcode_steps(own).len() ==> (#[trigger] zcode_steps(own)[i]).0 != event,
        zcode_steps(own).len() == 5,
{
    let steps = zcode_steps(own);
    assert forall|i: int| 0 <= i < steps.len() implies (#[trigger] steps[i]).0 != event by {
        assert(i == 0 || i == 1 || i == 2 || i == 3 || i == 4);
    }
}

proof fn lemma_vscode_none(own: Seq<char>, event: Seq<char>)
    requires
        event != "PreToolUse"@,
        event != "PostToolUse"@,
        event != "SessionStart"@,
        event != "UserPromptSubmit"@,
        event != "SubagentStart"@,
        event != "SubagentStop"@,
        event != "PreCompact"@,
        event != "Stop"@,
    ensures
        forall|i: int| 0 <= i < vscode_steps(own).len() ==> (#[trigger] vscode_steps(own)[i]).0 != event,
        vscode_steps(own).len() == 8,
{
    let steps = vscode_steps(own);
    assert forall|i: int| 0 <= i < steps.len() implies (#[trigger] steps[i]).0 != event by {
        assert(i == 0 || i == 1 || i == 2 || i == 3 || i == 4 || i == 5 || i == 6 || i == 7);
    }
}

proof fn lemma_cursor_none(own: Seq<char>, event: Seq<char>)
    requires
        event != "beforeShellExecution"@,
        event != "preToolUse"@,
        event != "beforeMCPExecution"@,
        event != "beforeSubmitPrompt"@,
        event != "afterFileEdit"@,
        event != "afterShellExecution"@,
        event != "afterAgentResponse"@,
        event != "stop"@,
    ensures
        forall|i: int| 0 <= i < cursor_steps(own).len() ==> (#[trigger] cursor_steps(own)[i]).0 != event,
        cursor_steps(own).len() == 8,
{
    let steps = cursor_steps(own);
    assert forall|i: int| 0 <= i < steps.len() implies (#[trigger] steps[i]).0 != event by {
        assert(i == 0 || i == 1 || i == 2 || i == 3 || i == 4 || i == 5 || i == 6 || i == 7);
    }
}

proof fn lemma_ancli_spares(hooks: Members, own: Seq<char>, clean: bool, source: Seq<char>, event: Seq<char>)
    requires
        forall|i: int| 0 <= i < ancli_steps(own, source).len() ==> (#[trigger] ancli_steps(own, source)[i]).0 != event,
    ensures
        json::lookup(install::ancli_hooks(hooks, own, clean, source), event) == json::lookup(hooks, event),
{
    let steps = ancli_steps(own, source);
    assert(steps.len() == 7);
    lemma_ancli_steps(hooks, own, clean, source);
    lemma_upto_spares(hooks, steps, own, clean, 7, event);
}

proof fn lemma_codex_spares(hooks: Members, own: Seq<char>, clean: bool, event: Seq<char>)
    requires
        forall|i: int| 0 <= i < codex_steps(own).len() ==> (#[trigger] codex_steps(own)[i]).0 != event,
    ensures
        json::lookup(install::codex_hooks(hooks, own, clean), event) == json::lookup(hooks, event),
{
    let steps = codex_steps(own);
    assert(steps.len() == 12);
    lemma_codex_steps(hooks, own, clean);
    lemma_upto_spares(hooks, steps, own, clean, 12, event);
}

proof fn lemma_trae_spares(hooks: Members, own: Seq<char>, clean: bool, event: Seq<char>)
    requires
        forall|i: int| 0 <= i < trae_steps(own).len() ==> (#[trigger] trae_steps(own)[i]).0 != event,
    ensures
        json::lookup(install::trae_hooks(hooks, own, clean), event) == json::lookup(hooks, event),
{
    let steps = trae_steps(own);
    assert(steps.len() == 6);
    lemma_trae_steps(hooks, own, clean);
    lemma_upto_spares(hooks, steps, own, clean, 6, event);
}

proof fn lemma_zcode_spares(hooks: Members, own: Seq<char>, clean: bool, event: Seq<char>)
    requires
        forall|i: int| 0 <= i < zcode_steps(own).len() ==> (#[trigger] zcode_steps(own)[i]).0 != event,
    ensures
        json::lookup(install::zcode_events(hooks, own, clean), event) == json::lookup(hooks, event),
{
    let steps = zcode_steps(own);
    assert(steps.len() == 5);
    lemma_zcode_steps(hooks, own, clean);
    lemma_upto_spares(hooks, steps, own, clean, 5, event);
}

#[verifier::spinoff_prover]
#[verifier::rlimit(60)]
/// An installation adds to no event but those that are the host's to report.
pub proof fn law_other_events_stay(
    host: Host,
    cfg: Members,
    own: Seq<char>,
    clean: bool,
    lead: Seq<char>,
    event: Seq<char>,
)
    requires
        event != "Notification"@,
        event != "PermissionRequest"@,
        event != "PreToolUse"@,
        event != "UserPromptSubmit"@,
        event != "Stop"@,
        event != "SubagentStop"@,
        event != "PostToolUse"@,
        event != "SessionStart"@,
        event != "SubagentStart"@,
        event != "SessionEnd"@,
        event != "PreCompact"@,
        event != "PostCompact"@,
        event != "Interrupt"@,
        event != "PostToolUseFailure"@,
        event != "beforeShellExecution"@,
        event != "preToolUse"@,
        event != "beforeMCPExecution"@,
        event != "beforeSubmitPrompt"@,
        event != "afterFileEdit"@,
        event != "afterShellExecution"@,
        event != "afterAgentResponse"@,
        event != "stop"@,
    ensures
        !(host is Zcode) ==> listed(install::config_of(host, cfg, own, clean, lead), event) == listed(
            cfg,
            event,
        ),
        host is Zcode ==> listed_below(install::config_of(host, cfg, own, clean, lead), event)
            == listed_below(cfg, event),
{
    reveal_strlit("version");
    reveal_strlit("hooks");
    assert("version"@.len() == 7);
    assert("hooks"@.len() == 5);
    let hooks = install::inner(cfg, "hooks"@);
    let v = install::defaulted(cfg, "version"@, JsonView::Int(1));
    let w = json::put(cfg, "version"@, JsonView::Int(1));
    lemma_defaulted(cfg, "version"@, JsonView::Int(1), "hooks"@);
    json::law_put_then_lookup(cfg, "version"@, JsonView::Int(1), "hooks"@);
    match host {
        Host::Lead => {
            let source = lead::source_of(lead);
            lemma_ancli_none(own, source, event);
            lemma_ancli_spares(hooks, own, clean, source, event);
            lemma_hooks_put(cfg, install::ancli_hooks(hooks, own, clean, source), event);
        },
        Host::Qwen => {
            lemma_ancli_none(own, "qwen"@, event);
            lemma_ancli_spares(hooks, own, clean, "qwen"@, event);
            lemma_hooks_put(cfg, install::ancli_hooks(hooks, own, clean, "qwen"@), event);
        },
        Host::Codex => {
            lemma_codex_none(own, event);
            lemma_codex_spares(hooks, own, clean, event);
            lemma_hooks_put(cfg, install::codex_hooks(hooks, own, clean), event);
        },
        Host::Trae => {
            lemma_trae_none(own, event);
            lemma_trae_spares(hooks, own, clean, event);
            lemma_hooks_put(w, install::trae_hooks(hooks, own, clean), event);
            lemma_hooks_put(cfg, hooks, event);
        },
        Host::Vscode => {
            lemma_bare_steps(hooks, own);
            lemma_vscode_none(own, event);
            lemma_bare_spares(hooks, vscode_steps(own), 8, event);
            lemma_hooks_put(v, install::vscode_hooks(hooks, own), event);
            lemma_hooks_put(cfg, hooks, event);
        },
        Host::Cursor => {
            lemma_bare_steps(hooks, own);
            lemma_cursor_none(own, event);
            lemma_bare_spares(hooks, cursor_steps(own), 8, event);
            lemma_hooks_put(v, install::cursor_hooks(hooks, own), event);
            lemma_hooks_put(cfg, hooks, event);
        },
        Host::Zcode => {
            let events = install::inner(hooks, "events"@);
            lemma_zcode_events_put(hooks, own, clean);
            lemma_zcode_none(own, event);
            lemma_zcode_spares(events, own, clean, event);
            lemma_hooks_put(cfg, install::zcode_hooks(hooks, own, clean), event);
        },
        Host::Opencode => {},
    }
}

/// OpenCode's configuration lists the plugin by the address of its file, with forward
/// slashes, after all that it listed before.
pub proof fn law_the_plugin_is_listed_by_its_file(
    cfg: Members,
    path: Seq<char>,
    before: Seq<JsonView>,
    i: int,
)
    requires
        JsonView::Obj(cfg).items("plugin"@) == before,
        0 <= i < path.len(),
    ensures
        ({
            let after = JsonView::Obj(install::plugin_config_of(cfg, path)).items("plugin"@);
            let url = install::plugin_url(path);
            &&& before.is_prefix_of(after)
            &&& after.contains(JsonView::Str(url))
            &&& after.len() <= before.len() + 1
            &&& url.len() == 7 + path.len()
            &&& url.take(7) == "file://"@
            &&& url[7 + i] == (if path[i] == '\\' {
                '/'
            } else {
                path[i]
            })
        }),
{
    law_listing_the_plugin_again_changes_nothing(cfg, path);
    reveal_strlit("file://");
    assert("file://"@.len() == 7);
    let url = install::plugin_url(path);
    assert(url.take(7) =~= "file://"@);
    assert(url[7 + i] == install::forward(path)[i]);
    let m = install::plugin_config_of(cfg, path);
    let entry = JsonView::Str(url);
    let done = if before.contains(entry) {
        before
    } else {
        before.push(entry)
    };
    json::law_put_then_lookup(cfg, "plugin"@, JsonView::Arr(done), "plugin"@);
    assert(m == json::put(cfg, "plugin"@, JsonView::Arr(done)));
    assert(done.subrange(0, before.len() as int) =~= before);
}

} // verus!
