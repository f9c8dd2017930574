//! What the hook remembers of a session between its runs, and the context that
//! popups show.

use vstd::prelude::*;
use crate::cache;
use crate::cache::read_at;
use crate::interaction;
use crate::json;
use crate::json::{arr, as_str_lossy, is_truthy, parse_stored, pick, pick_str, print_compact};
use crate::json::{Json, JsonView, Members, Object};
use crate::proto;
use crate::proto::rule_content_for;
use crate::sha1;
use crate::sha1::sha1_hex_prefix;
use crate::text;
use crate::text::{basename, cat3, collapse, first_or, has_prefix, has_suffix, same, short_session};

verus! {

broadcast use crate::json::group_json;

/// How long a session is remembered: twelve hours.
pub const SESSION_TTL_MS: i64 = 43_200_000;

// ---------------------------------------------------------------------------
// Files
// ---------------------------------------------------------------------------

/// The name of the file that remembers a session.
pub open spec fn file_of(session_id: Seq<char>) -> Seq<char> {
    "session-"@ + sha1::hex_prefix(text::either(session_id, "unknown"@), 16) + ".json"@
}

/// The name of the file that remembers a session.
pub fn session_file(session_id: &str) -> (r: String)
    ensures
        r@ == file_of(session_id@),
{
    let key = sha1_hex_prefix(first_or(session_id, "unknown").as_str(), 16);
    cat3("session-", key.as_str(), ".json")
}

/// Whether a file's name is that of a remembered session.
pub fn is_session_file(name: &str) -> (r: bool)
    ensures
        r == (text::starts_with(name@, "session-"@) && text::ends_with(name@, ".json"@)),
{
    has_prefix(name, "session-") && has_suffix(name, ".json")
}

/// Whether what a file holds is young enough at `now`.
pub open spec fn fresh(stored: JsonView, now: int) -> bool {
    now - cache::written_at(stored) <= SESSION_TTL_MS
}

fn is_fresh(stored: &Json, now: i64) -> (r: bool)
    ensures
        r == fresh(stored@, now as int),
{
    (now as i128) - (read_at(stored) as i128) <= SESSION_TTL_MS as i128
}

/// The session that a file's content still gives at `now`.
pub open spec fn remembered(
    session_id: Seq<char>,
    stored: Option<JsonView>,
    now: int,
) -> Option<JsonView> {
    match stored {
        Some(s) if session_id.len() > 0 && s.truthy() && fresh(s, now) => Some(s),
        _ => None,
    }
}

/// The session that a file's content still gives at `now`. `stored` is what the
/// file of the session holds, if it can be read.
pub fn read(session_id: &str, stored: Option<&Json>, now: i64) -> (r: Option<Json>)
    ensures
        owned_view(r) == remembered(session_id@, json::opt_view(stored), now as int),
{
    match stored {
        Some(s) => if !session_id.is_empty() && is_truthy(s) && is_fresh(s, now) {
            Some(s.clone())
        } else {
            None
        },
        None => None,
    }
}

/// A session after a patch: what was remembered, then the patch, then the
/// session's id and the moment, which nothing overrides.
pub open spec fn merged(
    session_id: Seq<char>,
    stored: Option<JsonView>,
    patch: Members,
    now: int,
) -> JsonView {
    let before = match remembered(session_id, stored, now) {
        Some(s) => s.members(),
        None => Members::empty(),
    };
    JsonView::Obj(json::put_all(before, patch)).set("sessionId"@, JsonView::Str(session_id)).set(
        "at"@,
        JsonView::Int(now),
    )
}

/// A session after a patch; none for the empty id.
pub fn merge(session_id: &str, stored: Option<&Json>, patch: &Object, now: i64) -> (r: Option<Json>)
    ensures
        r is Some == (session_id@.len() > 0),
        r matches Some(s) ==> s@ == merged(session_id@, json::opt_view(stored), patch@, now as int),
{
    if session_id.is_empty() {
        return None;
    }
    let mut next = match read(session_id, stored, now) {
        Some(Json::Obj(o)) => o,
        _ => Object::new(),
    };
    next.put_all(patch);
    Some(
        Json::Obj(next).set("sessionId", Json::text(session_id)).set("at", Json::integer(now)),
    )
}

/// The session that a file's text still gives at `now`.
pub open spec fn loaded(session_id: Seq<char>, text: Option<Seq<char>>, now: int) -> Option<
    JsonView,
> {
    remembered(
        session_id,
        match text {
            Some(t) => json::parsed(t),
            None => None,
        },
        now,
    )
}

/// The session that a file's text still gives at `now`. `text` is none where the file
/// cannot be read.
pub fn load(session_id: &str, text: Option<&str>, now: i64) -> (r: Option<Json>)
    ensures
        owned_view(r) == loaded(session_id@, interaction::opt_str(text), now as int),
{
    let stored = match text {
        Some(t) => parse_stored(t),
        None => None,
    };
    match stored {
        Some(s) => read(session_id, Some(&s), now),
        None => None,
    }
}

/// The text of the file that remembers a session. A plain session reads back from it
/// as long as it is fresh.
pub fn write(session_id: &str, next: &Json) -> (r: String)
    ensures
        r@ == json::compact(next@),
        json::plain(next@, json::MAX_DEPTH as int) ==> forall|later: int|
            #[trigger] loaded(session_id@, Some(r@), later) == remembered(
                session_id@,
                Some(next@),
                later,
            ),
{
    print_compact(next)
}

// ---------------------------------------------------------------------------
// The list of sessions
// ---------------------------------------------------------------------------

/// The sessions with one more, behind all that are not older.
pub open spec fn inserted(list: Seq<JsonView>, s: JsonView) -> Seq<JsonView>
    decreases list.len(),
{
    if list.len() == 0 || cache::written_at(list.last()) >= cache::written_at(s) {
        list.push(s)
    } else {
        inserted(list.drop_last(), s).push(list.last())
    }
}

/// The sessions among the first `n` that are fresh, newest first; of two of the
/// same moment the one that came first stays first.
pub open spec fn newest_first(entries: Seq<JsonView>, now: int, n: int) -> Seq<JsonView>
    decreases n,
{
    if n <= 0 {
        Seq::empty()
    } else if fresh(entries[n - 1], now) {
        inserted(newest_first(entries, now, n - 1), entries[n - 1])
    } else {
        newest_first(entries, now, n - 1)
    }
}

fn insert_session(list: &mut Vec<Json>, s: Json)
    ensures
        json::views(final(list)@) == inserted(json::views(old(list)@), s@),
{
    let ghost before = json::views(list@);
    let at: i64 = read_at(&s);
    let mut i: usize = list.len();
    assert(before.take(i as int) =~= before);
    assert(inserted(before.take(i as int), s@) + before.skip(i as int) =~= inserted(before, s@));
    while i > 0 && read_at(&list[i - 1]) < at
        invariant
            i <= list@.len(),
            before == json::views(list@),
            at == cache::written_at(s@),
            inserted(before, s@) == inserted(before.take(i as int), s@) + before.skip(i as int),
        decreases i,
    {
        proof {
            let t = before.take(i as int);
            assert(t.last() == list@[i - 1]@);
            assert(t.drop_last() =~= before.take(i - 1));
            assert(inserted(before.take(i - 1), s@).push(t.last()) + before.skip(i as int)
                =~= inserted(before.take(i - 1), s@) + before.skip(i - 1));
        }
        i -= 1;
    }
    proof {
        let t = before.take(i as int);
        if i > 0 {
            assert(t.last() == list@[i - 1]@);
        }
        assert(inserted(t, s@) == t.push(s@));
    }
    list.insert(i, s);
    assert(json::views(list@) =~= before.take(i as int).push(s@) + before.skip(i as int));
}

/// The sessions that files still give at `now`, newest first.
pub fn list(entries: &[Json], now: i64) -> (r: Vec<Json>)
    ensures
        json::views(r@) == newest_first(json::views(entries@), now as int, entries@.len() as int),
{
    let mut out: Vec<Json> = Vec::new();
    assert(json::views(out@) =~= Seq::empty());
    let mut i: usize = 0;
    while i < entries.len()
        invariant
            i <= entries@.len(),
            json::views(out@) == newest_first(json::views(entries@), now as int, i as int),
        decreases entries.len() - i,
    {
        assert(json::views(entries@)[i as int] == entries@[i as int]@);
        if is_fresh(&entries[i], now) {
            insert_session(&mut out, entries[i].clone());
        }
        i += 1;
    }
    out
}

/// Whether no session is older than one that follows it.
pub open spec fn descending(list: Seq<JsonView>) -> bool {
    forall|i: int, j: int|
        0 <= i <= j < list.len() ==> cache::written_at(#[trigger] list[i]) >= cache::written_at(
            #[trigger] list[j],
        )
}

proof fn lemma_inserted(list: Seq<JsonView>, s: JsonView)
    requires
        descending(list),
    ensures
        descending(inserted(list, s)),
        inserted(list, s).to_multiset() == list.to_multiset().insert(s),
    decreases list.len(),
{
    broadcast use vstd::seq_lib::group_to_multiset_ensures;

    let r = inserted(list, s);
    if list.len() == 0 || cache::written_at(list.last()) >= cache::written_at(s) {
        assert forall|i: int, j: int| 0 <= i <= j < r.len() implies cache::written_at(
            #[trigger] r[i],
        ) >= cache::written_at(#[trigger] r[j]) by {
            if i < list.len() {
                assert(cache::written_at(list[i]) >= cache::written_at(list.last()));
            }
        }
    } else {
        let head = list.drop_last();
        lemma_inserted(head, s);
        let h = inserted(head, s);
        assert(list =~= head.push(list.last()));
        assert forall|i: int, j: int| 0 <= i <= j < r.len() implies cache::written_at(
            #[trigger] r[i],
        ) >= cache::written_at(#[trigger] r[j]) by {
            if j == h.len() && i < h.len() {
                assert(h.to_multiset().count(h[i]) > 0);
                if h[i] != s {
                    assert(head.to_multiset().count(h[i]) > 0);
                    assert(head.contains(h[i]));
                    let k = choose|k: int| 0 <= k < head.len() && head[k] == h[i];
                    assert(list[k] == h[i]);
                }
            }
        }
        assert(r.to_multiset() =~= list.to_multiset().insert(s));
    }
}

/// The list of sessions runs from new to old, and holds the fresh ones and no
/// others, each as often as there are files for it.
pub proof fn law_list_is_newest_first(entries: Seq<JsonView>, now: int, n: int)
    requires
        0 <= n <= entries.len(),
    ensures
        descending(newest_first(entries, now, n)),
        newest_first(entries, now, n).to_multiset() == entries.take(n).filter(
            |s: JsonView| fresh(s, now),
        ).to_multiset(),
    decreases n,
{
    broadcast use vstd::seq_lib::group_to_multiset_ensures;

    let keep = |s: JsonView| fresh(s, now);
    reveal(Seq::filter);
    if n == 0 {
        assert(entries.take(0).filter(keep) =~= Seq::empty());
    } else {
        law_list_is_newest_first(entries, now, n - 1);
        let s = entries[n - 1];
        let t = entries.take(n);
        assert(t.drop_last() =~= entries.take(n - 1));
        assert(t.last() == s);
        if fresh(s, now) {
            lemma_inserted(newest_first(entries, now, n - 1), s);
            assert(t.filter(keep) == t.drop_last().filter(keep).push(s));
        } else {
            assert(t.filter(keep) == t.drop_last().filter(keep));
        }
    }
}

/// What was merged into a session reads back for the next twelve hours, under
/// the session's own id; what the patch does not name stays as it was.
pub proof fn law_merge_reads_back(
    session_id: Seq<char>,
    stored: Option<JsonView>,
    patch: Members,
    now: int,
    later: int,
    key: Seq<char>,
)
    requires
        session_id.len() > 0,
        i64::MIN <= now <= i64::MAX,
        later - now <= SESSION_TTL_MS,
    ensures
        ({
            let next = merged(session_id, stored, patch, now);
            let before = remembered(session_id, stored, now);
            &&& remembered(session_id, Some(next), later) == Some(next)
            &&& next.field("sessionId"@) == Some(JsonView::Str(session_id))
            &&& (key != "sessionId"@ && key != "at"@ && (forall|i: int|
                0 <= i < patch.len() ==> (#[trigger] patch[i]).0 != key)) ==> next.field(key) == (
            match before {
                Some(s) => s.field(key),
                None => None,
            })
        }),
{
    broadcast use crate::json::group_fields;

    reveal_strlit("at");
    reveal_strlit("sessionId");
    assert("at"@.len() == 2);
    assert("sessionId"@.len() == 9);
    let before = match remembered(session_id, stored, now) {
        Some(s) => s.members(),
        None => Members::empty(),
    };
    json::law_patch_then_lookup(before, patch, key);
    json::lemma_position(Members::empty(), key);
}

// ---------------------------------------------------------------------------
// The context of a popup
// ---------------------------------------------------------------------------

/// The directory that a payload, or else the session, works in.
pub open spec fn directory_of(p: JsonView, s: JsonView) -> Seq<char> {
    text::either(p.pick_text(seq!["cwd", "working_directory"]), s.pick_text(seq!["cwd"]))
}

/// The context that a popup shows: who asks, in which session and project, at
/// which task, and which tool was last in use.
pub open spec fn context_of(p: JsonView, source: Seq<char>, session: Option<JsonView>) -> JsonView {
    let s = match session {
        Some(v) => v,
        None => JsonView::Null,
    };
    let cwd = directory_of(p, s);
    let project = if cwd.len() == 0 {
        s.pick_text(seq!["project"])
    } else {
        text::base_of(cwd)
    };
    let short = text::either(
        text::short_id(p.pick_text(seq!["session_id", "sessionId"])),
        text::short_id(s.pick_text(seq!["sessionId"])),
    );
    JsonView::object().with("agent"@, JsonView::Str(source)).with(
        "agentType"@,
        JsonView::Str(
            text::either(
                p.pick_text(seq!["agent_type", "agentType"]),
                s.pick_text(seq!["agentType"]),
            ),
        ),
    ).with(
        "agentId"@,
        JsonView::Str(
            text::either(p.pick_text(seq!["agent_id"]), s.pick_text(seq!["agentId"])),
        ),
    ).with("session"@, JsonView::Str(short)).with("project"@, JsonView::Str(project)).with(
        "task"@,
        JsonView::Str(text::collapsed(s.pick_text(seq!["task"]), 160)),
    ).with("tool"@, JsonView::Str(s.pick_text(seq!["lastTool"]))).with(
        "toolDetail"@,
        JsonView::Str(s.pick_text(seq!["lastToolDetail"])),
    )
}

/// Makes the context that a popup shows.
pub fn build_context(payload: &Json, source: &str, session: Option<&Json>) -> (r: Json)
    ensures
        r@ == context_of(payload@, source@, json::opt_view(session)),
{
    let nothing = Json::Null;
    let s = match session {
        Some(v) => v,
        None => &nothing,
    };
    let cwd = first_or(
        pick_str(payload, &["cwd", "working_directory"]).as_str(),
        pick_str(s, &["cwd"]).as_str(),
    );
    let project = if cwd.as_str().is_empty() {
        pick_str(s, &["project"])
    } else {
        basename(cwd.as_str())
    };
    let short = first_or(
        short_session(pick_str(payload, &["session_id", "sessionId"]).as_str()).as_str(),
        short_session(pick_str(s, &["sessionId"]).as_str()).as_str(),
    );
    let agent_type = first_or(
        pick_str(payload, &["agent_type", "agentType"]).as_str(),
        pick_str(s, &["agentType"]).as_str(),
    );
    let agent_id = first_or(
        pick_str(payload, &["agent_id"]).as_str(),
        pick_str(s, &["agentId"]).as_str(),
    );
    let task = collapse(pick_str(s, &["task"]).as_str(), 160);
    Json::object().with("agent", Json::text(source)).with("agentType", Json::Str(agent_type)).with(
        "agentId",
        Json::Str(agent_id),
    ).with("session", Json::Str(short)).with("project", Json::Str(project)).with(
        "task",
        Json::Str(task),
    ).with("tool", Json::Str(pick_str(s, &["lastTool"]))).with(
        "toolDetail",
        Json::Str(pick_str(s, &["lastToolDetail"])),
    )
}

/// The members that a list of names and values gives.
pub open spec fn extra_members(extra: Seq<(&str, Json)>) -> Members {
    extra.map_values(|e: (&str, Json)| (e.0@, e.1@))
}

/// A context with some of its members overridden, also by empty ones.
pub fn with_extra(ctx: Json, extra: &[(&str, Json)]) -> (r: Json)
    ensures
        r@ == JsonView::Obj(json::put_all(ctx@.members(), extra_members(extra@))),
{
    let mut base = match ctx {
        Json::Obj(o) => o,
        _ => Object::new(),
    };
    let ghost before = base@;
    let ghost all = extra_members(extra@);
    let mut i: usize = 0;
    assert(all.take(0) =~= Members::empty());
    while i < extra.len()
        invariant
            i <= extra@.len(),
            all == extra_members(extra@),
            base@ == json::put_all(before, all.take(i as int)),
        decreases extra.len() - i,
    {
        proof {
            let head = all.take(i as int + 1);
            assert(head.drop_last() =~= all.take(i as int));
            assert(head.last() == (extra@[i as int].0@, extra@[i as int].1@));
        }
        base.put(extra[i].0, extra[i].1.clone());
        i += 1;
    }
    assert(all.take(i as int) =~= all);
    Json::Obj(base)
}

// ---------------------------------------------------------------------------
// Remembering
// ---------------------------------------------------------------------------

/// The id of a payload's session.
pub open spec fn id_of(p: JsonView) -> Seq<char> {
    p.pick_text(seq!["session_id", "sessionId"])
}

/// The id of a payload's session.
pub fn session_id(payload: &Json) -> (r: String)
    ensures
        r@ == id_of(payload@),
{
    pick_str(payload, &["session_id", "sessionId"])
}

/// The text of a list's first item, empty when there is none.
pub open spec fn first_text(items: Seq<JsonView>) -> Seq<char> {
    if items.len() > 0 {
        items[0].lossy()
    } else {
        Seq::empty()
    }
}

/// The text of a list's first item, empty when there is none.
pub fn first_item(items: &[Json]) -> (r: String)
    ensures
        r@ == first_text(json::views(items@)),
{
    if items.len() > 0 {
        assert(json::views(items@)[0] == items@[0]@);
        as_str_lossy(&items[0])
    } else {
        String::new()
    }
}

/// The object with a text set, unless the text is empty.
pub open spec fn set_text(v: JsonView, k: Seq<char>, s: Seq<char>) -> JsonView {
    if s.len() > 0 {
        v.set(k, JsonView::Str(s))
    } else {
        v
    }
}

fn put_text(v: Json, k: &str, s: String) -> (r: Json)
    ensures
        r@ == set_text(v@, k@, s@),
{
    if s.as_str().is_empty() {
        v
    } else {
        v.set(k, Json::Str(s))
    }
}

/// What is worth remembering whatever the event: the host, the directory, the
/// kind of agent.
pub open spec fn common_patch(p: JsonView, source: Seq<char>) -> JsonView {
    let cwd = text::either(
        p.pick_text(seq!["cwd", "working_directory"]),
        first_text(p.items("workspace_roots"@)),
    );
    set_text(
        set_text(set_text(JsonView::object(), "source"@, source), "cwd"@, cwd),
        "agentType"@,
        p.pick_text(seq!["agent_type", "agentType"]),
    )
}

/// The events around a tool's use.
pub open spec fn tool_event(event: Seq<char>) -> bool {
    event == "PreToolUse"@ || event == "PostToolUse"@ || event == "PostToolUseFailure"@ || event
        == "PermissionRequest"@
}

/// What is worth remembering of an event: a new session forgets the task and
/// notes the model, a prompt gives the task, a tool's use the tool and the
/// detail, and the end of a turn the last words.
pub open spec fn event_patch(base: JsonView, p: JsonView, event: Seq<char>) -> JsonView {
    if event == "SessionStart"@ {
        let cleared = base.set("task"@, JsonView::Str(Seq::empty()));
        match p.pick(seq!["model"]) {
            Some(m) => cleared.set("model"@, JsonView::Str(m.lossy())),
            None => cleared,
        }
    } else if event == "UserPromptSubmit"@ {
        match p.pick(seq!["prompt"]) {
            Some(x) => base.set("task"@, JsonView::Str(text::collapsed(x.lossy(), 400))),
            None => base,
        }
    } else if tool_event(event) {
        let tool = p.pick_text(seq!["tool_name"]);
        let input = match p.pick(seq!["tool_input"]) {
            Some(v) => v,
            None => JsonView::Null,
        };
        if tool.len() > 0 {
            base.set("lastTool"@, JsonView::Str(tool)).set(
                "lastToolDetail"@,
                JsonView::Str(text::collapsed(proto::rule_of(input), 160)),
            )
        } else {
            base
        }
    } else if event == "Stop"@ {
        match p.pick(seq!["last_assistant_message"]) {
            Some(x) => base.set("lastAssistant"@, JsonView::Str(text::collapsed(x.lossy(), 200))),
            None => base,
        }
    } else {
        base
    }
}

/// What a payload adds to its session.
pub open spec fn patch_of(p: JsonView, event: Seq<char>, source: Seq<char>) -> JsonView {
    event_patch(common_patch(p, source), p, event)
}

fn make_event_patch(base: Json, payload: &Json, event: &str) -> (r: Json)
    requires
        base@ is Obj,
    ensures
        r@ == event_patch(base@, payload@, event@),
        r@ is Obj,
{
    if same(event, "SessionStart") {
        let cleared = base.set("task", Json::Str(String::new()));
        match pick(payload, &["model"]) {
            Some(m) => cleared.set("model", Json::Str(as_str_lossy(m))),
            None => cleared,
        }
    } else if same(event, "UserPromptSubmit") {
        match pick(payload, &["prompt"]) {
            Some(x) => base.set("task", Json::Str(collapse(as_str_lossy(x).as_str(), 400))),
            None => base,
        }
    } else if same(event, "PreToolUse") || same(event, "PostToolUse") || same(
        event,
        "PostToolUseFailure",
    ) || same(event, "PermissionRequest") {
        let tool = pick_str(payload, &["tool_name"]);
        if tool.as_str().is_empty() {
            return base;
        }
        let nothing = Json::Null;
        let rule = match pick(payload, &["tool_input"]) {
            Some(v) => rule_content_for(tool.as_str(), v),
            None => rule_content_for(tool.as_str(), &nothing),
        };
        let detail = collapse(rule.as_str(), 160);
        base.set("lastTool", Json::Str(tool)).set("lastToolDetail", Json::Str(detail))
    } else if same(event, "Stop") {
        match pick(payload, &["last_assistant_message"]) {
            Some(x) => base.set("lastAssistant", Json::Str(collapse(as_str_lossy(x).as_str(), 200))),
            None => base,
        }
    } else {
        base
    }
}

/// What a payload adds to its session.
pub fn context_patch(payload: &Json, event: &str, source: &str) -> (r: Object)
    ensures
        r@ == patch_of(payload@, event@, source@).members(),
{
    let cwd = first_or(
        pick_str(payload, &["cwd", "working_directory"]).as_str(),
        first_item(arr(payload, "workspace_roots")).as_str(),
    );
    let base = put_text(
        put_text(put_text(Json::object(), "source", source.to_owned()), "cwd", cwd),
        "agentType",
        pick_str(payload, &["agent_type", "agentType"]),
    );
    match make_event_patch(base, payload, event) {
        Json::Obj(o) => o,
        _ => Object::new(),
    }
}

/// What becomes of a session when a payload comes in.
pub struct Remembered {
    /// What the session's file gives.
    pub current: Option<Json>,
    /// What is to be written into it, if anything.
    pub next: Option<Json>,
}

/// What becomes of a session when a payload comes in; none for a payload
/// without a session. `stored` is what the session's file holds.
pub fn remember_context(
    payload: &Json,
    event: &str,
    source: &str,
    stored: Option<&Json>,
    now: i64,
) -> (r: Option<Remembered>)
    ensures
        r is Some == (id_of(payload@).len() > 0),
        r matches Some(m) ==> {
            let patch = patch_of(payload@, event@, source@).members();
            &&& owned_view(m.current) == remembered(
                id_of(payload@),
                json::opt_view(stored),
                now as int,
            )
            &&& owned_view(m.next) == (if patch.len() == 0 {
                None
            } else {
                Some(merged(id_of(payload@), json::opt_view(stored), patch, now as int))
            })
        },
{
    let id = session_id(payload);
    if id.as_str().is_empty() {
        return None;
    }
    let patch = context_patch(payload, event, source);
    let current = read(id.as_str(), stored, now);
    let next = if patch.is_empty() {
        None
    } else {
        merge(id.as_str(), stored, &patch, now)
    };
    Some(Remembered { current, next })
}

/// The model of an optional value.
pub open spec fn owned_view(o: Option<Json>) -> Option<JsonView> {
    match o {
        Some(j) => Some(j@),
        None => None,
    }
}

/// The session that a run goes on with: what was written, or, where nothing was
/// to be written or the writing failed, what the file gives.
pub fn session_after(next: Option<Json>, written: bool, current: Option<Json>) -> (r: Option<Json>)
    ensures
        r == (if next is Some && written {
            next
        } else {
            current
        }),
{
    match next {
        Some(s) => if written {
            Some(s)
        } else {
            current
        },
        None => current,
    }
}

// ---------------------------------------------------------------------------
// What is remembered, word for word
// ---------------------------------------------------------------------------

/// A session is remembered for twelve hours after it was last heard of.
pub proof fn law_sessions_last_twelve_hours(id: Seq<char>, stored: JsonView, at: int, now: int)
    requires
        id.len() > 0,
        stored is Obj,
        stored.field("at"@) == Some(JsonView::Int(at)),
        i64::MIN <= at <= i64::MAX,
    ensures
        now - at <= 43_200_000 ==> remembered(id, Some(stored), now) == Some(stored),
        now - at > 43_200_000 ==> remembered(id, Some(stored), now) is None,
{
}

proof fn lemma_common_patch(p: JsonView, source: Seq<char>, cwd: Seq<char>)
    requires
        p.field("cwd"@) == Some(JsonView::Str(cwd)),
        cwd.len() > 0,
        source.len() > 0,
    ensures
        common_patch(p, source).field("source"@) == Some(JsonView::Str(source)),
        common_patch(p, source).field("cwd"@) == Some(JsonView::Str(cwd)),
        common_patch(p, source) is Obj,
{
    broadcast use crate::json::group_fields;

    let keys: Seq<&str> = seq!["cwd", "working_directory"];
    assert(keys[0]@ == "cwd"@);
    json::law_the_first_name_counts(p, keys, 0);
    reveal_strlit("source");
    reveal_strlit("cwd");
    reveal_strlit("agentType");
    assert("source"@.len() == 6);
    assert("cwd"@.len() == 3);
    assert("agentType"@.len() == 9);
}

/// Each event leaves its own trace in what is remembered of a session, besides who
/// runs it and where: a new session has no task, a prompt is the task, a tool's use is
/// the last tool with what it was about, and the end of a turn is what was said last.
pub proof fn law_each_event_leaves_its_trace(
    p: JsonView,
    event: Seq<char>,
    source: Seq<char>,
    cwd: Seq<char>,
    said: Seq<char>,
    input: JsonView,
    rule: Seq<char>,
)
    requires
        p.field("cwd"@) == Some(JsonView::Str(cwd)),
        cwd.len() > 0,
        source.len() > 0,
        said.len() > 0,
    ensures
        patch_of(p, event, source).field("source"@) == Some(JsonView::Str(source)),
        patch_of(p, event, source).field("cwd"@) == Some(JsonView::Str(cwd)),
        event == "SessionStart"@ ==> patch_of(p, event, source).field("task"@) == Some(
            JsonView::Str(Seq::empty()),
        ),
        event == "SessionStart"@ && p.field("model"@) == Some(JsonView::Str(said)) ==> patch_of(
            p,
            event,
            source,
        ).field("model"@) == Some(JsonView::Str(said)),
        event == "UserPromptSubmit"@ && p.field("prompt"@) == Some(JsonView::Str(said)) ==> patch_of(
            p,
            event,
            source,
        ).field("task"@) == Some(JsonView::Str(text::collapsed(said, 400))),
        (event == "PreToolUse"@ || event == "PostToolUse"@ || event == "PostToolUseFailure"@ || event
            == "PermissionRequest"@) && p.field("tool_name"@) == Some(JsonView::Str(said)) ==> patch_of(
            p,
            event,
            source,
        ).field("lastTool"@) == Some(JsonView::Str(said)),
        (event == "PreToolUse"@ || event == "PostToolUse"@ || event == "PostToolUseFailure"@ || event
            == "PermissionRequest"@) && p.field("tool_name"@) == Some(JsonView::Str(said)) && p.field(
            "tool_input"@,
        ) == Some(input) && input.field("command"@) == Some(JsonView::Str(rule)) && 0 < rule.len()
            <= 200 ==> patch_of(p, event, source).field("lastToolDetail"@) == Some(
            JsonView::Str(text::collapsed(rule, 160)),
        ),
        event == "Stop"@ && p.field("last_assistant_message"@) == Some(JsonView::Str(said))
            ==> patch_of(p, event, source).field("lastAssistant"@) == Some(
            JsonView::Str(text::collapsed(said, 200)),
        ),
        event == "Notification"@ ==> patch_of(p, event, source) == common_patch(p, source),
{
    broadcast use crate::json::group_fields;

    lemma_common_patch(p, source, cwd);
    let v = JsonView::Str(said);
    if p.field("model"@) == Some(v) {
        json::lemma_picked(p, "model", v);
    }
    if p.field("prompt"@) == Some(v) {
        json::lemma_picked(p, "prompt", v);
    }
    if p.field("tool_name"@) == Some(v) {
        json::lemma_picked(p, "tool_name", v);
    }
    if p.field("last_assistant_message"@) == Some(v) {
        json::lemma_picked(p, "last_assistant_message", v);
    }
    if p.field("tool_input"@) == Some(input) && input.field("command"@) == Some(JsonView::Str(rule))
        && 0 < rule.len() <= 200 {
        json::lemma_picked(p, "tool_input", input);
        proto::law_the_rule_is_what_the_tool_does(input, rule);
    }
    reveal_strlit("source");
    reveal_strlit("cwd");
    reveal_strlit("task");
    reveal_strlit("model");
    reveal_strlit("lastTool");
    reveal_strlit("lastToolDetail");
    reveal_strlit("lastAssistant");
    assert("source"@.len() == 6);
    assert("cwd"@.len() == 3);
    assert("task"@.len() == 4);
    assert("model"@.len() == 5);
    assert("lastTool"@.len() == 8);
    assert("lastToolDetail"@.len() == 14);
    assert("lastAssistant"@.len() == 13);
    reveal_strlit("SessionStart");
    reveal_strlit("UserPromptSubmit");
    reveal_strlit("PreToolUse");
    reveal_strlit("PostToolUse");
    reveal_strlit("PostToolUseFailure");
    reveal_strlit("PermissionRequest");
    reveal_strlit("Stop");
    reveal_strlit("Notification");
    assert("SessionStart"@.len() == 12);
    assert("UserPromptSubmit"@.len() == 16);
    assert("PreToolUse"@.len() == 10);
    assert("PostToolUse"@.len() == 11);
    assert("PostToolUseFailure"@.len() == 18);
    assert("PermissionRequest"@.len() == 17);
    assert("Stop"@.len() == 4);
    assert("Notification"@.len() == 12);
    assert("SessionStart"@[0] == 'S');
    assert("Notification"@[0] == 'N');
}

/// The context of a popup says who asks, and, as far as the payload or what is
/// remembered tells it, in which session and project, on which task and with which
/// tool. What the payload says goes before what is remembered.
pub proof fn law_the_context_says_who_asks(
    p: JsonView,
    source: Seq<char>,
    session: JsonView,
    s: Seq<char>,
)
    requires
        s.len() > 0,
    ensures
        ({
            let c = context_of(p, source, Some(session));
            &&& c.field("agent"@) == Some(JsonView::Str(source))
            &&& p.field("session_id"@) == Some(JsonView::Str(s)) ==> c.field("session"@) == Some(
                JsonView::Str(text::short_id(s)),
            )
            &&& p.field("session_id"@) is None && p.field("sessionId"@) is None && session.field(
                "sessionId"@,
            ) == Some(JsonView::Str(s)) ==> c.field("session"@) == Some(
                JsonView::Str(text::short_id(s)),
            )
            &&& p.field("cwd"@) == Some(JsonView::Str(s)) ==> c.field("project"@) == Some(
                JsonView::Str(text::base_of(s)),
            )
            &&& p.field("cwd"@) is None && p.field("working_directory"@) is None && session.field(
                "cwd"@,
            ) == Some(JsonView::Str(s)) ==> c.field("project"@) == Some(
                JsonView::Str(text::base_of(s)),
            )
            &&& session.field("task"@) == Some(JsonView::Str(s)) ==> c.field("task"@) == Some(
                JsonView::Str(text::collapsed(s, 160)),
            )
            &&& session.field("lastTool"@) == Some(JsonView::Str(s)) ==> c.field("tool"@) == Some(
                JsonView::Str(s),
            )
            &&& session.field("lastToolDetail"@) == Some(JsonView::Str(s)) ==> c.field(
                "toolDetail"@,
            ) == Some(JsonView::Str(s))
            &&& p.field("agent_type"@) == Some(JsonView::Str(s)) ==> c.field("agentType"@) == Some(
                JsonView::Str(s),
            )
            &&& p.field("agent_id"@) == Some(JsonView::Str(s)) ==> c.field("agentId"@) == Some(
                JsonView::Str(s),
            )
        }),
{
    broadcast use crate::json::group_fields;

    let v = JsonView::Str(s);
    let ids: Seq<&str> = seq!["session_id", "sessionId"];
    assert(ids[0]@ == "session_id"@ && ids[1]@ == "sessionId"@);
    if p.field("session_id"@) == Some(v) {
        json::law_the_first_name_counts(p, ids, 0);
    }
    if p.field("session_id"@) is None && p.field("sessionId"@) is None {
        json::law_no_name_counts(p, ids);
    }
    let dirs: Seq<&str> = seq!["cwd", "working_directory"];
    assert(dirs[0]@ == "cwd"@ && dirs[1]@ == "working_directory"@);
    if p.field("cwd"@) == Some(v) {
        json::law_the_first_name_counts(p, dirs, 0);
    }
    if p.field("cwd"@) is None && p.field("working_directory"@) is None {
        json::law_no_name_counts(p, dirs);
    }
    let kinds: Seq<&str> = seq!["agent_type", "agentType"];
    assert(kinds[0]@ == "agent_type"@);
    if p.field("agent_type"@) == Some(v) {
        json::law_the_first_name_counts(p, kinds, 0);
    }
    if p.field("agent_id"@) == Some(v) {
        json::lemma_picked(p, "agent_id", v);
    }
    if session.field("sessionId"@) == Some(v) {
        json::lemma_picked(session, "sessionId", v);
    }
    if session.field("cwd"@) == Some(v) {
        json::lemma_picked(session, "cwd", v);
    }
    if session.field("task"@) == Some(v) {
        json::lemma_picked(session, "task", v);
    }
    if session.field("lastTool"@) == Some(v) {
        json::lemma_picked(session, "lastTool", v);
    }
    if session.field("lastToolDetail"@) == Some(v) {
        json::lemma_picked(session, "lastToolDetail", v);
    }
    reveal_strlit("agent");
    reveal_strlit("agentType");
    reveal_strlit("agentId");
    reveal_strlit("session");
    reveal_strlit("project");
    reveal_strlit("task");
    reveal_strlit("tool");
    reveal_strlit("toolDetail");
    assert("agent"@.len() == 5);
    assert("agentType"@.len() == 9);
    assert("agentId"@.len() == 7);
    assert("session"@.len() == 7);
    assert("project"@.len() == 7);
    assert("task"@.len() == 4);
    assert("tool"@.len() == 4);
    assert("toolDetail"@.len() == 10);
    assert("agentId"@[0] == 'a');
    assert("session"@[0] == 's');
    assert("project"@[0] == 'p');
    assert("task"@[1] == 'a');
    assert("tool"@[1] == 'o');
}

/// What is remembered of a session takes in what a payload adds, keeps the rest, and
/// notes whose it is and when it was heard of.
pub proof fn law_what_is_new_is_remembered(
    id: Seq<char>,
    stored: Option<JsonView>,
    key: Seq<char>,
    v: JsonView,
    now: int,
)
    requires
        key != "sessionId"@,
        key != "at"@,
    ensures
        ({
            let next = merged(id, stored, seq![(key, v)], now);
            &&& next.field(key) == Some(v)
            &&& next.field("sessionId"@) == Some(JsonView::Str(id))
            &&& next.field("at"@) == Some(JsonView::Int(now))
        }),
{
    broadcast use crate::json::group_fields;

    reveal_strlit("sessionId");
    reveal_strlit("at");
    assert("sessionId"@.len() == 9);
    assert("at"@.len() == 2);
    let before = match remembered(id, stored, now) {
        Some(s) => s.members(),
        None => Members::empty(),
    };
    let patch = seq![(key, v)];
    assert(patch.drop_last() =~= Members::empty());
    assert(patch.last() == (key, v));
    assert(json::put_all(before, patch.drop_last()) == before);
    assert(json::put_all(before, patch) == json::put(before, key, v));
    json::law_put_then_lookup(before, key, v, key);
}

/// Each session has its own file; one without an id has that of the unknown.
pub proof fn law_where_a_session_is_kept(id: Seq<char>)
    requires
        id.len() > 0,
    ensures
        file_of(id) == "session-"@ + sha1::hex_prefix(id, 16) + ".json"@,
        file_of(Seq::empty()) == file_of("unknown"@),
{
    reveal_strlit("unknown");
    assert("unknown"@.len() > 0);
}

/// The directory of a session is known by any of its names, and so is the kind of its
/// agent.
pub proof fn law_where_a_session_runs(
    p: JsonView,
    source: Seq<char>,
    s: Seq<char>,
    roots: Seq<JsonView>,
)
    requires
        s.len() > 0,
    ensures
        p.field("cwd"@) == Some(JsonView::Str(s)) ==> common_patch(p, source).field("cwd"@) == Some(
            JsonView::Str(s),
        ),
        p.field("cwd"@) is None && p.field("working_directory"@) == Some(JsonView::Str(s))
            ==> common_patch(p, source).field("cwd"@) == Some(JsonView::Str(s)),
        p.field("cwd"@) is None && p.field("working_directory"@) is None && p.field(
            "workspace_roots"@,
        ) == Some(JsonView::Arr(roots)) && roots.len() > 0 && roots[0] == JsonView::Str(s)
            ==> common_patch(p, source).field("cwd"@) == Some(JsonView::Str(s)),
        p.field("agent_type"@) is None && p.field("agentType"@) == Some(JsonView::Str(s))
            ==> common_patch(p, source).field("agentType"@) == Some(JsonView::Str(s)),
{
    broadcast use crate::json::group_fields;

    let dirs: Seq<&str> = seq!["cwd", "working_directory"];
    assert(dirs[0]@ == "cwd"@ && dirs[1]@ == "working_directory"@);
    if p.field("cwd"@) == Some(JsonView::Str(s)) {
        json::law_the_first_name_counts(p, dirs, 0);
    } else if p.field("cwd"@) is None && p.field("working_directory"@) == Some(JsonView::Str(s)) {
        json::law_the_first_name_counts(p, dirs, 1);
    } else if p.field("cwd"@) is None && p.field("working_directory"@) is None {
        json::law_no_name_counts(p, dirs);
    }
    let kinds: Seq<&str> = seq!["agent_type", "agentType"];
    assert(kinds[0]@ == "agent_type"@ && kinds[1]@ == "agentType"@);
    if p.field("agent_type"@) is None && p.field("agentType"@) == Some(JsonView::Str(s)) {
        json::law_the_first_name_counts(p, kinds, 1);
    }
    reveal_strlit("source");
    reveal_strlit("cwd");
    reveal_strlit("agentType");
    assert("source"@.len() == 6);
    assert("cwd"@.len() == 3);
    assert("agentType"@.len() == 9);
}

} // verus!
