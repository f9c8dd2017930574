//! The decision cache and the local "always allow" rules: what their files
//! hold, and what is still valid.

use vstd::prelude::*;
use crate::env;
use crate::env::{env_flag, Env};
use crate::interaction;
use crate::json;
use crate::json::{as_str_lossy, get, i64_field, is_truthy, parse_stored, pick, pick_str};
use crate::json::{print_compact, Json, JsonView};
use crate::proto;
use crate::proto::normalize_tool_name;
use crate::session;
use crate::sha1;
use crate::sha1::sha1_hex_prefix;
use crate::text;
use crate::text::{cat3, contains_text, same};

verus! {

broadcast use crate::json::group_json;

/// How long a cached decision holds.
pub const CACHE_TTL_MS: i64 = 90_000;

/// How long a local rule holds: 30 days.
pub const LOCAL_RULE_TTL_MS: i64 = 2_592_000_000;

/// The most rules that are kept.
pub const LOCAL_RULE_MAX: usize = 200;

// ---------------------------------------------------------------------------
// Cached decisions
// ---------------------------------------------------------------------------

/// The cache key of a request without an id, from its tool and the compact JSON
/// of its input.
pub open spec fn fallback_key_of(tool: Seq<char>, printed: Seq<char>) -> Seq<char> {
    sha1::hex_prefix(tool + ":"@ + printed, 20)
}

/// The id of a tool's use that a payload names.
pub open spec fn use_id(p: JsonView) -> Option<JsonView> {
    p.pick(seq!["tool_use_id", "tool_useId", "toolUseId"])
}

/// The key under which a payload's decision is cached.
pub open spec fn key_of(p: JsonView) -> Seq<char> {
    match use_id(p) {
        Some(v) => sha1::hex_prefix(v.lossy(), 20),
        None => fallback_key_of(
            p.pick_text(seq!["tool_name"]),
            json::compact(
                match p.field("tool_input"@) {
                    Some(v) => v,
                    None => JsonView::object(),
                },
            ),
        ),
    }
}

/// The cache key of a request without an id, from its tool and the compact JSON
/// of its input.
pub fn fallback_key(tool: &str, printed: &str) -> (r: String)
    ensures
        r@ == fallback_key_of(tool@, printed@),
{
    sha1_hex_prefix(cat3(tool, ":", printed).as_str(), 20)
}

/// The key under which a payload's decision is cached.
pub fn cache_key_for(payload: &Json) -> (r: String)
    ensures
        r@ == key_of(payload@),
{
    match pick(payload, &["tool_use_id", "tool_useId", "toolUseId"]) {
        Some(v) => sha1_hex_prefix(as_str_lossy(v).as_str(), 20),
        None => {
            let tool = pick_str(payload, &["tool_name"]);
            let printed = match get(payload, "tool_input") {
                Some(v) => json::compact_text(v),
                None => json::compact_text(&Json::object()),
            };
            fallback_key(tool.as_str(), printed.as_str())
        },
    }
}

/// The moment an entry was written, 0 where it does not say.
pub open spec fn written_at(v: JsonView) -> int {
    match v.i64_field("at"@) {
        Some(n) => n,
        None => 0,
    }
}

/// The moment an entry was written, 0 where it does not say.
pub fn read_at(v: &Json) -> (r: i64)
    ensures
        r == written_at(v@),
{
    match i64_field(v, "at") {
        Some(n) => n,
        None => 0,
    }
}

/// The decision that a cache entry still gives at `now`.
pub open spec fn cached(entry: JsonView, now: int) -> Option<JsonView> {
    if now - written_at(entry) > CACHE_TTL_MS {
        None
    } else {
        entry.field("result"@)
    }
}

/// The cache entry that holds a decision.
pub open spec fn cache_entry_of(result: JsonView, now: int) -> JsonView {
    JsonView::object().with("at"@, JsonView::Int(now)).with("result"@, result)
}

/// The decision that a cache entry still gives at `now`.
pub fn cache_read(entry: &Json, now: i64) -> (r: Option<Json>)
    ensures
        match r {
            Some(v) => cached(entry@, now as int) == Some(v@),
            None => cached(entry@, now as int) is None,
        },
{
    let at: i64 = read_at(entry);
    if (now as i128) - (at as i128) > CACHE_TTL_MS as i128 {
        return None;
    }
    match get(entry, "result") {
        Some(v) => Some(v.clone()),
        None => None,
    }
}

/// Makes the cache entry that holds a decision.
pub fn cache_entry(result: &Json, now: i64) -> (r: Json)
    ensures
        r@ == cache_entry_of(result@, now as int),
{
    Json::object().with("at", Json::integer(now)).with("result", result.clone())
}

/// A decision that was cached reads back for the next 90 seconds, and not
/// after.
pub proof fn law_cache_reads_back(result: JsonView, at: int, now: int)
    requires
        i64::MIN <= at <= i64::MAX,
    ensures
        cached(cache_entry_of(result, at), now) == (if now - at <= CACHE_TTL_MS {
            Some(result)
        } else {
            None
        }),
{
    broadcast use crate::json::group_fields;

    reveal_strlit("at");
    reveal_strlit("result");
    assert("at"@.len() == 2);
    assert("result"@.len() == 6);
}

/// The decision that a cache file's text still gives at `now`; none where there is
/// no file or it is broken.
pub open spec fn loaded(text: Option<Seq<char>>, now: int) -> Option<JsonView> {
    match text {
        Some(t) => match json::parsed(t) {
            Some(entry) => cached(entry, now),
            None => None,
        },
        None => None,
    }
}

/// The decision that a cache file's text still gives at `now`. `text` is none where
/// the file cannot be read.
pub fn cache_load(text: Option<&str>, now: i64) -> (r: Option<Json>)
    ensures
        session::owned_view(r) == loaded(interaction::opt_str(text), now as int),
{
    match text {
        Some(t) => match parse_stored(t) {
            Some(entry) => cache_read(&entry, now),
            None => None,
        },
        None => None,
    }
}

/// The text of the cache file that holds a decision. A plain decision reads back
/// from it for the next 90 seconds, and not after.
pub fn cache_write(result: &Json, now: i64) -> (r: String)
    ensures
        r@ == json::compact(cache_entry_of(result@, now as int)),
        json::plain(result@, json::MAX_DEPTH - 1) ==> forall|later: int|
            #[trigger] loaded(Some(r@), later) == (if later - now <= CACHE_TTL_MS {
                Some(result@)
            } else {
                None
            }),
{
    let entry = cache_entry(result, now);
    let r = print_compact(&entry);
    proof {
        if json::plain(result@, json::MAX_DEPTH - 1) {
            broadcast use crate::json::group_fields;

            let depth = json::MAX_DEPTH as int;
            let o = JsonView::object();
            let a = o.with("at"@, JsonView::Int(now as int));
            json::lemma_plain_with(o, "at"@, JsonView::Int(now as int), depth);
            reveal_strlit("at");
            reveal_strlit("result");
            assert("at"@.len() == 2 && "result"@.len() == 6);
            json::lemma_plain_with(a, "result"@, result@, depth);
            assert forall|later: int| #[trigger] loaded(Some(r@), later) == (if later - now
                <= CACHE_TTL_MS {
                Some(result@)
            } else {
                None
            }) by {
                law_cache_reads_back(result@, now as int, later);
            }
        }
    }
    r
}

// ---------------------------------------------------------------------------
// Local rules
// ---------------------------------------------------------------------------

/// The hosts whose "always allow" has to be kept here.
pub open spec fn rule_source(source: Seq<char>) -> bool {
    source == "vscode"@ || source == "trae"@ || source == "cursor"@ || source == "codex"@
}

/// Whether local rules apply to a host.
pub open spec fn rules_enabled(source: Seq<char>, e: Env) -> bool {
    env::flag(e.local_always_allow, true) && rule_source(source)
}

/// Whether local rules apply to a host.
pub fn local_rule_enabled(source: &str, e: &Env) -> (r: bool)
    ensures
        r == rules_enabled(source@, *e),
{
    env_flag(&e.local_always_allow, true) && (same(source, "vscode") || same(source, "trae")
        || same(source, "cursor") || same(source, "codex"))
}

/// Whether a stored rule still counts: one without a date does, one with a date
/// for 30 days.
pub open spec fn rule_alive(r: JsonView, now: int) -> bool {
    r.truthy() && match r.i64_field("at"@) {
        None => true,
        Some(at) => now - at < LOCAL_RULE_TTL_MS,
    }
}

/// The rules among the first `n` that still count.
pub open spec fn alive(list: Seq<JsonView>, now: int, n: int) -> Seq<JsonView>
    decreases n,
{
    if n <= 0 {
        Seq::empty()
    } else if rule_alive(list[n - 1], now) {
        alive(list, now, n - 1).push(list[n - 1])
    } else {
        alive(list, now, n - 1)
    }
}

/// The rules that a stored file still gives at `now`; anything but a list gives
/// none.
pub open spec fn rules_of(stored: JsonView, now: int) -> Seq<JsonView> {
    match stored {
        JsonView::Arr(a) => alive(a, now, a.len() as int),
        _ => Seq::empty(),
    }
}

/// The rules that a stored file still gives at `now`.
pub fn local_rule_read_all(stored: &Json, now: i64) -> (r: Vec<Json>)
    ensures
        json::views(r@) == rules_of(stored@, now as int),
{
    let mut r: Vec<Json> = Vec::new();
    assert(json::views(r@) =~= Seq::empty());
    if let Json::Arr(a) = stored {
        assert(stored@ == JsonView::Arr(json::views(a@)));
        let mut i: usize = 0;
        while i < a.len()
            invariant
                i <= a@.len(),
                json::views(r@) == alive(json::views(a@), now as int, i as int),
            decreases a.len() - i,
        {
            let x = &a[i];
            assert(json::views(a@)[i as int] == x@);
            let ghost before = json::views(r@);
            let lives = is_truthy(x) && match i64_field(x, "at") {
                None => true,
                Some(at) => (now as i128) - (at as i128) < LOCAL_RULE_TTL_MS as i128,
            };
            if lives {
                let c = x.clone();
                r.push(c);
                assert(json::views(r@) =~= before.push(x@));
            }
            i += 1;
        }
    }
    r
}

/// What a rule is filed under: its host and its tool's normal name.
pub open spec fn rule_key(source: Seq<char>, tool: Seq<char>) -> Seq<char> {
    source + ":"@ + proto::normal_name(tool)
}

/// What a rule is filed under: its host and its tool's normal name.
pub fn local_rule_key(source: &str, tool: &str) -> (r: String)
    ensures
        r@ == rule_key(source@, tool@),
{
    cat3(source, ":", normalize_tool_name(tool).as_str())
}

/// A rule's content, where the empty one stands for everything.
pub open spec fn or_star(rule: Seq<char>) -> Seq<char> {
    if rule.len() == 0 {
        "*"@
    } else {
        rule
    }
}

fn star_if_empty(rule: &str) -> (r: String)
    ensures
        r@ == or_star(rule@),
{
    if rule.is_empty() {
        "*".to_owned()
    } else {
        rule.to_owned()
    }
}

/// What a stored rule is filed under.
pub open spec fn stored_key(item: JsonView) -> Seq<char> {
    rule_key(item.pick_text(seq!["source"]), item.pick_text(seq!["tool"]))
}

/// The content of a stored rule.
pub open spec fn stored_rule(item: JsonView) -> Seq<char> {
    or_star(item.pick_text(seq!["rule"]))
}

fn read_key(item: &Json) -> (r: String)
    ensures
        r@ == stored_key(item@),
{
    let source = pick_str(item, &["source"]);
    let tool = pick_str(item, &["tool"]);
    local_rule_key(source.as_str(), tool.as_str())
}

fn read_rule(item: &Json) -> (r: String)
    ensures
        r@ == stored_rule(item@),
{
    let raw = pick_str(item, &["rule"]);
    star_if_empty(raw.as_str())
}

/// Whether a stored rule covers a request: same host and tool, and one content
/// holds the other, or either stands for everything.
pub open spec fn covers(item: JsonView, key: Seq<char>, rule: Seq<char>) -> bool {
    stored_key(item) == key && (stored_rule(item) == "*"@ || rule == "*"@ || text::contains(
        rule,
        stored_rule(item),
    ) || text::contains(stored_rule(item), rule))
}

/// Whether a local rule covers a request.
pub open spec fn rule_matches(
    source: Seq<char>,
    tool: Seq<char>,
    rule: Seq<char>,
    rules: Seq<JsonView>,
    e: Env,
) -> bool {
    rules_enabled(source, e) && exists|i: int|
        0 <= i < rules.len() && covers(#[trigger] rules[i], rule_key(source, tool), or_star(rule))
}

/// Whether a local rule covers a request.
pub fn local_rule_match(source: &str, tool: &str, rule: &str, rules: &[Json], e: &Env) -> (r: bool)
    ensures
        r == rule_matches(source@, tool@, rule@, json::views(rules@), *e),
{
    if !local_rule_enabled(source, e) {
        return false;
    }
    let key = local_rule_key(source, tool);
    let wanted = star_if_empty(rule);
    let mut i: usize = 0;
    while i < rules.len()
        invariant
            i <= rules@.len(),
            rules_enabled(source@, *e),
            key@ == rule_key(source@, tool@),
            wanted@ == or_star(rule@),
            forall|k: int|
                0 <= k < i ==> !covers(#[trigger] json::views(rules@)[k], key@, wanted@),
        decreases rules.len() - i,
    {
        let item = &rules[i];
        assert(json::views(rules@)[i as int] == item@);
        if same(read_key(item).as_str(), key.as_str()) {
            let saved = read_rule(item);
            if same(saved.as_str(), "*") || same(wanted.as_str(), "*") || contains_text(
                wanted.as_str(),
                saved.as_str(),
            ) || contains_text(saved.as_str(), wanted.as_str()) {
                assert(covers(json::views(rules@)[i as int], key@, wanted@));
                return true;
            }
        }
        i += 1;
    }
    false
}

/// Whether a new rule takes a stored one's place: same host and tool, and it says
/// the same. A rule for everything stays when a narrower one is added.
pub open spec fn replaced(item: JsonView, key: Seq<char>, rule: Seq<char>) -> bool {
    stored_key(item) == key && stored_rule(item) == rule
}

/// Whether a stored rule makes a new one, added at `now`, superfluous: same host
/// and tool, it stands for everything, and it counts at least as long.
pub open spec fn outdoes(item: JsonView, key: Seq<char>, now: int) -> bool {
    &&& item.truthy()
    &&& stored_key(item) == key
    &&& stored_rule(item) == "*"@
    &&& match item.i64_field("at"@) {
        None => true,
        Some(at) => now <= at,
    }
}

/// Whether one of the rules makes a new one superfluous.
pub open spec fn outdone(rules: Seq<JsonView>, key: Seq<char>, now: int) -> bool {
    exists|i: int| 0 <= i < rules.len() && outdoes(#[trigger] rules[i], key, now)
}

/// The rules among the first `n` that a new rule leaves.
pub open spec fn kept(rules: Seq<JsonView>, key: Seq<char>, rule: Seq<char>, n: int) -> Seq<
    JsonView,
>
    decreases n,
{
    if n <= 0 {
        Seq::empty()
    } else if replaced(rules[n - 1], key, rule) {
        kept(rules, key, rule, n - 1)
    } else {
        kept(rules, key, rule, n - 1).push(rules[n - 1])
    }
}

/// A new rule as it is stored.
pub open spec fn rule_entry(
    source: Seq<char>,
    tool: Seq<char>,
    rule: Seq<char>,
    now: int,
) -> JsonView {
    JsonView::object().with("source"@, JsonView::Str(source)).with("tool"@, JsonView::Str(tool)).with(
        "rule"@,
        JsonView::Str(or_star(rule)),
    ).with("at"@, JsonView::Int(now))
}

/// The last `n` items of a list.
pub open spec fn last_items(list: Seq<JsonView>, n: int) -> Seq<JsonView> {
    if list.len() > n {
        list.skip(list.len() - n)
    } else {
        list
    }
}

/// The rules after one is added: those that it does not replace, then it
/// itself, unless one of them makes it superfluous, and of these the last 200.
pub open spec fn rules_after(
    source: Seq<char>,
    tool: Seq<char>,
    rule: Seq<char>,
    rules: Seq<JsonView>,
    now: int,
) -> Seq<JsonView> {
    let left = kept(rules, rule_key(source, tool), or_star(rule), rules.len() as int);
    let few = last_items(left, LOCAL_RULE_MAX as int);
    if outdone(few, rule_key(source, tool), now) {
        few
    } else {
        last_items(left.push(rule_entry(source, tool, rule, now)), LOCAL_RULE_MAX as int)
    }
}

fn trim_rules(mut list: Vec<Json>) -> (r: Vec<Json>)
    ensures
        json::views(r@) == last_items(json::views(list@), LOCAL_RULE_MAX as int),
{
    let ghost all = json::views(list@);
    if list.len() > LOCAL_RULE_MAX {
        let start: usize = list.len() - LOCAL_RULE_MAX;
        let tail = list.split_off(start);
        assert(json::views(tail@) =~= all.skip(start as int));
        tail
    } else {
        list
    }
}

fn is_outdone(rules: &Vec<Json>, key: &str, now: i64) -> (r: bool)
    ensures
        r == outdone(json::views(rules@), key@, now as int),
{
    let mut i: usize = 0;
    while i < rules.len()
        invariant
            i <= rules@.len(),
            forall|k: int|
                0 <= k < i ==> !outdoes(#[trigger] json::views(rules@)[k], key@, now as int),
        decreases rules.len() - i,
    {
        let item = &rules[i];
        assert(json::views(rules@)[i as int] == item@);
        let lasts = match i64_field(item, "at") {
            None => true,
            Some(at) => now <= at,
        };
        if lasts && is_truthy(item) && same(read_key(item).as_str(), key) && same(
            read_rule(item).as_str(),
            "*",
        ) {
            assert(outdoes(json::views(rules@)[i as int], key@, now as int));
            return true;
        }
        i += 1;
    }
    false
}

/// Adds a rule. Gives the rules to be stored, or none where local rules do not
/// apply to the host.
pub fn local_rule_add(
    source: &str,
    tool: &str,
    rule: &str,
    rules: &[Json],
    now: i64,
    e: &Env,
) -> (r: Option<Json>)
    ensures
        r is Some == rules_enabled(source@, *e),
        r matches Some(v) ==> v@ == JsonView::Arr(
            rules_after(source@, tool@, rule@, json::views(rules@), now as int),
        ),
{
    if !local_rule_enabled(source, e) {
        return None;
    }
    let key = local_rule_key(source, tool);
    let new_rule = star_if_empty(rule);
    let mut list: Vec<Json> = Vec::new();
    assert(json::views(list@) =~= Seq::empty());
    let mut i: usize = 0;
    while i < rules.len()
        invariant
            i <= rules@.len(),
            key@ == rule_key(source@, tool@),
            new_rule@ == or_star(rule@),
            json::views(list@) == kept(json::views(rules@), key@, new_rule@, i as int),
            list@.len() <= i,
        decreases rules.len() - i,
    {
        let item = &rules[i];
        assert(json::views(rules@)[i as int] == item@);
        let ghost before = json::views(list@);
        let mut drop = false;
        if same(read_key(item).as_str(), key.as_str()) {
            let saved = read_rule(item);
            drop = same(saved.as_str(), new_rule.as_str());
        }
        if !drop {
            let c = item.clone();
            list.push(c);
            assert(json::views(list@) =~= before.push(item@));
        }
        i += 1;
    }
    let few = trim_rules(json::copy_all(list.as_slice()));
    if is_outdone(&few, key.as_str(), now) {
        return Some(Json::Arr(few));
    }
    let ghost before = json::views(list@);
    let entry = Json::object().with("source", Json::text(source)).with("tool", Json::text(tool)).with(
        "rule",
        Json::Str(new_rule),
    ).with("at", Json::integer(now));
    list.push(entry);
    assert(json::views(list@) =~= before.push(entry@));
    Some(Json::Arr(trim_rules(list)))
}

proof fn lemma_alive_keeps(list: Seq<JsonView>, now: int, n: int, i: int)
    requires
        0 <= i < n <= list.len(),
        rule_alive(list[i], now),
    ensures
        exists|k: int|
            0 <= k < alive(list, now, n).len() && #[trigger] alive(list, now, n)[k] == list[i],
    decreases n,
{
    let head = alive(list, now, n - 1);
    let all = alive(list, now, n);
    if i == n - 1 {
        assert(all[all.len() - 1] == list[i]);
    } else {
        lemma_alive_keeps(list, now, n - 1, i);
        let k = choose|k: int| 0 <= k < head.len() && #[trigger] head[k] == list[i];
        assert(all[k] == list[i]);
    }
}

proof fn lemma_entry_fields(source: Seq<char>, tool: Seq<char>, rule: Seq<char>, now: int)
    ensures
        ({
            let entry = rule_entry(source, tool, rule, now);
            &&& entry.field("source"@) == Some(JsonView::Str(source))
            &&& entry.field("tool"@) == Some(JsonView::Str(tool))
            &&& entry.field("rule"@) == Some(JsonView::Str(or_star(rule)))
            &&& entry.field("at"@) == Some(JsonView::Int(now))
        }),
{
    broadcast use crate::json::group_fields;

    reveal_strlit("source");
    reveal_strlit("tool");
    reveal_strlit("rule");
    reveal_strlit("at");
    assert("source"@.len() == 6);
    assert("tool"@[0] != "rule"@[0]);
    assert("at"@.len() == 2);
}

proof fn lemma_entry_is(source: Seq<char>, tool: Seq<char>, rule: Seq<char>, now: int)
    ensures
        stored_key(rule_entry(source, tool, rule, now)) == rule_key(source, tool),
        stored_rule(rule_entry(source, tool, rule, now)) == or_star(rule),
{
    let entry = rule_entry(source, tool, rule, now);
    lemma_entry_fields(source, tool, rule, now);
    reveal_with_fuel(JsonView::pick, 2);
    assert(entry.pick_text(seq!["source"]) =~= source);
    assert(entry.pick_text(seq!["tool"]) =~= tool);
    reveal_strlit("*");
    assert(entry.pick_text(seq!["rule"]) =~= or_star(rule));
}

proof fn lemma_entry_covers(source: Seq<char>, tool: Seq<char>, rule: Seq<char>, now: int)
    ensures
        covers(rule_entry(source, tool, rule, now), rule_key(source, tool), or_star(rule)),
{
    let entry = rule_entry(source, tool, rule, now);
    lemma_entry_is(source, tool, rule, now);
    let wanted = or_star(rule);
    assert(wanted.subrange(0, wanted.len() as int) =~= wanted);
    assert(text::occurs_at(wanted, stored_rule(entry), 0));
}

/// What the user allowed for good is allowed from then on: after a rule was
/// added, the same request is covered for the next 30 days.
pub proof fn law_always_allow_is_remembered(
    source: Seq<char>,
    tool: Seq<char>,
    rule: Seq<char>,
    rules: Seq<JsonView>,
    now: int,
    later: int,
    e: Env,
)
    requires
        rules_enabled(source, e),
        i64::MIN <= now <= i64::MAX,
        later - now < LOCAL_RULE_TTL_MS,
    ensures
        rule_matches(
            source,
            tool,
            rule,
            rules_of(JsonView::Arr(rules_after(source, tool, rule, rules, now)), later),
            e,
        ),
{
    let entry = rule_entry(source, tool, rule, now);
    let key = rule_key(source, tool);
    let list = rules_after(source, tool, rule, rules, now);
    let few = last_items(kept(rules, key, or_star(rule), rules.len() as int), LOCAL_RULE_MAX as int);
    let wanted = or_star(rule);
    let live = rules_of(JsonView::Arr(list), later);
    if outdone(few, key, now) {
        let i = choose|i: int| 0 <= i < few.len() && outdoes(#[trigger] few[i], key, now);
        lemma_alive_keeps(list, later, list.len() as int, i);
        let k = choose|k: int| 0 <= k < live.len() && #[trigger] live[k] == list[i];
        assert(covers(live[k], key, wanted));
    } else {
        assert(list.last() == entry);
        lemma_entry_fields(source, tool, rule, now);
        lemma_entry_covers(source, tool, rule, now);
        lemma_alive_keeps(list, later, list.len() as int, list.len() - 1);
        let k = choose|k: int| 0 <= k < live.len() && #[trigger] live[k] == entry;
        assert(covers(live[k], key, wanted));
    }
}

proof fn lemma_kept_has(rules: Seq<JsonView>, key: Seq<char>, rule: Seq<char>, n: int, i: int)
    requires
        0 <= i < n <= rules.len(),
        !replaced(rules[i], key, rule),
    ensures
        exists|k: int|
            0 <= k < kept(rules, key, rule, n).len() && #[trigger] kept(rules, key, rule, n)[k]
                == rules[i],
    decreases n,
{
    let head = kept(rules, key, rule, n - 1);
    let all = kept(rules, key, rule, n);
    if i == n - 1 {
        assert(all[all.len() - 1] == rules[i]);
    } else {
        lemma_kept_has(rules, key, rule, n - 1, i);
        let k = choose|k: int| 0 <= k < head.len() && #[trigger] head[k] == rules[i];
        assert(all[k] == rules[i]);
    }
}

/// Whether a rule that covers a request is among those for which there is no more
/// room once another is added.
pub open spec fn pushed_out(
    left: Seq<JsonView>,
    key: Seq<char>,
    rule: Seq<char>,
) -> bool {
    exists|k: int|
        0 <= k < left.len() && k <= left.len() - LOCAL_RULE_MAX && covers(
            #[trigger] left[k],
            key,
            rule,
        )
}

/// Adding a rule takes nothing away: a request that a rule covered before, of
/// whatever host and tool, is covered after it, unless that rule is among those for
/// which there is no more room.
pub proof fn law_adding_takes_nothing_away(
    source: Seq<char>,
    tool: Seq<char>,
    rule: Seq<char>,
    rules: Seq<JsonView>,
    now: int,
    i: int,
    for_source: Seq<char>,
    for_tool: Seq<char>,
    for_rule: Seq<char>,
    e: Env,
)
    requires
        i64::MIN <= now <= i64::MAX,
        0 <= i < rules.len(),
        rule_alive(rules[i], now),
        rules_enabled(for_source, e),
        covers(rules[i], rule_key(for_source, for_tool), or_star(for_rule)),
    ensures
        rule_matches(
            for_source,
            for_tool,
            for_rule,
            rules_of(JsonView::Arr(rules_after(source, tool, rule, rules, now)), now),
            e,
        ) || pushed_out(
            kept(rules, rule_key(source, tool), or_star(rule), rules.len() as int),
            rule_key(for_source, for_tool),
            or_star(for_rule),
        ),
{
    let key = rule_key(source, tool);
    let for_key = rule_key(for_source, for_tool);
    let wanted = or_star(for_rule);
    let entry = rule_entry(source, tool, rule, now);
    let left = kept(rules, key, or_star(rule), rules.len() as int);
    let few = last_items(left, LOCAL_RULE_MAX as int);
    let list = rules_after(source, tool, rule, rules, now);
    let live = rules_of(JsonView::Arr(list), now);
    lemma_entry_fields(source, tool, rule, now);
    if replaced(rules[i], key, or_star(rule)) {
        if outdone(few, key, now) {
            let j = choose|j: int| 0 <= j < few.len() && outdoes(#[trigger] few[j], key, now);
            lemma_alive_keeps(list, now, list.len() as int, j);
            let k = choose|k: int| 0 <= k < live.len() && #[trigger] live[k] == list[j];
            assert(covers(live[k], for_key, wanted));
        } else {
            assert(list.last() == entry);
            lemma_entry_is(source, tool, rule, now);
            lemma_alive_keeps(list, now, list.len() as int, list.len() - 1);
            let k = choose|k: int| 0 <= k < live.len() && #[trigger] live[k] == entry;
            assert(covers(live[k], for_key, wanted));
        }
    } else {
        lemma_kept_has(rules, key, or_star(rule), rules.len() as int, i);
        let k = choose|k: int| 0 <= k < left.len() && #[trigger] left[k] == rules[i];
        if k <= left.len() - LOCAL_RULE_MAX {
            assert(covers(left[k], for_key, wanted));
        } else {
            let all = left.push(entry);
            let j = if outdone(few, key, now) {
                k - (left.len() - few.len())
            } else {
                k - (all.len() - list.len())
            };
            assert(list[j] == rules[i]);
            lemma_alive_keeps(list, now, list.len() as int, j);
            let l = choose|l: int| 0 <= l < live.len() && #[trigger] live[l] == list[j];
            assert(covers(live[l], for_key, wanted));
        }
    }
}

/// The rules that a file's text still gives at `now`; none where there is no file or
/// it is broken.
pub open spec fn rules_in(text: Option<Seq<char>>, now: int) -> Seq<JsonView> {
    match text {
        Some(t) => match json::parsed(t) {
            Some(stored) => rules_of(stored, now),
            None => Seq::empty(),
        },
        None => Seq::empty(),
    }
}

/// The rules that a file's text still gives at `now`. `text` is none where the file
/// cannot be read.
pub fn local_rule_load(text: Option<&str>, now: i64) -> (r: Vec<Json>)
    ensures
        json::views(r@) == rules_in(interaction::opt_str(text), now as int),
{
    let none: Vec<Json> = Vec::new();
    assert(json::views(none@) =~= Seq::empty());
    match text {
        Some(t) => match parse_stored(t) {
            Some(stored) => local_rule_read_all(&stored, now),
            None => none,
        },
        None => none,
    }
}

/// Adds a rule. Gives the text of the file that holds the rules from then on, or none
/// where local rules do not apply to the host. Where the rules are plain, the request
/// is covered by what the file gives for the next 30 days.
pub fn local_rule_write(
    source: &str,
    tool: &str,
    rule: &str,
    rules: &[Json],
    now: i64,
    e: &Env,
) -> (r: Option<String>)
    ensures
        ({
            let after = JsonView::Arr(
                rules_after(source@, tool@, rule@, json::views(rules@), now as int),
            );
            &&& r is Some == rules_enabled(source@, *e)
            &&& r matches Some(t) ==> t@ == json::compact(after) && (json::plain(
                after,
                json::MAX_DEPTH as int,
            ) ==> forall|later: int|
                later - now < LOCAL_RULE_TTL_MS ==> rule_matches(
                    source@,
                    tool@,
                    rule@,
                    #[trigger] rules_in(Some(t@), later),
                    *e,
                ))
        }),
{
    match local_rule_add(source, tool, rule, rules, now, e) {
        Some(after) => {
            let t = print_compact(&after);
            proof {
                if json::plain(after@, json::MAX_DEPTH as int) {
                    assert forall|later: int|
                        later - now < LOCAL_RULE_TTL_MS implies rule_matches(
                        source@,
                        tool@,
                        rule@,
                        #[trigger] rules_in(Some(t@), later),
                        *e,
                    ) by {
                        law_always_allow_is_remembered(
                            source@,
                            tool@,
                            rule@,
                            json::views(rules@),
                            now as int,
                            later,
                            *e,
                        );
                    }
                }
            }
            Some(t)
        },
        None => None,
    }
}

/// Never more than 200 rules are kept.
pub proof fn law_rules_stay_few(
    source: Seq<char>,
    tool: Seq<char>,
    rule: Seq<char>,
    rules: Seq<JsonView>,
    now: int,
)
    ensures
        0 < rules_after(source, tool, rule, rules, now).len() <= LOCAL_RULE_MAX,
{
}

// ---------------------------------------------------------------------------
// What counts, and for how long
// ---------------------------------------------------------------------------

/// A cached decision counts for ninety seconds, to the millisecond.
pub proof fn law_decisions_count_for_ninety_seconds(result: JsonView, at: int, now: int)
    requires
        i64::MIN <= at <= i64::MAX,
    ensures
        now - at <= 90_000 ==> cached(cache_entry_of(result, at), now) == Some(result),
        now - at > 90_000 ==> cached(cache_entry_of(result, at), now) is None,
        cache_entry_of(result, at).field("result"@) == Some(result),
        cache_entry_of(result, at).field("at"@) == Some(JsonView::Int(at)),
{
    broadcast use crate::json::group_fields;

    law_cache_reads_back(result, at, now);
    reveal_strlit("at");
    reveal_strlit("result");
    assert("at"@.len() == 2);
    assert("result"@.len() == 6);
}

/// Two payloads for the same use of a tool have one key, by whichever of its names
/// each gives the use's id.
pub proof fn law_one_use_has_one_key(p: JsonView, q: JsonView, id: Seq<char>)
    requires
        id.len() > 0,
        p.field("tool_use_id"@) == Some(JsonView::Str(id)),
        q.field("tool_use_id"@) == Some(JsonView::Str(id)) || (q.field("tool_use_id"@) is None
            && q.field("tool_useId"@) is None && q.field("toolUseId"@) == Some(JsonView::Str(id))),
    ensures
        key_of(q) == key_of(p),
{
    let keys: Seq<&str> = seq!["tool_use_id", "tool_useId", "toolUseId"];
    assert(keys[0]@ == "tool_use_id"@ && keys[1]@ == "tool_useId"@ && keys[2]@ == "toolUseId"@);
    json::law_the_first_name_counts(p, keys, 0);
    if q.field("tool_use_id"@) is None {
        json::law_the_first_name_counts(q, keys, 2);
    } else {
        json::law_the_first_name_counts(q, keys, 0);
    }
}

/// Local rules are for four hosts, which keep none of their own; for the others, and
/// where they are switched off, none counts.
pub proof fn law_rules_are_for_four_hosts(
    source: Seq<char>,
    tool: Seq<char>,
    rule: Seq<char>,
    rules: Seq<JsonView>,
    e: Env,
)
    ensures
        e.local_always_allow is None && (source == "vscode"@ || source == "trae"@ || source
            == "cursor"@ || source == "codex"@) ==> rules_enabled(source, e),
        source != "vscode"@ && source != "trae"@ && source != "cursor"@ && source != "codex"@
            ==> !rule_matches(source, tool, rule, rules, e),
        (e.local_always_allow matches Some(v) && (v@ == "0"@ || v@ == "false"@ || v@ == "no"@ || v@
            == "off"@)) ==> !rule_matches(source, tool, rule, rules, e),
{
    if let Some(v) = e.local_always_allow {
        env::law_four_words_switch_off(v, true);
    }
}

/// A rule counts for thirty days; one that does not say when it was made, always.
pub proof fn law_rules_count_for_thirty_days(r: JsonView, at: int, now: int)
    requires
        r is Obj,
    ensures
        r.field("at"@) == Some(JsonView::Int(at)) && i64::MIN <= at <= i64::MAX ==> rule_alive(r, now)
            == (now - at < 2_592_000_000),
        r.field("at"@) is None ==> rule_alive(r, now),
{
}

proof fn lemma_letters_are_alnum(s: Seq<char>)
    ensures
        forall|i: int| 0 <= i < proto::letters(s).len() ==> #[trigger] proto::letters(s)[i] != ':',
    decreases s.len(),
{
    if s.len() > 0 {
        lemma_letters_are_alnum(s.drop_last());
        let c = s.last();
        let n = text::lower(c) as u32;
        assert(text::alnum(c) ==> n == c as u32 || n == c as u32 + 32);
        assert(text::alnum(c) ==> text::lower(c) != ':');
        let head = proto::letters(s.drop_last());
        let all = proto::letters(s);
        assert forall|i: int| 0 <= i < all.len() implies #[trigger] all[i] != ':' by {
            if i < head.len() {
                assert(all[i] == head[i]);
            }
        }
    }
}

proof fn lemma_names_have_no_colon(name: Seq<char>)
    ensures
        forall|i: int|
            0 <= i < proto::normal_name(name).len() ==> #[trigger] proto::normal_name(name)[i] != ':',
{
    let l = proto::letters(proto::without_namespace(name));
    lemma_letters_are_alnum(proto::without_namespace(name));
    let n = proto::normal_name(name);
    assert forall|i: int| 0 <= i < n.len() implies #[trigger] n[i] != ':' by {
        if text::starts_with(l, "vscode"@) {
            assert(n[i] == l[i + "vscode"@.len()]);
        } else {
            assert(n[i] == l[i]);
        }
    }
}

proof fn lemma_keys_differ(a: Seq<char>, t: Seq<char>, b: Seq<char>, u: Seq<char>)
    requires
        rule_key(a, t) == rule_key(b, u),
    ensures
        a == b,
        proto::normal_name(t) == proto::normal_name(u),
{
    reveal_strlit(":");
    let x = proto::normal_name(t);
    let y = proto::normal_name(u);
    let key = rule_key(a, t);
    lemma_names_have_no_colon(t);
    lemma_names_have_no_colon(u);
    assert(":"@.len() == 1 && ":"@[0] == ':');
    assert(key[a.len() as int] == ':');
    assert(rule_key(b, u)[b.len() as int] == ':');
    let p = a + ":"@;
    let q = b + ":"@;
    assert(p.len() == a.len() + 1 && q.len() == b.len() + 1);
    assert(key == p + x);
    assert(rule_key(b, u) == q + y);
    assert((p + x).len() == p.len() + x.len());
    assert((q + y).len() == q.len() + y.len());
    assert(p.len() + x.len() == q.len() + y.len());
    if a.len() < b.len() {
        let i = b.len() as int;
        assert((p + x)[i] == x[i - p.len()]);
        assert(x[i - p.len()] != ':');
    }
    if b.len() < a.len() {
        let i = a.len() as int;
        assert((q + y)[i] == y[i - q.len()]);
        assert(y[i - q.len()] != ':');
    }
    assert(a =~= key.take(a.len() as int));
    assert(b =~= rule_key(b, u).take(b.len() as int));
    assert(x =~= key.skip(a.len() as int + 1));
    assert(y =~= rule_key(b, u).skip(b.len() as int + 1));
}

/// A rule covers requests of its own host and tool only, and of those the ones that
/// its words cover: all where it, or the request, names none, else those that hold its
/// words, or that its words hold.
pub proof fn law_a_rule_covers_its_own_requests(
    source: Seq<char>,
    tool: Seq<char>,
    wanted: Seq<char>,
    item: JsonView,
    of: Seq<char>,
    kept_tool: Seq<char>,
    kept_rule: Seq<char>,
    e: Env,
)
    requires
        rules_enabled(source, e),
        item.field("source"@) == Some(JsonView::Str(of)),
        item.field("tool"@) == Some(JsonView::Str(kept_tool)),
        item.field("rule"@) == Some(JsonView::Str(kept_rule)),
        kept_rule.len() > 0,
        wanted.len() > 0,
    ensures
        rule_matches(source, tool, wanted, seq![item], e) <==> (of == source && proto::normal_name(
            kept_tool,
        ) == proto::normal_name(tool) && (kept_rule == "*"@ || wanted == "*"@ || text::contains(
            wanted,
            kept_rule,
        ) || text::contains(kept_rule, wanted))),
{
    json::lemma_picked(item, "source", JsonView::Str(of));
    json::lemma_picked(item, "tool", JsonView::Str(kept_tool));
    json::lemma_picked(item, "rule", JsonView::Str(kept_rule));
    let rules = seq![item];
    assert(rules[0] == item);
    if stored_key(item) == rule_key(source, tool) {
        lemma_keys_differ(of, kept_tool, source, tool);
    }
    if covers(item, rule_key(source, tool), wanted) {
        assert(covers(rules[0], rule_key(source, tool), or_star(wanted)));
    }
}

/// A new rule is written with its host, its tool, its words and the moment, after all
/// others, unless one that covers everything of that host and tool outlasts it; and
/// never are there more than two hundred.
pub proof fn law_a_new_rule_is_written(
    source: Seq<char>,
    tool: Seq<char>,
    rule: Seq<char>,
    rules: Seq<JsonView>,
    now: int,
)
    ensures
        0 < rules_after(source, tool, rule, rules, now).len() <= 200,
        rules.len() == 0 ==> rules_after(source, tool, rule, rules, now).len() == 1,
        rules.len() == 0 ==> ({
            let r = rules_after(source, tool, rule, rules, now).last();
            &&& r.field("source"@) == Some(JsonView::Str(source))
            &&& r.field("tool"@) == Some(JsonView::Str(tool))
            &&& rule.len() > 0 ==> r.field("rule"@) == Some(JsonView::Str(rule))
            &&& rule.len() == 0 ==> r.field("rule"@) == Some(JsonView::Str("*"@))
            &&& r.field("at"@) == Some(JsonView::Int(now))
        }),
{
    broadcast use crate::json::group_fields;

    law_rules_stay_few(source, tool, rule, rules, now);
    reveal_strlit("source");
    reveal_strlit("tool");
    reveal_strlit("rule");
    reveal_strlit("at");
    assert("source"@.len() == 6);
    assert("tool"@.len() == 4);
    assert("rule"@.len() == 4);
    assert("at"@.len() == 2);
    assert("tool"@[0] == 't');
    assert("rule"@[0] == 'r');
    if rules.len() == 0 {
        let left = kept(rules, rule_key(source, tool), or_star(rule), 0);
        assert(left =~= Seq::empty());
        assert(!outdone(last_items(left, LOCAL_RULE_MAX as int), rule_key(source, tool), now));
    }
}

/// A use without an id is known by its tool and input, and a rule by its host and the
/// tool's plain name.
pub proof fn law_uses_without_an_id(p: JsonView, tool: Seq<char>, input: JsonView, host: Seq<char>)
    requires
        p.field("tool_use_id"@) is None,
        p.field("tool_useId"@) is None,
        p.field("toolUseId"@) is None,
        p.field("tool_name"@) == Some(JsonView::Str(tool)),
        p.field("tool_input"@) == Some(input),
    ensures
        key_of(p) == sha1::hex_prefix(tool + ":"@ + json::compact(input), 20),
        rule_key(host, tool) == host + ":"@ + proto::normal_name(tool),
{
    let keys: Seq<&str> = seq!["tool_use_id", "tool_useId", "toolUseId"];
    assert(keys[0]@ == "tool_use_id"@ && keys[1]@ == "tool_useId"@ && keys[2]@ == "toolUseId"@);
    json::law_no_name_counts(p, keys);
    json::lemma_picked(p, "tool_name", JsonView::Str(tool));
}

} // verus!
