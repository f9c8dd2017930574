//! The popups that wait for the user: one may be open, any number may be put
//! aside, and each is settled exactly once.

use vstd::prelude::*;
use crate::json;
use crate::json::{get, Json, JsonView};
use crate::payload;
use crate::payload::default_action_of;
use crate::random::random_bytes;
use crate::session;
use crate::text;
use crate::text::{cat2, cat3, first_or, fold_chars, hex, same, text_between};

verus! {

broadcast use crate::json::group_json;

// ---------------------------------------------------------------------------
// Decisions
// ---------------------------------------------------------------------------

/// How a popup ended.
pub struct Decision {
    pub action: Option<String>,
    pub answers: Json,
    pub text: String,
    /// Who decided: `user`, `timeout`, `dismissed` or `shown`.
    pub decided_by: &'static str,
}

/// The model of a [`Decision`].
pub struct DecisionView {
    pub action: Option<Seq<char>>,
    pub answers: JsonView,
    pub text: Seq<char>,
    pub decided_by: Seq<char>,
}

/// The model of an optional text.
pub open spec fn opt_text(o: Option<String>) -> Option<Seq<char>> {
    match o {
        Some(s) => Some(s@),
        None => None,
    }
}

impl View for Decision {
    type V = DecisionView;

    open spec fn view(&self) -> DecisionView {
        DecisionView {
            action: opt_text(self.action),
            answers: self.answers@,
            text: self.text@,
            decided_by: self.decided_by@,
        }
    }
}

/// An end without answers.
pub open spec fn bare(action: Option<Seq<char>>, decided_by: Seq<char>) -> DecisionView {
    DecisionView { action, answers: JsonView::object(), text: Seq::empty(), decided_by }
}

/// An end as it is reported.
pub open spec fn decision_json(d: DecisionView, kind: Seq<char>) -> JsonView {
    JsonView::object().with("ok"@, JsonView::Bool(true)).with("kind"@, JsonView::Str(kind)).with(
        "action"@,
        match d.action {
            Some(a) => JsonView::Str(a),
            None => JsonView::Null,
        },
    ).with("answers"@, d.answers).with("text"@, JsonView::Str(d.text)).with(
        "decidedBy"@,
        JsonView::Str(d.decided_by),
    )
}

impl Decision {
    /// The user decided in the popup.
    pub fn user(action: String, answers: Json, text: String) -> (r: Decision)
        ensures
            r@ == (DecisionView {
                action: Some(action@),
                answers: answers@,
                text: text@,
                decided_by: "user"@,
            }),
    {
        Decision { action: Some(action), answers, text, decided_by: "user" }
    }

    /// The popup was closed or replaced: nothing was decided.
    pub fn dismissed() -> (r: Decision)
        ensures
            r@ == bare(None, "dismissed"@),
    {
        Decision {
            action: None,
            answers: Json::object(),
            text: String::new(),
            decided_by: "dismissed",
        }
    }

    /// The wait is over: the popup falls back to its default action.
    pub fn timeout(default_action: Option<String>) -> (r: Decision)
        ensures
            r@ == bare(opt_text(default_action), "timeout"@),
    {
        Decision {
            action: default_action,
            answers: Json::object(),
            text: String::new(),
            decided_by: "timeout",
        }
    }

    /// A notification was shown, which waits for nothing.
    pub fn shown() -> (r: Decision)
        ensures
            r@ == bare(Some("shown"@), "shown"@),
    {
        Decision {
            action: Some("shown".to_owned()),
            answers: Json::object(),
            text: String::new(),
            decided_by: "shown",
        }
    }

    /// The end as it is reported.
    pub fn to_json(&self, kind: &str) -> (r: Json)
        ensures
            r@ == decision_json(self@, kind@),
    {
        let action = match &self.action {
            Some(a) => Json::text(a.as_str()),
            None => Json::Null,
        };
        Json::object().with("ok", Json::Bool(true)).with("kind", Json::text(kind)).with(
            "action",
            action,
        ).with("answers", self.answers.clone()).with("text", Json::text(self.text.as_str())).with(
            "decidedBy",
            Json::text(self.decided_by),
        )
    }
}

// ---------------------------------------------------------------------------
// The store
// ---------------------------------------------------------------------------

/// Whether a popup is open or put aside.
#[derive(Clone, Copy, PartialEq, Eq, Structural, Debug)]
pub enum PendingState {
    /// The popup is open.
    Active,
    /// The user put it aside; it still waits.
    Held,
}

impl PendingState {
    /// The state's name.
    pub open spec fn name(self) -> Seq<char> {
        match self {
            PendingState::Active => "active"@,
            PendingState::Held => "held"@,
        }
    }

    /// The state's name.
    pub fn as_str(self) -> (r: &'static str)
        ensures
            r@ == self.name(),
    {
        match self {
            PendingState::Active => "active",
            PendingState::Held => "held",
        }
    }
}

/// A popup that waits.
pub struct Pending {
    pub kind: String,
    pub default_action: Option<String>,
    pub state: PendingState,
    pub held_at: i64,
    pub expires_at: i64,
    /// What the popup shows; it is shown again when it is taken up again.
    pub payload: Json,
}

/// The model of a [`Pending`].
pub struct PendingView {
    pub kind: Seq<char>,
    pub default_action: Option<Seq<char>>,
    pub state: PendingState,
    pub held_at: int,
    pub expires_at: int,
    pub payload: JsonView,
}

impl View for Pending {
    type V = PendingView;

    open spec fn view(&self) -> PendingView {
        PendingView {
            kind: self.kind@,
            default_action: opt_text(self.default_action),
            state: self.state,
            held_at: self.held_at as int,
            expires_at: self.expires_at as int,
            payload: self.payload@,
        }
    }
}

/// The popups that wait, by their ids.
pub struct Store {
    pending: Vec<(String, Pending)>,
}

/// The model of a [`Store`]: its entries in the order in which they came.
pub type Entries = Seq<(Seq<char>, PendingView)>;

/// Whether no two entries share an id.
pub open spec fn distinct(s: Entries) -> bool {
    forall|i: int, j: int| 0 <= i < j < s.len() ==> #[trigger] s[i].0 != #[trigger] s[j].0
}

/// The place of an id, or the number of entries when it is not there.
pub open spec fn place_of(s: Entries, id: Seq<char>) -> int
    decreases s.len(),
{
    if s.len() == 0 || s[0].0 == id {
        0
    } else {
        1 + place_of(s.drop_first(), id)
    }
}

/// The entry of an id.
pub open spec fn entry_of(s: Entries, id: Seq<char>) -> Option<PendingView> {
    if place_of(s, id) < s.len() {
        Some(s[place_of(s, id)].1)
    } else {
        None
    }
}

/// The entries without that of an id.
pub open spec fn without(s: Entries, id: Seq<char>) -> Entries {
    if place_of(s, id) < s.len() {
        s.remove(place_of(s, id))
    } else {
        s
    }
}

/// The entries with one set.
pub open spec fn with_entry(s: Entries, id: Seq<char>, p: PendingView) -> Entries {
    if place_of(s, id) < s.len() {
        s.update(place_of(s, id), (id, p))
    } else {
        s.push((id, p))
    }
}

/// Whether an entry ends when the store is cleared of all but one, and of those
/// put aside too unless they are kept.
pub open spec fn goes(e: (Seq<char>, PendingView), spared: Option<Seq<char>>, keep_held: bool) -> bool {
    Some(e.0) != spared && !(keep_held && e.1.state == PendingState::Held)
}

/// The entries that stay when the store is cleared.
pub open spec fn kept(s: Entries, spared: Option<Seq<char>>, keep_held: bool) -> Entries {
    s.filter(|e: (Seq<char>, PendingView)| !goes(e, spared, keep_held))
}

/// The ids of the entries that end when the store is cleared.
pub open spec fn ended(s: Entries, spared: Option<Seq<char>>, keep_held: bool) -> Seq<Seq<char>> {
    s.filter(|e: (Seq<char>, PendingView)| goes(e, spared, keep_held)).map_values(
        |e: (Seq<char>, PendingView)| e.0,
    )
}

proof fn lemma_place(s: Entries, id: Seq<char>)
    ensures
        0 <= place_of(s, id) <= s.len(),
        forall|j: int| 0 <= j < place_of(s, id) ==> (#[trigger] s[j]).0 != id,
        place_of(s, id) < s.len() ==> s[place_of(s, id)].0 == id,
    decreases s.len(),
{
    if s.len() > 0 && s[0].0 != id {
        let rest = s.drop_first();
        lemma_place(rest, id);
        assert forall|j: int| 0 <= j < place_of(s, id) implies (#[trigger] s[j]).0 != id by {
            if j > 0 {
                assert(rest[j - 1] == s[j]);
            }
        }
    }
}

/// A new entry for a popup that opens at `now`.
pub open spec fn opened(payload: JsonView, timeout_ms: int, now: int) -> PendingView {
    PendingView {
        kind: match payload.text_field("kind"@) {
            Some(k) => k,
            None => "custom"@,
        },
        default_action: payload::filled(payload.field("defaultAction"@)),
        state: PendingState::Active,
        held_at: 0,
        expires_at: now + timeout_ms,
        payload,
    }
}

/// What the entry points to put-aside popups show of an entry.
pub open spec fn summary(id: Seq<char>, p: PendingView) -> JsonView {
    JsonView::object().with("id"@, JsonView::Str(id)).with("kind"@, JsonView::Str(p.kind)).with(
        "state"@,
        JsonView::Str(p.state.name()),
    ).with("heldAt"@, JsonView::Int(p.held_at)).with("expiresAt"@, JsonView::Int(p.expires_at)).with(
        "title"@,
        JsonView::Str(named(p.payload, "title"@)),
    ).with("message"@, JsonView::Str(named(p.payload, "message"@))).with(
        "source"@,
        JsonView::Str(named(p.payload, "source"@)),
    ).with(
        "tool"@,
        JsonView::Str(
            text::either(inner_tool(p.payload, "context"@), inner_tool(p.payload, "permission"@)),
        ),
    )
}

/// The tool that a part of a popup names, empty where it names none.
pub open spec fn inner_tool(p: JsonView, part: Seq<char>) -> Seq<char> {
    match p.field(part) {
        Some(c) => match c.text_field("tool"@) {
            Some(t) => t,
            None => Seq::empty(),
        },
        None => Seq::empty(),
    }
}

fn text_or_empty(p: &Json, k: &str) -> (r: String)
    ensures
        r@ == (match p@.text_field(k@) {
            Some(s) => s,
            None => Seq::empty(),
        }),
{
    match json::text_field(p, k) {
        Some(s) => s.to_owned(),
        None => String::new(),
    }
}

fn read_inner_tool(p: &Json, part: &str) -> (r: String)
    ensures
        r@ == inner_tool(p@, part@),
{
    match get(p, part) {
        Some(c) => text_or_empty(c, "tool"),
        None => String::new(),
    }
}

/// What the entry points to put-aside popups show of an entry.
pub fn summary_of(id: &str, p: &Pending) -> (r: Json)
    ensures
        r@ == summary(id@, p@),
{
    let tool = first_or(
        read_inner_tool(&p.payload, "context").as_str(),
        read_inner_tool(&p.payload, "permission").as_str(),
    );
    Json::object().with("id", Json::text(id)).with("kind", Json::text(p.kind.as_str())).with(
        "state",
        Json::text(p.state.as_str()),
    ).with("heldAt", Json::integer(p.held_at)).with("expiresAt", Json::integer(p.expires_at)).with(
        "title",
        Json::Str(text_or_empty(&p.payload, "title")),
    ).with("message", Json::Str(text_or_empty(&p.payload, "message"))).with(
        "source",
        Json::Str(text_or_empty(&p.payload, "source")),
    ).with("tool", Json::Str(tool))
}

/// The model of an optional text slice.
pub open spec fn opt_str(o: Option<&str>) -> Option<Seq<char>> {
    match o {
        Some(s) => Some(s@),
        None => None,
    }
}

fn is_spared(id: &str, spared: Option<&str>) -> (r: bool)
    ensures
        r == (Some(id@) == opt_str(spared)),
{
    match spared {
        Some(s) => same(id, s),
        None => false,
    }
}

proof fn lemma_distinct_kept(s: Entries, spared: Option<Seq<char>>, keep_held: bool)
    requires
        distinct(s),
    ensures
        distinct(kept(s, spared, keep_held)),
        forall|e: (Seq<char>, PendingView)| #[trigger]
            kept(s, spared, keep_held).contains(e) <==> s.contains(e) && !goes(e, spared, keep_held),
    decreases s.len(),
{
    reveal(Seq::filter);
    let r = kept(s, spared, keep_held);
    if s.len() > 0 {
        let head = s.drop_last();
        lemma_distinct_kept(head, spared, keep_held);
        let h = kept(head, spared, keep_held);
        assert(s =~= head.push(s.last()));
        assert forall|e: (Seq<char>, PendingView)| #[trigger] s.contains(e) <==> head.contains(e)
            || e == s.last() by {
            if head.contains(e) {
                let i = choose|i: int| 0 <= i < head.len() && head[i] == e;
                assert(s[i] == e);
            }
            if s.contains(e) && e != s.last() {
                let i = choose|i: int| 0 <= i < s.len() && s[i] == e;
                assert(head[i] == e);
            }
            assert(s[s.len() - 1] == s.last());
        }
        if !goes(s.last(), spared, keep_held) {
            assert(r == h.push(s.last()));
            assert forall|e: (Seq<char>, PendingView)| #[trigger] r.contains(e) <==> h.contains(e)
                || e == s.last() by {
                if h.contains(e) {
                    let i = choose|i: int| 0 <= i < h.len() && h[i] == e;
                    assert(r[i] == e);
                }
                if r.contains(e) && e != s.last() {
                    let i = choose|i: int| 0 <= i < r.len() && r[i] == e;
                    assert(h[i] == e);
                }
                assert(r[r.len() - 1] == s.last());
            }
            assert forall|i: int, j: int| 0 <= i < j < r.len() implies #[trigger] r[i].0
                != #[trigger] r[j].0 by {
                if j == h.len() {
                    assert(h.contains(h[i]));
                    let k = choose|k: int| 0 <= k < head.len() && head[k] == h[i];
                    assert(s[k].0 != s[s.len() - 1].0);
                } else {
                    assert(h[i].0 != h[j].0);
                }
            }
        } else {
            assert(r == h);
        }
    } else {
        assert(r =~= s);
    }
}

proof fn lemma_distinct_with(s: Entries, id: Seq<char>, p: PendingView)
    requires
        distinct(s),
    ensures
        distinct(with_entry(s, id, p)),
        with_entry(s, id, p).contains((id, p)),
        forall|e: (Seq<char>, PendingView)| #[trigger]
            with_entry(s, id, p).contains(e) <==> e == (id, p) || (s.contains(e) && e.0 != id),
{
    lemma_place(s, id);
    let n = with_entry(s, id, p);
    let k = place_of(s, id);
    assert(n[k] == (id, p));
    assert forall|i: int, j: int| 0 <= i < j < n.len() implies #[trigger] n[i].0
        != #[trigger] n[j].0 by {
        if j < s.len() {
            assert(s[i].0 != s[j].0);
        } else {
            assert(s[i].0 != id);
        }
    }
    assert forall|e: (Seq<char>, PendingView)| #[trigger] n.contains(e) <==> e == (id, p) || (
    s.contains(e) && e.0 != id) by {
        if n.contains(e) && e != (id, p) {
            let i = choose|i: int| 0 <= i < n.len() && n[i] == e;
            assert(s[i] == e);
            if k < s.len() {
                assert(n[i].0 != n[k].0);
            } else {
                assert(n[i].0 != n[s.len() as int].0);
            }
        }
        if s.contains(e) && e.0 != id {
            let i = choose|i: int| 0 <= i < s.len() && s[i] == e;
            assert(n[i] == e);
        }
    }
}

/// The entry of an id is the one that carries it.
pub proof fn lemma_entry(s: Entries, id: Seq<char>, p: PendingView)
    requires
        distinct(s),
        s.contains((id, p)),
    ensures
        entry_of(s, id) == Some(p),
{
    lemma_place(s, id);
    let i = choose|i: int| 0 <= i < s.len() && s[i] == (id, p);
    let k = place_of(s, id);
    if k < i {
        assert(s[k].0 != s[i].0);
    }
    if i < k {
        assert(s[i].0 != id);
    }
}

/// Whether what is open was never put aside, or was taken up again since.
pub open spec fn marked(s: Entries) -> bool {
    forall|i: int|
        0 <= i < s.len() && (#[trigger] s[i]).1.state == PendingState::Active ==> s[i].1.held_at
            == 0
}

/// An entry when it is put aside at `now`.
pub open spec fn put_aside(p: PendingView, now: int) -> PendingView {
    PendingView { state: PendingState::Held, held_at: now, ..p }
}

/// An entry when it is taken up again.
pub open spec fn taken_up(p: PendingView) -> PendingView {
    PendingView { state: PendingState::Active, held_at: 0, ..p }
}

/// The entries after one is put aside at `now`; nothing changes where it is not
/// there or put aside already.
pub open spec fn after_hold(s: Entries, id: Seq<char>, now: int) -> Entries {
    match entry_of(s, id) {
        Some(p) if p.state == PendingState::Active => with_entry(s, id, put_aside(p, now)),
        _ => s,
    }
}

/// The entries after one is taken up again; nothing changes where it is not
/// there or not put aside.
pub open spec fn after_reopen(s: Entries, id: Seq<char>) -> Entries {
    match entry_of(s, id) {
        Some(p) if p.state == PendingState::Held => with_entry(s, id, taken_up(p)),
        _ => s,
    }
}

/// The entries after a popup opens at `now`.
pub open spec fn after_register(
    s: Entries,
    id: Seq<char>,
    payload: JsonView,
    timeout_ms: int,
    now: int,
) -> Entries {
    kept(with_entry(s, id, opened(payload, timeout_ms, now)), Some(id), true)
}

// ---------------------------------------------------------------------------
// Lists
// ---------------------------------------------------------------------------

/// When a listed popup was put aside.
pub open spec fn held_at_of(v: JsonView) -> int {
    match v.i64_field("heldAt"@) {
        Some(n) => n,
        None => 0,
    }
}

fn read_held_at(v: &Json) -> (r: i64)
    ensures
        r == held_at_of(v@),
{
    match json::i64_field(v, "heldAt") {
        Some(n) => n,
        None => 0,
    }
}

/// The list with one more, behind all that were not put aside later.
pub open spec fn inserted(list: Seq<JsonView>, v: JsonView) -> Seq<JsonView>
    decreases list.len(),
{
    if list.len() == 0 || held_at_of(list.last()) <= held_at_of(v) {
        list.push(v)
    } else {
        inserted(list.drop_last(), v).push(list.last())
    }
}

/// What is shown of the first `n` entries, in the order in which they were put
/// aside.
pub open spec fn earliest_first(s: Entries, n: int) -> Seq<JsonView>
    decreases n,
{
    if n <= 0 {
        Seq::empty()
    } else {
        inserted(earliest_first(s, n - 1), summary(s[n - 1].0, s[n - 1].1))
    }
}

fn insert_summary(list: &mut Vec<Json>, v: Json)
    ensures
        json::views(final(list)@) == inserted(json::views(old(list)@), v@),
{
    let ghost before = json::views(list@);
    let at: i64 = read_held_at(&v);
    let mut i: usize = list.len();
    assert(before.take(i as int) =~= before);
    assert(inserted(before.take(i as int), v@) + before.skip(i as int) =~= inserted(before, v@));
    while i > 0 && read_held_at(&list[i - 1]) > at
        invariant
            i <= list@.len(),
            before == json::views(list@),
            at == held_at_of(v@),
            inserted(before, v@) == inserted(before.take(i as int), v@) + before.skip(i as int),
        decreases i,
    {
        proof {
            let t = before.take(i as int);
            assert(t.last() == list@[i - 1]@);
            assert(t.drop_last() =~= before.take(i - 1));
            assert(inserted(before.take(i - 1), v@).push(t.last()) + before.skip(i as int)
                =~= inserted(before.take(i - 1), v@) + before.skip(i - 1));
        }
        i -= 1;
    }
    proof {
        let t = before.take(i as int);
        if i > 0 {
            assert(t.last() == list@[i - 1]@);
        }
        assert(inserted(t, v@) == t.push(v@));
    }
    list.insert(i, v);
    assert(json::views(list@) =~= before.take(i as int).push(v@) + before.skip(i as int));
}

/// Whether a listed popup was put aside.
pub open spec fn is_aside(v: JsonView) -> bool {
    v.text_field("state"@) == Some("held"@)
}

/// What is shown of the popups that were put aside, earliest first.
pub open spec fn held_list(s: Entries) -> Seq<JsonView> {
    earliest_first(s, s.len() as int).filter(|v: JsonView| is_aside(v))
}

/// The place of the entry that was put aside first; an open one counts as
/// earlier than any.
pub open spec fn first_place(s: Entries, n: int) -> int
    decreases n,
{
    if n <= 1 {
        0
    } else {
        let k = first_place(s, n - 1);
        if s[n - 1].1.held_at < s[k].1.held_at {
            n - 1
        } else {
            k
        }
    }
}

/// The member named `k`, or null.
pub open spec fn or_null(v: JsonView, k: Seq<char>) -> JsonView {
    match v.field(k) {
        Some(x) => x,
        None => JsonView::Null,
    }
}

fn get_or_null(v: &Json, k: &str) -> (r: Json)
    ensures
        r@ == or_null(v@, k@),
{
    match get(v, k) {
        Some(x) => x.clone(),
        None => Json::Null,
    }
}

/// What the main window's hint shows of a listed popup.
pub open spec fn chip(v: JsonView) -> JsonView {
    JsonView::object().with("id"@, or_null(v, "id"@)).with("kind"@, or_null(v, "kind"@)).with(
        "label"@,
        JsonView::Str(label(v)),
    ).with("title"@, or_null(v, "title"@))
}

impl Store {
    pub closed spec fn view(&self) -> Entries {
        self.pending@.map_values(|e: (String, Pending)| (e.0@, e.1@))
    }

    /// No two popups share an id, and an open one is not marked as put aside.
    pub open spec fn wf(&self) -> bool {
        distinct(self@) && marked(self@)
    }

    /// A store without popups.
    pub fn new() -> (r: Store)
        ensures
            r.wf(),
            r@ == Entries::empty(),
    {
        let r = Store { pending: Vec::new() };
        assert(r@ =~= Entries::empty());
        r
    }

    fn place(&self, id: &str) -> (i: usize)
        ensures
            i == place_of(self@, id@),
            i <= self.pending@.len(),
            self@.len() == self.pending@.len(),
            i < self@.len() ==> self@[i as int].0 == id@,
    {
        let mut i: usize = 0;
        proof {
            lemma_place(self@, id@);
        }
        while i < self.pending.len()
            invariant
                i <= self.pending@.len(),
                self@.len() == self.pending@.len(),
                i <= place_of(self@, id@) <= self@.len(),
                place_of(self@, id@) < self@.len() ==> self@[place_of(self@, id@)].0 == id@,
                forall|j: int| 0 <= j < place_of(self@, id@) ==> (#[trigger] self@[j]).0 != id@,
            decreases self.pending.len() - i,
        {
            assert(self@[i as int].0 == self.pending@[i as int].0@);
            if same(self.pending[i].0.as_str(), id) {
                return i;
            }
            i += 1;
        }
        i
    }

    fn sweep(&mut self, spared: Option<&str>, keep_held: bool) -> (gone: Vec<String>)
        ensures
            final(self)@ == kept(old(self)@, opt_str(spared), keep_held),
            text::texts(gone@) == ended(old(self)@, opt_str(spared), keep_held),
    {
        let ghost all = self@;
        let ghost sp = opt_str(spared);
        let ghost stays = |e: (Seq<char>, PendingView)| !goes(e, sp, keep_held);
        let ghost leaves = |e: (Seq<char>, PendingView)| goes(e, sp, keep_held);
        let ghost id_of = |e: (Seq<char>, PendingView)| e.0;
        let mut gone: Vec<String> = Vec::new();
        let mut i: usize = 0;
        let ghost mut k: int = 0;
        proof {
            reveal(Seq::filter);
            assert(all.take(0).filter(stays) =~= Entries::empty());
            assert(all.take(0).filter(leaves) =~= Entries::empty());
            assert(self@ =~= Entries::empty() + all.skip(0));
            assert(text::texts(gone@) =~= Entries::empty().map_values(id_of));
        }
        while i < self.pending.len()
            invariant
                0 <= k <= all.len(),
                i <= self.pending@.len(),
                self@.len() == self.pending@.len(),
                i + (all.len() - k) == self@.len(),
                stays == (|e: (Seq<char>, PendingView)| !goes(e, sp, keep_held)),
                leaves == (|e: (Seq<char>, PendingView)| goes(e, sp, keep_held)),
                id_of == (|e: (Seq<char>, PendingView)| e.0),
                sp == opt_str(spared),
                all.take(k).filter(stays).len() == i,
                self@ == all.take(k).filter(stays) + all.skip(k),
                text::texts(gone@) == all.take(k).filter(leaves).map_values(id_of),
            decreases self.pending.len() - i,
        {
            let ghost before = self@;
            let ghost e = all[k];
            proof {
                reveal(Seq::filter);
                assert(before[i as int] == e);
                assert(e == (self.pending@[i as int].0@, self.pending@[i as int].1@));
                assert(all.take(k + 1).drop_last() =~= all.take(k));
                assert(all.take(k + 1).last() == e);
            }
            let held = match self.pending[i].1.state {
                PendingState::Held => true,
                PendingState::Active => false,
            };
            if is_spared(self.pending[i].0.as_str(), spared) || (keep_held && held) {
                proof {
                    assert(stays(e));
                    assert(all.take(k + 1).filter(stays) == all.take(k).filter(stays).push(e));
                    assert(all.take(k + 1).filter(leaves) == all.take(k).filter(leaves));
                    assert(self@ =~= all.take(k).filter(stays).push(e) + all.skip(k + 1));
                }
                i += 1;
            } else {
                let out = self.pending.remove(i);
                let ghost ids = text::texts(gone@);
                gone.push(out.0);
                proof {
                    assert(leaves(e));
                    assert(all.take(k + 1).filter(stays) == all.take(k).filter(stays));
                    assert(all.take(k + 1).filter(leaves) == all.take(k).filter(leaves).push(e));
                    assert(self@ =~= before.remove(i as int));
                    assert(self@ =~= all.take(k).filter(stays) + all.skip(k + 1));
                    assert(text::texts(gone@) =~= ids.push(e.0));
                    assert(all.take(k).filter(leaves).push(e).map_values(id_of) =~= ids.push(e.0));
                }
            }
            proof {
                k = k + 1;
            }
        }
        proof {
            assert(all.take(k) =~= all);
            assert(self@ =~= all.filter(stays));
        }
        gone
    }

    /// Opens a popup that waits, at `now`. Every other open one ends (their ids
    /// are given back); those put aside stay.
    pub fn register(&mut self, id: &str, payload: Json, timeout_ms: u64, now: i64) -> (victims: Vec<
        String,
    >)
        requires
            old(self).wf(),
            timeout_ms <= i64::MAX,
            now + timeout_ms <= i64::MAX,
        ensures
            final(self).wf(),
            final(self)@ == after_register(
                old(self)@,
                id@,
                payload@,
                timeout_ms as int,
                now as int,
            ),
            text::texts(victims@) == ended(old(self)@, Some(id@), true),
    {
        let ghost before = self@;
        let ghost fresh = opened(payload@, timeout_ms as int, now as int);
        let kind = match json::text_field(&payload, "kind") {
            Some(k) => k.to_owned(),
            None => "custom".to_owned(),
        };
        let default_action = default_action_of(&payload);
        let entry = Pending {
            kind,
            default_action,
            state: PendingState::Active,
            held_at: 0,
            expires_at: now + timeout_ms as i64,
            payload,
        };
        assert(entry@ == fresh);
        let i: usize = self.place(id);
        if i < self.pending.len() {
            let pair = (id.to_owned(), entry);
            self.pending.set(i, pair);
            assert(self@ =~= before.update(i as int, (id@, fresh)));
        } else {
            self.pending.push((id.to_owned(), entry));
            assert(self@ =~= before.push((id@, fresh)));
        }
        let ghost all = self@;
        let victims = self.sweep(Some(id), true);
        proof {
            lemma_distinct_with(before, id@, fresh);
            lemma_distinct_kept(all, Some(id@), true);
            lemma_ended_with(before, id@, fresh);
            lemma_marked(before, all, id@, fresh);
            lemma_marked_kept(all, Some(id@), true);
        }
        victims
    }

    /// Takes a popup out. Whoever takes it out decides how it ends.
    pub fn take(&mut self, id: &str) -> (r: Option<Pending>)
        requires
            old(self).wf(),
        ensures
            final(self).wf(),
            final(self)@ == without(old(self)@, id@),
            match r {
                Some(p) => entry_of(old(self)@, id@) == Some(p@),
                None => entry_of(old(self)@, id@) is None,
            },
    {
        let ghost before = self@;
        let i: usize = self.place(id);
        if i < self.pending.len() {
            let e = self.pending.remove(i);
            proof {
                assert(self@ =~= before.remove(i as int));
                lemma_removed(before, i as int);
            }
            Some(e.1)
        } else {
            None
        }
    }

    /// Settles a popup. None: it is settled already. Otherwise whether the entry
    /// points to put-aside popups need to be shown anew.
    pub fn resolve(&mut self, id: &str) -> (r: Option<bool>)
        requires
            old(self).wf(),
        ensures
            final(self).wf(),
            final(self)@ == without(old(self)@, id@),
            r == (match entry_of(old(self)@, id@) {
                Some(p) => Some(p.state == PendingState::Held),
                None => None,
            }),
    {
        match self.take(id) {
            Some(p) => match p.state {
                PendingState::Held => Some(true),
                PendingState::Active => Some(false),
            },
            None => None,
        }
    }

    /// What a popup's wait ends with when its time is over: its default action.
    /// None where someone else has settled it, whose decision is on its way.
    pub fn timed_out(&mut self, id: &str) -> (r: Option<Decision>)
        requires
            old(self).wf(),
        ensures
            final(self).wf(),
            final(self)@ == without(old(self)@, id@),
            match r {
                Some(d) => entry_of(old(self)@, id@) is Some && d@ == bare(
                    entry_of(old(self)@, id@)->0.default_action,
                    "timeout"@,
                ),
                None => entry_of(old(self)@, id@) is None,
            },
    {
        match self.take(id) {
            Some(p) => Some(Decision::timeout(p.default_action)),
            None => None,
        }
    }

    /// Ends every popup, those put aside too unless they are kept. Gives their
    /// ids.
    pub fn dismiss_all(&mut self, keep_held: bool) -> (gone: Vec<String>)
        requires
            old(self).wf(),
        ensures
            final(self).wf(),
            final(self)@ == kept(old(self)@, None, keep_held),
            text::texts(gone@) == ended(old(self)@, None, keep_held),
    {
        proof {
            lemma_distinct_kept(self@, None, keep_held);
            lemma_marked_kept(self@, None, keep_held);
        }
        self.sweep(None, keep_held)
    }

    /// Puts a popup aside at `now`: its wait goes on. Gives what the entry
    /// points show of it; none where it is not open.
    pub fn hold(&mut self, id: &str, now: i64) -> (r: Option<Json>)
        requires
            old(self).wf(),
        ensures
            final(self).wf(),
            final(self)@ == after_hold(old(self)@, id@, now as int),
            session::owned_view(r) == (match entry_of(old(self)@, id@) {
                Some(p) if p.state == PendingState::Active => Some(
                    summary(id@, put_aside(p, now as int)),
                ),
                _ => None,
            }),
    {
        let ghost before = self@;
        let i: usize = self.place(id);
        if i < self.pending.len() {
            assert(before[i as int].1 == self.pending@[i as int].1@);
            let active = match self.pending[i].1.state {
                PendingState::Active => true,
                PendingState::Held => false,
            };
            if !active {
                return None;
            }
            let e = self.pending.remove(i);
            let p = Pending {
                kind: e.1.kind,
                default_action: e.1.default_action,
                state: PendingState::Held,
                held_at: now,
                expires_at: e.1.expires_at,
                payload: e.1.payload,
            };
            let r = summary_of(id, &p);
            let ghost pv = p@;
            self.pending.insert(i, (e.0, p));
            proof {
                assert(self@ =~= before.update(i as int, (id@, pv)));
                lemma_distinct_with(before, id@, pv);
                lemma_marked(before, self@, id@, pv);
            }
            Some(r)
        } else {
            None
        }
    }

    /// Takes a popup up again: gives what it shows. None where it is not put
    /// aside, or settled since.
    pub fn reopen(&mut self, id: &str) -> (r: Option<Json>)
        requires
            old(self).wf(),
        ensures
            final(self).wf(),
            final(self)@ == after_reopen(old(self)@, id@),
            session::owned_view(r) == (match entry_of(old(self)@, id@) {
                Some(p) if p.state == PendingState::Held => Some(p.payload),
                _ => None,
            }),
    {
        let ghost before = self@;
        let i: usize = self.place(id);
        if i < self.pending.len() {
            assert(before[i as int].1 == self.pending@[i as int].1@);
            let held = match self.pending[i].1.state {
                PendingState::Active => false,
                PendingState::Held => true,
            };
            if !held {
                return None;
            }
            let e = self.pending.remove(i);
            let p = Pending {
                kind: e.1.kind,
                default_action: e.1.default_action,
                state: PendingState::Active,
                held_at: 0,
                expires_at: e.1.expires_at,
                payload: e.1.payload,
            };
            let r = p.payload.clone();
            let ghost pv = p@;
            self.pending.insert(i, (e.0, p));
            proof {
                assert(self@ =~= before.update(i as int, (id@, pv)));
                lemma_distinct_with(before, id@, pv);
                lemma_marked(before, self@, id@, pv);
            }
            Some(r)
        } else {
            None
        }
    }

    /// What is shown of all popups that wait, in the order in which they were put
    /// aside; open ones first.
    pub fn list(&self) -> (r: Vec<Json>)
        ensures
            json::views(r@) == earliest_first(self@, self@.len() as int),
    {
        let mut out: Vec<Json> = Vec::new();
        assert(json::views(out@) =~= Seq::empty());
        let mut i: usize = 0;
        while i < self.pending.len()
            invariant
                i <= self.pending@.len(),
                self@.len() == self.pending@.len(),
                json::views(out@) == earliest_first(self@, i as int),
            decreases self.pending.len() - i,
        {
            assert(self@[i as int] == (self.pending@[i as int].0@, self.pending@[i as int].1@));
            let e = &self.pending[i];
            insert_summary(&mut out, summary_of(e.0.as_str(), &e.1));
            i += 1;
        }
        out
    }

    /// What is shown of the popups that were put aside, earliest first.
    pub fn list_held(&self) -> (r: Vec<Json>)
        ensures
            json::views(r@) == held_list(self@),
    {
        let all = self.list();
        let ghost keep = |v: JsonView| is_aside(v);
        let ghost av = json::views(all@);
        let mut out: Vec<Json> = Vec::new();
        proof {
            reveal(Seq::filter);
            assert(av.take(0).filter(keep) =~= Seq::empty());
            assert(json::views(out@) =~= Seq::empty());
        }
        let mut i: usize = 0;
        while i < all.len()
            invariant
                i <= all@.len(),
                av == json::views(all@),
                keep == (|v: JsonView| is_aside(v)),
                json::views(out@) == av.take(i as int).filter(keep),
            decreases all.len() - i,
        {
            let ghost ov = json::views(out@);
            proof {
                reveal(Seq::filter);
                assert(av.take(i as int + 1).drop_last() =~= av.take(i as int));
                assert(av.take(i as int + 1).last() == all@[i as int]@);
            }
            let aside = match json::text_field(&all[i], "state") {
                Some(s) => same(s, "held"),
                None => false,
            };
            assert(aside == keep(all@[i as int]@));
            if aside {
                out.push(all[i].clone());
                assert(json::views(out@) =~= ov.push(all@[i as int]@));
            }
            i += 1;
        }
        assert(av.take(i as int) =~= av);
        out
    }

    /// How many popups wait.
    pub fn count(&self) -> (r: usize)
        ensures
            r == self@.len(),
    {
        self.pending.len()
    }

    /// The id of the popup that was put aside first; an open one comes before
    /// any.
    pub fn first_pending_id(&self) -> (r: Option<String>)
        ensures
            match r {
                Some(id) => self@.len() > 0 && id@ == self@[first_place(
                    self@,
                    self@.len() as int,
                )].0,
                None => self@.len() == 0,
            },
    {
        if self.pending.len() == 0 {
            return None;
        }
        let mut k: usize = 0;
        let mut i: usize = 1;
        while i < self.pending.len()
            invariant
                1 <= i <= self.pending@.len(),
                k < i,
                self@.len() == self.pending@.len(),
                k == first_place(self@, i as int),
            decreases self.pending.len() - i,
        {
            assert(self@[i as int].1 == self.pending@[i as int].1@);
            assert(self@[k as int].1 == self.pending@[k as int].1@);
            if self.pending[i].1.held_at < self.pending[k].1.held_at {
                k = i;
            }
            i += 1;
        }
        assert(self@[k as int].0 == self.pending@[k as int].0@);
        Some(self.pending[k].0.clone())
    }

    /// What the main window's hint shows of the popups that were put aside.
    pub fn held_chip_items(&self) -> (r: Json)
        ensures
            r@ == JsonView::Arr(held_list(self@).map_values(|v: JsonView| chip(v))),
    {
        let held = self.list_held();
        let mut out: Vec<Json> = Vec::new();
        let mut i: usize = 0;
        while i < held.len()
            invariant
                i <= held@.len(),
                out@.len() == i,
                forall|k: int| 0 <= k < i ==> (#[trigger] out@[k])@ == chip(held@[k]@),
            decreases held.len() - i,
        {
            let p = &held[i];
            out.push(
                Json::object().with("id", get_or_null(p, "id")).with(
                    "kind",
                    get_or_null(p, "kind"),
                ).with("label", Json::Str(menu_label(p))).with("title", get_or_null(p, "title")),
            );
            i += 1;
        }
        assert(json::views(out@) =~= held_list(self@).map_values(|v: JsonView| chip(v)));
        Json::Arr(out)
    }

    /// The popup to take up again: the named one, or without a name that which was
    /// put aside first.
    pub fn held_target(&self, id: Option<&str>) -> (r: Option<String>)
        ensures
            opt_text(r) == target_of(held_list(self@), opt_str(id)),
    {
        if let Some(i) = id {
            if !i.is_empty() {
                return Some(i.to_owned());
            }
        }
        let held = self.list_held();
        if held.len() == 0 {
            return None;
        }
        assert(held_list(self@)[0] == held@[0]@);
        match json::text_field(&held[0], "id") {
            Some(s) => Some(s.to_owned()),
            None => None,
        }
    }
}

/// The popup to take up again: the named one, or the first of those put aside.
pub open spec fn target_of(held: Seq<JsonView>, id: Option<Seq<char>>) -> Option<Seq<char>> {
    match id {
        Some(i) if i.len() > 0 => Some(i),
        _ => if held.len() > 0 {
            held[0].text_field("id"@)
        } else {
            None
        },
    }
}

/// The decision that a wait ends with when the popup was settled by someone else:
/// the one that came in, or an end by time without an action where none did.
pub fn settle(received: Option<Decision>) -> (r: Decision)
    ensures
        match received {
            Some(d) => r == d,
            None => r@ == bare(None, "timeout"@),
        },
{
    match received {
        Some(d) => d,
        None => Decision::timeout(None),
    }
}

// ---------------------------------------------------------------------------
// Labels
// ---------------------------------------------------------------------------

/// The word for a kind of popup.
pub open spec fn kind_word(kind: Seq<char>) -> Seq<char> {
    if kind == "permission"@ {
        "权限"@
    } else if kind == "ask"@ {
        "提问"@
    } else {
        "确认"@
    }
}

/// A text member, empty where there is none.
pub open spec fn named(p: JsonView, k: Seq<char>) -> Seq<char> {
    match p.text_field(k) {
        Some(s) => s,
        None => Seq::empty(),
    }
}

/// What a popup is about: its tool (its own, else that of its context, else that
/// of its permission), else its title, else its message; white space folded.
pub open spec fn subject(p: JsonView) -> Seq<char> {
    let tool = text::either(
        named(p, "tool"@),
        text::either(inner_tool(p, "context"@), inner_tool(p, "permission"@)),
    );
    text::folded(text::either(tool, text::either(named(p, "title"@), named(p, "message"@))))
}

/// The short label of a popup: the word for its kind and what it is about, of
/// which 35 characters are shown; more than 36 are marked by an ellipsis.
pub open spec fn label(p: JsonView) -> Seq<char> {
    let word = kind_word(named(p, "kind"@));
    let what = subject(p);
    if what.len() == 0 {
        word
    } else if what.len() > 36 {
        word + " · "@ + what.take(35) + "…"@
    } else if what.len() > 35 {
        word + " · "@ + what.take(35)
    } else {
        word + " · "@ + what
    }
}

/// The short label of a popup, for the tray's menu and the main window's hint.
pub fn menu_label(p: &Json) -> (r: String)
    ensures
        r@ == label(p@),
{
    let kind = text_or_empty(p, "kind");
    let word = if same(kind.as_str(), "permission") {
        "权限"
    } else if same(kind.as_str(), "ask") {
        "提问"
    } else {
        "确认"
    };
    let inner = first_or(
        read_inner_tool(p, "context").as_str(),
        read_inner_tool(p, "permission").as_str(),
    );
    let tool = first_or(text_or_empty(p, "tool").as_str(), inner.as_str());
    let heading = first_or(text_or_empty(p, "title").as_str(), text_or_empty(p, "message").as_str());
    let what = fold_chars(first_or(tool.as_str(), heading.as_str()).as_str());
    if what.len() == 0 {
        return word.to_owned();
    }
    let n: usize = if what.len() > 35 {
        35
    } else {
        what.len()
    };
    let short = text_between(&what, 0, n);
    assert(what@.subrange(0, n as int) =~= what@.take(n as int));
    assert(what.len() <= 35 ==> what@.take(n as int) =~= what@);
    let head = cat3(word, " · ", short.as_str());
    if what.len() > 36 {
        cat2(head.as_str(), "…")
    } else {
        head
    }
}

// ---------------------------------------------------------------------------
// Ids
// ---------------------------------------------------------------------------

/// The eight bytes of a number, the lowest first.
pub open spec fn low_bytes(n: u64, k: nat) -> Seq<u8>
    decreases k,
{
    if k == 0 {
        Seq::empty()
    } else {
        seq![(n % 256) as u8] + low_bytes(n / 256, (k - 1) as nat)
    }
}

/// An id made of bytes; without bytes, of the moment and four zero bytes.
pub open spec fn id_text(bytes: Option<Seq<u8>>, now: u64) -> Seq<char> {
    match bytes {
        Some(b) => text::hex_text(b),
        None => text::hex_text(low_bytes(now, 8) + Seq::new(4, |i: int| 0u8)),
    }
}

/// The model of optional bytes.
pub open spec fn opt_bytes(o: Option<Vec<u8>>) -> Option<Seq<u8>> {
    match o {
        Some(v) => Some(v@),
        None => None,
    }
}

/// An id made of bytes; without bytes, of the moment and four zero bytes.
pub fn id_from(bytes: Option<Vec<u8>>, now: u64) -> (r: String)
    ensures
        r@ == id_text(opt_bytes(bytes), now),
{
    match bytes {
        Some(b) => hex(&b),
        None => {
            let mut b: Vec<u8> = Vec::new();
            let mut n: u64 = now;
            let mut k: usize = 0;
            assert(Seq::<u8>::empty() + low_bytes(now, 8) =~= low_bytes(now, 8));
            while k < 8
                invariant
                    k <= 8,
                    b@ + low_bytes(n, (8 - k) as nat) == low_bytes(now, 8),
                decreases 8 - k,
            {
                let ghost before = b@;
                let ghost rest = low_bytes(n / 256, (8 - k - 1) as nat);
                let low: u8 = (n % 256) as u8;
                b.push(low);
                assert(b@ + rest =~= before + (seq![low] + rest));
                n = n / 256;
                k += 1;
            }
            assert(b@ =~= low_bytes(now, 8));
            b.push(0);
            b.push(0);
            b.push(0);
            b.push(0);
            assert(b@ =~= low_bytes(now, 8) + Seq::new(4, |i: int| 0u8));
            hex(&b)
        },
    }
}

/// A new id: twelve random bytes in hexadecimal. `now` stands in where the
/// system has no random bytes.
pub fn new_id(now: u64) -> (r: String)
    ensures
        r@.len() == 24,
        exists|b: Seq<u8>| b.len() == 12 && r@ == #[trigger] text::hex_text(b),
{
    let bytes = random_bytes(12);
    let ghost b = match opt_bytes(bytes) {
        Some(v) => v,
        None => low_bytes(now, 8) + Seq::new(4, |i: int| 0u8),
    };
    proof {
        lemma_low_bytes(now, 8);
        text::lemma_hex_len(b);
    }
    let r = id_from(bytes, now);
    assert(r@ == text::hex_text(b));
    r
}

proof fn lemma_low_bytes(n: u64, k: nat)
    ensures
        low_bytes(n, k).len() == k,
    decreases k,
{
    if k > 0 {
        lemma_low_bytes(n / 256, (k - 1) as nat);
    }
}

// ---------------------------------------------------------------------------
// Laws
// ---------------------------------------------------------------------------

proof fn lemma_removed(s: Entries, i: int)
    requires
        distinct(s),
        marked(s),
        0 <= i < s.len(),
    ensures
        distinct(s.remove(i)),
        marked(s.remove(i)),
{
    let r = s.remove(i);
    assert forall|a: int, b: int| 0 <= a < b < r.len() implies #[trigger] r[a].0
        != #[trigger] r[b].0 by {
        let x = if a < i {
            a
        } else {
            a + 1
        };
        let y = if b < i {
            b
        } else {
            b + 1
        };
        assert(s[x].0 != s[y].0);
    }
    assert forall|a: int|
        0 <= a < r.len() && (#[trigger] r[a]).1.state == PendingState::Active implies r[a].1.held_at
        == 0 by {
        let x = if a < i {
            a
        } else {
            a + 1
        };
        assert(s[x] == r[a]);
    }
}

proof fn lemma_marked(s: Entries, n: Entries, id: Seq<char>, p: PendingView)
    requires
        marked(s),
        n == with_entry(s, id, p),
        p.state == PendingState::Active ==> p.held_at == 0,
    ensures
        marked(n),
{
    lemma_place(s, id);
    assert forall|a: int|
        0 <= a < n.len() && (#[trigger] n[a]).1.state == PendingState::Active implies n[a].1.held_at
        == 0 by {
        if a != place_of(s, id) {
            assert(s[a] == n[a]);
        }
    }
}

proof fn lemma_marked_kept(s: Entries, spared: Option<Seq<char>>, keep_held: bool)
    requires
        distinct(s),
        marked(s),
    ensures
        marked(kept(s, spared, keep_held)),
{
    lemma_distinct_kept(s, spared, keep_held);
    let r = kept(s, spared, keep_held);
    assert forall|a: int|
        0 <= a < r.len() && (#[trigger] r[a]).1.state == PendingState::Active implies r[a].1.held_at
        == 0 by {
        assert(r.contains(r[a]));
        let i = choose|i: int| 0 <= i < s.len() && s[i] == r[a];
        assert(s[i].1.held_at == 0);
    }
}

proof fn lemma_ended_push(s: Entries, e: (Seq<char>, PendingView), spared: Option<Seq<char>>, keep_held: bool)
    ensures
        ended(s.push(e), spared, keep_held) == if goes(e, spared, keep_held) {
            ended(s, spared, keep_held).push(e.0)
        } else {
            ended(s, spared, keep_held)
        },
{
    reveal(Seq::filter);
    let leaves = |e: (Seq<char>, PendingView)| goes(e, spared, keep_held);
    let id_of = |e: (Seq<char>, PendingView)| e.0;
    assert(s.push(e).drop_last() =~= s);
    assert(s.push(e).last() == e);
    if goes(e, spared, keep_held) {
        assert(s.push(e).filter(leaves) == s.filter(leaves).push(e));
        assert(s.filter(leaves).push(e).map_values(id_of) =~= s.filter(leaves).map_values(
            id_of,
        ).push(e.0));
    } else {
        assert(s.push(e).filter(leaves) == s.filter(leaves));
    }
}

proof fn lemma_ended_with(s: Entries, id: Seq<char>, p: PendingView)
    requires
        distinct(s),
    ensures
        ended(with_entry(s, id, p), Some(id), true) == ended(s, Some(id), true),
    decreases s.len(),
{
    lemma_place(s, id);
    let k = place_of(s, id);
    if k < s.len() {
        let head = s.drop_last();
        assert(s =~= head.push(s.last()));
        lemma_place(head, id);
        let n = s.update(k, (id, p));
        lemma_ended_push(head, s.last(), Some(id), true);
        if k == s.len() - 1 {
            assert(n =~= head.push((id, p)));
            lemma_ended_push(head, (id, p), Some(id), true);
        } else {
            let j = place_of(head, id);
            assert(head[k] == s[k]);
            if j < k {
                assert(s[j].0 != id);
                assert(head[j] == s[j]);
            }
            if k < j {
                assert(head[k].0 != id);
            }
            assert(j == k);
            assert forall|a: int, b: int| 0 <= a < b < head.len() implies #[trigger] head[a].0
                != #[trigger] head[b].0 by {
                assert(s[a].0 != s[b].0);
            }
            lemma_ended_with(head, id, p);
            assert(n =~= head.update(k, (id, p)).push(s.last()));
            lemma_ended_push(head.update(k, (id, p)), s.last(), Some(id), true);
        }
    } else {
        lemma_ended_push(s, (id, p), Some(id), true);
    }
}

/// A popup that opens is the only open one. Every popup that was put aside
/// still waits, unchanged, and nothing else is left.
pub proof fn law_one_popup_is_open(
    s: Entries,
    id: Seq<char>,
    payload: JsonView,
    timeout_ms: int,
    now: int,
    other: (Seq<char>, PendingView),
)
    requires
        distinct(s),
    ensures
        ({
            let n = after_register(s, id, payload, timeout_ms, now);
            &&& entry_of(n, id) == Some(opened(payload, timeout_ms, now))
            &&& other.0 != id ==> (n.contains(other) <==> s.contains(other) && other.1.state
                == PendingState::Held)
        }),
{
    let p = opened(payload, timeout_ms, now);
    let w = with_entry(s, id, p);
    let n = after_register(s, id, payload, timeout_ms, now);
    lemma_distinct_with(s, id, p);
    lemma_distinct_kept(w, Some(id), true);
    assert(n.contains((id, p)));
    lemma_entry(n, id, p);
    assert(w.contains(other) <==> other == (id, p) || (s.contains(other) && other.0 != id));
}

/// A popup is settled once: whoever comes second finds nothing, and no other
/// popup is touched.
pub proof fn law_settled_once(s: Entries, id: Seq<char>, other: Seq<char>)
    requires
        distinct(s),
    ensures
        entry_of(without(s, id), id) is None,
        other != id ==> entry_of(without(s, id), other) == entry_of(s, other),
{
    let n = without(s, id);
    let k = place_of(s, id);
    lemma_place(s, id);
    lemma_place(n, id);
    lemma_place(s, other);
    lemma_place(n, other);
    if k < s.len() {
        let j = place_of(n, id);
        if j < n.len() {
            if j < k {
                assert(n[j] == s[j]);
            } else {
                assert(n[j] == s[j + 1]);
                assert(s[k].0 != s[j + 1].0);
            }
        }
        if other != id {
            let a = place_of(s, other);
            let b = place_of(n, other);
            let c = if a < k {
                a
            } else {
                a - 1
            };
            if a < s.len() {
                assert(a != k);
                assert(n[c] == s[a]);
                if b < c {
                    let d = if b < k {
                        b
                    } else {
                        b + 1
                    };
                    assert(n[b] == s[d]);
                    assert(d < a);
                }
                if c < b {
                    assert(n[c].0 != other);
                }
            } else if b < n.len() {
                let d = if b < k {
                    b
                } else {
                    b + 1
                };
                assert(n[b] == s[d]);
            }
        }
    }
}

/// Putting a popup aside does not stop its wait and does not settle it, and
/// taking it up again restores everything as it was.
pub proof fn law_hold_and_reopen(s: Entries, id: Seq<char>, now: int)
    requires
        distinct(s),
        marked(s),
        entry_of(s, id) is Some,
        entry_of(s, id)->0.state == PendingState::Active,
    ensures
        entry_of(after_hold(s, id, now), id) == Some(put_aside(entry_of(s, id)->0, now)),
        put_aside(entry_of(s, id)->0, now).expires_at == entry_of(s, id)->0.expires_at,
        put_aside(entry_of(s, id)->0, now).payload == entry_of(s, id)->0.payload,
        after_reopen(after_hold(s, id, now), id) == s,
{
    let k = place_of(s, id);
    lemma_place(s, id);
    let p = entry_of(s, id)->0;
    let n = after_hold(s, id, now);
    lemma_distinct_with(s, id, put_aside(p, now));
    lemma_entry(n, id, put_aside(p, now));
    lemma_place(n, id);
    let j = place_of(n, id);
    assert(n[k].0 == id);
    if j < k {
        assert(n[j] == s[j]);
    }
    if k < j {
        assert(n[k].0 != id);
    }
    assert(s[k].1.held_at == 0);
    assert(taken_up(put_aside(p, now)) == p);
    assert(after_reopen(n, id) =~= s);
}

/// Whether no popup was put aside later than one that follows it.
pub open spec fn ascending(list: Seq<JsonView>) -> bool {
    forall|i: int, j: int|
        0 <= i <= j < list.len() ==> held_at_of(#[trigger] list[i]) <= held_at_of(
            #[trigger] list[j],
        )
}

proof fn lemma_inserted(list: Seq<JsonView>, v: JsonView)
    requires
        ascending(list),
    ensures
        ascending(inserted(list, v)),
        inserted(list, v).to_multiset() == list.to_multiset().insert(v),
    decreases list.len(),
{
    broadcast use vstd::seq_lib::group_to_multiset_ensures;

    let r = inserted(list, v);
    if list.len() == 0 || held_at_of(list.last()) <= held_at_of(v) {
        assert forall|i: int, j: int| 0 <= i <= j < r.len() implies held_at_of(#[trigger] r[i])
            <= held_at_of(#[trigger] r[j]) by {
            if i < list.len() {
                assert(held_at_of(list[i]) <= held_at_of(list.last()));
            }
        }
    } else {
        let head = list.drop_last();
        lemma_inserted(head, v);
        let h = inserted(head, v);
        assert(list =~= head.push(list.last()));
        assert forall|i: int, j: int| 0 <= i <= j < r.len() implies held_at_of(#[trigger] r[i])
            <= held_at_of(#[trigger] r[j]) by {
            if j == h.len() && i < h.len() {
                assert(h.to_multiset().count(h[i]) > 0);
                if h[i] != v {
                    assert(head.to_multiset().count(h[i]) > 0);
                    assert(head.contains(h[i]));
                    let k = choose|k: int| 0 <= k < head.len() && head[k] == h[i];
                    assert(list[k] == h[i]);
                }
            }
        }
        assert(r.to_multiset() =~= list.to_multiset().insert(v));
    }
}

/// The list runs in the order in which popups were put aside, and holds one item
/// for each popup that waits.
pub proof fn law_list_is_earliest_first(s: Entries, n: int)
    requires
        0 <= n <= s.len(),
    ensures
        ascending(earliest_first(s, n)),
        earliest_first(s, n).to_multiset() == s.take(n).map_values(
            |e: (Seq<char>, PendingView)| summary(e.0, e.1),
        ).to_multiset(),
    decreases n,
{
    broadcast use vstd::seq_lib::group_to_multiset_ensures;

    let show = |e: (Seq<char>, PendingView)| summary(e.0, e.1);
    if n == 0 {
        assert(s.take(0).map_values(show) =~= Seq::empty());
    } else {
        law_list_is_earliest_first(s, n - 1);
        let v = summary(s[n - 1].0, s[n - 1].1);
        lemma_inserted(earliest_first(s, n - 1), v);
        assert(s.take(n).map_values(show) =~= s.take(n - 1).map_values(show).push(v));
    }
}

/// Only the user decides as `user`: an end by time, by dismissal or by being
/// shown is never reported as one.
pub proof fn law_only_the_user_decides(action: Option<Seq<char>>, kind: Seq<char>)
    ensures
        decision_json(bare(action, "timeout"@), kind).text_field("decidedBy"@) != Some("user"@),
        decision_json(bare(None, "dismissed"@), kind).text_field("decidedBy"@) != Some("user"@),
        decision_json(bare(Some("shown"@), "shown"@), kind).text_field("decidedBy"@) != Some(
            "user"@,
        ),
        decision_json(bare(None, "dismissed"@), kind).field("action"@) == Some(JsonView::Null),
{
    broadcast use crate::json::group_fields;

    reveal_strlit("ok");
    reveal_strlit("kind");
    reveal_strlit("action");
    reveal_strlit("answers");
    reveal_strlit("text");
    reveal_strlit("decidedBy");
    reveal_strlit("user");
    reveal_strlit("timeout");
    reveal_strlit("dismissed");
    reveal_strlit("shown");
    assert("action"@.len() == 6 && "ok"@.len() == 2 && "kind"@.len() == 4);
    assert("decidedBy"@.len() == 9 && "answers"@.len() == 7 && "text"@.len() == 4);
    assert("user"@.len() == 4 && "timeout"@.len() == 7 && "dismissed"@.len() == 9 && "shown"@.len()
        == 5);
}

// ---------------------------------------------------------------------------
// What is told of popups, word for word
// ---------------------------------------------------------------------------

/// How a popup ended is told as it ended: by whom, with which action, with what
/// answers and which words.
pub proof fn law_the_end_is_told_as_it_was(d: DecisionView, kind: Seq<char>)
    ensures
        ({
            let j = decision_json(d, kind);
            &&& j.field("ok"@) == Some(JsonView::Bool(true))
            &&& j.field("kind"@) == Some(JsonView::Str(kind))
            &&& d.action matches Some(a) ==> j.field("action"@) == Some(JsonView::Str(a))
            &&& d.action is None ==> j.field("action"@) == Some(JsonView::Null)
            &&& j.field("answers"@) == Some(d.answers)
            &&& j.field("text"@) == Some(JsonView::Str(d.text))
            &&& j.field("decidedBy"@) == Some(JsonView::Str(d.decided_by))
        }),
{
    broadcast use crate::json::group_fields;

    reveal_strlit("ok");
    reveal_strlit("kind");
    reveal_strlit("action");
    reveal_strlit("answers");
    reveal_strlit("text");
    reveal_strlit("decidedBy");
    assert("ok"@.len() == 2);
    assert("kind"@.len() == 4);
    assert("action"@.len() == 6);
    assert("answers"@.len() == 7);
    assert("text"@.len() == 4);
    assert("decidedBy"@.len() == 9);
    assert("kind"@[0] == 'k');
    assert("text"@[0] == 't');
}

/// An end that the user did not bring about has no answers and no words.
pub proof fn law_other_ends_have_no_answers(action: Option<Seq<char>>, by: Seq<char>)
    ensures
        bare(action, by).action == action,
        bare(action, by).decided_by == by,
        bare(action, by).answers == JsonView::Obj(Seq::empty()),
        bare(action, by).text == Seq::<char>::empty(),
{
}

/// A popup that opens waits from now on for as long as it may, falls back to what its
/// payload names, and is not put aside.
pub proof fn law_a_popup_opens_as_its_payload_says(
    payload: JsonView,
    ms: int,
    now: int,
    kind: Seq<char>,
    action: Seq<char>,
)
    ensures
        opened(payload, ms, now).expires_at == now + ms,
        opened(payload, ms, now).state == PendingState::Active,
        opened(payload, ms, now).payload == payload,
        payload.field("kind"@) == Some(JsonView::Str(kind)) ==> opened(payload, ms, now).kind == kind,
        payload.field("kind"@) is None ==> opened(payload, ms, now).kind == "custom"@,
        payload.field("defaultAction"@) == Some(JsonView::Str(action)) && action.len() > 0
            ==> opened(payload, ms, now).default_action == Some(action),
        payload.field("defaultAction"@) is None || payload.field("defaultAction"@) == Some(
            JsonView::Null,
        ) ==> opened(payload, ms, now).default_action is None,
{
}

/// A popup that is put aside waits no longer and no shorter for it, and says since
/// when; one that is taken up again is as it was.
pub proof fn law_putting_aside_changes_nothing_else(p: PendingView, now: int)
    ensures
        put_aside(p, now).state == PendingState::Held,
        put_aside(p, now).held_at == now,
        put_aside(p, now).expires_at == p.expires_at,
        put_aside(p, now).kind == p.kind,
        put_aside(p, now).default_action == p.default_action,
        put_aside(p, now).payload == p.payload,
        taken_up(p).state == PendingState::Active,
        taken_up(p).held_at == 0,
        taken_up(p).expires_at == p.expires_at,
        taken_up(p).default_action == p.default_action,
        taken_up(p).payload == p.payload,
{
}

/// The list of popups tells each as it is.
pub proof fn law_popups_are_listed_as_they_are(id: Seq<char>, p: PendingView, tool: Seq<char>)
    ensures
        ({
            let s = summary(id, p);
            &&& s.field("id"@) == Some(JsonView::Str(id))
            &&& s.field("kind"@) == Some(JsonView::Str(p.kind))
            &&& p.state == PendingState::Held ==> s.field("state"@) == Some(JsonView::Str("held"@))
            &&& p.state == PendingState::Active ==> s.field("state"@) == Some(
                JsonView::Str("active"@),
            )
            &&& s.field("heldAt"@) == Some(JsonView::Int(p.held_at))
            &&& s.field("expiresAt"@) == Some(JsonView::Int(p.expires_at))
            &&& s.field("title"@) == Some(JsonView::Str(named(p.payload, "title"@)))
            &&& s.field("message"@) == Some(JsonView::Str(named(p.payload, "message"@)))
            &&& s.field("source"@) == Some(JsonView::Str(named(p.payload, "source"@)))
            &&& (p.payload.field("context"@) matches Some(c) && c.field("tool"@) == Some(
                JsonView::Str(tool),
            )) && tool.len() > 0 ==> s.field("tool"@) == Some(JsonView::Str(tool))
        }),
{
    broadcast use crate::json::group_fields;

    reveal_strlit("id");
    reveal_strlit("kind");
    reveal_strlit("state");
    reveal_strlit("heldAt");
    reveal_strlit("expiresAt");
    reveal_strlit("title");
    reveal_strlit("message");
    reveal_strlit("source");
    reveal_strlit("tool");
    assert("id"@.len() == 2);
    assert("kind"@.len() == 4);
    assert("state"@.len() == 5);
    assert("heldAt"@.len() == 6);
    assert("expiresAt"@.len() == 9);
    assert("title"@.len() == 5);
    assert("message"@.len() == 7);
    assert("source"@.len() == 6);
    assert("tool"@.len() == 4);
    assert("kind"@[0] == 'k');
    assert("state"@[0] == 's');
    assert("heldAt"@[0] == 'h');
    assert("title"@[0] == 't');
    assert("source"@[0] == 's');
    assert("tool"@[0] == 't');
}

/// Only what is put aside is on the list of what is put aside.
pub proof fn law_only_what_is_put_aside_is_listed_so(id: Seq<char>, p: PendingView)
    ensures
        is_aside(summary(id, p)) <==> p.state == PendingState::Held,
{
    law_popups_are_listed_as_they_are(id, p, Seq::empty());
    reveal_strlit("held");
    reveal_strlit("active");
    assert("held"@.len() == 4);
    assert("active"@.len() == 6);
}

/// The menu calls a popup by its kind.
pub proof fn law_the_menu_calls_popups_by_their_kind(other: Seq<char>)
    ensures
        kind_word("permission"@) == "权限"@,
        kind_word("ask"@) == "提问"@,
        other != "permission"@ && other != "ask"@ ==> kind_word(other) == "确认"@,
{
    reveal_strlit("permission");
    reveal_strlit("ask");
    assert("permission"@.len() == 10);
    assert("ask"@.len() == 3);
}

/// A popup is labelled by its kind and by what it is about: its tool, else its title,
/// else its message.
pub proof fn law_labels_say_what_it_is_about(p: JsonView, what: Seq<char>)
    requires
        0 < text::folded(what).len() <= 35,
        what.len() > 0,
    ensures
        p.field("tool"@) == Some(JsonView::Str(what)) ==> label(p) == kind_word(named(p, "kind"@))
            + " · "@ + text::folded(what),
        p.field("tool"@) is None && p.field("context"@) is None && p.field("permission"@) is None
            && p.field("title"@) == Some(JsonView::Str(what)) ==> label(p) == kind_word(
            named(p, "kind"@),
        ) + " · "@ + text::folded(what),
        p.field("tool"@) is None && p.field("context"@) is None && p.field("permission"@) is None
            && p.field("title"@) is None && p.field("message"@) == Some(JsonView::Str(what))
            ==> label(p) == kind_word(named(p, "kind"@)) + " · "@ + text::folded(what),
{
}

/// What is taken up again is what is named, else the first on the list.
pub proof fn law_what_is_taken_up_again(held: Seq<JsonView>, id: Seq<char>, first: Seq<char>)
    ensures
        id.len() > 0 ==> target_of(held, Some(id)) == Some(id),
        held.len() > 0 && held[0].field("id"@) == Some(JsonView::Str(first)) ==> target_of(held, None)
            == Some(first) && target_of(held, Some(Seq::empty())) == Some(first),
        held.len() == 0 ==> target_of(held, None) is None,
{
}

/// A new popup is there after it was registered, open; those put aside stay.
pub proof fn law_a_registered_popup_waits(
    s: Entries,
    id: Seq<char>,
    payload: JsonView,
    ms: int,
    now: int,
)
    requires
        distinct(s),
    ensures
        after_register(s, id, payload, ms, now).contains((id, opened(payload, ms, now))),
        forall|i: int|
            0 <= i < s.len() && (#[trigger] s[i]).0 != id && s[i].1.state == PendingState::Held
                ==> after_register(s, id, payload, ms, now).contains(s[i]),
        forall|i: int|
            0 <= i < s.len() && (#[trigger] s[i]).0 != id && s[i].1.state == PendingState::Active
                ==> !after_register(s, id, payload, ms, now).contains(s[i]),
{
    let p = opened(payload, ms, now);
    let t = with_entry(s, id, p);
    let keep = |e: (Seq<char>, PendingView)| !goes(e, Some(id), true);
    let k = kept(t, Some(id), true);
    let place = place_of(s, id);
    lemma_place(s, id);
    if place < s.len() {
        assert(t[place] == (id, p));
    } else {
        assert(t[s.len() as int] == (id, p));
    }
    assert(t.contains((id, p)));
    assert(keep((id, p)));
    lemma_filter_has(t, keep, (id, p));
    assert forall|i: int|
        0 <= i < s.len() && (#[trigger] s[i]).0 != id && s[i].1.state == PendingState::Held implies k.contains(
        s[i],
    ) by {
        assert(t[i] == s[i]);
        assert(t.contains(s[i]));
        assert(keep(s[i]));
        lemma_filter_has(t, keep, s[i]);
    }
    assert forall|i: int|
        0 <= i < s.len() && (#[trigger] s[i]).0 != id && s[i].1.state == PendingState::Active implies !k.contains(
        s[i],
    ) by {
        assert(!keep(s[i]));
        lemma_filter_has(t, keep, s[i]);
    }
}

proof fn lemma_filter_has(
    s: Entries,
    keep: spec_fn((Seq<char>, PendingView)) -> bool,
    x: (Seq<char>, PendingView),
)
    ensures
        s.filter(keep).contains(x) <==> s.contains(x) && keep(x),
    decreases s.len(),
{
    reveal(Seq::filter);
    if s.len() > 0 {
        let head = s.drop_last();
        let last = s.last();
        lemma_filter_has(head, keep, x);
        let f = head.filter(keep);
        if keep(last) {
            assert(s.filter(keep) == f.push(last));
            if f.contains(x) {
                let i = choose|i: int| 0 <= i < f.len() && f[i] == x;
                assert(f.push(last)[i] == x);
            }
            if x == last {
                assert(f.push(last)[f.len() as int] == x);
            }
            if f.push(last).contains(x) && x != last {
                let i = choose|i: int| 0 <= i < f.push(last).len() && f.push(last)[i] == x;
                assert(f[i] == x);
            }
        }
        if head.contains(x) {
            let i = choose|i: int| 0 <= i < head.len() && head[i] == x;
            assert(s[i] == x);
        }
        if x == last {
            assert(s[s.len() - 1] == x);
        }
        if s.contains(x) && x != last {
            let i = choose|i: int| 0 <= i < s.len() && s[i] == x;
            assert(head[i] == x);
        }
    }
}

/// Where all popups end, what is left are just those put aside, where these are kept.
pub proof fn law_the_wait_is_over_for_all_but_those_kept(
    s: Entries,
    keep_held: bool,
    x: (Seq<char>, PendingView),
)
    ensures
        kept(s, None, keep_held).contains(x) <==> s.contains(x) && keep_held && x.1.state
            == PendingState::Held,
{
    lemma_filter_has(s, |e: (Seq<char>, PendingView)| !goes(e, None, keep_held), x);
}

/// A long subject is cut in the menu, and the cut is shown.
pub proof fn law_long_labels_are_cut(p: JsonView, what: Seq<char>)
    requires
        subject(p) == what,
        what.len() > 36,
    ensures
        label(p) == kind_word(named(p, "kind"@)) + " · "@ + what.take(35) + "…"@,
{
}

/// A popup that was put aside is listed for the page by its label.
pub proof fn law_chips_bear_labels(v: JsonView)
    ensures
        chip(v).field("label"@) == Some(JsonView::Str(label(v))),
{
    broadcast use crate::json::group_fields;

    reveal_strlit("id");
    reveal_strlit("kind");
    reveal_strlit("label");
    reveal_strlit("title");
    assert("id"@.len() == 2);
    assert("kind"@.len() == 4);
    assert("label"@.len() == 5);
    assert("title"@.len() == 5);
    assert("label"@[0] == 'l');
    assert("title"@[0] == 't');
}

} // verus!
