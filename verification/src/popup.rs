//! The popup windows: what each is given to show, and which one is open.

use vstd::prelude::*;
use crate::interaction;
use crate::json;
use crate::json::{get, Json, JsonView, Members, Object};
use crate::payload;
use crate::payload::{is_interactive, kind_spec, non_empty, popup_size};
use crate::session;
use crate::text::{cat2, same};

verus! {

// ---------------------------------------------------------------------------
// What a popup shows
// ---------------------------------------------------------------------------

/// The kind that a popup has: a known one, or a notification.
pub open spec fn shown_kind(p: JsonView) -> Seq<char> {
    match p.text_field("kind"@) {
        Some(k) if payload::known_kind(k) => k,
        _ => "notification"@,
    }
}

/// The look of a popup: that which is asked for, else that of its kind for a
/// question or a permission, else that of its type.
pub open spec fn flavor_of(p: JsonView) -> Seq<char> {
    match payload::filled(p.field("flavor"@)) {
        Some(f) => f,
        None => if shown_kind(p) == "ask"@ || shown_kind(p) == "permission"@ {
            shown_kind(p)
        } else {
            match payload::filled(p.field("type"@)) {
                Some(t) => t,
                None => "agent"@,
            }
        },
    }
}

/// What a popup is given to show: the request with its id, kind, look, and
/// whether it waits for the user.
pub open spec fn shown(p: JsonView, fresh_id: Seq<char>) -> JsonView {
    let id = match payload::filled(p.field("id"@)) {
        Some(i) => i,
        None => fresh_id,
    };
    JsonView::Obj(p.members()).set("id"@, JsonView::Str(id)).set(
        "kind"@,
        JsonView::Str(shown_kind(p)),
    ).set("interactive"@, JsonView::Bool(payload::waits(shown_kind(p)))).set(
        "flavor"@,
        JsonView::Str(flavor_of(p)),
    )
}

/// A popup that is about to open.
pub struct Opening {
    pub id: String,
    pub interactive: bool,
    /// The window's label, which no other popup has.
    pub label: String,
    /// The page that the window loads.
    pub url: String,
    /// The window's first size.
    pub size: (u32, u32),
    /// What the page is given to show.
    pub data: Json,
}

/// Prepares a popup. `fresh_id` is used where the request names no id.
pub fn prepare(p: Json, fresh_id: String) -> (r: Opening)
    ensures
        r.data@ == shown(p@, fresh_id@),
        r.id@ == (match payload::filled(p@.field("id"@)) {
            Some(i) => i,
            None => fresh_id@,
        }),
        r.interactive == payload::waits(shown_kind(p@)),
        r.label@ == "notify-"@ + r.id@,
        r.url@ == "notify.html?id="@ + r.id@,
        (r.size.0 as int, r.size.1 as int) == payload::size_of(shown_kind(p@)),
{
    let id = match non_empty(get(&p, "id")) {
        Some(i) => i,
        None => fresh_id,
    };
    let kind = match json::text_field(&p, "kind") {
        Some(k) => match kind_spec(k) {
            Some(_) => k.to_owned(),
            None => "notification".to_owned(),
        },
        None => "notification".to_owned(),
    };
    let flavor = match non_empty(get(&p, "flavor")) {
        Some(f) => f,
        None => if same(kind.as_str(), "ask") || same(kind.as_str(), "permission") {
            kind.clone()
        } else {
            match non_empty(get(&p, "type")) {
                Some(t) => t,
                None => "agent".to_owned(),
            }
        },
    };
    let interactive = is_interactive(kind.as_str());
    let size = popup_size(kind.as_str());
    let base = match p {
        Json::Obj(o) => Json::Obj(o),
        _ => Json::object(),
    };
    let data = base.set("id", Json::text(id.as_str())).set("kind", Json::Str(kind)).set(
        "interactive",
        Json::Bool(interactive),
    ).set("flavor", Json::Str(flavor));
    let label = cat2("notify-", id.as_str());
    let url = cat2("notify.html?id=", id.as_str());
    Opening { id, interactive, label, url, size, data }
}

// ---------------------------------------------------------------------------
// Which popup is open
// ---------------------------------------------------------------------------

/// The open popup.
pub struct Current {
    pub id: String,
    pub interactive: bool,
    pub label: String,
}

/// The model of a [`Current`].
pub struct CurrentView {
    pub id: Seq<char>,
    pub interactive: bool,
    pub label: Seq<char>,
}

impl View for Current {
    type V = CurrentView;

    open spec fn view(&self) -> CurrentView {
        CurrentView { id: self.id@, interactive: self.interactive, label: self.label@ }
    }
}

/// What popups are given to show, by their ids, and the open one.
pub struct PopupStore {
    pub payloads: Object,
    pub current: Option<Current>,
}

/// The model of a [`PopupStore`].
pub struct PopupView {
    pub payloads: Members,
    pub current: Option<CurrentView>,
}

impl View for PopupStore {
    type V = PopupView;

    open spec fn view(&self) -> PopupView {
        PopupView {
            payloads: self.payloads@,
            current: match self.current {
                Some(c) => Some(c@),
                None => None,
            },
        }
    }
}

impl Default for PopupStore {
    /// No popup.
    fn default() -> (r: PopupStore)
        ensures
            r@ == (PopupView { payloads: Members::empty(), current: None }),
    {
        PopupStore { payloads: Object::new(), current: None }
    }
}

/// The store once a window is gone: if it was the open one, what it was given is
/// forgotten.
pub open spec fn forgotten(s: PopupView, label: Seq<char>) -> PopupView {
    match s.current {
        Some(c) if c.label == label => PopupView {
            payloads: json::removed(s.payloads, c.id),
            current: None,
        },
        _ => s,
    }
}

/// The store once a popup is open.
pub open spec fn opened(s: PopupView, id: Seq<char>, data: JsonView, interactive: bool, label: Seq<char>) -> PopupView {
    PopupView {
        payloads: json::put(s.payloads, id, data),
        current: Some(CurrentView { id, interactive, label }),
    }
}

/// What becomes of the open popup when another opens.
pub struct Replacement {
    /// The popup that ends undecided.
    pub dismissed: Option<String>,
    /// The window that is closed.
    pub label: String,
}

impl PopupStore {
    /// What a page is given to show.
    pub fn get_payload(&self, id: &str) -> (r: Option<Json>)
        ensures
            session::owned_view(r) == json::lookup(self@.payloads, id@),
    {
        match self.payloads.get(id) {
            Some(j) => Some(j.clone()),
            None => None,
        }
    }

    /// Takes an opened popup in.
    pub fn open(&mut self, o: &Opening)
        ensures
            final(self)@ == opened(old(self)@, o.id@, o.data@, o.interactive, o.label@),
    {
        self.payloads.put(o.id.as_str(), o.data.clone());
        self.current = Some(
            Current { id: o.id.clone(), interactive: o.interactive, label: o.label.clone() },
        );
    }

    /// Forgets a window that is gone.
    pub fn forget(&mut self, label: &str)
        ensures
            final(self)@ == forgotten(old(self)@, label@),
    {
        let id = match &self.current {
            Some(c) => if same(c.label.as_str(), label) {
                Some(c.id.clone())
            } else {
                None
            },
            None => None,
        };
        if let Some(i) = id {
            self.payloads.remove(i.as_str());
            self.current = None;
        }
    }

    /// What becomes of the open popup when the popup `new_id` opens: its window is
    /// closed, and if it waits for the user it ends undecided, unless it is the
    /// same popup once more.
    pub fn dismiss_previous(&mut self, new_id: &str) -> (r: Option<Replacement>)
        ensures
            match old(self)@.current {
                Some(c) => r is Some && r->0.label@ == c.label && interaction::opt_text(
                    r->0.dismissed,
                ) == (if c.interactive && c.id != new_id@ {
                    Some(c.id)
                } else {
                    None
                }) && final(self)@ == forgotten(old(self)@, c.label),
                None => r is None && final(self)@ == old(self)@,
            },
    {
        let (dismissed, label) = match &self.current {
            Some(c) => {
                let d = if c.interactive && !same(c.id.as_str(), new_id) {
                    Some(c.id.clone())
                } else {
                    None
                };
                (d, c.label.clone())
            },
            None => return None,
        };
        self.forget(label.as_str());
        Some(Replacement { dismissed, label })
    }

    /// Closes the popup with this id: gives its window's label, none where it is
    /// not open.
    pub fn close_by_id(&mut self, id: &str) -> (r: Option<String>)
        ensures
            match old(self)@.current {
                Some(c) if c.id == id@ => interaction::opt_text(r) == Some(c.label)
                    && final(self)@ == forgotten(old(self)@, c.label),
                _ => r is None && final(self)@ == old(self)@,
            },
    {
        let label = match &self.current {
            Some(c) => if same(c.id.as_str(), id) {
                c.label.clone()
            } else {
                return None;
            },
            None => return None,
        };
        self.forget(label.as_str());
        Some(label)
    }
}

// ---------------------------------------------------------------------------
// Laws
// ---------------------------------------------------------------------------

/// A page gets what its popup was opened with.
pub proof fn law_page_gets_what_was_opened(
    s: PopupView,
    id: Seq<char>,
    data: JsonView,
    interactive: bool,
    label: Seq<char>,
)
    ensures
        json::lookup(opened(s, id, data, interactive, label).payloads, id) == Some(data),
{
    json::law_put_then_lookup(s.payloads, id, data, id);
}

/// Forgetting a window twice is forgetting it once, and forgetting one that is
/// not open changes nothing.
pub proof fn law_forgetting_twice(s: PopupView, label: Seq<char>)
    ensures
        forgotten(forgotten(s, label), label) == forgotten(s, label),
        s.current is None ==> forgotten(s, label) == s,
{
}

/// A popup that opens is of the kind that its payload names, else a notification, and
/// waits for an answer unless it is one; it keeps its id where it has one.
pub proof fn law_popups_open_as_their_payload_says(
    p: JsonView,
    fresh_id: Seq<char>,
    kind: Seq<char>,
    id: Seq<char>,
    key: Seq<char>,
)
    requires
        p is Obj,
    ensures
        ({
            let d = shown(p, fresh_id);
            &&& p.field("kind"@) == Some(JsonView::Str(kind)) && (kind == "ask"@ || kind
                == "permission"@ || kind == "custom"@) ==> d.field("kind"@) == Some(
                JsonView::Str(kind),
            ) && d.field("interactive"@) == Some(JsonView::Bool(true))
            &&& p.field("kind"@) == Some(JsonView::Str("notification"@)) ==> d.field("kind"@) == Some(
                JsonView::Str("notification"@),
            ) && d.field("interactive"@) == Some(JsonView::Bool(false))
            &&& p.field("kind"@) is None ==> d.field("kind"@) == Some(
                JsonView::Str("notification"@),
            ) && d.field("interactive"@) == Some(JsonView::Bool(false))
            &&& p.field("id"@) == Some(JsonView::Str(id)) && id.len() > 0 ==> d.field("id"@) == Some(
                JsonView::Str(id),
            )
            &&& p.field("id"@) is None ==> d.field("id"@) == Some(JsonView::Str(fresh_id))
            &&& key != "id"@ && key != "kind"@ && key != "interactive"@ && key != "flavor"@
                ==> d.field(key) == p.field(key)
        }),
{
    broadcast use crate::json::group_fields;

    assert(JsonView::Obj(p.members()) == p);
    reveal_strlit("id");
    reveal_strlit("kind");
    reveal_strlit("interactive");
    reveal_strlit("flavor");
    assert("id"@.len() == 2);
    assert("kind"@.len() == 4);
    assert("interactive"@.len() == 11);
    assert("flavor"@.len() == 6);
    reveal_strlit("ask");
    reveal_strlit("permission");
    reveal_strlit("custom");
    reveal_strlit("notification");
    assert("ask"@.len() == 3);
    assert("permission"@.len() == 10);
    assert("custom"@.len() == 6);
    assert("notification"@.len() == 12);
}

/// A popup looks as its payload says, else by its kind.
pub proof fn law_popups_look_as_their_payload_says(
    p: JsonView,
    fresh_id: Seq<char>,
    flavor: Seq<char>,
)
    requires
        flavor.len() > 0,
    ensures
        p.field("flavor"@) == Some(JsonView::Str(flavor)) ==> shown(p, fresh_id).field("flavor"@)
            == Some(JsonView::Str(flavor)),
        p.field("flavor"@) is None && p.field("kind"@) == Some(JsonView::Str("ask"@)) ==> shown(
            p,
            fresh_id,
        ).field("flavor"@) == Some(JsonView::Str("ask"@)),
        p.field("flavor"@) is None && p.field("kind"@) == Some(JsonView::Str("permission"@)) ==> shown(
            p,
            fresh_id,
        ).field("flavor"@) == Some(JsonView::Str("permission"@)),
        p.field("flavor"@) is None && p.field("kind"@) is None && p.field("type"@) == Some(
            JsonView::Str(flavor),
        ) ==> shown(p, fresh_id).field("flavor"@) == Some(JsonView::Str(flavor)),
        p.field("flavor"@) is None && p.field("kind"@) is None && p.field("type"@) is None ==> shown(
            p,
            fresh_id,
        ).field("flavor"@) == Some(JsonView::Str("agent"@)),
{
    broadcast use crate::json::group_fields;

    reveal_strlit("id");
    reveal_strlit("kind");
    reveal_strlit("interactive");
    reveal_strlit("flavor");
    assert("id"@.len() == 2);
    assert("kind"@.len() == 4);
    assert("interactive"@.len() == 11);
    assert("flavor"@.len() == 6);
    reveal_strlit("ask");
    reveal_strlit("permission");
    reveal_strlit("custom");
    reveal_strlit("notification");
    assert("ask"@.len() == 3);
    assert("permission"@.len() == 10);
    assert("custom"@.len() == 6);
    assert("notification"@.len() == 12);
}

/// Opening a popup makes it the one that is open; closing its window forgets it and
/// its payload, and closing another's changes nothing.
pub proof fn law_one_popup_is_shown(
    s: PopupView,
    id: Seq<char>,
    data: JsonView,
    interactive: bool,
    label: Seq<char>,
    other: Seq<char>,
)
    requires
        json::distinct_names(s.payloads),
    ensures
        ({
            let t = opened(s, id, data, interactive, label);
            &&& t.current matches Some(c)
            &&& c.id == id
            &&& c.interactive == interactive
            &&& c.label == label
            &&& json::lookup(t.payloads, id) == Some(data)
            &&& forgotten(t, label).current is None
            &&& json::lookup(forgotten(t, label).payloads, id) is None
            &&& other != label ==> forgotten(t, other) == t
        }),
{
    json::law_put_then_lookup(s.payloads, id, data, id);
    json::law_put_keeps_names_distinct(s.payloads, id, data);
    json::law_removed_is_gone(json::put(s.payloads, id, data), id, id);
}

} // verus!
