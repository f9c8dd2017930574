//! What the tray shows: the icon's colour, the tooltip, the menu; and what its
//! menu does.

use vstd::prelude::*;
use crate::interaction;
use crate::interaction::menu_label;
use crate::json;
use crate::json::{text_field, Json, JsonView};
use crate::state::{TrayPatch, TraySync, TrayView};
use crate::text;
use crate::text::{cat2, cat3, chars_of, decimal, has_prefix, same, text_between};

verus! {

// ---------------------------------------------------------------------------
// Colours
// ---------------------------------------------------------------------------

/// The colour of a phase, red, green and blue; an unknown phase has that of
/// `idle`.
pub open spec fn color_of(phase: Seq<char>) -> (u8, u8, u8) {
    if phase == "work"@ {
        (255, 107, 129)
    } else if phase == "break"@ {
        (56, 189, 178)
    } else if phase == "longBreak"@ {
        (96, 165, 250)
    } else {
        (203, 213, 225)
    }
}

/// The colour of a phase.
pub fn phase_color(phase: &str) -> (r: (u8, u8, u8))
    ensures
        r == color_of(phase@),
{
    if same(phase, "work") {
        (255, 107, 129)
    } else if same(phase, "break") {
        (56, 189, 178)
    } else if same(phase, "longBreak") {
        (96, 165, 250)
    } else {
        (203, 213, 225)
    }
}

// ---------------------------------------------------------------------------
// The menu
// ---------------------------------------------------------------------------

/// A line of the menu.
pub enum MenuLine {
    /// An item: its id and its label.
    Item(String, String),
    Separator,
    /// A menu within the menu: its id, its label, and its items.
    Submenu(String, String, Vec<(String, String)>),
}

/// The model of a [`MenuLine`].
pub enum MenuLineView {
    Item(Seq<char>, Seq<char>),
    Separator,
    Submenu(Seq<char>, Seq<char>, Seq<(Seq<char>, Seq<char>)>),
}

/// The models of items.
pub open spec fn items_view(v: Seq<(String, String)>) -> Seq<(Seq<char>, Seq<char>)> {
    v.map_values(|e: (String, String)| (e.0@, e.1@))
}

impl View for MenuLine {
    type V = MenuLineView;

    open spec fn view(&self) -> MenuLineView {
        match *self {
            MenuLine::Item(id, label) => MenuLineView::Item(id@, label@),
            MenuLine::Separator => MenuLineView::Separator,
            MenuLine::Submenu(id, label, items) => MenuLineView::Submenu(
                id@,
                label@,
                items_view(items@),
            ),
        }
    }
}

/// The models of the menu's lines.
pub open spec fn lines_view(v: Seq<MenuLine>) -> Seq<MenuLineView> {
    v.map_values(|l: MenuLine| l@)
}

/// The item that takes a put-aside popup up again.
pub open spec fn pick_item(p: JsonView) -> (Seq<char>, Seq<char>) {
    ("pending:"@ + interaction::named(p, "id"@), interaction::label(p))
}

/// The lines for the popups that were put aside: how many there are, a choice
/// where there is more than one, and a separator. None where there is no such
/// popup.
pub open spec fn pending_lines(held: Seq<JsonView>) -> Seq<MenuLineView> {
    let count = MenuLineView::Item(
        "pending"@,
        "待处理的确认（"@ + text::int_text(held.len() as int) + "）"@,
    );
    if held.len() == 0 {
        Seq::empty()
    } else if held.len() == 1 {
        Seq::empty().push(count).push(MenuLineView::Separator)
    } else {
        Seq::empty().push(count).push(
            MenuLineView::Submenu(
                "pending-pick"@,
                "选择要处理的…"@,
                held.map_values(|p: JsonView| pick_item(p)),
            ),
        ).push(MenuLineView::Separator)
    }
}

/// The menu: first what waits, then the window, the timer, and the end.
pub open spec fn menu_of(held: Seq<JsonView>, running: bool) -> Seq<MenuLineView> {
    pending_lines(held).push(MenuLineView::Item("show"@, "显示主窗口"@)).push(
        MenuLineView::Separator,
    ).push(
        MenuLineView::Item(
            "toggle"@,
            if running {
                "暂停"@
            } else {
                "开始"@
            },
        ),
    ).push(MenuLineView::Item("reset"@, "重置"@)).push(
        MenuLineView::Item("skip"@, "跳到下一阶段"@),
    ).push(MenuLineView::Separator).push(MenuLineView::Item("quit"@, "退出"@))
}

fn add_line(v: &mut Vec<MenuLine>, l: MenuLine)
    ensures
        lines_view(final(v)@) == lines_view(old(v)@).push(l@),
{
    let ghost before = lines_view(v@);
    v.push(l);
    assert(lines_view(v@) =~= before.push(l@));
}

fn item(id: &str, label: &str) -> (r: MenuLine)
    ensures
        r@ == MenuLineView::Item(id@, label@),
{
    MenuLine::Item(id.to_owned(), label.to_owned())
}

/// The menu for the popups that were put aside and a timer that runs or not.
pub fn build_menu(held: &[Json], running: bool) -> (r: Vec<MenuLine>)
    ensures
        lines_view(r@) == menu_of(json::views(held@), running),
{
    let ghost hv = json::views(held@);
    let mut v: Vec<MenuLine> = Vec::new();
    assert(lines_view(v@) =~= Seq::empty());
    if held.len() > 0 {
        let n = decimal(held.len() as u64);
        let label = cat3("待处理的确认（", n.as_str(), "）");
        add_line(&mut v, item("pending", label.as_str()));
    }
    if held.len() > 1 {
        let mut items: Vec<(String, String)> = Vec::new();
        let mut i: usize = 0;
        while i < held.len()
            invariant
                i <= held@.len(),
                items@.len() == i,
                forall|k: int|
                    0 <= k < i ==> ((#[trigger] items@[k]).0@, items@[k].1@) == pick_item(
                        held@[k]@,
                    ),
            decreases held.len() - i,
        {
            let id = match text_field(&held[i], "id") {
                Some(s) => cat2("pending:", s),
                None => cat2("pending:", ""),
            };
            proof {
                reveal_strlit("");
                assert(""@ =~= Seq::empty());
            }
            items.push((id, menu_label(&held[i])));
            i += 1;
        }
        assert(items_view(items@) =~= hv.map_values(|p: JsonView| pick_item(p)));
        add_line(
            &mut v,
            MenuLine::Submenu("pending-pick".to_owned(), "选择要处理的…".to_owned(), items),
        );
    }
    if held.len() > 0 {
        add_line(&mut v, MenuLine::Separator);
    }
    add_line(&mut v, item("show", "显示主窗口"));
    add_line(&mut v, MenuLine::Separator);
    add_line(
        &mut v,
        item(
            "toggle",
            if running {
                "暂停"
            } else {
                "开始"
            },
        ),
    );
    add_line(&mut v, item("reset", "重置"));
    add_line(&mut v, item("skip", "跳到下一阶段"));
    add_line(&mut v, MenuLine::Separator);
    add_line(&mut v, item("quit", "退出"));
    v
}

/// What a menu item does.
pub enum MenuAction {
    /// Brings the main window to the front.
    Show,
    /// Sends the timer a command.
    Command(&'static str),
    /// Takes up again the popup that was put aside first.
    ReopenFirst,
    /// Takes a put-aside popup up again.
    Reopen(String),
    Quit,
    Nothing,
}

/// The model of a [`MenuAction`].
pub enum MenuActionView {
    Show,
    Command(Seq<char>),
    ReopenFirst,
    Reopen(Seq<char>),
    Quit,
    Nothing,
}

impl View for MenuAction {
    type V = MenuActionView;

    open spec fn view(&self) -> MenuActionView {
        match *self {
            MenuAction::Show => MenuActionView::Show,
            MenuAction::Command(c) => MenuActionView::Command(c@),
            MenuAction::ReopenFirst => MenuActionView::ReopenFirst,
            MenuAction::Reopen(id) => MenuActionView::Reopen(id@),
            MenuAction::Quit => MenuActionView::Quit,
            MenuAction::Nothing => MenuActionView::Nothing,
        }
    }
}

/// What the menu item with this id does.
pub open spec fn action_of(id: Seq<char>) -> MenuActionView {
    if id == "show"@ {
        MenuActionView::Show
    } else if id == "toggle"@ || id == "reset"@ || id == "skip"@ {
        MenuActionView::Command(id)
    } else if id == "pending"@ {
        MenuActionView::ReopenFirst
    } else if id == "quit"@ {
        MenuActionView::Quit
    } else if id != "pending-pick"@ && text::starts_with(id, "pending:"@) {
        MenuActionView::Reopen(id.skip(8))
    } else {
        MenuActionView::Nothing
    }
}

/// What the menu item with this id does.
pub fn menu_action(id: &str) -> (r: MenuAction)
    ensures
        r@ == action_of(id@),
{
    if same(id, "show") {
        MenuAction::Show
    } else if same(id, "toggle") {
        MenuAction::Command("toggle")
    } else if same(id, "reset") {
        MenuAction::Command("reset")
    } else if same(id, "skip") {
        MenuAction::Command("skip")
    } else if same(id, "pending") {
        MenuAction::ReopenFirst
    } else if same(id, "quit") {
        MenuAction::Quit
    } else if same(id, "pending-pick") {
        MenuAction::Nothing
    } else if has_prefix(id, "pending:") {
        proof {
            reveal_strlit("pending:");
            assert("pending:"@.len() == 8);
        }
        let v = chars_of(id);
        let rest = text_between(&v, 8, v.len());
        assert(v@.subrange(8, v@.len() as int) =~= id@.skip(8));
        MenuAction::Reopen(rest)
    } else {
        MenuAction::Nothing
    }
}

// ---------------------------------------------------------------------------
// The tooltip and the icon
// ---------------------------------------------------------------------------

/// The tooltip: the name, the time, and how many popups were put aside.
pub open spec fn tooltip(time_text: Option<Seq<char>>, pending: int) -> Seq<char> {
    let base = match time_text {
        Some(t) if t.len() > 0 => "番茄钟 "@ + t,
        _ => "番茄钟"@,
    };
    if pending > 0 {
        base + " · "@ + text::int_text(pending) + " 条确认待处理"@
    } else {
        base
    }
}

/// The tooltip.
pub fn tooltip_text(time_text: Option<&str>, pending: usize) -> (r: String)
    ensures
        r@ == tooltip(interaction::opt_str(time_text), pending as int),
{
    let mut r = match time_text {
        Some(t) => if t.is_empty() {
            "番茄钟".to_owned()
        } else {
            cat2("番茄钟 ", t)
        },
        None => "番茄钟".to_owned(),
    };
    if pending > 0 {
        r.append(" · ");
        r.append(decimal(pending as u64).as_str());
        r.append(" 条确认待处理");
    }
    r
}

/// What changes in the tray.
pub struct TrayChange {
    /// The icon takes the colour of this phase.
    pub icon: Option<String>,
    /// The tooltip becomes this.
    pub tooltip: Option<String>,
    /// The menu is built anew, for a timer that runs or not.
    pub menu: Option<bool>,
}

/// The phase that the tray shows after a report: one that the report does not
/// carry stays, and before any report it is `idle`.
pub open spec fn shown_phase(t: TrayView, p: TrayPatch) -> Seq<char> {
    match (p.phase, t.phase) {
        (Some(s), _) => s@,
        (None, Some(before)) => before,
        (None, None) => "idle"@,
    }
}

/// The time that the tray shows after a report: one that the report does not
/// carry stays, and before any report there is none.
pub open spec fn shown_time(t: TrayView, p: TrayPatch) -> Seq<char> {
    match (p.time_left_text, t.time_text) {
        (Some(s), _) => s@,
        (None, Some(before)) => before,
        (None, None) => Seq::empty(),
    }
}

/// Whether the tray shows a timer that runs after a report: where the report does
/// not say, that stays, and before any report it does not run.
pub open spec fn shown_running(t: TrayView, p: TrayPatch) -> bool {
    match (p.running, t.running) {
        (Some(b), _) => b,
        (None, Some(before)) => before,
        (None, None) => false,
    }
}

/// The tray after a report.
pub open spec fn synced(t: TrayView, p: TrayPatch) -> TrayView {
    TrayView {
        phase: Some(shown_phase(t, p)),
        running: Some(shown_running(t, p)),
        time_text: Some(shown_time(t, p)),
        pending: t.pending,
    }
}

/// How many popups the tray shows as put aside.
pub open spec fn shown_pending(t: TrayView) -> int {
    match t.pending {
        Some(n) => n as int,
        None => 0,
    }
}

fn differs(shown: &Option<String>, now: &str) -> (r: bool)
    ensures
        r == (interaction::opt_text(*shown) != Some(now@)),
{
    match shown {
        Some(s) => !same(s.as_str(), now),
        None => true,
    }
}

/// Takes a report in: only what has changed is to be shown anew.
pub fn sync_from_patch(sync: &mut TraySync, patch: &TrayPatch) -> (r: TrayChange)
    ensures
        final(sync)@ == synced(old(sync)@, *patch),
        interaction::opt_text(r.icon) == (if old(sync)@.phase == final(sync)@.phase {
            None
        } else {
            Some(shown_phase(old(sync)@, *patch))
        }),
        interaction::opt_text(r.tooltip) == (if old(sync)@.time_text == final(sync)@.time_text {
            None
        } else {
            Some(tooltip(Some(shown_time(old(sync)@, *patch)), shown_pending(old(sync)@)))
        }),
        r.menu == (if old(sync)@.running == final(sync)@.running {
            None
        } else {
            Some(shown_running(old(sync)@, *patch))
        }),
{
    let phase = match (&patch.phase, &sync.phase) {
        (Some(s), _) => s.clone(),
        (None, Some(before)) => before.clone(),
        (None, None) => "idle".to_owned(),
    };
    let running = match (patch.running, sync.running) {
        (Some(b), _) => b,
        (None, Some(before)) => before,
        (None, None) => false,
    };
    let time_text = match (&patch.time_left_text, &sync.time_text) {
        (Some(s), _) => s.clone(),
        (None, Some(before)) => before.clone(),
        (None, None) => String::new(),
    };
    let icon = if differs(&sync.phase, phase.as_str()) {
        Some(phase.clone())
    } else {
        None
    };
    let tip = if differs(&sync.time_text, time_text.as_str()) {
        let pending: usize = match sync.pending {
            Some(n) => n,
            None => 0,
        };
        Some(tooltip_text(Some(time_text.as_str()), pending))
    } else {
        None
    };
    let menu = match sync.running {
        Some(b) => if b == running {
            None
        } else {
            Some(running)
        },
        None => Some(running),
    };
    sync.phase = Some(phase);
    sync.time_text = Some(time_text);
    sync.running = Some(running);
    TrayChange { icon, tooltip: tip, menu }
}

/// Takes in how many popups were put aside: the new tooltip, where that has
/// changed.
pub fn set_pending_tooltip(sync: &mut TraySync, count: usize) -> (r: Option<String>)
    ensures
        final(sync)@ == (TrayView { pending: Some(count), ..old(sync)@ }),
        interaction::opt_text(r) == (if old(sync)@.pending == Some(count) {
            None
        } else {
            Some(tooltip(old(sync)@.time_text, count as int))
        }),
{
    let changed = match sync.pending {
        Some(n) => n != count,
        None => true,
    };
    sync.pending = Some(count);
    if !changed {
        return None;
    }
    match &sync.time_text {
        Some(t) => Some(tooltip_text(Some(t.as_str()), count)),
        None => Some(tooltip_text(None, count)),
    }
}

// ---------------------------------------------------------------------------
// Laws
// ---------------------------------------------------------------------------

/// A report that came before changes nothing in the tray.
pub proof fn law_same_report_changes_nothing(t: TrayView, p: TrayPatch)
    ensures
        synced(synced(t, p), p) == synced(t, p),
{
}

/// What the tray shows stays where a report does not say otherwise.
pub proof fn law_tray_keeps_what_is_not_said(t: TrayView, p: TrayPatch)
    ensures
        p.phase is None && t.phase is Some ==> synced(t, p).phase == t.phase,
        p.running is None && t.running is Some ==> synced(t, p).running == t.running,
        p.time_left_text is None && t.time_text is Some ==> synced(t, p).time_text == t.time_text,
{
}

/// The time going on does not take away how many popups were put aside.
pub proof fn law_ticking_keeps_what_waits(t: TrayView, p: TrayPatch)
    ensures
        shown_pending(synced(t, p)) == shown_pending(t),
        shown_pending(t) > 0 ==> tooltip(Some(shown_time(t, p)), shown_pending(t)) == tooltip(
            Some(shown_time(t, p)),
            0,
        ) + (" · "@ + text::int_text(shown_pending(t)) + " 条确认待处理"@),
{
    let base = tooltip(Some(shown_time(t, p)), 0);
    let n = text::int_text(shown_pending(t));
    assert(base + " · "@ + n + " 条确认待处理"@ =~= base + (" · "@ + n + " 条确认待处理"@));
}

/// The items of the choice lead to the popups that they are for.
pub proof fn law_picked_item_reopens_its_popup(p: JsonView)
    ensures
        action_of(pick_item(p).0) == MenuActionView::Reopen(interaction::named(p, "id"@)),
{
    let id = pick_item(p).0;
    reveal_strlit("pending:");
    reveal_strlit("show");
    reveal_strlit("toggle");
    reveal_strlit("reset");
    reveal_strlit("skip");
    reveal_strlit("quit");
    reveal_strlit("pending");
    reveal_strlit("pending-pick");
    assert("pending:"@.len() == 8);
    assert(id[7] == ':');
    assert(id.len() >= 8);
    assert("pending-pick"@[7] == '-');
    assert("show"@.len() == 4 && "toggle"@.len() == 6 && "reset"@.len() == 5 && "skip"@.len() == 4
        && "quit"@.len() == 4 && "pending"@.len() == 7);
    assert(id.take(8) =~= "pending:"@);
    assert(id.subrange(0, 8) =~= "pending:"@);
    assert(id.skip(8) =~= interaction::named(p, "id"@));
}

/// Each phase has its colour.
pub proof fn law_each_phase_has_its_colour(other: Seq<char>)
    ensures
        color_of("work"@) == (255u8, 107u8, 129u8),
        color_of("break"@) == (56u8, 189u8, 178u8),
        color_of("longBreak"@) == (96u8, 165u8, 250u8),
        other != "work"@ && other != "break"@ && other != "longBreak"@ ==> color_of(other) == (
            203u8,
            213u8,
            225u8,
        ),
{
    reveal_strlit("work");
    reveal_strlit("break");
    reveal_strlit("longBreak");
    assert("work"@.len() == 4);
    assert("break"@.len() == 5);
    assert("longBreak"@.len() == 9);
}

/// Each item of the menu does what it says.
pub proof fn law_each_item_does_what_it_says(other: Seq<char>)
    ensures
        action_of("show"@) == MenuActionView::Show,
        action_of("toggle"@) == MenuActionView::Command("toggle"@),
        action_of("reset"@) == MenuActionView::Command("reset"@),
        action_of("skip"@) == MenuActionView::Command("skip"@),
        action_of("pending"@) == MenuActionView::ReopenFirst,
        action_of("quit"@) == MenuActionView::Quit,
        action_of("pending-pick"@) == MenuActionView::Nothing,
        action_of("pending:"@ + other) == MenuActionView::Reopen(other),
{
    reveal_strlit("show");
    reveal_strlit("toggle");
    reveal_strlit("reset");
    reveal_strlit("skip");
    reveal_strlit("pending");
    reveal_strlit("quit");
    reveal_strlit("pending-pick");
    reveal_strlit("pending:");
    assert("show"@.len() == 4);
    assert("toggle"@.len() == 6);
    assert("reset"@.len() == 5);
    assert("skip"@.len() == 4);
    assert("pending"@.len() == 7);
    assert("quit"@.len() == 4);
    assert("pending-pick"@.len() == 12);
    assert("pending:"@.len() == 8);
    assert("show"@[1] == 'h');
    assert("skip"@[1] == 'k');
    assert("quit"@[1] == 'u');
    let id = "pending:"@ + other;
    assert(id[7] == ':');
    assert("pending-pick"@[7] == '-');
    assert(id.len() >= 8);
    assert(id.subrange(0, 8) =~= "pending:"@);
    assert(id.skip(8) =~= other);
}

/// The menu has, at its end, the way to the main window, the timer's three commands
/// and the way out; the first command says what it does now.
pub proof fn law_the_menu_has_its_items(held: Seq<JsonView>, running: bool)
    ensures
        ({
            let m = menu_of(held, running);
            let n = m.len() as int;
            &&& n >= 7
            &&& m[n - 7] == MenuLineView::Item("show"@, "显示主窗口"@)
            &&& m[n - 6] == MenuLineView::Separator
            &&& running ==> m[n - 5] == MenuLineView::Item("toggle"@, "暂停"@)
            &&& !running ==> m[n - 5] == MenuLineView::Item("toggle"@, "开始"@)
            &&& m[n - 4] == MenuLineView::Item("reset"@, "重置"@)
            &&& m[n - 3] == MenuLineView::Item("skip"@, "跳到下一阶段"@)
            &&& m[n - 2] == MenuLineView::Separator
            &&& m[n - 1] == MenuLineView::Item("quit"@, "退出"@)
        }),
{
}

/// Where popups are put aside the menu begins with how many, and where there are
/// several lets one choose among them, in their order.
pub proof fn law_the_menu_begins_with_what_is_put_aside(held: Seq<JsonView>, running: bool, i: int)
    requires
        0 <= i < held.len(),
    ensures
        ({
            let m = menu_of(held, running);
            &&& m[0] == MenuLineView::Item(
                "pending"@,
                "待处理的确认（"@ + text::int_text(held.len() as int) + "）"@,
            )
            &&& held.len() == 1 ==> m[1] == MenuLineView::Separator && m.len() == 9
            &&& held.len() > 1 ==> (m[1] matches MenuLineView::Submenu(id, _, items) && id
                == "pending-pick"@ && items.len() == held.len() && items[i].0 == "pending:"@
                + interaction::named(held[i], "id"@) && items[i].1 == interaction::label(held[i]))
        }),
{
}

/// Without anything put aside the menu has nothing of it.
pub proof fn law_the_menu_without_anything_put_aside(running: bool)
    ensures
        menu_of(Seq::empty(), running).len() == 7,
{
}

/// The tooltip tells the time that is left, and how many popups are put aside.
pub proof fn law_the_tooltip_tells_the_time(t: Seq<char>, n: int)
    requires
        t.len() > 0,
    ensures
        tooltip(Some(t), 0) == "番茄钟 "@ + t,
        tooltip(None, 0) == "番茄钟"@,
        n > 0 ==> tooltip(Some(t), n) == "番茄钟 "@ + t + " · "@ + text::int_text(n)
            + " 条确认待处理"@,
        n > 0 ==> tooltip(None, n) == "番茄钟"@ + " · "@ + text::int_text(n) + " 条确认待处理"@,
{
}

/// What a report says is what the tray shows.
pub proof fn law_the_tray_shows_what_is_reported(t: TrayView, p: TrayPatch)
    ensures
        p.phase matches Some(s) ==> synced(t, p).phase == Some(s@),
        p.running matches Some(b) ==> synced(t, p).running == Some(b),
        p.time_left_text matches Some(s) ==> synced(t, p).time_text == Some(s@),
        p.phase is None && t.phase is None ==> synced(t, p).phase == Some("idle"@),
        p.running is None && t.running is None ==> synced(t, p).running == Some(false),
{
}

/// Several popups that were put aside can be picked from, in their order; of one there
/// is nothing to pick.
pub proof fn law_several_popups_can_be_picked_from(held: Seq<JsonView>, i: int)
    requires
        held.len() > 1,
        0 <= i < held.len(),
    ensures
        pending_lines(held).len() == 3,
        pending_lines(held)[1] matches MenuLineView::Submenu(id, words, lines) && id
            == "pending-pick"@ && words == "选择要处理的…"@ && lines.len() == held.len() && lines[i]
            == pick_item(held[i]),
        pending_lines(seq![held[i]]).len() == 2,
{
}

} // verus!
