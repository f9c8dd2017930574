//! What the main window does: becoming the mini window and back, being dragged,
//! docking to an edge, sliding out and being put away.

use vstd::prelude::*;
use crate::geometry;
use crate::geometry::{
    beyond_work_area, cursor_in_rect_padded, detect_edge, dock_geometry, drag_position,
    mini_from_full, mini_resize_into, mini_to_full, work_area_at_point, Metrics, Point, Rect,
    DOCK_HIDE_PAD, DOCK_REVEAL_PAD,
};
use crate::json::{Json, JsonView};
use crate::state::{Drag, WindowState};

verus! {

/// How long after a putting away was put off it is tried again.
pub const DOCK_HIDE_RETRY_MS: u64 = 300;

/// How often a putting away is put off while the cursor is on the window.
pub const DOCK_HIDE_MAX_RETRY: u32 = 10;

/// How long after the cursor left the window it is put away.
pub const DOCK_HIDE_DELAY_MS: u64 = 350;

/// How often a drag looks where the cursor is, in milliseconds.
pub const DRAG_POLL_MS: u64 = 16;

/// How long a drag goes on at most, in milliseconds.
pub const DRAG_MAX_MS: u64 = 120_000;

/// How long a shown window has to come to the front before it asks for attention.
pub const FOREGROUND_RETRY_MS: u64 = 300;

// ---------------------------------------------------------------------------
// Work areas
// ---------------------------------------------------------------------------

/// The greater number.
pub open spec fn at_least(n: int, least: int) -> int {
    if n < least {
        least
    } else {
        n
    }
}

/// The work areas to go by: those of the screens, else that of the first screen,
/// else a made-up one that the window fits in.
pub open spec fn areas_of(screens: Seq<Rect>, primary: Option<Rect>, window: Option<Rect>) -> Seq<Rect> {
    if screens.len() > 0 {
        screens
    } else {
        match (primary, window) {
            (Some(p), _) => seq![p],
            (None, Some(b)) => seq![Rect {
                x: 0,
                y: 0,
                w: at_least(b.far_x(), 1280) as i32,
                h: at_least(b.far_y(), 720) as i32,
            }],
            (None, None) => seq![Rect { x: 0, y: 0, w: 1280, h: 720 }],
        }
    }
}

/// The work areas to go by; there is always one.
pub fn work_areas(screens: Vec<Rect>, primary: Option<Rect>, window: Option<Rect>) -> (r: Vec<Rect>)
    requires
        window matches Some(b) ==> geometry::fits(b.far_x()) && geometry::fits(b.far_y()),
    ensures
        r@ == areas_of(screens@, primary, window),
        r@.len() > 0,
{
    let mut v = screens;
    if v.len() == 0 {
        match primary {
            Some(p) => v.push(p),
            None => match window {
                Some(b) => {
                    let (x, y): (i32, i32) = (b.right(), b.bottom());
                    let w: i32 = if x < 1280 {
                        1280
                    } else {
                        x
                    };
                    let h: i32 = if y < 720 {
                        720
                    } else {
                        y
                    };
                    v.push(Rect::new(0, 0, w, h));
                },
                None => v.push(Rect::new(0, 0, 1280, 720)),
            },
        }
        assert(v@ =~= areas_of(screens@, primary, window));
    }
    v
}

// ---------------------------------------------------------------------------
// The mini window
// ---------------------------------------------------------------------------

/// The next token of a delayed putting away.
pub open spec fn next_token(t: u64) -> u64 {
    if t == u64::MAX {
        0
    } else {
        (t + 1) as u64
    }
}

fn bump(w: &mut WindowState)
    ensures
        *final(w) == (WindowState { hide_token: next_token(old(w).hide_token), ..*old(w) }),
{
    w.hide_token = if w.hide_token == u64::MAX {
        0
    } else {
        w.hide_token + 1
    };
}

/// The window after it becomes the mini window, or the full one again: it is not
/// dragged or docked, and no putting away is due.
pub open spec fn pinned(w: WindowState, on: bool) -> WindowState {
    if w.mini == on {
        w
    } else {
        WindowState {
            mini: on,
            drag: None,
            hide_token: next_token(w.hide_token),
            dock: None,
            dock_hidden: false,
            dock_wa: None,
            ..w
        }
    }
}

/// Makes the window the mini window, or the full one again. Whether anything
/// changed.
pub fn set_pin_mini(w: &mut WindowState, on: bool) -> (changed: bool)
    ensures
        *final(w) == pinned(*old(w), on),
        changed == (old(w).mini != on),
        old(w).wf() ==> final(w).wf(),
{
    if w.mini == on {
        return false;
    }
    w.mini = on;
    w.drag = None;
    bump(w);
    w.dock = None;
    w.dock_hidden = false;
    w.dock_wa = None;
    true
}

/// Where the mini window goes when a full window at `b` becomes one; the full
/// window's place is kept.
pub fn shrink(w: &mut WindowState, b: Rect, m: &Metrics) -> (r: Rect)
    requires
        geometry::fits(b.far_x() - m.mini_w),
    ensures
        *final(w) == (WindowState { full: Some(b), ..*old(w) }),
        r.x == b.far_x() - m.mini_w,
        r.y == b.y,
        r.w == m.mini_w,
        r.h == m.mini_h,
        old(w).wf() ==> final(w).wf(),
{
    w.full = Some(b);
    mini_from_full(b, m)
}

/// The full window's size when the mini window grows: that which was kept, not
/// below the least one.
pub open spec fn grown_size(full: Option<Rect>, m: Metrics) -> (int, int) {
    match full {
        Some(f) => (
            at_least(f.w as int, m.full_min_w as int),
            at_least(f.h as int, m.full_min_h as int),
        ),
        None => (
            at_least(m.full_w as int, m.full_min_w as int),
            at_least(m.full_h as int, m.full_min_h as int),
        ),
    }
}

/// Where the full window goes when the mini window at `cur` becomes one.
pub fn grow(w: &WindowState, cur: Rect, wa: Rect, m: &Metrics) -> (r: Rect)
    requires
        geometry::fits(
            geometry::placed(
                cur.far_x() - grown_size(w.full, *m).0,
                grown_size(w.full, *m).0,
                wa.x as int,
                wa.w as int,
            ),
        ),
    ensures
        (r.w as int, r.h as int) == grown_size(w.full, *m),
        r.x == geometry::placed(cur.far_x() - r.w, r.w as int, wa.x as int, wa.w as int),
        r.y == geometry::placed(cur.y as int, r.h as int, wa.y as int, wa.h as int),
{
    let (fw, fh): (i32, i32) = match w.full {
        Some(f) => (f.w, f.h),
        None => (m.full_w, m.full_h),
    };
    let width: i32 = if fw < m.full_min_w {
        m.full_min_w
    } else {
        fw
    };
    let height: i32 = if fh < m.full_min_h {
        m.full_min_h
    } else {
        fh
    };
    mini_to_full(cur, width, height, wa)
}

/// How the docked state is told to the page: `edge` is null where the window is
/// not docked.
pub open spec fn dock_json(w: WindowState) -> JsonView {
    JsonView::object().with("hidden"@, JsonView::Bool(w.dock_hidden)).with(
        "edge"@,
        match w.dock {
            Some(e) => JsonView::Str(e.name()),
            None => JsonView::Null,
        },
    )
}

/// How the docked state is told to the page.
pub fn dock_state(w: &WindowState) -> (r: Json)
    ensures
        r@ == dock_json(*w),
{
    let edge = match w.dock {
        Some(e) => Json::text(e.as_str()),
        None => Json::Null,
    };
    Json::object().with("hidden", Json::Bool(w.dock_hidden)).with("edge", edge)
}

/// What a double click on the tray does.
#[derive(Clone, Copy, PartialEq, Eq, Structural, Debug)]
pub enum Toggle {
    /// Grows the mini window and brings it to the front.
    Reveal,
    /// Hides the window.
    Hide,
    /// Shows the window.
    Show,
}

/// What a double click on the tray does: a mini window is never hidden by it.
pub fn toggle_main(w: &WindowState, visible: bool) -> (r: Toggle)
    ensures
        r == (if w.mini {
            Toggle::Reveal
        } else if visible {
            Toggle::Hide
        } else {
            Toggle::Show
        }),
{
    if w.mini {
        Toggle::Reveal
    } else if visible {
        Toggle::Hide
    } else {
        Toggle::Show
    }
}

// ---------------------------------------------------------------------------
// Dragging
// ---------------------------------------------------------------------------

/// Begins a drag of the mini window at `b`. A full window is not dragged this
/// way. Whether the drag began.
pub fn start_drag(w: &mut WindowState, b: Rect, cursor: (i32, i32), wa: Rect) -> (r: bool)
    requires
        geometry::fits(cursor.0 - b.x),
        geometry::fits(cursor.1 - b.y),
    ensures
        r == old(w).mini,
        *final(w) == (if old(w).mini {
            WindowState {
                drag: Some(
                    Drag {
                        offset: ((cursor.0 - b.x) as i32, (cursor.1 - b.y) as i32),
                        size: (b.w, b.h),
                        wa,
                    },
                ),
                ..*old(w)
            }
        } else {
            *old(w)
        }),
        old(w).wf() ==> final(w).wf(),
{
    if !w.mini {
        return false;
    }
    w.drag = Some(Drag { offset: (cursor.0 - b.x, cursor.1 - b.y), size: (b.w, b.h), wa });
    true
}

/// The work area that holds a drag: another screen's takes over only once the
/// cursor is well beyond the one before.
pub open spec fn drag_area(wa: Rect, cursor: (i32, i32), areas: Seq<Rect>, margin: int) -> Rect {
    match geometry::area_at(cursor.0, cursor.1, areas) {
        Some(here) if here != wa && geometry::beyond(
            cursor.0 as int,
            cursor.1 as int,
            wa,
            margin,
        ) => here,
        _ => wa,
    }
}

/// One step of a drag: the work area that holds it now.
pub fn drag_step(wa: Rect, cursor: (i32, i32), areas: &[Rect], m: &Metrics) -> (r: Rect)
    ensures
        r == drag_area(wa, cursor, areas@, m.drag_switch_margin as int),
{
    match work_area_at_point(cursor.0, cursor.1, areas) {
        Some(here) => if here != wa && beyond_work_area(cursor, wa, m.drag_switch_margin) {
            here
        } else {
            wa
        },
        None => wa,
    }
}

/// The work area of the drag that goes on, changed to another.
pub fn move_drag(w: &mut WindowState, wa: Rect)
    ensures
        *final(w) == (match old(w).drag {
            Some(d) => WindowState { drag: Some(Drag { wa, ..d }), ..*old(w) },
            None => *old(w),
        }),
        old(w).wf() ==> final(w).wf(),
{
    if let Some(d) = w.drag {
        w.drag = Some(Drag { offset: d.offset, size: d.size, wa });
    }
}

/// Where a dragged window goes.
pub fn drag_target(d: &Drag, cursor: (i32, i32)) -> (r: (i32, i32))
    requires
        geometry::fits(
            geometry::placed(cursor.0 - d.offset.0, d.size.0 as int, d.wa.x as int, d.wa.w as int),
        ),
        geometry::fits(
            geometry::placed(cursor.1 - d.offset.1, d.size.1 as int, d.wa.y as int, d.wa.h as int),
        ),
    ensures
        r.0 == geometry::placed(
            cursor.0 - d.offset.0,
            d.size.0 as int,
            d.wa.x as int,
            d.wa.w as int,
        ),
        r.1 == geometry::placed(
            cursor.1 - d.offset.1,
            d.size.1 as int,
            d.wa.y as int,
            d.wa.h as int,
        ),
{
    drag_position(cursor, d.offset, d.size, d.wa)
}

/// Whether a drag ends by itself: the button is up, or it went on too long.
pub fn drag_over(button_down: bool, elapsed_ms: u64) -> (r: bool)
    ensures
        r == (!button_down || elapsed_ms > DRAG_MAX_MS),
{
    !button_down || elapsed_ms > DRAG_MAX_MS
}

/// Whether a key is down, from the state that the system reports: its highest
/// bit says so.
pub fn is_down_from_async_state(raw: i16) -> (r: bool)
    ensures
        r == (raw < 0),
{
    raw < 0
}

/// Ends the drag without docking.
pub fn stop_drag(w: &mut WindowState)
    ensures
        *final(w) == (WindowState { drag: None, ..*old(w) }),
        old(w).wf() ==> final(w).wf(),
{
    w.drag = None;
}

/// The window after it was let go at `b` in the work area `wa`: docked and put
/// away at an edge that is near enough, else not docked.
pub open spec fn dropped(w: WindowState, b: Rect, wa: Rect, m: Metrics) -> WindowState {
    if !w.mini {
        WindowState { drag: None, ..w }
    } else {
        match geometry::edge_of(b, wa, m) {
            Some(e) => WindowState {
                drag: None,
                hide_token: next_token(w.hide_token),
                dock: Some(e),
                dock_hidden: true,
                dock_wa: Some(wa),
                ..w
            },
            None => WindowState {
                drag: None,
                hide_token: next_token(w.hide_token),
                dock: None,
                dock_hidden: false,
                dock_wa: None,
                ..w
            },
        }
    }
}

/// Lets the window go at `b`. Gives where an undocked one goes; a docked one goes
/// where [`dock_target`] says.
pub fn end_drag(w: &mut WindowState, b: Rect, wa: Rect, m: &Metrics) -> (r: Option<Rect>)
    ensures
        *final(w) == dropped(*old(w), b, wa, *m),
        r is Some == (old(w).mini && geometry::edge_of(b, wa, *m) is None),
        r matches Some(t) ==> t.x == geometry::placed(
            b.x as int,
            m.mini_w as int,
            wa.x as int,
            wa.w as int,
        ) && t.y == geometry::placed(b.y as int, m.mini_h as int, wa.y as int, wa.h as int) && t.w
            == m.mini_w && t.h == m.mini_h,
        old(w).wf() ==> final(w).wf(),
{
    w.drag = None;
    if !w.mini {
        return None;
    }
    bump(w);
    match detect_edge(b, wa, m) {
        Some(edge) => {
            w.dock = Some(edge);
            w.dock_hidden = true;
            w.dock_wa = Some(wa);
            None
        },
        None => {
            w.dock = None;
            w.dock_hidden = false;
            w.dock_wa = None;
            Some(mini_resize_into(b, wa, m))
        },
    }
}

// ---------------------------------------------------------------------------
// Docking
// ---------------------------------------------------------------------------

/// Where a docked window goes; none where it is not docked. `here` is the work
/// area at `b`, for a window that has kept none.
pub fn dock_target(w: &WindowState, b: Rect, here: Rect, m: &Metrics) -> (r: Option<Rect>)
    requires
        w.mini && w.dock is Some ==> geometry::fits(
            geometry::docked(w.dock->0, b, kept_area(*w, here), w.dock_hidden, *m).0,
        ) && geometry::fits(
            geometry::docked(w.dock->0, b, kept_area(*w, here), w.dock_hidden, *m).1,
        ),
    ensures
        r is Some == (w.mini && w.dock is Some),
        r matches Some(t) ==> geometry::numbers(t) == geometry::docked(
            w.dock->0,
            b,
            kept_area(*w, here),
            w.dock_hidden,
            *m,
        ),
{
    if !w.mini {
        return None;
    }
    let edge = match w.dock {
        Some(e) => e,
        None => return None,
    };
    let wa = match w.dock_wa {
        Some(a) => a,
        None => here,
    };
    Some(dock_geometry(edge, b, wa, w.dock_hidden, m))
}

/// The work area in which a window is docked.
pub open spec fn kept_area(w: WindowState, here: Rect) -> Rect {
    match w.dock_wa {
        Some(a) => a,
        None => here,
    }
}

/// The window after the cursor came onto its strip: it slides out, if the cursor
/// is really there.
pub open spec fn revealed(w: WindowState, cursor: Option<Point>, b: Rect) -> WindowState {
    if w.mini && w.dock is Some && w.dock_hidden && geometry::near(
        cursor,
        b,
        DOCK_REVEAL_PAD as int,
    ) {
        WindowState { hide_token: next_token(w.hide_token), dock_hidden: false, ..w }
    } else {
        w
    }
}

/// Slides a docked window out. Whether it did.
pub fn reveal_from_dock(w: &mut WindowState, cursor: Option<Point>, b: Rect) -> (r: bool)
    ensures
        *final(w) == revealed(*old(w), cursor, b),
        r == (old(w).mini && old(w).dock is Some && old(w).dock_hidden && geometry::near(
            cursor,
            b,
            DOCK_REVEAL_PAD as int,
        )),
        old(w).wf() ==> final(w).wf(),
{
    if !w.mini || w.dock.is_none() || !w.dock_hidden {
        return false;
    }
    if !cursor_in_rect_padded(cursor, b, DOCK_REVEAL_PAD) {
        return false;
    }
    bump(w);
    w.dock_hidden = false;
    true
}

/// Whether a window is docked and slid out.
pub open spec fn is_out(w: WindowState) -> bool {
    w.mini && w.dock is Some && !w.dock_hidden
}

/// Whether a window is docked and slid out, so that it can be put away.
pub fn can_hide(w: &WindowState) -> (r: bool)
    ensures
        r == is_out(*w),
{
    w.mini && w.dock.is_some() && !w.dock_hidden
}

/// Schedules a putting away: gives the token that it goes by. One scheduled
/// before is called off.
pub fn schedule_dock_hide(w: &mut WindowState) -> (token: u64)
    ensures
        *final(w) == (WindowState { hide_token: next_token(old(w).hide_token), ..*old(w) }),
        token == final(w).hide_token,
        old(w).wf() ==> final(w).wf(),
{
    bump(w);
    w.hide_token
}

/// What becomes of a putting away when its time has come.
#[derive(Clone, Copy, PartialEq, Eq, Structural, Debug)]
pub enum Hide {
    /// It was called off, or there is nothing to put away.
    Drop,
    /// The cursor is on the window: it is tried again, this many times more.
    Retry(u32),
    /// The window is put away.
    Now,
}

/// What becomes of a putting away with the token `token`.
pub open spec fn hide_of(
    w: WindowState,
    token: u64,
    cursor: Option<Point>,
    b: Rect,
    retries_left: u32,
) -> Hide {
    if w.hide_token != token || !is_out(w) {
        Hide::Drop
    } else if retries_left > 0 && geometry::near(cursor, b, DOCK_HIDE_PAD as int) {
        Hide::Retry((retries_left - 1) as u32)
    } else {
        Hide::Now
    }
}

/// What becomes of a putting away with the token `token`. After the last try the
/// window is put away even where the cursor is on it.
pub fn dock_hide_step(
    w: &WindowState,
    token: u64,
    cursor: Option<Point>,
    b: Rect,
    retries_left: u32,
) -> (r: Hide)
    ensures
        r == hide_of(*w, token, cursor, b, retries_left),
{
    if w.hide_token != token || !can_hide(w) {
        return Hide::Drop;
    }
    if retries_left > 0 && cursor_in_rect_padded(cursor, b, DOCK_HIDE_PAD) {
        return Hide::Retry(retries_left - 1);
    }
    Hide::Now
}

/// The window after a putting away with the token `token`.
pub open spec fn hidden_by(w: WindowState, token: u64) -> WindowState {
    if w.hide_token == token && is_out(w) {
        WindowState { dock_hidden: true, ..w }
    } else {
        w
    }
}

/// Puts the window away, unless that was called off. Whether it did.
pub fn dock_hide(w: &mut WindowState, token: u64) -> (r: bool)
    ensures
        *final(w) == hidden_by(*old(w), token),
        r == (old(w).hide_token == token && is_out(*old(w))),
        old(w).wf() ==> final(w).wf(),
{
    if w.hide_token != token || !can_hide(w) {
        return false;
    }
    w.dock_hidden = true;
    true
}

// ---------------------------------------------------------------------------
// Laws
// ---------------------------------------------------------------------------

/// A putting away that was called off, by scheduling another, by sliding the
/// window out, by a drag or by growing the window, no longer does anything.
pub proof fn law_called_off_means_nothing_happens(
    w: WindowState,
    token: u64,
    b: Rect,
    wa: Rect,
    m: Metrics,
    cursor: Option<Point>,
)
    requires
        token == w.hide_token,
        w.mini,
    ensures
        ({
            let again = WindowState { hide_token: next_token(w.hide_token), ..w };
            hidden_by(again, token) == again
        }),
        hidden_by(dropped(w, b, wa, m), token) == dropped(w, b, wa, m),
        hidden_by(pinned(w, false), token) == pinned(w, false),
        revealed(w, cursor, b) != w ==> hidden_by(revealed(w, cursor, b), token) == revealed(
            w,
            cursor,
            b,
        ),
{
}

/// A putting away is put off only so many times: each time one fewer is left, and
/// with none left it is dropped or done.
pub proof fn law_retries_end(w: WindowState, token: u64, cursor: Option<Point>, b: Rect, left: u32)
    ensures
        hide_of(w, token, cursor, b, left) matches Hide::Retry(n) ==> n < left,
        left == 0 ==> !(hide_of(w, token, cursor, b, left) is Retry),
{
}

/// The mini window is nowhere docked when it begins and when it ends, and
/// pinning twice is pinning once.
pub proof fn law_pinning(w: WindowState, on: bool)
    requires
        w.wf(),
    ensures
        w.mini != on ==> pinned(w, on).dock is None && pinned(w, on).drag is None,
        pinned(pinned(w, on), on) == pinned(w, on),
        pinned(w, on).full == w.full,
{
}

/// A drag stays with its screen as long as the cursor is not well beyond it.
pub proof fn law_drag_sticks_to_its_screen(wa: Rect, cursor: (i32, i32), areas: Seq<Rect>, margin: int)
    requires
        !geometry::beyond(cursor.0 as int, cursor.1 as int, wa, margin),
    ensures
        drag_area(wa, cursor, areas, margin) == wa,
{
}

/// A mini window that is let go near an edge docks there, put away, on that screen; one
/// that is let go elsewhere does not dock. Either calls a putting away off.
pub proof fn law_letting_go_docks(w: WindowState, b: Rect, wa: Rect, m: Metrics)
    requires
        w.mini,
    ensures
        ({
            let d = dropped(w, b, wa, m);
            &&& d.drag is None
            &&& d.mini
            &&& d.hide_token != w.hide_token
            &&& geometry::edge_of(b, wa, m) matches Some(e) ==> d.dock == Some(e) && d.dock_hidden
                && d.dock_wa == Some(wa)
            &&& geometry::edge_of(b, wa, m) is None ==> d.dock is None && !d.dock_hidden && d.dock_wa
                is None
        }),
        dropped(WindowState { mini: false, ..w }, b, wa, m).dock == w.dock,
{
}

/// A docked window comes out where the cursor is on its strip, and only then; coming out
/// keeps its edge.
pub proof fn law_a_docked_window_comes_out(w: WindowState, cursor: Option<Point>, b: Rect)
    requires
        w.mini,
        w.dock is Some,
        w.dock_hidden,
    ensures
        geometry::near(cursor, b, 8) ==> !revealed(w, cursor, b).dock_hidden && revealed(
            w,
            cursor,
            b,
        ).dock == w.dock,
        !geometry::near(cursor, b, 8) ==> revealed(w, cursor, b) == w,
{
}

/// A window that is out is put away once the cursor has left it; while the cursor is on
/// it that is put off, as often as is left.
pub proof fn law_a_window_is_put_away(
    w: WindowState,
    cursor: Option<Point>,
    b: Rect,
    left: u32,
)
    requires
        w.mini,
        w.dock is Some,
        !w.dock_hidden,
    ensures
        !geometry::near(cursor, b, 2) ==> hide_of(w, w.hide_token, cursor, b, left) == Hide::Now,
        geometry::near(cursor, b, 2) && left > 0 ==> hide_of(w, w.hide_token, cursor, b, left)
            == Hide::Retry((left - 1) as u32),
        left == 0 ==> hide_of(w, w.hide_token, cursor, b, left) == Hide::Now,
        hidden_by(w, w.hide_token).dock_hidden,
        hidden_by(w, w.hide_token).dock == w.dock,
{
}

/// The page is told where the window is docked, and whether it is put away.
pub proof fn law_the_page_is_told_of_the_dock(w: WindowState)
    ensures
        dock_json(w).field("hidden"@) == Some(JsonView::Bool(w.dock_hidden)),
        w.dock is None ==> dock_json(w).field("edge"@) == Some(JsonView::Null),
        w.dock == Some(geometry::Edge::Left) ==> dock_json(w).field("edge"@) == Some(
            JsonView::Str("left"@),
        ),
        w.dock == Some(geometry::Edge::Right) ==> dock_json(w).field("edge"@) == Some(
            JsonView::Str("right"@),
        ),
        w.dock == Some(geometry::Edge::Top) ==> dock_json(w).field("edge"@) == Some(
            JsonView::Str("top"@),
        ),
        w.dock == Some(geometry::Edge::Bottom) ==> dock_json(w).field("edge"@) == Some(
            JsonView::Str("bottom"@),
        ),
{
    broadcast use crate::json::group_fields;

    reveal_strlit("hidden");
    reveal_strlit("edge");
    assert("hidden"@.len() == 6);
    assert("edge"@.len() == 4);
}

/// The full window comes back in the size that it had, and never smaller than its
/// least.
pub proof fn law_the_full_window_keeps_its_size(full: Rect, m: Metrics)
    ensures
        full.w >= m.full_min_w && full.h >= m.full_min_h ==> grown_size(Some(full), m) == (
            full.w as int,
            full.h as int,
        ),
        grown_size(Some(full), m).0 >= m.full_min_w && grown_size(Some(full), m).1 >= m.full_min_h,
        m.full_w >= m.full_min_w && m.full_h >= m.full_min_h ==> grown_size(None, m) == (
            m.full_w as int,
            m.full_h as int,
        ),
{
}

/// Where no screen is known the main one counts, else what holds the window.
pub proof fn law_some_screen_is_always_known(
    screens: Seq<Rect>,
    primary: Rect,
    window: Option<Rect>,
)
    ensures
        screens.len() > 0 ==> areas_of(screens, Some(primary), window) == screens,
        screens.len() == 0 ==> areas_of(screens, Some(primary), window) == seq![primary],
        screens.len() == 0 ==> areas_of(screens, None, None) == seq![
            (Rect { x: 0, y: 0, w: 1280, h: 720 }),
        ],
{
}

/// How long it is waited before a window is put away, and how a drag is followed.
pub proof fn law_how_windows_wait()
    ensures
        DOCK_HIDE_DELAY_MS == 350,
        DOCK_HIDE_RETRY_MS == 300,
        DOCK_HIDE_MAX_RETRY == 10,
        DRAG_POLL_MS == 16,
        DRAG_MAX_MS == 120_000,
        FOREGROUND_RETRY_MS == 300,
{
}

} // verus!
