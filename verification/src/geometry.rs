//! Where windows go: the mini window, docking to a screen's edge, dragging. All
//! of it is arithmetic on rectangles in physical pixels; nothing here touches a
//! window.

use vstd::prelude::*;

verus! {

/// The full window's size, in device-independent pixels.
pub const FULL_W_DIP: i32 = 360;

pub const FULL_H_DIP: i32 = 560;

/// The full window's least size.
pub const FULL_MIN_W_DIP: i32 = 300;

pub const FULL_MIN_H_DIP: i32 = 460;

/// The mini window's size.
pub const MINI_W_DIP: i32 = 176;

pub const MINI_H_DIP: i32 = 64;

/// The long side of the strip that a docked window leaves visible.
pub const DOCK_LEN_DIP: i32 = 76;

/// The short sides of a docked window that is put away: the strip and room to
/// grab it.
pub const DOCK_PAD_W_DIP: i32 = 34;

pub const DOCK_PAD_H_DIP: i32 = 40;

/// How far beyond a screen's edge a window still docks.
pub const DOCK_SNAP_DIST_DIP: i32 = 64;

/// How far inside a screen's edge a window docks.
pub const DOCK_SNAP_INSET_DIP: i32 = 8;

/// The full window's first distance from the work area's edges.
pub const INIT_MARGIN_DIP: i32 = 24;

/// How far the cursor goes beyond a screen before a drag changes to another.
pub const DRAG_SWITCH_MARGIN_DIP: i32 = 40;

/// How far around the strip the cursor counts as on it when the strip slides
/// out. In physical pixels at every scale: it makes up for rounding.
pub const DOCK_REVEAL_PAD: i32 = 8;

/// How far around the window the cursor counts as on it when the window is put
/// away, in physical pixels.
pub const DOCK_HIDE_PAD: i32 = 2;

/// The sizes above in physical pixels, at one scale.
#[derive(Clone, Copy, Debug, PartialEq, Eq, Structural)]
pub struct Metrics {
    pub full_w: i32,
    pub full_h: i32,
    pub full_min_w: i32,
    pub full_min_h: i32,
    pub mini_w: i32,
    pub mini_h: i32,
    pub dock_len: i32,
    pub dock_pad_w: i32,
    pub dock_pad_h: i32,
    pub snap_dist: i32,
    pub snap_inset: i32,
    pub init_margin: i32,
    pub drag_switch_margin: i32,
}

/// A size of at least one pixel.
pub open spec fn visible(n: i32) -> i32 {
    if n < 1 {
        1
    } else {
        n
    }
}

fn at_least_one(n: i32) -> (r: i32)
    ensures
        r == visible(n),
{
    if n < 1 {
        1
    } else {
        n
    }
}

impl Metrics {
    /// The sizes at a scale of one.
    pub fn design() -> (r: Metrics)
        ensures
            r == (Metrics {
                full_w: FULL_W_DIP,
                full_h: FULL_H_DIP,
                full_min_w: FULL_MIN_W_DIP,
                full_min_h: FULL_MIN_H_DIP,
                mini_w: MINI_W_DIP,
                mini_h: MINI_H_DIP,
                dock_len: DOCK_LEN_DIP,
                dock_pad_w: DOCK_PAD_W_DIP,
                dock_pad_h: DOCK_PAD_H_DIP,
                snap_dist: DOCK_SNAP_DIST_DIP,
                snap_inset: DOCK_SNAP_INSET_DIP,
                init_margin: INIT_MARGIN_DIP,
                drag_switch_margin: DRAG_SWITCH_MARGIN_DIP,
            }),
    {
        Metrics {
            full_w: FULL_W_DIP,
            full_h: FULL_H_DIP,
            full_min_w: FULL_MIN_W_DIP,
            full_min_h: FULL_MIN_H_DIP,
            mini_w: MINI_W_DIP,
            mini_h: MINI_H_DIP,
            dock_len: DOCK_LEN_DIP,
            dock_pad_w: DOCK_PAD_W_DIP,
            dock_pad_h: DOCK_PAD_H_DIP,
            snap_dist: DOCK_SNAP_DIST_DIP,
            snap_inset: DOCK_SNAP_INSET_DIP,
            init_margin: INIT_MARGIN_DIP,
            drag_switch_margin: DRAG_SWITCH_MARGIN_DIP,
        }
    }

    /// Rounded sizes at some scale, each window size held at one pixel or more.
    pub fn from_pixels(px: Metrics) -> (r: Metrics)
        ensures
            r == (Metrics {
                full_w: visible(px.full_w),
                full_h: visible(px.full_h),
                full_min_w: visible(px.full_min_w),
                full_min_h: visible(px.full_min_h),
                mini_w: visible(px.mini_w),
                mini_h: visible(px.mini_h),
                dock_len: visible(px.dock_len),
                dock_pad_w: visible(px.dock_pad_w),
                dock_pad_h: visible(px.dock_pad_h),
                ..px
            }),
    {
        Metrics {
            full_w: at_least_one(px.full_w),
            full_h: at_least_one(px.full_h),
            full_min_w: at_least_one(px.full_min_w),
            full_min_h: at_least_one(px.full_min_h),
            mini_w: at_least_one(px.mini_w),
            mini_h: at_least_one(px.mini_h),
            dock_len: at_least_one(px.dock_len),
            dock_pad_w: at_least_one(px.dock_pad_w),
            dock_pad_h: at_least_one(px.dock_pad_h),
            ..px
        }
    }
}

/// A rectangle in physical pixels.
#[derive(Clone, Copy, Debug, PartialEq, Eq, Structural)]
pub struct Rect {
    pub x: i32,
    pub y: i32,
    pub w: i32,
    pub h: i32,
}

impl Rect {
    /// The rectangle with this corner and size.
    pub fn new(x: i32, y: i32, w: i32, h: i32) -> (r: Rect)
        ensures
            r == (Rect { x, y, w, h }),
    {
        Rect { x, y, w, h }
    }

    /// The first column to the right of the rectangle.
    pub open spec fn far_x(self) -> int {
        self.x + self.w
    }

    /// The first row below the rectangle.
    pub open spec fn far_y(self) -> int {
        self.y + self.h
    }

    /// Whether a point lies in the rectangle.
    pub open spec fn covers(self, x: int, y: int) -> bool {
        self.x <= x < self.far_x() && self.y <= y < self.far_y()
    }

    /// Whether the rectangle lies within another.
    pub open spec fn within(self, o: Rect) -> bool {
        self.x >= o.x && self.far_x() <= o.far_x() && self.y >= o.y && self.far_y() <= o.far_y()
    }

    /// The first column to the right of the rectangle.
    pub fn right(&self) -> (r: i32)
        requires
            i32::MIN <= self.far_x() <= i32::MAX,
        ensures
            r == self.far_x(),
    {
        self.x + self.w
    }

    /// The first row below the rectangle.
    pub fn bottom(&self) -> (r: i32)
        requires
            i32::MIN <= self.far_y() <= i32::MAX,
        ensures
            r == self.far_y(),
    {
        self.y + self.h
    }

    /// Whether a point lies in the rectangle; the right and the bottom edge are
    /// outside.
    pub fn contains(&self, x: i32, y: i32) -> (r: bool)
        ensures
            r == self.covers(x as int, y as int),
    {
        let (px, py) = (x as i64, y as i64);
        let (left, top) = (self.x as i64, self.y as i64);
        left <= px && px < left + self.w as i64 && top <= py && py < top + self.h as i64
    }
}

/// An edge of a screen.
#[derive(Clone, Copy, Debug, PartialEq, Eq, Structural)]
pub enum Edge {
    Left,
    Right,
    Top,
    Bottom,
}

impl Edge {
    /// The edge's name.
    pub open spec fn name(self) -> Seq<char> {
        match self {
            Edge::Left => "left"@,
            Edge::Right => "right"@,
            Edge::Top => "top"@,
            Edge::Bottom => "bottom"@,
        }
    }

    /// The edge's name.
    pub fn as_str(self) -> (r: &'static str)
        ensures
            r@ == self.name(),
    {
        match self {
            Edge::Left => "left",
            Edge::Right => "right",
            Edge::Top => "top",
            Edge::Bottom => "bottom",
        }
    }
}

/// The number nearest to `v` from `lo` to `hi`; `lo` where that range is empty.
pub open spec fn limited(v: int, lo: int, hi: int) -> int {
    if hi < lo || v < lo {
        lo
    } else if v > hi {
        hi
    } else {
        v
    }
}

/// Whether a number is a coordinate.
pub open spec fn fits(n: int) -> bool {
    i32::MIN <= n <= i32::MAX
}

fn clamp(v: i64, lo: i64, hi: i64) -> (r: i64)
    ensures
        r == limited(v as int, lo as int, hi as int),
{
    if hi < lo || v < lo {
        lo
    } else if v > hi {
        hi
    } else {
        v
    }
}

/// Where a stretch of length `len` that wants to begin at `v` is put within a
/// work area's stretch.
pub open spec fn placed(v: int, len: int, from: int, room: int) -> int {
    limited(v, from, from + room - len)
}

fn place(v: i64, len: i64, from: i64, room: i64) -> (r: i64)
    requires
        -0x8_0000_0000 <= v <= 0x8_0000_0000,
        -0x8_0000_0000 <= len <= 0x8_0000_0000,
        -0x8_0000_0000 <= from <= 0x8_0000_0000,
        -0x8_0000_0000 <= room <= 0x8_0000_0000,
    ensures
        r == placed(v as int, len as int, from as int, room as int),
{
    clamp(v, from, from + room - len)
}

/// Where the full window first goes: to the bottom right, a margin from the work
/// area's edges. It is not held within the work area.
pub fn initial_position(wa: Rect, w: i32, h: i32, m: &Metrics) -> (r: (i32, i32))
    requires
        fits(wa.far_x() - w - m.init_margin),
        fits(wa.far_y() - h - m.init_margin),
    ensures
        r.0 == wa.far_x() - w - m.init_margin,
        r.1 == wa.far_y() - h - m.init_margin,
{
    let x: i64 = wa.x as i64 + wa.w as i64 - w as i64 - m.init_margin as i64;
    let y: i64 = wa.y as i64 + wa.h as i64 - h as i64 - m.init_margin as i64;
    (x as i32, y as i32)
}

/// The mini window that a full window shrinks to: the top right corner stays.
pub fn mini_from_full(full: Rect, m: &Metrics) -> (r: Rect)
    requires
        fits(full.far_x() - m.mini_w),
    ensures
        r.x == full.far_x() - m.mini_w,
        r.y == full.y,
        r.w == m.mini_w,
        r.h == m.mini_h,
{
    let x: i64 = full.x as i64 + full.w as i64 - m.mini_w as i64;
    Rect::new(x as i32, full.y, m.mini_w, m.mini_h)
}

/// The full window that a mini window grows to: the top right corner stays where
/// the work area allows it.
pub fn mini_to_full(cur: Rect, full_w: i32, full_h: i32, wa: Rect) -> (r: Rect)
    requires
        fits(placed(cur.far_x() - full_w, full_w as int, wa.x as int, wa.w as int)),
    ensures
        r.x == placed(cur.far_x() - full_w, full_w as int, wa.x as int, wa.w as int),
        r.y == placed(cur.y as int, full_h as int, wa.y as int, wa.h as int),
        r.w == full_w,
        r.h == full_h,
{
    let x: i64 = place(
        cur.x as i64 + cur.w as i64 - full_w as i64,
        full_w as i64,
        wa.x as i64,
        wa.w as i64,
    );
    let y: i64 = place(cur.y as i64, full_h as i64, wa.y as i64, wa.h as i64);
    Rect::new(x as i32, y as i32, full_w, full_h)
}

/// The size of a docked window, put away or slid out.
pub open spec fn docked_size(edge: Edge, hidden: bool, m: Metrics) -> (int, int) {
    if !hidden {
        (m.mini_w as int, m.mini_h as int)
    } else {
        match edge {
            Edge::Left | Edge::Right => (m.dock_pad_w as int, m.dock_len as int),
            Edge::Top | Edge::Bottom => (m.dock_len as int, m.dock_pad_h as int),
        }
    }
}

/// Where a docked window is: against its edge, and along the edge as near to
/// where it was as the work area allows.
pub open spec fn docked(edge: Edge, b: Rect, wa: Rect, hidden: bool, m: Metrics) -> (
    int,
    int,
    int,
    int,
) {
    let (w, h) = docked_size(edge, hidden, m);
    let x = match edge {
        Edge::Left => wa.x as int,
        Edge::Right => wa.far_x() - w,
        Edge::Top | Edge::Bottom => placed(b.x as int, w, wa.x as int, wa.w as int),
    };
    let y = match edge {
        Edge::Top => wa.y as int,
        Edge::Bottom => wa.far_y() - h,
        Edge::Left | Edge::Right => placed(b.y as int, h, wa.y as int, wa.h as int),
    };
    (x, y, w, h)
}

/// The rectangle as numbers.
pub open spec fn numbers(r: Rect) -> (int, int, int, int) {
    (r.x as int, r.y as int, r.w as int, r.h as int)
}

/// Where a docked window goes. `hidden`: only its strip is visible.
pub fn dock_geometry(edge: Edge, b: Rect, wa: Rect, hidden: bool, m: &Metrics) -> (r: Rect)
    requires
        fits(docked(edge, b, wa, hidden, *m).0),
        fits(docked(edge, b, wa, hidden, *m).1),
    ensures
        numbers(r) == docked(edge, b, wa, hidden, *m),
{
    let (w, h): (i32, i32) = if !hidden {
        (m.mini_w, m.mini_h)
    } else {
        match edge {
            Edge::Left | Edge::Right => (m.dock_pad_w, m.dock_len),
            Edge::Top | Edge::Bottom => (m.dock_len, m.dock_pad_h),
        }
    };
    let x: i64 = match edge {
        Edge::Left => wa.x as i64,
        Edge::Right => wa.x as i64 + wa.w as i64 - w as i64,
        Edge::Top | Edge::Bottom => place(b.x as i64, w as i64, wa.x as i64, wa.w as i64),
    };
    let y: i64 = match edge {
        Edge::Top => wa.y as i64,
        Edge::Bottom => wa.y as i64 + wa.h as i64 - h as i64,
        Edge::Left | Edge::Right => place(b.y as i64, h as i64, wa.y as i64, wa.h as i64),
    };
    Rect::new(x as i32, y as i32, w, h)
}

/// Whether an edge of a window that is `d` beyond the screen's edge docks there.
pub open spec fn snaps(d: int, m: Metrics) -> bool {
    -m.snap_inset <= d <= m.snap_dist
}

/// The edge that a window docks to: the first of left, right, top and bottom
/// that it is near enough to.
pub open spec fn edge_of(b: Rect, wa: Rect, m: Metrics) -> Option<Edge> {
    if snaps(wa.x - b.x, m) {
        Some(Edge::Left)
    } else if snaps(b.far_x() - wa.far_x(), m) {
        Some(Edge::Right)
    } else if snaps(wa.y - b.y, m) {
        Some(Edge::Top)
    } else if snaps(b.far_y() - wa.far_y(), m) {
        Some(Edge::Bottom)
    } else {
        None
    }
}

fn in_range(d: i64, m: &Metrics) -> (r: bool)
    ensures
        r == snaps(d as int, *m),
{
    d >= -(m.snap_inset as i64) && d <= m.snap_dist as i64
}

/// The edge that a window docks to when it is let go.
pub fn detect_edge(b: Rect, wa: Rect, m: &Metrics) -> (r: Option<Edge>)
    ensures
        r == edge_of(b, wa, *m),
{
    let right: i64 = b.x as i64 + b.w as i64 - (wa.x as i64 + wa.w as i64);
    let bottom: i64 = b.y as i64 + b.h as i64 - (wa.y as i64 + wa.h as i64);
    if in_range(wa.x as i64 - b.x as i64, m) {
        Some(Edge::Left)
    } else if in_range(right, m) {
        Some(Edge::Right)
    } else if in_range(wa.y as i64 - b.y as i64, m) {
        Some(Edge::Top)
    } else if in_range(bottom, m) {
        Some(Edge::Bottom)
    } else {
        None
    }
}

/// The mini window that a strip becomes when it is undocked.
pub fn mini_resize_into(b: Rect, wa: Rect, m: &Metrics) -> (r: Rect)
    ensures
        r.x == placed(b.x as int, m.mini_w as int, wa.x as int, wa.w as int),
        r.y == placed(b.y as int, m.mini_h as int, wa.y as int, wa.h as int),
        r.w == m.mini_w,
        r.h == m.mini_h,
{
    let x: i64 = place(b.x as i64, m.mini_w as i64, wa.x as i64, wa.w as i64);
    let y: i64 = place(b.y as i64, m.mini_h as i64, wa.y as i64, wa.h as i64);
    Rect::new(x as i32, y as i32, m.mini_w, m.mini_h)
}

/// Where a dragged window is put: it keeps its distance to the cursor, within
/// the work area.
pub fn drag_position(cursor: (i32, i32), offset: (i32, i32), size: (i32, i32), wa: Rect) -> (r: (
    i32,
    i32,
))
    requires
        fits(placed(cursor.0 - offset.0, size.0 as int, wa.x as int, wa.w as int)),
        fits(placed(cursor.1 - offset.1, size.1 as int, wa.y as int, wa.h as int)),
    ensures
        r.0 == placed(cursor.0 - offset.0, size.0 as int, wa.x as int, wa.w as int),
        r.1 == placed(cursor.1 - offset.1, size.1 as int, wa.y as int, wa.h as int),
{
    let x: i64 = place(
        cursor.0 as i64 - offset.0 as i64,
        size.0 as i64,
        wa.x as i64,
        wa.w as i64,
    );
    let y: i64 = place(
        cursor.1 as i64 - offset.1 as i64,
        size.1 as i64,
        wa.y as i64,
        wa.h as i64,
    );
    (x as i32, y as i32)
}

/// A point between pixels: each coordinate by the whole numbers below and above
/// it, which are the same for a whole number.
#[derive(Clone, Copy, Debug)]
pub struct Point {
    pub floor_x: i64,
    pub ceil_x: i64,
    pub floor_y: i64,
    pub ceil_y: i64,
}

/// Whether a point lies in the rectangle with `pad` pixels around it, edges
/// included. A point that is not known counts as inside.
pub open spec fn near(cursor: Option<Point>, b: Rect, pad: int) -> bool {
    match cursor {
        None => true,
        Some(p) => p.floor_x >= b.x - pad && p.ceil_x <= b.far_x() + pad && p.floor_y >= b.y - pad
            && p.ceil_y <= b.far_y() + pad,
    }
}

/// Whether the cursor is on the window or within `pad` pixels of it.
pub fn cursor_in_rect_padded(cursor: Option<Point>, b: Rect, pad: i32) -> (r: bool)
    ensures
        r == near(cursor, b, pad as int),
{
    match cursor {
        None => true,
        Some(p) => {
            let (x, y, d) = (b.x as i64, b.y as i64, pad as i64);
            p.floor_x >= x - d && p.ceil_x <= x + b.w as i64 + d && p.floor_y >= y - d && p.ceil_y
                <= y + b.h as i64 + d
        },
    }
}

/// Whether a point is more than `margin` outside the work area.
pub open spec fn beyond(x: int, y: int, wa: Rect, margin: int) -> bool {
    x < wa.x - margin || x > wa.far_x() + margin || y < wa.y - margin || y > wa.far_y() + margin
}

/// Whether the cursor has left a work area for good.
pub fn beyond_work_area(cursor: (i32, i32), wa: Rect, margin: i32) -> (r: bool)
    ensures
        r == beyond(cursor.0 as int, cursor.1 as int, wa, margin as int),
{
    let (cx, cy) = (cursor.0 as i64, cursor.1 as i64);
    let (x, y, d) = (wa.x as i64, wa.y as i64, margin as i64);
    cx < x - d || cx > x + wa.w as i64 + d || cy < y - d || cy > y + wa.h as i64 + d
}

/// The smaller number.
pub open spec fn lesser(a: int, b: int) -> int {
    if a < b {
        a
    } else {
        b
    }
}

/// The greater number.
pub open spec fn greater(a: int, b: int) -> int {
    if a > b {
        a
    } else {
        b
    }
}

/// How long two stretches overlap.
pub open spec fn overlap(a: int, a_end: int, b: int, b_end: int) -> int {
    greater(lesser(a_end, b_end) - greater(a, b), 0)
}

/// The area that two rectangles share.
pub open spec fn shared_area(a: Rect, b: Rect) -> int {
    overlap(a.x as int, a.far_x(), b.x as int, b.far_x()) * overlap(
        a.y as int,
        a.far_y(),
        b.y as int,
        b.far_y(),
    )
}

fn overlap_of(a: i32, a_len: i32, b: i32, b_len: i32) -> (r: i64)
    ensures
        r == overlap(a as int, a + a_len, b as int, b + b_len),
        0 <= r <= 0x2_0000_0000,
{
    let (ae, be): (i64, i64) = (a as i64 + a_len as i64, b as i64 + b_len as i64);
    let end: i64 = if ae < be {
        ae
    } else {
        be
    };
    let start: i64 = if a > b {
        a as i64
    } else {
        b as i64
    };
    if end - start > 0 {
        end - start
    } else {
        0
    }
}

fn intersection_area(a: Rect, b: Rect) -> (r: i128)
    ensures
        r == shared_area(a, b),
        r >= 0,
{
    let w: i64 = overlap_of(a.x, a.w, b.x, b.w);
    let h: i64 = overlap_of(a.y, a.h, b.y, b.h);
    assert(0 <= w * h <= 0x2_0000_0000 * 0x2_0000_0000) by (nonlinear_arith)
        requires
            0 <= w <= 0x2_0000_0000,
            0 <= h <= 0x2_0000_0000,
    ;
    (w as i128) * (h as i128)
}

/// The place of the first work area that shares the most with a rectangle, among
/// the first `n`; none where none shares anything.
pub open spec fn best_of(rect: Rect, areas: Seq<Rect>, n: int) -> Option<int>
    decreases n,
{
    if n <= 0 {
        None
    } else {
        let area = shared_area(rect, areas[n - 1]);
        match best_of(rect, areas, n - 1) {
            Some(k) => if area > shared_area(rect, areas[k]) {
                Some(n - 1)
            } else {
                Some(k)
            },
            None => if area > 0 {
                Some(n - 1)
            } else {
                None
            },
        }
    }
}

/// The place of the first work area that covers a point, or their number.
pub open spec fn first_covering(areas: Seq<Rect>, x: int, y: int) -> int
    decreases areas.len(),
{
    if areas.len() == 0 || areas[0].covers(x, y) {
        0
    } else {
        1 + first_covering(areas.drop_first(), x, y)
    }
}

/// Half of a number, towards zero.
pub open spec fn half(n: int) -> int {
    if n >= 0 {
        n / 2
    } else {
        -((-n) / 2)
    }
}

/// The work area of a rectangle: the one that shares the most with it, else the
/// first that covers its middle, else the first.
pub open spec fn area_of(rect: Rect, areas: Seq<Rect>) -> Option<Rect> {
    if areas.len() == 0 {
        None
    } else {
        match best_of(rect, areas, areas.len() as int) {
            Some(k) => Some(areas[k]),
            None => {
                let k = first_covering(
                    areas,
                    rect.x + half(rect.w as int),
                    rect.y + half(rect.h as int),
                );
                if k < areas.len() {
                    Some(areas[k])
                } else {
                    Some(areas[0])
                }
            },
        }
    }
}

fn find_covering(areas: &[Rect], x: i64, y: i64) -> (r: usize)
    ensures
        r == first_covering(areas@, x as int, y as int),
        r <= areas@.len(),
        r < areas@.len() ==> areas@[r as int].covers(x as int, y as int),
{
    let mut i: usize = 0;
    assert(areas@.skip(0) =~= areas@);
    while i < areas.len()
        invariant
            i <= areas@.len(),
            first_covering(areas@, x as int, y as int) == i + first_covering(
                areas@.skip(i as int),
                x as int,
                y as int,
            ),
        decreases areas.len() - i,
    {
        assert(areas@.skip(i as int).drop_first() =~= areas@.skip(i as int + 1));
        assert(areas@.skip(i as int)[0] == areas@[i as int]);
        let a = areas[i];
        let (left, top) = (a.x as i64, a.y as i64);
        if left <= x && x < left + a.w as i64 && top <= y && y < top + a.h as i64 {
            return i;
        }
        i += 1;
    }
    i
}

fn half_of(n: i32) -> (r: i64)
    ensures
        r == half(n as int),
        -0x8000_0000 <= r <= 0x8000_0000,
{
    if n >= 0 {
        n as i64 / 2
    } else {
        -((-(n as i64)) / 2)
    }
}

/// The work area that a window belongs to. None only where there is no work area.
pub fn pick_work_area(rect: Rect, work_areas: &[Rect]) -> (r: Option<Rect>)
    ensures
        r == area_of(rect, work_areas@),
        r is Some == (work_areas@.len() > 0),
{
    if work_areas.len() == 0 {
        return None;
    }
    let mut best: Option<(i128, usize)> = None;
    let mut i: usize = 0;
    while i < work_areas.len()
        invariant
            i <= work_areas@.len(),
            match best {
                Some(b) => b.1 < i && best_of(rect, work_areas@, i as int) == Some(b.1 as int)
                    && b.0 == shared_area(rect, work_areas@[b.1 as int]),
                None => best_of(rect, work_areas@, i as int) is None,
            },
        decreases work_areas.len() - i,
    {
        let area: i128 = intersection_area(rect, work_areas[i]);
        let better = match best {
            Some(b) => area > b.0,
            None => area > 0,
        };
        if better {
            best = Some((area, i));
        }
        i += 1;
    }
    if let Some(b) = best {
        return Some(work_areas[b.1]);
    }
    let k: usize = find_covering(
        work_areas,
        rect.x as i64 + half_of(rect.w),
        rect.y as i64 + half_of(rect.h),
    );
    if k < work_areas.len() {
        Some(work_areas[k])
    } else {
        Some(work_areas[0])
    }
}

/// The work area at a point: the first that covers it, else that of the pixel
/// there.
pub open spec fn area_at(x: i32, y: i32, areas: Seq<Rect>) -> Option<Rect> {
    let k = first_covering(areas, x as int, y as int);
    if k < areas.len() {
        Some(areas[k])
    } else {
        area_of(Rect { x, y, w: 1, h: 1 }, areas)
    }
}

/// The work area at a point. None only where there is no work area.
pub fn work_area_at_point(x: i32, y: i32, work_areas: &[Rect]) -> (r: Option<Rect>)
    ensures
        r == area_at(x, y, work_areas@),
        r is Some == (work_areas@.len() > 0),
{
    let k: usize = find_covering(work_areas, x as i64, y as i64);
    if k < work_areas.len() {
        Some(work_areas[k])
    } else {
        pick_work_area(Rect::new(x, y, 1, 1), work_areas)
    }
}

// ---------------------------------------------------------------------------
// Laws
// ---------------------------------------------------------------------------

/// A stretch that fits into the work area is put within it, and where it wants
/// to be if that is within it.
pub proof fn law_placed_within(v: int, len: int, from: int, room: int)
    requires
        len <= room,
    ensures
        from <= placed(v, len, from, room),
        placed(v, len, from, room) + len <= from + room,
        from <= v && v + len <= from + room ==> placed(v, len, from, room) == v,
{
}

/// A stretch that is longer than the work area begins where the work area does.
pub proof fn law_too_long_begins_at_the_edge(v: int, len: int, from: int, room: int)
    requires
        len > room,
    ensures
        placed(v, len, from, room) == from,
{
}

/// A docked window lies in the work area wherever its size allows it, touches
/// its edge, and stays where it is when it is docked again.
pub proof fn law_docked_lies_at_its_edge(edge: Edge, b: Rect, wa: Rect, hidden: bool, m: Metrics, r: Rect)
    requires
        docked_size(edge, hidden, m).0 <= wa.w,
        docked_size(edge, hidden, m).1 <= wa.h,
        numbers(r) == docked(edge, b, wa, hidden, m),
    ensures
        r.within(wa),
        match edge {
            Edge::Left => r.x == wa.x,
            Edge::Right => r.far_x() == wa.far_x(),
            Edge::Top => r.y == wa.y,
            Edge::Bottom => r.far_y() == wa.far_y(),
        },
        docked(edge, r, wa, hidden, m) == numbers(r),
{
}

/// A window that docks is found at an edge again after it was put there, slid
/// out or put away.
pub proof fn law_docked_window_docks_again(edge: Edge, b: Rect, wa: Rect, hidden: bool, m: Metrics, r: Rect)
    requires
        m.snap_inset >= 0,
        m.snap_dist >= 0,
        numbers(r) == docked(edge, b, wa, hidden, m),
    ensures
        edge_of(r, wa, m) is Some,
{
}

/// Growing and shrinking keep the top right corner, where the work area allows
/// it.
pub proof fn law_top_right_corner_stays(full: Rect, wa: Rect, m: Metrics)
    requires
        full.within(wa),
    ensures
        ({
            let mini_right = full.far_x() - m.mini_w + m.mini_w;
            &&& placed(mini_right - full.w, full.w as int, wa.x as int, wa.w as int) == full.x
            &&& placed(full.y as int, full.h as int, wa.y as int, wa.h as int) == full.y
        }),
{
}

proof fn lemma_best(rect: Rect, areas: Seq<Rect>, n: int)
    requires
        0 <= n <= areas.len(),
    ensures
        match best_of(rect, areas, n) {
            Some(k) => 0 <= k < n && shared_area(rect, areas[k]) > 0 && forall|j: int|
                0 <= j < n ==> shared_area(rect, #[trigger] areas[j]) <= shared_area(
                    rect,
                    areas[k],
                ),
            None => forall|j: int| 0 <= j < n ==> shared_area(rect, #[trigger] areas[j]) <= 0,
        },
    decreases n,
{
    if n > 0 {
        lemma_best(rect, areas, n - 1);
    }
}

/// The work area of a window is one of those there are, and no other shares more
/// with the window.
pub proof fn law_largest_share_wins(rect: Rect, areas: Seq<Rect>, j: int)
    requires
        0 <= j < areas.len(),
    ensures
        area_of(rect, areas) is Some,
        areas.contains(area_of(rect, areas)->0),
        shared_area(rect, areas[j]) > 0 ==> shared_area(rect, areas[j]) <= shared_area(
            rect,
            area_of(rect, areas)->0,
        ),
{
    lemma_best(rect, areas, areas.len() as int);
    match best_of(rect, areas, areas.len() as int) {
        Some(k) => {
            assert(areas[k] == area_of(rect, areas)->0);
        },
        None => {
            let k = first_covering(
                areas,
                rect.x + half(rect.w as int),
                rect.y + half(rect.h as int),
            );
            lemma_first_covering(areas, rect.x + half(rect.w as int), rect.y + half(rect.h as int));
            if k < areas.len() {
                assert(areas[k] == area_of(rect, areas)->0);
            } else {
                assert(areas[0] == area_of(rect, areas)->0);
            }
        },
    }
}

proof fn lemma_first_covering(areas: Seq<Rect>, x: int, y: int)
    ensures
        0 <= first_covering(areas, x, y) <= areas.len(),
    decreases areas.len(),
{
    if areas.len() > 0 && !areas[0].covers(x, y) {
        lemma_first_covering(areas.drop_first(), x, y);
    }
}

/// A window docks at the edge that it was let go near: up to the one distance beyond it,
/// and up to the other within. Away from all edges it docks nowhere.
pub proof fn law_windows_dock_where_they_are_let_go(b: Rect, wa: Rect, m: Metrics)
    requires
        m.snap_inset >= 0,
        m.snap_dist >= 0,
    ensures
        wa.x - m.snap_dist <= b.x <= wa.x + m.snap_inset ==> edge_of(b, wa, m) == Some(Edge::Left),
        b.x > wa.x + m.snap_inset && wa.far_x() - m.snap_inset <= b.far_x() <= wa.far_x()
            + m.snap_dist ==> edge_of(b, wa, m) == Some(Edge::Right),
        b.x > wa.x + m.snap_inset && b.far_x() < wa.far_x() - m.snap_inset && wa.y - m.snap_dist
            <= b.y <= wa.y + m.snap_inset ==> edge_of(b, wa, m) == Some(Edge::Top),
        b.x > wa.x + m.snap_inset && b.far_x() < wa.far_x() - m.snap_inset && b.y > wa.y
            + m.snap_inset && wa.far_y() - m.snap_inset <= b.far_y() <= wa.far_y() + m.snap_dist
            ==> edge_of(b, wa, m) == Some(Edge::Bottom),
        b.x > wa.x + m.snap_inset && b.far_x() < wa.far_x() - m.snap_inset && b.y > wa.y
            + m.snap_inset && b.far_y() < wa.far_y() - m.snap_inset ==> edge_of(b, wa, m) is None,
{
}

/// A docked window that is put away is a strip along its edge; out again it has its own
/// size.
pub proof fn law_what_is_left_of_a_docked_window(m: Metrics)
    ensures
        docked_size(Edge::Left, true, m) == (m.dock_pad_w as int, m.dock_len as int),
        docked_size(Edge::Right, true, m) == (m.dock_pad_w as int, m.dock_len as int),
        docked_size(Edge::Top, true, m) == (m.dock_len as int, m.dock_pad_h as int),
        docked_size(Edge::Bottom, true, m) == (m.dock_len as int, m.dock_pad_h as int),
        forall|e: Edge| #[trigger] docked_size(e, false, m) == (m.mini_w as int, m.mini_h as int),
{
}

/// The cursor is near a window where it is on it, or no further off than the room around
/// it; where it is not known it counts as near.
pub proof fn law_when_the_cursor_is_near(p: Point, b: Rect, pad: int)
    requires
        p.floor_x == p.ceil_x,
        p.floor_y == p.ceil_y,
        pad >= 0,
    ensures
        near(None, b, pad),
        near(Some(p), b, pad) <==> b.x - pad <= p.floor_x <= b.far_x() + pad && b.y - pad
            <= p.floor_y <= b.far_y() + pad,
        b.covers(p.floor_x as int, p.floor_y as int) ==> near(Some(p), b, pad),
{
}

/// A drag leaves a screen once the cursor is further from it than the margin.
pub proof fn law_when_a_drag_leaves_a_screen(x: int, y: int, wa: Rect, margin: int)
    requires
        margin >= 0,
    ensures
        wa.covers(x, y) ==> !beyond(x, y, wa, margin),
        x < wa.x - margin ==> beyond(x, y, wa, margin),
        y < wa.y - margin ==> beyond(x, y, wa, margin),
        x > wa.far_x() + margin ==> beyond(x, y, wa, margin),
        y > wa.far_y() + margin ==> beyond(x, y, wa, margin),
{
}

/// Rectangles share what lies in both: nothing where they lie apart, and all of the
/// inner where one lies in the other.
pub proof fn law_what_rectangles_share(a: Rect, b: Rect)
    requires
        a.w >= 0,
        a.h >= 0,
        b.w >= 0,
        b.h >= 0,
    ensures
        a.within(b) ==> shared_area(a, b) == a.w * a.h,
        a.far_x() <= b.x || b.far_x() <= a.x ==> shared_area(a, b) == 0,
        a.far_y() <= b.y || b.far_y() <= a.y ==> shared_area(a, b) == 0,
        shared_area(a, b) == shared_area(b, a),
{
    let w = overlap(a.x as int, a.far_x(), b.x as int, b.far_x());
    let h = overlap(a.y as int, a.far_y(), b.y as int, b.far_y());
    assert(w == 0 ==> w * h == 0) by (nonlinear_arith);
    assert(h == 0 ==> w * h == 0) by (nonlinear_arith);
}

/// The sizes of the windows and of what is around them, at a scale of one.
pub proof fn law_the_sizes_of_windows()
    ensures
        FULL_W_DIP == 360 && FULL_H_DIP == 560,
        FULL_MIN_W_DIP == 300 && FULL_MIN_H_DIP == 460,
        MINI_W_DIP == 176 && MINI_H_DIP == 64,
        DOCK_LEN_DIP == 76 && DOCK_PAD_W_DIP == 34 && DOCK_PAD_H_DIP == 40,
        DOCK_SNAP_DIST_DIP == 64 && DOCK_SNAP_INSET_DIP == 8,
        INIT_MARGIN_DIP == 24 && DRAG_SWITCH_MARGIN_DIP == 40,
        DOCK_REVEAL_PAD == 8 && DOCK_HIDE_PAD == 2,
{
}

} // verus!
