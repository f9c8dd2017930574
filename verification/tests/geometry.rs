//! Where windows go, and what the main window does.

use pomodoro::geometry::{
    beyond_work_area, cursor_in_rect_padded, detect_edge, dock_geometry, drag_position,
    initial_position, mini_from_full, mini_resize_into, mini_to_full, pick_work_area,
    work_area_at_point, Edge, Metrics, Point, Rect, DOCK_HIDE_PAD, DOCK_LEN_DIP, DOCK_PAD_H_DIP,
    DOCK_PAD_W_DIP, DOCK_REVEAL_PAD, DOCK_SNAP_DIST_DIP, DOCK_SNAP_INSET_DIP, FULL_H_DIP,
    FULL_W_DIP, INIT_MARGIN_DIP, MINI_H_DIP, MINI_W_DIP,
};
use pomodoro::json::print_compact;
use pomodoro::state::WindowState;
use pomodoro::window::{
    can_hide, dock_hide, dock_hide_step, dock_state, dock_target, drag_over, drag_step,
    drag_target, end_drag, grow, is_down_from_async_state, move_drag, reveal_from_dock,
    schedule_dock_hide, set_pin_mini, shrink, start_drag, stop_drag, toggle_main, work_areas, Hide,
    Toggle,
};

fn m100() -> Metrics {
    Metrics::design()
}

fn scaled(s: f64) -> Metrics {
    let px = |dip: i32| ((dip as f64) * s).round() as i32;
    let d = Metrics::design();
    Metrics::from_pixels(Metrics {
        full_w: px(d.full_w),
        full_h: px(d.full_h),
        full_min_w: px(d.full_min_w),
        full_min_h: px(d.full_min_h),
        mini_w: px(d.mini_w),
        mini_h: px(d.mini_h),
        dock_len: px(d.dock_len),
        dock_pad_w: px(d.dock_pad_w),
        dock_pad_h: px(d.dock_pad_h),
        snap_dist: px(d.snap_dist),
        snap_inset: px(d.snap_inset),
        init_margin: px(d.init_margin),
        drag_switch_margin: px(d.drag_switch_margin),
    })
}

fn wa_primary() -> Rect {
    Rect::new(0, 0, 1920, 1040)
}

fn wa_secondary() -> Rect {
    Rect::new(1920, 0, 1920, 1040)
}

fn at(x: f64, y: f64) -> Option<Point> {
    if !x.is_finite() || !y.is_finite() {
        return None;
    }
    Some(Point {
        floor_x: x.floor() as i64,
        ceil_x: x.ceil() as i64,
        floor_y: y.floor() as i64,
        ceil_y: y.ceil() as i64,
    })
}

#[test]
fn metrics_at_100_percent_equals_design_values() {
    let m = scaled(1.0);
    assert_eq!(m, m100());
    assert_eq!(m.mini_w, MINI_W_DIP);
    assert_eq!(m.mini_h, MINI_H_DIP);
    assert_eq!(m.full_w, FULL_W_DIP);
    assert_eq!(m.full_h, FULL_H_DIP);
    assert_eq!(m.dock_len, DOCK_LEN_DIP);
    assert_eq!(m.dock_pad_w, DOCK_PAD_W_DIP);
    assert_eq!(m.dock_pad_h, DOCK_PAD_H_DIP);
    assert_eq!(m.snap_dist, DOCK_SNAP_DIST_DIP);
    assert_eq!(m.snap_inset, DOCK_SNAP_INSET_DIP);
    assert_eq!(m.init_margin, INIT_MARGIN_DIP);
}

#[test]
fn metrics_scale_up_at_125_percent() {
    let m = scaled(1.25);
    assert_eq!(m.mini_w, 220);
    assert_eq!(m.mini_h, 80);
    assert_eq!(m.full_w, 450);
    assert_eq!(m.dock_len, 95);
    assert_eq!(m.snap_inset, 10);
}

#[test]
fn windows_never_shrink_to_nothing() {
    let tiny = scaled(0.001);
    assert!(tiny.mini_w >= 1 && tiny.mini_h >= 1);
    assert_eq!(tiny.snap_inset, 0);
}

#[test]
fn initial_position_sits_in_bottom_right() {
    let (x, y) = initial_position(wa_primary(), FULL_W_DIP, FULL_H_DIP, &m100());
    assert_eq!(x, 1920 - FULL_W_DIP - 24);
    assert_eq!(y, 1040 - FULL_H_DIP - 24);
}

#[test]
fn mini_anchors_to_top_right_of_full_window() {
    let full = Rect::new(1536, 456, FULL_W_DIP, FULL_H_DIP);
    let mini = mini_from_full(full, &m100());
    assert_eq!(mini, Rect::new(1720, 456, MINI_W_DIP, MINI_H_DIP));
    assert_eq!(mini.right(), full.right());
    assert_eq!(mini.y, full.y);
}

#[test]
fn mini_to_full_keeps_top_right_anchor_when_room_allows() {
    let mini = Rect::new(1700, 456, MINI_W_DIP, MINI_H_DIP);
    let full = mini_to_full(mini, FULL_W_DIP, FULL_H_DIP, wa_primary());
    assert_eq!(full.right(), mini.right());
    assert_eq!(full.y, mini.y);
    assert_eq!(full.w, FULL_W_DIP);
    assert_eq!(full.h, FULL_H_DIP);
}

#[test]
fn mini_to_full_clamps_into_work_area() {
    let mini = Rect::new(1744, 976, MINI_W_DIP, MINI_H_DIP);
    let full = mini_to_full(mini, FULL_W_DIP, FULL_H_DIP, wa_primary());
    assert!(full.right() <= wa_primary().right());
    assert!(full.bottom() <= wa_primary().bottom());
    assert_eq!(full.x, wa_primary().right() - FULL_W_DIP);
}

#[test]
fn mini_to_full_survives_window_larger_than_work_area() {
    let tiny = Rect::new(0, 0, 200, 200);
    let full =
        mini_to_full(Rect::new(50, 50, MINI_W_DIP, MINI_H_DIP), FULL_W_DIP, FULL_H_DIP, tiny);
    assert_eq!((full.x, full.y), (0, 0));
}

#[test]
fn dock_left_hidden_is_thin_tab_flush_to_edge() {
    let b = Rect::new(4, 300, MINI_W_DIP, MINI_H_DIP);
    let g = dock_geometry(Edge::Left, b, wa_primary(), true, &m100());
    assert_eq!(g, Rect::new(0, 300, DOCK_PAD_W_DIP, DOCK_LEN_DIP));
}

#[test]
fn dock_left_shown_is_full_mini_flush_to_edge() {
    let b = Rect::new(0, 300, DOCK_PAD_W_DIP, DOCK_LEN_DIP);
    let g = dock_geometry(Edge::Left, b, wa_primary(), false, &m100());
    assert_eq!(g, Rect::new(0, 300, MINI_W_DIP, MINI_H_DIP));
}

#[test]
fn dock_right_bottom_are_flush_to_far_edges() {
    let b = Rect::new(1500, 900, MINI_W_DIP, MINI_H_DIP);
    let hidden = dock_geometry(Edge::Right, b, wa_primary(), true, &m100());
    assert_eq!(hidden.x, 1920 - DOCK_PAD_W_DIP);
    let bottom = dock_geometry(Edge::Bottom, b, wa_primary(), true, &m100());
    assert_eq!(bottom.y, 1040 - DOCK_PAD_H_DIP);
    let bottom_shown = dock_geometry(Edge::Bottom, b, wa_primary(), false, &m100());
    assert_eq!(bottom_shown.y, 1040 - MINI_H_DIP);
}

#[test]
fn dock_geometry_clamps_along_edge_direction() {
    let b = Rect::new(500, 1030, MINI_W_DIP, MINI_H_DIP);
    let g = dock_geometry(Edge::Left, b, wa_primary(), true, &m100());
    assert_eq!(g.y, 1040 - DOCK_LEN_DIP);
    let g2 = dock_geometry(Edge::Left, b, wa_primary(), false, &m100());
    assert_eq!(g2.y, 1040 - MINI_H_DIP);
}

#[test]
fn detect_edge_snaps_when_flush_or_within_the_inset() {
    let e = |x: i32| detect_edge(Rect::new(x, 300, MINI_W_DIP, MINI_H_DIP), wa_primary(), &m100());
    assert_eq!(e(0), Some(Edge::Left));
    assert_eq!(e(8), Some(Edge::Left));
    assert_eq!(e(9), None);
}

#[test]
fn detect_edge_tolerates_at_most_64px_of_overshoot() {
    let e = |x: i32| detect_edge(Rect::new(x, 300, MINI_W_DIP, MINI_H_DIP), wa_primary(), &m100());
    assert_eq!(e(-64), Some(Edge::Left));
    assert_eq!(e(-65), None);
}

#[test]
fn detect_edge_right_side_uses_the_same_band() {
    let e = |x: i32| detect_edge(Rect::new(x, 300, MINI_W_DIP, MINI_H_DIP), wa_primary(), &m100());
    assert_eq!(e(1920 - MINI_W_DIP), Some(Edge::Right));
    assert_eq!(e(1920 - MINI_W_DIP - 20), None);
}

#[test]
fn detect_edge_left_beats_right_when_window_fills_work_area() {
    let b = Rect::new(0, 0, 1920, 1040);
    assert_eq!(detect_edge(b, wa_primary(), &m100()), Some(Edge::Left));
}

#[test]
fn detect_edge_none_in_the_middle_of_screen() {
    assert_eq!(
        detect_edge(Rect::new(800, 500, MINI_W_DIP, MINI_H_DIP), wa_primary(), &m100()),
        None
    );
}

#[test]
fn mini_resize_into_pulls_tab_back_into_work_area() {
    let tab = Rect::new(0, 300, DOCK_PAD_W_DIP, DOCK_LEN_DIP);
    let g = mini_resize_into(tab, wa_primary(), &m100());
    assert_eq!(g, Rect::new(0, 300, MINI_W_DIP, MINI_H_DIP));
    assert!(g.right() <= wa_primary().right());
}

#[test]
fn drag_position_clamps_to_base_screen() {
    let wa = wa_primary();
    let (x, y) = drag_position((5000, 5000), (10, 10), (MINI_W_DIP, MINI_H_DIP), wa);
    assert_eq!((x, y), (1920 - MINI_W_DIP, 1040 - MINI_H_DIP));
    let (x, y) = drag_position((-100, -100), (10, 10), (MINI_W_DIP, MINI_H_DIP), wa);
    assert_eq!((x, y), (0, 0));
}

#[test]
fn drag_position_keeps_grab_offset() {
    let (x, y) = drag_position((400, 300), (30, 20), (MINI_W_DIP, MINI_H_DIP), wa_primary());
    assert_eq!((x, y), (370, 280));
}

#[test]
fn beyond_work_area_needs_real_travel() {
    let wa = wa_primary();
    let m = m100();
    assert!(!beyond_work_area((1925, 500), wa, m.drag_switch_margin));
    assert!(!beyond_work_area((1960, 500), wa, m.drag_switch_margin));
    assert!(beyond_work_area((1961, 500), wa, m.drag_switch_margin));
    assert!(!beyond_work_area((0, -40), wa, m.drag_switch_margin));
    assert!(beyond_work_area((0, -41), wa, m.drag_switch_margin));
}

#[test]
fn cursor_near_window_tolerates_dpi_rounding() {
    let b = Rect::new(100, 200, MINI_W_DIP, MINI_H_DIP);
    assert!(cursor_in_rect_padded(at(100.0, 200.0), b, DOCK_REVEAL_PAD));
    assert!(cursor_in_rect_padded(at(92.0, 200.0), b, DOCK_REVEAL_PAD));
    assert!(!cursor_in_rect_padded(at(91.0, 200.0), b, DOCK_REVEAL_PAD));
    assert!(cursor_in_rect_padded(at(284.0, 272.0), b, DOCK_REVEAL_PAD));
    assert!(!cursor_in_rect_padded(at(285.0, 272.0), b, DOCK_REVEAL_PAD));
    assert!(!cursor_in_rect_padded(at(91.9, 200.0), b, DOCK_REVEAL_PAD));
    assert!(!cursor_in_rect_padded(at(284.1, 272.0), b, DOCK_REVEAL_PAD));
}

#[test]
fn cursor_near_window_treats_unknown_position_as_inside() {
    let b = Rect::new(0, 0, 100, 100);
    assert!(cursor_in_rect_padded(at(f64::NAN, f64::NAN), b, DOCK_HIDE_PAD));
    assert!(cursor_in_rect_padded(at(f64::INFINITY, 0.0), b, DOCK_HIDE_PAD));
}

#[test]
fn pick_work_area_uses_largest_intersection() {
    let areas = [wa_primary(), wa_secondary()];
    assert_eq!(pick_work_area(Rect::new(1900, 100, 300, 300), &areas), Some(wa_secondary()));
    assert_eq!(pick_work_area(Rect::new(1700, 100, 300, 300), &areas), Some(wa_primary()));
}

#[test]
fn pick_work_area_falls_back_when_fully_offscreen() {
    let areas = [wa_primary()];
    assert_eq!(pick_work_area(Rect::new(5000, 5000, 100, 100), &areas), Some(wa_primary()));
}

#[test]
fn pick_work_area_handles_empty_monitor_list() {
    assert_eq!(pick_work_area(Rect::new(0, 0, 10, 10), &[]), None);
}

#[test]
fn work_area_at_point_prefers_the_containing_screen() {
    let areas = [wa_primary(), wa_secondary()];
    assert_eq!(work_area_at_point(100, 100, &areas), Some(wa_primary()));
    assert_eq!(work_area_at_point(2000, 100, &areas), Some(wa_secondary()));
    assert_eq!(work_area_at_point(1919, 5000, &areas), Some(wa_primary()));
}

#[test]
fn negative_coordinates_work_for_left_of_primary_monitor() {
    let left_screen = Rect::new(-1920, 0, 1920, 1040);
    let mini = Rect::new(-1920, 300, MINI_W_DIP, MINI_H_DIP);
    let g = dock_geometry(Edge::Left, mini, left_screen, true, &m100());
    assert_eq!(g.x, -1920);
    let full = mini_to_full(mini, FULL_W_DIP, FULL_H_DIP, left_screen);
    assert!(full.x >= -1920);
}

#[test]
fn rectangles_end_before_their_far_edges() {
    let r = Rect::new(10, 20, 30, 40);
    assert_eq!((r.right(), r.bottom()), (40, 60));
    assert!(r.contains(10, 20));
    assert!(r.contains(39, 59));
    assert!(!r.contains(40, 59));
    assert!(!r.contains(39, 60));
    assert_eq!(Edge::Left.as_str(), "left");
    assert_eq!(Edge::Right.as_str(), "right");
    assert_eq!(Edge::Top.as_str(), "top");
    assert_eq!(Edge::Bottom.as_str(), "bottom");
}

#[test]
fn async_state_only_reads_the_high_bit() {
    assert!(!is_down_from_async_state(0));
    assert!(!is_down_from_async_state(1));
    assert!(!is_down_from_async_state(i16::MAX));
    assert!(is_down_from_async_state(i16::MIN));
    assert!(is_down_from_async_state(-32767));
}

#[test]
fn there_is_always_a_work_area() {
    assert_eq!(work_areas(vec![wa_secondary()], None, None), vec![wa_secondary()]);
    assert_eq!(work_areas(vec![], Some(wa_primary()), None), vec![wa_primary()]);
    assert_eq!(
        work_areas(vec![], None, Some(Rect::new(2000, 0, 100, 100))),
        vec![Rect::new(0, 0, 2100, 720)]
    );
    assert_eq!(work_areas(vec![], None, None), vec![Rect::new(0, 0, 1280, 720)]);
}

#[test]
fn the_mini_window_docks_slides_out_and_is_put_away() {
    let m = m100();
    let mut w = WindowState::default();
    assert!(!start_drag(&mut w, Rect::new(0, 0, 10, 10), (5, 5), wa_primary()));
    assert!(set_pin_mini(&mut w, true));
    assert!(!set_pin_mini(&mut w, true));
    let full = Rect::new(1536, 456, FULL_W_DIP, FULL_H_DIP);
    assert_eq!(shrink(&mut w, full, &m), Rect::new(1720, 456, MINI_W_DIP, MINI_H_DIP));

    let b = Rect::new(1720, 456, MINI_W_DIP, MINI_H_DIP);
    assert!(start_drag(&mut w, b, (1730, 460), wa_primary()));
    let d = w.drag.unwrap();
    assert_eq!(d.offset, (10, 4));
    assert_eq!(drag_target(&d, (15, 104)), (5, 100));
    assert_eq!(drag_step(d.wa, (1930, 500), &[wa_primary(), wa_secondary()], &m), wa_primary());
    assert_eq!(drag_step(d.wa, (1961, 500), &[wa_primary(), wa_secondary()], &m), wa_secondary());
    move_drag(&mut w, wa_secondary());
    assert_eq!(w.drag.unwrap().wa, wa_secondary());

    let b = Rect::new(5, 100, MINI_W_DIP, MINI_H_DIP);
    assert_eq!(end_drag(&mut w, b, wa_primary(), &m), None);
    assert_eq!(w.dock, Some(Edge::Left));
    assert!(w.dock_hidden);
    assert_eq!(print_compact(&dock_state(&w)), r#"{"hidden":true,"edge":"left"}"#);
    let strip = dock_target(&w, b, wa_primary(), &m).unwrap();
    assert_eq!(strip, Rect::new(0, 100, DOCK_PAD_W_DIP, DOCK_LEN_DIP));

    assert!(!reveal_from_dock(&mut w, at(500.0, 500.0), strip));
    assert!(reveal_from_dock(&mut w, at(3.0, 120.0), strip));
    assert!(can_hide(&w));
    let out = dock_target(&w, strip, wa_primary(), &m).unwrap();
    assert_eq!(out, Rect::new(0, 100, MINI_W_DIP, MINI_H_DIP));

    let old = schedule_dock_hide(&mut w);
    let token = schedule_dock_hide(&mut w);
    assert_eq!(dock_hide_step(&w, old, at(500.0, 500.0), out, 10), Hide::Drop);
    assert_eq!(dock_hide_step(&w, token, at(3.0, 120.0), out, 10), Hide::Retry(9));
    assert_eq!(dock_hide_step(&w, token, None, out, 1), Hide::Retry(0));
    assert_eq!(dock_hide_step(&w, token, None, out, 0), Hide::Now);
    assert!(!dock_hide(&mut w, old));
    assert!(dock_hide(&mut w, token));
    assert!(!dock_hide(&mut w, token));

    assert!(set_pin_mini(&mut w, false));
    assert_eq!(w.dock, None);
    assert_eq!(print_compact(&dock_state(&w)), r#"{"hidden":false,"edge":null}"#);
    assert_eq!(
        grow(&w, Rect::new(1720, 456, MINI_W_DIP, MINI_H_DIP), wa_primary(), &m),
        Rect::new(1536, 456, FULL_W_DIP, FULL_H_DIP)
    );
}

#[test]
fn far_from_an_edge_the_window_stays_undocked() {
    let m = m100();
    let mut w = WindowState::default();
    set_pin_mini(&mut w, true);
    let b = Rect::new(600, 300, DOCK_PAD_W_DIP, DOCK_LEN_DIP);
    start_drag(&mut w, b, (605, 305), wa_primary());
    assert_eq!(
        end_drag(&mut w, b, wa_primary(), &m),
        Some(Rect::new(600, 300, MINI_W_DIP, MINI_H_DIP))
    );
    assert_eq!(w.dock, None);
    assert!(dock_target(&w, b, wa_primary(), &m).is_none());
    start_drag(&mut w, b, (605, 305), wa_primary());
    stop_drag(&mut w);
    assert!(w.drag.is_none());
}

#[test]
fn small_decisions_of_the_window() {
    let mut w = WindowState::default();
    assert_eq!(toggle_main(&w, true), Toggle::Hide);
    assert_eq!(toggle_main(&w, false), Toggle::Show);
    w.mini = true;
    assert_eq!(toggle_main(&w, true), Toggle::Reveal);
    assert!(drag_over(false, 0));
    assert!(!drag_over(true, 120_000));
    assert!(drag_over(true, 120_001));
}
