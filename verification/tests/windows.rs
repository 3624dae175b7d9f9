use yian_launcher::edge_auto_hide::{
    cursor_in_dock_hotzone, cursor_over_window, detect_snap_edge, expanded_and_clamped,
    expanded_position_for_edge, hidden_position_for_edge, window_centre, AnimComplete, DockEdge,
    DockSnapshot, EdgeAutoHide, EdgeStep, Gate, Placement, WindowFacts,
};
use yian_launcher::models::WindowGeometry;
use yian_launcher::win_extra::{
    apply_window_opacity, clamp_window_top_left_for_size, frame_border_colorref,
    monitor_work_area_at_point, set_auto_start, AutoStartChange, OpacityPlan, Rect, LAYERED,
};
use yian_launcher::window::{
    clamp_main_window, dismiss_settings, follows_scale, main_on_top, reclaim_due,
    settings_blur_hides, settings_popup_candidates, settings_popup_top_left_for_outer_size,
    toggle_hides, MaximizeState, MaximizeStep, MemoryReclaim, Monitor, Overlays,
};

const WORK: Rect = Rect { left: 0, top: 0, right: 1920, bottom: 1040 };
const MS: u64 = 1_000_000;

fn at(x: i32, y: i32) -> Placement {
    Placement { x, y, width: 400, height: 600 }
}

#[test]
fn frame_colors() {
    assert_eq!(frame_border_colorref(0), 0x18100b);
    assert_eq!(frame_border_colorref(1), 0xfbf7f5);
    assert_eq!(frame_border_colorref(2), 0x24303a);
    assert_eq!(frame_border_colorref(3), 0x38242e);
    assert_eq!(frame_border_colorref(9), 0x18100b);
}

#[test]
fn opacity() {
    assert_eq!(apply_window_opacity(0, 100), OpacityPlan { style: None, alpha: None });
    assert_eq!(
        apply_window_opacity(LAYERED | 3, 120),
        OpacityPlan { style: Some(3), alpha: None }
    );
    assert_eq!(
        apply_window_opacity(3, 80),
        OpacityPlan { style: Some(LAYERED | 3), alpha: Some(204) }
    );
    assert_eq!(
        apply_window_opacity(LAYERED, 10),
        OpacityPlan { style: None, alpha: Some(127) }
    );
    assert_eq!(apply_window_opacity(LAYERED, 99).alpha, Some(252));
}

#[test]
fn start_with_the_system() {
    assert!(matches!(set_auto_start(true, "/x"), AutoStartChange::Write(p) if p == "/x"));
    assert!(matches!(set_auto_start(false, "/x"), AutoStartChange::Remove));
}

#[test]
fn work_area() {
    assert_eq!(monitor_work_area_at_point(Some(WORK), 1, 2, 3, 4), WORK);
    assert_eq!(
        monitor_work_area_at_point(None, -10, 5, 100, i32::MAX),
        Rect { left: -10, top: 5, right: 90, bottom: i32::MAX }
    );
}

#[test]
fn windows_are_held_in_the_area() {
    assert_eq!(clamp_window_top_left_for_size(-50, 2000, 400, 600, WORK), (0, 440));
    assert_eq!(clamp_window_top_left_for_size(100, 100, 400, 600, WORK), (100, 100));
    assert_eq!(clamp_window_top_left_for_size(1900, 10, 400, 600, WORK), (1520, 10));
    assert_eq!(clamp_window_top_left_for_size(7, 7, 1920, 2000, WORK), (0, 0));
}

#[test]
fn edges() {
    assert_eq!(detect_snap_edge(at(18, 300), WORK), Some(DockEdge::Left));
    assert_eq!(detect_snap_edge(at(19, 300), WORK), None);
    assert_eq!(detect_snap_edge(at(1502, 300), WORK), Some(DockEdge::Right));
    assert_eq!(detect_snap_edge(at(600, 18), WORK), Some(DockEdge::Top));
    let wide = Placement { x: 0, y: 0, width: 1920, height: 100 };
    assert_eq!(detect_snap_edge(wide, WORK), None);
}

#[test]
fn hidden_and_shown_places() {
    assert_eq!(hidden_position_for_edge(DockEdge::Left, at(5, 70), WORK), (-388, 70));
    assert_eq!(hidden_position_for_edge(DockEdge::Right, at(5, 70), WORK), (1908, 70));
    assert_eq!(hidden_position_for_edge(DockEdge::Top, at(5, 70), WORK), (5, -588));
    let snap = |edge, x, y| DockSnapshot { edge, restored_x: x, restored_y: y };
    assert_eq!(expanded_position_for_edge(snap(DockEdge::Left, 5, 900), 400, 600, WORK), (0, 440));
    assert_eq!(expanded_position_for_edge(snap(DockEdge::Right, 5, 70), 400, 600, WORK), (1520, 70));
    assert_eq!(expanded_position_for_edge(snap(DockEdge::Top, 1800, 5), 400, 600, WORK), (1520, 0));
    assert_eq!(expanded_and_clamped((1600, 5), 400, 600, WORK), (1520, 5));
    assert_eq!(window_centre(at(10, 20)), (210, 320));
}

#[test]
fn cursor_places() {
    assert!(cursor_over_window(at(10, 20), (10, 20)));
    assert!(!cursor_over_window(at(10, 20), (410, 20)));
    assert!(!cursor_over_window(at(10, 20), (10, 620)));
    let hidden = at(-388, 100);
    assert!(cursor_in_dock_hotzone(DockEdge::Left, hidden, WORK, (20, 92)));
    assert!(!cursor_in_dock_hotzone(DockEdge::Left, hidden, WORK, (21, 92)));
    assert!(!cursor_in_dock_hotzone(DockEdge::Left, hidden, WORK, (5, 91)));
    assert!(cursor_in_dock_hotzone(DockEdge::Right, at(1908, 100), WORK, (1900, 300)));
    assert!(!cursor_in_dock_hotzone(DockEdge::Right, at(1908, 100), WORK, (1899, 300)));
    assert!(cursor_in_dock_hotzone(DockEdge::Top, at(300, -588), WORK, (292, 20)));
    assert!(!cursor_in_dock_hotzone(DockEdge::Top, at(300, -588), WORK, (291, 20)));
}

#[test]
fn window_hides_and_comes_back() {
    let mut e = EdgeAutoHide::new();
    let away = (1000, 1000);
    let w = at(10, 100);
    assert_eq!(e.tick(w, WORK, away, 0), EdgeStep::Rest);
    assert_eq!(e.tick(w, WORK, away, 279 * MS), EdgeStep::Rest);
    assert_eq!(e.tick(w, WORK, away, 280 * MS), EdgeStep::Slide { x: 10, y: 100 });
    assert!(e.blocks_work_area_clamp());
    let slide = match e.animation {
        Some(a) => a,
        None => panic!("no slide"),
    };
    assert_eq!((slide.to_x, slide.to_y), (-388, 100));
    assert!(e.tick_animation(false, 300 * MS));
    assert!(e.docked.is_none());
    assert!(e.tick_animation(true, 440 * MS));
    assert!(!e.tick_animation(true, 441 * MS));
    let snap = DockSnapshot { edge: DockEdge::Left, restored_x: 10, restored_y: 100 };
    assert_eq!(e.docked, Some(snap));
    assert_eq!(e.last_pos, Some((-388, 100)));

    let hidden = at(-388, 100);
    assert_eq!(e.tick(hidden, WORK, away, 500 * MS), EdgeStep::Rest);
    assert_eq!(e.tick(hidden, WORK, (5, 200), 600 * MS), EdgeStep::Rest);
    assert_eq!(e.tick(hidden, WORK, away, 700 * MS), EdgeStep::Rest);
    assert_eq!(e.tick(hidden, WORK, (5, 200), 800 * MS), EdgeStep::Rest);
    assert_eq!(e.tick(hidden, WORK, (5, 200), 1299 * MS), EdgeStep::Rest);
    assert_eq!(e.tick(hidden, WORK, (5, 200), 1300 * MS), EdgeStep::Undock(snap));
    e.begin_undock(hidden, (0, 100), 1300 * MS);
    assert!(e.docked.is_none());
    assert!(e.tick_animation(true, 1500 * MS));
    assert_eq!(e.last_pos, Some((0, 100)));
    assert_eq!(e.last_move_at, Some(1500 * MS));
    assert!(!e.blocks_work_area_clamp());
}

#[test]
fn cursor_on_the_window_keeps_it() {
    let mut e = EdgeAutoHide::new();
    let w = at(10, 100);
    assert_eq!(e.tick(w, WORK, (50, 150), 0), EdgeStep::Rest);
    assert_eq!(e.tick(w, WORK, (50, 150), 900 * MS), EdgeStep::Rest);
    assert_eq!(e.tick(w, WORK, (1000, 10), 1000 * MS), EdgeStep::Rest);
    assert_eq!(e.tick(w, WORK, (1000, 10), 1180 * MS), EdgeStep::Slide { x: 10, y: 100 });
}

#[test]
fn restoring_at_once() {
    let snap = DockSnapshot { edge: DockEdge::Top, restored_x: 1, restored_y: 2 };
    let mut e = EdgeAutoHide::new();
    e.docked = Some(snap);
    assert_eq!(e.restore_if_docked(Some(at(0, 0))), Some(snap));
    e.restored(4, 5, 6);
    assert_eq!(e.docked, None);
    assert_eq!(e.last_pos, Some((4, 5)));
    e.docked = Some(snap);
    e.hover_since = Some(3);
    assert_eq!(e.restore_if_docked(None), None);
    assert_eq!(e.docked, None);
    assert_eq!(e.hover_since, None);
    e.begin_undock(at(4, 5), (4, 5), 9);
    assert_eq!(e.animation, None);
    assert_eq!(e.last_move_at, Some(9));
    e.animation = Some(yian_launcher::edge_auto_hide::SlideAnim {
        from_x: 0,
        from_y: 0,
        to_x: 1,
        to_y: 1,
        started: 0,
        on_complete: AnimComplete::Dock(snap),
    });
    e.clear_dock_state();
    assert_eq!(e.animation, None);
}

#[test]
fn looks_before_the_place_is_known() {
    let facts = |enabled, visible, minimized, maximized| WindowFacts {
        enabled,
        visible,
        minimized,
        maximized,
    };
    let mut e = EdgeAutoHide::new();
    assert_eq!(e.tick_gate(facts(false, true, false, false)), Gate::Rest);
    assert_eq!(e.tick_gate(facts(true, false, false, false)), Gate::Rest);
    assert_eq!(e.tick_gate(facts(true, true, true, false)), Gate::Rest);
    assert_eq!(e.tick_gate(facts(true, true, false, true)), Gate::Rest);
    assert_eq!(e.tick_gate(facts(true, true, false, false)), Gate::Track);
    e.docked = Some(DockSnapshot { edge: DockEdge::Top, restored_x: 1, restored_y: 2 });
    assert_eq!(e.tick_gate(facts(false, true, false, false)), Gate::Restore);
    assert_eq!(e.tick_gate(facts(true, true, false, true)), Gate::Restore);
}

#[test]
fn main_window_stays_on_the_screen() {
    let m = Some(Monitor { x: 0, y: 0, width: 1920, height: 1080 });
    assert_eq!(clamp_main_window(at(-20, 10), WORK, m, false), Some((0, 10)));
    assert_eq!(clamp_main_window(at(20, 10), WORK, m, false), None);
    assert_eq!(clamp_main_window(at(-20, 10), WORK, m, true), None);
    let flat = Placement { x: -5, y: 0, width: 0, height: 10 };
    assert_eq!(clamp_main_window(flat, WORK, None, false), None);
    let second = Some(Monitor { x: 1920, y: 0, width: 1000, height: 900 });
    assert_eq!(clamp_main_window(at(20, 400), WORK, second, false), Some((1920, 300)));
}

#[test]
fn settings_window_opens_at_the_cursor() {
    assert_eq!(
        settings_popup_candidates(500, 700, 300, 400),
        ((500, 700), (500, 300), (200, 300))
    );
    let works = (WORK, WORK, WORK);
    assert_eq!(settings_popup_top_left_for_outer_size(500, 300, 300, 400, works), (500, 300));
    assert_eq!(settings_popup_top_left_for_outer_size(500, 1000, 300, 400, works), (500, 600));
    assert_eq!(settings_popup_top_left_for_outer_size(1800, 1000, 300, 400, works), (1500, 600));
    assert_eq!(settings_popup_top_left_for_outer_size(1800, 100, 300, 400, works), (1620, 100));
}

#[test]
fn maximizing_and_back() {
    let here = WindowGeometry { x: 3, y: 4, width: 500, height: 600 };
    let mut s = MaximizeState::new();
    assert_eq!(s.toggle_main_window_maximized(Some(false), Some(here)), MaximizeStep::Maximize);
    assert_eq!(
        s.toggle_main_window_maximized(Some(true), None),
        MaximizeStep::Restore(Some(here))
    );
    assert_eq!(s, MaximizeState::new());
    assert_eq!(s.toggle_main_window_maximized(None, Some(here)), MaximizeStep::Maximize);
    assert_eq!(s.toggle_main_window_maximized(Some(false), None), MaximizeStep::Sync);
    assert!(!s.maximized);
    let flat = WindowGeometry { x: 3, y: 4, width: 0, height: 600 };
    let mut s = MaximizeState::new();
    assert_eq!(s.toggle_main_window_maximized(None, Some(flat)), MaximizeStep::Maximize);
    assert_eq!(s.toggle_main_window_maximized(None, None), MaximizeStep::Restore(None));
}

#[test]
fn showing_hiding_and_dismissing() {
    assert!(toggle_hides(true, false));
    assert!(!toggle_hides(true, true));
    assert!(!toggle_hides(false, false));
    assert!(reclaim_due(false, false));
    assert!(reclaim_due(true, true));
    assert!(!reclaim_due(true, false));
    let none = Overlays {
        edit: false,
        hotkey: false,
        about: false,
        delete_category: false,
        category: false,
        password: false,
        menu: false,
        category_menu: false,
    };
    let mut menu = none;
    menu.menu = true;
    assert!(!none.main_window_has_modal_overlay());
    assert!(menu.main_window_has_modal_overlay());
    assert!(dismiss_settings(true, none, true));
    assert!(!dismiss_settings(true, menu, true));
    assert!(!dismiss_settings(true, none, false));
    assert!(!dismiss_settings(false, none, true));
    assert!(settings_blur_hides(true, Some(none)));
    assert!(!settings_blur_hides(true, Some(menu)));
    assert!(settings_blur_hides(true, None));
    assert!(!settings_blur_hides(false, None));
    assert!(follows_scale(false, true));
    assert!(!follows_scale(true, true));
    assert!(!follows_scale(false, false));
    assert!(main_on_top(true, false));
    assert!(!main_on_top(true, true));
}

#[test]
fn memory_is_given_back_now_and_then() {
    let mut m = MemoryReclaim::new();
    assert!(!m.maybe_trim_working_set_hidden(29_999));
    assert!(m.maybe_trim_working_set_hidden(30_000));
    assert!(!m.maybe_trim_working_set_hidden(90_000));
    m.window_shown();
    assert!(!m.maybe_trim_working_set_hidden(59_999));
    assert!(!m.maybe_trim_working_set_hidden(10));
    assert!(m.maybe_trim_working_set_hidden(60_000));
}
