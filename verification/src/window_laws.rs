//! What holds of the windows, whatever their places: that they are put where they can be seen, that
//! a restored window comes back, when windows hide, and what is dragged out of them.

use vstd::prelude::*;

use crate::dnd::{
    create_shortcut, drag_app_link, query_continue_drag, DragPlan, DragState, Shortcut,
};
use crate::edge_auto_hide::Placement;
use crate::models::WindowGeometry;
use crate::paths::{path_join, path_parent};
use crate::utf16::utf16;
use crate::win_extra::{
    apply_window_opacity, clamp_window_top_left_for_size, frame_border_colorref,
    monitor_work_area_at_point, set_auto_start, AutoStartChange, OpacityPlan, Rect,
};
use crate::window::{
    clamp_main_window, dismiss_settings, follows_scale, main_on_top, reclaim_due,
    settings_blur_hides, settings_popup_candidates, settings_popup_top_left_for_outer_size,
    toggle_hides, MaximizeState, MaximizeStep, MemoryReclaim, Monitor, Overlays,
};

verus! {

// ---------------------------------------------------------------------------------------------
// Places
// ---------------------------------------------------------------------------------------------

/// Whether a window of the size at the place lies in the area.
pub open spec fn lies_in(x: int, y: int, width: int, height: int, work: Rect) -> bool {
    &&& work.left <= x && x + width <= work.right
    &&& work.top <= y && y + height <= work.bottom
}

/// A window that fits in the area is put inside it, no further from its place than it must be: it
/// moves along neither axis where it lies in the area along it, and else just to the edge.
pub proof fn window_is_put_in_area(
    x: i32,
    y: i32,
    width: i32,
    height: i32,
    work: Rect,
    r: (i32, i32),
)
    requires
        call_ensures(clamp_window_top_left_for_size, (x, y, width, height, work), r),
        0 < width <= work.right - work.left,
        0 < height <= work.bottom - work.top,
    ensures
        lies_in(r.0 as int, r.1 as int, width as int, height as int, work),
        work.left <= x && x + width <= work.right ==> r.0 == x,
        x < work.left ==> r.0 == work.left,
        x + width > work.right ==> r.0 + width == work.right,
        work.top <= y && y + height <= work.bottom ==> r.1 == y,
        y < work.top ==> r.1 == work.top,
        y + height > work.bottom ==> r.1 + height == work.bottom,
{
}

/// A window that is too wide or too high for the area begins at its left or upper edge, so that its
/// title is seen.
pub proof fn large_window_begins_at_edge(
    x: i32,
    y: i32,
    width: i32,
    height: i32,
    work: Rect,
    r: (i32, i32),
)
    requires
        call_ensures(clamp_window_top_left_for_size, (x, y, width, height, work), r),
        width > 0 && height > 0,
    ensures
        width > work.right - work.left ==> r.0 == work.left,
        height > work.bottom - work.top ==> r.1 == work.top,
{
}

/// The area in which windows may stand is the one reported, and else the screen.
pub proof fn area_is_reported_or_screen(
    reported: Option<Rect>,
    x: i32,
    y: i32,
    width: i32,
    height: i32,
    r: Rect,
)
    requires
        call_ensures(monitor_work_area_at_point, (reported, x, y, width, height), r),
    ensures
        reported is Some ==> r == reported->0,
        reported is None && i32::MIN <= x + width <= i32::MAX ==> r.left == x && r.right - r.left
            == width,
        reported is None && i32::MIN <= y + height <= i32::MAX ==> r.top == y && r.bottom - r.top
            == height,
        reported is None && x + width > i32::MAX ==> r.right == i32::MAX,
        reported is None && y + height > i32::MAX ==> r.bottom == i32::MAX,
        reported is None && x + width < i32::MIN ==> r.right == i32::MIN,
        reported is None && y + height < i32::MIN ==> r.bottom == i32::MIN,
{
}

/// The main window is left where it is just where it must not be moved, has no size, or lies in
/// the work area and on its monitor; otherwise it is moved there. A window that fits ends up in
/// both, and moves along neither axis without need.
pub proof fn main_window_is_put_on_screen(
    window: Placement,
    work: Rect,
    monitor: Option<Monitor>,
    blocked: bool,
    r: Option<(i32, i32)>,
)
    requires
        call_ensures(clamp_main_window, (window, work, monitor, blocked), r),
        window.width <= work.right - work.left,
        window.height <= work.bottom - work.top,
        monitor is Some && monitor->0.width > 0 && monitor->0.height > 0 ==> {
            let m = monitor->0;
            m.x <= work.left && work.right <= m.x + m.width && m.y <= work.top && work.bottom
                <= m.y + m.height
        },
    ensures
        r is Some <==> !blocked && window.width > 0 && window.height > 0 && !lies_in(
            window.x as int,
            window.y as int,
            window.width as int,
            window.height as int,
            work,
        ),
        r matches Some((x, y)) ==> lies_in(
            x as int,
            y as int,
            window.width as int,
            window.height as int,
            work,
        ) && (work.left <= window.x && window.x + window.width <= work.right ==> x == window.x) && (
        work.top <= window.y && window.y + window.height <= work.bottom ==> y == window.y),
{
}

/// A main window that fits on its monitor is put on it, also where the work area reaches beyond;
/// one that is too large begins at the monitor's left and upper edges.
pub proof fn main_window_is_put_on_monitor(
    window: Placement,
    work: Rect,
    m: Monitor,
    r: Option<(i32, i32)>,
    x: int,
    y: int,
)
    requires
        call_ensures(clamp_main_window, (window, work, Some(m), false), r),
        window.width > 0 && window.height > 0 && m.width > 0 && m.height > 0,
        r matches Some((a, b)) ==> x == a && y == b,
        r is None ==> x == window.x && y == window.y,
    ensures
        m.x <= x && m.y <= y,
        window.width <= m.width ==> x + window.width <= m.x + m.width,
        window.height <= m.height ==> y + window.height <= m.y + m.height,
        window.width > m.width ==> x == m.x,
        window.height > m.height ==> y == m.y,
{
}

/// The places tried for the settings window have one of its corners at the cursor: the upper left,
/// the lower left, or the lower right.
pub proof fn settings_window_is_tried_at_cursor(
    cx: i32,
    cy: i32,
    width: i32,
    height: i32,
    r: ((i32, i32), (i32, i32), (i32, i32)),
)
    requires
        call_ensures(settings_popup_candidates, (cx, cy, width, height), r),
        i32::MIN <= cy - height <= i32::MAX,
        i32::MIN <= cx - width <= i32::MAX,
    ensures
        ({
            let (first, second, third) = r;
            &&& first.0 == cx && first.1 == cy
            &&& second.0 == cx && second.1 + height == cy
            &&& third.0 + width == cx && third.1 + height == cy
        }),
{
}

/// The settings window is put with its upper left corner at the cursor where it fits there, else
/// with its lower left corner, else with its lower right corner, each where it fits; else it is put
/// in the area nearest to the cursor.
pub proof fn settings_window_is_put_at_cursor(
    cx: i32,
    cy: i32,
    width: i32,
    height: i32,
    works: (Rect, Rect, Rect),
    r: (i32, i32),
)
    requires
        call_ensures(
            settings_popup_top_left_for_outer_size,
            (cx, cy, width, height, works),
            r,
        ),
        i32::MIN <= cy - height <= i32::MAX,
        i32::MIN <= cx - width <= i32::MAX,
        0 < width <= works.0.right - works.0.left,
        0 < height <= works.0.bottom - works.0.top,
        width <= works.1.right - works.1.left,
        height <= works.1.bottom - works.1.top,
        width <= works.2.right - works.2.left,
        height <= works.2.bottom - works.2.top,
    ensures
        ({
            let w = width as int;
            let h = height as int;
            let below = lies_in(cx as int, cy as int, w, h, works.0);
            let above = lies_in(cx as int, cy - height, w, h, works.1);
            let left = lies_in(cx - width, cy - height, w, h, works.2);
            &&& below ==> r.0 == cx && r.1 == cy
            &&& !below && above ==> r.0 == cx && r.1 + height == cy
            &&& !below && !above && left ==> r.0 + width == cx && r.1 + height == cy
            &&& !below && !above && !left ==> lies_in(r.0 as int, r.1 as int, w, h, works.0) && (
            works.0.left <= cx && cx + width <= works.0.right ==> r.0 == cx) && (works.0.top <= cy
                && cy + height <= works.0.bottom ==> r.1 == cy)
        }),
{
}

// ---------------------------------------------------------------------------------------------
// Maximizing
// ---------------------------------------------------------------------------------------------

/// A window is not maximized at first. One that is not maximized is maximized, and where it stood
/// is noted if it has a size; when it is restored it is put there, and the note is dropped.
pub proof fn window_is_maximized_and_comes_back(
    start: MaximizeState,
    state: &mut MaximizeState,
    zoomed: Option<bool>,
    here: Option<WindowGeometry>,
    r: MaximizeStep,
    then: &mut MaximizeState,
    then_zoomed: Option<bool>,
    then_here: Option<WindowGeometry>,
    s: MaximizeStep,
)
    requires
        call_ensures(MaximizeState::new, (), start),
        !old(state).maximized,
        call_ensures(MaximizeState::toggle_main_window_maximized, (state, zoomed, here), r),
        *old(then) == *final(state),
        call_ensures(
            MaximizeState::toggle_main_window_maximized,
            (then, then_zoomed, then_here),
            s,
        ),
    ensures
        !start.maximized && start.restore is None,
        r == MaximizeStep::Maximize && final(state).maximized,
        !final(then).maximized,
        here is Some && here->0.width > 0 && here->0.height > 0 ==> final(state).restore == here,
        !(here is Some && here->0.width > 0 && here->0.height > 0) ==> final(state).restore
            == old(state).restore,
        then_zoomed == Some(false) ==> s == MaximizeStep::Sync && final(then).restore
            == final(state).restore,
        then_zoomed != Some(false) && here is Some && here->0.width > 0 && here->0.height > 0 ==> s
            == MaximizeStep::Restore(here),
        then_zoomed != Some(false) ==> s is Restore && final(then).restore is None,
{
}

/// A restored window is put only where a window with a size stood.
pub proof fn window_is_restored_with_size(
    state: &mut MaximizeState,
    zoomed: Option<bool>,
    here: Option<WindowGeometry>,
    r: MaximizeStep,
)
    requires
        call_ensures(MaximizeState::toggle_main_window_maximized, (state, zoomed, here), r),
        old(state).maximized,
    ensures
        r matches MaximizeStep::Restore(Some(g)) ==> g.width > 0 && g.height > 0
            && old(state).restore == Some(g),
        r matches MaximizeStep::Restore(None) ==> (old(state).restore matches Some(g) ==> g.width
            == 0 || g.height == 0),
        r is Sync <==> zoomed == Some(false),
        r is Sync || r is Restore,
{
}

// ---------------------------------------------------------------------------------------------
// Showing, hiding and dismissing
// ---------------------------------------------------------------------------------------------

/// A call hides the window just where the user can see it; memory is given back just where they
/// cannot.
pub proof fn seen_window_is_hidden(visible: bool, minimized: bool, r: bool, s: bool)
    requires
        call_ensures(toggle_hides, (visible, minimized), r),
        call_ensures(reclaim_due, (visible, minimized), s),
    ensures
        r <==> visible && !minimized,
        s != r,
{
}

/// Something lies over the main window where at least one of the eight things does.
pub proof fn overlay_is_any_of_eight(o: Overlays, r: bool)
    requires
        call_ensures(Overlays::main_window_has_modal_overlay, (o,), r),
    ensures
        !r <==> !o.edit && !o.hotkey && !o.about && !o.delete_category && !o.category && !o.password
            && !o.menu && !o.category_menu,
{
}

/// The settings window is dismissed where the user turns to the bare main window; while something
/// lies over that, it stays.
pub proof fn settings_window_is_dismissed(
    seen: bool,
    o: Overlays,
    focused: bool,
    covered: bool,
    r: bool,
    over: Option<Overlays>,
    blur: bool,
)
    requires
        call_ensures(dismiss_settings, (seen, o, focused), r),
        call_ensures(Overlays::main_window_has_modal_overlay, (o,), covered),
        over is Some ==> over->0 == o,
        call_ensures(settings_blur_hides, (seen, over), blur),
    ensures
        r <==> seen && focused && !covered,
        over is None ==> blur == seen,
        over is Some ==> (blur <==> seen && !covered),
{
}

/// Only the main window follows a change of scale, and it stands above others where that is wanted
/// and no settings window is open.
pub proof fn main_window_follows(
    is_settings: bool,
    is_main: bool,
    r: bool,
    on_top: bool,
    open: bool,
    s: bool,
)
    requires
        call_ensures(follows_scale, (is_settings, is_main), r),
        call_ensures(main_on_top, (on_top, open), s),
    ensures
        r <==> is_main && !is_settings,
        s <==> on_top && !open,
{
}

/// Memory is given back at most once while the window is hidden, and half a minute or more after
/// the last time; it is given back where both allow it.
pub proof fn memory_is_given_back_in_time(
    start: MemoryReclaim,
    state: &mut MemoryReclaim,
    now: u64,
    r: bool,
    then: &mut MemoryReclaim,
    later: u64,
    s: bool,
    shown: &mut MemoryReclaim,
    third: &mut MemoryReclaim,
    t: bool,
)
    requires
        call_ensures(MemoryReclaim::new, (), start),
        call_ensures(MemoryReclaim::maybe_trim_working_set_hidden, (state, now), r),
        *old(then) == *final(state),
        call_ensures(MemoryReclaim::maybe_trim_working_set_hidden, (then, later), s),
        *old(shown) == *final(state),
        call_ensures(MemoryReclaim::window_shown, (shown,), ()),
        *old(third) == *final(shown),
        call_ensures(MemoryReclaim::maybe_trim_working_set_hidden, (third, later), t),
    ensures
        start.last_trim_ms == 0 && !start.reclaimed,
        r <==> !old(state).reclaimed && now - old(state).last_trim_ms >= 30_000,
        r ==> !s,
        r ==> (t <==> later - now >= 30_000),
        !r ==> *final(state) == *old(state),
{
}

// ---------------------------------------------------------------------------------------------
// Frame, opacity and start
// ---------------------------------------------------------------------------------------------

/// The frame of each scheme has a colour of its own; an unknown scheme has the first one's.
pub proof fn frame_goes_with_scheme(i: i32, r: u32)
    requires
        call_ensures(frame_border_colorref, (i,), r),
    ensures
        r == 0xfbf7f5 <==> i == 1,
        r == 0x24303a <==> i == 2,
        r == 0x38242e <==> i == 3,
        r == 0x18100b <==> !(1 <= i <= 3),
{
}

/// An opaque window gets no opacity of its own, and loses the style of one that has; a window
/// that is to be seen through gets both. The style is set only where it changes, and only in its
/// one bit. The opacity is that share of 255, and never below a half.
pub proof fn opacity_is_share_of_255(style: u32, percent: u8, r: OpacityPlan)
    requires
        call_ensures(apply_window_opacity, (style, percent), r),
    ensures
        r.alpha is Some <==> percent < 100,
        r.alpha matches Some(a) ==> {
            &&& 50 <= percent ==> a * 100 <= percent * 255 < a * 100 + 100
            &&& percent < 50 ==> a == 127
        },
        percent >= 100 ==> (r.style is Some <==> style & 0x80000 != 0),
        percent < 100 ==> (r.style is Some <==> style & 0x80000 == 0),
        r.style matches Some(s) ==> s ^ style == 0x80000,
{
    assert(style & 0x80000 != 0 ==> (style & !0x80000u32) ^ style == 0x80000) by (bit_vector);
    assert(style & 0x80000 == 0 ==> (style | 0x80000u32) ^ style == 0x80000) by (bit_vector);
}

/// To start with the system, the program's path is written; else the entry is removed.
pub proof fn start_is_written_or_removed(enabled: bool, exe: &str, r: AutoStartChange)
    requires
        call_ensures(set_auto_start, (enabled, exe), r),
    ensures
        r is Write <==> enabled,
        r is Write ==> r->0@ == exe@,
{
}

// ---------------------------------------------------------------------------------------------
// Dragging out
// ---------------------------------------------------------------------------------------------

/// A drag is given up on escape; else it goes on as long as the left button is held.
pub proof fn drag_goes_on_while_held(escape: bool, keys: u32, r: DragState)
    requires
        call_ensures(query_continue_drag, (escape, keys), r),
    ensures
        r == DragState::Cancel <==> escape,
        r == DragState::Continue <==> !escape && keys % 2 == 1,
{
    assert(keys & 1 == keys % 2) by (bit_vector);
}

/// Whether the character may not stand in a file name.
pub open spec fn barred_in_names(c: char) -> bool {
    c == '<' || c == '>' || c == ':' || c == '"' || c == '/' || c == '\\' || c == '|' || c == '?'
        || c == '*'
}

/// What is dragged is a shortcut to the entry without arguments, in the directory for passing
/// files. It is named as the entry, with an underscore for each character that may not stand in a
/// file name and every other character kept, and it runs beside what it leads to.
pub proof fn entry_is_dragged_as_shortcut(
    target: &str,
    name: &str,
    temp: &str,
    r: DragPlan,
    file: Seq<char>,
)
    requires
        call_ensures(drag_app_link, (target, name, temp), r),
        file.len() == name@.len() + 4,
        file.subrange(name@.len() as int, file.len() as int) == ".lnk"@,
        forall|i: int|
            0 <= i < name@.len() ==> #[trigger] file[i] == (if barred_in_names(name@[i]) {
                '_'
            } else {
                name@[i]
            }),
    ensures
        r.link_path@ == path_join(temp@, file),
        r.shortcut.link@ == utf16(r.link_path@).push(0u16),
        r.shortcut.target@ == utf16(target@).push(0u16),
        r.shortcut.args is None,
        r.shortcut.work_dir is Some <==> path_parent(target@) is Some,
        r.shortcut.work_dir is Some ==> r.shortcut.work_dir->0@ == utf16(
            path_parent(target@)->0,
        ).push(0u16),
{
    reveal_strlit(".lnk");
    let made = crate::dnd::link_name(name@);
    assert(made.len() == file.len());
    assert forall|i: int| 0 <= i < file.len() implies made[i] == file[i] by {
        if i >= name@.len() {
            assert(file.subrange(name@.len() as int, file.len() as int)[i - name@.len()] == file[i]);
        }
    }
    assert(made =~= file);
}

/// A shortcut leads to its target and holds just the arguments given, none where they are empty.
/// It runs in the directory given, or else beside its target.
pub proof fn shortcut_holds_what_was_given(
    target: &str,
    link: &str,
    args: &str,
    dir: Option<String>,
    r: Shortcut,
)
    requires
        call_ensures(create_shortcut, (target, link, args, dir), r),
    ensures
        r.target@ == utf16(target@).push(0u16) && r.link@ == utf16(link@).push(0u16),
        r.args is Some <==> args@.len() > 0,
        r.args is Some ==> r.args->0@ == utf16(args@).push(0u16),
        dir is Some ==> r.work_dir is Some && r.work_dir->0@ == utf16(dir->0@).push(0u16),
        dir is None ==> (r.work_dir is Some <==> path_parent(target@) is Some),
        dir is None && r.work_dir is Some ==> r.work_dir->0@ == utf16(
            path_parent(target@)->0,
        ).push(0u16),
{
}

} // verus!
