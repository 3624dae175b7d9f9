//! When a window hides at a screen edge, where it then stands, and when and where it comes back,
//! whatever the window and the area.

use vstd::prelude::*;

use crate::edge_auto_hide::{
    cursor_in_dock_hotzone, cursor_over_window, detect_snap_edge, expanded_and_clamped,
    expanded_position_for_edge, hidden_position_for_edge, AnimComplete, DockEdge, DockSnapshot,
    EdgeAutoHide, EdgeStep, Gate, Placement, WindowFacts,
};
use crate::win_extra::{clamp_window_top_left_for_size, Rect};

verus! {

/// Whether the number is small enough for places on screens to be reckoned with.
pub open spec fn on_screens(n: i32) -> bool {
    -1_000_000 <= n <= 1_000_000
}

/// Whether the numbers of a window and an area are small enough to be reckoned with.
pub open spec fn reckonable(window: Placement, work: Rect) -> bool {
    &&& on_screens(window.x) && on_screens(window.y)
    &&& on_screens(window.width) && on_screens(window.height)
    &&& on_screens(work.left) && on_screens(work.top)
    &&& on_screens(work.right) && on_screens(work.bottom)
}

// ---------------------------------------------------------------------------------------------
// The edge at which a window hides
// ---------------------------------------------------------------------------------------------

/// A window hides at the side that it is near and that alone: at the left where its left side is
/// no more than 18 pixels from the left of the area, or beyond it, however far, and its right side
/// is further than that from the right; at the right likewise. Where it is near neither side it
/// hides at the top, if it is near that; near both sides it does not hide.
pub proof fn window_hides_where_it_is_near(
    window: Placement,
    work: Rect,
    r: Option<DockEdge>,
)
    requires
        call_ensures(detect_snap_edge, (window, work), r),
    ensures
        ({
            let from_left = window.x - work.left;
            let from_right = work.right - (window.x + window.width);
            let from_top = window.y - work.top;
            &&& r == Some(DockEdge::Left) <==> from_left <= 18 && from_right > 18
            &&& r == Some(DockEdge::Right) <==> from_right <= 18 && from_left > 18
            &&& r == Some(DockEdge::Top) <==> from_top <= 18 && from_left > 18 && from_right > 18
        }),
{
}

/// A window whose side lies on an edge of the area, or beyond it, hides there, if it is far from
/// the other side.
pub proof fn window_at_the_edge_hides(window: Placement, work: Rect, r: Option<DockEdge>)
    requires
        call_ensures(detect_snap_edge, (window, work), r),
        window.width + 36 < work.right - work.left,
    ensures
        window.x <= work.left ==> r == Some(DockEdge::Left),
        window.x + window.width >= work.right ==> r == Some(DockEdge::Right),
        work.left + 18 < window.x && window.x + window.width < work.right - 18 && window.y
            <= work.top ==> r == Some(DockEdge::Top),
{
}

/// A window that hides at an edge still does when it stands further towards that edge.
pub proof fn nearer_window_hides_too(
    window: Placement,
    nearer: Placement,
    work: Rect,
    r: Option<DockEdge>,
    s: Option<DockEdge>,
)
    requires
        call_ensures(detect_snap_edge, (window, work), r),
        call_ensures(detect_snap_edge, (nearer, work), s),
        nearer.width == window.width && nearer.height == window.height,
    ensures
        r == Some(DockEdge::Left) && nearer.x <= window.x ==> s == Some(DockEdge::Left),
        r == Some(DockEdge::Right) && nearer.x >= window.x ==> s == Some(DockEdge::Right),
        r == Some(DockEdge::Top) && nearer.x == window.x && nearer.y <= window.y ==> s == Some(
            DockEdge::Top,
        ),
{
}

/// A window that hides shows a strip of 12 pixels at its edge, and keeps its place along it.
pub proof fn strip_of_hidden_window_is_seen(
    edge: DockEdge,
    window: Placement,
    work: Rect,
    r: (i32, i32),
)
    requires
        call_ensures(hidden_position_for_edge, (edge, window, work), r),
    ensures
        edge == DockEdge::Left ==> r.0 + window.width == work.left + 12 && r.1 == window.y,
        edge == DockEdge::Right ==> r.0 == work.right - 12 && r.1 == window.y,
        edge == DockEdge::Top ==> r.1 + window.height == work.top + 12 && r.0 == window.x,
{
}

/// A window comes out of hiding with its side on the edge at which it hid; along the edge it
/// stands where it stood before, if the area holds it there, and else at the nearer end.
pub proof fn window_comes_out_at_its_edge(
    snap: DockSnapshot,
    width: i32,
    height: i32,
    work: Rect,
    r: (i32, i32),
)
    requires
        call_ensures(expanded_position_for_edge, (snap, width, height, work), r),
        on_screens(width) && on_screens(height),
        on_screens(work.left) && on_screens(work.right) && on_screens(work.top) && on_screens(
            work.bottom,
        ),
        0 < width <= work.right - work.left,
        0 < height <= work.bottom - work.top,
    ensures
        snap.edge == DockEdge::Left ==> r.0 == work.left,
        snap.edge == DockEdge::Right ==> r.0 + width == work.right,
        snap.edge == DockEdge::Top ==> r.1 == work.top,
        snap.edge != DockEdge::Top ==> {
            &&& work.top <= snap.restored_y && snap.restored_y + height <= work.bottom ==> r.1
                == snap.restored_y
            &&& snap.restored_y < work.top ==> r.1 == work.top
            &&& snap.restored_y + height > work.bottom ==> r.1 + height == work.bottom
        },
        snap.edge == DockEdge::Top ==> {
            &&& work.left <= snap.restored_x && snap.restored_x + width <= work.right ==> r.0
                == snap.restored_x
            &&& snap.restored_x < work.left ==> r.0 == work.left
            &&& snap.restored_x + width > work.right ==> r.0 + width == work.right
        },
{
}

/// A window is put in an area by moving it no further than needed: it stays where it lies inside,
/// comes to the side that it stands beyond, and to the left or the top where it does not fit.
pub proof fn window_is_held_in_area(
    x: i32,
    y: i32,
    width: i32,
    height: i32,
    work: Rect,
    r: (i32, i32),
)
    requires
        call_ensures(clamp_window_top_left_for_size, (x, y, width, height, work), r),
        work.left < work.right && work.top < work.bottom,
    ensures
        width < work.right - work.left ==> {
            &&& work.left <= x && x + width <= work.right ==> r.0 == x
            &&& x < work.left ==> r.0 == work.left
            &&& x + width > work.right ==> r.0 + width == work.right
        },
        width >= work.right - work.left ==> r.0 == work.left,
        height < work.bottom - work.top ==> {
            &&& work.top <= y && y + height <= work.bottom ==> r.1 == y
            &&& y < work.top ==> r.1 == work.top
            &&& y + height > work.bottom ==> r.1 + height == work.bottom
        },
        height >= work.bottom - work.top ==> r.1 == work.top,
{
}

/// A window that comes out of hiding is held in the area by the same rule.
pub proof fn window_that_came_out_is_held(
    at: (i32, i32),
    width: i32,
    height: i32,
    work: Rect,
    r: (i32, i32),
    s: (i32, i32),
)
    requires
        call_ensures(expanded_and_clamped, (at, width, height, work), r),
        call_ensures(clamp_window_top_left_for_size, (at.0, at.1, width, height, work), s),
    ensures
        r == s,
{
}

/// The cursor is on a window just where its point is one of the window's, the last column and row
/// beyond it not counted.
pub proof fn cursor_is_on_window(window: Placement, cursor: (i32, i32), r: bool)
    requires
        call_ensures(cursor_over_window, (window, cursor), r),
    ensures
        r <==> 0 <= cursor.0 - window.x && cursor.0 - window.x < window.width && 0 <= cursor.1
            - window.y && cursor.1 - window.y < window.height,
{
}

/// Whether the cursor is on the strip of a window that hides at the edge, or no more than eight
/// pixels beside it.
pub open spec fn near_strip(edge: DockEdge, window: Placement, work: Rect, cursor: (i32, i32)) -> bool {
    let rows = window.y - 8 <= cursor.1 && cursor.1 <= window.y + window.height + 8;
    let columns = window.x - 8 <= cursor.0 && cursor.0 <= window.x + window.width + 8;
    &&& edge == DockEdge::Left ==> rows && work.left - 8 <= cursor.0 && cursor.0 <= work.left + 20
    &&& edge == DockEdge::Right ==> rows && work.right - 20 <= cursor.0 && cursor.0 <= work.right
        + 8
    &&& edge == DockEdge::Top ==> columns && work.top - 8 <= cursor.1 && cursor.1 <= work.top + 20
}

/// The cursor counts as on the strip where it is on it or no more than eight pixels beside it.
pub proof fn cursor_counts_near_strip(
    edge: DockEdge,
    window: Placement,
    work: Rect,
    cursor: (i32, i32),
    r: bool,
)
    requires
        call_ensures(cursor_in_dock_hotzone, (edge, window, work, cursor), r),
        reckonable(window, work),
    ensures
        r <==> near_strip(edge, window, work, cursor),
{
}

// ---------------------------------------------------------------------------------------------
// Watching a window
// ---------------------------------------------------------------------------------------------

/// A window that hides leaves its edge at the first look at which the cursor has been near its
/// strip for half a second, and not before; a look at which the cursor is elsewhere starts the
/// time anew. Nothing else is done meanwhile.
pub proof fn hidden_window_waits_for_cursor(
    state: &mut EdgeAutoHide,
    window: Placement,
    work: Rect,
    cursor: (i32, i32),
    now: u64,
    r: EdgeStep,
)
    requires
        call_ensures(EdgeAutoHide::tick, (state, window, work, cursor, now), r),
        old(state).docked is Some,
        reckonable(window, work),
    ensures
        ({
            let snap = old(state).docked->0;
            let near = near_strip(snap.edge, window, work, cursor);
            let long = old(state).hover_since is Some && now >= old(state).hover_since->0 && now
                - old(state).hover_since->0 >= 500_000_000;
            &&& r == EdgeStep::Undock(snap) <==> near && long
            &&& !(near && long) ==> r == EdgeStep::Rest && final(state).docked == Some(snap)
            &&& near && long ==> final(state).docked is None && final(state).hover_since is None
            &&& !near ==> final(state).hover_since is None
            &&& near && !long && old(state).hover_since is None ==> final(state).hover_since
                == Some(now)
            &&& near && !long && old(state).hover_since is Some ==> final(state).hover_since
                == old(state).hover_since
            &&& final(state).animation == old(state).animation
            &&& final(state).last_pos == old(state).last_pos
        }),
{
}

/// Whether the window stands where it was last seen, the cursor is off it, and it was last seen to
/// move at least 280 milliseconds ago.
pub open spec fn left_alone(
    state: EdgeAutoHide,
    window: Placement,
    cursor: (i32, i32),
    now: u64,
) -> bool {
    let on_window = 0 <= cursor.0 - window.x && cursor.0 - window.x < window.width && 0 <= cursor.1
        - window.y && cursor.1 - window.y < window.height;
    &&& !on_window
    &&& state.last_pos == Some((window.x, window.y))
    &&& state.last_move_at is Some && now >= state.last_move_at->0 && now - state.last_move_at->0
        >= 280_000_000
}

/// A window that does not hide begins to just where it was left alone near an edge: it slides from
/// where it stands to where it shows a strip, and then hides there, to come back to where it
/// stood.
pub proof fn window_left_near_edge_slides_away(
    state: &mut EdgeAutoHide,
    window: Placement,
    work: Rect,
    cursor: (i32, i32),
    now: u64,
    r: EdgeStep,
    edge: Option<DockEdge>,
)
    requires
        call_ensures(EdgeAutoHide::tick, (state, window, work, cursor, now), r),
        call_ensures(detect_snap_edge, (window, work), edge),
        old(state).docked is None,
        reckonable(window, work),
    ensures
        r is Slide <==> left_alone(*old(state), window, cursor, now) && edge is Some,
        r is Slide ==> r->x == window.x && r->y == window.y,
        !(r is Slide) ==> r == EdgeStep::Rest && final(state).docked is None
            && final(state).animation == old(state).animation,
        r is Slide && final(state).animation is Some ==> {
            let slide = final(state).animation->0;
            let snap = DockSnapshot {
                edge: edge->0,
                restored_x: window.x,
                restored_y: window.y,
            };
            &&& slide.from_x == window.x && slide.from_y == window.y && slide.started == now
            &&& slide.on_complete == AnimComplete::Dock(snap)
            &&& edge->0 == DockEdge::Left ==> slide.to_x == work.left - window.width + 12
                && slide.to_y == window.y
            &&& edge->0 == DockEdge::Right ==> slide.to_x == work.right - 12 && slide.to_y
                == window.y
            &&& edge->0 == DockEdge::Top ==> slide.to_x == window.x && slide.to_y == work.top
                - window.height + 12
            &&& final(state).docked is None
        },
        r is Slide && final(state).animation is None ==> final(state).docked is Some
            && final(state).docked->0.edge == edge->0,
{
}

/// A window that moved, or that the cursor is on, is seen where it stands, and the time that it
/// must be left alone starts anew.
pub proof fn moved_window_is_noted(
    state: &mut EdgeAutoHide,
    window: Placement,
    work: Rect,
    cursor: (i32, i32),
    now: u64,
    r: EdgeStep,
)
    requires
        call_ensures(EdgeAutoHide::tick, (state, window, work, cursor, now), r),
        old(state).docked is None,
        reckonable(window, work),
        old(state).last_pos != Some((window.x, window.y)) || (window.x <= cursor.0 && cursor.0
            < window.x + window.width && window.y <= cursor.1 && cursor.1 < window.y
            + window.height),
    ensures
        r == EdgeStep::Rest,
        final(state).last_pos == Some((window.x, window.y)),
        final(state).last_move_at == Some(now),
        final(state).hover_since is None,
{
}

/// A slide that is over has its end: a window that slid into hiding hides, and was last seen there;
/// one that came out stands where it was to. A slide that is not over goes on.
pub proof fn slide_has_its_end(state: &mut EdgeAutoHide, over: bool, now: u64, r: bool)
    requires
        call_ensures(EdgeAutoHide::tick_animation, (state, over, now), r),
    ensures
        r <==> old(state).animation is Some,
        !r || !over ==> *final(state) == *old(state),
        r && over ==> final(state).animation is None && final(state).hover_since is None
            && final(state).last_move_at == Some(now),
        r && over && old(state).animation->0.on_complete is Dock ==> final(state).docked == Some(
            old(state).animation->0.on_complete->Dock_0,
        ) && final(state).last_pos == Some(
            (old(state).animation->0.to_x, old(state).animation->0.to_y),
        ),
        r && over && old(state).animation->0.on_complete is Undock ==> final(state).docked is None
            && final(state).last_pos == Some(
            (
                old(state).animation->0.on_complete->final_x,
                old(state).animation->0.on_complete->final_y,
            ),
        ),
{
}

/// A window that comes out of hiding slides from where it stands to where it comes out, and no
/// longer hides then.
pub proof fn window_slides_back(
    state: &mut EdgeAutoHide,
    window: Placement,
    to: (i32, i32),
    now: u64,
)
    requires
        call_ensures(EdgeAutoHide::begin_undock, (state, window, to, now), ()),
    ensures
        (window.x, window.y) != to ==> {
            let slide = final(state).animation->0;
            &&& final(state).animation is Some
            &&& slide.from_x == window.x && slide.from_y == window.y
            &&& slide.to_x == to.0 && slide.to_y == to.1 && slide.started == now
            &&& slide.on_complete == AnimComplete::Undock { final_x: to.0, final_y: to.1 }
        },
        (window.x, window.y) == to ==> final(state).animation is None && final(state).docked is None
            && final(state).last_pos == Some(to),
{
}

/// A window is watched just while the settings ask for it and it is seen, neither minimized nor
/// maximized; one that hides is shown again where the settings no longer ask, or it was maximized.
pub proof fn window_is_watched_while_seen(state: &EdgeAutoHide, facts: WindowFacts, r: Gate)
    requires
        call_ensures(EdgeAutoHide::tick_gate, (state, facts), r),
    ensures
        r == Gate::Track <==> facts.enabled && facts.visible && !facts.minimized
            && !facts.maximized,
        r == Gate::Restore <==> (!facts.enabled && (state.docked is Some
            || state.animation is Some)) || (facts.enabled && facts.visible && !facts.minimized
            && facts.maximized && state.docked is Some),
{
}

/// A window that hides or slides is not moved into the work area.
pub proof fn hiding_window_is_left_there(state: &EdgeAutoHide, r: bool)
    requires
        call_ensures(EdgeAutoHide::blocks_work_area_clamp, (state,), r),
    ensures
        !r <==> state.docked is None && state.animation is None,
{
}

/// Showing the window at once hands back where it hid just where it hides and stands somewhere, and
/// otherwise leaves it neither hiding nor sliding; once it was put on the screen, it is neither.
pub proof fn window_is_shown_at_once(
    state: &mut EdgeAutoHide,
    window: Option<Placement>,
    r: Option<DockSnapshot>,
    later: &mut EdgeAutoHide,
    x: i32,
    y: i32,
    now: u64,
)
    requires
        call_ensures(EdgeAutoHide::restore_if_docked, (state, window), r),
        call_ensures(EdgeAutoHide::restored, (later, x, y, now), ()),
    ensures
        r is Some <==> old(state).docked is Some && window is Some,
        r is Some ==> r == old(state).docked && *final(state) == *old(state),
        r is None ==> final(state).docked is None && final(state).animation is None
            && final(state).hover_since is None && final(state).last_pos == old(state).last_pos,
        final(later).docked is None && final(later).animation is None,
        final(later).last_pos == Some((x, y)) && final(later).last_move_at == Some(now),
{
}

} // verus!
