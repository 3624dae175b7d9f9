//! Hiding the window at a screen edge. A window left at the left, right or top edge slides out
//! of the screen but for a strip; when the cursor rests on the strip for a while, it slides back.
//!
//! Instants are counted in nanoseconds from some fixed moment.

use vstd::prelude::*;

use crate::numbers::{clamp_i32, clamped, fits_i32, larger, larger_i32, saturate_i32, saturated};
use crate::win_extra::{clamp_window_top_left_for_size, clamped_top_left, Rect};

verus! {

/// How near to an edge a window must be left to hide there.
pub const SNAP_THRESHOLD_PX: i32 = 18;

/// The width of the strip that stays on the screen.
pub const VISIBLE_STRIP_PX: i32 = 12;

/// How long the cursor must rest on the strip.
pub const HOVER_DELAY: u64 = 500_000_000;

/// How long a window must have been left where it is.
pub const STABLE_BEFORE_SNAP: u64 = 280_000_000;

/// How far around the strip the cursor counts as on it.
pub const HOTZONE_PAD_PX: i32 = 8;

/// How long a slide takes.
pub const SLIDE_DURATION: u64 = 160_000_000;

/// The edges at which a window can hide.
#[derive(Debug, Clone, Copy, PartialEq, Eq, Structural)]
pub enum DockEdge {
    Left,
    Right,
    Top,
}

/// Where a window hides, and where it stood before.
#[derive(Debug, Clone, Copy, PartialEq, Eq, Structural)]
pub struct DockSnapshot {
    pub edge: DockEdge,
    pub restored_x: i32,
    pub restored_y: i32,
}

/// What holds once a slide is over.
#[derive(Debug, Clone, Copy, PartialEq, Eq, Structural)]
pub enum AnimComplete {
    Dock(DockSnapshot),
    Undock { final_x: i32, final_y: i32 },
}

/// A slide that is under way.
#[derive(Debug, Clone, Copy, PartialEq, Eq, Structural)]
pub struct SlideAnim {
    pub from_x: i32,
    pub from_y: i32,
    pub to_x: i32,
    pub to_y: i32,
    pub started: u64,
    pub on_complete: AnimComplete,
}

/// The place and size of a window in physical pixels.
#[derive(Debug, Clone, Copy, PartialEq, Eq, Structural)]
pub struct Placement {
    pub x: i32,
    pub y: i32,
    pub width: i32,
    pub height: i32,
}

/// What is known of the window: whether it hides at an edge, a slide that is under way, where it
/// was last seen and since when it stands there, and since when the cursor rests on the strip.
#[derive(Debug, Clone, Copy, PartialEq, Eq)]
pub struct EdgeAutoHide {
    pub docked: Option<DockSnapshot>,
    pub animation: Option<SlideAnim>,
    pub last_pos: Option<(i32, i32)>,
    pub last_move_at: Option<u64>,
    pub hover_since: Option<u64>,
}

impl EdgeAutoHide {
    /// A window that hides does not slide.
    pub open spec fn consistent(self) -> bool {
        self.docked is None || self.animation is None
    }

    /// Nothing is known yet.
    pub fn new() -> (r: Self)
        ensures
            r == (EdgeAutoHide {
                docked: None,
                animation: None,
                last_pos: None,
                last_move_at: None,
                hover_since: None,
            }),
            r.consistent(),
    {
        EdgeAutoHide {
            docked: None,
            animation: None,
            last_pos: None,
            last_move_at: None,
            hover_since: None,
        }
    }

    /// Forgets that the window hides or slides; it stays where it is.
    pub fn clear_dock_state(&mut self)
        ensures
            *final(self) == (EdgeAutoHide {
                docked: None,
                animation: None,
                hover_since: None,
                ..*old(self)
            }),
            final(self).consistent(),
    {
        self.docked = None;
        self.animation = None;
        self.hover_since = None;
    }

    /// Whether the window must not be moved into the work area: it hides or slides.
    pub fn blocks_work_area_clamp(&self) -> (r: bool)
        ensures
            r == (self.docked is Some || self.animation is Some),
    {
        self.docked.is_some() || self.animation.is_some()
    }

    // -----------------------------------------------------------------------------------------
    // Showing the window at once
    // -----------------------------------------------------------------------------------------

    /// Begins to show the window at once. Where it hides and its place is known, the snapshot is
    /// handed back by which its place on the screen is found; otherwise all is done.
    pub fn restore_if_docked(&mut self, window: Option<Placement>) -> (r: Option<DockSnapshot>)
        ensures
            r == (if window is Some {
                old(self).docked
            } else {
                None
            }),
            *final(self) == (if r is Some {
                *old(self)
            } else {
                EdgeAutoHide { docked: None, animation: None, hover_since: None, ..*old(self) }
            }),
            old(self).consistent() ==> final(self).consistent(),
    {
        match self.docked {
            None => {
                self.animation = None;
                self.hover_since = None;
                None
            },
            Some(snap) => if window.is_some() {
                Some(snap)
            } else {
                self.clear_dock_state();
                None
            },
        }
    }

    /// The window was put at `x`, `y`, wholly on the screen.
    pub fn restored(&mut self, x: i32, y: i32, now: u64)
        ensures
            *final(self) == (EdgeAutoHide {
                docked: None,
                animation: None,
                hover_since: None,
                last_pos: Some((x, y)),
                last_move_at: Some(now),
            }),
            final(self).consistent(),
    {
        self.docked = None;
        self.animation = None;
        self.hover_since = None;
        self.last_pos = Some((x, y));
        self.last_move_at = Some(now);
    }

    // -----------------------------------------------------------------------------------------
    // Sliding
    // -----------------------------------------------------------------------------------------

    /// The state once a slide is over.
    pub open spec fn after_slide(self, done: AnimComplete, now: u64) -> EdgeAutoHide {
        match done {
            AnimComplete::Dock(snap) => EdgeAutoHide {
                animation: None,
                hover_since: None,
                docked: Some(snap),
                ..self
            },
            AnimComplete::Undock { final_x, final_y } => EdgeAutoHide {
                animation: None,
                hover_since: None,
                docked: None,
                last_pos: Some((final_x, final_y)),
                last_move_at: Some(now),
            },
        }
    }

    fn apply_slide_complete(&mut self, done: AnimComplete, now: u64)
        ensures
            *final(self) == old(self).after_slide(done, now),
    {
        self.animation = None;
        self.hover_since = None;
        match done {
            AnimComplete::Dock(snap) => {
                self.docked = Some(snap);
            },
            AnimComplete::Undock { final_x, final_y } => {
                self.docked = None;
                self.last_pos = Some((final_x, final_y));
                self.last_move_at = Some(now);
            },
        }
    }

    /// The state once a slide has begun. One that leads nowhere is over at once.
    pub open spec fn sliding(
        self,
        from: (i32, i32),
        to: (i32, i32),
        on_complete: AnimComplete,
        now: u64,
    ) -> EdgeAutoHide {
        if from == to {
            self.after_slide(on_complete, now)
        } else {
            EdgeAutoHide {
                animation: Some(
                    SlideAnim {
                        from_x: from.0,
                        from_y: from.1,
                        to_x: to.0,
                        to_y: to.1,
                        started: now,
                        on_complete,
                    },
                ),
                ..self
            }
        }
    }

    fn start_slide_to(
        &mut self,
        from: (i32, i32),
        to: (i32, i32),
        on_complete: AnimComplete,
        now: u64,
    )
        ensures
            *final(self) == old(self).sliding(from, to, on_complete, now),
    {
        if from.0 == to.0 && from.1 == to.1 {
            self.apply_slide_complete(on_complete, now);
        } else {
            self.animation = Some(
                SlideAnim {
                    from_x: from.0,
                    from_y: from.1,
                    to_x: to.0,
                    to_y: to.1,
                    started: now,
                    on_complete,
                },
            );
        }
    }

    /// Takes note of how far the slide under way has come, and tells whether there was one. A
    /// slide into hiding leaves the window last seen where it ended.
    pub fn tick_animation(&mut self, finished: bool, now: u64) -> (r: bool)
        ensures
            r == old(self).animation is Some,
            *final(self) == match old(self).animation {
                Some(anim) if finished => match anim.on_complete {
                    AnimComplete::Dock(snap) => EdgeAutoHide {
                        last_pos: Some((anim.to_x, anim.to_y)),
                        last_move_at: Some(now),
                        ..old(self).after_slide(anim.on_complete, now)
                    },
                    AnimComplete::Undock { final_x, final_y } => old(self).after_slide(
                        anim.on_complete,
                        now,
                    ),
                },
                _ => *old(self),
            },
            old(self).consistent() ==> final(self).consistent(),
    {
        match self.animation {
            None => false,
            Some(anim) => {
                if !finished {
                    return true;
                }
                self.apply_slide_complete(anim.on_complete, now);
                if let AnimComplete::Dock(_) = anim.on_complete {
                    self.last_pos = Some((anim.to_x, anim.to_y));
                    self.last_move_at = Some(now);
                }
                true
            },
        }
    }

    // -----------------------------------------------------------------------------------------
    // Watching the window
    // -----------------------------------------------------------------------------------------

    /// What a look at the window leads to, before its place is known.
    pub fn tick_gate(&self, window: WindowFacts) -> (r: Gate)
        ensures
            r == (if !window.enabled {
                if self.docked is Some || self.animation is Some {
                    Gate::Restore
                } else {
                    Gate::Rest
                }
            } else if !window.visible || window.minimized {
                Gate::Rest
            } else if window.maximized {
                if self.docked is Some {
                    Gate::Restore
                } else {
                    Gate::Rest
                }
            } else {
                Gate::Track
            }),
    {
        if !window.enabled {
            if self.blocks_work_area_clamp() {
                return Gate::Restore;
            }
            return Gate::Rest;
        }
        if !window.visible || window.minimized {
            return Gate::Rest;
        }
        if window.maximized {
            if self.docked.is_some() {
                return Gate::Restore;
            }
            return Gate::Rest;
        }
        Gate::Track
    }

    /// How long the cursor has rested on the strip at `now`.
    pub open spec fn hovered_for(self, now: u64) -> int {
        match self.hover_since {
            Some(start) if start <= now => now - start,
            _ => 0,
        }
    }

    /// Whether the window has stood still long enough at `now`.
    pub open spec fn settled(self, now: u64) -> bool {
        self.last_move_at matches Some(t) && t <= now && now - t >= STABLE_BEFORE_SNAP
    }

    /// A look at a window that hides: whether the cursor has rested on the strip long enough.
    fn watch_strip(
        &mut self,
        snap: DockSnapshot,
        window: Placement,
        work: Rect,
        cursor: (i32, i32),
        now: u64,
    ) -> (r: EdgeStep)
        requires
            old(self).docked == Some(snap),
        ensures
            ({
                let on_strip = in_dock_hotzone(snap.edge, window, work, cursor);
                let since = if old(self).hover_since is Some {
                    old(self).hover_since
                } else {
                    Some(now)
                };
                let leave = on_strip && old(self).hovered_for(now) >= HOVER_DELAY;
                &&& *final(self) == (if leave {
                    EdgeAutoHide { docked: None, hover_since: None, ..*old(self) }
                } else if on_strip {
                    EdgeAutoHide { hover_since: since, ..*old(self) }
                } else {
                    EdgeAutoHide { hover_since: None, ..*old(self) }
                })
                &&& r == (if leave {
                    EdgeStep::Undock(snap)
                } else {
                    EdgeStep::Rest
                })
            }),
    {
        if cursor_in_dock_hotzone(snap.edge, window, work, cursor) {
            let start = match self.hover_since {
                Some(t) => t,
                None => now,
            };
            self.hover_since = Some(start);
            if now.saturating_sub(start) >= HOVER_DELAY {
                self.docked = None;
                self.hover_since = None;
                return EdgeStep::Undock(snap);
            }
        } else {
            self.hover_since = None;
        }
        EdgeStep::Rest
    }

    /// A look at a window that stands at `window`, with the cursor at `cursor`. One that hides
    /// leaves its edge once the cursor has rested on the strip for long enough. One that does
    /// not, that the cursor is off, and that has stood still for long enough near an edge begins
    /// to slide into hiding there.
    pub fn tick(&mut self, window: Placement, work: Rect, cursor: (i32, i32), now: u64) -> (r:
        EdgeStep)
        requires
            old(self).docked is None ==> {
                &&& fits_i32(window.x + window.width)
                &&& fits_i32(window.y + window.height)
                &&& fits_i32(work.left + SNAP_THRESHOLD_PX)
                &&& fits_i32(work.right - SNAP_THRESHOLD_PX)
                &&& fits_i32(work.top + SNAP_THRESHOLD_PX)
                &&& snap_edge(window, work) == Some(DockEdge::Left) ==> fits_i32(
                    work.left - window.width,
                ) && fits_i32(work.left - window.width + VISIBLE_STRIP_PX)
                &&& snap_edge(window, work) == Some(DockEdge::Top) ==> fits_i32(
                    work.top - window.height,
                ) && fits_i32(work.top - window.height + VISIBLE_STRIP_PX)
            },
        ensures
            old(self).consistent() && old(self).animation is None ==> final(self).consistent(),
            match old(self).docked {
                Some(snap) => {
                    let on_strip = in_dock_hotzone(snap.edge, window, work, cursor);
                    let since = if old(self).hover_since is Some {
                        old(self).hover_since
                    } else {
                        Some(now)
                    };
                    let leave = on_strip && old(self).hovered_for(now) >= HOVER_DELAY;
                    &&& *final(self) == (if leave {
                        EdgeAutoHide { docked: None, hover_since: None, ..*old(self) }
                    } else if on_strip {
                        EdgeAutoHide { hover_since: since, ..*old(self) }
                    } else {
                        EdgeAutoHide { hover_since: None, ..*old(self) }
                    })
                    &&& r == (if leave {
                        EdgeStep::Undock(snap)
                    } else {
                        EdgeStep::Rest
                    })
                },
                None => {
                    let here = (window.x, window.y);
                    let seen = EdgeAutoHide { hover_since: None, ..*old(self) };
                    let moved = over_window(window, cursor) || old(self).last_pos != Some(here);
                    let edge = snap_edge(window, work);
                    if moved {
                        &&& r == EdgeStep::Rest
                        &&& *final(self) == (EdgeAutoHide {
                            last_pos: Some(here),
                            last_move_at: Some(now),
                            ..seen
                        })
                    } else if old(self).settled(now) && edge is Some {
                        let snap = DockSnapshot {
                            edge: edge->0,
                            restored_x: window.x,
                            restored_y: window.y,
                        };
                        let hidden = hidden_position(edge->0, window, work);
                        &&& r matches EdgeStep::Slide { x, y }
                        &&& *final(self) == seen.sliding(
                            here,
                            (hidden.0 as i32, hidden.1 as i32),
                            AnimComplete::Dock(snap),
                            now,
                        )
                        &&& (x, y) == here
                    } else {
                        &&& r == EdgeStep::Rest
                        &&& *final(self) == seen
                    }
                },
            },
    {
        if let Some(snap) = self.docked {
            return self.watch_strip(snap, window, work, cursor, now);
        }
        self.hover_since = None;
        let x = window.x;
        let y = window.y;
        if cursor_over_window(window, cursor) {
            self.last_pos = Some((x, y));
            self.last_move_at = Some(now);
            return EdgeStep::Rest;
        }
        let stayed = match self.last_pos {
            Some((px, py)) => px == x && py == y,
            None => false,
        };
        if !stayed {
            self.last_pos = Some((x, y));
            self.last_move_at = Some(now);
            return EdgeStep::Rest;
        }
        let stable = match self.last_move_at {
            Some(t) => now.saturating_sub(t) >= STABLE_BEFORE_SNAP,
            None => false,
        };
        if !stable {
            return EdgeStep::Rest;
        }
        match detect_snap_edge(window, work) {
            None => EdgeStep::Rest,
            Some(edge) => {
                let snap = DockSnapshot { edge, restored_x: x, restored_y: y };
                let (hx, hy) = hidden_position_for_edge(edge, window, work);
                self.start_slide_to((x, y), (hx, hy), AnimComplete::Dock(snap), now);
                EdgeStep::Slide { x, y }
            },
        }
    }

    /// Begins the slide of a window out of hiding, from where it stands to `to`.
    pub fn begin_undock(&mut self, window: Placement, to: (i32, i32), now: u64)
        ensures
            *final(self) == old(self).sliding(
                (window.x, window.y),
                to,
                AnimComplete::Undock { final_x: to.0, final_y: to.1 },
                now,
            ),
            old(self).docked is None ==> final(self).consistent(),
    {
        self.start_slide_to(
            (window.x, window.y),
            to,
            AnimComplete::Undock { final_x: to.0, final_y: to.1 },
            now,
        );
    }
}

/// What is known of a window apart from its place.
#[derive(Debug, Clone, Copy, PartialEq, Eq, Structural)]
pub struct WindowFacts {
    /// Whether the settings ask for windows to hide.
    pub enabled: bool,
    pub visible: bool,
    pub minimized: bool,
    pub maximized: bool,
}

/// What a look at the window leads to.
#[derive(Debug, Clone, Copy, PartialEq, Eq, Structural)]
pub enum Gate {
    /// Nothing.
    Rest,
    /// Show the window at once.
    Restore,
    /// See where it stands.
    Track,
}

/// What is to be done after a look at where the window stands.
#[derive(Debug, Clone, Copy, PartialEq, Eq, Structural)]
pub enum EdgeStep {
    /// Nothing.
    Rest,
    /// Find the place to which the window comes out of hiding, and begin the slide there.
    Undock(DockSnapshot),
    /// Put the window at the place where its slide begins.
    Slide { x: i32, y: i32 },
}

// ---------------------------------------------------------------------------------------------
// Places
// ---------------------------------------------------------------------------------------------

/// The edge at which a window hides: the one it is near, unless it is near both sides.
pub open spec fn snap_edge(window: Placement, work: Rect) -> Option<DockEdge> {
    let near_left = window.x <= work.left + SNAP_THRESHOLD_PX;
    let near_right = window.x + window.width >= work.right - SNAP_THRESHOLD_PX;
    let near_top = window.y <= work.top + SNAP_THRESHOLD_PX;
    if near_left && !near_right {
        Some(DockEdge::Left)
    } else if near_right && !near_left {
        Some(DockEdge::Right)
    } else if near_top && !near_left && !near_right {
        Some(DockEdge::Top)
    } else {
        None
    }
}

/// The edge at which the window hides.
pub fn detect_snap_edge(window: Placement, work: Rect) -> (r: Option<DockEdge>)
    requires
        fits_i32(window.x + window.width),
        fits_i32(work.left + SNAP_THRESHOLD_PX),
        fits_i32(work.right - SNAP_THRESHOLD_PX),
        fits_i32(work.top + SNAP_THRESHOLD_PX),
    ensures
        r == snap_edge(window, work),
{
    let near_left = window.x <= work.left + SNAP_THRESHOLD_PX;
    let near_right = window.x + window.width >= work.right - SNAP_THRESHOLD_PX;
    let near_top = window.y <= work.top + SNAP_THRESHOLD_PX;
    if near_left && !near_right {
        return Some(DockEdge::Left);
    }
    if near_right && !near_left {
        return Some(DockEdge::Right);
    }
    if near_top && !near_left && !near_right {
        return Some(DockEdge::Top);
    }
    None
}

/// Where a window comes out of hiding: at its edge, and along it as near as the area allows to
/// where it stood.
pub open spec fn expanded_position(
    snap: DockSnapshot,
    width: int,
    height: int,
    work: Rect,
) -> (int, int) {
    let end_x = saturated(work.right - width);
    let end_y = saturated(work.bottom - height);
    let along_x = clamped(
        snap.restored_x as int,
        work.left as int,
        larger(end_x, work.left as int),
    );
    let along_y = clamped(snap.restored_y as int, work.top as int, larger(end_y, work.top as int));
    match snap.edge {
        DockEdge::Left => (work.left as int, along_y),
        DockEdge::Right => (end_x, along_y),
        DockEdge::Top => (along_x, work.top as int),
    }
}

/// Where the window comes out of hiding.
pub fn expanded_position_for_edge(snap: DockSnapshot, width: i32, height: i32, work: Rect) -> (r: (
    i32,
    i32,
))
    ensures
        (r.0 as int, r.1 as int) == expanded_position(snap, width as int, height as int, work),
{
    let end_x = saturate_i32(work.right as i64 - width as i64);
    let end_y = saturate_i32(work.bottom as i64 - height as i64);
    let max_x = larger_i32(end_x, work.left);
    let max_y = larger_i32(end_y, work.top);
    match snap.edge {
        DockEdge::Left => (work.left, clamp_i32(snap.restored_y, work.top, max_y)),
        DockEdge::Right => (end_x, clamp_i32(snap.restored_y, work.top, max_y)),
        DockEdge::Top => (clamp_i32(snap.restored_x, work.left, max_x), work.top),
    }
}

/// The point of a window by which its monitor is found: its middle.
pub fn window_centre(window: Placement) -> (r: (i32, i32))
    requires
        window.width >= 0,
        window.height >= 0,
        fits_i32(window.x + window.width / 2),
        fits_i32(window.y + window.height / 2),
    ensures
        r.0 == window.x + window.width / 2,
        r.1 == window.y + window.height / 2,
{
    (window.x + window.width / 2, window.y + window.height / 2)
}

/// Where a window comes out of hiding, once more held in the area of the monitor that it comes
/// out on.
pub fn expanded_and_clamped(expanded: (i32, i32), width: i32, height: i32, work: Rect) -> (r: (
    i32,
    i32,
))
    requires
        fits_i32(work.right - work.left),
        fits_i32(work.bottom - work.top),
        width < larger(work.right - work.left, 1) ==> fits_i32(work.right - width),
        height < larger(work.bottom - work.top, 1) ==> fits_i32(work.bottom - height),
    ensures
        (r.0 as int, r.1 as int) == clamped_top_left(
            expanded.0 as int,
            expanded.1 as int,
            width as int,
            height as int,
            work,
        ),
{
    clamp_window_top_left_for_size(expanded.0, expanded.1, width, height, work)
}

/// Where a window stands while it hides.
pub open spec fn hidden_position(edge: DockEdge, window: Placement, work: Rect) -> (int, int) {
    match edge {
        DockEdge::Left => (work.left - window.width + VISIBLE_STRIP_PX, window.y as int),
        DockEdge::Right => (work.right - VISIBLE_STRIP_PX, window.y as int),
        DockEdge::Top => (window.x as int, work.top - window.height + VISIBLE_STRIP_PX),
    }
}

/// Where the window stands while it hides.
pub fn hidden_position_for_edge(edge: DockEdge, window: Placement, work: Rect) -> (r: (i32, i32))
    requires
        edge == DockEdge::Left ==> fits_i32(work.left - window.width) && fits_i32(
            work.left - window.width + VISIBLE_STRIP_PX,
        ),
        edge == DockEdge::Right ==> fits_i32(work.right - VISIBLE_STRIP_PX),
        edge == DockEdge::Top ==> fits_i32(work.top - window.height) && fits_i32(
            work.top - window.height + VISIBLE_STRIP_PX,
        ),
    ensures
        (r.0 as int, r.1 as int) == hidden_position(edge, window, work),
{
    match edge {
        DockEdge::Left => (work.left - window.width + VISIBLE_STRIP_PX, window.y),
        DockEdge::Right => (work.right - VISIBLE_STRIP_PX, window.y),
        DockEdge::Top => (window.x, work.top - window.height + VISIBLE_STRIP_PX),
    }
}

/// Whether the cursor is on the window.
pub open spec fn over_window(window: Placement, cursor: (i32, i32)) -> bool {
    &&& window.x <= cursor.0 < window.x + window.width
    &&& window.y <= cursor.1 < window.y + window.height
}

/// Whether the cursor is on the window.
pub fn cursor_over_window(window: Placement, cursor: (i32, i32)) -> (r: bool)
    requires
        cursor.0 >= window.x ==> fits_i32(window.x + window.width),
        over_columns(window, cursor.0) && cursor.1 >= window.y ==> fits_i32(
            window.y + window.height,
        ),
    ensures
        r == over_window(window, cursor),
{
    cursor.0 >= window.x && cursor.0 < window.x + window.width && cursor.1 >= window.y && cursor.1
        < window.y + window.height
}

/// Whether the column of pixels runs through the window.
pub open spec fn over_columns(window: Placement, x: i32) -> bool {
    window.x <= x < window.x + window.width
}

/// Whether the cursor counts as on the strip of a window that hides.
pub open spec fn in_dock_hotzone(
    edge: DockEdge,
    window: Placement,
    work: Rect,
    cursor: (i32, i32),
) -> bool {
    let (cx, cy) = cursor;
    let beside_y = saturated(window.y - HOTZONE_PAD_PX) <= cy <= saturated(
        saturated(window.y + window.height) + HOTZONE_PAD_PX,
    );
    let beside_x = saturated(window.x - HOTZONE_PAD_PX) <= cx <= saturated(
        saturated(window.x + window.width) + HOTZONE_PAD_PX,
    );
    let depth = VISIBLE_STRIP_PX + HOTZONE_PAD_PX;
    match edge {
        DockEdge::Left => saturated(work.left - HOTZONE_PAD_PX) <= cx <= saturated(
            work.left + depth,
        ) && beside_y,
        DockEdge::Right => saturated(work.right - depth) <= cx <= saturated(
            work.right + HOTZONE_PAD_PX,
        ) && beside_y,
        DockEdge::Top => saturated(work.top - HOTZONE_PAD_PX) <= cy <= saturated(work.top + depth)
            && beside_x,
    }
}

fn padded_end(start: i32, length: i32) -> (r: i32)
    ensures
        r == saturated(saturated(start + length) + HOTZONE_PAD_PX),
{
    let end = saturate_i32(start as i64 + length as i64);
    saturate_i32(end as i64 + HOTZONE_PAD_PX as i64)
}

/// Whether the cursor counts as on the strip of a window that hides.
pub fn cursor_in_dock_hotzone(
    edge: DockEdge,
    window: Placement,
    work: Rect,
    cursor: (i32, i32),
) -> (r: bool)
    ensures
        r == in_dock_hotzone(edge, window, work, cursor),
{
    let (cx, cy) = cursor;
    let pad: i64 = HOTZONE_PAD_PX as i64;
    let depth: i64 = VISIBLE_STRIP_PX as i64 + HOTZONE_PAD_PX as i64;
    match edge {
        DockEdge::Left => {
            let x0 = saturate_i32(work.left as i64 - pad);
            let x1 = saturate_i32(work.left as i64 + depth);
            let y0 = saturate_i32(window.y as i64 - pad);
            let y1 = padded_end(window.y, window.height);
            cx >= x0 && cx <= x1 && cy >= y0 && cy <= y1
        },
        DockEdge::Right => {
            let x0 = saturate_i32(work.right as i64 - depth);
            let x1 = saturate_i32(work.right as i64 + pad);
            let y0 = saturate_i32(window.y as i64 - pad);
            let y1 = padded_end(window.y, window.height);
            cx >= x0 && cx <= x1 && cy >= y0 && cy <= y1
        },
        DockEdge::Top => {
            let x0 = saturate_i32(window.x as i64 - pad);
            let x1 = padded_end(window.x, window.width);
            let y0 = saturate_i32(work.top as i64 - pad);
            let y1 = saturate_i32(work.top as i64 + depth);
            cx >= x0 && cx <= x1 && cy >= y0 && cy <= y1
        },
    }
}

// ---------------------------------------------------------------------------------------------
// Laws
// ---------------------------------------------------------------------------------------------

/// A window that hides leaves a strip of the same width on the screen at every edge.
pub proof fn strip_stays_visible(edge: DockEdge, window: Placement, work: Rect)
    ensures
        ({
            let (x, y) = hidden_position(edge, window, work);
            match edge {
                DockEdge::Left => x + window.width - work.left == VISIBLE_STRIP_PX && y == window.y,
                DockEdge::Right => work.right - x == VISIBLE_STRIP_PX && y == window.y,
                DockEdge::Top => y + window.height - work.top == VISIBLE_STRIP_PX && x == window.x,
            }
        }),
{
}

/// A cursor on the visible strip of a window that hides counts as on the strip.
pub proof fn strip_lies_in_hotzone(
    edge: DockEdge,
    window: Placement,
    work: Rect,
    cursor: (i32, i32),
)
    requires
        (window.x as int, window.y as int) == hidden_position(edge, window, work),
        over_window(window, cursor),
        work.left <= cursor.0 < work.right,
        work.top <= cursor.1,
    ensures
        in_dock_hotzone(edge, window, work, cursor),
{
}

/// A window that comes out of hiding lies wholly in the area, if it fits there.
pub proof fn expanded_window_lies_inside(snap: DockSnapshot, width: int, height: int, work: Rect)
    requires
        work.proper(),
        0 < width <= work.right - work.left,
        0 < height <= work.bottom - work.top,
    ensures
        ({
            let (x, y) = expanded_position(snap, width, height, work);
            &&& work.left <= x && x + width <= work.right
            &&& work.top <= y && y + height <= work.bottom
        }),
{
}

/// A window that went into hiding at a side and comes out again keeps its height on the screen,
/// one that hid at the top keeps its place across, if it lay in the area before.
pub proof fn window_comes_back(window: Placement, edge: DockEdge, work: Rect)
    requires
        work.proper(),
        0 < window.width <= work.right - work.left,
        0 < window.height <= work.bottom - work.top,
        work.left <= window.x,
        window.x + window.width <= work.right,
        work.top <= window.y,
        window.y + window.height <= work.bottom,
    ensures
        ({
            let snap = DockSnapshot { edge, restored_x: window.x, restored_y: window.y };
            let (x, y) = expanded_position(snap, window.width as int, window.height as int, work);
            match edge {
                DockEdge::Left => x == work.left && y == window.y,
                DockEdge::Right => x + window.width == work.right && y == window.y,
                DockEdge::Top => x == window.x && y == work.top,
            }
        }),
{
}

} // verus!
