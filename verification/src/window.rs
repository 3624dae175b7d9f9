//! Decisions about the windows: where they stand, when they are shown, hidden, maximized or
//! dismissed, and when memory is given back.

use vstd::prelude::*;

use crate::models::WindowGeometry;
use crate::numbers::{clamp_i32, clamped, fits_i32, larger, larger_i32};
use crate::win_extra::{clamp_window_top_left_for_size, clamped_top_left, Rect};

verus! {

// ---------------------------------------------------------------------------------------------
// Places
// ---------------------------------------------------------------------------------------------

/// A monitor: its place and size.
#[derive(Debug, Clone, Copy, PartialEq, Eq, Structural)]
pub struct Monitor {
    pub x: i32,
    pub y: i32,
    pub width: i32,
    pub height: i32,
}

/// Whether the window of the size can be held in the area without numbers running over.
pub open spec fn can_hold(work: Rect, width: int, height: int) -> bool {
    &&& fits_i32(work.right - work.left)
    &&& fits_i32(work.bottom - work.top)
    &&& width < larger(work.right - work.left, 1) ==> fits_i32(work.right - width)
    &&& height < larger(work.bottom - work.top, 1) ==> fits_i32(work.bottom - height)
}

/// Where the main window is put: in the work area, and then on the monitor it is on.
pub open spec fn main_window_place(
    x: int,
    y: int,
    width: int,
    height: int,
    work: Rect,
    monitor: Option<Monitor>,
) -> (int, int) {
    let (wx, wy) = clamped_top_left(x, y, width, height, work);
    match monitor {
        Some(m) if m.width > 0 && m.height > 0 => (
            clamped(wx, m.x as int, larger(m.x + m.width - width, m.x as int)),
            clamped(wy, m.y as int, larger(m.y + m.height - height, m.y as int)),
        ),
        _ => (wx, wy),
    }
}

/// Where the main window is to be put so that it is on the screen; none where it stands there or
/// has no size, or where it must not be moved.
pub fn clamp_main_window(
    window: crate::edge_auto_hide::Placement,
    work: Rect,
    monitor: Option<Monitor>,
    blocked: bool,
) -> (r: Option<(i32, i32)>)
    requires
        !blocked && window.width > 0 && window.height > 0 ==> {
            &&& can_hold(work, window.width as int, window.height as int)
            &&& monitor matches Some(m) ==> (m.width > 0 && m.height > 0 ==> fits_i32(
                m.x + m.width,
            ) && fits_i32(m.y + m.height) && fits_i32(m.x + m.width - window.width) && fits_i32(
                m.y + m.height - window.height,
            ))
        },
    ensures
        if blocked || window.width <= 0 || window.height <= 0 {
            r is None
        } else {
            let (nx, ny) = main_window_place(
                window.x as int,
                window.y as int,
                window.width as int,
                window.height as int,
                work,
                monitor,
            );
            match r {
                Some(p) => (p.0 as int, p.1 as int) == (nx, ny) && (nx != window.x || ny
                    != window.y),
                None => nx == window.x && ny == window.y,
            }
        },
{
    if blocked {
        return None;
    }
    let w = window.width;
    let h = window.height;
    if w <= 0 || h <= 0 {
        return None;
    }
    let (mut nx, mut ny) = clamp_window_top_left_for_size(window.x, window.y, w, h, work);
    if let Some(m) = monitor {
        if m.width > 0 && m.height > 0 {
            let max_x: i32 = m.x + m.width - w;
            let max_y: i32 = m.y + m.height - h;
            nx = clamp_i32(nx, m.x, larger_i32(max_x, m.x));
            ny = clamp_i32(ny, m.y, larger_i32(max_y, m.y));
        }
    }
    if nx != window.x || ny != window.y {
        Some((nx, ny))
    } else {
        None
    }
}

/// The places tried for the settings window: with its upper left, lower left or lower right
/// corner at the cursor.
pub fn settings_popup_candidates(cx: i32, cy: i32, width: i32, height: i32) -> (r: (
    (i32, i32),
    (i32, i32),
    (i32, i32),
))
    requires
        fits_i32(cy - height),
        fits_i32(cx - width),
    ensures
        r == ((cx, cy), (cx, (cy - height) as i32), ((cx - width) as i32, (cy - height) as i32)),
{
    ((cx, cy), (cx, cy - height), (cx - width, cy - height))
}

/// Whether a window of the size stays where it is put.
pub open spec fn stays_at(p: (i32, i32), width: int, height: int, work: Rect) -> bool {
    clamped_top_left(p.0 as int, p.1 as int, width, height, work) == (p.0 as int, p.1 as int)
}

fn does_stay(p: (i32, i32), width: i32, height: i32, work: Rect) -> (r: bool)
    requires
        can_hold(work, width as int, height as int),
    ensures
        r == stays_at(p, width as int, height as int, work),
{
    let (nx, ny) = clamp_window_top_left_for_size(p.0, p.1, width, height, work);
    nx == p.0 && ny == p.1
}

/// Where the settings window is put: at the first of the places at which it lies in the work
/// area there, or else as near to the cursor as the area allows.
pub fn settings_popup_top_left_for_outer_size(
    cx: i32,
    cy: i32,
    width: i32,
    height: i32,
    works: (Rect, Rect, Rect),
) -> (r: (i32, i32))
    requires
        fits_i32(cy - height),
        fits_i32(cx - width),
        can_hold(works.0, width as int, height as int),
        can_hold(works.1, width as int, height as int),
        can_hold(works.2, width as int, height as int),
    ensures
        ({
            let w = width as int;
            let h = height as int;
            let second = (cx, (cy - height) as i32);
            let third = ((cx - width) as i32, (cy - height) as i32);
            if stays_at((cx, cy), w, h, works.0) {
                r == (cx, cy)
            } else if stays_at(second, w, h, works.1) {
                r == second
            } else if stays_at(third, w, h, works.2) {
                r == third
            } else {
                (r.0 as int, r.1 as int) == clamped_top_left(cx as int, cy as int, w, h, works.0)
            }
        }),
{
    let (first, second, third) = settings_popup_candidates(cx, cy, width, height);
    if does_stay(first, width, height, works.0) {
        return first;
    }
    if does_stay(second, width, height, works.1) {
        return second;
    }
    if does_stay(third, width, height, works.2) {
        return third;
    }
    clamp_window_top_left_for_size(cx, cy, width, height, works.0)
}

// ---------------------------------------------------------------------------------------------
// Maximizing
// ---------------------------------------------------------------------------------------------

/// Whether the main window was maximized, and where it stood before.
#[derive(Debug, Clone, Copy, PartialEq, Eq, Structural)]
pub struct MaximizeState {
    pub maximized: bool,
    pub restore: Option<WindowGeometry>,
}

/// What is done with the main window.
#[derive(Debug, Clone, Copy, PartialEq, Eq, Structural)]
pub enum MaximizeStep {
    /// Nothing: the system has restored it already.
    Sync,
    /// It is restored, and put where it stood, if that is known.
    Restore(Option<WindowGeometry>),
    /// It is maximized.
    Maximize,
}

/// Whether the geometry is that of a window with a size.
pub open spec fn has_size(g: WindowGeometry) -> bool {
    g.width > 0 && g.height > 0
}

/// What the user's wish to maximize or restore the window leads to, where the window stands at
/// `here` if that is known, and the system tells, where it can, whether it is maximized.
pub open spec fn toggled(
    state: MaximizeState,
    zoomed: Option<bool>,
    here: Option<WindowGeometry>,
) -> (MaximizeState, MaximizeStep) {
    if state.maximized && zoomed == Some(false) {
        (MaximizeState { maximized: false, ..state }, MaximizeStep::Sync)
    } else if state.maximized {
        (
            MaximizeState { maximized: false, restore: None },
            MaximizeStep::Restore(
                match state.restore {
                    Some(g) if has_size(g) => Some(g),
                    _ => None,
                },
            ),
        )
    } else {
        (
            MaximizeState {
                maximized: true,
                restore: match here {
                    Some(g) if has_size(g) => Some(g),
                    _ => state.restore,
                },
            },
            MaximizeStep::Maximize,
        )
    }
}

impl MaximizeState {
    /// Not maximized.
    pub fn new() -> (r: Self)
        ensures
            r == (MaximizeState { maximized: false, restore: None }),
    {
        MaximizeState { maximized: false, restore: None }
    }

    /// The user maximizes or restores the window. One that the system has restored meanwhile is
    /// only taken note of.
    pub fn toggle_main_window_maximized(
        &mut self,
        zoomed: Option<bool>,
        here: Option<WindowGeometry>,
    ) -> (r: MaximizeStep)
        ensures
            (*final(self), r) == toggled(*old(self), zoomed, here),
    {
        if self.maximized {
            if let Some(z) = zoomed {
                if !z {
                    self.maximized = false;
                    return MaximizeStep::Sync;
                }
            }
            let was = self.restore;
            self.restore = None;
            self.maximized = false;
            return match was {
                Some(g) => if g.width > 0 && g.height > 0 {
                    MaximizeStep::Restore(Some(g))
                } else {
                    MaximizeStep::Restore(None)
                },
                None => MaximizeStep::Restore(None),
            };
        }
        if let Some(g) = here {
            if g.width > 0 && g.height > 0 {
                self.restore = Some(g);
            }
        }
        self.maximized = true;
        MaximizeStep::Maximize
    }
}

/// A window that is maximized and then restored is put where it stood.
pub proof fn restored_window_comes_back(
    state: MaximizeState,
    here: WindowGeometry,
    first_zoomed: Option<bool>,
    then_zoomed: Option<bool>,
    then_here: Option<WindowGeometry>,
)
    requires
        !state.maximized,
        has_size(here),
        then_zoomed != Some(false),
    ensures
        ({
            let (between, _) = toggled(state, first_zoomed, Some(here));
            let (after, step) = toggled(between, then_zoomed, then_here);
            &&& step == MaximizeStep::Restore(Some(here))
            &&& !after.maximized
        }),
{
}

// ---------------------------------------------------------------------------------------------
// Showing, hiding and dismissing
// ---------------------------------------------------------------------------------------------

/// Whether a call of the hotkey or the tray hides the main window: it is visible, and not
/// minimized. Otherwise it is shown.
pub fn toggle_hides(visible: bool, minimized: bool) -> (r: bool)
    ensures
        r == (visible && !minimized),
{
    visible && !minimized
}

/// Whether memory is given back in passing: the main window is hidden or minimized.
pub fn reclaim_due(visible: bool, minimized: bool) -> (r: bool)
    ensures
        r == (!visible || minimized),
{
    !visible || minimized
}

/// What lies over the main window.
#[derive(Debug, Clone, Copy, PartialEq, Eq, Structural)]
pub struct Overlays {
    pub edit: bool,
    pub hotkey: bool,
    pub about: bool,
    pub delete_category: bool,
    pub category: bool,
    pub password: bool,
    pub menu: bool,
    pub category_menu: bool,
}

impl Overlays {
    /// Whether anything lies over the window.
    pub open spec fn any(self) -> bool {
        self.edit || self.hotkey || self.about || self.delete_category || self.category
            || self.password || self.menu || self.category_menu
    }

    /// Whether anything lies over the window.
    pub fn main_window_has_modal_overlay(self) -> (r: bool)
        ensures
            r == self.any(),
    {
        self.edit || self.hotkey || self.about || self.delete_category || self.category
            || self.password || self.menu || self.category_menu
    }
}

/// Whether the settings window is dismissed: it is visible, nothing lies over the main window,
/// and the main window has the focus.
pub fn dismiss_settings(settings_visible: bool, overlays: Overlays, main_focused: bool) -> (r: bool)
    ensures
        r == (settings_visible && !overlays.any() && main_focused),
{
    settings_visible && !overlays.main_window_has_modal_overlay() && main_focused
}

/// Whether the settings window is hidden when it loses the focus. While something lies over the
/// main window, it stays.
pub fn settings_blur_hides(settings_visible: bool, overlays: Option<Overlays>) -> (r: bool)
    ensures
        r == (settings_visible && !(overlays is Some && overlays->0.any())),
{
    match overlays {
        Some(o) => settings_visible && !o.main_window_has_modal_overlay(),
        None => settings_visible,
    }
}

/// Whether a change of scale is followed: only for the main window.
pub fn follows_scale(is_settings: bool, is_main: bool) -> (r: bool)
    ensures
        r == (!is_settings && is_main),
{
    !is_settings && is_main
}

/// Whether the main window stands above others once the settings change: not while the settings
/// window is open, which would be covered.
pub fn main_on_top(always_on_top: bool, settings_open: bool) -> (r: bool)
    ensures
        r == (always_on_top && !settings_open),
{
    always_on_top && !settings_open
}

// ---------------------------------------------------------------------------------------------
// Giving memory back
// ---------------------------------------------------------------------------------------------

/// How long must pass between two times, in milliseconds.
pub const TRIM_COOLDOWN_MS: u64 = 30_000;

/// When memory was last given back, and whether it was since the window was last shown.
#[derive(Debug, Clone, Copy, PartialEq, Eq, Structural)]
pub struct MemoryReclaim {
    pub last_trim_ms: u64,
    pub reclaimed: bool,
}

/// Whether memory is given back at `now`.
pub open spec fn trims(state: MemoryReclaim, now_ms: u64) -> bool {
    !state.reclaimed && now_ms - state.last_trim_ms >= TRIM_COOLDOWN_MS
}

impl MemoryReclaim {
    /// Never yet.
    pub fn new() -> (r: Self)
        ensures
            r == (MemoryReclaim { last_trim_ms: 0, reclaimed: false }),
    {
        MemoryReclaim { last_trim_ms: 0, reclaimed: false }
    }

    /// Whether memory is given back at `now`: not more than once while the window is hidden, and
    /// not too soon after the last time.
    pub fn maybe_trim_working_set_hidden(&mut self, now_ms: u64) -> (r: bool)
        ensures
            r == trims(*old(self), now_ms),
            *final(self) == (if r {
                MemoryReclaim { last_trim_ms: now_ms, reclaimed: true }
            } else {
                *old(self)
            }),
    {
        if self.reclaimed {
            return false;
        }
        if now_ms.saturating_sub(self.last_trim_ms) < TRIM_COOLDOWN_MS {
            return false;
        }
        self.last_trim_ms = now_ms;
        self.reclaimed = true;
        true
    }

    /// The window is shown: it may be given back when the window is next hidden.
    pub fn window_shown(&mut self)
        ensures
            *final(self) == (MemoryReclaim { reclaimed: false, ..*old(self) }),
    {
        self.reclaimed = false;
    }
}

/// Memory is given back once while the window is hidden: after it was, not again until the window
/// is shown.
pub proof fn reclaimed_once(state: MemoryReclaim, now_ms: u64)
    requires
        state.reclaimed,
    ensures
        !trims(state, now_ms),
{
}

} // verus!
