//! Decisions about the window as the system sees it: where it may stand, its frame, its opacity
//! and whether it starts with the system.

use vstd::prelude::*;

use crate::numbers::{fits_i32, larger, larger_i32, saturate_i32, saturated, smaller, smaller_i32};

verus! {

/// A rectangle of the screen in physical pixels: the right and bottom edges are not part of it.
#[derive(Debug, Clone, Copy, PartialEq, Eq, Structural)]
pub struct Rect {
    pub left: i32,
    pub top: i32,
    pub right: i32,
    pub bottom: i32,
}

impl Rect {
    /// Whether the rectangle has its edges in order, and a width and height that fit in 32 bits.
    pub open spec fn proper(self) -> bool {
        &&& self.left <= self.right
        &&& self.top <= self.bottom
        &&& fits_i32(self.right - self.left)
        &&& fits_i32(self.bottom - self.top)
    }
}

// ---------------------------------------------------------------------------------------------
// Frame, opacity and start
// ---------------------------------------------------------------------------------------------

/// The colour of the frame under a colour scheme, the byte of blue first.
pub open spec fn frame_color(skin_index: int) -> int {
    if skin_index == 1 {
        0xfbf7f5
    } else if skin_index == 2 {
        0x24303a
    } else if skin_index == 3 {
        0x38242e
    } else {
        0x18100b
    }
}

/// The colour of the frame under a colour scheme, the byte of blue first.
pub fn frame_border_colorref(skin_index: i32) -> (r: u32)
    ensures
        r == frame_color(skin_index as int),
{
    match skin_index {
        1 => 0x00fbf7f5,
        2 => 0x0024303a,
        3 => 0x0038242e,
        _ => 0x0018100b,
    }
}

/// The style of a window that is drawn with an opacity of its own.
pub const LAYERED: u32 = 0x80000;

/// What is to be done to give a window an opacity.
#[derive(Debug, Clone, Copy, PartialEq, Eq, Structural)]
pub struct OpacityPlan {
    /// The style to set, where it must change.
    pub style: Option<u32>,
    /// The opacity to set, from 0 to 255.
    pub alpha: Option<u8>,
}

/// The opacity of a window, kept within what is allowed.
pub open spec fn allowed_percent(percent: int) -> int {
    crate::numbers::clamped(percent, 50, 100)
}

/// What is to be done to give a window of the given style an opacity in percent, taken as at
/// least 50 and at most 100. An opaque window is not drawn with an opacity of its own.
pub fn apply_window_opacity(style: u32, percent: u8) -> (r: OpacityPlan)
    ensures
        percent >= 100 ==> r.alpha is None && r.style == (if style & LAYERED != 0 {
            Some(style & !LAYERED)
        } else {
            None
        }),
        percent < 100 ==> {
            &&& r.alpha matches Some(a) && a == allowed_percent(percent as int) * 255 / 100
            &&& r.style == (if style & LAYERED == 0 {
                Some(style | LAYERED)
            } else {
                None
            })
        },
{
    let pct: u8 = if percent < 50 {
        50
    } else if percent > 100 {
        100
    } else {
        percent
    };
    if pct >= 100 {
        let style = if style & LAYERED != 0 {
            Some(style & !LAYERED)
        } else {
            None
        };
        OpacityPlan { style, alpha: None }
    } else {
        let style = if style & LAYERED == 0 {
            Some(style | LAYERED)
        } else {
            None
        };
        let alpha: u32 = (pct as u32 * 255) / 100;
        OpacityPlan { style, alpha: Some(alpha as u8) }
    }
}

/// What is to be done with the entry that starts the launcher with the system.
#[derive(Debug)]
pub enum AutoStartChange {
    /// Write the program's path into the entry.
    Write(String),
    /// Remove the entry.
    Remove,
}

/// What is to be done so that the program at `exe` starts with the system, or no longer does.
pub fn set_auto_start(enabled: bool, exe: &str) -> (r: AutoStartChange)
    ensures
        enabled ==> r is Write && r->0@ == exe@,
        !enabled ==> r is Remove,
{
    if enabled {
        AutoStartChange::Write(exe.to_owned())
    } else {
        AutoStartChange::Remove
    }
}

// ---------------------------------------------------------------------------------------------
// Where the window may stand
// ---------------------------------------------------------------------------------------------

/// The area in which windows may stand, given what the system reports of the monitor, and else
/// the place and size of the whole screen.
pub fn monitor_work_area_at_point(
    reported: Option<Rect>,
    screen_x: i32,
    screen_y: i32,
    screen_width: i32,
    screen_height: i32,
) -> (r: Rect)
    ensures
        match reported {
            Some(area) => r == area,
            None => {
                &&& r.left == screen_x
                &&& r.top == screen_y
                &&& r.right == saturated(screen_x + screen_width)
                &&& r.bottom == saturated(screen_y + screen_height)
            },
        },
{
    match reported {
        Some(area) => area,
        None => Rect {
            left: screen_x,
            top: screen_y,
            right: saturate_i32(screen_x as i64 + screen_width as i64),
            bottom: saturate_i32(screen_y as i64 + screen_height as i64),
        },
    }
}

/// Where a stretch of `length` that would start at `at` starts so that it lies between `lo` and
/// `hi`. One that is too long starts at `lo`.
pub open spec fn held_between(at: int, length: int, lo: int, hi: int) -> int {
    if length >= larger(hi - lo, 1) {
        lo
    } else {
        smaller(larger(at, lo), hi - length)
    }
}

fn hold_between(at: i32, length: i32, lo: i32, hi: i32) -> (r: i32)
    requires
        fits_i32(hi - lo),
        length < larger(hi - lo, 1) ==> fits_i32(hi - length),
    ensures
        r == held_between(at as int, length as int, lo as int, hi as int),
{
    let room = larger_i32(hi - lo, 1);
    if length >= room {
        lo
    } else {
        smaller_i32(larger_i32(at, lo), hi - length)
    }
}

/// Where a window that would stand at `x`, `y` is put so that it lies in the area.
pub open spec fn clamped_top_left(x: int, y: int, width: int, height: int, work: Rect) -> (int, int) {
    (
        held_between(x, width, work.left as int, work.right as int),
        held_between(y, height, work.top as int, work.bottom as int),
    )
}

/// Where a window that would stand at `x`, `y` is put so that it lies in the area.
pub fn clamp_window_top_left_for_size(
    x: i32,
    y: i32,
    width_px: i32,
    height_px: i32,
    work: Rect,
) -> (r: (i32, i32))
    requires
        fits_i32(work.right - work.left),
        fits_i32(work.bottom - work.top),
        width_px < larger(work.right - work.left, 1) ==> fits_i32(work.right - width_px),
        height_px < larger(work.bottom - work.top, 1) ==> fits_i32(work.bottom - height_px),
    ensures
        (r.0 as int, r.1 as int) == clamped_top_left(
            x as int,
            y as int,
            width_px as int,
            height_px as int,
            work,
        ),
{
    (
        hold_between(x, width_px, work.left, work.right),
        hold_between(y, height_px, work.top, work.bottom),
    )
}

/// A window that fits in the area is put wholly inside it, and stays where it is if it lies
/// inside already.
pub proof fn clamped_window_lies_inside(x: int, y: int, width: int, height: int, work: Rect)
    requires
        work.proper(),
        0 < width <= work.right - work.left,
        0 < height <= work.bottom - work.top,
    ensures
        ({
            let (nx, ny) = clamped_top_left(x, y, width, height, work);
            &&& work.left <= nx && nx + width <= work.right
            &&& work.top <= ny && ny + height <= work.bottom
        }),
        work.left <= x && x + width <= work.right && work.top <= y && y + height <= work.bottom
            ==> clamped_top_left(x, y, width, height, work) == (x, y),
{
}

/// A window that was put in its place stays there.
pub proof fn clamped_window_stays(x: int, y: int, width: int, height: int, work: Rect)
    requires
        work.proper(),
    ensures
        ({
            let (nx, ny) = clamped_top_left(x, y, width, height, work);
            clamped_top_left(nx, ny, width, height, work) == (nx, ny)
        }),
{
}

} // verus!
