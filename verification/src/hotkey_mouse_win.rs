//! Watching the mouse for the hotkey: which button a message tells of, and whether it is the one
//! that the hotkey is bound to.

use vstd::prelude::*;

use crate::custom_hotkey::MouseButton;

verus! {

/// The message of a press of the middle button.
pub const MIDDLE_DOWN: u32 = 0x207;

/// The message of a press of a side button.
pub const SIDE_DOWN: u32 = 0x20B;

/// The button that a message tells of. Side buttons are numbered in the upper half of the data.
pub open spec fn pressed_button(msg: u32, mouse_data: u32) -> Option<MouseButton> {
    if msg == MIDDLE_DOWN {
        Some(MouseButton::Middle)
    } else if msg == SIDE_DOWN && mouse_data / 0x10000 == 1 {
        Some(MouseButton::X1)
    } else if msg == SIDE_DOWN && mouse_data / 0x10000 == 2 {
        Some(MouseButton::X2)
    } else {
        None
    }
}

/// The button that the message tells of.
pub fn msg_to_button(msg: u32, mouse_data: u32) -> (r: Option<MouseButton>)
    ensures
        r == pressed_button(msg, mouse_data),
{
    if msg == MIDDLE_DOWN {
        return Some(MouseButton::Middle);
    }
    if msg != SIDE_DOWN {
        return None;
    }
    assert(mouse_data >> 16u32 == mouse_data / 0x10000) by (bit_vector);
    let number = mouse_data >> 16u32;
    if number == 1 {
        Some(MouseButton::X1)
    } else if number == 2 {
        Some(MouseButton::X2)
    } else {
        None
    }
}

/// How the mouse is watched: for which button, whether the system calls, and whether calls are
/// ignored for now.
#[derive(Debug, Clone, Copy, PartialEq, Eq, Structural)]
pub struct MouseWatch {
    pub binding: Option<MouseButton>,
    pub hooked: bool,
    pub suppressed: bool,
}

impl MouseWatch {
    /// The mouse is not watched.
    pub fn new() -> (r: Self)
        ensures
            r == (MouseWatch { binding: None, hooked: false, suppressed: false }),
    {
        MouseWatch { binding: None, hooked: false, suppressed: false }
    }

    /// Ignores calls, or no longer does. While a hotkey is recorded, a press must not trigger it.
    pub fn set_suppress(&mut self, suppress: bool)
        ensures
            *final(self) == (MouseWatch { suppressed: suppress, ..*old(self) }),
    {
        self.suppressed = suppress;
    }

    /// Watches for no button. Tells whether the system must be asked to call no more.
    pub fn uninstall(&mut self) -> (r: bool)
        ensures
            r == old(self).hooked,
            *final(self) == (MouseWatch { binding: None, hooked: false, ..*old(self) }),
    {
        let was = self.hooked;
        self.binding = None;
        self.hooked = false;
        was
    }

    /// Watches for the button. Tells whether the system must first be asked to call no more;
    /// then it must be asked to call.
    pub fn install(&mut self, btn: MouseButton) -> (r: bool)
        ensures
            r == old(self).hooked,
            *final(self) == (MouseWatch { binding: Some(btn), hooked: false, ..*old(self) }),
    {
        let was = self.uninstall();
        self.binding = Some(btn);
        was
    }

    /// The system calls from now on.
    pub fn hook_set(&mut self)
        ensures
            *final(self) == (MouseWatch { hooked: true, ..*old(self) }),
    {
        self.hooked = true;
    }

    /// Whether a call triggers the hotkey: it is an event, calls are not ignored, and the button
    /// is the one watched for.
    pub fn triggers(&self, is_event: bool, msg: u32, mouse_data: u32) -> (r: bool)
        ensures
            r == (is_event && !self.suppressed && self.binding is Some && pressed_button(
                msg,
                mouse_data,
            ) == self.binding),
    {
        if !is_event || self.suppressed {
            return false;
        }
        match (self.binding, msg_to_button(msg, mouse_data)) {
            (Some(expected), Some(pressed)) => expected == pressed,
            _ => false,
        }
    }
}

} // verus!
