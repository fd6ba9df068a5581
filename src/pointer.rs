//! Pointer buttons.
use vstd::prelude::*;

verus! {

/// Code of the left button; the right and middle buttons follow it.
pub const BUTTON_LEFT: u32 = 0x110;

/// Mouse button
#[derive(Clone, Copy, Debug, PartialEq, Eq, Structural)]
pub enum MouseButton {
    /// Left mouse button
    Left,
    /// Right mouse button
    Right,
    /// Middle mouse button
    Middle,
    /// Other mouse button, by its offset from the left button (mod 256)
    Other(u8),
}

/// The button that protocol button code `button` stands for.
pub open spec fn button_of(button: u32) -> MouseButton {
    let i = button.wrapping_sub(BUTTON_LEFT);
    if i == 0 {
        MouseButton::Left
    } else if i == 1 {
        MouseButton::Right
    } else if i == 2 {
        MouseButton::Middle
    } else {
        MouseButton::Other(i as u8)
    }
}

impl From<u32> for MouseButton {
    fn from(button: u32) -> (r: MouseButton)
        ensures
            r == button_of(button),
    {
        let i = button.wrapping_sub(BUTTON_LEFT);
        if i == 0 {
            MouseButton::Left
        } else if i == 1 {
            MouseButton::Right
        } else if i == 2 {
            MouseButton::Middle
        } else {
            MouseButton::Other(i as u8)
        }
    }
}

impl vstd::std_specs::convert::FromSpecImpl<u32> for MouseButton {
    open spec fn obeys_from_spec() -> bool {
        true
    }

    open spec fn from_spec(button: u32) -> MouseButton {
        button_of(button)
    }
}

} // verus!
