//! The window-mode state the window wrapper switches on. Creating windows,
//! talking to the display server and measuring frame time happen outside
//! the store; only the mode and its switch are plain data.

use vstd::prelude::*;

verus! {

/// Whether the game window covers the screen or sits in a frame.
#[allow(non_camel_case_types)]
#[derive(Clone, Copy, Debug, PartialEq, Eq, Structural)]
pub enum WindowMode {
    FULLSCREEN,
    WINDOWED,
}

/// The mode the fullscreen switch moves to: always the other one.
pub fn toggle_window_mode(mode: WindowMode) -> (r: WindowMode)
    ensures
        mode is FULLSCREEN ==> r is WINDOWED,
        mode is WINDOWED ==> r is FULLSCREEN,
{
    match mode {
        WindowMode::FULLSCREEN => WindowMode::WINDOWED,
        WindowMode::WINDOWED => WindowMode::FULLSCREEN,
    }
}

} // verus!
