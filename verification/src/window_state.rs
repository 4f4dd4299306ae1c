//! The position of the launcher's window, kept between runs.

use vstd::prelude::*;

verus! {

/// The position of the launcher's window, kept between runs.
#[derive(Clone, Copy, Debug)]
pub struct WindowState {
    pub x: i32,
    pub y: i32,
    pub has_position: bool,
}

impl Default for WindowState {
    fn default() -> (r: Self)
        ensures
            r.x == 0,
            r.y == 0,
            !r.has_position,
    {
        WindowState { x: 0, y: 0, has_position: false }
    }
}

/// Where a kept state puts the window: its position when it has one.
pub open spec fn restored(s: WindowState) -> Option<(i32, i32)> {
    if s.has_position {
        Some((s.x, s.y))
    } else {
        None
    }
}

/// The state kept after the window was placed at (x, y).
pub open spec fn placed(x: i32, y: i32) -> WindowState {
    WindowState { x, y, has_position: true }
}

/// The window opens where it was last placed; a state never placed opens
/// it centred.
pub proof fn lemma_restore_placed(x: i32, y: i32)
    ensures
        restored(placed(x, y)) == Some((x, y)),
        restored(WindowState { x: 0, y: 0, has_position: false }) is None,
{
}

impl WindowState {
    /// The state after the window was placed at (x, y).
    pub fn at(x: i32, y: i32) -> (r: Self)
        ensures
            r == placed(x, y),
    {
        WindowState { x, y, has_position: true }
    }

    /// Where to put the window when it opens: the kept position, or none
    /// (the window is centred).
    pub fn restore_position(&self) -> (r: Option<(i32, i32)>)
        ensures
            r == restored(*self),
    {
        if self.has_position {
            Some((self.x, self.y))
        } else {
            None
        }
    }
}

} // verus!
