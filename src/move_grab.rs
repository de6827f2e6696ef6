use crate::geometry::{dragged_location, dragged_spec, Fixed, Point};
use crate::window::Window;
use vstd::prelude::*;

verus! {

/// The button press that a grab starts from.
#[derive(Clone, Copy, Debug, PartialEq, Eq, Structural)]
pub struct GrabStartData {
    /// Serial of the press.
    pub serial: u32,
    /// Button code of the press.
    pub button: u32,
    /// Where the pointer was when the button went down.
    pub location: Fixed,
}

/// An interactive move: the window follows the pointer until every button is
/// released.
#[derive(Clone, Copy, Debug, PartialEq, Eq, Structural)]
pub struct MoveSurfaceGrab {
    pub start_data: GrabStartData,
    /// Surface of the window being moved.
    pub window: u64,
    /// Where the window was when the grab began.
    pub initial_window_location: Point,
}

/// `ws` with every window that wraps `surface` put at `to`.
pub open spec fn relocated(ws: Seq<Window>, surface: u64, to: Point) -> Seq<Window> {
    Seq::new(
        ws.len(),
        |i: int|
            if ws[i].surface == surface {
                Window { location: to, ..ws[i] }
            } else {
                ws[i]
            },
    )
}

impl MoveSurfaceGrab {
    /// Where the grabbed window goes for a pointer at `location`.
    pub open spec fn target_spec(&self, location: Fixed) -> Point {
        dragged_spec(self.initial_window_location, self.start_data.location, location)
    }

    pub fn start_data(&self) -> (r: GrabStartData)
        ensures
            r == self.start_data,
    {
        self.start_data
    }

    /// Pointer motion under the grab: the window is put where the drag has
    /// taken it, at once. The result is the focus the motion is delivered
    /// with, which is none, so the dragged client does not see its own hover.
    pub fn motion(&self, windows: &mut Vec<Window>, location: Fixed) -> (r: Option<u64>)
        ensures
            r is None,
            final(windows)@ == relocated(old(windows)@, self.window, self.target_spec(location)),
    {
        let to = dragged_location(self.initial_window_location, self.start_data.location, location);
        let ghost before = windows@;
        let mut i: usize = 0;
        while i < windows.len()
            invariant
                windows@.len() == before.len(),
                i <= before.len(),
                forall|j: int| 0 <= j < i ==> windows@[j] == relocated(before, self.window, to)[j],
                forall|j: int| i <= j < before.len() ==> windows@[j] == before[j],
            decreases before.len() - i,
        {
            if windows[i].surface == self.window {
                let mut w = windows[i];
                w.location = to;
                windows.set(i, w);
            }
            i = i + 1;
        }
        assert(windows@ =~= relocated(before, self.window, to));
        None
    }

    /// Button event under the grab, after it has been delivered: whether the
    /// grab ends, which it does once no button is held.
    pub fn button(&self, pressed: &Vec<u32>) -> (r: bool)
        ensures
            r == (pressed@.len() == 0),
    {
        pressed.len() == 0
    }
}

} // verus!
