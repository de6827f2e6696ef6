use crate::geometry::Fixed;
use crate::move_grab::{GrabStartData, MoveSurfaceGrab};
use vstd::prelude::*;

verus! {

/// The one keyboard and pointer of the compositor, with their focus.
#[derive(Clone, Debug)]
pub struct Seat {
    /// Where the pointer is.
    pub pointer_location: Fixed,
    /// Surface that receives pointer events.
    pub pointer_focus: Option<u64>,
    /// Surface that receives keyboard events.
    pub keyboard_focus: Option<u64>,
    /// Client that owns the clipboard and drag-and-drop offers.
    pub selection_owner: Option<u64>,
    /// Buttons held down, each once.
    pub pressed: Vec<u32>,
    /// The latest button press, which a grab may start from.
    pub last_press: Option<GrabStartData>,
    /// The grab that owns the pointer, if any.
    pub active_grab: Option<MoveSurfaceGrab>,
}

impl Seat {
    pub open spec fn wf(&self) -> bool {
        &&& self.pressed@.no_duplicates()
        &&& self.active_grab is Some ==> self.pressed@.len() > 0
    }

    /// A seat with the pointer at the origin, no focus, no button held and
    /// no grab.
    pub fn new() -> (r: Seat)
        ensures
            r.wf(),
            r.pointer_location == (Fixed { x: 0, y: 0 }),
            r.pointer_focus is None,
            r.keyboard_focus is None,
            r.selection_owner is None,
            r.pressed@.len() == 0,
            r.last_press is None,
            r.active_grab is None,
    {
        Seat {
            pointer_location: Fixed { x: 0, y: 0 },
            pointer_focus: None,
            keyboard_focus: None,
            selection_owner: None,
            pressed: Vec::new(),
            last_press: None,
            active_grab: None,
        }
    }
}

} // verus!
