//! The display the window currently sits on.

use vstd::prelude::*;

verus! {

/// Holds the current display's id; unset before the first update or where the
/// platform gives none.
pub struct DisplayTracker {
    screen_id: Option<u32>,
}

impl View for DisplayTracker {
    type V = Option<u32>;

    closed spec fn view(&self) -> Option<u32> {
        self.screen_id
    }
}

impl DisplayTracker {
    /// A tracker with no display id.
    pub fn new() -> (r: Self)
        ensures
            r@ is None,
    {
        DisplayTracker { screen_id: None }
    }

    /// The current display id.
    pub fn current_display_id(&self) -> (r: Option<u32>)
        ensures
            r == self@,
    {
        self.screen_id
    }

    /// Records the display id; `None` unsets it.
    pub fn update_display_id(&mut self, id: Option<u32>)
        ensures
            final(self)@ == id,
    {
        self.screen_id = id;
    }
}

} // verus!
