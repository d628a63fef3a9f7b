//! Persistent lifecycle state for a citizen widget.

use egui_mobius_reactive::Dynamic;
use vstd::prelude::*;

verus! {

/// Tracks the lifecycle state of a single citizen across frames.
///
/// Each field is a reactive `Dynamic<T>`: clones of a `CitizenState` share
/// the same cells, so a change made through one clone (by the dispatcher, a
/// panel or a thread) is seen through every other clone.
pub struct CitizenState {
    /// Whether this citizen is the "active" one in its group (e.g. selected tab).
    pub active: Dynamic<bool>,
    /// True during the frame the citizen was clicked.
    pub clicked: Dynamic<bool>,
    /// Persistent selection state (toggle on/off).
    pub selected: Dynamic<bool>,
    /// True if the citizen has been moved (e.g. docked to a new location).
    pub moved: Dynamic<bool>,
    /// Current position in the UI, if applicable: the IEEE-754 bit patterns of
    /// the x and y coordinates (`f32::to_bits`); `[0, 0]` is the origin.
    pub location: Dynamic<[u32; 2]>,
    /// Whether the citizen is currently visible / rendered.
    pub visible: Dynamic<bool>,
}

impl CitizenState {
    /// Fresh cells: every flag false, location at the origin.
    pub fn new() -> Self {
        CitizenState {
            active: Dynamic::new(false),
            clicked: Dynamic::new(false),
            selected: Dynamic::new(false),
            moved: Dynamic::new(false),
            location: Dynamic::new([0u32, 0u32]),
            visible: Dynamic::new(false),
        }
    }
}

impl Clone for CitizenState {
    /// A second handle on the same six cells.
    fn clone(&self) -> (result: Self)
        ensures
            result == *self,
    {
        CitizenState {
            active: self.active.clone(),
            clicked: self.clicked.clone(),
            selected: self.selected.clone(),
            moved: self.moved.clone(),
            location: self.location.clone(),
            visible: self.visible.clone(),
        }
    }
}

impl Default for CitizenState {
    fn default() -> Self {
        Self::new()
    }
}

} // verus!
