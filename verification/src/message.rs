//! Messages emitted by citizens when their lifecycle state changes.

use vstd::prelude::*;
use vstd::std_specs::convert::IntoSpec;

verus! {

/// A lifecycle event emitted by a citizen.
///
/// These are queued on the `Dispatcher`, which hands them to the application
/// for routing (Elm-style update loop).
#[derive(Debug)]
pub enum CitizenMessage {
    /// Citizen became the active member of its group.
    Activated { id: CitizenId },
    /// Citizen was deactivated (another in the group became active).
    Deactivated { id: CitizenId },
    /// Citizen was clicked this frame.
    Clicked { id: CitizenId },
    /// Citizen selection toggled.
    Selected { id: CitizenId, selected: bool },
    /// Citizen was moved to a new location. Each coordinate is carried as the
    /// IEEE-754 bit pattern of its `f32` value (`f32::to_bits`).
    Moved { id: CitizenId, location: [u32; 2] },
    /// Citizen visibility changed.
    VisibilityChanged { id: CitizenId, visible: bool },
}

impl CitizenMessage {
    /// The citizen the message is about.
    pub open spec fn subject(self) -> CitizenId {
        match self {
            CitizenMessage::Activated { id } => id,
            CitizenMessage::Deactivated { id } => id,
            CitizenMessage::Clicked { id } => id,
            CitizenMessage::Selected { id, .. } => id,
            CitizenMessage::Moved { id, .. } => id,
            CitizenMessage::VisibilityChanged { id, .. } => id,
        }
    }
}

impl Clone for CitizenMessage {
    fn clone(&self) -> (result: Self)
        ensures
            result == *self,
    {
        match self {
            CitizenMessage::Activated { id } => CitizenMessage::Activated { id: id.clone() },
            CitizenMessage::Deactivated { id } => CitizenMessage::Deactivated { id: id.clone() },
            CitizenMessage::Clicked { id } => CitizenMessage::Clicked { id: id.clone() },
            CitizenMessage::Selected { id, selected } => CitizenMessage::Selected {
                id: id.clone(),
                selected: *selected,
            },
            CitizenMessage::Moved { id, location } => CitizenMessage::Moved {
                id: id.clone(),
                location: *location,
            },
            CitizenMessage::VisibilityChanged { id, visible } => CitizenMessage::VisibilityChanged {
                id: id.clone(),
                visible: *visible,
            },
        }
    }
}

/// Unique identifier for a citizen.
///
/// Wraps a string so that citizens can be addressed by name
/// (e.g. "freq_watt", "plot", "volt_var").
#[derive(Debug, Hash)]
pub struct CitizenId(pub String);

impl View for CitizenId {
    type V = Seq<char>;

    open spec fn view(&self) -> Seq<char> {
        self.0@
    }
}

impl CitizenId {
    /// Builds an identifier from anything that converts into a `String`.
    pub fn new<S: Into<String>>(id: S) -> (result: CitizenId)
        ensures
            S::obeys_into_spec() ==> result.0 == id.into_spec(),
    {
        CitizenId(id.into())
    }

    /// Builds an identifier holding exactly the text `name`.
    pub fn from_name(name: &str) -> (result: CitizenId)
        ensures
            result@ == name@,
    {
        CitizenId(name.to_owned())
    }

    /// The identifier as text: the wrapped name and nothing else.
    pub fn to_string(&self) -> (result: String)
        ensures
            result@ == self@,
    {
        self.0.clone()
    }
}

impl Clone for CitizenId {
    fn clone(&self) -> (result: Self)
        ensures
            result == *self,
    {
        CitizenId(self.0.clone())
    }
}

impl PartialEq for CitizenId {
    fn eq(&self, other: &Self) -> (result: bool) {
        self.0 == other.0
    }
}

impl vstd::std_specs::cmp::PartialEqSpecImpl for CitizenId {
    open spec fn obeys_eq_spec() -> bool {
        true
    }

    open spec fn eq_spec(&self, other: &Self) -> bool {
        self@ == other@
    }
}

impl Eq for CitizenId {}

} // verus!
