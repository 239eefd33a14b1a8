use vstd::prelude::*;

verus! {

/// Whether the power adapter has been plugged or unplugged.
#[derive(Clone, Copy, Debug, Hash, PartialEq, Eq, Structural)]
pub enum Event {
    Plugged,
    Unplugged,
}

/// What the adapter is believed to be doing: the state that decides which
/// announcements are real changes.
#[derive(Clone, Copy, Debug, Hash, PartialEq, Eq, Structural)]
pub enum PowerState {
    Plugged,
    Unplugged,
}

impl PowerState {
    /// The state for a plugged flag.
    pub fn from_plugged(plugged: bool) -> (r: PowerState)
        ensures
            r == (if plugged { PowerState::Plugged } else { PowerState::Unplugged }),
    {
        if plugged {
            PowerState::Plugged
        } else {
            PowerState::Unplugged
        }
    }

    /// True when the adapter is plugged in.
    pub fn is_plugged(&self) -> (r: bool)
        ensures
            r == (*self == PowerState::Plugged),
    {
        match self {
            PowerState::Plugged => true,
            PowerState::Unplugged => false,
        }
    }
}

} // verus!
