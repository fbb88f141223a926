//! Where the application protocol stands.
use vstd::prelude::*;

verus! {

/// The state of the application protocol.
#[derive(Debug, Clone, Copy, PartialEq, Eq, Structural)]
pub enum ApplicationState {
    /// The network layer has not authenticated the peer yet.
    Idle,
    /// The peer is authenticated; there is no presentation.
    Authenticated,
    /// There is a presentation.
    Presenting,
}

impl ApplicationState {
    /// Whether the peer is authenticated.
    pub fn is_authenticated(&self) -> (r: bool)
        ensures
            r == (*self != ApplicationState::Idle),
    {
        matches!(self, ApplicationState::Authenticated | ApplicationState::Presenting)
    }

    /// Whether there is a presentation.
    pub fn is_presenting(&self) -> (r: bool)
        ensures
            r == (*self == ApplicationState::Presenting),
    {
        matches!(self, ApplicationState::Presenting)
    }
}

impl Default for ApplicationState {
    fn default() -> (s: Self)
        ensures
            s == ApplicationState::Idle,
    {
        ApplicationState::Idle
    }
}

} // verus!
