//! The small enumerations that the host and the library share.

use vstd::prelude::*;

verus! {

/// What a host sees of a session: nothing in progress, the game not yet up,
/// or the game up at the stretched resolution.
#[derive(Debug, Clone, Copy, PartialEq, Eq, Structural)]
pub enum AppState {
    Idle,
    WaitingForValorant,
    Running,
}

/// The pages of the host's window.
#[derive(Debug, Clone, Copy, PartialEq, Eq, Structural)]
pub enum Tab {
    Main,
    Presets,
    Settings,
}

} // verus!
