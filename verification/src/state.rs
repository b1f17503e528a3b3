//! The application's states.

use vstd::prelude::*;

verus! {

/// Whether a game is being played. The simulation runs only in `InGame`.
#[derive(Clone, Copy, Debug, PartialEq, Eq, Hash, Structural)]
pub enum AppState {
    Menu,
    InGame,
}

impl Default for AppState {
    fn default() -> (s: AppState)
        ensures
            s == AppState::Menu,
    {
        AppState::Menu
    }
}

/// Whether a game that is being played runs or is halted.
#[derive(Clone, Copy, Debug, PartialEq, Eq, Hash, Structural)]
pub enum SimState {
    InGame,
    Paused,
}

impl Default for SimState {
    fn default() -> (s: SimState)
        ensures
            s == SimState::InGame,
    {
        SimState::InGame
    }
}

} // verus!
