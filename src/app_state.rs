use vstd::prelude::*;

verus! {

/// The three screens of the game; exactly one is active at a time.
#[derive(Debug, Clone, Copy, PartialEq, Eq, Hash, Structural)]
pub enum AppState {
    MainMenu,
    Game,
    GameOver,
}

impl Default for AppState {
    fn default() -> (r: Self)
        ensures
            r == AppState::MainMenu,
    {
        AppState::MainMenu
    }
}

} // verus!
