//! The phases of the game and the events that lead from one to the next.

use vstd::prelude::*;

verus! {

/// The phase that the game is in.
#[derive(Clone, Copy, Debug, PartialEq, Eq, Hash, Structural)]
pub enum GameState {
    Loading,
    Menu,
    Playing,
    SkillTree,
    GameOver,
}

/// What can move the game from one phase to another.
#[derive(Clone, Copy, Debug, PartialEq, Eq, Structural)]
pub enum GameEvent {
    /// Everything the game shows and plays is loaded.
    Loaded,
    /// The player asked for a run.
    Play,
    /// The player asked for the skill tree to open or to close.
    ToggleSkillTree,
    /// The player has no health left.
    PlayerDied,
    /// The player asked to leave the summary of the run.
    Back,
}

impl GameState {
    /// The phase that follows on an event: from loading to the menu, from
    /// the menu into play, between play and the skill tree, from play to the
    /// end of the run, and from there back to the menu. An event that the
    /// phase does not wait for changes nothing.
    pub open spec fn after(self, event: GameEvent) -> GameState {
        match (self, event) {
            (GameState::Loading, GameEvent::Loaded) => GameState::Menu,
            (GameState::Menu, GameEvent::Play) => GameState::Playing,
            (GameState::Playing, GameEvent::ToggleSkillTree) => GameState::SkillTree,
            (GameState::SkillTree, GameEvent::ToggleSkillTree) => GameState::Playing,
            (GameState::Playing, GameEvent::PlayerDied) => GameState::GameOver,
            (GameState::GameOver, GameEvent::Back) => GameState::Menu,
            _ => self,
        }
    }

    /// Computes [`GameState::after`].
    pub fn next(self, event: GameEvent) -> (state: GameState)
        ensures
            state == self.after(event),
    {
        match (self, event) {
            (GameState::Loading, GameEvent::Loaded) => GameState::Menu,
            (GameState::Menu, GameEvent::Play) => GameState::Playing,
            (GameState::Playing, GameEvent::ToggleSkillTree) => GameState::SkillTree,
            (GameState::SkillTree, GameEvent::ToggleSkillTree) => GameState::Playing,
            (GameState::Playing, GameEvent::PlayerDied) => GameState::GameOver,
            (GameState::GameOver, GameEvent::Back) => GameState::Menu,
            _ => self,
        }
    }
}

/// The menu is entered from loading and from the end of a run and from
/// nowhere else, and the end of a run is reached from play alone.
pub proof fn lemma_ways_into_phases(state: GameState, event: GameEvent)
    ensures
        state.after(event) == GameState::Menu && state != GameState::Menu ==> state
            == GameState::Loading || state == GameState::GameOver,
        state.after(event) == GameState::GameOver && state != GameState::GameOver ==> state
            == GameState::Playing,
        state.after(event) == GameState::SkillTree && state != GameState::SkillTree ==> state
            == GameState::Playing,
        state.after(event) == GameState::Playing && state != GameState::Playing ==> state
            == GameState::Menu || state == GameState::SkillTree,
        state.after(event) != GameState::Loading || state == GameState::Loading,
{
}

} // verus!
