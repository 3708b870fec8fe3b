//! The run/pause machine and the system pipeline that it gates.

use vstd::prelude::*;
use crate::enemy_ai_system::{reaction_views, EnemyAI, Reaction};
use crate::player::{player_input, runstate_after_input, Key};
use crate::visibility_system::VisibilitySystem;
use crate::world::{SetupError, World, WorldView};

verus! {

/// Whether the next frame runs the system pipeline or waits for input.
#[derive(Clone, Copy, Debug, PartialEq, Eq, Structural)]
pub enum RunState {
    Paused,
    Running,
}

/// The whole game: the world and the run/pause machine.
#[derive(Clone, Debug, PartialEq, Eq)]
pub struct State {
    pub ecs: World,
    pub runstate: RunState,
}

/// The mathematical content of a [`State`].
pub struct StateView {
    pub ecs: WorldView,
    pub runstate: RunState,
}

impl View for State {
    type V = StateView;

    open spec fn view(&self) -> StateView {
        StateView { ecs: self.ecs@, runstate: self.runstate }
    }
}

impl StateView {
    /// The state in which a game over `ecs` starts. The first frame runs the
    /// pipeline, so that every viewshed is computed before any input.
    pub open spec fn initial(ecs: WorldView) -> StateView {
        StateView { ecs, runstate: RunState::Running }
    }

    /// The state after a paused frame with this key.
    pub open spec fn after_input(self, key: Option<Key>) -> StateView {
        StateView { ecs: self.ecs.after_input(key), runstate: runstate_after_input(key) }
    }

    /// Whether `after` is this state after a running frame: the pipeline has
    /// run once and the machine is paused again.
    pub open spec fn ticked_to(self, after: StateView) -> bool {
        self.ecs.refreshed_to(after.ecs) && after.runstate == RunState::Paused
    }

    /// Whether `after` is this state one frame later, given the key of the
    /// frame.
    pub open spec fn steps_to(self, key: Option<Key>, after: StateView) -> bool {
        match self.runstate {
            RunState::Running => self.ticked_to(after),
            RunState::Paused => after == self.after_input(key),
        }
    }
}

impl State {
    /// Starts a game over `ecs`, which has to hold exactly one complete
    /// player, every position on the grid, and the player's own position as
    /// the cached player coordinate.
    pub fn new(ecs: World) -> (started: Result<State, SetupError>)
        ensures
            started == match ecs@.setup_error() {
                Some(e) => Err::<State, SetupError>(e),
                None => Ok((State { ecs, runstate: RunState::Running })),
            },
            started matches Ok(gs) ==> gs@ == StateView::initial(ecs@) && gs@.ecs.wf(),
    {
        match ecs.validate() {
            Err(e) => Err(e),
            Ok(()) => Ok(State { ecs, runstate: RunState::Running }),
        }
    }

    /// Runs the pipeline once: first the visibility stage, so that every
    /// stale viewshed is recomputed, and only then the reaction stage, which
    /// therefore sees nothing out of date. Returns the reactions.
    pub fn run_systems(&mut self) -> (signals: Vec<Reaction>)
        ensures
            old(self)@.ecs.refreshed_to(final(self)@.ecs),
            final(self).runstate == old(self).runstate,
            reaction_views(signals@) == final(self)@.ecs.reactions(),
            old(self)@.ecs.wf() ==> final(self)@.ecs.wf(),
    {
        let mut vis = VisibilitySystem {  };
        vis.run(&mut self.ecs);
        let mut mob = EnemyAI {  };
        mob.run(&self.ecs)
    }

    /// Advances the game by one frame. A running frame runs the pipeline once
    /// and pauses the game. A paused frame handles the key: a recognised
    /// movement key moves the player and lets the next frame run; anything
    /// else changes nothing.
    pub fn tick(&mut self, key: Option<Key>) -> (signals: Vec<Reaction>)
        ensures
            old(self)@.steps_to(key, final(self)@),
            match old(self).runstate {
                RunState::Running => reaction_views(signals@) == final(self)@.ecs.reactions(),
                RunState::Paused => signals@.len() == 0,
            },
            old(self)@.ecs.wf() ==> final(self)@.ecs.wf(),
    {
        if self.runstate == RunState::Running {
            let signals = self.run_systems();
            self.runstate = RunState::Paused;
            signals
        } else {
            self.runstate = player_input(self, key);
            Vec::new()
        }
    }
}

} // verus!
