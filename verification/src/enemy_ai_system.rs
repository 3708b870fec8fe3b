//! The reaction stage of the pipeline: every enemy that sees the player
//! reacts.

use vstd::prelude::*;
use crate::components::{Coord, EntityView};
use crate::world::{World, WorldView};

verus! {

/// The signal that one enemy has noticed the player.
#[derive(Clone, Debug, PartialEq, Eq)]
pub struct Reaction {
    /// The index of the enemy in the arena.
    pub entity: usize,
    /// The name of the enemy.
    pub name: String,
}

/// The mathematical content of a [`Reaction`].
pub struct ReactionView {
    pub entity: int,
    pub name: Seq<char>,
}

impl View for Reaction {
    type V = ReactionView;

    open spec fn view(&self) -> ReactionView {
        ReactionView { entity: self.entity as int, name: self.name@ }
    }
}

/// The contents of a list of reactions.
pub open spec fn reaction_views(signals: Seq<Reaction>) -> Seq<ReactionView> {
    signals.map_values(|r: Reaction| r@)
}

impl EntityView {
    /// Whether the enemy AI evaluates this entity: it carries the enemy
    /// marker, a viewshed and a name.
    pub open spec fn watches(self) -> bool {
        self.enemy && self.viewshed is Some && self.name is Some
    }

    /// Whether this entity reacts to a player at `p`: the enemy AI evaluates
    /// it and `p` is one of the coordinates it sees.
    pub open spec fn notices(self, p: Coord) -> bool {
        self.watches() && self.viewshed->0.sees(p)
    }
}

impl WorldView {
    /// The reactions of the first `n` entities, in the order of the arena.
    pub open spec fn reactions_among(self, n: int) -> Seq<ReactionView>
        decreases n,
    {
        if n <= 0 {
            Seq::empty()
        } else if self.entities[n - 1].notices(self.player_pos) {
            self.reactions_among(n - 1).push(
                ReactionView { entity: n - 1, name: self.entities[n - 1].name->0 },
            )
        } else {
            self.reactions_among(n - 1)
        }
    }

    /// One reaction for every enemy that sees the cached player coordinate,
    /// in the order of the arena.
    pub open spec fn reactions(self) -> Seq<ReactionView> {
        self.reactions_among(self.entities.len() as int)
    }
}

/// The reaction stage.
pub struct EnemyAI {}

impl EnemyAI {
    /// Evaluates every enemy on its own against the cached player coordinate
    /// and returns the reactions. The world is only read.
    pub fn run(&mut self, world: &World) -> (signals: Vec<Reaction>)
        ensures
            reaction_views(signals@) == world@.reactions(),
    {
        let mut signals: Vec<Reaction> = Vec::new();
        let mut i: usize = 0;
        while i < world.entities.len()
            invariant
                i <= world.entities.len(),
                reaction_views(signals@) == world@.reactions_among(i as int),
            decreases world.entities.len() - i,
        {
            let entity = &world.entities[i];
            assert(world@.entities[i as int] == entity@);
            let ghost seen = reaction_views(signals@);
            if entity.enemy.is_some() {
                match (&entity.viewshed, &entity.name) {
                    (Some(viewshed), Some(name)) => {
                        if viewshed.sees(world.player_pos) {
                            let signal = Reaction { entity: i, name: name.name.clone() };
                            signals.push(signal);
                            assert(reaction_views(signals@) =~= seen.push(signal@));
                        }
                    },
                    _ => {},
                }
            }
            i += 1;
        }
        signals
    }
}

} // verus!
