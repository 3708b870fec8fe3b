//! The world: the entity arena and the two shared resources, the tile map and
//! the cached coordinate of the player.

use vstd::prelude::*;
use crate::components::{Coord, Entity, EntityView};
use crate::map::{GridView, TileMap};
use crate::sight::MAX_RANGE;

verus! {

#[derive(Clone, Debug, PartialEq, Eq)]
pub struct World {
    /// The arena. An entity is known by its index, which never changes.
    pub entities: Vec<Entity>,
    pub map: TileMap,
    /// The coordinate of the player as the enemies know it. The movement
    /// rules write it and the enemy AI reads it; nothing else touches it.
    pub player_pos: Coord,
}

/// The mathematical content of a [`World`].
pub struct WorldView {
    pub entities: Seq<EntityView>,
    pub map: GridView,
    pub player_pos: Coord,
}

impl View for World {
    type V = WorldView;

    open spec fn view(&self) -> WorldView {
        WorldView {
            entities: self.entities@.map_values(|e: Entity| e@),
            map: self.map@,
            player_pos: self.player_pos,
        }
    }
}

impl EntityView {
    /// Whether the movement rules apply to this entity: it carries the player
    /// marker, a position and a viewshed.
    pub open spec fn controlled(self) -> bool {
        self.player && self.position is Some && self.viewshed is Some
    }

    /// Whether the entity stands on the grid, if it stands anywhere.
    pub open spec fn placed_on(self, map: GridView) -> bool {
        self.position matches Some(p) ==> map.in_bounds(p.x as int, p.y as int)
    }

    /// Whether the entity looks no farther than [`MAX_RANGE`] and no less far
    /// than nothing, if it looks at all.
    pub open spec fn looks_within_limits(self) -> bool {
        self.viewshed matches Some(v) ==> 0 <= v.range <= MAX_RANGE
    }
}

impl WorldView {
    pub open spec fn has_entity(self, i: int) -> bool {
        0 <= i < self.entities.len()
    }

    /// Entity `i` carries the player marker and no other entity does.
    pub open spec fn sole_player(self, i: int) -> bool {
        &&& self.has_entity(i)
        &&& self.entities[i].player
        &&& forall|j: int| self.has_entity(j) && #[trigger] self.entities[j].player ==> j == i
    }

    /// The index of the entity that carries the player marker.
    pub open spec fn player(self) -> int {
        choose|i: int| self.sole_player(i)
    }

    /// What setup has to establish and every tick keeps: a proper grid,
    /// exactly one player, which has a position and a viewshed, every
    /// position on the grid, every range of sight within its limits, and the
    /// cached coordinate equal to the player's position.
    pub open spec fn wf(self) -> bool {
        &&& self.map.wf()
        &&& exists|i: int| self.sole_player(i)
        &&& self.entities[self.player()].controlled()
        &&& forall|j: int| self.has_entity(j) ==> (#[trigger] self.entities[j]).placed_on(self.map)
        &&& forall|j: int| self.has_entity(j) ==> (#[trigger] self.entities[j]).looks_within_limits()
        &&& self.player_pos == self.entities[self.player()].position->0.coord()
    }
}

impl WorldView {
    /// Whether the player currently sees the tile at `p`: the visibility mask
    /// that decides what is offered for drawing.
    pub open spec fn in_view(self, p: Coord) -> bool {
        exists|i: int|
            self.has_entity(i) && (#[trigger] self.entities[i]).player && self.entities[i].viewshed is Some
                && self.entities[i].viewshed->0.sees(p)
    }

    /// Whether entity `i` is offered for drawing: it stands on a tile that the
    /// player currently sees.
    pub open spec fn shown(self, i: int) -> bool {
        self.has_entity(i) && self.entities[i].position is Some && self.in_view(
            self.entities[i].position->0.coord(),
        )
    }

    /// The entities among the first `n` that are offered for drawing, in the
    /// order of the arena.
    pub open spec fn shown_among(self, n: int) -> Seq<int>
        decreases n,
    {
        if n <= 0 {
            Seq::empty()
        } else if self.shown(n - 1) {
            self.shown_among(n - 1).push(n - 1)
        } else {
            self.shown_among(n - 1)
        }
    }

    /// The entities that are offered for drawing, in the order of the arena.
    pub open spec fn visible_entities(self) -> Seq<int> {
        self.shown_among(self.entities.len() as int)
    }
}

/// Why a world cannot start a game.
#[derive(Clone, Copy, Debug, PartialEq, Eq, Structural)]
pub enum SetupError {
    /// No entity carries the player marker.
    NoPlayer,
    /// More than one entity carries the player marker.
    DuplicatePlayer,
    /// The player has no position or no viewshed.
    IncompletePlayer,
    /// An entity stands outside the grid.
    OutOfBounds,
    /// An entity looks farther than `MAX_RANGE`, or less far than nothing.
    BadRange,
    /// The cached player coordinate is not the position of the player.
    StaleCache,
}

impl WorldView {
    /// What is wrong with this world as the start of a game, if anything. Of
    /// several faults the first in the order of [`SetupError`] is named.
    pub open spec fn setup_error(self) -> Option<SetupError> {
        if forall|i: int| self.has_entity(i) ==> !(#[trigger] self.entities[i]).player {
            Some(SetupError::NoPlayer)
        } else if !exists|i: int| self.sole_player(i) {
            Some(SetupError::DuplicatePlayer)
        } else if !self.entities[self.player()].controlled() {
            Some(SetupError::IncompletePlayer)
        } else if exists|j: int| self.has_entity(j) && !(#[trigger] self.entities[j]).placed_on(self.map) {
            Some(SetupError::OutOfBounds)
        } else if exists|j: int| self.has_entity(j) && !(#[trigger] self.entities[j]).looks_within_limits() {
            Some(SetupError::BadRange)
        } else if self.player_pos != self.entities[self.player()].position->0.coord() {
            Some(SetupError::StaleCache)
        } else {
            None
        }
    }
}

/// A world on a proper grid can start a game exactly if it is well formed.
pub proof fn lemma_setup_error_none_iff_wf(w: WorldView)
    requires
        w.map.wf(),
    ensures
        w.setup_error() is None <==> w.wf(),
{
    if w.wf() {
        let p = w.player();
        assert(w.sole_player(p));
        assert(w.entities[p].player);
    }
}

/// There is at most one sole player, so `player()` names it.
pub proof fn lemma_player_is_unique(w: WorldView, i: int)
    requires
        w.sole_player(i),
    ensures
        w.player() == i,
{
    let p = w.player();
    assert(w.sole_player(p));
}

impl World {
    /// A world without entities.
    pub fn new(map: TileMap, player_pos: Coord) -> (world: World)
        ensures
            world@ == (WorldView { entities: Seq::empty(), map: map@, player_pos }),
    {
        let world = World { entities: Vec::new(), map, player_pos };
        assert(world@.entities =~= Seq::empty());
        world
    }

    /// Checks that this world can start a game, and says what is wrong with
    /// it if it cannot.
    pub fn validate(&self) -> (checked: Result<(), SetupError>)
        ensures
            checked == match self@.setup_error() {
                Some(e) => Err::<(), SetupError>(e),
                None => Ok(()),
            },
            checked is Ok <==> self@.wf(),
    {
        let ghost w = self@;
        let n = self.entities.len();
        let mut player: Option<usize> = None;
        let mut duplicate = false;
        let mut stray = false;
        let mut far = false;
        let mut i: usize = 0;
        while i < n
            invariant
                i <= n,
                n == self.entities.len(),
                w == self@,
                player matches Some(p) ==> p < i && w.entities[p as int].player && forall|j: int|
                    0 <= j < p ==> !(#[trigger] w.entities[j]).player,
                player is None ==> forall|j: int| 0 <= j < i ==> !(#[trigger] w.entities[j]).player,
                duplicate <==> exists|j: int|
                    0 <= j < i && player is Some && j != player->0 && (#[trigger] w.entities[j]).player,
                stray <==> exists|j: int| 0 <= j < i && !(#[trigger] w.entities[j]).placed_on(w.map),
                far <==> exists|j: int| 0 <= j < i && !(#[trigger] w.entities[j]).looks_within_limits(),
            decreases n - i,
        {
            let entity = &self.entities[i];
            assert(w.entities[i as int] == entity@);
            if entity.player.is_some() {
                if player.is_some() {
                    duplicate = true;
                } else {
                    player = Some(i);
                }
            }
            if let Some(pos) = entity.position {
                if !self.map.in_bounds(pos.x, pos.y) {
                    stray = true;
                }
            }
            if let Some(viewshed) = &entity.viewshed {
                if viewshed.range < 0 || viewshed.range > MAX_RANGE {
                    far = true;
                }
            }
            i += 1;
        }
        let _ = self.map.grid();
        match player {
            None => Err(SetupError::NoPlayer),
            Some(p) => {
                assert(w.entities[p as int] == self.entities@[p as int]@);
                if duplicate {
                    Err(SetupError::DuplicatePlayer)
                } else {
                    proof {
                        assert(w.sole_player(p as int));
                        lemma_player_is_unique(w, p as int);
                    }
                    let entity = &self.entities[p];
                    match (entity.position, &entity.viewshed) {
                        (Some(pos), Some(_)) => {
                            if stray {
                                Err(SetupError::OutOfBounds)
                            } else if far {
                                Err(SetupError::BadRange)
                            } else if self.player_pos != pos.coord() {
                                Err(SetupError::StaleCache)
                            } else {
                                Ok(())
                            }
                        },
                        _ => Err(SetupError::IncompletePlayer),
                    }
                }
            },
        }
    }

    /// Whether the player currently sees the tile at `p`.
    pub fn in_view(&self, p: Coord) -> (seen: bool)
        ensures
            seen == self@.in_view(p),
    {
        let mut i: usize = 0;
        while i < self.entities.len()
            invariant
                i <= self.entities.len(),
                forall|k: int|
                    0 <= k < i ==> !((#[trigger] self@.entities[k]).player && self@.entities[k].viewshed is Some
                        && self@.entities[k].viewshed->0.sees(p)),
            decreases self.entities.len() - i,
        {
            let entity = &self.entities[i];
            assert(self@.entities[i as int] == entity@);
            if entity.player.is_some() {
                if let Some(viewshed) = &entity.viewshed {
                    if viewshed.sees(p) {
                        return true;
                    }
                }
            }
            i += 1;
        }
        false
    }

    /// The entities to draw: those that stand on a tile that the player
    /// currently sees, in the order of the arena.
    pub fn visible_entities(&self) -> (shown: Vec<usize>)
        ensures
            shown@.map_values(|i: usize| i as int) == self@.visible_entities(),
    {
        let mut shown: Vec<usize> = Vec::new();
        let mut i: usize = 0;
        while i < self.entities.len()
            invariant
                i <= self.entities.len(),
                shown@.map_values(|i: usize| i as int) == self@.shown_among(i as int),
            decreases self.entities.len() - i,
        {
            let ghost listed = shown@.map_values(|i: usize| i as int);
            assert(self@.entities[i as int] == self.entities@[i as int]@);
            if let Some(pos) = self.entities[i].position {
                if self.in_view(pos.coord()) {
                    shown.push(i);
                    assert(shown@.map_values(|i: usize| i as int) =~= listed.push(i as int));
                }
            }
            i += 1;
        }
        shown
    }

    /// Adds `entity` to the arena and returns its index.
    pub fn create_entity(&mut self, entity: Entity) -> (id: usize)
        ensures
            id == old(self)@.entities.len(),
            final(self)@ == (WorldView {
                entities: old(self)@.entities.push(entity@),
                ..old(self)@
            }),
    {
        let id = self.entities.len();
        self.entities.push(entity);
        assert(self@.entities =~= old(self)@.entities.push(entity@));
        id
    }
}

} // verus!
