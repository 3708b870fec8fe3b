//! Components: the typed records that an entity may carry.

use vstd::prelude::*;

verus! {

/// A coordinate on the tile grid.
#[derive(Clone, Copy, Debug, PartialEq, Eq, Hash, Structural)]
pub struct Coord {
    pub x: i32,
    pub y: i32,
}

impl Coord {
    pub fn new(x: i32, y: i32) -> (p: Coord)
        ensures
            p == (Coord { x, y }),
    {
        Coord { x, y }
    }
}

/// Where an entity stands. This is the authoritative location; only the
/// movement rules change it.
#[derive(Clone, Copy, Debug, PartialEq, Eq, Hash, Structural)]
pub struct Position {
    pub x: i32,
    pub y: i32,
}

impl Position {
    /// The grid coordinate of this position.
    pub open spec fn spec_coord(self) -> Coord {
        Coord { x: self.x, y: self.y }
    }

    /// The grid coordinate of this position.
    #[verifier::when_used_as_spec(spec_coord)]
    pub fn coord(self) -> (p: Coord)
        ensures
            p == self.spec_coord(),
    {
        Coord { x: self.x, y: self.y }
    }
}

/// What an entity currently sees: the visible coordinates, how far it can
/// look, and whether the coordinates are out of date.
#[derive(Clone, Debug, PartialEq, Eq)]
pub struct Viewshed {
    pub visible_tiles: Vec<Coord>,
    pub range: i32,
    pub dirty: bool,
}

/// The mathematical content of a [`Viewshed`].
pub struct ViewshedView {
    pub visible_tiles: Seq<Coord>,
    pub range: i32,
    pub dirty: bool,
}

impl ViewshedView {
    /// Whether `p` is one of the visible coordinates.
    pub open spec fn sees(self, p: Coord) -> bool {
        self.visible_tiles.contains(p)
    }

    /// The same viewshed, marked as out of date.
    pub open spec fn stale(self) -> ViewshedView {
        ViewshedView { dirty: true, ..self }
    }
}

impl View for Viewshed {
    type V = ViewshedView;

    open spec fn view(&self) -> ViewshedView {
        ViewshedView { visible_tiles: self.visible_tiles@, range: self.range, dirty: self.dirty }
    }
}

impl Viewshed {
    /// A viewshed that has not been computed yet: nothing visible, stale.
    pub fn new(range: i32) -> (v: Viewshed)
        ensures
            v@ == (ViewshedView { visible_tiles: Seq::empty(), range, dirty: true }),
    {
        Viewshed { visible_tiles: Vec::new(), range, dirty: true }
    }

    /// Whether `p` is one of the visible coordinates.
    pub fn sees(&self, p: Coord) -> (found: bool)
        ensures
            found == self@.sees(p),
    {
        let mut i: usize = 0;
        while i < self.visible_tiles.len()
            invariant
                i <= self.visible_tiles.len(),
                forall|k: int| 0 <= k < i ==> self.visible_tiles@[k] != p,
            decreases self.visible_tiles.len() - i,
        {
            if self.visible_tiles[i] == p {
                return true;
            }
            i += 1;
        }
        false
    }
}

/// The display label of an entity. It never changes after creation.
#[derive(Clone, Debug, PartialEq, Eq)]
pub struct Name {
    pub name: String,
}

/// Marks the one entity that the human controls.
#[derive(Clone, Copy, Debug, PartialEq, Eq, Structural)]
pub struct Player {}

/// Marks an entity whose reactions the enemy AI evaluates.
#[derive(Clone, Copy, Debug, PartialEq, Eq, Structural)]
pub struct Enemy {}

/// One slot of the entity arena: any subset of the components.
#[derive(Clone, Debug, PartialEq, Eq)]
pub struct Entity {
    pub position: Option<Position>,
    pub viewshed: Option<Viewshed>,
    pub name: Option<Name>,
    pub player: Option<Player>,
    pub enemy: Option<Enemy>,
}

/// The mathematical content of an [`Entity`].
pub struct EntityView {
    pub position: Option<Position>,
    pub viewshed: Option<ViewshedView>,
    pub name: Option<Seq<char>>,
    pub player: bool,
    pub enemy: bool,
}

impl View for Entity {
    type V = EntityView;

    open spec fn view(&self) -> EntityView {
        EntityView {
            position: self.position,
            viewshed: match self.viewshed {
                Some(v) => Some(v@),
                None => None,
            },
            name: match self.name {
                Some(n) => Some(n.name@),
                None => None,
            },
            player: self.player is Some,
            enemy: self.enemy is Some,
        }
    }
}

impl Entity {
    /// An entity without any component.
    pub fn new() -> (e: Entity)
        ensures
            e@ == (EntityView {
                position: None,
                viewshed: None,
                name: None,
                player: false,
                enemy: false,
            }),
    {
        Entity { position: None, viewshed: None, name: None, player: None, enemy: None }
    }

    pub fn with_position(self, position: Position) -> (e: Entity)
        ensures
            e@ == (EntityView { position: Some(position), ..self@ }),
    {
        Entity { position: Some(position), ..self }
    }

    pub fn with_viewshed(self, viewshed: Viewshed) -> (e: Entity)
        ensures
            e@ == (EntityView { viewshed: Some(viewshed@), ..self@ }),
    {
        Entity { viewshed: Some(viewshed), ..self }
    }

    pub fn with_name(self, name: Name) -> (e: Entity)
        ensures
            e@ == (EntityView { name: Some(name.name@), ..self@ }),
    {
        Entity { name: Some(name), ..self }
    }

    /// Marks the entity as the one that the human controls.
    pub fn with_player(self) -> (e: Entity)
        ensures
            e@ == (EntityView { player: true, ..self@ }),
    {
        Entity { player: Some(Player {  }), ..self }
    }

    /// Marks the entity as an enemy.
    pub fn with_enemy(self) -> (e: Entity)
        ensures
            e@ == (EntityView { enemy: true, ..self@ }),
    {
        Entity { enemy: Some(Enemy {  }), ..self }
    }
}

} // verus!
