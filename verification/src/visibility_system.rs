//! The visibility stage of the pipeline: every stale viewshed is recomputed
//! from the current position of its entity and then marked fresh.

use vstd::prelude::*;
use crate::components::{Coord, EntityView, ViewshedView};
use crate::laws::law_refresh_keeps_wf;
use crate::map::GridView;
use crate::world::{World, WorldView};

verus! {

impl EntityView {
    /// Whether the viewshed of this entity has to be recomputed: it has one,
    /// it is stale, and the entity has a position from which the sight over
    /// its range can be computed.
    pub open spec fn awaits_refresh(self, map: GridView) -> bool {
        &&& self.position is Some
        &&& self.viewshed is Some
        &&& self.viewshed->0.dirty
        &&& map.can_see_from(self.position->0.coord(), self.viewshed->0.range)
    }

    /// The coordinates in the viewshed of this entity; none without one.
    pub open spec fn visible_tiles(self) -> Seq<Coord> {
        match self.viewshed {
            Some(v) => v.visible_tiles,
            None => Seq::empty(),
        }
    }

    /// The entity after the visibility stage, if `tiles` is what can be seen
    /// from its position. A stale viewshed takes the new coordinates and
    /// becomes fresh; any other entity stays as it is.
    pub open spec fn refreshed(self, map: GridView, tiles: Seq<Coord>) -> EntityView {
        if self.awaits_refresh(map) {
            EntityView {
                viewshed: Some(
                    ViewshedView { visible_tiles: tiles, range: self.viewshed->0.range, dirty: false },
                ),
                ..self
            }
        } else {
            self
        }
    }
}

/// A viewshed that has to be recomputed: what can entity `entity` see from
/// `start` when it looks `range` tiles far?
#[derive(Clone, Copy, Debug, PartialEq, Eq, Structural)]
pub struct Sighting {
    pub entity: usize,
    pub start: Coord,
    pub range: i32,
}

impl WorldView {
    /// The world with entity `id` refreshed by `tiles`; the same world if
    /// there is no such entity.
    pub open spec fn refreshed(self, id: int, tiles: Seq<Coord>) -> WorldView {
        if self.has_entity(id) {
            WorldView {
                entities: self.entities.update(id, self.entities[id].refreshed(self.map, tiles)),
                ..self
            }
        } else {
            self
        }
    }

    /// Whether `after` is this world after one pass of the visibility stage.
    /// Every viewshed that had to be recomputed is fresh and lists what is in
    /// sight of its entity within its range; nothing else differs, so a
    /// viewshed that was fresh is untouched.
    pub open spec fn refreshed_to(self, after: WorldView) -> bool {
        &&& after.map == self.map
        &&& after.player_pos == self.player_pos
        &&& after.entities.len() == self.entities.len()
        &&& forall|i: int|
            self.has_entity(i) ==> #[trigger] after.entities[i] == self.entities[i].refreshed(
                self.map,
                after.entities[i].visible_tiles(),
            )
        &&& forall|i: int|
            self.has_entity(i) && (#[trigger] self.entities[i]).awaits_refresh(self.map)
                ==> self.map.shows(
                self.entities[i].position->0.coord(),
                self.entities[i].viewshed->0.range,
                after.entities[i].visible_tiles(),
            )
    }

    /// The viewsheds among the first `n` entities that have to be recomputed,
    /// in the order of the arena.
    pub open spec fn stale_among(self, n: int) -> Seq<Sighting>
        decreases n,
    {
        if n <= 0 {
            Seq::empty()
        } else if self.entities[n - 1].awaits_refresh(self.map) {
            self.stale_among(n - 1).push(
                Sighting {
                    entity: (n - 1) as usize,
                    start: self.entities[n - 1].position->0.coord(),
                    range: self.entities[n - 1].viewshed->0.range,
                },
            )
        } else {
            self.stale_among(n - 1)
        }
    }

    /// The viewsheds that have to be recomputed, in the order of the arena.
    pub open spec fn stale_viewsheds(self) -> Seq<Sighting> {
        self.stale_among(self.entities.len() as int)
    }
}

/// The list of stale viewsheds among the first `n` entities names exactly the
/// entities among them that wait for a recompute, each once and in ascending
/// order, with the position and the range of the entity.
pub proof fn lemma_stale_among(w: WorldView, n: int)
    requires
        0 <= n <= w.entities.len() <= usize::MAX,
    ensures
        forall|i: int|
            0 <= i < n && w.entities[i].awaits_refresh(w.map) ==> exists|k: int|
                0 <= k < w.stale_among(n).len() && (#[trigger] w.stale_among(n)[k]).entity == i,
        forall|k: int|
            0 <= k < w.stale_among(n).len() ==> {
                let q = #[trigger] w.stale_among(n)[k];
                &&& 0 <= q.entity < n
                &&& w.entities[q.entity as int].awaits_refresh(w.map)
                &&& q.start == w.entities[q.entity as int].position->0.coord()
                &&& q.range == w.entities[q.entity as int].viewshed->0.range
            },
        forall|k: int, l: int|
            0 <= k < l < w.stale_among(n).len() ==> (#[trigger] w.stale_among(n)[k]).entity < (
            #[trigger] w.stale_among(n)[l]).entity,
    decreases n,
{
    if n > 0 {
        lemma_stale_among(w, n - 1);
        let before = w.stale_among(n - 1);
        let now = w.stale_among(n);
        if w.entities[n - 1].awaits_refresh(w.map) {
            let last = Sighting {
                entity: (n - 1) as usize,
                start: w.entities[n - 1].position->0.coord(),
                range: w.entities[n - 1].viewshed->0.range,
            };
            assert(now == before.push(last));
            assert(now[before.len() as int] == last);
            assert forall|i: int| 0 <= i < n && w.entities[i].awaits_refresh(w.map) implies exists|k: int|
                0 <= k < now.len() && (#[trigger] now[k]).entity == i by {
                if i < n - 1 {
                    let k = choose|k: int| 0 <= k < before.len() && (#[trigger] before[k]).entity == i;
                    assert(now[k] == before[k]);
                }
            }
            assert forall|k: int, l: int| 0 <= k < l < now.len() implies (#[trigger] now[k]).entity < (
            #[trigger] now[l]).entity by {
                assert(now[k] == before[k]);
                if l < before.len() {
                    assert(now[l] == before[l]);
                }
            }
            assert forall|k: int| 0 <= k < now.len() implies {
                let q = #[trigger] now[k];
                &&& 0 <= q.entity < n
                &&& w.entities[q.entity as int].awaits_refresh(w.map)
                &&& q.start == w.entities[q.entity as int].position->0.coord()
                &&& q.range == w.entities[q.entity as int].viewshed->0.range
            } by {
                if k < before.len() {
                    assert(now[k] == before[k]);
                }
            }
        } else {
            assert(now == before);
        }
    }
}

impl World {
    /// The viewsheds that have to be recomputed, in the order of the arena.
    pub fn stale_viewsheds(&self) -> (stale: Vec<Sighting>)
        ensures
            stale@ == self@.stale_viewsheds(),
    {
        let mut stale: Vec<Sighting> = Vec::new();
        let mut i: usize = 0;
        while i < self.entities.len()
            invariant
                i <= self.entities.len(),
                stale@ == self@.stale_among(i as int),
            decreases self.entities.len() - i,
        {
            let entity = &self.entities[i];
            assert(self@.entities[i as int] == entity@);
            if let Some(pos) = entity.position {
                if let Some(viewshed) = &entity.viewshed {
                    if viewshed.dirty && self.map.can_see_from(pos.coord(), viewshed.range) {
                        stale.push(Sighting { entity: i, start: pos.coord(), range: viewshed.range });
                    }
                }
            }
            i += 1;
        }
        stale
    }

    /// Stores `tiles` as what entity `id` sees now, if its viewshed was
    /// waiting for that, and marks the viewshed fresh.
    pub fn refresh_viewshed(&mut self, id: usize, tiles: Vec<Coord>)
        ensures
            final(self)@ == old(self)@.refreshed(id as int, tiles@),
    {
        if id < self.entities.len() {
            if let Some(pos) = self.entities[id].position {
                let map = &self.map;
                match &mut self.entities[id].viewshed {
                    Some(viewshed) => {
                        if viewshed.dirty && map.can_see_from(pos.coord(), viewshed.range) {
                            viewshed.visible_tiles = tiles;
                            viewshed.dirty = false;
                        }
                    },
                    None => {},
                }
            }
            assert(self@.entities =~= old(self)@.refreshed(id as int, tiles@).entities);
        }
    }
}

/// The visibility stage.
pub struct VisibilitySystem {}

impl VisibilitySystem {
    /// Computes the sight for every stale viewshed, in the order of the
    /// arena, and stores it.
    pub fn run(&mut self, world: &mut World)
        ensures
            old(world)@.refreshed_to(final(world)@),
            old(world)@.wf() ==> final(world)@.wf(),
    {
        let stale = world.stale_viewsheds();
        let ghost before = world@;
        proof {
            assert(before.entities.len() == world.entities.len() <= usize::MAX);
            lemma_stale_among(before, before.entities.len() as int);
        }
        let mut k: usize = 0;
        while k < stale.len()
            invariant
                k <= stale.len(),
                before == old(world)@,
                before.entities.len() <= usize::MAX,
                stale@ == before.stale_viewsheds(),
                forall|m: int|
                    0 <= m < stale@.len() ==> {
                        let q = #[trigger] stale@[m];
                        &&& 0 <= q.entity < before.entities.len()
                        &&& before.entities[q.entity as int].awaits_refresh(before.map)
                        &&& q.start == before.entities[q.entity as int].position->0.coord()
                        &&& q.range == before.entities[q.entity as int].viewshed->0.range
                    },
                forall|m: int, l: int|
                    0 <= m < l < stale@.len() ==> (#[trigger] stale@[m]).entity < (#[trigger] stale@[l]).entity,
                forall|j: int|
                    before.has_entity(j) && (#[trigger] before.entities[j]).awaits_refresh(before.map)
                        ==> exists|m: int| 0 <= m < stale@.len() && (#[trigger] stale@[m]).entity == j,
                world@.map == before.map,
                world@.player_pos == before.player_pos,
                world@.entities.len() == before.entities.len(),
                forall|j: int|
                    before.has_entity(j) ==> #[trigger] world@.entities[j] == if k < stale@.len() && j
                        >= stale@[k as int].entity {
                        before.entities[j]
                    } else {
                        before.entities[j].refreshed(before.map, world@.entities[j].visible_tiles())
                    },
                forall|j: int|
                    before.has_entity(j) && (#[trigger] before.entities[j]).awaits_refresh(before.map) && !(k
                        < stale@.len() && j >= stale@[k as int].entity) ==> before.map.shows(
                        before.entities[j].position->0.coord(),
                        before.entities[j].viewshed->0.range,
                        world@.entities[j].visible_tiles(),
                    ),
            decreases stale.len() - k,
        {
            let question = stale[k];
            let ghost held = world@;
            let ghost j0 = question.entity as int;
            assert(held.entities[j0] == before.entities[j0]);
            if let Some(tiles) = world.map.field_of_view(question.start, question.range) {
                world.refresh_viewshed(question.entity, tiles);
                proof {
                    assert(world@.entities[j0].visible_tiles() == tiles@);
                    assert forall|j: int| before.has_entity(j) implies #[trigger] world@.entities[j] == if k
                        + 1 < stale@.len() && j >= stale@[k + 1].entity {
                        before.entities[j]
                    } else {
                        before.entities[j].refreshed(before.map, world@.entities[j].visible_tiles())
                    } by {
                        if j != j0 {
                            assert(world@.entities[j] == held.entities[j]);
                            if j > j0 {
                                if !(k + 1 < stale@.len() && j >= stale@[k + 1].entity) {
                                    assert(held.entities[j] == before.entities[j]);
                                    if before.entities[j].awaits_refresh(before.map) {
                                        let m = choose|m: int|
                                            0 <= m < stale@.len() && (#[trigger] stale@[m]).entity == j;
                                        if m > k + 1 {
                                            assert(stale@[k + 1].entity < stale@[m].entity);
                                        }
                                        if m < k {
                                            assert(stale@[m].entity < stale@[k as int].entity);
                                        }
                                    }
                                }
                            } else {
                                if k + 1 < stale@.len() {
                                    assert(stale@[k as int].entity < stale@[k + 1].entity);
                                }
                            }
                        }
                    }
                    assert forall|j: int|
                        before.has_entity(j) && (#[trigger] before.entities[j]).awaits_refresh(before.map)
                            && !(k + 1 < stale@.len() && j >= stale@[k + 1].entity) implies before.map.shows(
                        before.entities[j].position->0.coord(),
                        before.entities[j].viewshed->0.range,
                        world@.entities[j].visible_tiles(),
                    ) by {
                        if j != j0 {
                            assert(world@.entities[j] == held.entities[j]);
                            if j > j0 {
                                let m = choose|m: int|
                                    0 <= m < stale@.len() && (#[trigger] stale@[m]).entity == j;
                                if m > k + 1 {
                                    assert(stale@[k + 1].entity < stale@[m].entity);
                                }
                                if m < k {
                                    assert(stale@[m].entity < stale@[k as int].entity);
                                }
                            }
                        }
                    }
                }
            }
            k += 1;
        }
        proof {
            if before.wf() {
                law_refresh_keeps_wf(before, world@);
            }
        }
    }
}

} // verus!
