//! Player input and movement: from the key of a frame to a movement intent,
//! and from an intent to a committed or rejected move.

use vstd::prelude::*;
use crate::components::{Coord, EntityView, Position};
use crate::laws::law_move_keeps_wf;
use crate::map::GridView;
use crate::state::{RunState, State};
use crate::world::{World, WorldView};

verus! {

/// The keys that the game tells apart. Every other key is `Other`.
#[derive(Clone, Copy, Debug, PartialEq, Eq, Hash, Structural)]
pub enum Key {
    Left,
    Right,
    Up,
    Down,
    Numpad2,
    Numpad4,
    Numpad6,
    Numpad8,
    Other,
}

/// The step that the key of a frame asks for: one tile left, right, up or
/// down for an arrow key or its numeric-pad twin, and none for any other key
/// or for no key at all.
pub open spec fn intent_of(key: Option<Key>) -> Option<(i32, i32)> {
    match key {
        Some(Key::Left) | Some(Key::Numpad4) => Some((-1i32, 0i32)),
        Some(Key::Right) | Some(Key::Numpad6) => Some((1i32, 0i32)),
        Some(Key::Up) | Some(Key::Numpad8) => Some((0i32, -1i32)),
        Some(Key::Down) | Some(Key::Numpad2) => Some((0i32, 1i32)),
        _ => None,
    }
}

/// The run state that follows a paused frame with this key: a recognised
/// movement key starts a tick, anything else keeps the game paused.
pub open spec fn runstate_after_input(key: Option<Key>) -> RunState {
    if intent_of(key) is Some {
        RunState::Running
    } else {
        RunState::Paused
    }
}

impl WorldView {
    /// The world after a paused frame with this key.
    pub open spec fn after_input(self, key: Option<Key>) -> WorldView {
        match intent_of(key) {
            Some((dx, dy)) => self.try_move(dx as int, dy as int),
            None => self,
        }
    }
}

/// `v`, or the nearer end of `lo..=hi` if `v` lies outside.
pub open spec fn clamp(v: int, lo: int, hi: int) -> int {
    if v < lo {
        lo
    } else if v > hi {
        hi
    } else {
        v
    }
}

impl EntityView {
    /// Whether a move by `(dx, dy)` would be committed for this entity: the
    /// movement rules apply to it and the tile it would step on is walkable.
    pub open spec fn can_move(self, map: GridView, dx: int, dy: int) -> bool {
        self.controlled() && map.walkable(self.position->0.x + dx, self.position->0.y + dy)
    }

    /// Where a committed move by `(dx, dy)` puts this entity: the destination,
    /// held to the grid bounds.
    pub open spec fn destination(self, map: GridView, dx: int, dy: int) -> Position {
        Position {
            x: clamp(self.position->0.x + dx, 0, map.max_x()) as i32,
            y: clamp(self.position->0.y + dy, 0, map.max_y()) as i32,
        }
    }

    /// The entity after an attempt to move it by `(dx, dy)`. A committed move
    /// changes the position and marks the viewshed stale; a rejected one
    /// changes nothing.
    pub open spec fn moved(self, map: GridView, dx: int, dy: int) -> EntityView {
        if self.can_move(map, dx, dy) {
            EntityView {
                position: Some(self.destination(map, dx, dy)),
                viewshed: Some(self.viewshed->0.stale()),
                ..self
            }
        } else {
            self
        }
    }
}

impl WorldView {
    /// The cached player coordinate after the first `n` entities had their
    /// turn to move: each committed move overwrites it.
    pub open spec fn cache_after(self, dx: int, dy: int, n: int) -> Coord
        decreases n,
    {
        if n <= 0 {
            self.player_pos
        } else if self.entities[n - 1].can_move(self.map, dx, dy) {
            self.entities[n - 1].destination(self.map, dx, dy).coord()
        } else {
            self.cache_after(dx, dy, n - 1)
        }
    }

    /// The world after an attempt to move the player by `(dx, dy)`.
    pub open spec fn try_move(self, dx: int, dy: int) -> WorldView {
        WorldView {
            entities: self.entities.map_values(|e: EntityView| e.moved(self.map, dx, dy)),
            map: self.map,
            player_pos: self.cache_after(dx, dy, self.entities.len() as int),
        }
    }
}

/// Moves the player by `(delta_x, delta_y)` if the tile there can be walked
/// on, and then brings the cached player coordinate up to date. A wall, or the
/// edge of the grid, rejects the move, and then nothing changes at all.
pub fn try_move_player(delta_x: i32, delta_y: i32, ecs: &mut World)
    ensures
        final(ecs)@ == old(ecs)@.try_move(delta_x as int, delta_y as int),
        old(ecs)@.wf() ==> final(ecs)@.wf(),
{
    let ghost before = ecs@;
    let ghost dx = delta_x as int;
    let ghost dy = delta_y as int;
    let width = ecs.map.width();
    let height = ecs.map.height();
    let mut i: usize = 0;
    while i < ecs.entities.len()
        invariant
            i <= ecs.entities.len(),
            before == old(ecs)@,
            dx == delta_x,
            dy == delta_y,
            before.map.wf(),
            width == before.map.width,
            height == before.map.height,
            ecs.map@ == before.map,
            ecs.entities@.len() == old(ecs).entities@.len(),
            forall|k: int|
                0 <= k < i ==> (#[trigger] ecs.entities@[k])@ == old(ecs).entities@[k]@.moved(
                    before.map,
                    dx,
                    dy,
                ),
            forall|k: int|
                i <= k < ecs.entities@.len() ==> (#[trigger] ecs.entities@[k])@ == old(
                    ecs,
                ).entities@[k]@,
            ecs.player_pos == before.cache_after(dx, dy, i as int),
        decreases ecs.entities.len() - i,
    {
        assert(before.entities[i as int] == old(ecs).entities@[i as int]@);
        if ecs.entities[i].player.is_some() && ecs.entities[i].viewshed.is_some() {
            if let Some(pos) = ecs.entities[i].position {
                let dest_x: i64 = pos.x as i64 + delta_x as i64;
                let dest_y: i64 = pos.y as i64 + delta_y as i64;
                let on_grid = 0 <= dest_x && dest_x < width as i64 && 0 <= dest_y && dest_y < height as i64;
                if on_grid && ecs.map.walkable(dest_x as i32, dest_y as i32) {
                    let x = hold(dest_x, width - 1);
                    let y = hold(dest_y, height - 1);
                    let to = Position { x, y };
                    ecs.entities[i].position = Some(to);
                    match &mut ecs.entities[i].viewshed {
                        Some(viewshed) => {
                            viewshed.dirty = true;
                        },
                        None => {},
                    }
                    ecs.player_pos = to.coord();
                }
            }
        }
        i += 1;
    }
    assert(ecs@.entities =~= before.try_move(dx, dy).entities);
    proof {
        if before.wf() {
            law_move_keeps_wf(before, dx, dy);
        }
    }
}

/// Maps the key of a frame to the step it asks for.
pub fn movement_intent(key: Option<Key>) -> (intent: Option<(i32, i32)>)
    ensures
        intent == intent_of(key),
{
    match key {
        Some(Key::Left) | Some(Key::Numpad4) => Some((-1, 0)),
        Some(Key::Right) | Some(Key::Numpad6) => Some((1, 0)),
        Some(Key::Up) | Some(Key::Numpad8) => Some((0, -1)),
        Some(Key::Down) | Some(Key::Numpad2) => Some((0, 1)),
        _ => None,
    }
}

/// Handles the input of a paused frame. A recognised movement key moves the
/// player, if the way is free, and asks for a tick; any other key, or none,
/// leaves the world alone and the game paused.
pub fn player_input(gs: &mut State, key: Option<Key>) -> (next: RunState)
    ensures
        next == runstate_after_input(key),
        final(gs)@.ecs == old(gs)@.ecs.after_input(key),
        final(gs).runstate == old(gs).runstate,
        old(gs)@.ecs.wf() ==> final(gs)@.ecs.wf(),
{
    match movement_intent(key) {
        None => RunState::Paused,
        Some((dx, dy)) => {
            try_move_player(dx, dy, &mut gs.ecs);
            RunState::Running
        },
    }
}

/// `v` held to `0..=hi`.
fn hold(v: i64, hi: i32) -> (held: i32)
    requires
        0 <= hi,
    ensures
        held == clamp(v as int, 0, hi as int),
{
    if v < 0 {
        0
    } else if v > hi as i64 {
        hi
    } else {
        v as i32
    }
}

} // verus!
