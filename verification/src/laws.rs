//! What holds of the game as a whole, proved from the definitions of its
//! transitions.

use vstd::prelude::*;
use crate::components::{Coord, EntityView};
use crate::enemy_ai_system::ReactionView;
use crate::map::GridView;
use crate::player::{clamp, intent_of, Key};
use crate::sight::sight;
use crate::state::{RunState, StateView};
use crate::world::{lemma_player_is_unique, WorldView};

verus! {

/// A stretch of play: every state follows from the one before it by one
/// frame, `keys[i]` being the key of frame `i`.
pub open spec fn is_play(states: Seq<StateView>, keys: Seq<Option<Key>>) -> bool {
    &&& states.len() == keys.len() + 1
    &&& forall|i: int| 0 <= i < keys.len() ==> (#[trigger] states[i]).steps_to(keys[i], states[i + 1])
}

/// A game from its start: a stretch of play whose first state is the start of
/// a game over a well formed world.
pub open spec fn is_run(states: Seq<StateView>, keys: Seq<Option<Key>>) -> bool {
    &&& is_play(states, keys)
    &&& states[0].ecs.wf()
    &&& states[0] == StateView::initial(states[0].ecs)
}

/// The world after `n` attempts in a row to move the player by `(dx, dy)`.
pub open spec fn moved_times(w: WorldView, dx: int, dy: int, n: nat) -> WorldView
    decreases n,
{
    if n == 0 {
        w
    } else {
        moved_times(w, dx, dy, (n - 1) as nat).try_move(dx, dy)
    }
}

/// Whether one of `signals` comes from entity `i`.
pub open spec fn fires(signals: Seq<ReactionView>, i: int) -> bool {
    exists|k: int| 0 <= k < signals.len() && (#[trigger] signals[k]).entity == i
}

/// The destination of a move lies on the grid, and a committed move ends
/// exactly on the tile it asked for: holding the destination to the bounds of
/// the grid changes nothing then.
pub proof fn lemma_destination_on_grid(e: EntityView, map: GridView, dx: int, dy: int)
    requires
        map.wf(),
        e.position is Some,
    ensures
        map.in_bounds(e.destination(map, dx, dy).x as int, e.destination(map, dx, dy).y as int),
        e.can_move(map, dx, dy) ==> e.destination(map, dx, dy).x == e.position->0.x + dx
            && e.destination(map, dx, dy).y == e.position->0.y + dy,
{
    let x = clamp(e.position->0.x + dx, 0, map.max_x());
    let y = clamp(e.position->0.y + dy, 0, map.max_y());
    assert(0 <= x <= map.max_x() && 0 <= y <= map.max_y());
    assert(x as i32 == x && y as i32 == y);
}

/// With a single player, the cache after a move attempt is the player's
/// destination if the move was committed, and the old cache if not.
proof fn lemma_cache_follows_player(w: WorldView, p: int, dx: int, dy: int, n: int)
    requires
        w.sole_player(p),
        0 <= n <= w.entities.len(),
    ensures
        w.cache_after(dx, dy, n) == if p < n && w.entities[p].can_move(w.map, dx, dy) {
            w.entities[p].destination(w.map, dx, dy).coord()
        } else {
            w.player_pos
        },
    decreases n,
{
    if n > 0 {
        lemma_cache_follows_player(w, p, dx, dy, n - 1);
        if n - 1 != p {
            assert(!w.entities[n - 1].player);
        }
    }
}

/// A move attempt keeps a well formed world well formed: there is still one
/// player, every position is still on the grid, and the cached coordinate is
/// still the player's position.
pub proof fn law_move_keeps_wf(w: WorldView, dx: int, dy: int)
    requires
        w.wf(),
    ensures
        w.try_move(dx, dy).wf(),
        w.try_move(dx, dy).player() == w.player(),
{
    let after = w.try_move(dx, dy);
    let p = w.player();
    assert(w.sole_player(p));
    assert forall|j: int| after.has_entity(j) implies (#[trigger] after.entities[j]).player
        == w.entities[j].player && after.entities[j].placed_on(after.map)
        && after.entities[j].looks_within_limits() by {
        assert(w.entities[j].placed_on(w.map));
        assert(w.entities[j].looks_within_limits());
        if w.entities[j].position is Some {
            lemma_destination_on_grid(w.entities[j], w.map, dx, dy);
        }
    }
    assert(after.sole_player(p));
    lemma_player_is_unique(after, p);
    lemma_cache_follows_player(w, p, dx, dy, w.entities.len() as int);
}

/// A pass of the visibility stage keeps a well formed world well formed, and
/// moves nobody and nothing but viewsheds.
pub proof fn law_refresh_keeps_wf(w: WorldView, after: WorldView)
    requires
        w.wf(),
        w.refreshed_to(after),
    ensures
        after.wf(),
        after.player() == w.player(),
        after.player_pos == w.player_pos,
        forall|j: int| w.has_entity(j) ==> (#[trigger] after.entities[j]).position == w.entities[j].position,
{
    let p = w.player();
    assert(w.sole_player(p));
    assert forall|j: int| after.has_entity(j) implies (#[trigger] after.entities[j]).player
        == w.entities[j].player && after.entities[j].position == w.entities[j].position
        && after.entities[j].placed_on(after.map) && after.entities[j].looks_within_limits() && (
    after.entities[j].viewshed is Some <==> w.entities[j].viewshed is Some) by {
        assert(w.entities[j].placed_on(w.map));
        assert(w.entities[j].looks_within_limits());
    }
    assert(after.sole_player(p));
    lemma_player_is_unique(after, p);
}

/// One frame keeps a well formed world well formed.
pub proof fn law_frame_keeps_wf(s: StateView, key: Option<Key>, after: StateView)
    requires
        s.ecs.wf(),
        s.steps_to(key, after),
    ensures
        after.ecs.wf(),
{
    match s.runstate {
        RunState::Running => {
            law_refresh_keeps_wf(s.ecs, after.ecs);
        },
        RunState::Paused => {
            match intent_of(key) {
                Some((dx, dy)) => {
                    law_move_keeps_wf(s.ecs, dx as int, dy as int);
                },
                None => {},
            }
        },
    }
}

/// In every state that a game can reach the player stands on the grid, and
/// the cached player coordinate is the player's position.
pub proof fn law_player_on_grid_and_cached(states: Seq<StateView>, keys: Seq<Option<Key>>, n: int)
    requires
        is_run(states, keys),
        0 <= n < states.len(),
    ensures
        states[n].ecs.wf(),
        ({
            let w = states[n].ecs;
            let at = w.entities[w.player()].position->0;
            &&& 0 <= at.x <= w.map.max_x()
            &&& 0 <= at.y <= w.map.max_y()
            &&& w.player_pos == at.coord()
        }),
    decreases n,
{
    if n > 0 {
        law_player_on_grid_and_cached(states, keys, n - 1);
        assert(states[n - 1].steps_to(keys[n - 1], states[n]));
        law_frame_keeps_wf(states[n - 1], keys[n - 1], states[n]);
    }
    let w = states[n].ecs;
    let p = w.player();
    assert(w.sole_player(p));
    assert(w.entities[p].placed_on(w.map));
}

/// Right after a committed move the cached player coordinate is the new
/// position of the player, and the visibility stage of the same tick changes
/// neither, so the reaction stage reads the position the player moved to.
pub proof fn law_cache_mirrors_moved_player(w: WorldView, dx: int, dy: int, seen: WorldView)
    requires
        w.wf(),
        w.entities[w.player()].can_move(w.map, dx, dy),
        w.try_move(dx, dy).refreshed_to(seen),
    ensures
        ({
            let moved = w.try_move(dx, dy);
            let p = w.player();
            &&& moved.entities[p].position == Some(w.entities[p].destination(w.map, dx, dy))
            &&& moved.player_pos == moved.entities[p].position->0.coord()
            &&& seen.entities[p].position == moved.entities[p].position
            &&& seen.player_pos == moved.player_pos
        }),
{
    let p = w.player();
    assert(w.sole_player(p));
    law_move_keeps_wf(w, dx, dy);
    law_refresh_keeps_wf(w.try_move(dx, dy), seen);
    assert(seen.has_entity(p));
}

/// A move that no entity can make changes nothing at all.
pub proof fn law_blocked_move_changes_nothing(w: WorldView, dx: int, dy: int)
    requires
        forall|i: int| w.has_entity(i) ==> !(#[trigger] w.entities[i]).can_move(w.map, dx, dy),
    ensures
        w.try_move(dx, dy) == w,
{
    lemma_blocked_cache(w, dx, dy, w.entities.len() as int);
    assert(w.try_move(dx, dy).entities =~= w.entities);
}

proof fn lemma_blocked_cache(w: WorldView, dx: int, dy: int, n: int)
    requires
        forall|i: int| w.has_entity(i) ==> !(#[trigger] w.entities[i]).can_move(w.map, dx, dy),
        0 <= n <= w.entities.len(),
    ensures
        w.cache_after(dx, dy, n) == w.player_pos,
    decreases n,
{
    if n > 0 {
        lemma_blocked_cache(w, dx, dy, n - 1);
        assert(!w.entities[n - 1].can_move(w.map, dx, dy));
    }
}

/// Walking into a wall, however often, changes neither the position nor the
/// stale mark nor the cached coordinate: the world stays exactly as it was.
pub proof fn law_wall_is_idempotent(w: WorldView, dx: int, dy: int, n: nat)
    requires
        w.wf(),
        !w.map.walkable(
            w.entities[w.player()].position->0.x + dx,
            w.entities[w.player()].position->0.y + dy,
        ),
    ensures
        moved_times(w, dx, dy, n) == w,
    decreases n,
{
    if n > 0 {
        law_wall_is_idempotent(w, dx, dy, (n - 1) as nat);
        let p = w.player();
        assert(w.sole_player(p));
        assert forall|i: int| w.has_entity(i) implies !(#[trigger] w.entities[i]).can_move(
            w.map,
            dx,
            dy,
        ) by {
            if i != p {
                assert(!w.entities[i].player);
            }
        }
        law_blocked_move_changes_nothing(w, dx, dy);
    }
}

/// An entity whose position a move attempt has changed has a stale viewshed
/// right after the move, and a fresh one right after the visibility stage
/// that follows.
pub proof fn law_moved_entity_is_stale_then_fresh(
    w: WorldView,
    dx: int,
    dy: int,
    seen: WorldView,
    i: int,
)
    requires
        w.wf(),
        w.has_entity(i),
        w.try_move(dx, dy).entities[i].position != w.entities[i].position,
        w.try_move(dx, dy).refreshed_to(seen),
    ensures
        w.try_move(dx, dy).entities[i].viewshed is Some,
        w.try_move(dx, dy).entities[i].viewshed->0.dirty,
        seen.entities[i].viewshed is Some,
        !seen.entities[i].viewshed->0.dirty,
{
    let moved = w.try_move(dx, dy);
    law_move_keeps_wf(w, dx, dy);
    assert(moved.entities[i] == w.entities[i].moved(w.map, dx, dy));
    assert(moved.has_entity(i));
    assert(moved.entities[i].placed_on(moved.map));
    assert(moved.entities[i].looks_within_limits());
    assert(seen.entities[i] == moved.entities[i].refreshed(
        moved.map,
        seen.entities[i].visible_tiles(),
    ));
}

/// After the visibility stage of a well formed world no entity with a
/// position has a stale viewshed, so the reaction stage evaluates nothing out
/// of date.
pub proof fn law_refresh_leaves_nothing_stale(w: WorldView, seen: WorldView, i: int)
    requires
        w.wf(),
        w.refreshed_to(seen),
        w.has_entity(i),
        seen.entities[i].position is Some,
        seen.entities[i].viewshed is Some,
    ensures
        !seen.entities[i].viewshed->0.dirty,
{
    assert(w.entities[i].placed_on(w.map));
    assert(w.entities[i].looks_within_limits());
    assert(seen.entities[i] == w.entities[i].refreshed(w.map, seen.entities[i].visible_tiles()));
}

/// A viewshed that the visibility stage has recomputed lists what is in sight
/// of its entity within its range: the tile on which the entity stands is
/// part of it, and nothing off the grid is.
pub proof fn law_fresh_viewshed_lists_the_sight(w: WorldView, seen: WorldView, i: int)
    requires
        w.refreshed_to(seen),
        w.has_entity(i),
        w.entities[i].awaits_refresh(w.map),
    ensures
        seen.entities[i].viewshed is Some,
        seen.entities[i].position == w.entities[i].position,
        forall|p: Coord|
            seen.entities[i].viewshed->0.sees(p) <==> sight(
                w.map,
                w.entities[i].position->0.coord(),
                w.entities[i].viewshed->0.range,
            ).contains(p),
        seen.entities[i].viewshed->0.sees(seen.entities[i].position->0.coord()),
        forall|p: Coord| seen.entities[i].viewshed->0.sees(p) ==> w.map.in_bounds(p.x as int, p.y as int),
{
    let tiles = seen.entities[i].visible_tiles();
    assert(seen.entities[i] == w.entities[i].refreshed(w.map, tiles));
    assert(w.map.shows(w.entities[i].position->0.coord(), w.entities[i].viewshed->0.range, tiles));
    assert forall|p: Coord| tiles.contains(p) <==> tiles.to_set().contains(p) by {}
    assert forall|p: Coord| tiles.contains(p) implies w.map.in_bounds(p.x as int, p.y as int) by {
        let k = choose|k: int| 0 <= k < tiles.len() && tiles[k] == p;
        assert(w.map.in_bounds(tiles[k].x as int, tiles[k].y as int));
    }
}

/// The reactions among the first `n` entities: one for each that notices the
/// player, none for any other, each with the name of its entity, in the order
/// of the arena.
proof fn lemma_reactions_among(w: WorldView, n: int)
    requires
        0 <= n <= w.entities.len(),
    ensures
        forall|i: int|
            #[trigger] fires(w.reactions_among(n), i) <==> 0 <= i < n && w.entities[i].notices(
                w.player_pos,
            ),
        forall|k: int|
            0 <= k < w.reactions_among(n).len() ==> {
                let r = #[trigger] w.reactions_among(n)[k];
                0 <= r.entity < n && w.entities[r.entity].name == Some(r.name)
            },
        forall|k: int, l: int|
            0 <= k < l < w.reactions_among(n).len() ==> (#[trigger] w.reactions_among(n)[k]).entity < (
            #[trigger] w.reactions_among(n)[l]).entity,
    decreases n,
{
    if n > 0 {
        lemma_reactions_among(w, n - 1);
        let before = w.reactions_among(n - 1);
        let now = w.reactions_among(n);
        if w.entities[n - 1].notices(w.player_pos) {
            let last = ReactionView { entity: n - 1, name: w.entities[n - 1].name->0 };
            assert(now == before.push(last));
            assert(now[before.len() as int] == last);
            assert forall|i: int| #[trigger] fires(now, i) <==> 0 <= i < n && w.entities[i].notices(
                w.player_pos,
            ) by {
                if fires(now, i) {
                    let k = choose|k: int| 0 <= k < now.len() && (#[trigger] now[k]).entity == i;
                    if k < before.len() {
                        assert(before[k] == now[k]);
                        assert(fires(before, i));
                    }
                }
                if 0 <= i < n - 1 && w.entities[i].notices(w.player_pos) {
                    assert(fires(before, i));
                    let k = choose|k: int| 0 <= k < before.len() && (#[trigger] before[k]).entity == i;
                    assert(now[k] == before[k]);
                }
            }
            assert forall|k: int, l: int| 0 <= k < l < now.len() implies (#[trigger] now[k]).entity < (
            #[trigger] now[l]).entity by {
                if l < before.len() {
                    assert(now[k] == before[k] && now[l] == before[l]);
                } else {
                    assert(now[k] == before[k]);
                }
            }
        } else {
            assert(now == before);
        }
    }
}

/// The reaction stage fires for an entity exactly if it is an enemy with a
/// viewshed and a name whose visible coordinates hold the cached player
/// coordinate. It fires at most once for each, with the name of the enemy,
/// and in the order of the arena.
pub proof fn law_reaction_iff_player_seen(w: WorldView)
    ensures
        forall|i: int|
            #[trigger] fires(w.reactions(), i) <==> w.has_entity(i) && w.entities[i].notices(
                w.player_pos,
            ),
        forall|k: int|
            0 <= k < w.reactions().len() ==> {
                let r = #[trigger] w.reactions()[k];
                w.has_entity(r.entity) && w.entities[r.entity].name == Some(r.name)
            },
        forall|k: int, l: int|
            0 <= k < l < w.reactions().len() ==> (#[trigger] w.reactions()[k]).entity < (
            #[trigger] w.reactions()[l]).entity,
{
    lemma_reactions_among(w, w.entities.len() as int);
}

/// In a tick that follows a move, an enemy reacts exactly if the coordinates
/// that the visibility stage of this tick has left in its viewshed hold the
/// coordinate that the move has cached. For an enemy whose viewshed this tick
/// has recomputed, that is to say: exactly if the cached coordinate is in
/// sight of the enemy within its range.
pub proof fn law_tick_reacts_to_fresh_view(moved: WorldView, seen: WorldView, i: int)
    requires
        moved.refreshed_to(seen),
        moved.has_entity(i),
    ensures
        fires(seen.reactions(), i) <==> seen.entities[i].watches() && seen.entities[i].viewshed->0.sees(
            moved.player_pos,
        ),
        seen.entities[i].watches() <==> moved.entities[i].watches(),
        moved.entities[i].awaits_refresh(moved.map) ==> (seen.entities[i].viewshed->0.sees(
            moved.player_pos,
        ) <==> sight(
            moved.map,
            moved.entities[i].position->0.coord(),
            moved.entities[i].viewshed->0.range,
        ).contains(moved.player_pos)),
{
    law_reaction_iff_player_seen(seen);
    assert(seen.has_entity(i));
    assert(seen.entities[i] == moved.entities[i].refreshed(
        moved.map,
        seen.entities[i].visible_tiles(),
    ));
    assert(fires(seen.reactions(), i) <==> seen.entities[i].notices(seen.player_pos));
    if moved.entities[i].awaits_refresh(moved.map) {
        let tiles = seen.entities[i].visible_tiles();
        assert(moved.map.shows(
            moved.entities[i].position->0.coord(),
            moved.entities[i].viewshed->0.range,
            tiles,
        ));
        assert(tiles.contains(moved.player_pos) <==> tiles.to_set().contains(moved.player_pos));
    }
}

proof fn lemma_shown_among(w: WorldView, n: int)
    requires
        0 <= n <= w.entities.len(),
    ensures
        forall|i: int| #[trigger] w.shown_among(n).contains(i) <==> 0 <= i < n && w.shown(i),
        forall|k: int, l: int|
            0 <= k < l < w.shown_among(n).len() ==> w.shown_among(n)[k] < w.shown_among(n)[l],
    decreases n,
{
    if n > 0 {
        lemma_shown_among(w, n - 1);
        let before = w.shown_among(n - 1);
        let now = w.shown_among(n);
        if w.shown(n - 1) {
            assert(now == before.push(n - 1));
            assert(now[before.len() as int] == n - 1);
            assert(now.contains(n - 1));
            assert forall|i: int| #[trigger] now.contains(i) <==> 0 <= i < n && w.shown(i) by {
                if now.contains(i) {
                    let k = choose|k: int| 0 <= k < now.len() && now[k] == i;
                    if k < before.len() {
                        assert(before[k] == i);
                        assert(before.contains(i));
                    }
                }
                if 0 <= i < n - 1 && w.shown(i) {
                    assert(before.contains(i));
                    let k = choose|k: int| 0 <= k < before.len() && before[k] == i;
                    assert(now[k] == i);
                    assert(now.contains(i));
                }
            }
            assert forall|k: int, l: int| 0 <= k < l < now.len() implies now[k] < now[l] by {
                assert(now[k] == before[k]);
                assert(before.contains(before[k]));
                assert(before[k] < n - 1);
                if l < before.len() {
                    assert(now[l] == before[l]);
                }
            }
        } else {
            assert(now == before);
        }
    }
}

/// An entity is offered for drawing exactly if it stands on a tile that the
/// player currently sees; each such entity is offered once, in the order of
/// the arena.
pub proof fn law_drawn_iff_in_view(w: WorldView)
    ensures
        forall|i: int| #[trigger] w.visible_entities().contains(i) <==> w.shown(i),
        forall|k: int, l: int|
            0 <= k < l < w.visible_entities().len() ==> w.visible_entities()[k]
                < w.visible_entities()[l],
{
    lemma_shown_among(w, w.entities.len() as int);
}

/// A frame that runs the pipeline is always followed by a paused frame, and a
/// frame after another runs the pipeline only if the one before it was paused
/// and got a recognised movement key. A paused frame without such a key
/// changes nothing.
pub proof fn law_one_tick_per_action(states: Seq<StateView>, keys: Seq<Option<Key>>, n: int)
    requires
        is_play(states, keys),
        0 <= n < keys.len(),
    ensures
        states[n].runstate == RunState::Running ==> states[n + 1].runstate == RunState::Paused,
        states[n + 1].runstate == RunState::Running ==> states[n].runstate == RunState::Paused
            && intent_of(keys[n]) is Some,
        states[n].runstate == RunState::Paused && intent_of(keys[n]) is None ==> states[n + 1]
            == states[n],
{
    assert(states[n].steps_to(keys[n], states[n + 1]));
}

} // verus!
