use roguelike::{
    Coord, EnemyAI, Entity, Key, Name, Position, Reaction, RunState, Sighting, State, TileMap,
    TileType, Viewshed, VisibilitySystem, World, MAX_RANGE,
};

fn field(width: i32, height: i32) -> TileMap {
    TileMap::new(width, height, vec![TileType::Floor; (width * height) as usize]).unwrap()
}

fn hero(x: i32, y: i32) -> Entity {
    Entity::new()
        .with_position(Position { x, y })
        .with_viewshed(Viewshed::new(8))
        .with_name(Name { name: "Player".to_string() })
        .with_player()
}

fn foe(x: i32, y: i32, range: i32, name: &str) -> Entity {
    Entity::new()
        .with_position(Position { x, y })
        .with_viewshed(Viewshed::new(range))
        .with_name(Name { name: name.to_string() })
        .with_enemy()
}

fn start(player: (i32, i32), foes: Vec<Entity>) -> State {
    let mut world = World::new(field(80, 50), Coord { x: player.0, y: player.1 });
    for e in foes {
        world.create_entity(e);
    }
    world.create_entity(hero(player.0, player.1));
    State::new(world).unwrap()
}

fn dirty_flags(gs: &State) -> Vec<bool> {
    gs.ecs.entities.iter().filter_map(|e| e.viewshed.as_ref().map(|v| v.dirty)).collect()
}

fn seen_by(gs: &State, entity: usize) -> &Vec<Coord> {
    &gs.ecs.entities[entity].viewshed.as_ref().unwrap().visible_tiles
}

#[test]
fn game_starts_running() {
    let gs = start((5, 5), Vec::new());
    assert_eq!(gs.runstate, RunState::Running);
}

#[test]
fn first_frame_computes_every_viewshed_and_pauses() {
    let mut gs = start((5, 5), vec![foe(40, 40, 8, "weak enemy #0")]);
    assert_eq!(dirty_flags(&gs), vec![true, true]);
    let signals = gs.tick(Some(Key::Left));
    assert!(signals.is_empty());
    assert_eq!(gs.runstate, RunState::Paused);
    assert_eq!(dirty_flags(&gs), vec![false, false]);
    assert_eq!(gs.ecs.entities[1].position, Some(Position { x: 5, y: 5 }));
    assert!(seen_by(&gs, 1).contains(&Coord { x: 5, y: 5 }));
    assert!(seen_by(&gs, 0).contains(&Coord { x: 40, y: 40 }));
}

#[test]
fn running_frame_ignores_the_key() {
    let mut gs = start((5, 5), Vec::new());
    gs.tick(Some(Key::Right));
    assert_eq!(gs.ecs.entities[0].position, Some(Position { x: 5, y: 5 }));
    assert_eq!(gs.ecs.player_pos, Coord { x: 5, y: 5 });
}

#[test]
fn paused_frame_without_key_does_nothing() {
    let mut gs = start((5, 5), vec![foe(7, 5, 8, "weak enemy #0")]);
    gs.tick(None);
    let before = gs.clone();
    for key in [None, Some(Key::Other)] {
        let signals = gs.tick(key);
        assert!(signals.is_empty());
        assert_eq!(gs, before);
    }
}

#[test]
fn paused_frame_with_movement_key_moves_and_runs_next() {
    let mut gs = start((5, 5), Vec::new());
    gs.tick(None);
    let seen = seen_by(&gs, 0).clone();
    let signals = gs.tick(Some(Key::Down));
    assert!(signals.is_empty());
    assert_eq!(gs.runstate, RunState::Running);
    assert_eq!(gs.ecs.entities[0].position, Some(Position { x: 5, y: 6 }));
    assert_eq!(gs.ecs.player_pos, Coord { x: 5, y: 6 });
    assert_eq!(dirty_flags(&gs), vec![true]);
    assert_eq!(*seen_by(&gs, 0), seen);
}

#[test]
fn key_towards_a_wall_changes_nothing_but_still_takes_a_turn() {
    let (width, height) = (20, 20);
    let mut tiles = vec![TileType::Floor; (width * height) as usize];
    tiles[(5 * width + 6) as usize] = TileType::Wall;
    let mut world = World::new(TileMap::new(width, height, tiles).unwrap(), Coord { x: 5, y: 5 });
    world.create_entity(foe(15, 15, 3, "weak enemy #0"));
    world.create_entity(hero(5, 5));
    let mut gs = State::new(world).unwrap();
    assert!(gs.tick(None).is_empty());
    let before = gs.clone();
    let signals = gs.tick(Some(Key::Right));
    assert!(signals.is_empty());
    assert_eq!(gs.ecs, before.ecs);
    assert_eq!(gs.ecs.entities[1].position, Some(Position { x: 5, y: 5 }));
    assert_eq!(gs.ecs.player_pos, Coord { x: 5, y: 5 });
    assert!(!gs.ecs.entities[1].viewshed.as_ref().unwrap().dirty);
    assert_eq!(gs.runstate, RunState::Running);
    let signals = gs.tick(None);
    assert!(signals.is_empty());
    assert_eq!(gs, before);
}

#[test]
fn one_tick_per_action() {
    let mut gs = start((5, 5), Vec::new());
    let keys = [None, None, Some(Key::Left), None, None, Some(Key::Other), Some(Key::Up), Some(Key::Up), Some(Key::Up), None];
    let expected_after = [
        RunState::Paused,
        RunState::Paused,
        RunState::Running,
        RunState::Paused,
        RunState::Paused,
        RunState::Paused,
        RunState::Running,
        RunState::Paused,
        RunState::Running,
        RunState::Paused,
    ];
    let mut ran = Vec::new();
    for (key, expected) in keys.iter().zip(expected_after.iter()) {
        ran.push(gs.runstate == RunState::Running);
        gs.tick(*key);
        assert_eq!(gs.runstate, *expected);
    }
    assert_eq!(ran, vec![true, false, false, true, false, false, false, true, false, true]);
    for pair in ran.windows(2) {
        assert!(!(pair[0] && pair[1]));
    }
    assert_eq!(gs.ecs.entities[0].position, Some(Position { x: 4, y: 3 }));
}

#[test]
fn moved_player_is_stale_until_the_next_tick() {
    let mut gs = start((5, 5), vec![foe(40, 40, 8, "weak enemy #0")]);
    gs.tick(None);
    assert_eq!(dirty_flags(&gs), vec![false, false]);
    assert!(seen_by(&gs, 1).contains(&Coord { x: 13, y: 5 }));
    assert!(!seen_by(&gs, 1).contains(&Coord { x: 14, y: 5 }));
    gs.tick(Some(Key::Right));
    assert_eq!(dirty_flags(&gs), vec![false, true]);
    assert!(!seen_by(&gs, 1).contains(&Coord { x: 14, y: 5 }));
    gs.tick(None);
    assert_eq!(dirty_flags(&gs), vec![false, false]);
    assert!(seen_by(&gs, 1).contains(&Coord { x: 14, y: 5 }));
    assert!(!seen_by(&gs, 1).contains(&Coord { x: 15, y: 5 }));
}

#[test]
fn stale_viewsheds_are_listed_in_arena_order() {
    let mut world = World::new(field(80, 50), Coord { x: 5, y: 5 });
    world.create_entity(foe(40, 40, 6, "weak enemy #0"));
    world.create_entity(Entity::new().with_viewshed(Viewshed::new(4)));
    world.create_entity(foe(20, 20, 7, "weak enemy #1"));
    world.create_entity(Entity::new().with_position(Position { x: 1, y: 1 }));
    world.create_entity(hero(5, 5));
    assert_eq!(
        world.stale_viewsheds(),
        vec![
            Sighting { entity: 0, start: Coord { x: 40, y: 40 }, range: 6 },
            Sighting { entity: 2, start: Coord { x: 20, y: 20 }, range: 7 },
            Sighting { entity: 4, start: Coord { x: 5, y: 5 }, range: 8 },
        ]
    );
    world.refresh_viewshed(2, vec![Coord { x: 20, y: 20 }]);
    assert_eq!(
        world.stale_viewsheds(),
        vec![
            Sighting { entity: 0, start: Coord { x: 40, y: 40 }, range: 6 },
            Sighting { entity: 4, start: Coord { x: 5, y: 5 }, range: 8 },
        ]
    );
    VisibilitySystem {}.run(&mut world);
    assert_eq!(world.stale_viewsheds(), Vec::new());
}

#[test]
fn only_stale_viewsheds_are_recomputed() {
    let mut gs = start((5, 5), vec![foe(40, 40, 6, "weak enemy #0"), foe(20, 20, 7, "weak enemy #1")]);
    gs.tick(None);
    let marked = vec![Coord { x: 70, y: 45 }];
    gs.ecs.entities[0].viewshed.as_mut().unwrap().visible_tiles = marked.clone();
    gs.ecs.entities[1].viewshed.as_mut().unwrap().visible_tiles = marked.clone();
    gs.ecs.entities[2].viewshed.as_mut().unwrap().visible_tiles = marked.clone();
    gs.tick(Some(Key::Up));
    gs.tick(None);
    assert_eq!(*seen_by(&gs, 0), marked);
    assert_eq!(*seen_by(&gs, 1), marked);
    assert!(seen_by(&gs, 2).contains(&Coord { x: 5, y: 4 }));
    assert!(!seen_by(&gs, 2).contains(&Coord { x: 70, y: 45 }));
}

#[test]
fn visibility_stage_keeps_range_position_and_cache() {
    let mut world = World::new(field(20, 20), Coord { x: 3, y: 3 });
    world.create_entity(foe(10, 10, 5, "weak enemy #0"));
    world.create_entity(hero(3, 3));
    let before = world.clone();
    VisibilitySystem {}.run(&mut world);
    assert_eq!(world.map, before.map);
    assert_eq!(world.player_pos, before.player_pos);
    for (now, then) in world.entities.iter().zip(before.entities.iter()) {
        assert_eq!(now.position, then.position);
        assert_eq!(now.name, then.name);
        assert_eq!(now.player, then.player);
        assert_eq!(now.enemy, then.enemy);
        let (now, then) = (now.viewshed.as_ref().unwrap(), then.viewshed.as_ref().unwrap());
        assert_eq!(now.range, then.range);
        assert!(!now.dirty);
        assert!(!now.visible_tiles.is_empty());
    }
}

#[test]
fn viewshed_without_position_is_not_recomputed() {
    let mut world = World::new(field(20, 20), Coord { x: 3, y: 3 });
    world.create_entity(Entity::new().with_viewshed(Viewshed::new(4)));
    let before = world.clone();
    VisibilitySystem {}.run(&mut world);
    assert_eq!(world, before);
    world.refresh_viewshed(0, vec![Coord { x: 1, y: 1 }]);
    assert_eq!(world, before);
}

#[test]
fn viewshed_that_cannot_be_computed_stays_stale() {
    let unsound = [
        Entity::new().with_position(Position { x: 20, y: 3 }).with_viewshed(Viewshed::new(4)),
        Entity::new().with_position(Position { x: 3, y: -1 }).with_viewshed(Viewshed::new(4)),
        Entity::new().with_position(Position { x: 3, y: 3 }).with_viewshed(Viewshed::new(-1)),
        Entity::new().with_position(Position { x: 3, y: 3 }).with_viewshed(Viewshed::new(MAX_RANGE + 1)),
    ];
    for entity in unsound {
        let mut world = World::new(field(20, 20), Coord { x: 3, y: 3 });
        world.create_entity(entity);
        let before = world.clone();
        assert_eq!(world.stale_viewsheds(), Vec::new());
        VisibilitySystem {}.run(&mut world);
        assert_eq!(world, before);
        world.refresh_viewshed(0, vec![Coord { x: 1, y: 1 }]);
        assert_eq!(world, before);
    }
}

#[test]
fn refresh_stores_tiles_and_clears_the_mark() {
    let mut world = World::new(field(20, 20), Coord { x: 3, y: 3 });
    world.create_entity(hero(3, 3));
    world.refresh_viewshed(0, vec![Coord { x: 3, y: 3 }, Coord { x: 4, y: 3 }]);
    let viewshed = world.entities[0].viewshed.as_ref().unwrap();
    assert_eq!(viewshed.visible_tiles, vec![Coord { x: 3, y: 3 }, Coord { x: 4, y: 3 }]);
    assert!(!viewshed.dirty);
    assert_eq!(viewshed.range, 8);
}

#[test]
fn refresh_leaves_a_fresh_viewshed_alone() {
    let mut world = World::new(field(20, 20), Coord { x: 3, y: 3 });
    world.create_entity(hero(3, 3));
    world.refresh_viewshed(0, vec![Coord { x: 3, y: 3 }]);
    let before = world.clone();
    world.refresh_viewshed(0, vec![Coord { x: 7, y: 7 }]);
    assert_eq!(world, before);
}

#[test]
fn refresh_of_a_missing_entity_does_nothing() {
    let mut world = World::new(field(20, 20), Coord { x: 3, y: 3 });
    world.create_entity(hero(3, 3));
    let before = world.clone();
    world.refresh_viewshed(1, vec![Coord { x: 7, y: 7 }]);
    world.refresh_viewshed(usize::MAX, vec![Coord { x: 7, y: 7 }]);
    assert_eq!(world, before);
}

#[test]
fn enemy_reacts_exactly_if_it_sees_the_cached_coordinate() {
    let mut world = World::new(field(20, 20), Coord { x: 3, y: 3 });
    let mut near = foe(5, 5, 8, "weak enemy #0");
    near.viewshed = Some(Viewshed { visible_tiles: vec![Coord { x: 2, y: 3 }, Coord { x: 3, y: 3 }], range: 8, dirty: false });
    let mut far = foe(15, 15, 8, "strong enemy #1");
    far.viewshed = Some(Viewshed { visible_tiles: vec![Coord { x: 3, y: 4 }, Coord { x: 4, y: 3 }], range: 8, dirty: false });
    world.create_entity(near);
    world.create_entity(far);
    world.create_entity(hero(3, 3));
    let before = world.clone();
    let signals = EnemyAI {}.run(&world);
    assert_eq!(signals, vec![Reaction { entity: 0, name: "weak enemy #0".to_string() }]);
    assert_eq!(world, before);
}

#[test]
fn every_enemy_is_evaluated_in_arena_order() {
    let mut world = World::new(field(20, 20), Coord { x: 3, y: 3 });
    for i in 0..5 {
        let mut e = foe(10, 10, 8, &format!("weak enemy #{}", i));
        let sees = if i % 2 == 0 { vec![Coord { x: 3, y: 3 }] } else { vec![Coord { x: 3, y: 2 }] };
        e.viewshed = Some(Viewshed { visible_tiles: sees, range: 8, dirty: false });
        world.create_entity(e);
    }
    let signals = EnemyAI {}.run(&world);
    assert_eq!(
        signals,
        vec![
            Reaction { entity: 0, name: "weak enemy #0".to_string() },
            Reaction { entity: 2, name: "weak enemy #2".to_string() },
            Reaction { entity: 4, name: "weak enemy #4".to_string() },
        ]
    );
}

#[test]
fn entities_that_are_no_complete_enemies_never_react() {
    let mut world = World::new(field(20, 20), Coord { x: 3, y: 3 });
    let sees_player = Viewshed { visible_tiles: vec![Coord { x: 3, y: 3 }], range: 8, dirty: false };
    world.create_entity(Entity::new().with_viewshed(sees_player.clone()).with_name(Name { name: "Player".to_string() }).with_player());
    world.create_entity(Entity::new().with_viewshed(sees_player.clone()).with_enemy());
    world.create_entity(Entity::new().with_name(Name { name: "blind".to_string() }).with_enemy());
    world.create_entity(Entity::new().with_viewshed(sees_player).with_name(Name { name: "ghost".to_string() }).with_enemy());
    let signals = EnemyAI {}.run(&world);
    assert_eq!(signals, vec![Reaction { entity: 3, name: "ghost".to_string() }]);
}

#[test]
fn reaction_uses_the_viewshed_of_this_tick() {
    let mut gs = start((30, 3), vec![foe(10, 5, 8, "strong enemy #0")]);
    gs.ecs.entities[0].viewshed = Some(Viewshed { visible_tiles: vec![Coord { x: 30, y: 3 }], range: 8, dirty: true });
    let signals = gs.tick(None);
    assert!(signals.is_empty());
    assert!(!seen_by(&gs, 0).contains(&Coord { x: 30, y: 3 }));
}

#[test]
fn run_systems_recomputes_then_reacts_and_keeps_the_run_state() {
    for runstate in [RunState::Paused, RunState::Running] {
        let mut gs = start((10, 3), vec![foe(10, 5, 8, "strong enemy #0")]);
        gs.runstate = runstate;
        let signals = gs.run_systems();
        assert_eq!(signals, vec![Reaction { entity: 0, name: "strong enemy #0".to_string() }]);
        assert_eq!(gs.runstate, runstate);
        assert_eq!(dirty_flags(&gs), vec![false, false]);
    }
}
