use rltk::{Algorithm2D, BaseMap, SmallVec};
use roguelike::components::{BlocksTile, CombatStats, Entity, Name, Position};
use roguelike::entity_spawn::{monster, player, potion};
use roguelike::geometry::{Point, Rect};
use roguelike::map::GameMap;
use roguelike::monster_syst::{MonsterAI, MonsterPlan};
use roguelike::player::Command;
use roguelike::state::{Stage, State, Step};
use roguelike::visibility_syst::VisibilitySystem;
use roguelike::world::{RunState, Slot, World};

struct Grid<'a> {
    world: &'a World,
}

impl<'a> BaseMap for Grid<'a> {
    fn is_opaque(&self, idx: usize) -> bool {
        self.world.is_opaque(idx as i32)
    }

    fn get_available_exits(&self, idx: usize) -> SmallVec<[(usize, f32); 10]> {
        let mut exits = SmallVec::new();
        for exit in self.world.map.get_available_exits(idx as i32) {
            exits.push((exit as usize, 1.0));
        }
        exits
    }

    fn get_pathing_distance(&self, idx1: usize, idx2: usize) -> f32 {
        let a = self.world.map.index_to_point2d(idx1 as i32);
        let b = self.world.map.index_to_point2d(idx2 as i32);
        rltk::DistanceAlg::Pythagoras.distance2d(rltk::Point::new(a.x, a.y), rltk::Point::new(b.x, b.y))
    }
}

impl<'a> Algorithm2D for Grid<'a> {
    fn dimensions(&self) -> rltk::Point {
        rltk::Point::new(self.world.map.width, self.world.map.height)
    }
}

fn fields_of_view(world: &World) -> Vec<Vec<Point>> {
    (0..world.len())
        .map(|i| match VisibilitySystem::origin(world, i) {
            Some((at, range)) => {
                rltk::field_of_view(rltk::Point::new(at.x, at.y), range, &Grid { world })
                    .into_iter()
                    .map(|p| Point::new(p.x, p.y))
                    .collect()
            }
            None => Vec::new(),
        })
        .collect()
}

fn run_tick(state: &mut State, command: Option<Command>) -> Step {
    let mut step = state.tick(command);
    loop {
        match step {
            Step::NeedSight => {
                let fov = fields_of_view(&state.ecs);
                step = state.sight(&fov);
            }
            Step::NeedPath { start, goal, .. } => {
                let path = rltk::a_star_search(start, goal, &Grid { world: &state.ecs });
                step = state.path(path.success, &path.steps);
            }
            other => return other,
        }
    }
}

fn corridor(length: i32) -> World {
    let mut map = GameMap::new(length + 2, 5);
    map.apply_tunnel_h(1, length, 2);
    World::new(map, 10)
}

fn hall(w: i32, h: i32) -> World {
    let mut map = GameMap::new(w, h);
    map.apply_room(&Rect::new(1, 1, w - 2, h - 2));
    World::new(map, 10)
}

fn with_player(world: &mut World, x: i32, y: i32) -> Entity {
    let e = player(world, x, y);
    world.set_player(e, Point::new(x, y));
    e
}

fn health(world: &World, e: Entity) -> i32 {
    world.stats_at(e.index).unwrap().cur_hp
}

#[test]
fn first_tick_settles_sight_and_awaits_input() {
    let mut world = hall(12, 9);
    let p = with_player(&mut world, 3, 3);
    monster(&mut world, 8, 6);
    let mut state = State::new(world);
    assert_eq!(state.ecs.runstate, RunState::PreRun);
    assert_eq!(state.tick(None), Step::NeedSight);
    assert_eq!(state.stage, Stage::Sighting);
    assert_eq!(state.waiting_for(), Step::NeedSight);
    let fov = fields_of_view(&state.ecs);
    assert_eq!(state.sight(&fov), Step::Done);
    assert_eq!(state.stage, Stage::Idle);
    assert_eq!(state.ecs.runstate, RunState::AwaitingInput);
    assert!(!state.ecs.slots[p.index].viewshed.as_ref().unwrap().dirty);
    assert!(state.ecs.sees_at(p.index, Point::new(3, 3)));
    let at = state.ecs.map.xy_idx(3, 3);
    assert!(state.ecs.map.visible_tiles[at]);
    assert!(state.ecs.map.revealed_tiles[at]);
    assert_eq!(state.ecs.position_at(1), Some(Point::new(8, 6)));
    assert!(state.ecs.map.blocked_tiles[state.ecs.map.xy_idx(8, 6)]);
}

#[test]
fn states_follow_each_other() {
    let mut world = hall(12, 9);
    with_player(&mut world, 3, 3);
    let mut state = State::new(world);
    assert_eq!(run_tick(&mut state, None), Step::Done);
    assert_eq!(state.ecs.runstate, RunState::AwaitingInput);
    assert_eq!(run_tick(&mut state, None), Step::Done);
    assert_eq!(state.ecs.runstate, RunState::AwaitingInput);
    assert_eq!(run_tick(&mut state, Some(Command::Inventory)), Step::Done);
    assert_eq!(state.ecs.runstate, RunState::AwaitingInput);
    assert_eq!(run_tick(&mut state, Some(Command::East)), Step::Done);
    assert_eq!(state.ecs.runstate, RunState::PlayerTurn);
    assert_eq!(run_tick(&mut state, Some(Command::East)), Step::Done);
    assert_eq!(state.ecs.runstate, RunState::MonsterTurn);
    assert_eq!(state.ecs.position_at(0), Some(Point::new(4, 3)));
    assert_eq!(run_tick(&mut state, None), Step::Done);
    assert_eq!(state.ecs.runstate, RunState::AwaitingInput);
    assert_eq!(run_tick(&mut state, Some(Command::Quit)), Step::Done);
    assert_eq!(state.ecs.runstate, RunState::Exit);
    assert_eq!(run_tick(&mut state, Some(Command::East)), Step::Done);
    assert_eq!(state.ecs.runstate, RunState::Exit);
    assert_eq!(state.ecs.position_at(0), Some(Point::new(4, 3)));
}

#[test]
fn calls_out_of_turn_change_nothing() {
    let mut world = hall(12, 9);
    with_player(&mut world, 3, 3);
    let mut state = State::new(world);
    assert_eq!(state.sight(&Vec::new()), Step::Done);
    assert_eq!(state.path(true, &vec![1, 2]), Step::Done);
    assert_eq!(state.ecs.runstate, RunState::PreRun);
    assert_eq!(state.tick(None), Step::NeedSight);
    assert_eq!(state.tick(Some(Command::East)), Step::NeedSight);
    assert_eq!(state.path(true, &vec![1, 2]), Step::NeedSight);
    assert_eq!(state.stage, Stage::Sighting);
}

#[test]
fn monster_next_to_the_player_attacks_and_stays() {
    let mut world = hall(12, 9);
    let p = with_player(&mut world, 3, 3);
    monster(&mut world, 4, 4);
    let mut state = State::new(world);
    assert_eq!(run_tick(&mut state, None), Step::Done);
    state.ecs.set_runstate(RunState::MonsterTurn);
    assert_eq!(state.tick(None), Step::NeedSight);
    let fov = fields_of_view(&state.ecs);
    assert_eq!(state.sight(&fov), Step::Done);
    assert_eq!(state.ecs.position_at(1), Some(Point::new(4, 4)));
    assert_eq!(state.ecs.log.entries, vec!["Goblin deals 1 hp damage to Player.".to_string()]);
    assert_eq!(health(&state.ecs, p), 29);
    assert_eq!(state.ecs.melee_at(1), None);
    assert_eq!(state.ecs.runstate, RunState::AwaitingInput);
}

#[test]
fn monster_in_reach_asks_to_attack_without_a_path() {
    let mut world = hall(12, 9);
    let p = with_player(&mut world, 3, 3);
    monster(&mut world, 3, 4);
    world.set_viewshed(1, vec![Point::new(3, 3)], 8, false);
    world.set_runstate(RunState::MonsterTurn);
    assert_eq!(MonsterAI::run(&mut world, 0), MonsterPlan::Done);
    assert_eq!(world.melee_at(1), Some(p));
    assert_eq!(world.position_at(1), Some(Point::new(3, 4)));
}

#[test]
fn monsters_do_nothing_outside_their_turn() {
    let mut world = hall(12, 9);
    with_player(&mut world, 3, 3);
    monster(&mut world, 3, 4);
    world.set_viewshed(1, vec![Point::new(3, 3)], 8, false);
    world.set_runstate(RunState::PlayerTurn);
    assert_eq!(MonsterAI::run(&mut world, 0), MonsterPlan::Done);
    assert_eq!(world.melee_at(1), None);
}

#[test]
fn monster_that_does_not_see_the_player_does_nothing() {
    let mut world = hall(12, 9);
    with_player(&mut world, 3, 3);
    monster(&mut world, 3, 4);
    world.set_viewshed(1, vec![Point::new(3, 4), Point::new(4, 4)], 8, false);
    world.set_runstate(RunState::MonsterTurn);
    assert_eq!(MonsterAI::run(&mut world, 0), MonsterPlan::Done);
    assert_eq!(world.melee_at(1), None);
}

#[test]
fn every_monster_in_reach_attacks() {
    let mut world = hall(10, 10);
    let p = with_player(&mut world, 5, 5);
    monster(&mut world, 4, 5);
    monster(&mut world, 6, 5);
    world.set_viewshed(1, vec![Point::new(5, 5)], 8, false);
    world.set_viewshed(2, vec![Point::new(5, 5)], 8, false);
    world.set_runstate(RunState::MonsterTurn);
    assert_eq!(MonsterAI::run(&mut world, 0), MonsterPlan::Done);
    assert_eq!(world.melee_at(1), Some(p));
    assert_eq!(world.melee_at(2), Some(p));
    assert_eq!(world.position_at(1), Some(Point::new(4, 5)));
    assert_eq!(world.position_at(2), Some(Point::new(6, 5)));
    assert_eq!(world.melee_at(p.index), None);
}

#[test]
fn monsters_in_reach_attack_before_and_after_one_that_seeks() {
    let mut world = hall(12, 12);
    let p = with_player(&mut world, 5, 5);
    monster(&mut world, 4, 5);
    monster(&mut world, 9, 5);
    monster(&mut world, 6, 6);
    monster(&mut world, 2, 9);
    for i in 1..=3 {
        world.set_viewshed(i, vec![Point::new(5, 5)], 8, false);
    }
    world.set_viewshed(4, vec![Point::new(2, 9)], 8, false);
    world.set_runstate(RunState::MonsterTurn);
    let start = world.map.xy_idx(9, 5);
    let goal = world.map.xy_idx(5, 5);
    assert_eq!(MonsterAI::run(&mut world, 0), MonsterPlan::Seek { monster: 2, start, goal });
    assert_eq!(world.melee_at(1), Some(p));
    assert_eq!(world.melee_at(2), None);
    assert_eq!(world.melee_at(3), None);
    let next = world.map.xy_idx(8, 5);
    MonsterAI::step(&mut world, 2, true, &vec![start, next, goal]);
    assert_eq!(world.position_at(2), Some(Point::new(8, 5)));
    assert_eq!(MonsterAI::run(&mut world, 3), MonsterPlan::Done);
    assert_eq!(world.melee_at(1), Some(p));
    assert_eq!(world.melee_at(2), None);
    assert_eq!(world.melee_at(3), Some(p));
    assert_eq!(world.melee_at(4), None);
    assert_eq!(world.position_at(3), Some(Point::new(6, 6)));
}

#[test]
fn two_monsters_beside_the_player_hurt_it_in_one_turn() {
    let mut world = hall(10, 10);
    let p = with_player(&mut world, 5, 5);
    monster(&mut world, 4, 5);
    monster(&mut world, 6, 5);
    let mut state = State::new(world);
    assert_eq!(run_tick(&mut state, None), Step::Done);
    state.ecs.set_runstate(RunState::MonsterTurn);
    assert_eq!(run_tick(&mut state, None), Step::Done);
    assert_eq!(health(&state.ecs, p), 28);
    assert_eq!(
        state.ecs.log.entries,
        vec![
            "Goblin deals 1 hp damage to Player.".to_string(),
            "Goblin deals 1 hp damage to Player.".to_string()
        ]
    );
    assert_eq!(state.ecs.position_at(1), Some(Point::new(4, 5)));
    assert_eq!(state.ecs.position_at(2), Some(Point::new(6, 5)));
    assert_eq!(state.ecs.melee_at(1), None);
    assert_eq!(state.ecs.melee_at(2), None);
    assert_eq!(state.ecs.damage_at(p.index), None);
    assert_eq!(state.ecs.runstate, RunState::AwaitingInput);
}

#[test]
fn one_monster_walks_while_another_attacks() {
    let mut world = hall(14, 10);
    let p = with_player(&mut world, 3, 5);
    monster(&mut world, 9, 5);
    monster(&mut world, 3, 6);
    let mut state = State::new(world);
    assert_eq!(run_tick(&mut state, None), Step::Done);
    state.ecs.set_runstate(RunState::MonsterTurn);
    assert_eq!(run_tick(&mut state, None), Step::Done);
    let walker = state.ecs.position_at(1).unwrap();
    assert!((walker.x - 3).abs() < 6);
    assert_eq!(state.ecs.position_at(2), Some(Point::new(3, 6)));
    assert_eq!(health(&state.ecs, p), 29);
    assert_eq!(state.ecs.log.entries, vec!["Goblin deals 1 hp damage to Player.".to_string()]);
}

#[test]
fn far_monster_asks_for_a_path_and_follows_it() {
    let mut world = hall(12, 9);
    with_player(&mut world, 2, 2);
    monster(&mut world, 7, 2);
    world.set_viewshed(1, vec![Point::new(2, 2)], 8, false);
    world.set_runstate(RunState::MonsterTurn);
    let start = world.map.xy_idx(7, 2);
    let goal = world.map.xy_idx(2, 2);
    assert_eq!(MonsterAI::run(&mut world, 0), MonsterPlan::Seek { monster: 1, start, goal });
    assert_eq!(MonsterAI::run(&mut world, 2), MonsterPlan::Done);
    let next = world.map.xy_idx(6, 3);
    world.set_blocked(start, true);
    assert!(MonsterAI::ready(&world, 1, true, &vec![start, next, goal]));
    MonsterAI::step(&mut world, 1, true, &vec![start, next, goal]);
    assert_eq!(world.position_at(1), Some(Point::new(6, 3)));
    assert!(!world.map.blocked_tiles[start]);
    assert!(world.map.blocked_tiles[next]);
    assert!(world.slots[1].viewshed.as_ref().unwrap().dirty);
}

#[test]
fn monster_stays_without_a_way() {
    let mut world = hall(12, 9);
    with_player(&mut world, 2, 2);
    monster(&mut world, 7, 2);
    world.set_viewshed(1, Vec::new(), 8, false);
    let start = world.map.xy_idx(7, 2);
    MonsterAI::step(&mut world, 1, false, &vec![start, start - 1]);
    assert_eq!(world.position_at(1), Some(Point::new(7, 2)));
    MonsterAI::step(&mut world, 1, true, &vec![start]);
    assert_eq!(world.position_at(1), Some(Point::new(7, 2)));
    MonsterAI::step(&mut world, 1, true, &Vec::new());
    assert_eq!(world.position_at(1), Some(Point::new(7, 2)));
    assert!(!world.slots[1].viewshed.as_ref().unwrap().dirty);
}

#[test]
fn path_off_the_map_is_not_ready() {
    let mut world = hall(12, 9);
    with_player(&mut world, 2, 2);
    monster(&mut world, 7, 2);
    assert!(!MonsterAI::ready(&world, 1, true, &vec![0, 108]));
    assert!(MonsterAI::ready(&world, 1, true, &vec![0, 107]));
    assert!(MonsterAI::ready(&world, 1, false, &vec![0, 108]));
    assert!(!MonsterAI::ready(&world, 5, false, &Vec::new()));
    potion(&mut world, 5, 5);
    assert!(!MonsterAI::ready(&world, 2, false, &Vec::new()));
}

#[test]
fn monster_in_a_corridor_closes_in_one_tile_a_turn() {
    let mut world = corridor(7);
    let p = with_player(&mut world, 1, 2);
    monster(&mut world, 6, 2);
    let mut state = State::new(world);
    assert_eq!(run_tick(&mut state, None), Step::Done);
    for turn in 1..=4 {
        state.ecs.set_runstate(RunState::MonsterTurn);
        assert_eq!(run_tick(&mut state, None), Step::Done);
        assert_eq!(state.ecs.position_at(1), Some(Point::new(6 - turn, 2)));
        assert_eq!(health(&state.ecs, p), 30);
        assert!(state.ecs.log.entries.is_empty());
        assert_eq!(state.ecs.runstate, RunState::AwaitingInput);
    }
    state.ecs.set_runstate(RunState::MonsterTurn);
    assert_eq!(run_tick(&mut state, None), Step::Done);
    assert_eq!(state.ecs.position_at(1), Some(Point::new(2, 2)));
    assert_eq!(health(&state.ecs, p), 29);
    assert_eq!(state.ecs.log.entries, vec!["Goblin deals 1 hp damage to Player.".to_string()]);
}

#[test]
fn monster_in_the_open_gets_closer_with_its_first_step() {
    let mut world = hall(20, 15);
    with_player(&mut world, 3, 3);
    monster(&mut world, 8, 7);
    let mut state = State::new(world);
    assert_eq!(run_tick(&mut state, None), Step::Done);
    state.ecs.set_runstate(RunState::MonsterTurn);
    assert_eq!(run_tick(&mut state, None), Step::Done);
    let at = state.ecs.position_at(1).unwrap();
    let before = (8 - 3) * (8 - 3) + (7 - 3) * (7 - 3);
    let after = (at.x - 3) * (at.x - 3) + (at.y - 3) * (at.y - 3);
    assert!(after < before);
    assert!((at.x - 8).abs() <= 1 && (at.y - 7).abs() <= 1);
    assert!(at != Point::new(8, 7));
}

#[test]
fn player_kills_a_goblin_over_the_turns() {
    let mut world = hall(12, 9);
    let p = with_player(&mut world, 3, 3);
    let mut parts = Slot::bare(true, 0);
    parts.position = Some(Position { pt: Point::new(4, 3) });
    parts.name = Some(Name { name: "Dummy".to_string() });
    parts.combat_stats = Some(CombatStats { max_hp: 10, cur_hp: 10, atk: 0, def: 3 });
    parts.blocks_tile = Some(BlocksTile {});
    let dummy = state_spawn(&mut world, parts);
    let mut state = State::new(world);
    assert_eq!(run_tick(&mut state, None), Step::Done);
    for hit in 1..=5 {
        assert_eq!(run_tick(&mut state, Some(Command::East)), Step::Done);
        assert_eq!(state.ecs.runstate, RunState::PlayerTurn);
        assert_eq!(state.ecs.melee_at(p.index), Some(dummy));
        assert_eq!(run_tick(&mut state, None), Step::Done);
        assert_eq!(state.ecs.runstate, RunState::MonsterTurn);
        if hit < 5 {
            assert_eq!(health(&state.ecs, dummy), 10 - 2 * hit);
            assert_eq!(state.ecs.log.entries[0], "Player deals 2 hp damage to Dummy.");
        }
        assert_eq!(run_tick(&mut state, None), Step::Done);
        assert_eq!(state.ecs.runstate, RunState::AwaitingInput);
    }
    assert!(!state.ecs.is_alive(dummy));
    assert_eq!(state.ecs.stats_at(dummy.index), None);
    assert_eq!(state.ecs.log.entries[0], "Dummy is dead!");
    assert_eq!(state.ecs.log.entries[1], "Player deals 2 hp damage to Dummy.");
    assert_eq!(state.ecs.position_at(p.index), Some(Point::new(3, 3)));
    assert_eq!(run_tick(&mut state, Some(Command::East)), Step::Done);
    assert_eq!(state.ecs.position_at(p.index), Some(Point::new(4, 3)));
}

fn state_spawn(world: &mut World, parts: Slot) -> Entity {
    world.spawn(parts)
}

#[test]
fn pickup_with_nothing_here_takes_the_turn_and_logs() {
    let mut world = hall(12, 9);
    let p = with_player(&mut world, 3, 3);
    potion(&mut world, 6, 6);
    let mut state = State::new(world);
    assert_eq!(run_tick(&mut state, None), Step::Done);
    assert_eq!(run_tick(&mut state, Some(Command::PickUp)), Step::Done);
    assert_eq!(state.ecs.runstate, RunState::PlayerTurn);
    assert_eq!(state.ecs.log.entries, vec!["There is nothing here to pick up.".to_string()]);
    assert_eq!(state.ecs.pickup_at(p.index), None);
    assert_eq!(state.ecs.position_at(1), Some(Point::new(6, 6)));
}

#[test]
fn revealed_tiles_survive_the_turns() {
    let mut world = hall(30, 9);
    with_player(&mut world, 2, 2);
    let mut state = State::new(world);
    assert_eq!(run_tick(&mut state, None), Step::Done);
    let mut seen: Vec<bool> = state.ecs.map.revealed_tiles.clone();
    assert!(seen.iter().any(|s| *s));
    for _ in 0..12 {
        run_tick(&mut state, Some(Command::East));
        run_tick(&mut state, None);
        run_tick(&mut state, None);
        for i in 0..seen.len() {
            assert!(!seen[i] || state.ecs.map.revealed_tiles[i]);
        }
        seen = state.ecs.map.revealed_tiles.clone();
    }
    assert_eq!(state.ecs.position_at(0), Some(Point::new(14, 2)));
    assert!(state.ecs.map.revealed_tiles[state.ecs.map.xy_idx(2, 2)]);
}

#[test]
fn tick_without_a_player_halts() {
    let world = hall(12, 9);
    let mut state = State::new(world);
    assert_eq!(state.tick(None), Step::NeedSight);
    assert_eq!(state.sight(&Vec::new()), Step::Fault);
    assert_eq!(state.stage, Stage::Halted);
    assert_eq!(state.tick(None), Step::Fault);
    assert_eq!(state.sight(&Vec::new()), Step::Fault);
    assert_eq!(state.path(false, &Vec::new()), Step::Fault);
    assert_eq!(state.waiting_for(), Step::Fault);
}

#[test]
fn sight_of_the_wrong_length_halts() {
    let mut world = hall(12, 9);
    with_player(&mut world, 3, 3);
    let mut state = State::new(world);
    assert_eq!(state.tick(None), Step::NeedSight);
    assert_eq!(state.sight(&Vec::new()), Step::Fault);
    assert_eq!(state.stage, Stage::Halted);
}

#[test]
fn path_off_the_map_halts() {
    let mut world = hall(12, 9);
    with_player(&mut world, 2, 2);
    monster(&mut world, 7, 2);
    world.set_runstate(RunState::MonsterTurn);
    let mut state = State::new(world);
    assert_eq!(state.tick(None), Step::NeedSight);
    let fov = fields_of_view(&state.ecs);
    let start = state.ecs.map.xy_idx(7, 2);
    let goal = state.ecs.map.xy_idx(2, 2);
    assert_eq!(state.sight(&fov), Step::NeedPath { monster: 1, start, goal });
    assert_eq!(state.waiting_for(), Step::NeedPath { monster: 1, start, goal });
    assert_eq!(state.path(true, &vec![start, 5000]), Step::Fault);
    assert_eq!(state.ecs.position_at(1), Some(Point::new(7, 2)));
}

#[test]
fn attack_on_someone_gone_halts() {
    let mut world = hall(12, 9);
    let p = with_player(&mut world, 3, 3);
    let gone = Entity { index: 7, generation: 0 };
    world.set_melee(p.index, Some(gone));
    let mut state = State::new(world);
    assert_eq!(state.tick(None), Step::NeedSight);
    let fov = fields_of_view(&state.ecs);
    assert_eq!(state.sight(&fov), Step::Fault);
    assert_eq!(state.stage, Stage::Halted);
    assert_eq!(state.ecs.melee_at(p.index), Some(gone));
}

#[test]
fn step_off_the_map_halts() {
    let mut map = GameMap::new(12, 9);
    map.apply_room(&Rect::new(0, 0, 12, 9));
    let mut world = World::new(map, 10);
    with_player(&mut world, 0, 0);
    let mut state = State::new(world);
    assert_eq!(run_tick(&mut state, None), Step::Done);
    assert_eq!(run_tick(&mut state, Some(Command::North)), Step::Fault);
    assert_eq!(state.stage, Stage::Halted);
    assert_eq!(state.ecs.position_at(0), Some(Point::new(0, 0)));
}

#[test]
fn sight_blockers_hide_what_is_behind_them() {
    let mut world = corridor(9);
    with_player(&mut world, 1, 2);
    monster(&mut world, 4, 2);
    let mut state = State::new(world);
    assert_eq!(run_tick(&mut state, None), Step::Done);
    let seen = state.ecs.map.visible_tiles.clone();
    assert!(seen[state.ecs.map.xy_idx(3, 2)]);
    assert!(seen[state.ecs.map.xy_idx(4, 2)]);
    assert!(!seen[state.ecs.map.xy_idx(6, 2)]);
    assert!(!seen[state.ecs.map.xy_idx(8, 2)]);
}

#[test]
fn new_game_puts_the_player_in_the_first_room() {
    for _ in 0..20 {
        let state = State::new_game(80, 43, 10);
        let world = &state.ecs;
        assert!(world.check());
        assert_eq!(state.stage, Stage::Idle);
        assert_eq!(world.runstate, RunState::PreRun);
        assert!(world.log.entries.is_empty());
        assert_eq!(world.log.capacity, 10);
        let p = world.player.unwrap();
        assert!(world.is_alive(p));
        assert!(world.is_player(p.index));
        let (cx, cy) = world.map.rooms[0].center();
        assert_eq!(world.position_at(p.index), Some(Point::new(cx, cy)));
        assert_eq!(world.player_pos, Point::new(cx, cy));
        assert_eq!(world.name_at(p.index), Some("Player"));
        assert_eq!(p.index, world.len() - 1);
    }
}

#[test]
fn new_game_populates_every_room_but_the_first() {
    let mut populated = 0;
    for _ in 0..20 {
        let state = State::new_game(80, 43, 10);
        let world = &state.ecs;
        let p = world.player.unwrap();
        let first = world.map.rooms[0];
        for i in 0..world.len() {
            if i == p.index {
                continue;
            }
            populated += 1;
            assert!(world.is_monster(i) || world.is_item(i));
            let at = world.position_at(i).unwrap();
            assert!(!(first.x1 <= at.x && at.x < first.x2 && first.y1 <= at.y && at.y < first.y2));
            let home = world
                .map
                .rooms
                .iter()
                .skip(1)
                .any(|r| r.x1 <= at.x && at.x < r.x2 && r.y1 <= at.y && at.y < r.y2);
            assert!(home);
        }
    }
    assert!(populated > 0);
}

#[test]
fn new_game_can_be_played() {
    let mut state = State::new_game(80, 43, 10);
    assert_eq!(run_tick(&mut state, None), Step::Done);
    assert_eq!(state.ecs.runstate, RunState::AwaitingInput);
    for command in [Command::East, Command::South, Command::West, Command::North, Command::PickUp] {
        assert_eq!(run_tick(&mut state, Some(command)), Step::Done);
        assert_eq!(run_tick(&mut state, None), Step::Done);
        assert_eq!(run_tick(&mut state, None), Step::Done);
        assert_eq!(state.ecs.runstate, RunState::AwaitingInput);
        assert!(state.ecs.check());
    }
    let p = state.ecs.player.unwrap();
    let at = state.ecs.position_at(p.index).unwrap();
    assert!(state.ecs.map.revealed_tiles[state.ecs.map.xy_idx(at.x, at.y)]);
}
