use roguelike::components::{
    CombatStats, Entity, Item, ItemPickupMessage, Name, Player, Position, Viewshed,
};
use roguelike::geometry::{Point, Rect};
use roguelike::map::GameMap;
use roguelike::mapindex_syst::MapIndexingSystem;
use roguelike::player::{
    get_item, input_ready, move_player, move_ready, pick_ready, player_input, step_of, Command,
};
use roguelike::world::{RunState, Slot, World};

fn open_world(w: i32, h: i32) -> World {
    let mut map = GameMap::new(w, h);
    map.apply_room(&Rect::new(1, 1, w - 2, h - 2));
    World::new(map, 10)
}

fn hero(world: &mut World, at: (i32, i32)) -> Entity {
    let mut parts = Slot::bare(true, 0);
    parts.position = Some(Position { pt: Point::new(at.0, at.1) });
    parts.name = Some(Name { name: "Player".to_string() });
    parts.player = Some(Player {});
    parts.viewshed = Some(Viewshed { visible_tiles: Vec::new(), range: 8, dirty: false });
    parts.combat_stats = Some(CombatStats { max_hp: 30, cur_hp: 30, atk: 5, def: 3 });
    let e = world.spawn(parts);
    world.set_player(e, Point::new(at.0, at.1));
    e
}

fn foe(world: &mut World, at: (i32, i32)) -> Entity {
    let mut parts = Slot::bare(true, 0);
    parts.position = Some(Position { pt: Point::new(at.0, at.1) });
    parts.name = Some(Name { name: "Goblin".to_string() });
    parts.combat_stats = Some(CombatStats { max_hp: 10, cur_hp: 10, atk: 4, def: 1 });
    world.spawn(parts)
}

fn thing(world: &mut World, at: (i32, i32)) -> Entity {
    let mut parts = Slot::bare(true, 0);
    parts.position = Some(Position { pt: Point::new(at.0, at.1) });
    parts.name = Some(Name { name: "Health Potion".to_string() });
    parts.item = Some(Item {});
    world.spawn(parts)
}

fn dirty(world: &World, e: Entity) -> bool {
    world.slots[e.index].viewshed.as_ref().unwrap().dirty
}

#[test]
fn commands_map_to_steps() {
    assert_eq!(step_of(Command::North), Some((0, -1)));
    assert_eq!(step_of(Command::South), Some((0, 1)));
    assert_eq!(step_of(Command::East), Some((1, 0)));
    assert_eq!(step_of(Command::West), Some((-1, 0)));
    assert_eq!(step_of(Command::NorthEast), Some((1, -1)));
    assert_eq!(step_of(Command::NorthWest), Some((-1, -1)));
    assert_eq!(step_of(Command::SouthEast), Some((1, 1)));
    assert_eq!(step_of(Command::SouthWest), Some((-1, 1)));
    assert_eq!(step_of(Command::PickUp), None);
    assert_eq!(step_of(Command::Inventory), None);
    assert_eq!(step_of(Command::Quit), None);
}

#[test]
fn player_steps_onto_a_free_tile() {
    let mut world = open_world(10, 8);
    let p = hero(&mut world, (3, 3));
    MapIndexingSystem::run(&mut world);
    assert!(move_ready(1, 0, &world));
    move_player(1, 0, &mut world);
    assert_eq!(world.position_at(p.index), Some(Point::new(4, 3)));
    assert_eq!(world.player_pos, Point::new(4, 3));
    assert!(dirty(&world, p));
    assert_eq!(world.melee_at(p.index), None);
}

#[test]
fn player_does_not_step_into_a_wall() {
    let mut world = open_world(10, 8);
    let p = hero(&mut world, (1, 1));
    MapIndexingSystem::run(&mut world);
    move_player(-1, 0, &mut world);
    assert_eq!(world.position_at(p.index), Some(Point::new(1, 1)));
    assert_eq!(world.player_pos, Point::new(1, 1));
    assert!(!dirty(&world, p));
    move_player(0, -1, &mut world);
    assert_eq!(world.position_at(p.index), Some(Point::new(1, 1)));
}

#[test]
fn player_asks_to_attack_who_stands_in_the_way() {
    let mut world = open_world(10, 8);
    let p = hero(&mut world, (3, 3));
    let g = foe(&mut world, (4, 3));
    world.slots[g.index].blocks_tile = Some(roguelike::components::BlocksTile {});
    MapIndexingSystem::run(&mut world);
    move_player(1, 0, &mut world);
    assert_eq!(world.melee_at(p.index), Some(g));
    assert_eq!(world.position_at(p.index), Some(Point::new(3, 3)));
    assert!(!dirty(&world, p));
}

#[test]
fn player_attacks_the_last_fighter_on_the_tile_and_ignores_the_rest() {
    let mut world = open_world(10, 8);
    let p = hero(&mut world, (3, 3));
    let first = foe(&mut world, (3, 4));
    let second = foe(&mut world, (3, 4));
    thing(&mut world, (3, 4));
    MapIndexingSystem::run(&mut world);
    move_player(0, 1, &mut world);
    assert_eq!(world.melee_at(p.index), Some(second));
    assert!(world.is_alive(first));
    assert_eq!(world.position_at(p.index), Some(Point::new(3, 4)));
}

#[test]
fn player_walks_over_an_item() {
    let mut world = open_world(10, 8);
    let p = hero(&mut world, (3, 3));
    thing(&mut world, (3, 2));
    MapIndexingSystem::run(&mut world);
    move_player(0, -1, &mut world);
    assert_eq!(world.melee_at(p.index), None);
    assert_eq!(world.position_at(p.index), Some(Point::new(3, 2)));
}

#[test]
fn move_is_not_ready_when_it_aims_off_the_map() {
    let mut map = GameMap::new(10, 8);
    map.apply_room(&Rect::new(0, 0, 10, 8));
    let mut world = World::new(map, 10);
    hero(&mut world, (0, 0));
    MapIndexingSystem::run(&mut world);
    assert!(!move_ready(-1, 0, &world));
    assert!(!move_ready(0, -1, &world));
    assert!(move_ready(1, 0, &world));
    assert!(move_ready(0, 1, &world));
    assert!(!input_ready(&world, Some(Command::NorthWest)));
    assert!(input_ready(&world, Some(Command::SouthEast)));
}

#[test]
fn entity_without_viewshed_is_not_steered() {
    let mut world = open_world(10, 8);
    let p = hero(&mut world, (3, 3));
    world.slots[p.index].viewshed = None;
    MapIndexingSystem::run(&mut world);
    move_player(1, 0, &mut world);
    assert_eq!(world.position_at(p.index), Some(Point::new(3, 3)));
}

#[test]
fn pickup_with_nothing_here_only_logs() {
    let mut world = open_world(10, 8);
    let p = hero(&mut world, (3, 3));
    let away = thing(&mut world, (5, 5));
    assert!(pick_ready(&world));
    get_item(&mut world);
    assert_eq!(world.log.entries, vec!["There is nothing here to pick up.".to_string()]);
    assert_eq!(world.pickup_at(p.index), None);
    assert_eq!(world.pickup_at(away.index), None);
    assert_eq!(world.position_at(away.index), Some(Point::new(5, 5)));
    assert!(world.slots[away.index].in_backpack.is_none());
    assert_eq!(world.position_at(p.index), Some(Point::new(3, 3)));
    assert_eq!(world.melee_at(p.index), None);
    assert_eq!(world.len(), 2);
}

#[test]
fn pickup_asks_for_the_item_underfoot() {
    let mut world = open_world(10, 8);
    let p = hero(&mut world, (3, 3));
    let first = thing(&mut world, (3, 3));
    let last = thing(&mut world, (3, 3));
    get_item(&mut world);
    assert_eq!(
        world.pickup_at(p.index),
        Some(ItemPickupMessage { collected_by: p, item: last })
    );
    assert!(world.log.entries.is_empty());
    assert_eq!(world.position_at(first.index), Some(Point::new(3, 3)));
}

#[test]
fn pickup_is_not_ready_without_a_player() {
    let mut world = open_world(10, 8);
    assert!(!pick_ready(&world));
    assert!(!input_ready(&world, Some(Command::PickUp)));
    let p = hero(&mut world, (3, 3));
    thing(&mut world, (3, 3));
    assert!(pick_ready(&world));
    world.delete_entity(p);
    assert!(!pick_ready(&world));
}

#[test]
fn input_tells_the_next_run_state() {
    let mut world = open_world(10, 8);
    let p = hero(&mut world, (3, 3));
    MapIndexingSystem::run(&mut world);
    assert_eq!(player_input(&mut world, None), RunState::AwaitingInput);
    assert_eq!(player_input(&mut world, Some(Command::Inventory)), RunState::AwaitingInput);
    assert_eq!(player_input(&mut world, Some(Command::Quit)), RunState::Exit);
    assert_eq!(world.position_at(p.index), Some(Point::new(3, 3)));
    assert!(world.log.entries.is_empty());
    assert_eq!(player_input(&mut world, Some(Command::SouthEast)), RunState::PlayerTurn);
    assert_eq!(world.position_at(p.index), Some(Point::new(4, 4)));
    assert_eq!(player_input(&mut world, Some(Command::PickUp)), RunState::PlayerTurn);
    assert_eq!(world.log.entries, vec!["There is nothing here to pick up.".to_string()]);
}
