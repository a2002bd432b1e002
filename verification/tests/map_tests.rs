use roguelike::components::Entity;
use roguelike::geometry::{Point, Rect};
use roguelike::map::{GameMap, TileType};

fn floor_count(map: &GameMap) -> usize {
    map.tiles.iter().filter(|t| **t == TileType::Floor).count()
}

#[test]
fn new_map_is_all_wall() {
    let map = GameMap::new(8, 6);
    assert_eq!(map.width, 8);
    assert_eq!(map.height, 6);
    assert_eq!(map.num_tiles, 48);
    assert_eq!(map.tiles.len(), 48);
    assert!(map.tiles.iter().all(|t| *t == TileType::Wall));
    assert!(map.revealed_tiles.iter().all(|b| !*b));
    assert!(map.visible_tiles.iter().all(|b| !*b));
    assert!(map.blocked_tiles.iter().all(|b| !*b));
    assert_eq!(map.tile_content.len(), 48);
    assert!(map.tile_content.iter().all(|c| c.is_empty()));
    assert!(map.rooms.is_empty());
}

#[test]
fn new_map_may_be_empty() {
    let map = GameMap::new(0, 5);
    assert_eq!(map.num_tiles, 0);
    assert!(map.tiles.is_empty());
}

#[test]
fn xy_idx_counts_row_by_row() {
    let map = GameMap::new(8, 6);
    assert_eq!(map.xy_idx(0, 0), 0);
    assert_eq!(map.xy_idx(7, 0), 7);
    assert_eq!(map.xy_idx(0, 1), 8);
    assert_eq!(map.xy_idx(3, 4), 35);
}

#[test]
fn point_and_index_convert_both_ways() {
    let map = GameMap::new(8, 6);
    assert_eq!(map.point2d_to_index(Point::new(3, 4)), 35);
    assert_eq!(map.point2d_to_index(Point::new(-1, 0)), -1);
    assert_eq!(map.index_to_point2d(35), Point::new(3, 4));
    assert_eq!(map.index_to_point2d(0), Point::new(0, 0));
    assert_eq!(map.index_to_point2d(-7), Point::new(-7, 0));
    assert_eq!(map.index_to_point2d(-9), Point::new(-1, -1));
}

#[test]
fn in_bounds_tells_tiles_of_the_map() {
    let map = GameMap::new(8, 6);
    assert!(map.in_bounds(Point::new(0, 0)));
    assert!(map.in_bounds(Point::new(7, 5)));
    assert!(!map.in_bounds(Point::new(8, 5)));
    assert!(!map.in_bounds(Point::new(7, 6)));
    assert!(!map.in_bounds(Point::new(-1, 0)));
}

#[test]
fn apply_room_digs_exactly_the_inside() {
    let mut map = GameMap::new(10, 8);
    let room = Rect::new(2, 3, 4, 2);
    map.apply_room(&room);
    for y in 0..8 {
        for x in 0..10 {
            let inside = (2..6).contains(&x) && (3..5).contains(&y);
            let tile = map.tiles[map.xy_idx(x, y)];
            assert_eq!(tile == TileType::Floor, inside, "tile ({}, {})", x, y);
        }
    }
}

#[test]
fn apply_room_of_no_size_digs_nothing() {
    let mut map = GameMap::new(10, 8);
    map.apply_room(&Rect { x1: 4, x2: 4, y1: 1, y2: 5 });
    map.apply_room(&Rect { x1: 6, x2: 2, y1: 1, y2: 5 });
    assert_eq!(floor_count(&map), 0);
}

#[test]
fn tunnel_h_digs_both_ends_in_either_order() {
    let mut a = GameMap::new(10, 8);
    a.apply_tunnel_h(2, 5, 3);
    let mut b = GameMap::new(10, 8);
    b.apply_tunnel_h(5, 2, 3);
    assert_eq!(a.tiles, b.tiles);
    assert_eq!(floor_count(&a), 4);
    for x in 2..=5 {
        assert_eq!(a.tiles[a.xy_idx(x, 3)], TileType::Floor);
    }
}

#[test]
fn tunnel_v_digs_both_ends_in_either_order() {
    let mut a = GameMap::new(10, 8);
    a.apply_tunnel_v(1, 6, 4);
    let mut b = GameMap::new(10, 8);
    b.apply_tunnel_v(6, 1, 4);
    assert_eq!(a.tiles, b.tiles);
    assert_eq!(floor_count(&a), 6);
    for y in 1..=6 {
        assert_eq!(a.tiles[a.xy_idx(4, y)], TileType::Floor);
    }
}

#[test]
fn tunnels_dig_the_first_tile_like_any_other() {
    let mut map = GameMap::new(10, 8);
    map.apply_tunnel_h(0, 3, 0);
    assert_eq!(map.tiles[0], TileType::Floor);
    assert_eq!(floor_count(&map), 4);
    let mut map = GameMap::new(10, 8);
    map.apply_tunnel_v(0, 2, 0);
    assert_eq!(map.tiles[0], TileType::Floor);
    assert_eq!(floor_count(&map), 3);
    let mut map = GameMap::new(10, 8);
    map.apply_tunnel_h(3, 0, 0);
    assert_eq!(map.tiles[0], TileType::Floor);
    assert_eq!(floor_count(&map), 4);
}

#[test]
fn tunnels_dig_the_last_tile_too() {
    let mut map = GameMap::new(10, 8);
    map.apply_tunnel_h(7, 9, 7);
    assert_eq!(map.tiles[79], TileType::Floor);
    assert_eq!(floor_count(&map), 3);
    map.apply_tunnel_v(5, 7, 9);
    assert_eq!(floor_count(&map), 5);
}

#[test]
fn tunnels_change_nothing_but_their_span() {
    let mut map = GameMap::new(10, 8);
    map.apply_room(&Rect::new(2, 2, 3, 3));
    let before = map.tiles.clone();
    map.apply_tunnel_h(1, 6, 5);
    for i in 0..map.tiles.len() {
        let dug = (51..=56).contains(&i);
        if dug {
            assert_eq!(map.tiles[i], TileType::Floor);
        } else {
            assert_eq!(map.tiles[i], before[i]);
        }
    }
}

#[test]
fn tunnels_clip_to_the_map() {
    let mut map = GameMap::new(10, 8);
    map.apply_tunnel_v(5, 20, 9);
    assert_eq!(floor_count(&map), 3);
    map.apply_tunnel_h(3, 6, -1);
    assert_eq!(floor_count(&map), 3);
    map.apply_tunnel_h(3, 6, 8);
    assert_eq!(floor_count(&map), 3);
}

#[test]
fn populate_blocked_blocks_walls_only() {
    let mut map = GameMap::new(10, 8);
    map.apply_room(&Rect::new(1, 1, 3, 3));
    let at = map.xy_idx(2, 2);
    map.blocked_tiles[at] = true;
    map.populate_blocked();
    for i in 0..map.tiles.len() {
        assert_eq!(map.blocked_tiles[i], map.tiles[i] == TileType::Wall);
    }
}

#[test]
fn clear_content_index_empties_every_tile() {
    let mut map = GameMap::new(4, 4);
    map.tile_content[5].push(Entity { index: 0, generation: 0 });
    map.tile_content[9].push(Entity { index: 1, generation: 0 });
    map.clear_content_index();
    assert_eq!(map.tile_content.len(), 16);
    assert!(map.tile_content.iter().all(|c| c.is_empty()));
}

#[test]
fn is_opaque_tells_walls_on_the_map() {
    let mut map = GameMap::new(10, 8);
    map.apply_room(&Rect::new(1, 1, 3, 3));
    assert!(map.is_opaque(0));
    assert!(!map.is_opaque(map.xy_idx(1, 1) as i32));
    assert!(!map.is_opaque(-1));
    assert!(!map.is_opaque(80));
    assert!(map.is_opaque(79));
}

#[test]
fn exits_are_valid_off_the_edge_and_unblocked() {
    let mut map = GameMap::new(10, 8);
    map.apply_room(&Rect::new(0, 0, 10, 8));
    map.populate_blocked();
    assert!(map.is_exit_valid(1, 1));
    assert!(map.is_exit_valid(9, 7));
    assert!(!map.is_exit_valid(0, 3));
    assert!(!map.is_exit_valid(3, 0));
    assert!(!map.is_exit_valid(10, 3));
    assert!(!map.is_exit_valid(3, 8));
    assert!(!map.is_exit_valid(-1, -1));
    let at = map.xy_idx(4, 4);
    map.blocked_tiles[at] = true;
    assert!(!map.is_exit_valid(4, 4));
}

#[test]
fn available_exits_come_in_fixed_order() {
    let mut map = GameMap::new(10, 8);
    map.apply_room(&Rect::new(0, 0, 10, 8));
    map.populate_blocked();
    let at = map.xy_idx(4, 4) as i32;
    let exits = map.get_available_exits(at);
    let expected: Vec<i32> = vec![(3, 4), (5, 4), (4, 3), (4, 5), (3, 3), (5, 3), (3, 5), (5, 5)]
        .into_iter()
        .map(|(x, y)| map.xy_idx(x, y) as i32)
        .collect();
    assert_eq!(exits, expected);
}

#[test]
fn available_exits_leave_out_blocked_and_edge_tiles() {
    let mut map = GameMap::new(10, 8);
    map.apply_room(&Rect::new(0, 0, 10, 8));
    map.populate_blocked();
    let at = map.xy_idx(2, 1);
    map.blocked_tiles[at] = true;
    let exits = map.get_available_exits(map.xy_idx(1, 1) as i32);
    let expected: Vec<i32> =
        vec![(1, 2), (2, 2)].into_iter().map(|(x, y)| map.xy_idx(x, y) as i32).collect();
    assert_eq!(exits, expected);
}

#[test]
fn available_exits_in_solid_wall_are_none() {
    let mut map = GameMap::new(10, 8);
    map.populate_blocked();
    assert!(map.get_available_exits(map.xy_idx(4, 4) as i32).is_empty());
}

#[test]
fn place_wall_spares_the_given_tile() {
    let mut map = GameMap::new(10, 8);
    map.apply_room(&Rect::new(0, 0, 10, 8));
    let spare = map.xy_idx(5, 5);
    map.place_wall(5, 5, spare);
    assert_eq!(map.tiles[spare], TileType::Floor);
    map.place_wall(4, 5, spare);
    assert_eq!(map.tiles[map.xy_idx(4, 5)], TileType::Wall);
    assert_eq!(floor_count(&map), 79);
}

#[test]
fn show_marks_what_is_seen_and_keeps_what_was_revealed() {
    let mut map = GameMap::new(6, 4);
    map.show(&vec![Point::new(1, 1), Point::new(2, 1)]);
    assert!(map.visible_tiles[map.xy_idx(1, 1)]);
    assert!(map.revealed_tiles[map.xy_idx(2, 1)]);
    map.show(&vec![Point::new(3, 3)]);
    assert!(!map.visible_tiles[map.xy_idx(1, 1)]);
    assert!(map.revealed_tiles[map.xy_idx(1, 1)]);
    assert!(map.revealed_tiles[map.xy_idx(2, 1)]);
    assert!(map.visible_tiles[map.xy_idx(3, 3)]);
    assert_eq!(map.visible_tiles.iter().filter(|b| **b).count(), 1);
    assert_eq!(map.revealed_tiles.iter().filter(|b| **b).count(), 3);
}

#[test]
fn show_passes_over_points_off_the_map() {
    let mut map = GameMap::new(6, 4);
    map.show(&vec![Point::new(-1, 1), Point::new(6, 0), Point::new(0, 4), Point::new(7, -3)]);
    assert!(map.visible_tiles.iter().all(|b| !*b));
    assert!(map.revealed_tiles.iter().all(|b| !*b));
}
