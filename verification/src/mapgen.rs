//! Dungeon generation: rooms joined by corridors, and a walled arena strewn
//! with pillars.

use vstd::prelude::*;
use crate::geometry::Rect;
use crate::map::{
    carve_h, carve_room, carve_v, in_span, lemma_tile_index_bounds, lower, tile_index, upper, GameMap,
    MapModel, TileType,
};
use crate::rng::{new_generator, range, roll_dice};

verus! {

/// How many rooms are tried for.
pub const MAX_ROOMS: i32 = 32;

/// The least width and height of a room.
pub const MIN_SIZE: i32 = 5;

/// The greatest width and height of a room.
pub const MAX_SIZE: i32 = 12;

/// Whether `room` has an allowed size and keeps clear of the map's edge.
pub open spec fn room_fits(width: int, height: int, room: Rect) -> bool {
    &&& MIN_SIZE <= room.x2 - room.x1 <= MAX_SIZE
    &&& MIN_SIZE <= room.y2 - room.y1 <= MAX_SIZE
    &&& 1 <= room.x1
    &&& room.x2 <= width - 1
    &&& 1 <= room.y1
    &&& room.y2 <= height - 1
}

/// Whether no two of the rooms overlap or touch.
pub open spec fn rooms_apart(rooms: Seq<Rect>) -> bool {
    forall|i: int, j: int|
        0 <= i < rooms.len() && 0 <= j < rooms.len() && i != j ==> !(#[trigger] rooms[i]).overlaps(
            #[trigger] rooms[j],
        )
}

/// Whether `room` overlaps or touches one of `rooms`.
pub open spec fn clashes(rooms: Seq<Rect>, room: Rect) -> bool {
    exists|k: int| 0 <= k < rooms.len() && room.overlaps(#[trigger] rooms[k])
}

/// The tiles after an L-shaped corridor is dug from the centre of `prev` to
/// the centre of `next`: along the row first when `h_first`, else along the
/// column first.
pub open spec fn connect(
    tiles: Seq<TileType>,
    width: int,
    prev: Rect,
    next: Rect,
    h_first: bool,
) -> Seq<TileType> {
    if h_first {
        carve_v(
            carve_h(tiles, width, prev.center_x(), next.center_x(), prev.center_y()),
            width,
            prev.center_y(),
            next.center_y(),
            next.center_x(),
        )
    } else {
        carve_h(
            carve_v(tiles, width, prev.center_y(), next.center_y(), prev.center_x()),
            width,
            prev.center_x(),
            next.center_x(),
            next.center_y(),
        )
    }
}

/// The tiles after `room` is dug out and, unless it is the first room, joined
/// to the last of `rooms`.
pub open spec fn with_room(
    tiles: Seq<TileType>,
    width: int,
    rooms: Seq<Rect>,
    room: Rect,
    h_first: bool,
) -> Seq<TileType> {
    let dug = carve_room(tiles, width, room);
    if rooms.len() == 0 {
        dug
    } else {
        connect(dug, width, rooms.last(), room, h_first)
    }
}

/// The tiles of a dungeon with the given rooms, dug in order out of solid
/// wall; `coins[k]` tells which way the corridor into room `k` bends.
pub open spec fn carved(width: int, height: int, rooms: Seq<Rect>, coins: Seq<bool>) -> Seq<
    TileType,
>
    decreases rooms.len(),
{
    if rooms.len() == 0 {
        MapModel::blank(width, height).tiles
    } else {
        with_room(
            carved(width, height, rooms.drop_last(), coins.drop_last()),
            width,
            rooms.drop_last(),
            rooms.last(),
            coins.last(),
        )
    }
}

/// The map after `room` is dug out, joined to the room added last, if any,
/// and recorded.
pub open spec fn room_added(m: MapModel, room: Rect, h_first: bool) -> MapModel {
    MapModel {
        tiles: with_room(m.tiles, m.width, m.rooms, room, h_first),
        rooms: m.rooms.push(room),
        ..m
    }
}

/// The map after `room` is tried: a room that overlaps or touches a room
/// already on the map is dropped and the map stays as it was; any other room
/// is added.
pub open spec fn room_tried(m: MapModel, room: Rect, h_first: bool) -> MapModel {
    if clashes(m.rooms, room) {
        m
    } else {
        room_added(m, room, h_first)
    }
}

/// The map after each of `draws`, a room and the way its corridor bends, is
/// tried in order on a map of solid wall.
pub open spec fn drawn(width: int, height: int, draws: Seq<(Rect, bool)>) -> MapModel
    decreases draws.len(),
{
    if draws.len() == 0 {
        MapModel::blank(width, height)
    } else {
        room_tried(drawn(width, height, draws.drop_last()), draws.last().0, draws.last().1)
    }
}

/// Whether the map is a freshly generated dungeon: what `MAX_ROOMS` draws of
/// rooms that fit, tried in order, leave of a map of solid wall.
pub open spec fn is_dungeon(m: MapModel) -> bool {
    exists|draws: Seq<(Rect, bool)>|
        draws.len() == MAX_ROOMS && (forall|k: int|
            0 <= k < draws.len() ==> room_fits(m.width, m.height, (#[trigger] draws[k]).0)) && m
            == #[trigger] drawn(m.width, m.height, draws)
}

/// The shape of a generated dungeon, but for the number of its rooms: rooms
/// that fit and keep apart, tiles dug out of solid wall for exactly those
/// rooms and the corridors between consecutive ones, nothing seen, nothing
/// blocked and nobody on it.
pub open spec fn dug_out(m: MapModel) -> bool {
    &&& forall|k: int| 0 <= k < m.rooms.len() ==> room_fits(m.width, m.height, #[trigger] m.rooms[k])
    &&& rooms_apart(m.rooms)
    &&& exists|coins: Seq<bool>|
        coins.len() == m.rooms.len() && m.tiles == #[trigger] carved(
            m.width,
            m.height,
            m.rooms,
            coins,
        )
    &&& m == (MapModel { tiles: m.tiles, rooms: m.rooms, ..MapModel::blank(m.width, m.height) })
}

/// Whatever rooms that fit are drawn, the map they leave is dug out for the
/// rooms that were kept; the first draw is always kept, and no more rooms
/// are kept than were drawn.
pub proof fn lemma_drawn_is_dug_out(width: int, height: int, draws: Seq<(Rect, bool)>)
    requires
        forall|k: int| 0 <= k < draws.len() ==> room_fits(width, height, (#[trigger] draws[k]).0),
    ensures
        drawn(width, height, draws).width == width,
        drawn(width, height, draws).height == height,
        drawn(width, height, draws).rooms.len() <= draws.len(),
        draws.len() > 0 ==> drawn(width, height, draws).rooms.len() >= 1,
        dug_out(drawn(width, height, draws)),
    decreases draws.len(),
{
    if draws.len() == 0 {
        let m = MapModel::blank(width, height);
        let coins = Seq::<bool>::empty();
        assert(m.tiles == carved(width, height, m.rooms, coins));
    } else {
        let fewer = draws.drop_last();
        lemma_drawn_is_dug_out(width, height, fewer);
        let m = drawn(width, height, fewer);
        let room = draws.last().0;
        let coin = draws.last().1;
        let coins = choose|coins: Seq<bool>|
            coins.len() == m.rooms.len() && m.tiles == #[trigger] carved(
                width,
                height,
                m.rooms,
                coins,
            );
        if !clashes(m.rooms, room) {
            let next = room_added(m, room, coin);
            lemma_carved_push(width, height, m.rooms, coins, room, coin);
            assert(next.tiles == carved(width, height, next.rooms, coins.push(coin)));
            assert(room_fits(width, height, draws[draws.len() - 1].0));
            assert forall|a: int, b: int|
                0 <= a < next.rooms.len() && 0 <= b < next.rooms.len() && a
                    != b implies !(#[trigger] next.rooms[a]).overlaps(#[trigger] next.rooms[b]) by {
                if a < m.rooms.len() && b < m.rooms.len() {
                    assert(!m.rooms[a].overlaps(m.rooms[b]));
                } else if a < m.rooms.len() {
                    assert(!room.overlaps(m.rooms[a]));
                } else {
                    assert(!room.overlaps(m.rooms[b]));
                }
            }
        }
    }
}

/// A generated dungeon has between one and `MAX_ROOMS` rooms and is dug out
/// for them.
pub proof fn lemma_dungeon_is_dug_out(m: MapModel)
    requires
        is_dungeon(m),
    ensures
        1 <= m.rooms.len() <= MAX_ROOMS,
        dug_out(m),
{
    let draws = choose|draws: Seq<(Rect, bool)>|
        draws.len() == MAX_ROOMS && (forall|k: int|
            0 <= k < draws.len() ==> room_fits(m.width, m.height, (#[trigger] draws[k]).0)) && m
            == #[trigger] drawn(m.width, m.height, draws);
    lemma_drawn_is_dug_out(m.width, m.height, draws);
}

/// The tiles after each of `walls` but `spare` is turned to wall.
pub open spec fn scattered(tiles: Seq<TileType>, walls: Seq<int>, spare: int) -> Seq<TileType> {
    Seq::new(
        tiles.len(),
        |i: int|
            if walls.contains(i) && i != spare {
                TileType::Wall
            } else {
                tiles[i]
            },
    )
}

/// The tiles of an arena 80 wide and 50 high: wall along the four edges,
/// floor inside.
pub open spec fn arena_tiles() -> Seq<TileType> {
    Seq::new(
        4000,
        |i: int|
            if i % 80 == 0 || i % 80 == 79 || i / 80 == 0 || i / 80 == 49 {
                TileType::Wall
            } else {
                TileType::Floor
            },
    )
}

/// Whether the map is a freshly generated arena: 80 by 50, one room that
/// spans the inside, wall along the edges, and of the inner tiles up to 400
/// turned to wall, never the middle tile.
pub open spec fn is_arena(m: MapModel) -> bool {
    &&& m.width == 80
    &&& m.height == 50
    &&& m.rooms == seq![(Rect { x1: 1, x2: 80, y1: 1, y2: 50 })]
    &&& exists|walls: Seq<int>|
        walls.len() == 400 && (forall|k: int|
            0 <= k < 400 ==> in_span(80, 1, 80, 1, 50, #[trigger] walls[k])) && m.tiles
            == #[trigger] scattered(arena_tiles(), walls, tile_index(80, 40, 25))
    &&& m == (MapModel { tiles: m.tiles, rooms: m.rooms, ..MapModel::blank(80, 50) })
}

proof fn lemma_carved_push(width: int, height: int, rooms: Seq<Rect>, coins: Seq<bool>, room: Rect, coin: bool)
    ensures
        carved(width, height, rooms.push(room), coins.push(coin)) == with_room(
            carved(width, height, rooms, coins),
            width,
            rooms,
            room,
            coin,
        ),
{
    assert(rooms.push(room).drop_last() =~= rooms);
    assert(coins.push(coin).drop_last() =~= coins);
}

impl GameMap {
    /// Whether `room` overlaps or touches a room already on the map.
    pub fn overlaps_any(&self, room: &Rect) -> (r: bool)
        ensures
            r == clashes(self.rooms@, *room),
    {
        let mut found: bool = false;
        let mut k: usize = 0;
        while k < self.rooms.len()
            invariant
                k <= self.rooms@.len(),
                found == (exists|j: int| 0 <= j < k && room.overlaps(#[trigger] self.rooms@[j])),
            decreases self.rooms@.len() - k,
        {
            if room.intersect(&self.rooms[k]) {
                found = true;
            }
            k += 1;
        }
        found
    }

    /// Digs out `room`, joins it to the room added last, if any, and records
    /// it.
    pub fn add_room(&mut self, room: Rect, h_first: bool)
        requires
            old(self).wf(),
        ensures
            final(self).wf(),
            final(self)@ == room_added(old(self)@, room, h_first),
    {
        self.apply_room(&room);
        if !self.rooms.is_empty() {
            let next: (i32, i32) = room.center();
            let prev: (i32, i32) = self.rooms[self.rooms.len() - 1].center();
            if h_first {
                self.apply_tunnel_h(prev.0, next.0, prev.1);
                self.apply_tunnel_v(prev.1, next.1, next.0);
            } else {
                self.apply_tunnel_v(prev.1, next.1, prev.0);
                self.apply_tunnel_h(prev.0, next.0, next.1);
            }
        }
        self.rooms.push(room);
    }

    /// Tries `room`: if it overlaps or touches a room already on the map it is
    /// dropped and the map stays as it is; else it is dug out, joined to the
    /// room added last, if any, and recorded. Tells whether it was added.
    pub fn try_room(&mut self, room: Rect, h_first: bool) -> (added: bool)
        requires
            old(self).wf(),
        ensures
            final(self).wf(),
            added == !clashes(old(self)@.rooms, room),
            final(self)@ == room_tried(old(self)@, room, h_first),
    {
        if self.overlaps_any(&room) {
            false
        } else {
            self.add_room(room, h_first);
            true
        }
    }

    /// A dungeon of the given size: `MAX_ROOMS` rooms are drawn at random and
    /// tried in order; one that would overlap or touch an earlier room is
    /// dropped, and each room kept is joined to the one kept before it.
    pub fn new_map_rooms(w: i32, h: i32) -> (map: GameMap)
        requires
            MAX_SIZE + 2 <= w,
            MAX_SIZE + 2 <= h,
            w * h <= i32::MAX,
        ensures
            map.wf(),
            map@.width == w,
            map@.height == h,
            is_dungeon(map@),
    {
        let mut map = GameMap::new(w, h);
        let mut rng = new_generator();
        let ghost mut draws: Seq<(Rect, bool)> = Seq::empty();
        let mut i: i32 = 0;
        while i < MAX_ROOMS
            invariant
                0 <= i <= MAX_ROOMS,
                MAX_SIZE + 2 <= w,
                MAX_SIZE + 2 <= h,
                map.wf(),
                map@.width == w,
                map@.height == h,
                draws.len() == i,
                forall|k: int|
                    0 <= k < draws.len() ==> room_fits(w as int, h as int, (#[trigger] draws[k]).0),
                map@ == drawn(w as int, h as int, draws),
            decreases MAX_ROOMS - i,
        {
            let rw: i32 = range(&mut rng, MIN_SIZE, MAX_SIZE + 1);
            let rh: i32 = range(&mut rng, MIN_SIZE, MAX_SIZE + 1);
            let x: i32 = range(&mut rng, 1, map.width - rw);
            let y: i32 = range(&mut rng, 1, map.height - rh);
            let new_room = Rect::new(x, y, rw, rh);
            let h_first: bool = if map.rooms.is_empty() {
                true
            } else {
                roll_dice(&mut rng, 1, 2) == 1
            };
            let ghost draws_before = draws;
            map.try_room(new_room, h_first);
            proof {
                draws = draws_before.push((new_room, h_first));
                assert(draws.drop_last() =~= draws_before);
            }
            i += 1;
        }
        map
    }

    /// Turns tile `(x, y)` to wall, unless its index is `spare`.
    pub fn place_wall(&mut self, x: i32, y: i32, spare: usize)
        requires
            old(self).wf(),
            0 <= tile_index(old(self)@.width, x as int, y as int) < old(self)@.size(),
        ensures
            final(self).wf(),
            final(self)@ == (MapModel {
                tiles: if tile_index(old(self)@.width, x as int, y as int) != spare {
                    old(self)@.tiles.update(
                        tile_index(old(self)@.width, x as int, y as int),
                        TileType::Wall,
                    )
                } else {
                    old(self)@.tiles
                },
                ..old(self)@
            }),
    {
        let idx: usize = self.xy_idx(x, y);
        if idx != spare {
            self.tiles[idx] = TileType::Wall;
        }
    }

    /// A walled arena with pillars strewn at random; the middle tile stays
    /// free.
    pub fn new_map_rand() -> (map: GameMap)
        ensures
            map.wf(),
            is_arena(map@),
    {
        let mut map = GameMap::new(80, 50);
        let ghost blank = map@;
        map.apply_room(&Rect::new(0, 0, 80, 50));
        map.rooms.push(Rect::new(1, 1, map.width - 1, map.height - 1));
        assert(map@.tiles =~= Seq::new(4000, |i: int| TileType::Floor)) by {
            assert forall|i: int| 0 <= i < 4000 implies map@.tiles[i] == TileType::Floor by {
                assert(tile_index(80, i % 80, i / 80) == i);
            }
        }
        let mut x: i32 = 0;
        while x < 80
            invariant
                0 <= x <= 80,
                map.wf(),
                map@ == (MapModel { tiles: map@.tiles, rooms: map@.rooms, ..blank }),
                map@.rooms == seq![(Rect { x1: 1, x2: 80, y1: 1, y2: 50 })],
                blank == MapModel::blank(80, 50),
                forall|i: int|
                    0 <= i < 4000 ==> map@.tiles[i] == (if i < x || 3920 <= i < 3920 + x {
                        TileType::Wall
                    } else {
                        TileType::Floor
                    }),
            decreases 80 - x,
        {
            map.place_wall(x, 0, 4000);
            map.place_wall(x, map.height - 1, 4000);
            x += 1;
        }
        let mut y: i32 = 0;
        while y < 50
            invariant
                0 <= y <= 50,
                map.wf(),
                map@ == (MapModel { tiles: map@.tiles, rooms: map@.rooms, ..blank }),
                map@.rooms == seq![(Rect { x1: 1, x2: 80, y1: 1, y2: 50 })],
                blank == MapModel::blank(80, 50),
                forall|i: int|
                    0 <= i < 4000 ==> map@.tiles[i] == (if i < 80 || 3920 <= i || (i / 80 < y && (i
                        % 80 == 0 || i % 80 == 79)) {
                        TileType::Wall
                    } else {
                        TileType::Floor
                    }),
            decreases 50 - y,
        {
            map.place_wall(0, y, 4000);
            map.place_wall(map.width - 1, y, 4000);
            y += 1;
        }
        let mut rng = new_generator();
        let ghost mut walls: Seq<int> = Seq::empty();
        let spare: usize = map.xy_idx(40, 25);
        let mut n: i32 = 0;
        while n < 400
            invariant
                0 <= n <= 400,
                spare == tile_index(80, 40, 25),
                map.wf(),
                map@ == (MapModel { tiles: map@.tiles, rooms: map@.rooms, ..blank }),
                map@.rooms == seq![(Rect { x1: 1, x2: 80, y1: 1, y2: 50 })],
                blank == MapModel::blank(80, 50),
                walls.len() == n,
                forall|k: int| 0 <= k < n ==> in_span(80, 1, 80, 1, 50, #[trigger] walls[k]),
                map@.tiles == scattered(arena_tiles(), walls, spare as int),
            decreases 400 - n,
        {
            let wx: i32 = roll_dice(&mut rng, 1, 79);
            let wy: i32 = roll_dice(&mut rng, 1, 49);
            let ghost idx = tile_index(80, wx as int, wy as int);
            let ghost walls_before = walls;
            map.place_wall(wx, wy, spare);
            proof {
                walls = walls_before.push(idx);
                assert forall|i: int| 0 <= i < 4000 implies walls.contains(i) == (
                walls_before.contains(i) || i == idx) by {
                    if walls_before.contains(i) {
                        let j = choose|j: int| 0 <= j < walls_before.len() && walls_before[j] == i;
                        assert(walls[j] == i);
                    }
                    if i == idx {
                        assert(walls[walls_before.len() as int] == i);
                    }
                }
            }
            n += 1;
        }
        map
    }
}

/// Whether a walker may stand on tile `(x, y)` of a map on which only walls
/// block: it is floor, off the first row and column, and on the map.
pub open spec fn steppable(m: MapModel, x: int, y: int) -> bool {
    &&& 1 <= x <= m.width - 1
    &&& 1 <= y <= m.height - 1
    &&& m.tiles[tile_index(m.width, x, y)] == TileType::Floor
}

/// Whether two tiles are next to each other in a row or in a column.
pub open spec fn adjacent(a: (int, int), b: (int, int)) -> bool {
    ||| a.0 == b.0 && (a.1 - b.1 == 1 || b.1 - a.1 == 1)
    ||| a.1 == b.1 && (a.0 - b.0 == 1 || b.0 - a.0 == 1)
}

/// Whether `path` is a walk: every tile of it is steppable, and each is next
/// to the one before.
pub open spec fn walk(m: MapModel, path: Seq<(int, int)>) -> bool {
    &&& path.len() >= 1
    &&& forall|k: int| 0 <= k < path.len() ==> steppable(m, (#[trigger] path[k]).0, path[k].1)
    &&& forall|k: int| 0 <= k < path.len() - 1 ==> adjacent(#[trigger] path[k], path[k + 1])
}

/// Whether some walk leads from `from` to `to`.
pub open spec fn linked(m: MapModel, from: (int, int), to: (int, int)) -> bool {
    exists|path: Seq<(int, int)>| #[trigger] walk(m, path) && path[0] == from && path.last() == to
}

/// The centre of a room.
pub open spec fn center_of(room: Rect) -> (int, int) {
    (room.center_x(), room.center_y())
}

/// Digging keeps the number of tiles.
pub proof fn lemma_carved_len(width: int, height: int, rooms: Seq<Rect>, coins: Seq<bool>)
    requires
        0 <= width * height,
    ensures
        carved(width, height, rooms, coins).len() == width * height,
    decreases rooms.len(),
{
    if rooms.len() > 0 {
        lemma_carved_len(width, height, rooms.drop_last(), coins.drop_last());
    }
}

/// A tile that is floor once the first `n` rooms are dug is floor once all
/// are.
proof fn lemma_carved_grows(
    width: int,
    height: int,
    rooms: Seq<Rect>,
    coins: Seq<bool>,
    n: int,
    i: int,
)
    requires
        0 <= n <= rooms.len(),
        coins.len() == rooms.len(),
        0 <= i < width * height,
        carved(width, height, rooms.take(n), coins.take(n))[i] == TileType::Floor,
    ensures
        carved(width, height, rooms, coins)[i] == TileType::Floor,
    decreases rooms.len(),
{
    if n == rooms.len() {
        assert(rooms.take(n) =~= rooms);
        assert(coins.take(n) =~= coins);
    } else {
        let fewer_rooms = rooms.drop_last();
        let fewer_coins = coins.drop_last();
        assert(fewer_rooms.take(n) =~= rooms.take(n));
        assert(fewer_coins.take(n) =~= coins.take(n));
        lemma_carved_grows(width, height, fewer_rooms, fewer_coins, n, i);
        lemma_carved_len(width, height, fewer_rooms, fewer_coins);
    }
}

/// A tile well inside the map has an index above 0 and below the number of
/// tiles.
proof fn lemma_inner_index(width: int, height: int, x: int, y: int)
    requires
        1 <= x <= width - 1,
        1 <= y <= height - 1,
    ensures
        0 < tile_index(width, x, y) < width * height,
{
    lemma_tile_index_bounds(width, height, x, y);
}

/// In a dungeon dug for `rooms`, every tile inside room `k` is floor.
proof fn lemma_room_is_dug(
    width: int,
    height: int,
    rooms: Seq<Rect>,
    coins: Seq<bool>,
    k: int,
    x: int,
    y: int,
)
    requires
        0 <= k < rooms.len(),
        coins.len() == rooms.len(),
        room_fits(width, height, rooms[k]),
        rooms[k].covers(x, y),
    ensures
        carved(width, height, rooms, coins)[tile_index(width, x, y)] == TileType::Floor,
{
    let i = tile_index(width, x, y);
    lemma_inner_index(width, height, x, y);
    let some_rooms = rooms.take(k + 1);
    let some_coins = coins.take(k + 1);
    lemma_carved_len(width, height, some_rooms.drop_last(), some_coins.drop_last());
    lemma_carved_grows(width, height, rooms, coins, k + 1, i);
}

/// In a generated dungeon every tile inside every room is floor.
pub proof fn law_rooms_are_floor(m: MapModel, k: int, x: int, y: int)
    requires
        m.wf(),
        is_dungeon(m),
        0 <= k < m.rooms.len(),
        m.rooms[k].covers(x, y),
    ensures
        m.in_bounds(x, y),
        m.tiles[tile_index(m.width, x, y)] == TileType::Floor,
{
    lemma_dungeon_is_dug_out(m);
    let coins = choose|coins: Seq<bool>|
        coins.len() == m.rooms.len() && m.tiles == #[trigger] carved(
            m.width,
            m.height,
            m.rooms,
            coins,
        );
    lemma_room_is_dug(m.width, m.height, m.rooms, coins, k, x, y);
}

/// A walk of one steppable tile.
proof fn lemma_linked_self(m: MapModel, p: (int, int))
    requires
        steppable(m, p.0, p.1),
    ensures
        linked(m, p, p),
{
    let path = seq![p];
    assert(walk(m, path));
}

/// A walk goes on to a steppable tile next to its end.
proof fn lemma_linked_extend(m: MapModel, a: (int, int), b: (int, int), c: (int, int))
    requires
        linked(m, a, b),
        steppable(m, c.0, c.1),
        adjacent(b, c),
    ensures
        linked(m, a, c),
{
    let path = choose|path: Seq<(int, int)>|
        #[trigger] walk(m, path) && path[0] == a && path.last() == b;
    let longer = path.push(c);
    assert(walk(m, longer));
}

/// A walk that ends in row `y` at column `x1` goes on along the row to
/// column `x2`, if every tile between is steppable.
proof fn lemma_along_row(m: MapModel, a: (int, int), x1: int, x2: int, y: int)
    requires
        linked(m, a, (x1, y)),
        forall|x: int| lower(x1, x2) <= x <= upper(x1, x2) ==> #[trigger] steppable(m, x, y),
    ensures
        linked(m, a, (x2, y)),
    decreases upper(x1, x2) - lower(x1, x2),
{
    if x1 != x2 {
        let back = if x1 < x2 {
            x2 - 1
        } else {
            x2 + 1
        };
        lemma_along_row(m, a, x1, back, y);
        lemma_linked_extend(m, a, (back, y), (x2, y));
    }
}

/// A walk that ends in column `x` at row `y1` goes on along the column to
/// row `y2`, if every tile between is steppable.
proof fn lemma_along_column(m: MapModel, a: (int, int), y1: int, y2: int, x: int)
    requires
        linked(m, a, (x, y1)),
        forall|y: int| lower(y1, y2) <= y <= upper(y1, y2) ==> #[trigger] steppable(m, x, y),
    ensures
        linked(m, a, (x, y2)),
    decreases upper(y1, y2) - lower(y1, y2),
{
    if y1 != y2 {
        let back = if y1 < y2 {
            y2 - 1
        } else {
            y2 + 1
        };
        lemma_along_column(m, a, y1, back, x);
        lemma_linked_extend(m, a, (x, back), (x, y2));
    }
}

/// Once room `k + 1` is joined to room `k`, every tile of the corridor
/// between their centres is floor: of the row and then the column when the
/// corridor goes along the row first, else of the column and then the row.
proof fn lemma_corridor_is_dug(
    width: int,
    height: int,
    rooms: Seq<Rect>,
    coins: Seq<bool>,
    k: int,
    x: int,
    y: int,
)
    requires
        0 <= k,
        k + 1 < rooms.len(),
        coins.len() == rooms.len(),
        room_fits(width, height, rooms[k]),
        room_fits(width, height, rooms[k + 1]),
        ({
            let a = rooms[k];
            let b = rooms[k + 1];
            if coins[k + 1] {
                ||| y == a.center_y() && lower(a.center_x(), b.center_x()) <= x <= upper(
                    a.center_x(),
                    b.center_x(),
                )
                ||| x == b.center_x() && lower(a.center_y(), b.center_y()) <= y <= upper(
                    a.center_y(),
                    b.center_y(),
                )
            } else {
                ||| x == a.center_x() && lower(a.center_y(), b.center_y()) <= y <= upper(
                    a.center_y(),
                    b.center_y(),
                )
                ||| y == b.center_y() && lower(a.center_x(), b.center_x()) <= x <= upper(
                    a.center_x(),
                    b.center_x(),
                )
            }
        }),
    ensures
        1 <= x <= width - 2,
        1 <= y <= height - 2,
        carved(width, height, rooms, coins)[tile_index(width, x, y)] == TileType::Floor,
{
    let i = tile_index(width, x, y);
    lemma_inner_index(width, height, x, y);
    let some_rooms = rooms.take(k + 2);
    let some_coins = coins.take(k + 2);
    lemma_carved_len(width, height, some_rooms.drop_last(), some_coins.drop_last());
    lemma_carved_grows(width, height, rooms, coins, k + 2, i);
}

/// In a generated dungeon a walk over floor tiles leads from the centre of
/// each room to the centre of the room accepted after it. Every tile of the
/// walk is one that a walker may step onto as long as only walls block, and
/// each is next to the one before, so a search that steps from tile to
/// neighbouring tile can get from the one centre to the other.
pub proof fn law_consecutive_rooms_are_linked(m: MapModel, k: int)
    requires
        m.wf(),
        is_dungeon(m),
        0 <= k,
        k + 1 < m.rooms.len(),
    ensures
        linked(m, center_of(m.rooms[k]), center_of(m.rooms[k + 1])),
{
    lemma_dungeon_is_dug_out(m);
    let coins = choose|coins: Seq<bool>|
        coins.len() == m.rooms.len() && m.tiles == #[trigger] carved(
            m.width,
            m.height,
            m.rooms,
            coins,
        );
    let a = m.rooms[k];
    let b = m.rooms[k + 1];
    lemma_room_is_dug(m.width, m.height, m.rooms, coins, k, a.center_x(), a.center_y());
    lemma_linked_self(m, center_of(a));
    if coins[k + 1] {
        assert forall|x: int|
            lower(a.center_x(), b.center_x()) <= x <= upper(
                a.center_x(),
                b.center_x(),
            ) implies #[trigger] steppable(m, x, a.center_y()) by {
            lemma_corridor_is_dug(m.width, m.height, m.rooms, coins, k, x, a.center_y());
        }
        lemma_along_row(m, center_of(a), a.center_x(), b.center_x(), a.center_y());
        assert forall|y: int|
            lower(a.center_y(), b.center_y()) <= y <= upper(
                a.center_y(),
                b.center_y(),
            ) implies #[trigger] steppable(m, b.center_x(), y) by {
            lemma_corridor_is_dug(m.width, m.height, m.rooms, coins, k, b.center_x(), y);
        }
        lemma_along_column(m, center_of(a), a.center_y(), b.center_y(), b.center_x());
    } else {
        assert forall|y: int|
            lower(a.center_y(), b.center_y()) <= y <= upper(
                a.center_y(),
                b.center_y(),
            ) implies #[trigger] steppable(m, a.center_x(), y) by {
            lemma_corridor_is_dug(m.width, m.height, m.rooms, coins, k, a.center_x(), y);
        }
        lemma_along_column(m, center_of(a), a.center_y(), b.center_y(), a.center_x());
        assert forall|x: int|
            lower(a.center_x(), b.center_x()) <= x <= upper(
                a.center_x(),
                b.center_x(),
            ) implies #[trigger] steppable(m, x, b.center_y()) by {
            lemma_corridor_is_dug(m.width, m.height, m.rooms, coins, k, x, b.center_y());
        }
        lemma_along_row(m, center_of(a), a.center_x(), b.center_x(), b.center_y());
    }
}

} // verus!
