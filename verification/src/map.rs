//! The dungeon map: its tiles, its per-tile flags and who stands where.

use vstd::prelude::*;
use crate::components::Entity;
use crate::geometry::{Point, Rect};

verus! {

#[derive(PartialEq, Eq, Copy, Clone, Debug, Structural)]
pub enum TileType {
    Wall,
    Floor,
}

pub struct GameMap {
    pub tiles: Vec<TileType>,
    pub rooms: Vec<Rect>,
    pub width: i32,
    pub height: i32,
    pub num_tiles: i32,
    pub revealed_tiles: Vec<bool>,
    pub visible_tiles: Vec<bool>,
    pub blocked_tiles: Vec<bool>,
    pub tile_content: Vec<Vec<Entity>>,
}

/// What a `GameMap` holds, as plain values. Tiles are stored row by row.
pub struct MapModel {
    pub tiles: Seq<TileType>,
    pub rooms: Seq<Rect>,
    pub width: int,
    pub height: int,
    pub revealed: Seq<bool>,
    pub visible: Seq<bool>,
    pub blocked: Seq<bool>,
    pub content: Seq<Seq<Entity>>,
}

/// The place of tile `(x, y)` in a row-by-row grid `width` tiles wide.
pub open spec fn tile_index(width: int, x: int, y: int) -> int {
    y * width + x
}

/// Whether `i` is the index of some tile in columns `xa..xb`, rows `ya..yb`.
pub open spec fn in_span(width: int, xa: int, xb: int, ya: int, yb: int, i: int) -> bool {
    exists|x: int, y: int| xa <= x < xb && ya <= y < yb && #[trigger] tile_index(width, x, y) == i
}

/// The tiles after every tile of the span whose index is on the map is dug
/// out; all other tiles stay as they were.
pub open spec fn carve_span(
    tiles: Seq<TileType>,
    width: int,
    xa: int,
    xb: int,
    ya: int,
    yb: int,
) -> Seq<TileType> {
    Seq::new(
        tiles.len(),
        |i: int|
            if in_span(width, xa, xb, ya, yb, i) {
                TileType::Floor
            } else {
                tiles[i]
            },
    )
}

/// The tiles after the inside of `room` is dug out.
pub open spec fn carve_room(tiles: Seq<TileType>, width: int, room: Rect) -> Seq<TileType> {
    carve_span(tiles, width, room.x1 as int, room.x2 as int, room.y1 as int, room.y2 as int)
}

pub open spec fn lower(a: int, b: int) -> int {
    if a <= b {
        a
    } else {
        b
    }
}

pub open spec fn upper(a: int, b: int) -> int {
    if a <= b {
        b
    } else {
        a
    }
}

/// The tiles after a corridor along row `y` between columns `x1` and `x2`,
/// both ends included, is dug out, as far as it lies on the map.
pub open spec fn carve_h(tiles: Seq<TileType>, width: int, x1: int, x2: int, y: int) -> Seq<TileType> {
    carve_span(tiles, width, lower(x1, x2), upper(x1, x2) + 1, y, y + 1)
}

/// The tiles after a corridor along column `x` between rows `y1` and `y2`,
/// both ends included, is dug out, as far as it lies on the map.
pub open spec fn carve_v(tiles: Seq<TileType>, width: int, y1: int, y2: int, x: int) -> Seq<TileType> {
    carve_span(tiles, width, x, x + 1, lower(y1, y2), upper(y1, y2) + 1)
}

impl MapModel {
    pub open spec fn size(self) -> int {
        self.width * self.height
    }

    pub open spec fn wf(self) -> bool {
        &&& 0 <= self.width
        &&& 0 <= self.height
        &&& self.size() <= i32::MAX
        &&& self.tiles.len() == self.size()
        &&& self.revealed.len() == self.size()
        &&& self.visible.len() == self.size()
        &&& self.blocked.len() == self.size()
        &&& self.content.len() == self.size()
    }

    pub open spec fn in_bounds(self, x: int, y: int) -> bool {
        0 <= x < self.width && 0 <= y < self.height
    }

    /// A map of the given size that is all wall, with nothing seen, nothing
    /// blocked, nobody on it and no rooms.
    pub open spec fn blank(width: int, height: int) -> MapModel {
        MapModel {
            tiles: Seq::new((width * height) as nat, |i: int| TileType::Wall),
            rooms: Seq::empty(),
            width,
            height,
            revealed: Seq::new((width * height) as nat, |i: int| false),
            visible: Seq::new((width * height) as nat, |i: int| false),
            blocked: Seq::new((width * height) as nat, |i: int| false),
            content: Seq::new((width * height) as nat, |i: int| Seq::<Entity>::empty()),
        }
    }

    /// Whether a walker may step onto tile `(x, y)`: it is off the first row
    /// and column, on the map, and not blocked.
    pub open spec fn exit_valid(self, x: int, y: int) -> bool {
        &&& 1 <= x <= self.width - 1
        &&& 1 <= y <= self.height - 1
        &&& !self.blocked[tile_index(self.width, x, y)]
    }

    pub open spec fn exit_to(self, x: int, y: int) -> Seq<i32> {
        if self.exit_valid(x, y) {
            seq![tile_index(self.width, x, y) as i32]
        } else {
            Seq::empty()
        }
    }

    /// The tiles a walker may step to from tile `idx`: west, east, north,
    /// south, then the four diagonals, each only if it is a valid exit.
    pub open spec fn exits(self, idx: int) -> Seq<i32> {
        let x = idx % self.width;
        let y = idx / self.width;
        self.exit_to(x - 1, y) + self.exit_to(x + 1, y) + self.exit_to(x, y - 1) + self.exit_to(
            x,
            y + 1,
        ) + self.exit_to(x - 1, y - 1) + self.exit_to(x + 1, y - 1) + self.exit_to(x - 1, y + 1)
            + self.exit_to(x + 1, y + 1)
    }
}

pub open spec fn quotient_toward_zero(a: int, b: int) -> int {
    if a >= 0 {
        a / b
    } else {
        -((-a) / b)
    }
}

pub open spec fn remainder_toward_zero(a: int, b: int) -> int {
    if a >= 0 {
        a % b
    } else {
        -((-a) % b)
    }
}

/// A tile on the map has an index below the number of tiles.
pub proof fn lemma_tile_index_bounds(width: int, height: int, x: int, y: int)
    requires
        0 <= x < width,
        0 <= y < height,
    ensures
        0 <= tile_index(width, x, y) < width * height,
{
    assert(y * width + x < width * height) by (nonlinear_arith)
        requires
            0 <= x < width,
            0 <= y < height,
    ;
}

impl View for GameMap {
    type V = MapModel;

    open spec fn view(&self) -> MapModel {
        MapModel {
            tiles: self.tiles@,
            rooms: self.rooms@,
            width: self.width as int,
            height: self.height as int,
            revealed: self.revealed_tiles@,
            visible: self.visible_tiles@,
            blocked: self.blocked_tiles@,
            content: Seq::new(self.tile_content@.len(), |i: int| self.tile_content@[i]@),
        }
    }
}

impl GameMap {
    pub open spec fn wf(&self) -> bool {
        self@.wf() && self.num_tiles == self.width * self.height
    }

    /// Whether the map is sound: tells `wf`.
    pub fn check(&self) -> (r: bool)
        ensures
            r == self.wf(),
    {
        if self.width < 0 || self.height < 0 {
            return false;
        }
        assert(0 <= self.width * self.height <= 0x8000_0000 * 0x8000_0000) by (nonlinear_arith)
            requires
                0 <= self.width < 0x8000_0000,
                0 <= self.height < 0x8000_0000,
        ;
        let size: i64 = (self.width as i64) * (self.height as i64);
        if size > i32::MAX as i64 || self.num_tiles as i64 != size {
            return false;
        }
        let n: usize = size as usize;
        self.tiles.len() == n && self.revealed_tiles.len() == n && self.visible_tiles.len() == n
            && self.blocked_tiles.len() == n && self.tile_content.len() == n
    }

    /// The index of tile `(x, y)`.
    pub fn xy_idx(&self, x: i32, y: i32) -> (idx: usize)
        requires
            0 <= tile_index(self.width as int, x as int, y as int) <= i32::MAX,
        ensures
            idx == tile_index(self.width as int, x as int, y as int),
    {
        let v: i64 = (y as i64) * (self.width as i64) + (x as i64);
        v as usize
    }

    /// An all-wall map of the given size.
    pub fn new(width: i32, height: i32) -> (map: GameMap)
        requires
            0 <= width,
            0 <= height,
            width * height <= i32::MAX,
        ensures
            map.wf(),
            map@ == MapModel::blank(width as int, height as int),
    {
        let count: i32 = width * height;
        let num: usize = count as usize;
        let mut content: Vec<Vec<Entity>> = Vec::new();
        let mut i: usize = 0;
        while i < num
            invariant
                i <= num,
                content@.len() == i,
                forall|k: int| 0 <= k < i ==> (#[trigger] content@[k])@ == Seq::<Entity>::empty(),
            decreases num - i,
        {
            content.push(Vec::new());
            i += 1;
        }
        let map = GameMap {
            tiles: vec![TileType::Wall; num],
            rooms: Vec::new(),
            width,
            height,
            num_tiles: count,
            revealed_tiles: vec![false; num],
            visible_tiles: vec![false; num],
            blocked_tiles: vec![false; num],
            tile_content: content,
        };
        proof {
            let blank = MapModel::blank(width as int, height as int);
            assert(map@.tiles =~= blank.tiles);
            assert(map@.revealed =~= blank.revealed);
            assert(map@.visible =~= blank.visible);
            assert(map@.blocked =~= blank.blocked);
            assert(map@.content =~= blank.content);
        }
        map
    }

    /// Digs out every tile of the span whose index is on the map.
    fn carve(&mut self, xa: i32, xb: i64, ya: i32, yb: i64)
        requires
            old(self).wf(),
            xb <= 0x8000_0000,
            yb <= 0x8000_0000,
        ensures
            final(self).wf(),
            final(self)@ == (MapModel {
                tiles: carve_span(
                    old(self)@.tiles,
                    old(self)@.width,
                    xa as int,
                    xb as int,
                    ya as int,
                    yb as int,
                ),
                ..old(self)@
            }),
    {
        let ghost before = self@;
        let width: i64 = self.width as i64;
        let count: i64 = self.num_tiles as i64;
        if (xa as i64) >= xb || (ya as i64) >= yb {
            assert(self@.tiles =~= carve_span(
                before.tiles,
                before.width,
                xa as int,
                xb as int,
                ya as int,
                yb as int,
            ));
            return ;
        }
        let mut y: i64 = ya as i64;
        while y < yb
            invariant
                ya <= y <= yb,
                xa < xb <= 0x8000_0000,
                yb <= 0x8000_0000,
                width == before.width,
                count == before.size(),
                self.wf(),
                self@ == (MapModel { tiles: self@.tiles, ..before }),
                self@.tiles == carve_span(
                    before.tiles,
                    before.width,
                    xa as int,
                    xb as int,
                    ya as int,
                    y as int,
                ),
            decreases yb - y,
        {
            let ghost rows = self@.tiles;
            let mut x: i64 = xa as i64;
            while x < xb
                invariant
                    ya <= y < yb,
                    xa <= x <= xb <= 0x8000_0000,
                    yb <= 0x8000_0000,
                    width == before.width,
                    count == before.size(),
                    self.wf(),
                    self@ == (MapModel { tiles: self@.tiles, ..before }),
                    rows.len() == before.tiles.len(),
                    self@.tiles == carve_span(
                        rows,
                        before.width,
                        xa as int,
                        x as int,
                        y as int,
                        y + 1,
                    ),
                decreases xb - x,
            {
                assert(-0x8000_0000 * 0x8000_0000 <= y * width <= 0x8000_0000 * 0x8000_0000)
                    by (nonlinear_arith)
                    requires
                        -0x8000_0000 <= y < 0x8000_0000,
                        0 <= width < 0x8000_0000,
                ;
                let idx: i64 = y * width + x;
                if idx >= 0 && idx < count {
                    self.tiles[idx as usize] = TileType::Floor;
                }
                proof {
                    assert(tile_index(before.width, x as int, y as int) == idx);
                }
                x += 1;
            }
            y += 1;
        }
    }

    /// Whether tile `(x, y)` is on the map.
    pub fn in_bounds(&self, pt: Point) -> (r: bool)
        ensures
            r == self@.in_bounds(pt.x as int, pt.y as int),
    {
        0 <= pt.x && pt.x < self.width && 0 <= pt.y && pt.y < self.height
    }

    /// Whether a walker may step onto tile `(x, y)`.
    pub fn is_exit_valid(&self, x: i32, y: i32) -> (r: bool)
        requires
            self.wf(),
        ensures
            r == self@.exit_valid(x as int, y as int),
    {
        if x < 1 || x > self.width - 1 || y < 1 || y > self.height - 1 {
            return false;
        }
        proof {
            lemma_tile_index_bounds(self.width as int, self.height as int, x as int, y as int);
        }
        let idx: usize = self.xy_idx(x, y);
        !self.blocked_tiles[idx]
    }

    /// Marks every wall tile as blocked and every other tile as free.
    pub fn populate_blocked(&mut self)
        requires
            old(self).wf(),
        ensures
            final(self).wf(),
            final(self)@ == (MapModel {
                blocked: Seq::new(
                    old(self)@.tiles.len(),
                    |i: int| old(self)@.tiles[i] == TileType::Wall,
                ),
                ..old(self)@
            }),
    {
        let ghost before = self@;
        let n: usize = self.tiles.len();
        let mut i: usize = 0;
        while i < n
            invariant
                i <= n,
                n == before.tiles.len(),
                self.wf(),
                self@ == (MapModel { blocked: self@.blocked, ..before }),
                forall|k: int| 0 <= k < i ==> self@.blocked[k] == (before.tiles[k] == TileType::Wall),
            decreases n - i,
        {
            let wall: bool = self.tiles[i] == TileType::Wall;
            self.blocked_tiles[i] = wall;
            i += 1;
        }
        assert(self@.blocked =~= Seq::new(
            before.tiles.len(),
            |i: int| before.tiles[i] == TileType::Wall,
        ));
    }

    /// Empties the list of occupants of every tile.
    pub fn clear_content_index(&mut self)
        requires
            old(self).wf(),
        ensures
            final(self).wf(),
            final(self)@ == (MapModel {
                content: Seq::new(old(self)@.content.len(), |i: int| Seq::<Entity>::empty()),
                ..old(self)@
            }),
    {
        let ghost before = self@;
        let n: usize = self.tile_content.len();
        let mut i: usize = 0;
        while i < n
            invariant
                i <= n,
                n == before.content.len(),
                n == self.tile_content@.len(),
                self.wf(),
                self@ == (MapModel { content: self@.content, ..before }),
                forall|k: int| 0 <= k < i ==> (#[trigger] self.tile_content@[k])@ == Seq::<Entity>::empty(),
            decreases n - i,
        {
            self.tile_content[i].clear();
            i += 1;
        }
        assert(self@.content =~= Seq::new(before.content.len(), |i: int| Seq::<Entity>::empty()));
    }

    /// Whether tile `idx` is a wall. An index off the map is not.
    pub fn is_opaque(&self, idx: i32) -> (r: bool)
        requires
            self.wf(),
        ensures
            r == (0 <= idx < self@.size() && self@.tiles[idx as int] == TileType::Wall),
    {
        if -1 < idx && idx < self.num_tiles {
            self.tiles[idx as usize] == TileType::Wall
        } else {
            false
        }
    }

    /// Adds tile `(x, y)` to `exits` if a walker may step onto it.
    fn push_exit(&self, exits: &mut Vec<i32>, x: i32, y: i32)
        requires
            self.wf(),
        ensures
            final(exits)@ == old(exits)@ + self@.exit_to(x as int, y as int),
    {
        if self.is_exit_valid(x, y) {
            proof {
                lemma_tile_index_bounds(self.width as int, self.height as int, x as int, y as int);
            }
            let idx: usize = self.xy_idx(x, y);
            exits.push(idx as i32);
        }
    }

    /// The tiles a walker may step to from tile `idx`, each one step away.
    pub fn get_available_exits(&self, idx: i32) -> (exits: Vec<i32>)
        requires
            self.wf(),
            0 <= idx < self@.size(),
        ensures
            exits@ == self@.exits(idx as int),
    {
        let mut exits: Vec<i32> = Vec::new();
        let x: i32 = idx % self.width;
        let y: i32 = idx / self.width;
        self.push_exit(&mut exits, x - 1, y);
        self.push_exit(&mut exits, x + 1, y);
        self.push_exit(&mut exits, x, y - 1);
        self.push_exit(&mut exits, x, y + 1);
        self.push_exit(&mut exits, x - 1, y - 1);
        self.push_exit(&mut exits, x + 1, y - 1);
        self.push_exit(&mut exits, x - 1, y + 1);
        self.push_exit(&mut exits, x + 1, y + 1);
        exits
    }

    /// The index of the tile at `pt`.
    pub fn point2d_to_index(&self, pt: Point) -> (idx: i32)
        requires
            i32::MIN <= tile_index(self.width as int, pt.x as int, pt.y as int) <= i32::MAX,
        ensures
            idx == tile_index(self.width as int, pt.x as int, pt.y as int),
    {
        let v: i64 = (pt.y as i64) * (self.width as i64) + (pt.x as i64);
        v as i32
    }

    /// The tile with index `idx`: its column is the remainder and its row the
    /// quotient of `idx` by the width, both rounded toward zero.
    pub fn index_to_point2d(&self, idx: i32) -> (pt: Point)
        requires
            self.width > 0,
        ensures
            pt.x == remainder_toward_zero(idx as int, self.width as int),
            pt.y == quotient_toward_zero(idx as int, self.width as int),
    {
        if idx >= 0 {
            Point { x: idx % self.width, y: idx / self.width }
        } else {
            let n: i64 = -(idx as i64);
            let w: i64 = self.width as i64;
            let q: i64 = n / w;
            let r: i64 = n % w;
            Point { x: (-r) as i32, y: (-q) as i32 }
        }
    }

    /// Digs out the inside of `room`, as far as it lies on the map.
    pub fn apply_room(&mut self, room: &Rect)
        requires
            old(self).wf(),
        ensures
            final(self).wf(),
            final(self)@ == (MapModel {
                tiles: carve_room(old(self)@.tiles, old(self)@.width, *room),
                ..old(self)@
            }),
    {
        self.carve(room.x1, room.x2 as i64, room.y1, room.y2 as i64);
    }

    /// Digs a corridor along row `y` between columns `x1` and `x2`.
    pub fn apply_tunnel_h(&mut self, x1: i32, x2: i32, y: i32)
        requires
            old(self).wf(),
        ensures
            final(self).wf(),
            final(self)@ == (MapModel {
                tiles: carve_h(old(self)@.tiles, old(self)@.width, x1 as int, x2 as int, y as int),
                ..old(self)@
            }),
    {
        let lo: i32 = if x1 <= x2 { x1 } else { x2 };
        let hi: i32 = if x1 <= x2 { x2 } else { x1 };
        self.carve(lo, hi as i64 + 1, y, y as i64 + 1);
    }

    /// Digs a corridor along column `x` between rows `y1` and `y2`.
    pub fn apply_tunnel_v(&mut self, y1: i32, y2: i32, x: i32)
        requires
            old(self).wf(),
        ensures
            final(self).wf(),
            final(self)@ == (MapModel {
                tiles: carve_v(old(self)@.tiles, old(self)@.width, y1 as int, y2 as int, x as int),
                ..old(self)@
            }),
    {
        let lo: i32 = if y1 <= y2 { y1 } else { y2 };
        let hi: i32 = if y1 <= y2 { y2 } else { y1 };
        self.carve(x, x as i64 + 1, lo, hi as i64 + 1);
    }
}

} // verus!
