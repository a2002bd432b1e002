//! Making the entities of the game: the user's, the monsters, the items.

use vstd::prelude::*;
use crate::components::{
    BlocksSight, BlocksTile, Color, CombatStats, Entity, Item, Monster, Name, Player, Position,
    Potion, Renderable, Viewshed, ViewshedModel,
};
use crate::geometry::{Point, Rect};
use crate::map::MapModel;
use crate::rng::range;
use crate::world::{slot_model, Slot, SlotModel, World, WorldModel};

verus! {

pub open spec fn black() -> Color {
    Color { r: 0, g: 0, b: 0 }
}

pub open spec fn yellow() -> Color {
    Color { r: 255, g: 255, b: 0 }
}

pub open spec fn red() -> Color {
    Color { r: 255, g: 0, b: 0 }
}

pub open spec fn magenta() -> Color {
    Color { r: 255, g: 0, b: 255 }
}

/// The code-page-437 glyph that `rltk::to_cp437` gives for a character.
pub uninterp spec fn cp437(c: char) -> u16;

/// Calls `rltk::to_cp437`, which looks the character up in a fixed table;
/// the result is named, not spelled out.
#[verifier::external_body]
fn to_glyph(c: char) -> (g: u16)
    ensures
        g == cp437(c),
{
    rltk::to_cp437(c)
}

/// The glyph that stands for `c` on screen.
pub fn glyph(c: char) -> (g: u16)
    ensures
        g == cp437(c),
{
    to_glyph(c)
}

/// The components of the user's entity at `(x, y)`.
pub open spec fn player_parts(generation: u32, x: i32, y: i32) -> SlotModel {
    SlotModel {
        position: Some(Point { x, y }),
        renderable: Some(Renderable { glyph: cp437('@'), fg: yellow(), bg: black() }),
        name: Some("Player"@),
        player: true,
        viewshed: Some(ViewshedModel { visible_tiles: Seq::empty(), range: 8, dirty: true }),
        stats: Some(CombatStats { max_hp: 30, cur_hp: 30, atk: 5, def: 3 }),
        ..SlotModel::bare(true, generation)
    }
}

/// The components of a goblin at `(x, y)`.
pub open spec fn goblin_parts(generation: u32, x: i32, y: i32) -> SlotModel {
    SlotModel {
        position: Some(Point { x, y }),
        renderable: Some(Renderable { glyph: cp437('g'), fg: red(), bg: black() }),
        name: Some("Goblin"@),
        monster: true,
        blocks_tile: true,
        blocks_sight: true,
        viewshed: Some(ViewshedModel { visible_tiles: Seq::empty(), range: 8, dirty: true }),
        stats: Some(CombatStats { max_hp: 10, cur_hp: 10, atk: 4, def: 1 }),
        ..SlotModel::bare(true, generation)
    }
}

/// The components of a health potion at `(x, y)`.
pub open spec fn potion_parts(generation: u32, x: i32, y: i32) -> SlotModel {
    SlotModel {
        position: Some(Point { x, y }),
        renderable: Some(Renderable { glyph: cp437('!'), fg: magenta(), bg: black() }),
        name: Some("Health Potion"@),
        item: true,
        potion: true,
        ..SlotModel::bare(true, generation)
    }
}

/// The world with a goblin added at `pt`.
pub open spec fn goblin_added(w: WorldModel, pt: Point) -> WorldModel {
    w.with_entity(w.next_entity(), goblin_parts(w.next_entity().generation, pt.x, pt.y))
}

/// The world with a health potion added at `pt`.
pub open spec fn potion_added(w: WorldModel, pt: Point) -> WorldModel {
    w.with_entity(w.next_entity(), potion_parts(w.next_entity().generation, pt.x, pt.y))
}

/// The world with a goblin added at each of the first `n` points, in order.
pub open spec fn goblins_added(w: WorldModel, at: Seq<Point>, n: int) -> WorldModel
    decreases n,
{
    if n <= 0 {
        w
    } else {
        goblin_added(goblins_added(w, at, n - 1), at[n - 1])
    }
}

/// The world with a health potion added at each of the first `n` points, in
/// order.
pub open spec fn potions_added(w: WorldModel, at: Seq<Point>, n: int) -> WorldModel
    decreases n,
{
    if n <= 0 {
        w
    } else {
        potion_added(potions_added(w, at, n - 1), at[n - 1])
    }
}

/// The world with a goblin at each of `mobs` and then a health potion at
/// each of `items`.
pub open spec fn populated(w: WorldModel, mobs: Seq<Point>, items: Seq<Point>) -> WorldModel {
    potions_added(goblins_added(w, mobs, mobs.len() as int), items, items.len() as int)
}

/// Whether the slot holds a goblin or a health potion that stands at `pt`.
pub open spec fn settled_at(s: SlotModel, pt: Point) -> bool {
    s == goblin_parts(s.generation, pt.x, pt.y) || s == potion_parts(s.generation, pt.x, pt.y)
}

/// Whether the slot holds a goblin or a health potion that stands inside
/// `room`.
pub open spec fn dwells(s: SlotModel, room: Rect) -> bool {
    exists|pt: Point| room.covers(pt.x as int, pt.y as int) && #[trigger] settled_at(s, pt)
}

/// Whether every slot of `after` is as it was in `before` or holds a goblin
/// or a health potion that stands inside `room`, and nothing but slots has
/// changed.
pub open spec fn settled_in(before: WorldModel, after: WorldModel, room: Rect) -> bool {
    &&& after == (WorldModel { slots: after.slots, ..before })
    &&& after.slots.len() >= before.slots.len()
    &&& forall|j: int|
        0 <= j < after.slots.len() ==> (j < before.slots.len() && #[trigger] after.slots[j]
            == before.slots[j]) || dwells(after.slots[j], room)
}

/// Whether no point occurs twice.
pub open spec fn distinct(points: Seq<Point>) -> bool {
    forall|a: int, b: int| 0 <= a < b < points.len() ==> points[a] != points[b]
}

/// Whether every point lies inside `room`.
pub open spec fn all_inside(points: Seq<Point>, room: Rect) -> bool {
    forall|k: int| 0 <= k < points.len() ==> room.covers(
        (#[trigger] points[k]).x as int,
        points[k].y as int,
    )
}

/// Whether `room` is not empty and lies on the map.
pub open spec fn room_on_map(m: MapModel, room: Rect) -> bool {
    0 <= room.x1 < room.x2 <= m.width && 0 <= room.y1 < room.y2 <= m.height
}

/// Makes the user's entity at `(x, y)`.
pub fn player(world: &mut World, player_x: i32, player_y: i32) -> (e: Entity)
    requires
        old(world).wf(),
        old(world)@.map.in_bounds(player_x as int, player_y as int),
    ensures
        final(world).wf(),
        e == old(world)@.next_entity(),
        e.index <= old(world)@.slots.len(),
        final(world)@ == old(world)@.with_entity(e, player_parts(e.generation, player_x, player_y)),
{
    let parts = Slot {
        alive: true,
        generation: 0,
        position: Some(Position { pt: Point::new(player_x, player_y) }),
        renderable: Some(
            Renderable {
                glyph: glyph('@'),
                fg: Color { r: 255, g: 255, b: 0 },
                bg: Color { r: 0, g: 0, b: 0 },
            },
        ),
        name: Some(Name { name: "Player".to_string() }),
        player: Some(Player {  }),
        monster: None,
        item: None,
        potion: None,
        blocks_tile: None,
        blocks_sight: None,
        combat_stats: Some(CombatStats { max_hp: 30, cur_hp: 30, atk: 5, def: 3 }),
        viewshed: Some(Viewshed { visible_tiles: Vec::new(), range: 8, dirty: true }),
        melee: None,
        damage: None,
        in_backpack: None,
        pickup: None,
    };
    proof {
        reveal(slot_model);
        reveal_strlit("Player");
    }
    world.spawn(parts)
}

/// Makes a goblin at `(x, y)`.
pub fn monster(world: &mut World, x: i32, y: i32)
    requires
        old(world).wf(),
        old(world)@.map.in_bounds(x as int, y as int),
    ensures
        final(world).wf(),
        final(world)@ == goblin_added(old(world)@, Point { x, y }),
{
    let parts = Slot {
        alive: true,
        generation: 0,
        position: Some(Position { pt: Point::new(x, y) }),
        renderable: Some(
            Renderable {
                glyph: glyph('g'),
                fg: Color { r: 255, g: 0, b: 0 },
                bg: Color { r: 0, g: 0, b: 0 },
            },
        ),
        name: Some(Name { name: "Goblin".to_string() }),
        player: None,
        monster: Some(Monster {  }),
        item: None,
        potion: None,
        blocks_tile: Some(BlocksTile {  }),
        blocks_sight: Some(BlocksSight {  }),
        combat_stats: Some(CombatStats { max_hp: 10, cur_hp: 10, atk: 4, def: 1 }),
        viewshed: Some(Viewshed { visible_tiles: Vec::new(), range: 8, dirty: true }),
        melee: None,
        damage: None,
        in_backpack: None,
        pickup: None,
    };
    proof {
        reveal(slot_model);
        reveal_strlit("Goblin");
    }
    world.spawn(parts);
}

/// Makes a health potion at `(x, y)`.
pub fn potion(world: &mut World, x: i32, y: i32)
    requires
        old(world).wf(),
        old(world)@.map.in_bounds(x as int, y as int),
    ensures
        final(world).wf(),
        final(world)@ == potion_added(old(world)@, Point { x, y }),
{
    let parts = Slot {
        alive: true,
        generation: 0,
        position: Some(Position { pt: Point::new(x, y) }),
        renderable: Some(
            Renderable {
                glyph: glyph('!'),
                fg: Color { r: 255, g: 0, b: 255 },
                bg: Color { r: 0, g: 0, b: 0 },
            },
        ),
        name: Some(Name { name: "Health Potion".to_string() }),
        player: None,
        monster: None,
        item: Some(Item {  }),
        potion: Some(Potion {  }),
        blocks_tile: None,
        blocks_sight: None,
        combat_stats: None,
        viewshed: None,
        melee: None,
        damage: None,
        in_backpack: None,
        pickup: None,
    };
    proof {
        reveal(slot_model);
        reveal_strlit("Health Potion");
    }
    world.spawn(parts);
}

/// Every tile inside `room`, row by row.
fn room_cells(room: &Rect) -> (cells: Vec<Point>)
    requires
        room.x1 < room.x2,
        room.y1 < room.y2,
    ensures
        distinct(cells@),
        all_inside(cells@, *room),
        cells@.len() == (room.x2 - room.x1) * (room.y2 - room.y1),
{
    let mut cells: Vec<Point> = Vec::new();
    let ghost across: int = room.x2 - room.x1;
    let mut y: i32 = room.y1;
    while y < room.y2
        invariant
            room.x1 < room.x2,
            room.y1 <= y <= room.y2,
            across == room.x2 - room.x1,
            distinct(cells@),
            all_inside(cells@, *room),
            forall|k: int| 0 <= k < cells@.len() ==> (#[trigger] cells@[k]).y < y,
            cells@.len() == across * (y - room.y1),
        decreases room.y2 - y,
    {
        let mut x: i32 = room.x1;
        while x < room.x2
            invariant
                room.x1 <= x <= room.x2,
                room.y1 <= y < room.y2,
                across == room.x2 - room.x1,
                distinct(cells@),
                all_inside(cells@, *room),
                forall|k: int|
                    0 <= k < cells@.len() ==> (#[trigger] cells@[k]).y < y || (cells@[k].y == y
                        && cells@[k].x < x),
                cells@.len() == across * (y - room.y1) + (x - room.x1),
            decreases room.x2 - x,
        {
            cells.push(Point { x, y });
            x += 1;
        }
        assert(across * (y - room.y1) + across == across * (y + 1 - room.y1)) by (nonlinear_arith);
        y += 1;
    }
    cells
}

/// Draws `count` of `cells` at random, none twice.
fn draw(rng: &mut rltk::RandomNumberGenerator, cells: Vec<Point>, count: usize) -> (picked: Vec<
    Point,
>)
    requires
        count <= cells@.len() <= i32::MAX,
        distinct(cells@),
    ensures
        picked@.len() == count,
        distinct(picked@),
        forall|k: int| 0 <= k < count ==> cells@.contains(#[trigger] picked@[k]),
{
    let ghost given = cells@;
    let mut cells = cells;
    let n: usize = cells.len();
    let mut picked: Vec<Point> = Vec::new();
    let mut j: usize = 0;
    while j < count
        invariant
            j <= count <= n,
            n == cells@.len(),
            n == given.len(),
            n <= i32::MAX,
            distinct(cells@),
            forall|k: int| 0 <= k < n ==> given.contains(#[trigger] cells@[k]),
            picked@ == cells@.take(j as int),
        decreases count - j,
    {
        let r: usize = range(rng, j as i32, n as i32) as usize;
        let a: Point = cells[j];
        let b: Point = cells[r];
        cells[j] = b;
        cells[r] = a;
        picked.push(b);
        j += 1;
    }
    picked
}

/// Adding goblins inside a room settles them in it.
proof fn lemma_goblins_settle(w: WorldModel, at: Seq<Point>, n: int, room: Rect)
    requires
        0 <= n <= at.len(),
        all_inside(at, room),
    ensures
        settled_in(w, goblins_added(w, at, n), room),
    decreases n,
{
    if n > 0 {
        lemma_goblins_settle(w, at, n - 1, room);
        let prev = goblins_added(w, at, n - 1);
        let next = goblin_added(prev, at[n - 1]);
        let e = prev.next_entity();
        let placed_at = if e.index < prev.slots.len() {
            e.index as int
        } else {
            prev.slots.len() as int
        };
        assert forall|j: int| 0 <= j < next.slots.len() implies (j < w.slots.len()
            && #[trigger] next.slots[j] == w.slots[j]) || dwells(next.slots[j], room) by {
            if j == placed_at {
                assert(settled_at(next.slots[j], at[n - 1]));
            }
        }
    }
}

/// Adding health potions inside a room settles them in it.
proof fn lemma_potions_settle(w: WorldModel, at: Seq<Point>, n: int, room: Rect)
    requires
        0 <= n <= at.len(),
        all_inside(at, room),
    ensures
        settled_in(w, potions_added(w, at, n), room),
    decreases n,
{
    if n > 0 {
        lemma_potions_settle(w, at, n - 1, room);
        let prev = potions_added(w, at, n - 1);
        let next = potion_added(prev, at[n - 1]);
        let e = prev.next_entity();
        let placed_at = if e.index < prev.slots.len() {
            e.index as int
        } else {
            prev.slots.len() as int
        };
        assert forall|j: int| 0 <= j < next.slots.len() implies (j < w.slots.len()
            && #[trigger] next.slots[j] == w.slots[j]) || dwells(next.slots[j], room) by {
            if j == placed_at {
                assert(settled_at(next.slots[j], at[n - 1]));
            }
        }
    }
}

/// Whatever is put into a room settles in it: every slot is as it was or
/// holds a goblin or a health potion inside the room.
pub proof fn lemma_populated_settles(w: WorldModel, mobs: Seq<Point>, items: Seq<Point>, room: Rect)
    requires
        all_inside(mobs, room),
        all_inside(items, room),
    ensures
        settled_in(w, populated(w, mobs, items), room),
{
    let crowded = goblins_added(w, mobs, mobs.len() as int);
    lemma_goblins_settle(w, mobs, mobs.len() as int, room);
    lemma_potions_settle(crowded, items, items.len() as int, room);
}

/// Makes a goblin at each of `mobs`, then a health potion at each of
/// `items`.
pub fn spawn_all(world: &mut World, mobs: &Vec<Point>, items: &Vec<Point>)
    requires
        old(world).wf(),
        forall|k: int|
            0 <= k < mobs@.len() ==> old(world)@.map.in_bounds(
                (#[trigger] mobs@[k]).x as int,
                mobs@[k].y as int,
            ),
        forall|k: int|
            0 <= k < items@.len() ==> old(world)@.map.in_bounds(
                (#[trigger] items@[k]).x as int,
                items@[k].y as int,
            ),
    ensures
        final(world).wf(),
        final(world)@ == populated(old(world)@, mobs@, items@),
{
    let ghost before = world@;
    let mut k: usize = 0;
    while k < mobs.len()
        invariant
            k <= mobs@.len(),
            world.wf(),
            world@.map == before.map,
            world@ == goblins_added(before, mobs@, k as int),
            forall|q: int|
                0 <= q < mobs@.len() ==> before.map.in_bounds(
                    (#[trigger] mobs@[q]).x as int,
                    mobs@[q].y as int,
                ),
        decreases mobs@.len() - k,
    {
        let pt: Point = mobs[k];
        monster(world, pt.x, pt.y);
        k += 1;
    }
    let ghost crowded = world@;
    let mut k: usize = 0;
    while k < items.len()
        invariant
            k <= items@.len(),
            world.wf(),
            world@.map == before.map,
            world@ == potions_added(crowded, items@, k as int),
            forall|q: int|
                0 <= q < items@.len() ==> before.map.in_bounds(
                    (#[trigger] items@[q]).x as int,
                    items@[q].y as int,
                ),
        decreases items@.len() - k,
    {
        let pt: Point = items[k];
        potion(world, pt.x, pt.y);
        k += 1;
    }
}

/// Puts up to four goblins and up to one health potion into `room`, each
/// kind on tiles of the room drawn at random, no tile twice for one kind.
pub fn populate_room(world: &mut World, room: &Rect)
    requires
        old(world).wf(),
        room_on_map(old(world)@.map, *room),
        (room.x2 - room.x1) * (room.y2 - room.y1) >= 4,
    ensures
        final(world).wf(),
        exists|mobs: Seq<Point>, items: Seq<Point>|
            mobs.len() <= 4 && items.len() <= 1 && distinct(mobs) && distinct(items) && all_inside(
                mobs,
                *room,
            ) && all_inside(items, *room) && final(world)@ == #[trigger] populated(
                old(world)@,
                mobs,
                items,
            ),
        settled_in(old(world)@, final(world)@, *room),
{
    proof {
        assert((room.x2 - room.x1) * (room.y2 - room.y1) <= world@.map.width * world@.map.height)
            by (nonlinear_arith)
            requires
                0 < room.x2 - room.x1 <= world@.map.width,
                0 < room.y2 - room.y1 <= world@.map.height,
        ;
    }
    let num_mob: i32 = range(&mut world.rng, 0, 5);
    let num_item: i32 = range(&mut world.rng, 0, 2);
    let mob_cells: Vec<Point> = room_cells(room);
    let mobs: Vec<Point> = draw(&mut world.rng, mob_cells, num_mob as usize);
    let item_cells: Vec<Point> = room_cells(room);
    let items: Vec<Point> = draw(&mut world.rng, item_cells, num_item as usize);
    spawn_all(world, &mobs, &items);
    proof {
        lemma_populated_settles(old(world)@, mobs@, items@, *room);
    }
}

} // verus!
