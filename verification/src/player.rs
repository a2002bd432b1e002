//! What the user's entity does on a command: step, attack, pick up.

use vstd::prelude::*;
use crate::components::{Entity, ItemPickupMessage, ViewshedModel};
use crate::game_log::log_after;
use crate::geometry::Point;
use crate::map::tile_index;
use crate::text::{nothing_here_message, nothing_here_text};
use crate::world::{RunState, SlotModel, World, WorldModel};

verus! {

/// A command of the user.
#[derive(Clone, Copy, Debug, PartialEq, Eq, Structural)]
pub enum Command {
    North,
    South,
    East,
    West,
    NorthEast,
    NorthWest,
    SouthEast,
    SouthWest,
    PickUp,
    Inventory,
    Quit,
}

/// The step that a command asks for, if it asks for one; rows grow
/// southward, columns eastward.
pub open spec fn delta(c: Command) -> Option<(int, int)> {
    match c {
        Command::North => Some((0, -1)),
        Command::South => Some((0, 1)),
        Command::East => Some((1, 0)),
        Command::West => Some((-1, 0)),
        Command::NorthEast => Some((1, -1)),
        Command::NorthWest => Some((-1, -1)),
        Command::SouthEast => Some((1, 1)),
        Command::SouthWest => Some((-1, 1)),
        _ => None,
    }
}

/// Whether the entity of the slot is steered by the user: it is a player
/// with a position and a viewshed.
pub open spec fn steers(s: SlotModel) -> bool {
    s.player && s.position is Some && s.viewshed is Some
}

/// The index of the tile that the entity in slot `i` would step onto.
pub open spec fn goal_index(w: WorldModel, i: int, dx: int, dy: int) -> int {
    let at = w.slots[i].position.unwrap();
    tile_index(w.map.width, at.x + dx, at.y + dy)
}

/// Whether every steered entity aims at a tile of the map.
pub open spec fn move_fits(w: WorldModel, dx: int, dy: int) -> bool {
    forall|i: int|
        0 <= i < w.slots.len() && steers(#[trigger] w.slots[i]) ==> 0 <= goal_index(w, i, dx, dy)
            < w.map.size()
}

/// The last of the first `n` of `content` that is alive and has combat
/// stats.
pub open spec fn foe(w: WorldModel, content: Seq<Entity>, n: int) -> Option<Entity>
    decreases n,
{
    if n <= 0 {
        None
    } else if w.live(content[n - 1]) && w.slots[content[n - 1].index as int].stats is Some {
        Some(content[n - 1])
    } else {
        foe(w, content, n - 1)
    }
}

/// `v` held between 0 and `limit - 1`.
pub open spec fn clamped(v: int, limit: int) -> int {
    if v < 0 {
        0
    } else if v > limit - 1 {
        limit - 1
    } else {
        v
    }
}

/// Whether the entity in slot `i` is steered and the tile it aims at is
/// free.
pub open spec fn walks(w: WorldModel, i: int, dx: int, dy: int) -> bool {
    steers(w.slots[i]) && !w.map.blocked[goal_index(w, i, dx, dy)]
}

/// Where the entity in slot `i` stands after its step.
pub open spec fn landing(w: WorldModel, i: int, dx: int, dy: int) -> Point {
    let at = w.slots[i].position.unwrap();
    Point {
        x: clamped(at.x + dx, w.map.width) as i32,
        y: clamped(at.y + dy, w.map.height) as i32,
    }
}

/// The slot after the move: a steered entity wishes to attack the last
/// occupant with combat stats of the tile it aims at, if there is one, and
/// steps onto that tile if it is free, calling for a new field of view.
pub open spec fn moved_slot(w: WorldModel, i: int, dx: int, dy: int) -> SlotModel {
    let s = w.slots[i];
    if steers(s) {
        let content = w.map.content[goal_index(w, i, dx, dy)];
        let target = foe(w, content, content.len() as int);
        let aimed = SlotModel {
            melee: if target is Some {
                target
            } else {
                s.melee
            },
            ..s
        };
        if walks(w, i, dx, dy) {
            SlotModel {
                position: Some(landing(w, i, dx, dy)),
                viewshed: Some(ViewshedModel { dirty: true, ..s.viewshed.unwrap() }),
                ..aimed
            }
        } else {
            aimed
        }
    } else {
        s
    }
}

/// Where the user's entity was last moved to, after the slots below `n`
/// have moved.
pub open spec fn spot_after(w: WorldModel, dx: int, dy: int, n: int) -> Point
    decreases n,
{
    if n <= 0 {
        w.player_pos
    } else if walks(w, n - 1, dx, dy) {
        landing(w, n - 1, dx, dy)
    } else {
        spot_after(w, dx, dy, n - 1)
    }
}

/// The world after the slots below `n` have moved.
pub open spec fn moved_upto(w: WorldModel, dx: int, dy: int, n: int) -> WorldModel {
    WorldModel {
        slots: Seq::new(
            w.slots.len(),
            |j: int|
                if j < n {
                    moved_slot(w, j, dx, dy)
                } else {
                    w.slots[j]
                },
        ),
        player_pos: spot_after(w, dx, dy, n),
        ..w
    }
}

/// The world after every steered entity has moved.
pub open spec fn moved(w: WorldModel, dx: int, dy: int) -> WorldModel {
    moved_upto(w, dx, dy, w.slots.len() as int)
}

/// The last slot below `n` that holds an item lying where the user's entity
/// was last moved to.
pub open spec fn item_here(w: WorldModel, n: int) -> Option<int>
    decreases n,
{
    if n <= 0 {
        None
    } else if w.slots[n - 1].item && w.slots[n - 1].position == Some(w.player_pos) {
        Some(n - 1)
    } else {
        item_here(w, n - 1)
    }
}

/// Whether the user's entity can ask for the item under it: there is such
/// an entity, and it is alive where there is an item to ask for.
pub open spec fn pick_fits(w: WorldModel) -> bool {
    &&& w.player is Some
    &&& item_here(w, w.slots.len() as int) is Some ==> w.live(w.player.unwrap())
}

/// The world after the user's entity has asked for the item under it: with
/// no item there the log says so, else the entity wishes to pick it up.
pub open spec fn item_asked(w: WorldModel) -> WorldModel {
    match item_here(w, w.slots.len() as int) {
        None => WorldModel { log: log_after(w.log, w.log_capacity, nothing_here_text()), ..w },
        Some(i) => {
            let p = w.player.unwrap();
            WorldModel {
                slots: w.slots.update(
                    p.index as int,
                    SlotModel {
                        pickup: Some(ItemPickupMessage { collected_by: p, item: w.handle(i) }),
                        ..w.slots[p.index as int]
                    },
                ),
                ..w
            }
        },
    }
}

/// Whether the command can be carried out.
pub open spec fn input_fits(w: WorldModel, command: Option<Command>) -> bool {
    match command {
        None => true,
        Some(c) => match delta(c) {
            Some(d) => move_fits(w, d.0, d.1),
            None => c == Command::PickUp ==> pick_fits(w),
        },
    }
}

/// Where the scheduler goes on a command: a step or a pick-up takes the
/// user's turn, quitting ends the run, and anything else waits on.
pub open spec fn input_state(command: Option<Command>) -> RunState {
    match command {
        None => RunState::AwaitingInput,
        Some(c) => if delta(c) is Some || c == Command::PickUp {
            RunState::PlayerTurn
        } else if c == Command::Quit {
            RunState::Exit
        } else {
            RunState::AwaitingInput
        },
    }
}

/// The world after the command is carried out.
pub open spec fn input_applied(w: WorldModel, command: Option<Command>) -> WorldModel {
    match command {
        None => w,
        Some(c) => match delta(c) {
            Some(d) => moved(w, d.0, d.1),
            None => if c == Command::PickUp {
                item_asked(w)
            } else {
                w
            },
        },
    }
}

/// The step that a command asks for.
pub fn step_of(c: Command) -> (r: Option<(i32, i32)>)
    ensures
        r is Some == delta(c) is Some,
        r matches Some(d) ==> delta(c) == Some((d.0 as int, d.1 as int)),
{
    match c {
        Command::North => Some((0, -1)),
        Command::South => Some((0, 1)),
        Command::East => Some((1, 0)),
        Command::West => Some((-1, 0)),
        Command::NorthEast => Some((1, -1)),
        Command::NorthWest => Some((-1, -1)),
        Command::SouthEast => Some((1, 1)),
        Command::SouthWest => Some((-1, 1)),
        _ => None,
    }
}

/// The last occupant of tile `dest` that is alive and has combat stats.
fn find_foe(world: &World, dest: usize) -> (r: Option<Entity>)
    requires
        world.wf(),
        dest < world@.map.size(),
    ensures
        r == foe(world@, world@.map.content[dest as int], world@.map.content[dest as int].len() as int),
{
    let n: usize = world.map.tile_content[dest].len();
    let mut found: Option<Entity> = None;
    let mut k: usize = 0;
    while k < n
        invariant
            k <= n,
            world.wf(),
            dest < world@.map.size(),
            n == world@.map.content[dest as int].len(),
            found == foe(world@, world@.map.content[dest as int], k as int),
        decreases n - k,
    {
        let e: Entity = world.map.tile_content[dest][k];
        if world.is_alive(e) && world.stats_at(e.index).is_some() {
            found = Some(e);
        }
        k += 1;
    }
    found
}

/// The index of the tile `(x + dx, y + dy)`, if it is one of the map.
fn goal_of(world: &World, at: Point, dx: i32, dy: i32) -> (r: Option<usize>)
    requires
        world.wf(),
    ensures
        match r {
            Some(idx) => idx == tile_index(world@.map.width, at.x + dx, at.y + dy) && idx
                < world@.map.size(),
            None => !(0 <= tile_index(world@.map.width, at.x + dx, at.y + dy) < world@.map.size()),
        },
{
    let x: i64 = at.x as i64 + dx as i64;
    let y: i64 = at.y as i64 + dy as i64;
    let w: i64 = world.map.width as i64;
    assert(-0x1_0000_0000 * 0x7FFF_FFFF <= y * w <= 0xFFFF_FFFF * 0x7FFF_FFFF) by (nonlinear_arith)
        requires
            -0x1_0000_0000 <= y <= 0xFFFF_FFFF,
            0 <= w <= 0x7FFF_FFFF,
    ;
    let idx: i64 = y * w + x;
    if 0 <= idx && idx < world.map.num_tiles as i64 {
        Some(idx as usize)
    } else {
        None
    }
}

fn clamp(v: i64, limit: i32) -> (r: i32)
    requires
        0 < limit,
    ensures
        r == clamped(v as int, limit as int),
{
    if v < 0 {
        0
    } else if v > (limit - 1) as i64 {
        limit - 1
    } else {
        v as i32
    }
}

/// Whether `move_player` may be called: tells `move_fits`.
pub fn move_ready(dx: i32, dy: i32, world: &World) -> (r: bool)
    requires
        world.wf(),
    ensures
        r == move_fits(world@, dx as int, dy as int),
{
    let n: usize = world.len();
    let mut i: usize = 0;
    while i < n
        invariant
            i <= n,
            n == world@.slots.len(),
            world.wf(),
            forall|j: int|
                0 <= j < i && steers(#[trigger] world@.slots[j]) ==> 0 <= goal_index(
                    world@,
                    j,
                    dx as int,
                    dy as int,
                ) < world@.map.size(),
        decreases n - i,
    {
        if world.is_player(i) && world.sight_range_at(i).is_some() {
            match world.position_at(i) {
                Some(at) => {
                    if goal_of(world, at, dx, dy).is_none() {
                        return false;
                    }
                },
                None => {},
            }
        }
        i += 1;
    }
    true
}

/// Moves every steered entity by `(dx, dy)`: it asks to attack whoever with
/// combat stats stands on the tile it aims at, and steps there if the tile
/// is free, staying on the map.
pub fn move_player(dx: i32, dy: i32, world: &mut World)
    requires
        old(world).wf(),
        move_fits(old(world)@, dx as int, dy as int),
    ensures
        final(world).wf(),
        final(world)@ == moved(old(world)@, dx as int, dy as int),
{
    let ghost before = world@;
    let n: usize = world.len();
    let mut i: usize = 0;
    assert(world@.slots =~= moved_upto(before, dx as int, dy as int, 0).slots);
    while i < n
        invariant
            i <= n,
            n == before.slots.len(),
            before.wf(),
            move_fits(before, dx as int, dy as int),
            world.wf(),
            world@ == moved_upto(before, dx as int, dy as int, i as int),
        decreases n - i,
    {
        let ghost start = world@;
        if world.is_player(i) && world.sight_range_at(i).is_some() {
            match world.position_at(i) {
                Some(at) => {
                    let dest: usize = goal_of(world, at, dx, dy).unwrap();
                    let target: Option<Entity> = find_foe(world, dest);
                    proof {
                        let content = before.map.content[dest as int];
                        lemma_foe_same(before, start, content, content.len() as int);
                    }
                    if target.is_some() {
                        world.set_melee(i, target);
                    }
                    if !world.map.blocked_tiles[dest] {
                        let spot = Point {
                            x: clamp(at.x as i64 + dx as i64, world.map.width),
                            y: clamp(at.y as i64 + dy as i64, world.map.height),
                        };
                        world.set_position(i, Some(spot));
                        world.mark_dirty(i);
                        world.set_player_pos(spot);
                    }
                },
                None => {},
            }
        }
        proof {
            let wanted = moved_upto(before, dx as int, dy as int, i + 1);
            assert(world@.slots =~= wanted.slots);
        }
        i += 1;
    }
}

/// Who is a foe depends only on who is alive and has combat stats, which a
/// move does not change.
proof fn lemma_foe_same(a: WorldModel, b: WorldModel, content: Seq<Entity>, n: int)
    requires
        a.slots.len() == b.slots.len(),
        forall|j: int|
            0 <= j < a.slots.len() ==> (#[trigger] a.slots[j]).alive == b.slots[j].alive
                && a.slots[j].generation == b.slots[j].generation && a.slots[j].stats
                == b.slots[j].stats,
    ensures
        foe(a, content, n) == foe(b, content, n),
    decreases n,
{
    if n > 0 {
        lemma_foe_same(a, b, content, n - 1);
    }
}

/// Whether `get_item` may be called: tells `pick_fits`.
pub fn pick_ready(world: &World) -> (r: bool)
    requires
        world.wf(),
    ensures
        r == pick_fits(world@),
{
    match world.player {
        None => false,
        Some(e) => find_item(world).is_none() || world.is_alive(e),
    }
}

/// The last slot that holds an item lying where the user's entity was last
/// moved to.
fn find_item(world: &World) -> (r: Option<usize>)
    requires
        world.wf(),
    ensures
        match r {
            Some(i) => item_here(world@, world@.slots.len() as int) == Some(i as int) && i
                < world@.slots.len(),
            None => item_here(world@, world@.slots.len() as int) is None,
        },
{
    let n: usize = world.len();
    let mut found: Option<usize> = None;
    let mut i: usize = 0;
    while i < n
        invariant
            i <= n,
            n == world@.slots.len(),
            match found {
                Some(k) => item_here(world@, i as int) == Some(k as int) && k < i,
                None => item_here(world@, i as int) is None,
            },
        decreases n - i,
    {
        if world.is_item(i) {
            match world.position_at(i) {
                Some(pt) => {
                    if pt.x == world.player_pos.x && pt.y == world.player_pos.y {
                        found = Some(i);
                    }
                },
                None => {},
            }
        }
        i += 1;
    }
    found
}

/// Lets the user's entity ask for the item that lies where it stands. With
/// no item there, the log says that there is nothing to pick up.
pub fn get_item(world: &mut World)
    requires
        old(world).wf(),
        pick_fits(old(world)@),
    ensures
        final(world).wf(),
        final(world)@ == item_asked(old(world)@),
{
    match find_item(world) {
        None => {
            world.tell(nothing_here_message());
        },
        Some(i) => {
            let item: Entity = world.entity_at(i);
            let p: Entity = world.player.unwrap();
            world.set_pickup(p.index, Some(ItemPickupMessage { collected_by: p, item }));
        },
    }
}

/// Whether `player_input` may be called: tells `input_fits`.
pub fn input_ready(world: &World, command: Option<Command>) -> (r: bool)
    requires
        world.wf(),
    ensures
        r == input_fits(world@, command),
{
    match command {
        None => true,
        Some(c) => match step_of(c) {
            Some(d) => move_ready(d.0, d.1, world),
            None => match c {
                Command::PickUp => pick_ready(world),
                _ => true,
            },
        },
    }
}

/// Carries out the user's command and tells where the scheduler goes next.
pub fn player_input(world: &mut World, command: Option<Command>) -> (next: RunState)
    requires
        old(world).wf(),
        input_fits(old(world)@, command),
    ensures
        final(world).wf(),
        next == input_state(command),
        final(world)@ == input_applied(old(world)@, command),
{
    match command {
        None => RunState::AwaitingInput,
        Some(c) => match step_of(c) {
            Some(d) => {
                move_player(d.0, d.1, world);
                RunState::PlayerTurn
            },
            None => match c {
                Command::PickUp => {
                    get_item(world);
                    RunState::PlayerTurn
                },
                Command::Quit => RunState::Exit,
                _ => RunState::AwaitingInput,
            },
        },
    }
}

} // verus!
