//! Monster behaviour: attack the user's entity when next to it, else walk
//! toward it along a path found outside this library.

use vstd::prelude::*;
use crate::components::{Entity, ViewshedModel};
use crate::geometry::{in_melee_reach, within_reach, Point};
use crate::map::{lemma_tile_index_bounds, tile_index, MapModel};
use crate::world::{RunState, SlotModel, World, WorldModel};

verus! {

pub struct MonsterAI {}

/// What the monsters need next.
#[derive(Clone, Copy, Debug, PartialEq, Eq, Structural)]
pub enum MonsterPlan {
    /// No monster is left to act this turn.
    Done,
    /// The monster in slot `monster` wants a path from tile `start` to tile
    /// `goal`.
    Seek { monster: usize, start: usize, goal: usize },
}

/// Where the user's entity stands, if there is such an entity and it has a
/// position.
pub open spec fn player_spot(w: WorldModel) -> Option<Point> {
    match w.player {
        Some(e) => if w.live(e) {
            w.slots[e.index as int].position
        } else {
            None
        },
        None => None,
    }
}

/// Whether slot `i` holds a monster that has a position and sees the tile
/// `spot`.
pub open spec fn hunts(w: WorldModel, i: int, spot: Point) -> bool {
    &&& 0 <= i < w.slots.len()
    &&& w.slots[i].monster
    &&& w.slots[i].position is Some
    &&& w.slots[i].viewshed matches Some(v)
    &&& v.visible_tiles.contains(spot)
}

/// Whether slot `i` holds a hunting monster that is within reach of `spot`.
pub open spec fn reaches(w: WorldModel, i: int, spot: Point) -> bool {
    hunts(w, i, spot) && within_reach(w.slots[i].position.unwrap(), spot)
}

/// Whether slot `i` holds a hunting monster that is out of reach of `spot`,
/// and so has to find its way there.
pub open spec fn seeks(w: WorldModel, i: int, spot: Point) -> bool {
    hunts(w, i, spot) && !within_reach(w.slots[i].position.unwrap(), spot)
}

/// The first slot at or after `from` whose monster seeks, or the number of
/// slots where there is none.
pub open spec fn next_seeker(w: WorldModel, from: int, spot: Point) -> int
    decreases w.slots.len() - from,
{
    if from >= w.slots.len() {
        w.slots.len() as int
    } else if seeks(w, from, spot) {
        from
    } else {
        next_seeker(w, from + 1, spot)
    }
}

/// Whether the monsters act at all and one at or after `from` seeks.
pub open spec fn seeker_found(w: WorldModel, from: int) -> bool {
    w.runstate == RunState::MonsterTurn && next_seeker(w, from, player_spot(w).unwrap())
        < w.slots.len()
}

/// What the monsters at and after slot `from` need: a path for the first of
/// them that hunts out of reach of the user's entity; nothing where there
/// is none, and nothing outside a monsters' turn.
pub open spec fn plan(w: WorldModel, from: int) -> MonsterPlan {
    let spot = player_spot(w).unwrap();
    let h = next_seeker(w, from, spot);
    if seeker_found(w, from) {
        MonsterPlan::Seek {
            monster: h as usize,
            start: tile_index(
                w.map.width,
                w.slots[h].position.unwrap().x as int,
                w.slots[h].position.unwrap().y as int,
            ) as usize,
            goal: tile_index(w.map.width, spot.x as int, spot.y as int) as usize,
        }
    } else {
        MonsterPlan::Done
    }
}

/// The world after every hunting monster in slots `from` up to `to` that is
/// within reach of the user's entity has come to wish to attack it.
pub open spec fn wished(w: WorldModel, from: int, to: int) -> WorldModel {
    WorldModel {
        slots: Seq::new(
            w.slots.len(),
            |j: int|
                if from <= j < to && reaches(w, j, player_spot(w).unwrap()) {
                    SlotModel { melee: w.player, ..w.slots[j] }
                } else {
                    w.slots[j]
                },
        ),
        ..w
    }
}

/// The world after the plan is made: in a monsters' turn, every hunter
/// within reach from slot `from` up to the first that needs a path, or up
/// to the last slot where none does, wishes to attack the user's entity.
/// Nothing else has changed, and outside a monsters' turn nothing at all.
pub open spec fn after_plan(w: WorldModel, from: int) -> WorldModel {
    if w.runstate == RunState::MonsterTurn {
        wished(w, from, next_seeker(w, from, player_spot(w).unwrap()))
    } else {
        w
    }
}

/// The first seeker at or after a slot stands no earlier than that slot, no
/// monster between the two seeks, and where it is a slot its monster does.
pub proof fn lemma_next_seeker(w: WorldModel, from: int, spot: Point)
    requires
        0 <= from,
    ensures
        next_seeker(w, from, spot) <= w.slots.len(),
        from <= w.slots.len() ==> from <= next_seeker(w, from, spot),
        next_seeker(w, from, spot) < w.slots.len() ==> seeks(w, next_seeker(w, from, spot), spot),
        forall|j: int| from <= j < next_seeker(w, from, spot) ==> !seeks(w, j, spot),
    decreases w.slots.len() - from,
{
    if from < w.slots.len() && !seeks(w, from, spot) {
        lemma_next_seeker(w, from + 1, spot);
    }
}

/// Whether a path hands the monster a next step.
pub open spec fn leads_on(success: bool, steps: Seq<usize>) -> bool {
    success && steps.len() > 1
}

/// Whether the monster in slot `i` can follow the path: it has a position
/// and a viewshed, and the next step is a tile of the map.
pub open spec fn path_fits(w: WorldModel, i: int, success: bool, steps: Seq<usize>) -> bool {
    &&& 0 <= i < w.slots.len()
    &&& w.slots[i].position is Some
    &&& w.slots[i].viewshed is Some
    &&& leads_on(success, steps) ==> steps[1] < w.map.size()
}

/// The world after the monster in slot `i` has moved to tile `to`: the tile
/// it left is free, the tile it is on is blocked, and it calls for a new
/// field of view.
pub open spec fn stepped(w: WorldModel, i: int, to: int) -> WorldModel {
    let at = w.slots[i].position.unwrap();
    WorldModel {
        slots: w.slots.update(
            i,
            SlotModel {
                position: Some(Point { x: (to % w.map.width) as i32, y: (to / w.map.width) as i32 }),
                viewshed: Some(ViewshedModel { dirty: true, ..w.slots[i].viewshed.unwrap() }),
                ..w.slots[i]
            },
        ),
        map: MapModel {
            blocked: w.map.blocked.update(
                tile_index(w.map.width, at.x as int, at.y as int),
                false,
            ).update(to, true),
            ..w.map
        },
        ..w
    }
}

/// The world after the monster in slot `i` was handed the path.
pub open spec fn followed(w: WorldModel, i: int, success: bool, steps: Seq<usize>) -> WorldModel {
    if leads_on(success, steps) {
        stepped(w, i, steps[1] as int)
    } else {
        w
    }
}

impl MonsterAI {
    /// Where the user's entity stands.
    pub fn find_player(world: &World) -> (r: Option<Point>)
        ensures
            r == player_spot(world@),
    {
        match world.player {
            Some(e) => {
                if world.is_alive(e) {
                    world.position_at(e.index)
                } else {
                    None
                }
            },
            None => None,
        }
    }

    /// Lets the monsters act, from slot `from` on: each that hunts within
    /// reach of the user's entity comes to wish to attack it and stays where
    /// it is. The first that hunts out of reach needs a path, which the
    /// caller is to find and hand to `step`; the monsters after it wait for
    /// the next call.
    pub fn run(world: &mut World, from: usize) -> (r: MonsterPlan)
        requires
            old(world).wf(),
            player_spot(old(world)@) is Some,
        ensures
            final(world).wf(),
            r == plan(old(world)@, from as int),
            final(world)@ == after_plan(old(world)@, from as int),
    {
        let ghost before = world@;
        let spot: Point = MonsterAI::find_player(world).unwrap();
        if world.runstate != RunState::MonsterTurn {
            return MonsterPlan::Done;
        }
        let target: Option<Entity> = world.player;
        let n: usize = world.len();
        let mut i: usize = from;
        assert(world@.slots =~= wished(before, from as int, from as int).slots);
        while i < n
            invariant
                n == before.slots.len(),
                before == old(world)@,
                before.wf(),
                world.wf(),
                from <= i,
                player_spot(before) == Some(spot),
                target == before.player,
                before.runstate == RunState::MonsterTurn,
                world@ == wished(before, from as int, i as int),
                next_seeker(before, from as int, spot) == next_seeker(before, i as int, spot),
            decreases n - i,
        {
            assert(world@.slots[i as int] == before.slots[i as int]);
            let ghost start_of_step = world@;
            if world.is_monster(i) && world.sees_at(i, spot) {
                match world.position_at(i) {
                    Some(at) => {
                        if !in_melee_reach(at, spot) {
                            proof {
                                assert(seeks(before, i as int, spot));
                                let e = before.player.unwrap();
                                assert(before.slots[i as int].wf(before.map));
                                assert(before.slots[e.index as int].wf(before.map));
                                lemma_tile_index_bounds(
                                    before.map.width,
                                    before.map.height,
                                    at.x as int,
                                    at.y as int,
                                );
                                lemma_tile_index_bounds(
                                    before.map.width,
                                    before.map.height,
                                    spot.x as int,
                                    spot.y as int,
                                );
                            }
                            let start: usize = world.map.xy_idx(at.x, at.y);
                            let goal: usize = world.map.xy_idx(spot.x, spot.y);
                            return MonsterPlan::Seek { monster: i, start, goal };
                        }
                        world.set_melee(i, target);
                    },
                    None => {},
                }
            }
            assert(world@.slots =~= wished(before, from as int, i + 1).slots) by {
                assert forall|j: int| 0 <= j < n implies world@.slots[j] == wished(
                    before,
                    from as int,
                    i + 1,
                ).slots[j] by {
                    assert(start_of_step.slots[j] == wished(before, from as int, i as int).slots[j]);
                }
            }
            i += 1;
        }
        assert(world@.slots =~= after_plan(before, from as int).slots);
        MonsterPlan::Done
    }

    /// Whether `step` may be called: tells `path_fits`.
    pub fn ready(world: &World, monster: usize, success: bool, steps: &Vec<usize>) -> (r: bool)
        requires
            world.wf(),
        ensures
            r == path_fits(world@, monster as int, success, steps@),
            r ==> monster < usize::MAX,
    {
        if monster >= world.len() {
            return false;
        }
        if world.position_at(monster).is_none() || world.sight_range_at(monster).is_none() {
            return false;
        }
        if success && steps.len() > 1 {
            world.map.num_tiles >= 0 && steps[1] < world.map.num_tiles as usize
        } else {
            true
        }
    }

    /// Hands the monster in slot `monster` the path it asked for. Where the
    /// search succeeded and the path has a step after its start, the monster
    /// takes that step.
    pub fn step(world: &mut World, monster: usize, success: bool, steps: &Vec<usize>)
        requires
            old(world).wf(),
            path_fits(old(world)@, monster as int, success, steps@),
        ensures
            final(world).wf(),
            final(world)@ == followed(old(world)@, monster as int, success, steps@),
    {
        if success && steps.len() > 1 {
            let to: usize = steps[1];
            let at: Point = world.position_at(monster).unwrap();
            proof {
                lemma_tile_index_bounds(
                    world@.map.width,
                    world@.map.height,
                    at.x as int,
                    at.y as int,
                );
            }
            let from: usize = world.map.xy_idx(at.x, at.y);
            world.set_blocked(from, false);
            let width: usize = world.map.width as usize;
            let x: usize = to % width;
            let y: usize = to / width;
            assert(y < world@.map.height) by (nonlinear_arith)
                requires
                    0 < width,
                    0 <= to < width * world@.map.height,
                    y == (to as int) / (width as int),
            ;
            let spot = Point { x: x as i32, y: y as i32 };
            world.set_position(monster, Some(spot));
            world.set_blocked(to, true);
            world.mark_dirty(monster);
            assert(world@.slots =~= stepped(old(world)@, monster as int, to as int).slots);
        }
    }
}

} // verus!
