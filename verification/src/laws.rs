//! What holds of the rules of the game, whatever the world they are applied
//! to.

use vstd::prelude::*;
use crate::combat_syst::{
    blow, combat_fits, fought, incoming, lands, lemma_incoming_grows, melee_damage, pending, victim,
};
use crate::components::{CombatStats, Entity};
use crate::damage_syst::{damage_applied, damage_fits, dying, swept};
use crate::geometry::{distance_squared, lemma_reach_is_touching, touching, within_reach, Point};
use crate::map::{tile_index, MapModel};
use crate::monster_syst::{
    after_plan, hunts, lemma_next_seeker, next_seeker, plan, player_spot, seeks, MonsterPlan,
};
use crate::world::RunState;
use crate::player::Command;
use crate::state::{pathed_on, sighted_on, ticked, StateModel};
use crate::visibility_syst::{lemma_map_seen_keeps, looked};
use crate::world::{SlotModel, WorldModel};

verus! {

/// The damage of a blow is the attack less the defense where that is above
/// zero, and zero otherwise; it is never negative.
pub proof fn law_damage_is_attack_less_defense(atk: int, def: int)
    ensures
        melee_damage(atk, def) >= 0,
        atk - def >= 0 ==> melee_damage(atk, def) == atk - def,
        atk - def <= 0 ==> melee_damage(atk, def) == 0,
{
}

/// What a turn's attacks take off the health of an entity is one sum: the
/// damage pending against it and every blow that landed on it, added up.
/// Health is lowered by that sum once, with nothing held back on the way.
pub proof fn law_blows_add_up(w: WorldModel, t: int)
    requires
        w.wf(),
        combat_fits(w),
        damage_fits(fought(w)),
        0 <= t < w.slots.len(),
        w.slots[t].stats is Some,
    ensures
        damage_applied(fought(w)).slots[t].stats.unwrap().cur_hp == w.slots[t].stats.unwrap().cur_hp
            - pending(w, t) - incoming(w, t, w.slots.len() as int),
        damage_applied(fought(w)).slots[t].damage is None,
{
    lemma_incoming_grows(w, t, 0, w.slots.len() as int);
}

/// What the attacks of a turn leave pending against an entity is what was
/// pending before plus every blow that landed on it: the amounts are added
/// into the one message, never overwritten and never split.
pub proof fn law_blows_gather_in_one_message(w: WorldModel, t: int)
    requires
        w.wf(),
        combat_fits(w),
        0 <= t < w.slots.len(),
    ensures
        pending(fought(w), t) == pending(w, t) + incoming(w, t, w.slots.len() as int),
{
    lemma_incoming_grows(w, t, 0, w.slots.len() as int);
    assert(w.slots[t].wf(w.map));
}

/// No attack lowers what is pending against an entity, and damage that was
/// not pending before the attacks is at least 1.
pub proof fn law_attacks_never_lower_damage(w: WorldModel, t: int)
    requires
        w.wf(),
        combat_fits(w),
        0 <= t < w.slots.len(),
    ensures
        pending(fought(w), t) >= pending(w, t),
        w.slots[t].damage is None && fought(w).slots[t].damage is Some ==> pending(fought(w), t)
            >= 1,
{
    law_blows_gather_in_one_message(w, t);
    lemma_incoming_grows(w, t, 0, w.slots.len() as int);
}

/// An entity with nothing pending against it and one attacker that lands a
/// blow on it has, after the attacks, damage pending of attack less defense
/// where that is above zero, and none otherwise.
pub proof fn law_single_blow(w: WorldModel, a: int, t: int)
    requires
        w.wf(),
        combat_fits(w),
        0 <= t < w.slots.len(),
        w.slots[t].damage is None,
        lands(w, a) && victim(w, a).index == t,
        forall|c: int|
            0 <= c < w.slots.len() && c != a ==> !(#[trigger] lands(w, c) && victim(w, c).index == t),
    ensures
        blow(w, a) == melee_damage(
            w.slots[a].stats.unwrap().atk as int,
            w.slots[t].stats.unwrap().def as int,
        ),
        blow(w, a) > 0 ==> fought(w).slots[t].damage == Some(blow(w, a) as i32),
        blow(w, a) == 0 ==> fought(w).slots[t].damage is None,
{
    lemma_incoming_misses(w, t, 0, a);
    lemma_incoming_misses(w, t, a + 1, w.slots.len() as int);
}

/// Where no attacker in slots `from` up to `to` lands a blow on slot `t`,
/// nothing comes in against it from them.
proof fn lemma_incoming_misses(w: WorldModel, t: int, from: int, to: int)
    requires
        0 <= from <= to,
        forall|c: int| from <= c < to ==> !(#[trigger] lands(w, c) && victim(w, c).index == t),
    ensures
        incoming(w, t, to) == incoming(w, t, from),
    decreases to - from,
{
    if from < to {
        lemma_incoming_misses(w, t, from, to - 1);
        assert(!(lands(w, to - 1) && victim(w, to - 1).index == t));
    }
}

/// Applying damage takes exactly the pending amount off the health of an
/// entity, below zero where it comes to that, leaves its other stats as
/// they were, and leaves nothing pending.
pub proof fn law_health_is_lowered_exactly(w: WorldModel, i: int)
    requires
        w.wf(),
        damage_fits(w),
        0 <= i < w.slots.len(),
        w.slots[i].stats is Some,
        w.slots[i].damage is Some,
    ensures
        damage_applied(w).slots[i].stats.unwrap().cur_hp == w.slots[i].stats.unwrap().cur_hp
            - w.slots[i].damage.unwrap(),
        damage_applied(w).slots[i].stats == Some(
            CombatStats {
                cur_hp: damage_applied(w).slots[i].stats.unwrap().cur_hp,
                ..w.slots[i].stats.unwrap()
            },
        ),
        damage_applied(w).slots[i].damage is None,
{
    assert(w.slots[i].wf(w.map));
}

/// Two attackers that land blows on the same entity, and no other attacker,
/// take the sum of their two blows off its health.
pub proof fn law_two_blows_add_up(w: WorldModel, a: int, b: int, t: int)
    requires
        0 <= a < b < w.slots.len(),
        0 <= t < w.slots.len(),
        lands(w, a) && victim(w, a).index == t,
        lands(w, b) && victim(w, b).index == t,
        forall|c: int| 0 <= c < w.slots.len() && c != a && c != b ==> !#[trigger] lands(w, c),
    ensures
        incoming(w, t, w.slots.len() as int) == blow(w, a) + blow(w, b),
{
    lemma_incoming_quiet(w, t, 0, a);
    lemma_incoming_quiet(w, t, a + 1, b);
    lemma_incoming_quiet(w, t, b + 1, w.slots.len() as int);
}

/// Where no attacker in slots `from` up to `to` lands a blow, nothing comes
/// in from them.
proof fn lemma_incoming_quiet(w: WorldModel, t: int, from: int, to: int)
    requires
        0 <= from <= to,
        forall|c: int| from <= c < to ==> !#[trigger] lands(w, c),
    ensures
        incoming(w, t, to) == incoming(w, t, from),
    decreases to - from,
{
    if from < to {
        lemma_incoming_quiet(w, t, from, to - 1);
    }
}

/// The sweep removes every entity that has no health left, with all its
/// components, so that its handle names nobody any more; only a player
/// stays, as it was, with its health still telling that it is dead. An
/// entity with health left stays as it was too.
pub proof fn law_sweep_removes_the_dead(w: WorldModel, e: Entity)
    requires
        w.wf(),
        w.live(e),
    ensures
        dying(w, e.index as int) && !w.slots[e.index as int].player ==> !swept(w).live(e) && swept(
            w,
        ).slots[e.index as int] == SlotModel::bare(false, e.generation),
        dying(w, e.index as int) && w.slots[e.index as int].player ==> swept(w).live(e) && swept(
            w,
        ).slots[e.index as int] == w.slots[e.index as int],
        !dying(w, e.index as int) ==> swept(w).live(e) && swept(w).slots[e.index as int]
            == w.slots[e.index as int],
{
}

/// Whether every tile revealed on `a` is revealed on `b`.
pub open spec fn revealed_kept(a: MapModel, b: MapModel) -> bool {
    &&& a.revealed.len() == b.revealed.len()
    &&& forall|t: int| 0 <= t < a.revealed.len() && a.revealed[t] ==> b.revealed[t]
}

/// Looking around never hides a tile that was revealed.
pub proof fn law_looking_keeps_revealed(w: WorldModel, fov: Seq<Seq<Point>>)
    requires
        w.map.wf(),
    ensures
        revealed_kept(w.map, looked(w, fov).map),
{
    lemma_map_seen_keeps(w, fov, w.slots.len() as int);
}

/// No start of a tick hides a tile that was revealed.
pub proof fn law_tick_keeps_revealed(s: StateModel, command: Option<Command>)
    ensures
        revealed_kept(s.world.map, ticked(s, command).0.world.map),
{
}

/// Going on with the fields of view never hides a tile that was revealed.
pub proof fn law_sight_keeps_revealed(s: StateModel, fov: Seq<Seq<Point>>)
    requires
        s.world.map.wf(),
    ensures
        revealed_kept(s.world.map, sighted_on(s, fov).0.world.map),
{
    law_looking_keeps_revealed(s.world, fov);
}

/// Going on with a path never hides a tile that was revealed.
pub proof fn law_path_keeps_revealed(s: StateModel, success: bool, steps: Seq<usize>)
    ensures
        revealed_kept(s.world.map, pathed_on(s, success, steps).0.world.map),
{
}

/// In a monsters' turn, every hunting monster that the plan gets to, from
/// slot `from` up to the first that needs a path, is within reach of the
/// user's entity, comes to wish to attack it, and stays where it is. However
/// many monsters stand beside the user's entity, each of them attacks.
pub proof fn law_hunters_in_reach_attack(w: WorldModel, from: int, j: int)
    requires
        player_spot(w) is Some,
        w.runstate == RunState::MonsterTurn,
        0 <= from <= j < next_seeker(w, from, player_spot(w).unwrap()),
        hunts(w, j, player_spot(w).unwrap()),
    ensures
        within_reach(w.slots[j].position.unwrap(), player_spot(w).unwrap()),
        after_plan(w, from).slots[j].melee == w.player,
        after_plan(w, from).slots[j].position == w.slots[j].position,
        after_plan(w, from).map == w.map,
{
    lemma_next_seeker(w, from, player_spot(w).unwrap());
    assert(!seeks(w, j, player_spot(w).unwrap()));
}

/// In a monsters' turn the monsters are done only when none of them from
/// slot `from` on has to find its way: every hunter among them is within
/// reach of the user's entity and wishes to attack it.
pub proof fn law_done_means_every_hunter_attacks(w: WorldModel, from: int, j: int)
    requires
        player_spot(w) is Some,
        w.runstate == RunState::MonsterTurn,
        plan(w, from) == MonsterPlan::Done,
        0 <= from <= j < w.slots.len(),
        hunts(w, j, player_spot(w).unwrap()),
    ensures
        within_reach(w.slots[j].position.unwrap(), player_spot(w).unwrap()),
        after_plan(w, from).slots[j].melee == w.player,
{
    lemma_next_seeker(w, from, player_spot(w).unwrap());
    assert(!seeks(w, j, player_spot(w).unwrap()));
}

/// A monster is asked to find its way only when it hunts out of reach of
/// the user's entity; making the plan leaves it where it is and gives it no
/// wish to attack.
pub proof fn law_seeker_is_out_of_reach(w: WorldModel, from: int)
    requires
        player_spot(w) is Some,
        0 <= from,
        plan(w, from) is Seek,
    ensures
        ({
            let h = next_seeker(w, from, player_spot(w).unwrap());
            &&& from <= h < w.slots.len()
            &&& hunts(w, h, player_spot(w).unwrap())
            &&& !within_reach(w.slots[h].position.unwrap(), player_spot(w).unwrap())
            &&& after_plan(w, from).slots[h] == w.slots[h]
        }),
{
    lemma_next_seeker(w, from, player_spot(w).unwrap());
}

/// `a` moved one step toward `b`, or `a` where the two are equal.
pub open spec fn toward(a: int, b: int) -> int {
    if a < b {
        a + 1
    } else if a > b {
        a - 1
    } else {
        a
    }
}

/// A monster that is out of reach of the user's entity has a neighbouring
/// tile that lies strictly closer to it in a straight line: the tile one
/// step toward it in each direction. Where that tile is not blocked it is a
/// valid exit, so on a grid without obstacles a way that gets closer with
/// its first step is open to every search. Which way a search takes is not
/// said here.
pub proof fn law_a_closer_exit_is_open(m: MapModel, at: Point, spot: Point)
    requires
        m.wf(),
        1 <= at.x <= m.width - 1 && 1 <= at.y <= m.height - 1,
        1 <= spot.x <= m.width - 1 && 1 <= spot.y <= m.height - 1,
        !within_reach(at, spot),
        !m.blocked[tile_index(
            m.width,
            toward(at.x as int, spot.x as int),
            toward(at.y as int, spot.y as int),
        )],
    ensures
        ({
            let next = Point {
                x: toward(at.x as int, spot.x as int) as i32,
                y: toward(at.y as int, spot.y as int) as i32,
            };
            &&& touching(at, next)
            &&& next != at
            &&& m.exit_valid(next.x as int, next.y as int)
            &&& distance_squared(next, spot) < distance_squared(at, spot)
        }),
{
    lemma_reach_is_touching(at, spot);
    let dx: int = at.x - spot.x;
    let dy: int = at.y - spot.y;
    let ex: int = toward(at.x as int, spot.x as int) - spot.x;
    let ey: int = toward(at.y as int, spot.y as int) - spot.y;
    assert(ex * ex <= dx * dx && (dx != 0 ==> ex * ex < dx * dx)) by (nonlinear_arith)
        requires
            (dx > 0 && ex == dx - 1) || (dx < 0 && ex == dx + 1) || (dx == 0 && ex == 0),
    ;
    assert(ey * ey <= dy * dy && (dy != 0 ==> ey * ey < dy * dy)) by (nonlinear_arith)
        requires
            (dy > 0 && ey == dy - 1) || (dy < 0 && ey == dy + 1) || (dy == 0 && ey == 0),
    ;
}

} // verus!
