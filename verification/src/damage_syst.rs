//! Applying gathered damage, and sweeping away the dead.

use vstd::prelude::*;
use crate::components::{CombatStats, Entity};
use crate::game_log::log_after;
use crate::text::{death_message, death_text, player_death_message, player_death_text};
use crate::world::{SlotModel, World, WorldModel};

verus! {

pub struct DamageSyst {}

/// A slot after the damage gathered against it is taken off its health.
pub open spec fn hurt(s: SlotModel) -> SlotModel {
    match (s.stats, s.damage) {
        (Some(stats), Some(d)) => SlotModel {
            stats: Some(CombatStats { cur_hp: (stats.cur_hp - d) as i32, ..stats }),
            damage: None,
            ..s
        },
        _ => SlotModel { damage: None, ..s },
    }
}

/// The world after all gathered damage is applied and cleared.
pub open spec fn damage_applied(w: WorldModel) -> WorldModel {
    WorldModel { slots: Seq::new(w.slots.len(), |i: int| hurt(w.slots[i])), ..w }
}

/// Whether every health stays within the range of its type when the damage
/// gathered against it is taken off.
pub open spec fn damage_fits(w: WorldModel) -> bool {
    forall|i: int|
        0 <= i < w.slots.len() ==> match ((#[trigger] w.slots[i]).stats, w.slots[i].damage) {
            (Some(stats), Some(d)) => i32::MIN <= stats.cur_hp - d,
            _ => true,
        }
}

/// Whether the entity in slot `i` has run out of health.
pub open spec fn dying(w: WorldModel, i: int) -> bool {
    &&& 0 <= i < w.slots.len()
    &&& w.slots[i].stats matches Some(stats)
    &&& stats.cur_hp < 1
}

/// The log after the deaths in slots below `n` are reported, in slot order.
pub open spec fn obituaries(w: WorldModel, n: int) -> Seq<Seq<char>>
    decreases n,
{
    if n <= 0 {
        w.log
    } else if dying(w, n - 1) {
        log_after(
            obituaries(w, n - 1),
            w.log_capacity,
            if w.slots[n - 1].player {
                player_death_text()
            } else {
                death_text(w.slots[n - 1].name.unwrap())
            },
        )
    } else {
        obituaries(w, n - 1)
    }
}

/// A slot after the sweep: an entity that has run out of health is removed
/// with all its components, unless it is a player.
pub open spec fn swept_slot(w: WorldModel, i: int) -> SlotModel {
    if dying(w, i) && !w.slots[i].player {
        SlotModel::bare(false, w.slots[i].generation)
    } else {
        w.slots[i]
    }
}

/// The world after the dead are reported and removed.
pub open spec fn swept(w: WorldModel) -> WorldModel {
    WorldModel {
        slots: Seq::new(w.slots.len(), |i: int| swept_slot(w, i)),
        log: obituaries(w, w.slots.len() as int),
        ..w
    }
}

impl DamageSyst {
    /// Whether `run` may be called: tells `damage_fits`.
    pub fn ready(world: &World) -> (r: bool)
        ensures
            r == damage_fits(world@),
    {
        let n: usize = world.slots.len();
        let mut i: usize = 0;
        while i < n
            invariant
                i <= n,
                n == world@.slots.len(),
                forall|j: int|
                    0 <= j < i ==> match ((#[trigger] world@.slots[j]).stats, world@.slots[j].damage) {
                        (Some(stats), Some(d)) => i32::MIN <= stats.cur_hp - d,
                        _ => true,
                    },
            decreases n - i,
        {
            match (world.stats_at(i), world.damage_at(i)) {
                (Some(stats), Some(val)) => {
                    if (stats.cur_hp as i64) - (val as i64) < (i32::MIN as i64) {
                        return false;
                    }
                },
                _ => {},
            }
            i += 1;
        }
        true
    }

    /// Takes the damage gathered against each entity off its health, which
    /// may go below zero, and clears all gathered damage.
    pub fn run(world: &mut World)
        requires
            old(world).wf(),
            damage_fits(old(world)@),
        ensures
            final(world).wf(),
            final(world)@ == damage_applied(old(world)@),
    {
        let ghost before = world@;
        let n: usize = world.slots.len();
        let mut i: usize = 0;
        while i < n
            invariant
                i <= n,
                n == before.slots.len(),
                before.wf(),
                damage_fits(before),
                world.wf(),
                world@ == (WorldModel { slots: world@.slots, ..before }),
                world@.slots.len() == n,
                forall|j: int| 0 <= j < i ==> world@.slots[j] == hurt(before.slots[j]),
                forall|j: int| i <= j < n ==> world@.slots[j] == before.slots[j],
            decreases n - i,
        {
            match (world.stats_at(i), world.damage_at(i)) {
                (Some(stats), Some(val)) => {
                    world.set_stats(i, Some(CombatStats { cur_hp: stats.cur_hp - val, ..stats }));
                },
                _ => {},
            }
            world.set_damage(i, None);
            i += 1;
        }
        assert(world@.slots =~= damage_applied(before).slots);
    }

    /// Reports every entity that has run out of health and removes it with
    /// all its components. A player is reported but stays.
    pub fn delete_the_dead(world: &mut World)
        requires
            old(world).wf(),
        ensures
            final(world).wf(),
            final(world)@ == swept(old(world)@),
    {
        let ghost before = world@;
        let mut dead_vec: Vec<Entity> = Vec::new();
        let n: usize = world.slots.len();
        let mut i: usize = 0;
        while i < n
            invariant
                i <= n,
                n == before.slots.len(),
                before.wf(),
                world.wf(),
                world@ == (WorldModel { log: world@.log, ..before }),
                world@.log == obituaries(before, i as int),
                forall|k: int|
                    0 <= k < dead_vec@.len() ==> 0 <= (#[trigger] dead_vec@[k]).index < i && dying(
                        before,
                        dead_vec@[k].index as int,
                    ) && !before.slots[dead_vec@[k].index as int].player && dead_vec@[k]
                        == before.handle(dead_vec@[k].index as int),
                forall|j: int|
                    0 <= j < i && dying(before, j) && !before.slots[j].player ==> exists|k: int|
                        0 <= k < dead_vec@.len() && (#[trigger] dead_vec@[k]).index == j,
            decreases n - i,
        {
            let ghost dead_before = dead_vec@;
            match world.stats_at(i) {
                Some(stats) => {
                    if stats.cur_hp < 1 {
                        if world.is_player(i) {
                            world.tell(player_death_message());
                        } else {
                            let msg: String = death_message(world.name_at(i).unwrap());
                            world.tell(msg);
                            let e: Entity = world.entity_at(i);
                            dead_vec.push(e);
                            assert(dead_vec@[dead_before.len() as int].index == i);
                        }
                    }
                },
                None => {},
            }
            proof {
                assert forall|j: int|
                    0 <= j < i + 1 && dying(before, j)
                        && !before.slots[j].player implies exists|k: int|
                    0 <= k < dead_vec@.len() && (#[trigger] dead_vec@[k]).index == j by {
                    if j < i {
                        let k = choose|k: int|
                            0 <= k < dead_before.len() && (#[trigger] dead_before[k]).index == j;
                        assert(dead_vec@[k].index == j);
                    }
                }
            }
            i += 1;
        }
        let ghost marked = dead_vec@;
        let m: usize = dead_vec.len();
        let mut k: usize = 0;
        while k < m
            invariant
                k <= m,
                m == marked.len(),
                dead_vec@ == marked,
                n == before.slots.len(),
                before.wf(),
                world.wf(),
                world@ == (WorldModel {
                    slots: world@.slots,
                    log: obituaries(before, n as int),
                    ..before
                }),
                world@.slots.len() == n,
                forall|q: int|
                    0 <= q < marked.len() ==> 0 <= (#[trigger] marked[q]).index < n && dying(
                        before,
                        marked[q].index as int,
                    ) && !before.slots[marked[q].index as int].player && marked[q] == before.handle(
                        marked[q].index as int,
                    ),
                forall|j: int|
                    0 <= j < n ==> world@.slots[j] == (if exists|q: int|
                        0 <= q < k && (#[trigger] marked[q]).index == j {
                        SlotModel::bare(false, before.slots[j].generation)
                    } else {
                        before.slots[j]
                    }),
            decreases m - k,
        {
            let victim: Entity = dead_vec[k];
            world.delete_entity(victim);
            k += 1;
        }
        assert(world@.slots =~= swept(before).slots);
    }
}

} // verus!
