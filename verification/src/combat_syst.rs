//! Melee: turning the wish to attack into damage gathered against the target.

use vstd::prelude::*;
use crate::components::{CombatStats, Entity};
use crate::game_log::log_after;
use crate::text::{damage_message, damage_text, unable_message, unable_text};
use crate::world::{SlotModel, World, WorldModel};

verus! {

pub struct CombatSyst {}

/// The damage of one blow: attack less defense, and never below zero.
pub open spec fn melee_damage(atk: int, def: int) -> int {
    if atk - def > 0 {
        atk - def
    } else {
        0
    }
}

/// Whether the entity in slot `a` attacks: it wishes to, has a name, and has
/// health left.
pub open spec fn strikes(w: WorldModel, a: int) -> bool {
    &&& 0 <= a < w.slots.len()
    &&& w.slots[a].melee is Some
    &&& w.slots[a].name is Some
    &&& w.slots[a].stats matches Some(stats)
    &&& stats.cur_hp > 0
}

/// The entity that slot `a` wishes to attack.
pub open spec fn victim(w: WorldModel, a: int) -> Entity {
    w.slots[a].melee.unwrap()
}

/// Whether the attack of slot `a` reaches a target that has health left.
pub open spec fn lands(w: WorldModel, a: int) -> bool {
    &&& strikes(w, a)
    &&& w.live(victim(w, a))
    &&& w.slots[victim(w, a).index as int].stats matches Some(stats)
    &&& stats.cur_hp > 0
}

/// The damage of the attack of slot `a`.
pub open spec fn blow(w: WorldModel, a: int) -> int {
    melee_damage(
        w.slots[a].stats.unwrap().atk as int,
        w.slots[victim(w, a).index as int].stats.unwrap().def as int,
    )
}

/// The log line for the attack of slot `a`.
pub open spec fn blow_text(w: WorldModel, a: int) -> Seq<char> {
    let attacker = w.slots[a].name.unwrap();
    let target = w.slots[victim(w, a).index as int].name.unwrap();
    if blow(w, a) == 0 {
        unable_text(attacker, target)
    } else {
        damage_text(attacker, blow(w, a), target)
    }
}

/// The sum of the damage dealt to slot `t` by the attackers in slots below
/// `n`.
pub open spec fn incoming(w: WorldModel, t: int, n: int) -> int
    decreases n,
{
    if n <= 0 {
        0
    } else if lands(w, n - 1) && victim(w, n - 1).index == t {
        incoming(w, t, n - 1) + blow(w, n - 1)
    } else {
        incoming(w, t, n - 1)
    }
}

/// The log after the attacks of the slots below `n` are reported, in slot
/// order.
pub open spec fn battle_log(w: WorldModel, n: int) -> Seq<Seq<char>>
    decreases n,
{
    if n <= 0 {
        w.log
    } else if lands(w, n - 1) {
        log_after(battle_log(w, n - 1), w.log_capacity, blow_text(w, n - 1))
    } else {
        battle_log(w, n - 1)
    }
}

/// The damage already gathered against slot `t`.
pub open spec fn pending(w: WorldModel, t: int) -> int {
    match w.slots[t].damage {
        Some(d) => d as int,
        None => 0,
    }
}

/// The damage gathered against slot `t` once the attackers in slots below
/// `n` have struck: what was pending plus what came in, or nothing new where
/// nothing came in.
pub open spec fn gathered(w: WorldModel, t: int, n: int) -> Option<i32> {
    if incoming(w, t, n) > 0 {
        Some((pending(w, t) + incoming(w, t, n)) as i32)
    } else {
        w.slots[t].damage
    }
}

/// The world after every attack is resolved and every wish to attack is
/// cleared.
pub open spec fn fought(w: WorldModel) -> WorldModel {
    WorldModel {
        slots: Seq::new(
            w.slots.len(),
            |t: int|
                SlotModel {
                    melee: None,
                    damage: gathered(w, t, w.slots.len() as int),
                    ..w.slots[t]
                },
        ),
        log: battle_log(w, w.slots.len() as int),
        ..w
    }
}

/// The world after the attacks of the slots below `n` are resolved; no wish
/// to attack is cleared yet.
pub open spec fn fought_upto(w: WorldModel, n: int) -> WorldModel {
    WorldModel {
        slots: Seq::new(
            w.slots.len(),
            |t: int| SlotModel { damage: gathered(w, t, n), ..w.slots[t] },
        ),
        log: battle_log(w, n),
        ..w
    }
}

/// Whether the attacks can be resolved: every attacker's target is alive and
/// has combat stats, every blow fits the type of a damage amount, and so does
/// the damage gathered against each entity.
pub open spec fn combat_fits(w: WorldModel) -> bool {
    &&& forall|a: int| #[trigger]
        strikes(w, a) ==> w.live(victim(w, a)) && w.slots[victim(w, a).index as int].stats is Some
    &&& forall|a: int| #[trigger] lands(w, a) ==> blow(w, a) <= i32::MAX
    &&& forall|t: int|
        0 <= t < w.slots.len() ==> pending(w, t) + #[trigger] incoming(w, t, w.slots.len() as int)
            <= i32::MAX
}

/// What came in up to a slot is at most what comes in up to a later one, and
/// never negative.
pub proof fn lemma_incoming_grows(w: WorldModel, t: int, n: int, m: int)
    requires
        n <= m,
    ensures
        0 <= incoming(w, t, n) <= incoming(w, t, m),
    decreases m,
{
    if m <= 0 {
    } else if n == m {
        if n > 0 {
            lemma_incoming_grows(w, t, n - 1, n - 1);
        }
    } else {
        lemma_incoming_grows(w, t, n, m - 1);
    }
}

impl CombatSyst {
    /// The damage of one blow.
    pub fn damage(atk: i32, def: i32) -> (d: i64)
        ensures
            d == melee_damage(atk as int, def as int),
            d >= 0,
    {
        let diff: i64 = atk as i64 - def as i64;
        if diff > 0 {
            diff
        } else {
            0
        }
    }

    /// Whether `run` may be called: tells `combat_fits`.
    pub fn ready(world: &World) -> (r: bool)
        requires
            world.wf(),
        ensures
            r == combat_fits(world@),
    {
        let n: usize = world.slots.len();
        let mut acc: Vec<i64> = Vec::new();
        let mut t: usize = 0;
        while t < n
            invariant
                t <= n,
                n == world@.slots.len(),
                acc@.len() == t,
                forall|j: int| 0 <= j < t ==> acc@[j] == pending(world@, j),
            decreases n - t,
        {
            let d: i64 = match world.damage_at(t) {
                Some(val) => val as i64,
                None => 0,
            };
            acc.push(d);
            t += 1;
        }
        let mut a: usize = 0;
        while a < n
            invariant
                a <= n,
                n == world@.slots.len(),
                world.wf(),
                acc@.len() == n,
                forall|j: int|
                    0 <= j < n ==> acc@[j] == pending(world@, j) + incoming(world@, j, a as int)
                        && acc@[j] <= i32::MAX,
                forall|b: int|
                    0 <= b < a && strikes(world@, b) ==> world@.live(victim(world@, b))
                        && world@.slots[victim(world@, b).index as int].stats is Some,
                forall|b: int| 0 <= b < a && lands(world@, b) ==> blow(world@, b) <= i32::MAX,
            decreases n - a,
        {
            match (world.melee_at(a), world.stats_at(a)) {
                (Some(target), Some(stats)) => {
                    if stats.cur_hp > 0 && world.name_at(a).is_some() {
                        assert(strikes(world@, a as int));
                        if !world.is_alive(target) {
                            return false;
                        }
                        match world.stats_at(target.index) {
                            None => {
                                return false;
                            },
                            Some(target_stats) => {
                                if target_stats.cur_hp > 0 {
                                    assert(lands(world@, a as int));
                                    let d: i64 = CombatSyst::damage(stats.atk, target_stats.def);
                                    if d > i32::MAX as i64 {
                                        return false;
                                    }
                                    let sum: i64 = acc[target.index] + d;
                                    if sum > i32::MAX as i64 {
                                        proof {
                                            lemma_incoming_grows(
                                                world@,
                                                target.index as int,
                                                a + 1,
                                                n as int,
                                            );
                                        }
                                        return false;
                                    }
                                    acc[target.index] = sum;
                                }
                            },
                        }
                    }
                },
                _ => {},
            }
            a += 1;
        }
        proof {
            assert forall|t: int| 0 <= t < n implies pending(world@, t) + #[trigger] incoming(
                world@,
                t,
                n as int,
            ) <= i32::MAX by {
                assert(acc@[t] <= i32::MAX);
            }
        }
        true
    }

    /// Resolves the attack of slot `a`, the attacks of the slots below it
    /// having been resolved.
    fn strike(world: &mut World, a: usize, Ghost(before): Ghost<WorldModel>)
        requires
            old(world).wf(),
            before.wf(),
            combat_fits(before),
            a < before.slots.len(),
            old(world)@ == fought_upto(before, a as int),
        ensures
            final(world).wf(),
            final(world)@ == fought_upto(before, a + 1),
    {
        let ghost n = before.slots.len() as int;
        match (world.melee_at(a), world.stats_at(a)) {
            (Some(target), Some(stats)) => {
                if stats.cur_hp > 0 && world.name_at(a).is_some() {
                    assert(strikes(before, a as int));
                    let t: usize = target.index;
                    let target_stats: CombatStats = world.stats_at(t).unwrap();
                    if target_stats.cur_hp > 0 {
                        let d: i64 = CombatSyst::damage(stats.atk, target_stats.def);
                        let msg: String = if d == 0 {
                            unable_message(world.name_at(a).unwrap(), world.name_at(t).unwrap())
                        } else {
                            damage_message(
                                world.name_at(a).unwrap(),
                                d as i32,
                                world.name_at(t).unwrap(),
                            )
                        };
                        world.tell(msg);
                        if d != 0 {
                            proof {
                                lemma_incoming_grows(before, t as int, 0, a as int);
                                lemma_incoming_grows(before, t as int, a + 1, n);
                            }
                            let so_far: i32 = match world.damage_at(t) {
                                None => 0,
                                Some(val) => val,
                            };
                            world.set_damage(t, Some(so_far + d as i32));
                        }
                    }
                }
            },
            _ => {},
        }
        assert(world@.slots =~= fought_upto(before, a + 1).slots);
    }

    /// Resolves every attack: a blow that does no damage is only reported, a
    /// blow that does is reported and added to the damage gathered against
    /// its target. An attacker or a target without health left is passed
    /// over. Every wish to attack is cleared.
    pub fn run(world: &mut World)
        requires
            old(world).wf(),
            combat_fits(old(world)@),
        ensures
            final(world).wf(),
            final(world)@ == fought(old(world)@),
    {
        let ghost before = world@;
        let n: usize = world.slots.len();
        let mut a: usize = 0;
        assert(world@.slots =~= fought_upto(before, 0).slots);
        while a < n
            invariant
                a <= n,
                n == before.slots.len(),
                before.wf(),
                combat_fits(before),
                world.wf(),
                world@ == fought_upto(before, a as int),
            decreases n - a,
        {
            CombatSyst::strike(world, a, Ghost(before));
            a += 1;
        }
        let mut c: usize = 0;
        while c < n
            invariant
                c <= n,
                n == before.slots.len(),
                before.wf(),
                world.wf(),
                world@ == (WorldModel {
                    slots: world@.slots,
                    log: battle_log(before, n as int),
                    ..before
                }),
                world@.slots.len() == n,
                forall|t: int|
                    0 <= t < n ==> world@.slots[t] == (SlotModel {
                        melee: if t < c {
                            None
                        } else {
                            before.slots[t].melee
                        },
                        damage: gathered(before, t, n as int),
                        ..before.slots[t]
                    }),
            decreases n - c,
        {
            world.set_melee(c, None);
            c += 1;
        }
        assert(world@.slots =~= fought(before).slots);
    }
}

} // verus!
