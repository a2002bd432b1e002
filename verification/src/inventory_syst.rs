//! Picking things up: an item asked for leaves the map and goes into the
//! backpack of whoever asked.

use vstd::prelude::*;
use crate::game_log::log_after;
use crate::text::{pickup_message, pickup_text};
use crate::world::{SlotModel, World, WorldModel};

verus! {

pub struct ItemManageSyst {}

/// Whether every wish to pick up can be granted: the item is alive, and has
/// a name where the user's entity is the one that picks it up.
pub open spec fn pickups_fit(w: WorldModel) -> bool {
    forall|i: int|
        0 <= i < w.slots.len() ==> ((#[trigger] w.slots[i]).pickup matches Some(p) ==> w.live(p.item)
            && (w.player == Some(p.collected_by) ==> w.slots[p.item.index as int].name is Some))
}

/// The world after the wish of slot `i`, if it has one, is granted: the
/// item has no position and is in the collector's backpack, and the log
/// says so where the collector is the user's entity.
pub open spec fn collect_one(w: WorldModel, i: int) -> WorldModel {
    match w.slots[i].pickup {
        Some(p) => {
            let item = w.slots[p.item.index as int];
            WorldModel {
                slots: w.slots.update(
                    p.item.index as int,
                    SlotModel { position: None, backpack: Some(p.collected_by), ..item },
                ),
                log: if w.player == Some(p.collected_by) {
                    log_after(w.log, w.log_capacity, pickup_text(item.name.unwrap()))
                } else {
                    w.log
                },
                ..w
            }
        },
        None => w,
    }
}

/// The world after the wishes of the slots below `n` are granted, in slot
/// order.
pub open spec fn collected_upto(w: WorldModel, n: int) -> WorldModel
    decreases n,
{
    if n <= 0 {
        w
    } else {
        collect_one(collected_upto(w, n - 1), n - 1)
    }
}

/// The world with every wish to pick up cleared.
pub open spec fn wishes_cleared(w: WorldModel) -> WorldModel {
    WorldModel {
        slots: Seq::new(w.slots.len(), |i: int| SlotModel { pickup: None, ..w.slots[i] }),
        ..w
    }
}

/// The world after every wish to pick up is granted and cleared.
pub open spec fn collected(w: WorldModel) -> WorldModel {
    wishes_cleared(collected_upto(w, w.slots.len() as int))
}

/// Granting wishes changes neither the wishes nor who is alive or named, so
/// what could be granted before can be granted after.
pub proof fn lemma_collecting_keeps(w: WorldModel, n: int)
    requires
        w.wf(),
        pickups_fit(w),
        n <= w.slots.len(),
    ensures
        collected_upto(w, n).wf(),
        pickups_fit(collected_upto(w, n)),
        collected_upto(w, n).slots.len() == w.slots.len(),
        collected_upto(w, n).map == w.map,
        collected_upto(w, n).player == w.player,
        collected_upto(w, n).log_capacity == w.log_capacity,
        forall|j: int|
            0 <= j < w.slots.len() ==> (#[trigger] collected_upto(w, n).slots[j]).pickup
                == w.slots[j].pickup,
    decreases n,
{
    if n > 0 {
        lemma_collecting_keeps(w, n - 1);
        let prev = collected_upto(w, n - 1);
        match prev.slots[n - 1].pickup {
            Some(p) => {
            },
            None => {},
        }
    }
}

impl ItemManageSyst {
    /// Whether `run` may be called: tells `pickups_fit`.
    pub fn ready(world: &World) -> (r: bool)
        ensures
            r == pickups_fit(world@),
    {
        let n: usize = world.len();
        let mut i: usize = 0;
        while i < n
            invariant
                i <= n,
                n == world@.slots.len(),
                forall|j: int|
                    0 <= j < i ==> ((#[trigger] world@.slots[j]).pickup matches Some(p)
                        ==> world@.live(p.item) && (world@.player == Some(p.collected_by)
                        ==> world@.slots[p.item.index as int].name is Some)),
            decreases n - i,
        {
            match world.pickup_at(i) {
                Some(p) => {
                    if !world.is_alive(p.item) {
                        return false;
                    }
                    if world.player == Some(p.collected_by) && world.name_at(p.item.index).is_none() {
                        return false;
                    }
                },
                None => {},
            }
            i += 1;
        }
        true
    }

    /// Grants every wish to pick up, in slot order, and clears them all.
    pub fn run(world: &mut World)
        requires
            old(world).wf(),
            pickups_fit(old(world)@),
        ensures
            final(world).wf(),
            final(world)@ == collected(old(world)@),
    {
        let ghost before = world@;
        let n: usize = world.len();
        let mut i: usize = 0;
        while i < n
            invariant
                i <= n,
                n == before.slots.len(),
                before.wf(),
                pickups_fit(before),
                world.wf(),
                world@ == collected_upto(before, i as int),
            decreases n - i,
        {
            proof {
                lemma_collecting_keeps(before, i as int);
            }
            match world.pickup_at(i) {
                Some(p) => {
                    let t: usize = p.item.index;
                    world.set_position(t, None);
                    world.set_backpack(t, Some(p.collected_by));
                    if world.player == Some(p.collected_by) {
                        let msg: String = pickup_message(world.name_at(t).unwrap());
                        world.tell(msg);
                    }
                    assert(world@.slots =~= collect_one(
                        collected_upto(before, i as int),
                        i as int,
                    ).slots);
                },
                None => {},
            }
            i += 1;
        }
        let ghost granted = world@;
        proof {
            lemma_collecting_keeps(before, n as int);
        }
        let mut c: usize = 0;
        while c < n
            invariant
                c <= n,
                n == granted.slots.len(),
                granted.wf(),
                world.wf(),
                world@ == (WorldModel { slots: world@.slots, ..granted }),
                world@.slots.len() == n,
                forall|j: int|
                    0 <= j < n ==> world@.slots[j] == (if j < c {
                        SlotModel { pickup: None, ..granted.slots[j] }
                    } else {
                        granted.slots[j]
                    }),
            decreases n - c,
        {
            world.set_pickup(c, None);
            c += 1;
        }
        assert(world@.slots =~= wishes_cleared(granted).slots);
    }
}

} // verus!
