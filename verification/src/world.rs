//! The world store: every entity with its components, and the resources all
//! systems share.

use vstd::prelude::*;
use crate::components::{
    BlocksSight, BlocksTile, CombatStats, DamageMessage, Entity, InBackpack, Item,
    ItemPickupMessage, MeleeMessage, Monster, Name, Player, Position, Potion, Renderable, Viewshed,
    ViewshedModel,
};
use crate::game_log::GameLog;
use crate::geometry::Point;
use crate::map::{GameMap, MapModel, TileType};
use crate::rng::new_generator;

verus! {

/// Where the turn scheduler stands.
#[derive(PartialEq, Eq, Copy, Clone, Debug, Structural)]
pub enum RunState {
    AwaitingInput,
    PreRun,
    PlayerTurn,
    MonsterTurn,
    Exit,
}

/// One slot of the store: whether an entity lives in it, how often the slot
/// has been handed out, and the components of that entity.
pub struct Slot {
    pub alive: bool,
    pub generation: u32,
    pub position: Option<Position>,
    pub renderable: Option<Renderable>,
    pub name: Option<Name>,
    pub player: Option<Player>,
    pub monster: Option<Monster>,
    pub item: Option<Item>,
    pub potion: Option<Potion>,
    pub blocks_tile: Option<BlocksTile>,
    pub blocks_sight: Option<BlocksSight>,
    pub combat_stats: Option<CombatStats>,
    pub viewshed: Option<Viewshed>,
    pub melee: Option<MeleeMessage>,
    pub damage: Option<DamageMessage>,
    pub in_backpack: Option<InBackpack>,
    pub pickup: Option<ItemPickupMessage>,
}

/// What a `Slot` holds, as plain values: a marker component becomes a
/// `bool`, a component of one field that field.
pub struct SlotModel {
    pub alive: bool,
    pub generation: u32,
    pub position: Option<Point>,
    pub renderable: Option<Renderable>,
    pub name: Option<Seq<char>>,
    pub player: bool,
    pub monster: bool,
    pub item: bool,
    pub potion: bool,
    pub blocks_tile: bool,
    pub blocks_sight: bool,
    pub stats: Option<CombatStats>,
    pub viewshed: Option<ViewshedModel>,
    pub melee: Option<Entity>,
    pub damage: Option<i32>,
    pub backpack: Option<Entity>,
    pub pickup: Option<ItemPickupMessage>,
}

impl SlotModel {
    /// A slot with the given liveness and generation and no components.
    pub open spec fn bare(alive: bool, generation: u32) -> SlotModel {
        SlotModel {
            alive,
            generation,
            position: None,
            renderable: None,
            name: None,
            player: false,
            monster: false,
            item: false,
            potion: false,
            blocks_tile: false,
            blocks_sight: false,
            stats: None,
            viewshed: None,
            melee: None,
            damage: None,
            backpack: None,
            pickup: None,
        }
    }

    /// The data-model rules for one slot: a dead slot holds nothing, a
    /// position lies on the map, whoever has combat stats or is an item has
    /// a name that is not empty, health does not exceed its maximum, and
    /// pending damage is not negative.
    pub open spec fn wf(self, map: MapModel) -> bool {
        &&& !self.alive ==> self == SlotModel::bare(false, self.generation)
        &&& self.position matches Some(p) ==> map.in_bounds(p.x as int, p.y as int)
        &&& (self.stats is Some || self.item) ==> (self.name matches Some(n) && n.len() > 0)
        &&& self.stats matches Some(s) ==> s.cur_hp <= s.max_hp
        &&& self.damage matches Some(d) ==> 0 <= d
    }
}

/// What `slot` holds, as plain values.
#[verifier::opaque]
pub open spec fn slot_model(slot: Slot) -> SlotModel {
    SlotModel {
        alive: slot.alive,
        generation: slot.generation,
        position: match slot.position {
            Some(p) => Some(p.pt),
            None => None,
        },
        renderable: slot.renderable,
        name: match slot.name {
            Some(n) => Some(n.name@),
            None => None,
        },
        player: slot.player is Some,
        monster: slot.monster is Some,
        item: slot.item is Some,
        potion: slot.potion is Some,
        blocks_tile: slot.blocks_tile is Some,
        blocks_sight: slot.blocks_sight is Some,
        stats: slot.combat_stats,
        viewshed: match slot.viewshed {
            Some(v) => Some(v@),
            None => None,
        },
        melee: match slot.melee {
            Some(m) => Some(m.target),
            None => None,
        },
        damage: match slot.damage {
            Some(d) => Some(d.val),
            None => None,
        },
        backpack: match slot.in_backpack {
            Some(b) => Some(b.owner),
            None => None,
        },
        pickup: slot.pickup,
    }
}

impl View for Slot {
    type V = SlotModel;

    open spec fn view(&self) -> SlotModel {
        slot_model(*self)
    }
}

impl Slot {
    /// Whether the slot keeps the data-model rules on `map`: tells
    /// `SlotModel::wf`.
    pub fn check(&self, map: &GameMap) -> (r: bool)
        ensures
            r == self@.wf(map@),
    {
        reveal(slot_model);
        if !self.alive {
            let empty: bool = self.position.is_none() && self.renderable.is_none()
                && self.name.is_none() && self.player.is_none() && self.monster.is_none()
                && self.item.is_none() && self.potion.is_none() && self.blocks_tile.is_none()
                && self.blocks_sight.is_none() && self.combat_stats.is_none()
                && self.viewshed.is_none() && self.melee.is_none() && self.damage.is_none()
                && self.in_backpack.is_none() && self.pickup.is_none();
            return empty;
        }
        let placed: bool = match self.position {
            Some(p) => map.in_bounds(p.pt),
            None => true,
        };
        let named: bool = if self.combat_stats.is_some() || self.item.is_some() {
            match &self.name {
                Some(n) => !n.name.as_str().is_empty(),
                None => false,
            }
        } else {
            true
        };
        let healthy: bool = match self.combat_stats {
            Some(stats) => stats.cur_hp <= stats.max_hp,
            None => true,
        };
        let owed: bool = match self.damage {
            Some(d) => 0 <= d.val,
            None => true,
        };
        placed && named && healthy && owed
    }

    /// The slot marked alive, with the given generation.
    pub fn stamped(self, generation: u32) -> (slot: Slot)
        ensures
            slot@ == (SlotModel { alive: true, generation, ..self@ }),
    {
        reveal(slot_model);
        let mut slot = self;
        slot.alive = true;
        slot.generation = generation;
        slot
    }

    /// A slot with the given liveness and generation and no components.
    pub fn bare(alive: bool, generation: u32) -> (slot: Slot)
        ensures
            slot@ == SlotModel::bare(alive, generation),
    {
        reveal(slot_model);
        Slot {
            alive,
            generation,
            position: None,
            renderable: None,
            name: None,
            player: None,
            monster: None,
            item: None,
            potion: None,
            blocks_tile: None,
            blocks_sight: None,
            combat_stats: None,
            viewshed: None,
            melee: None,
            damage: None,
            in_backpack: None,
            pickup: None,
        }
    }
}

pub struct World {
    pub slots: Vec<Slot>,
    pub map: GameMap,
    pub log: GameLog,
    pub runstate: RunState,
    /// The entity the user steers, once it has been spawned.
    pub player: Option<Entity>,
    /// Where the user's entity was last moved to.
    pub player_pos: Point,
    pub rng: rltk::RandomNumberGenerator,
}

/// What a `World` holds, as plain values; the random number generator has
/// none.
pub struct WorldModel {
    pub slots: Seq<SlotModel>,
    pub map: MapModel,
    pub log: Seq<Seq<char>>,
    pub log_capacity: nat,
    pub runstate: RunState,
    pub player: Option<Entity>,
    pub player_pos: Point,
}

impl WorldModel {
    pub open spec fn wf(self) -> bool {
        &&& self.map.wf()
        &&& self.log.len() <= self.log_capacity
        &&& forall|i: int| 0 <= i < self.slots.len() ==> (#[trigger] self.slots[i]).wf(self.map)
    }

    /// Whether `e` names an entity that is alive.
    pub open spec fn live(self, e: Entity) -> bool {
        &&& e.index < self.slots.len()
        &&& self.slots[e.index as int].alive
        &&& self.slots[e.index as int].generation == e.generation
    }

    /// The handle of the entity in slot `i`.
    pub open spec fn handle(self, i: int) -> Entity {
        Entity { index: i as usize, generation: self.slots[i].generation }
    }

    /// Whether slot `i` can be handed out: nobody lives in it and its
    /// generation can still go up.
    pub open spec fn vacant(self, i: int) -> bool {
        0 <= i < self.slots.len() && !self.slots[i].alive && self.slots[i].generation < u32::MAX
    }

    /// The first slot at or after `from` that can be handed out, or the
    /// number of slots where there is none.
    pub open spec fn first_vacant(self, from: int) -> int
        decreases self.slots.len() - from,
    {
        if from >= self.slots.len() {
            self.slots.len() as int
        } else if self.vacant(from) {
            from
        } else {
            self.first_vacant(from + 1)
        }
    }

    /// The handle that the next entity made will have.
    pub open spec fn next_entity(self) -> Entity {
        let i = self.first_vacant(0);
        Entity {
            index: i as usize,
            generation: if i < self.slots.len() {
                (self.slots[i].generation + 1) as u32
            } else {
                0
            },
        }
    }

    /// The world with `slot` put where `e` points: in place of the slot
    /// there, or at the end.
    pub open spec fn with_entity(self, e: Entity, slot: SlotModel) -> WorldModel {
        WorldModel {
            slots: if e.index < self.slots.len() {
                self.slots.update(e.index as int, slot)
            } else {
                self.slots.push(slot)
            },
            ..self
        }
    }

    /// Whether the occupant `e` of a tile blocks sight.
    pub open spec fn veils(self, e: Entity) -> bool {
        self.live(e) && self.slots[e.index as int].blocks_sight
    }

    /// Whether tile `idx` stops sight: it is a wall, or one of its occupants
    /// blocks sight.
    pub open spec fn opaque(self, idx: int) -> bool {
        &&& 0 <= idx < self.map.size()
        &&& (self.map.tiles[idx] == TileType::Wall || exists|k: int|
            0 <= k < self.map.content[idx].len() && self.veils(#[trigger] self.map.content[idx][k]))
    }
}

impl View for World {
    type V = WorldModel;

    open spec fn view(&self) -> WorldModel {
        WorldModel {
            slots: Seq::new(self.slots@.len(), |i: int| self.slots@[i]@),
            map: self.map@,
            log: self.log.lines(),
            log_capacity: self.log.capacity as nat,
            runstate: self.runstate,
            player: self.player,
            player_pos: self.player_pos,
        }
    }
}

/// Whether `pt` is among `points`.
pub fn holds_point(points: &Vec<Point>, pt: Point) -> (r: bool)
    ensures
        r == points@.contains(pt),
{
    let n: usize = points.len();
    let mut k: usize = 0;
    while k < n
        invariant
            k <= n,
            n == points@.len(),
            forall|j: int| 0 <= j < k ==> points@[j] != pt,
        decreases n - k,
    {
        if points[k] == pt {
            return true;
        }
        k += 1;
    }
    false
}

impl World {
    pub open spec fn wf(&self) -> bool {
        self@.wf() && self.map.wf()
    }

    /// A world around `map` with no entities, an empty log that keeps
    /// `log_size` lines, and the scheduler before its first run.
    pub fn new(map: GameMap, log_size: usize) -> (world: World)
        requires
            map.wf(),
        ensures
            world.wf(),
            world@ == (WorldModel {
                slots: Seq::empty(),
                map: map@,
                log: Seq::empty(),
                log_capacity: log_size as nat,
                runstate: RunState::PreRun,
                player: None,
                player_pos: Point { x: 0, y: 0 },
            }),
    {
        let world = World {
            slots: Vec::new(),
            map,
            log: GameLog::new(log_size),
            runstate: RunState::PreRun,
            player: None,
            player_pos: Point { x: 0, y: 0 },
            rng: new_generator(),
        };
        assert(world@.slots =~= Seq::empty());
        world
    }

    /// Whether `e` names an entity that is alive.
    pub fn is_alive(&self, e: Entity) -> (r: bool)
        ensures
            r == self@.live(e),
    {
        reveal(slot_model);
        e.index < self.slots.len() && self.slots[e.index].alive && self.slots[e.index].generation
            == e.generation
    }

    /// The handle of the entity in slot `i`.
    pub fn entity_at(&self, i: usize) -> (e: Entity)
        requires
            i < self.slots@.len(),
        ensures
            e == self@.handle(i as int),
    {
        reveal(slot_model);
        Entity { index: i, generation: self.slots[i].generation }
    }

    /// Whether the world is sound: tells `wf`.
    pub fn check(&self) -> (r: bool)
        ensures
            r == self.wf(),
    {
        if !self.map.check() || self.log.entries.len() > self.log.capacity {
            return false;
        }
        let n: usize = self.slots.len();
        let mut i: usize = 0;
        while i < n
            invariant
                i <= n,
                n == self@.slots.len(),
                self.map.wf(),
                forall|j: int| 0 <= j < i ==> (#[trigger] self@.slots[j]).wf(self@.map),
            decreases n - i,
        {
            if !self.slots[i].check(&self.map) {
                assert(!self@.slots[i as int].wf(self@.map));
                return false;
            }
            i += 1;
        }
        true
    }

    /// How many slots the store has.
    pub fn len(&self) -> (n: usize)
        ensures
            n == self@.slots.len(),
    {
        self.slots.len()
    }

    pub fn position_at(&self, i: usize) -> (r: Option<Point>)
        requires
            i < self@.slots.len(),
        ensures
            r == self@.slots[i as int].position,
    {
        reveal(slot_model);
        match self.slots[i].position {
            Some(p) => Some(p.pt),
            None => None,
        }
    }

    pub fn name_at(&self, i: usize) -> (r: Option<&str>)
        requires
            i < self@.slots.len(),
        ensures
            match r {
                Some(text) => self@.slots[i as int].name == Some(text@),
                None => self@.slots[i as int].name is None,
            },
    {
        reveal(slot_model);
        match &self.slots[i].name {
            Some(n) => Some(n.name.as_str()),
            None => None,
        }
    }

    pub fn is_player(&self, i: usize) -> (r: bool)
        requires
            i < self@.slots.len(),
        ensures
            r == self@.slots[i as int].player,
    {
        reveal(slot_model);
        self.slots[i].player.is_some()
    }

    pub fn is_monster(&self, i: usize) -> (r: bool)
        requires
            i < self@.slots.len(),
        ensures
            r == self@.slots[i as int].monster,
    {
        reveal(slot_model);
        self.slots[i].monster.is_some()
    }

    pub fn is_item(&self, i: usize) -> (r: bool)
        requires
            i < self@.slots.len(),
        ensures
            r == self@.slots[i as int].item,
    {
        reveal(slot_model);
        self.slots[i].item.is_some()
    }

    pub fn blocks_tile_at(&self, i: usize) -> (r: bool)
        requires
            i < self@.slots.len(),
        ensures
            r == self@.slots[i as int].blocks_tile,
    {
        reveal(slot_model);
        self.slots[i].blocks_tile.is_some()
    }

    pub fn stats_at(&self, i: usize) -> (r: Option<CombatStats>)
        requires
            i < self@.slots.len(),
        ensures
            r == self@.slots[i as int].stats,
    {
        reveal(slot_model);
        self.slots[i].combat_stats
    }

    pub fn melee_at(&self, i: usize) -> (r: Option<Entity>)
        requires
            i < self@.slots.len(),
        ensures
            r == self@.slots[i as int].melee,
    {
        reveal(slot_model);
        match self.slots[i].melee {
            Some(m) => Some(m.target),
            None => None,
        }
    }

    pub fn damage_at(&self, i: usize) -> (r: Option<i32>)
        requires
            i < self@.slots.len(),
        ensures
            r == self@.slots[i as int].damage,
    {
        reveal(slot_model);
        match self.slots[i].damage {
            Some(d) => Some(d.val),
            None => None,
        }
    }

    pub fn pickup_at(&self, i: usize) -> (r: Option<ItemPickupMessage>)
        requires
            i < self@.slots.len(),
        ensures
            r == self@.slots[i as int].pickup,
    {
        reveal(slot_model);
        self.slots[i].pickup
    }

    /// The sight range of the entity in slot `i`, if it has a viewshed.
    pub fn sight_range_at(&self, i: usize) -> (r: Option<i32>)
        requires
            i < self@.slots.len(),
        ensures
            match r {
                Some(range) => self@.slots[i as int].viewshed is Some
                    && self@.slots[i as int].viewshed.unwrap().range == range,
                None => self@.slots[i as int].viewshed is None,
            },
    {
        reveal(slot_model);
        match &self.slots[i].viewshed {
            Some(v) => Some(v.range),
            None => None,
        }
    }

    /// Whether the entity in slot `i` has a viewshed that holds `pt`.
    pub fn sees_at(&self, i: usize, pt: Point) -> (r: bool)
        requires
            i < self@.slots.len(),
        ensures
            r == (self@.slots[i as int].viewshed matches Some(v) && v.visible_tiles.contains(pt)),
    {
        reveal(slot_model);
        match &self.slots[i].viewshed {
            Some(v) => holds_point(&v.visible_tiles, pt),
            None => false,
        }
    }

    pub fn set_position(&mut self, i: usize, pt: Option<Point>)
        requires
            old(self).wf(),
            i < old(self)@.slots.len(),
            (SlotModel { position: pt, ..old(self)@.slots[i as int] }).wf(old(self)@.map),
        ensures
            final(self).wf(),
            final(self)@ == (WorldModel {
                slots: old(self)@.slots.update(
                    i as int,
                    SlotModel { position: pt, ..old(self)@.slots[i as int] },
                ),
                ..old(self)@
            }),
    {
        reveal(slot_model);
        self.slots[i].position = match pt {
            Some(p) => Some(Position { pt: p }),
            None => None,
        };
        assert(self@.slots =~= old(self)@.slots.update(
            i as int,
            SlotModel { position: pt, ..old(self)@.slots[i as int] },
        ));
    }

    pub fn set_stats(&mut self, i: usize, stats: Option<CombatStats>)
        requires
            old(self).wf(),
            i < old(self)@.slots.len(),
            (SlotModel { stats, ..old(self)@.slots[i as int] }).wf(old(self)@.map),
        ensures
            final(self).wf(),
            final(self)@ == (WorldModel {
                slots: old(self)@.slots.update(
                    i as int,
                    SlotModel { stats, ..old(self)@.slots[i as int] },
                ),
                ..old(self)@
            }),
    {
        reveal(slot_model);
        self.slots[i].combat_stats = stats;
        assert(self@.slots =~= old(self)@.slots.update(
            i as int,
            SlotModel { stats, ..old(self)@.slots[i as int] },
        ));
    }

    pub fn set_melee(&mut self, i: usize, target: Option<Entity>)
        requires
            old(self).wf(),
            i < old(self)@.slots.len(),
            (SlotModel { melee: target, ..old(self)@.slots[i as int] }).wf(old(self)@.map),
        ensures
            final(self).wf(),
            final(self)@ == (WorldModel {
                slots: old(self)@.slots.update(
                    i as int,
                    SlotModel { melee: target, ..old(self)@.slots[i as int] },
                ),
                ..old(self)@
            }),
    {
        reveal(slot_model);
        self.slots[i].melee = match target {
            Some(e) => Some(MeleeMessage { target: e }),
            None => None,
        };
        assert(self@.slots =~= old(self)@.slots.update(
            i as int,
            SlotModel { melee: target, ..old(self)@.slots[i as int] },
        ));
    }

    pub fn set_damage(&mut self, i: usize, damage: Option<i32>)
        requires
            old(self).wf(),
            i < old(self)@.slots.len(),
            (SlotModel { damage, ..old(self)@.slots[i as int] }).wf(old(self)@.map),
        ensures
            final(self).wf(),
            final(self)@ == (WorldModel {
                slots: old(self)@.slots.update(
                    i as int,
                    SlotModel { damage, ..old(self)@.slots[i as int] },
                ),
                ..old(self)@
            }),
    {
        reveal(slot_model);
        self.slots[i].damage = match damage {
            Some(val) => Some(DamageMessage { val }),
            None => None,
        };
        assert(self@.slots =~= old(self)@.slots.update(
            i as int,
            SlotModel { damage, ..old(self)@.slots[i as int] },
        ));
    }

    pub fn set_pickup(&mut self, i: usize, pickup: Option<ItemPickupMessage>)
        requires
            old(self).wf(),
            i < old(self)@.slots.len(),
            (SlotModel { pickup, ..old(self)@.slots[i as int] }).wf(old(self)@.map),
        ensures
            final(self).wf(),
            final(self)@ == (WorldModel {
                slots: old(self)@.slots.update(
                    i as int,
                    SlotModel { pickup, ..old(self)@.slots[i as int] },
                ),
                ..old(self)@
            }),
    {
        reveal(slot_model);
        self.slots[i].pickup = pickup;
        assert(self@.slots =~= old(self)@.slots.update(
            i as int,
            SlotModel { pickup, ..old(self)@.slots[i as int] },
        ));
    }

    pub fn set_backpack(&mut self, i: usize, owner: Option<Entity>)
        requires
            old(self).wf(),
            i < old(self)@.slots.len(),
            (SlotModel { backpack: owner, ..old(self)@.slots[i as int] }).wf(old(self)@.map),
        ensures
            final(self).wf(),
            final(self)@ == (WorldModel {
                slots: old(self)@.slots.update(
                    i as int,
                    SlotModel { backpack: owner, ..old(self)@.slots[i as int] },
                ),
                ..old(self)@
            }),
    {
        reveal(slot_model);
        self.slots[i].in_backpack = match owner {
            Some(e) => Some(InBackpack { owner: e }),
            None => None,
        };
        assert(self@.slots =~= old(self)@.slots.update(
            i as int,
            SlotModel { backpack: owner, ..old(self)@.slots[i as int] },
        ));
    }

    /// Gives the entity in slot `i` the viewshed made of the arguments.
    pub fn set_viewshed(&mut self, i: usize, visible_tiles: Vec<Point>, range: i32, dirty: bool)
        requires
            old(self).wf(),
            i < old(self)@.slots.len(),
            old(self)@.slots[i as int].alive,
        ensures
            final(self).wf(),
            final(self)@ == (WorldModel {
                slots: old(self)@.slots.update(
                    i as int,
                    SlotModel {
                        viewshed: Some(
                            ViewshedModel { visible_tiles: visible_tiles@, range, dirty },
                        ),
                        ..old(self)@.slots[i as int]
                    },
                ),
                ..old(self)@
            }),
    {
        reveal(slot_model);
        let ghost wanted = SlotModel {
            viewshed: Some(ViewshedModel { visible_tiles: visible_tiles@, range, dirty }),
            ..old(self)@.slots[i as int]
        };
        self.slots[i].viewshed = Some(Viewshed { visible_tiles, range, dirty });
        assert(self@.slots =~= old(self)@.slots.update(i as int, wanted));
    }

    /// Puts `msg` in front of the log.
    pub fn tell(&mut self, msg: String)
        requires
            old(self).wf(),
        ensures
            final(self).wf(),
            final(self)@ == (WorldModel {
                log: crate::game_log::log_after(old(self)@.log, old(self)@.log_capacity, msg@),
                ..old(self)@
            }),
    {
        self.log.add_message(msg);
    }

    /// Makes an entity with the components of `parts`; whether `parts` says
    /// it is alive, and its generation, are not looked at. The entity takes
    /// the first slot that can be handed out, with that slot's generation
    /// raised by one; where there is none, a new slot of generation 0 is
    /// added at the end.
    pub fn spawn(&mut self, parts: Slot) -> (e: Entity)
        requires
            old(self).wf(),
            (SlotModel { alive: true, ..parts@ }).wf(old(self)@.map),
        ensures
            final(self).wf(),
            e == old(self)@.next_entity(),
            e.index <= old(self)@.slots.len(),
            final(self)@ == old(self)@.with_entity(
                e,
                SlotModel { alive: true, generation: e.generation, ..parts@ },
            ),
    {
        let ghost given = parts@;
        let n: usize = self.slots.len();
        let i: usize = self.find_vacant();
        if i < n {
            let generation: u32 = self.generation_at(i) + 1;
            self.slots[i] = parts.stamped(generation);
            let ghost placed = SlotModel { alive: true, generation, ..given };
            assert(self@.slots =~= old(self)@.slots.update(i as int, placed));
            Entity { index: i, generation }
        } else {
            self.slots.push(parts.stamped(0));
            let ghost placed = SlotModel { alive: true, generation: 0, ..given };
            assert(self@.slots =~= old(self)@.slots.push(placed));
            Entity { index: n, generation: 0 }
        }
    }

    /// How often slot `i` has been handed out.
    pub fn generation_at(&self, i: usize) -> (r: u32)
        requires
            i < self@.slots.len(),
        ensures
            r == self@.slots[i as int].generation,
    {
        reveal(slot_model);
        self.slots[i].generation
    }

    /// The first slot that can be handed out, or the number of slots.
    pub fn find_vacant(&self) -> (i: usize)
        ensures
            i == self@.first_vacant(0),
            i <= self@.slots.len(),
            i < self@.slots.len() ==> self@.vacant(i as int),
    {
        let n: usize = self.slots.len();
        let mut i: usize = 0;
        while i < n
            invariant
                i <= n,
                n == self@.slots.len(),
                self@.first_vacant(0) == self@.first_vacant(i as int),
            decreases n - i,
        {
            if self.vacant_at(i) {
                return i;
            }
            i += 1;
        }
        n
    }

    /// Whether slot `i` can be handed out.
    pub fn vacant_at(&self, i: usize) -> (r: bool)
        requires
            i < self@.slots.len(),
        ensures
            r == self@.vacant(i as int),
    {
        reveal(slot_model);
        !self.slots[i].alive && self.slots[i].generation < u32::MAX
    }

    /// Makes an entity without components.
    pub fn create_entity(&mut self) -> (e: Entity)
        requires
            old(self).wf(),
        ensures
            final(self).wf(),
            e == old(self)@.next_entity(),
            e.index <= old(self)@.slots.len(),
            final(self)@ == old(self)@.with_entity(e, SlotModel::bare(true, e.generation)),
    {
        self.spawn(Slot::bare(false, 0))
    }

    /// Calls for the viewshed of the entity in slot `i` to be worked out
    /// anew.
    pub fn mark_dirty(&mut self, i: usize)
        requires
            old(self).wf(),
            i < old(self)@.slots.len(),
            old(self)@.slots[i as int].viewshed is Some,
        ensures
            final(self).wf(),
            final(self)@ == (WorldModel {
                slots: old(self)@.slots.update(
                    i as int,
                    SlotModel {
                        viewshed: Some(
                            ViewshedModel {
                                dirty: true,
                                ..old(self)@.slots[i as int].viewshed.unwrap()
                            },
                        ),
                        ..old(self)@.slots[i as int]
                    },
                ),
                ..old(self)@
            }),
    {
        reveal(slot_model);
        match &mut self.slots[i].viewshed {
            Some(v) => {
                v.dirty = true;
            },
            None => {},
        }
        assert(self@.slots =~= old(self)@.slots.update(
            i as int,
            SlotModel {
                viewshed: Some(
                    ViewshedModel { dirty: true, ..old(self)@.slots[i as int].viewshed.unwrap() },
                ),
                ..old(self)@.slots[i as int]
            },
        ));
    }

    /// Records where the user's entity was last moved to.
    pub fn set_player_pos(&mut self, pt: Point)
        requires
            old(self).wf(),
        ensures
            final(self).wf(),
            final(self)@ == (WorldModel { player_pos: pt, ..old(self)@ }),
    {
        self.player_pos = pt;
    }

    /// Names the entity that the user steers, and where it stands.
    pub fn set_player(&mut self, e: Entity, pt: Point)
        requires
            old(self).wf(),
        ensures
            final(self).wf(),
            final(self)@ == (WorldModel { player: Some(e), player_pos: pt, ..old(self)@ }),
    {
        self.player = Some(e);
        self.player_pos = pt;
    }

    /// Moves the scheduler to `runstate`.
    pub fn set_runstate(&mut self, runstate: RunState)
        requires
            old(self).wf(),
        ensures
            final(self).wf(),
            final(self)@ == (WorldModel { runstate, ..old(self)@ }),
    {
        self.runstate = runstate;
    }

    /// Marks tile `idx` as blocked or free.
    pub fn set_blocked(&mut self, idx: usize, blocked: bool)
        requires
            old(self).wf(),
            idx < old(self)@.map.size(),
        ensures
            final(self).wf(),
            final(self)@ == (WorldModel {
                map: MapModel {
                    blocked: old(self)@.map.blocked.update(idx as int, blocked),
                    ..old(self)@.map
                },
                ..old(self)@
            }),
    {
        self.map.blocked_tiles[idx] = blocked;
    }

    /// Removes the entity `e` with all its components. Returns whether there
    /// was such an entity.
    pub fn delete_entity(&mut self, e: Entity) -> (r: bool)
        requires
            old(self).wf(),
        ensures
            final(self).wf(),
            r == old(self)@.live(e),
            r ==> final(self)@ == (WorldModel {
                slots: old(self)@.slots.update(e.index as int, SlotModel::bare(false, e.generation)),
                ..old(self)@
            }),
            !r ==> final(self)@ == old(self)@,
    {
        if self.is_alive(e) {
            self.slots[e.index] = Slot::bare(false, e.generation);
            assert(self@.slots =~= old(self)@.slots.update(
                e.index as int,
                SlotModel::bare(false, e.generation),
            ));
            true
        } else {
            false
        }
    }

    /// Whether tile `idx` stops sight.
    pub fn is_opaque(&self, idx: i32) -> (r: bool)
        requires
            self.wf(),
        ensures
            r == self@.opaque(idx as int),
    {
        if idx < 0 || idx >= self.map.num_tiles {
            return false;
        }
        if self.map.is_opaque(idx) {
            return true;
        }
        let t: usize = idx as usize;
        let n: usize = self.map.tile_content[t].len();
        let mut k: usize = 0;
        while k < n
            invariant
                k <= n,
                self.wf(),
                0 <= t < self@.map.size(),
                t == idx,
                n == self@.map.content[t as int].len(),
                forall|j: int| 0 <= j < k ==> !self@.veils(#[trigger] self@.map.content[t as int][j]),
            decreases n - k,
        {
            reveal(slot_model);
            let e: Entity = self.map.tile_content[t][k];
            if self.is_alive(e) && self.slots[e.index].blocks_sight.is_some() {
                return true;
            }
            k += 1;
        }
        false
    }
}

} // verus!
