//! The turn scheduler: one tick runs the systems in their fixed order and
//! moves the run state on. What the systems need from outside, fields of
//! view and paths, the scheduler asks for and takes back step by step.

use vstd::prelude::*;
use crate::combat_syst::{combat_fits, fought, CombatSyst};
use crate::damage_syst::{damage_applied, damage_fits, swept, DamageSyst};
use crate::entity_spawn::{dwells, player, player_parts, populate_room};
use crate::geometry::{Point, Rect};
use crate::map::{GameMap, MapModel};
use crate::mapgen::{dug_out, is_dungeon, lemma_dungeon_is_dug_out, MAX_SIZE};
use crate::mapindex_syst::{indexed, MapIndexingSystem};
use crate::monster_syst::{after_plan, followed, path_fits, plan, player_spot, MonsterAI, MonsterPlan};
use crate::player::{input_applied, input_fits, input_ready, input_state, player_input, Command};
use crate::visibility_syst::{looked, views, VisibilitySystem};
use crate::world::{RunState, World, WorldModel};

verus! {

/// How far a tick has got.
#[derive(Clone, Copy, Debug, PartialEq, Eq, Structural)]
pub enum Stage {
    /// No tick is under way.
    Idle,
    /// The index is rebuilt; the fields of view are awaited.
    Sighting,
    /// The monster in slot `monster` awaits a path from `start` to `goal`.
    Hunting { monster: usize, start: usize, goal: usize },
    /// The world broke a rule that the systems rely on; nothing runs any
    /// more.
    Halted,
}

/// What the scheduler tells its caller.
#[derive(Clone, Copy, Debug, PartialEq, Eq, Structural)]
pub enum Step {
    /// The tick is over.
    Done,
    /// Hand over the field of view of every entity that looks around.
    NeedSight,
    /// Hand over a path from tile `start` to tile `goal` for the monster in
    /// slot `monster`.
    NeedPath { monster: usize, start: usize, goal: usize },
    /// The world broke a rule that the systems rely on.
    Fault,
}

pub struct State {
    pub ecs: World,
    pub stage: Stage,
}

/// What a `State` holds, as plain values.
pub struct StateModel {
    pub world: WorldModel,
    pub stage: Stage,
}

impl View for State {
    type V = StateModel;

    open spec fn view(&self) -> StateModel {
        StateModel { world: self.ecs@, stage: self.stage }
    }
}

/// A world around `map` with no entities yet.
pub open spec fn empty_world(map: MapModel, log_size: usize) -> WorldModel {
    WorldModel {
        slots: Seq::empty(),
        map,
        log: Seq::empty(),
        log_capacity: log_size as nat,
        runstate: RunState::PreRun,
        player: None,
        player_pos: Point { x: 0, y: 0 },
    }
}

/// The run state that follows a turn.
pub open spec fn turn_after(r: RunState) -> RunState {
    match r {
        RunState::PreRun => RunState::AwaitingInput,
        RunState::PlayerTurn => RunState::MonsterTurn,
        RunState::MonsterTurn => RunState::AwaitingInput,
        other => other,
    }
}

/// What a scheduler at `stage` waits for.
pub open spec fn awaited(stage: Stage) -> Step {
    match stage {
        Stage::Idle => Step::Done,
        Stage::Sighting => Step::NeedSight,
        Stage::Hunting { monster, start, goal } => Step::NeedPath { monster, start, goal },
        Stage::Halted => Step::Fault,
    }
}

/// The world after the run state moves to `next`: unless the scheduler now
/// awaits input, the dead are swept away.
pub open spec fn settled(w: WorldModel, next: RunState) -> WorldModel {
    let moved_on = WorldModel { runstate: next, ..w };
    if next != RunState::AwaitingInput {
        swept(moved_on)
    } else {
        moved_on
    }
}

pub open spec fn halted(w: WorldModel) -> (StateModel, Step) {
    (StateModel { world: w, stage: Stage::Halted }, Step::Fault)
}

/// The end of a turn: attacks are resolved, damage is applied, the run
/// state moves on and the dead are swept away. The scheduler halts where
/// the attacks or the damage cannot be resolved.
pub open spec fn concluded(w: WorldModel) -> (StateModel, Step) {
    if !combat_fits(w) {
        halted(w)
    } else if !damage_fits(fought(w)) {
        halted(fought(w))
    } else {
        (
            StateModel {
                world: settled(damage_applied(fought(w)), turn_after(w.runstate)),
                stage: Stage::Idle,
            },
            Step::Done,
        )
    }
}

/// The monsters' part of a turn from slot `from` on: up to the first
/// monster that needs a path, or through to the end of the turn. The
/// scheduler halts where the user's entity has no position.
pub open spec fn hunted(w: WorldModel, from: int) -> (StateModel, Step) {
    if player_spot(w) is None {
        halted(w)
    } else {
        match plan(w, from) {
            MonsterPlan::Seek { monster, start, goal } => (
                StateModel {
                    world: after_plan(w, from),
                    stage: Stage::Hunting { monster, start, goal },
                },
                Step::NeedPath { monster, start, goal },
            ),
            MonsterPlan::Done => concluded(after_plan(w, from)),
        }
    }
}

/// The start of a tick. Awaiting input, the index is rebuilt and the
/// command carried out; at the exit the dead are swept; else the index is
/// rebuilt and the fields of view are asked for. A tick under way is not
/// started again.
pub open spec fn ticked(s: StateModel, command: Option<Command>) -> (StateModel, Step) {
    if s.stage != Stage::Idle {
        (s, awaited(s.stage))
    } else {
        match s.world.runstate {
            RunState::AwaitingInput => {
                let w = indexed(s.world);
                if !input_fits(w, command) {
                    halted(w)
                } else {
                    (
                        StateModel {
                            world: settled(input_applied(w, command), input_state(command)),
                            stage: Stage::Idle,
                        },
                        Step::Done,
                    )
                }
            },
            RunState::Exit => (
                StateModel { world: settled(s.world, RunState::Exit), stage: Stage::Idle },
                Step::Done,
            ),
            _ => (StateModel { world: indexed(s.world), stage: Stage::Sighting }, Step::NeedSight),
        }
    }
}

/// The tick goes on with the fields of view, one list for each slot: every
/// entity looks around, then the monsters act.
pub open spec fn sighted_on(s: StateModel, fov: Seq<Seq<Point>>) -> (StateModel, Step) {
    if s.stage != Stage::Sighting {
        (s, awaited(s.stage))
    } else if fov.len() != s.world.slots.len() {
        halted(s.world)
    } else {
        hunted(looked(s.world, fov), 0)
    }
}

/// The tick goes on with the path for the monster that waits: it follows
/// the path, then the monsters after it act.
pub open spec fn pathed_on(s: StateModel, success: bool, steps: Seq<usize>) -> (StateModel, Step) {
    match s.stage {
        Stage::Hunting { monster, start, goal } => if !path_fits(
            s.world,
            monster as int,
            success,
            steps,
        ) {
            halted(s.world)
        } else {
            hunted(followed(s.world, monster as int, success, steps), monster + 1)
        },
        _ => (s, awaited(s.stage)),
    }
}

/// Whether the world is that of a game about to start: a generated dungeon,
/// an empty log, the scheduler before its first run, the user's entity at
/// the centre of the first room, and every other entity a goblin or a
/// health potion that stands inside one of the other rooms.
pub open spec fn fresh_game(w: WorldModel) -> bool {
    &&& is_dungeon(w.map)
    &&& w.log == Seq::<Seq<char>>::empty()
    &&& w.runstate == RunState::PreRun
    &&& w.player matches Some(p)
    &&& w.live(p)
    &&& w.slots[p.index as int] == player_parts(
        p.generation,
        w.map.rooms[0].center_x() as i32,
        w.map.rooms[0].center_y() as i32,
    )
    &&& w.player_pos == (Point {
        x: w.map.rooms[0].center_x() as i32,
        y: w.map.rooms[0].center_y() as i32,
    })
    &&& forall|i: int|
        0 <= i < w.slots.len() && i != p.index ==> exists|k: int|
            1 <= k < w.map.rooms.len() && dwells(#[trigger] w.slots[i], #[trigger] w.map.rooms[k])
}

impl State {
    pub open spec fn wf(&self) -> bool {
        self.ecs.wf()
    }

    /// A game about to start, on a dungeon of the given size drawn at
    /// random, with a log that keeps `log_size` lines: every room but the
    /// first is populated, and the user's entity stands at the centre of the
    /// first.
    pub fn new_game(width: i32, height: i32, log_size: usize) -> (state: State)
        requires
            MAX_SIZE + 2 <= width,
            MAX_SIZE + 2 <= height,
            width * height <= i32::MAX,
        ensures
            state.wf(),
            state@.stage == Stage::Idle,
            state@.world.map.width == width,
            state@.world.map.height == height,
            state@.world.log_capacity == log_size,
            fresh_game(state@.world),
    {
        let map = GameMap::new_map_rooms(width, height);
        let ghost dungeon = map@;
        proof {
            lemma_dungeon_is_dug_out(dungeon);
        }
        let spot: (i32, i32) = map.rooms[0].center();
        let mut world = World::new(map, log_size);
        let n: usize = world.map.rooms.len();
        let mut k: usize = 1;
        while k < n
            invariant
                1 <= k <= n,
                n == dungeon.rooms.len(),
                is_dungeon(dungeon),
                dug_out(dungeon),
                world.wf(),
                world@ == (WorldModel { slots: world@.slots, ..empty_world(dungeon, log_size) }),
                forall|i: int|
                    0 <= i < world@.slots.len() ==> exists|q: int|
                        1 <= q < k && dwells(#[trigger] world@.slots[i], #[trigger] dungeon.rooms[q]),
            decreases n - k,
        {
            let room: Rect = world.map.rooms[k];
            proof {
                assert((room.x2 - room.x1) * (room.y2 - room.y1) >= 4) by (nonlinear_arith)
                    requires
                        room.x2 - room.x1 >= 5,
                        room.y2 - room.y1 >= 5,
                ;
            }
            populate_room(&mut world, &room);
            k += 1;
        }
        let p = player(&mut world, spot.0, spot.1);
        world.set_player(p, Point::new(spot.0, spot.1));
        State::new(world)
    }

    /// A scheduler around `ecs`, with no tick under way.
    pub fn new(ecs: World) -> (state: State)
        ensures
            state@ == (StateModel { world: ecs@, stage: Stage::Idle }),
            state.wf() == ecs.wf(),
    {
        State { ecs, stage: Stage::Idle }
    }

    /// What the scheduler waits for.
    pub fn waiting_for(&self) -> (step: Step)
        ensures
            step == awaited(self@.stage),
    {
        match self.stage {
            Stage::Idle => Step::Done,
            Stage::Sighting => Step::NeedSight,
            Stage::Hunting { monster, start, goal } => Step::NeedPath { monster, start, goal },
            Stage::Halted => Step::Fault,
        }
    }

    /// Rebuilds the spatial index.
    pub fn update_map(&mut self)
        requires
            old(self).wf(),
        ensures
            final(self).wf(),
            final(self)@ == (StateModel { world: indexed(old(self)@.world), ..old(self)@ }),
    {
        MapIndexingSystem::run(&mut self.ecs);
    }

    /// Moves the run state to `next` and, unless the scheduler now awaits
    /// input, sweeps the dead away.
    fn settle(&mut self, next: RunState)
        requires
            old(self).wf(),
        ensures
            final(self).wf(),
            final(self)@ == (StateModel {
                world: settled(old(self)@.world, next),
                stage: Stage::Idle,
            }),
    {
        self.ecs.set_runstate(next);
        if next != RunState::AwaitingInput {
            DamageSyst::delete_the_dead(&mut self.ecs);
        }
        self.stage = Stage::Idle;
    }

    /// Ends the turn.
    fn conclude(&mut self) -> (step: Step)
        requires
            old(self).wf(),
        ensures
            final(self).wf(),
            (final(self)@, step) == concluded(old(self)@.world),
    {
        if !CombatSyst::ready(&self.ecs) {
            self.stage = Stage::Halted;
            return Step::Fault;
        }
        CombatSyst::run(&mut self.ecs);
        if !DamageSyst::ready(&self.ecs) {
            self.stage = Stage::Halted;
            return Step::Fault;
        }
        DamageSyst::run(&mut self.ecs);
        let next: RunState = match self.ecs.runstate {
            RunState::PreRun => RunState::AwaitingInput,
            RunState::PlayerTurn => RunState::MonsterTurn,
            RunState::MonsterTurn => RunState::AwaitingInput,
            other => other,
        };
        self.settle(next);
        Step::Done
    }

    /// Lets the monsters act, from slot `from` on.
    fn hunt(&mut self, from: usize) -> (step: Step)
        requires
            old(self).wf(),
        ensures
            final(self).wf(),
            (final(self)@, step) == hunted(old(self)@.world, from as int),
    {
        if MonsterAI::find_player(&self.ecs).is_none() {
            self.stage = Stage::Halted;
            return Step::Fault;
        }
        match MonsterAI::run(&mut self.ecs, from) {
            MonsterPlan::Seek { monster, start, goal } => {
                self.stage = Stage::Hunting { monster, start, goal };
                Step::NeedPath { monster, start, goal }
            },
            MonsterPlan::Done => self.conclude(),
        }
    }

    /// Starts a tick, with the user's command if there is one.
    pub fn tick(&mut self, command: Option<Command>) -> (step: Step)
        requires
            old(self).wf(),
        ensures
            final(self).wf(),
            (final(self)@, step) == ticked(old(self)@, command),
    {
        match self.stage {
            Stage::Idle => {},
            _ => {
                return self.waiting_for();
            },
        }
        match self.ecs.runstate {
            RunState::AwaitingInput => {
                self.update_map();
                if !input_ready(&self.ecs, command) {
                    self.stage = Stage::Halted;
                    return Step::Fault;
                }
                let next: RunState = player_input(&mut self.ecs, command);
                self.settle(next);
                Step::Done
            },
            RunState::Exit => {
                self.settle(RunState::Exit);
                Step::Done
            },
            _ => {
                self.update_map();
                self.stage = Stage::Sighting;
                Step::NeedSight
            },
        }
    }

    /// Goes on with the fields of view that `tick` asked for: `fov[i]` is
    /// what the entity in slot `i` sees.
    pub fn sight(&mut self, fov: &Vec<Vec<Point>>) -> (step: Step)
        requires
            old(self).wf(),
        ensures
            final(self).wf(),
            (final(self)@, step) == sighted_on(old(self)@, views(fov)),
    {
        match self.stage {
            Stage::Sighting => {},
            _ => {
                return self.waiting_for();
            },
        }
        if fov.len() != self.ecs.len() {
            self.stage = Stage::Halted;
            return Step::Fault;
        }
        VisibilitySystem::run(&mut self.ecs, fov);
        self.hunt(0)
    }

    /// Goes on with the path that the scheduler asked for: whether the
    /// search succeeded, and the tiles of the path from its start on.
    pub fn path(&mut self, success: bool, steps: &Vec<usize>) -> (step: Step)
        requires
            old(self).wf(),
        ensures
            final(self).wf(),
            (final(self)@, step) == pathed_on(old(self)@, success, steps@),
    {
        match self.stage {
            Stage::Hunting { monster, start, goal } => {
                if !MonsterAI::ready(&self.ecs, monster, success, steps) {
                    self.stage = Stage::Halted;
                    return Step::Fault;
                }
                MonsterAI::step(&mut self.ecs, monster, success, steps);
                self.hunt(monster + 1)
            },
            _ => self.waiting_for(),
        }
    }
}

} // verus!
