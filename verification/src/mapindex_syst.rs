//! The spatial index: which tiles are blocked and who stands on each.

use vstd::prelude::*;
use crate::components::Entity;
use crate::map::{lemma_tile_index_bounds, tile_index, MapModel, TileType};
use crate::world::{World, WorldModel};

verus! {

pub struct MapIndexingSystem {}

/// Whether the entity in slot `i` stands on tile `t`.
pub open spec fn stands_on(w: WorldModel, i: int, t: int) -> bool {
    &&& 0 <= i < w.slots.len()
    &&& w.slots[i].position matches Some(p)
    &&& tile_index(w.map.width, p.x as int, p.y as int) == t
}

/// The entities in slots below `n` that stand on tile `t`, in slot order.
pub open spec fn occupants(w: WorldModel, t: int, n: int) -> Seq<Entity>
    decreases n,
{
    if n <= 0 {
        Seq::empty()
    } else if stands_on(w, n - 1, t) {
        occupants(w, t, n - 1).push(w.handle(n - 1))
    } else {
        occupants(w, t, n - 1)
    }
}

/// Whether tile `t` is a wall or holds, in a slot below `n`, an entity that
/// blocks movement.
pub open spec fn obstructed(w: WorldModel, t: int, n: int) -> bool {
    w.map.tiles[t] == TileType::Wall || exists|i: int|
        0 <= i < n && #[trigger] stands_on(w, i, t) && w.slots[i].blocks_tile
}

/// The world after the index is rebuilt from the positions of all entities.
pub open spec fn indexed(w: WorldModel) -> WorldModel {
    WorldModel {
        map: MapModel {
            blocked: Seq::new(
                w.map.tiles.len(),
                |t: int| obstructed(w, t, w.slots.len() as int),
            ),
            content: Seq::new(
                w.map.content.len(),
                |t: int| occupants(w, t, w.slots.len() as int),
            ),
            ..w.map
        },
        ..w
    }
}

impl MapIndexingSystem {
    /// Rebuilds the index from scratch.
    pub fn run(world: &mut World)
        requires
            old(world).wf(),
        ensures
            final(world).wf(),
            final(world)@ == indexed(old(world)@),
    {
        let ghost before = world@;
        world.map.populate_blocked();
        world.map.clear_content_index();
        let n: usize = world.slots.len();
        let mut i: usize = 0;
        while i < n
            invariant
                i <= n,
                n == before.slots.len(),
                before.wf(),
                world.wf(),
                world@ == (WorldModel {
                    map: MapModel {
                        blocked: world@.map.blocked,
                        content: world@.map.content,
                        ..before.map
                    },
                    ..before
                }),
                forall|t: int|
                    0 <= t < before.map.size() ==> world@.map.blocked[t] == obstructed(
                        before,
                        t,
                        i as int,
                    ),
                forall|t: int|
                    0 <= t < before.map.size() ==> #[trigger] world@.map.content[t] == occupants(
                        before,
                        t,
                        i as int,
                    ),
            decreases n - i,
        {
            let ghost blocked_before = world@.map.blocked;
            let ghost content_before = world@.map.content;
            match world.position_at(i) {
                Some(pt) => {
                    proof {
                        lemma_tile_index_bounds(
                            before.map.width,
                            before.map.height,
                            pt.x as int,
                            pt.y as int,
                        );
                    }
                    let idx: usize = world.map.point2d_to_index(pt) as usize;
                    let blocks: bool = world.blocks_tile_at(i);
                    let e: Entity = world.entity_at(i);
                    if blocks {
                        world.map.blocked_tiles[idx] = true;
                    }
                    world.map.tile_content[idx].push(e);
                    proof {
                        assert(stands_on(before, i as int, idx as int));
                        assert forall|t: int| 0 <= t < before.map.size() implies world@.map.blocked[t]
                            == obstructed(before, t, i + 1) by {
                            assert(blocked_before[t] == obstructed(before, t, i as int));
                        }
                        assert forall|t: int|
                            0 <= t < before.map.size() implies #[trigger] world@.map.content[t]
                            == occupants(before, t, i + 1) by {
                            assert(content_before[t] == occupants(before, t, i as int));
                        }
                    }
                },
                None => {
                    proof {
                        assert forall|t: int| 0 <= t < before.map.size() implies world@.map.blocked[t]
                            == obstructed(before, t, i + 1) by {
                            assert(blocked_before[t] == obstructed(before, t, i as int));
                        }
                    }
                },
            }
            i += 1;
        }
        proof {
            assert(world@.map.blocked =~= indexed(before).map.blocked);
            assert(world@.map.content =~= indexed(before).map.content);
        }
    }
}

} // verus!
