//! Visibility: what each entity sees, and what the user has seen of the map.

use vstd::prelude::*;
use crate::components::ViewshedModel;
use crate::geometry::Point;
use crate::map::{lemma_tile_index_bounds, tile_index, GameMap, MapModel};
use crate::world::{SlotModel, World, WorldModel};

verus! {

pub struct VisibilitySystem {}

/// Whether the entity of the slot looks around: it has a viewshed and a
/// position.
pub open spec fn sighted(s: SlotModel) -> bool {
    s.viewshed is Some && s.position is Some
}

/// The slot after its entity has looked around and seen `seen`.
pub open spec fn look_slot(s: SlotModel, seen: Seq<Point>) -> SlotModel {
    if sighted(s) {
        SlotModel {
            viewshed: Some(
                ViewshedModel { visible_tiles: seen, range: s.viewshed.unwrap().range, dirty: false },
            ),
            ..s
        }
    } else {
        s
    }
}

/// Whether one of the first `k` points of `seen` is tile `t` of the map.
pub open spec fn lit(m: MapModel, seen: Seq<Point>, t: int, k: int) -> bool {
    exists|j: int|
        0 <= j < k && m.in_bounds((#[trigger] seen[j]).x as int, seen[j].y as int) && tile_index(
            m.width,
            seen[j].x as int,
            seen[j].y as int,
        ) == t
}

/// The map after the user's entity has seen `seen`: exactly the tiles seen
/// are visible, and they are revealed along with all revealed before. A
/// point off the map is passed over.
pub open spec fn shown(m: MapModel, seen: Seq<Point>) -> MapModel {
    MapModel {
        visible: Seq::new(m.visible.len(), |t: int| lit(m, seen, t, seen.len() as int)),
        revealed: Seq::new(
            m.revealed.len(),
            |t: int| m.revealed[t] || lit(m, seen, t, seen.len() as int),
        ),
        ..m
    }
}

/// The map after the entities in slots below `n` have looked around, in
/// slot order; only a player's sight changes the map.
pub open spec fn map_seen(w: WorldModel, fov: Seq<Seq<Point>>, n: int) -> MapModel
    decreases n,
{
    if n <= 0 {
        w.map
    } else if sighted(w.slots[n - 1]) && w.slots[n - 1].player {
        shown(map_seen(w, fov, n - 1), fov[n - 1])
    } else {
        map_seen(w, fov, n - 1)
    }
}

/// The world after the entities in slots below `n` have looked around.
pub open spec fn looked_upto(w: WorldModel, fov: Seq<Seq<Point>>, n: int) -> WorldModel {
    WorldModel {
        slots: Seq::new(
            w.slots.len(),
            |j: int|
                if j < n {
                    look_slot(w.slots[j], fov[j])
                } else {
                    w.slots[j]
                },
        ),
        map: map_seen(w, fov, n),
        ..w
    }
}

/// The world after every entity has looked around, entity `i` seeing
/// `fov[i]`.
pub open spec fn looked(w: WorldModel, fov: Seq<Seq<Point>>) -> WorldModel {
    looked_upto(w, fov, w.slots.len() as int)
}

/// The points of each list.
pub open spec fn views(fov: &Vec<Vec<Point>>) -> Seq<Seq<Point>> {
    Seq::new(fov@.len(), |i: int| fov@[i]@)
}

/// Looking around never hides a tile that was revealed, and changes nothing
/// of the map but what is visible and revealed.
pub proof fn lemma_map_seen_keeps(w: WorldModel, fov: Seq<Seq<Point>>, n: int)
    requires
        w.map.wf(),
    ensures
        map_seen(w, fov, n) == (MapModel {
            visible: map_seen(w, fov, n).visible,
            revealed: map_seen(w, fov, n).revealed,
            ..w.map
        }),
        map_seen(w, fov, n).revealed.len() == w.map.revealed.len(),
        map_seen(w, fov, n).visible.len() == w.map.visible.len(),
        forall|t: int|
            0 <= t < w.map.revealed.len() && w.map.revealed[t] ==> map_seen(w, fov, n).revealed[t],
    decreases n,
{
    if n > 0 {
        lemma_map_seen_keeps(w, fov, n - 1);
    }
}

fn copy_points(points: &Vec<Point>) -> (copy: Vec<Point>)
    ensures
        copy@ == points@,
{
    let mut copy: Vec<Point> = Vec::new();
    let mut k: usize = 0;
    while k < points.len()
        invariant
            k <= points@.len(),
            copy@ == points@.take(k as int),
        decreases points@.len() - k,
    {
        copy.push(points[k]);
        k += 1;
    }
    copy
}

impl GameMap {
    /// Makes exactly the tiles of `seen` visible, and reveals them.
    pub fn show(&mut self, seen: &Vec<Point>)
        requires
            old(self).wf(),
        ensures
            final(self).wf(),
            final(self)@ == shown(old(self)@, seen@),
    {
        let ghost before = self@;
        let n: usize = self.visible_tiles.len();
        let mut t: usize = 0;
        while t < n
            invariant
                t <= n,
                n == before.visible.len(),
                n == self.visible_tiles@.len(),
                before.wf(),
                self.wf(),
                self@ == (MapModel { visible: self@.visible, ..before }),
                forall|j: int| 0 <= j < t ==> !self.visible_tiles@[j],
            decreases n - t,
        {
            self.visible_tiles[t] = false;
            t += 1;
        }
        let m: usize = seen.len();
        let mut k: usize = 0;
        while k < m
            invariant
                k <= m,
                m == seen@.len(),
                n == before.visible.len(),
                n == before.revealed.len(),
                n == self.visible_tiles@.len(),
                n == self.revealed_tiles@.len(),
                before.wf(),
                self.wf(),
                self@ == (MapModel { visible: self@.visible, revealed: self@.revealed, ..before }),
                forall|j: int|
                    0 <= j < n ==> self@.visible[j] == #[trigger] lit(before, seen@, j, k as int),
                forall|j: int|
                    0 <= j < n ==> #[trigger] self.revealed_tiles@[j] == (before.revealed[j]
                        || self.visible_tiles@[j]),
            decreases m - k,
        {
            let pt: Point = seen[k];
            let ghost visible_before = self@.visible;
            let ghost mut hit: int = -1;
            if self.in_bounds(pt) {
                proof {
                    lemma_tile_index_bounds(
                        before.width,
                        before.height,
                        pt.x as int,
                        pt.y as int,
                    );
                    hit = tile_index(before.width, pt.x as int, pt.y as int);
                }
                let idx: usize = self.xy_idx(pt.x, pt.y);
                self.revealed_tiles[idx] = true;
                self.visible_tiles[idx] = true;
            }
            proof {
                assert forall|j: int| 0 <= j < n implies self@.visible[j] == lit(
                    before,
                    seen@,
                    j,
                    k + 1,
                ) by {
                    assert(visible_before[j] == lit(before, seen@, j, k as int));
                }
            }
            k += 1;
        }
        proof {
            assert(self@.visible =~= shown(before, seen@).visible);
            assert(self@.revealed =~= shown(before, seen@).revealed);
        }
    }
}

impl World {
    /// Makes exactly the tiles of `seen` visible on the map, and reveals
    /// them.
    pub fn show(&mut self, seen: &Vec<Point>)
        requires
            old(self).wf(),
        ensures
            final(self).wf(),
            final(self)@ == (WorldModel { map: shown(old(self)@.map, seen@), ..old(self)@ }),
    {
        self.map.show(seen);
    }
}

impl VisibilitySystem {
    /// From where and how far the entity in slot `i` looks, if it looks
    /// around at all.
    pub fn origin(world: &World, i: usize) -> (r: Option<(Point, i32)>)
        requires
            i < world@.slots.len(),
        ensures
            r is Some == sighted(world@.slots[i as int]),
            r matches Some(o) ==> Some(o.0) == world@.slots[i as int].position && o.1
                == world@.slots[i as int].viewshed.unwrap().range,
    {
        match (world.position_at(i), world.sight_range_at(i)) {
            (Some(pt), Some(range)) => Some((pt, range)),
            _ => None,
        }
    }

    /// Gives every entity that looks around its new field of view, `fov[i]`
    /// for the entity in slot `i`, and clears its call for one. For a player
    /// the map is updated too: exactly what it sees is visible, and it is
    /// revealed for good.
    pub fn run(world: &mut World, fov: &Vec<Vec<Point>>)
        requires
            old(world).wf(),
            fov@.len() == old(world)@.slots.len(),
        ensures
            final(world).wf(),
            final(world)@ == looked(old(world)@, views(fov)),
    {
        let ghost before = world@;
        let n: usize = world.len();
        let mut i: usize = 0;
        assert(world@.slots =~= looked_upto(before, views(fov), 0).slots);
        while i < n
            invariant
                i <= n,
                n == before.slots.len(),
                n == fov@.len(),
                before.wf(),
                world.wf(),
                world@ == looked_upto(before, views(fov), i as int),
            decreases n - i,
        {
            match VisibilitySystem::origin(world, i) {
                Some(o) => {
                    let seen: Vec<Point> = copy_points(&fov[i]);
                    world.set_viewshed(i, seen, o.1, false);
                    if world.is_player(i) {
                        world.show(&fov[i]);
                    }
                },
                None => {},
            }
            proof {
                let wanted = looked_upto(before, views(fov), i + 1);
                assert(world@.slots =~= wanted.slots);
            }
            i += 1;
        }
    }
}

} // verus!
