//! The components an entity may carry.

use vstd::prelude::*;
use crate::geometry::Point;

verus! {

/// A handle to an entity: the index of its slot in the store and the
/// generation of that slot at the time the entity was created.
#[derive(Clone, Copy, Debug, PartialEq, Eq, Structural)]
pub struct Entity {
    pub index: usize,
    pub generation: u32,
}

#[derive(Clone, Copy, Debug, PartialEq, Eq, Structural)]
pub struct Position {
    pub pt: Point,
}

/// A colour as red, green and blue.
#[derive(Clone, Copy, Debug, PartialEq, Eq, Structural)]
pub struct Color {
    pub r: u8,
    pub g: u8,
    pub b: u8,
}

/// How an entity is drawn: a code-page-437 glyph and two colours.
#[derive(Clone, Copy, Debug, PartialEq, Eq, Structural)]
pub struct Renderable {
    pub glyph: u16,
    pub fg: Color,
    pub bg: Color,
}

pub struct Name {
    pub name: String,
}

#[derive(Clone, Copy, Debug, PartialEq, Eq, Structural)]
pub struct Player {}

#[derive(Clone, Copy, Debug, PartialEq, Eq, Structural)]
pub struct Monster {}

#[derive(Clone, Copy, Debug, PartialEq, Eq, Structural)]
pub struct Item {}

#[derive(Clone, Copy, Debug, PartialEq, Eq, Structural)]
pub struct Potion {}

#[derive(Clone, Copy, Debug, PartialEq, Eq, Structural)]
pub struct BlocksTile {}

#[derive(Clone, Copy, Debug, PartialEq, Eq, Structural)]
pub struct BlocksSight {}

#[derive(Clone, Copy, Debug, PartialEq, Eq, Structural)]
pub struct CombatStats {
    pub max_hp: i32,
    pub cur_hp: i32,
    pub atk: i32,
    pub def: i32,
}

/// The wish to attack `target` this turn.
#[derive(Clone, Copy, Debug, PartialEq, Eq, Structural)]
pub struct MeleeMessage {
    pub target: Entity,
}

/// Damage gathered against an entity this turn.
#[derive(Clone, Copy, Debug, PartialEq, Eq, Structural)]
pub struct DamageMessage {
    pub val: i32,
}

pub struct Viewshed {
    pub visible_tiles: Vec<Point>,
    pub range: i32,
    pub dirty: bool,
}

/// What a `Viewshed` holds, as plain values.
pub struct ViewshedModel {
    pub visible_tiles: Seq<Point>,
    pub range: i32,
    pub dirty: bool,
}

impl View for Viewshed {
    type V = ViewshedModel;

    open spec fn view(&self) -> ViewshedModel {
        ViewshedModel { visible_tiles: self.visible_tiles@, range: self.range, dirty: self.dirty }
    }
}

#[derive(Clone, Copy, Debug, PartialEq, Eq, Structural)]
pub struct InBackpack {
    pub owner: Entity,
}

/// The wish of `collected_by` to pick up `item`.
#[derive(Clone, Copy, Debug, PartialEq, Eq, Structural)]
pub struct ItemPickupMessage {
    pub collected_by: Entity,
    pub item: Entity,
}

} // verus!
