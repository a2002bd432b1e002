//! Turn-based dungeon-crawler simulation core: a dungeon map, a store of
//! entities and their components, and the systems that resolve one turn.

pub mod combat_syst;
pub mod components;
pub mod damage_syst;
pub mod entity_spawn;
pub mod game_log;
pub mod geometry;
pub mod inventory_syst;
pub mod laws;
pub mod map;
pub mod mapgen;
pub mod mapindex_syst;
pub mod monster_syst;
pub mod player;
pub mod rng;
pub mod state;
pub mod text;
pub mod visibility_syst;
pub mod world;
