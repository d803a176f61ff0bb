//! Per-tick rules of a small arena combat simulation: collider classification,
//! unit state, contact resolution, bullet lifetimes, NPC decisions and the
//! battle spawn queue. Physics, rendering and input live outside this crate and
//! talk to it through plain values.

pub mod object;
pub mod battle;
pub mod unit;
pub mod contact;
pub mod npc;
pub mod bullet;
pub mod player;
pub mod map;
