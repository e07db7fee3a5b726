//! Turn-based simulation core of a roguelike dungeon crawl.
//!
//! The crate covers the data that makes up a dungeon run — tiles and maps,
//! entities with their combat, equipment and AI components, a bounded
//! publish/subscribe event bus — together with the combat and progression
//! engine, the per-turn AI decision machine and the procedural level
//! generator.  Rendering, input decoding, audio playback and persistence are
//! collaborators outside of this crate: they exchange plain values with it.

pub mod actions;
pub mod ai;
pub mod camera;
pub mod color;
pub mod engine;
pub mod entity;
pub mod equipment;
pub mod event;
pub mod fighter;
pub mod fmt;
pub mod item;
pub mod mapgen;
pub mod messages;
pub mod namegen;
pub mod processors;
mod rng;
pub mod setup;
pub mod string_splitter;
mod strutil;
pub mod tile;
pub mod transition;
pub mod util;
pub mod visibility;
