//! Per-site, per-round resolution engine of a multiplayer space game.
//!
//! A round takes the entities of one site together with the instructions that
//! players and NPCs issued, resolves them in a fixed order and hands back the
//! surviving entities, the changed player ships and locations and a log of what
//! happened.

pub mod gameloop;
pub mod instruction;
pub mod location;
pub mod persist;
pub mod round;
pub mod ship;
pub mod site;
pub mod statics;
