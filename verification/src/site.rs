//! Sites and what is in them.

use vstd::prelude::*;
use crate::ship::{Cargo, LayoutId, ModuleId, ShipFitting, ShipStatus};

verus! {

/// Identifies a player.
pub type Player = u64;

/// Identifies a solarsystem in the static data.
pub type SolarsystemId = u8;

/// Identifies a kind of lifeless thing, such as an asteroid.
pub type LifelessId = u8;

/// What a facility offers to a player.
#[derive(Debug, Clone, Copy, PartialEq, Eq, Structural)]
pub enum Service {
    Dock,
    Jump,
}

#[derive(Debug, Clone, Copy, PartialEq, Eq, Structural, Hash)]
pub enum FacilityIdentifier {
    Stargate,
    Station,
}

#[derive(Debug, Clone, Copy, PartialEq, Eq, Structural)]
pub enum SiteKind {
    Facility(FacilityIdentifier),
    AsteroidField,
}

/// Identifies a site within its solarsystem.
///
/// `unique` tells sites of one kind apart: for a station it is the number of
/// the station, for a stargate the solarsystem on its other side.
#[derive(Debug, Clone, Copy, PartialEq, Eq, Structural)]
pub struct SiteInfo {
    pub kind: SiteKind,
    pub unique: u8,
}

#[derive(Debug, Clone, Copy, PartialEq, Eq, Structural)]
pub enum NpcFaction {
    Guards,
    Pirates,
}

/// A station or stargate service point. It is immune and immortal.
#[derive(Debug, Clone, Copy, PartialEq, Eq, Structural)]
pub struct SiteEntityFacility {
    pub id: FacilityIdentifier,
}

/// A lifeless thing such as an asteroid: it can be shot and mined.
#[derive(Debug, Clone, Copy, PartialEq, Eq, Structural)]
pub struct SiteEntityLifeless {
    pub id: LifelessId,
    pub status: ShipStatus,
    pub remaining_ore: u16,
}

/// A ship that the game controls. It owns its whole state.
#[derive(Debug, Clone, PartialEq, Eq)]
pub struct SiteEntityNpc {
    pub faction: NpcFaction,
    pub fitting: ShipFitting,
    pub status: ShipStatus,
    pub cargo: Cargo,
}

/// A player in the site. The ship of the player is kept outside the entity
/// list, in a map by player.
#[derive(Debug, Clone, Copy, PartialEq, Eq, Structural)]
pub struct SiteEntityPlayer {
    pub id: Player,
}

#[derive(Debug, Clone, PartialEq, Eq)]
pub enum SiteEntity {
    Facility(SiteEntityFacility),
    Lifeless(SiteEntityLifeless),
    Npc(SiteEntityNpc),
    Player(SiteEntityPlayer),
}

/// Everything that is in a site.
#[derive(Debug, Clone, PartialEq, Eq)]
pub struct SiteInternals {
    pub entities: Vec<SiteEntity>,
}

/// Who took part in a logged event.
#[derive(Debug, Clone, Copy, PartialEq, Eq, Structural)]
pub enum SiteLogActor {
    Facility(FacilityIdentifier),
    Lifeless(LifelessId),
    Npc(NpcFaction, LayoutId),
    Player(Player, LayoutId),
}

/// Something that happened in a site during a round and that others can see.
#[derive(Debug, Clone, Copy, PartialEq, Eq, Structural)]
pub enum SiteLog {
    ModuleTargeted(SiteLogActor, ModuleId, SiteLogActor),
    WarpIn(SiteLogActor),
    WarpOut(SiteLogActor),
    Dock(SiteLogActor),
    Jump(SiteLogActor),
    RapidUnscheduledDisassembly(SiteLogActor),
    Collapse(SiteLogActor),
}

} // verus!
