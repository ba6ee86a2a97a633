//! The mathematical model of what a round works on.

use vstd::prelude::*;
use crate::location::PlayerLocation;
use crate::round::instructions::Actor;
use crate::ship::{Cargo, Ship, ShipFitting, ShipStatus};
use crate::site::{Player, SiteEntity, SiteEntityNpc, SiteLog, SiteLogActor};

verus! {

/// The entities of a site together with the ships of the players.
pub struct SiteState {
    pub entities: Seq<SiteEntity>,
    pub ships: Map<Player, Ship>,
}

/// A site after something happened in it, and what was logged of it.
pub struct Outcome {
    pub site: SiteState,
    pub log: Seq<SiteLog>,
}

/// Everything that a round changes.
pub struct RoundState {
    pub site: SiteState,
    pub locations: Map<Player, PlayerLocation>,
    pub log: Seq<SiteLog>,
}

/// The entity with another status. A facility has none and stays as it is; so
/// does a player, whose status is kept with the ship.
pub open spec fn entity_with_status(entity: SiteEntity, status: ShipStatus) -> SiteEntity {
    match entity {
        SiteEntity::Npc(npc) => SiteEntity::Npc(SiteEntityNpc { status, ..npc }),
        other => other,
    }
}

/// The entity with another cargo, where it is an NPC.
pub open spec fn entity_with_cargo(entity: SiteEntity, cargo: Cargo) -> SiteEntity {
    match entity {
        SiteEntity::Npc(npc) => SiteEntity::Npc(SiteEntityNpc { cargo, ..npc }),
        other => other,
    }
}

impl SiteState {
    /// Every player that is in the site has a ship.
    pub open spec fn players_known(self) -> bool {
        forall|i: int|
            0 <= i < self.entities.len() ==> (#[trigger] self.entities[i] matches SiteEntity::Player(
                player,
            ) ==> self.ships.contains_key(player.id))
    }

    /// The actor can be found: a player has a ship, the index of an NPC leads
    /// to an NPC.
    pub open spec fn knows(self, actor: Actor) -> bool {
        match actor {
            Actor::Player(player) => self.ships.contains_key(player),
            Actor::Npc(index) => index < self.entities.len() && self.entities[index as int] is Npc,
        }
    }

    pub open spec fn fitting_of(self, actor: Actor) -> ShipFitting {
        match actor {
            Actor::Player(player) => self.ships[player].fitting,
            Actor::Npc(index) => self.entities[index as int]->Npc_0.fitting,
        }
    }

    pub open spec fn status_of(self, actor: Actor) -> ShipStatus {
        match actor {
            Actor::Player(player) => self.ships[player].status,
            Actor::Npc(index) => self.entities[index as int]->Npc_0.status,
        }
    }

    pub open spec fn cargo_of(self, actor: Actor) -> Cargo {
        match actor {
            Actor::Player(player) => self.ships[player].cargo,
            Actor::Npc(index) => self.entities[index as int]->Npc_0.cargo,
        }
    }

    /// How the log names the actor.
    pub open spec fn log_name_of(self, actor: Actor) -> SiteLogActor {
        match actor {
            Actor::Player(player) => SiteLogActor::Player(player, self.ships[player].fitting.layout),
            Actor::Npc(index) => SiteLogActor::Npc(
                self.entities[index as int]->Npc_0.faction,
                self.entities[index as int]->Npc_0.fitting.layout,
            ),
        }
    }

    /// How the log names an entity of the site.
    pub open spec fn log_name_of_entity(self, entity: SiteEntity) -> SiteLogActor {
        match entity {
            SiteEntity::Facility(facility) => SiteLogActor::Facility(facility.id),
            SiteEntity::Lifeless(lifeless) => SiteLogActor::Lifeless(lifeless.id),
            SiteEntity::Npc(npc) => SiteLogActor::Npc(npc.faction, npc.fitting.layout),
            SiteEntity::Player(player) => SiteLogActor::Player(
                player.id,
                self.ships[player.id].fitting.layout,
            ),
        }
    }

    /// The site where the actor has another status and all else is as before.
    pub open spec fn with_status_of(self, actor: Actor, status: ShipStatus) -> SiteState {
        match actor {
            Actor::Player(player) => SiteState {
                ships: self.ships.insert(player, Ship { status, ..self.ships[player] }),
                ..self
            },
            Actor::Npc(index) => SiteState {
                entities: self.entities.update(
                    index as int,
                    entity_with_status(self.entities[index as int], status),
                ),
                ..self
            },
        }
    }

    /// The site where the actor has another cargo and all else is as before.
    pub open spec fn with_cargo_of(self, actor: Actor, cargo: Cargo) -> SiteState {
        match actor {
            Actor::Player(player) => SiteState {
                ships: self.ships.insert(player, Ship { cargo, ..self.ships[player] }),
                ..self
            },
            Actor::Npc(index) => SiteState {
                entities: self.entities.update(
                    index as int,
                    entity_with_cargo(self.entities[index as int], cargo),
                ),
                ..self
            },
        }
    }
}

} // verus!
