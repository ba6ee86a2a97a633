//! The facility handler: docking at a station and jumping through a stargate.

use vstd::prelude::*;
use std::collections::HashMap;
use crate::location::{PlayerAtStation, PlayerInSpace, PlayerLocation};
use crate::round::entities::{remove_player, without_player};
use crate::round::state::{RoundState, SiteState};
use crate::ship::Ship;
use crate::site::{
    FacilityIdentifier, Player, SiteEntity, SiteInfo, SiteKind, SiteLog, SiteLogActor,
    SolarsystemId,
};

verus! {

broadcast use vstd::std_specs::hash::group_hash_axioms;

impl RoundState {
    /// How the log names the player.
    pub open spec fn log_name_of_player(self, player: Player) -> SiteLogActor {
        SiteLogActor::Player(player, self.site.ships[player].fitting.layout)
    }

    /// The round after the player has left the site for `location`, with
    /// `entry` logged. The ship stays with the player.
    pub open spec fn left(self, player: Player, location: PlayerLocation, entry: SiteLog)
        -> RoundState {
        RoundState {
            site: SiteState {
                entities: without_player(self.site.entities, player),
                ships: self.site.ships,
            },
            locations: self.locations.insert(player, location),
            log: self.log.push(entry),
        }
    }

    /// The round after the player asked to dock. Only a ship that is alive
    /// docks.
    pub open spec fn docked(self, solarsystem: SolarsystemId, player: Player) -> RoundState {
        if self.site.ships[player].status.alive() {
            self.left(
                player,
                PlayerLocation::Station(PlayerAtStation { solarsystem, station: 0 }),
                SiteLog::Dock(self.log_name_of_player(player)),
            )
        } else {
            self
        }
    }

    /// The round after the player asked to jump. Only a ship that is alive
    /// jumps, and only where the site is a stargate. The player is then on the
    /// way to the stargate that leads back, in the solarsystem on the other
    /// side.
    pub open spec fn jumped(
        self,
        origin_solarsystem: SolarsystemId,
        origin_site: SiteInfo,
        player: Player,
    ) -> RoundState {
        if origin_site.kind == SiteKind::Facility(FacilityIdentifier::Stargate)
            && self.site.ships[player].status.alive() {
            self.left(
                player,
                PlayerLocation::Space(
                    PlayerInSpace {
                        solarsystem: origin_site.unique,
                        towards: SiteInfo {
                            kind: SiteKind::Facility(FacilityIdentifier::Stargate),
                            unique: origin_solarsystem,
                        },
                    },
                ),
                SiteLog::Jump(self.log_name_of_player(player)),
            )
        } else {
            self
        }
    }
}

/// Lets the player jump through the stargate of the site.
pub fn jump(
    origin_solarsystem: SolarsystemId,
    origin_site: SiteInfo,
    site_entities: &mut Vec<SiteEntity>,
    player_locations: &mut HashMap<Player, PlayerLocation>,
    player_ships: &mut HashMap<Player, Ship>,
    player: Player,
    site_log: &mut Vec<SiteLog>,
)
    requires
        old(player_ships)@.contains_key(player),
    ensures
        (RoundState {
            site: SiteState { entities: final(site_entities)@, ships: final(player_ships)@ },
            locations: final(player_locations)@,
            log: final(site_log)@,
        }) == (RoundState {
            site: SiteState { entities: old(site_entities)@, ships: old(player_ships)@ },
            locations: old(player_locations)@,
            log: old(site_log)@,
        }).jumped(origin_solarsystem, origin_site, player),
{
    if let SiteKind::Facility(FacilityIdentifier::Stargate) = origin_site.kind {
        let target_solarsystem = origin_site.unique;
        let ship = player_ships.get(&player).unwrap();
        if ship.status.is_alive() {
            let layout = ship.fitting.layout;
            remove_player(site_entities, player);
            player_locations.insert(
                player,
                PlayerLocation::Space(
                    PlayerInSpace {
                        solarsystem: target_solarsystem,
                        towards: SiteInfo {
                            kind: SiteKind::Facility(FacilityIdentifier::Stargate),
                            unique: origin_solarsystem,
                        },
                    },
                ),
            );
            site_log.push(SiteLog::Jump(SiteLogActor::Player(player, layout)));
        }
    }
}

/// Lets the player dock at the station of the site.
pub fn dock(
    solarsystem: SolarsystemId,
    _site: SiteInfo,
    site_entities: &mut Vec<SiteEntity>,
    player_locations: &mut HashMap<Player, PlayerLocation>,
    player_ships: &mut HashMap<Player, Ship>,
    player: Player,
    site_log: &mut Vec<SiteLog>,
)
    requires
        old(player_ships)@.contains_key(player),
    ensures
        (RoundState {
            site: SiteState { entities: final(site_entities)@, ships: final(player_ships)@ },
            locations: final(player_locations)@,
            log: final(site_log)@,
        }) == (RoundState {
            site: SiteState { entities: old(site_entities)@, ships: old(player_ships)@ },
            locations: old(player_locations)@,
            log: old(site_log)@,
        }).docked(solarsystem, player),
{
    let ship = player_ships.get(&player).unwrap();
    if ship.status.is_alive() {
        let layout = ship.fitting.layout;
        remove_player(site_entities, player);
        player_locations.insert(
            player,
            PlayerLocation::Station(PlayerAtStation { solarsystem, station: 0 }),
        );
        site_log.push(SiteLog::Dock(SiteLogActor::Player(player, layout)));
    }
}

} // verus!
