//! The warp handler: players leaving the site for another one, and players
//! arriving.

use vstd::prelude::*;
use std::collections::HashMap;
use crate::location::{PlayerInSite, PlayerInSpace, PlayerLocation};
use crate::round::entities::remove_player;
use crate::round::state::{RoundState, SiteState};
use crate::ship::Ship;
use crate::site::{
    Player, SiteEntity, SiteEntityPlayer, SiteInfo, SiteLog, SiteLogActor, SolarsystemId,
};

verus! {

broadcast use vstd::std_specs::hash::group_hash_axioms;

impl RoundState {
    /// The round after the player asked to warp to another site. Only a ship
    /// that is alive warps.
    pub open spec fn warped_out(self, solarsystem: SolarsystemId, player: Player, towards: SiteInfo)
        -> RoundState {
        if self.site.ships[player].status.alive() {
            self.left(
                player,
                PlayerLocation::Space(PlayerInSpace { solarsystem, towards }),
                SiteLog::WarpOut(self.log_name_of_player(player)),
            )
        } else {
            self
        }
    }

    /// The round after the player arrived in the site: it stands behind all
    /// entities, its location is the site, and its arrival is logged.
    pub open spec fn arrived(self, solarsystem: SolarsystemId, site: SiteInfo, player: Player)
        -> RoundState {
        RoundState {
            site: SiteState {
                entities: self.site.entities.push(
                    SiteEntity::Player(SiteEntityPlayer { id: player }),
                ),
                ships: self.site.ships,
            },
            locations: self.locations.insert(
                player,
                PlayerLocation::Site(PlayerInSite { solarsystem, site }),
            ),
            log: self.log.push(SiteLog::WarpIn(self.log_name_of_player(player))),
        }
    }

    /// The round after the players arrived in the site, one after the other.
    pub open spec fn warped_in(self, solarsystem: SolarsystemId, site: SiteInfo, players: Seq<Player>)
        -> RoundState
        decreases players.len(),
    {
        if players.len() == 0 {
            self
        } else {
            self.warped_in(solarsystem, site, players.drop_last()).arrived(
                solarsystem,
                site,
                players.last(),
            )
        }
    }
}

/// Lets the player warp out of the site towards another one.
pub fn out(
    solarsystem: SolarsystemId,
    site_entities: &mut Vec<SiteEntity>,
    player_locations: &mut HashMap<Player, PlayerLocation>,
    player_ships: &mut HashMap<Player, Ship>,
    player: Player,
    towards: SiteInfo,
    site_log: &mut Vec<SiteLog>,
)
    requires
        old(player_ships)@.contains_key(player),
    ensures
        (RoundState {
            site: SiteState { entities: final(site_entities)@, ships: final(player_ships)@ },
            locations: final(player_locations)@,
            log: final(site_log)@,
        }) == (RoundState {
            site: SiteState { entities: old(site_entities)@, ships: old(player_ships)@ },
            locations: old(player_locations)@,
            log: old(site_log)@,
        }).warped_out(solarsystem, player, towards),
{
    let ship = player_ships.get(&player).unwrap();
    if ship.status.is_alive() {
        let layout = ship.fitting.layout;
        remove_player(site_entities, player);
        player_locations.insert(
            player,
            PlayerLocation::Space(PlayerInSpace { solarsystem, towards }),
        );
        site_log.push(SiteLog::WarpOut(SiteLogActor::Player(player, layout)));
    }
}

/// Adds the players that were on their way to the site to the site.
pub fn in_site(
    solarsystem: SolarsystemId,
    site: SiteInfo,
    site_entities: &mut Vec<SiteEntity>,
    player_locations: &mut HashMap<Player, PlayerLocation>,
    player_ships: &mut HashMap<Player, Ship>,
    players_warping_in: &[Player],
    site_log: &mut Vec<SiteLog>,
)
    requires
        forall|i: int|
            0 <= i < players_warping_in@.len() ==> old(player_ships)@.contains_key(
                #[trigger] players_warping_in@[i],
            ),
    ensures
        (RoundState {
            site: SiteState { entities: final(site_entities)@, ships: final(player_ships)@ },
            locations: final(player_locations)@,
            log: final(site_log)@,
        }) == (RoundState {
            site: SiteState { entities: old(site_entities)@, ships: old(player_ships)@ },
            locations: old(player_locations)@,
            log: old(site_log)@,
        }).warped_in(solarsystem, site, players_warping_in@),
        final(player_ships)@ == old(player_ships)@,
{
    let ghost before = RoundState {
        site: SiteState { entities: site_entities@, ships: player_ships@ },
        locations: player_locations@,
        log: site_log@,
    };
    let mut i: usize = 0;
    while i < players_warping_in.len()
        invariant
            i <= players_warping_in@.len(),
            player_ships@ == before.site.ships,
            forall|j: int|
                0 <= j < players_warping_in@.len() ==> player_ships@.contains_key(
                    #[trigger] players_warping_in@[j],
                ),
            (RoundState {
                site: SiteState { entities: site_entities@, ships: player_ships@ },
                locations: player_locations@,
                log: site_log@,
            }) == before.warped_in(solarsystem, site, players_warping_in@.take(i as int)),
        decreases players_warping_in@.len() - i,
    {
        proof {
            assert(players_warping_in@.take(i + 1).drop_last() =~= players_warping_in@.take(
                i as int,
            ));
        }
        let player = players_warping_in[i];
        let ship = player_ships.get(&player).unwrap();
        let layout = ship.fitting.layout;
        site_entities.push(SiteEntity::Player(SiteEntityPlayer { id: player }));
        player_locations.insert(player, PlayerLocation::Site(PlayerInSite { solarsystem, site }));
        site_log.push(SiteLog::WarpIn(SiteLogActor::Player(player, layout)));
        i += 1;
    }
    proof {
        assert(players_warping_in@.take(i as int) =~= players_warping_in@);
    }
}

} // verus!
