//! Every player is somewhere that exists, and where a player is said to be in
//! a site, the site knows of it.

use vstd::prelude::*;
use crate::location::{PlayerInSpace, PlayerLocation};
use crate::persist::player::default_location;
use crate::persist::Persist;
use crate::persist::site::{kept_in, Sites};
use crate::round::entities::{is_player, player_pos};
use crate::round::instructions::enumerates;
use crate::site::{Player, SiteInfo, SiteKind, SolarsystemId};
use crate::statics::Statics;

verus! {

/// The first station or stargate of the solarsystem in the list of all sites.
pub open spec fn first_safe(all_sites: Seq<(SolarsystemId, SiteInfo)>, solarsystem: SolarsystemId)
    -> Option<SiteInfo>
    decreases all_sites.len(),
{
    if all_sites.len() == 0 {
        None
    } else if all_sites[0].0 == solarsystem && all_sites[0].1.kind is Facility {
        Some(all_sites[0].1)
    } else {
        first_safe(all_sites.drop_first(), solarsystem)
    }
}

/// Where a player goes whose location does not exist: on the way to the first
/// station or stargate of its solarsystem. Where the solarsystem has neither,
/// it is where a player is that nothing is known of.
pub open spec fn rescued(all_sites: Seq<(SolarsystemId, SiteInfo)>, solarsystem: SolarsystemId)
    -> PlayerLocation {
    match first_safe(all_sites, solarsystem) {
        Some(towards) => PlayerLocation::Space(PlayerInSpace { solarsystem, towards }),
        None => default_location(),
    }
}

/// Where the player is once its location is ensured.
///
/// A station always exists. A player on the way to a site that is listed
/// stays on its way; so does a player in a listed site that knows of it. A
/// player in a listed site that does not know of it is where a player is that
/// nothing is known of. A player in a site, or on the way to a site, that is
/// not listed is rescued.
pub open spec fn ensured_location(
    sites: Sites,
    all_sites: Seq<(SolarsystemId, SiteInfo)>,
    player: Player,
    location: PlayerLocation,
) -> PlayerLocation {
    match location {
        PlayerLocation::Station(_) => location,
        PlayerLocation::Space(space) => if all_sites.contains((space.solarsystem, space.towards)) {
            location
        } else {
            rescued(all_sites, space.solarsystem)
        },
        PlayerLocation::Site(here) => if all_sites.contains((here.solarsystem, here.site)) {
            if exists|i: int|
                0 <= i < kept_in(sites, here.solarsystem, here.site).len() && is_player(
                    #[trigger] kept_in(sites, here.solarsystem, here.site)[i],
                    player,
                ) {
                location
            } else {
                default_location()
            }
        } else {
            rescued(all_sites, here.solarsystem)
        },
    }
}

fn is_listed(all_sites: &Vec<(SolarsystemId, SiteInfo)>, solarsystem: SolarsystemId, site: SiteInfo) -> (listed:
    bool)
    ensures
        listed == all_sites@.contains((solarsystem, site)),
{
    let mut i: usize = 0;
    while i < all_sites.len()
        invariant
            i <= all_sites@.len(),
            forall|j: int| 0 <= j < i ==> all_sites@[j] != (solarsystem, site),
        decreases all_sites@.len() - i,
    {
        if all_sites[i].0 == solarsystem && all_sites[i].1 == site {
            return true;
        }
        i += 1;
    }
    false
}

fn find_first_safe(all_sites: &Vec<(SolarsystemId, SiteInfo)>, solarsystem: SolarsystemId) -> (found:
    Option<SiteInfo>)
    ensures
        found == first_safe(all_sites@, solarsystem),
{
    let mut i: usize = 0;
    proof {
        assert(all_sites@.skip(0) =~= all_sites@);
    }
    while i < all_sites.len()
        invariant
            i <= all_sites@.len(),
            first_safe(all_sites@, solarsystem) == first_safe(all_sites@.skip(i as int), solarsystem),
        decreases all_sites@.len() - i,
    {
        proof {
            assert(all_sites@.skip(i as int).drop_first() =~= all_sites@.skip(i + 1));
        }
        if all_sites[i].0 == solarsystem {
            if let SiteKind::Facility(_) = all_sites[i].1.kind {
                return Some(all_sites[i].1);
            }
        }
        i += 1;
    }
    None
}

/// Where the player is once its location is ensured.
pub fn ensure_location(
    sites: &Sites,
    all_sites: &Vec<(SolarsystemId, SiteInfo)>,
    player: Player,
    location: PlayerLocation,
) -> (ensured: PlayerLocation)
    ensures
        ensured == ensured_location(*sites, all_sites@, player, location),
{
    let (exists, solarsystem) = match location {
        PlayerLocation::Station(_) => {
            return location;
        },
        PlayerLocation::Space(space) => (
            is_listed(all_sites, space.solarsystem, space.towards),
            space.solarsystem,
        ),
        PlayerLocation::Site(here) => {
            if is_listed(all_sites, here.solarsystem, here.site) {
                let ghost kept = kept_in(*sites, here.solarsystem, here.site);
                let site_knows = match sites.read_entities(here.solarsystem, here.site) {
                    Ok(entities) => {
                        let found = player_pos(entities.as_slice(), player);
                        proof {
                            assert(kept == entities@);
                            if let Some(index) = found {
                                assert(is_player(kept[index as int], player));
                            }
                        }
                        found.is_some()
                    },
                    Err(_) => false,
                };
                proof {
                    assert(site_knows == exists|i: int|
                        0 <= i < kept.len() && is_player(#[trigger] kept[i], player));
                }
                if !site_knows {
                    return PlayerLocation::default();
                }
                (true, here.solarsystem)
            } else {
                (false, here.solarsystem)
            }
        },
    };
    if exists {
        location
    } else {
        match find_first_safe(all_sites, solarsystem) {
            Some(towards) => PlayerLocation::Space(PlayerInSpace { solarsystem, towards }),
            None => PlayerLocation::default(),
        }
    }
}

/// Ensures the location of every player: afterwards every player is at a
/// station, or in a listed site that knows of it, or on the way to a listed
/// site. Nothing else is changed.
pub fn ensure_player_locations(statics: &Statics, persist: &mut Persist)
    requires
        old(persist).wf(),
        forall|solarsystem: SolarsystemId|
            solarsystem < statics.solarsystems@.len() ==> old(persist).sites.sites_of(solarsystem)
                is Some,
    ensures
        final(persist).wf(),
        forall|player: Player| #[trigger]
            final(persist).player_locations.location_of(player) == ensured_location(
                old(persist).sites,
                old(persist).sites.everywhere(
                    if statics.solarsystems@.len() <= 256 {
                        statics.solarsystems@.len() as int
                    } else {
                        256
                    },
                ),
                player,
                old(persist).player_locations.location_of(player),
            ),
        final(persist).player_generals == old(persist).player_generals,
        final(persist).player_notifications == old(persist).player_notifications,
        final(persist).player_site_instructions == old(persist).player_site_instructions,
        final(persist).player_ships == old(persist).player_ships,
        final(persist).sites == old(persist).sites,
        final(persist).warping == old(persist).warping,
{
    let all_sites = persist.sites.read_sites_everywhere(statics.solarsystems.len());
    let player_locations = persist.player_locations.read_all();
    let ghost before = persist.player_locations;
    let ghost players = player_locations@.map_values(|entry: (Player, PlayerLocation)| entry.0);
    let mut i: usize = 0;
    while i < player_locations.len()
        invariant
            i <= player_locations@.len(),
            persist.wf(),
            before == old(persist).player_locations,
            players == player_locations@.map_values(|entry: (Player, PlayerLocation)| entry.0),
            enumerates(players, before@.dom()),
            forall|j: int|
                0 <= j < player_locations@.len() ==> (#[trigger] player_locations@[j]).1
                    == before@[player_locations@[j].0],
            forall|player: Player| #[trigger]
                persist.player_locations.location_of(player) == if players.take(i as int).contains(
                    player,
                ) {
                    ensured_location(
                        persist.sites,
                        all_sites@,
                        player,
                        before.location_of(player),
                    )
                } else {
                    before.location_of(player)
                },
            persist.player_generals == old(persist).player_generals,
            persist.player_notifications == old(persist).player_notifications,
            persist.player_site_instructions == old(persist).player_site_instructions,
            persist.player_ships == old(persist).player_ships,
            persist.sites == old(persist).sites,
            persist.warping == old(persist).warping,
        decreases player_locations@.len() - i,
    {
        let (player, location) = player_locations[i];
        let ghost stored = persist.player_locations;
        proof {
            assert(players[i as int] == player);
            assert(players.to_set().contains(players[i as int]));
            assert(before.location_of(player) == location);
        }
        let ensured = ensure_location(&persist.sites, &all_sites, player, location);
        persist.player_locations.write(player, ensured);
        proof {
            let shorter = players.take(i as int);
            let longer = players.take(i + 1);
            assert(longer[i as int] == player);
            assert forall|other: Player| other != player implies (longer.contains(other)
                <==> shorter.contains(other)) by {
                if longer.contains(other) {
                    let k = choose|k: int| 0 <= k < longer.len() && longer[k] == other;
                    assert(shorter[k] == other);
                }
                if shorter.contains(other) {
                    let k = choose|k: int| 0 <= k < shorter.len() && shorter[k] == other;
                    assert(longer[k] == other);
                }
            }
            assert forall|other: Player| #[trigger]
                persist.player_locations.location_of(other) == if longer.contains(other) {
                    ensured_location(persist.sites, all_sites@, other, before.location_of(other))
                } else {
                    before.location_of(other)
                } by {
                if other != player {
                    assert(persist.player_locations.location_of(other) == stored.location_of(
                        other,
                    ));
                }
            }
        }
        i += 1;
    }
    proof {
        assert(players.take(i as int) =~= players);
        assert forall|player: Player| #[trigger]
            persist.player_locations.location_of(player) == ensured_location(
                persist.sites,
                all_sites@,
                player,
                before.location_of(player),
            ) by {
            if !players.contains(player) {
                assert(!players.to_set().contains(player));
                assert(!before@.contains_key(player));
            }
        }
    }
}

} // verus!
