//! What becomes of the players whose ship is dead.

use vstd::prelude::*;
use crate::location::PlayerLocation;
use crate::persist::player::default_location;
use crate::persist::Persist;
use crate::round::instructions::{enumerates, players_with_entry};
use crate::ship::{fitted_like, Ship, ShipFitting};
use crate::site::Player;
use crate::statics::Statics;

verus! {

broadcast use vstd::std_specs::hash::group_hash_axioms;

/// The ship is what a player gets for a dead one: new, empty, and fitted like
/// the rookie ship.
pub open spec fn replaces_dead(statics: Statics, rookie: ShipFitting, ship: Ship) -> bool {
    &&& fitted_like(ship.fitting, rookie)
    &&& ship.status == statics.pristine(ship.fitting)
    &&& ship.cargo.ore == 0
}

/// Checks all ships. A player whose ship is dead gets a new rookie ship and is
/// where a player is that nothing is known of. Everybody else keeps ship and
/// location.
pub fn all(statics: &Statics, persist: &mut Persist, rookie: &ShipFitting)
    requires
        old(persist).wf(),
    ensures
        final(persist).wf(),
        final(persist).player_ships@.dom() == old(persist).player_ships@.dom(),
        forall|player: Player| #[trigger]
            final(persist).player_ships@.contains_key(player) ==> if old(
                persist,
            ).player_ships@[player].status.alive() {
                final(persist).player_ships@[player] == old(persist).player_ships@[player]
            } else {
                replaces_dead(*statics, *rookie, final(persist).player_ships@[player])
            },
        forall|player: Player| #[trigger]
            final(persist).player_locations.location_of(player) == if old(
                persist,
            ).player_ships@.contains_key(player) && !old(
                persist,
            ).player_ships@[player].status.alive() {
                default_location()
            } else {
                old(persist).player_locations.location_of(player)
            },
        final(persist).player_generals == old(persist).player_generals,
        final(persist).player_notifications == old(persist).player_notifications,
        final(persist).player_site_instructions == old(persist).player_site_instructions,
        final(persist).sites == old(persist).sites,
        final(persist).warping == old(persist).warping,
{
    let players = players_with_entry(&persist.player_ships);
    let ghost ships = persist.player_ships@;
    let mut i: usize = 0;
    while i < players.len()
        invariant
            i <= players@.len(),
            enumerates(players@, ships.dom()),
            ships == old(persist).player_ships@,
            persist.wf(),
            persist.player_ships@.dom() == ships.dom(),
            forall|player: Player| #[trigger]
                persist.player_ships@.contains_key(player) ==> if players@.take(i as int).contains(
                    player,
                ) && !ships[player].status.alive() {
                    replaces_dead(*statics, *rookie, persist.player_ships@[player])
                } else {
                    persist.player_ships@[player] == ships[player]
                },
            forall|player: Player| #[trigger]
                persist.player_locations.location_of(player) == if players@.take(
                    i as int,
                ).contains(player) && !ships[player].status.alive() {
                    default_location()
                } else {
                    old(persist).player_locations.location_of(player)
                },
            persist.player_generals == old(persist).player_generals,
            persist.player_notifications == old(persist).player_notifications,
            persist.player_site_instructions == old(persist).player_site_instructions,
            persist.sites == old(persist).sites,
            persist.warping == old(persist).warping,
        decreases players@.len() - i,
    {
        let player = players[i];
        proof {
            assert(players@.to_set().contains(players@[i as int]));
        }
        let ghost before = *persist;
        let alive = persist.player_ships.get(&player).unwrap().status.is_alive();
        if !alive {
            let ship = Ship::new(statics, rookie.same());
            persist.player_ships.insert(player, ship);
            persist.player_locations.write(player, PlayerLocation::default());
            proof {
                assert(persist.player_ships@.dom() =~= ships.dom());
            }
        }
        proof {
            let shorter = players@.take(i as int);
            let longer = players@.take(i + 1);
            assert(longer[i as int] == player);
            assert(!shorter.contains(player)) by {
                if shorter.contains(player) {
                    let k = choose|k: int| 0 <= k < shorter.len() && shorter[k] == player;
                    assert(players@[k] == players@[i as int]);
                }
            }
            assert forall|other: Player| other != player implies (longer.contains(other)
                <==> shorter.contains(other)) by {
                if longer.contains(other) {
                    let k = choose|k: int| 0 <= k < longer.len() && longer[k] == other;
                    assert(shorter[k] == other);
                }
                if shorter.contains(other) {
                    let k = choose|k: int| 0 <= k < shorter.len() && shorter[k] == other;
                    assert(longer[k] == other);
                }
            }
            assert forall|other: Player| #[trigger]
                persist.player_locations.location_of(other) == if longer.contains(other)
                    && !ships[other].status.alive() {
                    default_location()
                } else {
                    old(persist).player_locations.location_of(other)
                } by {
                if other != player {
                    assert(persist.player_locations.location_of(other)
                        == before.player_locations.location_of(other));
                }
            }
        }
        i += 1;
    }
    proof {
        assert(players@.take(i as int) =~= players@);
        assert forall|player: Player| #[trigger]
            persist.player_ships@.contains_key(player) implies players@.contains(player) by {
            assert(players@.to_set().contains(player));
        }
    }
}

} // verus!
