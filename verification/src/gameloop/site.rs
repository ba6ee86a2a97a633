//! One round of one site of the kept world: what the round works on is taken
//! out of the stores, and what it leaves is put back.

use vstd::prelude::*;
use std::collections::HashMap;
use crate::instruction::Instruction;
use crate::location::PlayerLocation;
use crate::persist::notifications::Notifications;
use crate::persist::player::{
    read_player_site_instructions, write_player_site_instructions, PlayerLocations,
    PlayerSiteInstructions,
};
use crate::persist::site::{
    add_entity_warping, arriving_at, kept_in, passing_by, pop_entity_warping,
    read_entitiy_warping, without_site, Warping,
};
use crate::persist::Persist;
use crate::round::entities::{get_players, players_of};
use crate::round::instructions::{asked_of, enumerates, queues_of, sorted_from};
use crate::round::npc_instructions::{generate, generated};
use crate::round::state::{RoundState, SiteState};
use crate::round::{advance, is_round_ready, round_ready};
use crate::site::{Player, SiteEntity, SiteInfo, SiteLog, SolarsystemId};
use crate::statics::Statics;

verus! {

broadcast use vstd::std_specs::hash::group_hash_axioms;

/// Why a site did not get its round.
#[derive(Debug, Clone, Copy, PartialEq, Eq, Structural)]
pub enum RoundError {
    /// Somebody who takes part in the round has no ship, or an NPC was asked
    /// for what it cannot do. Nothing was changed.
    NotReady,
    /// The round is done and everything else is stored, but the site is empty
    /// now and could not be taken from the list of its solarsystem, because
    /// nothing is kept of the sites of that solarsystem.
    NoSites,
}

/// Each of the players once, in the order in which they are first seen.
pub open spec fn first_seen(players: Seq<Player>) -> Seq<Player>
    decreases players.len(),
{
    if players.len() == 0 {
        Seq::empty()
    } else {
        let before = first_seen(players.drop_last());
        if before.contains(players.last()) {
            before
        } else {
            before.push(players.last())
        }
    }
}

/// The list of those first seen names nobody twice, and it names exactly
/// those that the list names.
pub proof fn lemma_first_seen(players: Seq<Player>)
    ensures
        first_seen(players).no_duplicates(),
        forall|player: Player| first_seen(players).contains(player) <==> players.contains(player),
    decreases players.len(),
{
    if players.len() > 0 {
        let shorter = players.drop_last();
        lemma_first_seen(shorter);
        let before = first_seen(shorter);
        assert forall|player: Player| first_seen(players).contains(player) <==> players.contains(
            player,
        ) by {
            if players.contains(player) {
                let i = choose|i: int| 0 <= i < players.len() && players[i] == player;
                if i < shorter.len() {
                    assert(shorter[i] == player);
                    assert(shorter.contains(player));
                    let j = choose|j: int| 0 <= j < before.len() && before[j] == player;
                    assert(first_seen(players)[j] == player);
                } else {
                    if before.contains(player) {
                    } else {
                        assert(first_seen(players)[before.len() as int] == player);
                    }
                }
            }
            if first_seen(players).contains(player) {
                let j = choose|j: int|
                    0 <= j < first_seen(players).len() && first_seen(players)[j] == player;
                if j < before.len() {
                    assert(before[j] == player);
                    assert(before.contains(player));
                    assert(shorter.contains(player));
                    let i = choose|i: int| 0 <= i < shorter.len() && shorter[i] == player;
                    assert(players[i] == player);
                } else {
                    assert(players[players.len() - 1] == player);
                }
            }
        }
    }
}

/// The players that are in the site, each once, in the order of the site.
pub open spec fn players_here(entities: Seq<SiteEntity>) -> Seq<Player> {
    first_seen(players_of(entities).map_values(|found: (usize, Player)| found.1))
}

/// What the players that are in the site have asked for: the queue of each of
/// them, as it is kept.
pub open spec fn given_to(store: PlayerSiteInstructions, here: Seq<Player>) -> Map<
    Player,
    Seq<Instruction>,
> {
    Map::new(|player: Player| here.contains(player), |player: Player| store.instructions_of(player))
}

/// Those of the players that have set out for a site of the solarsystem in
/// this round, each with the site it is on the way to.
pub open spec fn set_out_to(
    here: Seq<Player>,
    locations: Map<Player, PlayerLocation>,
    solarsystem: SolarsystemId,
) -> Seq<(SiteInfo, Player)>
    decreases here.len(),
{
    if here.len() == 0 {
        Seq::empty()
    } else {
        let before = set_out_to(here.drop_last(), locations, solarsystem);
        let player = here.last();
        if locations.contains_key(player) {
            match locations[player] {
                PlayerLocation::Space(space) => if space.solarsystem == solarsystem {
                    before.push((space.towards, player))
                } else {
                    before
                },
                _ => before,
            }
        } else {
            before
        }
    }
}

/// Each of the players once, in the order in which they are first seen.
pub fn distinct(players: &[Player]) -> (result: Vec<Player>)
    ensures
        result@ == first_seen(players@),
{
    let mut result: Vec<Player> = Vec::new();
    let mut i: usize = 0;
    while i < players.len()
        invariant
            i <= players@.len(),
            result@ == first_seen(players@.take(i as int)),
        decreases players@.len() - i,
    {
        proof {
            assert(players@.take(i + 1).drop_last() =~= players@.take(i as int));
        }
        let player = players[i];
        let mut seen = false;
        let mut j: usize = 0;
        while j < result.len()
            invariant
                j <= result@.len(),
                seen == exists|k: int| 0 <= k < j && result@[k] == player,
            decreases result@.len() - j,
        {
            if result[j] == player {
                seen = true;
            }
            j += 1;
        }
        if !seen {
            result.push(player);
        }
        i += 1;
    }
    proof {
        assert(players@.take(i as int) =~= players@);
    }
    result
}

/// The players that are in the site, each once, in the order of the site.
pub fn players_in_site(site_entities: &[SiteEntity]) -> (here: Vec<Player>)
    ensures
        here@ == players_here(site_entities@),
{
    let found = get_players(site_entities);
    let mut players: Vec<Player> = Vec::new();
    let mut i: usize = 0;
    while i < found.len()
        invariant
            i <= found@.len(),
            players@ == found@.take(i as int).map_values(|found: (usize, Player)| found.1),
        decreases found@.len() - i,
    {
        players.push(found[i].1);
        proof {
            assert(players@ =~= found@.take(i + 1).map_values(|found: (usize, Player)| found.1));
        }
        i += 1;
    }
    proof {
        assert(found@.take(i as int) =~= found@);
    }
    distinct(players.as_slice())
}

/// The queues of the players that are in the site.
pub fn gather_instructions(store: &PlayerSiteInstructions, here: &[Player]) -> (given: HashMap<
    Player,
    Vec<Instruction>,
>)
    ensures
        queues_of(given@) == given_to(*store, here@),
{
    let mut given: HashMap<Player, Vec<Instruction>> = HashMap::new();
    let mut i: usize = 0;
    proof {
        assert(queues_of(given@) =~= given_to(*store, here@.take(0)));
    }
    while i < here.len()
        invariant
            i <= here@.len(),
            queues_of(given@) == given_to(*store, here@.take(i as int)),
        decreases here@.len() - i,
    {
        let player = here[i];
        let queue = read_player_site_instructions(store, player);
        let ghost before = given@;
        given.insert(player, queue);
        proof {
            let shorter = here@.take(i as int);
            let longer = here@.take(i + 1);
            assert forall|other: Player| longer.contains(other) <==> (shorter.contains(other)
                || other == player) by {
                if longer.contains(other) {
                    let k = choose|k: int| 0 <= k < longer.len() && longer[k] == other;
                    if k < i {
                        assert(shorter[k] == other);
                    }
                }
                if shorter.contains(other) {
                    let k = choose|k: int| 0 <= k < shorter.len() && shorter[k] == other;
                    assert(longer[k] == other);
                }
                assert(longer[i as int] == player);
            }
            assert forall|other: Player| #[trigger]
                queues_of(given@).contains_key(other) == longer.contains(other) by {
                assert(queues_of(before).contains_key(other) == given_to(
                    *store,
                    shorter,
                ).contains_key(other));
                assert(given@.contains_key(other) == (before.contains_key(other) || other
                    == player));
            }
            assert forall|other: Player| #[trigger]
                queues_of(given@).contains_key(other) implies queues_of(given@)[other]
                == store.instructions_of(other) by {
                if other != player {
                    assert(before.contains_key(other));
                    assert(queues_of(before)[other] == given_to(*store, shorter)[other]);
                    assert(given@[other] == before[other]);
                }
            }
            assert(queues_of(given@) =~= given_to(*store, longer));
        }
        i += 1;
    }
    proof {
        assert(here@.take(i as int) =~= here@);
    }
    given
}

/// Who would arrive in the site if it took in its arrivals now.
pub fn arriving(store: &Warping, solarsystem: SolarsystemId, site: SiteInfo) -> (players: Vec<Player>)
    ensures
        players@ == arriving_at(store.warping_in(solarsystem), site),
{
    let queue = read_entitiy_warping(store, solarsystem);
    let mut players: Vec<Player> = Vec::new();
    let mut i: usize = 0;
    while i < queue.len()
        invariant
            i <= queue@.len(),
            players@ == arriving_at(queue@.take(i as int), site),
        decreases queue@.len() - i,
    {
        proof {
            assert(queue@.take(i + 1).drop_last() =~= queue@.take(i as int));
        }
        if queue[i].0 == site {
            players.push(queue[i].1);
        }
        i += 1;
    }
    proof {
        assert(queue@.take(i as int) =~= queue@);
    }
    players
}

/// Empties the kept queue of each of the players.
pub fn clear_instructions(store: &mut PlayerSiteInstructions, here: &[Player])
    requires
        old(store).wf(),
    ensures
        final(store).wf(),
        forall|player: Player| #[trigger]
            final(store).instructions_of(player) == if here@.contains(player) {
                Seq::empty()
            } else {
                old(store).instructions_of(player)
            },
{
    let mut i: usize = 0;
    while i < here.len()
        invariant
            i <= here@.len(),
            store.wf(),
            forall|player: Player| #[trigger]
                store.instructions_of(player) == if here@.take(i as int).contains(player) {
                    Seq::empty()
                } else {
                    old(store).instructions_of(player)
                },
        decreases here@.len() - i,
    {
        let ghost before = *store;
        write_player_site_instructions(store, here[i], &[]);
        proof {
            let shorter = here@.take(i as int);
            let longer = here@.take(i + 1);
            assert forall|player: Player| #[trigger]
                store.instructions_of(player) == if longer.contains(player) {
                    Seq::<Instruction>::empty()
                } else {
                    old(store).instructions_of(player)
                } by {
                assert(longer[i as int] == here@[i as int]);
                if player != here@[i as int] {
                    assert(store.instructions_of(player) == before.instructions_of(player));
                    if longer.contains(player) {
                        let k = choose|k: int| 0 <= k < longer.len() && longer[k] == player;
                        assert(shorter[k] == player);
                    }
                    if shorter.contains(player) {
                        let k = choose|k: int| 0 <= k < shorter.len() && shorter[k] == player;
                        assert(longer[k] == player);
                    }
                } else {
                    assert(store.instructions_of(player) =~= Seq::<Instruction>::empty());
                }
            }
        }
        i += 1;
    }
    proof {
        assert(here@.take(i as int) =~= here@);
    }
}

/// Keeps the location that the round has given to each of the players. Who
/// got none stays where it was.
pub fn write_locations(
    store: &mut PlayerLocations,
    involved: &[Player],
    locations: &HashMap<Player, PlayerLocation>,
)
    requires
        old(store).wf(),
    ensures
        final(store).wf(),
        forall|player: Player| #[trigger]
            final(store).location_of(player) == if involved@.contains(player)
                && locations@.contains_key(player) {
                locations@[player]
            } else {
                old(store).location_of(player)
            },
{
    let mut i: usize = 0;
    while i < involved.len()
        invariant
            i <= involved@.len(),
            store.wf(),
            forall|player: Player| #[trigger]
                store.location_of(player) == if involved@.take(i as int).contains(player)
                    && locations@.contains_key(player) {
                    locations@[player]
                } else {
                    old(store).location_of(player)
                },
        decreases involved@.len() - i,
    {
        let player = involved[i];
        let ghost before = *store;
        if let Some(location) = locations.get(&player) {
            store.write(player, *location);
        }
        proof {
            let shorter = involved@.take(i as int);
            let longer = involved@.take(i + 1);
            assert forall|other: Player| #[trigger]
                store.location_of(other) == if longer.contains(other) && locations@.contains_key(
                    other,
                ) {
                    locations@[other]
                } else {
                    old(store).location_of(other)
                } by {
                assert(longer[i as int] == player);
                if other != player {
                    assert(store.location_of(other) == before.location_of(other));
                    if longer.contains(other) {
                        let k = choose|k: int| 0 <= k < longer.len() && longer[k] == other;
                        assert(shorter[k] == other);
                    }
                    if shorter.contains(other) {
                        let k = choose|k: int| 0 <= k < shorter.len() && shorter[k] == other;
                        assert(longer[k] == other);
                    }
                }
            }
        }
        i += 1;
    }
    proof {
        assert(involved@.take(i as int) =~= involved@);
    }
}

/// Tells each of the players what was logged. Nobody may be listed twice.
pub fn notify(store: &mut Notifications, involved: &[Player], log: &[SiteLog])
    requires
        old(store).wf(),
        involved@.no_duplicates(),
    ensures
        final(store).wf(),
        forall|player: Player| #[trigger]
            final(store).notifications_of(player) == if involved@.contains(player) {
                old(store).notifications_of(player) + log@
            } else {
                old(store).notifications_of(player)
            },
{
    let mut i: usize = 0;
    while i < involved.len()
        invariant
            i <= involved@.len(),
            involved@.no_duplicates(),
            store.wf(),
            forall|player: Player| #[trigger]
                store.notifications_of(player) == if involved@.take(i as int).contains(player) {
                    old(store).notifications_of(player) + log@
                } else {
                    old(store).notifications_of(player)
                },
        decreases involved@.len() - i,
    {
        let player = involved[i];
        let ghost before = *store;
        store.add(player, log);
        proof {
            let shorter = involved@.take(i as int);
            let longer = involved@.take(i + 1);
            assert(!shorter.contains(player)) by {
                if shorter.contains(player) {
                    let k = choose|k: int| 0 <= k < shorter.len() && shorter[k] == player;
                    assert(involved@[k] == involved@[i as int]);
                }
            }
            assert forall|other: Player| #[trigger]
                store.notifications_of(other) == if longer.contains(other) {
                    old(store).notifications_of(other) + log@
                } else {
                    old(store).notifications_of(other)
                } by {
                assert(longer[i as int] == player);
                if other != player {
                    assert(store.notifications_of(other) == before.notifications_of(other));
                    if longer.contains(other) {
                        let k = choose|k: int| 0 <= k < longer.len() && longer[k] == other;
                        assert(shorter[k] == other);
                    }
                    if shorter.contains(other) {
                        let k = choose|k: int| 0 <= k < shorter.len() && shorter[k] == other;
                        assert(longer[k] == other);
                    }
                }
            }
        }
        i += 1;
    }
    proof {
        assert(involved@.take(i as int) =~= involved@);
    }
}

/// Puts everybody who has set out in this round into the queue of the
/// solarsystem that it is in now, in the order of the list.
pub fn enqueue_departed(
    store: &mut Warping,
    here: &[Player],
    locations: &HashMap<Player, PlayerLocation>,
)
    requires
        old(store).wf(),
    ensures
        final(store).wf(),
        forall|solarsystem: SolarsystemId| #[trigger]
            final(store).warping_in(solarsystem) == old(store).warping_in(solarsystem)
                + set_out_to(here@, locations@, solarsystem),
{
    let mut i: usize = 0;
    proof {
        assert forall|solarsystem: SolarsystemId| #[trigger]
            store.warping_in(solarsystem) == old(store).warping_in(solarsystem) + set_out_to(
                here@.take(0),
                locations@,
                solarsystem,
            ) by {
            assert(old(store).warping_in(solarsystem) + Seq::<(SiteInfo, Player)>::empty()
                =~= old(store).warping_in(solarsystem));
        }
    }
    while i < here.len()
        invariant
            i <= here@.len(),
            store.wf(),
            forall|solarsystem: SolarsystemId| #[trigger]
                store.warping_in(solarsystem) == old(store).warping_in(solarsystem) + set_out_to(
                    here@.take(i as int),
                    locations@,
                    solarsystem,
                ),
        decreases here@.len() - i,
    {
        let player = here[i];
        let ghost before = *store;
        proof {
            assert(here@.take(i + 1).drop_last() =~= here@.take(i as int));
        }
        if let Some(PlayerLocation::Space(space)) = locations.get(&player) {
            add_entity_warping(store, space.solarsystem, space.towards, player);
        }
        proof {
            assert forall|solarsystem: SolarsystemId| #[trigger]
                store.warping_in(solarsystem) == old(store).warping_in(solarsystem) + set_out_to(
                    here@.take(i + 1),
                    locations@,
                    solarsystem,
                ) by {
                let shorter = set_out_to(here@.take(i as int), locations@, solarsystem);
                let longer = set_out_to(here@.take(i + 1), locations@, solarsystem);
                assert(before.warping_in(solarsystem) == old(store).warping_in(solarsystem)
                    + shorter);
                if longer != shorter {
                    let space = locations@[player]->Space_0;
                    assert(longer == shorter.push((space.towards, player)));
                    assert(store.warping_in(solarsystem) =~= old(store).warping_in(solarsystem)
                        + longer);
                } else {
                    assert(store.warping_in(solarsystem) == before.warping_in(solarsystem));
                }
            }
        }
        i += 1;
    }
    proof {
        assert(here@.take(i as int) =~= here@);
    }
}

/// Who takes part in the round of the site: the players that are in it and
/// the players that arrive, each once.
pub open spec fn involved_in(persist: Persist, solarsystem: SolarsystemId, site: SiteInfo) -> Seq<
    Player,
> {
    first_seen(
        players_here(kept_in(persist.sites, solarsystem, site)) + arriving_at(
            persist.warping.warping_in(solarsystem),
            site,
        ),
    )
}

/// What is kept is ready for the round of the site: every player that is in
/// the site or arrives in it has a ship.
pub open spec fn ready_for_round(persist: Persist, solarsystem: SolarsystemId, site: SiteInfo)
    -> bool {
    let entities = kept_in(persist.sites, solarsystem, site);
    round_ready(
        SiteState { entities, ships: persist.player_ships@ },
        given_to(persist.player_site_instructions, players_here(entities)),
        generated(entities, entities.len() as int),
        arriving_at(persist.warping.warping_in(solarsystem), site),
    )
}

/// The round of the site on what is kept, where the players that are in the
/// site are walked in the given order: the players ask what their kept queues
/// hold, the NPCs what is generated for them, and who is on the way to the
/// site arrives.
pub open spec fn round_of(
    persist: Persist,
    statics: Statics,
    solarsystem: SolarsystemId,
    site: SiteInfo,
    order: Seq<Player>,
) -> RoundState {
    let entities = kept_in(persist.sites, solarsystem, site);
    (RoundState {
        site: SiteState { entities, ships: persist.player_ships@ },
        locations: Map::empty(),
        log: Seq::empty(),
    }).advanced(
        statics,
        solarsystem,
        site,
        sorted_from(
            order,
            given_to(persist.player_site_instructions, players_here(entities)),
            generated(entities, entities.len() as int),
        ),
        arriving_at(persist.warping.warping_in(solarsystem), site),
    )
}

/// What is kept after the round of the site is what was kept before, with
/// what the round has left:
/// - the ships are those of the round;
/// - the site keeps the surviving entities, or it is forgotten and taken from
///   the list of its solarsystem where nothing survived;
/// - who takes part and was given a location has that location;
/// - the queue of every player that was in the site is empty;
/// - who takes part is told what was logged;
/// - who arrived is no longer on the way, and who set out is on the way, in
///   the solarsystem that it is in now.
pub open spec fn stored(
    before: Persist,
    after: Persist,
    round: RoundState,
    solarsystem: SolarsystemId,
    site: SiteInfo,
) -> bool {
    let here = players_here(kept_in(before.sites, solarsystem, site));
    let involved = involved_in(before, solarsystem, site);
    &&& after.player_generals == before.player_generals
    &&& after.player_ships@ == round.site.ships
    &&& after.sites.entities_of(solarsystem, site) == if round.site.entities.len() > 0 {
        Some(round.site.entities)
    } else {
        None
    }
    &&& forall|other_solarsystem: SolarsystemId, other: SiteInfo|
        other_solarsystem != solarsystem || other != site ==> #[trigger] after.sites.entities_of(
            other_solarsystem,
            other,
        ) == before.sites.entities_of(other_solarsystem, other)
    &&& after.sites.sites_of(solarsystem) == if round.site.entities.len() > 0 {
        before.sites.sites_of(solarsystem)
    } else {
        match before.sites.sites_of(solarsystem) {
            Some(list) => if without_site(list, site).len() > 0 {
                Some(without_site(list, site))
            } else {
                None
            },
            None => None,
        }
    }
    &&& forall|other: SolarsystemId|
        other != solarsystem ==> #[trigger] after.sites.sites_of(other) == before.sites.sites_of(
            other,
        )
    &&& forall|player: Player| #[trigger]
        after.player_locations.location_of(player) == if involved.contains(player)
            && round.locations.contains_key(player) {
            round.locations[player]
        } else {
            before.player_locations.location_of(player)
        }
    &&& forall|player: Player| #[trigger]
        after.player_site_instructions.instructions_of(player) == if here.contains(player) {
            Seq::empty()
        } else {
            before.player_site_instructions.instructions_of(player)
        }
    &&& forall|player: Player| #[trigger]
        after.player_notifications.notifications_of(player) == if involved.contains(player) {
            before.player_notifications.notifications_of(player) + round.log
        } else {
            before.player_notifications.notifications_of(player)
        }
    &&& forall|other: SolarsystemId| #[trigger]
        after.warping.warping_in(other) == (if other == solarsystem {
            passing_by(before.warping.warping_in(other), site)
        } else {
            before.warping.warping_in(other)
        }) + set_out_to(here, round.locations, other)
}

/// What [`handle`] makes of what is kept, and what it hands back.
///
/// Where what is kept is not ready for the round, nothing is changed. Else
/// the round is made of what is kept, with the players of the site walked in
/// some order, and what it leaves is stored. The log of the round is handed
/// back, unless the site has become empty and cannot be taken from the list of
/// its solarsystem.
pub open spec fn handled(
    before: Persist,
    after: Persist,
    result: Result<Vec<SiteLog>, RoundError>,
    statics: Statics,
    solarsystem: SolarsystemId,
    site: SiteInfo,
) -> bool {
    &&& after.wf()
    &&& result == Err::<Vec<SiteLog>, RoundError>(RoundError::NotReady) <==> !ready_for_round(
        before,
        solarsystem,
        site,
    )
    &&& !ready_for_round(before, solarsystem, site) ==> after == before
    &&& ready_for_round(before, solarsystem, site) ==> exists|order: Seq<Player>|
        {
            let round = #[trigger] round_of(before, statics, solarsystem, site, order);
            &&& enumerates(order, players_here(kept_in(before.sites, solarsystem, site)).to_set())
            &&& stored(before, after, round, solarsystem, site)
            &&& match result {
                Ok(log) => log@ == round.log && (round.site.entities.len() > 0
                    || before.sites.sites_of(solarsystem) is Some),
                Err(error) => error == RoundError::NoSites && round.site.entities.len() == 0
                    && before.sites.sites_of(solarsystem) is None,
            }
        }
}

/// Gives the site its round on what is kept.
pub fn handle(
    statics: &Statics,
    persist: &mut Persist,
    solarsystem: SolarsystemId,
    site: SiteInfo,
) -> (result: Result<Vec<SiteLog>, RoundError>)
    requires
        old(persist).wf(),
    ensures
        handled(*old(persist), *final(persist), result, *statics, solarsystem, site),
{
    let empty: Vec<SiteEntity> = Vec::new();
    let kept = match persist.sites.read_entities(solarsystem, site) {
        Ok(entities) => entities,
        Err(_) => &empty,
    };
    let here = players_in_site(kept.as_slice());
    let mut given = gather_instructions(&persist.player_site_instructions, here.as_slice());
    let npc_instructions = generate(site, kept.as_slice());
    let coming = arriving(&persist.warping, solarsystem, site);
    let ready = is_round_ready(
        kept.as_slice(),
        &given,
        npc_instructions.as_slice(),
        &persist.player_ships,
        coming.as_slice(),
    );
    if !ready {
        return Err(RoundError::NotReady);
    }
    let ghost entities_before = kept@;
    let ghost asked = given_to(persist.player_site_instructions, here@);
    let mut site_entities = match persist.sites.take_entities(solarsystem, site) {
        Ok(entities) => entities,
        Err(_) => Vec::new(),
    };
    let players_warping_in = pop_entity_warping(&mut persist.warping, solarsystem, site);
    let mut player_locations: HashMap<Player, PlayerLocation> = HashMap::new();
    let ghost given_before = given@;
    let ghost start = RoundState {
        site: SiteState { entities: site_entities@, ships: persist.player_ships@ },
        locations: player_locations@,
        log: Seq::empty(),
    };
    proof {
        assert(entities_before == kept_in(old(persist).sites, solarsystem, site));
        assert(site_entities@ =~= entities_before);
        assert(queues_of(given_before) == asked);
        assert(players_warping_in@ == coming@);
        assert(persist.player_ships@ == old(persist).player_ships@);
    }
    let outputs = advance(
        statics,
        solarsystem,
        site,
        &mut site_entities,
        &mut given,
        npc_instructions.as_slice(),
        &mut player_locations,
        &mut persist.player_ships,
        players_warping_in.as_slice(),
    );
    let ghost left = RoundState {
        site: SiteState { entities: site_entities@, ships: persist.player_ships@ },
        locations: player_locations@,
        log: outputs.site_log@,
    };
    let ghost order = choose|order: Seq<Player>|
        enumerates(order, given_before.dom()) && left == start.advanced(
            *statics,
            solarsystem,
            site,
            #[trigger] sorted_from(
                order,
                queues_of(given_before),
                asked_of(npc_instructions@),
            ),
            players_warping_in@,
        );
    let ghost round = round_of(*old(persist), *statics, solarsystem, site, order);
    proof {
        assert(asked.dom() =~= here@.to_set());
        assert(given_before.dom() =~= asked.dom());
        assert(round == left);
    }
    let mut everybody: Vec<Player> = Vec::new();
    let mut i: usize = 0;
    while i < here.len()
        invariant
            i <= here@.len(),
            everybody@ == here@.take(i as int),
        decreases here@.len() - i,
    {
        everybody.push(here[i]);
        proof {
            assert(everybody@ =~= here@.take(i + 1));
        }
        i += 1;
    }
    let mut i: usize = 0;
    proof {
        assert(here@.take(here@.len() as int) =~= here@);
        assert(everybody@ =~= here@ + players_warping_in@.take(0));
    }
    while i < players_warping_in.len()
        invariant
            i <= players_warping_in@.len(),
            everybody@ == here@ + players_warping_in@.take(i as int),
        decreases players_warping_in@.len() - i,
    {
        everybody.push(players_warping_in[i]);
        proof {
            assert(everybody@ =~= here@ + players_warping_in@.take(i + 1));
        }
        i += 1;
    }
    proof {
        assert(players_warping_in@.take(i as int) =~= players_warping_in@);
    }
    let involved = distinct(everybody.as_slice());
    proof {
        lemma_first_seen(everybody@);
    }
    clear_instructions(&mut persist.player_site_instructions, here.as_slice());
    write_locations(&mut persist.player_locations, involved.as_slice(), &player_locations);
    notify(&mut persist.player_notifications, involved.as_slice(), outputs.site_log.as_slice());
    enqueue_departed(&mut persist.warping, here.as_slice(), &player_locations);
    let stored_site = if site_entities.len() == 0 {
        persist.sites.remove_site(solarsystem, site)
    } else {
        persist.sites.write_entities(solarsystem, site, site_entities)
    };
    proof {
        assert(stored(*old(persist), *persist, round, solarsystem, site));
    }
    match stored_site {
        Ok(_) => Ok(outputs.site_log),
        Err(_) => Err(RoundError::NoSites),
    }
}

/// Every solarsystem of the static data keeps a list of its sites.
pub open spec fn sites_everywhere(persist: Persist, statics: Statics) -> bool {
    forall|solarsystem: SolarsystemId|
        solarsystem < statics.solarsystems@.len() ==> persist.sites.sites_of(solarsystem) is Some
}

/// Whether every solarsystem of the static data keeps a list of its sites.
pub fn has_sites_everywhere(persist: &Persist, statics: &Statics) -> (has: bool)
    ensures
        has == sites_everywhere(*persist, *statics),
{
    let count: usize = if statics.solarsystems.len() <= 256 {
        statics.solarsystems.len()
    } else {
        256
    };
    let mut next: usize = 0;
    while next < count
        invariant
            next <= count <= 256,
            count <= statics.solarsystems@.len(),
            count == statics.solarsystems@.len() || count == 256,
            forall|solarsystem: SolarsystemId|
                solarsystem < next ==> persist.sites.sites_of(solarsystem) is Some,
        decreases count - next,
    {
        if persist.sites.read_sites(next as u8).is_err() {
            return false;
        }
        next += 1;
    }
    true
}

/// All sites of all solarsystems of the static data, as they are listed.
pub open spec fn sites_listed(persist: Persist, statics: Statics) -> Seq<(SolarsystemId, SiteInfo)> {
    persist.sites.everywhere(
        if statics.solarsystems@.len() <= 256 {
            statics.solarsystems@.len() as int
        } else {
            256
        },
    )
}

/// Gives every site that is listed its round, one site after the other, in
/// the order of the list as it is before the first round. What each round
/// hands back is handed back in the same order.
pub fn all(statics: &Statics, persist: &mut Persist) -> (results: Vec<
    Result<Vec<SiteLog>, RoundError>,
>)
    requires
        old(persist).wf(),
        sites_everywhere(*old(persist), *statics),
    ensures
        final(persist).wf(),
        results@.len() == sites_listed(*old(persist), *statics).len(),
        exists|steps: Seq<Persist>|
            {
                let sites = sites_listed(*old(persist), *statics);
                &&& #[trigger] steps.len() == sites.len() + 1
                &&& steps[0] == *old(persist)
                &&& steps[sites.len() as int] == *final(persist)
                &&& forall|i: int|
                    0 <= i < sites.len() ==> handled(
                        steps[i],
                        steps[i + 1],
                        #[trigger] results@[i],
                        *statics,
                        sites[i].0,
                        sites[i].1,
                    )
            },
{
    let sites = persist.sites.read_sites_everywhere(statics.solarsystems.len());
    let mut results: Vec<Result<Vec<SiteLog>, RoundError>> = Vec::new();
    let ghost mut steps: Seq<Persist> = seq![*persist];
    let mut i: usize = 0;
    while i < sites.len()
        invariant
            i <= sites@.len(),
            sites@ == sites_listed(*old(persist), *statics),
            persist.wf(),
            results@.len() == i,
            steps.len() == i + 1,
            steps[0] == *old(persist),
            steps[i as int] == *persist,
            forall|j: int|
                0 <= j < i ==> handled(
                    steps[j],
                    steps[j + 1],
                    #[trigger] results@[j],
                    *statics,
                    sites@[j].0,
                    sites@[j].1,
                ),
        decreases sites@.len() - i,
    {
        let (solarsystem, site) = sites[i];
        let result = handle(statics, persist, solarsystem, site);
        results.push(result);
        proof {
            let earlier = steps;
            steps = steps.push(*persist);
            assert forall|j: int| 0 <= j < i + 1 implies handled(
                steps[j],
                steps[j + 1],
                #[trigger] results@[j],
                *statics,
                sites@[j].0,
                sites@[j].1,
            ) by {
                if j < i {
                    assert(steps[j] == earlier[j]);
                    assert(steps[j + 1] == earlier[j + 1]);
                }
            }
        }
        i += 1;
    }
    results
}

} // verus!
