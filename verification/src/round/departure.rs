//! What a round makes of a player that warps out of the site.

use vstd::prelude::*;
use crate::instruction::{Instruction, InstructionWarp};
use crate::location::{PlayerInSpace, PlayerLocation};
use crate::round::entities::{first_at, is_player, position_of, without_player};
use crate::round::instructions::{
    enumerates, issued_by, lemma_npcs_issued_members, lemma_players_issued_members,
    lemma_round_order, lemma_round_order_is_permutation, npcs_issued, players_issued,
    sorted_from, Actor,
};
use crate::round::state::RoundState;
use crate::round::{
    can_resolve, finished, lemma_module_step_keeps_cast, lemma_sorted_can_resolve,
    lemma_step_keeps_resolvable, round_ready, same_cast,
};
use crate::ship::Ship;
use crate::site::{Player, SiteEntity, SiteInfo, SiteLog, SiteLogActor, SolarsystemId};
use crate::statics::Statics;

verus! {

/// The player is not among the entities.
pub open spec fn absent(entities: Seq<SiteEntity>, player: Player) -> bool {
    forall|i: int| 0 <= i < entities.len() ==> !is_player(#[trigger] entities[i], player)
}

/// The player is among the entities once at most.
pub open spec fn at_most_once(entities: Seq<SiteEntity>, player: Player) -> bool {
    forall|i: int, j: int|
        0 <= i < j < entities.len() ==> !(is_player(#[trigger] entities[i], player) && is_player(
            #[trigger] entities[j],
            player,
        ))
}

/// The player has left the site: it is not among the entities, it is at the
/// location, and the log holds the entry.
pub open spec fn has_left(state: RoundState, player: Player, location: PlayerLocation, entry: SiteLog)
    -> bool {
    &&& absent(state.site.entities, player)
    &&& state.locations.contains_key(player)
    &&& state.locations[player] == location
    &&& state.log.contains(entry)
}

/// Whatever is left when somebody is taken out of the entities was there
/// before, in the same order.
pub proof fn lemma_without_player_keeps_the_rest(
    entities: Seq<SiteEntity>,
    leaving: Player,
    player: Player,
)
    ensures
        absent(entities, player) ==> absent(without_player(entities, leaving), player),
        at_most_once(entities, player) ==> at_most_once(
            without_player(entities, leaving),
            player,
        ),
        at_most_once(entities, leaving) ==> absent(without_player(entities, leaving), leaving),
{
    let rest = without_player(entities, leaving);
    match position_of(entities, leaving) {
        Some(index) => {
            assert(first_at(entities, leaving, index));
            assert forall|i: int| 0 <= i < rest.len() implies #[trigger] rest[i] == entities[if i
                < index {
                i
            } else {
                i + 1
            }] by {}
            if absent(entities, player) {
                assert forall|i: int| 0 <= i < rest.len() implies !is_player(
                    #[trigger] rest[i],
                    player,
                ) by {
                    let k = if i < index {
                        i
                    } else {
                        i + 1
                    };
                    assert(rest[i] == entities[k]);
                }
            }
            if at_most_once(entities, player) {
                assert forall|i: int, j: int| 0 <= i < j < rest.len() implies !(is_player(
                    #[trigger] rest[i],
                    player,
                ) && is_player(#[trigger] rest[j], player)) by {
                    let ki = if i < index {
                        i
                    } else {
                        i + 1
                    };
                    let kj = if j < index {
                        j
                    } else {
                        j + 1
                    };
                    assert(rest[i] == entities[ki]);
                    assert(rest[j] == entities[kj]);
                }
            }
            if at_most_once(entities, leaving) {
                assert forall|i: int| 0 <= i < rest.len() implies !is_player(
                    #[trigger] rest[i],
                    leaving,
                ) by {
                    let k = if i < index {
                        i
                    } else {
                        i + 1
                    };
                    assert(rest[i] == entities[k]);
                    assert(is_player(entities[index], leaving));
                }
            }
        },
        None => {
            if at_most_once(entities, leaving) {
                assert forall|i: int| 0 <= i < entities.len() implies !is_player(
                    #[trigger] entities[i],
                    leaving,
                ) by {
                    if is_player(entities[i], leaving) {
                        lemma_some_first(entities, leaving, i);
                    }
                }
            }
        },
    }
}

/// Where the player stands somewhere, it stands somewhere first.
pub proof fn lemma_some_first(entities: Seq<SiteEntity>, player: Player, index: int)
    requires
        0 <= index < entities.len(),
        is_player(entities[index], player),
    ensures
        exists|first: int| first_at(entities, player, first),
    decreases index,
{
    if exists|j: int| 0 <= j < index && is_player(#[trigger] entities[j], player) {
        let j = choose|j: int| 0 <= j < index && is_player(#[trigger] entities[j], player);
        lemma_some_first(entities, player, j);
    } else {
        assert(first_at(entities, player, index));
    }
}

/// When the first `n` instructions of a queue are resolved, the rest of the
/// queue can be resolved, a player that stood in the site once at most still
/// does, and every ship is fitted as before.
pub proof fn lemma_resolving_keeps_order(
    round: RoundState,
    statics: Statics,
    solarsystem: SolarsystemId,
    site: SiteInfo,
    queue: Seq<(Actor, Instruction)>,
    n: int,
    player: Player,
)
    requires
        can_resolve(round.site, queue),
        0 <= n <= queue.len(),
        at_most_once(round.site.entities, player),
        round.site.ships.contains_key(player),
    ensures
        ({
            let then = round.resolved(statics, solarsystem, site, queue.take(n));
            &&& can_resolve(then.site, queue.skip(n))
            &&& at_most_once(then.site.entities, player)
            &&& then.site.ships.contains_key(player)
            &&& then.site.ships[player].fitting == round.site.ships[player].fitting
        }),
    decreases n,
{
    if n == 0 {
        assert(queue.take(0) =~= Seq::<(Actor, Instruction)>::empty());
        assert(queue.skip(0) =~= queue);
    } else {
        lemma_resolving_keeps_order(round, statics, solarsystem, site, queue, n - 1, player);
        let before = round.resolved(statics, solarsystem, site, queue.take(n - 1));
        let rest = queue.skip(n - 1);
        let actor = queue[n - 1].0;
        let instruction = queue[n - 1].1;
        assert(queue.take(n).drop_last() =~= queue.take(n - 1));
        assert(queue.take(n).last() == queue[n - 1]);
        assert(rest[0] == queue[n - 1]);
        assert(rest.skip(1) =~= queue.skip(n));
        let then = before.step(statics, solarsystem, site, actor, instruction);
        assert(then == round.resolved(statics, solarsystem, site, queue.take(n)));
        lemma_step_keeps_resolvable(before, statics, solarsystem, site, rest);
        assert(before.site.knows(actor));
        if instruction.leaves_site() {
            let leaving = actor->Player_0;
            lemma_without_player_keeps_the_rest(before.site.entities, leaving, player);
            assert(then.site.ships == before.site.ships);
        } else {
            lemma_module_step_keeps_cast(before, statics, solarsystem, site, actor, instruction);
            assert(same_cast(before.site, then.site));
            assert forall|i: int, j: int| 0 <= i < j < then.site.entities.len() implies !(
            is_player(#[trigger] then.site.entities[i], player) && is_player(
                #[trigger] then.site.entities[j],
                player,
            )) by {
                assert(then.site.entities[i] is Player ==> then.site.entities[i]
                    == before.site.entities[i]);
                assert(then.site.entities[j] is Player ==> then.site.entities[j]
                    == before.site.entities[j]);
            }
            assert(then.site.ships[player].fitting == before.site.ships[player].fitting);
        }
    }
}

/// A player that has warped out stays gone while the site is left: when the
/// instructions up to `n` are resolved, of which all behind `at` leave the
/// site, and none of them is another instruction of the player than to warp
/// to the same site once more.
pub proof fn lemma_leaving_changes_nothing(
    round: RoundState,
    statics: Statics,
    solarsystem: SolarsystemId,
    site: SiteInfo,
    queue: Seq<(Actor, Instruction)>,
    at: int,
    n: int,
    player: Player,
    target: SiteInfo,
    entry: SiteLog,
)
    requires
        0 <= at < n <= queue.len(),
        has_left(
            round.resolved(statics, solarsystem, site, queue.take(at + 1)),
            player,
            PlayerLocation::Space(PlayerInSpace { solarsystem, towards: target }),
            entry,
        ),
        forall|i: int|
            at < i < queue.len() ==> (#[trigger] queue[i]).1.leaves_site() && (queue[i].0
                == Actor::Player(player) ==> queue[i].1 == Instruction::Warp(
                InstructionWarp { target },
            )),
    ensures
        has_left(
            round.resolved(statics, solarsystem, site, queue.take(n)),
            player,
            PlayerLocation::Space(PlayerInSpace { solarsystem, towards: target }),
            entry,
        ),
    decreases n,
{
    if n > at + 1 {
        lemma_leaving_changes_nothing(
            round,
            statics,
            solarsystem,
            site,
            queue,
            at,
            n - 1,
            player,
            target,
            entry,
        );
        let before = round.resolved(statics, solarsystem, site, queue.take(n - 1));
        assert(queue.take(n).drop_last() =~= queue.take(n - 1));
        assert(queue.take(n).last() == queue[n - 1]);
        let actor = queue[n - 1].0;
        let instruction = queue[n - 1].1;
        let then = before.step(statics, solarsystem, site, actor, instruction);
        assert(then == round.resolved(statics, solarsystem, site, queue.take(n)));
        assert(instruction.leaves_site());
        match actor {
            Actor::Player(leaving) => {
                lemma_without_player_keeps_the_rest(before.site.entities, leaving, player);
                if then != before {
                    let at_entry = choose|i: int| 0 <= i < before.log.len() && before.log[i] == entry;
                    assert(then.log[at_entry] == entry);
                }
            },
            Actor::Npc(_) => {},
        }
    }
}

/// Reconciling a site brings nobody into it: a player that is not among the
/// candidates is not among the survivors.
pub proof fn lemma_reconciling_brings_nobody(
    statics: Statics,
    candidates: Seq<SiteEntity>,
    ships: Map<Player, Ship>,
    player: Player,
)
    requires
        absent(candidates, player),
    ensures
        absent(finished(statics, candidates, ships).site.entities, player),
    decreases candidates.len(),
{
    if candidates.len() > 0 {
        let shorter = candidates.drop_last();
        assert forall|i: int| 0 <= i < shorter.len() implies !is_player(
            #[trigger] shorter[i],
            player,
        ) by {
            assert(shorter[i] == candidates[i]);
        }
        lemma_reconciling_brings_nobody(statics, shorter, ships, player);
        let before = finished(statics, shorter, ships);
        let after = before.finishing(statics, candidates.last());
        assert(candidates.last() == candidates[candidates.len() - 1]);
        assert forall|i: int| 0 <= i < after.site.entities.len() implies !is_player(
            #[trigger] after.site.entities[i],
            player,
        ) by {
            if i < before.site.entities.len() {
                assert(after.site.entities[i] == before.site.entities[i]);
            }
        }
    }
}

/// A player that has left stays gone while others arrive.
pub proof fn lemma_others_arriving_change_nothing(
    state: RoundState,
    solarsystem: SolarsystemId,
    site: SiteInfo,
    arriving: Seq<Player>,
    player: Player,
    location: PlayerLocation,
    entry: SiteLog,
)
    requires
        has_left(state, player, location, entry),
        !arriving.contains(player),
    ensures
        has_left(state.warped_in(solarsystem, site, arriving), player, location, entry),
    decreases arriving.len(),
{
    if arriving.len() > 0 {
        let shorter = arriving.drop_last();
        assert(!shorter.contains(player)) by {
            if shorter.contains(player) {
                let k = choose|k: int| 0 <= k < shorter.len() && shorter[k] == player;
                assert(arriving[k] == player);
            }
        }
        lemma_others_arriving_change_nothing(
            state,
            solarsystem,
            site,
            shorter,
            player,
            location,
            entry,
        );
        let before = state.warped_in(solarsystem, site, shorter);
        let after = before.arrived(solarsystem, site, arriving.last());
        assert(arriving[arriving.len() - 1] == arriving.last());
        assert(arriving.last() != player);
        let at_entry = choose|i: int| 0 <= i < before.log.len() && before.log[i] == entry;
        assert(after.log[at_entry] == entry);
        assert forall|i: int| 0 <= i < after.site.entities.len() implies !is_player(
            #[trigger] after.site.entities[i],
            player,
        ) by {
            if i < before.site.entities.len() {
                assert(after.site.entities[i] == before.site.entities[i]);
            }
        }
    }
}

/// A player that asks to warp, and for nothing else, is gone from the site
/// after the round, whoever else is in the site and whatever else happens in
/// the round, as long as its ship is alive when its turn comes: it is not
/// among the entities, it is on the way to the site it asked for, and the log
/// holds its departure.
///
/// `at` is the place of the first instruction of the player in the queue. The
/// player stands in the site once at most, and it is not among those that
/// arrive in the same round.
pub proof fn lemma_warp_takes_the_player_out(
    round: RoundState,
    statics: Statics,
    solarsystem: SolarsystemId,
    site: SiteInfo,
    queue: Seq<(Actor, Instruction)>,
    players_warping_in: Seq<Player>,
    at: int,
    player: Player,
    target: SiteInfo,
)
    requires
        can_resolve(round.site, queue),
        0 <= at < queue.len(),
        queue[at].0 == Actor::Player(player),
        forall|i: int| 0 <= i < at ==> (#[trigger] queue[i]).0 != Actor::Player(player),
        forall|i: int|
            0 <= i < queue.len() && (#[trigger] queue[i]).0 == Actor::Player(player) ==> queue[i].1
                == Instruction::Warp(InstructionWarp { target }),
        round.resolved(statics, solarsystem, site, queue.take(at)).site.ships[player].status.alive(),
        at_most_once(round.site.entities, player),
        !players_warping_in.contains(player),
    ensures
        has_left(
            round.advanced(statics, solarsystem, site, queue, players_warping_in),
            player,
            PlayerLocation::Space(PlayerInSpace { solarsystem, towards: target }),
            SiteLog::WarpOut(SiteLogActor::Player(player, round.site.ships[player].fitting.layout)),
        ),
{
    let location = PlayerLocation::Space(PlayerInSpace { solarsystem, towards: target });
    let entry = SiteLog::WarpOut(
        SiteLogActor::Player(player, round.site.ships[player].fitting.layout),
    );
    assert(round.site.knows(queue[at].0));
    lemma_resolving_keeps_order(round, statics, solarsystem, site, queue, at, player);
    let before = round.resolved(statics, solarsystem, site, queue.take(at));
    assert(queue.take(at + 1).drop_last() =~= queue.take(at));
    assert(queue.take(at + 1).last() == queue[at]);
    let gone = before.step(statics, solarsystem, site, queue[at].0, queue[at].1);
    assert(gone == round.resolved(statics, solarsystem, site, queue.take(at + 1)));
    lemma_without_player_keeps_the_rest(before.site.entities, player, player);
    assert(gone.log[before.log.len() as int] == entry);
    assert(has_left(gone, player, location, entry));
    assert forall|i: int| at < i < queue.len() implies (#[trigger] queue[i]).1.leaves_site() && (
    queue[i].0 == Actor::Player(player) ==> queue[i].1 == Instruction::Warp(
        InstructionWarp { target },
    )) by {
        assert(queue[at].1.leaves_site());
    }
    if at + 1 < queue.len() {
        lemma_leaving_changes_nothing(
            round,
            statics,
            solarsystem,
            site,
            queue,
            at,
            queue.len() as int,
            player,
            target,
            entry,
        );
    }
    assert(queue.take(queue.len() as int) =~= queue);
    let resolved = round.resolved(statics, solarsystem, site, queue);
    assert(has_left(resolved, player, location, entry));
    lemma_reconciling_brings_nobody(statics, resolved.site.entities, resolved.site.ships, player);
    let reconciled = resolved.reconciled(statics);
    let at_entry = choose|i: int| 0 <= i < resolved.log.len() && resolved.log[i] == entry;
    assert(reconciled.log[at_entry] == entry);
    assert(has_left(reconciled, player, location, entry));
    lemma_others_arriving_change_nothing(
        reconciled,
        solarsystem,
        site,
        players_warping_in,
        player,
        location,
        entry,
    );
}

/// Whatever a player of the order has in its queue is among what the players
/// issued.
pub proof fn lemma_players_issued_holds(
    order: Seq<Player>,
    player_instructions: Map<Player, Seq<Instruction>>,
    player: Player,
    k: int,
)
    requires
        order.contains(player),
        0 <= k < player_instructions[player].len(),
    ensures
        players_issued(order, player_instructions).contains(
            (Actor::Player(player), player_instructions[player][k]),
        ),
    decreases order.len(),
{
    let all = players_issued(order, player_instructions);
    let early = players_issued(order.drop_last(), player_instructions);
    let last = issued_by(Actor::Player(order.last()), player_instructions[order.last()]);
    let found = (Actor::Player(player), player_instructions[player][k]);
    let place = choose|i: int| 0 <= i < order.len() && order[i] == player;
    if place < order.len() - 1 {
        assert(order.drop_last()[place] == player);
        lemma_players_issued_holds(order.drop_last(), player_instructions, player, k);
        let i = choose|i: int| 0 <= i < early.len() && early[i] == found;
        assert(all[i] == found);
    } else {
        assert(order.last() == player);
        assert(last[k] == found);
        assert(all[early.len() + k] == found);
    }
}

/// Where an actor has an instruction in the queue, one of its instructions is
/// its first.
pub proof fn lemma_first_turn(queue: Seq<(Actor, Instruction)>, actor: Actor, index: int)
    requires
        0 <= index < queue.len(),
        queue[index].0 == actor,
    ensures
        exists|at: int|
            0 <= at <= index && (#[trigger] queue[at]).0 == actor && forall|i: int|
                0 <= i < at ==> (#[trigger] queue[i]).0 != actor,
    decreases index,
{
    if exists|j: int| 0 <= j < index && (#[trigger] queue[j]).0 == actor {
        let j = choose|j: int| 0 <= j < index && (#[trigger] queue[j]).0 == actor;
        lemma_first_turn(queue, actor, j);
    }
}

/// A player that has asked to warp, and for nothing else, is gone from the
/// site after its round, whoever else is in the site, whatever the others have
/// asked for and in whatever order the players are walked, as long as its ship
/// is alive whenever its turn comes: it is not among the entities, it is on
/// the way to the site it asked for, and the log holds its departure.
///
/// The round is ready, the player stands in the site once at most, and it is
/// not among those that arrive in the same round.
pub proof fn lemma_warping_player_leaves(
    round: RoundState,
    statics: Statics,
    solarsystem: SolarsystemId,
    site: SiteInfo,
    player_instructions: Map<Player, Seq<Instruction>>,
    npc_instructions: Seq<(usize, Seq<Instruction>)>,
    players_warping_in: Seq<Player>,
    order: Seq<Player>,
    player: Player,
    target: SiteInfo,
)
    requires
        round_ready(round.site, player_instructions, npc_instructions, players_warping_in),
        enumerates(order, player_instructions.dom()),
        player_instructions.contains_key(player),
        player_instructions[player].len() > 0,
        forall|k: int|
            0 <= k < player_instructions[player].len() ==> #[trigger] player_instructions[player][k]
                == Instruction::Warp(InstructionWarp { target }),
        at_most_once(round.site.entities, player),
        !players_warping_in.contains(player),
        ({
            let queue = sorted_from(order, player_instructions, npc_instructions);
            forall|at: int|
                0 <= at < queue.len() && (#[trigger] queue[at]).0 == Actor::Player(player)
                    ==> round.resolved(
                    statics,
                    solarsystem,
                    site,
                    queue.take(at),
                ).site.ships[player].status.alive()
        }),
    ensures
        has_left(
            round.advanced(
                statics,
                solarsystem,
                site,
                sorted_from(order, player_instructions, npc_instructions),
                players_warping_in,
            ),
            player,
            PlayerLocation::Space(PlayerInSpace { solarsystem, towards: target }),
            SiteLog::WarpOut(SiteLogActor::Player(player, round.site.ships[player].fitting.layout)),
        ),
{
    let from_players = players_issued(order, player_instructions);
    let from_npcs = npcs_issued(npc_instructions);
    let issued = from_players + from_npcs;
    let queue = sorted_from(order, player_instructions, npc_instructions);
    let warp = Instruction::Warp(InstructionWarp { target });
    lemma_sorted_can_resolve(
        round.site,
        player_instructions,
        npc_instructions,
        players_warping_in,
        order,
    );
    lemma_round_order(issued);
    lemma_players_issued_members(order, player_instructions);
    lemma_npcs_issued_members(npc_instructions);
    assert forall|i: int|
        0 <= i < queue.len() && (#[trigger] queue[i]).0 == Actor::Player(player) implies queue[i].1
        == warp by {
        assert(issued.contains(queue[i]));
        let m = choose|m: int| 0 <= m < issued.len() && issued[m] == queue[i];
        if m < from_players.len() {
            assert(issued[m] == from_players[m]);
            let k = choose|k: int|
                0 <= k < player_instructions[player].len() && player_instructions[player][k]
                    == queue[i].1;
            assert(player_instructions[player][k] == warp);
        } else {
            assert(issued[m] == from_npcs[m - from_players.len()]);
        }
    }
    // The player has a turn: the queue holds whatever was issued.
    assert(order.to_set().contains(player));
    lemma_players_issued_holds(order, player_instructions, player, 0);
    let asked = (Actor::Player(player), player_instructions[player][0]);
    let issued_at = choose|i: int| 0 <= i < from_players.len() && from_players[i] == asked;
    assert(issued[issued_at] == asked);
    assert(issued.contains(asked));
    lemma_round_order_is_permutation(issued);
    vstd::seq_lib::to_multiset_contains(issued, asked);
    vstd::seq_lib::to_multiset_contains(queue, asked);
    let some_turn = choose|i: int| 0 <= i < queue.len() && queue[i] == asked;
    lemma_first_turn(queue, Actor::Player(player), some_turn);
    let at = choose|at: int|
        0 <= at <= some_turn && (#[trigger] queue[at]).0 == Actor::Player(player) && forall|i: int|
            0 <= i < at ==> (#[trigger] queue[i]).0 != Actor::Player(player);
    lemma_warp_takes_the_player_out(
        round,
        statics,
        solarsystem,
        site,
        queue,
        players_warping_in,
        at,
        player,
        target,
    );
}

} // verus!
