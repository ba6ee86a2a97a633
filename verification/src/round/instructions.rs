//! The instruction sorter: one ordered queue of everything that was asked of a
//! round.

use vstd::prelude::*;
use std::collections::HashMap;
use vstd::multiset::Multiset;
use vstd::std_specs::iter::IteratorSpec;
use crate::instruction::Instruction;
use crate::site::Player;

verus! {

broadcast use vstd::std_specs::hash::group_hash_axioms;

/// Who issued an instruction.
#[derive(Debug, Clone, Copy, PartialEq, Eq, Structural)]
pub enum Actor {
    Player(Player),
    /// Index within the site
    Npc(usize),
}

/// The instructions of one actor, each together with the actor.
pub open spec fn issued_by(actor: Actor, instructions: Seq<Instruction>) -> Seq<
    (Actor, Instruction),
> {
    Seq::new(instructions.len(), |i: int| (actor, instructions[i]))
}

/// The instructions of the players, player after player in the given order,
/// each player's in the order of its queue.
pub open spec fn players_issued(
    order: Seq<Player>,
    player_instructions: Map<Player, Seq<Instruction>>,
) -> Seq<(Actor, Instruction)>
    decreases order.len(),
{
    if order.len() == 0 {
        Seq::empty()
    } else {
        players_issued(order.drop_last(), player_instructions) + issued_by(
            Actor::Player(order.last()),
            player_instructions[order.last()],
        )
    }
}

/// The instructions of the NPCs, NPC after NPC, each one's in its own order.
pub open spec fn npcs_issued(npc_instructions: Seq<(usize, Seq<Instruction>)>) -> Seq<
    (Actor, Instruction),
>
    decreases npc_instructions.len(),
{
    if npc_instructions.len() == 0 {
        Seq::empty()
    } else {
        npcs_issued(npc_instructions.drop_last()) + issued_by(
            Actor::Npc(npc_instructions.last().0),
            npc_instructions.last().1,
        )
    }
}

/// The queue of each player that the map has an entry for.
pub open spec fn queues_of(player_instructions: Map<Player, Vec<Instruction>>) -> Map<
    Player,
    Seq<Instruction>,
> {
    player_instructions.map_values(|queue: Vec<Instruction>| queue@)
}

/// What each NPC of the list asks for, with the index of the NPC.
pub open spec fn asked_of(npc_instructions: Seq<(usize, Vec<Instruction>)>) -> Seq<
    (usize, Seq<Instruction>),
> {
    npc_instructions.map_values(|asked: (usize, Vec<Instruction>)| (asked.0, asked.1@))
}

/// Those of the issued instructions whose kind has the given rank, in the order
/// in which they were issued.
pub open spec fn of_rank(issued: Seq<(Actor, Instruction)>, rank: int) -> Seq<(Actor, Instruction)>
    decreases issued.len(),
{
    if issued.len() == 0 {
        Seq::empty()
    } else if issued.last().1.rank() == rank {
        of_rank(issued.drop_last(), rank).push(issued.last())
    } else {
        of_rank(issued.drop_last(), rank)
    }
}

/// The issued instructions in the order in which a round resolves them: kind
/// after kind, and within one kind as they were issued.
pub open spec fn in_round_order(issued: Seq<(Actor, Instruction)>) -> Seq<(Actor, Instruction)> {
    of_rank(issued, 0) + of_rank(issued, 1) + of_rank(issued, 2) + of_rank(issued, 3) + of_rank(
        issued,
        4,
    )
}

/// The sequence lists every one of the players once.
pub open spec fn enumerates(order: Seq<Player>, players: Set<Player>) -> bool {
    order.no_duplicates() && order.to_set() == players
}

/// The queue of a round where the player map is walked in the given order:
/// first the instructions of the players, then those of the NPCs, all of it
/// brought into the order of a round.
pub open spec fn sorted_from(
    order: Seq<Player>,
    player_instructions: Map<Player, Seq<Instruction>>,
    npc_instructions: Seq<(usize, Seq<Instruction>)>,
) -> Seq<(Actor, Instruction)> {
    in_round_order(players_issued(order, player_instructions) + npcs_issued(npc_instructions))
}

/// No instruction is followed by one of a kind that comes earlier in a round.
pub open spec fn ordered_by_kind(queue: Seq<(Actor, Instruction)>) -> bool {
    forall|i: int, j: int|
        0 <= i < j < queue.len() ==> (#[trigger] queue[i]).1.rank() <= (#[trigger] queue[j]).1.rank()
}

/// What was picked for a rank has that rank and was issued.
pub proof fn lemma_of_rank_members(issued: Seq<(Actor, Instruction)>, rank: int)
    ensures
        forall|k: int|
            0 <= k < of_rank(issued, rank).len() ==> (#[trigger] of_rank(issued, rank)[k]).1.rank()
                == rank && issued.contains(of_rank(issued, rank)[k]),
        of_rank(issued, rank).len() <= issued.len(),
    decreases issued.len(),
{
    if issued.len() > 0 {
        let before = issued.drop_last();
        lemma_of_rank_members(before, rank);
        assert forall|k: int| 0 <= k < of_rank(issued, rank).len() implies (#[trigger] of_rank(
            issued,
            rank,
        )[k]).1.rank() == rank && issued.contains(of_rank(issued, rank)[k]) by {
            if k < of_rank(before, rank).len() {
                let found = of_rank(before, rank)[k];
                assert(before.contains(found));
                let m = choose|m: int| 0 <= m < before.len() && before[m] == found;
                assert(issued[m] == found);
            } else {
                assert(issued[issued.len() - 1] == issued.last());
            }
        }
    }
}

/// The queue of a round holds every issued instruction as often as it was
/// issued: bringing the instructions into the order of a round loses none and
/// invents none.
pub proof fn lemma_round_order_is_permutation(issued: Seq<(Actor, Instruction)>)
    ensures
        in_round_order(issued).to_multiset() == issued.to_multiset(),
    decreases issued.len(),
{
    broadcast use vstd::multiset::group_multiset_axioms;
    broadcast use vstd::seq_lib::lemma_multiset_commutative;
    broadcast use vstd::seq_lib::to_multiset_build;

    let ranked = |rank: int| of_rank(issued, rank).to_multiset();
    assert(in_round_order(issued).to_multiset() =~= ranked(0).add(ranked(1)).add(ranked(2)).add(
        ranked(3),
    ).add(ranked(4)));
    if issued.len() == 0 {
        assert(issued.to_multiset() =~= Multiset::empty()) by {
            issued.to_multiset_ensures();
        }
        assert(of_rank(issued, 0) =~= issued);
    } else {
        let before = issued.drop_last();
        let last = issued.last();
        lemma_round_order_is_permutation(before);
        let were = |rank: int| of_rank(before, rank).to_multiset();
        assert(in_round_order(before).to_multiset() =~= were(0).add(were(1)).add(were(2)).add(
            were(3),
        ).add(were(4)));
        assert(before.push(last) =~= issued);
        assert(issued.to_multiset() =~= before.to_multiset().insert(last));
        assert forall|rank: int| 0 <= rank <= 4 implies #[trigger] ranked(rank) =~= if last.1.rank()
            == rank {
            were(rank).insert(last)
        } else {
            were(rank)
        } by {}
        assert(ranked(0).add(ranked(1)).add(ranked(2)).add(ranked(3)).add(ranked(4)) =~= were(
            0,
        ).add(were(1)).add(were(2)).add(were(3)).add(were(4)).insert(last));
    }
}

/// The queue of a round is ordered by kind, and holds nothing that was not
/// issued.
pub proof fn lemma_round_order(issued: Seq<(Actor, Instruction)>)
    ensures
        ordered_by_kind(in_round_order(issued)),
        forall|k: int|
            0 <= k < in_round_order(issued).len() ==> issued.contains(
                #[trigger] in_round_order(issued)[k],
            ),
{
    lemma_of_rank_members(issued, 0);
    lemma_of_rank_members(issued, 1);
    lemma_of_rank_members(issued, 2);
    lemma_of_rank_members(issued, 3);
    lemma_of_rank_members(issued, 4);
    let r0 = of_rank(issued, 0);
    let r1 = of_rank(issued, 1);
    let r2 = of_rank(issued, 2);
    let r3 = of_rank(issued, 3);
    let r4 = of_rank(issued, 4);
    let queue = in_round_order(issued);
    assert forall|k: int| 0 <= k < queue.len() implies issued.contains(#[trigger] queue[k]) && (
    #[trigger] queue[k]).1.rank() == (if k < r0.len() {
        0int
    } else if k < r0.len() + r1.len() {
        1int
    } else if k < r0.len() + r1.len() + r2.len() {
        2int
    } else if k < r0.len() + r1.len() + r2.len() + r3.len() {
        3int
    } else {
        4int
    }) by {
        if k < r0.len() {
            assert(queue[k] == r0[k]);
        } else if k < r0.len() + r1.len() {
            assert(queue[k] == r1[k - r0.len()]);
        } else if k < r0.len() + r1.len() + r2.len() {
            assert(queue[k] == r2[k - r0.len() - r1.len()]);
        } else if k < r0.len() + r1.len() + r2.len() + r3.len() {
            assert(queue[k] == r3[k - r0.len() - r1.len() - r2.len()]);
        } else {
            assert(queue[k] == r4[k - r0.len() - r1.len() - r2.len() - r3.len()]);
        }
    }
}

/// Whatever stands in the list of one actor's instructions is an instruction
/// of that actor.
pub proof fn lemma_issued_by_members(actor: Actor, instructions: Seq<Instruction>)
    ensures
        forall|k: int|
            0 <= k < issued_by(actor, instructions).len() ==> (#[trigger] issued_by(
                actor,
                instructions,
            )[k]).0 == actor && instructions.contains(issued_by(actor, instructions)[k].1),
{
    assert forall|k: int| 0 <= k < issued_by(actor, instructions).len() implies (
    #[trigger] issued_by(actor, instructions)[k]).0 == actor && instructions.contains(
        issued_by(actor, instructions)[k].1,
    ) by {
        assert(instructions[k] == issued_by(actor, instructions)[k].1);
    }
}

/// Whatever the players issued comes from a player of the order, out of the
/// queue of that player.
pub proof fn lemma_players_issued_members(
    order: Seq<Player>,
    player_instructions: Map<Player, Seq<Instruction>>,
)
    ensures
        forall|k: int|
            0 <= k < players_issued(order, player_instructions).len() ==> ((
            #[trigger] players_issued(order, player_instructions)[k]).0 matches Actor::Player(
                player,
            ) && order.contains(player) && player_instructions[player].contains(
                players_issued(order, player_instructions)[k].1,
            )),
    decreases order.len(),
{
    if order.len() > 0 {
        let before = order.drop_last();
        lemma_players_issued_members(before, player_instructions);
        let actor = Actor::Player(order.last());
        let queue = player_instructions[order.last()];
        lemma_issued_by_members(actor, queue);
        let all = players_issued(order, player_instructions);
        let early = players_issued(before, player_instructions);
        assert forall|k: int| 0 <= k < all.len() implies ((#[trigger] all[k]).0 matches Actor::Player(
            player,
        ) && order.contains(player) && player_instructions[player].contains(all[k].1)) by {
            if k < early.len() {
                assert(all[k] == early[k]);
                let player = early[k].0->Player_0;
                assert(before.contains(player));
                let m = choose|m: int| 0 <= m < before.len() && before[m] == player;
                assert(order[m] == player);
            } else {
                assert(all[k] == issued_by(actor, queue)[k - early.len()]);
                assert(order[order.len() - 1] == order.last());
            }
        }
    }
}

/// Whatever the NPCs issued comes from one entry of the list, out of the
/// instructions of that entry.
pub proof fn lemma_npcs_issued_members(npc_instructions: Seq<(usize, Seq<Instruction>)>)
    ensures
        forall|k: int|
            0 <= k < npcs_issued(npc_instructions).len() ==> exists|n: int|
                0 <= n < npc_instructions.len() && (#[trigger] npcs_issued(npc_instructions)[k]).0
                    == Actor::Npc(npc_instructions[n].0) && (#[trigger] npc_instructions[n]).1.contains(
                    npcs_issued(npc_instructions)[k].1,
                ),
    decreases npc_instructions.len(),
{
    if npc_instructions.len() > 0 {
        let before = npc_instructions.drop_last();
        lemma_npcs_issued_members(before);
        let actor = Actor::Npc(npc_instructions.last().0);
        let queue = npc_instructions.last().1;
        lemma_issued_by_members(actor, queue);
        let all = npcs_issued(npc_instructions);
        let early = npcs_issued(before);
        assert forall|k: int| 0 <= k < all.len() implies exists|n: int|
            0 <= n < npc_instructions.len() && (#[trigger] all[k]).0 == Actor::Npc(
                npc_instructions[n].0,
            ) && (#[trigger] npc_instructions[n]).1.contains(all[k].1) by {
            if k < early.len() {
                assert(all[k] == early[k]);
                let n = choose|n: int|
                    0 <= n < before.len() && early[k].0 == Actor::Npc(before[n].0) && (
                    #[trigger] before[n]).1.contains(early[k].1);
                assert(npc_instructions[n] == before[n]);
            } else {
                assert(all[k] == issued_by(actor, queue)[k - early.len()]);
                let n = npc_instructions.len() - 1;
                assert(npc_instructions[n] == npc_instructions.last());
            }
        }
    }
}

/// The players that the map has an entry for, in the order in which the map
/// hands them out.
pub fn players_with_entry<V>(map: &HashMap<Player, V>) -> (players: Vec<Player>)
    ensures
        enumerates(players@, map@.dom()),
{
    let mut players: Vec<Player> = Vec::new();
    for player in it: map.keys()
        invariant
            it.seq() == map.keys().remaining(),
            players@ == it.seq().take(it.index()).unref(),
    {
        proof {
            assert(it.seq().take(it.index() + 1).unref() =~= it.seq().take(it.index()).unref().push(
                *player,
            ));
        }
        players.push(*player);
    }
    proof {
        let handed_out = map.keys().remaining();
        assert(handed_out.take(handed_out.len() as int) =~= handed_out);
        assert(players@ == handed_out.unref());
        assert forall|i: int, j: int| 0 <= i < j < players@.len() implies players@[i]
            != players@[j] by {
            assert(handed_out[i] != handed_out[j]);
        }
    }
    players
}

/// Appends the instructions of one actor to the queue.
fn push_issued(queue: &mut Vec<(Actor, Instruction)>, actor: Actor, instructions: &Vec<Instruction>)
    ensures
        final(queue)@ == old(queue)@ + issued_by(actor, instructions@),
{
    let mut i: usize = 0;
    while i < instructions.len()
        invariant
            i <= instructions@.len(),
            queue@ == old(queue)@ + issued_by(actor, instructions@.take(i as int)),
        decreases instructions@.len() - i,
    {
        queue.push((actor, instructions[i]));
        proof {
            assert(issued_by(actor, instructions@.take(i + 1)) =~= issued_by(
                actor,
                instructions@.take(i as int),
            ).push((actor, instructions@[i as int])));
            assert(queue@ =~= old(queue)@ + issued_by(actor, instructions@.take(i + 1)));
        }
        i += 1;
    }
    proof {
        assert(instructions@.take(i as int) =~= instructions@);
    }
}

/// Appends those of the issued instructions whose kind has the given rank.
fn push_of_rank(queue: &mut Vec<(Actor, Instruction)>, issued: &Vec<(Actor, Instruction)>, rank: u8)
    ensures
        final(queue)@ == old(queue)@ + of_rank(issued@, rank as int),
{
    let mut i: usize = 0;
    while i < issued.len()
        invariant
            i <= issued@.len(),
            queue@ == old(queue)@ + of_rank(issued@.take(i as int), rank as int),
        decreases issued@.len() - i,
    {
        proof {
            assert(issued@.take(i + 1).drop_last() =~= issued@.take(i as int));
        }
        let (actor, instruction) = issued[i];
        if instruction.kind_rank() == rank {
            queue.push((actor, instruction));
            proof {
                assert(queue@ =~= old(queue)@ + of_rank(issued@.take(i + 1), rank as int));
            }
        }
        i += 1;
    }
    proof {
        assert(issued@.take(i as int) =~= issued@);
    }
}

/// Brings the issued instructions into the order of a round. Instructions of
/// one kind keep the order in which they were issued.
pub fn sort_by_kind(issued: &Vec<(Actor, Instruction)>) -> (queue: Vec<(Actor, Instruction)>)
    ensures
        queue@ == in_round_order(issued@),
{
    let mut queue: Vec<(Actor, Instruction)> = Vec::new();
    push_of_rank(&mut queue, issued, 0);
    push_of_rank(&mut queue, issued, 1);
    push_of_rank(&mut queue, issued, 2);
    push_of_rank(&mut queue, issued, 3);
    push_of_rank(&mut queue, issued, 4);
    proof {
        assert(queue@ =~= in_round_order(issued@));
    }
    queue
}

/// Merges what players and NPCs asked for into the one queue of the round.
///
/// All module instructions come before any instruction that leaves the site,
/// so that nobody dodges fire by docking in the round in which it is shot.
/// Between two instructions of one kind from different players the order is
/// that in which the map hands out its players; nothing more is promised of it.
///
/// Every instruction of every list takes part, as it was given: none is held
/// to be impossible and left out.
pub fn sort(
    player_instructions: &HashMap<Player, Vec<Instruction>>,
    npc_instructions: &[(usize, Vec<Instruction>)],
) -> (sorted: Vec<(Actor, Instruction)>)
    ensures
        exists|order: Seq<Player>|
            enumerates(order, player_instructions@.dom()) && sorted@ == #[trigger] sorted_from(
                order,
                queues_of(player_instructions@),
                asked_of(npc_instructions@),
            ),
{
    let players = players_with_entry(player_instructions);
    let ghost queues = queues_of(player_instructions@);
    let ghost asked = asked_of(npc_instructions@);
    let mut result: Vec<(Actor, Instruction)> = Vec::new();
    let mut i: usize = 0;
    while i < players.len()
        invariant
            i <= players@.len(),
            enumerates(players@, player_instructions@.dom()),
            queues == queues_of(player_instructions@),
            result@ == players_issued(players@.take(i as int), queues),
        decreases players@.len() - i,
    {
        proof {
            assert(players@.take(i + 1).drop_last() =~= players@.take(i as int));
            assert(players@.to_set().contains(players@[i as int]));
        }
        let player = players[i];
        let instructions = player_instructions.get(&player).unwrap();
        proof {
            assert(queues[player] == instructions@);
        }
        push_issued(&mut result, Actor::Player(player), instructions);
        i += 1;
    }
    proof {
        assert(players@.take(i as int) =~= players@);
    }
    let ghost from_players = result@;
    let mut n: usize = 0;
    while n < npc_instructions.len()
        invariant
            n <= npc_instructions@.len(),
            asked == asked_of(npc_instructions@),
            result@ == from_players + npcs_issued(asked.take(n as int)),
        decreases npc_instructions@.len() - n,
    {
        proof {
            assert(asked.take(n + 1).drop_last() =~= asked.take(n as int));
            assert(asked.take(n + 1).last() == (
                npc_instructions@[n as int].0,
                npc_instructions@[n as int].1@,
            ));
        }
        push_issued(&mut result, Actor::Npc(npc_instructions[n].0), &npc_instructions[n].1);
        proof {
            assert(result@ =~= from_players + npcs_issued(asked.take(n + 1)));
        }
        n += 1;
    }
    proof {
        assert(asked.take(n as int) =~= asked);
    }
    let sorted = sort_by_kind(&result);
    proof {
        assert(sorted@ == sorted_from(players@, queues, asked));
    }
    sorted
}

/// Empties the queue of every player. An instruction is for one round,
/// whether it was carried out or not.
pub fn cleanup(player_instructions: &mut HashMap<Player, Vec<Instruction>>)
    ensures
        final(player_instructions)@.dom() == old(player_instructions)@.dom(),
        forall|player: Player| #[trigger]
            final(player_instructions)@.contains_key(player)
                ==> final(player_instructions)@[player]@.len() == 0,
{
    let players = players_with_entry(player_instructions);
    let mut i: usize = 0;
    while i < players.len()
        invariant
            i <= players@.len(),
            enumerates(players@, old(player_instructions)@.dom()),
            player_instructions@.dom() == old(player_instructions)@.dom(),
            forall|j: int|
                0 <= j < i ==> (#[trigger] player_instructions@[players@[j]])@.len() == 0,
        decreases players@.len() - i,
    {
        proof {
            assert(players@.to_set().contains(players@[i as int]));
        }
        player_instructions.insert(players[i], Vec::new());
        proof {
            assert(player_instructions@.dom() =~= old(player_instructions)@.dom());
        }
        i += 1;
    }
    proof {
        assert forall|player: Player| #[trigger]
            player_instructions@.contains_key(player) implies player_instructions@[player]@.len()
            == 0 by {
            assert(players@.to_set().contains(player));
            let j = choose|j: int| 0 <= j < players@.len() && players@[j] == player;
            assert(player_instructions@[players@[j]]@.len() == 0);
        }
    }
}

} // verus!
