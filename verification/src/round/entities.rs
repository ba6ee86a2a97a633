//! Finding and removing entities of a site.

use vstd::prelude::*;
use crate::site::{Player, SiteEntity, SiteEntityNpc};

verus! {

/// The entity is the given player.
pub open spec fn is_player(entity: SiteEntity, player: Player) -> bool {
    entity matches SiteEntity::Player(p) && p.id == player
}

/// The player stands at `index`, and nowhere before it.
pub open spec fn first_at(entities: Seq<SiteEntity>, player: Player, index: int) -> bool {
    &&& 0 <= index < entities.len()
    &&& is_player(entities[index], player)
    &&& forall|j: int| 0 <= j < index ==> !is_player(#[trigger] entities[j], player)
}

/// The first index at which the player stands, if it is in the site at all.
pub open spec fn position_of(entities: Seq<SiteEntity>, player: Player) -> Option<int> {
    if exists|i: int| first_at(entities, player, i) {
        Some(choose|i: int| first_at(entities, player, i))
    } else {
        None
    }
}

/// The entities without the first occurrence of the player. All of them where
/// the player is not in the site.
pub open spec fn without_player(entities: Seq<SiteEntity>, player: Player) -> Seq<SiteEntity> {
    match position_of(entities, player) {
        Some(index) => entities.remove(index),
        None => entities,
    }
}

/// A player stands at `index`, and none before it.
pub open spec fn first_player_at(entities: Seq<SiteEntity>, index: int) -> bool {
    &&& 0 <= index < entities.len()
    &&& entities[index] is Player
    &&& forall|j: int| 0 <= j < index ==> !(#[trigger] entities[j] is Player)
}

/// The index of the first player of the site, whoever it is.
pub open spec fn first_player(entities: Seq<SiteEntity>) -> Option<int> {
    if exists|i: int| first_player_at(entities, i) {
        Some(choose|i: int| first_player_at(entities, i))
    } else {
        None
    }
}

/// The players among the entities, each with its index, in the order of the
/// site.
pub open spec fn players_of(entities: Seq<SiteEntity>) -> Seq<(usize, Player)>
    decreases entities.len(),
{
    if entities.len() == 0 {
        Seq::empty()
    } else {
        let before = players_of(entities.drop_last());
        match entities.last() {
            SiteEntity::Player(player) => before.push(((entities.len() - 1) as usize, player.id)),
            _ => before,
        }
    }
}

/// The index of the player in the site.
pub fn player_pos(site_entities: &[SiteEntity], player: Player) -> (pos: Option<usize>)
    ensures
        pos matches Some(index) ==> first_at(site_entities@, player, index as int),
        pos is None ==> forall|j: int|
            0 <= j < site_entities@.len() ==> !is_player(#[trigger] site_entities@[j], player),
        match pos {
            Some(index) => position_of(site_entities@, player) == Some(index as int),
            None => position_of(site_entities@, player) is None,
        },
{
    let mut i: usize = 0;
    while i < site_entities.len()
        invariant
            i <= site_entities@.len(),
            forall|j: int| 0 <= j < i ==> !is_player(#[trigger] site_entities@[j], player),
        decreases site_entities@.len() - i,
    {
        if let SiteEntity::Player(p) = &site_entities[i] {
            if p.id == player {
                proof {
                    lemma_first_at_is_position(site_entities@, player, i as int);
                }
                return Some(i);
            }
        }
        i += 1;
    }
    None
}

/// Only one index is the first at which a player stands.
pub proof fn lemma_first_at_is_position(entities: Seq<SiteEntity>, player: Player, index: int)
    requires
        first_at(entities, player, index),
    ensures
        position_of(entities, player) == Some(index),
{
    let chosen = choose|i: int| first_at(entities, player, i);
    assert(first_at(entities, player, chosen));
    if chosen < index {
        assert(!is_player(entities[chosen], player));
    }
    if index < chosen {
        assert(!is_player(entities[index], player));
    }
}

/// Takes the player out of the site. Does nothing where it is not there.
pub fn remove_player(site_entities: &mut Vec<SiteEntity>, player: Player)
    ensures
        final(site_entities)@ == without_player(old(site_entities)@, player),
{
    if let Some(index) = player_pos(site_entities.as_slice(), player) {
        site_entities.remove(index);
    }
}

/// The NPC at the index, to be changed in place.
pub fn get_mut_npc(site_entities: &mut Vec<SiteEntity>, npc_index: usize) -> (npc: &mut SiteEntityNpc)
    requires
        npc_index < old(site_entities)@.len(),
        old(site_entities)@[npc_index as int] is Npc,
    ensures
        *npc == old(site_entities)@[npc_index as int]->Npc_0,
        final(site_entities)@ == old(site_entities)@.update(
            npc_index as int,
            SiteEntity::Npc(*final(npc)),
        ),
{
    match &mut site_entities[npc_index] {
        SiteEntity::Npc(npc) => npc,
        _ => vstd::pervasive::unreached(),
    }
}

/// All players of the site with their indices.
pub fn get_players(site_entities: &[SiteEntity]) -> (players: Vec<(usize, Player)>)
    ensures
        players@ == players_of(site_entities@),
{
    let mut players: Vec<(usize, Player)> = Vec::new();
    let mut i: usize = 0;
    while i < site_entities.len()
        invariant
            i <= site_entities@.len(),
            players@ == players_of(site_entities@.take(i as int)),
        decreases site_entities@.len() - i,
    {
        proof {
            assert(site_entities@.take(i + 1).drop_last() =~= site_entities@.take(i as int));
        }
        if let SiteEntity::Player(player) = &site_entities[i] {
            players.push((i, player.id));
        }
        i += 1;
    }
    proof {
        assert(site_entities@.take(i as int) =~= site_entities@);
    }
    players
}

/// The list of players starts with the first player of the site and is empty
/// only where the site has none.
pub proof fn lemma_players_of_first(entities: Seq<SiteEntity>)
    requires
        entities.len() <= usize::MAX,
    ensures
        match first_player(entities) {
            Some(index) => players_of(entities).len() > 0 && players_of(entities)[0].0 == index,
            None => players_of(entities).len() == 0,
        },
        first_player(entities) matches Some(index) ==> first_player_at(entities, index),
        first_player(entities) is None ==> forall|j: int|
            0 <= j < entities.len() ==> !(#[trigger] entities[j] is Player),
    decreases entities.len(),
{
    if entities.len() == 0 {
        assert forall|i: int| !first_player_at(entities, i) by {}
    } else {
        let shorter = entities.drop_last();
        lemma_players_of_first(shorter);
        match first_player(shorter) {
            Some(index) => {
                assert(first_player_at(shorter, index));
                assert(players_of(entities)[0] == players_of(shorter)[0]);
                assert(first_player_at(entities, index)) by {
                    assert forall|j: int| 0 <= j < index implies !(#[trigger] entities[j]
                        is Player) by {
                        assert(entities[j] == shorter[j]);
                    }
                    assert(entities[index] == shorter[index]);
                }
                lemma_first_player_unique(entities, index);
            },
            None => {
                assert forall|j: int| 0 <= j < entities.len() - 1 implies !(#[trigger] entities[j]
                    is Player) by {
                    assert(entities[j] == shorter[j]);
                }
                if entities.last() is Player {
                    assert(first_player_at(entities, entities.len() - 1));
                    lemma_first_player_unique(entities, entities.len() - 1);
                    assert(players_of(entities).len() == 1);
                } else {
                    assert forall|i: int| !first_player_at(entities, i) by {}
                    assert(players_of(entities).len() == 0);
                }
            },
        }
    }
}

/// Only one index is the first at which any player stands.
pub proof fn lemma_first_player_unique(entities: Seq<SiteEntity>, index: int)
    requires
        first_player_at(entities, index),
    ensures
        first_player(entities) == Some(index),
{
    let chosen = choose|i: int| first_player_at(entities, i);
    assert(first_player_at(entities, chosen));
    if chosen < index {
        assert(!(entities[chosen] is Player));
    }
    if index < chosen {
        assert(!(entities[index] is Player));
    }
}

} // verus!
