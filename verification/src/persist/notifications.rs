//! What waits to be told to each player.

use vstd::prelude::*;
use std::collections::HashMap;
use crate::round::instructions::{enumerates, players_with_entry};
use crate::site::{Player, SiteLog};

verus! {

broadcast use vstd::std_specs::hash::group_hash_axioms;

/// The notifications of the players. Nothing is kept for a player that has
/// none.
pub struct Notifications {
    notifications: HashMap<Player, Vec<SiteLog>>,
}

impl View for Notifications {
    type V = Map<Player, Seq<SiteLog>>;

    /// The lists that are kept.
    closed spec fn view(&self) -> Map<Player, Seq<SiteLog>> {
        self.notifications@.map_values(|list: Vec<SiteLog>| list@)
    }
}

impl Notifications {
    /// The store keeps no empty list.
    pub closed spec fn wf(&self) -> bool {
        forall|player: Player| #[trigger]
            self.notifications@.contains_key(player) ==> self.notifications@[player]@.len() > 0
    }

    /// What waits for the player, oldest first.
    pub open spec fn notifications_of(&self, player: Player) -> Seq<SiteLog> {
        if self@.contains_key(player) {
            self@[player]
        } else {
            Seq::empty()
        }
    }

    pub fn new() -> (store: Self)
        ensures
            store@ == Map::<Player, Seq<SiteLog>>::empty(),
            store.wf(),
    {
        let store = Notifications { notifications: HashMap::new() };
        proof {
            assert(store@ =~= Map::<Player, Seq<SiteLog>>::empty());
        }
        store
    }

    /// Puts more notifications behind those that already wait for the player.
    pub fn add(&mut self, player: Player, add: &[SiteLog])
        requires
            old(self).wf(),
        ensures
            final(self).wf(),
            final(self).notifications_of(player) == old(self).notifications_of(player) + add@,
            forall|other: Player|
                other != player ==> #[trigger] final(self).notifications_of(other) == old(self).notifications_of(other),
    {
        let mut current = match self.notifications.remove(&player) {
            Some(list) => list,
            None => Vec::new(),
        };
        let ghost waiting = old(self).notifications_of(player);
        let ghost others = self.notifications@;
        let mut i: usize = 0;
        while i < add.len()
            invariant
                i <= add@.len(),
                current@ == waiting + add@.take(i as int),
                self.notifications@ == others,
            decreases add@.len() - i,
        {
            current.push(add[i]);
            proof {
                assert(current@ =~= waiting + add@.take(i + 1));
            }
            i += 1;
        }
        proof {
            assert(add@.take(i as int) =~= add@);
        }
        if current.len() > 0 {
            self.notifications.insert(player, current);
        }
        proof {
            assert(final(self).notifications_of(player) =~= waiting + add@);
        }
    }

    /// What waits for the player. It goes on waiting.
    pub fn read(&self, player: Player) -> (result: Vec<SiteLog>)
        ensures
            result@ == self.notifications_of(player),
    {
        let mut result: Vec<SiteLog> = Vec::new();
        if let Some(list) = self.notifications.get(&player) {
            let mut i: usize = 0;
            while i < list.len()
                invariant
                    i <= list@.len(),
                    result@ == list@.take(i as int),
                decreases list@.len() - i,
            {
                result.push(list[i]);
                proof {
                    assert(result@ =~= list@.take(i + 1));
                }
                i += 1;
            }
            proof {
                assert(list@.take(i as int) =~= list@);
            }
        }
        result
    }

    /// Takes out everything that waits for the player.
    pub fn pop(&mut self, player: Player) -> (result: Vec<SiteLog>)
        requires
            old(self).wf(),
        ensures
            final(self).wf(),
            result@ == old(self).notifications_of(player),
            final(self)@ == old(self)@.remove(player),
            final(self).notifications_of(player).len() == 0,
    {
        let result = match self.notifications.remove(&player) {
            Some(list) => list,
            None => Vec::new(),
        };
        proof {
            assert(self@ =~= old(self)@.remove(player));
        }
        result
    }

    /// Every player that something waits for, once.
    pub fn list_players(&self) -> (players: Vec<Player>)
        ensures
            enumerates(players@, self@.dom()),
    {
        let players = players_with_entry(&self.notifications);
        proof {
            assert(self@.dom() =~= self.notifications@.dom());
        }
        players
    }
}

} // verus!
