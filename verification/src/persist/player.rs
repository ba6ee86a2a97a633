//! What is kept of each player: its general data, its location, and the
//! instructions it has given for the next round of its site.
//!
//! Each store keeps nothing for a player whose value is the default: writing
//! the default removes the entry, and reading a player without an entry gives
//! the default.

use vstd::prelude::*;
use std::collections::HashMap;
use crate::instruction::Instruction;
use crate::location::{PlayerAtStation, PlayerLocation};
use crate::round::instructions::{enumerates, players_with_entry};
use crate::site::{Player, SolarsystemId};

verus! {

broadcast use vstd::std_specs::hash::group_hash_axioms;

#[derive(Debug, Clone, Copy, PartialEq, Eq, Structural)]
pub struct PlayerGeneral {
    pub home_solarsystem: SolarsystemId,
    pub home_station: u8,
    /// Paperclips are the currency
    pub paperclips: u64,
}

/// What is read of a player that nothing was written for.
pub open spec fn default_general() -> PlayerGeneral {
    PlayerGeneral { home_solarsystem: 0, home_station: 0, paperclips: 0 }
}

/// Where a player is that nothing was written for.
pub open spec fn default_location() -> PlayerLocation {
    PlayerLocation::Station(PlayerAtStation { solarsystem: 0, station: 0 })
}

impl Default for PlayerGeneral {
    fn default() -> (general: Self)
        ensures
            general == default_general(),
    {
        PlayerGeneral { home_solarsystem: 0, home_station: 0, paperclips: 0 }
    }
}

impl Default for PlayerLocation {
    fn default() -> (location: Self)
        ensures
            location == default_location(),
    {
        PlayerLocation::Station(PlayerAtStation { solarsystem: 0, station: 0 })
    }
}

/// The general data of the players.
pub struct PlayerGenerals {
    generals: HashMap<Player, PlayerGeneral>,
}

impl View for PlayerGenerals {
    type V = Map<Player, PlayerGeneral>;

    /// The entries that are kept.
    closed spec fn view(&self) -> Map<Player, PlayerGeneral> {
        self.generals@
    }
}

impl PlayerGenerals {
    /// The store keeps no entry that holds the default.
    pub closed spec fn wf(&self) -> bool {
        forall|player: Player| #[trigger]
            self.generals@.contains_key(player) ==> self.generals@[player] != default_general()
    }

    /// The general data of the player.
    pub open spec fn general_of(&self, player: Player) -> PlayerGeneral {
        if self@.contains_key(player) {
            self@[player]
        } else {
            default_general()
        }
    }

    pub fn new() -> (store: Self)
        ensures
            store@ == Map::<Player, PlayerGeneral>::empty(),
            store.wf(),
    {
        PlayerGenerals { generals: HashMap::new() }
    }

    pub fn read(&self, player: Player) -> (general: PlayerGeneral)
        ensures
            general == self.general_of(player),
    {
        match self.generals.get(&player) {
            Some(general) => *general,
            None => PlayerGeneral::default(),
        }
    }

    pub fn write(&mut self, player: Player, general: &PlayerGeneral)
        requires
            old(self).wf(),
        ensures
            final(self).wf(),
            final(self)@ == if *general == default_general() {
                old(self)@.remove(player)
            } else {
                old(self)@.insert(player, *general)
            },
            final(self).general_of(player) == *general,
            forall|other: Player|
                other != player ==> #[trigger] final(self).general_of(other) == old(self).general_of(other),
    {
        if *general == PlayerGeneral::default() {
            self.generals.remove(&player);
        } else {
            self.generals.insert(player, *general);
        }
    }
}

impl PlayerGenerals {
    /// Every player that has an entry, once.
    pub fn read_all_players(&self) -> (players: Vec<Player>)
        ensures
            enumerates(players@, self@.dom()),
    {
        players_with_entry(&self.generals)
    }
}

/// The locations of the players.
pub struct PlayerLocations {
    locations: HashMap<Player, PlayerLocation>,
}

impl View for PlayerLocations {
    type V = Map<Player, PlayerLocation>;

    /// The entries that are kept.
    closed spec fn view(&self) -> Map<Player, PlayerLocation> {
        self.locations@
    }
}

impl PlayerLocations {
    /// The store keeps no entry that holds the default.
    pub closed spec fn wf(&self) -> bool {
        forall|player: Player| #[trigger]
            self.locations@.contains_key(player) ==> self.locations@[player] != default_location()
    }

    /// Where the player is.
    pub open spec fn location_of(&self, player: Player) -> PlayerLocation {
        if self@.contains_key(player) {
            self@[player]
        } else {
            default_location()
        }
    }

    pub fn new() -> (store: Self)
        ensures
            store@ == Map::<Player, PlayerLocation>::empty(),
            store.wf(),
    {
        PlayerLocations { locations: HashMap::new() }
    }

    pub fn read(&self, player: Player) -> (location: PlayerLocation)
        ensures
            location == self.location_of(player),
    {
        match self.locations.get(&player) {
            Some(location) => *location,
            None => PlayerLocation::default(),
        }
    }

    pub fn write(&mut self, player: Player, location: PlayerLocation)
        requires
            old(self).wf(),
        ensures
            final(self).wf(),
            final(self)@ == if location == default_location() {
                old(self)@.remove(player)
            } else {
                old(self)@.insert(player, location)
            },
            final(self).location_of(player) == location,
            forall|other: Player|
                other != player ==> #[trigger] final(self).location_of(other) == old(self).location_of(other),
    {
        if location == PlayerLocation::default() {
            self.locations.remove(&player);
        } else {
            self.locations.insert(player, location);
        }
    }

    /// Every player that has an entry, once.
    pub fn read_all_players(&self) -> (players: Vec<Player>)
        ensures
            enumerates(players@, self@.dom()),
    {
        players_with_entry(&self.locations)
    }

    /// Every player that has an entry, once, with its location. No location in
    /// the list is the default.
    pub fn read_all(&self) -> (result: Vec<(Player, PlayerLocation)>)
        requires
            self.wf(),
        ensures
            enumerates(result@.map_values(|entry: (Player, PlayerLocation)| entry.0), self@.dom()),
            forall|i: int|
                0 <= i < result@.len() ==> (#[trigger] result@[i]).1 == self@[result@[i].0]
                    && result@[i].1 != default_location(),
    {
        let players = self.read_all_players();
        let mut result: Vec<(Player, PlayerLocation)> = Vec::new();
        let mut i: usize = 0;
        while i < players.len()
            invariant
                i <= players@.len(),
                enumerates(players@, self@.dom()),
                self.wf(),
                result@.len() == i,
                forall|j: int|
                    0 <= j < i ==> (#[trigger] result@[j]).0 == players@[j] && result@[j].1
                        == self@[players@[j]] && result@[j].1 != default_location(),
            decreases players@.len() - i,
        {
            let player = players[i];
            proof {
                assert(players@.to_set().contains(players@[i as int]));
            }
            let location = self.read(player);
            result.push((player, location));
            i += 1;
        }
        proof {
            assert(result@.map_values(|entry: (Player, PlayerLocation)| entry.0) =~= players@);
        }
        result
    }
}

/// The instructions that the players have given for the next round of their
/// site.
pub struct PlayerSiteInstructions {
    instructions: HashMap<Player, Vec<Instruction>>,
}

impl View for PlayerSiteInstructions {
    type V = Map<Player, Seq<Instruction>>;

    /// The queues that are kept.
    closed spec fn view(&self) -> Map<Player, Seq<Instruction>> {
        self.instructions@.map_values(|queue: Vec<Instruction>| queue@)
    }
}

impl PlayerSiteInstructions {
    /// The store keeps no entry that holds the default.
    pub closed spec fn wf(&self) -> bool {
        forall|player: Player| #[trigger]
            self.instructions@.contains_key(player) ==> self.instructions@[player]@.len() > 0
    }

    /// The instructions that wait for the player.
    pub open spec fn instructions_of(&self, player: Player) -> Seq<Instruction> {
        if self@.contains_key(player) {
            self@[player]
        } else {
            Seq::empty()
        }
    }

    pub fn new() -> (store: Self)
        ensures
            store@ == Map::<Player, Seq<Instruction>>::empty(),
            store.wf(),
    {
        let store = PlayerSiteInstructions { instructions: HashMap::new() };
        proof {
            assert(store@ =~= Map::<Player, Seq<Instruction>>::empty());
        }
        store
    }
}

impl PlayerSiteInstructions {
    /// Every player that instructions wait for, once.
    pub fn list_players(&self) -> (players: Vec<Player>)
        ensures
            enumerates(players@, self@.dom()),
    {
        let players = players_with_entry(&self.instructions);
        proof {
            assert(self@.dom() =~= self.instructions@.dom());
        }
        players
    }
}

/// A copy of the instructions.
fn copy_instructions(instructions: &[Instruction]) -> (copy: Vec<Instruction>)
    ensures
        copy@ == instructions@,
{
    let mut copy: Vec<Instruction> = Vec::new();
    let mut i: usize = 0;
    while i < instructions.len()
        invariant
            i <= instructions@.len(),
            copy@ == instructions@.take(i as int),
        decreases instructions@.len() - i,
    {
        copy.push(instructions[i]);
        proof {
            assert(copy@ =~= instructions@.take(i + 1));
        }
        i += 1;
    }
    proof {
        assert(instructions@.take(i as int) =~= instructions@);
    }
    copy
}

/// The instructions that wait for the player: all that are kept, as they
/// were given. None is held to be impossible and left out.
pub fn read_player_site_instructions(store: &PlayerSiteInstructions, player: Player) -> (all: Vec<
    Instruction,
>)
    ensures
        all@ == store.instructions_of(player),
{
    match store.instructions.get(&player) {
        Some(queue) => copy_instructions(queue.as_slice()),
        None => Vec::new(),
    }
}

/// Replaces the instructions that wait for the player. All of the new ones
/// are kept, as they are given: none is held to be impossible and left out.
pub fn write_player_site_instructions(
    store: &mut PlayerSiteInstructions,
    player: Player,
    instructions: &[Instruction],
)
    requires
        old(store).wf(),
    ensures
        final(store).wf(),
        final(store)@ == if instructions@.len() == 0 {
            old(store)@.remove(player)
        } else {
            old(store)@.insert(player, instructions@)
        },
        final(store).instructions_of(player) == instructions@,
        forall|other: Player|
            other != player ==> #[trigger] final(store).instructions_of(other) == old(store).instructions_of(other),
{
    if instructions.len() == 0 {
        store.instructions.remove(&player);
        proof {
            assert(store@ =~= old(store)@.remove(player));
        }
    } else {
        store.instructions.insert(player, copy_instructions(instructions));
        proof {
            assert(store@ =~= old(store)@.insert(player, instructions@));
        }
    }
}

/// Adds the instructions behind those that already wait for the player. All
/// of them are kept, as they are given: none is held to be impossible and left
/// out.
pub fn add_player_site_instructions(
    store: &mut PlayerSiteInstructions,
    player: Player,
    instructions: &[Instruction],
)
    requires
        old(store).wf(),
    ensures
        final(store).wf(),
        final(store).instructions_of(player) == old(store).instructions_of(player)
            + instructions@,
        forall|other: Player|
            other != player ==> #[trigger] final(store).instructions_of(other) == old(store).instructions_of(other),
{
    let mut all = read_player_site_instructions(store, player);
    let mut i: usize = 0;
    while i < instructions.len()
        invariant
            i <= instructions@.len(),
            all@ == old(store).instructions_of(player) + instructions@.take(i as int),
            *store == *old(store),
        decreases instructions@.len() - i,
    {
        all.push(instructions[i]);
        proof {
            assert(all@ =~= old(store).instructions_of(player) + instructions@.take(i + 1));
        }
        i += 1;
    }
    proof {
        assert(instructions@.take(i as int) =~= instructions@);
    }
    write_player_site_instructions(store, player, all.as_slice());
}

} // verus!
