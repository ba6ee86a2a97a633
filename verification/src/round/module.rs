//! The module resolver: what using a module does to its ship and to its target.

use vstd::prelude::*;
use std::collections::HashMap;
use std::collections::hash_map::Entry;
use crate::round::effect::{affected_by_all, apply_to_origin, apply_to_target, paid, RoundEffect};
use crate::round::entities::get_mut_npc;
use crate::round::instructions::Actor;
use crate::round::state::{Outcome, SiteState};
use crate::ship::{Cargo, ModuleId, Ship, ShipFitting, ShipStatus};
use crate::site::{Player, SiteEntity, SiteEntityLifeless, SiteEntityNpc, SiteLog, SiteLogActor};
use crate::statics::{ModuleTargeted, Statics};

verus! {

broadcast use vstd::std_specs::hash::group_hash_axioms;

/// What one use of a mining module extracts: no more than the module can mine,
/// no more than the resource still holds, no more than fits into the cargo.
pub open spec fn mined(mining_strength: int, remaining: int, free_cargo: int) -> int {
    if mining_strength <= remaining && mining_strength <= free_cargo {
        mining_strength
    } else if remaining <= free_cargo {
        remaining
    } else {
        free_cargo
    }
}

/// The strength of the first mining effect of the list, if it has one.
pub open spec fn mining_strength(effects: Seq<RoundEffect>) -> Option<u16>
    decreases effects.len(),
{
    if effects.len() == 0 {
        None
    } else {
        match effects[0] {
            RoundEffect::Mine(amount) => Some(amount),
            _ => mining_strength(effects.drop_first()),
        }
    }
}

/// What the acting ship takes out of the entity with these effects. Only
/// something lifeless yields anything.
pub open spec fn loot_of(entity: SiteEntity, effects: Seq<RoundEffect>, free_cargo: int) -> int {
    match entity {
        SiteEntity::Lifeless(lifeless) => match mining_strength(effects) {
            Some(strength) => mined(strength as int, lifeless.remaining_ore as int, free_cargo),
            None => 0,
        },
        _ => 0,
    }
}

/// The entity after the effects were inflicted on it. A facility is immune. A
/// player entity stays as it is: the ship of the player takes the effects.
pub open spec fn entity_hit(entity: SiteEntity, effects: Seq<RoundEffect>, free_cargo: int)
    -> SiteEntity {
    match entity {
        SiteEntity::Facility(_) => entity,
        SiteEntity::Lifeless(lifeless) => SiteEntity::Lifeless(
            SiteEntityLifeless {
                status: affected_by_all(lifeless.status, effects),
                remaining_ore: (lifeless.remaining_ore - loot_of(entity, effects, free_cargo)) as u16,
                ..lifeless
            },
        ),
        SiteEntity::Npc(npc) => SiteEntity::Npc(
            SiteEntityNpc { status: affected_by_all(npc.status, effects), ..npc },
        ),
        SiteEntity::Player(_) => entity,
    }
}

/// The ships after the effects were inflicted on the entity: where it is a
/// player, the ship of that player has taken them.
pub open spec fn ships_hit(ships: Map<Player, Ship>, entity: SiteEntity, effects: Seq<RoundEffect>)
    -> Map<Player, Ship> {
    match entity {
        SiteEntity::Player(player) => ships.insert(
            player.id,
            Ship { status: affected_by_all(ships[player.id].status, effects), ..ships[player.id] },
        ),
        _ => ships,
    }
}

impl SiteState {
    /// The site after the actor used the untargeted module in the given slot.
    ///
    /// Nothing changes where the fitting has no such module or the ship cannot
    /// pay for it: its effects are gone through in their order, and each has
    /// to be affordable when its turn comes.
    pub open spec fn untargeted(self, statics: Statics, actor: Actor, module_index: u8) -> SiteState {
        match statics.untargeted_effects(self.fitting_of(actor), module_index) {
            Some(effects) => match paid(self.status_of(actor), effects) {
                Some(status) => self.with_status_of(actor, status),
                None => self,
            },
            None => self,
        }
    }

    /// The site after the effects were inflicted on the entity at `target`.
    pub open spec fn hit(self, target: int, effects: Seq<RoundEffect>, free_cargo: int) -> SiteState {
        SiteState {
            entities: self.entities.update(
                target,
                entity_hit(self.entities[target], effects, free_cargo),
            ),
            ships: ships_hit(self.ships, self.entities[target], effects),
        }
    }

    /// The site after the actor used the targeted module in the given slot on
    /// the entity at `target`, and what is logged of it.
    ///
    /// Nothing happens where the fitting has no such module or the ship cannot
    /// pay for it with the effects that the module has on its own ship, gone
    /// through in their order. Where it can, it pays. Then, where the site has an entity at `target`, that entity
    /// takes the effects of the module, the use is logged, and what was mined
    /// is added to the cargo of the actor.
    pub open spec fn targeted(self, statics: Statics, actor: Actor, module_index: u8, target: u8)
        -> Outcome {
        let unchanged = Outcome { site: self, log: Seq::empty() };
        let fitting = self.fitting_of(actor);
        match statics.targeted_module(fitting, module_index) {
            None => unchanged,
            Some(id) => {
                let module = statics.modules_targeted@[id as int];
                match paid(self.status_of(actor), module.effects_origin@) {
                    None => unchanged,
                    Some(status) => {
                        let paid_site = self.with_status_of(actor, status);
                        if target < paid_site.entities.len() {
                            let free = statics.free_ore(fitting, self.cargo_of(actor));
                            let entity = paid_site.entities[target as int];
                            let loot = loot_of(entity, module.effects_target@, free);
                            let hit_site = paid_site.hit(target as int, module.effects_target@, free);
                            Outcome {
                                site: hit_site.with_cargo_of(
                                    actor,
                                    Cargo { ore: (hit_site.cargo_of(actor).ore + loot) as u16 },
                                ),
                                log: seq![
                                    SiteLog::ModuleTargeted(
                                        self.log_name_of(actor),
                                        id,
                                        hit_site.log_name_of_entity(hit_site.entities[target as int]),
                                    ),
                                ],
                            }
                        } else {
                            Outcome { site: paid_site, log: Seq::empty() }
                        }
                    },
                }
            },
        }
    }

    /// The site after the actor destroyed its own ship.
    pub open spec fn self_destructed(self, actor: Actor) -> SiteState {
        self.with_status_of(actor, ShipStatus::dead())
    }
}

/// What is mined never exceeds any of its three limits, and it reaches one of
/// them: it is their minimum. Nothing is mined where one of them is zero.
pub proof fn lemma_mined_is_minimum(mining_strength: int, remaining: int, free_cargo: int)
    ensures
        mined(mining_strength, remaining, free_cargo) <= mining_strength,
        mined(mining_strength, remaining, free_cargo) <= remaining,
        mined(mining_strength, remaining, free_cargo) <= free_cargo,
        mined(mining_strength, remaining, free_cargo) == mining_strength || mined(
            mining_strength,
            remaining,
            free_cargo,
        ) == remaining || mined(mining_strength, remaining, free_cargo) == free_cargo,
        0 <= mining_strength && 0 <= remaining && 0 <= free_cargo && (mining_strength == 0
            || remaining == 0 || free_cargo == 0) ==> mined(mining_strength, remaining, free_cargo)
            == 0,
{
}

/// A module that the ship of the actor cannot afford changes nothing in the
/// site and logs nothing: not the part of it that the ship could have paid
/// for, and nothing on the target.
pub proof fn lemma_unaffordable_module_changes_nothing(
    site: SiteState,
    statics: Statics,
    actor: Actor,
    module_index: u8,
    target: u8,
)
    ensures
        statics.untargeted_effects(site.fitting_of(actor), module_index) matches Some(effects)
            && paid(site.status_of(actor), effects) is None ==> site.untargeted(
            statics,
            actor,
            module_index,
        ) == site,
        statics.targeted_module(site.fitting_of(actor), module_index) matches Some(id) && paid(
            site.status_of(actor),
            statics.modules_targeted@[id as int].effects_origin@,
        ) is None ==> site.targeted(statics, actor, module_index, target) == (Outcome {
            site,
            log: Seq::empty(),
        }),
{
}

/// Mining takes out of the resource exactly what it puts into the cargo: the
/// least of the strength of the module, what the resource still holds and what
/// still fits into the cargo of the actor.
pub proof fn lemma_mining_moves_the_minimum(
    site: SiteState,
    statics: Statics,
    actor: Actor,
    module_index: u8,
    target: u8,
)
    requires
        site.knows(actor),
        target < site.entities.len(),
        site.entities[target as int] is Lifeless,
        statics.targeted_module(site.fitting_of(actor), module_index) matches Some(id) && paid(
            site.status_of(actor),
            statics.modules_targeted@[id as int].effects_origin@,
        ) is Some && mining_strength(statics.modules_targeted@[id as int].effects_target@)
            is Some,
    ensures
        ({
            let id = statics.targeted_module(site.fitting_of(actor), module_index)->0;
            let strength = mining_strength(statics.modules_targeted@[id as int].effects_target@)->0;
            let remaining = site.entities[target as int]->Lifeless_0.remaining_ore;
            let free = statics.free_ore(site.fitting_of(actor), site.cargo_of(actor));
            let amount = mined(strength as int, remaining as int, free);
            let after = site.targeted(statics, actor, module_index, target).site;
            &&& after.entities[target as int] is Lifeless
            &&& after.entities[target as int]->Lifeless_0.remaining_ore == remaining - amount
            &&& after.cargo_of(actor).ore == site.cargo_of(actor).ore + amount
            &&& 0 <= amount <= strength
            &&& amount <= remaining
            &&& amount <= free
            &&& amount == strength || amount == remaining || amount == free
        }),
{
    let id = statics.targeted_module(site.fitting_of(actor), module_index)->0;
    let details = statics.modules_targeted@[id as int];
    let status = paid(site.status_of(actor), details.effects_origin@)->0;
    let paid_site = site.with_status_of(actor, status);
    let free = statics.free_ore(site.fitting_of(actor), site.cargo_of(actor));
    let hit_site = paid_site.hit(target as int, details.effects_target@, free);
    assert(paid_site.entities[target as int] == site.entities[target as int]);
    assert(hit_site.cargo_of(actor) == site.cargo_of(actor));
}

/// How the log names an entity of the site.
pub fn log_name(player_ships: &HashMap<Player, Ship>, entity: &SiteEntity) -> (name: SiteLogActor)
    requires
        entity matches SiteEntity::Player(player) ==> player_ships@.contains_key(player.id),
    ensures
        name == (SiteState { entities: Seq::empty(), ships: player_ships@ }).log_name_of_entity(
            *entity,
        ),
{
    match entity {
        SiteEntity::Facility(facility) => SiteLogActor::Facility(facility.id),
        SiteEntity::Lifeless(lifeless) => SiteLogActor::Lifeless(lifeless.id),
        SiteEntity::Npc(npc) => SiteLogActor::Npc(npc.faction, npc.fitting.layout),
        SiteEntity::Player(player) => {
            let ship = player_ships.get(&player.id).unwrap();
            SiteLogActor::Player(player.id, ship.fitting.layout)
        },
    }
}

/// Gives the actor another status.
pub fn set_status(
    site_entities: &mut Vec<SiteEntity>,
    player_ships: &mut HashMap<Player, Ship>,
    actor: &Actor,
    status: ShipStatus,
)
    requires
        (SiteState { entities: old(site_entities)@, ships: old(player_ships)@ }).knows(*actor),
    ensures
        (SiteState { entities: final(site_entities)@, ships: final(player_ships)@ }) == (SiteState {
            entities: old(site_entities)@,
            ships: old(player_ships)@,
        }).with_status_of(*actor, status),
{
    match actor {
        Actor::Player(player) => {
            match player_ships.entry(*player) {
                Entry::Occupied(mut occupied) => {
                    occupied.get_mut().status = status;
                },
                Entry::Vacant(_) => {},
            }
        },
        Actor::Npc(npc_index) => {
            let npc = get_mut_npc(site_entities, *npc_index);
            npc.status = status;
        },
    }
}

/// Adds the loot to what the actor carries.
pub fn add_cargo(
    site_entities: &mut Vec<SiteEntity>,
    player_ships: &mut HashMap<Player, Ship>,
    actor: &Actor,
    loot: Cargo,
)
    requires
        (SiteState { entities: old(site_entities)@, ships: old(player_ships)@ }).knows(*actor),
        (SiteState { entities: old(site_entities)@, ships: old(player_ships)@ }).cargo_of(
            *actor,
        ).ore + loot.ore <= u16::MAX,
    ensures
        (SiteState { entities: final(site_entities)@, ships: final(player_ships)@ }) == ({
            let before = SiteState { entities: old(site_entities)@, ships: old(player_ships)@ };
            before.with_cargo_of(
                *actor,
                Cargo { ore: (before.cargo_of(*actor).ore + loot.ore) as u16 },
            )
        }),
{
    match actor {
        Actor::Player(player) => {
            match player_ships.entry(*player) {
                Entry::Occupied(mut occupied) => {
                    let ship = occupied.get_mut();
                    ship.cargo = Cargo { ore: ship.cargo.ore + loot.ore };
                },
                Entry::Vacant(_) => {},
            }
        },
        Actor::Npc(npc_index) => {
            let npc = get_mut_npc(site_entities, *npc_index);
            npc.cargo = Cargo { ore: npc.cargo.ore + loot.ore };
        },
    }
}

/// Lets the actor use the untargeted module in the given slot of its fitting.
///
/// A slot that the fitting does not have is ignored, and so is a module that
/// the ship cannot afford.
pub fn apply_untargeted(
    statics: &Statics,
    site_entities: &mut Vec<SiteEntity>,
    player_ships: &mut HashMap<Player, Ship>,
    actor: &Actor,
    module_index: u8,
)
    requires
        (SiteState { entities: old(site_entities)@, ships: old(player_ships)@ }).knows(*actor),
    ensures
        (SiteState { entities: final(site_entities)@, ships: final(player_ships)@ }) == (SiteState {
            entities: old(site_entities)@,
            ships: old(player_ships)@,
        }).untargeted(*statics, *actor, module_index),
{
    let after = match actor {
        Actor::Player(player) => {
            let ship = player_ships.get(player).unwrap();
            match statics.untargeted(&ship.fitting, module_index) {
                Some(module) => apply_to_origin(ship.status, module.effects.as_slice()),
                None => None,
            }
        },
        Actor::Npc(npc_index) => {
            match &site_entities[*npc_index] {
                SiteEntity::Npc(npc) => match statics.untargeted(&npc.fitting, module_index) {
                    Some(module) => apply_to_origin(npc.status, module.effects.as_slice()),
                    None => None,
                },
                _ => None,
            }
        },
    };
    if let Some(my_new_status) = after {
        set_status(site_entities, player_ships, actor, my_new_status);
    }
}

/// The first mining effect of the list.
fn find_mining_strength(effects: &[RoundEffect]) -> (found: Option<u16>)
    ensures
        found == mining_strength(effects@),
{
    let mut i: usize = 0;
    proof {
        assert(effects@.skip(0) =~= effects@);
    }
    while i < effects.len()
        invariant
            i <= effects@.len(),
            mining_strength(effects@) == mining_strength(effects@.skip(i as int)),
        decreases effects@.len() - i,
    {
        proof {
            assert(effects@.skip(i as int).drop_first() =~= effects@.skip(i + 1));
        }
        if let RoundEffect::Mine(amount) = effects[i] {
            return Some(amount);
        }
        i += 1;
    }
    None
}

/// Lets the ship pay for the targeted module in the given slot of its fitting,
/// with all effects that the module has on its own ship or with none.
///
/// Hands back the module where the ship has paid. Where the fitting has no
/// such module or the ship cannot pay, the status stays as it is.
pub fn apply_targeted_to_origin<'s>(
    statics: &'s Statics,
    origin_fitting: &ShipFitting,
    origin_status: &mut ShipStatus,
    module_index: u8,
) -> (used: Option<(ModuleId, &'s ModuleTargeted)>)
    ensures
        match statics.targeted_module(*origin_fitting, module_index) {
            Some(id) => match paid(
                *old(origin_status),
                statics.modules_targeted@[id as int].effects_origin@,
            ) {
                Some(status) => used matches Some(pair) && pair.0 == id && *pair.1
                    == statics.modules_targeted@[id as int] && *final(origin_status) == status,
                None => used is None && *final(origin_status) == *old(origin_status),
            },
            None => used is None && *final(origin_status) == *old(origin_status),
        },
{
    if let Some((targeted, details)) = statics.targeted(origin_fitting, module_index) {
        if let Some(origin_new_status) = apply_to_origin(
            *origin_status,
            details.effects_origin.as_slice(),
        ) {
            *origin_status = origin_new_status;
            return Some((targeted, details));
        }
    }
    None
}

/// Inflicts the effects of the module on the target and returns the loot.
pub fn apply_targeted_to_target(
    player_ships: &mut HashMap<Player, Ship>,
    target: &mut SiteEntity,
    module: &ModuleTargeted,
    free_cargo: Cargo,
) -> (loot: Cargo)
    requires
        *old(target) matches SiteEntity::Player(player) ==> old(player_ships)@.contains_key(
            player.id,
        ),
    ensures
        *final(target) == entity_hit(*old(target), module.effects_target@, free_cargo.ore as int),
        final(player_ships)@ == ships_hit(old(player_ships)@, *old(target), module.effects_target@),
        loot.ore == loot_of(*old(target), module.effects_target@, free_cargo.ore as int),
        loot.ore <= free_cargo.ore,
{
    match target {
        SiteEntity::Facility(_) => {
            // Currently immune
            Cargo { ore: 0 }
        },
        SiteEntity::Lifeless(l) => {
            l.status = apply_to_target(l.status, module.effects_target.as_slice());
            let ore = match find_mining_strength(module.effects_target.as_slice()) {
                Some(mining_strength) => {
                    let mut amount = mining_strength;
                    if l.remaining_ore < amount {
                        amount = l.remaining_ore;
                    }
                    if free_cargo.ore < amount {
                        amount = free_cargo.ore;
                    }
                    l.remaining_ore -= amount;
                    amount
                },
                None => 0,
            };
            Cargo { ore }
        },
        SiteEntity::Npc(npc) => {
            npc.status = apply_to_target(npc.status, module.effects_target.as_slice());
            Cargo { ore: 0 }
        },
        SiteEntity::Player(player) => {
            match player_ships.entry(player.id) {
                Entry::Occupied(mut occupied) => {
                    let target_ship = occupied.get_mut();
                    target_ship.status = apply_to_target(
                        target_ship.status,
                        module.effects_target.as_slice(),
                    );
                },
                Entry::Vacant(_) => {},
            }
            Cargo { ore: 0 }
        },
    }
}

/// Lets the actor use the targeted module in the given slot of its fitting on
/// the entity at the given index of the site.
///
/// The ship pays first, with all effects that the module has on its own ship or
/// with none. Only where it could pay, the target takes the effects of the
/// module and the use is logged.
pub fn apply_targeted(
    statics: &Statics,
    site_entities: &mut Vec<SiteEntity>,
    player_ships: &mut HashMap<Player, Ship>,
    actor: &Actor,
    module_index: u8,
    target_index_in_site: u8,
    site_log: &mut Vec<SiteLog>,
)
    requires
        (SiteState { entities: old(site_entities)@, ships: old(player_ships)@ }).knows(*actor),
        (SiteState { entities: old(site_entities)@, ships: old(player_ships)@ }).players_known(),
    ensures
        ({
            let outcome = (SiteState {
                entities: old(site_entities)@,
                ships: old(player_ships)@,
            }).targeted(*statics, *actor, module_index, target_index_in_site);
            &&& final(site_entities)@ == outcome.site.entities
            &&& final(player_ships)@ == outcome.site.ships
            &&& final(site_log)@ == old(site_log)@ + outcome.log
        }),
{
    let (site_log_origin, free_cargo, paid) = match actor {
        Actor::Player(player) => {
            let ship = player_ships.get(player).unwrap();
            let mut status = ship.status;
            let used = apply_targeted_to_origin(statics, &ship.fitting, &mut status, module_index);
            (
                SiteLogActor::Player(*player, ship.fitting.layout),
                statics.free_cargo(&ship.fitting, &ship.cargo),
                (used, status),
            )
        },
        Actor::Npc(npc_index) => {
            match &site_entities[*npc_index] {
                SiteEntity::Npc(npc) => {
                    let mut status = npc.status;
                    let used = apply_targeted_to_origin(
                        statics,
                        &npc.fitting,
                        &mut status,
                        module_index,
                    );
                    (
                        SiteLogActor::Npc(npc.faction, npc.fitting.layout),
                        statics.free_cargo(&npc.fitting, &npc.cargo),
                        (used, status),
                    )
                },
                _ => vstd::pervasive::unreached(),
            }
        },
    };
    let (targeted, details, origin_new_status) = match paid {
        (Some((targeted, details)), status) => (targeted, details, status),
        (None, _) => {
            assert(site_log@ + Seq::<SiteLog>::empty() =~= site_log@);
            return ;
        },
    };
    set_status(site_entities, player_ships, actor, origin_new_status);
    let ghost paid_site = SiteState { entities: site_entities@, ships: player_ships@ };
    let target_index = target_index_in_site as usize;
    if target_index < site_entities.len() {
        let loot = apply_targeted_to_target(
            player_ships,
            &mut site_entities[target_index],
            details,
            free_cargo,
        );
        let ghost hit_site = SiteState { entities: site_entities@, ships: player_ships@ };
        assert(hit_site == paid_site.hit(
            target_index as int,
            details.effects_target@,
            free_cargo.ore as int,
        ));
        let site_log_target = log_name(player_ships, &site_entities[target_index]);
        site_log.push(SiteLog::ModuleTargeted(site_log_origin, targeted, site_log_target));
        add_cargo(site_entities, player_ships, actor, loot);
        assert(site_log@ =~= old(site_log)@ + seq![
            SiteLog::ModuleTargeted(site_log_origin, targeted, site_log_target),
        ]);
    } else {
        assert(site_log@ + Seq::<SiteLog>::empty() =~= site_log@);
    }
}

/// Destroys the ship of the actor. Nothing is logged here: the end of the round
/// logs every dead ship alike.
pub fn self_destruct(
    site_entities: &mut Vec<SiteEntity>,
    player_ships: &mut HashMap<Player, Ship>,
    actor: &Actor,
)
    requires
        (SiteState { entities: old(site_entities)@, ships: old(player_ships)@ }).knows(*actor),
    ensures
        (SiteState { entities: final(site_entities)@, ships: final(player_ships)@ }) == (SiteState {
            entities: old(site_entities)@,
            ships: old(player_ships)@,
        }).self_destructed(*actor),
{
    set_status(site_entities, player_ships, actor, ShipStatus::new_dead());
}

} // verus!
