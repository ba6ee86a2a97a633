//! One round of one site.
//!
//! A round sorts what was asked of it, resolves one instruction after the
//! other, reconciles every entity with what its fitting allows, removes what
//! died, admits the players that arrive, and clears the instructions. Whoever
//! calls it has loaded the state before and stores it afterwards.

use vstd::prelude::*;
use std::collections::HashMap;
use std::collections::hash_map::Entry;
use crate::instruction::Instruction;
use crate::location::PlayerLocation;
use crate::round::effect::{apply_passives, paid, RoundEffect};
use crate::round::entities::{first_at, position_of, without_player};
use crate::round::facility::{dock, jump};
use crate::round::module::{apply_targeted, apply_untargeted, loot_of, self_destruct};
use crate::round::warp_player::{in_site, out};
use crate::round::instructions::{
    asked_of, cleanup, enumerates, lemma_npcs_issued_members, lemma_players_issued_members,
    lemma_round_order, npcs_issued, players_issued, players_with_entry, queues_of, sort,
    sorted_from, Actor,
};
use crate::round::state::{Outcome, RoundState, SiteState};
use crate::ship::{Cargo, Ship, ShipFitting, ShipStatus};
use crate::site::{
    Player, Service, SiteEntity, SiteEntityNpc, SiteInfo, SiteLog, SiteLogActor, SolarsystemId,
};
use crate::statics::Statics;

pub mod departure;
pub mod effect;
pub mod entities;
pub mod facility;
pub mod instructions;
pub mod module;
pub mod npc_instructions;
pub mod state;
pub mod warp_player;

verus! {

broadcast use vstd::std_specs::hash::group_hash_axioms;

/// What a round hands back besides what it changed in place.
#[derive(Debug, Clone, PartialEq, Eq)]
pub struct Outputs {
    pub site_log: Vec<SiteLog>,
}

impl Outcome {
    /// The outcome with one more survivor.
    pub open spec fn keeping(self, entity: SiteEntity) -> Outcome {
        Outcome {
            site: SiteState { entities: self.site.entities.push(entity), ships: self.site.ships },
            log: self.log,
        }
    }

    /// The outcome with one more entry in the log.
    pub open spec fn logging(self, entry: SiteLog) -> Outcome {
        Outcome { site: self.site, log: self.log.push(entry) }
    }

    /// What the end of a round makes of one more entity.
    ///
    /// A facility always stays. Something lifeless stays unless it is dead,
    /// which is logged as a disassembly, or its resource is used up, which is
    /// logged as a collapse. A ship gets the passive effects of its layout and
    /// is brought back under what its fitting can support; then it stays where
    /// it is alive, and its death is logged where it is not. The ship of a
    /// dead player keeps its new status: the player is gone from the site only.
    pub open spec fn finishing(self, statics: Statics, entity: SiteEntity) -> Outcome {
        match entity {
            SiteEntity::Facility(_) => self.keeping(entity),
            SiteEntity::Lifeless(lifeless) => if !lifeless.status.alive() {
                self.logging(
                    SiteLog::RapidUnscheduledDisassembly(SiteLogActor::Lifeless(lifeless.id)),
                )
            } else if lifeless.remaining_ore == 0 {
                self.logging(SiteLog::Collapse(SiteLogActor::Lifeless(lifeless.id)))
            } else {
                self.keeping(entity)
            },
            SiteEntity::Npc(npc) => {
                let status = statics.reconciled(npc.fitting, npc.status);
                if status.alive() {
                    self.keeping(SiteEntity::Npc(SiteEntityNpc { status, ..npc }))
                } else {
                    self.logging(
                        SiteLog::RapidUnscheduledDisassembly(
                            SiteLogActor::Npc(npc.faction, npc.fitting.layout),
                        ),
                    )
                }
            },
            SiteEntity::Player(player) => {
                let ship = self.site.ships[player.id];
                let status = statics.reconciled(ship.fitting, ship.status);
                let reconciled = Outcome {
                    site: SiteState {
                        entities: self.site.entities,
                        ships: self.site.ships.insert(player.id, Ship { status, ..ship }),
                    },
                    log: self.log,
                };
                if status.alive() {
                    reconciled.keeping(entity)
                } else {
                    reconciled.logging(
                        SiteLog::RapidUnscheduledDisassembly(
                            SiteLogActor::Player(player.id, ship.fitting.layout),
                        ),
                    )
                }
            },
        }
    }
}

/// What the end of a round makes of the candidates, one after the other: who
/// survives, what became of the ships, and what is logged.
pub open spec fn finished(statics: Statics, candidates: Seq<SiteEntity>, ships: Map<Player, Ship>)
    -> Outcome
    decreases candidates.len(),
{
    if candidates.len() == 0 {
        Outcome { site: SiteState { entities: Seq::empty(), ships }, log: Seq::empty() }
    } else {
        finished(statics, candidates.drop_last(), ships).finishing(statics, candidates.last())
    }
}

/// The end of a round has nothing to do on the entity: it is alive, a resource
/// is not used up, and a ship already has the status that the passive effects
/// of its layout and the limits of its fitting lead to.
pub open spec fn settled(statics: Statics, ships: Map<Player, Ship>, entity: SiteEntity) -> bool {
    match entity {
        SiteEntity::Facility(_) => true,
        SiteEntity::Lifeless(lifeless) => lifeless.status.alive() && lifeless.remaining_ore > 0,
        SiteEntity::Npc(npc) => npc.status.alive() && statics.reconciled(npc.fitting, npc.status)
            == npc.status,
        SiteEntity::Player(player) => ships.contains_key(player.id)
            && ships[player.id].status.alive() && statics.reconciled(
            ships[player.id].fitting,
            ships[player.id].status,
        ) == ships[player.id].status,
    }
}

/// A status that is within the limits of its fitting stays as it is at the
/// end of a round where the layout has no passive effects.
pub proof fn lemma_within_limits_is_settled(
    statics: Statics,
    fitting: ShipFitting,
    status: ShipStatus,
)
    requires
        statics.max_status(fitting) matches Some(max) && status.within(max),
        statics.round_effects(fitting.layout).len() == 0,
    ensures
        statics.reconciled(fitting, status) == status,
{
}

/// Reconciling a site in which every entity is settled changes nothing and
/// logs nothing.
pub proof fn lemma_reconciling_settled_changes_nothing(statics: Statics, site: SiteState)
    requires
        forall|i: int|
            0 <= i < site.entities.len() ==> settled(statics, site.ships, #[trigger] site.entities[i]),
    ensures
        finished(statics, site.entities, site.ships) == (Outcome { site, log: Seq::empty() }),
{
    lemma_reconciling_settled_prefix(statics, site, site.entities.len() as int);
    assert(site.entities.take(site.entities.len() as int) =~= site.entities);
}

/// A second reconciliation right after a first changes nothing and logs
/// nothing where the first has left every survivor settled.
pub proof fn lemma_reconciling_twice_changes_nothing(statics: Statics, site: SiteState)
    requires
        ({
            let once = finished(statics, site.entities, site.ships).site;
            forall|i: int|
                0 <= i < once.entities.len() ==> settled(
                    statics,
                    once.ships,
                    #[trigger] once.entities[i],
                )
        }),
    ensures
        ({
            let once = finished(statics, site.entities, site.ships).site;
            finished(statics, once.entities, once.ships) == (Outcome {
                site: once,
                log: Seq::empty(),
            })
        }),
{
    lemma_reconciling_settled_changes_nothing(
        statics,
        finished(statics, site.entities, site.ships).site,
    );
}

/// Reconciling the first `n` entities of a site in which every entity is
/// settled keeps exactly these, with the ships as they are.
pub proof fn lemma_reconciling_settled_prefix(statics: Statics, site: SiteState, n: int)
    requires
        0 <= n <= site.entities.len(),
        forall|i: int|
            0 <= i < site.entities.len() ==> settled(statics, site.ships, #[trigger] site.entities[i]),
    ensures
        finished(statics, site.entities.take(n), site.ships) == (Outcome {
            site: SiteState { entities: site.entities.take(n), ships: site.ships },
            log: Seq::empty(),
        }),
    decreases n,
{
    if n > 0 {
        lemma_reconciling_settled_prefix(statics, site, n - 1);
        let entity = site.entities[n - 1];
        assert(site.entities.take(n).drop_last() =~= site.entities.take(n - 1));
        assert(site.entities.take(n).last() == entity);
        assert(settled(statics, site.ships, entity));
        let before = finished(statics, site.entities.take(n - 1), site.ships);
        let after = before.finishing(statics, entity);
        assert(site.entities.take(n - 1).push(entity) =~= site.entities.take(n));
        match entity {
            SiteEntity::Player(player) => {
                let ship = site.ships[player.id];
                assert(site.ships.insert(player.id, Ship { status: ship.status, ..ship })
                    =~= site.ships);
            },
            _ => {},
        }
        assert(after.site.entities =~= site.entities.take(n));
    } else {
        assert(site.entities.take(0) =~= Seq::<SiteEntity>::empty());
    }
}

/// What a queue asks for can be resolved in this site: every player has a
/// ship, every actor can be found, only players leave the site, and nobody uses
/// a module after anybody has left.
pub open spec fn can_resolve(site: SiteState, queue: Seq<(Actor, Instruction)>) -> bool {
    &&& site.players_known()
    &&& forall|i: int|
        0 <= i < queue.len() ==> site.knows((#[trigger] queue[i]).0) && (queue[i].0 is Npc
            ==> !queue[i].1.leaves_site())
    &&& forall|i: int, j: int|
        0 <= i < j < queue.len() && (#[trigger] queue[i]).1.leaves_site() ==> (
        #[trigger] queue[j]).1.leaves_site()
}

/// An NPC that asks for anything is an NPC of the site, and it does not ask to
/// leave the site.
pub open spec fn npc_in_order(entities: Seq<SiteEntity>, asked: (usize, Seq<Instruction>)) -> bool {
    asked.1.len() > 0 ==> {
        &&& asked.0 < entities.len()
        &&& entities[asked.0 as int] is Npc
        &&& forall|i: int| 0 <= i < asked.1.len() ==> !(#[trigger] asked.1[i]).leaves_site()
    }
}

/// What the caller of a round owes: every player that is in the site, that
/// has asked for anything or that arrives has a ship, and every NPC that asks
/// for anything is an NPC of the site and does not ask to leave it.
pub open spec fn round_ready(
    site: SiteState,
    player_instructions: Map<Player, Seq<Instruction>>,
    npc_instructions: Seq<(usize, Seq<Instruction>)>,
    players_warping_in: Seq<Player>,
) -> bool {
    &&& site.players_known()
    &&& forall|player: Player|
        #[trigger] player_instructions.contains_key(player) && player_instructions[player].len()
            > 0 ==> site.ships.contains_key(player)
    &&& forall|n: int|
        0 <= n < npc_instructions.len() ==> npc_in_order(
            site.entities,
            #[trigger] npc_instructions[n],
        )
    &&& forall|i: int|
        0 <= i < players_warping_in.len() ==> site.ships.contains_key(
            #[trigger] players_warping_in[i],
        )
}

impl RoundState {
    /// The round after one instruction was resolved.
    pub open spec fn step(
        self,
        statics: Statics,
        solarsystem: SolarsystemId,
        site: SiteInfo,
        actor: Actor,
        instruction: Instruction,
    ) -> RoundState {
        match instruction {
            Instruction::ModuleUntargeted(module) => RoundState {
                site: self.site.untargeted(statics, actor, module.module_index),
                ..self
            },
            Instruction::ModuleTargeted(module) => {
                let outcome = self.site.targeted(
                    statics,
                    actor,
                    module.module_index,
                    module.target_index_in_site,
                );
                RoundState { site: outcome.site, log: self.log + outcome.log, ..self }
            },
            Instruction::SelfDestruct => RoundState {
                site: self.site.self_destructed(actor),
                ..self
            },
            Instruction::Facility(facility) => match actor {
                Actor::Player(player) => match facility.service {
                    Service::Dock => self.docked(solarsystem, player),
                    Service::Jump => self.jumped(solarsystem, site, player),
                },
                Actor::Npc(_) => self,
            },
            Instruction::Warp(warp) => match actor {
                Actor::Player(player) => self.warped_out(solarsystem, player, warp.target),
                Actor::Npc(_) => self,
            },
        }
    }

    /// The round after the queue was resolved, from its first instruction to
    /// its last.
    pub open spec fn resolved(
        self,
        statics: Statics,
        solarsystem: SolarsystemId,
        site: SiteInfo,
        queue: Seq<(Actor, Instruction)>,
    ) -> RoundState
        decreases queue.len(),
    {
        if queue.len() == 0 {
            self
        } else {
            self.resolved(statics, solarsystem, site, queue.drop_last()).step(
                statics,
                solarsystem,
                site,
                queue.last().0,
                queue.last().1,
            )
        }
    }

    /// The round after every entity was reconciled and the dead were removed.
    pub open spec fn reconciled(self, statics: Statics) -> RoundState {
        let outcome = finished(statics, self.site.entities, self.site.ships);
        RoundState { site: outcome.site, locations: self.locations, log: self.log + outcome.log }
    }

    /// The whole round: the queue is resolved, the entities are reconciled,
    /// the arriving players are admitted.
    pub open spec fn advanced(
        self,
        statics: Statics,
        solarsystem: SolarsystemId,
        site: SiteInfo,
        queue: Seq<(Actor, Instruction)>,
        players_warping_in: Seq<Player>,
    ) -> RoundState {
        self.resolved(statics, solarsystem, site, queue).reconciled(statics).warped_in(
            solarsystem,
            site,
            players_warping_in,
        )
    }
}

/// What the end of a round makes of a status.
fn reconcile(statics: &Statics, fitting: &ShipFitting, status: ShipStatus) -> (after: ShipStatus)
    ensures
        after == statics.reconciled(*fitting, status),
{
    let status = apply_passives(status, statics.layout_round_effects(fitting.layout));
    // Ensure the ship is within its layout limits
    status.min_layout(statics, fitting)
}

/// Ends the round for the entities of the site:
/// - applies passive effects
/// - ensures that every status is within the limits of its ship layout
/// - removes the dead and logs them
pub fn finishup_entities(
    statics: &Statics,
    site_entities: &mut Vec<SiteEntity>,
    player_ships: &mut HashMap<Player, Ship>,
    site_log: &mut Vec<SiteLog>,
)
    requires
        (SiteState { entities: old(site_entities)@, ships: old(player_ships)@ }).players_known(),
    ensures
        ({
            let outcome = finished(*statics, old(site_entities)@, old(player_ships)@);
            &&& final(site_entities)@ == outcome.site.entities
            &&& final(player_ships)@ == outcome.site.ships
            &&& final(site_log)@ == old(site_log)@ + outcome.log
        }),
        final(player_ships)@.dom() == old(player_ships)@.dom(),
{
    let ghost candidates = site_entities@;
    let ghost ships = player_ships@;
    let ghost done: int = 0;
    let mut kept: usize = 0;
    proof {
        assert(candidates.skip(0) =~= candidates);
        assert(site_log@ + Seq::<SiteLog>::empty() =~= site_log@);
        assert(Seq::<SiteEntity>::empty() + candidates =~= candidates);
    }
    while kept < site_entities.len()
        invariant
            0 <= done <= candidates.len(),
            kept + (candidates.len() - done) == site_entities@.len(),
            site_entities@ == finished(*statics, candidates.take(done), ships).site.entities
                + candidates.skip(done),
            kept == finished(*statics, candidates.take(done), ships).site.entities.len(),
            player_ships@ == finished(*statics, candidates.take(done), ships).site.ships,
            site_log@ == old(site_log)@ + finished(*statics, candidates.take(done), ships).log,
            player_ships@.dom() == ships.dom(),
            forall|i: int|
                0 <= i < candidates.len() ==> (#[trigger] candidates[i] matches SiteEntity::Player(
                    player,
                ) ==> ships.contains_key(player.id)),
        decreases site_entities@.len() - kept,
    {
        let ghost so_far = finished(*statics, candidates.take(done), ships);
        proof {
            assert(candidates.take(done + 1).drop_last() =~= candidates.take(done));
            assert(candidates.take(done + 1).last() == candidates[done]);
            assert(site_entities@[kept as int] == candidates.skip(done)[0]);
            assert(candidates.skip(done).skip(1) =~= candidates.skip(done + 1));
        }
        let (new_status, obituary): (Option<ShipStatus>, Option<SiteLog>) =
            match &site_entities[kept] {
            SiteEntity::Facility(_) => (None, None),
            SiteEntity::Lifeless(l) => {
                if !l.status.is_alive() {
                    (
                        None,
                        Some(SiteLog::RapidUnscheduledDisassembly(SiteLogActor::Lifeless(l.id))),
                    )
                } else if l.remaining_ore == 0 {
                    (None, Some(SiteLog::Collapse(SiteLogActor::Lifeless(l.id))))
                } else {
                    (None, None)
                }
            },
            SiteEntity::Npc(npc) => {
                let status = reconcile(statics, &npc.fitting, npc.status);
                if status.is_alive() {
                    (Some(status), None)
                } else {
                    (
                        None,
                        Some(
                            SiteLog::RapidUnscheduledDisassembly(
                                SiteLogActor::Npc(npc.faction, npc.fitting.layout),
                            ),
                        ),
                    )
                }
            },
            SiteEntity::Player(player) => {
                match player_ships.entry(player.id) {
                    Entry::Occupied(mut occupied) => {
                        let ship = occupied.get_mut();
                        let status = reconcile(statics, &ship.fitting, ship.status);
                        ship.status = status;
                        if status.is_alive() {
                            (None, None)
                        } else {
                            // Whoever called has to see to the dead players.
                            // The round does not care for them any more.
                            (
                                None,
                                Some(
                                    SiteLog::RapidUnscheduledDisassembly(
                                        SiteLogActor::Player(player.id, ship.fitting.layout),
                                    ),
                                ),
                            )
                        }
                    },
                    Entry::Vacant(_) => (None, None),
                }
            },
        };
        proof {
            assert(player_ships@.dom() =~= ships.dom());
        }
        match obituary {
            Some(entry) => {
                site_log.push(entry);
                site_entities.remove(kept);
                proof {
                    let now = so_far.finishing(*statics, candidates[done]);
                    assert(site_log@ =~= old(site_log)@ + now.log);
                    assert(site_entities@ =~= now.site.entities + candidates.skip(done + 1));
                }
            },
            None => {
                if let Some(status) = new_status {
                    match &mut site_entities[kept] {
                        SiteEntity::Npc(npc) => {
                            npc.status = status;
                        },
                        _ => {},
                    }
                }
                proof {
                    let now = so_far.finishing(*statics, candidates[done]);
                    assert(site_log@ =~= old(site_log)@ + now.log);
                    assert(site_entities@ =~= now.site.entities + candidates.skip(done + 1));
                }
                kept += 1;
            },
        }
        proof {
            done = done + 1;
        }
    }
    proof {
        assert(candidates.take(done) =~= candidates);
        assert(site_entities@ =~= finished(*statics, candidates, ships).site.entities);
    }
}

/// Two sites have the same cast: as many entities, an NPC where the other has
/// an NPC, the same player where the other has a player, and ships for the
/// same players, each fitted as in the other.
pub open spec fn same_cast(a: SiteState, b: SiteState) -> bool {
    &&& a.entities.len() == b.entities.len()
    &&& a.ships.dom() == b.ships.dom()
    &&& forall|player: Player|
        #![trigger a.ships[player]]
        #![trigger b.ships[player]]
        a.ships.contains_key(player) ==> a.ships[player].fitting == b.ships[player].fitting
    &&& forall|i: int|
        #![trigger a.entities[i]]
        #![trigger b.entities[i]]
        0 <= i < a.entities.len() ==> (a.entities[i] is Npc <==> b.entities[i] is Npc) && (
        a.entities[i] is Player || b.entities[i] is Player ==> a.entities[i] == b.entities[i])
}

/// Another status for an actor leaves the cast as it is.
pub proof fn lemma_status_keeps_cast(site: SiteState, actor: Actor, status: ShipStatus)
    requires
        site.knows(actor),
    ensures
        same_cast(site, site.with_status_of(actor, status)),
{
    let after = site.with_status_of(actor, status);
    assert(after.ships.dom() =~= site.ships.dom());
}

/// Effects on a target leave the cast as it is.
pub proof fn lemma_hit_keeps_cast(
    site: SiteState,
    target: int,
    effects: Seq<RoundEffect>,
    free_cargo: int,
)
    requires
        site.players_known(),
        0 <= target < site.entities.len(),
    ensures
        same_cast(site, site.hit(target, effects, free_cargo)),
{
    let after = site.hit(target, effects, free_cargo);
    assert(after.ships.dom() =~= site.ships.dom());
}

/// Using a module, or destroying the own ship, leaves the cast as it is.
pub proof fn lemma_module_step_keeps_cast(
    round: RoundState,
    statics: Statics,
    solarsystem: SolarsystemId,
    site: SiteInfo,
    actor: Actor,
    instruction: Instruction,
)
    requires
        round.site.players_known(),
        round.site.knows(actor),
        !instruction.leaves_site(),
    ensures
        same_cast(round.site, round.step(statics, solarsystem, site, actor, instruction).site),
{
    let before = round.site;
    match instruction {
        Instruction::ModuleUntargeted(module) => {
            match statics.untargeted_effects(before.fitting_of(actor), module.module_index) {
                Some(effects) => match paid(before.status_of(actor), effects) {
                    Some(status) => {
                        lemma_status_keeps_cast(before, actor, status);
                    },
                    None => {},
                },
                None => {},
            }
        },
        Instruction::ModuleTargeted(module) => {
            let target = module.target_index_in_site;
            match statics.targeted_module(before.fitting_of(actor), module.module_index) {
                None => {},
                Some(id) => {
                    let details = statics.modules_targeted@[id as int];
                    match paid(before.status_of(actor), details.effects_origin@) {
                        None => {},
                        Some(status) => {
                            let paid_site = before.with_status_of(actor, status);
                            lemma_status_keeps_cast(before, actor, status);
                            if target < paid_site.entities.len() {
                                let free = statics.free_ore(
                                    before.fitting_of(actor),
                                    before.cargo_of(actor),
                                );
                                assert(paid_site.players_known());
                                lemma_hit_keeps_cast(
                                    paid_site,
                                    target as int,
                                    details.effects_target@,
                                    free,
                                );
                                let hit_site = paid_site.hit(
                                    target as int,
                                    details.effects_target@,
                                    free,
                                );
                                let loot = loot_of(
                                    paid_site.entities[target as int],
                                    details.effects_target@,
                                    free,
                                );
                                let cargo = Cargo {
                                    ore: (hit_site.cargo_of(actor).ore + loot) as u16,
                                };
                                let last = hit_site.with_cargo_of(actor, cargo);
                                assert(hit_site.knows(actor));
                                assert(last.ships.dom() =~= hit_site.ships.dom());
                                assert(same_cast(hit_site, last));
                            }
                        },
                    }
                },
            }
        },
        Instruction::SelfDestruct => {
            lemma_status_keeps_cast(before, actor, ShipStatus::dead());
        },
        _ => {},
    }
}

/// In a site with the same cast the same actors can be found, and every
/// player still has a ship.
pub proof fn lemma_same_cast_resolves(
    a: SiteState,
    b: SiteState,
    queue: Seq<(Actor, Instruction)>,
)
    requires
        same_cast(a, b),
        can_resolve(a, queue),
    ensures
        can_resolve(b, queue),
{
    assert forall|i: int| 0 <= i < b.entities.len() implies (#[trigger] b.entities[i]
        matches SiteEntity::Player(player) ==> b.ships.contains_key(player.id)) by {
        assert(a.entities[i] is Player ==> a.entities[i] == b.entities[i]);
    }
    assert forall|i: int| 0 <= i < queue.len() implies b.knows((#[trigger] queue[i]).0) by {
        assert(a.knows(queue[i].0));
        match queue[i].0 {
            Actor::Player(player) => {},
            Actor::Npc(index) => {
                assert(a.entities[index as int] is Npc);
            },
        }
    }
}

/// After one instruction of a queue that can be resolved, the rest of the
/// queue can be resolved, and the same players have ships.
pub proof fn lemma_step_keeps_resolvable(
    round: RoundState,
    statics: Statics,
    solarsystem: SolarsystemId,
    site: SiteInfo,
    queue: Seq<(Actor, Instruction)>,
)
    requires
        can_resolve(round.site, queue),
        queue.len() > 0,
    ensures
        can_resolve(
            round.step(statics, solarsystem, site, queue[0].0, queue[0].1).site,
            queue.skip(1),
        ),
        round.step(statics, solarsystem, site, queue[0].0, queue[0].1).site.ships.dom()
            == round.site.ships.dom(),
{
    let actor = queue[0].0;
    let instruction = queue[0].1;
    let next = round.step(statics, solarsystem, site, actor, instruction);
    let rest = queue.skip(1);
    assert(round.site.knows(actor));
    assert forall|i: int| 0 <= i < rest.len() implies #[trigger] rest[i] == queue[i + 1] by {}
    assert(can_resolve(round.site, rest)) by {
        assert forall|i: int| 0 <= i < rest.len() implies round.site.knows((#[trigger] rest[i]).0)
            && (rest[i].0 is Npc ==> !rest[i].1.leaves_site()) by {
            assert(rest[i] == queue[i + 1]);
        }
        assert forall|i: int, j: int|
            0 <= i < j < rest.len() && (#[trigger] rest[i]).1.leaves_site() implies (
        #[trigger] rest[j]).1.leaves_site() by {
            assert(rest[i] == queue[i + 1]);
            assert(rest[j] == queue[j + 1]);
        }
    }
    if instruction.leaves_site() {
        let player = actor->Player_0;
        assert(next.site.ships == round.site.ships);
        assert forall|i: int| 0 <= i < rest.len() implies (#[trigger] rest[i]).0 is Player by {
            assert(rest[i] == queue[i + 1]);
            assert(queue[i + 1].1.leaves_site());
        }
        assert(next.site.players_known()) by {
            let entities = round.site.entities;
            if next.site.entities != entities {
                assert(next.site.entities == without_player(entities, player));
                let index = position_of(entities, player)->0;
                assert(first_at(entities, player, index));
                assert forall|i: int| 0 <= i < next.site.entities.len() implies (
                #[trigger] next.site.entities[i] matches SiteEntity::Player(p)
                    ==> next.site.ships.contains_key(p.id)) by {
                    if i < index {
                        assert(next.site.entities[i] == entities[i]);
                    } else {
                        assert(next.site.entities[i] == entities[i + 1]);
                    }
                }
            }
        }
    } else {
        lemma_module_step_keeps_cast(round, statics, solarsystem, site, actor, instruction);
        lemma_same_cast_resolves(round.site, next.site, rest);
    }
}

/// The queue that is sorted out of what a ready round was asked can be
/// resolved, in whatever order the players were walked.
pub proof fn lemma_sorted_can_resolve(
    site: SiteState,
    player_instructions: Map<Player, Seq<Instruction>>,
    npc_instructions: Seq<(usize, Seq<Instruction>)>,
    players_warping_in: Seq<Player>,
    order: Seq<Player>,
)
    requires
        round_ready(site, player_instructions, npc_instructions, players_warping_in),
        enumerates(order, player_instructions.dom()),
    ensures
        can_resolve(site, sorted_from(order, player_instructions, npc_instructions)),
{
    let from_players = players_issued(order, player_instructions);
    let from_npcs = npcs_issued(npc_instructions);
    let issued = from_players + from_npcs;
    let queue = sorted_from(order, player_instructions, npc_instructions);
    lemma_round_order(issued);
    lemma_players_issued_members(order, player_instructions);
    lemma_npcs_issued_members(npc_instructions);
    assert forall|k: int| 0 <= k < queue.len() implies site.knows((#[trigger] queue[k]).0) && (
    queue[k].0 is Npc ==> !queue[k].1.leaves_site()) by {
        assert(issued.contains(queue[k]));
        let m = choose|m: int| 0 <= m < issued.len() && issued[m] == queue[k];
        if m < from_players.len() {
            assert(issued[m] == from_players[m]);
            let player = from_players[m].0->Player_0;
            assert(order.contains(player));
            assert(order.to_set().contains(player));
            assert(player_instructions.contains_key(player));
            assert(player_instructions[player].contains(queue[k].1));
        } else {
            let at = m - from_players.len();
            assert(issued[m] == from_npcs[at]);
            let n = choose|n: int|
                0 <= n < npc_instructions.len() && from_npcs[at].0 == Actor::Npc(
                    npc_instructions[n].0,
                ) && (#[trigger] npc_instructions[n]).1.contains(from_npcs[at].1);
            let i = choose|i: int|
                0 <= i < npc_instructions[n].1.len() && npc_instructions[n].1[i]
                    == from_npcs[at].1;
            assert(npc_in_order(site.entities, npc_instructions[n]));
            assert(!npc_instructions[n].1[i].leaves_site());
        }
    }
    assert forall|i: int, j: int|
        0 <= i < j < queue.len() && (#[trigger] queue[i]).1.leaves_site() implies (
    #[trigger] queue[j]).1.leaves_site() by {
        assert(queue[i].1.rank() <= queue[j].1.rank());
    }
}

/// Whether every player among the entities has a ship.
fn players_have_ships(site_entities: &[SiteEntity], player_ships: &HashMap<Player, Ship>) -> (known:
    bool)
    ensures
        known == (SiteState { entities: site_entities@, ships: player_ships@ }).players_known(),
{
    let mut i: usize = 0;
    while i < site_entities.len()
        invariant
            i <= site_entities@.len(),
            forall|j: int|
                0 <= j < i ==> (#[trigger] site_entities@[j] matches SiteEntity::Player(player)
                    ==> player_ships@.contains_key(player.id)),
        decreases site_entities@.len() - i,
    {
        if let SiteEntity::Player(player) = &site_entities[i] {
            if !player_ships.contains_key(&player.id) {
                return false;
            }
        }
        i += 1;
    }
    true
}

/// Whether every player that has asked for anything has a ship.
fn askers_have_ships(
    player_instructions: &HashMap<Player, Vec<Instruction>>,
    player_ships: &HashMap<Player, Ship>,
) -> (known: bool)
    ensures
        known == (forall|player: Player|
            #[trigger] queues_of(player_instructions@).contains_key(player) && queues_of(
                player_instructions@,
            )[player].len() > 0 ==> player_ships@.contains_key(player)),
{
    let players = players_with_entry(player_instructions);
    let mut i: usize = 0;
    while i < players.len()
        invariant
            i <= players@.len(),
            enumerates(players@, player_instructions@.dom()),
            forall|j: int|
                0 <= j < i ==> (player_instructions@[#[trigger] players@[j]]@.len() > 0
                    ==> player_ships@.contains_key(players@[j])),
        decreases players@.len() - i,
    {
        let player = players[i];
        proof {
            assert(players@.to_set().contains(players@[i as int]));
        }
        let queue = player_instructions.get(&player).unwrap();
        if queue.len() > 0 && !player_ships.contains_key(&player) {
            proof {
                assert(queues_of(player_instructions@).contains_key(player));
                assert(queues_of(player_instructions@)[player] == queue@);
            }
            return false;
        }
        i += 1;
    }
    proof {
        assert forall|player: Player|
            #[trigger] queues_of(player_instructions@).contains_key(player) && queues_of(
                player_instructions@,
            )[player].len() > 0 implies player_ships@.contains_key(player) by {
            assert(players@.to_set().contains(player));
            let j = choose|j: int| 0 <= j < players@.len() && players@[j] == player;
            assert(players@[j] == player);
        }
    }
    true
}

/// Whether every NPC that asks for anything is an NPC of the site and does
/// not ask to leave it.
fn npcs_are_in_order(
    site_entities: &[SiteEntity],
    npc_instructions: &[(usize, Vec<Instruction>)],
) -> (in_order: bool)
    ensures
        in_order == (forall|n: int|
            0 <= n < asked_of(npc_instructions@).len() ==> npc_in_order(
                site_entities@,
                #[trigger] asked_of(npc_instructions@)[n],
            )),
{
    let mut n: usize = 0;
    while n < npc_instructions.len()
        invariant
            n <= npc_instructions@.len(),
            forall|m: int|
                0 <= m < n ==> npc_in_order(
                    site_entities@,
                    #[trigger] asked_of(npc_instructions@)[m],
                ),
        decreases npc_instructions@.len() - n,
    {
        let index = npc_instructions[n].0;
        let instructions = &npc_instructions[n].1;
        if instructions.len() > 0 {
            let is_npc = index < site_entities.len() && match &site_entities[index] {
                SiteEntity::Npc(_) => true,
                _ => false,
            };
            if !is_npc {
                proof {
                    assert(!npc_in_order(site_entities@, asked_of(npc_instructions@)[n as int]));
                }
                return false;
            }
            let mut i: usize = 0;
            while i < instructions.len()
                invariant
                    i <= instructions@.len(),
                    n < npc_instructions@.len(),
                    *instructions == npc_instructions@[n as int].1,
                    forall|j: int| 0 <= j < i ==> !(#[trigger] instructions@[j]).leaves_site(),
                decreases instructions@.len() - i,
            {
                match instructions[i] {
                    Instruction::Facility(_) | Instruction::Warp(_) => {
                        proof {
                            assert(asked_of(npc_instructions@)[n as int].1[i as int].leaves_site());
                            assert(!npc_in_order(
                                site_entities@,
                                asked_of(npc_instructions@)[n as int],
                            ));
                        }
                        return false;
                    },
                    _ => {},
                }
                i += 1;
            }
        }
        proof {
            assert(asked_of(npc_instructions@)[n as int].1 == instructions@);
        }
        n += 1;
    }
    true
}

/// Whether all of the players have a ship.
fn all_have_ships(players: &[Player], player_ships: &HashMap<Player, Ship>) -> (known: bool)
    ensures
        known == (forall|i: int|
            0 <= i < players@.len() ==> player_ships@.contains_key(#[trigger] players@[i])),
{
    let mut i: usize = 0;
    while i < players.len()
        invariant
            i <= players@.len(),
            forall|j: int| 0 <= j < i ==> player_ships@.contains_key(#[trigger] players@[j]),
        decreases players@.len() - i,
    {
        if !player_ships.contains_key(&players[i]) {
            return false;
        }
        i += 1;
    }
    true
}

/// Whether the site is ready for its round: whether the caller of [`advance`]
/// has brought what it owes.
pub fn is_round_ready(
    site_entities: &[SiteEntity],
    player_instructions: &HashMap<Player, Vec<Instruction>>,
    npc_instructions: &[(usize, Vec<Instruction>)],
    player_ships: &HashMap<Player, Ship>,
    players_warping_in: &[Player],
) -> (ready: bool)
    ensures
        ready == round_ready(
            SiteState { entities: site_entities@, ships: player_ships@ },
            queues_of(player_instructions@),
            asked_of(npc_instructions@),
            players_warping_in@,
        ),
{
    players_have_ships(site_entities, player_ships) && askers_have_ships(
        player_instructions,
        player_ships,
    ) && npcs_are_in_order(site_entities, npc_instructions) && all_have_ships(
        players_warping_in,
        player_ships,
    )
}

/// Resolves a queue of instructions, one after the other.
pub fn resolve(
    statics: &Statics,
    solarsystem: SolarsystemId,
    site: SiteInfo,
    site_entities: &mut Vec<SiteEntity>,
    sorted_instructions: &[(Actor, Instruction)],
    player_locations: &mut HashMap<Player, PlayerLocation>,
    player_ships: &mut HashMap<Player, Ship>,
    site_log: &mut Vec<SiteLog>,
)
    requires
        can_resolve(
            SiteState { entities: old(site_entities)@, ships: old(player_ships)@ },
            sorted_instructions@,
        ),
    ensures
        (RoundState {
            site: SiteState { entities: final(site_entities)@, ships: final(player_ships)@ },
            locations: final(player_locations)@,
            log: final(site_log)@,
        }) == (RoundState {
            site: SiteState { entities: old(site_entities)@, ships: old(player_ships)@ },
            locations: old(player_locations)@,
            log: old(site_log)@,
        }).resolved(*statics, solarsystem, site, sorted_instructions@),
        (SiteState { entities: final(site_entities)@, ships: final(player_ships)@ }).players_known(),
        final(player_ships)@.dom() == old(player_ships)@.dom(),
{
    let ghost before = RoundState {
        site: SiteState { entities: site_entities@, ships: player_ships@ },
        locations: player_locations@,
        log: site_log@,
    };
    let ghost queue = sorted_instructions@;
    let mut i: usize = 0;
    proof {
        assert(queue.skip(0) =~= queue);
    }
    while i < sorted_instructions.len()
        invariant
            i <= queue.len(),
            queue == sorted_instructions@,
            (RoundState {
                site: SiteState { entities: site_entities@, ships: player_ships@ },
                locations: player_locations@,
                log: site_log@,
            }) == before.resolved(*statics, solarsystem, site, queue.take(i as int)),
            can_resolve(SiteState { entities: site_entities@, ships: player_ships@ }, queue.skip(i as int)),
            player_ships@.dom() == before.site.ships.dom(),
        decreases queue.len() - i,
    {
        let ghost current = RoundState {
            site: SiteState { entities: site_entities@, ships: player_ships@ },
            locations: player_locations@,
            log: site_log@,
        };
        proof {
            lemma_step_keeps_resolvable(current, *statics, solarsystem, site, queue.skip(i as int));
            assert(queue.skip(i as int)[0] == queue[i as int]);
            assert(queue.skip(i as int).skip(1) =~= queue.skip(i + 1));
            assert(queue.take(i + 1).drop_last() =~= queue.take(i as int));
            assert(queue.take(i + 1).last() == queue[i as int]);
        }
        let (actor, instruction) = sorted_instructions[i];
        match instruction {
            Instruction::ModuleUntargeted(module) => {
                apply_untargeted(statics, site_entities, player_ships, &actor, module.module_index);
            },
            Instruction::ModuleTargeted(module) => {
                apply_targeted(
                    statics,
                    site_entities,
                    player_ships,
                    &actor,
                    module.module_index,
                    module.target_index_in_site,
                    site_log,
                );
            },
            Instruction::SelfDestruct => {
                self_destruct(site_entities, player_ships, &actor);
            },
            Instruction::Facility(facility) => {
                match actor {
                    Actor::Player(player) => match facility.service {
                        Service::Dock => dock(
                            solarsystem,
                            site,
                            site_entities,
                            player_locations,
                            player_ships,
                            player,
                            site_log,
                        ),
                        Service::Jump => jump(
                            solarsystem,
                            site,
                            site_entities,
                            player_locations,
                            player_ships,
                            player,
                            site_log,
                        ),
                    },
                    Actor::Npc(_) => {},
                }
            },
            Instruction::Warp(warp) => {
                match actor {
                    Actor::Player(player) => out(
                        solarsystem,
                        site_entities,
                        player_locations,
                        player_ships,
                        player,
                        warp.target,
                        site_log,
                    ),
                    Actor::Npc(_) => {},
                }
            },
        }
        i += 1;
    }
    proof {
        assert(queue.take(i as int) =~= queue);
    }
}

/// Advances the site by one round.
///
/// The instructions of players and NPCs are sorted into one queue and resolved
/// one after the other. Then every entity is reconciled with its fitting and
/// the dead are removed, then the arriving players are admitted, and at last
/// the instructions of every player are cleared, carried out or not.
///
/// Between instructions of one kind from different players the order is the
/// one in which the map of instructions hands out its players.
pub fn advance(
    statics: &Statics,
    solarsystem: SolarsystemId,
    site: SiteInfo,
    site_entities: &mut Vec<SiteEntity>,
    player_instructions: &mut HashMap<Player, Vec<Instruction>>,
    npc_instructions: &[(usize, Vec<Instruction>)],
    player_locations: &mut HashMap<Player, PlayerLocation>,
    player_ships: &mut HashMap<Player, Ship>,
    players_warping_in: &[Player],
) -> (outputs: Outputs)
    requires
        round_ready(
            SiteState { entities: old(site_entities)@, ships: old(player_ships)@ },
            queues_of(old(player_instructions)@),
            asked_of(npc_instructions@),
            players_warping_in@,
        ),
    ensures
        exists|order: Seq<Player>|
            enumerates(order, old(player_instructions)@.dom()) && (RoundState {
                site: SiteState { entities: final(site_entities)@, ships: final(player_ships)@ },
                locations: final(player_locations)@,
                log: outputs.site_log@,
            }) == (RoundState {
                site: SiteState { entities: old(site_entities)@, ships: old(player_ships)@ },
                locations: old(player_locations)@,
                log: Seq::empty(),
            }).advanced(
                *statics,
                solarsystem,
                site,
                #[trigger] sorted_from(
                    order,
                    queues_of(old(player_instructions)@),
                    asked_of(npc_instructions@),
                ),
                players_warping_in@,
            ),
        final(player_instructions)@.dom() == old(player_instructions)@.dom(),
        forall|player: Player| #[trigger]
            final(player_instructions)@.contains_key(player)
                ==> final(player_instructions)@[player]@.len() == 0,
        final(player_ships)@.dom() == old(player_ships)@.dom(),
{
    let sorted_instructions = sort(player_instructions, npc_instructions);
    let ghost order = choose|order: Seq<Player>|
        enumerates(order, player_instructions@.dom()) && sorted_instructions@ == sorted_from(
            order,
            queues_of(player_instructions@),
            asked_of(npc_instructions@),
        );
    proof {
        assert(queues_of(player_instructions@).dom() =~= player_instructions@.dom());
        lemma_sorted_can_resolve(
            SiteState { entities: site_entities@, ships: player_ships@ },
            queues_of(player_instructions@),
            asked_of(npc_instructions@),
            players_warping_in@,
            order,
        );
    }
    let mut site_log: Vec<SiteLog> = Vec::new();
    resolve(
        statics,
        solarsystem,
        site,
        site_entities,
        sorted_instructions.as_slice(),
        player_locations,
        player_ships,
        &mut site_log,
    );
    finishup_entities(statics, site_entities, player_ships, &mut site_log);

    // Add players in warp to here
    in_site(
        solarsystem,
        site,
        site_entities,
        player_locations,
        player_ships,
        players_warping_in,
        &mut site_log,
    );
    cleanup(player_instructions);
    Outputs { site_log }
}

} // verus!
