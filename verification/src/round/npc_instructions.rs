//! What the NPCs of a site ask of a round.

use vstd::prelude::*;
use crate::instruction::{Instruction, InstructionModuleTargeted};
use crate::round::entities::{first_player, get_players, lemma_players_of_first};
use crate::round::instructions::asked_of;
use crate::round::npc_in_order;
use crate::site::{NpcFaction, SiteEntity, SiteInfo};

verus! {

/// One shot of every targeted slot at the target: the instructions of a pirate
/// with `slots` targeted modules. Nothing where there is nobody to shoot at.
///
/// An instruction holds an index in eight bits: an index that needs more is
/// cut down to its lowest eight bits.
pub open spec fn fire_all(target: Option<int>, slots: nat) -> Seq<Instruction> {
    match target {
        Some(target) => Seq::new(
            slots,
            |module: int|
                Instruction::ModuleTargeted(
                    InstructionModuleTargeted {
                        target_index_in_site: target as u8,
                        module_index: module as u8,
                    },
                ),
        ),
        None => Seq::empty(),
    }
}

/// The instructions of the NPCs among the first `upto` entities of the site,
/// each with the index of its NPC.
///
/// A guard asks for nothing and is not listed. A pirate fires every targeted
/// slot at the first player of the site.
pub open spec fn generated(entities: Seq<SiteEntity>, upto: int) -> Seq<(usize, Seq<Instruction>)>
    decreases upto,
{
    if upto <= 0 {
        Seq::empty()
    } else {
        let before = generated(entities, upto - 1);
        match entities[upto - 1] {
            SiteEntity::Npc(npc) => match npc.faction {
                NpcFaction::Guards => before,
                NpcFaction::Pirates => before.push(
                    (
                        (upto - 1) as usize,
                        fire_all(first_player(entities), npc.fitting.slots_targeted@.len()),
                    ),
                ),
            },
            _ => before,
        }
    }
}

/// Where the first player of the site stands at an index that an instruction
/// can hold, a pirate with no more slots than an instruction can name fires
/// each of its targeted slots once, all of them at that player.
pub proof fn lemma_pirate_fires_every_slot_at_first_player(
    entities: Seq<SiteEntity>,
    slots: nat,
    module: int,
)
    requires
        first_player(entities) matches Some(target) && target <= u8::MAX,
        slots <= u8::MAX + 1,
        0 <= module < slots,
    ensures
        fire_all(first_player(entities), slots).len() == slots,
        fire_all(first_player(entities), slots)[module] == Instruction::ModuleTargeted(
            InstructionModuleTargeted {
                target_index_in_site: first_player(entities)->0 as u8,
                module_index: module as u8,
            },
        ),
        first_player(entities)->0 as u8 == first_player(entities)->0,
        module as u8 == module,
{
}

/// The instructions of one pirate.
fn fire_at(target: Option<usize>, slots: usize) -> (instructions: Vec<Instruction>)
    ensures
        instructions@ == fire_all(
            match target {
                Some(index) => Some(index as int),
                None => None,
            },
            slots as nat,
        ),
{
    let mut instructions: Vec<Instruction> = Vec::new();
    if let Some(target_index) = target {
        let mut module_index: usize = 0;
        while module_index < slots
            invariant
                module_index <= slots,
                instructions@ == fire_all(Some(target_index as int), module_index as nat),
            decreases slots - module_index,
        {
            instructions.push(
                Instruction::ModuleTargeted(
                    InstructionModuleTargeted {
                        target_index_in_site: #[verifier::truncate]
                        (target_index as u8),
                        module_index: #[verifier::truncate]
                        (module_index as u8),
                    },
                ),
            );
            proof {
                assert(instructions@ =~= fire_all(
                    Some(target_index as int),
                    (module_index + 1) as nat,
                ));
            }
            module_index += 1;
        }
    }
    instructions
}

/// Generates the instructions of every NPC of the site for the round.
pub fn generate(_site: SiteInfo, site_entities: &[SiteEntity]) -> (result: Vec<
    (usize, Vec<Instruction>),
>)
    ensures
        asked_of(result@) == generated(site_entities@, site_entities@.len() as int),
        forall|n: int|
            0 <= n < asked_of(result@).len() ==> npc_in_order(
                site_entities@,
                #[trigger] asked_of(result@)[n],
            ),
{
    let players = get_players(site_entities);
    let entities = site_entities.len();
    proof {
        assert(site_entities@.len() == entities);
        lemma_players_of_first(site_entities@);
    }
    let target: Option<usize> = if players.len() > 0 {
        Some(players[0].0)
    } else {
        None
    };
    let mut result: Vec<(usize, Vec<Instruction>)> = Vec::new();
    let mut site_index: usize = 0;
    proof {
        assert(asked_of(result@) =~= Seq::empty());
    }
    while site_index < entities
        invariant
            entities == site_entities@.len(),
            site_index <= site_entities@.len(),
            asked_of(result@) == generated(site_entities@, site_index as int),
            forall|n: int|
                0 <= n < asked_of(result@).len() ==> npc_in_order(
                    site_entities@,
                    #[trigger] asked_of(result@)[n],
                ),
            match target {
                Some(index) => first_player(site_entities@) == Some(index as int),
                None => first_player(site_entities@) is None,
            },
        decreases site_entities@.len() - site_index,
    {
        if let SiteEntity::Npc(npc) = &site_entities[site_index] {
            match npc.faction {
                NpcFaction::Guards => {},
                NpcFaction::Pirates => {
                    let instructions = fire_at(target, npc.fitting.slots_targeted.len());
                    let ghost before = result@;
                    result.push((site_index, instructions));
                    proof {
                        assert(asked_of(result@) =~= asked_of(before).push(
                            (site_index, instructions@),
                        ));
                    }
                },
            }
        }
        site_index += 1;
    }
    result
}

} // verus!
