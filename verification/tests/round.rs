use std::collections::HashMap;

use space_game::instruction::{
    Instruction, InstructionModuleSelf, InstructionModuleTargeted, InstructionUseFacility,
    InstructionWarp,
};
use space_game::location::{PlayerAtStation, PlayerInSite, PlayerInSpace, PlayerLocation};
use space_game::round::effect::RoundEffect;
use space_game::round::facility::{dock, jump};
use space_game::round::module::{
    apply_targeted, apply_targeted_to_target, apply_untargeted, self_destruct,
};
use space_game::round::npc_instructions::generate;
use space_game::round::instructions::Actor;
use space_game::round::warp_player::{in_site, out};
use space_game::round::{advance, finishup_entities, is_round_ready, resolve};
use space_game::ship::{Cargo, Ship, ShipFitting, ShipStatus};
use space_game::site::{
    FacilityIdentifier, NpcFaction, Service, SiteEntity, SiteEntityFacility, SiteEntityLifeless,
    SiteEntityNpc, SiteEntityPlayer, SiteInfo, SiteKind, SiteLog, SiteLogActor,
};
use space_game::statics::{ModulePassive, ModuleSelf, ModuleTargeted, ShipLayout, Statics};

const REPAIRER: u8 = 0;
const BOOSTER: u8 = 1;
const LASER: u8 = 0;
const MINER: u8 = 1;
const FREE_LASER: u8 = 2;

fn statics() -> Statics {
    Statics {
        ship_layouts: vec![
            ShipLayout {
                capacitor: 40,
                hitpoints_armor: 20,
                hitpoints_structure: 10,
                ore_bay: 50,
                round_effects: vec![RoundEffect::CapacitorRecharge(2)],
            },
            ShipLayout {
                capacitor: 10,
                hitpoints_armor: 10,
                hitpoints_structure: 10,
                ore_bay: 5,
                round_effects: vec![],
            },
        ],
        modules_passive: vec![ModulePassive {
            capacitor: None,
            hitpoints_armor: Some(10),
        }],
        modules_untargeted: vec![
            ModuleSelf {
                effects: vec![RoundEffect::ArmorRepair(5), RoundEffect::CapacitorDrain(15)],
            },
            ModuleSelf {
                effects: vec![RoundEffect::CapacitorRecharge(3)],
            },
        ],
        modules_targeted: vec![
            ModuleTargeted {
                effects_origin: vec![RoundEffect::CapacitorDrain(4)],
                effects_target: vec![RoundEffect::Damage(12)],
            },
            ModuleTargeted {
                effects_origin: vec![RoundEffect::CapacitorDrain(1)],
                effects_target: vec![RoundEffect::Mine(8)],
            },
            ModuleTargeted {
                effects_origin: vec![],
                effects_target: vec![RoundEffect::Damage(100)],
            },
        ],
        solarsystems: vec![],
    }
}

fn fitting(layout: u8) -> ShipFitting {
    ShipFitting {
        layout,
        slots_targeted: vec![LASER, MINER, FREE_LASER],
        slots_untargeted: vec![REPAIRER, BOOSTER],
        slots_passive: vec![],
    }
}

fn status(capacitor: u16, hitpoints_armor: u16, hitpoints_structure: u16) -> ShipStatus {
    ShipStatus {
        capacitor,
        hitpoints_armor,
        hitpoints_structure,
    }
}

fn ship(layout: u8, ship_status: ShipStatus, ore: u16) -> Ship {
    Ship {
        fitting: fitting(layout),
        status: ship_status,
        cargo: Cargo { ore },
    }
}

fn player(id: u64) -> SiteEntity {
    SiteEntity::Player(SiteEntityPlayer { id })
}

fn npc(faction: NpcFaction, npc_status: ShipStatus) -> SiteEntity {
    SiteEntity::Npc(SiteEntityNpc {
        faction,
        fitting: fitting(0),
        status: npc_status,
        cargo: Cargo { ore: 0 },
    })
}

fn asteroid(remaining_ore: u16) -> SiteEntity {
    SiteEntity::Lifeless(SiteEntityLifeless {
        id: 4,
        status: status(0, 10, 10),
        remaining_ore,
    })
}

fn facility(id: FacilityIdentifier) -> SiteEntity {
    SiteEntity::Facility(SiteEntityFacility { id })
}

fn site(kind: SiteKind, unique: u8) -> SiteInfo {
    SiteInfo { kind, unique }
}

fn belt() -> SiteInfo {
    site(SiteKind::AsteroidField, 3)
}

fn untargeted(module_index: u8) -> Instruction {
    Instruction::ModuleUntargeted(InstructionModuleSelf { module_index })
}

fn fire(module_index: u8, target_index_in_site: u8) -> Instruction {
    Instruction::ModuleTargeted(InstructionModuleTargeted {
        target_index_in_site,
        module_index,
    })
}

fn use_facility(service: Service) -> Instruction {
    Instruction::Facility(InstructionUseFacility { service })
}

#[test]
fn untargeted_module_is_paid_and_applied() {
    let statics = statics();
    let mut entities = vec![player(1)];
    let mut ships = HashMap::new();
    ships.insert(1, ship(0, status(20, 3, 10), 0));
    apply_untargeted(&statics, &mut entities, &mut ships, &Actor::Player(1), REPAIRER);
    assert_eq!(ships[&1], ship(0, status(5, 8, 10), 0));
    assert_eq!(entities, vec![player(1)]);
}

#[test]
fn unaffordable_module_leaves_status_unchanged() {
    let statics = statics();
    let mut entities = vec![player(1)];
    let mut ships = HashMap::new();
    ships.insert(1, ship(0, status(10, 3, 10), 0));
    let mut instructions = HashMap::new();
    instructions.insert(1, vec![untargeted(REPAIRER)]);
    let mut locations = HashMap::new();
    let outputs = advance(
        &statics,
        0,
        belt(),
        &mut entities,
        &mut instructions,
        &[],
        &mut locations,
        &mut ships,
        &[],
    );
    assert_eq!(outputs.site_log, vec![]);
    assert_eq!(instructions[&1], vec![]);
    assert_eq!(entities, vec![player(1)]);
    // Only the recharge that the layout gives every round has happened.
    assert_eq!(ships[&1], ship(0, status(12, 3, 10), 0));

    let mut ships = HashMap::new();
    ships.insert(1, ship(1, status(10, 3, 10), 0));
    let mut instructions = HashMap::new();
    instructions.insert(1, vec![untargeted(REPAIRER)]);
    let outputs = advance(
        &statics,
        0,
        belt(),
        &mut entities,
        &mut instructions,
        &[],
        &mut locations,
        &mut ships,
        &[],
    );
    assert_eq!(outputs.site_log, vec![]);
    assert_eq!(instructions[&1], vec![]);
    assert_eq!(ships[&1], ship(1, status(10, 3, 10), 0));
    assert!(locations.is_empty());
}

#[test]
fn untargeted_module_of_an_unknown_slot_is_ignored() {
    let statics = statics();
    let mut entities = vec![npc(NpcFaction::Guards, status(20, 3, 10))];
    let mut ships = HashMap::new();
    apply_untargeted(&statics, &mut entities, &mut ships, &Actor::Npc(0), 2);
    assert_eq!(entities, vec![npc(NpcFaction::Guards, status(20, 3, 10))]);
    apply_untargeted(&statics, &mut entities, &mut ships, &Actor::Npc(0), BOOSTER);
    assert_eq!(entities, vec![npc(NpcFaction::Guards, status(23, 3, 10))]);
}

#[test]
fn targeted_module_hits_an_npc_and_is_logged() {
    let statics = statics();
    let mut entities = vec![player(1), npc(NpcFaction::Pirates, status(9, 5, 10))];
    let mut ships = HashMap::new();
    ships.insert(1, ship(0, status(20, 3, 10), 0));
    let mut log = Vec::new();
    apply_targeted(&statics, &mut entities, &mut ships, &Actor::Player(1), 0, 1, &mut log);
    assert_eq!(ships[&1], ship(0, status(16, 3, 10), 0));
    assert_eq!(entities, vec![player(1), npc(NpcFaction::Pirates, status(9, 0, 3))]);
    assert_eq!(
        log,
        vec![SiteLog::ModuleTargeted(
            SiteLogActor::Player(1, 0),
            LASER,
            SiteLogActor::Npc(NpcFaction::Pirates, 0)
        )]
    );
}

#[test]
fn targeted_module_that_cannot_be_paid_does_nothing() {
    let statics = statics();
    let mut entities = vec![player(1), npc(NpcFaction::Pirates, status(9, 5, 10))];
    let mut ships = HashMap::new();
    ships.insert(1, ship(0, status(3, 3, 10), 0));
    let mut log = Vec::new();
    apply_targeted(&statics, &mut entities, &mut ships, &Actor::Player(1), 0, 1, &mut log);
    assert_eq!(ships[&1], ship(0, status(3, 3, 10), 0));
    assert_eq!(entities, vec![player(1), npc(NpcFaction::Pirates, status(9, 5, 10))]);
    assert_eq!(log, vec![]);
}

#[test]
fn targeted_module_without_target_is_paid_but_not_logged() {
    let statics = statics();
    let mut entities = vec![player(1)];
    let mut ships = HashMap::new();
    ships.insert(1, ship(0, status(20, 3, 10), 0));
    let mut log = Vec::new();
    apply_targeted(&statics, &mut entities, &mut ships, &Actor::Player(1), 0, 1, &mut log);
    assert_eq!(ships[&1], ship(0, status(16, 3, 10), 0));
    assert_eq!(log, vec![]);
    apply_targeted(&statics, &mut entities, &mut ships, &Actor::Player(1), 3, 0, &mut log);
    assert_eq!(ships[&1], ship(0, status(16, 3, 10), 0));
    assert_eq!(log, vec![]);
}

#[test]
fn facility_is_immune_but_the_shot_is_logged() {
    let statics = statics();
    let mut entities = vec![facility(FacilityIdentifier::Station), npc(NpcFaction::Guards, status(9, 5, 10))];
    let mut ships = HashMap::new();
    let mut log = Vec::new();
    apply_targeted(&statics, &mut entities, &mut ships, &Actor::Npc(1), 0, 0, &mut log);
    assert_eq!(
        entities,
        vec![facility(FacilityIdentifier::Station), npc(NpcFaction::Guards, status(5, 5, 10))]
    );
    assert_eq!(
        log,
        vec![SiteLog::ModuleTargeted(
            SiteLogActor::Npc(NpcFaction::Guards, 0),
            LASER,
            SiteLogActor::Facility(FacilityIdentifier::Station)
        )]
    );
}

#[test]
fn npc_hits_a_player() {
    let statics = statics();
    let mut entities = vec![npc(NpcFaction::Pirates, status(9, 5, 10)), player(2)];
    let mut ships = HashMap::new();
    ships.insert(2, ship(1, status(1, 20, 10), 3));
    let mut log = Vec::new();
    apply_targeted(&statics, &mut entities, &mut ships, &Actor::Npc(0), 0, 1, &mut log);
    assert_eq!(entities[0], npc(NpcFaction::Pirates, status(5, 5, 10)));
    assert_eq!(ships[&2], ship(1, status(1, 8, 10), 3));
    assert_eq!(
        log,
        vec![SiteLog::ModuleTargeted(
            SiteLogActor::Npc(NpcFaction::Pirates, 0),
            LASER,
            SiteLogActor::Player(2, 1)
        )]
    );
}

#[test]
fn a_ship_can_target_itself() {
    let statics = statics();
    let mut entities = vec![player(1)];
    let mut ships = HashMap::new();
    ships.insert(1, ship(0, status(20, 30, 10), 0));
    let mut log = Vec::new();
    apply_targeted(&statics, &mut entities, &mut ships, &Actor::Player(1), 0, 0, &mut log);
    assert_eq!(ships[&1], ship(0, status(16, 18, 10), 0));
    let mut entities = vec![npc(NpcFaction::Pirates, status(9, 5, 10))];
    apply_targeted(&statics, &mut entities, &mut ships, &Actor::Npc(0), 0, 0, &mut log);
    assert_eq!(entities, vec![npc(NpcFaction::Pirates, status(5, 0, 3))]);
}

fn mine(strength_slot: u8, remaining: u16, cargo: u16, layout: u8) -> (u16, u16) {
    let statics = statics();
    let mut entities = vec![asteroid(remaining), player(1)];
    let mut ships = HashMap::new();
    ships.insert(1, ship(layout, status(20, 3, 10), cargo));
    let mut log = Vec::new();
    apply_targeted(&statics, &mut entities, &mut ships, &Actor::Player(1), strength_slot, 0, &mut log);
    assert_eq!(log.len(), 1);
    let left = match &entities[0] {
        SiteEntity::Lifeless(l) => l.remaining_ore,
        _ => panic!("the asteroid is gone"),
    };
    (left, ships[&1].cargo.ore)
}

#[test]
fn mining_takes_the_minimum_of_strength_resource_and_free_cargo() {
    // The miner has strength 8, the ore bay of layout 0 holds 50 and that of layout 1 holds 5.
    assert_eq!(mine(1, 20, 0, 0), (12, 8));
    assert_eq!(mine(1, 8, 0, 0), (0, 8));
    assert_eq!(mine(1, 5, 10, 0), (0, 15));
    assert_eq!(mine(1, 0, 10, 0), (0, 10));
    assert_eq!(mine(1, 20, 45, 0), (15, 50));
    assert_eq!(mine(1, 20, 50, 0), (20, 50));
    assert_eq!(mine(1, 20, 60, 0), (20, 60));
    assert_eq!(mine(1, 20, 0, 1), (15, 5));
    assert_eq!(mine(1, 3, 4, 1), (2, 5));
    assert_eq!(mine(1, u16::MAX, 0, 0), (u16::MAX - 8, 8));
    // A laser mines nothing.
    assert_eq!(mine(0, 20, 0, 0), (20, 0));
}

#[test]
fn mining_effects_hit_the_status_of_the_resource_too() {
    let mut ships = HashMap::new();
    let mut target = asteroid(20);
    let module = ModuleTargeted {
        effects_origin: vec![],
        effects_target: vec![RoundEffect::Damage(12), RoundEffect::Mine(3), RoundEffect::Mine(9)],
    };
    let loot = apply_targeted_to_target(&mut ships, &mut target, &module, Cargo { ore: 100 });
    assert_eq!(loot, Cargo { ore: 3 });
    assert_eq!(
        target,
        SiteEntity::Lifeless(SiteEntityLifeless {
            id: 4,
            status: status(0, 0, 8),
            remaining_ore: 17,
        })
    );
    let mut station = facility(FacilityIdentifier::Station);
    let loot = apply_targeted_to_target(&mut ships, &mut station, &module, Cargo { ore: 100 });
    assert_eq!(loot, Cargo { ore: 0 });
    assert_eq!(station, facility(FacilityIdentifier::Station));
}

#[test]
fn npc_mines_into_its_own_cargo() {
    let statics = statics();
    let mut entities = vec![npc(NpcFaction::Pirates, status(9, 5, 10)), asteroid(6)];
    let mut ships = HashMap::new();
    let mut log = Vec::new();
    apply_targeted(&statics, &mut entities, &mut ships, &Actor::Npc(0), 1, 1, &mut log);
    let mut expected = npc(NpcFaction::Pirates, status(8, 5, 10));
    if let SiteEntity::Npc(n) = &mut expected {
        n.cargo = Cargo { ore: 6 };
    }
    assert_eq!(entities, vec![expected, asteroid(0)]);
    assert_eq!(
        log,
        vec![SiteLog::ModuleTargeted(
            SiteLogActor::Npc(NpcFaction::Pirates, 0),
            MINER,
            SiteLogActor::Lifeless(4)
        )]
    );
}

#[test]
fn self_destruct_kills_without_a_log_entry() {
    let mut entities = vec![player(1), npc(NpcFaction::Pirates, status(9, 5, 10))];
    let mut ships = HashMap::new();
    ships.insert(1, ship(0, status(20, 3, 10), 7));
    self_destruct(&mut entities, &mut ships, &Actor::Player(1));
    assert_eq!(ships[&1], ship(0, status(0, 0, 0), 7));
    self_destruct(&mut entities, &mut ships, &Actor::Npc(1));
    assert_eq!(entities, vec![player(1), npc(NpcFaction::Pirates, status(0, 0, 0))]);
}

#[test]
fn docking_needs_a_living_ship() {
    let station_site = site(SiteKind::Facility(FacilityIdentifier::Station), 2);
    let mut entities = vec![facility(FacilityIdentifier::Station), player(1), player(2)];
    let mut ships = HashMap::new();
    ships.insert(1, ship(0, status(20, 3, 10), 0));
    ships.insert(2, ship(1, status(20, 3, 0), 0));
    let mut locations = HashMap::new();
    let mut log = Vec::new();
    dock(5, station_site, &mut entities, &mut locations, &mut ships, 2, &mut log);
    assert_eq!(entities.len(), 3);
    assert!(locations.is_empty());
    assert!(log.is_empty());
    dock(5, station_site, &mut entities, &mut locations, &mut ships, 1, &mut log);
    assert_eq!(entities, vec![facility(FacilityIdentifier::Station), player(2)]);
    assert_eq!(
        locations[&1],
        PlayerLocation::Station(PlayerAtStation {
            solarsystem: 5,
            station: 0
        })
    );
    assert_eq!(log, vec![SiteLog::Dock(SiteLogActor::Player(1, 0))]);
    assert_eq!(ships.len(), 2);
}

#[test]
fn jumping_needs_a_stargate_and_a_living_ship() {
    let gate_site = site(SiteKind::Facility(FacilityIdentifier::Stargate), 9);
    let mut entities = vec![facility(FacilityIdentifier::Stargate), player(1), player(2)];
    let mut ships = HashMap::new();
    ships.insert(1, ship(0, status(20, 3, 10), 0));
    ships.insert(2, ship(1, status(20, 3, 0), 0));
    let mut locations = HashMap::new();
    let mut log = Vec::new();
    jump(5, belt(), &mut entities, &mut locations, &mut ships, 1, &mut log);
    jump(
        5,
        site(SiteKind::Facility(FacilityIdentifier::Station), 9),
        &mut entities,
        &mut locations,
        &mut ships,
        1,
        &mut log,
    );
    jump(5, gate_site, &mut entities, &mut locations, &mut ships, 2, &mut log);
    assert_eq!(entities.len(), 3);
    assert!(locations.is_empty());
    assert!(log.is_empty());
    jump(5, gate_site, &mut entities, &mut locations, &mut ships, 1, &mut log);
    assert_eq!(entities, vec![facility(FacilityIdentifier::Stargate), player(2)]);
    assert_eq!(
        locations[&1],
        PlayerLocation::Space(PlayerInSpace {
            solarsystem: 9,
            towards: site(SiteKind::Facility(FacilityIdentifier::Stargate), 5),
        })
    );
    assert_eq!(log, vec![SiteLog::Jump(SiteLogActor::Player(1, 0))]);
}

#[test]
fn warping_out_and_in() {
    let target = site(SiteKind::Facility(FacilityIdentifier::Station), 1);
    let mut entities = vec![asteroid(3), player(1), player(2)];
    let mut ships = HashMap::new();
    ships.insert(1, ship(0, status(20, 3, 10), 0));
    ships.insert(2, ship(1, status(20, 3, 0), 0));
    let mut locations = HashMap::new();
    let mut log = Vec::new();
    out(5, &mut entities, &mut locations, &mut ships, 2, target, &mut log);
    assert_eq!(entities.len(), 3);
    assert!(log.is_empty());
    out(5, &mut entities, &mut locations, &mut ships, 1, target, &mut log);
    assert_eq!(entities, vec![asteroid(3), player(2)]);
    assert_eq!(
        locations[&1],
        PlayerLocation::Space(PlayerInSpace {
            solarsystem: 5,
            towards: target
        })
    );
    assert_eq!(log, vec![SiteLog::WarpOut(SiteLogActor::Player(1, 0))]);

    // The player arrives in the site it was on its way to.
    let mut there = vec![facility(FacilityIdentifier::Station)];
    let mut log = Vec::new();
    in_site(5, target, &mut there, &mut locations, &mut ships, &[1, 2], &mut log);
    assert_eq!(there, vec![facility(FacilityIdentifier::Station), player(1), player(2)]);
    assert_eq!(
        locations[&1],
        PlayerLocation::Site(PlayerInSite {
            solarsystem: 5,
            site: target
        })
    );
    assert_eq!(
        locations[&2],
        PlayerLocation::Site(PlayerInSite {
            solarsystem: 5,
            site: target
        })
    );
    assert_eq!(
        log,
        vec![
            SiteLog::WarpIn(SiteLogActor::Player(1, 0)),
            SiteLog::WarpIn(SiteLogActor::Player(2, 1))
        ]
    );
}

#[test]
fn warp_instruction_takes_the_player_to_the_next_site() {
    let statics = statics();
    let target = site(SiteKind::Facility(FacilityIdentifier::Station), 1);
    let mut here = vec![asteroid(3), player(1)];
    let mut there = vec![facility(FacilityIdentifier::Station)];
    let mut ships = HashMap::new();
    ships.insert(1, ship(1, status(10, 3, 10), 0));
    let mut locations = HashMap::new();
    locations.insert(
        1,
        PlayerLocation::Site(PlayerInSite {
            solarsystem: 5,
            site: belt(),
        }),
    );
    let mut instructions = HashMap::new();
    instructions.insert(1, vec![Instruction::Warp(InstructionWarp { target })]);
    let outputs = advance(
        &statics,
        5,
        belt(),
        &mut here,
        &mut instructions,
        &[],
        &mut locations,
        &mut ships,
        &[],
    );
    assert_eq!(here, vec![asteroid(3)]);
    assert_eq!(outputs.site_log, vec![SiteLog::WarpOut(SiteLogActor::Player(1, 1))]);
    assert_eq!(instructions[&1], vec![]);
    let on_the_way: Vec<u64> = locations
        .iter()
        .filter(|(_, location)| {
            **location
                == PlayerLocation::Space(PlayerInSpace {
                    solarsystem: 5,
                    towards: target,
                })
        })
        .map(|(player, _)| *player)
        .collect();
    assert_eq!(on_the_way, vec![1]);

    let mut nothing = HashMap::new();
    let outputs = advance(
        &statics,
        5,
        target,
        &mut there,
        &mut nothing,
        &[],
        &mut locations,
        &mut ships,
        &on_the_way,
    );
    assert_eq!(there, vec![facility(FacilityIdentifier::Station), player(1)]);
    assert_eq!(outputs.site_log, vec![SiteLog::WarpIn(SiteLogActor::Player(1, 1))]);
    assert_eq!(
        locations[&1],
        PlayerLocation::Site(PlayerInSite {
            solarsystem: 5,
            site: target
        })
    );
}

#[test]
fn warping_player_is_gone_whatever_the_others_do() {
    let statics = statics();
    let target = site(SiteKind::Facility(FacilityIdentifier::Stargate), 2);
    let mut entities = vec![
        asteroid(30),
        player(1),
        npc(NpcFaction::Pirates, status(9, 5, 10)),
        player(2),
        player(3),
    ];
    let mut ships = HashMap::new();
    ships.insert(1, ship(0, status(20, 3, 10), 0));
    ships.insert(2, ship(1, status(10, 3, 10), 0));
    ships.insert(3, ship(0, status(20, 3, 10), 0));
    ships.insert(4, ship(1, status(10, 3, 10), 0));
    let mut instructions = HashMap::new();
    instructions.insert(1, vec![fire(1, 0), untargeted(BOOSTER), fire(0, 2)]);
    instructions.insert(2, vec![Instruction::Warp(InstructionWarp { target })]);
    instructions.insert(
        3,
        vec![use_facility(Service::Dock), Instruction::SelfDestruct],
    );
    // The pirate fires at the first player of the site, which is not the one that warps.
    let npc_instructions = generate(belt(), &entities);
    assert_eq!(npc_instructions[0].1[0], fire(0, 1));
    let mut locations = HashMap::new();
    let outputs = advance(
        &statics,
        6,
        belt(),
        &mut entities,
        &mut instructions,
        &npc_instructions,
        &mut locations,
        &mut ships,
        &[4],
    );
    assert!(!entities.contains(&player(2)));
    assert_eq!(
        locations[&2],
        PlayerLocation::Space(PlayerInSpace {
            solarsystem: 6,
            towards: target
        })
    );
    assert!(outputs
        .site_log
        .contains(&SiteLog::WarpOut(SiteLogActor::Player(2, 1))));
    assert_eq!(ships[&2], ship(1, status(10, 3, 10), 0));
    assert_eq!(instructions[&2], vec![]);
    assert!(entities.contains(&player(4)));
}

#[test]
fn finishup_reconciles_and_removes() {
    let statics = statics();
    let dead_rock = SiteEntity::Lifeless(SiteEntityLifeless {
        id: 6,
        status: status(0, 3, 0),
        remaining_ore: 10,
    });
    let mut entities = vec![
        facility(FacilityIdentifier::Station),
        asteroid(5),
        asteroid(0),
        dead_rock,
        npc(NpcFaction::Pirates, status(39, 25, 15)),
        npc(NpcFaction::Guards, status(5, 5, 0)),
        player(1),
        player(2),
    ];
    let mut ships = HashMap::new();
    ships.insert(1, ship(0, status(5, 3, 10), 0));
    ships.insert(2, ship(1, status(50, 3, 0), 0));
    ships.insert(3, ship(1, status(50, 50, 50), 0));
    let mut log = vec![SiteLog::Dock(SiteLogActor::Player(9, 0))];
    finishup_entities(&statics, &mut entities, &mut ships, &mut log);
    assert_eq!(
        entities,
        vec![
            facility(FacilityIdentifier::Station),
            asteroid(5),
            npc(NpcFaction::Pirates, status(40, 20, 10)),
            player(1),
        ]
    );
    assert_eq!(ships[&1], ship(0, status(7, 3, 10), 0));
    assert_eq!(ships[&2], ship(1, status(10, 3, 0), 0));
    assert_eq!(ships[&3], ship(1, status(50, 50, 50), 0));
    assert_eq!(
        log,
        vec![
            SiteLog::Dock(SiteLogActor::Player(9, 0)),
            SiteLog::Collapse(SiteLogActor::Lifeless(4)),
            SiteLog::RapidUnscheduledDisassembly(SiteLogActor::Lifeless(6)),
            SiteLog::RapidUnscheduledDisassembly(SiteLogActor::Npc(NpcFaction::Guards, 0)),
            SiteLog::RapidUnscheduledDisassembly(SiteLogActor::Player(2, 1)),
        ]
    );
}

#[test]
fn second_reconciliation_of_settled_entities_changes_nothing() {
    let statics = statics();
    let mut entities = vec![
        facility(FacilityIdentifier::Stargate),
        asteroid(5),
        npc(NpcFaction::Pirates, status(40, 20, 10)),
        player(1),
        player(2),
    ];
    let mut ships = HashMap::new();
    // At its maximum the recharge of layout 0 changes nothing; layout 1 has no passive effects.
    ships.insert(1, ship(0, status(40, 3, 10), 0));
    ships.insert(2, ship(1, status(4, 3, 2), 0));
    let before_entities = entities.clone();
    let before_ships = ships.clone();
    let mut log = Vec::new();
    finishup_entities(&statics, &mut entities, &mut ships, &mut log);
    assert_eq!(entities, before_entities);
    assert_eq!(ships, before_ships);
    assert_eq!(log, vec![]);
    finishup_entities(&statics, &mut entities, &mut ships, &mut log);
    assert_eq!(entities, before_entities);
    assert_eq!(ships, before_ships);
    assert_eq!(log, vec![]);
}

#[test]
fn recharging_ship_is_not_settled_below_its_maximum() {
    let statics = statics();
    let mut entities = vec![player(1)];
    let mut ships = HashMap::new();
    ships.insert(1, ship(0, status(5, 3, 10), 0));
    let mut log = Vec::new();
    finishup_entities(&statics, &mut entities, &mut ships, &mut log);
    assert_eq!(ships[&1].status, status(7, 3, 10));
    finishup_entities(&statics, &mut entities, &mut ships, &mut log);
    assert_eq!(ships[&1].status, status(9, 3, 10));
}

#[test]
fn fire_is_resolved_before_anyone_docks() {
    let statics = statics();
    let station_site = site(SiteKind::Facility(FacilityIdentifier::Station), 0);
    let mut entities = vec![
        facility(FacilityIdentifier::Station),
        player(1),
        npc(NpcFaction::Pirates, status(9, 5, 10)),
    ];
    let mut ships = HashMap::new();
    ships.insert(1, ship(0, status(20, 3, 10), 0));
    let mut instructions = HashMap::new();
    instructions.insert(1, vec![use_facility(Service::Dock), fire(0, 2)]);
    let npc_instructions = generate(station_site, &entities);
    assert_eq!(
        npc_instructions,
        vec![(2, vec![fire(0, 1), fire(1, 1), fire(2, 1)])]
    );
    assert!(is_round_ready(&entities, &instructions, &npc_instructions, &ships, &[]));
    let mut locations = HashMap::new();
    let outputs = advance(
        &statics,
        0,
        station_site,
        &mut entities,
        &mut instructions,
        &npc_instructions,
        &mut locations,
        &mut ships,
        &[],
    );
    // The pirate shot the player down before it could dock. The wreck still
    // got the recharge that its layout gives every round.
    assert_eq!(ships[&1], ship(0, status(18, 0, 0), 0));
    assert!(locations.is_empty());
    assert_eq!(
        entities,
        vec![facility(FacilityIdentifier::Station), npc(NpcFaction::Pirates, status(6, 0, 3))]
    );
    assert_eq!(
        outputs.site_log,
        vec![
            SiteLog::ModuleTargeted(
                SiteLogActor::Player(1, 0),
                LASER,
                SiteLogActor::Npc(NpcFaction::Pirates, 0)
            ),
            SiteLog::ModuleTargeted(
                SiteLogActor::Npc(NpcFaction::Pirates, 0),
                LASER,
                SiteLogActor::Player(1, 0)
            ),
            SiteLog::ModuleTargeted(
                SiteLogActor::Npc(NpcFaction::Pirates, 0),
                MINER,
                SiteLogActor::Player(1, 0)
            ),
            SiteLog::ModuleTargeted(
                SiteLogActor::Npc(NpcFaction::Pirates, 0),
                FREE_LASER,
                SiteLogActor::Player(1, 0)
            ),
            SiteLog::RapidUnscheduledDisassembly(SiteLogActor::Player(1, 0)),
        ]
    );
    assert_eq!(instructions[&1], vec![]);
}

#[test]
fn whole_round_in_order() {
    let statics = statics();
    let station_site = site(SiteKind::Facility(FacilityIdentifier::Station), 0);
    let mut entities = vec![facility(FacilityIdentifier::Station), player(1), asteroid(30)];
    let mut ships = HashMap::new();
    ships.insert(1, ship(0, status(20, 3, 10), 0));
    ships.insert(2, ship(1, status(20, 3, 10), 0));
    let mut instructions = HashMap::new();
    instructions.insert(
        1,
        vec![use_facility(Service::Dock), fire(1, 2), untargeted(BOOSTER)],
    );
    let mut locations = HashMap::new();
    let outputs = advance(
        &statics,
        7,
        station_site,
        &mut entities,
        &mut instructions,
        &[],
        &mut locations,
        &mut ships,
        &[2],
    );
    assert_eq!(
        entities,
        vec![facility(FacilityIdentifier::Station), asteroid(22), player(2)]
    );
    assert_eq!(ships[&1], ship(0, status(22, 3, 10), 8));
    assert_eq!(ships[&2], ship(1, status(20, 3, 10), 0));
    assert_eq!(
        locations[&1],
        PlayerLocation::Station(PlayerAtStation {
            solarsystem: 7,
            station: 0
        })
    );
    assert_eq!(
        locations[&2],
        PlayerLocation::Site(PlayerInSite {
            solarsystem: 7,
            site: station_site
        })
    );
    assert_eq!(
        outputs.site_log,
        vec![
            SiteLog::ModuleTargeted(SiteLogActor::Player(1, 0), MINER, SiteLogActor::Lifeless(4)),
            SiteLog::Dock(SiteLogActor::Player(1, 0)),
            SiteLog::WarpIn(SiteLogActor::Player(2, 1)),
        ]
    );
    assert_eq!(instructions[&1], vec![]);
}

#[test]
fn resolve_works_through_the_queue_in_its_order() {
    let statics = statics();
    let mut entities = vec![player(1), npc(NpcFaction::Guards, status(9, 5, 10))];
    let mut ships = HashMap::new();
    ships.insert(1, ship(0, status(9, 3, 10), 0));
    let mut locations = HashMap::new();
    let mut log = Vec::new();
    let queue = vec![
        (Actor::Player(1), untargeted(BOOSTER)),
        (Actor::Player(1), fire(0, 1)),
        (Actor::Npc(1), Instruction::SelfDestruct),
        (Actor::Player(1), Instruction::Warp(InstructionWarp { target: belt() })),
    ];
    resolve(&statics, 1, belt(), &mut entities, &queue, &mut locations, &mut ships, &mut log);
    assert_eq!(entities, vec![npc(NpcFaction::Guards, status(0, 0, 0))]);
    assert_eq!(ships[&1], ship(0, status(8, 3, 10), 0));
    assert_eq!(
        log,
        vec![
            SiteLog::ModuleTargeted(
                SiteLogActor::Player(1, 0),
                LASER,
                SiteLogActor::Npc(NpcFaction::Guards, 0)
            ),
            SiteLog::WarpOut(SiteLogActor::Player(1, 0)),
        ]
    );
}

#[test]
fn readiness_is_told_apart() {
    let entities = vec![player(1), npc(NpcFaction::Guards, status(9, 5, 10)), asteroid(1)];
    let mut ships = HashMap::new();
    let mut instructions = HashMap::new();
    assert!(!is_round_ready(&entities, &instructions, &[], &ships, &[]));
    ships.insert(1, ship(0, status(9, 3, 10), 0));
    assert!(is_round_ready(&entities, &instructions, &[], &ships, &[]));
    instructions.insert(2, vec![]);
    assert!(is_round_ready(&entities, &instructions, &[], &ships, &[]));
    instructions.insert(2, vec![untargeted(0)]);
    assert!(!is_round_ready(&entities, &instructions, &[], &ships, &[]));
    ships.insert(2, ship(0, status(9, 3, 10), 0));
    assert!(is_round_ready(&entities, &instructions, &[], &ships, &[]));
    assert!(is_round_ready(&entities, &instructions, &[], &ships, &[1, 2]));
    assert!(!is_round_ready(&entities, &instructions, &[], &ships, &[1, 3]));
    assert!(is_round_ready(&entities, &instructions, &[(1, vec![fire(0, 0)])], &ships, &[]));
    assert!(is_round_ready(&entities, &instructions, &[(2, vec![])], &ships, &[]));
    assert!(!is_round_ready(&entities, &instructions, &[(2, vec![fire(0, 0)])], &ships, &[]));
    assert!(!is_round_ready(&entities, &instructions, &[(3, vec![fire(0, 0)])], &ships, &[]));
    assert!(!is_round_ready(
        &entities,
        &instructions,
        &[(1, vec![fire(0, 0), use_facility(Service::Dock)])],
        &ships,
        &[]
    ));
    assert!(!is_round_ready(
        &entities,
        &instructions,
        &[(1, vec![Instruction::Warp(InstructionWarp { target: belt() })])],
        &ships,
        &[]
    ));
}
