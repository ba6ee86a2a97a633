use std::collections::HashMap;

use space_game::instruction::{
    Instruction, InstructionModuleSelf, InstructionModuleTargeted, InstructionUseFacility,
    InstructionWarp,
};
use space_game::round::instructions::{cleanup, sort, sort_by_kind, Actor};
use space_game::site::{FacilityIdentifier, Service, SiteInfo, SiteKind};

fn station(unique: u8) -> SiteInfo {
    SiteInfo {
        kind: SiteKind::Facility(FacilityIdentifier::Station),
        unique,
    }
}

#[test]
fn instructions_player_sorted_works() {
    let mut example = HashMap::new();
    example.insert(
        1,
        vec![Instruction::Warp(InstructionWarp {
            target: station(42),
        })],
    );
    example.insert(
        2,
        vec![
            Instruction::ModuleTargeted(InstructionModuleTargeted {
                module_index: 0,
                target_index_in_site: 0,
            }),
            Instruction::ModuleUntargeted(InstructionModuleSelf { module_index: 0 }),
        ],
    );
    let sorted = sort(&example, &[]);
    assert_eq!(sorted.len(), 3);
    assert_eq!(
        sorted[0],
        (
            Actor::Player(2),
            Instruction::ModuleUntargeted(InstructionModuleSelf { module_index: 0 })
        )
    );
    assert_eq!(
        sorted[1],
        (
            Actor::Player(2),
            Instruction::ModuleTargeted(InstructionModuleTargeted {
                module_index: 0,
                target_index_in_site: 0,
            })
        )
    );
    assert_eq!(
        sorted[2],
        (
            Actor::Player(1),
            Instruction::Warp(InstructionWarp {
                target: station(42),
            })
        )
    );
}

#[test]
fn player_sorted_works() {
    let mut example = HashMap::new();
    example.insert(
        1,
        vec![
            Instruction::Facility(InstructionUseFacility {
                service: Service::Dock,
            }),
            Instruction::ModuleUntargeted(InstructionModuleSelf { module_index: 0 }),
        ],
    );
    example.insert(
        2,
        vec![Instruction::ModuleTargeted(InstructionModuleTargeted {
            module_index: 0,
            target_index_in_site: 0,
        })],
    );
    let sorted = sort(&example, &[]);
    assert_eq!(sorted.len(), 3);
    assert_eq!(
        sorted[0],
        (
            Actor::Player(1),
            Instruction::ModuleUntargeted(InstructionModuleSelf { module_index: 0 })
        )
    );
    assert_eq!(
        sorted[1],
        (
            Actor::Player(2),
            Instruction::ModuleTargeted(InstructionModuleTargeted {
                module_index: 0,
                target_index_in_site: 0,
            })
        )
    );
    assert_eq!(
        sorted[2],
        (
            Actor::Player(1),
            Instruction::Facility(InstructionUseFacility {
                service: Service::Dock,
            })
        )
    );
}

#[test]
fn kinds_have_a_fixed_rank() {
    assert_eq!(
        Instruction::ModuleUntargeted(InstructionModuleSelf { module_index: 9 }).kind_rank(),
        0
    );
    assert_eq!(
        Instruction::ModuleTargeted(InstructionModuleTargeted {
            module_index: 9,
            target_index_in_site: 1
        })
        .kind_rank(),
        1
    );
    assert_eq!(Instruction::SelfDestruct.kind_rank(), 2);
    assert_eq!(
        Instruction::Facility(InstructionUseFacility {
            service: Service::Jump
        })
        .kind_rank(),
        3
    );
    assert_eq!(
        Instruction::Warp(InstructionWarp { target: station(0) }).kind_rank(),
        4
    );
}

#[test]
fn sorting_is_stable_within_a_kind() {
    let fire = |module_index, target_index_in_site| {
        Instruction::ModuleTargeted(InstructionModuleTargeted {
            module_index,
            target_index_in_site,
        })
    };
    let issued = vec![
        (Actor::Npc(4), Instruction::SelfDestruct),
        (Actor::Player(7), fire(3, 0)),
        (Actor::Player(7), Instruction::Warp(InstructionWarp { target: station(1) })),
        (Actor::Npc(2), fire(0, 9)),
        (Actor::Player(8), Instruction::ModuleUntargeted(InstructionModuleSelf { module_index: 5 })),
        (Actor::Player(7), fire(1, 1)),
        (
            Actor::Player(9),
            Instruction::Facility(InstructionUseFacility {
                service: Service::Dock,
            }),
        ),
        (Actor::Player(8), Instruction::ModuleUntargeted(InstructionModuleSelf { module_index: 0 })),
    ];
    let sorted = sort_by_kind(&issued);
    assert_eq!(
        sorted,
        vec![
            (Actor::Player(8), Instruction::ModuleUntargeted(InstructionModuleSelf { module_index: 5 })),
            (Actor::Player(8), Instruction::ModuleUntargeted(InstructionModuleSelf { module_index: 0 })),
            (Actor::Player(7), fire(3, 0)),
            (Actor::Npc(2), fire(0, 9)),
            (Actor::Player(7), fire(1, 1)),
            (Actor::Npc(4), Instruction::SelfDestruct),
            (
                Actor::Player(9),
                Instruction::Facility(InstructionUseFacility {
                    service: Service::Dock,
                }),
            ),
            (Actor::Player(7), Instruction::Warp(InstructionWarp { target: station(1) })),
        ]
    );
}

#[test]
fn npc_instructions_come_behind_those_of_players_of_the_same_kind() {
    let fire = |module_index| {
        Instruction::ModuleTargeted(InstructionModuleTargeted {
            module_index,
            target_index_in_site: 0,
        })
    };
    let mut players = HashMap::new();
    players.insert(5, vec![fire(0), fire(1)]);
    let npcs = vec![(3usize, vec![fire(7)]), (1usize, vec![fire(8), Instruction::SelfDestruct])];
    let sorted = sort(&players, &npcs);
    assert_eq!(
        sorted,
        vec![
            (Actor::Player(5), fire(0)),
            (Actor::Player(5), fire(1)),
            (Actor::Npc(3), fire(7)),
            (Actor::Npc(1), fire(8)),
            (Actor::Npc(1), Instruction::SelfDestruct),
        ]
    );
}

#[test]
fn sorting_nothing_gives_nothing() {
    let players: HashMap<u64, Vec<Instruction>> = HashMap::new();
    assert_eq!(sort(&players, &[]), vec![]);
    let mut idle = HashMap::new();
    idle.insert(1, vec![]);
    assert_eq!(sort(&idle, &[(0, vec![])]), vec![]);
}

#[test]
fn cleanup_empties_every_queue_and_keeps_every_player() {
    let mut instructions = HashMap::new();
    instructions.insert(1, vec![Instruction::SelfDestruct]);
    instructions.insert(2, vec![]);
    instructions.insert(
        3,
        vec![
            Instruction::Warp(InstructionWarp { target: station(2) }),
            Instruction::SelfDestruct,
        ],
    );
    cleanup(&mut instructions);
    assert_eq!(instructions.len(), 3);
    for player in [1, 2, 3] {
        assert_eq!(instructions.get(&player), Some(&vec![]));
    }
}
