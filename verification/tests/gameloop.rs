use space_game::gameloop::ship::all as reset_dead_ships;
use space_game::gameloop::site::{
    all as rounds_everywhere, arriving, distinct, handle, has_sites_everywhere, players_in_site,
    RoundError,
};
use space_game::gameloop::sites::{
    all as grow_sites, asteroid_belt, generate_asteroid_belts, generate_unique,
    has_planets_everywhere, new_asteroid, spawn_asteroid_belt_pirates, spawn_pirate, unique_from,
    ASTEROID_BELTS,
};
use space_game::instruction::{
    Instruction, InstructionModuleTargeted, InstructionUseFacility, InstructionWarp,
};
use space_game::location::{PlayerAtStation, PlayerInSite, PlayerInSpace, PlayerLocation};
use space_game::persist::player::{add_player_site_instructions, read_player_site_instructions};
use space_game::persist::site::{
    add_entity_warping, read_entitiy_warping, PersistError, Sites, SitesNearPlanet,
};
use space_game::persist::Persist;
use space_game::round::effect::RoundEffect;
use space_game::ship::{Cargo, Ship, ShipFitting, ShipStatus};
use space_game::site::{
    FacilityIdentifier, NpcFaction, Service, SiteEntity, SiteEntityFacility, SiteEntityLifeless,
    SiteEntityNpc, SiteEntityPlayer, SiteInfo, SiteKind, SiteLog, SiteLogActor,
};
use space_game::statics::{ModuleTargeted, ShipLayout, Solarsystem, Statics};

fn statics(solarsystems: usize) -> Statics {
    let mut all = Vec::new();
    for _ in 0..solarsystems {
        all.push(Solarsystem {
            security: 50,
            planets: 3,
            stargates: vec![],
            stations: vec![1],
        });
    }
    Statics {
        ship_layouts: vec![ShipLayout {
            capacitor: 10,
            hitpoints_armor: 10,
            hitpoints_structure: 10,
            ore_bay: 20,
            round_effects: vec![RoundEffect::CapacitorRecharge(1)],
        }],
        modules_passive: vec![],
        modules_untargeted: vec![],
        modules_targeted: vec![
            ModuleTargeted {
                effects_origin: vec![RoundEffect::CapacitorDrain(2)],
                effects_target: vec![RoundEffect::Damage(25)],
            },
            ModuleTargeted {
                effects_origin: vec![],
                effects_target: vec![RoundEffect::Mine(4)],
            },
        ],
        solarsystems: all,
    }
}

fn fitting() -> ShipFitting {
    ShipFitting {
        layout: 0,
        slots_targeted: vec![0, 1],
        slots_untargeted: vec![],
        slots_passive: vec![],
    }
}

fn ship(capacitor: u16, hitpoints_structure: u16) -> Ship {
    Ship {
        fitting: fitting(),
        status: ShipStatus {
            capacitor,
            hitpoints_armor: 0,
            hitpoints_structure,
        },
        cargo: Cargo { ore: 0 },
    }
}

fn station_site() -> SiteInfo {
    SiteInfo {
        kind: SiteKind::Facility(FacilityIdentifier::Station),
        unique: 0,
    }
}

fn belt(unique: u8) -> SiteInfo {
    SiteInfo {
        kind: SiteKind::AsteroidField,
        unique,
    }
}

fn player(id: u64) -> SiteEntity {
    SiteEntity::Player(SiteEntityPlayer { id })
}

fn station_entity() -> SiteEntity {
    SiteEntity::Facility(SiteEntityFacility {
        id: FacilityIdentifier::Station,
    })
}

fn world() -> Persist {
    let mut persist = Persist::default();
    persist
        .sites
        .write_entities(0, station_site(), vec![station_entity(), player(1)])
        .unwrap();
    persist
        .sites
        .write_entities(0, belt(1), vec![new_asteroid(0, 6, 30), player(2)])
        .unwrap();
    let _ = persist.sites.add_site(0, 1, station_site(), vec![station_entity(), player(1)]);
    persist.player_ships.insert(1, ship(5, 10));
    persist.player_ships.insert(2, ship(5, 10));
    persist
}

fn listed_world() -> Persist {
    let mut persist = Persist::default();
    let mut list = SitesNearPlanet::new();
    list.add(1, station_site());
    list.add(2, belt(1));
    persist.sites.write_sites(0, list);
    persist
        .sites
        .write_entities(0, station_site(), vec![station_entity(), player(1)])
        .unwrap();
    persist
        .sites
        .write_entities(0, belt(1), vec![new_asteroid(0, 6, 30), player(2)])
        .unwrap();
    persist.player_ships.insert(1, ship(5, 10));
    persist.player_ships.insert(2, ship(5, 10));
    persist
}

#[test]
fn distinct_keeps_the_first_of_each() {
    assert_eq!(distinct(&[3, 1, 3, 2, 1, 3]), vec![3, 1, 2]);
    assert_eq!(distinct(&[]), vec![]);
    assert_eq!(
        players_in_site(&[player(4), station_entity(), player(2), player(4)]),
        vec![4, 2]
    );
}

#[test]
fn round_of_a_site_is_stored() {
    let statics = statics(1);
    let mut persist = world();
    add_player_site_instructions(
        &mut persist.player_site_instructions,
        2,
        &[
            Instruction::Warp(InstructionWarp {
                target: station_site(),
            }),
            Instruction::ModuleTargeted(InstructionModuleTargeted {
                target_index_in_site: 0,
                module_index: 1,
            }),
        ],
    );
    let log = handle(&statics, &mut persist, 0, belt(1)).unwrap();
    let expected = vec![
        SiteLog::ModuleTargeted(SiteLogActor::Player(2, 0), 1, SiteLogActor::Lifeless(0)),
        SiteLog::WarpOut(SiteLogActor::Player(2, 0)),
    ];
    assert_eq!(log, expected);
    assert_eq!(persist.player_notifications.pop(2), expected);
    assert_eq!(persist.player_notifications.pop(1), vec![]);
    assert_eq!(
        persist.sites.read_entities(0, belt(1)),
        Ok(&vec![new_asteroid(0, 2, 30)])
    );
    assert_eq!(persist.player_ships[&2].cargo, Cargo { ore: 4 });
    assert_eq!(persist.player_ships[&2].status.capacitor, 5);
    assert_eq!(
        persist.player_locations.read(2),
        PlayerLocation::Space(PlayerInSpace {
            solarsystem: 0,
            towards: station_site()
        })
    );
    assert_eq!(read_player_site_instructions(&persist.player_site_instructions, 2), vec![]);
    assert_eq!(read_entitiy_warping(&persist.warping, 0), vec![(station_site(), 2)]);
    assert_eq!(arriving(&persist.warping, 0, station_site()), vec![2]);
    assert_eq!(arriving(&persist.warping, 0, belt(1)), vec![]);

    // The next round of the station takes the player in.
    let log = handle(&statics, &mut persist, 0, station_site()).unwrap();
    assert_eq!(log, vec![SiteLog::WarpIn(SiteLogActor::Player(2, 0))]);
    assert_eq!(
        persist.sites.read_entities(0, station_site()),
        Ok(&vec![station_entity(), player(1), player(2)])
    );
    assert_eq!(
        persist.player_locations.read(2),
        PlayerLocation::Site(PlayerInSite {
            solarsystem: 0,
            site: station_site()
        })
    );
    assert_eq!(read_entitiy_warping(&persist.warping, 0), vec![]);
    assert_eq!(persist.player_notifications.pop(1), log);
    assert_eq!(persist.player_notifications.pop(2), log);
    // Who arrives is taken in after the site was reconciled: only the ship
    // that was there has recharged.
    assert_eq!(persist.player_ships[&1].status.capacitor, 6);
    assert_eq!(persist.player_ships[&2].status.capacitor, 5);
}

#[test]
fn round_without_ship_is_refused_and_changes_nothing() {
    let statics = statics(1);
    let mut persist = world();
    persist.player_ships.remove(&2);
    add_player_site_instructions(
        &mut persist.player_site_instructions,
        2,
        &[Instruction::SelfDestruct],
    );
    assert_eq!(handle(&statics, &mut persist, 0, belt(1)), Err(RoundError::NotReady));
    assert_eq!(
        persist.sites.read_entities(0, belt(1)),
        Ok(&vec![new_asteroid(0, 6, 30), player(2)])
    );
    assert_eq!(
        read_player_site_instructions(&persist.player_site_instructions, 2),
        vec![Instruction::SelfDestruct]
    );
    assert_eq!(persist.player_notifications.list_players(), vec![]);

    // Somebody who arrives without a ship stops the round as well.
    add_entity_warping(&mut persist.warping, 0, station_site(), 9);
    assert_eq!(handle(&statics, &mut persist, 0, station_site()), Err(RoundError::NotReady));
    assert_eq!(read_entitiy_warping(&persist.warping, 0), vec![(station_site(), 9)]);
}

#[test]
fn site_that_becomes_empty_is_removed() {
    let statics = statics(1);
    let mut persist = Persist::default();
    persist.sites.write_entities(0, belt(1), vec![player(2)]).unwrap();
    persist.player_ships.insert(2, ship(5, 10));
    add_player_site_instructions(
        &mut persist.player_site_instructions,
        2,
        &[Instruction::Facility(InstructionUseFacility {
            service: Service::Dock,
        })],
    );
    // Nothing is kept of the sites of the solarsystem: the site cannot be
    // taken from its list.
    assert_eq!(handle(&statics, &mut persist, 0, belt(1)), Err(RoundError::NoSites));
    assert_eq!(
        persist.sites.read_entities(0, belt(1)).err(),
        Some(PersistError::NoEntities)
    );
    assert_eq!(
        persist.player_locations.read(2),
        PlayerLocation::Station(PlayerAtStation {
            solarsystem: 0,
            station: 0
        })
    );
    assert_eq!(
        persist.player_notifications.pop(2),
        vec![SiteLog::Dock(SiteLogActor::Player(2, 0))]
    );
}

#[test]
fn round_of_a_site_of_which_nothing_is_kept_takes_in_arrivals() {
    let statics = statics(1);
    let mut persist = Persist::default();
    persist.player_ships.insert(3, ship(5, 10));
    add_entity_warping(&mut persist.warping, 0, belt(7), 3);
    let log = handle(&statics, &mut persist, 0, belt(7)).unwrap();
    assert_eq!(log, vec![SiteLog::WarpIn(SiteLogActor::Player(3, 0))]);
    assert_eq!(persist.sites.read_entities(0, belt(7)), Ok(&vec![player(3)]));
}

#[test]
fn dead_players_get_a_rookie_ship() {
    let statics = statics(1);
    let mut persist = listed_world();
    persist.player_ships.insert(2, ship(5, 0));
    let in_site = PlayerLocation::Site(PlayerInSite {
        solarsystem: 0,
        site: station_site(),
    });
    persist.player_locations.write(1, in_site);
    persist.player_locations.write(2, in_site);
    let rookie = ShipFitting {
        layout: 0,
        slots_targeted: vec![1],
        slots_untargeted: vec![],
        slots_passive: vec![],
    };
    reset_dead_ships(&statics, &mut persist, &rookie);
    assert_eq!(persist.player_ships[&1], ship(5, 10));
    assert_eq!(
        persist.player_ships[&2],
        Ship {
            fitting: rookie.clone(),
            status: ShipStatus {
                capacitor: 10,
                hitpoints_armor: 10,
                hitpoints_structure: 10
            },
            cargo: Cargo { ore: 0 },
        }
    );
    assert_eq!(persist.player_locations.read(1), in_site);
    assert_eq!(persist.player_locations.read(2), PlayerLocation::default());
}

#[test]
fn unique_numbers() {
    let mut existing = vec![3, 4, 255, 0];
    assert_eq!(unique_from(&mut existing, 3), Some(5));
    assert_eq!(existing, vec![3, 4, 255, 0, 5]);
    assert_eq!(unique_from(&mut existing, 255), Some(1));
    assert_eq!(unique_from(&mut existing, 9), Some(9));
    assert_eq!(existing, vec![3, 4, 255, 0, 5, 1, 9]);
    let mut full: Vec<u8> = (0..=255).collect();
    assert_eq!(unique_from(&mut full, 77), None);
    assert_eq!(generate_unique(&mut full), None);
    assert_eq!(full.len(), 256);
    let mut almost: Vec<u8> = (0..=255).filter(|n| *n != 13).collect();
    assert_eq!(generate_unique(&mut almost), Some(13));
    assert_eq!(almost.len(), 256);
    let mut none = Vec::new();
    let first = generate_unique(&mut none).unwrap();
    let second = generate_unique(&mut none).unwrap();
    assert_ne!(first, second);
    assert_eq!(none, vec![first, second]);
}

#[test]
fn asteroid_belts_are_filled_up() {
    let statics = statics(2);
    let mut sites = Sites::new();
    assert_eq!(
        generate_asteroid_belts(&statics, &mut sites, 0),
        Err(PersistError::NoSites)
    );
    sites.write_entities(0, station_site(), vec![station_entity()]).unwrap();
    // List the station by hand: a list is kept once it holds a site.
    let mut persist = Persist::default();
    persist.sites = sites;
    assert!(!has_sites_everywhere(&persist, &statics));
    assert!(has_planets_everywhere(&statics));
    let mut broken = statics.clone();
    broken.solarsystems[1].planets = 0;
    assert!(!has_planets_everywhere(&broken));
    assert_eq!(ASTEROID_BELTS, 4);
    assert_eq!(asteroid_belt().len(), 5);
    assert_eq!(
        asteroid_belt()[2],
        SiteEntity::Lifeless(SiteEntityLifeless {
            id: 1,
            status: ShipStatus {
                capacitor: 0,
                hitpoints_armor: 0,
                hitpoints_structure: 120
            },
            remaining_ore: 15,
        })
    );
}

#[test]
fn pirates_only_find_unguarded_sites_on_a_zero() {
    let statics = statics(1);
    let pirate = fitting();
    let mut entities = vec![new_asteroid(0, 1, 1)];
    assert!(!spawn_pirate(&statics, &mut entities, &pirate, 1));
    assert!(!spawn_pirate(&statics, &mut entities, &pirate, 29));
    assert_eq!(entities, vec![new_asteroid(0, 1, 1)]);
    assert!(spawn_pirate(&statics, &mut entities, &pirate, 0));
    let expected = SiteEntity::Npc(SiteEntityNpc {
        faction: NpcFaction::Pirates,
        fitting: fitting(),
        status: ShipStatus {
            capacitor: 10,
            hitpoints_armor: 10,
            hitpoints_structure: 10,
        },
        cargo: Cargo { ore: 0 },
    });
    assert_eq!(entities, vec![new_asteroid(0, 1, 1), expected.clone()]);
    assert!(!spawn_pirate(&statics, &mut entities, &pirate, 0));
    assert_eq!(entities, vec![new_asteroid(0, 1, 1), expected]);
    let mut sites = Sites::new();
    assert_eq!(
        spawn_asteroid_belt_pirates(&statics, &mut sites, 0, &pirate),
        Err(PersistError::NoSites)
    );
}

#[test]
fn every_solarsystem_gets_its_belts() {
    let statics = statics(1);
    let mut persist = listed_world();
    assert!(has_sites_everywhere(&persist, &statics));
    assert_eq!(generate_asteroid_belts(&statics, &mut persist.sites, 0), Ok(()));
    let list = persist.sites.read_sites(0).unwrap();
    let all = list.all();
    assert_eq!(all.len(), 5);
    assert_eq!(all[0], station_site());
    assert_eq!(all[1], belt(1));
    let mut uniques = vec![1];
    for site in &all[2..] {
        assert_eq!(site.kind, SiteKind::AsteroidField);
        assert!(!uniques.contains(&site.unique));
        uniques.push(site.unique);
        let planet = list.planet_of(*site).unwrap();
        assert!((1..=3).contains(&planet));
        assert_eq!(persist.sites.read_entities(0, *site), Ok(&asteroid_belt()));
    }
    assert_eq!(
        persist.sites.read_entities(0, belt(1)),
        Ok(&vec![new_asteroid(0, 6, 30), player(2)])
    );
    // With four belts nothing more is generated.
    assert_eq!(generate_asteroid_belts(&statics, &mut persist.sites, 0), Ok(()));
    assert_eq!(persist.sites.read_sites(0).unwrap().all(), all);
}

#[test]
fn new_belts_are_spread_over_the_planets() {
    let statics = statics(1);
    let mut planets_seen = Vec::new();
    let mut uniques_seen = Vec::new();
    for _ in 0..40 {
        let mut persist = listed_world();
        assert_eq!(generate_asteroid_belts(&statics, &mut persist.sites, 0), Ok(()));
        let list = persist.sites.read_sites(0).unwrap();
        for site in &list.all()[2..] {
            let planet = list.planet_of(*site).unwrap();
            assert!((1..=3).contains(&planet));
            if !planets_seen.contains(&planet) {
                planets_seen.push(planet);
            }
            if !uniques_seen.contains(&site.unique) {
                uniques_seen.push(site.unique);
            }
        }
    }
    assert!(planets_seen.len() > 1);
    assert!(uniques_seen.len() > 3);
}

#[test]
fn pirates_find_unguarded_belts_sooner_or_later() {
    let statics = statics(1);
    let pirate = fitting();
    let mut persist = listed_world();
    let mut rounds = 0;
    loop {
        assert_eq!(
            spawn_asteroid_belt_pirates(&statics, &mut persist.sites, 0, &pirate),
            Ok(())
        );
        assert_eq!(
            persist.sites.read_entities(0, station_site()),
            Ok(&vec![station_entity(), player(1)])
        );
        let entities = persist.sites.read_entities(0, belt(1)).unwrap();
        if entities.len() == 3 {
            break;
        }
        assert_eq!(entities, &vec![new_asteroid(0, 6, 30), player(2)]);
        rounds += 1;
        assert!(rounds < 10000);
    }
    let found = persist.sites.read_entities(0, belt(1)).unwrap().clone();
    assert_eq!(found[0], new_asteroid(0, 6, 30));
    assert_eq!(found[1], player(2));
    assert!(matches!(&found[2], SiteEntity::Npc(npc) if npc.faction == NpcFaction::Pirates));
    // A guarded belt is left alone.
    for _ in 0..200 {
        assert_eq!(
            spawn_asteroid_belt_pirates(&statics, &mut persist.sites, 0, &pirate),
            Ok(())
        );
    }
    assert_eq!(persist.sites.read_entities(0, belt(1)), Ok(&found));
}

#[test]
fn a_listed_belt_without_entities_stops_the_pirates() {
    let statics = statics(1);
    let mut persist = listed_world();
    let _ = persist.sites.take_entities(0, belt(1));
    assert_eq!(
        spawn_asteroid_belt_pirates(&statics, &mut persist.sites, 0, &fitting()),
        Err(PersistError::NoEntities)
    );
}

#[test]
fn a_step_of_the_game() {
    let statics = statics(1);
    let mut persist = listed_world();
    let results = rounds_everywhere(&statics, &mut persist);
    assert_eq!(results, vec![Ok(vec![]), Ok(vec![])]);
    assert_eq!(persist.player_ships[&1].status.capacitor, 6);
    assert_eq!(persist.player_ships[&2].status.capacitor, 6);
    let grown = grow_sites(&statics, &mut persist, &fitting());
    assert_eq!(grown, vec![Ok(())]);
    assert_eq!(persist.sites.read_sites_everywhere(1).len(), 5);
    assert_eq!(rounds_everywhere(&statics, &mut persist).len(), 5);
}

#[test]
fn nothing_to_do_without_solarsystems() {
    let statics = statics(0);
    let mut persist = Persist::default();
    assert!(has_sites_everywhere(&persist, &statics));
    assert_eq!(rounds_everywhere(&statics, &mut persist), vec![]);
    assert_eq!(grow_sites(&statics, &mut persist, &fitting()), vec![]);
}
