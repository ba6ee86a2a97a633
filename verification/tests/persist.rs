use space_game::instruction::{Instruction, InstructionModuleSelf, InstructionWarp};
use space_game::location::{PlayerAtStation, PlayerInSite, PlayerInSpace, PlayerLocation};
use space_game::persist::notifications::Notifications;
use space_game::persist::player::{
    add_player_site_instructions, read_player_site_instructions, write_player_site_instructions,
    PlayerGeneral, PlayerGenerals, PlayerLocations, PlayerSiteInstructions,
};
use space_game::persist::site::{
    add_entity_warping, pop_entity_warping, read_entitiy_warping, PersistError, Sites,
    SitesNearPlanet, Warping,
};
use space_game::persist::Persist;
use space_game::ship::ShipStatus;
use space_game::site::{
    FacilityIdentifier, SiteEntity, SiteEntityFacility, SiteEntityLifeless, SiteEntityPlayer,
    SiteInfo, SiteKind, SiteLog, SiteLogActor,
};

fn station(unique: u8) -> SiteInfo {
    SiteInfo {
        kind: SiteKind::Facility(FacilityIdentifier::Station),
        unique,
    }
}

fn stargate(unique: u8) -> SiteInfo {
    SiteInfo {
        kind: SiteKind::Facility(FacilityIdentifier::Stargate),
        unique,
    }
}

fn belt(unique: u8) -> SiteInfo {
    SiteInfo {
        kind: SiteKind::AsteroidField,
        unique,
    }
}

fn rock(remaining_ore: u16) -> SiteEntity {
    SiteEntity::Lifeless(SiteEntityLifeless {
        id: 0,
        status: ShipStatus {
            capacitor: 0,
            hitpoints_armor: 0,
            hitpoints_structure: 5,
        },
        remaining_ore,
    })
}

#[test]
fn generals_default_is_not_kept() {
    let mut generals = PlayerGenerals::new();
    assert_eq!(generals.read(1), PlayerGeneral::default());
    assert_eq!(
        PlayerGeneral::default(),
        PlayerGeneral {
            home_solarsystem: 0,
            home_station: 0,
            paperclips: 0
        }
    );
    let rich = PlayerGeneral {
        home_solarsystem: 2,
        home_station: 1,
        paperclips: 500,
    };
    generals.write(1, &rich);
    assert_eq!(generals.read(1), rich);
    assert_eq!(generals.read(2), PlayerGeneral::default());
    generals.write(1, &PlayerGeneral::default());
    assert_eq!(generals.read(1), PlayerGeneral::default());
}

#[test]
fn locations_are_read_as_written() {
    let mut locations = PlayerLocations::new();
    assert_eq!(
        PlayerLocation::default(),
        PlayerLocation::Station(PlayerAtStation {
            solarsystem: 0,
            station: 0
        })
    );
    assert_eq!(locations.read(7), PlayerLocation::default());
    assert_eq!(locations.read_all(), vec![]);
    let in_site = PlayerLocation::Site(PlayerInSite {
        solarsystem: 1,
        site: belt(9),
    });
    let in_space = PlayerLocation::Space(PlayerInSpace {
        solarsystem: 1,
        towards: station(0),
    });
    locations.write(7, in_site);
    locations.write(8, in_space);
    locations.write(9, PlayerLocation::default());
    assert_eq!(locations.read(7), in_site);
    assert_eq!(locations.read(8), in_space);
    assert_eq!(locations.read(9), PlayerLocation::default());
    let mut players = locations.read_all_players();
    players.sort();
    assert_eq!(players, vec![7, 8]);
    let mut all = locations.read_all();
    all.sort_by_key(|entry| entry.0);
    assert_eq!(all, vec![(7, in_site), (8, in_space)]);
    locations.write(7, PlayerLocation::default());
    assert_eq!(locations.read_all(), vec![(8, in_space)]);
}

#[test]
fn site_instructions_are_added_behind_those_that_wait() {
    let warp = Instruction::Warp(InstructionWarp { target: station(1) });
    let boost = Instruction::ModuleUntargeted(InstructionModuleSelf { module_index: 2 });
    let mut store = PlayerSiteInstructions::new();
    assert_eq!(read_player_site_instructions(&store, 1), vec![]);
    add_player_site_instructions(&mut store, 1, &[boost]);
    add_player_site_instructions(&mut store, 1, &[]);
    add_player_site_instructions(&mut store, 1, &[warp, boost]);
    add_player_site_instructions(&mut store, 2, &[warp]);
    assert_eq!(read_player_site_instructions(&store, 1), vec![boost, warp, boost]);
    assert_eq!(read_player_site_instructions(&store, 2), vec![warp]);
    write_player_site_instructions(&mut store, 1, &[Instruction::SelfDestruct]);
    assert_eq!(
        read_player_site_instructions(&store, 1),
        vec![Instruction::SelfDestruct]
    );
    write_player_site_instructions(&mut store, 1, &[]);
    assert_eq!(read_player_site_instructions(&store, 1), vec![]);
    assert_eq!(read_player_site_instructions(&store, 2), vec![warp]);
}

#[test]
fn notifications_are_popped_once() {
    let dock = SiteLog::Dock(SiteLogActor::Player(1, 0));
    let jump = SiteLog::Jump(SiteLogActor::Player(1, 0));
    let mut store = Notifications::new();
    assert_eq!(store.pop(1), vec![]);
    store.add(1, &[dock]);
    store.add(2, &[]);
    store.add(1, &[jump, dock]);
    assert_eq!(store.list_players(), vec![1]);
    assert_eq!(store.pop(1), vec![dock, jump, dock]);
    assert_eq!(store.pop(1), vec![]);
    assert_eq!(store.list_players(), vec![]);
}

#[test]
fn sites_near_planet_lists_each_site_once() {
    let mut list = SitesNearPlanet::new();
    assert!(list.is_empty());
    list.add(1, station(0));
    list.add(2, belt(7));
    list.add(3, stargate(4));
    list.add(4, belt(7));
    assert_eq!(list.all(), vec![station(0), stargate(4), belt(7)]);
    assert_eq!(list.planet_of(belt(7)), Some(4));
    assert_eq!(list.planet_of(belt(8)), None);
    list.remove(station(0));
    list.remove(station(1));
    assert_eq!(list.all(), vec![stargate(4), belt(7)]);
    assert!(!list.is_empty());
}

fn sites_with_one_station() -> Sites {
    let mut sites = Sites::new();
    // Nothing is kept of the sites of any solarsystem yet: the entities are
    // kept, but the site cannot be listed.
    assert_eq!(
        sites.add_site(
            0,
            1,
            station(0),
            vec![SiteEntity::Facility(SiteEntityFacility {
                id: FacilityIdentifier::Station
            })]
        ),
        Err(PersistError::NoSites)
    );
    sites
}

#[test]
fn sites_errors() {
    let mut sites = sites_with_one_station();
    assert_eq!(sites.read_sites(0).err(), Some(PersistError::NoSites));
    assert_eq!(sites.read_entities(0, station(0)).map(|e| e.len()), Ok(1));
    assert_eq!(
        sites.read_entities(0, station(1)).err(),
        Some(PersistError::NoEntities)
    );
    assert_eq!(
        sites.read_entities(1, station(0)).err(),
        Some(PersistError::NoEntities)
    );
    assert_eq!(
        sites.write_entities(0, station(0), vec![]),
        Err(PersistError::EmptySite)
    );
    assert_eq!(sites.read_entities(0, station(0)).map(|e| e.len()), Ok(1));
    assert_eq!(
        sites.add_site(0, 1, belt(1), vec![]),
        Err(PersistError::EmptySite)
    );
    assert_eq!(sites.remove_site(0, station(0)), Err(PersistError::NoSites));
    assert_eq!(sites.read_entities(0, station(0)).map(|e| e.len()), Ok(1));
    assert_eq!(
        sites.take_entities(3, belt(1)).err(),
        Some(PersistError::NoEntities)
    );
}

#[test]
fn sites_of_different_kinds_and_solarsystems_are_kept_apart() {
    let mut sites = Sites::new();
    assert_eq!(sites.write_entities(0, station(1), vec![rock(1)]), Ok(()));
    assert_eq!(sites.write_entities(0, stargate(1), vec![rock(2)]), Ok(()));
    assert_eq!(sites.write_entities(0, belt(1), vec![rock(3)]), Ok(()));
    assert_eq!(sites.write_entities(1, belt(1), vec![rock(4)]), Ok(()));
    assert_eq!(sites.write_entities(255, belt(255), vec![rock(5)]), Ok(()));
    assert_eq!(sites.write_entities(0, belt(0), vec![rock(6)]), Ok(()));
    assert_eq!(sites.read_entities(0, station(1)), Ok(&vec![rock(1)]));
    assert_eq!(sites.read_entities(0, stargate(1)), Ok(&vec![rock(2)]));
    assert_eq!(sites.read_entities(0, belt(1)), Ok(&vec![rock(3)]));
    assert_eq!(sites.read_entities(1, belt(1)), Ok(&vec![rock(4)]));
    assert_eq!(sites.read_entities(255, belt(255)), Ok(&vec![rock(5)]));
    assert_eq!(sites.read_entities(0, belt(0)), Ok(&vec![rock(6)]));
    assert_eq!(sites.take_entities(0, belt(1)), Ok(vec![rock(3)]));
    assert_eq!(
        sites.read_entities(0, belt(1)).err(),
        Some(PersistError::NoEntities)
    );
    assert_eq!(sites.read_entities(1, belt(1)), Ok(&vec![rock(4)]));
}

#[test]
fn warping_queue_is_popped_by_destination() {
    let mut warping = Warping::new();
    assert_eq!(read_entitiy_warping(&warping, 0), vec![]);
    assert_eq!(pop_entity_warping(&mut warping, 0, station(0)), vec![]);
    add_entity_warping(&mut warping, 0, station(0), 1);
    add_entity_warping(&mut warping, 0, belt(3), 2);
    add_entity_warping(&mut warping, 1, station(0), 3);
    add_entity_warping(&mut warping, 0, station(0), 4);
    assert_eq!(
        read_entitiy_warping(&warping, 0),
        vec![(station(0), 1), (belt(3), 2), (station(0), 4)]
    );
    assert_eq!(pop_entity_warping(&mut warping, 0, station(0)), vec![1, 4]);
    assert_eq!(read_entitiy_warping(&warping, 0), vec![(belt(3), 2)]);
    assert_eq!(pop_entity_warping(&mut warping, 0, station(0)), vec![]);
    assert_eq!(pop_entity_warping(&mut warping, 0, belt(3)), vec![2]);
    assert_eq!(read_entitiy_warping(&warping, 0), vec![]);
    assert_eq!(read_entitiy_warping(&warping, 1), vec![(station(0), 3)]);
}

#[test]
fn nothing_is_kept_at_first() {
    let persist = Persist::default();
    assert!(persist.player_ships.is_empty());
    assert_eq!(persist.player_locations.read_all(), vec![]);
    assert_eq!(persist.player_notifications.list_players(), vec![]);
    assert_eq!(read_entitiy_warping(&persist.warping, 0), vec![]);
    assert_eq!(persist.sites.read_sites_everywhere(0), vec![]);
    assert_eq!(
        persist.sites.read_entities(0, station(0)).err(),
        Some(PersistError::NoEntities)
    );
    assert_eq!(
        SiteEntity::Player(SiteEntityPlayer { id: 3 }),
        SiteEntity::Player(SiteEntityPlayer { id: 3 })
    );
}
