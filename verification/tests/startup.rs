use space_game::location::{PlayerAtStation, PlayerInSite, PlayerInSpace, PlayerLocation};
use space_game::persist::ensure_player_locations::{ensure_location, ensure_player_locations};
use space_game::persist::site::{PersistError, Sites, SitesNearPlanet};
use space_game::persist::static_sites::{
    add_guards, ensure_facility, ensure_solarsystem, ensure_static_sites, keep_visitors, GUARDS,
};
use space_game::persist::Persist;
use space_game::ship::{Cargo, Ship, ShipFitting, ShipStatus};
use space_game::site::{
    FacilityIdentifier, NpcFaction, SiteEntity, SiteEntityFacility, SiteEntityLifeless,
    SiteEntityNpc, SiteEntityPlayer, SiteInfo, SiteKind,
};
use space_game::statics::{ModulePassive, ShipLayout, Solarsystem, Statics};

fn statics() -> Statics {
    Statics {
        ship_layouts: vec![ShipLayout {
            capacitor: 10,
            hitpoints_armor: 20,
            hitpoints_structure: 30,
            ore_bay: 0,
            round_effects: vec![],
        }],
        modules_passive: vec![ModulePassive {
            capacitor: None,
            hitpoints_armor: Some(5),
        }],
        modules_untargeted: vec![],
        modules_targeted: vec![],
        solarsystems: vec![
            Solarsystem {
                security: 100,
                planets: 4,
                stargates: vec![(1, 3)],
                stations: vec![1, 4],
            },
            Solarsystem {
                security: 20,
                planets: 2,
                stargates: vec![(0, 2)],
                stations: vec![],
            },
        ],
    }
}

fn guard_fitting() -> ShipFitting {
    ShipFitting {
        layout: 0,
        slots_targeted: vec![0, 0],
        slots_untargeted: vec![],
        slots_passive: vec![0],
    }
}

fn guard() -> SiteEntity {
    SiteEntity::Npc(SiteEntityNpc {
        faction: NpcFaction::Guards,
        fitting: guard_fitting(),
        status: ShipStatus {
            capacitor: 10,
            hitpoints_armor: 25,
            hitpoints_structure: 30,
        },
        cargo: Cargo { ore: 0 },
    })
}

fn pirate() -> SiteEntity {
    SiteEntity::Npc(SiteEntityNpc {
        faction: NpcFaction::Pirates,
        fitting: guard_fitting(),
        status: ShipStatus {
            capacitor: 1,
            hitpoints_armor: 1,
            hitpoints_structure: 1,
        },
        cargo: Cargo { ore: 3 },
    })
}

fn facility(id: FacilityIdentifier) -> SiteEntity {
    SiteEntity::Facility(SiteEntityFacility { id })
}

fn player(id: u64) -> SiteEntity {
    SiteEntity::Player(SiteEntityPlayer { id })
}

fn rock() -> SiteEntity {
    SiteEntity::Lifeless(SiteEntityLifeless {
        id: 2,
        status: ShipStatus {
            capacitor: 0,
            hitpoints_armor: 0,
            hitpoints_structure: 9,
        },
        remaining_ore: 9,
    })
}

fn station(unique: u8) -> SiteInfo {
    SiteInfo {
        kind: SiteKind::Facility(FacilityIdentifier::Station),
        unique,
    }
}

fn stargate(unique: u8) -> SiteInfo {
    SiteInfo {
        kind: SiteKind::Facility(FacilityIdentifier::Stargate),
        unique,
    }
}

fn belt(unique: u8) -> SiteInfo {
    SiteInfo {
        kind: SiteKind::AsteroidField,
        unique,
    }
}

#[test]
fn ship_new_is_in_its_best_state() {
    let statics = statics();
    assert_eq!(
        Some(Ship::new(&statics, guard_fitting())),
        match guard() {
            SiteEntity::Npc(npc) => Some(Ship {
                fitting: npc.fitting,
                status: npc.status,
                cargo: npc.cargo
            }),
            _ => None,
        }
    );
    let unknown = ShipFitting {
        layout: 7,
        ..guard_fitting()
    };
    assert_eq!(Ship::new(&statics, unknown.same()).status, ShipStatus::new_dead());
    assert_eq!(unknown.same(), unknown);
}

#[test]
fn only_visitors_are_kept() {
    let mut entities = vec![
        pirate(),
        player(1),
        facility(FacilityIdentifier::Station),
        rock(),
        guard(),
        player(2),
        facility(FacilityIdentifier::Stargate),
    ];
    keep_visitors(&mut entities);
    assert_eq!(entities, vec![player(1), rock(), player(2)]);
    let mut none = vec![guard(), facility(FacilityIdentifier::Station)];
    keep_visitors(&mut none);
    assert_eq!(none, vec![]);
}

#[test]
fn guards_stand_in_front() {
    let statics = statics();
    let mut entities = vec![player(1), rock()];
    add_guards(&statics, &mut entities, &guard_fitting());
    assert_eq!(GUARDS, 3);
    assert_eq!(entities, vec![guard(), guard(), guard(), player(1), rock()]);
}

#[test]
fn facility_gets_new_guards_and_keeps_its_visitors() {
    let statics = statics();
    let mut sites = Sites::new();
    sites
        .write_entities(
            0,
            station(0),
            vec![player(1), pirate(), facility(FacilityIdentifier::Stargate), rock()],
        )
        .unwrap();
    ensure_facility(
        &statics,
        &mut sites,
        0,
        station(0),
        FacilityIdentifier::Station,
        &guard_fitting(),
    );
    let expected = vec![
        facility(FacilityIdentifier::Station),
        guard(),
        guard(),
        guard(),
        player(1),
        rock(),
    ];
    assert_eq!(sites.read_entities(0, station(0)), Ok(&expected));
    // Doing it again changes nothing.
    ensure_facility(
        &statics,
        &mut sites,
        0,
        station(0),
        FacilityIdentifier::Station,
        &guard_fitting(),
    );
    assert_eq!(sites.read_entities(0, station(0)), Ok(&expected));
    // A site of which nothing was kept gets its facility and its guards.
    ensure_facility(
        &statics,
        &mut sites,
        1,
        stargate(0),
        FacilityIdentifier::Stargate,
        &guard_fitting(),
    );
    assert_eq!(
        sites.read_entities(1, stargate(0)),
        Ok(&vec![facility(FacilityIdentifier::Stargate), guard(), guard(), guard()])
    );
}

#[test]
fn static_sites_are_listed_behind_the_others() {
    let statics = statics();
    let mut sites = Sites::new();
    let mut list = SitesNearPlanet::new();
    list.add(1, station(7));
    list.add(2, belt(5));
    list.add(3, stargate(9));
    list.add(4, belt(6));
    sites.write_sites(0, list);
    sites.write_entities(0, belt(5), vec![rock()]).unwrap();
    sites.write_entities(0, station(7), vec![player(3)]).unwrap();
    ensure_static_sites(&statics, &mut sites, &guard_fitting());
    let list = sites.read_sites(0).unwrap();
    assert_eq!(
        list.all(),
        vec![belt(5), belt(6), stargate(1), station(0), station(1)]
    );
    assert_eq!(list.planet_of(belt(5)), Some(2));
    assert_eq!(list.planet_of(stargate(1)), Some(3));
    assert_eq!(list.planet_of(station(0)), Some(1));
    assert_eq!(list.planet_of(station(1)), Some(4));
    assert_eq!(list.planet_of(station(7)), None);
    assert_eq!(sites.read_sites(1).unwrap().all(), vec![stargate(0)]);
    assert_eq!(sites.read_sites(2).err(), Some(PersistError::NoSites));
    assert_eq!(
        sites.read_entities(0, station(1)),
        Ok(&vec![facility(FacilityIdentifier::Station), guard(), guard(), guard()])
    );
    assert_eq!(
        sites.read_entities(1, stargate(0)),
        Ok(&vec![facility(FacilityIdentifier::Stargate), guard(), guard(), guard()])
    );
    assert_eq!(sites.read_entities(0, belt(5)), Ok(&vec![rock()]));
    // What is no longer promised is no longer listed, but it is not forgotten.
    assert_eq!(sites.read_entities(0, station(7)), Ok(&vec![player(3)]));
    assert_eq!(
        sites.read_sites_everywhere(2),
        vec![
            (0, belt(5)),
            (0, belt(6)),
            (0, stargate(1)),
            (0, station(0)),
            (0, station(1)),
            (1, stargate(0)),
        ]
    );
}

#[test]
fn solarsystem_without_anything_keeps_no_list() {
    let mut statics = statics();
    statics.solarsystems[1].stargates.clear();
    let mut sites = Sites::new();
    ensure_solarsystem(&statics, &mut sites, 1, &guard_fitting());
    assert_eq!(sites.read_sites(1).err(), Some(PersistError::NoSites));
}

fn world() -> Persist {
    let statics = statics();
    let mut persist = Persist::default();
    ensure_static_sites(&statics, &mut persist.sites, &guard_fitting());
    let mut entities = persist.sites.take_entities(0, station(0)).unwrap();
    entities.push(player(1));
    persist.sites.write_entities(0, station(0), entities).unwrap();
    persist
}

#[test]
fn locations_that_exist_stay() {
    let persist = world();
    let all_sites = persist.sites.read_sites_everywhere(2);
    let at_station = PlayerLocation::Station(PlayerAtStation {
        solarsystem: 9,
        station: 9,
    });
    assert_eq!(ensure_location(&persist.sites, &all_sites, 1, at_station), at_station);
    let in_site = PlayerLocation::Site(PlayerInSite {
        solarsystem: 0,
        site: station(0),
    });
    assert_eq!(ensure_location(&persist.sites, &all_sites, 1, in_site), in_site);
    let on_the_way = PlayerLocation::Space(PlayerInSpace {
        solarsystem: 1,
        towards: stargate(0),
    });
    assert_eq!(ensure_location(&persist.sites, &all_sites, 1, on_the_way), on_the_way);
}

#[test]
fn locations_that_do_not_exist_are_mended() {
    let persist = world();
    let all_sites = persist.sites.read_sites_everywhere(2);
    // The site exists but does not know of the player.
    let in_site = PlayerLocation::Site(PlayerInSite {
        solarsystem: 0,
        site: station(0),
    });
    assert_eq!(
        ensure_location(&persist.sites, &all_sites, 2, in_site),
        PlayerLocation::default()
    );
    // The site does not exist: off to the first station or stargate of the solarsystem.
    let nowhere = PlayerLocation::Site(PlayerInSite {
        solarsystem: 0,
        site: belt(3),
    });
    assert_eq!(
        ensure_location(&persist.sites, &all_sites, 1, nowhere),
        PlayerLocation::Space(PlayerInSpace {
            solarsystem: 0,
            towards: stargate(1)
        })
    );
    let towards_nowhere = PlayerLocation::Space(PlayerInSpace {
        solarsystem: 1,
        towards: station(0),
    });
    assert_eq!(
        ensure_location(&persist.sites, &all_sites, 1, towards_nowhere),
        PlayerLocation::Space(PlayerInSpace {
            solarsystem: 1,
            towards: stargate(0)
        })
    );
    // A solarsystem without station and stargate has nowhere to go.
    let lost = PlayerLocation::Space(PlayerInSpace {
        solarsystem: 5,
        towards: station(0),
    });
    assert_eq!(
        ensure_location(&persist.sites, &all_sites, 1, lost),
        PlayerLocation::default()
    );
}

#[test]
fn every_player_location_is_ensured() {
    let statics = statics();
    let mut persist = world();
    let in_site = PlayerLocation::Site(PlayerInSite {
        solarsystem: 0,
        site: station(0),
    });
    let nowhere = PlayerLocation::Site(PlayerInSite {
        solarsystem: 1,
        site: belt(3),
    });
    persist.player_locations.write(1, in_site);
    persist.player_locations.write(2, in_site);
    persist.player_locations.write(3, nowhere);
    ensure_player_locations(&statics, &mut persist);
    assert_eq!(persist.player_locations.read(1), in_site);
    assert_eq!(persist.player_locations.read(2), PlayerLocation::default());
    assert_eq!(
        persist.player_locations.read(3),
        PlayerLocation::Space(PlayerInSpace {
            solarsystem: 1,
            towards: stargate(0)
        })
    );
    assert_eq!(persist.player_locations.read(4), PlayerLocation::default());
}
