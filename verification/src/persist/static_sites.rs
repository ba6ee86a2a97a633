//! The sites that the static data promise: every stargate and every station of
//! every solarsystem exists, with its facility and its guards.

use vstd::prelude::*;
use crate::persist::site::{kept_in, with_sites, without_facilities, Sites, SitesNearPlanet};
use crate::ship::{fitted_like, Ship, ShipFitting};
use crate::site::{
    FacilityIdentifier, NpcFaction, SiteEntity, SiteEntityFacility, SiteEntityNpc, SiteInfo,
    SiteKind, SolarsystemId,
};
use crate::statics::{Solarsystem, Statics};

verus! {

/// As many guards as watch over every station and every stargate.
pub const GUARDS: usize = 3;

/// The entity is neither facility nor NPC: it has come to the site.
pub open spec fn is_visitor(entity: SiteEntity) -> bool {
    !(entity is Facility) && !(entity is Npc)
}

/// Those of the entities that have come to the site, in their order.
pub open spec fn visitors(entities: Seq<SiteEntity>) -> Seq<SiteEntity>
    decreases entities.len(),
{
    if entities.len() == 0 {
        Seq::empty()
    } else if is_visitor(entities.last()) {
        visitors(entities.drop_last()).push(entities.last())
    } else {
        visitors(entities.drop_last())
    }
}

/// The entity is a guard that has just taken its post: in a new and empty
/// ship that is fitted like the guard ship.
pub open spec fn new_guard(statics: Statics, guard: ShipFitting, entity: SiteEntity) -> bool {
    entity matches SiteEntity::Npc(npc) && npc.faction == NpcFaction::Guards && fitted_like(
        npc.fitting,
        guard,
    ) && npc.status == statics.pristine(npc.fitting) && npc.cargo.ore == 0
}

/// What a station or stargate holds once it is ensured: the facility first,
/// then the new guards, then whoever had come to the site before. The
/// facility and the NPCs that were there before are gone.
pub open spec fn facility_entities(
    statics: Statics,
    guard: ShipFitting,
    id: FacilityIdentifier,
    before: Seq<SiteEntity>,
    after: Seq<SiteEntity>,
) -> bool {
    &&& after.len() == visitors(before).len() + GUARDS + 1
    &&& after[0] == SiteEntity::Facility(SiteEntityFacility { id })
    &&& forall|i: int| 1 <= i <= GUARDS ==> new_guard(statics, guard, #[trigger] after[i])
    &&& after.skip(GUARDS + 1) == visitors(before)
}

/// Removes facilities and NPCs.
pub fn keep_visitors(entities: &mut Vec<SiteEntity>)
    ensures
        final(entities)@ == visitors(old(entities)@),
{
    let ghost all = entities@;
    let ghost mut done: int = 0;
    let mut kept: usize = 0;
    proof {
        assert(all.skip(0) =~= all);
        assert(Seq::<SiteEntity>::empty() + all =~= all);
    }
    while kept < entities.len()
        invariant
            0 <= done <= all.len(),
            kept + (all.len() - done) == entities@.len(),
            kept == visitors(all.take(done)).len(),
            entities@ == visitors(all.take(done)) + all.skip(done),
        decreases entities@.len() - kept,
    {
        proof {
            assert(all.take(done + 1).drop_last() =~= all.take(done));
            assert(all.take(done + 1).last() == all[done]);
            assert(entities@[kept as int] == all.skip(done)[0]);
        }
        let stays = match &entities[kept] {
            SiteEntity::Facility(_) | SiteEntity::Npc(_) => false,
            _ => true,
        };
        if stays {
            proof {
                assert(entities@ =~= visitors(all.take(done + 1)) + all.skip(done + 1));
            }
            kept += 1;
        } else {
            entities.remove(kept);
            proof {
                assert(entities@ =~= visitors(all.take(done + 1)) + all.skip(done + 1));
            }
        }
        proof {
            done = done + 1;
        }
    }
    proof {
        assert(all.take(done) =~= all);
        assert(entities@ =~= visitors(all));
    }
}

/// Puts the guards in front of the entities.
pub fn add_guards(statics: &Statics, entities: &mut Vec<SiteEntity>, guard: &ShipFitting)
    ensures
        final(entities)@.len() == old(entities)@.len() + GUARDS,
        final(entities)@.skip(GUARDS as int) == old(entities)@,
        forall|i: int| 0 <= i < GUARDS ==> new_guard(*statics, *guard, #[trigger] final(entities)@[i]),
{
    let mut posted: usize = 0;
    proof {
        assert(entities@.skip(0) =~= old(entities)@);
    }
    while posted < GUARDS
        invariant
            posted <= GUARDS,
            entities@.len() == old(entities)@.len() + posted,
            entities@.skip(posted as int) == old(entities)@,
            forall|i: int| 0 <= i < posted ==> new_guard(*statics, *guard, #[trigger] entities@[i]),
        decreases GUARDS - posted,
    {
        let ship = Ship::new(statics, guard.same());
        let ghost before = entities@;
        entities.insert(
            0,
            SiteEntity::Npc(
                SiteEntityNpc {
                    faction: NpcFaction::Guards,
                    fitting: ship.fitting,
                    status: ship.status,
                    cargo: ship.cargo,
                },
            ),
        );
        proof {
            assert(entities@.skip(posted + 1) =~= before.skip(posted as int));
            assert forall|i: int| 0 <= i < posted + 1 implies new_guard(
                *statics,
                *guard,
                #[trigger] entities@[i],
            ) by {
                if i > 0 {
                    assert(entities@[i] == before[i - 1]);
                }
            }
        }
        posted += 1;
    }
}

/// What [`ensure_facility`] has made of the sites: the site holds its
/// facility, new guards, and whoever had come to it; all else is as it was.
pub open spec fn facility_ensured(
    before: Sites,
    after: Sites,
    statics: Statics,
    guard: ShipFitting,
    solarsystem: SolarsystemId,
    site: SiteInfo,
    id: FacilityIdentifier,
) -> bool {
    &&& after.entities_of(solarsystem, site) matches Some(entities) && facility_entities(
        statics,
        guard,
        id,
        kept_in(before, solarsystem, site),
        entities,
    )
    &&& forall|other_solarsystem: SolarsystemId, other: SiteInfo|
        other_solarsystem != solarsystem || other != site ==> #[trigger] after.entities_of(
            other_solarsystem,
            other,
        ) == before.entities_of(other_solarsystem, other)
    &&& forall|any: SolarsystemId| #[trigger] after.sites_of(any) == before.sites_of(any)
}

/// Makes sure that the site holds its facility and its guards.
pub fn ensure_facility(
    statics: &Statics,
    sites: &mut Sites,
    solarsystem: SolarsystemId,
    site: SiteInfo,
    id: FacilityIdentifier,
    guard: &ShipFitting,
)
    requires
        old(sites).wf(),
    ensures
        final(sites).wf(),
        facility_ensured(*old(sites), *final(sites), *statics, *guard, solarsystem, site, id),
{
    // Read and purge facilities and guards
    let mut entities = match sites.take_entities(solarsystem, site) {
        Ok(entities) => entities,
        Err(_) => Vec::new(),
    };
    let ghost taken = *sites;
    keep_visitors(&mut entities);
    add_guards(statics, &mut entities, guard);
    let ghost guarded = entities@;
    entities.insert(0, SiteEntity::Facility(SiteEntityFacility { id }));
    proof {
        assert(entities@.skip(GUARDS + 1) =~= guarded.skip(GUARDS as int));
        assert forall|i: int| 1 <= i <= GUARDS implies new_guard(
            *statics,
            *guard,
            #[trigger] entities@[i],
        ) by {
            assert(entities@[i] == guarded[i - 1]);
        }
    }
    let _ = sites.write_entities(solarsystem, site, entities);
    proof {
        assert forall|other_solarsystem: SolarsystemId, other: SiteInfo|
            other_solarsystem != solarsystem || other != site implies #[trigger] sites.entities_of(
            other_solarsystem,
            other,
        ) == old(sites).entities_of(other_solarsystem, other) by {
            assert(taken.entities_of(other_solarsystem, other) == old(sites).entities_of(
                other_solarsystem,
                other,
            ));
        }
        assert forall|any: SolarsystemId| #[trigger]
            sites.sites_of(any) == old(sites).sites_of(any) by {
            assert(taken.sites_of(any) == old(sites).sites_of(any));
        }
    }
}

/// The stargate that leads to the solarsystem.
pub open spec fn stargate_to(target: SolarsystemId) -> SiteInfo {
    SiteInfo { kind: SiteKind::Facility(FacilityIdentifier::Stargate), unique: target }
}

/// The station with the number.
pub open spec fn station_number(number: u8) -> SiteInfo {
    SiteInfo { kind: SiteKind::Facility(FacilityIdentifier::Station), unique: number }
}

/// As many stations as have a number: a number has eight bits.
pub open spec fn numbered_stations(data: Solarsystem) -> int {
    if data.stations@.len() <= 256 {
        data.stations@.len() as int
    } else {
        256
    }
}

/// The stargates and stations that the static data promise for a solarsystem,
/// each with its planet: first the stargates, then the stations.
pub open spec fn facilities_of(data: Solarsystem) -> Seq<(u8, SiteInfo)> {
    data.stargates@.map_values(|gate: (SolarsystemId, u8)| (gate.1, stargate_to(gate.0)))
        + Seq::new(
        numbered_stations(data) as nat,
        |number: int| (data.stations@[number], station_number(number as u8)),
    )
}

/// Which facility a station or stargate site holds.
pub open spec fn facility_at(site: SiteInfo) -> FacilityIdentifier {
    match site.kind {
        SiteKind::Facility(id) => id,
        SiteKind::AsteroidField => FacilityIdentifier::Station,
    }
}

/// The list of the sites of the solarsystem as it is kept. Empty where
/// nothing is kept.
pub open spec fn listed_in(sites: Sites, solarsystem: SolarsystemId) -> Seq<(u8, SiteInfo)> {
    match sites.sites_of(solarsystem) {
        Some(list) => list,
        None => Seq::empty(),
    }
}

/// The step from `steps[index]` to the sites behind it has ensured the
/// facility with the same index among the promised ones.
pub open spec fn facility_step(
    steps: Seq<Sites>,
    index: int,
    statics: Statics,
    guard: ShipFitting,
    solarsystem: SolarsystemId,
) -> bool {
    let promised = facilities_of(statics.solarsystems@[solarsystem as int]);
    facility_ensured(
        steps[index],
        steps[index + 1],
        statics,
        guard,
        solarsystem,
        promised[index].1,
        facility_at(promised[index].1),
    )
}

/// What [`ensure_solarsystem`] has made of the sites, where `steps` are the
/// sites as they were before each facility was ensured, and after the last.
///
/// Every stargate and every station that the static data promise was ensured,
/// one after the other, which `steps` follows. Then the list of the
/// solarsystem was written anew: what it held besides stations and stargates,
/// and behind that the promised stargates and stations.
pub open spec fn solarsystem_ensured_along(
    before: Sites,
    after: Sites,
    statics: Statics,
    guard: ShipFitting,
    solarsystem: SolarsystemId,
    steps: Seq<Sites>,
) -> bool {
    let promised = facilities_of(statics.solarsystems@[solarsystem as int]);
    let list = with_sites(without_facilities(listed_in(before, solarsystem)), promised);
    &&& steps.len() == promised.len() + 1
    &&& steps[0] == before
    &&& forall|i: int|
        0 <= i < promised.len() ==> #[trigger] facility_step(
            steps,
            i,
            statics,
            guard,
            solarsystem,
        )
    &&& after.sites_of(solarsystem) == if list.len() > 0 {
        Some(list)
    } else {
        None
    }
    &&& forall|other: SolarsystemId|
        other != solarsystem ==> #[trigger] after.sites_of(other) == before.sites_of(other)
    &&& forall|any: SolarsystemId, site: SiteInfo| #[trigger]
        after.entities_of(any, site) == steps[promised.len() as int].entities_of(any, site)
}

/// What [`ensure_solarsystem`] has made of the sites.
pub open spec fn solarsystem_ensured(
    before: Sites,
    after: Sites,
    statics: Statics,
    guard: ShipFitting,
    solarsystem: SolarsystemId,
) -> bool {
    exists|steps: Seq<Sites>| #[trigger]
        solarsystem_ensured_along(before, after, statics, guard, solarsystem, steps)
}

/// Makes sure that the stargates and stations of the solarsystem exist and
/// are listed, and that nothing else is listed as a station or stargate.
pub fn ensure_solarsystem(
    statics: &Statics,
    sites: &mut Sites,
    solarsystem: SolarsystemId,
    guard: &ShipFitting,
)
    requires
        old(sites).wf(),
        solarsystem < statics.solarsystems@.len(),
    ensures
        final(sites).wf(),
        solarsystem_ensured(*old(sites), *final(sites), *statics, *guard, solarsystem),
{
    let data = &statics.solarsystems[solarsystem as usize];
    let ghost promised = facilities_of(*data);
    let ghost gates = data.stargates@.map_values(
        |gate: (SolarsystemId, u8)| (gate.1, stargate_to(gate.0)),
    );
    // Purge stations and stargates from overview.
    // If they are gone from the data players shouldnt be able to warp to them anymore
    let mut system_sites = match sites.read_sites(solarsystem) {
        Ok(list) => list.purged(),
        Err(_) => SitesNearPlanet::new(),
    };
    let ghost purged = system_sites@;
    let ghost mut steps: Seq<Sites> = seq![*sites];
    // Ensure stargates exist
    let mut i: usize = 0;
    while i < data.stargates.len()
        invariant
            i <= data.stargates@.len(),
            sites.wf(),
            *data == statics.solarsystems@[solarsystem as int],
            promised == facilities_of(*data),
            gates == data.stargates@.map_values(
                |gate: (SolarsystemId, u8)| (gate.1, stargate_to(gate.0)),
            ),
            steps.len() == i + 1,
            steps[0] == *old(sites),
            steps[i as int] == *sites,
            forall|any: SolarsystemId| #[trigger] sites.sites_of(any) == old(sites).sites_of(any),
            system_sites@ == with_sites(purged, gates.take(i as int)),
            forall|j: int|
                0 <= j < i ==> #[trigger] facility_step(steps, j, *statics, *guard, solarsystem),
        decreases data.stargates@.len() - i,
    {
        let (target, planet) = data.stargates[i];
        let site = SiteInfo {
            kind: SiteKind::Facility(FacilityIdentifier::Stargate),
            unique: target,
        };
        proof {
            assert(promised[i as int] == gates[i as int]);
            assert(gates.take(i + 1).drop_last() =~= gates.take(i as int));
            assert(gates.take(i + 1).last() == (planet, site));
        }
        let ghost before = *sites;
        ensure_facility(
            statics,
            sites,
            solarsystem,
            site,
            FacilityIdentifier::Stargate,
            guard,
        );
        system_sites.add(planet, site);
        proof {
            assert forall|any: SolarsystemId| #[trigger]
                sites.sites_of(any) == old(sites).sites_of(any) by {
                assert(before.sites_of(any) == old(sites).sites_of(any));
            }
            let earlier = steps;
            steps = steps.push(*sites);
            assert forall|j: int| 0 <= j < i + 1 implies #[trigger] facility_step(
                steps,
                j,
                *statics,
                *guard,
                solarsystem,
            ) by {
                if j < i {
                    assert(facility_step(earlier, j, *statics, *guard, solarsystem));
                    assert(steps[j] == earlier[j]);
                    assert(steps[j + 1] == earlier[j + 1]);
                }
            }
        }
        i += 1;
    }
    proof {
        assert(gates.take(i as int) =~= gates);
        assert(promised.take(gates.len() as int) =~= gates);
    }
    // Ensure stations exist
    let stations: usize = if data.stations.len() <= 256 {
        data.stations.len()
    } else {
        256
    };
    let ghost offset = gates.len();
    let mut index: usize = 0;
    while index < stations
        invariant
            index <= stations <= 256,
            stations == numbered_stations(*data),
            sites.wf(),
            offset == gates.len(),
            *data == statics.solarsystems@[solarsystem as int],
            promised == facilities_of(*data),
            gates == data.stargates@.map_values(
                |gate: (SolarsystemId, u8)| (gate.1, stargate_to(gate.0)),
            ),
            steps.len() == offset + index + 1,
            steps[0] == *old(sites),
            steps[offset + index] == *sites,
            forall|any: SolarsystemId| #[trigger] sites.sites_of(any) == old(sites).sites_of(any),
            system_sites@ == with_sites(purged, promised.take(offset + index)),
            forall|j: int|
                0 <= j < offset + index ==> #[trigger] facility_step(
                    steps,
                    j,
                    *statics,
                    *guard,
                    solarsystem,
                ),
        decreases stations - index,
    {
        let planet = data.stations[index];
        let site = SiteInfo {
            kind: SiteKind::Facility(FacilityIdentifier::Station),
            unique: index as u8,
        };
        proof {
            assert(promised[offset + index] == (planet, site));
            assert(promised.take(offset + index + 1).drop_last() =~= promised.take(
                offset + index,
            ));
            assert(promised.take(offset + index + 1).last() == (planet, site));
        }
        let ghost before = *sites;
        ensure_facility(statics, sites, solarsystem, site, FacilityIdentifier::Station, guard);
        system_sites.add(planet, site);
        proof {
            assert forall|any: SolarsystemId| #[trigger]
                sites.sites_of(any) == old(sites).sites_of(any) by {
                assert(before.sites_of(any) == old(sites).sites_of(any));
            }
            let earlier = steps;
            steps = steps.push(*sites);
            assert forall|j: int| 0 <= j < offset + index + 1 implies #[trigger] facility_step(
                steps,
                j,
                *statics,
                *guard,
                solarsystem,
            ) by {
                if j < offset + index {
                    assert(facility_step(earlier, j, *statics, *guard, solarsystem));
                    assert(steps[j] == earlier[j]);
                    assert(steps[j + 1] == earlier[j + 1]);
                }
            }
        }
        index += 1;
    }
    proof {
        assert(promised.take(promised.len() as int) =~= promised);
    }
    let ghost ensured = *sites;
    let ghost list = system_sites@;
    sites.write_sites(solarsystem, system_sites);
    proof {
        assert(purged == without_facilities(listed_in(*old(sites), solarsystem)));
        assert(list == with_sites(purged, promised));
        assert(steps[promised.len() as int] == ensured);
        assert forall|other: SolarsystemId| other != solarsystem implies #[trigger] sites.sites_of(
            other,
        ) == old(sites).sites_of(other) by {
            assert(ensured.sites_of(other) == old(sites).sites_of(other));
        }
        assert forall|any: SolarsystemId, site: SiteInfo| #[trigger]
            sites.entities_of(any, site) == ensured.entities_of(any, site) by {}
        assert(solarsystem_ensured_along(
            *old(sites),
            *sites,
            *statics,
            *guard,
            solarsystem,
            steps,
        ));
    }
}

/// The step from `done[index]` to the sites behind it has ensured the
/// solarsystem with the same number.
pub open spec fn solarsystem_step(
    done: Seq<Sites>,
    index: int,
    statics: Statics,
    guard: ShipFitting,
) -> bool {
    solarsystem_ensured(done[index], done[index + 1], statics, guard, index as u8)
}

/// Makes sure that the stargates and stations of every solarsystem of the
/// static data exist and are listed, solarsystem after solarsystem.
pub fn ensure_static_sites(statics: &Statics, sites: &mut Sites, guard: &ShipFitting)
    requires
        old(sites).wf(),
    ensures
        final(sites).wf(),
        exists|done: Seq<Sites>|
            {
                let solarsystems = #[trigger] done.len() - 1;
                &&& solarsystems == statics.solarsystems@.len() || solarsystems == 256
                &&& 0 <= solarsystems <= statics.solarsystems@.len()
                &&& done[0] == *old(sites)
                &&& done[solarsystems] == *final(sites)
                &&& forall|i: int|
                    0 <= i < solarsystems ==> #[trigger] solarsystem_step(
                        done,
                        i,
                        *statics,
                        *guard,
                    )
            },
{
    let count: usize = if statics.solarsystems.len() <= 256 {
        statics.solarsystems.len()
    } else {
        256
    };
    let ghost mut done: Seq<Sites> = seq![*sites];
    let mut next: usize = 0;
    while next < count
        invariant
            next <= count <= 256,
            count <= statics.solarsystems@.len(),
            count == statics.solarsystems@.len() || count == 256,
            sites.wf(),
            done.len() == next + 1,
            done[0] == *old(sites),
            done[next as int] == *sites,
            forall|i: int|
                0 <= i < next ==> #[trigger] solarsystem_step(done, i, *statics, *guard),
        decreases count - next,
    {
        ensure_solarsystem(statics, sites, next as u8, guard);
        proof {
            let earlier = done;
            done = done.push(*sites);
            assert forall|i: int| 0 <= i < next + 1 implies #[trigger] solarsystem_step(
                done,
                i,
                *statics,
                *guard,
            ) by {
                if i < next {
                    assert(solarsystem_step(earlier, i, *statics, *guard));
                    assert(done[i] == earlier[i]);
                    assert(done[i + 1] == earlier[i + 1]);
                }
            }
        }
        next += 1;
    }
}

} // verus!
