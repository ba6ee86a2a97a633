//! New sites and new inhabitants: asteroid belts appear where a solarsystem
//! has too few, and now and then pirates find a belt that nobody guards.

use vstd::prelude::*;
use rand::Rng;
use crate::persist::site::{without_site, PersistError, Sites};
use crate::persist::Persist;
use crate::ship::{fitted_like, Ship, ShipFitting, ShipStatus};
use crate::site::{
    LifelessId, NpcFaction, SiteEntity, SiteEntityLifeless, SiteEntityNpc, SiteInfo, SiteKind,
    SolarsystemId,
};
use crate::statics::Statics;

verus! {

pub const ORE_AROMIT: LifelessId = 0;

pub const ORE_SOLMIT: LifelessId = 1;

pub const ORE_TORMIT: LifelessId = 2;

pub const ORE_VESMIT: LifelessId = 3;

/// As many asteroid belts as every solarsystem is meant to have.
pub const ASTEROID_BELTS: usize = 4;

/// Out of so many unguarded belts one is found by pirates in a step of the
/// game, on average.
pub const PIRATE_ODDS: u8 = 30;

/// `rand::Rng::gen` for a `u8`, on the generator that `rand::thread_rng` hands
/// out. Nothing is claimed of the number. The generator of the thread panics
/// where the system cannot seed it.
#[verifier::external_body]
fn random_u8() -> u8 {
    rand::thread_rng().gen()
}

/// `rand::Rng::gen_range` on the inclusive range from `low` to `high`, on the
/// generator that `rand::thread_rng` hands out. It panics on an empty range,
/// which `low <= high` excludes, and its result lies in the range. The
/// generator of the thread panics where the system cannot seed it.
#[verifier::external_body]
fn random_in(low: u8, high: u8) -> (value: u8)
    requires
        low <= high,
    ensures
        low <= value <= high,
{
    rand::thread_rng().gen_range(low..=high)
}

/// The number is the first one from `candidate` on that is not taken yet,
/// where the numbers start again at zero after the largest.
pub open spec fn first_free_from(existing: Seq<u8>, candidate: u8, unique: u8) -> bool {
    &&& !existing.contains(unique)
    &&& if candidate <= unique {
        forall|taken: u8| candidate <= taken < unique ==> existing.contains(taken)
    } else {
        forall|taken: u8| taken < unique || candidate <= taken ==> existing.contains(taken)
    }
}

fn is_taken(existing: &Vec<u8>, candidate: u8) -> (taken: bool)
    ensures
        taken == existing@.contains(candidate),
{
    let mut i: usize = 0;
    while i < existing.len()
        invariant
            i <= existing@.len(),
            forall|j: int| 0 <= j < i ==> existing@[j] != candidate,
        decreases existing@.len() - i,
    {
        if existing[i] == candidate {
            return true;
        }
        i += 1;
    }
    false
}

/// Takes the first number from `candidate` on that is not taken yet, and
/// remembers it as taken. `None` where every number is taken.
pub fn unique_from(existing: &mut Vec<u8>, candidate: u8) -> (unique: Option<u8>)
    ensures
        match unique {
            Some(found) => first_free_from(old(existing)@, candidate, found) && final(existing)@
                == old(existing)@.push(found),
            None => final(existing)@ == old(existing)@ && forall|any: u8|
                old(existing)@.contains(any),
        },
{
    let mut next: u8 = candidate;
    loop
        invariant_except_break
            candidate <= next,
            forall|taken: u8| candidate <= taken < next ==> existing@.contains(taken),
        invariant
            existing@ == old(existing)@,
        ensures
            forall|taken: u8| candidate <= taken ==> existing@.contains(taken),
        decreases 255 - next,
    {
        if !is_taken(existing, next) {
            existing.push(next);
            return Some(next);
        }
        if next == 255 {
            break ;
        }
        next += 1;
    }
    let mut next: u8 = 0;
    while next < candidate
        invariant
            next <= candidate,
            existing@ == old(existing)@,
            forall|taken: u8| candidate <= taken ==> existing@.contains(taken),
            forall|taken: u8| taken < next ==> existing@.contains(taken),
        decreases candidate - next,
    {
        if !is_taken(existing, next) {
            existing.push(next);
            return Some(next);
        }
        next += 1;
    }
    None
}

/// Takes a number that is not taken yet, and remembers it as taken: a random
/// one where that is free, else the next free one after it. `None` where every
/// number is taken.
pub fn generate_unique(existing: &mut Vec<u8>) -> (unique: Option<u8>)
    ensures
        match unique {
            Some(found) => !old(existing)@.contains(found) && final(existing)@ == old(
                existing,
            )@.push(found),
            None => final(existing)@ == old(existing)@ && forall|any: u8|
                old(existing)@.contains(any),
        },
{
    unique_from(existing, random_u8())
}

/// An asteroid: so much ore of the kind, and so much structure to shoot at.
pub open spec fn asteroid(id: LifelessId, ore: u16, hitpoints: u16) -> SiteEntity {
    SiteEntity::Lifeless(
        SiteEntityLifeless {
            id,
            status: ShipStatus { capacitor: 0, hitpoints_armor: 0, hitpoints_structure: hitpoints },
            remaining_ore: ore,
        },
    )
}

pub fn new_asteroid(id: LifelessId, ore: u16, hitpoints: u16) -> (entity: SiteEntity)
    ensures
        entity == asteroid(id, ore, hitpoints),
{
    SiteEntity::Lifeless(
        SiteEntityLifeless {
            id,
            status: ShipStatus { capacitor: 0, hitpoints_armor: 0, hitpoints_structure: hitpoints },
            remaining_ore: ore,
        },
    )
}

/// What a new asteroid belt holds.
pub open spec fn fresh_belt() -> Seq<SiteEntity> {
    seq![
        asteroid(ORE_AROMIT, 25, 18),
        asteroid(ORE_AROMIT, 40, 25),
        asteroid(ORE_SOLMIT, 15, 120),
        asteroid(ORE_TORMIT, 10, 12),
        asteroid(ORE_VESMIT, 6, 4),
    ]
}

/// What a new asteroid belt holds.
pub fn asteroid_belt() -> (entities: Vec<SiteEntity>)
    ensures
        entities@ == fresh_belt(),
{
    let mut entities: Vec<SiteEntity> = Vec::new();
    entities.push(new_asteroid(ORE_AROMIT, 25, 18));
    entities.push(new_asteroid(ORE_AROMIT, 40, 25));
    entities.push(new_asteroid(ORE_SOLMIT, 15, 120));
    entities.push(new_asteroid(ORE_TORMIT, 10, 12));
    entities.push(new_asteroid(ORE_VESMIT, 6, 4));
    proof {
        assert(entities@ =~= fresh_belt());
    }
    entities
}

/// The asteroid belt with the number.
pub open spec fn belt(unique: u8) -> SiteInfo {
    SiteInfo { kind: SiteKind::AsteroidField, unique }
}

/// The numbers of the asteroid belts of the list, in the order of the list.
pub open spec fn belts_of(list: Seq<(u8, SiteInfo)>) -> Seq<u8>
    decreases list.len(),
{
    if list.len() == 0 {
        Seq::empty()
    } else if list.last().1.kind == SiteKind::AsteroidField {
        belts_of(list.drop_last()).push(list.last().1.unique)
    } else {
        belts_of(list.drop_last())
    }
}

/// The list with new asteroid belts behind it, each given by its planet and
/// its number.
pub open spec fn with_belts(list: Seq<(u8, SiteInfo)>, added: Seq<(u8, u8)>) -> Seq<(u8, SiteInfo)> {
    list + added.map_values(|new: (u8, u8)| (new.0, belt(new.1)))
}

/// The number of every asteroid belt of the list is among the numbers of its
/// belts.
pub proof fn lemma_belts_of_members(list: Seq<(u8, SiteInfo)>)
    ensures
        forall|i: int|
            0 <= i < list.len() && (#[trigger] list[i]).1.kind == SiteKind::AsteroidField
                ==> belts_of(list).contains(list[i].1.unique),
    decreases list.len(),
{
    if list.len() > 0 {
        let shorter = list.drop_last();
        lemma_belts_of_members(shorter);
        assert forall|i: int|
            0 <= i < list.len() && (#[trigger] list[i]).1.kind
                == SiteKind::AsteroidField implies belts_of(list).contains(list[i].1.unique) by {
            if i < shorter.len() {
                assert(shorter[i] == list[i]);
                let found = choose|k: int|
                    0 <= k < belts_of(shorter).len() && belts_of(shorter)[k] == list[i].1.unique;
                assert(belts_of(list)[found] == list[i].1.unique);
            } else {
                assert(belts_of(list)[belts_of(list).len() - 1] == list[i].1.unique);
            }
        }
    }
}

/// Taking a site from a list that does not hold it leaves the list as it is.
pub proof fn lemma_without_absent_site(list: Seq<(u8, SiteInfo)>, site: SiteInfo)
    requires
        forall|i: int| 0 <= i < list.len() ==> (#[trigger] list[i]).1 != site,
    ensures
        without_site(list, site) == list,
    decreases list.len(),
{
    if list.len() > 0 {
        let shorter = list.drop_last();
        assert forall|i: int| 0 <= i < shorter.len() implies (#[trigger] shorter[i]).1 != site by {
            assert(shorter[i] == list[i]);
        }
        lemma_without_absent_site(shorter, site);
        assert(list.last() == list[list.len() - 1]);
        assert(shorter.push(list.last()) =~= list);
    }
}

/// Fewer than four numbers leave a number free.
pub proof fn lemma_few_leave_one_free(existing: Seq<u8>)
    requires
        existing.len() < 4,
    ensures
        exists|free: u8| !existing.contains(free),
{
    if existing.contains(0u8) && existing.contains(1u8) && existing.contains(2u8)
        && existing.contains(3u8) {
        let i0 = choose|i: int| 0 <= i < existing.len() && existing[i] == 0u8;
        let i1 = choose|i: int| 0 <= i < existing.len() && existing[i] == 1u8;
        let i2 = choose|i: int| 0 <= i < existing.len() && existing[i] == 2u8;
        let i3 = choose|i: int| 0 <= i < existing.len() && existing[i] == 3u8;
        assert(false);
    }
}

/// The numbers of the asteroid belts of the list.
fn existing_belts(sites: &Vec<SiteInfo>, Ghost(list): Ghost<Seq<(u8, SiteInfo)>>) -> (belts: Vec<u8>)
    requires
        sites@ == list.map_values(|entry: (u8, SiteInfo)| entry.1),
    ensures
        belts@ == belts_of(list),
{
    let mut belts: Vec<u8> = Vec::new();
    let mut i: usize = 0;
    while i < sites.len()
        invariant
            i <= sites@.len(),
            sites@ == list.map_values(|entry: (u8, SiteInfo)| entry.1),
            belts@ == belts_of(list.take(i as int)),
        decreases sites@.len() - i,
    {
        proof {
            assert(list.take(i + 1).drop_last() =~= list.take(i as int));
            assert(list.take(i + 1).last() == list[i as int]);
            assert(sites@[i as int] == list[i as int].1);
        }
        if let SiteKind::AsteroidField = sites[i].kind {
            belts.push(sites[i].unique);
        }
        i += 1;
    }
    proof {
        assert(list.take(i as int) =~= list);
    }
    belts
}

/// What [`generate_asteroid_belts`] has made of the sites, where `added` are
/// the new belts, each given by its planet and its number: as many as the
/// solarsystem was short of, each near a planet of the solarsystem, with
/// numbers that no belt had and no two of them share. They stand behind the
/// sites that were listed, and each holds what a new belt holds. All else is
/// as it was.
pub open spec fn belts_generated(
    before: Sites,
    after: Sites,
    solarsystem: SolarsystemId,
    planets: u8,
    added: Seq<(u8, u8)>,
) -> bool {
    let list = before.sites_of(solarsystem)->0;
    &&& added.len() == if belts_of(list).len() < ASTEROID_BELTS {
        ASTEROID_BELTS - belts_of(list).len()
    } else {
        0
    }
    &&& forall|i: int|
        0 <= i < added.len() ==> 1 <= (#[trigger] added[i]).0 <= planets && !belts_of(
            list,
        ).contains(added[i].1)
    &&& forall|i: int, j: int|
        0 <= i < j < added.len() ==> (#[trigger] added[i]).1 != (#[trigger] added[j]).1
    &&& after.sites_of(solarsystem) == Some(with_belts(list, added))
    &&& forall|i: int|
        0 <= i < added.len() ==> after.entities_of(solarsystem, belt((#[trigger] added[i]).1))
            == Some(fresh_belt())
    &&& forall|other_solarsystem: SolarsystemId, other: SiteInfo|
        other_solarsystem != solarsystem || !(exists|i: int|
            0 <= i < added.len() && belt((#[trigger] added[i]).1) == other)
            ==> #[trigger] after.entities_of(other_solarsystem, other) == before.entities_of(
            other_solarsystem,
            other,
        )
    &&& forall|other: SolarsystemId|
        other != solarsystem ==> #[trigger] after.sites_of(other) == before.sites_of(other)
}

/// Gives the solarsystem new asteroid belts until it has as many as it is
/// meant to have. Fails, without changing anything, where nothing is kept of
/// the sites of the solarsystem.
pub fn generate_asteroid_belts(statics: &Statics, sites: &mut Sites, solarsystem: SolarsystemId) -> (result:
    Result<(), PersistError>)
    requires
        old(sites).wf(),
        solarsystem < statics.solarsystems@.len(),
        statics.solarsystems@[solarsystem as int].planets >= 1,
    ensures
        final(sites).wf(),
        result is Ok <==> old(sites).sites_of(solarsystem) is Some,
        result matches Err(error) ==> error == PersistError::NoSites && *final(sites) == *old(
            sites,
        ),
        result is Ok ==> exists|added: Seq<(u8, u8)>| #[trigger]
            belts_generated(
                *old(sites),
                *final(sites),
                solarsystem,
                statics.solarsystems@[solarsystem as int].planets,
                added,
            ),
{
    let planets = statics.solarsystems[solarsystem as usize].planets;
    let mut existing = match sites.read_sites(solarsystem) {
        Ok(list) => {
            let all = list.all();
            existing_belts(&all, Ghost(list@))
        },
        Err(error) => {
            return Err(error);
        },
    };
    let ghost list = old(sites).sites_of(solarsystem)->0;
    let ghost had = existing@;
    let ghost mut added: Seq<(u8, u8)> = Seq::empty();
    proof {
        assert(with_belts(list, added) =~= list);
        assert(had + added.map_values(|new: (u8, u8)| new.1) =~= had);
    }
    while existing.len() < ASTEROID_BELTS
        invariant
            sites.wf(),
            1 <= planets,
            had == belts_of(list),
            old(sites).sites_of(solarsystem) == Some(list),
            existing@ == had + added.map_values(|new: (u8, u8)| new.1),
            added.len() > 0 ==> existing@.len() <= ASTEROID_BELTS,
            sites.sites_of(solarsystem) == Some(with_belts(list, added)),
            forall|i: int|
                0 <= i < added.len() ==> 1 <= (#[trigger] added[i]).0 <= planets && !had.contains(
                    added[i].1,
                ),
            forall|i: int, j: int|
                0 <= i < j < added.len() ==> (#[trigger] added[i]).1 != (#[trigger] added[j]).1,
            forall|i: int|
                0 <= i < added.len() ==> sites.entities_of(
                    solarsystem,
                    belt((#[trigger] added[i]).1),
                ) == Some(fresh_belt()),
            forall|other_solarsystem: SolarsystemId, other: SiteInfo|
                other_solarsystem != solarsystem || !(exists|i: int|
                    0 <= i < added.len() && belt((#[trigger] added[i]).1) == other)
                    ==> #[trigger] sites.entities_of(other_solarsystem, other) == old(
                    sites,
                ).entities_of(other_solarsystem, other),
            forall|other: SolarsystemId|
                other != solarsystem ==> #[trigger] sites.sites_of(other) == old(sites).sites_of(
                    other,
                ),
        decreases ASTEROID_BELTS - existing@.len(),
    {
        let planet = random_in(1, planets);
        let ghost taken = existing@;
        let ghost before = *sites;
        let unique = match generate_unique(&mut existing) {
            Some(found) => found,
            None => {
                proof {
                    lemma_few_leave_one_free(taken);
                }
                return Ok(());
            },
        };
        let site = SiteInfo { kind: SiteKind::AsteroidField, unique };
        proof {
            let current = with_belts(list, added);
            lemma_belts_of_members(list);
            assert forall|i: int| 0 <= i < current.len() implies (#[trigger] current[i]).1
                != site by {
                if i < list.len() {
                    assert(current[i] == list[i]);
                    if list[i].1 == site {
                        assert(had.contains(unique));
                        let k = choose|k: int| 0 <= k < had.len() && had[k] == unique;
                        assert(taken[k] == unique);
                    }
                } else {
                    let k = i - list.len();
                    assert(current[i] == (added[k].0, belt(added[k].1)));
                    if added[k].1 == unique {
                        assert(taken[had.len() + k] == unique);
                    }
                }
            }
            lemma_without_absent_site(current, site);
        }
        let _ = sites.add_site(solarsystem, planet, site, asteroid_belt());
        proof {
            let longer = added.push((planet, unique));
            assert(with_belts(list, longer) =~= with_belts(list, added).push((planet, site)));
            assert(existing@ =~= had + longer.map_values(|new: (u8, u8)| new.1));
            assert forall|i: int| 0 <= i < longer.len() implies 1 <= (#[trigger] longer[i]).0
                <= planets && !had.contains(longer[i].1) by {
                if i < added.len() {
                    assert(longer[i] == added[i]);
                } else {
                    if had.contains(unique) {
                        let k = choose|k: int| 0 <= k < had.len() && had[k] == unique;
                        assert(taken[k] == unique);
                    }
                }
            }
            assert forall|i: int, j: int| 0 <= i < j < longer.len() implies (
            #[trigger] longer[i]).1 != (#[trigger] longer[j]).1 by {
                if j < added.len() {
                    assert(longer[i] == added[i]);
                    assert(longer[j] == added[j]);
                } else {
                    assert(longer[i] == added[i]);
                    if added[i].1 == unique {
                        assert(taken[had.len() + i] == unique);
                    }
                }
            }
            assert forall|i: int| 0 <= i < longer.len() implies sites.entities_of(
                solarsystem,
                belt((#[trigger] longer[i]).1),
            ) == Some(fresh_belt()) by {
                if i < added.len() {
                    assert(longer[i] == added[i]);
                    if added[i].1 == unique {
                        assert(taken[had.len() + i] == unique);
                    }
                    assert(belt(added[i].1) != site);
                    assert(sites.entities_of(solarsystem, belt(added[i].1))
                        == before.entities_of(solarsystem, belt(added[i].1)));
                }
            }
            assert forall|other_solarsystem: SolarsystemId, other: SiteInfo|
                other_solarsystem != solarsystem || !(exists|i: int|
                    0 <= i < longer.len() && belt((#[trigger] longer[i]).1) == other) implies
                #[trigger] sites.entities_of(other_solarsystem, other) == old(sites).entities_of(
                other_solarsystem,
                other,
            ) by {
                if other_solarsystem == solarsystem {
                    assert(longer[added.len() as int].1 == unique);
                    assert(other != site);
                    if exists|i: int| 0 <= i < added.len() && belt((#[trigger] added[i]).1) == other {
                        let i = choose|i: int|
                            0 <= i < added.len() && belt((#[trigger] added[i]).1) == other;
                        assert(longer[i] == added[i]);
                    }
                }
                assert(sites.entities_of(other_solarsystem, other) == before.entities_of(
                    other_solarsystem,
                    other,
                ));
            }
            assert forall|other: SolarsystemId| other != solarsystem implies #[trigger] sites.sites_of(
                other,
            ) == old(sites).sites_of(other) by {
                assert(sites.sites_of(other) == before.sites_of(other));
            }
            added = longer;
        }
    }
    proof {
        assert(existing@.len() == had.len() + added.len());
        assert(belts_generated(*old(sites), *sites, solarsystem, planets, added));
    }
    Ok(())
}

/// Somebody watches over the site: there is an NPC in it.
pub open spec fn guarded(entities: Seq<SiteEntity>) -> bool {
    exists|i: int| 0 <= i < entities.len() && #[trigger] entities[i] is Npc
}

/// The entity is a pirate that has just arrived: in a new and empty ship that
/// is fitted like the pirate ship.
pub open spec fn new_pirate(statics: Statics, pirate: ShipFitting, entity: SiteEntity) -> bool {
    entity matches SiteEntity::Npc(npc) && npc.faction == NpcFaction::Pirates && fitted_like(
        npc.fitting,
        pirate,
    ) && npc.status == statics.pristine(npc.fitting) && npc.cargo.ore == 0
}

/// The entities are those from before with a new pirate behind them.
pub open spec fn found_by_pirate(
    statics: Statics,
    pirate: ShipFitting,
    before: Seq<SiteEntity>,
    after: Seq<SiteEntity>,
) -> bool {
    &&& after.len() == before.len() + 1
    &&& after.drop_last() == before
    &&& new_pirate(statics, pirate, after.last())
}

fn has_npc(entities: &Vec<SiteEntity>) -> (found: bool)
    ensures
        found == guarded(entities@),
{
    let mut i: usize = 0;
    while i < entities.len()
        invariant
            i <= entities@.len(),
            forall|j: int| 0 <= j < i ==> !(#[trigger] entities@[j] is Npc),
        decreases entities@.len() - i,
    {
        if let SiteEntity::Npc(_) = &entities[i] {
            return true;
        }
        i += 1;
    }
    false
}

/// Lets a pirate find the site where the roll is zero and nobody watches over
/// the site.
pub fn spawn_pirate(
    statics: &Statics,
    entities: &mut Vec<SiteEntity>,
    pirate: &ShipFitting,
    roll: u8,
) -> (spawned: bool)
    ensures
        spawned == (roll == 0 && !guarded(old(entities)@)),
        spawned ==> found_by_pirate(*statics, *pirate, old(entities)@, final(entities)@),
        !spawned ==> final(entities)@ == old(entities)@,
{
    if !has_npc(entities) && roll == 0 {
        let ship = Ship::new(statics, pirate.same());
        entities.push(
            SiteEntity::Npc(
                SiteEntityNpc {
                    faction: NpcFaction::Pirates,
                    fitting: ship.fitting,
                    status: ship.status,
                    cargo: ship.cargo,
                },
            ),
        );
        proof {
            assert(entities@.drop_last() =~= old(entities)@);
        }
        true
    } else {
        false
    }
}

/// The site is an asteroid belt that the list holds.
pub open spec fn is_listed_belt(list: Seq<(u8, SiteInfo)>, site: SiteInfo) -> bool {
    site.kind == SiteKind::AsteroidField && exists|i: int|
        0 <= i < list.len() && (#[trigger] list[i]).1 == site
}

/// What may have become of the entities of a site: nothing, or a pirate has
/// found them unguarded.
pub open spec fn maybe_found(
    statics: Statics,
    pirate: ShipFitting,
    before: Option<Seq<SiteEntity>>,
    after: Option<Seq<SiteEntity>>,
) -> bool {
    after == before || (before matches Some(were) && after matches Some(are) && !guarded(were)
        && found_by_pirate(statics, pirate, were, are))
}

/// What [`spawn_asteroid_belt_pirates`] has made of the sites, and what it
/// hands back.
///
/// The lists of sites are as they were. The entities of a listed belt of the
/// solarsystem are as they were, or a pirate has found them unguarded; all
/// other entities are as they were. It fails, without changing anything, where
/// nothing is kept of the sites of the solarsystem, and it fails where no
/// entities are kept of a listed belt.
pub open spec fn pirates_spawned(
    before: Sites,
    after: Sites,
    result: Result<(), PersistError>,
    statics: Statics,
    solarsystem: SolarsystemId,
    pirate: ShipFitting,
) -> bool {
    &&& match result {
        Ok(_) => before.sites_of(solarsystem) matches Some(list) && forall|site: SiteInfo|
            is_listed_belt(list, site) ==> (#[trigger] before.entities_of(solarsystem, site))
                is Some,
        Err(PersistError::NoSites) => before.sites_of(solarsystem) is None && after == before,
        Err(PersistError::NoEntities) => before.sites_of(solarsystem) matches Some(list)
            && exists|site: SiteInfo|
            is_listed_belt(list, site) && (#[trigger] before.entities_of(solarsystem, site))
                is None,
        Err(PersistError::EmptySite) => false,
    }
    &&& forall|any: SolarsystemId| #[trigger] after.sites_of(any) == before.sites_of(any)
    &&& forall|other_solarsystem: SolarsystemId, other: SiteInfo| #[trigger]
        after.entities_of(other_solarsystem, other) == before.entities_of(
            other_solarsystem,
            other,
        ) || (other_solarsystem == solarsystem && is_listed_belt(
            before.sites_of(solarsystem)->0,
            other,
        ) && maybe_found(
            statics,
            pirate,
            before.entities_of(other_solarsystem, other),
            after.entities_of(other_solarsystem, other),
        ))
}

/// Lets pirates find the asteroid belts of the solarsystem: each belt that
/// nobody watches over is found with odds of one in [`PIRATE_ODDS`].
///
/// Fails, without changing anything, where nothing is kept of the sites of the
/// solarsystem. Fails at the first listed belt of which no entities are kept;
/// the belts before it have had their chance by then.
pub fn spawn_asteroid_belt_pirates(
    statics: &Statics,
    sites: &mut Sites,
    solarsystem: SolarsystemId,
    pirate: &ShipFitting,
) -> (result: Result<(), PersistError>)
    requires
        old(sites).wf(),
    ensures
        final(sites).wf(),
        pirates_spawned(*old(sites), *final(sites), result, *statics, solarsystem, *pirate),
{
    let all = match sites.read_sites(solarsystem) {
        Ok(list) => list.all(),
        Err(error) => {
            return Err(error);
        },
    };
    let ghost list = old(sites).sites_of(solarsystem)->0;
    let mut i: usize = 0;
    while i < all.len()
        invariant
            i <= all@.len(),
            sites.wf(),
            old(sites).sites_of(solarsystem) == Some(list),
            all@ == list.map_values(|entry: (u8, SiteInfo)| entry.1),
            forall|any: SolarsystemId| #[trigger] sites.sites_of(any) == old(sites).sites_of(any),
            forall|j: int|
                0 <= j < i && (#[trigger] all@[j]).kind == SiteKind::AsteroidField ==> old(
                    sites,
                ).entities_of(solarsystem, all@[j]) is Some,
            forall|other_solarsystem: SolarsystemId, other: SiteInfo| #[trigger]
                sites.entities_of(other_solarsystem, other) == old(sites).entities_of(
                    other_solarsystem,
                    other,
                ) || (other_solarsystem == solarsystem && is_listed_belt(list, other)
                    && maybe_found(
                    *statics,
                    *pirate,
                    old(sites).entities_of(other_solarsystem, other),
                    sites.entities_of(other_solarsystem, other),
                )),
        decreases all@.len() - i,
    {
        let site = all[i];
        proof {
            assert(list[i as int].1 == site);
        }
        if let SiteKind::AsteroidField = site.kind {
            let ghost before = *sites;
            proof {
                assert(is_listed_belt(list, site));
                sites.lemma_keeps_nothing_empty(solarsystem, site);
            }
            let mut entities = match sites.take_entities(solarsystem, site) {
                Ok(entities) => entities,
                Err(error) => {
                    proof {
                        assert(old(sites).entities_of(solarsystem, site) is None);
                    }
                    return Err(error);
                },
            };
            let ghost were = entities@;
            let roll = random_in(0, PIRATE_ODDS - 1);
            let spawned = spawn_pirate(statics, &mut entities, pirate, roll);
            let _ = sites.write_entities(solarsystem, site, entities);
            proof {
                assert forall|any: SolarsystemId| #[trigger]
                    sites.sites_of(any) == old(sites).sites_of(any) by {
                    assert(before.sites_of(any) == old(sites).sites_of(any));
                }
                assert forall|other_solarsystem: SolarsystemId, other: SiteInfo| #[trigger]
                    sites.entities_of(other_solarsystem, other) == old(sites).entities_of(
                        other_solarsystem,
                        other,
                    ) || (other_solarsystem == solarsystem && is_listed_belt(list, other)
                        && maybe_found(
                        *statics,
                        *pirate,
                        old(sites).entities_of(other_solarsystem, other),
                        sites.entities_of(other_solarsystem, other),
                    )) by {
                    if other_solarsystem == solarsystem && other == site {
                        if spawned {
                            // Who was found before is guarded now: the site was untouched.
                            let first = old(sites).entities_of(solarsystem, site);
                            if before.entities_of(solarsystem, site) != first {
                                let found = first->0;
                                assert(found_by_pirate(*statics, *pirate, found, were));
                                assert(were[were.len() - 1] is Npc);
                                assert(guarded(were));
                            }
                        }
                    } else {
                        assert(before.entities_of(other_solarsystem, other) == sites.entities_of(
                            other_solarsystem,
                            other,
                        ));
                    }
                }
            }
        }
        i += 1;
    }
    proof {
        assert forall|site: SiteInfo| is_listed_belt(list, site) implies (#[trigger] old(
            sites,
        ).entities_of(solarsystem, site)) is Some by {
            let k = choose|k: int| 0 <= k < list.len() && (#[trigger] list[k]).1 == site;
            assert(all@[k] == site);
        }
    }
    Ok(())
}

/// Every solarsystem of the static data has a planet.
pub open spec fn planets_everywhere(statics: Statics) -> bool {
    forall|i: int| 0 <= i < statics.solarsystems@.len() ==> (#[trigger] statics.solarsystems@[i]).planets >= 1
}

/// Whether every solarsystem of the static data has a planet.
pub fn has_planets_everywhere(statics: &Statics) -> (has: bool)
    ensures
        has == planets_everywhere(*statics),
{
    let mut i: usize = 0;
    while i < statics.solarsystems.len()
        invariant
            i <= statics.solarsystems@.len(),
            forall|j: int| 0 <= j < i ==> (#[trigger] statics.solarsystems@[j]).planets >= 1,
        decreases statics.solarsystems@.len() - i,
    {
        if statics.solarsystems[i].planets == 0 {
            return false;
        }
        i += 1;
    }
    true
}

/// What one step of the game has made of the sites of one solarsystem: first
/// the missing asteroid belts are generated, then pirates get their chance at
/// every belt.
pub open spec fn solarsystem_done(
    before: Sites,
    after: Sites,
    result: Result<(), PersistError>,
    statics: Statics,
    solarsystem: SolarsystemId,
    pirate: ShipFitting,
) -> bool {
    if before.sites_of(solarsystem) is None {
        result == Err::<(), PersistError>(PersistError::NoSites) && after == before
    } else {
        exists|between: Sites, added: Seq<(u8, u8)>|
            #[trigger] belts_generated(
                before,
                between,
                solarsystem,
                statics.solarsystems@[solarsystem as int].planets,
                added,
            ) && pirates_spawned(between, after, result, statics, solarsystem, pirate)
    }
}

/// One step of the game for the sites of one solarsystem.
pub fn one(statics: &Statics, sites: &mut Sites, solarsystem: SolarsystemId, pirate: &ShipFitting) -> (result:
    Result<(), PersistError>)
    requires
        old(sites).wf(),
        solarsystem < statics.solarsystems@.len(),
        statics.solarsystems@[solarsystem as int].planets >= 1,
    ensures
        final(sites).wf(),
        solarsystem_done(*old(sites), *final(sites), result, *statics, solarsystem, *pirate),
{
    match generate_asteroid_belts(statics, sites, solarsystem) {
        Ok(_) => spawn_asteroid_belt_pirates(statics, sites, solarsystem, pirate),
        Err(error) => Err(error),
    }
}

/// One step of the game for the sites of all solarsystems of the static data,
/// one solarsystem after the other. What became of each solarsystem is handed
/// back in the same order. A solarsystem that fails does not stop the others.
pub fn all(statics: &Statics, persist: &mut Persist, pirate: &ShipFitting) -> (results: Vec<
    Result<(), PersistError>,
>)
    requires
        old(persist).wf(),
        planets_everywhere(*statics),
    ensures
        final(persist).wf(),
        final(persist).player_generals == old(persist).player_generals,
        final(persist).player_locations == old(persist).player_locations,
        final(persist).player_notifications == old(persist).player_notifications,
        final(persist).player_site_instructions == old(persist).player_site_instructions,
        final(persist).player_ships == old(persist).player_ships,
        final(persist).warping == old(persist).warping,
        results@.len() == statics.solarsystems@.len() || results@.len() == 256,
        results@.len() <= statics.solarsystems@.len(),
        exists|steps: Seq<Sites>|
            {
                &&& #[trigger] steps.len() == results@.len() + 1
                &&& steps[0] == old(persist).sites
                &&& steps[results@.len() as int] == final(persist).sites
                &&& forall|i: int|
                    0 <= i < results@.len() ==> solarsystem_done(
                        steps[i],
                        steps[i + 1],
                        #[trigger] results@[i],
                        *statics,
                        i as u8,
                        *pirate,
                    )
            },
{
    let count: usize = if statics.solarsystems.len() <= 256 {
        statics.solarsystems.len()
    } else {
        256
    };
    let mut results: Vec<Result<(), PersistError>> = Vec::new();
    let ghost mut steps: Seq<Sites> = seq![persist.sites];
    let mut next: usize = 0;
    while next < count
        invariant
            next <= count <= 256,
            count <= statics.solarsystems@.len(),
            count == statics.solarsystems@.len() || count == 256,
            planets_everywhere(*statics),
            persist.wf(),
            persist.player_generals == old(persist).player_generals,
            persist.player_locations == old(persist).player_locations,
            persist.player_notifications == old(persist).player_notifications,
            persist.player_site_instructions == old(persist).player_site_instructions,
            persist.player_ships == old(persist).player_ships,
            persist.warping == old(persist).warping,
            results@.len() == next,
            steps.len() == next + 1,
            steps[0] == old(persist).sites,
            steps[next as int] == persist.sites,
            forall|i: int|
                0 <= i < next ==> solarsystem_done(
                    steps[i],
                    steps[i + 1],
                    #[trigger] results@[i],
                    *statics,
                    i as u8,
                    *pirate,
                ),
        decreases count - next,
    {
        let ghost earlier = steps;
        proof {
            assert(statics.solarsystems@[next as int].planets >= 1);
        }
        let result = one(statics, &mut persist.sites, next as u8, pirate);
        results.push(result);
        proof {
            steps = steps.push(persist.sites);
            assert forall|i: int| 0 <= i < next + 1 implies solarsystem_done(
                steps[i],
                steps[i + 1],
                #[trigger] results@[i],
                *statics,
                i as u8,
                *pirate,
            ) by {
                if i < next {
                    assert(steps[i] == earlier[i]);
                    assert(steps[i + 1] == earlier[i + 1]);
                }
            }
        }
        next += 1;
    }
    results
}

} // verus!
