//! The sites of each solarsystem, what is in them, and who is on the way to
//! them.

use vstd::prelude::*;
use std::collections::HashMap;
use crate::site::{FacilityIdentifier, Player, SiteEntity, SiteInfo, SiteKind, SolarsystemId};

verus! {

broadcast use vstd::std_specs::hash::group_hash_axioms;

/// Why a store could not do what was asked.
#[derive(Debug, Clone, Copy, PartialEq, Eq, Structural)]
pub enum PersistError {
    /// Nothing is kept of the sites of the solarsystem.
    NoSites,
    /// Nothing is kept of the entities of the site.
    NoEntities,
    /// A site without entities is not kept: it has to be removed.
    EmptySite,
}

/// The list without every entry of the site.
pub open spec fn without_site(list: Seq<(u8, SiteInfo)>, site: SiteInfo) -> Seq<(u8, SiteInfo)>
    decreases list.len(),
{
    if list.len() == 0 {
        Seq::empty()
    } else if list.last().1 == site {
        without_site(list.drop_last(), site)
    } else {
        without_site(list.drop_last(), site).push(list.last())
    }
}

/// The list without the stations and stargates.
pub open spec fn without_facilities(list: Seq<(u8, SiteInfo)>) -> Seq<(u8, SiteInfo)>
    decreases list.len(),
{
    if list.len() == 0 {
        Seq::empty()
    } else if list.last().1.kind is Facility {
        without_facilities(list.drop_last())
    } else {
        without_facilities(list.drop_last()).push(list.last())
    }
}

/// The list after each of the sites was listed near its planet, one after the
/// other: a site that was listed before is listed only where it was listed
/// last.
pub open spec fn with_sites(list: Seq<(u8, SiteInfo)>, sites: Seq<(u8, SiteInfo)>) -> Seq<
    (u8, SiteInfo),
>
    decreases sites.len(),
{
    if sites.len() == 0 {
        list
    } else {
        without_site(with_sites(list, sites.drop_last()), sites.last().1).push(sites.last())
    }
}

/// The sites of one solarsystem, each with the planet it is near.
#[derive(Debug, Clone, PartialEq, Eq)]
pub struct SitesNearPlanet {
    sites: Vec<(u8, SiteInfo)>,
}

impl View for SitesNearPlanet {
    type V = Seq<(u8, SiteInfo)>;

    closed spec fn view(&self) -> Seq<(u8, SiteInfo)> {
        self.sites@
    }
}

impl SitesNearPlanet {
    pub fn new() -> (list: Self)
        ensures
            list@ == Seq::<(u8, SiteInfo)>::empty(),
    {
        SitesNearPlanet { sites: Vec::new() }
    }

    pub fn is_empty(&self) -> (empty: bool)
        ensures
            empty == (self@.len() == 0),
    {
        self.sites.len() == 0
    }

    /// All sites of the solarsystem, in the order of the list.
    pub fn all(&self) -> (all: Vec<SiteInfo>)
        ensures
            all@ == self@.map_values(|entry: (u8, SiteInfo)| entry.1),
    {
        let mut all: Vec<SiteInfo> = Vec::new();
        let mut i: usize = 0;
        while i < self.sites.len()
            invariant
                i <= self.sites@.len(),
                all@ == self.sites@.take(i as int).map_values(|entry: (u8, SiteInfo)| entry.1),
            decreases self.sites@.len() - i,
        {
            all.push(self.sites[i].1);
            proof {
                assert(all@ =~= self.sites@.take(i + 1).map_values(
                    |entry: (u8, SiteInfo)| entry.1,
                ));
            }
            i += 1;
        }
        proof {
            assert(self.sites@.take(i as int) =~= self.sites@);
        }
        all
    }

    /// The planet that the site is near, if the site is listed.
    pub fn planet_of(&self, site: SiteInfo) -> (planet: Option<u8>)
        ensures
            planet matches Some(found) ==> self@.contains((found, site)),
            planet is None ==> forall|i: int| 0 <= i < self@.len() ==> (#[trigger] self@[i]).1 != site,
    {
        let mut i: usize = 0;
        while i < self.sites.len()
            invariant
                i <= self.sites@.len(),
                forall|j: int| 0 <= j < i ==> (#[trigger] self.sites@[j]).1 != site,
            decreases self.sites@.len() - i,
        {
            if self.sites[i].1 == site {
                return Some(self.sites[i].0);
            }
            i += 1;
        }
        None
    }

    /// The sites of the list that are neither station nor stargate, as a list
    /// of their own.
    pub fn purged(&self) -> (list: SitesNearPlanet)
        ensures
            list@ == without_facilities(self@),
    {
        let mut kept: Vec<(u8, SiteInfo)> = Vec::new();
        let mut i: usize = 0;
        while i < self.sites.len()
            invariant
                i <= self.sites@.len(),
                kept@ == without_facilities(self.sites@.take(i as int)),
            decreases self.sites@.len() - i,
        {
            proof {
                assert(self.sites@.take(i + 1).drop_last() =~= self.sites@.take(i as int));
            }
            match self.sites[i].1.kind {
                SiteKind::Facility(_) => {},
                SiteKind::AsteroidField => {
                    kept.push(self.sites[i]);
                },
            }
            i += 1;
        }
        proof {
            assert(self.sites@.take(i as int) =~= self.sites@);
        }
        SitesNearPlanet { sites: kept }
    }

    /// Takes the site from the list, wherever it is listed.
    pub fn remove(&mut self, site: SiteInfo)
        ensures
            final(self)@ == without_site(old(self)@, site),
    {
        let mut kept: Vec<(u8, SiteInfo)> = Vec::new();
        let mut i: usize = 0;
        while i < self.sites.len()
            invariant
                i <= self.sites@.len(),
                self.sites@ == old(self).sites@,
                kept@ == without_site(self.sites@.take(i as int), site),
            decreases self.sites@.len() - i,
        {
            proof {
                assert(self.sites@.take(i + 1).drop_last() =~= self.sites@.take(i as int));
            }
            if self.sites[i].1 != site {
                kept.push(self.sites[i]);
            }
            i += 1;
        }
        proof {
            assert(self.sites@.take(i as int) =~= self.sites@);
        }
        self.sites = kept;
    }

    /// Lists the site near the planet, and nowhere else.
    pub fn add(&mut self, planet: u8, site: SiteInfo)
        ensures
            final(self)@ == without_site(old(self)@, site).push((planet, site)),
    {
        self.remove(site);
        self.sites.push((planet, site));
    }
}

/// The number that tells the kind of a site apart from the others.
pub open spec fn kind_code(kind: SiteKind) -> int {
    match kind {
        SiteKind::Facility(FacilityIdentifier::Stargate) => 0,
        SiteKind::Facility(FacilityIdentifier::Station) => 1,
        SiteKind::AsteroidField => 2,
    }
}

/// The key under which the entities of a site are kept. No two sites have the
/// same.
pub open spec fn site_key(solarsystem: SolarsystemId, site: SiteInfo) -> int {
    solarsystem * 65536 + kind_code(site.kind) * 256 + site.unique
}

/// Different sites have different keys.
pub proof fn lemma_site_key_tells_sites_apart(
    solarsystem: SolarsystemId,
    site: SiteInfo,
    other_solarsystem: SolarsystemId,
    other_site: SiteInfo,
)
    ensures
        site_key(solarsystem, site) == site_key(other_solarsystem, other_site) <==> solarsystem
            == other_solarsystem && site == other_site,
        0 <= site_key(solarsystem, site) <= u32::MAX,
{
}

fn key_of(solarsystem: SolarsystemId, site: SiteInfo) -> (key: u32)
    ensures
        key == site_key(solarsystem, site),
{
    let code: u32 = match site.kind {
        SiteKind::Facility(FacilityIdentifier::Stargate) => 0,
        SiteKind::Facility(FacilityIdentifier::Station) => 1,
        SiteKind::AsteroidField => 2,
    };
    (solarsystem as u32) * 65536 + code * 256 + (site.unique as u32)
}

/// The sites of all solarsystems and the entities of each site.
///
/// Nothing is kept of a solarsystem without sites, nor of a site without
/// entities.
pub struct Sites {
    sites: HashMap<SolarsystemId, SitesNearPlanet>,
    entities: HashMap<u32, Vec<SiteEntity>>,
}

impl Sites {
    /// The store keeps no empty list.
    pub closed spec fn wf(&self) -> bool {
        &&& forall|solarsystem: SolarsystemId| #[trigger]
            self.sites@.contains_key(solarsystem) ==> self.sites@[solarsystem]@.len() > 0
        &&& forall|key: u32| #[trigger]
            self.entities@.contains_key(key) ==> self.entities@[key]@.len() > 0
    }

    /// The sites of the solarsystem, if anything is kept of them.
    pub closed spec fn sites_of(&self, solarsystem: SolarsystemId) -> Option<Seq<(u8, SiteInfo)>> {
        if self.sites@.contains_key(solarsystem) {
            Some(self.sites@[solarsystem]@)
        } else {
            None
        }
    }

    /// The entities of the site, if anything is kept of them.
    pub closed spec fn entities_of(&self, solarsystem: SolarsystemId, site: SiteInfo) -> Option<
        Seq<SiteEntity>,
    > {
        if self.entities@.contains_key(site_key(solarsystem, site) as u32) {
            Some(self.entities@[site_key(solarsystem, site) as u32]@)
        } else {
            None
        }
    }

    /// The sites of the first `upto` solarsystems, solarsystem after
    /// solarsystem, each with its solarsystem.
    pub open spec fn everywhere(&self, upto: int) -> Seq<(SolarsystemId, SiteInfo)>
        decreases upto,
    {
        if upto <= 0 {
            Seq::empty()
        } else {
            self.everywhere(upto - 1) + self.sites_of((upto - 1) as u8)->0.map_values(
                |entry: (u8, SiteInfo)| ((upto - 1) as u8, entry.1),
            )
        }
    }

    pub fn new() -> (store: Self)
        ensures
            store.wf(),
            forall|solarsystem: SolarsystemId| store.sites_of(solarsystem) is None,
            forall|solarsystem: SolarsystemId, site: SiteInfo|
                store.entities_of(solarsystem, site) is None,
    {
        Sites { sites: HashMap::new(), entities: HashMap::new() }
    }

    /// A kept list of sites is never empty, and neither is a kept list of
    /// entities.
    pub proof fn lemma_keeps_nothing_empty(&self, solarsystem: SolarsystemId, site: SiteInfo)
        requires
            self.wf(),
        ensures
            self.sites_of(solarsystem) matches Some(list) ==> list.len() > 0,
            self.entities_of(solarsystem, site) matches Some(entities) ==> entities.len() > 0,
    {
    }

    pub fn read_sites(&self, solarsystem: SolarsystemId) -> (result: Result<
        &SitesNearPlanet,
        PersistError,
    >)
        ensures
            match result {
                Ok(list) => self.sites_of(solarsystem) == Some(list@),
                Err(error) => self.sites_of(solarsystem) is None && error == PersistError::NoSites,
            },
    {
        match self.sites.get(&solarsystem) {
            Some(list) => Ok(list),
            None => Err(PersistError::NoSites),
        }
    }

    /// Keeps the list of the sites of the solarsystem. An empty list is not
    /// kept: nothing is kept of the sites of the solarsystem then.
    pub fn write_sites(&mut self, solarsystem: SolarsystemId, sites: SitesNearPlanet)
        requires
            old(self).wf(),
        ensures
            final(self).wf(),
            final(self).sites_of(solarsystem) == if sites@.len() == 0 {
                None
            } else {
                Some(sites@)
            },
            forall|other: SolarsystemId|
                other != solarsystem ==> #[trigger] final(self).sites_of(other) == old(self).sites_of(other),
            forall|any: SolarsystemId, site: SiteInfo| #[trigger]
                final(self).entities_of(any, site) == old(self).entities_of(any, site),
    {
        if sites.is_empty() {
            self.sites.remove(&solarsystem);
        } else {
            self.sites.insert(solarsystem, sites);
        }
    }

    pub fn read_entities(&self, solarsystem: SolarsystemId, site: SiteInfo) -> (result: Result<
        &Vec<SiteEntity>,
        PersistError,
    >)
        ensures
            match result {
                Ok(entities) => self.entities_of(solarsystem, site) == Some(entities@),
                Err(error) => self.entities_of(solarsystem, site) is None && error
                    == PersistError::NoEntities,
            },
    {
        let key = key_of(solarsystem, site);
        match self.entities.get(&key) {
            Some(entities) => Ok(entities),
            None => Err(PersistError::NoEntities),
        }
    }

    /// Takes the entities of the site out of the store, for a round to work on
    /// them.
    pub fn take_entities(&mut self, solarsystem: SolarsystemId, site: SiteInfo) -> (result: Result<
        Vec<SiteEntity>,
        PersistError,
    >)
        requires
            old(self).wf(),
        ensures
            final(self).wf(),
            match result {
                Ok(entities) => old(self).entities_of(solarsystem, site) == Some(entities@),
                Err(error) => old(self).entities_of(solarsystem, site) is None && error
                    == PersistError::NoEntities,
            },
            final(self).entities_of(solarsystem, site) is None,
            forall|other_solarsystem: SolarsystemId, other: SiteInfo|
                other_solarsystem != solarsystem || other != site ==> #[trigger] final(self).entities_of(other_solarsystem, other) == old(self).entities_of(
                    other_solarsystem,
                    other,
                ),
            forall|any: SolarsystemId| #[trigger]
                final(self).sites_of(any) == old(self).sites_of(any),
    {
        let key = key_of(solarsystem, site);
        let taken = self.entities.remove(&key);
        proof {
            assert forall|other_solarsystem: SolarsystemId, other: SiteInfo|
                other_solarsystem != solarsystem || other != site implies #[trigger] self.entities_of(
                other_solarsystem,
                other,
            ) == old(self).entities_of(other_solarsystem, other) by {
                lemma_site_key_tells_sites_apart(solarsystem, site, other_solarsystem, other);
            }
        }
        match taken {
            Some(entities) => Ok(entities),
            None => Err(PersistError::NoEntities),
        }
    }

    /// Keeps the entities of the site. An empty list is refused: a site
    /// without entities has to be removed.
    pub fn write_entities(
        &mut self,
        solarsystem: SolarsystemId,
        site: SiteInfo,
        entities: Vec<SiteEntity>,
    ) -> (result: Result<(), PersistError>)
        requires
            old(self).wf(),
        ensures
            final(self).wf(),
            result is Ok <==> entities@.len() > 0,
            result matches Err(error) ==> error == PersistError::EmptySite,
            final(self).entities_of(solarsystem, site) == if entities@.len() > 0 {
                Some(entities@)
            } else {
                old(self).entities_of(solarsystem, site)
            },
            forall|other_solarsystem: SolarsystemId, other: SiteInfo|
                other_solarsystem != solarsystem || other != site ==> #[trigger] final(self).entities_of(other_solarsystem, other) == old(self).entities_of(
                    other_solarsystem,
                    other,
                ),
            forall|any: SolarsystemId| #[trigger]
                final(self).sites_of(any) == old(self).sites_of(any),
    {
        if entities.len() == 0 {
            return Err(PersistError::EmptySite);
        }
        let key = key_of(solarsystem, site);
        self.entities.insert(key, entities);
        proof {
            assert forall|other_solarsystem: SolarsystemId, other: SiteInfo|
                other_solarsystem != solarsystem || other != site implies #[trigger] self.entities_of(
                other_solarsystem,
                other,
            ) == old(self).entities_of(other_solarsystem, other) by {
                lemma_site_key_tells_sites_apart(solarsystem, site, other_solarsystem, other);
            }
        }
        Ok(())
    }

    /// All sites of the first `solarsystems` solarsystems, each with its
    /// solarsystem. A solarsystem has a number of eight bits: there are no
    /// more than 256 of them.
    pub fn read_sites_everywhere(&self, solarsystems: usize) -> (result: Vec<
        (SolarsystemId, SiteInfo),
    >)
        requires
            forall|solarsystem: SolarsystemId|
                solarsystem < solarsystems ==> self.sites_of(solarsystem) is Some,
        ensures
            result@ == self.everywhere(
                if solarsystems <= 256 {
                    solarsystems as int
                } else {
                    256
                },
            ),
    {
        let count: usize = if solarsystems <= 256 {
            solarsystems
        } else {
            256
        };
        let mut result: Vec<(SolarsystemId, SiteInfo)> = Vec::new();
        let mut next: usize = 0;
        while next < count
            invariant
                next <= count <= 256,
                count <= solarsystems,
                forall|any: SolarsystemId| any < solarsystems ==> self.sites_of(any) is Some,
                result@ == self.everywhere(next as int),
            decreases count - next,
        {
            let solarsystem = next as u8;
            let sites = match self.read_sites(solarsystem) {
                Ok(list) => list.all(),
                Err(_) => Vec::new(),
            };
            let ghost before = result@;
            let ghost listed = self.sites_of(solarsystem)->0;
            let mut i: usize = 0;
            while i < sites.len()
                invariant
                    i <= sites@.len(),
                    sites@ == listed.map_values(|entry: (u8, SiteInfo)| entry.1),
                    result@ == before + listed.take(i as int).map_values(
                        |entry: (u8, SiteInfo)| (solarsystem, entry.1),
                    ),
                decreases sites@.len() - i,
            {
                result.push((solarsystem, sites[i]));
                proof {
                    assert(result@ =~= before + listed.take(i + 1).map_values(
                        |entry: (u8, SiteInfo)| (solarsystem, entry.1),
                    ));
                }
                i += 1;
            }
            proof {
                assert(listed.take(i as int) =~= listed);
            }
            next += 1;
        }
        result
    }

    /// Keeps a new site with its entities and lists it near the planet.
    ///
    /// Fails on an empty list of entities without changing anything. Fails
    /// where nothing is kept of the sites of the solarsystem; the entities are
    /// kept all the same.
    pub fn add_site(
        &mut self,
        solarsystem: SolarsystemId,
        planet: u8,
        site: SiteInfo,
        entities: Vec<SiteEntity>,
    ) -> (result: Result<(), PersistError>)
        requires
            old(self).wf(),
        ensures
            final(self).wf(),
            match result {
                Ok(_) => entities@.len() > 0 && old(self).sites_of(solarsystem) is Some,
                Err(error) => if entities@.len() == 0 {
                    error == PersistError::EmptySite
                } else {
                    error == PersistError::NoSites && old(self).sites_of(solarsystem) is None
                },
            },
            final(self).entities_of(solarsystem, site) == if entities@.len() > 0 {
                Some(entities@)
            } else {
                old(self).entities_of(solarsystem, site)
            },
            final(self).sites_of(solarsystem) == match old(self).sites_of(solarsystem) {
                Some(list) => if entities@.len() > 0 {
                    Some(without_site(list, site).push((planet, site)))
                } else {
                    Some(list)
                },
                None => None,
            },
            forall|other_solarsystem: SolarsystemId, other: SiteInfo|
                other_solarsystem != solarsystem || other != site ==> #[trigger] final(self).entities_of(other_solarsystem, other) == old(self).entities_of(
                    other_solarsystem,
                    other,
                ),
            forall|other: SolarsystemId|
                other != solarsystem ==> #[trigger] final(self).sites_of(other) == old(self).sites_of(other),
    {
        match self.write_entities(solarsystem, site, entities) {
            Ok(_) => {},
            Err(error) => {
                return Err(error);
            },
        }
        let ghost written = *self;
        proof {
            assert(written.sites_of(solarsystem) == old(self).sites_of(solarsystem));
        }
        let result = match self.sites.remove(&solarsystem) {
            Some(mut list) => {
                list.add(planet, site);
                self.sites.insert(solarsystem, list);
                Ok(())
            },
            None => Err(PersistError::NoSites),
        };
        proof {
            assert forall|other_solarsystem: SolarsystemId, other: SiteInfo|
                other_solarsystem != solarsystem || other != site implies #[trigger] self.entities_of(
                other_solarsystem,
                other,
            ) == old(self).entities_of(other_solarsystem, other) by {
                assert(self.entities_of(other_solarsystem, other) == written.entities_of(
                    other_solarsystem,
                    other,
                ));
            }
            assert forall|other: SolarsystemId| other != solarsystem implies #[trigger] self.sites_of(
                other,
            ) == old(self).sites_of(other) by {
                assert(self.sites_of(other) == written.sites_of(other));
            }
        }
        result
    }

    /// Removes the site from the list of its solarsystem and forgets its
    /// entities. Fails, without changing anything, where nothing is kept of
    /// the sites of the solarsystem.
    pub fn remove_site(&mut self, solarsystem: SolarsystemId, site: SiteInfo) -> (result: Result<
        (),
        PersistError,
    >)
        requires
            old(self).wf(),
        ensures
            final(self).wf(),
            result is Ok <==> old(self).sites_of(solarsystem) is Some,
            result matches Err(error) ==> error == PersistError::NoSites,
            final(self).sites_of(solarsystem) == match old(self).sites_of(solarsystem) {
                Some(list) => if without_site(list, site).len() > 0 {
                    Some(without_site(list, site))
                } else {
                    None
                },
                None => None,
            },
            final(self).entities_of(solarsystem, site) == if result is Ok {
                None
            } else {
                old(self).entities_of(solarsystem, site)
            },
            forall|other_solarsystem: SolarsystemId, other: SiteInfo|
                other_solarsystem != solarsystem || other != site ==> #[trigger] final(self).entities_of(other_solarsystem, other) == old(self).entities_of(
                    other_solarsystem,
                    other,
                ),
            forall|other: SolarsystemId|
                other != solarsystem ==> #[trigger] final(self).sites_of(other) == old(self).sites_of(other),
    {
        let mut sites = match self.sites.remove(&solarsystem) {
            Some(list) => list,
            None => {
                return Err(PersistError::NoSites);
            },
        };
        sites.remove(site);
        self.write_sites(solarsystem, sites);
        let _ = self.take_entities(solarsystem, site);
        Ok(())
    }
}

/// The entities of the site as they are kept. None where nothing is kept.
pub open spec fn kept_in(sites: Sites, solarsystem: SolarsystemId, site: SiteInfo) -> Seq<SiteEntity> {
    match sites.entities_of(solarsystem, site) {
        Some(entities) => entities,
        None => Seq::empty(),
    }
}

/// Those of the queue that are on the way to the site, in the order of the
/// queue.
pub open spec fn arriving_at(queue: Seq<(SiteInfo, Player)>, site: SiteInfo) -> Seq<Player>
    decreases queue.len(),
{
    if queue.len() == 0 {
        Seq::empty()
    } else if queue.last().0 == site {
        arriving_at(queue.drop_last(), site).push(queue.last().1)
    } else {
        arriving_at(queue.drop_last(), site)
    }
}

/// Those of the queue that are on the way to another site, in the order of the
/// queue.
pub open spec fn passing_by(queue: Seq<(SiteInfo, Player)>, site: SiteInfo) -> Seq<
    (SiteInfo, Player),
>
    decreases queue.len(),
{
    if queue.len() == 0 {
        Seq::empty()
    } else if queue.last().0 == site {
        passing_by(queue.drop_last(), site)
    } else {
        passing_by(queue.drop_last(), site).push(queue.last())
    }
}

/// Who is on the way between the sites of each solarsystem, and where to.
pub struct Warping {
    warping: HashMap<SolarsystemId, Vec<(SiteInfo, Player)>>,
}

impl View for Warping {
    type V = Map<SolarsystemId, Seq<(SiteInfo, Player)>>;

    /// The queues that are kept.
    closed spec fn view(&self) -> Map<SolarsystemId, Seq<(SiteInfo, Player)>> {
        self.warping@.map_values(|queue: Vec<(SiteInfo, Player)>| queue@)
    }
}

impl Warping {
    /// The store keeps no empty queue.
    pub closed spec fn wf(&self) -> bool {
        forall|solarsystem: SolarsystemId| #[trigger]
            self.warping@.contains_key(solarsystem) ==> self.warping@[solarsystem]@.len() > 0
    }

    /// Who is on the way in the solarsystem, each with the site it is on the
    /// way to, in the order in which they set out.
    pub open spec fn warping_in(&self, solarsystem: SolarsystemId) -> Seq<(SiteInfo, Player)> {
        if self@.contains_key(solarsystem) {
            self@[solarsystem]
        } else {
            Seq::empty()
        }
    }

    pub fn new() -> (store: Self)
        ensures
            store.wf(),
            store@ == Map::<SolarsystemId, Seq<(SiteInfo, Player)>>::empty(),
    {
        let store = Warping { warping: HashMap::new() };
        proof {
            assert(store@ =~= Map::<SolarsystemId, Seq<(SiteInfo, Player)>>::empty());
        }
        store
    }
}

/// Who is on the way in the solarsystem, and where to.
pub fn read_entitiy_warping(store: &Warping, solarsystem: SolarsystemId) -> (result: Vec<
    (SiteInfo, Player),
>)
    ensures
        result@ == store.warping_in(solarsystem),
{
    let mut result: Vec<(SiteInfo, Player)> = Vec::new();
    if let Some(queue) = store.warping.get(&solarsystem) {
        let mut i: usize = 0;
        while i < queue.len()
            invariant
                i <= queue@.len(),
                result@ == queue@.take(i as int),
            decreases queue@.len() - i,
        {
            result.push(queue[i]);
            proof {
                assert(result@ =~= queue@.take(i + 1));
            }
            i += 1;
        }
        proof {
            assert(queue@.take(i as int) =~= queue@);
        }
    }
    result
}

/// Takes those that are on the way to the site out of the queue of the
/// solarsystem. The others stay, in their order.
pub fn pop_entity_warping(store: &mut Warping, solarsystem: SolarsystemId, site: SiteInfo) -> (result:
    Vec<Player>)
    requires
        old(store).wf(),
    ensures
        final(store).wf(),
        result@ == arriving_at(old(store).warping_in(solarsystem), site),
        final(store).warping_in(solarsystem) == passing_by(
            old(store).warping_in(solarsystem),
            site,
        ),
        forall|other: SolarsystemId|
            other != solarsystem ==> #[trigger] final(store).warping_in(other) == old(store).warping_in(other),
{
    let mut other: Vec<(SiteInfo, Player)> = Vec::new();
    let mut result: Vec<Player> = Vec::new();
    let queue = match store.warping.remove(&solarsystem) {
        Some(queue) => queue,
        None => Vec::new(),
    };
    let mut i: usize = 0;
    while i < queue.len()
        invariant
            i <= queue@.len(),
            result@ == arriving_at(queue@.take(i as int), site),
            other@ == passing_by(queue@.take(i as int), site),
        decreases queue@.len() - i,
    {
        proof {
            assert(queue@.take(i + 1).drop_last() =~= queue@.take(i as int));
        }
        let (towards, player) = queue[i];
        if site == towards {
            result.push(player);
        } else {
            other.push((towards, player));
        }
        i += 1;
    }
    proof {
        assert(queue@.take(i as int) =~= queue@);
    }
    if other.len() > 0 {
        store.warping.insert(solarsystem, other);
    }
    result
}

/// Puts the player at the end of the queue of the solarsystem, on its way to
/// the target.
pub fn add_entity_warping(
    store: &mut Warping,
    solarsystem: SolarsystemId,
    target: SiteInfo,
    player: Player,
)
    requires
        old(store).wf(),
    ensures
        final(store).wf(),
        final(store).warping_in(solarsystem) == old(store).warping_in(solarsystem).push(
            (target, player),
        ),
        forall|other: SolarsystemId|
            other != solarsystem ==> #[trigger] final(store).warping_in(other) == old(store).warping_in(other),
{
    let mut current = match store.warping.remove(&solarsystem) {
        Some(queue) => queue,
        None => Vec::new(),
    };
    current.push((target, player));
    store.warping.insert(solarsystem, current);
}

/// Whoever sets out for a site arrives there when the site next takes in its
/// arrivals, behind those that set out before; and nobody else arrives.
pub proof fn lemma_who_sets_out_arrives(
    queue: Seq<(SiteInfo, Player)>,
    target: SiteInfo,
    player: Player,
    site: SiteInfo,
)
    ensures
        arriving_at(queue.push((target, player)), site) == if target == site {
            arriving_at(queue, site).push(player)
        } else {
            arriving_at(queue, site)
        },
        arriving_at(passing_by(queue, site), site).len() == 0,
    decreases queue.len(),
{
    assert(queue.push((target, player)).drop_last() =~= queue);
    if queue.len() > 0 {
        lemma_who_sets_out_arrives(queue.drop_last(), target, player, site);
        if queue.last().0 != site {
            let others = passing_by(queue.drop_last(), site);
            assert(others.push(queue.last()).drop_last() =~= others);
        }
    }
}

} // verus!
