//! What the game keeps between rounds.
//!
//! The stores hold their data in memory. Reading them from files and writing
//! them back is left to whoever runs the game.

use vstd::prelude::*;
use std::collections::HashMap;
use crate::persist::notifications::Notifications;
use crate::persist::player::{PlayerGenerals, PlayerLocations, PlayerSiteInstructions};
use crate::persist::site::{Sites, Warping};
use crate::ship::Ship;
use crate::site::{Player, SiteInfo, SolarsystemId};

pub mod ensure_player_locations;
pub mod notifications;
pub mod player;
pub mod site;
pub mod static_sites;

verus! {

/// Everything that is kept.
pub struct Persist {
    pub player_generals: PlayerGenerals,
    pub player_locations: PlayerLocations,
    pub player_notifications: Notifications,
    pub player_site_instructions: PlayerSiteInstructions,
    /// The ship that each player flies.
    pub player_ships: HashMap<Player, Ship>,
    pub sites: Sites,
    pub warping: Warping,
}

impl Persist {
    /// Every store is in order.
    pub open spec fn wf(&self) -> bool {
        &&& self.player_generals.wf()
        &&& self.player_locations.wf()
        &&& self.player_notifications.wf()
        &&& self.player_site_instructions.wf()
        &&& self.sites.wf()
        &&& self.warping.wf()
    }
}

impl Default for Persist {
    /// Nothing is kept yet.
    fn default() -> (persist: Self)
        ensures
            persist.wf(),
            persist.player_generals@.dom().is_empty(),
            persist.player_locations@.dom().is_empty(),
            persist.player_notifications@.dom().is_empty(),
            persist.player_site_instructions@.dom().is_empty(),
            persist.player_ships@.dom().is_empty(),
            persist.warping@.dom().is_empty(),
            forall|solarsystem: SolarsystemId| persist.sites.sites_of(solarsystem) is None,
            forall|solarsystem: SolarsystemId, site: SiteInfo|
                persist.sites.entities_of(solarsystem, site) is None,
    {
        Self {
            player_generals: PlayerGenerals::new(),
            player_locations: PlayerLocations::new(),
            player_notifications: Notifications::new(),
            player_site_instructions: PlayerSiteInstructions::new(),
            player_ships: HashMap::new(),
            sites: Sites::new(),
            warping: Warping::new(),
        }
    }
}

} // verus!
