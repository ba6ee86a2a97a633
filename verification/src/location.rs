//! Where a player is.

use vstd::prelude::*;
use crate::site::{SiteInfo, SolarsystemId};

verus! {

#[derive(Debug, Clone, Copy, PartialEq, Eq, Structural)]
pub struct PlayerAtStation {
    pub solarsystem: SolarsystemId,
    pub station: u8,
}

/// Between sites, on the way to one.
#[derive(Debug, Clone, Copy, PartialEq, Eq, Structural)]
pub struct PlayerInSpace {
    pub solarsystem: SolarsystemId,
    pub towards: SiteInfo,
}

#[derive(Debug, Clone, Copy, PartialEq, Eq, Structural)]
pub struct PlayerInSite {
    pub solarsystem: SolarsystemId,
    pub site: SiteInfo,
}

#[derive(Debug, Clone, Copy, PartialEq, Eq, Structural)]
pub enum PlayerLocation {
    Site(PlayerInSite),
    Space(PlayerInSpace),
    Station(PlayerAtStation),
}

} // verus!
