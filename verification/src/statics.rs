//! The static game data, and what a fitting is worth according to it.

use vstd::prelude::*;
use crate::round::effect::{affected_by_all, plus, RoundEffect};
use crate::ship::{Cargo, LayoutId, ModuleId, Ship, ShipFitting, ShipStatus};
use crate::site::SolarsystemId;

verus! {

/// A hull: what a ship has before any module is fitted.
#[derive(Debug, Clone, PartialEq, Eq)]
pub struct ShipLayout {
    pub capacitor: u16,
    pub hitpoints_armor: u16,
    pub hitpoints_structure: u16,
    /// How much ore fits into the hull.
    pub ore_bay: u16,
    /// What happens to the ship every round without any instruction.
    pub round_effects: Vec<RoundEffect>,
}

/// A module that raises what the ship can have, just by being fitted.
#[derive(Debug, Clone, Copy, PartialEq, Eq, Structural)]
pub struct ModulePassive {
    pub capacitor: Option<u16>,
    pub hitpoints_armor: Option<u16>,
}

/// A module that acts on the ship that carries it.
#[derive(Debug, Clone, PartialEq, Eq)]
pub struct ModuleSelf {
    pub effects: Vec<RoundEffect>,
}

/// A module that acts on another entity of the site.
#[derive(Debug, Clone, PartialEq, Eq)]
pub struct ModuleTargeted {
    /// What using the module does to the ship that carries it.
    pub effects_origin: Vec<RoundEffect>,
    /// What it does to the entity it is aimed at.
    pub effects_target: Vec<RoundEffect>,
}

#[derive(Debug, Clone, PartialEq, Eq)]
pub struct Solarsystem {
    /// Percentage
    pub security: u8,
    /// Amount
    pub planets: u8,
    /// The stargates of the system: where each one leads and at which planet it is.
    pub stargates: Vec<(SolarsystemId, u8)>,
    /// The planet of each station: `[1, 3]` has station 0 at planet 1 and
    /// station 1 at planet 3.
    pub stations: Vec<u8>,
}

/// All static data. An identifier is a position in the table of its kind.
#[derive(Debug, Clone, PartialEq, Eq)]
pub struct Statics {
    pub ship_layouts: Vec<ShipLayout>,
    pub modules_passive: Vec<ModulePassive>,
    pub modules_untargeted: Vec<ModuleSelf>,
    pub modules_targeted: Vec<ModuleTargeted>,
    pub solarsystems: Vec<Solarsystem>,
}

/// The status after one more passive module: it adds its armor and its
/// capacitor to what the ship can have. A module that the static data do not
/// know adds nothing.
pub open spec fn boosted(statics: Statics, status: ShipStatus, passive: ModuleId) -> ShipStatus {
    if passive < statics.modules_passive@.len() {
        let module = statics.modules_passive@[passive as int];
        ShipStatus {
            capacitor: match module.capacitor {
                Some(capacitor) => plus(status.capacitor as int, capacitor as int) as u16,
                None => status.capacitor,
            },
            hitpoints_armor: match module.hitpoints_armor {
                Some(armor) => plus(status.hitpoints_armor as int, armor as int) as u16,
                None => status.hitpoints_armor,
            },
            hitpoints_structure: status.hitpoints_structure,
        }
    } else {
        status
    }
}

/// The status after all passive modules of the list.
pub open spec fn boosted_by_all(statics: Statics, status: ShipStatus, passives: Seq<ModuleId>)
    -> ShipStatus
    decreases passives.len(),
{
    if passives.len() == 0 {
        status
    } else {
        boosted(statics, boosted_by_all(statics, status, passives.drop_last()), passives.last())
    }
}

impl Statics {
    /// Whether the static data know the layout.
    pub open spec fn knows_layout(self, layout: LayoutId) -> bool {
        layout < self.ship_layouts@.len()
    }

    /// The per-round effects that the layout has built in. A layout that the
    /// static data do not know has none.
    pub open spec fn round_effects(self, layout: LayoutId) -> Seq<RoundEffect> {
        if self.knows_layout(layout) {
            self.ship_layouts@[layout as int].round_effects@
        } else {
            Seq::empty()
        }
    }

    /// The most that a ship with this fitting can have: what the layout gives,
    /// raised by every passive module. `None` where the layout is not known.
    pub open spec fn max_status(self, fitting: ShipFitting) -> Option<ShipStatus> {
        if self.knows_layout(fitting.layout) {
            let layout = self.ship_layouts@[fitting.layout as int];
            Some(
                boosted_by_all(
                    self,
                    ShipStatus {
                        capacitor: layout.capacitor,
                        hitpoints_armor: layout.hitpoints_armor,
                        hitpoints_structure: layout.hitpoints_structure,
                    },
                    fitting.slots_passive@,
                ),
            )
        } else {
            None
        }
    }

    /// The status brought back under what the fitting can support. A fitting
    /// whose layout is not known supports nothing.
    pub open spec fn limited(self, fitting: ShipFitting, status: ShipStatus) -> ShipStatus {
        match self.max_status(fitting) {
            Some(max) => status.clamped(max),
            None => ShipStatus::dead(),
        }
    }

    /// What the end of a round makes of a status: the passive effects of the
    /// layout are applied, then the result is brought back under what the
    /// fitting can support.
    pub open spec fn reconciled(self, fitting: ShipFitting, status: ShipStatus) -> ShipStatus {
        self.limited(fitting, affected_by_all(status, self.round_effects(fitting.layout)))
    }

    /// How much more ore the ship can take. Nothing where the layout is not
    /// known or the hull is already full.
    pub open spec fn free_ore(self, fitting: ShipFitting, cargo: Cargo) -> int {
        if self.knows_layout(fitting.layout) && cargo.ore <= self.ship_layouts@[fitting.layout as int].ore_bay {
            self.ship_layouts@[fitting.layout as int].ore_bay - cargo.ore
        } else {
            0
        }
    }

    /// The effects of the untargeted module in the given slot. `None` where
    /// the fitting has no such slot or the static data do not know the module.
    pub open spec fn untargeted_effects(self, fitting: ShipFitting, module_index: u8) -> Option<
        Seq<RoundEffect>,
    > {
        if module_index < fitting.slots_untargeted@.len()
            && fitting.slots_untargeted@[module_index as int] < self.modules_untargeted@.len() {
            Some(
                self.modules_untargeted@[fitting.slots_untargeted@[module_index as int] as int].effects@,
            )
        } else {
            None
        }
    }

    /// The targeted module in the given slot. `None` where the fitting has no
    /// such slot or the static data do not know the module.
    pub open spec fn targeted_module(self, fitting: ShipFitting, module_index: u8) -> Option<
        ModuleId,
    > {
        if module_index < fitting.slots_targeted@.len()
            && fitting.slots_targeted@[module_index as int] < self.modules_targeted@.len() {
            Some(fitting.slots_targeted@[module_index as int])
        } else {
            None
        }
    }

    pub fn layout(&self, layout: LayoutId) -> (found: Option<&ShipLayout>)
        ensures
            found is Some <==> self.knows_layout(layout),
            found is Some ==> *found->0 == self.ship_layouts@[layout as int],
    {
        if (layout as usize) < self.ship_layouts.len() {
            Some(&self.ship_layouts[layout as usize])
        } else {
            None
        }
    }

    /// The per-round effects that the layout has built in.
    pub fn layout_round_effects(&self, layout: LayoutId) -> (effects: &[RoundEffect])
        ensures
            effects@ == self.round_effects(layout),
    {
        match self.layout(layout) {
            Some(found) => found.round_effects.as_slice(),
            None => &[],
        }
    }

    /// The untargeted module in the given slot of the fitting.
    pub fn untargeted(&self, fitting: &ShipFitting, module_index: u8) -> (found: Option<&ModuleSelf>)
        ensures
            found is Some <==> self.untargeted_effects(*fitting, module_index) is Some,
            found is Some ==> found->0.effects@ == self.untargeted_effects(
                *fitting,
                module_index,
            )->0,
    {
        if (module_index as usize) < fitting.slots_untargeted.len() {
            let id = fitting.slots_untargeted[module_index as usize];
            if (id as usize) < self.modules_untargeted.len() {
                return Some(&self.modules_untargeted[id as usize]);
            }
        }
        None
    }

    /// The targeted module in the given slot of the fitting, with its
    /// identifier.
    pub fn targeted(&self, fitting: &ShipFitting, module_index: u8) -> (found: Option<
        (ModuleId, &ModuleTargeted),
    >)
        ensures
            found is Some <==> self.targeted_module(*fitting, module_index) is Some,
            found matches Some(pair) ==> pair.0 == self.targeted_module(*fitting, module_index)->0
                && *pair.1 == self.modules_targeted@[pair.0 as int],
    {
        if (module_index as usize) < fitting.slots_targeted.len() {
            let id = fitting.slots_targeted[module_index as usize];
            if (id as usize) < self.modules_targeted.len() {
                return Some((id, &self.modules_targeted[id as usize]));
            }
        }
        None
    }

    /// How much more ore a ship with this fitting and cargo can take.
    pub fn free_cargo(&self, fitting: &ShipFitting, cargo: &Cargo) -> (free: Cargo)
        ensures
            free.ore == self.free_ore(*fitting, *cargo),
    {
        match self.layout(fitting.layout) {
            Some(found) => Cargo { ore: found.ore_bay.saturating_sub(cargo.ore) },
            None => Cargo { ore: 0 },
        }
    }
}

/// The most that a ship with this fitting can have, or `None` where the static
/// data do not contain its layout.
pub fn calc_max(statics: &Statics, fitting: &ShipFitting) -> (max: Option<ShipStatus>)
    ensures
        max == statics.max_status(*fitting),
{
    let layout = match statics.layout(fitting.layout) {
        Some(found) => found,
        None => {
            return None;
        },
    };
    let mut status = ShipStatus {
        capacitor: layout.capacitor,
        hitpoints_armor: layout.hitpoints_armor,
        hitpoints_structure: layout.hitpoints_structure,
    };
    let ghost base = status;
    let mut i: usize = 0;
    while i < fitting.slots_passive.len()
        invariant
            i <= fitting.slots_passive@.len(),
            status == boosted_by_all(*statics, base, fitting.slots_passive@.take(i as int)),
        decreases fitting.slots_passive@.len() - i,
    {
        proof {
            assert(fitting.slots_passive@.take(i + 1).drop_last() =~= fitting.slots_passive@.take(
                i as int,
            ));
        }
        let passive = fitting.slots_passive[i];
        if (passive as usize) < statics.modules_passive.len() {
            let module = statics.modules_passive[passive as usize];
            if let Some(armor) = module.hitpoints_armor {
                status.hitpoints_armor = status.hitpoints_armor.saturating_add(armor);
            }
            if let Some(capacitor) = module.capacitor {
                status.capacitor = status.capacitor.saturating_add(capacitor);
            }
        }
        i += 1;
    }
    proof {
        assert(fitting.slots_passive@.take(i as int) =~= fitting.slots_passive@);
    }
    Some(status)
}

impl Statics {
    /// The status of a ship that has just been built with this fitting: all
    /// that the fitting can support. A fitting whose layout is not known makes
    /// a wreck.
    pub open spec fn pristine(self, fitting: ShipFitting) -> ShipStatus {
        match self.max_status(fitting) {
            Some(max) => max,
            None => ShipStatus::dead(),
        }
    }
}

impl Ship {
    /// A new ship with the fitting: in its best state and empty.
    pub fn new(statics: &Statics, fitting: ShipFitting) -> (ship: Ship)
        ensures
            ship.fitting == fitting,
            ship.status == statics.pristine(fitting),
            ship.cargo.ore == 0,
    {
        let status = match calc_max(statics, &fitting) {
            Some(max) => max,
            None => ShipStatus::new_dead(),
        };
        Ship { fitting, status, cargo: Cargo { ore: 0 } }
    }
}

impl ShipStatus {
    /// Brings the status back under what the fitting can support.
    pub fn min_layout(&self, statics: &Statics, fitting: &ShipFitting) -> (status: ShipStatus)
        ensures
            status == statics.limited(*fitting, *self),
    {
        match calc_max(statics, fitting) {
            Some(max) => ShipStatus {
                capacitor: if self.capacitor <= max.capacitor {
                    self.capacitor
                } else {
                    max.capacitor
                },
                hitpoints_armor: if self.hitpoints_armor <= max.hitpoints_armor {
                    self.hitpoints_armor
                } else {
                    max.hitpoints_armor
                },
                hitpoints_structure: if self.hitpoints_structure <= max.hitpoints_structure {
                    self.hitpoints_structure
                } else {
                    max.hitpoints_structure
                },
            },
            None => ShipStatus::new_dead(),
        }
    }
}

} // verus!
