//! Ships: what is fitted, how it currently fares and what it carries.

use vstd::prelude::*;

verus! {

/// Identifies a ship layout in the static data.
pub type LayoutId = u8;

/// Identifies a module in the static table of its class.
pub type ModuleId = u8;

/// The current situation of a ship or of anything else that can take damage.
///
/// The values are not limited by any layout here: the round brings them back
/// under the maximum of the fitting when it finishes.
#[derive(Debug, Clone, Copy, PartialEq, Eq, Structural)]
pub struct ShipStatus {
    pub capacitor: u16,
    pub hitpoints_armor: u16,
    pub hitpoints_structure: u16,
}

impl ShipStatus {
    /// The terminal status: nothing left.
    pub open spec fn dead() -> ShipStatus {
        ShipStatus { capacitor: 0, hitpoints_armor: 0, hitpoints_structure: 0 }
    }

    /// Alive means that structure is left. Armor may be gone.
    pub open spec fn alive(self) -> bool {
        self.hitpoints_structure > 0
    }

    /// Every component is at most the same component of `max`.
    pub open spec fn within(self, max: ShipStatus) -> bool {
        &&& self.capacitor <= max.capacitor
        &&& self.hitpoints_armor <= max.hitpoints_armor
        &&& self.hitpoints_structure <= max.hitpoints_structure
    }

    /// Each component cut down to the same component of `max`.
    pub open spec fn clamped(self, max: ShipStatus) -> ShipStatus {
        ShipStatus {
            capacitor: if self.capacitor <= max.capacitor {
                self.capacitor
            } else {
                max.capacitor
            },
            hitpoints_armor: if self.hitpoints_armor <= max.hitpoints_armor {
                self.hitpoints_armor
            } else {
                max.hitpoints_armor
            },
            hitpoints_structure: if self.hitpoints_structure <= max.hitpoints_structure {
                self.hitpoints_structure
            } else {
                max.hitpoints_structure
            },
        }
    }

    pub fn new_dead() -> (status: ShipStatus)
        ensures
            status == ShipStatus::dead(),
    {
        ShipStatus { capacitor: 0, hitpoints_armor: 0, hitpoints_structure: 0 }
    }

    pub fn is_alive(&self) -> (alive: bool)
        ensures
            alive == self.alive(),
    {
        self.hitpoints_structure > 0
    }
}

/// What a ship carries.
#[derive(Debug, Clone, Copy, PartialEq, Eq, Structural)]
pub struct Cargo {
    pub ore: u16,
}

/// The equipped modules of a ship together with its hull layout.
///
/// Instructions refer to a slot by its position in the list of its class.
#[derive(Debug, Clone, PartialEq, Eq)]
pub struct ShipFitting {
    pub layout: LayoutId,
    pub slots_targeted: Vec<ModuleId>,
    pub slots_untargeted: Vec<ModuleId>,
    pub slots_passive: Vec<ModuleId>,
}

/// The one fitting has what the other has: the same layout and the same
/// modules in the same slots.
pub open spec fn fitted_like(one: ShipFitting, other: ShipFitting) -> bool {
    &&& one.layout == other.layout
    &&& one.slots_targeted@ == other.slots_targeted@
    &&& one.slots_untargeted@ == other.slots_untargeted@
    &&& one.slots_passive@ == other.slots_passive@
}

fn same_modules(slots: &Vec<ModuleId>) -> (copy: Vec<ModuleId>)
    ensures
        copy@ == slots@,
{
    let mut copy: Vec<ModuleId> = Vec::new();
    let mut i: usize = 0;
    while i < slots.len()
        invariant
            i <= slots@.len(),
            copy@ == slots@.take(i as int),
        decreases slots@.len() - i,
    {
        copy.push(slots[i]);
        proof {
            assert(copy@ =~= slots@.take(i + 1));
        }
        i += 1;
    }
    proof {
        assert(slots@.take(i as int) =~= slots@);
    }
    copy
}

impl ShipFitting {
    /// Another fitting with the same layout and the same modules.
    pub fn same(&self) -> (fitting: ShipFitting)
        ensures
            fitted_like(fitting, *self),
    {
        ShipFitting {
            layout: self.layout,
            slots_targeted: same_modules(&self.slots_targeted),
            slots_untargeted: same_modules(&self.slots_untargeted),
            slots_passive: same_modules(&self.slots_passive),
        }
    }
}

/// A whole ship.
#[derive(Debug, Clone, PartialEq, Eq)]
pub struct Ship {
    pub fitting: ShipFitting,
    pub status: ShipStatus,
    pub cargo: Cargo,
}

} // verus!
