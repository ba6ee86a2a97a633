//! The effect engine: what a list of round effects does to a status.
//!
//! There are two ways to apply a list. The acting ship pays for its own module
//! with [`apply_to_origin`], which applies all effects, in their order, or
//! none. Whatever is inflicted on someone else goes through
//! [`apply_to_target`], which always succeeds and saturates.

use vstd::prelude::*;
use crate::ship::ShipStatus;

verus! {

/// One numeric effect of a module or of a layout on a status.
///
/// It names no entity: the caller decides whose status it is applied to.
#[derive(Debug, Clone, Copy, PartialEq, Eq, Structural)]
pub enum RoundEffect {
    CapacitorDrain(u16),
    CapacitorRecharge(u16),
    ArmorRepair(u16),
    StructureRepair(u16),
    Damage(u16),
    Mine(u16),
    WarpDisruption,
}

/// `a - b`, or zero where that would be negative.
pub open spec fn minus(a: int, b: int) -> int {
    if a >= b {
        a - b
    } else {
        0
    }
}

/// `a + b`, or the largest `u16` where the sum does not fit.
pub open spec fn plus(a: int, b: int) -> int {
    if a + b <= u16::MAX {
        a + b
    } else {
        u16::MAX as int
    }
}

/// The status after `damage`: armor absorbs first, structure takes what is left
/// of the damage, and neither goes below zero.
pub open spec fn damaged(status: ShipStatus, damage: u16) -> ShipStatus {
    ShipStatus {
        capacitor: status.capacitor,
        hitpoints_armor: minus(status.hitpoints_armor as int, damage as int) as u16,
        hitpoints_structure: minus(
            status.hitpoints_structure as int,
            minus(damage as int, status.hitpoints_armor as int),
        ) as u16,
    }
}

/// Whether the status can pay for the effect. Only a capacitor drain costs
/// anything.
pub open spec fn affordable(status: ShipStatus, effect: RoundEffect) -> bool {
    match effect {
        RoundEffect::CapacitorDrain(amount) => amount <= status.capacitor,
        _ => true,
    }
}

/// The status after one effect, saturating at zero and at the largest `u16`.
/// Mining and warp disruption leave a status as it is.
pub open spec fn affected(status: ShipStatus, effect: RoundEffect) -> ShipStatus {
    match effect {
        RoundEffect::CapacitorDrain(amount) => ShipStatus {
            capacitor: minus(status.capacitor as int, amount as int) as u16,
            ..status
        },
        RoundEffect::CapacitorRecharge(amount) => ShipStatus {
            capacitor: plus(status.capacitor as int, amount as int) as u16,
            ..status
        },
        RoundEffect::ArmorRepair(amount) => ShipStatus {
            hitpoints_armor: plus(status.hitpoints_armor as int, amount as int) as u16,
            ..status
        },
        RoundEffect::StructureRepair(amount) => ShipStatus {
            hitpoints_structure: plus(status.hitpoints_structure as int, amount as int) as u16,
            ..status
        },
        RoundEffect::Damage(damage) => damaged(status, damage),
        RoundEffect::Mine(_) | RoundEffect::WarpDisruption => status,
    }
}

/// The status after all effects of the list, applied from the first to the last.
pub open spec fn affected_by_all(status: ShipStatus, effects: Seq<RoundEffect>) -> ShipStatus
    decreases effects.len(),
{
    if effects.len() == 0 {
        status
    } else {
        affected(affected_by_all(status, effects.drop_last()), effects.last())
    }
}

/// What the status of the acting ship becomes when it pays for a module.
///
/// The effects are gone through in their order. Each one has to be affordable
/// for the status that the effects before it have left, and is then applied to
/// that status. Where one of them is not affordable the module is not paid for
/// at all: there is no status then, and none of the effects counts.
pub open spec fn paid(status: ShipStatus, effects: Seq<RoundEffect>) -> Option<ShipStatus>
    decreases effects.len(),
{
    if effects.len() == 0 {
        Some(status)
    } else {
        match paid(status, effects.drop_last()) {
            Some(left) => if affordable(left, effects.last()) {
                Some(affected(left, effects.last()))
            } else {
                None
            },
            None => None,
        }
    }
}

/// Where the first effects of a list cannot be paid for, the list cannot.
pub proof fn lemma_refused_start_refuses_all(
    status: ShipStatus,
    effects: Seq<RoundEffect>,
    first: int,
)
    requires
        0 <= first <= effects.len(),
        paid(status, effects.take(first)) is None,
    ensures
        paid(status, effects) is None,
    decreases effects.len(),
{
    if first == effects.len() {
        assert(effects.take(first) =~= effects);
    } else {
        assert(effects.drop_last().take(first) =~= effects.take(first));
        lemma_refused_start_refuses_all(status, effects.drop_last(), first);
    }
}

/// A list with a capacitor drain that cannot be afforded when its turn comes
/// is not paid for at all, whatever else the list holds and however affordable
/// that is: none of its effects is applied. What the drain has to be afforded
/// from is the capacitor that the effects before it have left.
pub proof fn lemma_unaffordable_effect_stops_all(
    status: ShipStatus,
    effects: Seq<RoundEffect>,
    index: int,
)
    requires
        0 <= index < effects.len(),
        effects[index] matches RoundEffect::CapacitorDrain(amount) && (paid(
            status,
            effects.take(index),
        ) matches Some(left) ==> amount > left.capacitor),
    ensures
        paid(status, effects) is None,
{
    assert(effects.take(index + 1).drop_last() =~= effects.take(index));
    assert(effects.take(index + 1).last() == effects[index]);
    lemma_refused_start_refuses_all(status, effects, index + 1);
}

/// A module that is paid for has had every one of its effects: the status is
/// the one after all of them, applied from the first to the last.
pub proof fn lemma_paid_is_affected_by_all(status: ShipStatus, effects: Seq<RoundEffect>)
    ensures
        paid(status, effects) matches Some(left) ==> left == affected_by_all(status, effects),
    decreases effects.len(),
{
    if effects.len() > 0 {
        lemma_paid_is_affected_by_all(status, effects.drop_last());
    }
}

/// Armor absorbs the damage first, structure the remainder.
pub fn apply_damage(status: ShipStatus, damage: u16) -> (after: ShipStatus)
    ensures
        after == damaged(status, damage),
        after.capacitor == status.capacitor,
        after.hitpoints_armor == minus(status.hitpoints_armor as int, damage as int),
        after.hitpoints_structure == minus(
            status.hitpoints_structure as int,
            minus(damage as int, status.hitpoints_armor as int),
        ),
{
    let structure_dmg = damage.saturating_sub(status.hitpoints_armor);
    ShipStatus {
        capacitor: status.capacitor,
        hitpoints_armor: status.hitpoints_armor.saturating_sub(damage),
        hitpoints_structure: status.hitpoints_structure.saturating_sub(structure_dmg),
    }
}

pub fn can_apply_to_origin(status: ShipStatus, effect: RoundEffect) -> (can: bool)
    ensures
        can == affordable(status, effect),
{
    match effect {
        RoundEffect::CapacitorDrain(amount) => status.capacitor.checked_sub(amount).is_some(),
        RoundEffect::ArmorRepair(_)
        | RoundEffect::CapacitorRecharge(_)
        | RoundEffect::Damage(_)
        | RoundEffect::Mine(_)
        | RoundEffect::StructureRepair(_)
        | RoundEffect::WarpDisruption => true,
    }
}

pub fn saturating_apply(status: ShipStatus, effect: RoundEffect) -> (after: ShipStatus)
    ensures
        after == affected(status, effect),
{
    let mut status = status;
    match effect {
        RoundEffect::CapacitorDrain(amount) => {
            status.capacitor = status.capacitor.saturating_sub(amount);
            status
        },
        RoundEffect::CapacitorRecharge(amount) => {
            status.capacitor = status.capacitor.saturating_add(amount);
            status
        },
        RoundEffect::ArmorRepair(amount) => {
            status.hitpoints_armor = status.hitpoints_armor.saturating_add(amount);
            status
        },
        RoundEffect::StructureRepair(amount) => {
            status.hitpoints_structure = status.hitpoints_structure.saturating_add(amount);
            status
        },
        RoundEffect::Damage(damage) => apply_damage(status, damage),
        RoundEffect::Mine(_) | RoundEffect::WarpDisruption => status,
    }
}

/// Applies the effects to the acting ship itself, one after the other, where
/// it can afford each of them when its turn comes, and returns `None` without
/// applying any where it cannot.
///
/// Knows no ship limits: the status may end up with more armor than its layout
/// can have.
pub fn apply_to_origin(status: ShipStatus, effects: &[RoundEffect]) -> (after: Option<ShipStatus>)
    ensures
        after == paid(status, effects@),
        after matches Some(left) ==> left == affected_by_all(status, effects@),
{
    let mut left = status;
    let mut i: usize = 0;
    while i < effects.len()
        invariant
            i <= effects.len(),
            paid(status, effects@.take(i as int)) == Some(left),
        decreases effects.len() - i,
    {
        proof {
            assert(effects@.take(i + 1).drop_last() =~= effects@.take(i as int));
            assert(effects@.take(i + 1).last() == effects@[i as int]);
        }
        if !can_apply_to_origin(left, effects[i]) {
            proof {
                assert(paid(status, effects@.take(i + 1)) is None);
                lemma_refused_start_refuses_all(status, effects@, i + 1);
            }
            return None;
        }
        left = saturating_apply(left, effects[i]);
        i += 1;
    }
    proof {
        assert(effects@.take(i as int) =~= effects@);
        lemma_paid_is_affected_by_all(status, effects@);
    }
    Some(left)
}

/// Applies the effects in a saturating way: a capacitor of 2 drained by 5 is 0.
///
/// Knows no ship limits: the status may end up with more armor than its layout
/// can have.
pub fn apply_to_target(status: ShipStatus, effects: &[RoundEffect]) -> (after: ShipStatus)
    ensures
        after == affected_by_all(status, effects@),
{
    let mut status = status;
    let ghost before = status;
    let mut i: usize = 0;
    while i < effects.len()
        invariant
            i <= effects.len(),
            status == affected_by_all(before, effects@.take(i as int)),
        decreases effects.len() - i,
    {
        proof {
            assert(effects@.take(i + 1).drop_last() =~= effects@.take(i as int));
        }
        status = saturating_apply(status, effects[i]);
        i += 1;
    }
    proof {
        assert(effects@.take(i as int) =~= effects@);
    }
    status
}

/// Applies the per-round effects that a ship layout has built in. Passives
/// never fail to apply.
pub fn apply_passives(status: ShipStatus, round_effects: &[RoundEffect]) -> (after: ShipStatus)
    ensures
        after == affected_by_all(status, round_effects@),
{
    apply_to_target(status, round_effects)
}

} // verus!
