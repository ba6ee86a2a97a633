//! What a player or an NPC can ask of a round.

use vstd::prelude::*;
use crate::site::{Service, SiteInfo};

verus! {

#[derive(Debug, Clone, Copy, PartialEq, Eq, Structural)]
pub struct InstructionModuleSelf {
    pub module_index: u8,
}

#[derive(Debug, Clone, Copy, PartialEq, Eq, Structural)]
pub struct InstructionModuleTargeted {
    pub target_index_in_site: u8,
    pub module_index: u8,
}

#[derive(Debug, Clone, Copy, PartialEq, Eq, Structural)]
pub struct InstructionUseFacility {
    pub service: Service,
}

#[derive(Debug, Clone, Copy, PartialEq, Eq, Structural)]
pub struct InstructionWarp {
    pub target: SiteInfo,
}

/// An instruction for one round. It is gone after the round, whether it was
/// carried out or not.
///
/// The variants are listed in the order in which a round resolves them:
/// everything that uses a module comes before anything that leaves the site.
#[derive(Debug, Clone, Copy, PartialEq, Eq, Structural)]
pub enum Instruction {
    ModuleUntargeted(InstructionModuleSelf),
    ModuleTargeted(InstructionModuleTargeted),
    SelfDestruct,
    Facility(InstructionUseFacility),
    Warp(InstructionWarp),
}

impl Instruction {
    /// The place of the instruction's kind in the order of a round.
    pub open spec fn rank(self) -> int {
        match self {
            Instruction::ModuleUntargeted(_) => 0,
            Instruction::ModuleTargeted(_) => 1,
            Instruction::SelfDestruct => 2,
            Instruction::Facility(_) => 3,
            Instruction::Warp(_) => 4,
        }
    }

    /// Whether carrying out the instruction takes its actor out of the site.
    pub open spec fn leaves_site(self) -> bool {
        self is Facility || self is Warp
    }

    /// The place of the instruction's kind in the order of a round.
    pub fn kind_rank(&self) -> (rank: u8)
        ensures
            rank == self.rank(),
    {
        match self {
            Instruction::ModuleUntargeted(_) => 0,
            Instruction::ModuleTargeted(_) => 1,
            Instruction::SelfDestruct => 2,
            Instruction::Facility(_) => 3,
            Instruction::Warp(_) => 4,
        }
    }
}

} // verus!
