//! The staged plan that each simulation step runs.
//!
//! A step runs its stages in order, separated by barriers: no system of a
//! stage starts before every system of the earlier stages has finished.
//! Within a stage the systems are listed in an order that runs each one
//! after those it depends on.

use vstd::prelude::*;

verus! {

/// The systems, or groups of systems, that a simulation step runs.
#[derive(Clone, Copy, Debug, PartialEq, Eq, Structural)]
pub enum SystemId {
    /// Enlarges the timestep during the earliest steps of a run.
    TimestepOptimization,
    /// Zeroes each atom's force accumulator.
    ClearForce,
    /// Removes the newly-created marker.
    DeflagNewAtoms,
    /// Samples the magnetic field at each atom.
    MagneticSystems,
    /// Samples the beams and computes scattering rates and forces.
    LaserSystems,
    /// Emits new atoms from the sources.
    AtomSourceSystems,
    /// Adds gravity to each atom's force.
    Gravity,
    /// Advances positions and velocities by one Euler step.
    EulerIntegration,
    /// Marks atoms that a detector captures.
    Detection,
    /// Reports progress.
    ConsoleOutput,
    /// Removes the entities marked for destruction.
    DeleteToBeDestroyedEntities,
    /// Marks atoms that have left the simulation volume.
    DestroyOutOfBoundAtoms,
}

/// The stage in which system `s` runs.
pub open spec fn stage_of(s: SystemId) -> int {
    match s {
        SystemId::TimestepOptimization => 0,
        SystemId::ClearForce => 0,
        SystemId::DeflagNewAtoms => 0,
        SystemId::MagneticSystems => 1,
        SystemId::LaserSystems => 2,
        SystemId::AtomSourceSystems => 3,
        SystemId::Gravity => 4,
        SystemId::EulerIntegration => 4,
        SystemId::Detection => 4,
        SystemId::ConsoleOutput => 4,
        SystemId::DeleteToBeDestroyedEntities => 4,
        SystemId::DestroyOutOfBoundAtoms => 4,
    }
}

/// The position of system `s` within its stage.
pub open spec fn slot_of(s: SystemId) -> int {
    match s {
        SystemId::TimestepOptimization => 0,
        SystemId::ClearForce => 1,
        SystemId::DeflagNewAtoms => 2,
        SystemId::MagneticSystems => 0,
        SystemId::LaserSystems => 0,
        SystemId::AtomSourceSystems => 0,
        SystemId::Gravity => 0,
        SystemId::EulerIntegration => 1,
        SystemId::Detection => 2,
        SystemId::ConsoleOutput => 3,
        SystemId::DeleteToBeDestroyedEntities => 4,
        SystemId::DestroyOutOfBoundAtoms => 5,
    }
}

/// Whether system `s` reads what system `d` writes in the same step, so
/// that `d` must finish first.
pub open spec fn depends_on(s: SystemId, d: SystemId) -> bool {
    match s {
        SystemId::MagneticSystems => d == SystemId::DeflagNewAtoms,
        SystemId::LaserSystems => d == SystemId::MagneticSystems || d == SystemId::ClearForce,
        SystemId::AtomSourceSystems => d == SystemId::DeflagNewAtoms,
        SystemId::Gravity => d == SystemId::ClearForce,
        SystemId::EulerIntegration => d == SystemId::LaserSystems || d == SystemId::Gravity
            || d == SystemId::TimestepOptimization,
        SystemId::ConsoleOutput => d == SystemId::EulerIntegration,
        SystemId::DeleteToBeDestroyedEntities => d == SystemId::Detection || d == SystemId::EulerIntegration,
        _ => false,
    }
}

/// Whether `d` has finished before `s` starts when the plan runs.
pub open spec fn runs_before(d: SystemId, s: SystemId) -> bool {
    stage_of(d) < stage_of(s) || (stage_of(d) == stage_of(s) && slot_of(d) < slot_of(s))
}

/// The number of stages in a step.
pub const STAGE_COUNT: usize = 5;

/// Lays out the stages of one simulation step, in order.
pub fn create_simulation_dispatcher_builder() -> (r: Vec<Vec<SystemId>>)
    ensures
        r@.len() == STAGE_COUNT,
        forall|a: int, i: int| 0 <= a < r@.len() && 0 <= i < r@[a]@.len() ==> {
            &&& stage_of(#[trigger] r@[a]@[i]) == a
            &&& slot_of(r@[a]@[i]) == i
        },
        forall|s: SystemId| #![trigger stage_of(s)]
            slot_of(s) < r@[stage_of(s)]@.len() && r@[stage_of(s)]@[slot_of(s)] == s,
{
    let mut plan: Vec<Vec<SystemId>> = Vec::new();
    plan.push(vec![SystemId::TimestepOptimization, SystemId::ClearForce, SystemId::DeflagNewAtoms]);
    plan.push(vec![SystemId::MagneticSystems]);
    plan.push(vec![SystemId::LaserSystems]);
    plan.push(vec![SystemId::AtomSourceSystems]);
    plan.push(
        vec![
            SystemId::Gravity,
            SystemId::EulerIntegration,
            SystemId::Detection,
            SystemId::ConsoleOutput,
            SystemId::DeleteToBeDestroyedEntities,
            SystemId::DestroyOutOfBoundAtoms,
        ],
    );
    plan
}

/// The plan runs every system after each system that it depends on.
pub proof fn lemma_plan_respects_dependencies(s: SystemId, d: SystemId)
    requires
        depends_on(s, d),
    ensures
        runs_before(d, s),
{
}

} // verus!
