//! Atomic species and the dipole-transition data attached to them.

use vstd::prelude::*;

verus! {

/// The closed set of atomic species that a simulation can hold.
#[derive(Clone, Copy, Debug, PartialEq, Eq, Structural)]
pub enum Kind {
    Rubidium,
    Strontium,
    StrontiumRed,
    Erbium,
    Erbium401,
}

/// The off-resonant polarizability data sets that dipole trapping can use.
#[derive(Clone, Copy, Debug, PartialEq, Eq, Structural)]
pub enum DipoleTransitionKind {
    Rubidium,
    Strontium,
    Erbium,
    Erbium401,
}

/// The dipole-transition data set that belongs to an atom of species `k`.
///
/// Both strontium transitions share one polarizability data set.
pub open spec fn dipole_transition_of(k: Kind) -> DipoleTransitionKind {
    match k {
        Kind::Rubidium => DipoleTransitionKind::Rubidium,
        Kind::Strontium => DipoleTransitionKind::Strontium,
        Kind::StrontiumRed => DipoleTransitionKind::Strontium,
        Kind::Erbium => DipoleTransitionKind::Erbium,
        Kind::Erbium401 => DipoleTransitionKind::Erbium401,
    }
}

/// Picks the dipole-transition data set for an atom of species `k`.
pub fn dipole_transition_for(k: Kind) -> (r: DipoleTransitionKind)
    ensures
        r == dipole_transition_of(k),
{
    match k {
        Kind::Rubidium => DipoleTransitionKind::Rubidium,
        Kind::Strontium => DipoleTransitionKind::Strontium,
        Kind::StrontiumRed => DipoleTransitionKind::Strontium,
        Kind::Erbium => DipoleTransitionKind::Erbium,
        Kind::Erbium401 => DipoleTransitionKind::Erbium401,
    }
}

} // verus!
