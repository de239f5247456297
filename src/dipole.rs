//! Systems that switch a simulation from magneto-optical trapping to dipole
//! trapping.

use vstd::prelude::*;
use crate::atom::{dipole_transition_for, dipole_transition_of};
use crate::commands::{Attachment, Command, CommandBuffer};
use crate::lifecycle::{collect, lemma_collect_step};
use crate::population::{EntityRecord, Population};

verus! {

/// The command that removes a cooling beam that is not also a dipole beam.
pub open spec fn mot_beam_removal_of(r: EntityRecord) -> Option<Command> {
    if r.cooling_light && !r.dipole_light {
        Some(Command::Insert(r.entity, Attachment::ToBeDestroyed))
    } else {
        None
    }
}

/// The command that gives an atom without dipole-transition data the data
/// set of its species.
pub open spec fn dipole_transition_attachment_of(r: EntityRecord) -> Option<Command> {
    match r.atom {
        Some(k) => if r.dipole_transition is None {
            Some(Command::Insert(r.entity, Attachment::DipoleTransition(dipole_transition_of(k))))
        } else {
            None
        },
        None => None,
    }
}

/// The command that gives a newly created entity intensity-gradient samplers.
pub open spec fn gradient_samplers_attachment_of(r: EntityRecord) -> Option<Command> {
    if r.newly_created {
        Some(Command::Insert(r.entity, Attachment::IntensityGradientSamplers))
    } else {
        None
    }
}

/// Removes the cooling beams of the magneto-optical trap, keeping beams that
/// also act as dipole beams.
pub struct DisableMOTBeamsSystem;

impl DisableMOTBeamsSystem {
    /// Marks for destruction each cooling beam of `pop` that is not a dipole beam.
    pub fn run(&mut self, pop: &Population, buf: &mut CommandBuffer)
        ensures
            final(buf)@ == old(buf)@ + collect(pop@, |r: EntityRecord| mot_beam_removal_of(r)),
    {
        let ghost f = |r: EntityRecord| mot_beam_removal_of(r);
        let n = pop.records.len();
        let mut i: usize = 0;
        while i < n
            invariant
                n == pop@.len(),
                0 <= i <= n,
                f == (|r: EntityRecord| mot_beam_removal_of(r)),
                buf@ == old(buf)@ + collect(pop@.take(i as int), f),
            decreases n - i,
        {
            let r = pop.records[i];
            proof {
                lemma_collect_step(pop@, f, i as int);
            }
            if r.cooling_light && !r.dipole_light {
                buf.push(Command::Insert(r.entity, Attachment::ToBeDestroyed));
            }
            assert(buf@ =~= old(buf)@ + collect(pop@.take(i + 1), f));
            i = i + 1;
        }
        assert(pop@.take(n as int) =~= pop@);
    }
}

/// Attaches dipole-transition data to atoms that have none.
pub struct AttachAtomicDipoleTransitionToAtomsSystem;

impl AttachAtomicDipoleTransitionToAtomsSystem {
    /// Queues the data set of its species for each atom of `pop` without one.
    pub fn run(&mut self, pop: &Population, buf: &mut CommandBuffer)
        ensures
            final(buf)@ == old(buf)@ + collect(pop@, |r: EntityRecord| dipole_transition_attachment_of(r)),
    {
        let ghost f = |r: EntityRecord| dipole_transition_attachment_of(r);
        let n = pop.records.len();
        let mut i: usize = 0;
        while i < n
            invariant
                n == pop@.len(),
                0 <= i <= n,
                f == (|r: EntityRecord| dipole_transition_attachment_of(r)),
                buf@ == old(buf)@ + collect(pop@.take(i as int), f),
            decreases n - i,
        {
            let r = pop.records[i];
            proof {
                lemma_collect_step(pop@, f, i as int);
            }
            if r.atom.is_some() && r.dipole_transition.is_none() {
                buf.push(Command::Insert(r.entity, Attachment::DipoleTransition(dipole_transition_for(r.atom.unwrap()))));
            }
            assert(buf@ =~= old(buf)@ + collect(pop@.take(i + 1), f));
            i = i + 1;
        }
        assert(pop@.take(n as int) =~= pop@);
    }
}

/// Attaches intensity-gradient samplers to newly created atoms.
pub struct AttachDipoleComponentsToNewlyCreatedAtomsSystem;

impl AttachDipoleComponentsToNewlyCreatedAtomsSystem {
    /// Queues gradient samplers for each newly created entity of `pop`.
    pub fn run(&mut self, pop: &Population, buf: &mut CommandBuffer)
        ensures
            final(buf)@ == old(buf)@ + collect(pop@, |r: EntityRecord| gradient_samplers_attachment_of(r)),
    {
        let ghost f = |r: EntityRecord| gradient_samplers_attachment_of(r);
        let n = pop.records.len();
        let mut i: usize = 0;
        while i < n
            invariant
                n == pop@.len(),
                0 <= i <= n,
                f == (|r: EntityRecord| gradient_samplers_attachment_of(r)),
                buf@ == old(buf)@ + collect(pop@.take(i as int), f),
            decreases n - i,
        {
            let r = pop.records[i];
            proof {
                lemma_collect_step(pop@, f, i as int);
            }
            if r.newly_created {
                buf.push(Command::Insert(r.entity, Attachment::IntensityGradientSamplers));
            }
            assert(buf@ =~= old(buf)@ + collect(pop@.take(i + 1), f));
            i = i + 1;
        }
        assert(pop@.take(n as int) =~= pop@);
    }
}

} // verus!
