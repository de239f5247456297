//! Creation of atoms from a central source.
//!
//! The source draws a batch of spawn samples each step; a sample whose speed
//! exceeds the velocity cap is discarded, and every other one becomes a new
//! atom at the end of the step.

use vstd::prelude::*;
use crate::atom::Kind;
use crate::commands::{Command, CommandBuffer};
use crate::population::{
    apply_all, creations, destroyed, flushed, survivors, EntityRecord, Population,
};

verus! {

/// The preferred direction of emission at a point of the source.
#[derive(Clone, Copy, Debug, PartialEq, Eq, Structural)]
pub enum SpatialVectorDistribution {
    /// No preferred direction anywhere.
    Uniform {},
}

/// The distribution of emission directions around the preferred one.
#[derive(Clone, Copy, Debug, PartialEq, Eq, Structural)]
pub enum VectorDensityDistribution {
    /// All directions equally probable.
    Uniform {},
}

/// One draw from an atom source: the species of the atom, and whether its
/// initial speed exceeds the velocity cap.
#[derive(Clone, Copy, Debug, PartialEq, Eq, Structural)]
pub struct SpawnSample {
    pub kind: Kind,
    pub exceeds_cap: bool,
}

/// The creation commands for the first `n` samples: one for each sample
/// within the cap, naming that sample.
pub open spec fn spawns_upto(samples: Seq<SpawnSample>, n: nat) -> Seq<Command>
    decreases n,
{
    if n == 0 {
        Seq::empty()
    } else {
        let rest = spawns_upto(samples, (n - 1) as nat);
        let i = n - 1;
        if samples[i].exceeds_cap {
            rest
        } else {
            rest.push(Command::CreateAtom { kind: samples[i].kind, sample: i as usize })
        }
    }
}

/// The creation commands for a batch of samples.
pub open spec fn spawns(samples: Seq<SpawnSample>) -> Seq<Command> {
    spawns_upto(samples, samples.len())
}

/// The number of samples among the first `n` that are within the cap.
pub open spec fn within_cap_upto(samples: Seq<SpawnSample>, n: nat) -> nat
    decreases n,
{
    if n == 0 {
        0
    } else {
        within_cap_upto(samples, (n - 1) as nat) + if samples[n - 1].exceeds_cap { 0nat } else { 1nat }
    }
}

/// The number of samples of a batch that are within the cap.
pub open spec fn within_cap(samples: Seq<SpawnSample>) -> nat {
    within_cap_upto(samples, samples.len())
}

/// Creates atoms from the samples drawn by central sources.
pub struct CentralCreatorCreateAtomsSystem;

impl CentralCreatorCreateAtomsSystem {
    /// Queues one new atom for each sample within the velocity cap, in
    /// sample order.
    pub fn run(&mut self, samples: &Vec<SpawnSample>, buf: &mut CommandBuffer)
        ensures
            final(buf)@ == old(buf)@ + spawns(samples@),
    {
        let n = samples.len();
        let mut i: usize = 0;
        while i < n
            invariant
                n == samples@.len(),
                0 <= i <= n,
                buf@ == old(buf)@ + spawns_upto(samples@, i as nat),
            decreases n - i,
        {
            let s = samples[i];
            if !s.exceeds_cap {
                buf.create_atom(s.kind, i);
            }
            assert(buf@ =~= old(buf)@ + spawns_upto(samples@, (i + 1) as nat));
            i = i + 1;
        }
    }
}

/// The commands for the first `n` samples only create atoms, one for each
/// sample within the cap.
proof fn lemma_spawns_upto(samples: Seq<SpawnSample>, n: nat)
    requires
        n <= samples.len(),
    ensures
        forall|j: int| 0 <= j < spawns_upto(samples, n).len() ==> (#[trigger] spawns_upto(samples, n)[j]) is CreateAtom,
        creations(spawns_upto(samples, n)).len() == within_cap_upto(samples, n),
        spawns_upto(samples, n).len() == within_cap_upto(samples, n),
    decreases n,
{
    if n > 0 {
        let rest = spawns_upto(samples, (n - 1) as nat);
        lemma_spawns_upto(samples, (n - 1) as nat);
        let i = n - 1;
        if !samples[i].exceeds_cap {
            let c = Command::CreateAtom { kind: samples[i].kind, sample: i as usize };
            assert(rest.push(c).drop_last() =~= rest);
        }
    }
}

/// Commands that only create atoms leave each existing record as it is.
proof fn lemma_apply_all_creations_only(r: EntityRecord, cmds: Seq<Command>)
    requires
        forall|j: int| 0 <= j < cmds.len() ==> (#[trigger] cmds[j]) is CreateAtom,
    ensures
        apply_all(r, cmds) == r,
    decreases cmds.len(),
{
    if cmds.len() > 0 {
        let init = cmds.drop_last();
        assert forall|j: int| 0 <= j < init.len() implies (#[trigger] init[j]) is CreateAtom by {
            assert(init[j] == cmds[j]);
        }
        lemma_apply_all_creations_only(r, init);
        assert(cmds[cmds.len() - 1] is CreateAtom);
    }
}

/// Commands that only create atoms keep every existing record.
proof fn lemma_survivors_creations_only(recs: Seq<EntityRecord>, cmds: Seq<Command>)
    requires
        forall|j: int| 0 <= j < cmds.len() ==> (#[trigger] cmds[j]) is CreateAtom,
    ensures
        survivors(recs, cmds) == recs,
    decreases recs.len(),
{
    if recs.len() > 0 {
        lemma_survivors_creations_only(recs.drop_last(), cmds);
        lemma_apply_all_creations_only(recs.last(), cmds);
        if destroyed(recs.last().entity, cmds) {
            let j = choose|j: int| 0 <= j < cmds.len() && cmds[j] == Command::Destroy(recs.last().entity);
            assert(cmds[j] is CreateAtom);
        }
        assert(recs.drop_last().push(recs.last()) =~= recs);
    }
}

/// A sample whose speed exceeds the velocity cap never becomes an atom:
/// flushing the creator's commands for a batch grows the population by the
/// number of samples within the cap, and leaves it unchanged when every
/// sample exceeds the cap.
pub proof fn lemma_capped_samples_never_created(p: Population, samples: Seq<SpawnSample>)
    requires
        p.wf(),
    ensures
        flushed(p@, p.next_id as nat, spawns(samples)).len() == p@.len() + within_cap(samples),
        (forall|i: int| 0 <= i < samples.len() ==> (#[trigger] samples[i]).exceeds_cap)
            ==> flushed(p@, p.next_id as nat, spawns(samples)) == p@,
{
    let cmds = spawns(samples);
    lemma_spawns_upto(samples, samples.len());
    lemma_survivors_creations_only(p@, cmds);
    if forall|i: int| 0 <= i < samples.len() ==> (#[trigger] samples[i]).exceeds_cap {
        lemma_none_within_cap(samples, samples.len());
        assert(flushed(p@, p.next_id as nat, cmds) =~= p@);
    }
}

/// When no sample is within the cap, the count of those within it is zero.
proof fn lemma_none_within_cap(samples: Seq<SpawnSample>, n: nat)
    requires
        n <= samples.len(),
        forall|i: int| 0 <= i < samples.len() ==> (#[trigger] samples[i]).exceeds_cap,
    ensures
        within_cap_upto(samples, n) == 0,
    decreases n,
{
    if n > 0 {
        lemma_none_within_cap(samples, (n - 1) as nat);
        assert(samples[n - 1].exceeds_cap);
    }
}

} // verus!
