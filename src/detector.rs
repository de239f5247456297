//! Detection of atoms and removal of detector output helpers.

use vstd::prelude::*;
use crate::commands::{Attachment, Command, CommandBuffer};
use crate::lifecycle::{attach_to_flagged_atoms, collect, flagged, lemma_collect_step};
use crate::population::{EntityRecord, Population};

verus! {

/// The command that removes an output-clearing helper once it has run.
pub open spec fn clearer_removal_of(r: EntityRecord) -> Option<Command> {
    if r.csv_clearer {
        Some(Command::Insert(r.entity, Attachment::ToBeDestroyed))
    } else {
        None
    }
}

/// Removes each output-clearing helper after its file has been cleared.
pub struct ClearCSVSystem;

impl ClearCSVSystem {
    /// Marks for destruction each output-clearing helper of `pop`.
    pub fn run(&mut self, pop: &Population, buf: &mut CommandBuffer)
        ensures
            final(buf)@ == old(buf)@ + collect(pop@, |r: EntityRecord| clearer_removal_of(r)),
    {
        let ghost f = |r: EntityRecord| clearer_removal_of(r);
        let n = pop.records.len();
        let mut i: usize = 0;
        while i < n
            invariant
                n == pop@.len(),
                0 <= i <= n,
                f == (|r: EntityRecord| clearer_removal_of(r)),
                buf@ == old(buf)@ + collect(pop@.take(i as int), f),
            decreases n - i,
        {
            let r = pop.records[i];
            proof {
                lemma_collect_step(pop@, f, i as int);
            }
            if r.csv_clearer {
                buf.push(Command::Insert(r.entity, Attachment::ToBeDestroyed));
            }
            assert(buf@ =~= old(buf)@ + collect(pop@.take(i + 1), f));
            i = i + 1;
        }
        assert(pop@.take(n as int) =~= pop@);
    }
}

/// Removes atoms that a detector has captured.
pub struct DetectingAtomSystem;

impl DetectingAtomSystem {
    /// Marks for destruction each atom of `pop` whose flag in `captured` is
    /// set; `captured` holds one flag per record, in the same order.
    pub fn run(&mut self, pop: &Population, captured: &Vec<bool>, buf: &mut CommandBuffer)
        requires
            captured@.len() == pop@.len(),
        ensures
            final(buf)@ == old(buf)@ + flagged(pop@, captured@, Attachment::ToBeDestroyed),
    {
        attach_to_flagged_atoms(pop, captured, Attachment::ToBeDestroyed, buf);
    }
}

} // verus!
