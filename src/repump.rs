//! Loss of atoms into dark states.

use vstd::prelude::*;
use crate::commands::{Attachment, CommandBuffer};
use crate::lifecycle::{attach_to_flagged_atoms, flagged};
use crate::population::Population;

verus! {

/// Marks an atom that has decayed into a state that no longer scatters light.
#[derive(Clone, Copy, Debug, PartialEq, Eq, Structural)]
pub struct Dark;

/// Moves atoms into dark states when losses into them are enabled.
pub struct RepumpSystem;

impl RepumpSystem {
    /// When `loss_enabled`, marks dark each atom of `pop` whose flag in
    /// `lost` is set; otherwise queues nothing. `lost` holds one flag per
    /// record, in the same order.
    pub fn run(&mut self, loss_enabled: bool, pop: &Population, lost: &Vec<bool>, buf: &mut CommandBuffer)
        requires
            lost@.len() == pop@.len(),
        ensures
            loss_enabled ==> final(buf)@ == old(buf)@ + flagged(pop@, lost@, Attachment::Dark),
            !loss_enabled ==> final(buf)@ == old(buf)@,
    {
        if loss_enabled {
            attach_to_flagged_atoms(pop, lost, Attachment::Dark, buf);
        }
    }
}

} // verus!
