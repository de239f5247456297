//! Slot indices of beam entities.
//!
//! Each atom holds fixed-capacity per-beam sample arrays; a beam's index is
//! the slot that it fills in those arrays.

use vstd::prelude::*;
use crate::commands::{Attachment, Command, CommandBuffer};
use crate::lifecycle::{collect, lemma_collect_step};
use crate::population::{EntityRecord, Population};

verus! {

/// The most cooling beams that a simulation can hold.
pub const COOLING_BEAM_LIMIT: usize = 16;

/// The most dipole beams that a simulation can hold.
pub const DIPOLE_BEAM_LIMIT: usize = 16;

/// The slot of a cooling beam in each atom's per-beam arrays.
///
/// A fresh index is not initiated; the index pass sets it.
#[derive(Clone, Copy, Debug, PartialEq, Eq, Structural)]
pub struct CoolingLightIndex {
    pub index: usize,
    pub initiated: bool,
}

impl Default for CoolingLightIndex {
    fn default() -> (r: CoolingLightIndex)
        ensures
            r == fresh_cooling_index(),
    {
        CoolingLightIndex { index: 0, initiated: false }
    }
}

/// The index that a cooling beam receives before the index pass.
pub open spec fn fresh_cooling_index() -> CoolingLightIndex {
    CoolingLightIndex { index: 0, initiated: false }
}

/// The slot of a dipole beam in each atom's per-beam arrays.
#[derive(Clone, Copy, Debug, PartialEq, Eq, Structural)]
pub struct DipoleLightIndex {
    pub index: usize,
    pub initiated: bool,
}

impl Default for DipoleLightIndex {
    fn default() -> (r: DipoleLightIndex)
        ensures
            r.index == 0,
            !r.initiated,
    {
        DipoleLightIndex { index: 0, initiated: false }
    }
}

/// Whether some index in `s` has not been initiated yet.
pub open spec fn needs_indexing(s: Seq<CoolingLightIndex>) -> bool {
    exists|i: int| 0 <= i < s.len() && !(#[trigger] s[i]).initiated
}

/// The indices after one pass: when any index is uninitiated, every beam is
/// renumbered in iteration order; otherwise nothing changes.
pub open spec fn reindexed(s: Seq<CoolingLightIndex>) -> Seq<CoolingLightIndex> {
    if needs_indexing(s) {
        Seq::new(s.len(), |i: int| CoolingLightIndex { index: i as usize, initiated: true })
    } else {
        s
    }
}

/// Assigns unique slot indices to cooling beams.
pub struct IndexCoolingLightsSystem;

impl IndexCoolingLightsSystem {
    /// Runs one index pass over the indices of all cooling beams, given in
    /// iteration order. More beams than the per-atom arrays can hold is a
    /// configuration error that callers rule out beforehand.
    pub fn run(&mut self, indices: &mut Vec<CoolingLightIndex>)
        requires
            old(indices)@.len() <= COOLING_BEAM_LIMIT,
        ensures
            final(indices)@ == reindexed(old(indices)@),
    {
        let n = indices.len();
        let mut need_to_assign = false;
        let mut i: usize = 0;
        while i < n
            invariant
                n == indices@.len(),
                0 <= i <= n,
                need_to_assign <==> exists|j: int| 0 <= j < i && !(#[trigger] indices@[j]).initiated,
            decreases n - i,
        {
            if !indices[i].initiated {
                need_to_assign = true;
            }
            i = i + 1;
        }
        if need_to_assign {
            let ghost before = indices@;
            let mut k: usize = 0;
            while k < n
                invariant
                    n == indices@.len(),
                    0 <= k <= n,
                    forall|j: int| 0 <= j < k ==> #[trigger] indices@[j] == (CoolingLightIndex { index: j as usize, initiated: true }),
                decreases n - k,
            {
                indices.set(k, CoolingLightIndex { index: k, initiated: true });
                k = k + 1;
            }
            assert(indices@ =~= reindexed(before));
        }
    }
}

/// The command that gives a cooling beam without an index a fresh one.
pub open spec fn index_attachment_of(r: EntityRecord) -> Option<Command> {
    if r.cooling_light && r.cooling_index is None {
        Some(Command::Insert(r.entity, Attachment::CoolingLightIndex))
    } else {
        None
    }
}

/// Attaches a fresh `CoolingLightIndex` to cooling beams that have none.
pub struct AttachIndexToCoolingLightSystem;

impl AttachIndexToCoolingLightSystem {
    /// Queues a fresh index for each cooling beam of `pop` that has none.
    pub fn run(&mut self, pop: &Population, buf: &mut CommandBuffer)
        ensures
            final(buf)@ == old(buf)@ + collect(pop@, |r: EntityRecord| index_attachment_of(r)),
    {
        let ghost f = |r: EntityRecord| index_attachment_of(r);
        let n = pop.records.len();
        let mut i: usize = 0;
        while i < n
            invariant
                n == pop@.len(),
                0 <= i <= n,
                f == (|r: EntityRecord| index_attachment_of(r)),
                buf@ == old(buf)@ + collect(pop@.take(i as int), f),
            decreases n - i,
        {
            let r = pop.records[i];
            proof {
                lemma_collect_step(pop@, f, i as int);
            }
            if r.cooling_light && r.cooling_index.is_none() {
                buf.push(Command::Insert(r.entity, Attachment::CoolingLightIndex));
            }
            assert(buf@ =~= old(buf)@ + collect(pop@.take(i + 1), f));
            i = i + 1;
        }
        assert(pop@.take(n as int) =~= pop@);
    }
}

/// Whether some dipole-beam index in `s` has not been initiated yet.
pub open spec fn dipole_needs_indexing(s: Seq<DipoleLightIndex>) -> bool {
    exists|i: int| 0 <= i < s.len() && !(#[trigger] s[i]).initiated
}

/// The dipole-beam indices after one pass, renumbered in iteration order
/// when any of them is uninitiated.
pub open spec fn dipole_reindexed(s: Seq<DipoleLightIndex>) -> Seq<DipoleLightIndex> {
    if dipole_needs_indexing(s) {
        Seq::new(s.len(), |i: int| DipoleLightIndex { index: i as usize, initiated: true })
    } else {
        s
    }
}

/// Assigns unique slot indices to dipole beams.
pub struct IndexDipoleLightsSystem;

impl IndexDipoleLightsSystem {
    /// Runs one index pass over the indices of all dipole beams, given in
    /// iteration order. More beams than the per-atom arrays can hold is a
    /// configuration error that callers rule out beforehand.
    pub fn run(&mut self, indices: &mut Vec<DipoleLightIndex>)
        requires
            old(indices)@.len() <= DIPOLE_BEAM_LIMIT,
        ensures
            final(indices)@ == dipole_reindexed(old(indices)@),
    {
        let n = indices.len();
        let mut need_to_assign = false;
        let mut i: usize = 0;
        while i < n
            invariant
                n == indices@.len(),
                0 <= i <= n,
                need_to_assign <==> exists|j: int| 0 <= j < i && !(#[trigger] indices@[j]).initiated,
            decreases n - i,
        {
            if !indices[i].initiated {
                need_to_assign = true;
            }
            i = i + 1;
        }
        if need_to_assign {
            let ghost before = indices@;
            let mut k: usize = 0;
            while k < n
                invariant
                    n == indices@.len(),
                    0 <= k <= n,
                    forall|j: int| 0 <= j < k ==> #[trigger] indices@[j] == (DipoleLightIndex { index: j as usize, initiated: true }),
                decreases n - k,
            {
                indices.set(k, DipoleLightIndex { index: k, initiated: true });
                k = k + 1;
            }
            assert(indices@ =~= dipole_reindexed(before));
        }
    }
}

/// Whether the indices in `s` map the beams one-to-one onto `0..s.len()`.
pub open spec fn is_slot_bijection(s: Seq<CoolingLightIndex>) -> bool {
    &&& forall|i: int| 0 <= i < s.len() ==> (#[trigger] s[i]).index < s.len()
    &&& forall|i: int, j: int| 0 <= i < j < s.len() ==> (#[trigger] s[i]).index != (#[trigger] s[j]).index
    &&& forall|k: int| 0 <= k < s.len() ==> #[trigger] has_slot(s, k)
}

/// Whether some beam in `s` has slot index `k`.
pub open spec fn has_slot(s: Seq<CoolingLightIndex>, k: int) -> bool {
    exists|i: int| 0 <= i < s.len() && (#[trigger] s[i]).index == k
}

/// One index pass over beams of which some are not yet indexed leaves every
/// beam initiated, with indices that map the beams one-to-one onto
/// `0..N`; and a pass over indices that a pass produced changes nothing.
pub proof fn lemma_index_pass(s: Seq<CoolingLightIndex>)
    requires
        s.len() <= usize::MAX,
    ensures
        needs_indexing(s) ==> is_slot_bijection(reindexed(s)),
        needs_indexing(s) ==> forall|i: int| 0 <= i < s.len() ==> (#[trigger] reindexed(s)[i]).initiated,
        reindexed(reindexed(s)) == reindexed(s),
{
    let t = reindexed(s);
    if needs_indexing(s) {
        assert forall|k: int| 0 <= k < t.len() implies #[trigger] has_slot(t, k) by {
            assert(t[k].index == k);
        }
        if needs_indexing(t) {
            let i = choose|i: int| 0 <= i < t.len() && !(#[trigger] t[i]).initiated;
            assert(t[i].initiated);
        }
    }
}

} // verus!
