//! Systems that move entities through their lifecycle: the newly-created
//! marker lasts one step, and marked entities are removed at the next flush.

use vstd::prelude::*;
use crate::commands::{Attachment, Command, CommandBuffer};
use crate::population::{
    apply_all, created, destroyed, flushed, holds, lemma_apply_all_keeps_entity,
    lemma_creations_len, lemma_survivors_ordered, survivors, EntityRecord, Population,
};

verus! {

/// The commands that a system issues over `recs`, in order: `f` says which
/// command, if any, it issues for each record.
pub open spec fn collect(recs: Seq<EntityRecord>, f: spec_fn(EntityRecord) -> Option<Command>) -> Seq<Command>
    decreases recs.len(),
{
    if recs.len() == 0 {
        Seq::empty()
    } else {
        let rest = collect(recs.drop_last(), f);
        match f(recs.last()) {
            Some(c) => rest.push(c),
            None => rest,
        }
    }
}

/// Each command that `f` gives for a record is among the collected ones.
pub proof fn lemma_collect_contains(recs: Seq<EntityRecord>, f: spec_fn(EntityRecord) -> Option<Command>, i: int)
    requires
        0 <= i < recs.len(),
        f(recs[i]) is Some,
    ensures
        collect(recs, f).contains(f(recs[i]).unwrap()),
    decreases recs.len(),
{
    let rest = collect(recs.drop_last(), f);
    if i < recs.len() - 1 {
        lemma_collect_contains(recs.drop_last(), f, i);
        let j = choose|j: int| 0 <= j < rest.len() && rest[j] == f(recs[i]).unwrap();
        match f(recs.last()) {
            Some(c) => assert(rest.push(c)[j] == rest[j]),
            None => {},
        }
    } else {
        assert(rest.push(f(recs[i]).unwrap())[rest.len() as int] == f(recs[i]).unwrap());
    }
}

/// Collecting over one more record adds that record's command, if any.
pub proof fn lemma_collect_step(recs: Seq<EntityRecord>, f: spec_fn(EntityRecord) -> Option<Command>, i: int)
    requires
        0 <= i < recs.len(),
    ensures
        collect(recs.take(i + 1), f) == (match f(recs[i]) {
            Some(c) => collect(recs.take(i), f).push(c),
            None => collect(recs.take(i), f),
        }),
{
    let s = recs.take(i + 1);
    assert(s.drop_last() =~= recs.take(i));
    assert(s.last() == recs[i]);
}

/// The command that removes the newly-created marker, for records that have it.
pub open spec fn deflag_of(r: EntityRecord) -> Option<Command> {
    if r.newly_created {
        Some(Command::RemoveNewlyCreated(r.entity))
    } else {
        None
    }
}

/// The command that destroys an entity, for records marked for destruction.
pub open spec fn deletion_of(r: EntityRecord) -> Option<Command> {
    if r.to_be_destroyed {
        Some(Command::Destroy(r.entity))
    } else {
        None
    }
}

/// Removes the newly-created marker from every entity that carries it.
pub struct DeflagNewAtomsSystem;

impl DeflagNewAtomsSystem {
    /// Queues the marker's removal for each newly created entity of `pop`.
    pub fn run(&mut self, pop: &Population, buf: &mut CommandBuffer)
        ensures
            final(buf)@ == old(buf)@ + collect(pop@, |r: EntityRecord| deflag_of(r)),
    {
        let ghost f = |r: EntityRecord| deflag_of(r);
        let n = pop.records.len();
        let mut i: usize = 0;
        while i < n
            invariant
                n == pop@.len(),
                0 <= i <= n,
                f == (|r: EntityRecord| deflag_of(r)),
                buf@ == old(buf)@ + collect(pop@.take(i as int), f),
            decreases n - i,
        {
            let r = pop.records[i];
            proof {
                lemma_collect_step(pop@, f, i as int);
            }
            if r.newly_created {
                buf.push(Command::RemoveNewlyCreated(r.entity));
            }
            assert(buf@ =~= old(buf)@ + collect(pop@.take(i + 1), f));
            i = i + 1;
        }
        assert(pop@.take(n as int) =~= pop@);
    }
}

/// Removes, at the end of the step, every entity marked for destruction.
pub struct DeleteToBeDestroyedEntitiesSystem;

impl DeleteToBeDestroyedEntitiesSystem {
    /// Queues the destruction of each entity of `pop` marked for destruction.
    pub fn run(&mut self, pop: &Population, buf: &mut CommandBuffer)
        ensures
            final(buf)@ == old(buf)@ + collect(pop@, |r: EntityRecord| deletion_of(r)),
    {
        let ghost f = |r: EntityRecord| deletion_of(r);
        let n = pop.records.len();
        let mut i: usize = 0;
        while i < n
            invariant
                n == pop@.len(),
                0 <= i <= n,
                f == (|r: EntityRecord| deletion_of(r)),
                buf@ == old(buf)@ + collect(pop@.take(i as int), f),
            decreases n - i,
        {
            let r = pop.records[i];
            proof {
                lemma_collect_step(pop@, f, i as int);
            }
            if r.to_be_destroyed {
                buf.push(Command::Destroy(r.entity));
            }
            assert(buf@ =~= old(buf)@ + collect(pop@.take(i + 1), f));
            i = i + 1;
        }
        assert(pop@.take(n as int) =~= pop@);
    }
}

/// After a sequence of commands a record keeps the newly-created marker
/// exactly when it had it and no command removed it.
pub proof fn lemma_apply_all_newly_created(r: EntityRecord, cmds: Seq<Command>)
    ensures
        apply_all(r, cmds).newly_created == (r.newly_created && !cmds.contains(Command::RemoveNewlyCreated(r.entity))),
    decreases cmds.len(),
{
    if cmds.len() > 0 {
        let init = cmds.drop_last();
        lemma_apply_all_newly_created(r, init);
        lemma_apply_all_keeps_entity(r, init);
        let c = Command::RemoveNewlyCreated(r.entity);
        if init.contains(c) {
            let j = choose|j: int| 0 <= j < init.len() && init[j] == c;
            assert(cmds[j] == c);
        }
        if cmds.contains(c) && cmds.last() != c {
            let j = choose|j: int| 0 <= j < cmds.len() && cmds[j] == c;
            assert(init[j] == c);
        }
        if cmds.last() == c {
            assert(cmds[cmds.len() - 1] == c);
        }
    }
}

/// One step of the lifecycle. The step's buffer holds the deflag system's
/// commands first, then those of any other systems, then the deletion
/// system's. After its flush an entity carries the newly-created marker
/// exactly when that flush created it, and no entity that was marked for
/// destruction when the step began is left.
pub proof fn lemma_lifecycle_step(p: Population, extra: Seq<Command>)
    requires
        p.wf(),
        p.next_id + collect(p@, |r: EntityRecord| deflag_of(r)).len() + extra.len()
            + collect(p@, |r: EntityRecord| deletion_of(r)).len() <= u64::MAX,
    ensures
        ({
            let cmds = collect(p@, |r: EntityRecord| deflag_of(r)) + extra + collect(p@, |r: EntityRecord| deletion_of(r));
            let q = flushed(p@, p.next_id as nat, cmds);
            &&& forall|k: int| 0 <= k < q.len() ==> (#[trigger] q[k].newly_created <==> q[k].entity.id >= p.next_id)
            &&& forall|i: int| 0 <= i < p@.len() && (#[trigger] p@[i]).to_be_destroyed ==> !holds(q, p@[i].entity)
        }),
{
    let fd = |r: EntityRecord| deflag_of(r);
    let fx = |r: EntityRecord| deletion_of(r);
    let d = collect(p@, fd);
    let x = collect(p@, fx);
    let cmds = d + extra + x;
    let next = p.next_id as nat;
    let surv = survivors(p@, cmds);
    let q = flushed(p@, next, cmds);
    let c = created(cmds, next);
    lemma_survivors_ordered(p@, cmds, next);
    lemma_creations_len(cmds);
    assert forall|k: int| 0 <= k < q.len() implies (#[trigger] q[k].newly_created <==> q[k].entity.id >= p.next_id) by {
        if k < surv.len() {
            assert(q[k] == surv[k]);
            let i = choose|i: int| 0 <= i < p@.len() && surv[k] == apply_all(p@[i], cmds) && !destroyed(p@[i].entity, cmds);
            lemma_apply_all_newly_created(p@[i], cmds);
            lemma_apply_all_keeps_entity(p@[i], cmds);
            if p@[i].newly_created {
                lemma_collect_contains(p@, fd, i);
                let j = choose|j: int| 0 <= j < d.len() && d[j] == Command::RemoveNewlyCreated(p@[i].entity);
                assert(cmds[j] == d[j]);
                assert(cmds.contains(Command::RemoveNewlyCreated(p@[i].entity)));
            }
            assert(!q[k].newly_created);
            assert(q[k].entity.id < p.next_id);
        } else {
            assert(q[k] == c[k - surv.len()]);
            assert(q[k].newly_created);
            assert(q[k].entity.id >= p.next_id);
        }
    }
    assert forall|i: int| 0 <= i < p@.len() && (#[trigger] p@[i]).to_be_destroyed implies !holds(q, p@[i].entity) by {
        lemma_collect_contains(p@, fx, i);
        let j = choose|j: int| 0 <= j < x.len() && x[j] == Command::Destroy(p@[i].entity);
        assert(cmds[d.len() + extra.len() + j] == x[j]);
        assert(destroyed(p@[i].entity, cmds));
        if holds(q, p@[i].entity) {
            let k = choose|k: int| 0 <= k < q.len() && (#[trigger] q[k]).entity == p@[i].entity;
            if k < surv.len() {
                assert(q[k] == surv[k]);
                let i2 = choose|i2: int| 0 <= i2 < p@.len() && surv[k] == apply_all(p@[i2], cmds) && !destroyed(p@[i2].entity, cmds);
                lemma_apply_all_keeps_entity(p@[i2], cmds);
                assert(p@[i2].entity == p@[i].entity);
                if i2 < i {
                    assert(p@[i2].entity.id < p@[i].entity.id);
                } else if i < i2 {
                    assert(p@[i].entity.id < p@[i2].entity.id);
                }
            } else {
                assert(q[k] == c[k - surv.len()]);
                assert(p@[i].entity.id < p.next_id);
            }
        }
    }
}

/// The commands that attach `a` to the atoms among the first `n` records
/// whose flag is set, in order.
pub open spec fn flagged_upto(recs: Seq<EntityRecord>, flags: Seq<bool>, a: Attachment, n: nat) -> Seq<Command>
    decreases n,
{
    if n == 0 {
        Seq::empty()
    } else {
        let rest = flagged_upto(recs, flags, a, (n - 1) as nat);
        let i = n - 1;
        if flags[i] && recs[i].atom is Some {
            rest.push(Command::Insert(recs[i].entity, a))
        } else {
            rest
        }
    }
}

/// The commands that attach `a` to every atom of `recs` whose flag is set.
pub open spec fn flagged(recs: Seq<EntityRecord>, flags: Seq<bool>, a: Attachment) -> Seq<Command> {
    flagged_upto(recs, flags, a, recs.len())
}

/// Queues the attachment of `a` to each atom of `pop` whose flag is set.
pub(crate) fn attach_to_flagged_atoms(pop: &Population, flags: &Vec<bool>, a: Attachment, buf: &mut CommandBuffer)
    requires
        flags@.len() == pop@.len(),
    ensures
        final(buf)@ == old(buf)@ + flagged(pop@, flags@, a),
{
    let n = pop.records.len();
    let mut i: usize = 0;
    while i < n
        invariant
            n == pop@.len(),
            flags@.len() == n,
            0 <= i <= n,
            buf@ == old(buf)@ + flagged_upto(pop@, flags@, a, i as nat),
        decreases n - i,
    {
        let r = pop.records[i];
        if flags[i] && r.atom.is_some() {
            buf.push(Command::Insert(r.entity, a));
        }
        assert(buf@ =~= old(buf)@ + flagged_upto(pop@, flags@, a, (i + 1) as nat));
        i = i + 1;
    }
}

/// Removes atoms that have left the simulation volume.
pub struct DestroyOutOfBoundAtomsSystem;

impl DestroyOutOfBoundAtomsSystem {
    /// Marks for destruction each atom of `pop` whose flag in `outside` is
    /// set; `outside` holds one flag per record, in the same order.
    pub fn run(&mut self, pop: &Population, outside: &Vec<bool>, buf: &mut CommandBuffer)
        requires
            outside@.len() == pop@.len(),
        ensures
            final(buf)@ == old(buf)@ + flagged(pop@, outside@, Attachment::ToBeDestroyed),
    {
        attach_to_flagged_atoms(pop, outside, Attachment::ToBeDestroyed, buf);
    }
}

} // verus!
