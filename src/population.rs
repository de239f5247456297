//! The population of entities and the end-of-step flush that applies the
//! deferred command buffer to it.

use vstd::prelude::*;
use crate::atom::{DipoleTransitionKind, Kind};
use crate::commands::{Attachment, Command, CommandBuffer};
use crate::entity::Entity;
use crate::index::{fresh_cooling_index, CoolingLightIndex};

verus! {

/// The lifecycle-relevant components of one entity.
#[derive(Clone, Copy, Debug, PartialEq, Eq, Structural)]
pub struct EntityRecord {
    pub entity: Entity,
    /// The species of an atom; `None` for entities that are not atoms.
    pub atom: Option<Kind>,
    pub newly_created: bool,
    pub to_be_destroyed: bool,
    pub dark: bool,
    pub cooling_light: bool,
    pub dipole_light: bool,
    pub cooling_index: Option<CoolingLightIndex>,
    pub dipole_transition: Option<DipoleTransitionKind>,
    pub gradient_samplers: bool,
    pub csv_clearer: bool,
}

/// The record of an atom of species `kind` that has just been created.
pub open spec fn new_atom_record(e: Entity, kind: Kind) -> EntityRecord {
    EntityRecord {
        entity: e,
        atom: Some(kind),
        newly_created: true,
        to_be_destroyed: false,
        dark: false,
        cooling_light: false,
        dipole_light: false,
        cooling_index: None,
        dipole_transition: None,
        gradient_samplers: false,
        csv_clearer: false,
    }
}

/// What a command does to one record.
pub open spec fn apply(r: EntityRecord, c: Command) -> EntityRecord {
    match c {
        Command::Insert(e, a) => {
            if e == r.entity {
                match a {
                    Attachment::ToBeDestroyed => EntityRecord { to_be_destroyed: true, ..r },
                    Attachment::Dark => EntityRecord { dark: true, ..r },
                    Attachment::CoolingLightIndex => EntityRecord {
                        cooling_index: Some(fresh_cooling_index()),
                        ..r
                    },
                    Attachment::DipoleTransition(k) => EntityRecord {
                        dipole_transition: Some(k),
                        ..r
                    },
                    Attachment::IntensityGradientSamplers => EntityRecord {
                        gradient_samplers: true,
                        ..r
                    },
                }
            } else {
                r
            }
        },
        Command::RemoveNewlyCreated(e) => {
            if e == r.entity {
                EntityRecord { newly_created: false, ..r }
            } else {
                r
            }
        },
        _ => r,
    }
}

/// What a sequence of commands, applied in order, does to one record.
pub open spec fn apply_all(r: EntityRecord, cmds: Seq<Command>) -> EntityRecord
    decreases cmds.len(),
{
    if cmds.len() == 0 {
        r
    } else {
        apply(apply_all(r, cmds.drop_last()), cmds.last())
    }
}

/// Whether `cmds` destroys entity `e`.
pub open spec fn destroyed(e: Entity, cmds: Seq<Command>) -> bool {
    exists|i: int| 0 <= i < cmds.len() && cmds[i] == Command::Destroy(e)
}

/// The records that outlive a flush of `cmds`, in their order, each updated.
pub open spec fn survivors(recs: Seq<EntityRecord>, cmds: Seq<Command>) -> Seq<EntityRecord>
    decreases recs.len(),
{
    if recs.len() == 0 {
        Seq::empty()
    } else {
        let rest = survivors(recs.drop_last(), cmds);
        if destroyed(recs.last().entity, cmds) {
            rest
        } else {
            rest.push(apply_all(recs.last(), cmds))
        }
    }
}

/// The species of the atoms that `cmds` creates, in order.
pub open spec fn creations(cmds: Seq<Command>) -> Seq<Kind>
    decreases cmds.len(),
{
    if cmds.len() == 0 {
        Seq::empty()
    } else {
        let rest = creations(cmds.drop_last());
        match cmds.last() {
            Command::CreateAtom { kind, sample: _ } => rest.push(kind),
            _ => rest,
        }
    }
}

/// The records of the atoms that `cmds` creates, numbered from `next`.
pub open spec fn created(cmds: Seq<Command>, next: nat) -> Seq<EntityRecord> {
    let kinds = creations(cmds);
    Seq::new(kinds.len(), |i: int| new_atom_record(Entity { id: (next + i) as u64 }, kinds[i]))
}

/// The population after flushing `cmds`: the survivors, then the new atoms.
pub open spec fn flushed(recs: Seq<EntityRecord>, next: nat, cmds: Seq<Command>) -> Seq<EntityRecord> {
    survivors(recs, cmds) + created(cmds, next)
}

/// Records in strictly increasing order of identifier, all below `next`.
pub open spec fn ids_ordered_below(recs: Seq<EntityRecord>, next: nat) -> bool {
    &&& forall|i: int, j: int| 0 <= i < j < recs.len() ==> recs[i].entity.id < recs[j].entity.id
    &&& forall|i: int| 0 <= i < recs.len() ==> (#[trigger] recs[i].entity.id) < next
}

/// Whether `recs` holds a record of entity `e`.
pub open spec fn holds(recs: Seq<EntityRecord>, e: Entity) -> bool {
    exists|i: int| 0 <= i < recs.len() && (#[trigger] recs[i]).entity == e
}

/// The entities of a simulation, with the identifier the next one receives.
pub struct Population {
    pub records: Vec<EntityRecord>,
    pub next_id: u64,
}

impl View for Population {
    type V = Seq<EntityRecord>;

    open spec fn view(&self) -> Seq<EntityRecord> {
        self.records@
    }
}

impl Population {
    /// Identifiers are unique, in creation order, and below `next_id`.
    pub open spec fn wf(&self) -> bool {
        ids_ordered_below(self@, self.next_id as nat)
    }

    /// An empty population.
    pub fn new() -> (r: Population)
        ensures
            r.wf(),
            r@ == Seq::<EntityRecord>::empty(),
            r.next_id == 0,
    {
        Population { records: Vec::new(), next_id: 0 }
    }

    /// The number of entities.
    pub fn len(&self) -> (r: usize)
        ensures
            r == self@.len(),
    {
        self.records.len()
    }

    /// Adds an entity at once, outside the step's command buffer, as a
    /// simulation's setup does; `rec` gives its components, and the entity
    /// receives the next identifier.
    pub fn build(&mut self, rec: EntityRecord) -> (e: Entity)
        requires
            old(self).wf(),
            old(self).next_id < u64::MAX,
        ensures
            final(self).wf(),
            e.id == old(self).next_id,
            final(self).next_id == old(self).next_id + 1,
            final(self)@ == old(self)@.push(EntityRecord { entity: e, ..rec }),
    {
        let e = Entity { id: self.next_id };
        self.records.push(EntityRecord { entity: e, ..rec });
        self.next_id = self.next_id + 1;
        e
    }

    /// The record of entity `e`, if the population holds it.
    pub fn get(&self, e: Entity) -> (r: Option<EntityRecord>)
        ensures
            r is Some <==> holds(self@, e),
            r matches Some(rec) ==> rec.entity == e && self@.contains(rec),
    {
        let mut i: usize = 0;
        while i < self.records.len()
            invariant
                0 <= i <= self@.len(),
                forall|j: int| 0 <= j < i ==> (#[trigger] self@[j]).entity != e,
            decreases self@.len() - i,
        {
            if self.records[i].entity == e {
                return Some(self.records[i]);
            }
            i = i + 1;
        }
        None
    }
}

/// A flush creates at most one atom per command.
pub proof fn lemma_creations_len(cmds: Seq<Command>)
    ensures
        creations(cmds).len() <= cmds.len(),
    decreases cmds.len(),
{
    if cmds.len() > 0 {
        lemma_creations_len(cmds.drop_last());
    }
}

/// Applying commands never changes which entity a record belongs to.
pub proof fn lemma_apply_all_keeps_entity(r: EntityRecord, cmds: Seq<Command>)
    ensures
        apply_all(r, cmds).entity == r.entity,
    decreases cmds.len(),
{
    if cmds.len() > 0 {
        lemma_apply_all_keeps_entity(r, cmds.drop_last());
    }
}

/// Every survivor of a flush is an updated record of the same entity, and
/// survivors keep the order of identifiers.
pub proof fn lemma_survivors_ordered(recs: Seq<EntityRecord>, cmds: Seq<Command>, next: nat)
    requires
        ids_ordered_below(recs, next),
    ensures
        ids_ordered_below(survivors(recs, cmds), next),
        forall|k: int| 0 <= k < survivors(recs, cmds).len() ==> exists|i: int| 0 <= i < recs.len()
            && #[trigger] survivors(recs, cmds)[k] == apply_all(recs[i], cmds)
            && !destroyed(recs[i].entity, cmds),
    decreases recs.len(),
{
    if recs.len() > 0 {
        let init = recs.drop_last();
        assert(ids_ordered_below(init, next));
        lemma_survivors_ordered(init, cmds, next);
        let rest = survivors(init, cmds);
        lemma_apply_all_keeps_entity(recs.last(), cmds);
        assert forall|k: int| 0 <= k < rest.len() implies (#[trigger] rest[k]).entity.id < recs.last().entity.id by {
            let i = choose|i: int| 0 <= i < init.len() && rest[k] == apply_all(init[i], cmds) && !destroyed(init[i].entity, cmds);
            lemma_apply_all_keeps_entity(init[i], cmds);
            assert(init[i] == recs[i]);
        }
        let s = survivors(recs, cmds);
        assert forall|k: int| 0 <= k < s.len() implies exists|i: int| 0 <= i < recs.len()
            && #[trigger] s[k] == apply_all(recs[i], cmds) && !destroyed(recs[i].entity, cmds) by {
            if k < rest.len() {
                let i = choose|i: int| 0 <= i < init.len() && rest[k] == apply_all(init[i], cmds) && !destroyed(init[i].entity, cmds);
                assert(init[i] == recs[i]);
            } else {
                assert(s[k] == apply_all(recs[recs.len() - 1], cmds));
            }
        }
        assert forall|k: int| 0 <= k < s.len() implies (#[trigger] s[k].entity.id) < next by {
            if k < rest.len() {
            } else {
                assert(recs[recs.len() - 1].entity.id < next);
            }
        }
    }
}

/// Applies command `c` to record `r`.
fn apply_command(r: &mut EntityRecord, c: &Command)
    ensures
        *final(r) == apply(*old(r), *c),
{
    match c {
        Command::Insert(e, a) => {
            if *e == r.entity {
                match a {
                    Attachment::ToBeDestroyed => r.to_be_destroyed = true,
                    Attachment::Dark => r.dark = true,
                    Attachment::CoolingLightIndex => r.cooling_index = Some(CoolingLightIndex::default()),
                    Attachment::DipoleTransition(k) => r.dipole_transition = Some(*k),
                    Attachment::IntensityGradientSamplers => r.gradient_samplers = true,
                }
            }
        },
        Command::RemoveNewlyCreated(e) => {
            if *e == r.entity {
                r.newly_created = false;
            }
        },
        _ => {},
    }
}

/// Whether `cmds` destroys entity `e`.
fn is_destroyed(e: Entity, cmds: &Vec<Command>) -> (r: bool)
    ensures
        r == destroyed(e, cmds@),
{
    let mut i: usize = 0;
    while i < cmds.len()
        invariant
            0 <= i <= cmds@.len(),
            forall|j: int| 0 <= j < i ==> cmds@[j] != Command::Destroy(e),
        decreases cmds@.len() - i,
    {
        if cmds[i] == Command::Destroy(e) {
            return true;
        }
        i = i + 1;
    }
    false
}

impl Population {
    /// Applies all queued commands at the end of a step: destroyed entities
    /// leave, the others take their inserted and removed components, and each
    /// queued atom is created, in queue order, with the next identifier.
    pub fn flush(&mut self, buf: CommandBuffer)
        requires
            old(self).wf(),
            old(self).next_id + buf@.len() <= u64::MAX,
        ensures
            final(self).wf(),
            final(self)@ == flushed(old(self)@, old(self).next_id as nat, buf@),
            final(self).next_id == old(self).next_id + creations(buf@).len(),
    {
        let cmds = buf.commands;
        let ghost recs = self@;
        let ghost next0 = self.next_id as nat;
        let n = self.records.len();
        let m = cmds.len();
        let mut kept: Vec<EntityRecord> = Vec::new();
        let mut i: usize = 0;
        while i < n
            invariant
                n == recs.len(),
                recs == self@,
                m == cmds@.len(),
                0 <= i <= n,
                kept@ == survivors(recs.take(i as int), cmds@),
            decreases n - i,
        {
            let mut r = self.records[i];
            assert(recs.take(i + 1).drop_last() =~= recs.take(i as int));
            if !is_destroyed(r.entity, &cmds) {
                let ghost r0 = r;
                let mut j: usize = 0;
                while j < m
                    invariant
                        m == cmds@.len(),
                        0 <= j <= m,
                        r == apply_all(r0, cmds@.take(j as int)),
                    decreases m - j,
                {
                    assert(cmds@.take(j + 1).drop_last() =~= cmds@.take(j as int));
                    apply_command(&mut r, &cmds[j]);
                    j = j + 1;
                }
                assert(cmds@.take(m as int) =~= cmds@);
                kept.push(r);
            }
            i = i + 1;
        }
        assert(recs.take(n as int) =~= recs);
        proof {
            lemma_survivors_ordered(recs, cmds@, next0);
        }
        let ghost surv = kept@;
        let mut next = self.next_id;
        let mut j: usize = 0;
        while j < m
            invariant
                m == cmds@.len(),
                0 <= j <= m,
                next0 + m <= u64::MAX,
                next == next0 + creations(cmds@.take(j as int)).len(),
                creations(cmds@.take(j as int)).len() <= j,
                kept@ == surv + created(cmds@.take(j as int), next0),
            decreases m - j,
        {
            let ghost pre = cmds@.take(j as int);
            assert(cmds@.take(j + 1).drop_last() =~= pre);
            match cmds[j] {
                Command::CreateAtom { kind, sample: _ } => {
                    let rec = EntityRecord {
                        entity: Entity { id: next },
                        atom: Some(kind),
                        newly_created: true,
                        to_be_destroyed: false,
                        dark: false,
                        cooling_light: false,
                        dipole_light: false,
                        cooling_index: None,
                        dipole_transition: None,
                        gradient_samplers: false,
                        csv_clearer: false,
                    };
                    kept.push(rec);
                    next = next + 1;
                    assert(created(cmds@.take(j + 1), next0) =~= created(pre, next0).push(rec));
                },
                _ => {
                    assert(created(cmds@.take(j + 1), next0) =~= created(pre, next0));
                },
            }
            j = j + 1;
        }
        assert(cmds@.take(m as int) =~= cmds@);
        self.records = kept;
        self.next_id = next;
        proof {
            let all = self@;
            let c = created(cmds@, next0);
            assert forall|a: int, b: int| 0 <= a < b < all.len() implies all[a].entity.id < all[b].entity.id by {
                if b >= surv.len() && a < surv.len() {
                    assert(all[a] == surv[a]);
                    assert(all[b] == c[b - surv.len()]);
                }
            }
            assert forall|a: int| 0 <= a < all.len() implies (#[trigger] all[a].entity.id) < self.next_id by {
                if a < surv.len() {
                    assert(all[a] == surv[a]);
                }
            }
        }
    }
}

} // verus!
