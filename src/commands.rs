//! The deferred command buffer: changes to the population that systems
//! request during a step and that are applied together when the step ends.

use vstd::prelude::*;
use crate::atom::{DipoleTransitionKind, Kind};
use crate::entity::Entity;

verus! {

/// A component that a command can attach to an existing entity.
#[derive(Clone, Copy, Debug, PartialEq, Eq, Structural)]
pub enum Attachment {
    /// Marks the entity for removal at the end of the next step.
    ToBeDestroyed,
    /// Marks an atom as dark: it no longer scatters light.
    Dark,
    /// A fresh, not yet initiated cooling-light index.
    CoolingLightIndex,
    /// The dipole-transition data set of an atom.
    DipoleTransition(DipoleTransitionKind),
    /// The per-beam intensity-gradient samplers used by the dipole force.
    IntensityGradientSamplers,
}

/// One deferred change to the population.
#[derive(Clone, Copy, Debug, PartialEq, Eq, Structural)]
pub enum Command {
    /// Creates a new atom of species `kind`, tagged as newly created.
    /// `sample` names the spawn sample that gives its initial state.
    CreateAtom { kind: Kind, sample: usize },
    /// Attaches a component to an entity, replacing one of the same type.
    Insert(Entity, Attachment),
    /// Removes the newly-created marker from an entity.
    RemoveNewlyCreated(Entity),
    /// Removes an entity and all its components.
    Destroy(Entity),
}

/// Commands queued during one step, in the order they were issued.
pub struct CommandBuffer {
    pub commands: Vec<Command>,
}

impl View for CommandBuffer {
    type V = Seq<Command>;

    open spec fn view(&self) -> Seq<Command> {
        self.commands@
    }
}

impl CommandBuffer {
    /// An empty buffer.
    pub fn new() -> (r: CommandBuffer)
        ensures
            r@ == Seq::<Command>::empty(),
    {
        CommandBuffer { commands: Vec::new() }
    }

    /// Queues a command after those already queued.
    pub fn push(&mut self, c: Command)
        ensures
            final(self)@ == old(self)@.push(c),
    {
        self.commands.push(c);
    }

    /// Queues the creation of an atom of species `kind` from spawn sample `sample`.
    pub fn create_atom(&mut self, kind: Kind, sample: usize)
        ensures
            final(self)@ == old(self)@.push(Command::CreateAtom { kind, sample }),
    {
        self.commands.push(Command::CreateAtom { kind, sample });
    }

    /// Queues the attachment of `a` to entity `e`.
    pub fn insert(&mut self, e: Entity, a: Attachment)
        ensures
            final(self)@ == old(self)@.push(Command::Insert(e, a)),
    {
        self.commands.push(Command::Insert(e, a));
    }

    /// Queues the removal of entity `e`.
    pub fn destroy(&mut self, e: Entity)
        ensures
            final(self)@ == old(self)@.push(Command::Destroy(e)),
    {
        self.commands.push(Command::Destroy(e));
    }

    /// The number of queued commands.
    pub fn len(&self) -> (r: usize)
        ensures
            r == self@.len(),
    {
        self.commands.len()
    }
}

} // verus!
