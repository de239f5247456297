use atomecs::atom::{DipoleTransitionKind, Kind};
use atomecs::commands::{Attachment, Command, CommandBuffer};
use atomecs::creator::{CentralCreatorCreateAtomsSystem, SpawnSample};
use atomecs::entity::Entity;
use atomecs::lifecycle::{DeflagNewAtomsSystem, DeleteToBeDestroyedEntitiesSystem};
use atomecs::population::{EntityRecord, Population};

fn plain_atom(kind: Kind) -> EntityRecord {
    EntityRecord {
        entity: Entity::new(0),
        atom: Some(kind),
        newly_created: false,
        to_be_destroyed: false,
        dark: false,
        cooling_light: false,
        dipole_light: false,
        cooling_index: None,
        dipole_transition: None,
        gradient_samplers: false,
        csv_clearer: false,
    }
}

fn sample(kind: Kind, exceeds_cap: bool) -> SpawnSample {
    SpawnSample { kind, exceeds_cap }
}

/// Runs the lifecycle part of one step: deflag first, then `extra`, then
/// deletion, then the flush.
fn step(pop: &mut Population, extra: Vec<Command>) {
    let mut buf = CommandBuffer::new();
    DeflagNewAtomsSystem.run(pop, &mut buf);
    for c in extra {
        buf.push(c);
    }
    DeleteToBeDestroyedEntitiesSystem.run(pop, &mut buf);
    pop.flush(buf);
}

#[test]
fn build_assigns_increasing_identifiers() {
    let mut pop = Population::new();
    let a = pop.build(plain_atom(Kind::Rubidium));
    let b = pop.build(plain_atom(Kind::Strontium));
    assert_eq!(a, Entity::new(0));
    assert_eq!(b, Entity::new(1));
    assert_eq!(pop.next_id, 2);
    assert_eq!(pop.len(), 2);
    assert_eq!(pop.get(b).unwrap().atom, Some(Kind::Strontium));
    assert!(pop.get(Entity::new(5)).is_none());
}

#[test]
fn flush_creates_atoms_in_queue_order() {
    let mut pop = Population::new();
    pop.build(plain_atom(Kind::Erbium));
    let mut buf = CommandBuffer::new();
    buf.create_atom(Kind::Rubidium, 4);
    buf.create_atom(Kind::StrontiumRed, 9);
    assert_eq!(buf.len(), 2);
    pop.flush(buf);
    assert_eq!(pop.len(), 3);
    assert_eq!(pop.next_id, 3);
    let r1 = pop.records[1];
    let r2 = pop.records[2];
    assert_eq!(r1.entity, Entity::new(1));
    assert_eq!(r1.atom, Some(Kind::Rubidium));
    assert!(r1.newly_created);
    assert_eq!(r2.entity, Entity::new(2));
    assert_eq!(r2.atom, Some(Kind::StrontiumRed));
    assert!(r2.newly_created && !r2.to_be_destroyed && !r2.dark);
}

#[test]
fn flush_applies_inserts_and_destroys() {
    let mut pop = Population::new();
    let a = pop.build(plain_atom(Kind::Rubidium));
    let b = pop.build(plain_atom(Kind::Rubidium));
    let c = pop.build(plain_atom(Kind::Rubidium));
    let mut buf = CommandBuffer::new();
    buf.insert(a, Attachment::Dark);
    buf.destroy(b);
    buf.insert(b, Attachment::Dark);
    buf.insert(c, Attachment::ToBeDestroyed);
    pop.flush(buf);
    assert_eq!(pop.len(), 2);
    assert!(pop.get(a).unwrap().dark);
    assert!(pop.get(b).is_none());
    assert!(pop.get(c).unwrap().to_be_destroyed);
    assert!(!pop.get(c).unwrap().dark);
}

#[test]
fn newly_created_lasts_exactly_one_step() {
    let mut pop = Population::new();
    step(&mut pop, vec![Command::CreateAtom { kind: Kind::Rubidium, sample: 0 }]);
    assert_eq!(pop.len(), 1);
    let atom = pop.records[0].entity;
    assert!(pop.get(atom).unwrap().newly_created);
    step(&mut pop, vec![]);
    assert!(!pop.get(atom).unwrap().newly_created);
    step(&mut pop, vec![]);
    assert!(!pop.get(atom).unwrap().newly_created);
    assert_eq!(pop.len(), 1);
}

#[test]
fn to_be_destroyed_entities_are_gone_after_next_flush() {
    let mut pop = Population::new();
    let a = pop.build(plain_atom(Kind::Rubidium));
    let b = pop.build(plain_atom(Kind::Rubidium));
    step(&mut pop, vec![Command::Insert(a, Attachment::ToBeDestroyed)]);
    assert!(pop.get(a).unwrap().to_be_destroyed);
    step(&mut pop, vec![]);
    assert!(pop.get(a).is_none());
    assert!(pop.get(b).is_some());
    assert_eq!(pop.len(), 1);
}

#[test]
fn deflag_and_delete_queue_the_marked_entities() {
    let mut pop = Population::new();
    let a = pop.build(EntityRecord { newly_created: true, ..plain_atom(Kind::Erbium) });
    let b = pop.build(EntityRecord { to_be_destroyed: true, ..plain_atom(Kind::Erbium) });
    let mut buf = CommandBuffer::new();
    DeflagNewAtomsSystem.run(&pop, &mut buf);
    DeleteToBeDestroyedEntitiesSystem.run(&pop, &mut buf);
    assert_eq!(buf.commands, vec![Command::RemoveNewlyCreated(a), Command::Destroy(b)]);
}

#[test]
fn samples_over_the_velocity_cap_are_never_created() {
    let mut pop = Population::new();
    pop.build(plain_atom(Kind::Rubidium));
    let samples = vec![
        sample(Kind::Strontium, true),
        sample(Kind::Strontium, false),
        sample(Kind::Strontium, true),
        sample(Kind::Strontium, false),
    ];
    let mut buf = CommandBuffer::new();
    CentralCreatorCreateAtomsSystem.run(&samples, &mut buf);
    assert_eq!(
        buf.commands,
        vec![
            Command::CreateAtom { kind: Kind::Strontium, sample: 1 },
            Command::CreateAtom { kind: Kind::Strontium, sample: 3 },
        ]
    );
    pop.flush(buf);
    assert_eq!(pop.len(), 3);
}

#[test]
fn all_samples_over_the_cap_leave_population_unchanged() {
    let mut pop = Population::new();
    pop.build(plain_atom(Kind::Rubidium));
    let before = pop.records.clone();
    let samples = vec![sample(Kind::Rubidium, true); 1000];
    let mut buf = CommandBuffer::new();
    CentralCreatorCreateAtomsSystem.run(&samples, &mut buf);
    assert_eq!(buf.len(), 0);
    pop.flush(buf);
    assert_eq!(pop.records, before);
    assert_eq!(pop.next_id, 1);
}

#[test]
fn later_insert_of_the_same_component_wins() {
    let mut pop = Population::new();
    let a = pop.build(plain_atom(Kind::Strontium));
    let mut buf = CommandBuffer::new();
    buf.insert(a, Attachment::DipoleTransition(DipoleTransitionKind::Erbium));
    buf.insert(a, Attachment::DipoleTransition(DipoleTransitionKind::Strontium));
    buf.push(Command::RemoveNewlyCreated(a));
    pop.flush(buf);
    let r = pop.get(a).unwrap();
    assert_eq!(r.dipole_transition, Some(DipoleTransitionKind::Strontium));
    assert!(!r.newly_created);
}
