use atomecs::index::{
    AttachIndexToCoolingLightSystem, CoolingLightIndex, DipoleLightIndex, IndexCoolingLightsSystem,
    IndexDipoleLightsSystem,
};
use atomecs::commands::{Attachment, Command, CommandBuffer};
use atomecs::entity::Entity;
use atomecs::population::{EntityRecord, Population};

fn blank() -> EntityRecord {
    EntityRecord {
        entity: Entity::new(0),
        atom: None,
        newly_created: false,
        to_be_destroyed: false,
        dark: false,
        cooling_light: false,
        dipole_light: false,
        cooling_index: None,
        dipole_transition: None,
        gradient_samplers: false,
        csv_clearer: false,
    }
}

fn cooling_beam(index: Option<CoolingLightIndex>) -> EntityRecord {
    EntityRecord { cooling_light: true, cooling_index: index, ..blank() }
}

#[test]
fn test_index_cooling_lights() {
    let mut indices = vec![CoolingLightIndex::default(), CoolingLightIndex::default()];
    let mut system = IndexCoolingLightsSystem;
    system.run(&mut indices);
    assert_ne!(indices[0].index, indices[1].index);
}

#[test]
fn test_add_index_component_to_cooling_lights() {
    let mut pop = Population::new();
    let beam = pop.build(cooling_beam(None));
    let mut buf = CommandBuffer::new();
    let mut system = AttachIndexToCoolingLightSystem;
    system.run(&pop, &mut buf);
    pop.flush(buf);
    assert_eq!(pop.get(beam).unwrap().cooling_index.is_none(), false);
}

#[test]
fn fresh_indices_are_not_initiated() {
    let c = CoolingLightIndex::default();
    assert_eq!(c, CoolingLightIndex { index: 0, initiated: false });
    let d = DipoleLightIndex::default();
    assert_eq!(d, DipoleLightIndex { index: 0, initiated: false });
}

#[test]
fn index_pass_numbers_beams_in_order() {
    let mut indices = vec![
        CoolingLightIndex { index: 7, initiated: true },
        CoolingLightIndex::default(),
        CoolingLightIndex { index: 7, initiated: true },
        CoolingLightIndex::default(),
    ];
    IndexCoolingLightsSystem.run(&mut indices);
    for (i, idx) in indices.iter().enumerate() {
        assert_eq!(idx.index, i);
        assert!(idx.initiated);
    }
}

#[test]
fn index_pass_is_a_bijection_and_idempotent() {
    let n = 6;
    let mut indices = vec![CoolingLightIndex::default(); n];
    IndexCoolingLightsSystem.run(&mut indices);
    let mut seen = vec![false; n];
    for idx in &indices {
        assert!(idx.index < n);
        assert!(!seen[idx.index]);
        seen[idx.index] = true;
    }
    assert!(seen.iter().all(|s| *s));
    let once = indices.clone();
    IndexCoolingLightsSystem.run(&mut indices);
    assert_eq!(indices, once);
}

#[test]
fn index_pass_leaves_fully_indexed_beams_alone() {
    let mut indices = vec![
        CoolingLightIndex { index: 3, initiated: true },
        CoolingLightIndex { index: 1, initiated: true },
    ];
    let before = indices.clone();
    IndexCoolingLightsSystem.run(&mut indices);
    assert_eq!(indices, before);
}

#[test]
fn index_pass_on_no_beams() {
    let mut indices: Vec<CoolingLightIndex> = Vec::new();
    IndexCoolingLightsSystem.run(&mut indices);
    assert!(indices.is_empty());
}

#[test]
fn attach_index_skips_indexed_beams_and_other_entities() {
    let mut pop = Population::new();
    let a = pop.build(cooling_beam(None));
    let b = pop.build(cooling_beam(Some(CoolingLightIndex { index: 0, initiated: true })));
    let _atom = pop.build(blank());
    let c = pop.build(cooling_beam(None));
    let mut buf = CommandBuffer::new();
    AttachIndexToCoolingLightSystem.run(&pop, &mut buf);
    assert_eq!(
        buf.commands,
        vec![
            Command::Insert(a, Attachment::CoolingLightIndex),
            Command::Insert(c, Attachment::CoolingLightIndex),
        ]
    );
    pop.flush(buf);
    assert_eq!(pop.get(a).unwrap().cooling_index, Some(CoolingLightIndex::default()));
    assert_eq!(pop.get(b).unwrap().cooling_index, Some(CoolingLightIndex { index: 0, initiated: true }));
}

#[test]
fn dipole_index_pass_numbers_beams_in_order() {
    let mut indices = vec![
        DipoleLightIndex { index: 4, initiated: true },
        DipoleLightIndex::default(),
        DipoleLightIndex::default(),
    ];
    IndexDipoleLightsSystem.run(&mut indices);
    assert_eq!(
        indices,
        vec![
            DipoleLightIndex { index: 0, initiated: true },
            DipoleLightIndex { index: 1, initiated: true },
            DipoleLightIndex { index: 2, initiated: true },
        ]
    );
    let fixed = vec![DipoleLightIndex { index: 1, initiated: true }, DipoleLightIndex { index: 0, initiated: true }];
    let mut again = fixed.clone();
    IndexDipoleLightsSystem.run(&mut again);
    assert_eq!(again, fixed);
}
