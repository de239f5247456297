use atomecs::schedule::{create_simulation_dispatcher_builder, SystemId, STAGE_COUNT};

fn position(plan: &Vec<Vec<SystemId>>, s: SystemId) -> (usize, usize) {
    for (a, stage) in plan.iter().enumerate() {
        for (i, t) in stage.iter().enumerate() {
            if *t == s {
                return (a, i);
            }
        }
    }
    panic!("system missing from the plan");
}

#[test]
fn plan_has_the_stages_of_a_step() {
    let plan = create_simulation_dispatcher_builder();
    assert_eq!(plan.len(), STAGE_COUNT);
    assert_eq!(
        plan[0],
        vec![SystemId::TimestepOptimization, SystemId::ClearForce, SystemId::DeflagNewAtoms]
    );
    assert_eq!(plan[1], vec![SystemId::MagneticSystems]);
    assert_eq!(plan[2], vec![SystemId::LaserSystems]);
    assert_eq!(plan[3], vec![SystemId::AtomSourceSystems]);
    assert_eq!(plan[4].len(), 6);
    assert_eq!(plan[4][5], SystemId::DestroyOutOfBoundAtoms);
}

#[test]
fn plan_runs_dependencies_first() {
    let plan = create_simulation_dispatcher_builder();
    let before = |d: SystemId, s: SystemId| position(&plan, d) < position(&plan, s);
    assert!(before(SystemId::ClearForce, SystemId::Gravity));
    assert!(before(SystemId::MagneticSystems, SystemId::LaserSystems));
    assert!(before(SystemId::LaserSystems, SystemId::EulerIntegration));
    assert!(before(SystemId::Gravity, SystemId::EulerIntegration));
    assert!(before(SystemId::EulerIntegration, SystemId::ConsoleOutput));
    assert!(before(SystemId::Detection, SystemId::DeleteToBeDestroyedEntities));
    assert!(before(SystemId::EulerIntegration, SystemId::DeleteToBeDestroyedEntities));
}
