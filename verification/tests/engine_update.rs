use visor::engine::SketchStatus;
use visor::engine_update::{EngineAction, EnginePhase, EngineUpdate, SketchStores};

#[test]
fn an_engine_update_runs_its_phases_in_order() {
    let mut sketches = vec![SketchStatus::new(1), SketchStatus::new(2), SketchStatus::new(3)];
    sketches[1].mark_built();
    sketches[2].mark_built();
    sketches[2].set_enabled(false);
    sketches[1].set_target_render_texture_id(Some(20));
    sketches[0].set_target_render_texture_id(Some(10));
    let mut stores: SketchStores<&'static str> = SketchStores::new();
    stores.insert(1, "store one");
    stores.insert(2, "store two");
    stores.insert(3, "store three");

    let mut update = EngineUpdate::new();
    assert_eq!(update.phase(), EnginePhase::Idle);
    match update.begin::<&'static str>(&sketches) {
        EngineAction::BuildSketches(ids) => assert_eq!(ids, vec![1]),
        _ => panic!("expected the new sketch to be built"),
    }
    assert!(matches!(update.sketches_built::<&'static str>(&mut sketches), EngineAction::RunBeforeEngineUpdate));
    assert!(sketches[0].is_built());
    let taken = match update.before_update_done(&sketches, &mut stores) {
        EngineAction::UpdateSketches(t) => t,
        _ => panic!("expected the sketches to run"),
    };
    assert_eq!(taken, vec![(1, "store one"), (2, "store two")]);
    assert!(!stores.contains(1) && !stores.contains(2) && stores.contains(3));
    match update.sketches_updated(&mut sketches, &mut stores, vec![(2, None, Some("threw".to_string()))], taken) {
        EngineAction::Render(pairs) => assert_eq!(pairs, vec![(1, 10), (2, 20)]),
        _ => panic!("expected rendering"),
    }
    assert_eq!(sketches[1].runtime_error(), Some("threw".to_string()));
    assert!(stores.contains(1) && stores.contains(2));
    assert_eq!(stores.remove(2), Some("store two"));
    assert!(matches!(update.rendered::<&'static str>(), EngineAction::RunAfterEngineUpdate));
    assert!(matches!(update.after_update_done::<&'static str>(), EngineAction::Finish));
    assert_eq!(update.phase(), EnginePhase::Idle);
    assert!(matches!(update.begin::<&'static str>(&sketches), EngineAction::RunBeforeEngineUpdate));
}
