use visor::engine::{
    record_update_results, sketches_to_build, sketches_to_render, sketches_to_update, typescript_declarations,
    SketchStatus,
};
use visor::sketch::{LifecycleStep, RuntimeExecuteFunctionResult, SketchFunction, SketchWorkerState, WorkerAction};

#[test]
fn export_names() {
    assert_eq!(SketchFunction::Setup.export_name(), "setup");
    assert_eq!(SketchFunction::Update.export_name(), "update");
    assert_eq!(SketchFunction::Draw.export_name(), "draw");
    assert_eq!(LifecycleStep::Render.export_name(), "render");
}

#[test]
fn first_update_compiles_and_runs_setup() {
    let mut w = SketchWorkerState::new();
    assert_eq!(w.begin_update(), WorkerAction::CompileRuntime);
    assert_eq!(w.compiled(None), WorkerAction::Execute(LifecycleStep::Setup));
    assert_eq!(w.executed(RuntimeExecuteFunctionResult::Success), WorkerAction::Execute(LifecycleStep::Update));
    assert_eq!(w.executed(RuntimeExecuteFunctionResult::Missing), WorkerAction::Execute(LifecycleStep::Render));
    assert_eq!(w.executed(RuntimeExecuteFunctionResult::Success), WorkerAction::RunAfterUpdateHooks);
    assert_eq!(w.hooks_done(), WorkerAction::Finish);
    assert_eq!(w.compilation_error(), None);
    assert_eq!(w.runtime_error(), None);
    // the next update runs without compiling and without setup
    assert_eq!(w.begin_update(), WorkerAction::RunBeforeUpdateHooks);
    assert_eq!(w.hooks_done(), WorkerAction::Execute(LifecycleStep::Update));
}

#[test]
fn compile_error_skips_the_sketch() {
    let mut w = SketchWorkerState::new();
    w.begin_update();
    assert_eq!(w.compiled(Some("SyntaxError".to_string())), WorkerAction::RunAfterUpdateHooks);
    assert_eq!(w.hooks_done(), WorkerAction::Finish);
    assert_eq!(w.compilation_error(), Some("SyntaxError".to_string()));
    assert_eq!(w.begin_update(), WorkerAction::RunBeforeUpdateHooks);
    assert_eq!(w.hooks_done(), WorkerAction::RunAfterUpdateHooks);
    w.hooks_done();
    w.request_compile();
    assert_eq!(w.begin_update(), WorkerAction::CompileRuntime);
    // setup was never run, so it still runs once the sketch compiles
    assert_eq!(w.compiled(None), WorkerAction::Execute(LifecycleStep::Setup));
}

#[test]
fn first_runtime_error_ends_the_lifecycle() {
    let mut w = SketchWorkerState::new();
    w.begin_update();
    w.compiled(None);
    assert_eq!(w.executed(RuntimeExecuteFunctionResult::Error("boom".to_string())), WorkerAction::RunAfterUpdateHooks);
    w.hooks_done();
    assert_eq!(w.runtime_error(), Some("boom".to_string()));
    // setup is not retried unless asked for
    w.begin_update();
    assert_eq!(w.hooks_done(), WorkerAction::Execute(LifecycleStep::Update));
    w.executed(RuntimeExecuteFunctionResult::Success);
    w.executed(RuntimeExecuteFunctionResult::Success);
    w.hooks_done();
    assert_eq!(w.runtime_error(), None);
    w.request_setup();
    w.begin_update();
    assert_eq!(w.hooks_done(), WorkerAction::Execute(LifecycleStep::Setup));
}

#[test]
fn engine_selects_sketches() {
    let mut a = SketchStatus::new(1);
    let mut b = SketchStatus::new(2);
    let c = SketchStatus::new(3);
    a.mark_built();
    b.mark_built();
    b.set_enabled(false);
    a.set_target_render_texture_id(Some(77));
    b.set_target_render_texture_id(Some(78));
    let all = vec![a, b, c];
    assert_eq!(sketches_to_build(&all), vec![3]);
    assert_eq!(sketches_to_update(&all), vec![1]);
    assert_eq!(sketches_to_render(&all), vec![(1, 77)]);
}

#[test]
fn sketch_status_fields() {
    let mut s = SketchStatus::new(42);
    assert_eq!(s.id(), 42);
    assert!(!s.is_built());
    assert!(s.is_enabled());
    assert_eq!(s.get_target_render_texture_id(), None);
    s.set_errors(Some("compile".to_string()), None);
    assert_eq!(s.compilation_error(), Some("compile".to_string()));
    assert_eq!(s.runtime_error(), None);
}

#[test]
fn declarations_are_joined() {
    assert_eq!(typescript_declarations(&vec![None, None]), None);
    assert_eq!(typescript_declarations(&vec![]), None);
    assert_eq!(
        typescript_declarations(&vec![Some("a".to_string()), None, Some("b".to_string())]),
        Some("a\nb".to_string())
    );
    assert_eq!(typescript_declarations(&vec![None, Some("only".to_string())]), Some("only".to_string()));
}

#[test]
fn update_results_set_each_sketchs_errors() {
    let mut sketches = vec![SketchStatus::new(1), SketchStatus::new(2), SketchStatus::new(3)];
    sketches[2].set_errors(Some("old".to_string()), None);
    record_update_results(
        &mut sketches,
        vec![
            (2, Some("syntax".to_string()), None),
            (1, None, Some("boom".to_string())),
            (2, None, Some("later".to_string())),
        ],
    );
    assert_eq!((sketches[0].compilation_error(), sketches[0].runtime_error()), (None, Some("boom".to_string())));
    assert_eq!((sketches[1].compilation_error(), sketches[1].runtime_error()), (None, Some("later".to_string())));
    assert_eq!(sketches[2].compilation_error(), Some("old".to_string()));
    assert_eq!(sketches[1].id(), 2);
}
