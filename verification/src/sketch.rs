use vstd::prelude::*;

verus! {

/// The functions a sketch module may export, by their export names.
#[derive(Clone, Copy, PartialEq, Eq, Debug)]
pub enum SketchFunction {
    Setup,
    Update,
    Draw,
}

impl SketchFunction {
    /// The name under which the sketch module exports the function.
    pub fn export_name(&self) -> (r: &'static str)
        ensures
            r@ == match self {
                SketchFunction::Setup => "setup"@,
                SketchFunction::Update => "update"@,
                SketchFunction::Draw => "draw"@,
            },
    {
        match self {
            SketchFunction::Setup => "setup",
            SketchFunction::Update => "update",
            SketchFunction::Draw => "draw",
        }
    }
}

/// How calling an exported sketch function went.
#[derive(PartialEq, Eq, Debug)]
pub enum RuntimeExecuteFunctionResult {
    /// The function ran to completion.
    Success,
    /// The module exports no function under that name.
    Missing,
    /// The function threw; the message of the error.
    Error(String),
}

/// The three calls of one sketch update, in the order they are made.
#[derive(Clone, Copy, PartialEq, Eq, Debug)]
pub enum LifecycleStep {
    Setup,
    Update,
    Render,
}

impl LifecycleStep {
    /// The export name the step calls.
    pub fn export_name(&self) -> (r: &'static str)
        ensures
            r@ == match self {
                LifecycleStep::Setup => "setup"@,
                LifecycleStep::Update => "update"@,
                LifecycleStep::Render => "render"@,
            },
    {
        match self {
            LifecycleStep::Setup => "setup",
            LifecycleStep::Update => "update",
            LifecycleStep::Render => "render",
        }
    }
}

/// Where a sketch worker stands in handling an update.
#[derive(Clone, Copy, PartialEq, Eq, Debug)]
pub enum WorkerPhase {
    /// Waiting for the next task.
    Idle,
    /// A fresh runtime is being created and the sketch compiled into it.
    Compiling,
    /// The plugins prepare the sketch store before the sketch runs.
    BeforeHooks,
    /// A sketch function is running.
    Executing(LifecycleStep),
    /// The plugins process what the sketch did.
    AfterHooks,
}

/// What the worker asks its driver to do next.
#[derive(Clone, Copy, PartialEq, Eq, Debug)]
pub enum WorkerAction {
    /// Drop the current runtime, create a new one, let every plugin prepare
    /// the sketch store (`before_sketch_update`), compile the sketch, then
    /// report with `compiled`.
    CompileRuntime,
    /// Let every plugin prepare the sketch store, then report with `hooks_done`.
    RunBeforeUpdateHooks,
    /// Call this sketch function, then report with `executed`.
    Execute(LifecycleStep),
    /// Let every plugin process the sketch store (`after_sketch_update`),
    /// then report with `hooks_done`.
    RunAfterUpdateHooks,
    /// The update is over: hand the sketch store and the errors back.
    Finish,
}

/// The worker's state as plain values.
pub struct WorkerView {
    pub request_compile: bool,
    pub request_setup: bool,
    pub has_runtime: bool,
    pub compilation_error: Option<Seq<char>>,
    pub runtime_error: Option<Seq<char>>,
    pub phase: WorkerPhase,
}

pub open spec fn opt_view(o: Option<String>) -> Option<Seq<char>> {
    match o {
        Some(s) => Some(s@),
        None => None,
    }
}

/// The decisions of the worker thread that runs one sketch: when to
/// (re)compile, when to run `setup`, which function to call next, and which
/// errors to report. The thread itself, the JavaScript runtime and the
/// plugins are driven from outside, through `WorkerAction`s.
pub struct SketchWorkerState {
    request_compile: bool,
    request_setup: bool,
    has_runtime: bool,
    compilation_error: Option<String>,
    runtime_error: Option<String>,
    phase: WorkerPhase,
}

impl View for SketchWorkerState {
    type V = WorkerView;

    closed spec fn view(&self) -> WorkerView {
        WorkerView {
            request_compile: self.request_compile,
            request_setup: self.request_setup,
            has_runtime: self.has_runtime,
            compilation_error: opt_view(self.compilation_error),
            runtime_error: opt_view(self.runtime_error),
            phase: self.phase,
        }
    }
}

/// A sketch function runs only once the sketch compiled.
pub open spec fn worker_inv(v: WorkerView) -> bool {
    &&& (v.phase is Executing ==> v.compilation_error is None && v.has_runtime)
    &&& (v.phase is BeforeHooks ==> v.has_runtime)
    &&& (v.phase is AfterHooks ==> v.has_runtime)
}

/// The first call of a sketch's lifecycle once its runtime is ready: none
/// when the sketch did not compile, `setup` when it was requested, and
/// `update` otherwise.
pub open spec fn first_step(v: WorkerView) -> Option<LifecycleStep> {
    if v.compilation_error is Some {
        None
    } else if v.request_setup {
        Some(LifecycleStep::Setup)
    } else {
        Some(LifecycleStep::Update)
    }
}

impl SketchWorkerState {
    /// A new worker: it will compile and run `setup` on its first update.
    pub fn new() -> (w: Self)
        ensures
            w@ == (WorkerView {
                request_compile: true,
                request_setup: true,
                has_runtime: false,
                compilation_error: None,
                runtime_error: None,
                phase: WorkerPhase::Idle,
            }),
            worker_inv(w@),
    {
        SketchWorkerState {
            request_compile: true,
            request_setup: true,
            has_runtime: false,
            compilation_error: None,
            runtime_error: None,
            phase: WorkerPhase::Idle,
        }
    }

    /// The error of the last compilation, if it failed.
    pub fn compilation_error(&self) -> (r: Option<String>)
        ensures
            opt_view(r) == self@.compilation_error,
    {
        match &self.compilation_error {
            Some(e) => Some(e.clone()),
            None => None,
        }
    }

    /// The error of the last sketch update, if a sketch function threw.
    pub fn runtime_error(&self) -> (r: Option<String>)
        ensures
            opt_view(r) == self@.runtime_error,
    {
        match &self.runtime_error {
            Some(e) => Some(e.clone()),
            None => None,
        }
    }

    /// A "compile again" task: the next update recompiles the sketch.
    pub fn request_compile(&mut self)
        requires
            old(self)@.phase == WorkerPhase::Idle,
        ensures
            final(self)@ == (WorkerView { request_compile: true, ..old(self)@ }),
    {
        self.request_compile = true;
    }

    /// A "run setup again" task: the next update calls `setup` first.
    pub fn request_setup(&mut self)
        requires
            old(self)@.phase == WorkerPhase::Idle,
        ensures
            final(self)@ == (WorkerView { request_setup: true, ..old(self)@ }),
    {
        self.request_setup = true;
    }

    /// Starts an update: compile first when asked to, prepare the store when
    /// a runtime exists, and otherwise there is nothing to do.
    pub fn begin_update(&mut self) -> (a: WorkerAction)
        requires
            old(self)@.phase == WorkerPhase::Idle,
            worker_inv(old(self)@),
        ensures
            worker_inv(final(self)@),
            old(self)@.request_compile ==> a == WorkerAction::CompileRuntime
                && final(self)@ == (WorkerView { has_runtime: false, phase: WorkerPhase::Compiling, ..old(self)@ }),
            !old(self)@.request_compile && old(self)@.has_runtime ==> a == WorkerAction::RunBeforeUpdateHooks
                && final(self)@ == (WorkerView { phase: WorkerPhase::BeforeHooks, ..old(self)@ }),
            !old(self)@.request_compile && !old(self)@.has_runtime ==> a == WorkerAction::Finish
                && final(self)@ == old(self)@,
    {
        if self.request_compile {
            self.has_runtime = false;
            self.phase = WorkerPhase::Compiling;
            WorkerAction::CompileRuntime
        } else if self.has_runtime {
            self.phase = WorkerPhase::BeforeHooks;
            WorkerAction::RunBeforeUpdateHooks
        } else {
            WorkerAction::Finish
        }
    }

    /// Moves on once the runtime is ready for this update.
    fn runtime_ready(&mut self) -> (a: WorkerAction)
        requires
            old(self)@.has_runtime,
        ensures
            worker_inv(final(self)@),
            match first_step(old(self)@) {
                Some(step) => a == WorkerAction::Execute(step)
                    && final(self)@ == (WorkerView { phase: WorkerPhase::Executing(step), ..old(self)@ }),
                None => a == WorkerAction::RunAfterUpdateHooks
                    && final(self)@ == (WorkerView { phase: WorkerPhase::AfterHooks, ..old(self)@ }),
            },
    {
        if self.compilation_error.is_some() {
            self.phase = WorkerPhase::AfterHooks;
            WorkerAction::RunAfterUpdateHooks
        } else if self.request_setup {
            self.phase = WorkerPhase::Executing(LifecycleStep::Setup);
            WorkerAction::Execute(LifecycleStep::Setup)
        } else {
            self.phase = WorkerPhase::Executing(LifecycleStep::Update);
            WorkerAction::Execute(LifecycleStep::Update)
        }
    }

    /// The runtime was created and the sketch compiled, with `error` if
    /// compilation failed; the compile request is served.
    pub fn compiled(&mut self, error: Option<String>) -> (a: WorkerAction)
        requires
            old(self)@.phase == WorkerPhase::Compiling,
        ensures
            worker_inv(final(self)@),
            ({
                let ready = WorkerView {
                    request_compile: false,
                    has_runtime: true,
                    compilation_error: opt_view(error),
                    ..old(self)@
                };
                match first_step(ready) {
                    Some(step) => a == WorkerAction::Execute(step)
                        && final(self)@ == (WorkerView { phase: WorkerPhase::Executing(step), ..ready }),
                    None => a == WorkerAction::RunAfterUpdateHooks
                        && final(self)@ == (WorkerView { phase: WorkerPhase::AfterHooks, ..ready }),
                }
            }),
    {
        self.has_runtime = true;
        self.compilation_error = error;
        self.request_compile = false;
        self.runtime_ready()
    }

    /// The plugins are done with the sketch store: before the sketch runs,
    /// the lifecycle starts; after it ran, the update is over.
    pub fn hooks_done(&mut self) -> (a: WorkerAction)
        requires
            old(self)@.phase == WorkerPhase::BeforeHooks || old(self)@.phase == WorkerPhase::AfterHooks,
            worker_inv(old(self)@),
        ensures
            worker_inv(final(self)@),
            old(self)@.phase == WorkerPhase::AfterHooks ==> a == WorkerAction::Finish
                && final(self)@ == (WorkerView { phase: WorkerPhase::Idle, ..old(self)@ }),
            old(self)@.phase == WorkerPhase::BeforeHooks ==> match first_step(old(self)@) {
                Some(step) => a == WorkerAction::Execute(step)
                    && final(self)@ == (WorkerView { phase: WorkerPhase::Executing(step), ..old(self)@ }),
                None => a == WorkerAction::RunAfterUpdateHooks
                    && final(self)@ == (WorkerView { phase: WorkerPhase::AfterHooks, ..old(self)@ }),
            },
    {
        match self.phase {
            WorkerPhase::AfterHooks => {
                self.phase = WorkerPhase::Idle;
                WorkerAction::Finish
            },
            _ => self.runtime_ready(),
        }
    }

    /// Ends the lifecycle with `error`: the setup request is served whatever
    /// happened, and the plugins run next.
    fn end_lifecycle(&mut self, error: Option<String>) -> (a: WorkerAction)
        requires
            old(self)@.has_runtime,
        ensures
            worker_inv(final(self)@),
            a == WorkerAction::RunAfterUpdateHooks,
            final(self)@ == (WorkerView {
                request_setup: false,
                runtime_error: opt_view(error),
                phase: WorkerPhase::AfterHooks,
                ..old(self)@
            }),
    {
        self.request_setup = false;
        self.runtime_error = error;
        self.phase = WorkerPhase::AfterHooks;
        WorkerAction::RunAfterUpdateHooks
    }

    /// The sketch function asked for ran, with `result`. The first error ends
    /// the lifecycle and becomes the update's runtime error; otherwise
    /// `setup` is followed by `update`, `update` by `render`, and after
    /// `render` the update succeeded. A missing function counts as success.
    pub fn executed(&mut self, result: RuntimeExecuteFunctionResult) -> (a: WorkerAction)
        requires
            old(self)@.phase is Executing,
            worker_inv(old(self)@),
        ensures
            worker_inv(final(self)@),
            ({
                let step = old(self)@.phase->Executing_0;
                match result {
                    RuntimeExecuteFunctionResult::Error(e) => a == WorkerAction::RunAfterUpdateHooks && final(self)@ == (WorkerView {
                        request_setup: false,
                        runtime_error: Some(e@),
                        phase: WorkerPhase::AfterHooks,
                        ..old(self)@
                    }),
                    _ => match step {
                        LifecycleStep::Setup => a == WorkerAction::Execute(LifecycleStep::Update) && final(self)@ == (WorkerView {
                            phase: WorkerPhase::Executing(LifecycleStep::Update),
                            ..old(self)@
                        }),
                        LifecycleStep::Update => a == WorkerAction::Execute(LifecycleStep::Render) && final(self)@ == (WorkerView {
                            phase: WorkerPhase::Executing(LifecycleStep::Render),
                            ..old(self)@
                        }),
                        LifecycleStep::Render => a == WorkerAction::RunAfterUpdateHooks && final(self)@ == (WorkerView {
                            request_setup: false,
                            runtime_error: None,
                            phase: WorkerPhase::AfterHooks,
                            ..old(self)@
                        }),
                    },
                }
            }),
    {
        match result {
            RuntimeExecuteFunctionResult::Error(e) => self.end_lifecycle(Some(e)),
            _ => match self.phase {
                WorkerPhase::Executing(LifecycleStep::Setup) => {
                    self.phase = WorkerPhase::Executing(LifecycleStep::Update);
                    WorkerAction::Execute(LifecycleStep::Update)
                },
                WorkerPhase::Executing(LifecycleStep::Update) => {
                    self.phase = WorkerPhase::Executing(LifecycleStep::Render);
                    WorkerAction::Execute(LifecycleStep::Render)
                },
                _ => self.end_lifecycle(None),
            },
        }
    }
}

} // verus!
