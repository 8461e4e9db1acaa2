//! Bringing the window up, and taking it down.
use vstd::prelude::*;
use crate::error::GtkUiError;

verus! {

/// The size of the window when none is known, in pixels.
pub const DEFAULT_WIDTH: i32 = 1024;

pub const DEFAULT_HEIGHT: i32 = 768;

/// How often the session is saved, in seconds.
pub const AUTOSAVE_INTERVAL_SECS: u32 = 7;

/// A step of a run of the program.
#[derive(Copy, Clone, PartialEq, Eq, Structural, Debug)]
pub enum StartupStep {
    /// Start the toolkit.
    InitToolkit,
    /// Put the plugins that come along where plugins are looked for.
    StagePlugins,
    /// Start the shell, and the way its workers wake the window.
    StartShell,
    /// Build the window, its menus, its toolbar and its tab strip.
    BuildWindow,
    /// Make the editor.
    MakeEditor,
    /// Make the small editor of the document map.
    MakeMiniature,
    /// Build the panels and the status bar.
    BuildPanels,
    /// Get hold of the function that the editor is called by.
    CaptureEditor,
    /// Connect what measures.
    ConnectProbes,
    /// Put the state where handlers find it.
    InstallState,
    /// Connect the handlers of the editor, of drops and of the tab strip.
    ConnectHandlers,
    /// Give the window its size of last time.
    RestoreGeometry,
    /// Apply the styles.
    ApplyStyles,
    /// Fill the menus.
    ConnectMenus,
    /// Bring the toolbar in step with the menus.
    RefreshIndicators,
    /// Open the files of last time, and the one that was asked for.
    RestoreSession,
    /// Apply the view settings of last time, which the session holds.
    ApplyViewSettings,
    /// Show the folder of last time.
    RestoreWorkspace,
    /// Show the document map, if it was shown last time.
    RestoreDocMap,
    /// Look for plugins.
    DiscoverPlugins,
    /// See to it that the session is saved, now and then and at the end.
    ArmSaving,
    /// Show the window, with the editor ready to type in.
    ShowWindow,
    /// Run until the window is closed.
    RunMainLoop,
    /// Take the state away.
    UninstallState,
    /// Report what was measured.
    ReportTimes,
}

/// The steps of a run of the program, in order.
pub open spec fn startup_steps() -> Seq<StartupStep> {
    seq![
        StartupStep::InitToolkit,
        StartupStep::StagePlugins,
        StartupStep::StartShell,
        StartupStep::BuildWindow,
        StartupStep::MakeEditor,
        StartupStep::MakeMiniature,
        StartupStep::BuildPanels,
        StartupStep::CaptureEditor,
        StartupStep::ConnectProbes,
        StartupStep::InstallState,
        StartupStep::ConnectHandlers,
        StartupStep::RestoreGeometry,
        StartupStep::ApplyStyles,
        StartupStep::ConnectMenus,
        StartupStep::RefreshIndicators,
        StartupStep::RestoreSession,
        StartupStep::ApplyViewSettings,
        StartupStep::RestoreWorkspace,
        StartupStep::RestoreDocMap,
        StartupStep::DiscoverPlugins,
        StartupStep::ArmSaving,
        StartupStep::ShowWindow,
        StartupStep::RunMainLoop,
        StartupStep::UninstallState,
        StartupStep::ReportTimes,
    ]
}

/// Why a step failed.
pub enum StepFailure {
    /// The toolkit did not start.
    Toolkit,
    /// The shell did not start, for the reason given.
    Shell(String),
    /// No widget was made.
    NoWidget,
    /// The widget has no function to call it by.
    NoDirectCall,
}

/// What a run fails with for it.
pub open spec fn failure_text(why: StepFailure) -> Seq<char> {
    match why {
        StepFailure::Toolkit => GtkUiError::GtkInit.text(),
        StepFailure::Shell(reason) => GtkUiError::Shell(reason).text(),
        StepFailure::NoWidget => GtkUiError::ScintillaCreate.text(),
        StepFailure::NoDirectCall => GtkUiError::DirectCallCapture.text(),
    }
}

/// What a run fails with for it.
pub fn failure(why: StepFailure) -> (e: GtkUiError)
    ensures
        e == match why {
            StepFailure::Toolkit => GtkUiError::GtkInit,
            StepFailure::Shell(reason) => GtkUiError::Shell(reason),
            StepFailure::NoWidget => GtkUiError::ScintillaCreate,
            StepFailure::NoDirectCall => GtkUiError::DirectCallCapture,
        },
        e.text() == failure_text(why),
{
    match why {
        StepFailure::Toolkit => GtkUiError::GtkInit,
        StepFailure::Shell(reason) => GtkUiError::Shell(reason),
        StepFailure::NoWidget => GtkUiError::ScintillaCreate,
        StepFailure::NoDirectCall => GtkUiError::DirectCallCapture,
    }
}

/// Whether a step can fail.
pub open spec fn can_fail(step: StartupStep) -> bool {
    step is InitToolkit || step is StartShell || step is MakeEditor || step is MakeMiniature
        || step is CaptureEditor
}

fn step_at(i: usize) -> (r: Option<StartupStep>)
    ensures
        r == if i < startup_steps().len() {
            Some(startup_steps()[i as int])
        } else {
            None
        },
{
    match i {
        0 => Some(StartupStep::InitToolkit),
        1 => Some(StartupStep::StagePlugins),
        2 => Some(StartupStep::StartShell),
        3 => Some(StartupStep::BuildWindow),
        4 => Some(StartupStep::MakeEditor),
        5 => Some(StartupStep::MakeMiniature),
        6 => Some(StartupStep::BuildPanels),
        7 => Some(StartupStep::CaptureEditor),
        8 => Some(StartupStep::ConnectProbes),
        9 => Some(StartupStep::InstallState),
        10 => Some(StartupStep::ConnectHandlers),
        11 => Some(StartupStep::RestoreGeometry),
        12 => Some(StartupStep::ApplyStyles),
        13 => Some(StartupStep::ConnectMenus),
        14 => Some(StartupStep::RefreshIndicators),
        15 => Some(StartupStep::RestoreSession),
        16 => Some(StartupStep::ApplyViewSettings),
        17 => Some(StartupStep::RestoreWorkspace),
        18 => Some(StartupStep::RestoreDocMap),
        19 => Some(StartupStep::DiscoverPlugins),
        20 => Some(StartupStep::ArmSaving),
        21 => Some(StartupStep::ShowWindow),
        22 => Some(StartupStep::RunMainLoop),
        23 => Some(StartupStep::UninstallState),
        24 => Some(StartupStep::ReportTimes),
        _ => None,
    }
}

/// A run of the program: the number of steps that have been begun.
pub struct StartupRun {
    pub begun: usize,
}

impl StartupRun {
    /// A run that has not begun.
    pub fn new() -> (run: StartupRun)
        ensures
            run.begun == 0,
    {
        StartupRun { begun: 0 }
    }

    /// The next step, given how the last one went; `None` once there is no
    /// further one. A step that failed ends the run.
    pub fn step(&mut self, last: Result<(), StepFailure>) -> (r: Result<
        Option<StartupStep>,
        GtkUiError,
    >)
        requires
            old(self).begun <= startup_steps().len(),
        ensures
            final(self).begun <= startup_steps().len(),
            match last {
                Err(why) => r is Err && r->Err_0.text() == failure_text(why) && final(self).begun
                    == startup_steps().len(),
                Ok(_) => if old(self).begun < startup_steps().len() {
                    r == Ok::<Option<StartupStep>, GtkUiError>(
                        Some(startup_steps()[old(self).begun as int]),
                    ) && final(self).begun == old(self).begun + 1
                } else {
                    r == Ok::<Option<StartupStep>, GtkUiError>(None) && final(self).begun == old(
                        self,
                    ).begun
                },
            },
    {
        match last {
            Err(why) => {
                self.begun = 25;
                Err(failure(why))
            },
            Ok(_) => {
                let next: Option<StartupStep> = step_at(self.begun);
                if next.is_some() {
                    self.begun = self.begun + 1;
                }
                Ok(next)
            },
        }
    }
}

/// Every step that can fail comes before the state is there for handlers to
/// find, so a start that fails leaves none behind; and no handler is connected
/// before it is there.
pub proof fn a_failed_start_leaves_no_state(i: int, j: int, k: int)
    requires
        0 <= i < startup_steps().len(),
        0 <= j < startup_steps().len(),
        0 <= k < startup_steps().len(),
        can_fail(startup_steps()[i]),
        startup_steps()[j] is InstallState,
        startup_steps()[k] is ConnectHandlers || startup_steps()[k] is ConnectMenus,
    ensures
        i < j < k,
{
}

/// The panels and the view settings of last time come back once the session is
/// there, the plugins are looked for after that, and all of it before the window is shown; the state
/// is taken away once the window is closed.
pub proof fn the_session_comes_first(i: int, j: int, k: int, l: int, m: int)
    requires
        0 <= i < startup_steps().len(),
        0 <= j < startup_steps().len(),
        0 <= k < startup_steps().len(),
        0 <= l < startup_steps().len(),
        0 <= m < startup_steps().len(),
        startup_steps()[i] is RestoreSession,
        startup_steps()[j] is ApplyViewSettings || startup_steps()[j] is RestoreWorkspace
            || startup_steps()[j] is RestoreDocMap,
        startup_steps()[k] is DiscoverPlugins,
        startup_steps()[l] is RunMainLoop,
        startup_steps()[m] is UninstallState,
    ensures
        i < j < k < l < m,
{
}

/// The order in which the program comes up and goes down.
pub proof fn the_program_comes_up_in_order()
    ensures
        startup_steps().len() == 25,
        startup_steps().take(5) == seq![
            StartupStep::InitToolkit,
            StartupStep::StagePlugins,
            StartupStep::StartShell,
            StartupStep::BuildWindow,
            StartupStep::MakeEditor,
        ],
        startup_steps().subrange(5, 10) == seq![
            StartupStep::MakeMiniature,
            StartupStep::BuildPanels,
            StartupStep::CaptureEditor,
            StartupStep::ConnectProbes,
            StartupStep::InstallState,
        ],
        startup_steps().subrange(10, 15) == seq![
            StartupStep::ConnectHandlers,
            StartupStep::RestoreGeometry,
            StartupStep::ApplyStyles,
            StartupStep::ConnectMenus,
            StartupStep::RefreshIndicators,
        ],
        startup_steps().subrange(15, 20) == seq![
            StartupStep::RestoreSession,
            StartupStep::ApplyViewSettings,
            StartupStep::RestoreWorkspace,
            StartupStep::RestoreDocMap,
            StartupStep::DiscoverPlugins,
        ],
        startup_steps().skip(20) == seq![
            StartupStep::ArmSaving,
            StartupStep::ShowWindow,
            StartupStep::RunMainLoop,
            StartupStep::UninstallState,
            StartupStep::ReportTimes,
        ],
        DEFAULT_WIDTH == 1024,
        DEFAULT_HEIGHT == 768,
        AUTOSAVE_INTERVAL_SECS == 7,
{
    let steps = startup_steps();
    assert(steps.take(5) =~= seq![
        StartupStep::InitToolkit,
        StartupStep::StagePlugins,
        StartupStep::StartShell,
        StartupStep::BuildWindow,
        StartupStep::MakeEditor,
    ]);
    assert(steps.subrange(5, 10) =~= seq![
        StartupStep::MakeMiniature,
        StartupStep::BuildPanels,
        StartupStep::CaptureEditor,
        StartupStep::ConnectProbes,
        StartupStep::InstallState,
    ]);
    assert(steps.subrange(10, 15) =~= seq![
        StartupStep::ConnectHandlers,
        StartupStep::RestoreGeometry,
        StartupStep::ApplyStyles,
        StartupStep::ConnectMenus,
        StartupStep::RefreshIndicators,
    ]);
    assert(steps.subrange(15, 20) =~= seq![
        StartupStep::RestoreSession,
        StartupStep::ApplyViewSettings,
        StartupStep::RestoreWorkspace,
        StartupStep::RestoreDocMap,
        StartupStep::DiscoverPlugins,
    ]);
    assert(steps.skip(20) =~= seq![
        StartupStep::ArmSaving,
        StartupStep::ShowWindow,
        StartupStep::RunMainLoop,
        StartupStep::UninstallState,
        StartupStep::ReportTimes,
    ]);
}

/// A failure is reported as what failed.
pub proof fn a_failure_is_reported_as_it_is(reason: String, e: GtkUiError)
    ensures
        call_ensures(failure, (StepFailure::Toolkit,), e) ==> e is GtkInit,
        call_ensures(failure, (StepFailure::Shell(reason),), e) ==> (e matches GtkUiError::Shell(r)
            && r@ == reason@),
        call_ensures(failure, (StepFailure::NoWidget,), e) ==> e is ScintillaCreate,
        call_ensures(failure, (StepFailure::NoDirectCall,), e) ==> e is DirectCallCapture,
        failure_text(StepFailure::Shell(reason)) == "failed to start the shell: "@ + reason@,
        failure_text(StepFailure::NoWidget) == "scintilla_new() returned null"@,
        failure_text(StepFailure::NoDirectCall)
            == "Scintilla did not return a direct-call function/instance pair"@,
        failure_text(StepFailure::Toolkit)
            == "failed to initialise GTK — is a display available? (DISPLAY / WAYLAND_DISPLAY unset when running headless)"@,
{
}

/// A step that failed ends the run: no other follows. As long as none fails
/// they follow one after the other.
pub proof fn a_failed_step_is_the_last(
    why: StepFailure,
    failed: Result<Option<StartupStep>, GtkUiError>,
    later: Result<Option<StartupStep>, GtkUiError>,
    k: int,
)
    ensures
        forall|a: &mut StartupRun, b: &mut StartupRun|
            (#[trigger] call_ensures(StartupRun::step, (a, Err::<(), StepFailure>(why)), failed)
                && #[trigger] call_ensures(StartupRun::step, (b, Ok::<(), StepFailure>(())), later)
                && *b == *final(a)) ==> failed is Err && later
                == Ok::<Option<StartupStep>, GtkUiError>(None),
        forall|a: &mut StartupRun| #[trigger]
            call_ensures(StartupRun::step, (a, Ok::<(), StepFailure>(())), later) && a.begun < 25
                ==> later == Ok::<Option<StartupStep>, GtkUiError>(
                Some(startup_steps()[a.begun as int]),
            ) && final(a).begun == a.begun + 1,
{
}

} // verus!
