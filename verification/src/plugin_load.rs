//! Loading plugins, and bringing back the panels they had open.
//!
//! [`LoadRun`] takes a load from the first plugin to the last panel. Before
//! each step it is told what the last one found out. What a restored panel may
//! do is decided by whether its record can be trusted.
use vstd::prelude::*;
use crate::dock_geometry::DockPanel;
use crate::dock_panels::contains_panel;

verus! {

/// What became of a plugin that was loaded.
#[derive(Copy, Clone, PartialEq, Eq, Structural, Debug)]
pub enum Commit {
    /// The state is gone; nothing could be recorded.
    Lost,
    /// It could not be loaded.
    Failed,
    /// It is loaded and waits to be told.
    Ready,
}

/// What a load is told before each step.
#[derive(Copy, Clone, PartialEq, Eq, Structural, Debug)]
pub struct LoadReading {
    /// The plugin that is to be loaded next.
    pub pending: Option<usize>,
    pub commit: Commit,
    /// Panels were put back in their places.
    pub unparked: bool,
}

/// What a load has to do next.
#[derive(Copy, Clone, PartialEq, Eq, Structural, Debug)]
pub enum LoadAction {
    /// Find the next plugin.
    FindNext,
    /// Run its entry points.
    Execute(usize),
    /// Record what became of it.
    Record(usize),
    /// Let the host draw its conclusions.
    AfterLoads,
    /// Take in the commands that the plugins publish.
    AbsorbCommands,
    /// Put back the panels that waited for one of these plugins.
    Unpark,
    /// Take down which panels are to be brought back.
    Capture,
    /// Build what was put back.
    ApplyLayout,
    /// Tell the plugins that they are loaded, and run the panels' commands.
    Notify,
    /// Close the panels that nobody registered.
    CloseUnregistered,
    /// Set aside the panels whose commands were withheld.
    ParkWithheld,
    /// Set aside the panels that no plugin can fill.
    ParkUnsupplied,
    Finished,
}

/// How far a load has come.
#[derive(Copy, Clone, PartialEq, Eq, Structural, Debug)]
pub enum LoadPhase {
    Fresh,
    Found,
    Executed(usize),
    Recorded(usize),
    Concluded,
    Absorbed,
    Unparked,
    Captured,
    Built,
    Notified,
    Closed,
    Withheld,
    Over,
}

/// The next step of a load.
pub open spec fn load_next(phase: LoadPhase, r: LoadReading) -> (LoadPhase, LoadAction) {
    match phase {
        LoadPhase::Fresh => (LoadPhase::Found, LoadAction::FindNext),
        LoadPhase::Found => match r.pending {
            Some(idx) => (LoadPhase::Executed(idx), LoadAction::Execute(idx)),
            None => (LoadPhase::Concluded, LoadAction::AfterLoads),
        },
        LoadPhase::Executed(idx) => (LoadPhase::Recorded(idx), LoadAction::Record(idx)),
        LoadPhase::Recorded(idx) => if r.commit == Commit::Lost {
            (LoadPhase::Concluded, LoadAction::AfterLoads)
        } else {
            (LoadPhase::Found, LoadAction::FindNext)
        },
        LoadPhase::Concluded => (LoadPhase::Absorbed, LoadAction::AbsorbCommands),
        LoadPhase::Absorbed => (LoadPhase::Unparked, LoadAction::Unpark),
        LoadPhase::Unparked => (LoadPhase::Captured, LoadAction::Capture),
        LoadPhase::Captured => if r.unparked {
            (LoadPhase::Built, LoadAction::ApplyLayout)
        } else {
            (LoadPhase::Notified, LoadAction::Notify)
        },
        LoadPhase::Built => (LoadPhase::Notified, LoadAction::Notify),
        LoadPhase::Notified => (LoadPhase::Closed, LoadAction::CloseUnregistered),
        LoadPhase::Closed => (LoadPhase::Withheld, LoadAction::ParkWithheld),
        LoadPhase::Withheld => (LoadPhase::Over, LoadAction::ParkUnsupplied),
        LoadPhase::Over => (LoadPhase::Over, LoadAction::Finished),
    }
}

/// The plugins that are loaded after a step.
pub open spec fn loaded_next(loaded: Seq<usize>, phase: LoadPhase, r: LoadReading) -> Seq<usize> {
    match phase {
        LoadPhase::Recorded(idx) => if r.commit == Commit::Ready {
            loaded.push(idx)
        } else {
            loaded
        },
        _ => loaded,
    }
}

/// A load: how far it has come, and the plugins that are loaded so far.
pub struct LoadRun {
    pub phase: LoadPhase,
    pub loaded: Vec<usize>,
}

impl LoadRun {
    /// A load that has not begun.
    pub fn new() -> (run: LoadRun)
        ensures
            run.phase == LoadPhase::Fresh,
            run.loaded@.len() == 0,
    {
        LoadRun { phase: LoadPhase::Fresh, loaded: Vec::new() }
    }

    /// Take the next step.
    pub fn step(&mut self, r: LoadReading) -> (action: LoadAction)
        ensures
            (final(self).phase, action) == load_next(old(self).phase, r),
            final(self).loaded@ == loaded_next(old(self).loaded@, old(self).phase, r),
    {
        let (phase, action): (LoadPhase, LoadAction) = match self.phase {
            LoadPhase::Fresh => (LoadPhase::Found, LoadAction::FindNext),
            LoadPhase::Found => match r.pending {
                Some(idx) => (LoadPhase::Executed(idx), LoadAction::Execute(idx)),
                None => (LoadPhase::Concluded, LoadAction::AfterLoads),
            },
            LoadPhase::Executed(idx) => (LoadPhase::Recorded(idx), LoadAction::Record(idx)),
            LoadPhase::Recorded(idx) => match r.commit {
                Commit::Lost => (LoadPhase::Concluded, LoadAction::AfterLoads),
                Commit::Failed => (LoadPhase::Found, LoadAction::FindNext),
                Commit::Ready => {
                    self.loaded.push(idx);
                    (LoadPhase::Found, LoadAction::FindNext)
                },
            },
            LoadPhase::Concluded => (LoadPhase::Absorbed, LoadAction::AbsorbCommands),
            LoadPhase::Absorbed => (LoadPhase::Unparked, LoadAction::Unpark),
            LoadPhase::Unparked => (LoadPhase::Captured, LoadAction::Capture),
            LoadPhase::Captured => if r.unparked {
                (LoadPhase::Built, LoadAction::ApplyLayout)
            } else {
                (LoadPhase::Notified, LoadAction::Notify)
            },
            LoadPhase::Built => (LoadPhase::Notified, LoadAction::Notify),
            LoadPhase::Notified => (LoadPhase::Closed, LoadAction::CloseUnregistered),
            LoadPhase::Closed => (LoadPhase::Withheld, LoadAction::ParkWithheld),
            LoadPhase::Withheld => (LoadPhase::Over, LoadAction::ParkUnsupplied),
            LoadPhase::Over => (LoadPhase::Over, LoadAction::Finished),
        };
        self.phase = phase;
        action
    }
}

/// Where a load is, what it has loaded and what it has done, after some
/// readings.
pub open spec fn load_trace(readings: Seq<LoadReading>) -> (LoadPhase, Seq<usize>, Seq<LoadAction>)
    decreases readings.len(),
{
    if readings.len() == 0 {
        (LoadPhase::Fresh, Seq::empty(), Seq::empty())
    } else {
        let (phase, loaded, actions) = load_trace(readings.drop_last());
        let (next, action) = load_next(phase, readings.last());
        (next, loaded_next(loaded, phase, readings.last()), actions.push(action))
    }
}

/// The step that an action stands for in the order of a load; the loading of
/// the plugins comes first.
pub open spec fn rank(action: LoadAction) -> int {
    match action {
        LoadAction::FindNext | LoadAction::Execute(_) | LoadAction::Record(_) => 0,
        LoadAction::AfterLoads => 1,
        LoadAction::AbsorbCommands => 2,
        LoadAction::Unpark => 3,
        LoadAction::Capture => 4,
        LoadAction::ApplyLayout => 5,
        LoadAction::Notify => 6,
        LoadAction::CloseUnregistered => 7,
        LoadAction::ParkWithheld => 8,
        LoadAction::ParkUnsupplied => 9,
        LoadAction::Finished => 10,
    }
}

/// The step that a load has come to.
pub open spec fn reached(phase: LoadPhase) -> int {
    match phase {
        LoadPhase::Fresh | LoadPhase::Found | LoadPhase::Executed(_) | LoadPhase::Recorded(_) => 0,
        LoadPhase::Concluded => 1,
        LoadPhase::Absorbed => 2,
        LoadPhase::Unparked => 3,
        LoadPhase::Captured => 4,
        LoadPhase::Built => 5,
        LoadPhase::Notified => 6,
        LoadPhase::Closed => 7,
        LoadPhase::Withheld => 8,
        LoadPhase::Over => 9,
    }
}

/// The steps of a load come in order: the commands are known and the panels
/// taken down before any plugin is told that it is loaded, and no panel is
/// closed or set aside before all were told.
pub proof fn load_steps_come_in_order(readings: Seq<LoadReading>, i: int, j: int)
    requires
        0 <= i <= j < readings.len(),
    ensures
        load_trace(readings).2.len() == readings.len(),
        rank(load_trace(readings).2[i]) <= rank(load_trace(readings).2[j]),
    decreases readings.len(),
{
    ranks_are_reached(readings, j);
    if j < readings.len() - 1 {
        load_steps_come_in_order(readings.drop_last(), i, j);
        ranks_are_reached(readings.drop_last(), j);
    } else if i < j {
        ranks_are_reached(readings.drop_last(), i);
    }
}

proof fn ranks_are_reached(readings: Seq<LoadReading>, i: int)
    requires
        0 <= i < readings.len(),
    ensures
        load_trace(readings).2.len() == readings.len(),
        rank(load_trace(readings).2[i]) <= reached(load_trace(readings).0) || (load_trace(
            readings,
        ).2[i] is Finished && load_trace(readings).0 is Over),
    decreases readings.len(),
{
    reveal_with_fuel(load_trace, 2);
    let before = readings.drop_last();
    if before.len() > 0 {
        ranks_are_reached(
            before,
            if i < before.len() {
                i
            } else {
                0
            },
        );
    }
}

/// The plugins whose loads were recorded as ready, in order.
pub open spec fn ready_plugins(readings: Seq<LoadReading>) -> Seq<usize>
    decreases readings.len(),
{
    if readings.len() == 0 {
        Seq::empty()
    } else {
        let before = readings.drop_last();
        match load_trace(before).0 {
            LoadPhase::Recorded(idx) if readings.last().commit == Commit::Ready => ready_plugins(
                before,
            ).push(idx),
            _ => ready_plugins(before),
        }
    }
}

/// A plugin counts as loaded exactly when its load was recorded as ready.
pub proof fn the_loaded_are_the_ready(readings: Seq<LoadReading>)
    ensures
        load_trace(readings).1 == ready_plugins(readings),
    decreases readings.len(),
{
    if readings.len() > 0 {
        the_loaded_are_the_ready(readings.drop_last());
    }
}

/// A load ends: once there is no plugin left to load, or the state is gone,
/// every step brings it closer to its end, whatever it is told.
pub proof fn loads_end(phase: LoadPhase, r: LoadReading)
    requires
        match phase {
            LoadPhase::Fresh | LoadPhase::Executed(_) => false,
            LoadPhase::Found => r.pending is None,
            LoadPhase::Recorded(_) => r.commit == Commit::Lost,
            _ => true,
        },
    ensures
        phase is Over ==> load_next(phase, r).0 is Over,
        !(phase is Over) ==> reached(phase) < reached(load_next(phase, r).0) <= reached(
            LoadPhase::Over,
        ),
{
}

/// A panel with what its record says.
#[derive(Copy, Clone, PartialEq, Eq, Structural, Debug)]
pub struct PanelRecord {
    pub panel: DockPanel,
    /// The panel is set aside.
    pub parked: bool,
    /// A command that opens it is recorded.
    pub has_command: bool,
    /// That command may be run.
    pub may_run: bool,
    /// The command, if its plugin has it.
    pub command: Option<i32>,
}

/// The command of a panel is run.
pub open spec fn runs(r: PanelRecord) -> bool {
    !r.parked && r.has_command && r.may_run && r.command is Some
}

/// The command of a panel is withheld.
pub open spec fn withholds(r: PanelRecord) -> bool {
    !r.parked && r.has_command && !r.may_run
}

/// The commands to run, in order, each once.
pub open spec fn commands_of(records: Seq<PanelRecord>) -> Seq<i32>
    decreases records.len(),
{
    if records.len() == 0 {
        Seq::empty()
    } else {
        let before = commands_of(records.drop_last());
        let r = records.last();
        if runs(r) && !before.contains(r.command->Some_0) {
            before.push(r.command->Some_0)
        } else {
            before
        }
    }
}

/// The panels whose commands are withheld, in order.
pub open spec fn withheld_of(records: Seq<PanelRecord>) -> Seq<DockPanel>
    decreases records.len(),
{
    if records.len() == 0 {
        Seq::empty()
    } else {
        let before = withheld_of(records.drop_last());
        if withholds(records.last()) {
            before.push(records.last().panel)
        } else {
            before
        }
    }
}

/// What bringing panels back comes to.
pub struct PanelCommands {
    /// The commands to run.
    pub run: Vec<i32>,
    /// The panels whose commands were withheld.
    pub withheld: Vec<DockPanel>,
    /// The tabs that were in front are to be brought to front again.
    pub restore_fronts: bool,
}

fn holds(commands: &Vec<i32>, cmd: i32) -> (r: bool)
    ensures
        r == commands@.contains(cmd),
{
    let mut i: usize = 0;
    while i < commands.len()
        invariant
            i <= commands@.len(),
            forall|j: int| 0 <= j < i ==> commands@[j] != cmd,
        decreases commands.len() - i,
    {
        if commands[i] == cmd {
            return true;
        }
        i += 1;
    }
    false
}

/// Work out which commands bring the panels back: those of the panels that are
/// not set aside, as far as they may be run. A command that opens several
/// panels runs once, for a second run might close them.
pub fn restore_plugin_panels(records: &Vec<PanelRecord>) -> (r: PanelCommands)
    ensures
        r.run@ == commands_of(records@),
        r.withheld@ == withheld_of(records@),
        r.restore_fronts == (r.run@.len() > 0),
{
    let mut run: Vec<i32> = Vec::new();
    let mut withheld: Vec<DockPanel> = Vec::new();
    let mut i: usize = 0;
    while i < records.len()
        invariant
            i <= records@.len(),
            run@ == commands_of(records@.take(i as int)),
            withheld@ == withheld_of(records@.take(i as int)),
        decreases records.len() - i,
    {
        assert(records@.take(i + 1).drop_last() =~= records@.take(i as int));
        let r: PanelRecord = records[i];
        if !r.parked && r.has_command {
            if !r.may_run {
                withheld.push(r.panel);
            } else if let Some(cmd) = r.command {
                if !holds(&run, cmd) {
                    run.push(cmd);
                }
            }
        }
        i += 1;
    }
    assert(records@.take(i as int) =~= records@);
    let restore_fronts: bool = run.len() > 0;
    PanelCommands { run, withheld, restore_fronts }
}

/// No command runs twice, and none runs but that of a panel whose record may be
/// trusted to run it.
pub proof fn only_trusted_commands_run(records: Seq<PanelRecord>, i: int)
    requires
        0 <= i < commands_of(records).len(),
    ensures
        exists|k: int|
            0 <= k < records.len() && runs(#[trigger] records[k]) && records[k].command == Some(
                commands_of(records)[i],
            ),
        forall|j: int|
            0 <= j < commands_of(records).len() && j != i ==> #[trigger] commands_of(records)[j]
                != commands_of(records)[i],
    decreases records.len(),
{
    let before = records.drop_last();
    let prior = commands_of(before);
    let all = commands_of(records);
    if i < prior.len() {
        only_trusted_commands_run(before, i);
        let k = choose|k: int|
            0 <= k < before.len() && runs(#[trigger] before[k]) && before[k].command == Some(
                prior[i],
            );
        assert(records[k] == before[k]);
        assert(all[i] == prior[i]);
        assert forall|j: int| 0 <= j < all.len() && j != i implies #[trigger] all[j] != all[i] by {
            if j < prior.len() {
                assert(all[j] == prior[j]);
            } else {
                assert(prior.contains(prior[i]));
            }
        }
    } else {
        assert(runs(records[records.len() - 1]));
        assert forall|j: int| 0 <= j < all.len() && j != i implies #[trigger] all[j] != all[i] by {
            assert(all[j] == prior[j]);
            assert(prior.contains(prior[j]));
        }
    }
}

/// A panel after the plugins were told, as far as closing it goes.
#[derive(Copy, Clone, PartialEq, Eq, Structural, Debug)]
pub struct RestoredPanel {
    pub panel: DockPanel,
    pub registered: bool,
    pub visible: bool,
}

/// The panels of some that fulfil a condition.
pub open spec fn panels_where(
    panels: Seq<RestoredPanel>,
    wanted: spec_fn(RestoredPanel) -> bool,
) -> Seq<DockPanel>
    decreases panels.len(),
{
    if panels.len() == 0 {
        Seq::empty()
    } else {
        let before = panels_where(panels.drop_last(), wanted);
        if wanted(panels.last()) {
            before.push(panels.last().panel)
        } else {
            before
        }
    }
}

/// The panels to close: nobody registered them, though nothing was withheld
/// from them, and they are to be seen.
pub open spec fn closes(withheld: Seq<DockPanel>) -> spec_fn(RestoredPanel) -> bool {
    |p: RestoredPanel| !withheld.contains(p.panel) && !p.registered && p.visible
}

/// The panels to close among those that were brought back.
pub fn close_unregistered_restored_panels(
    restored: &Vec<RestoredPanel>,
    withheld: &Vec<DockPanel>,
) -> (r: Vec<DockPanel>)
    ensures
        r@ == panels_where(restored@, closes(withheld@)),
{
    let mut out: Vec<DockPanel> = Vec::new();
    let mut i: usize = 0;
    while i < restored.len()
        invariant
            i <= restored@.len(),
            out@ == panels_where(restored@.take(i as int), closes(withheld@)),
        decreases restored.len() - i,
    {
        assert(restored@.take(i + 1).drop_last() =~= restored@.take(i as int));
        let p: RestoredPanel = restored[i];
        if !contains_panel(withheld, p.panel) && !p.registered && p.visible {
            out.push(p.panel);
        }
        i += 1;
    }
    assert(restored@.take(i as int) =~= restored@);
    out
}

/// A panel to set aside: its command was withheld, nobody registered it all the
/// same, and it is to be seen.
pub open spec fn waits() -> spec_fn(RestoredPanel) -> bool {
    |p: RestoredPanel| !p.registered && p.visible
}

/// The panels to set aside among those whose commands were withheld.
pub fn park_withheld_panels(withheld: &Vec<RestoredPanel>) -> (r: Vec<DockPanel>)
    ensures
        r@ == panels_where(withheld@, waits()),
{
    let mut out: Vec<DockPanel> = Vec::new();
    let mut i: usize = 0;
    while i < withheld.len()
        invariant
            i <= withheld@.len(),
            out@ == panels_where(withheld@.take(i as int), waits()),
        decreases withheld.len() - i,
    {
        assert(withheld@.take(i + 1).drop_last() =~= withheld@.take(i as int));
        let p: RestoredPanel = withheld[i];
        if !p.registered && p.visible {
            out.push(p.panel);
        }
        i += 1;
    }
    assert(withheld@.take(i as int) =~= withheld@);
    out
}

proof fn panels_where_means(
    panels: Seq<RestoredPanel>,
    wanted: spec_fn(RestoredPanel) -> bool,
    i: int,
)
    requires
        0 <= i < panels_where(panels, wanted).len(),
    ensures
        exists|k: int|
            0 <= k < panels.len() && wanted(#[trigger] panels[k]) && panels[k].panel
                == panels_where(panels, wanted)[i],
    decreases panels.len(),
{
    let before = panels.drop_last();
    if i < panels_where(before, wanted).len() {
        panels_where_means(before, wanted, i);
        let k = choose|k: int|
            0 <= k < before.len() && wanted(#[trigger] before[k]) && before[k].panel
                == panels_where(before, wanted)[i];
        assert(panels[k] == before[k]);
    } else {
        assert(wanted(panels[panels.len() - 1]));
    }
}

/// A panel whose command was withheld is not closed, and neither is one that
/// was registered.
pub proof fn a_withheld_panel_is_not_closed(
    restored: Seq<RestoredPanel>,
    withheld: Seq<DockPanel>,
    i: int,
)
    requires
        0 <= i < panels_where(restored, closes(withheld)).len(),
    ensures
        !withheld.contains(panels_where(restored, closes(withheld))[i]),
        exists|k: int|
            0 <= k < restored.len() && !(#[trigger] restored[k]).registered && restored[k].panel
                == panels_where(restored, closes(withheld))[i],
{
    panels_where_means(restored, closes(withheld), i);
    let k = choose|k: int|
        0 <= k < restored.len() && closes(withheld)(#[trigger] restored[k]) && restored[k].panel
            == panels_where(restored, closes(withheld))[i];
    assert(!restored[k].registered);
}

/// A panel with the question whether its record is trusted.
#[derive(Copy, Clone, PartialEq, Eq, Structural, Debug)]
pub struct ParkedPanel {
    pub panel: DockPanel,
    pub trusted: bool,
}

/// The trusted panels of some, in order.
pub open spec fn trusted_of(parked: Seq<ParkedPanel>) -> Seq<DockPanel>
    decreases parked.len(),
{
    if parked.len() == 0 {
        Seq::empty()
    } else {
        let before = trusted_of(parked.drop_last());
        if parked.last().trusted {
            before.push(parked.last().panel)
        } else {
            before
        }
    }
}

/// The panels to put back in their places, among those that were set aside and
/// whose plugins were just loaded: the ones whose records are trusted. The
/// others would come back empty.
pub fn unpark_loaded_plugins_panels(parked: &Vec<ParkedPanel>) -> (r: Vec<DockPanel>)
    ensures
        r@ == trusted_of(parked@),
{
    let mut out: Vec<DockPanel> = Vec::new();
    let mut i: usize = 0;
    while i < parked.len()
        invariant
            i <= parked@.len(),
            out@ == trusted_of(parked@.take(i as int)),
        decreases parked.len() - i,
    {
        assert(parked@.take(i + 1).drop_last() =~= parked@.take(i as int));
        if parked[i].trusted {
            out.push(parked[i].panel);
        }
        i += 1;
    }
    assert(parked@.take(i as int) =~= parked@);
    out
}

/// An open panel, with whether a plugin has registered it.
#[derive(Copy, Clone, PartialEq, Eq, Structural, Debug)]
pub struct OpenPanel {
    pub panel: DockPanel,
    pub registered: bool,
}

/// The open panels that nobody has registered, in order.
pub open spec fn widgetless_of(open: Seq<OpenPanel>) -> Seq<DockPanel>
    decreases open.len(),
{
    if open.len() == 0 {
        Seq::empty()
    } else {
        let before = widgetless_of(open.drop_last());
        if !open.last().registered {
            before.push(open.last().panel)
        } else {
            before
        }
    }
}

/// The open panels that have nothing in them: the host is asked which of these
/// no loaded plugin can fill, and those are set aside. A panel with a widget
/// never is.
pub fn park_unsupplied_plugin_panels(open: &Vec<OpenPanel>) -> (r: Vec<DockPanel>)
    ensures
        r@ == widgetless_of(open@),
{
    let mut out: Vec<DockPanel> = Vec::new();
    let mut i: usize = 0;
    while i < open.len()
        invariant
            i <= open@.len(),
            out@ == widgetless_of(open@.take(i as int)),
        decreases open.len() - i,
    {
        assert(open@.take(i + 1).drop_last() =~= open@.take(i as int));
        if !open[i].registered {
            out.push(open[i].panel);
        }
        i += 1;
    }
    assert(open@.take(i as int) =~= open@);
    out
}

/// Each plugin that is found is executed and then recorded, it and no other,
/// before the next one is looked for; one that is ready counts as loaded. When
/// none is left, or the state is gone, the load goes on to its conclusions.
pub proof fn each_plugin_is_loaded_in_turn(idx: usize, loaded: Seq<usize>, r: LoadReading)
    ensures
        load_next(LoadPhase::Fresh, r) == (LoadPhase::Found, LoadAction::FindNext),
        r.pending == Some(idx) ==> load_next(LoadPhase::Found, r) == (
            LoadPhase::Executed(idx),
            LoadAction::Execute(idx),
        ),
        r.pending is None ==> load_next(LoadPhase::Found, r).1 == LoadAction::AfterLoads,
        load_next(LoadPhase::Executed(idx), r) == (
            LoadPhase::Recorded(idx),
            LoadAction::Record(idx),
        ),
        r.commit == Commit::Lost ==> load_next(LoadPhase::Recorded(idx), r).1
            == LoadAction::AfterLoads && loaded_next(loaded, LoadPhase::Recorded(idx), r) == loaded,
        r.commit == Commit::Failed ==> load_next(LoadPhase::Recorded(idx), r).1
            == LoadAction::FindNext && loaded_next(loaded, LoadPhase::Recorded(idx), r) == loaded,
        r.commit == Commit::Ready ==> load_next(LoadPhase::Recorded(idx), r).1
            == LoadAction::FindNext && loaded_next(loaded, LoadPhase::Recorded(idx), r)
            == loaded.push(idx),
        forall|phase: LoadPhase| !(phase is Recorded) ==> #[trigger] loaded_next(loaded, phase, r)
            == loaded,
{
}

/// Once the plugins are through, a load does each of these once and in this
/// order, and builds the layout in between exactly if panels were put back.
pub proof fn a_load_ends_in_order(later: Seq<LoadReading>, unparked: bool)
    requires
        later.len() == 9,
        forall|i: int| 0 <= i < 9 ==> (#[trigger] later[i]).unparked == unparked,
    ensures
        ({
            let a0 = load_next(LoadPhase::Concluded, later[0]);
            let a1 = load_next(a0.0, later[1]);
            let a2 = load_next(a1.0, later[2]);
            let a3 = load_next(a2.0, later[3]);
            let a4 = load_next(a3.0, later[4]);
            let a5 = load_next(a4.0, later[5]);
            let a6 = load_next(a5.0, later[6]);
            let a7 = load_next(a6.0, later[7]);
            &&& a0.1 == LoadAction::AbsorbCommands
            &&& a1.1 == LoadAction::Unpark
            &&& a2.1 == LoadAction::Capture
            &&& unparked ==> a3.1 == LoadAction::ApplyLayout && a4.1 == LoadAction::Notify && a5.1
                == LoadAction::CloseUnregistered && a6.1 == LoadAction::ParkWithheld && a7.1
                == LoadAction::ParkUnsupplied
            &&& !unparked ==> a3.1 == LoadAction::Notify && a4.1 == LoadAction::CloseUnregistered
                && a5.1 == LoadAction::ParkWithheld && a6.1 == LoadAction::ParkUnsupplied && a7.1
                == LoadAction::Finished
        }),
{
    assert(later[3].unparked == unparked);
}

/// A command is run exactly if some panel that is not set aside has it recorded
/// as one that may be run and its plugin has it; and it is run once.
pub proof fn a_trusted_command_is_run(records: Seq<PanelRecord>, cmd: i32)
    ensures
        commands_of(records).contains(cmd) <==> exists|k: int|
            0 <= k < records.len() && !(#[trigger] records[k]).parked && records[k].has_command
                && records[k].may_run && records[k].command == Some(cmd),
        commands_of(records).no_duplicates(),
    decreases records.len(),
{
    if records.len() > 0 {
        let less = records.drop_last();
        let before = commands_of(less);
        let all = commands_of(records);
        let r = records.last();
        a_trusted_command_is_run(less, cmd);
        assert(records[records.len() - 1] == r);
        if before.contains(cmd) {
            let k = choose|k: int| 0 <= k < before.len() && before[k] == cmd;
            assert(all[k] == cmd);
            let n = choose|n: int|
                0 <= n < less.len() && !(#[trigger] less[n]).parked && less[n].has_command
                    && less[n].may_run && less[n].command == Some(cmd);
            assert(records[n] == less[n]);
        }
        if runs(r) && r.command == Some(cmd) && !before.contains(cmd) {
            assert(all[before.len() as int] == cmd);
        }
        if all.contains(cmd) && !before.contains(cmd) {
            let k = choose|k: int| 0 <= k < all.len() && all[k] == cmd;
            if k < before.len() {
                assert(before[k] == cmd);
            }
        }
        if exists|k: int|
            0 <= k < records.len() && !(#[trigger] records[k]).parked && records[k].has_command
                && records[k].may_run && records[k].command == Some(cmd) {
            let n = choose|k: int|
                0 <= k < records.len() && !(#[trigger] records[k]).parked && records[k].has_command
                    && records[k].may_run && records[k].command == Some(cmd);
            if n < less.len() {
                assert(less[n] == records[n]);
            } else {
                assert(runs(r));
            }
        }
    }
}

/// Commands run in the order of the panels they open, the first of them
/// counting.
pub proof fn commands_run_in_order(records: Seq<PanelRecord>, r: PanelRecord)
    ensures
        ({
            let before = commands_of(records);
            let after = commands_of(records.push(r));
            if !r.parked && r.has_command && r.may_run && r.command is Some && !before.contains(
                r.command->0,
            ) {
                after == before.push(r.command->0)
            } else {
                after == before
            }
        }),
        commands_of(Seq::<PanelRecord>::empty()).len() == 0,
{
    assert(records.push(r).drop_last() =~= records);
}

/// The panels whose commands are withheld are those that are not set aside and
/// have a command recorded that may not be run, in order.
pub proof fn withheld_panels_are_told(records: Seq<PanelRecord>, r: PanelRecord)
    ensures
        ({
            let before = withheld_of(records);
            let after = withheld_of(records.push(r));
            if !r.parked && r.has_command && !r.may_run {
                after == before.push(r.panel)
            } else {
                after == before
            }
        }),
        withheld_of(Seq::<PanelRecord>::empty()).len() == 0,
{
    assert(records.push(r).drop_last() =~= records);
}

/// A restored panel is closed exactly if it is to be seen and nobody registered
/// it, unless its command was withheld; a withheld one is set aside under the
/// same conditions. Panels keep their order in both.
pub proof fn an_empty_panel_is_closed_or_set_aside(
    panels: Seq<RestoredPanel>,
    p: RestoredPanel,
    withheld: Seq<DockPanel>,
)
    ensures
        ({
            let before = panels_where(panels, closes(withheld));
            let after = panels_where(panels.push(p), closes(withheld));
            if p.visible && !p.registered && !withheld.contains(p.panel) {
                after == before.push(p.panel)
            } else {
                after == before
            }
        }),
        ({
            let before = panels_where(panels, waits());
            let after = panels_where(panels.push(p), waits());
            if p.visible && !p.registered {
                after == before.push(p.panel)
            } else {
                after == before
            }
        }),
        panels_where(Seq::<RestoredPanel>::empty(), closes(withheld)).len() == 0,
        panels_where(Seq::<RestoredPanel>::empty(), waits()).len() == 0,
{
    assert(panels.push(p).drop_last() =~= panels);
}

/// A panel that was set aside comes back exactly if its record is trusted, and
/// an open one is asked about exactly if nobody has registered it; both in
/// order.
pub proof fn only_trusted_panels_come_back(
    parked: Seq<ParkedPanel>,
    p: ParkedPanel,
    open: Seq<OpenPanel>,
    o: OpenPanel,
)
    ensures
        trusted_of(parked.push(p)) == if p.trusted {
            trusted_of(parked).push(p.panel)
        } else {
            trusted_of(parked)
        },
        widgetless_of(open.push(o)) == if o.registered {
            widgetless_of(open)
        } else {
            widgetless_of(open).push(o.panel)
        },
        trusted_of(Seq::<ParkedPanel>::empty()).len() == 0,
        widgetless_of(Seq::<OpenPanel>::empty()).len() == 0,
{
    assert(parked.push(p).drop_last() =~= parked);
    assert(open.push(o).drop_last() =~= open);
}

/// The tabs that were in front are brought to front again exactly if a command
/// is run.
pub proof fn fronts_come_back_after_commands(records: Vec<PanelRecord>, r: PanelCommands)
    requires
        call_ensures(restore_plugin_panels, (&records,), r),
    ensures
        r.restore_fronts <==> r.run@.len() > 0,
        r.run@ == commands_of(records@),
        r.withheld@ == withheld_of(records@),
{
}

} // verus!
