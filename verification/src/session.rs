//! Bringing the last session back.
//!
//! [`RestoreRun`] decides, one step at a time, what to ask of the shell: the
//! saved entries in order, the tab that was in front, the file named on the
//! command line, and a fresh buffer if all that gave none. Before each step it
//! is told how the shell stands.
use vstd::prelude::*;
use crate::dock_geometry::WindowGeometry;

verus! {

/// What a saved entry is brought back from.
#[derive(Clone, Copy, PartialEq, Eq, Structural, Debug)]
pub enum EntryKind {
    /// A file that is read again.
    OpenFile,
    /// A buffer without a file, from its backup.
    UntitledFromBackup,
    /// A file with unsaved edits, from its backup.
    DirtyFromBackup,
}

/// What to ask of the shell. An entry is named by its index.
#[derive(Clone, Copy, PartialEq, Eq, Structural, Debug)]
pub enum RestoreAction {
    Open(usize),
    RestoreUntitled(usize),
    RestoreDirty(usize),
    /// Bind the view to the active tab.
    Rebind,
    /// Make this tab the active one.
    Activate(usize),
    /// Open the file named on the command line.
    OpenInitial,
    NewUntitled,
    /// Apply what the workers have finished.
    Drain,
    /// Put the caret of the active tab back.
    ReseedCaret,
    Done,
}

/// How the shell stands before a step.
#[derive(Clone, Copy, PartialEq, Eq, Structural, Debug)]
pub struct ShellReading {
    /// The file that was just opened was open already, and its tab was
    /// switched to.
    pub switched_to_existing: bool,
    pub tab_count: usize,
    /// The tab that was in front when the session was saved.
    pub session_active: Option<usize>,
}

/// Where a restore stands.
#[derive(Clone, Copy, PartialEq, Eq, Structural, Debug)]
pub enum Phase {
    /// At the entry of this index.
    Entry(usize),
    /// The file of the entry of this index was just opened.
    Opened(usize),
    /// Entries and active tab are done.
    Initial,
    /// The file of the command line was just opened.
    InitialOpened,
    /// All that was to be opened is.
    Tabs,
    /// There is a tab.
    Draining,
    Binding,
    Caret,
    Finished,
}

/// A restore under way.
pub struct RestoreRun {
    entries: Vec<EntryKind>,
    has_initial: bool,
    phase: Phase,
}

/// The action for the entry of index `i`.
pub open spec fn entry_action(kind: EntryKind, i: int) -> RestoreAction {
    match kind {
        EntryKind::OpenFile => RestoreAction::Open(i as usize),
        EntryKind::UntitledFromBackup => RestoreAction::RestoreUntitled(i as usize),
        EntryKind::DirtyFromBackup => RestoreAction::RestoreDirty(i as usize),
    }
}

/// The last part of a restore: a tab if there is none, then a drain.
pub open spec fn from_tabs(r: ShellReading) -> (Phase, RestoreAction) {
    if r.tab_count == 0 {
        (Phase::Draining, RestoreAction::NewUntitled)
    } else {
        (Phase::Binding, RestoreAction::Drain)
    }
}

/// On from where the entries and the active tab are done.
pub open spec fn from_initial(has_initial: bool, r: ShellReading) -> (Phase, RestoreAction) {
    if has_initial {
        (Phase::InitialOpened, RestoreAction::OpenInitial)
    } else {
        from_tabs(r)
    }
}

/// On from the entry of index `i`. After the last one, the tab that was in
/// front becomes the active one, if there is such a tab.
pub open spec fn from_entry(
    entries: Seq<EntryKind>,
    i: int,
    has_initial: bool,
    r: ShellReading,
) -> (Phase, RestoreAction) {
    if i < entries.len() {
        (
            if entries[i] == EntryKind::OpenFile {
                Phase::Opened(i as usize)
            } else {
                Phase::Entry((i + 1) as usize)
            },
            entry_action(entries[i], i),
        )
    } else {
        match r.session_active {
            Some(front) if front < r.tab_count => (Phase::Initial, RestoreAction::Activate(front)),
            _ => from_initial(has_initial, r),
        }
    }
}

/// One step of a restore.
pub open spec fn restore_next(
    entries: Seq<EntryKind>,
    has_initial: bool,
    phase: Phase,
    r: ShellReading,
) -> (Phase, RestoreAction) {
    match phase {
        Phase::Entry(i) => from_entry(entries, i as int, has_initial, r),
        Phase::Opened(i) => if r.switched_to_existing {
            (Phase::Entry((i + 1) as usize), RestoreAction::Rebind)
        } else {
            from_entry(entries, i + 1, has_initial, r)
        },
        Phase::Initial => from_initial(has_initial, r),
        Phase::InitialOpened => if r.switched_to_existing {
            (Phase::Tabs, RestoreAction::Rebind)
        } else {
            from_tabs(r)
        },
        Phase::Tabs => from_tabs(r),
        Phase::Draining => (Phase::Binding, RestoreAction::Drain),
        Phase::Binding => (Phase::Caret, RestoreAction::Rebind),
        Phase::Caret => (Phase::Finished, RestoreAction::ReseedCaret),
        Phase::Finished => (Phase::Finished, RestoreAction::Done),
    }
}

/// A phase that a restore of these entries can be in.
pub open spec fn phase_fits(entries: Seq<EntryKind>, phase: Phase) -> bool {
    match phase {
        Phase::Entry(i) => i <= entries.len(),
        Phase::Opened(i) => i < entries.len(),
        _ => true,
    }
}

impl RestoreRun {
    pub closed spec fn entries(&self) -> Seq<EntryKind> {
        self.entries@
    }

    pub closed spec fn has_initial(&self) -> bool {
        self.has_initial
    }

    pub closed spec fn phase(&self) -> Phase {
        self.phase
    }

    pub open spec fn wf(&self) -> bool {
        phase_fits(self.entries(), self.phase())
    }

    /// A restore of `entries`, followed by the file of the command line if
    /// there is one.
    pub fn new(entries: Vec<EntryKind>, has_initial: bool) -> (run: RestoreRun)
        ensures
            run.wf(),
            run.entries() == entries@,
            run.has_initial() == has_initial,
            run.phase() == Phase::Entry(0),
    {
        RestoreRun { entries, has_initial, phase: Phase::Entry(0) }
    }

    /// The next thing to do, given how the shell stands.
    pub fn step(&mut self, r: ShellReading) -> (action: RestoreAction)
        requires
            old(self).wf(),
        ensures
            final(self).wf(),
            final(self).entries() == old(self).entries(),
            final(self).has_initial() == old(self).has_initial(),
            (final(self).phase(), action) == restore_next(
                old(self).entries(),
                old(self).has_initial(),
                old(self).phase(),
                r,
            ),
    {
        let count: usize = self.entries.len();
        assert(self.entries@.len() == count);
        match self.phase {
            Phase::Entry(i) => self.at_entry(i, r),
            Phase::Opened(i) => if r.switched_to_existing {
                self.phase = Phase::Entry(i + 1);
                RestoreAction::Rebind
            } else {
                self.at_entry(i + 1, r)
            },
            Phase::Initial => self.at_initial(r),
            Phase::InitialOpened => if r.switched_to_existing {
                self.phase = Phase::Tabs;
                RestoreAction::Rebind
            } else {
                self.at_tabs(r)
            },
            Phase::Tabs => self.at_tabs(r),
            Phase::Draining => {
                self.phase = Phase::Binding;
                RestoreAction::Drain
            },
            Phase::Binding => {
                self.phase = Phase::Caret;
                RestoreAction::Rebind
            },
            Phase::Caret => {
                self.phase = Phase::Finished;
                RestoreAction::ReseedCaret
            },
            Phase::Finished => RestoreAction::Done,
        }
    }

    fn at_entry(&mut self, i: usize, r: ShellReading) -> (action: RestoreAction)
        requires
            i <= old(self).entries().len(),
        ensures
            final(self).wf(),
            final(self).entries() == old(self).entries(),
            final(self).has_initial() == old(self).has_initial(),
            (final(self).phase(), action) == from_entry(
                old(self).entries(),
                i as int,
                old(self).has_initial(),
                r,
            ),
    {
        if i < self.entries.len() {
            match self.entries[i] {
                EntryKind::OpenFile => {
                    self.phase = Phase::Opened(i);
                    RestoreAction::Open(i)
                },
                EntryKind::UntitledFromBackup => {
                    self.phase = Phase::Entry(i + 1);
                    RestoreAction::RestoreUntitled(i)
                },
                EntryKind::DirtyFromBackup => {
                    self.phase = Phase::Entry(i + 1);
                    RestoreAction::RestoreDirty(i)
                },
            }
        } else {
            if let Some(front) = r.session_active {
                if front < r.tab_count {
                    self.phase = Phase::Initial;
                    return RestoreAction::Activate(front);
                }
            }
            self.at_initial(r)
        }
    }

    fn at_initial(&mut self, r: ShellReading) -> (action: RestoreAction)
        ensures
            final(self).wf(),
            final(self).entries() == old(self).entries(),
            final(self).has_initial() == old(self).has_initial(),
            (final(self).phase(), action) == from_initial(old(self).has_initial(), r),
    {
        if self.has_initial {
            self.phase = Phase::InitialOpened;
            RestoreAction::OpenInitial
        } else {
            self.at_tabs(r)
        }
    }

    fn at_tabs(&mut self, r: ShellReading) -> (action: RestoreAction)
        ensures
            final(self).wf(),
            final(self).entries() == old(self).entries(),
            final(self).has_initial() == old(self).has_initial(),
            (final(self).phase(), action) == from_tabs(r),
    {
        if r.tab_count == 0 {
            self.phase = Phase::Draining;
            RestoreAction::NewUntitled
        } else {
            self.phase = Phase::Binding;
            RestoreAction::Drain
        }
    }
}

/// A restore from `phase` on, over a row of readings: where it ends up, and
/// what it asked for.
pub open spec fn restore_trace(
    entries: Seq<EntryKind>,
    has_initial: bool,
    phase: Phase,
    readings: Seq<ShellReading>,
) -> (Phase, Seq<RestoreAction>)
    decreases readings.len(),
{
    if readings.len() == 0 {
        (phase, Seq::empty())
    } else {
        let (at, before) = restore_trace(entries, has_initial, phase, readings.drop_last());
        let (next, action) = restore_next(entries, has_initial, at, readings.last());
        (next, before.push(action))
    }
}

/// An action that brings an entry back.
pub open spec fn restores_entry(a: RestoreAction) -> bool {
    a is Open || a is RestoreUntitled || a is RestoreDirty
}

/// Of a row of actions, those that bring entries back.
pub open spec fn entry_actions(actions: Seq<RestoreAction>) -> Seq<RestoreAction>
    decreases actions.len(),
{
    if actions.len() == 0 {
        Seq::empty()
    } else if restores_entry(actions.last()) {
        entry_actions(actions.drop_last()).push(actions.last())
    } else {
        entry_actions(actions.drop_last())
    }
}

/// How many entries a restore that has come to `phase` has been through.
pub open spec fn entries_done(entries: Seq<EntryKind>, phase: Phase) -> nat {
    match phase {
        Phase::Entry(i) => i as nat,
        Phase::Opened(i) => (i + 1) as nat,
        _ => entries.len(),
    }
}

/// A restore goes through the saved entries from the first to the last, each
/// once and each in the way its kind asks for; it turns to anything else only
/// after the last.
pub proof fn entries_come_back_in_order(
    entries: Seq<EntryKind>,
    has_initial: bool,
    readings: Seq<ShellReading>,
)
    requires
        entries.len() < usize::MAX,
    ensures
        ({
            let (phase, actions) = restore_trace(entries, has_initial, Phase::Entry(0), readings);
            &&& phase_fits(entries, phase)
            &&& entry_actions(actions) == Seq::new(
                entries_done(entries, phase),
                |i: int| entry_action(entries[i], i),
            )
        }),
    decreases readings.len(),
{
    let (phase, actions) = restore_trace(entries, has_initial, Phase::Entry(0), readings);
    let expected = Seq::new(entries_done(entries, phase), |i: int| entry_action(entries[i], i));
    if readings.len() > 0 {
        let t = readings.drop_last();
        entries_come_back_in_order(entries, has_initial, t);
        let (at, before) = restore_trace(entries, has_initial, Phase::Entry(0), t);
        assert(actions.drop_last() =~= before);
        assert(entry_actions(actions) =~= expected);
    } else {
        assert(entry_actions(actions) =~= expected);
    }
}

/// How many more steps a restore can take from `phase` on.
pub open spec fn steps_left(entries: Seq<EntryKind>, phase: Phase) -> int {
    match phase {
        Phase::Entry(i) => 2 * (entries.len() - i) + 7,
        Phase::Opened(i) => 2 * (entries.len() - i) + 6,
        Phase::Initial => 6,
        Phase::InitialOpened => 5,
        Phase::Tabs => 4,
        Phase::Draining => 3,
        Phase::Binding => 2,
        Phase::Caret => 1,
        Phase::Finished => 0,
    }
}

/// Every step brings a restore nearer to its end, whatever the shell answers.
pub proof fn restores_end(
    entries: Seq<EntryKind>,
    has_initial: bool,
    phase: Phase,
    r: ShellReading,
)
    requires
        entries.len() < usize::MAX,
        phase_fits(entries, phase),
        phase != Phase::Finished,
    ensures
        phase_fits(entries, restore_next(entries, has_initial, phase, r).0),
        0 <= steps_left(entries, restore_next(entries, has_initial, phase, r).0) < steps_left(
            entries,
            phase,
        ),
{
}

/// However a restore goes, it ends by applying what is ready, binding the view
/// to the active tab and putting the caret back, in this order; and a restore
/// that is about to do so has a tab or has just asked for one.
pub proof fn a_restore_ends_bound(
    entries: Seq<EntryKind>,
    has_initial: bool,
    phase: Phase,
    r: ShellReading,
    later: Seq<ShellReading>,
)
    requires
        phase_fits(entries, phase),
        restore_next(entries, has_initial, phase, r).1 == RestoreAction::Drain,
        later.len() == 3,
    ensures
        restore_trace(entries, has_initial, restore_next(entries, has_initial, phase, r).0, later).1
            == seq![RestoreAction::Rebind, RestoreAction::ReseedCaret, RestoreAction::Done],
        phase == Phase::Draining || r.tab_count > 0,
        forall|p: Phase, q: ShellReading| #[trigger]
            restore_next(entries, has_initial, p, q).0 == Phase::Draining ==> restore_next(
                entries,
                has_initial,
                p,
                q,
            ).1 == RestoreAction::NewUntitled,
{
    let next = restore_next(entries, has_initial, phase, r).0;
    assert(next == Phase::Binding);
    reveal_with_fuel(restore_trace, 4);
    assert(later.drop_last().drop_last().drop_last() =~= Seq::<ShellReading>::empty());
    assert(restore_trace(entries, has_initial, next, later).1 =~= seq![
        RestoreAction::Rebind,
        RestoreAction::ReseedCaret,
        RestoreAction::Done,
    ]);
}

/// The file of the command line is opened after the whole session, so that it
/// ends up in front: nothing after it restores an entry or picks another tab.
pub proof fn the_command_line_comes_last(
    entries: Seq<EntryKind>,
    has_initial: bool,
    readings: Seq<ShellReading>,
)
    ensures
        ({
            let (phase, actions) = restore_trace(
                entries,
                has_initial,
                Phase::InitialOpened,
                readings,
            );
            &&& forall|i: int|
                0 <= i < actions.len() ==> !restores_entry(#[trigger] actions[i]) && !(actions[i] is Activate)
                    && !(actions[i] is OpenInitial)
            &&& phase is InitialOpened || phase is Tabs || phase is Draining || phase is Binding
                || phase is Caret || phase is Finished
        }),
    decreases readings.len(),
{
    if readings.len() > 0 {
        the_command_line_comes_last(entries, has_initial, readings.drop_last());
    }
}

/// Where to put the caret after a restore: to the saved place of the tab that
/// was in front, if that tab is the active one and was saved.
pub fn reseed_active_caret(
    session_active: Option<usize>,
    active_tab: Option<usize>,
    saved_cursors: &Vec<u64>,
) -> (r: Option<u64>)
    ensures
        r == match session_active {
            Some(front) if active_tab == Some(front) && front < saved_cursors@.len() => Some(
                saved_cursors@[front as int],
            ),
            _ => None,
        },
{
    match (session_active, active_tab) {
        (Some(front), Some(active)) => if front == active && front < saved_cursors.len() {
            Some(saved_cursors[front])
        } else {
            None
        },
        _ => None,
    }
}

/// What is done to the window before it first shows.
#[derive(Clone, Copy, PartialEq, Eq, Debug)]
pub struct WindowRestore {
    pub size: Option<(i32, i32)>,
    pub maximize: bool,
}

/// How the window opens: at the saved size if both extents were saved and are
/// positive, and maximized if it was.
pub fn restore_window_geometry(saved: Option<WindowGeometry>) -> (r: WindowRestore)
    ensures
        r.size == match saved {
            Some(g) => match (g.width, g.height) {
                (Some(w), Some(h)) if w > 0 && h > 0 => Some((w, h)),
                _ => None,
            },
            None => None,
        },
        r.maximize == (saved matches Some(g) && g.maximized),
{
    match saved {
        Some(g) => {
            let size: Option<(i32, i32)> = match (g.width, g.height) {
                (Some(w), Some(h)) => if w > 0 && h > 0 {
                    Some((w, h))
                } else {
                    None
                },
                _ => None,
            };
            WindowRestore { size, maximize: g.maximized }
        },
        None => WindowRestore { size: None, maximize: false },
    }
}

/// After the last entry a restore brings the tab to the front that was in front
/// when the session was saved, if there is such a tab, and no other tab is ever
/// asked for.
pub proof fn the_front_tab_comes_back(
    entries: Seq<EntryKind>,
    has_initial: bool,
    phase: Phase,
    r: ShellReading,
)
    requires
        entries.len() < usize::MAX,
        phase_fits(entries, phase),
    ensures
        restore_next(entries, has_initial, phase, r).1 matches RestoreAction::Activate(i) ==> {
            &&& r.session_active == Some(i)
            &&& i < r.tab_count
            &&& phase == Phase::Entry(entries.len() as usize) || (!r.switched_to_existing && phase
                == Phase::Opened((entries.len() - 1) as usize))
        },
        r.session_active matches Some(front) && front < r.tab_count && (phase == Phase::Entry(
            entries.len() as usize,
        ) || (entries.len() > 0 && !r.switched_to_existing && phase == Phase::Opened(
            (entries.len() - 1) as usize,
        ))) ==> restore_next(entries, has_initial, phase, r).1 == RestoreAction::Activate(
            r.session_active->0,
        ),
{
}

/// Each entry is brought back in the way its kind asks for: a file is opened, a
/// buffer without a file and a file with unsaved edits come from their backups.
/// An open that only switched to a tab that was there has the view bound before
/// anything else.
pub proof fn an_entry_comes_back_by_its_kind(
    entries: Seq<EntryKind>,
    has_initial: bool,
    i: usize,
    r: ShellReading,
)
    requires
        i < entries.len() < usize::MAX,
    ensures
        ({
            let (next, action) = restore_next(entries, has_initial, Phase::Entry(i), r);
            &&& entries[i as int] == EntryKind::OpenFile <==> action == RestoreAction::Open(i)
            &&& entries[i as int] == EntryKind::UntitledFromBackup <==> action
                == RestoreAction::RestoreUntitled(i)
            &&& entries[i as int] == EntryKind::DirtyFromBackup <==> action
                == RestoreAction::RestoreDirty(i)
            &&& entries[i as int] == EntryKind::OpenFile ==> next == Phase::Opened(i)
            &&& entries[i as int] != EntryKind::OpenFile ==> next == Phase::Entry((i + 1) as usize)
        }),
        r.switched_to_existing ==> restore_next(entries, has_initial, Phase::Opened(i), r) == (
            Phase::Entry((i + 1) as usize),
            RestoreAction::Rebind,
        ),
        !r.switched_to_existing ==> restore_next(entries, has_initial, Phase::Opened(i), r)
            == restore_next(entries, has_initial, Phase::Entry((i + 1) as usize), r),
        entries[i as int] == EntryKind::OpenFile ==> entry_action(entries[i as int], i as int)
            == RestoreAction::Open(i),
        entries[i as int] == EntryKind::UntitledFromBackup ==> entry_action(
            entries[i as int],
            i as int,
        ) == RestoreAction::RestoreUntitled(i),
        entries[i as int] == EntryKind::DirtyFromBackup ==> entry_action(
            entries[i as int],
            i as int,
        ) == RestoreAction::RestoreDirty(i),
{
}

/// Once the session is back, the file of the command line is opened if there is
/// one; a fresh buffer is made exactly if there is no tab then.
pub proof fn there_is_a_tab_in_the_end(
    entries: Seq<EntryKind>,
    has_initial: bool,
    phase: Phase,
    r: ShellReading,
)
    requires
        entries.len() < usize::MAX,
        phase_fits(entries, phase),
    ensures
        ({
            let (next, action) = restore_next(entries, has_initial, phase, r);
            &&& phase == Phase::Initial && has_initial ==> action == RestoreAction::OpenInitial
            &&& action == RestoreAction::OpenInitial ==> has_initial
            &&& action == RestoreAction::NewUntitled ==> r.tab_count == 0
            &&& (phase == Phase::Tabs || (phase == Phase::InitialOpened && !r.switched_to_existing)
                || (phase == Phase::Initial && !has_initial)) ==> action == if r.tab_count == 0 {
                RestoreAction::NewUntitled
            } else {
                RestoreAction::Drain
            }
            &&& phase == Phase::InitialOpened && r.switched_to_existing ==> action
                == RestoreAction::Rebind
            &&& phase == Phase::Entry(entries.len() as usize) && (r.session_active is None
                || r.session_active->0 >= r.tab_count) ==> (next, action) == restore_next(
                entries,
                has_initial,
                Phase::Initial,
                r,
            )
        }),
{
}

/// In a whole restore, a tab is brought to the front only if it is the one that
/// was in front when the session was saved and it is there, and only once every
/// entry is back; and the step right behind the last entry does so if there is
/// such a tab and the view need not be bound first.
pub proof fn a_restore_brings_one_tab_to_the_front(
    entries: Seq<EntryKind>,
    has_initial: bool,
    readings: Seq<ShellReading>,
    k: int,
)
    requires
        entries.len() < usize::MAX,
        0 <= k < readings.len(),
    ensures
        ({
            let actions = restore_trace(entries, has_initial, Phase::Entry(0), readings).1;
            &&& actions.len() == readings.len()
            &&& actions[k] matches RestoreAction::Activate(i) ==> readings[k].session_active == Some(
                i,
            ) && i < readings[k].tab_count && entry_actions(actions.take(k)).len() == entries.len()
            &&& k > 0 && restores_entry(actions[k - 1]) && entry_actions(actions.take(k)).len()
                == entries.len() && readings[k].session_active is Some
                && readings[k].session_active->0 < readings[k].tab_count && !(
            readings[k].switched_to_existing && actions[k - 1] is Open) ==> actions[k]
                == RestoreAction::Activate(readings[k].session_active->0)
        }),
    decreases readings.len(),
{
    let t = readings.drop_last();
    let (at, before) = restore_trace(entries, has_initial, Phase::Entry(0), t);
    let actions = restore_trace(entries, has_initial, Phase::Entry(0), readings).1;
    entries_come_back_in_order(entries, has_initial, t);
    trace_is_as_long(entries, has_initial, t);
    if k == t.len() {
        assert(actions.take(k) =~= before);
        if k > 0 {
            let u = t.drop_last();
            let (was, earlier) = restore_trace(entries, has_initial, Phase::Entry(0), u);
            entries_come_back_in_order(entries, has_initial, u);
            trace_is_as_long(entries, has_initial, u);
            assert(actions[k - 1] == before.last());
            assert(before.last() == restore_next(entries, has_initial, was, t.last()).1);
        }
    } else {
        a_restore_brings_one_tab_to_the_front(entries, has_initial, t, k);
        assert(actions.take(k) =~= before.take(k));
        assert(actions[k] == before[k]);
        if k > 0 {
            assert(actions[k - 1] == before[k - 1]);
        }
    }
}

proof fn trace_is_as_long(entries: Seq<EntryKind>, has_initial: bool, readings: Seq<ShellReading>)
    ensures
        restore_trace(entries, has_initial, Phase::Entry(0), readings).1.len() == readings.len(),
    decreases readings.len(),
{
    if readings.len() > 0 {
        trace_is_as_long(entries, has_initial, readings.drop_last());
    }
}

/// The caret is put back exactly if the active tab is the one that was in front
/// when the session was saved, and to the place that was saved for it.
pub proof fn the_caret_goes_back_to_its_place(
    session_active: Option<usize>,
    active_tab: Option<usize>,
    saved_cursors: Vec<u64>,
    r: Option<u64>,
)
    requires
        call_ensures(reseed_active_caret, (session_active, active_tab, &saved_cursors), r),
    ensures
        r is Some <==> session_active is Some && active_tab == session_active && session_active->0
            < saved_cursors@.len(),
        r is Some ==> r->0 == saved_cursors@[active_tab->0 as int],
{
}

/// The window opens as it was: maximized exactly if it was, and at the saved
/// size exactly if both extents were saved and make a window.
pub proof fn a_window_opens_as_it_was(saved: WindowGeometry, r: WindowRestore)
    requires
        call_ensures(restore_window_geometry, (Some(saved),), r),
    ensures
        r.maximize == saved.maximized,
        r.size is Some <==> saved.width is Some && saved.height is Some && saved.width->0 > 0
            && saved.height->0 > 0,
        r.size matches Some((w, h)) ==> saved.width == Some(w) && saved.height == Some(h),
{
}

/// After a step a restore stands where the action that it asked for leads: a
/// file that was opened may have switched to a tab that was there, the tab in
/// front leads on to the command line, and from the fresh buffer on it is
/// applied, bound and given its caret in turn.
pub proof fn a_restore_stands_where_its_action_leads(
    entries: Seq<EntryKind>,
    has_initial: bool,
    phase: Phase,
    r: ShellReading,
)
    requires
        entries.len() < usize::MAX,
        phase_fits(entries, phase),
    ensures
        ({
            let (next, action) = restore_next(entries, has_initial, phase, r);
            &&& forall|i: usize| action == RestoreAction::Open(i) ==> next == Phase::Opened(i)
            &&& forall|i: usize|
                action == RestoreAction::RestoreUntitled(i) || action
                    == RestoreAction::RestoreDirty(i) ==> next == Phase::Entry((i + 1) as usize)
            &&& action is Activate ==> next == Phase::Initial
            &&& action == RestoreAction::OpenInitial ==> next == Phase::InitialOpened
            &&& action == RestoreAction::NewUntitled ==> next == Phase::Draining
            &&& action == RestoreAction::Drain ==> next == Phase::Binding
            &&& action == RestoreAction::ReseedCaret ==> next == Phase::Finished
            &&& action == RestoreAction::Done ==> next == Phase::Finished
            &&& phase == Phase::Draining ==> action == RestoreAction::Drain
            &&& phase == Phase::Binding ==> action == RestoreAction::Rebind && next == Phase::Caret
            &&& phase == Phase::Caret ==> action == RestoreAction::ReseedCaret
            &&& phase == Phase::Finished ==> action == RestoreAction::Done
            &&& phase == Phase::InitialOpened && r.switched_to_existing ==> next == Phase::Tabs
        }),
{
}

} // verus!
