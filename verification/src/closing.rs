//! Closing tabs without losing what is in them.
//!
//! [`CloseRun`] takes one close from the question whether anything would be
//! lost to the view bound to another tab. Before each step it is told what the
//! last one found out.
use vstd::prelude::*;

verus! {

/// The active buffer as a close finds it.
#[derive(Clone, Copy, PartialEq, Eq, Structural, Debug)]
pub struct BufferSample {
    /// The buffer belongs to a file.
    pub has_path: bool,
    /// The file is still being read.
    pub has_pending_load: bool,
    /// The editor reads the buffer as modified.
    pub modified: bool,
    /// The tab is marked as modified. It can be while the buffer is not: its
    /// file may be gone, so that the buffer is the only copy left.
    pub marked: bool,
    pub length: isize,
}

/// What a look at the active buffer gave.
#[derive(Clone, Copy, PartialEq, Eq, Structural, Debug)]
pub enum ActiveBuffer {
    /// The state could not be had.
    Unavailable,
    /// No tab is active.
    NoTab,
    Buffer(BufferSample),
}

/// The user's answer to the question whether to save.
#[derive(Clone, Copy, PartialEq, Eq, Structural, Debug)]
pub enum SaveAnswer {
    Save,
    DontSave,
    /// Cancel, or anything else that is no decision.
    Cancel,
}

/// A close would lose something that the user can still save: an edit to a
/// buffer that is there in full, and is of a file or not empty.
pub open spec fn at_risk(b: BufferSample) -> bool {
    (b.modified || b.marked) && !b.has_pending_load && (b.has_path || b.length > 0)
}

/// What stands between a close and the tab.
#[derive(Clone, Copy, PartialEq, Eq, Structural, Debug)]
pub enum Gate {
    Open,
    Ask,
    Shut,
}

/// Whether a close may go on: yes where nothing would be lost, no where that
/// cannot be told, and otherwise as the user says.
pub open spec fn gate_spec(a: ActiveBuffer) -> Gate {
    match a {
        ActiveBuffer::Unavailable => Gate::Shut,
        ActiveBuffer::NoTab => Gate::Open,
        ActiveBuffer::Buffer(b) => if at_risk(b) {
            Gate::Ask
        } else {
            Gate::Open
        },
    }
}

/// Whether a close may go on.
pub fn discard_gate(a: ActiveBuffer) -> (g: Gate)
    ensures
        g == gate_spec(a),
{
    match a {
        ActiveBuffer::Unavailable => Gate::Shut,
        ActiveBuffer::NoTab => Gate::Open,
        ActiveBuffer::Buffer(b) => if (b.modified || b.marked) && !b.has_pending_load && (b.has_path
            || b.length > 0) {
            Gate::Ask
        } else {
            Gate::Open
        },
    }
}

/// What to do next.
#[derive(Clone, Copy, PartialEq, Eq, Structural, Debug)]
pub enum CloseAction {
    /// Look at the active buffer.
    Sample,
    /// Ask the user whether to save.
    Ask,
    /// Save the buffer, and see whether it is still modified.
    Save,
    /// Take the tab out.
    CloseTab,
    /// Give this document back to the editor.
    Release(isize),
    NewUntitled,
    /// Bind the view to the active tab.
    Rebind,
    /// The close is over: apply what the workers have finished meanwhile.
    /// `true` if the tab is closed.
    Finish(bool),
}

/// What the last action found out. Only what that action is about is looked
/// at.
#[derive(Clone, Copy, PartialEq, Eq, Structural, Debug)]
pub struct CloseReading {
    pub active: ActiveBuffer,
    pub answer: SaveAnswer,
    /// The save that was asked for was made: nobody called it off, and nothing
    /// went wrong.
    pub saved: bool,
    /// Whether the buffer is modified after a save, if that could be read.
    pub modified: Option<bool>,
    /// The document of the tab that was taken out, if there was a tab.
    pub closed_doc: Option<isize>,
    /// Whether a tab is active after the close.
    pub has_active: bool,
}

/// Where a close stands.
#[derive(Clone, Copy, PartialEq, Eq, Structural, Debug)]
pub enum ClosePhase {
    Start,
    /// At the start, with the user agreed that what is in the tab goes.
    Agreed,
    Sampled,
    Asked,
    Saved,
    Closed,
    Released,
    Fresh,
    Bound,
    Over(bool),
}

/// A close that may not go on.
pub open spec fn aborted() -> (ClosePhase, CloseAction) {
    (ClosePhase::Over(false), CloseAction::Finish(false))
}

/// A close that may.
pub open spec fn allowed() -> (ClosePhase, CloseAction) {
    (ClosePhase::Closed, CloseAction::CloseTab)
}

/// On from where the document of the closed tab has been dealt with: a tab if
/// none is left, then the view.
pub open spec fn from_released(r: CloseReading) -> (ClosePhase, CloseAction) {
    if r.has_active {
        (ClosePhase::Bound, CloseAction::Rebind)
    } else {
        (ClosePhase::Fresh, CloseAction::NewUntitled)
    }
}

/// One step of a close.
pub open spec fn close_next(phase: ClosePhase, r: CloseReading) -> (ClosePhase, CloseAction) {
    match phase {
        ClosePhase::Start => (ClosePhase::Sampled, CloseAction::Sample),
        ClosePhase::Agreed => allowed(),
        ClosePhase::Sampled => match gate_spec(r.active) {
            Gate::Open => allowed(),
            Gate::Ask => (ClosePhase::Asked, CloseAction::Ask),
            Gate::Shut => aborted(),
        },
        ClosePhase::Asked => match r.answer {
            SaveAnswer::Save => (ClosePhase::Saved, CloseAction::Save),
            SaveAnswer::DontSave => allowed(),
            SaveAnswer::Cancel => aborted(),
        },
        ClosePhase::Saved => if r.saved && r.modified == Some(false) {
            allowed()
        } else {
            aborted()
        },
        ClosePhase::Closed => match r.closed_doc {
            Some(doc) if doc != 0 => (ClosePhase::Released, CloseAction::Release(doc)),
            _ => from_released(r),
        },
        ClosePhase::Released => from_released(r),
        ClosePhase::Fresh => (ClosePhase::Bound, CloseAction::Rebind),
        ClosePhase::Bound => (ClosePhase::Over(true), CloseAction::Finish(true)),
        ClosePhase::Over(closed) => (ClosePhase::Over(closed), CloseAction::Finish(closed)),
    }
}

/// A close under way.
#[derive(Clone, Copy, PartialEq, Eq, Structural, Debug)]
pub struct CloseRun {
    pub phase: ClosePhase,
}

impl CloseRun {
    /// A close at its start.
    pub fn new() -> (run: CloseRun)
        ensures
            run.phase == ClosePhase::Start,
    {
        CloseRun { phase: ClosePhase::Start }
    }

    /// A close at its start that asks nothing: the user has agreed to lose
    /// what is in the tab.
    pub fn agreed() -> (run: CloseRun)
        ensures
            run.phase == ClosePhase::Agreed,
    {
        CloseRun { phase: ClosePhase::Agreed }
    }

    /// The next thing to do.
    pub fn step(&mut self, r: CloseReading) -> (action: CloseAction)
        ensures
            (final(self).phase, action) == close_next(old(self).phase, r),
    {
        match self.phase {
            ClosePhase::Start => {
                self.phase = ClosePhase::Sampled;
                CloseAction::Sample
            },
            ClosePhase::Agreed => self.allow(),
            ClosePhase::Sampled => match discard_gate(r.active) {
                Gate::Open => self.allow(),
                Gate::Ask => {
                    self.phase = ClosePhase::Asked;
                    CloseAction::Ask
                },
                Gate::Shut => self.abort(),
            },
            ClosePhase::Asked => match r.answer {
                SaveAnswer::Save => {
                    self.phase = ClosePhase::Saved;
                    CloseAction::Save
                },
                SaveAnswer::DontSave => self.allow(),
                SaveAnswer::Cancel => self.abort(),
            },
            ClosePhase::Saved => match r.modified {
                Some(false) if r.saved => self.allow(),
                _ => self.abort(),
            },
            ClosePhase::Closed => {
                if let Some(doc) = r.closed_doc {
                    if doc != 0 {
                        self.phase = ClosePhase::Released;
                        return CloseAction::Release(doc);
                    }
                }
                self.after_release(r)
            },
            ClosePhase::Released => self.after_release(r),
            ClosePhase::Fresh => {
                self.phase = ClosePhase::Bound;
                CloseAction::Rebind
            },
            ClosePhase::Bound => {
                self.phase = ClosePhase::Over(true);
                CloseAction::Finish(true)
            },
            ClosePhase::Over(closed) => CloseAction::Finish(closed),
        }
    }

    fn allow(&mut self) -> (action: CloseAction)
        ensures
            (final(self).phase, action) == allowed(),
    {
        self.phase = ClosePhase::Closed;
        CloseAction::CloseTab
    }

    fn abort(&mut self) -> (action: CloseAction)
        ensures
            (final(self).phase, action) == aborted(),
    {
        self.phase = ClosePhase::Over(false);
        CloseAction::Finish(false)
    }

    fn after_release(&mut self, r: CloseReading) -> (action: CloseAction)
        ensures
            (final(self).phase, action) == from_released(r),
    {
        if r.has_active {
            self.phase = ClosePhase::Bound;
            CloseAction::Rebind
        } else {
            self.phase = ClosePhase::Fresh;
            CloseAction::NewUntitled
        }
    }
}

/// A close over a row of readings, from a phase on: where it ends up and what
/// it did.
pub open spec fn close_trace(from: ClosePhase, readings: Seq<CloseReading>) -> (
    ClosePhase,
    Seq<CloseAction>,
)
    decreases readings.len(),
{
    if readings.len() == 0 {
        (from, Seq::empty())
    } else {
        let (at, before) = close_trace(from, readings.drop_last());
        let (next, action) = close_next(at, readings.last());
        (next, before.push(action))
    }
}

/// A tab is taken out only where nothing would be lost, where the user agreed
/// to that beforehand or said not to save, or where the buffer was saved and is clean.
pub proof fn nothing_is_lost(phase: ClosePhase, r: CloseReading)
    requires
        close_next(phase, r).1 == CloseAction::CloseTab,
    ensures
        match phase {
            ClosePhase::Agreed => true,
            ClosePhase::Sampled => match r.active {
                ActiveBuffer::Buffer(b) => !at_risk(b),
                ActiveBuffer::NoTab => true,
                ActiveBuffer::Unavailable => false,
            },
            ClosePhase::Asked => r.answer == SaveAnswer::DontSave,
            ClosePhase::Saved => r.saved && r.modified == Some(false),
            _ => false,
        },
{
}

/// The phases that come after a tab was taken out.
pub open spec fn tab_is_out(phase: ClosePhase) -> bool {
    match phase {
        ClosePhase::Closed | ClosePhase::Released | ClosePhase::Fresh | ClosePhase::Bound => true,
        ClosePhase::Over(closed) => closed,
        _ => false,
    }
}

/// What a close reports is what it did: it ends with `true` exactly if it took
/// the tab out.
pub proof fn the_report_is_true(from: ClosePhase, readings: Seq<CloseReading>)
    requires
        from == ClosePhase::Start || from == ClosePhase::Agreed,
    ensures
        ({
            let (phase, actions) = close_trace(from, readings);
            &&& tab_is_out(phase) <==> actions.contains(CloseAction::CloseTab)
            &&& forall|b: bool| #[trigger]
                actions.contains(CloseAction::Finish(b)) ==> b == actions.contains(
                    CloseAction::CloseTab,
                ) && phase == ClosePhase::Over(b)
        }),
    decreases readings.len(),
{
    let (phase, actions) = close_trace(from, readings);
    if readings.len() > 0 {
        the_report_is_true(from, readings.drop_last());
        let (at, before) = close_trace(from, readings.drop_last());
        let (next, action) = close_next(at, readings.last());
        assert(actions =~= before.push(action));
        assert(actions[before.len() as int] == action);
        assert forall|a: CloseAction| actions.contains(a) <==> before.contains(a) || a == action by {
            if before.contains(a) {
                let k = choose|k: int| 0 <= k < before.len() && before[k] == a;
                assert(actions[k] == a);
            }
            if actions.contains(a) {
                let k = choose|k: int| 0 <= k < actions.len() && actions[k] == a;
                if k < before.len() {
                    assert(before[k] == a);
                }
            }
        }
        assert(CloseAction::Finish(true) != CloseAction::Finish(false));
    }
}

/// A close that the user has agreed to asks and saves nothing, and it takes the
/// tab out at its first step.
pub proof fn an_agreed_close_asks_nothing(readings: Seq<CloseReading>, i: int)
    requires
        0 <= i < readings.len(),
    ensures
        close_trace(ClosePhase::Agreed, readings).1.len() == readings.len(),
        close_trace(ClosePhase::Agreed, readings).1[0] == CloseAction::CloseTab,
        close_trace(ClosePhase::Agreed, readings).1[i] != CloseAction::Ask,
        close_trace(ClosePhase::Agreed, readings).1[i] != CloseAction::Save,
        close_trace(ClosePhase::Agreed, readings).1[i] != CloseAction::Finish(false),
        tab_is_out(close_trace(ClosePhase::Agreed, readings).0),
    decreases readings.len(),
{
    let before = readings.drop_last();
    if readings.len() == 1 {
        assert(before =~= Seq::empty());
    } else {
        an_agreed_close_asks_nothing(
            before,
            if i < before.len() {
                i
            } else {
                0
            },
        );
    }
}

/// A close whose tab is out always ends with the view bound to a tab: what is
/// left to do is to release the document, to make a tab if none is active, to
/// bind, and to report.
pub proof fn a_close_ends_bound(phase: ClosePhase, r: CloseReading)
    requires
        tab_is_out(phase),
    ensures
        close_next(phase, r).1 == CloseAction::Finish(true) <==> (phase == ClosePhase::Bound
            || phase is Over),
        close_next(phase, r).0 == ClosePhase::Bound ==> close_next(phase, r).1
            == CloseAction::Rebind && (r.has_active || phase == ClosePhase::Fresh),
        tab_is_out(close_next(phase, r).0),
{
}

/// Where a tab is closed from by its id: its index, and whether it has to be
/// made the active one first. `None` if the tab is gone.
pub fn close_tab_by_id(ids: &Vec<i32>, active: Option<usize>, id: i32) -> (r: Option<(usize, bool)>)
    ensures
        match r {
            Some((i, activate)) => {
                &&& i < ids@.len()
                &&& ids@[i as int] == id
                &&& forall|j: int| 0 <= j < i ==> ids@[j] != id
                &&& activate == (active != Some(i))
            },
            None => !ids@.contains(id),
        },
{
    let mut i: usize = 0;
    while i < ids.len()
        invariant
            i <= ids@.len(),
            forall|j: int| 0 <= j < i ==> ids@[j] != id,
        decreases ids.len() - i,
    {
        if ids[i] == id {
            let activate: bool = match active {
                Some(a) => a != i,
                None => true,
            };
            return Some((i, activate));
        }
        i += 1;
    }
    None
}

/// What a look at the active buffer's modified mark gave.
#[derive(Clone, Copy, PartialEq, Eq, Structural, Debug)]
pub enum DirtyPoll {
    /// The cached mark was wrong and has to be set anew.
    Changed,
    Unchanged,
    /// The state could not be had, so nothing was looked at.
    Unavailable,
}

/// The marks of the active tab: the cached one, and whether the buffer came
/// from a backup and was not saved since.
#[derive(Clone, Copy, PartialEq, Eq, Structural, Debug)]
pub struct TabMarks {
    pub cached: bool,
    pub unsaved_restore: bool,
}

/// The window's state as the poll finds it.
#[derive(Clone, Copy, PartialEq, Eq, Structural, Debug)]
pub struct DirtyReading {
    /// The editor's own modified bit.
    pub modified: bool,
    /// The active tab, if there is one.
    pub active: Option<TabMarks>,
}

/// Whether a tab is to be marked as modified. A buffer from a backup stays so
/// until it is saved, though its document reads clean.
pub open spec fn is_dirty(modified: bool, marks: TabMarks) -> bool {
    modified || marks.unsaved_restore
}

/// Compare the active tab's mark with the editor. The second result is the
/// value that the mark is to have from now on, if there is a tab.
pub fn refresh_active_dirty(reading: Option<DirtyReading>) -> (r: (DirtyPoll, Option<bool>))
    ensures
        match reading {
            None => r == (DirtyPoll::Unavailable, None::<bool>),
            Some(d) => match d.active {
                None => r == (DirtyPoll::Unchanged, None::<bool>),
                Some(marks) => {
                    &&& r.1 == Some(is_dirty(d.modified, marks))
                    &&& r.0 == if is_dirty(d.modified, marks) == marks.cached {
                        DirtyPoll::Unchanged
                    } else {
                        DirtyPoll::Changed
                    }
                },
            },
        },
{
    match reading {
        None => (DirtyPoll::Unavailable, None),
        Some(d) => match d.active {
            None => (DirtyPoll::Unchanged, None),
            Some(marks) => {
                let dirty: bool = d.modified || marks.unsaved_restore;
                if marks.cached == dirty {
                    (DirtyPoll::Unchanged, Some(dirty))
                } else {
                    (DirtyPoll::Changed, Some(dirty))
                }
            },
        },
    }
}

/// The tab that a click on the strip's page `num` makes active; `None` for a
/// page that has no tab.
pub fn switched_tab(num: u32, tab_count: usize) -> (r: Option<usize>)
    ensures
        r == if num < tab_count {
            Some(num as usize)
        } else {
            None
        },
{
    let index: usize = num as usize;
    if index < tab_count {
        Some(index)
    } else {
        None
    }
}

/// The window's title, for the display name of the active tab.
pub open spec fn title_spec(name: Option<Seq<char>>) -> Seq<char> {
    match name {
        Some(n) => n + " - Code++"@,
        None => "Code++"@,
    }
}

/// The window's title, for the display name of the active tab.
pub fn window_title(name: Option<&str>) -> (r: String)
    ensures
        r@ == title_spec(crate::text::optional_text(name)),
{
    match name {
        Some(n) => {
            let mut out: String = n.to_owned();
            out.append(" - Code++");
            out
        },
        None => String::from_str("Code++"),
    }
}

/// The question that a close asks about the buffer called `name`.
pub fn save_question(name: &str) -> (r: String)
    ensures
        r@ == "Save file '"@ + name@ + "' ?"@,
{
    let mut out: String = String::from_str("Save file '");
    out.append(name);
    out.append("' ?");
    out
}

/// A close never takes a tab out unasked while its buffer is modified or
/// marked, read in full, and of a file or not empty. It asks then and only
/// then.
pub proof fn what_would_be_lost_is_asked_about(b: BufferSample, r: CloseReading)
    requires
        r.active == ActiveBuffer::Buffer(b),
    ensures
        gate_spec(ActiveBuffer::Buffer(b)) == Gate::Ask <==> (b.modified || b.marked)
            && !b.has_pending_load && (b.has_path || b.length > 0),
        gate_spec(ActiveBuffer::Buffer(b)) != Gate::Shut,
        close_next(ClosePhase::Sampled, r).1 == CloseAction::Ask <==> (b.modified || b.marked)
            && !b.has_pending_load && (b.has_path || b.length > 0),
        close_next(ClosePhase::Sampled, r).1 == CloseAction::CloseTab <==> (!b.modified && !b.marked)
            || b.has_pending_load || (!b.has_path && b.length <= 0),
{
}

/// A close goes on without a question where no tab is active, and is given up
/// where that cannot be told.
pub proof fn an_unknown_buffer_stays(r: CloseReading)
    ensures
        r.active == ActiveBuffer::NoTab ==> close_next(ClosePhase::Sampled, r).1
            == CloseAction::CloseTab,
        r.active == ActiveBuffer::Unavailable ==> close_next(ClosePhase::Sampled, r).1
            == CloseAction::Finish(false),
        gate_spec(ActiveBuffer::NoTab) == Gate::Open,
        gate_spec(ActiveBuffer::Unavailable) == Gate::Shut,
{
}

/// A close does as the user says: it saves when told to and goes on only if
/// that left the buffer clean, it goes on when told not to save, and it is given
/// up on anything else.
pub proof fn a_close_does_as_it_is_told(r: CloseReading)
    ensures
        r.answer == SaveAnswer::Save ==> close_next(ClosePhase::Asked, r).1 == CloseAction::Save,
        r.answer == SaveAnswer::DontSave ==> close_next(ClosePhase::Asked, r).1
            == CloseAction::CloseTab,
        r.answer == SaveAnswer::Cancel ==> close_next(ClosePhase::Asked, r).1
            == CloseAction::Finish(false),
        close_next(ClosePhase::Saved, r).1 == CloseAction::CloseTab <==> r.saved && r.modified
            == Some(false),
        close_next(ClosePhase::Saved, r).1 == CloseAction::Finish(false) <==> !r.saved || r.modified
            != Some(false),
{
}

/// A whole close of a buffer that the user is asked about: it looks, asks, and
/// saves if told to, and only then takes the tab out.
pub proof fn a_close_runs_in_order(readings: Seq<CloseReading>)
    requires
        readings.len() == 4,
        readings[1].active matches ActiveBuffer::Buffer(b) && b.modified && !b.has_pending_load
            && b.has_path,
        readings[2].answer == SaveAnswer::Save,
        readings[3].saved,
        readings[3].modified == Some(false),
    ensures
        close_trace(ClosePhase::Start, readings).1 == seq![
            CloseAction::Sample,
            CloseAction::Ask,
            CloseAction::Save,
            CloseAction::CloseTab,
        ],
{
    reveal_with_fuel(close_trace, 5);
    assert(close_trace(ClosePhase::Start, readings).1 =~= seq![
        CloseAction::Sample,
        CloseAction::Ask,
        CloseAction::Save,
        CloseAction::CloseTab,
    ]);
}

/// The document of a tab that was taken out goes back to the editor, that one
/// and no other, before the view is bound; and where no tab is active a new one
/// is made before that.
pub proof fn a_closed_document_is_released(r: CloseReading)
    ensures
        r.closed_doc matches Some(doc) && doc != 0 ==> close_next(ClosePhase::Closed, r).1
            == CloseAction::Release(r.closed_doc->0),
        (r.closed_doc is None || r.closed_doc == Some(0isize)) ==> close_next(
            ClosePhase::Closed,
            r,
        ).1 == if r.has_active {
            CloseAction::Rebind
        } else {
            CloseAction::NewUntitled
        },
        close_next(ClosePhase::Released, r).1 == if r.has_active {
            CloseAction::Rebind
        } else {
            CloseAction::NewUntitled
        },
        close_next(ClosePhase::Fresh, r).1 == CloseAction::Rebind,
        close_next(ClosePhase::Bound, r).1 == CloseAction::Finish(true),
{
}

/// A tab is to be marked exactly if its buffer is modified or came from a
/// backup and was not saved since.
pub proof fn a_restored_buffer_stays_marked(modified: bool, marks: TabMarks)
    ensures
        is_dirty(modified, marks) <==> modified || marks.unsaved_restore,
{
}

/// The title names the active tab before the program, and the program alone
/// without one. Titles of different tabs differ.
pub proof fn a_title_names_its_tab(a: Seq<char>, b: Seq<char>)
    ensures
        title_spec(Some(a)) == a + " - Code++"@,
        title_spec(None) == "Code++"@,
        title_spec(Some(a)) == title_spec(Some(b)) ==> a == b,
{
    let tail = " - Code++"@;
    if a + tail == b + tail {
        assert((a + tail).len() == (b + tail).len());
        assert(a =~= (a + tail).take(a.len() as int));
        assert(b =~= (b + tail).take(b.len() as int));
    }
}

proof fn asked_before_it_went(readings: Seq<CloseReading>)
    requires
        readings.len() >= 2,
        readings[1].active matches ActiveBuffer::Buffer(b) && (b.modified || b.marked)
            && !b.has_pending_load && (b.has_path || b.length > 0),
    ensures
        ({
            let (phase, actions) = close_trace(ClosePhase::Start, readings);
            let agreed = readings.len() >= 3 && (readings[2].answer == SaveAnswer::DontSave || (
            readings.len() >= 4 && readings[2].answer == SaveAnswer::Save && readings[3].saved
                && readings[3].modified == Some(false)));
            &&& actions.len() == readings.len()
            &&& actions[0] == CloseAction::Sample
            &&& actions[1] == CloseAction::Ask
            &&& phase == ClosePhase::Asked <==> readings.len() == 2
            &&& phase == ClosePhase::Saved <==> readings.len() == 3 && readings[2].answer
                == SaveAnswer::Save
            &&& phase != ClosePhase::Start && phase != ClosePhase::Agreed && phase
                != ClosePhase::Sampled
            &&& tab_is_out(phase) <==> agreed
            &&& actions.contains(CloseAction::CloseTab) ==> agreed
        }),
    decreases readings.len(),
{
    let (phase, actions) = close_trace(ClosePhase::Start, readings);
    let less = readings.drop_last();
    if readings.len() == 2 {
        reveal_with_fuel(close_trace, 3);
        assert(actions =~= seq![CloseAction::Sample, CloseAction::Ask]);
    } else {
        asked_before_it_went(less);
        let (at, before) = close_trace(ClosePhase::Start, less);
        let (next, action) = close_next(at, readings.last());
        assert(actions == before.push(action));
        if actions.contains(CloseAction::CloseTab) {
            let k = choose|k: int| 0 <= k < actions.len() && actions[k] == CloseAction::CloseTab;
            if k < before.len() {
                assert(before[k] == CloseAction::CloseTab);
            }
        }
    }
}

/// A close of a buffer that is modified or marked, read in full, and of a file
/// or not empty, asks right after it has looked. It takes the tab out only if
/// the user then said not to save, or said to save and the save left the buffer
/// clean.
pub proof fn unsaved_work_goes_only_as_the_user_says(readings: Seq<CloseReading>)
    requires
        readings.len() >= 2,
        readings[1].active matches ActiveBuffer::Buffer(b) && (b.modified || b.marked)
            && !b.has_pending_load && (b.has_path || b.length > 0),
    ensures
        close_trace(ClosePhase::Start, readings).1[0] == CloseAction::Sample,
        close_trace(ClosePhase::Start, readings).1[1] == CloseAction::Ask,
        close_trace(ClosePhase::Start, readings).1.contains(CloseAction::CloseTab)
            ==> readings.len() >= 3 && (readings[2].answer == SaveAnswer::DontSave || (
        readings.len() >= 4 && readings[2].answer == SaveAnswer::Save && readings[3].saved
            && readings[3].modified == Some(false))),
{
    asked_before_it_went(readings);
}

/// The user is asked about a buffer that is modified or marked, read in full,
/// and of a file or not empty; every other one is let go.
pub proof fn unsaved_work_is_asked_about(b: BufferSample, g: Gate)
    requires
        call_ensures(discard_gate, (ActiveBuffer::Buffer(b),), g),
    ensures
        g == Gate::Ask <==> (b.modified || b.marked) && !b.has_pending_load && (b.has_path
            || b.length > 0),
        g == Gate::Open <==> !((b.modified || b.marked) && !b.has_pending_load && (b.has_path
            || b.length > 0)),
{
}

/// A close goes from phase to phase without a way back: after a step it stands
/// where the action that it asked for leads.
pub proof fn a_close_stands_where_its_action_leads(phase: ClosePhase, r: CloseReading)
    ensures
        ({
            let (next, action) = close_next(phase, r);
            &&& action == CloseAction::Sample ==> next == ClosePhase::Sampled
            &&& action == CloseAction::Ask ==> next == ClosePhase::Asked
            &&& action == CloseAction::Save ==> next == ClosePhase::Saved
            &&& action == CloseAction::CloseTab ==> next == ClosePhase::Closed
            &&& action is Release ==> next == ClosePhase::Released
            &&& action == CloseAction::NewUntitled ==> next == ClosePhase::Fresh
            &&& action == CloseAction::Rebind ==> next == ClosePhase::Bound
            &&& forall|b: bool| action == CloseAction::Finish(b) ==> next == ClosePhase::Over(b)
        }),
{
}

/// A tab that is closed by its id is the first with that id, and is made the
/// active one first exactly if it is not.
pub proof fn a_tab_is_closed_by_its_id(
    ids: Vec<i32>,
    active: Option<usize>,
    id: i32,
    k: int,
    r: Option<(usize, bool)>,
)
    requires
        0 <= k < ids@.len(),
        ids@[k] == id,
        forall|j: int| 0 <= j < k ==> ids@[j] != id,
        call_ensures(close_tab_by_id, (&ids, active, id), r),
    ensures
        r matches Some((i, activate)) && i == k && (activate <==> active is None || active->0 != k),
{
}

/// The poll sets the mark anew exactly if it differs from what the editor and
/// the tab say: modified if the editor says so, or if the buffer came from a
/// backup and was not saved since.
pub proof fn a_mark_follows_the_editor(d: DirtyReading, marks: TabMarks, r: (DirtyPoll, Option<bool>))
    requires
        d.active == Some(marks),
        call_ensures(refresh_active_dirty, (Some(d),), r),
    ensures
        r.1 == Some(d.modified || marks.unsaved_restore),
        r.0 == DirtyPoll::Changed <==> marks.cached != (d.modified || marks.unsaved_restore),
        r.0 == DirtyPoll::Unchanged <==> marks.cached == (d.modified || marks.unsaved_restore),
{
}

/// A page of the strip stands for the tab at its place, if there is one.
pub proof fn a_page_is_the_tab_at_its_place(num: u32, tab_count: usize, r: Option<usize>)
    requires
        call_ensures(switched_tab, (num, tab_count), r),
    ensures
        r is Some <==> num < tab_count,
        r matches Some(i) ==> i == num,
{
}

} // verus!
