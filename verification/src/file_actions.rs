//! What the commands of the File menu decide.
//!
//! Texts that come from paths and errors arrive here fit for display.
use vstd::prelude::*;
use crate::fif::OpenFileOutcome;
use crate::platform::at_least_zero;
use crate::recent::NamedTab;
use crate::text::{decimal, push_decimal};

verus! {

/// What follows after a file was opened.
#[derive(Copy, Clone, PartialEq, Eq, Structural, Debug)]
pub enum AfterOpen {
    /// The view has to be bound to the tab that is active now.
    Rebind,
    Nothing,
    /// A load was queued; what has been done already is taken in.
    Drain,
}

/// What follows after a file was opened; `None` if the state could not be had.
/// Only a file that is open in another tab moves the view at once.
pub fn after_open(outcome: Option<OpenFileOutcome>) -> (r: AfterOpen)
    ensures
        r == match outcome {
            Some(OpenFileOutcome::SwitchedToExisting) => AfterOpen::Rebind,
            Some(OpenFileOutcome::AlreadyActive) => AfterOpen::Nothing,
            _ => AfterOpen::Drain,
        },
{
    match outcome {
        Some(OpenFileOutcome::SwitchedToExisting) => AfterOpen::Rebind,
        Some(OpenFileOutcome::AlreadyActive) => AfterOpen::Nothing,
        _ => AfterOpen::Drain,
    }
}

/// How a buffer is saved.
#[derive(Copy, Clone, PartialEq, Eq, Structural, Debug)]
pub enum SaveRoute {
    /// Under a name to choose.
    SaveAs,
    /// Where it came from.
    InPlace,
}

/// How Save saves: a buffer that has no file yet asks for one. `None` if the
/// state could not be had.
pub fn save_route(has_path: Option<bool>) -> (r: SaveRoute)
    ensures
        r == if has_path == Some(false) {
            SaveRoute::SaveAs
        } else {
            SaveRoute::InPlace
        },
{
    match has_path {
        Some(false) => SaveRoute::SaveAs,
        _ => SaveRoute::InPlace,
    }
}

/// How a buffer is renamed.
#[derive(Copy, Clone, PartialEq, Eq, Structural, Debug)]
pub enum RenameRoute {
    /// A file is saved under another name.
    SaveAs,
    /// A buffer without a file gets another name to show.
    Prompt,
    Nothing,
}

/// How Rename renames: a file by saving it elsewhere, any other buffer by a
/// name to show, if there is one.
pub fn rename_route(has_path: bool, has_tab: bool) -> (r: RenameRoute)
    ensures
        has_path ==> r == RenameRoute::SaveAs,
        !has_path && has_tab ==> r == RenameRoute::Prompt,
        !has_path && !has_tab ==> r == RenameRoute::Nothing,
{
    if has_path {
        RenameRoute::SaveAs
    } else if has_tab {
        RenameRoute::Prompt
    } else {
        RenameRoute::Nothing
    }
}

/// What can be done with the folder of the active file.
#[derive(Copy, Clone, PartialEq, Eq, Structural, Debug)]
pub enum ContainingAction {
    /// Show the file in the file manager.
    FileManager,
    /// Open a terminal in the folder.
    Terminal,
    /// Make the folder the workspace.
    Workspace,
}

/// What an action on the folder acts on.
#[derive(Copy, Clone, PartialEq, Eq, Structural, Debug)]
pub enum ContainingTarget {
    Nothing,
    /// The file itself.
    ShowFile,
    OpenTerminal,
    OpenWorkspace,
}

/// What an action on the folder comes to: nothing without a file in a folder.
pub fn open_containing(action: ContainingAction, has_file: bool, has_parent: bool) -> (r:
    ContainingTarget)
    ensures
        r == if !(has_file && has_parent) {
            ContainingTarget::Nothing
        } else {
            match action {
                ContainingAction::FileManager => ContainingTarget::ShowFile,
                ContainingAction::Terminal => ContainingTarget::OpenTerminal,
                ContainingAction::Workspace => ContainingTarget::OpenWorkspace,
            }
        },
{
    if !(has_file && has_parent) {
        return ContainingTarget::Nothing;
    }
    match action {
        ContainingAction::FileManager => ContainingTarget::ShowFile,
        ContainingAction::Terminal => ContainingTarget::OpenTerminal,
        ContainingAction::Workspace => ContainingTarget::OpenWorkspace,
    }
}

/// The items of the submenu for the folder, `None` standing for a separator.
pub open spec fn containing_rows() -> Seq<Option<(Seq<char>, ContainingAction)>> {
    seq![
        Some(("File _Explorer"@, ContainingAction::FileManager)),
        Some(("_Terminal"@, ContainingAction::Terminal)),
        None,
        Some(("Folder as _Workspace"@, ContainingAction::Workspace)),
    ]
}

/// The item at a place of the submenu for the folder; `None` for a separator.
pub fn containing_row(index: usize) -> (r: Option<(&'static str, ContainingAction)>)
    requires
        index < containing_rows().len(),
    ensures
        match r {
            Some((label, action)) => containing_rows()[index as int] == Some((label@, action)),
            None => containing_rows()[index as int] is None,
        },
{
    match index {
        0 => Some(("File _Explorer", ContainingAction::FileManager)),
        1 => Some(("_Terminal", ContainingAction::Terminal)),
        2 => None,
        _ => Some(("Folder as _Workspace", ContainingAction::Workspace)),
    }
}

/// Which tabs to close of several.
#[derive(Copy, Clone, PartialEq, Eq, Structural, Debug)]
pub enum CloseMultiKind {
    AllButActive,
    AllButPinned,
    AllToLeft,
    AllToRight,
    AllUnchanged,
}

/// What the item for closing several tabs says.
pub open spec fn close_multi_text(kind: CloseMultiKind) -> Seq<char> {
    match kind {
        CloseMultiKind::AllButActive => "Close All but _Active Document"@,
        CloseMultiKind::AllButPinned => "Close All but _Pinned Documents"@,
        CloseMultiKind::AllToLeft => "Close All To the _Left"@,
        CloseMultiKind::AllToRight => "Close All To the _Right"@,
        CloseMultiKind::AllUnchanged => "Close All _Unchanged"@,
    }
}

/// What the item for closing several tabs says.
pub fn close_multi_label(kind: CloseMultiKind) -> (r: &'static str)
    ensures
        r@ == close_multi_text(kind),
{
    match kind {
        CloseMultiKind::AllButActive => "Close All but _Active Document",
        CloseMultiKind::AllButPinned => "Close All but _Pinned Documents",
        CloseMultiKind::AllToLeft => "Close All To the _Left",
        CloseMultiKind::AllToRight => "Close All To the _Right",
        CloseMultiKind::AllUnchanged => "Close All _Unchanged",
    }
}

/// The terminals to try, in order.
pub open spec fn terminals() -> Seq<Seq<char>> {
    seq![
        "x-terminal-emulator"@,
        "gnome-terminal"@,
        "konsole"@,
        "xfce4-terminal"@,
        "kitty"@,
        "alacritty"@,
        "xterm"@,
    ]
}

/// The terminal to try next, after `tried` of them could not be started.
pub fn terminal_to_try(tried: usize) -> (r: Option<&'static str>)
    ensures
        match r {
            Some(name) => tried < terminals().len() && name@ == terminals()[tried as int],
            None => tried >= terminals().len(),
        },
{
    match tried {
        0 => Some("x-terminal-emulator"),
        1 => Some("gnome-terminal"),
        2 => Some("konsole"),
        3 => Some("xfce4-terminal"),
        4 => Some("kitty"),
        5 => Some("alacritty"),
        6 => Some("xterm"),
        _ => None,
    }
}

/// What a run of "Move to Recycle Bin" has to do next.
#[derive(Copy, Clone, PartialEq, Eq, Structural, Debug)]
pub enum RecycleAction {
    /// Ask the user.
    Confirm,
    /// Move the file to the trash.
    Trash,
    /// Say that it could not be moved.
    ReportFailure,
    /// Mark the buffer as saved, so that nothing asks to save it.
    MarkSaved,
    /// Take the mark over into the tab.
    RefreshChrome,
    /// Close the tab, without asking again: the user has agreed to it.
    CloseTab,
    Finished,
}

/// How far a run has come.
#[derive(Copy, Clone, PartialEq, Eq, Structural, Debug)]
pub enum RecyclePhase {
    Fresh,
    Asked,
    Trashed,
    Marked,
    Refreshed,
    Over,
}

/// What a run is told before each step.
#[derive(Copy, Clone, PartialEq, Eq, Structural, Debug)]
pub struct RecycleReading {
    /// The user agreed.
    pub agreed: bool,
    /// The tab that is active now.
    pub active: Option<i32>,
    /// The file was moved.
    pub moved: bool,
}

/// The next step of a run that is about the tab `id`. The file is moved only if
/// the user agreed and the tab is still the active one, and the tab is closed
/// only if the file was moved.
pub open spec fn recycle_next(phase: RecyclePhase, id: i32, r: RecycleReading) -> (
    RecyclePhase,
    RecycleAction,
) {
    match phase {
        RecyclePhase::Fresh => (RecyclePhase::Asked, RecycleAction::Confirm),
        RecyclePhase::Asked => if r.agreed && r.active == Some(id) {
            (RecyclePhase::Trashed, RecycleAction::Trash)
        } else {
            (RecyclePhase::Over, RecycleAction::Finished)
        },
        RecyclePhase::Trashed => if r.moved {
            (RecyclePhase::Marked, RecycleAction::MarkSaved)
        } else {
            (RecyclePhase::Over, RecycleAction::ReportFailure)
        },
        RecyclePhase::Marked => (RecyclePhase::Refreshed, RecycleAction::RefreshChrome),
        RecyclePhase::Refreshed => (RecyclePhase::Over, RecycleAction::CloseTab),
        RecyclePhase::Over => (RecyclePhase::Over, RecycleAction::Finished),
    }
}

/// A run of "Move to Recycle Bin", about the tab that was active when it began.
pub struct RecycleRun {
    pub id: i32,
    pub phase: RecyclePhase,
}

impl RecycleRun {
    /// Begin; there is nothing to do without a file.
    pub fn new(id: i32, has_path: bool) -> (r: Option<RecycleRun>)
        ensures
            r == if has_path {
                Some(RecycleRun { id, phase: RecyclePhase::Fresh })
            } else {
                None
            },
    {
        if has_path {
            Some(RecycleRun { id, phase: RecyclePhase::Fresh })
        } else {
            None
        }
    }

    /// Take the next step.
    pub fn step(&mut self, r: RecycleReading) -> (action: RecycleAction)
        ensures
            final(self).id == old(self).id,
            (final(self).phase, action) == recycle_next(old(self).phase, old(self).id, r),
    {
        let (phase, action): (RecyclePhase, RecycleAction) = match self.phase {
            RecyclePhase::Fresh => (RecyclePhase::Asked, RecycleAction::Confirm),
            RecyclePhase::Asked => {
                let same: bool = match r.active {
                    Some(active) => active == self.id,
                    None => false,
                };
                if r.agreed && same {
                    (RecyclePhase::Trashed, RecycleAction::Trash)
                } else {
                    (RecyclePhase::Over, RecycleAction::Finished)
                }
            },
            RecyclePhase::Trashed => if r.moved {
                (RecyclePhase::Marked, RecycleAction::MarkSaved)
            } else {
                (RecyclePhase::Over, RecycleAction::ReportFailure)
            },
            RecyclePhase::Marked => (RecyclePhase::Refreshed, RecycleAction::RefreshChrome),
            RecyclePhase::Refreshed => (RecyclePhase::Over, RecycleAction::CloseTab),
            RecyclePhase::Over => (RecyclePhase::Over, RecycleAction::Finished),
        };
        self.phase = phase;
        action
    }
}

/// Where a run is and what it has done, after some readings.
pub open spec fn recycle_trace(id: i32, readings: Seq<RecycleReading>) -> (
    RecyclePhase,
    Seq<RecycleAction>,
)
    decreases readings.len(),
{
    if readings.len() == 0 {
        (RecyclePhase::Fresh, Seq::empty())
    } else {
        let (phase, actions) = recycle_trace(id, readings.drop_last());
        let (next, action) = recycle_next(phase, id, readings.last());
        (next, actions.push(action))
    }
}

/// A tab is closed only after its file was moved to the trash, and a file is
/// moved only after the user agreed to it, with the tab they were asked about
/// still the active one.
pub proof fn nothing_leaves_unasked(id: i32, readings: Seq<RecycleReading>, i: int)
    requires
        0 <= i < readings.len(),
    ensures
        recycle_trace(id, readings).1.len() == readings.len(),
        recycle_trace(id, readings).1[i] == RecycleAction::Trash ==> i == 1 && readings[1].agreed
            && readings[1].active == Some(id),
        recycle_trace(id, readings).1[i] == RecycleAction::CloseTab ==> i == 4 && readings[2].moved
            && readings[1].agreed && readings[1].active == Some(id),
    decreases readings.len(),
{
    recycle_shape(id, readings);
    if i < readings.len() - 1 {
        nothing_leaves_unasked(id, readings.drop_last(), i);
        if readings.len() > 2 {
            assert(readings.drop_last()[1] == readings[1]);
        }
        if readings.len() > 3 {
            assert(readings.drop_last()[2] == readings[2]);
        }
    } else {
        recycle_shape(id, readings.drop_last());
    }
}

proof fn recycle_shape(id: i32, readings: Seq<RecycleReading>)
    ensures
        recycle_trace(id, readings).1.len() == readings.len(),
        match recycle_trace(id, readings).0 {
            RecyclePhase::Fresh => readings.len() == 0,
            RecyclePhase::Asked => readings.len() == 1,
            RecyclePhase::Trashed => readings.len() == 2 && readings[1].agreed && readings[1].active
                == Some(id),
            RecyclePhase::Marked => readings.len() == 3 && readings[1].agreed && readings[1].active
                == Some(id) && readings[2].moved,
            RecyclePhase::Refreshed => readings.len() == 4 && readings[1].agreed
                && readings[1].active == Some(id) && readings[2].moved,
            RecyclePhase::Over => readings.len() >= 2,
        },
    decreases readings.len(),
{
    if readings.len() > 0 {
        recycle_shape(id, readings.drop_last());
    }
}

/// The question before a file is moved to the trash.
pub fn recycle_question(path: &str) -> (r: String)
    ensures
        r@ == "The file “"@ + path@
            + "” will be moved to the Recycle Bin (Trash) and this document will be closed.\nContinue?"@,
{
    let mut out: String = String::from_str("The file “");
    out.append(path);
    out.append(
        "” will be moved to the Recycle Bin (Trash) and this document will be closed.\nContinue?",
    );
    out
}

/// Where the caret of the active tab is, for a session file.
#[derive(Copy, Clone, PartialEq, Eq, Structural, Debug)]
pub struct SessionCaret {
    pub start_pos: u64,
    pub end_pos: u64,
    pub first_visible_line: u32,
}


/// Take down where the caret is: only for a tab with a file, since no other
/// tab is recorded. A line number that does not fit keeps its low 32 bits.
pub fn session_caret(has_path: bool, start: isize, end: isize, first_line: isize) -> (r: Option<
    SessionCaret,
>)
    ensures
        has_path <==> r is Some,
        has_path ==> {
            &&& r->Some_0.start_pos == at_least_zero(start as int)
            &&& r->Some_0.end_pos == at_least_zero(end as int)
            &&& r->Some_0.first_visible_line == at_least_zero(first_line as int) as u32
        },
{
    if !has_path {
        return None;
    }
    let start: isize = if start < 0 {
        0
    } else {
        start
    };
    let end: isize = if end < 0 {
        0
    } else {
        end
    };
    let line: isize = if first_line < 0 {
        0
    } else {
        first_line
    };
    Some(
        SessionCaret {
            start_pos: start as u64,
            end_pos: end as u64,
            first_visible_line: #[verifier::truncate] (line as u32),
        },
    )
}

/// What a session file gave.
#[derive(Copy, Clone, PartialEq, Eq, Structural, Debug)]
pub struct LoadReport {
    pub opened: usize,
    pub rejected_nonlocal: usize,
}

/// What is said of a session file that opened nothing.
pub open spec fn nothing_local_text(rejected: nat) -> Seq<char> {
    "This session file contained "@ + decimal(rejected)
        + " network / UNC path(s), which Code++ does not open from session files. No local files were opened."@
}

/// What to say of a session file: something only if every file in it was
/// rejected.
pub fn load_session_note(report: LoadReport) -> (r: Option<String>)
    ensures
        report.opened == 0 && report.rejected_nonlocal > 0 ==> r is Some && r->Some_0@
            == nothing_local_text(report.rejected_nonlocal as nat),
        !(report.opened == 0 && report.rejected_nonlocal > 0) ==> r is None,
{
    if report.opened == 0 && report.rejected_nonlocal > 0 {
        let mut out: String = String::from_str("This session file contained ");
        push_decimal(&mut out, report.rejected_nonlocal as u64);
        out.append(
            " network / UNC path(s), which Code++ does not open from session files. No local files were opened.",
        );
        Some(out)
    } else {
        None
    }
}

/// A file that could not be saved.
pub struct SaveError {
    pub id: i32,
    pub text: String,
}

/// The place of the tab `id`.
pub open spec fn first_place(tabs: Seq<NamedTab>, id: i32) -> Option<int>
    decreases tabs.len(),
{
    if tabs.len() == 0 {
        None
    } else {
        match first_place(tabs.drop_last(), id) {
            Some(at) => Some(at),
            None => if tabs.last().id == id {
                Some(tabs.len() - 1)
            } else {
                None
            },
        }
    }
}

/// A number with its sign, in decimal.
pub open spec fn signed_decimal(n: int) -> Seq<char> {
    if n < 0 {
        "-"@ + decimal((-n) as nat)
    } else {
        decimal(n as nat)
    }
}

/// What a tab is called in a report: by its name, or by its number if it is
/// gone.
pub open spec fn reported_name(tabs: Seq<NamedTab>, id: i32) -> Seq<char> {
    match first_place(tabs, id) {
        Some(at) => tabs[at].name@,
        None => "buffer "@ + signed_decimal(id as int),
    }
}

/// The line of a report.
pub open spec fn report_line(tabs: Seq<NamedTab>, e: SaveError) -> Seq<char> {
    reported_name(tabs, e.id) + ": "@ + e.text@
}

/// The lines of a report, with line ends in between.
pub open spec fn report_text(tabs: Seq<NamedTab>, errors: Seq<SaveError>) -> Seq<char>
    decreases errors.len(),
{
    if errors.len() == 0 {
        Seq::empty()
    } else if errors.len() == 1 {
        report_line(tabs, errors[0])
    } else {
        report_text(tabs, errors.drop_last()) + "\n"@ + report_line(tabs, errors.last())
    }
}

fn find_tab(tabs: &Vec<NamedTab>, id: i32) -> (r: Option<usize>)
    ensures
        match first_place(tabs@, id) {
            Some(at) => r is Some && r->Some_0 == at && 0 <= at < tabs@.len(),
            None => r is None,
        },
{
    let mut i: usize = 0;
    while i < tabs.len()
        invariant
            i <= tabs@.len(),
            first_place(tabs@.take(i as int), id) is None,
        decreases tabs.len() - i,
    {
        assert(tabs@.take(i + 1).drop_last() =~= tabs@.take(i as int));
        if tabs[i].id == id {
            proof {
                first_place_stays(tabs@, i + 1, id);
            }
            return Some(i);
        }
        i += 1;
    }
    assert(tabs@.take(i as int) =~= tabs@);
    None
}

proof fn first_place_stays(tabs: Seq<NamedTab>, n: int, id: i32)
    requires
        0 <= n <= tabs.len(),
        first_place(tabs.take(n), id) is Some,
    ensures
        first_place(tabs, id) == first_place(tabs.take(n), id),
    decreases tabs.len(),
{
    if n == tabs.len() {
        assert(tabs.take(n) =~= tabs);
    } else {
        assert(tabs.drop_last().take(n) =~= tabs.take(n));
        first_place_stays(tabs.drop_last(), n, id);
    }
}

fn push_signed(out: &mut String, n: i32)
    ensures
        final(out)@ == old(out)@ + signed_decimal(n as int),
{
    if n < 0 {
        let ghost before = out@;
        out.append("-");
        push_decimal(out, (-(n as i64)) as u64);
        assert(out@ =~= before + signed_decimal(n as int));
    } else {
        push_decimal(out, n as u64);
    }
}

fn push_report_line(out: &mut String, tabs: &Vec<NamedTab>, e: &SaveError)
    ensures
        final(out)@ == old(out)@ + report_line(tabs@, *e),
{
    let ghost before = out@;
    match find_tab(tabs, e.id) {
        Some(at) => {
            out.append(tabs[at].name.as_str());
        },
        None => {
            out.append("buffer ");
            push_signed(out, e.id);
        },
    }
    assert(out@ =~= before + reported_name(tabs@, e.id));
    out.append(": ");
    out.append(e.text.as_str());
    assert(out@ =~= before + report_line(tabs@, *e));
}

/// The report of what could not be saved, one line for each; `None` if all was
/// saved.
pub fn save_all_report(tabs: &Vec<NamedTab>, errors: &Vec<SaveError>) -> (r: Option<String>)
    ensures
        errors@.len() == 0 ==> r is None,
        errors@.len() > 0 ==> r is Some && r->Some_0@ == report_text(tabs@, errors@),
{
    if errors.len() == 0 {
        return None;
    }
    let mut out: String = String::new();
    push_report_line(&mut out, tabs, &errors[0]);
    assert(errors@.take(1)[0] == errors@[0]);
    assert(out@ =~= report_text(tabs@, errors@.take(1)));
    let mut i: usize = 1;
    while i < errors.len()
        invariant
            1 <= i <= errors@.len(),
            out@ == report_text(tabs@, errors@.take(i as int)),
        decreases errors.len() - i,
    {
        let ghost before = out@;
        assert(errors@.take(i + 1).drop_last() =~= errors@.take(i as int));
        out.append("\n");
        push_report_line(&mut out, tabs, &errors[i]);
        assert(out@ =~= before + "\n"@ + report_line(tabs@, errors@[i as int]));
        i += 1;
    }
    assert(errors@.take(i as int) =~= errors@);
    Some(out)
}

/// Whether closing all tabs goes on after one was to be closed: there was one,
/// it was closed, and there are fewer now.
pub fn close_all_goes_on(before: usize, closed: bool, after: usize) -> (r: bool)
    ensures
        r == (before > 0 && closed && after < before),
{
    before > 0 && closed && after < before
}

/// The numbers of tabs while closing all goes on.
pub open spec fn goes_on(before: nat, closed: bool, after: nat) -> bool {
    before > 0 && closed && after < before
}

/// Closing all ends: with as many rounds that went on as there were tabs, none
/// is left.
pub proof fn closing_all_ends(counts: Seq<nat>)
    requires
        counts.len() > 0,
        forall|i: int|
            0 <= i < counts.len() - 1 ==> goes_on(#[trigger] counts[i], true, counts[i + 1]),
    ensures
        counts.len() <= counts[0] + 1,
    decreases counts.len(),
{
    if counts.len() > 1 {
        let rest = counts.skip(1);
        assert(goes_on(counts[0], true, counts[1]));
        assert forall|i: int| 0 <= i < rest.len() - 1 implies goes_on(
            #[trigger] rest[i],
            true,
            rest[i + 1],
        ) by {
            assert(goes_on(counts[i + 1], true, counts[i + 2]));
        }
        closing_all_ends(rest);
    }
}

/// The question whether to read a file again that has changed.
pub fn reload_question(path: &str) -> (r: String)
    ensures
        r@ == path@ + " was modified outside Code++.\n\nReload it?"@,
{
    let mut out: String = String::from_str(path);
    out.append(" was modified outside Code++.\n\nReload it?");
    out
}

/// The name that an export is offered under: the suggested one, or one made of
/// the extension.
pub open spec fn export_name_of(suggested: Seq<char>, ext: Seq<char>) -> Seq<char> {
    if suggested.len() > 0 {
        suggested
    } else if ext.len() > 0 {
        "export."@ + ext
    } else {
        "export"@
    }
}

/// The name that an export is offered under.
pub fn export_name(suggested: &str, ext: &str) -> (r: String)
    ensures
        r@ == export_name_of(suggested@, ext@),
{
    if suggested.is_empty() {
        if ext.is_empty() {
            String::from_str("export")
        } else {
            let mut out: String = String::from_str("export.");
            out.append(ext);
            out
        }
    } else {
        String::from_str(suggested)
    }
}

/// Whether the extension is put behind the name the user chose: if there is
/// one and the name has none.
pub fn adds_extension(ext: &str, path_has_extension: bool) -> (r: bool)
    ensures
        r == (ext@.len() > 0 && !path_has_extension),
{
    !ext.is_empty() && !path_has_extension
}

/// What an export came to.
pub enum ExportOutcome {
    /// Written to this path.
    Wrote(String),
    /// Failed for this reason.
    Failed(String),
}

/// What the status bar says of an export.
pub fn export_report(outcome: &ExportOutcome) -> (r: String)
    ensures
        r@ == match *outcome {
            ExportOutcome::Wrote(path) => "Export: wrote "@ + path@,
            ExportOutcome::Failed(reason) => "Export failed: "@ + reason@,
        },
{
    match outcome {
        ExportOutcome::Wrote(path) => {
            let mut out: String = String::from_str("Export: wrote ");
            out.append(path.as_str());
            out
        },
        ExportOutcome::Failed(reason) => {
            let mut out: String = String::from_str("Export failed: ");
            out.append(reason.as_str());
            out
        },
    }
}

/// A part of taking in what the workers have done.
#[derive(Copy, Clone, PartialEq, Eq, Structural, Debug)]
pub enum DrainStep {
    /// Apply what was queued and bring the status bar up to date.
    Apply,
    /// Put the dialogs that came of it into the queue and show what is there.
    Dialogs,
    TabChrome,
    DocumentMap,
    FindInFiles,
    PluginNotifications,
}

/// The parts of taking in what the workers have done, in order.
pub open spec fn drain_order() -> Seq<DrainStep> {
    seq![
        DrainStep::Apply,
        DrainStep::Dialogs,
        DrainStep::TabChrome,
        DrainStep::DocumentMap,
        DrainStep::FindInFiles,
        DrainStep::PluginNotifications,
    ]
}

/// What a wake does: nothing while a close holds it off, for the tab the user
/// is asked about must not move.
pub fn drain_shell(frozen: bool) -> (r: Vec<DrainStep>)
    ensures
        r@ == if frozen {
            Seq::empty()
        } else {
            drain_order()
        },
{
    if frozen {
        return Vec::new();
    }
    vec![
        DrainStep::Apply,
        DrainStep::Dialogs,
        DrainStep::TabChrome,
        DrainStep::DocumentMap,
        DrainStep::FindInFiles,
        DrainStep::PluginNotifications,
    ]
}

/// After an open the view is bound exactly if a tab was switched to, and what
/// is done is taken in unless nothing has changed.
pub proof fn an_open_moves_the_view(outcome: OpenFileOutcome, r: AfterOpen)
    requires
        call_ensures(after_open, (Some(outcome),), r),
    ensures
        r == AfterOpen::Rebind <==> outcome == OpenFileOutcome::SwitchedToExisting,
        r == AfterOpen::Nothing <==> outcome == OpenFileOutcome::AlreadyActive,
        r == AfterOpen::Drain <==> outcome == OpenFileOutcome::Loading || outcome
            == OpenFileOutcome::Rejected,
{
}

/// A save asks for a name exactly if it is known that there is no file, and a
/// rename saves a file elsewhere and prompts for any other tab.
pub proof fn a_name_is_asked_for_without_a_file(
    has_path: Option<bool>,
    save: SaveRoute,
    file: bool,
    tab: bool,
    rename: RenameRoute,
)
    requires
        call_ensures(save_route, (has_path,), save),
        call_ensures(rename_route, (file, tab), rename),
    ensures
        save == SaveRoute::SaveAs <==> has_path == Some(false),
        rename == RenameRoute::SaveAs <==> file,
        rename == RenameRoute::Prompt <==> !file && tab,
        rename == RenameRoute::Nothing <==> !file && !tab,
{
}

/// An action on the folder needs a file in a folder, and then does what it is
/// called.
pub proof fn a_folder_action_needs_a_folder(
    action: ContainingAction,
    file: bool,
    parent: bool,
    r: ContainingTarget,
)
    requires
        call_ensures(open_containing, (action, file, parent), r),
    ensures
        r == ContainingTarget::Nothing <==> !file || !parent,
        file && parent ==> {
            &&& r == ContainingTarget::ShowFile <==> action == ContainingAction::FileManager
            &&& r == ContainingTarget::OpenTerminal <==> action == ContainingAction::Terminal
            &&& r == ContainingTarget::OpenWorkspace <==> action == ContainingAction::Workspace
        },
{
}

/// The submenu for the folder offers each action once, under its own words.
pub proof fn the_submenu_offers_each_action(i: int)
    requires
        0 <= i < containing_rows().len(),
    ensures
        containing_rows().len() == 4,
        containing_rows()[i] is None <==> i == 2,
        containing_rows()[i] matches Some((label, action)) ==> {
            &&& action == ContainingAction::FileManager <==> i == 0
            &&& action == ContainingAction::Terminal <==> i == 1
            &&& action == ContainingAction::Workspace <==> i == 3
            &&& label == "File _Explorer"@ <== i == 0
            &&& label == "_Terminal"@ <== i == 1
            &&& label == "Folder as _Workspace"@ <== i == 3
        },
{
}

/// Each way to close several tabs has words of its own.
pub proof fn closing_several_is_told_apart(a: CloseMultiKind, b: CloseMultiKind)
    ensures
        close_multi_text(a) == close_multi_text(b) ==> a == b,
        close_multi_text(CloseMultiKind::AllButActive) == "Close All but _Active Document"@,
        close_multi_text(CloseMultiKind::AllButPinned) == "Close All but _Pinned Documents"@,
        close_multi_text(CloseMultiKind::AllToLeft) == "Close All To the _Left"@,
        close_multi_text(CloseMultiKind::AllToRight) == "Close All To the _Right"@,
        close_multi_text(CloseMultiKind::AllUnchanged) == "Close All _Unchanged"@,
{
    reveal_strlit("Close All but _Active Document");
    reveal_strlit("Close All but _Pinned Documents");
    reveal_strlit("Close All To the _Left");
    reveal_strlit("Close All To the _Right");
    reveal_strlit("Close All _Unchanged");
    assert("Close All but _Active Document"@.len() == 30);
    assert("Close All but _Pinned Documents"@.len() == 31);
    assert("Close All To the _Left"@.len() == 22);
    assert("Close All To the _Right"@.len() == 23);
    assert("Close All _Unchanged"@.len() == 20);
}

/// The terminals that are tried are these, in this order, from the desktop's
/// own to the plainest.
pub proof fn terminals_are_tried_in_order()
    ensures
        terminals().len() == 7,
        terminals()[0] == "x-terminal-emulator"@,
        terminals()[1] == "gnome-terminal"@,
        terminals()[2] == "konsole"@,
        terminals()[3] == "xfce4-terminal"@,
        terminals()[4] == "kitty"@,
        terminals()[5] == "alacritty"@,
        terminals()[6] == "xterm"@,
{
}

/// A file goes to the trash with the tab it is of: once the user has agreed and
/// the file is moved, its buffer is marked as saved, the mark is taken over, and
/// the tab is closed; a file that could not be moved is reported and its tab
/// stays.
pub proof fn a_recycled_file_takes_its_tab_along(id: i32, readings: Seq<RecycleReading>)
    requires
        readings.len() == 5,
        readings[1].agreed,
        readings[1].active == Some(id),
    ensures
        readings[2].moved ==> recycle_trace(id, readings).1 == seq![
            RecycleAction::Confirm,
            RecycleAction::Trash,
            RecycleAction::MarkSaved,
            RecycleAction::RefreshChrome,
            RecycleAction::CloseTab,
        ],
        !readings[2].moved ==> recycle_trace(id, readings).1 == seq![
            RecycleAction::Confirm,
            RecycleAction::Trash,
            RecycleAction::ReportFailure,
            RecycleAction::Finished,
            RecycleAction::Finished,
        ],
{
    reveal_with_fuel(recycle_trace, 6);
    if readings[2].moved {
        assert(recycle_trace(id, readings).1 =~= seq![
            RecycleAction::Confirm,
            RecycleAction::Trash,
            RecycleAction::MarkSaved,
            RecycleAction::RefreshChrome,
            RecycleAction::CloseTab,
        ]);
    } else {
        assert(recycle_trace(id, readings).1 =~= seq![
            RecycleAction::Confirm,
            RecycleAction::Trash,
            RecycleAction::ReportFailure,
            RecycleAction::Finished,
            RecycleAction::Finished,
        ]);
    }
}

/// A user who does not agree, or has gone to another tab meanwhile, keeps the
/// file: nothing follows after the question.
pub proof fn a_file_stays_without_consent(id: i32, readings: Seq<RecycleReading>, i: int)
    requires
        1 <= i < readings.len(),
        !readings[1].agreed || readings[1].active != Some(id),
    ensures
        recycle_trace(id, readings).1[0] == RecycleAction::Confirm,
        recycle_trace(id, readings).1[i] == RecycleAction::Finished,
        recycle_trace(id, readings).0 == RecyclePhase::Over,
    decreases readings.len(),
{
    recycle_shape(id, readings);
    recycle_shape(id, readings.drop_last());
    if readings.len() == 2 {
        reveal_with_fuel(recycle_trace, 3);
    } else {
        assert(readings.drop_last()[1] == readings[1]);
        a_file_stays_without_consent(
            id,
            readings.drop_last(),
            if i < readings.len() - 1 {
                i
            } else {
                1
            },
        );
    }
}

/// The caret is taken down as it is, for a tab with a file and for no other;
/// what lies below zero counts as zero.
pub proof fn a_caret_is_taken_down_as_it_is(
    has_path: bool,
    start: isize,
    end: isize,
    line: isize,
    r: Option<SessionCaret>,
)
    requires
        0 <= line <= u32::MAX,
        call_ensures(session_caret, (has_path, start, end, line), r),
    ensures
        r is Some <==> has_path,
        r matches Some(caret) ==> {
            &&& start >= 0 ==> caret.start_pos == start
            &&& start < 0 ==> caret.start_pos == 0
            &&& end >= 0 ==> caret.end_pos == end
            &&& end < 0 ==> caret.end_pos == 0
            &&& caret.first_visible_line == line
        },
{
}

/// The place of a tab is that of the first with its id, and there is none if no
/// tab has it.
pub proof fn the_first_tab_with_an_id_is_meant(tabs: Seq<NamedTab>, id: i32)
    ensures
        match first_place(tabs, id) {
            Some(at) => {
                &&& 0 <= at < tabs.len()
                &&& tabs[at].id == id
                &&& forall|j: int| 0 <= j < at ==> (#[trigger] tabs[j]).id != id
            },
            None => forall|j: int| 0 <= j < tabs.len() ==> (#[trigger] tabs[j]).id != id,
        },
    decreases tabs.len(),
{
    if tabs.len() > 0 {
        let t = tabs.drop_last();
        the_first_tab_with_an_id_is_meant(t, id);
        assert forall|j: int| 0 <= j < t.len() implies #[trigger] tabs[j] == t[j] by {}
    }
}

/// A failed save is reported by the name of its tab, or by its number if the
/// tab is gone, and with the reason; each has a line of its own, in order.
pub proof fn a_failed_save_has_its_line(
    tabs: Seq<NamedTab>,
    errors: Seq<SaveError>,
    e: SaveError,
    k: int,
)
    ensures
        0 <= k < tabs.len() && tabs[k].id == e.id && (forall|j: int|
            0 <= j < k ==> (#[trigger] tabs[j]).id != e.id) ==> report_line(tabs, e)
            == tabs[k].name@ + ": "@ + e.text@,
        (forall|j: int| 0 <= j < tabs.len() ==> (#[trigger] tabs[j]).id != e.id) && e.id >= 0
            ==> report_line(tabs, e) == "buffer "@ + decimal(e.id as nat) + ": "@ + e.text@,
        (forall|j: int| 0 <= j < tabs.len() ==> (#[trigger] tabs[j]).id != e.id) && e.id < 0
            ==> report_line(tabs, e) == "buffer "@ + ("-"@ + decimal((-e.id) as nat)) + ": "@
            + e.text@,
        report_text(tabs, seq![e]) == report_line(tabs, e),
        errors.len() > 0 ==> report_text(tabs, errors.push(e)) == report_text(tabs, errors) + "\n"@
            + report_line(tabs, e),
{
    the_first_tab_with_an_id_is_meant(tabs, e.id);
    assert(errors.push(e).drop_last() =~= errors);
}

/// A session file is spoken of exactly if it opened nothing and something in it
/// was rejected, and the number told is that of the rejected.
pub proof fn a_rejected_session_is_spoken_of(report: LoadReport, r: Option<String>)
    requires
        call_ensures(load_session_note, (report,), r),
    ensures
        r is Some <==> report.opened == 0 && report.rejected_nonlocal > 0,
        r matches Some(text) ==> text@ == "This session file contained "@ + decimal(
            report.rejected_nonlocal as nat,
        )
            + " network / UNC path(s), which Code++ does not open from session files. No local files were opened."@,
{
}

/// An export is offered under the name suggested for it, and under a name made
/// of its extension if none is; the extension is added to a chosen name that
/// has none.
pub proof fn an_export_keeps_its_suggested_name(
    suggested: Seq<char>,
    ext: Seq<char>,
    given: &str,
    has_one: bool,
    adds: bool,
)
    requires
        call_ensures(adds_extension, (given, has_one), adds),
    ensures
        suggested.len() > 0 ==> export_name_of(suggested, ext) == suggested,
        suggested.len() == 0 && ext.len() > 0 ==> export_name_of(suggested, ext) == "export."@ + ext,
        suggested.len() == 0 && ext.len() == 0 ==> export_name_of(suggested, ext) == "export"@,
        adds <==> given@.len() > 0 && !has_one,
{
}

/// A wake that is not held off takes everything in, in this order; one that is
/// does nothing.
pub proof fn a_wake_takes_everything_in(awake: Vec<DrainStep>, held: Vec<DrainStep>)
    requires
        call_ensures(drain_shell, (false,), awake),
        call_ensures(drain_shell, (true,), held),
    ensures
        held@.len() == 0,
        awake@.len() == 6,
        awake@[0] == DrainStep::Apply,
        awake@[1] == DrainStep::Dialogs,
        awake@[2] == DrainStep::TabChrome,
        awake@[3] == DrainStep::DocumentMap,
        awake@[4] == DrainStep::FindInFiles,
        awake@[5] == DrainStep::PluginNotifications,
{
}

/// Closing all goes on exactly as long as a tab was there, was closed, and
/// fewer are left.
pub proof fn closing_all_goes_on_while_tabs_close(before: usize, closed: bool, after: usize, r: bool)
    requires
        call_ensures(close_all_goes_on, (before, closed, after), r),
    ensures
        r <==> before > 0 && closed && after < before,
        r <==> goes_on(before as nat, closed, after as nat),
{
}

/// What is asked and said of a file names it.
pub proof fn a_file_is_spoken_of_by_name(
    path: &str,
    recycle: String,
    reload: String,
    text: String,
    wrote: String,
    failed: String,
)
    requires
        call_ensures(recycle_question, (path,), recycle),
        call_ensures(reload_question, (path,), reload),
        call_ensures(export_report, (&ExportOutcome::Wrote(text),), wrote),
        call_ensures(export_report, (&ExportOutcome::Failed(text),), failed),
    ensures
        recycle@ == "The file “"@ + path@
            + "” will be moved to the Recycle Bin (Trash) and this document will be closed.\nContinue?"@,
        reload@ == path@ + " was modified outside Code++.\n\nReload it?"@,
        wrote@ == "Export: wrote "@ + text@,
        failed@ == "Export failed: "@ + text@,
{
}

} // verus!
