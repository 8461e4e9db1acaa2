use ui_gtk::closing::{
    close_tab_by_id, discard_gate, refresh_active_dirty, save_question, switched_tab,
    window_title, ActiveBuffer, BufferSample, CloseAction, CloseReading, CloseRun, DirtyPoll,
    DirtyReading, Gate, SaveAnswer, TabMarks,
};
use ui_gtk::fif::OpenFileOutcome;
use ui_gtk::file_actions::{
    adds_extension, after_open, close_all_goes_on, close_multi_label, containing_row, drain_shell,
    export_name, export_report, load_session_note, open_containing, recycle_question,
    reload_question, rename_route, save_all_report, save_route, session_caret, terminal_to_try,
    AfterOpen, CloseMultiKind, ContainingAction, ContainingTarget, DrainStep, ExportOutcome,
    LoadReport, RecycleAction, RecycleReading, RecycleRun, RenameRoute, SaveError, SaveRoute,
    SessionCaret,
};
use ui_gtk::recent::NamedTab;
use ui_gtk::session::{
    reseed_active_caret, restore_window_geometry, EntryKind, RestoreAction, RestoreRun,
    ShellReading,
};
use ui_gtk::dock_geometry::WindowGeometry;

#[test]
fn only_a_file_in_another_tab_moves_the_view_at_once() {
    assert_eq!(after_open(Some(OpenFileOutcome::SwitchedToExisting)), AfterOpen::Rebind);
    assert_eq!(after_open(Some(OpenFileOutcome::AlreadyActive)), AfterOpen::Nothing);
    assert_eq!(after_open(Some(OpenFileOutcome::Loading)), AfterOpen::Drain);
    assert_eq!(after_open(Some(OpenFileOutcome::Rejected)), AfterOpen::Drain);
    assert_eq!(after_open(None), AfterOpen::Drain);
}

#[test]
fn saving_and_renaming_depend_on_the_file() {
    assert_eq!(save_route(Some(false)), SaveRoute::SaveAs);
    assert_eq!(save_route(Some(true)), SaveRoute::InPlace);
    assert_eq!(save_route(None), SaveRoute::InPlace);
    assert_eq!(rename_route(true, true), RenameRoute::SaveAs);
    assert_eq!(rename_route(false, true), RenameRoute::Prompt);
    assert_eq!(rename_route(false, false), RenameRoute::Nothing);
}

#[test]
fn the_folder_of_a_file_can_be_opened_in_three_ways() {
    assert_eq!(open_containing(ContainingAction::FileManager, true, true), ContainingTarget::ShowFile);
    assert_eq!(open_containing(ContainingAction::Terminal, true, true), ContainingTarget::OpenTerminal);
    assert_eq!(open_containing(ContainingAction::Workspace, true, true), ContainingTarget::OpenWorkspace);
    assert_eq!(open_containing(ContainingAction::Terminal, false, true), ContainingTarget::Nothing);
    assert_eq!(open_containing(ContainingAction::Terminal, true, false), ContainingTarget::Nothing);
    assert_eq!(containing_row(0), Some(("File _Explorer", ContainingAction::FileManager)));
    assert_eq!(containing_row(1), Some(("_Terminal", ContainingAction::Terminal)));
    assert_eq!(containing_row(2), None);
    assert_eq!(containing_row(3), Some(("Folder as _Workspace", ContainingAction::Workspace)));
}

#[test]
fn terminals_are_tried_in_order() {
    let mut tried = Vec::new();
    while let Some(name) = terminal_to_try(tried.len()) {
        tried.push(name);
    }
    assert_eq!(tried.len(), 7);
    assert_eq!(tried[0], "x-terminal-emulator");
    assert_eq!(tried[6], "xterm");
}

#[test]
fn closing_several_has_five_ways() {
    assert_eq!(
        close_multi_label(CloseMultiKind::AllButActive),
        "Close All but _Active Document"
    );
    assert_eq!(
        close_multi_label(CloseMultiKind::AllButPinned),
        "Close All but _Pinned Documents"
    );
    assert_eq!(close_multi_label(CloseMultiKind::AllToLeft), "Close All To the _Left");
    assert_eq!(close_multi_label(CloseMultiKind::AllToRight), "Close All To the _Right");
    assert_eq!(close_multi_label(CloseMultiKind::AllUnchanged), "Close All _Unchanged");
}

fn recycle(agreed: bool, active: Option<i32>, moved: bool) -> RecycleReading {
    RecycleReading { agreed, active, moved }
}

#[test]
fn a_file_goes_to_the_trash_and_then_its_tab_closes() {
    let mut run = RecycleRun::new(5, true).unwrap();
    let r = recycle(true, Some(5), true);
    let mut done = Vec::new();
    for _ in 0..7 {
        done.push(run.step(r));
    }
    assert_eq!(
        done,
        vec![
            RecycleAction::Confirm,
            RecycleAction::Trash,
            RecycleAction::MarkSaved,
            RecycleAction::RefreshChrome,
            RecycleAction::CloseTab,
            RecycleAction::Finished,
            RecycleAction::Finished,
        ]
    );
    assert!(RecycleRun::new(5, false).is_none());
}

#[test]
fn nothing_is_moved_that_was_not_agreed_on() {
    let mut run = RecycleRun::new(5, true).unwrap();
    run.step(recycle(false, None, false));
    assert_eq!(run.step(recycle(false, Some(5), false)), RecycleAction::Finished);
    // Another tab became active while the question was up.
    let mut run = RecycleRun::new(5, true).unwrap();
    run.step(recycle(false, None, false));
    assert_eq!(run.step(recycle(true, Some(6), false)), RecycleAction::Finished);
    // The file could not be moved: the tab stays.
    let mut run = RecycleRun::new(5, true).unwrap();
    run.step(recycle(false, None, false));
    run.step(recycle(true, Some(5), false));
    assert_eq!(run.step(recycle(true, Some(5), false)), RecycleAction::ReportFailure);
    assert_eq!(run.step(recycle(true, Some(5), true)), RecycleAction::Finished);
    assert_eq!(
        recycle_question("/tmp/a"),
        "The file “/tmp/a” will be moved to the Recycle Bin (Trash) and this document will be \
         closed.\nContinue?"
    );
}

#[test]
fn a_session_file_records_the_caret_of_a_file() {
    assert_eq!(session_caret(false, 1, 2, 3), None);
    assert_eq!(
        session_caret(true, 5, -1, 9),
        Some(SessionCaret { start_pos: 5, end_pos: 0, first_visible_line: 9 })
    );
    assert_eq!(
        session_caret(true, 0, 0, (1 << 32) + 4).unwrap().first_visible_line,
        4
    );
}

#[test]
fn a_session_file_that_opened_nothing_is_explained() {
    let note = load_session_note(LoadReport { opened: 0, rejected_nonlocal: 3 }).unwrap();
    assert_eq!(
        note,
        "This session file contained 3 network / UNC path(s), which Code++ does not open from \
         session files. No local files were opened."
    );
    assert_eq!(load_session_note(LoadReport { opened: 1, rejected_nonlocal: 3 }), None);
    assert_eq!(load_session_note(LoadReport { opened: 0, rejected_nonlocal: 0 }), None);
}

#[test]
fn what_could_not_be_saved_is_listed() {
    let tabs = vec![
        NamedTab { id: 1, name: "a.txt".to_string() },
        NamedTab { id: 2, name: "b.txt".to_string() },
    ];
    let error = |id: i32, text: &str| SaveError { id, text: text.to_string() };
    assert_eq!(save_all_report(&tabs, &Vec::new()), None);
    assert_eq!(
        save_all_report(&tabs, &vec![error(2, "full"), error(-7, "gone"), error(1, "no")])
            .as_deref(),
        Some("b.txt: full\nbuffer -7: gone\na.txt: no")
    );
    assert_eq!(
        save_all_report(&tabs, &vec![error(i32::MIN, "x")]).as_deref(),
        Some("buffer -2147483648: x")
    );
}

#[test]
fn closing_all_goes_on_while_it_gets_on() {
    assert!(close_all_goes_on(3, true, 2));
    assert!(!close_all_goes_on(3, false, 2));
    assert!(!close_all_goes_on(3, true, 3));
    assert!(!close_all_goes_on(0, true, 0));
}

#[test]
fn an_export_is_offered_under_a_name() {
    assert_eq!(export_name("page", "html"), "page");
    assert_eq!(export_name("", "html"), "export.html");
    assert_eq!(export_name("", ""), "export");
    assert!(adds_extension("html", false));
    assert!(!adds_extension("html", true));
    assert!(!adds_extension("", false));
    assert_eq!(export_report(&ExportOutcome::Wrote("/tmp/p".to_string())), "Export: wrote /tmp/p");
    assert_eq!(
        export_report(&ExportOutcome::Failed("disk full".to_string())),
        "Export failed: disk full"
    );
    assert_eq!(
        reload_question("/tmp/a"),
        "/tmp/a was modified outside Code++.\n\nReload it?"
    );
}

#[test]
fn a_close_holds_a_drain_off() {
    assert!(drain_shell(true).is_empty());
    assert_eq!(
        drain_shell(false),
        vec![
            DrainStep::Apply,
            DrainStep::Dialogs,
            DrainStep::TabChrome,
            DrainStep::DocumentMap,
            DrainStep::FindInFiles,
            DrainStep::PluginNotifications,
        ]
    );
}

fn buffer(has_path: bool, loading: bool, dirty: bool, length: isize) -> ActiveBuffer {
    let (modified, marked) = (dirty, dirty);
    ActiveBuffer::Buffer(BufferSample { has_path, has_pending_load: loading, modified, marked, length })
}

#[test]
fn a_close_asks_only_where_something_would_be_lost() {
    assert_eq!(discard_gate(ActiveBuffer::Unavailable), Gate::Shut);
    assert_eq!(discard_gate(ActiveBuffer::NoTab), Gate::Open);
    assert_eq!(discard_gate(buffer(true, false, false, 9)), Gate::Open);
    assert_eq!(discard_gate(buffer(true, false, true, 0)), Gate::Ask);
    assert_eq!(discard_gate(buffer(false, false, true, 0)), Gate::Open);
    assert_eq!(discard_gate(buffer(false, false, true, 1)), Gate::Ask);
    assert_eq!(discard_gate(buffer(true, true, true, 9)), Gate::Open);
    let gone = |modified: bool, marked: bool| {
        ActiveBuffer::Buffer(BufferSample {
            has_path: true,
            has_pending_load: false,
            modified,
            marked,
            length: 0,
        })
    };
    assert_eq!(discard_gate(gone(false, true)), Gate::Ask);
    assert_eq!(discard_gate(gone(true, false)), Gate::Ask);
}

fn close_reading() -> CloseReading {
    CloseReading {
        active: buffer(true, false, true, 9),
        answer: SaveAnswer::Save,
        saved: true,
        modified: Some(false),
        closed_doc: Some(44),
        has_active: true,
    }
}

fn actions(r: CloseReading) -> Vec<CloseAction> {
    let mut run = CloseRun::new();
    let mut out = Vec::new();
    for _ in 0..12 {
        let action = run.step(r);
        out.push(action);
        if matches!(action, CloseAction::Finish(_)) {
            break;
        }
    }
    out
}

#[test]
fn a_saved_buffer_is_closed_and_another_bound() {
    assert_eq!(
        actions(close_reading()),
        vec![
            CloseAction::Sample,
            CloseAction::Ask,
            CloseAction::Save,
            CloseAction::CloseTab,
            CloseAction::Release(44),
            CloseAction::Rebind,
            CloseAction::Finish(true),
        ]
    );
}

#[test]
fn a_save_that_failed_or_a_cancel_keeps_the_tab() {
    let failed = actions(CloseReading { modified: Some(true), ..close_reading() });
    assert!(!failed.contains(&CloseAction::CloseTab));
    assert_eq!(failed.last(), Some(&CloseAction::Finish(false)));
    let called_off = actions(CloseReading { saved: false, ..close_reading() });
    assert!(!called_off.contains(&CloseAction::CloseTab));
    let unread = actions(CloseReading { modified: None, ..close_reading() });
    assert!(!unread.contains(&CloseAction::CloseTab));
    let cancelled = actions(CloseReading { answer: SaveAnswer::Cancel, ..close_reading() });
    assert!(!cancelled.contains(&CloseAction::CloseTab));
    let dropped = actions(CloseReading { answer: SaveAnswer::DontSave, ..close_reading() });
    assert!(dropped.contains(&CloseAction::CloseTab));
    assert!(!dropped.contains(&CloseAction::Save));
    let last = actions(CloseReading { has_active: false, ..close_reading() });
    assert!(last.contains(&CloseAction::NewUntitled));
}

#[test]
fn a_close_that_was_agreed_to_asks_nothing() {
    let mut run = CloseRun::agreed();
    let r = CloseReading { active: buffer(true, false, true, 9), ..close_reading() };
    assert_eq!(run.step(r), CloseAction::CloseTab);
    assert_eq!(run.step(r), CloseAction::Release(44));
    assert_eq!(run.step(r), CloseAction::Rebind);
    assert_eq!(run.step(r), CloseAction::Finish(true));
}

#[test]
fn tabs_are_found_by_their_number() {
    assert_eq!(close_tab_by_id(&vec![5, 6, 7], Some(1), 6), Some((1, false)));
    assert_eq!(close_tab_by_id(&vec![5, 6, 7], Some(0), 7), Some((2, true)));
    assert_eq!(close_tab_by_id(&vec![5, 6, 7], Some(0), 9), None);
    assert_eq!(switched_tab(2, 3), Some(2));
    assert_eq!(switched_tab(3, 3), None);
}

#[test]
fn the_mark_of_a_tab_follows_its_buffer() {
    let marks = |cached: bool, unsaved_restore: bool| Some(TabMarks { cached, unsaved_restore });
    assert_eq!(refresh_active_dirty(None).0, DirtyPoll::Unavailable);
    let reading = |modified: bool, active: Option<TabMarks>| Some(DirtyReading { modified, active });
    assert_eq!(
        refresh_active_dirty(reading(true, marks(false, false))),
        (DirtyPoll::Changed, Some(true))
    );
    assert_eq!(refresh_active_dirty(reading(true, marks(true, false))).0, DirtyPoll::Unchanged);
    assert_eq!(window_title(Some("a.txt")), "a.txt - Code++");
    assert_eq!(window_title(None), "Code++");
    assert!(save_question("a.txt").contains("a.txt"));
}

#[test]
fn a_session_comes_back_entry_by_entry() {
    let mut run = RestoreRun::new(
        vec![EntryKind::OpenFile, EntryKind::UntitledFromBackup, EntryKind::DirtyFromBackup],
        true,
    );
    let r = ShellReading { switched_to_existing: false, tab_count: 3, session_active: Some(1) };
    let mut done = Vec::new();
    for _ in 0..20 {
        let action = run.step(r);
        done.push(action);
        if action == RestoreAction::Done {
            break;
        }
    }
    let place = |a: RestoreAction| done.iter().position(|d| *d == a).unwrap();
    assert!(place(RestoreAction::Open(0)) < place(RestoreAction::RestoreUntitled(1)));
    assert!(place(RestoreAction::RestoreUntitled(1)) < place(RestoreAction::RestoreDirty(2)));
    assert!(place(RestoreAction::RestoreDirty(2)) < place(RestoreAction::OpenInitial));
    assert_eq!(done.last(), Some(&RestoreAction::Done));
}

#[test]
fn a_caret_goes_back_to_where_it_was() {
    assert_eq!(reseed_active_caret(Some(1), Some(1), &vec![10, 20]), Some(20));
    assert_eq!(reseed_active_caret(Some(1), Some(0), &vec![10, 20]), None);
    assert_eq!(reseed_active_caret(None, Some(0), &vec![10, 20]), None);
}

#[test]
fn a_window_gets_back_a_size_that_is_one() {
    let saved = WindowGeometry {
        width: Some(900),
        height: Some(700),
        x: None,
        y: None,
        maximized: true,
    };
    let r = restore_window_geometry(Some(saved));
    assert_eq!((r.size, r.maximize), (Some((900, 700)), true));
    let r = restore_window_geometry(Some(WindowGeometry { width: Some(0), ..saved }));
    assert_eq!((r.size, r.maximize), (None, true));
    let r = restore_window_geometry(None);
    assert_eq!((r.size, r.maximize), (None, false));
}
