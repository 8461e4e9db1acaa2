use ui_gtk::docmap::{
    centre_box, line_at, overlay_box, overlay_positions, scroll_to_line, visible_doc_range, visible_window,
    wheel_lines, DocMapPanel, Wheel, DEFAULT_WIDTH_PX, MIN_WIDTH_PX,
};
use ui_gtk::editor_search::{
    flags_from, next_in_range, replaces_selection, search_result, selection_to_replace, to_position, CountSweep,
    PrevSweep, ReplaceAction, ReplaceReading, ReplaceRun,
};
use ui_gtk::notify::{
    carries_dropped_uris, counts_as_typing, is_style_only_modification, probe_mark,
    style_needed_position, Notification, ProbeMark, SCN_MODIFIED, SCN_PAINTED, SCN_STYLENEEDED,
    SCN_URIDROPPED, SC_MOD_DELETETEXT, SC_MOD_INSERTTEXT,
};
use ui_gtk::platform::{
    activate_tab, bytes_read, center_caret_if_offscreen, doc_access, eol_mode, needs_dirty_mark,
    needs_document, opacity_percent, replace_doc_text, restore_view, rgb_to_scintilla_colour,
    set_buffer_text, CaretReading, DocAccess, DocVisit, EditorReading, EditorView, Eol, EolMode,
    GtkUi, TextStep, ViewState, VisitAction,
};
use ui_gtk::status::{
    part_widths, StatusBar, PART_CURSOR, PART_EOL, PART_INSOVR, PART_LANG, PART_LENGTH,
};

#[test]
fn colours_are_encoded_with_red_in_the_low_byte() {
    assert_eq!(rgb_to_scintilla_colour((0x12, 0x34, 0x56)), 0x563412);
    assert_eq!(rgb_to_scintilla_colour((255, 255, 255)), 0xFFFFFF);
    assert_ne!(rgb_to_scintilla_colour((1, 0, 0)), rgb_to_scintilla_colour((0, 1, 0)));
}

#[test]
fn a_view_comes_back_where_it_was() {
    let snap = ViewState { caret: 40, anchor: -2, top_line: 12, x_offset: 7 };
    let r = restore_view(snap, 10);
    assert_eq!((r.anchor, r.caret, r.scroll, r.x_offset), (0, 40, Some(2), 7));
    assert_eq!(restore_view(snap, 12).scroll, None);
}

/// Visit `doc` in an editor that goes to the start of a document when it is put
/// into the view, and that scrolls when something is selected. The result is
/// what was looked at, and what the editor shows in the end.
fn visit(doc: isize, first: EditorView) -> (Vec<isize>, EditorView) {
    let mut view = first;
    let mut looked = Vec::new();
    let mut visit = DocVisit::new(doc);
    for _ in 0..7 {
        match visit.step(view) {
            VisitAction::Bind(d) => {
                let place = ViewState { caret: 0, anchor: 0, top_line: 0, x_offset: 0 };
                view = EditorView { bound: d, place };
            }
            VisitAction::Look => looked.push(view.bound),
            VisitAction::Select { anchor, caret } => {
                view.place.anchor = anchor as isize;
                view.place.caret = caret;
                view.place.top_line = 3;
            }
            VisitAction::Scroll(lines) => view.place.top_line += lines,
            VisitAction::SetOffset(offset) => view.place.x_offset = offset as isize,
            VisitAction::Finish => return (looked, view),
        }
    }
    panic!("a visit takes no more than seven steps")
}

#[test]
fn a_visit_leaves_the_view_as_it_was() {
    let place = ViewState { caret: 40, anchor: 35, top_line: 12, x_offset: 7 };
    let first = EditorView { bound: 5, place };
    assert_eq!(visit(6, first), (vec![6], first));
    assert_eq!(visit(5, first), (vec![5], first));
    assert_eq!(visit(0, first), (vec![], first));
    let near = EditorView { bound: 5, place: ViewState { top_line: 3, ..place } };
    assert_eq!(visit(6, near), (vec![6], near));
    let empty = EditorView { bound: 0, place };
    let (looked, last) = visit(6, empty);
    assert_eq!((looked, last.bound), (vec![6], 6));
}

#[test]
fn a_document_is_reached_where_it_is() {
    assert_eq!(doc_access(0, 5), DocAccess::Absent);
    assert_eq!(doc_access(5, 5), DocAccess::Bound);
    assert_eq!(doc_access(6, 5), DocAccess::Swap(Some(5)));
    assert_eq!(doc_access(6, 0), DocAccess::Swap(None));
    assert!(needs_document(0) && !needs_document(5));
    assert!(activate_tab(6, true, 5).bind);
    assert!(!activate_tab(5, false, 5).bind);
    assert!(activate_tab(6, true, 5).configure);
    assert_eq!(doc_access(6, 6), DocAccess::Bound);
    assert!(!activate_tab(6, false, 6).bind);
}

#[test]
fn the_caret_is_brought_to_the_middle_when_it_is_out_of_sight() {
    let seen = CaretReading { line: 15, first_visible: 10, lines_on_screen: 20 };
    assert_eq!(center_caret_if_offscreen(seen), None);
    let below = CaretReading { line: 100, ..seen };
    assert_eq!(center_caret_if_offscreen(below), Some(100 - 10 - 10));
    let above = CaretReading { line: 2, ..seen };
    assert!(center_caret_if_offscreen(above).unwrap() < 0);
}

#[test]
fn line_ends_and_opacity() {
    assert_eq!(eol_mode(Eol::CrLf), EolMode::CrLf);
    assert_eq!(eol_mode(Eol::Cr), EolMode::Cr);
    assert_eq!(eol_mode(Eol::Lf), EolMode::Lf);
    assert_eq!(eol_mode(Eol::Mixed), EolMode::Lf);
    assert_eq!(opacity_percent(true, 40), 40);
    assert_eq!(opacity_percent(true, 140), 100);
    assert_eq!(opacity_percent(false, 40), 100);
    assert!(needs_dirty_mark(false) && !needs_dirty_mark(true));
}

#[test]
fn a_load_is_no_edit_and_a_replacement_is_one() {
    assert_eq!(
        set_buffer_text(9),
        vec![
            TextStep::SetText,
            TextStep::EmptyUndoBuffer,
            TextStep::SetSavePoint,
            TextStep::GotoPos(9),
        ]
    );
    assert_eq!(replace_doc_text(3), vec![TextStep::SetText]);
    assert!(replace_doc_text(0).is_empty());
    assert_eq!(bytes_read(10, 8), 8);
    assert_eq!(bytes_read(0, 8), 0);
    assert_eq!(bytes_read(10, -1), 0);
}

fn editor_reading() -> EditorReading {
    EditorReading {
        length: 1234567,
        lines: 4321,
        pos: 99,
        caret_line: 10,
        caret_col: 4,
        overtype: true,
    }
}

#[test]
fn the_status_bar_shows_the_editor() {
    let mut ui = GtkUi::new();
    ui.refresh_dynamic_status(editor_reading());
    assert!(ui.status.part(PART_LENGTH).contains("1,234,567"));
    assert!(ui.status.part(PART_LENGTH).contains("4,321"));
    assert!(ui.status.part(PART_CURSOR).contains("11"));
    assert_eq!(ui.status.part(PART_INSOVR).trim(), "OVR");
    ui.update_status(Some("Rust"), "Unix (LF)", "UTF-8", editor_reading());
    assert_eq!(ui.status.part(PART_LANG).trim(), "Rust");
    assert_eq!(ui.status.part(PART_EOL).trim(), "Unix (LF)");
    assert!(!ui.set_tabbar_hidden(true));
    assert!(ui.is_tabbar_hidden() && !ui.is_menu_hidden());
    assert!(!ui.set_menu_hidden(true));
    assert!(ui.set_menu_hidden(false));
    assert!(!ui.set_statusbar_hidden(true) && ui.is_statusbar_hidden());
    assert!(!ui.is_toolbar_hidden());
    assert!(!ui.set_toolbar_hidden(true));
    assert!(ui.is_toolbar_hidden() && ui.is_tabbar_hidden() && !ui.is_menu_hidden());
    assert!(ui.set_toolbar_hidden(false) && !ui.is_toolbar_hidden());
}

#[test]
fn plugins_write_into_their_part() {
    let mut bar = StatusBar::new();
    assert_eq!(part_widths().len(), 7);
    bar.set_plugin_part(PART_LANG, "from a plugin");
    assert!(bar.part(PART_LANG).contains("from a plugin"));
    bar.set_static_parts("C", "Windows (CR LF)", "UTF-8");
    assert!(bar.part(PART_LANG).contains('C'));
    bar.set_dynamic_parts(1, 1, 0, 0, 0, false);
    assert_eq!(bar.part(PART_INSOVR).trim(), "INS");
    bar.set_plugin_part(99, "nowhere");
    assert_eq!(bar.part(PART_EOL).trim(), "Windows (CR LF)");
}

fn note(code: u32, position: isize, modification_type: u32, has_text: bool) -> Option<Notification> {
    Some(Notification { code, position, modification_type, has_text })
}

#[test]
fn notifications_are_told_apart() {
    assert_eq!(style_needed_position(note(SCN_STYLENEEDED, 40, 0, false)), Some(40));
    assert_eq!(style_needed_position(note(SCN_STYLENEEDED, -1, 0, false)), None);
    assert_eq!(style_needed_position(note(SCN_MODIFIED, 40, 0, false)), None);
    assert_eq!(style_needed_position(None), None);
    assert!(is_style_only_modification(note(SCN_MODIFIED, 0, 4, false)));
    assert!(!is_style_only_modification(note(SCN_MODIFIED, 0, 4 | SC_MOD_INSERTTEXT, false)));
    assert!(!is_style_only_modification(note(SCN_MODIFIED, 0, SC_MOD_DELETETEXT, false)));
    assert!(!is_style_only_modification(note(SCN_PAINTED, 0, 4, false)));
    assert!(carries_dropped_uris(note(SCN_URIDROPPED, 0, 0, true)));
    assert!(!carries_dropped_uris(note(SCN_URIDROPPED, 0, 0, false)));
    assert!(counts_as_typing(false, false));
    assert!(!counts_as_typing(true, false));
    assert!(counts_as_typing(true, true));
    assert_eq!(probe_mark(Some(SCN_MODIFIED)), ProbeMark::TextModified);
    assert_eq!(probe_mark(Some(SCN_PAINTED)), ProbeMark::Painted);
    assert_eq!(probe_mark(None), ProbeMark::Nothing);
}

#[test]
fn the_width_of_the_map_survives_hiding() {
    let mut map = DocMapPanel::build();
    assert_eq!(map.width, DEFAULT_WIDTH_PX);
    map.set_shown(true, 0);
    assert_eq!(map.size_allocated(1000, 400), Some(1000 - DEFAULT_WIDTH_PX));
    assert_eq!(map.size_allocated(1000, 400), None);
    map.set_shown(false, 240);
    assert_eq!(map.current_width(0), 240);
    map.set_shown(false, 10);
    assert_eq!(map.current_width(0), 240);
    map.apply_saved_width(Some(MIN_WIDTH_PX - 1));
    assert_eq!(map.current_width(0), 240);
    map.apply_saved_width(Some(MIN_WIDTH_PX));
    map.apply_saved_width(None);
    assert_eq!(map.current_width(0), MIN_WIDTH_PX);
    assert_eq!(map.sync_to_active_tab(5, 5), None);
}

#[test]
fn the_map_shows_what_the_editor_shows() {
    assert_eq!(visible_window(10, 20, 100), Some((10, 30)));
    assert_eq!(visible_window(90, 20, 100), Some((90, 110)));
    assert_eq!(visible_window(0, 20, 0), None);
    assert_eq!(visible_doc_range(3, 9, 100), Some((3, 9)));
    assert_eq!(visible_doc_range(3, 9, 0), None);
    assert_eq!(centre_box(40, 60, 30, 0), Some(35));
    assert_eq!(overlay_positions(-1, 5), None);
    assert_eq!(overlay_positions(3, 5), Some((3, 5)));
    assert_eq!(overlay_box(10, 50, 4, 100), Some((10, 40)));
    assert_eq!(overlay_box(10, 10, 4, 100), Some((10, 4)));
    assert_eq!(overlay_box(10, 50, 4, 0), None);
    assert_eq!(line_at(5, 40, 10), 9);
    assert_eq!(line_at(5, 40, 0), 45);
    assert_eq!(scroll_to_line(100, 20, 0), Some(90));
    assert_eq!(scroll_to_line(5, 20, 0), None);
    assert_eq!(wheel_lines(Wheel::Up), Some(-3));
    assert_eq!(wheel_lines(Wheel::Down), Some(3));
    assert_eq!(wheel_lines(Wheel::Other), None);
}

#[test]
fn a_count_walks_over_every_match() {
    assert!(CountSweep::new(true, 10).is_none());
    let mut sweep = CountSweep::new(false, 10).unwrap();
    assert_eq!(sweep.target(), Some((0, 10)));
    sweep.found(4, 5);
    assert_eq!(sweep.target(), Some((4, 10)));
    // A match of nothing moves on by one position.
    sweep.found(4, 5);
    assert_eq!(sweep.target(), Some((5, 10)));
    sweep.found(10, 10);
    assert_eq!(sweep.count, 3);
    assert_eq!(sweep.target(), None);
    assert_eq!(CountSweep::new(false, -1).unwrap().target(), None);
}

fn reading(doc_len: isize, found: Option<(u64, u64)>, new_end: u64, after: isize) -> ReplaceReading {
    ReplaceReading { doc_len, found, new_end, after }
}

#[test]
fn a_replacement_goes_on_behind_what_it_put_in() {
    assert!(ReplaceRun::in_document(true).is_none());
    let mut run = ReplaceRun::in_document(false).unwrap();
    assert_eq!(run.step(reading(30, None, 0, 0)), ReplaceAction::BeginUndo);
    assert_eq!(run.step(reading(30, None, 0, 0)), ReplaceAction::Search { from: 0, to: 30 });
    assert_eq!(run.step(reading(30, Some((2, 5)), 0, 0)), ReplaceAction::Replace);
    assert_eq!(run.step(reading(33, None, 8, 9)), ReplaceAction::Search { from: 8, to: 33 });
    assert_eq!(run.step(reading(33, None, 8, 9)), ReplaceAction::EndUndo);
    let done = ReplaceAction::Finish { count: 1, range_end: None };
    assert_eq!(run.step(reading(33, None, 8, 9)), done);
    assert_eq!(run.step(reading(33, None, 8, 9)), done);
}

#[test]
fn a_match_of_no_width_is_stepped_over() {
    let mut run = ReplaceRun::in_document(false).unwrap();
    run.step(reading(4, None, 0, 0));
    run.step(reading(4, None, 0, 0));
    run.step(reading(4, Some((0, 0)), 0, 0));
    assert_eq!(run.step(reading(4, None, 0, 2)), ReplaceAction::Search { from: 2, to: 4 });
}

#[test]
fn a_range_grows_with_what_is_replaced_in_it() {
    assert!(ReplaceRun::in_range(true, 0, 5).is_none());
    assert!(ReplaceRun::in_range(false, 5, 5).is_none());
    let mut run = ReplaceRun::in_range(false, 10, 30).unwrap();
    assert_eq!(run.step(reading(99, None, 0, 0)), ReplaceAction::BeginUndo);
    assert_eq!(run.step(reading(99, None, 0, 0)), ReplaceAction::Search { from: 10, to: 30 });
    assert_eq!(run.step(reading(99, Some((12, 14)), 0, 0)), ReplaceAction::Replace);
    assert_eq!(run.step(reading(99, None, 17, 18)), ReplaceAction::Search { from: 17, to: 33 });
    assert_eq!(run.step(reading(99, Some((30, 33)), 17, 18)), ReplaceAction::Replace);
    assert_eq!(run.step(reading(99, None, 30, 31)), ReplaceAction::EndUndo);
    let done = ReplaceAction::Finish { count: 2, range_end: Some(30) };
    assert_eq!(run.step(reading(99, None, 30, 31)), done);
}

#[test]
fn searches_stay_in_their_range() {
    assert_eq!(next_in_range(true, 0, 10, 5), None);
    assert_eq!(next_in_range(false, 0, 10, 5), Some((5, 10)));
    assert_eq!(next_in_range(false, 0, 10, -4), Some((0, 10)));
    let mut prev = PrevSweep::new(false, 0, 20, 15).unwrap();
    assert_eq!(prev.target(), Some((0, 15)));
    prev.found(3, 5, 6);
    prev.found(9, 11, 12);
    assert_eq!(prev.last, Some((9, 11)));
    assert_eq!(selection_to_replace(false, 4, 9), Some((4, 9)));
    assert_eq!(selection_to_replace(true, 4, 9), None);
    assert!(replaces_selection((4, 9), Some((4, 9))));
    assert!(!replaces_selection((4, 9), Some((4, 7))));
    assert!(!replaces_selection((4, 9), None));
    assert_eq!(search_result(-1), None);
    assert_eq!(search_result(7), Some(7));
    assert_eq!(to_position(-3), 0);
    let f = flags_from(true, false, true);
    assert!(f.match_case && !f.whole_word && f.regex);
}

/// Replace every `find` in a document; the result is the document and how many
/// were replaced.
fn replace_all(doc: &str, find: &str, with: &str, mut run: ReplaceRun) -> (String, usize) {
    let mut doc = doc.to_string();
    let mut r = ReplaceReading { doc_len: 0, found: None, new_end: 0, after: 0 };
    for _ in 0..2 * doc.len() + 4 {
        r.doc_len = doc.len() as isize;
        match run.step(r) {
            ReplaceAction::BeginUndo | ReplaceAction::EndUndo => {}
            ReplaceAction::Search { from, to } => {
                r.found = doc[from as usize..to as usize].find(find).map(|at| {
                    let start = from + at as u64;
                    (start, start + find.len() as u64)
                });
            }
            ReplaceAction::Replace => {
                let (start, end) = r.found.unwrap();
                doc.replace_range(start as usize..end as usize, with);
                r.new_end = start + with.len() as u64;
                r.after = doc.len().min(r.new_end as usize + 1) as isize;
            }
            ReplaceAction::Finish { count, .. } => return (doc, count),
        }
    }
    panic!("a replacement of matches with width ends")
}

#[test]
fn a_replacement_that_holds_its_match_ends() {
    let whole = || ReplaceRun::in_document(false).unwrap();
    assert_eq!(replace_all("aXaa", "a", "aa", whole()), ("aaXaaaa".to_string(), 3));
    assert_eq!(replace_all("aaaa", "aa", "a", whole()), ("aa".to_string(), 2));
    assert_eq!(replace_all("xaxa", "a", "", whole()), ("xx".to_string(), 2));
    assert_eq!(replace_all("aaaa", "a", "", whole()), (String::new(), 4));
    assert_eq!(replace_all("aaxa", "a", "", whole()), ("x".to_string(), 3));
    let range = ReplaceRun::in_range(false, 1, 3).unwrap();
    assert_eq!(replace_all("aaaa", "a", "aaa", range), ("aaaaaaaa".to_string(), 2));
}
