use ui_gtk::select_mark::{
    on_begin_end_select, refresh_edit_menu, resolve_begin_end_step, MarkedSelection,
    SelectMarkMode, SelectStep,
};

const TAB: i32 = 5;
const OTHER_TAB: i32 = 6;
const DOC_LEN: isize = 200;

#[test]
fn none_plus_stream_press_arms_stream() {
    let step = resolve_begin_end_step(SelectMarkMode::Off, false, TAB, DOC_LEN);
    assert_eq!(step, SelectStep::Begin { column: false });
}

#[test]
fn none_plus_column_press_arms_column() {
    let step = resolve_begin_end_step(SelectMarkMode::Off, true, TAB, DOC_LEN);
    assert_eq!(step, SelectStep::Begin { column: true });
}

#[test]
fn stream_armed_matching_press_ends_when_anchor_in_range() {
    let step = resolve_begin_end_step(
        SelectMarkMode::Stream {
            anchor: 100,
            tab_id: TAB,
        },
        false,
        TAB,
        DOC_LEN,
    );
    assert_eq!(
        step,
        SelectStep::End {
            anchor: 100,
            column: false
        }
    );
}

#[test]
fn column_armed_matching_press_ends_when_anchor_in_range() {
    let step = resolve_begin_end_step(
        SelectMarkMode::Column {
            anchor: 42,
            tab_id: TAB,
        },
        true,
        TAB,
        DOC_LEN,
    );
    assert_eq!(
        step,
        SelectStep::End {
            anchor: 42,
            column: true
        }
    );
}

#[test]
fn tab_id_mismatch_invalidates_stream() {
    let step = resolve_begin_end_step(
        SelectMarkMode::Stream {
            anchor: 100,
            tab_id: OTHER_TAB,
        },
        false,
        TAB,
        DOC_LEN,
    );
    assert_eq!(step, SelectStep::Invalidated);
}

#[test]
fn tab_id_mismatch_invalidates_column() {
    let step = resolve_begin_end_step(
        SelectMarkMode::Column {
            anchor: 100,
            tab_id: OTHER_TAB,
        },
        true,
        TAB,
        DOC_LEN,
    );
    assert_eq!(step, SelectStep::Invalidated);
}

#[test]
fn anchor_past_doc_length_invalidates() {
    let step = resolve_begin_end_step(
        SelectMarkMode::Stream {
            anchor: 1000,
            tab_id: TAB,
        },
        false,
        TAB,
        500,
    );
    assert_eq!(step, SelectStep::Invalidated);
}

#[test]
fn negative_anchor_invalidates() {
    let step = resolve_begin_end_step(
        SelectMarkMode::Stream {
            anchor: -1,
            tab_id: TAB,
        },
        false,
        TAB,
        DOC_LEN,
    );
    assert_eq!(step, SelectStep::Invalidated);
}

#[test]
fn anchor_at_exactly_doc_length_is_valid() {
    let step = resolve_begin_end_step(
        SelectMarkMode::Stream {
            anchor: DOC_LEN,
            tab_id: TAB,
        },
        false,
        TAB,
        DOC_LEN,
    );
    assert_eq!(
        step,
        SelectStep::End {
            anchor: DOC_LEN,
            column: false
        }
    );
}

#[test]
fn stream_armed_plus_column_press_is_ignored() {
    let step = resolve_begin_end_step(
        SelectMarkMode::Stream {
            anchor: 100,
            tab_id: TAB,
        },
        true,
        TAB,
        DOC_LEN,
    );
    assert_eq!(step, SelectStep::Ignored);
}

#[test]
fn column_armed_plus_stream_press_is_ignored() {
    let step = resolve_begin_end_step(
        SelectMarkMode::Column {
            anchor: 100,
            tab_id: TAB,
        },
        false,
        TAB,
        DOC_LEN,
    );
    assert_eq!(step, SelectStep::Ignored);
}

#[test]
fn column_anchor_past_doc_length_invalidates() {
    let step = resolve_begin_end_step(
        SelectMarkMode::Column {
            anchor: 1000,
            tab_id: TAB,
        },
        true,
        TAB,
        500,
    );
    assert_eq!(step, SelectStep::Invalidated);
}

#[test]
fn column_negative_anchor_invalidates() {
    let step = resolve_begin_end_step(
        SelectMarkMode::Column {
            anchor: -1,
            tab_id: TAB,
        },
        true,
        TAB,
        DOC_LEN,
    );
    assert_eq!(step, SelectStep::Invalidated);
}

#[test]
fn column_anchor_at_exactly_doc_length_is_valid() {
    let step = resolve_begin_end_step(
        SelectMarkMode::Column {
            anchor: DOC_LEN,
            tab_id: TAB,
        },
        true,
        TAB,
        DOC_LEN,
    );
    assert_eq!(
        step,
        SelectStep::End {
            anchor: DOC_LEN,
            column: true
        }
    );
}

#[test]
fn two_presses_select_from_the_first_caret_to_the_second() {
    let mut mark = SelectMarkMode::Off;
    assert_eq!(on_begin_end_select(&mut mark, false, true, Some(TAB), DOC_LEN, 30), None);
    assert_eq!(mark, SelectMarkMode::Column { anchor: 30, tab_id: TAB });
    assert_eq!(
        on_begin_end_select(&mut mark, false, true, Some(TAB), DOC_LEN, 90),
        Some(MarkedSelection { anchor: 30, caret: 90, column: true })
    );
    assert_eq!(mark, SelectMarkMode::Off);
}

#[test]
fn setting_the_items_is_no_press() {
    let mut mark = SelectMarkMode::Stream { anchor: 7, tab_id: TAB };
    assert_eq!(on_begin_end_select(&mut mark, true, false, Some(TAB), DOC_LEN, 90), None);
    assert_eq!(mark, SelectMarkMode::Stream { anchor: 7, tab_id: TAB });
}

#[test]
fn without_a_tab_the_mark_is_of_none() {
    let mut mark = SelectMarkMode::Off;
    assert_eq!(on_begin_end_select(&mut mark, false, false, None, 0, 0), None);
    assert_eq!(mark, SelectMarkMode::Stream { anchor: 0, tab_id: -1 });
    // The tab that is active now is another one: the mark is dropped.
    assert_eq!(on_begin_end_select(&mut mark, false, false, Some(TAB), DOC_LEN, 3), None);
    assert_eq!(mark, SelectMarkMode::Off);
}

#[test]
fn a_press_of_the_other_kind_leaves_the_mark() {
    let mut mark = SelectMarkMode::Stream { anchor: 7, tab_id: TAB };
    assert_eq!(on_begin_end_select(&mut mark, false, true, Some(TAB), DOC_LEN, 9), None);
    assert_eq!(mark, SelectMarkMode::Stream { anchor: 7, tab_id: TAB });
}

#[test]
fn the_other_item_is_greyed_while_a_selection_is_begun() {
    let off = refresh_edit_menu(SelectMarkMode::Off);
    assert!(!off.stream_checked && !off.column_checked);
    assert!(off.stream_enabled && off.column_enabled);
    let stream = refresh_edit_menu(SelectMarkMode::Stream { anchor: 1, tab_id: TAB });
    assert!(stream.stream_checked && !stream.column_checked);
    assert!(stream.stream_enabled && !stream.column_enabled);
    let column = refresh_edit_menu(SelectMarkMode::Column { anchor: 1, tab_id: TAB });
    assert!(!column.stream_checked && column.column_checked);
    assert!(!column.stream_enabled && column.column_enabled);
}
