//! Begin/End Select: a selection made by two presses, one at either end.
//!
//! The first press notes the caret, the second selects from there to the
//! caret. A mark that does not fit its document any more is dropped.
use vstd::prelude::*;

verus! {

/// Whether a selection has been begun, and where.
#[derive(Copy, Clone, PartialEq, Eq, Structural, Debug)]
pub enum SelectMarkMode {
    /// No selection has been begun.
    Off,
    /// A selection over running text, begun at `anchor` in the tab `tab_id`.
    Stream { anchor: isize, tab_id: i32 },
    /// A selection of a rectangle, begun at `anchor` in the tab `tab_id`.
    Column { anchor: isize, tab_id: i32 },
}

/// What a press means.
#[derive(Copy, Clone, PartialEq, Eq, Structural, Debug)]
pub enum SelectStep {
    /// A selection begins at the caret.
    Begin { column: bool },
    /// A selection ends: it goes from `anchor` to the caret.
    End { anchor: isize, column: bool },
    /// The mark does not fit the document any more.
    Invalidated,
    /// The other kind of selection has been begun.
    Ignored,
}

/// The anchor is a position in the active document, which is the one the mark
/// was made in.
pub open spec fn mark_fits(anchor: isize, tab_id: i32, active: i32, length: isize) -> bool {
    tab_id == active && 0 <= anchor <= length
}

/// What a press means; see [`SelectStep`].
pub open spec fn step_of(
    current: SelectMarkMode,
    press_column: bool,
    active: i32,
    length: isize,
) -> SelectStep {
    match current {
        SelectMarkMode::Off => SelectStep::Begin { column: press_column },
        SelectMarkMode::Stream { anchor, tab_id } => if press_column {
            SelectStep::Ignored
        } else if mark_fits(anchor, tab_id, active, length) {
            SelectStep::End { anchor, column: false }
        } else {
            SelectStep::Invalidated
        },
        SelectMarkMode::Column { anchor, tab_id } => if !press_column {
            SelectStep::Ignored
        } else if mark_fits(anchor, tab_id, active, length) {
            SelectStep::End { anchor, column: true }
        } else {
            SelectStep::Invalidated
        },
    }
}

/// Decide what a press of the stream or the column variant means.
#[must_use]
pub fn resolve_begin_end_step(
    current: SelectMarkMode,
    press_column: bool,
    active_tab_id: i32,
    active_doc_length: isize,
) -> (step: SelectStep)
    ensures
        step == step_of(current, press_column, active_tab_id, active_doc_length),
{
    match current {
        SelectMarkMode::Off => SelectStep::Begin { column: press_column },
        SelectMarkMode::Stream { anchor, tab_id } => {
            if press_column {
                SelectStep::Ignored
            } else if tab_id == active_tab_id && anchor >= 0 && anchor <= active_doc_length {
                SelectStep::End { anchor, column: false }
            } else {
                SelectStep::Invalidated
            }
        },
        SelectMarkMode::Column { anchor, tab_id } => {
            if !press_column {
                SelectStep::Ignored
            } else if tab_id == active_tab_id && anchor >= 0 && anchor <= active_doc_length {
                SelectStep::End { anchor, column: true }
            } else {
                SelectStep::Invalidated
            }
        },
    }
}

/// A selection to make: from `anchor` to `caret`, and then its shape. Setting
/// the ends makes any selection one over running text, so the shape comes
/// last.
#[derive(Copy, Clone, PartialEq, Eq, Structural, Debug)]
pub struct MarkedSelection {
    pub anchor: usize,
    pub caret: isize,
    pub column: bool,
}

/// The mark after a press.
pub open spec fn mark_after(
    current: SelectMarkMode,
    step: SelectStep,
    active: i32,
    caret: isize,
) -> SelectMarkMode {
    match step {
        SelectStep::Begin { column } => if column {
            SelectMarkMode::Column { anchor: caret, tab_id: active }
        } else {
            SelectMarkMode::Stream { anchor: caret, tab_id: active }
        },
        SelectStep::End { anchor, column } => SelectMarkMode::Off,
        SelectStep::Invalidated => SelectMarkMode::Off,
        SelectStep::Ignored => current,
    }
}

/// The selection that a press makes.
pub open spec fn selection_after(step: SelectStep, caret: isize) -> Option<MarkedSelection> {
    match step {
        SelectStep::End { anchor, column } => Some(
            MarkedSelection { anchor: anchor as usize, caret, column },
        ),
        _ => None,
    }
}

/// The tab a press is about; without an active tab there is none.
pub open spec fn tab_or_none(active: Option<i32>) -> i32 {
    match active {
        Some(id) => id,
        None => -1i32,
    }
}

/// Handle a press. While the menu items are being set (`refreshing`) it is no
/// press at all, but the echo of setting them. Returns the selection to make,
/// if any.
pub fn on_begin_end_select(
    mark: &mut SelectMarkMode,
    refreshing: bool,
    column: bool,
    active_tab: Option<i32>,
    doc_length: isize,
    caret: isize,
) -> (r: Option<MarkedSelection>)
    ensures
        refreshing ==> r is None && *final(mark) == *old(mark),
        !refreshing ==> {
            let active = tab_or_none(active_tab);
            let step = step_of(*old(mark), column, active, doc_length);
            &&& *final(mark) == mark_after(*old(mark), step, active, caret)
            &&& r == selection_after(step, caret)
        },
{
    if refreshing {
        return None;
    }
    let active: i32 = match active_tab {
        Some(id) => id,
        None => -1,
    };
    match resolve_begin_end_step(*mark, column, active, doc_length) {
        SelectStep::Begin { column } => {
            *mark = if column {
                SelectMarkMode::Column { anchor: caret, tab_id: active }
            } else {
                SelectMarkMode::Stream { anchor: caret, tab_id: active }
            };
            None
        },
        SelectStep::End { anchor, column } => {
            *mark = SelectMarkMode::Off;
            Some(MarkedSelection { anchor: anchor as usize, caret, column })
        },
        SelectStep::Invalidated => {
            *mark = SelectMarkMode::Off;
            None
        },
        SelectStep::Ignored => None,
    }
}

/// How the two menu items look.
#[derive(Copy, Clone, PartialEq, Eq, Structural, Debug)]
pub struct EditMenuMarks {
    pub stream_checked: bool,
    pub column_checked: bool,
    pub stream_enabled: bool,
    pub column_enabled: bool,
}

/// How the two menu items look: the one that a selection was begun with is
/// checked, and the other can not be used until it has ended.
pub open spec fn marks_of(mode: SelectMarkMode) -> EditMenuMarks {
    EditMenuMarks {
        stream_checked: mode is Stream,
        column_checked: mode is Column,
        stream_enabled: !(mode is Column),
        column_enabled: !(mode is Stream),
    }
}

/// Work out how the two menu items look.
pub fn refresh_edit_menu(mode: SelectMarkMode) -> (r: EditMenuMarks)
    ensures
        r == marks_of(mode),
{
    match mode {
        SelectMarkMode::Off => EditMenuMarks {
            stream_checked: false,
            column_checked: false,
            stream_enabled: true,
            column_enabled: true,
        },
        SelectMarkMode::Stream { .. } => EditMenuMarks {
            stream_checked: true,
            column_checked: false,
            stream_enabled: true,
            column_enabled: false,
        },
        SelectMarkMode::Column { .. } => EditMenuMarks {
            stream_checked: false,
            column_checked: true,
            stream_enabled: false,
            column_enabled: true,
        },
    }
}

/// Two presses of one kind in one document select from the first caret to the
/// second, provided the document still reaches that far, and leave no mark.
pub proof fn two_presses_select(
    column: bool,
    tab: i32,
    length: isize,
    first: isize,
    later_length: isize,
    second: isize,
)
    requires
        0 <= first <= later_length,
    ensures
        ({
            let begun = mark_after(
                SelectMarkMode::Off,
                step_of(SelectMarkMode::Off, column, tab, length),
                tab,
                first,
            );
            let step = step_of(begun, column, tab, later_length);
            &&& selection_after(step, second) == Some(
                MarkedSelection { anchor: first as usize, caret: second, column },
            )
            &&& mark_after(begun, step, tab, second) == SelectMarkMode::Off
        }),
{
}

/// No selection is made from a mark of another tab, or from one that lies
/// beyond the end of the document.
pub proof fn stale_marks_select_nothing(
    mark: SelectMarkMode,
    column: bool,
    active: i32,
    length: isize,
    caret: isize,
)
    ensures
        selection_after(step_of(mark, column, active, length), caret) matches Some(s) ==> {
            &&& s.anchor <= length
            &&& mark == (if column {
                SelectMarkMode::Column { anchor: s.anchor as isize, tab_id: active }
            } else {
                SelectMarkMode::Stream { anchor: s.anchor as isize, tab_id: active }
            })
        },
{
}

/// The item of the other kind is greyed exactly when a press of it would be
/// ignored, and the checked item is the one whose press ends the selection.
pub proof fn greyed_is_ignored(mark: SelectMarkMode, active: i32, length: isize)
    ensures
        marks_of(mark).stream_enabled <==> !(step_of(mark, false, active, length) is Ignored),
        marks_of(mark).column_enabled <==> !(step_of(mark, true, active, length) is Ignored),
        !(marks_of(mark).stream_checked && marks_of(mark).column_checked),
        marks_of(mark).stream_checked ==> marks_of(mark).stream_enabled
            && !marks_of(mark).column_enabled,
        marks_of(mark).column_checked ==> marks_of(mark).column_enabled
            && !marks_of(mark).stream_enabled,
{
}

/// The second press ends the selection exactly if it is of the kind that began
/// it, in the same tab, and the document still reaches as far as the mark; a
/// press of the other kind is ignored, and a mark that does not fit is dropped.
pub proof fn a_press_means_what_the_mark_says(
    anchor: isize,
    tab_id: i32,
    column: bool,
    active: i32,
    length: isize,
)
    ensures
        ({
            let fits = tab_id == active && 0 <= anchor && anchor <= length;
            let stream = step_of(SelectMarkMode::Stream { anchor, tab_id }, column, active, length);
            let block = step_of(SelectMarkMode::Column { anchor, tab_id }, column, active, length);
            &&& column ==> stream == SelectStep::Ignored
            &&& !column && fits ==> stream == (SelectStep::End { anchor, column: false })
            &&& !column && !fits ==> stream == SelectStep::Invalidated
            &&& !column ==> block == SelectStep::Ignored
            &&& column && fits ==> block == (SelectStep::End { anchor, column: true })
            &&& column && !fits ==> block == SelectStep::Invalidated
            &&& step_of(SelectMarkMode::Off, column, active, length) == (SelectStep::Begin {
                column,
            })
        }),
{
}

/// A press leaves the mark that it is to leave: at the caret of the active tab
/// when a selection begins, none when it ends or does not fit, and the one there
/// is when it is ignored. Only an end selects.
pub proof fn a_press_leaves_its_mark(
    current: SelectMarkMode,
    anchor: isize,
    active: i32,
    caret: isize,
    column: bool,
)
    ensures
        mark_after(current, SelectStep::Begin { column: true }, active, caret)
            == (SelectMarkMode::Column { anchor: caret, tab_id: active }),
        mark_after(current, SelectStep::Begin { column: false }, active, caret)
            == (SelectMarkMode::Stream { anchor: caret, tab_id: active }),
        mark_after(current, SelectStep::End { anchor, column }, active, caret)
            == SelectMarkMode::Off,
        mark_after(current, SelectStep::Invalidated, active, caret) == SelectMarkMode::Off,
        mark_after(current, SelectStep::Ignored, active, caret) == current,
        anchor >= 0 ==> (selection_after(
            SelectStep::End { anchor, column },
            caret,
        ) matches Some(s) && s.anchor == anchor && s.caret == caret && s.column == column),
        selection_after(SelectStep::Begin { column }, caret) is None,
        selection_after(SelectStep::Invalidated, caret) is None,
        selection_after(SelectStep::Ignored, caret) is None,
{
}

/// The item that a selection was begun with is checked, and the other one is
/// greyed until it has ended.
pub proof fn the_items_show_the_mark(anchor: isize, tab_id: i32)
    ensures
        marks_of(SelectMarkMode::Off) == (EditMenuMarks {
            stream_checked: false,
            column_checked: false,
            stream_enabled: true,
            column_enabled: true,
        }),
        marks_of(SelectMarkMode::Stream { anchor, tab_id }) == (EditMenuMarks {
            stream_checked: true,
            column_checked: false,
            stream_enabled: true,
            column_enabled: false,
        }),
        marks_of(SelectMarkMode::Column { anchor, tab_id }) == (EditMenuMarks {
            stream_checked: false,
            column_checked: true,
            stream_enabled: false,
            column_enabled: true,
        }),
{
}

/// Setting the items is no press: nothing is selected and the mark stays.
pub proof fn an_echo_is_no_press(
    column: bool,
    tab: Option<i32>,
    length: isize,
    caret: isize,
    r: Option<MarkedSelection>,
)
    ensures
        forall|mark: &mut SelectMarkMode| #[trigger]
            call_ensures(on_begin_end_select, (mark, true, column, tab, length, caret), r) ==> r is None
                && *final(mark) == *mark,
        tab is None ==> tab_or_none(tab) == -1,
        tab is Some ==> tab_or_none(tab) == tab->0,
{
}

} // verus!
