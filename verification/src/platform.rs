//! The window's side of the editor: binding documents to the one view,
//! keeping the user's place in them, and what the bars show.
use vstd::prelude::*;
use crate::editor_search::{position_of, to_position};
use crate::status::{
    cursor_text, indented, length_text, overtype_text, StatusBar, PART_CURSOR, PART_EOL,
    PART_COUNT, PART_ENCODING, PART_INSOVR, PART_LANG, PART_LENGTH,
};

verus! {

/// Width of a tab stop, in spaces.
pub const TAB_WIDTH_SPACES: usize = 4;

/// The margins of the editor.
pub const LINE_NUMBER_MARGIN: u32 = 0;

pub const CHANGE_HISTORY_MARGIN: u32 = 4;

pub const CHANGE_HISTORY_MARGIN_PX: i32 = 4;

/// The colour of the change-history strip, blue in the high byte.
pub const CHANGE_HISTORY_COLOR: u32 = 0x0026A7FF;

/// `(r, g, b)` in the editor's colour encoding: red in the low byte, then
/// green, then blue.
pub fn rgb_to_scintilla_colour(rgb: (u8, u8, u8)) -> (c: u32)
    ensures
        c == rgb.0 + 256 * rgb.1 + 65536 * rgb.2,
{
    let (r, g, b) = rgb;
    let (r32, g32, b32): (u32, u32, u32) = (r as u32, g as u32, b as u32);
    assert((b32 << 16u32 | g32 << 8u32 | r32) == r32 + 256 * g32 + 65536 * b32) by (bit_vector)
        requires
            r32 < 256,
            g32 < 256,
            b32 < 256,
    ;
    b32 << 16u32 | g32 << 8u32 | r32
}

/// No two colours have the same encoding.
pub proof fn colours_stay_apart(a: (u8, u8, u8), b: (u8, u8, u8))
    requires
        a.0 + 256 * a.1 + 65536 * a.2 == b.0 + 256 * b.1 + 65536 * b.2,
    ensures
        a == b,
{
}

/// The user's place in a document: caret, anchor, first visible line and
/// horizontal offset.
#[derive(Clone, Copy, PartialEq, Eq, Structural, Debug)]
pub struct ViewState {
    pub caret: isize,
    pub anchor: isize,
    pub top_line: isize,
    pub x_offset: isize,
}

/// What puts a place back: a selection, a scroll if one is needed, and an
/// offset.
#[derive(Clone, Copy, PartialEq, Eq, Structural, Debug)]
pub struct ViewRestore {
    pub anchor: usize,
    pub caret: isize,
    pub scroll: Option<isize>,
    pub x_offset: usize,
}

/// The number, or zero if it is below.
pub open spec fn at_least_zero(n: int) -> int {
    if n < 0 {
        0
    } else {
        n
    }
}

/// Whether a number can be held in an `isize`.
pub open spec fn fits_isize(n: int) -> bool {
    isize::MIN <= n <= isize::MAX
}

fn clamp_usize(n: isize) -> (r: usize)
    ensures
        r == at_least_zero(n as int),
{
    if n < 0 {
        0
    } else {
        n as usize
    }
}

/// How to put the place `snap` back in a view whose first visible line is
/// `current_top`.
pub open spec fn restoring(snap: ViewState, current_top: isize) -> ViewRestore {
    ViewRestore {
        anchor: at_least_zero(snap.anchor as int) as usize,
        caret: snap.caret,
        scroll: if snap.top_line == current_top {
            None
        } else {
            Some((snap.top_line - current_top) as isize)
        },
        x_offset: at_least_zero(snap.x_offset as int) as usize,
    }
}

/// How to put the place `snap` back in a view whose first visible line is
/// `current_top`.
pub fn restore_view(snap: ViewState, current_top: isize) -> (r: ViewRestore)
    requires
        fits_isize(snap.top_line - current_top),
    ensures
        r == restoring(snap, current_top),
{
    let delta: isize = snap.top_line - current_top;
    ViewRestore {
        anchor: clamp_usize(snap.anchor),
        caret: snap.caret,
        scroll: if delta != 0 {
            Some(delta)
        } else {
            None
        },
        x_offset: clamp_usize(snap.x_offset),
    }
}

/// How a document is reached that may not be the one in the view.
#[derive(Clone, Copy, PartialEq, Eq, Structural, Debug)]
pub enum DocAccess {
    /// There is no document.
    Absent,
    /// It is in the view.
    Bound,
    /// It has to be put in the view for a while; afterwards this document
    /// comes back, with the user's place in it, if there was one.
    Swap(Option<isize>),
}

/// How to reach `doc` while `bound` is in the view.
pub open spec fn doc_access_spec(doc: isize, bound: isize) -> DocAccess {
    if doc == 0 {
        DocAccess::Absent
    } else if doc == bound {
        DocAccess::Bound
    } else if bound == 0 {
        DocAccess::Swap(None)
    } else {
        DocAccess::Swap(Some(bound))
    }
}

/// How to reach `doc` while `bound` is in the view.
pub fn doc_access(doc: isize, bound: isize) -> (r: DocAccess)
    ensures
        r == doc_access_spec(doc, bound),
{
    if doc == 0 {
        DocAccess::Absent
    } else if bound == doc {
        DocAccess::Bound
    } else if bound != 0 {
        DocAccess::Swap(Some(bound))
    } else {
        DocAccess::Swap(None)
    }
}

/// What the editor shows: a document, and the user's place in it.
#[derive(Clone, Copy, PartialEq, Eq, Structural, Debug)]
pub struct EditorView {
    pub bound: isize,
    pub place: ViewState,
}

/// How far a visit to a document has got.
#[derive(Clone, Copy, PartialEq, Eq, Structural, Debug)]
pub enum VisitPhase {
    Fresh,
    /// The document is in the view and has not been looked at.
    Arrived,
    /// It has been looked at.
    Looked,
    /// The document from before is in the view again.
    Back,
    /// Its selection is there again.
    Selected,
    /// Its first visible line too.
    Scrolled,
    /// Nothing is left to put back.
    Settled,
    Over,
}

/// What a visit asks of the editor.
#[derive(Clone, Copy, PartialEq, Eq, Structural, Debug)]
pub enum VisitAction {
    /// Put a document into the view.
    Bind(isize),
    /// Do with the document in the view what the visit is for.
    Look,
    /// Select from an anchor to a caret.
    Select { anchor: usize, caret: isize },
    /// Scroll by so many lines.
    Scroll(isize),
    /// Scroll sideways to an offset.
    SetOffset(usize),
    Finish,
}

/// A visit to a document that may not be the one in the view. If another one
/// is, it comes back afterwards, with the user's place in it.
#[derive(Clone, Copy, PartialEq, Eq, Structural, Debug)]
pub struct DocVisit {
    pub phase: VisitPhase,
    pub doc: isize,
    /// The document that comes back, if one does.
    pub prior: Option<isize>,
    /// The user's place in it.
    pub place: ViewState,
}

/// A visit to `doc` at its start.
pub open spec fn fresh_visit(doc: isize) -> DocVisit {
    DocVisit {
        phase: VisitPhase::Fresh,
        doc,
        prior: None,
        place: ViewState { caret: 0, anchor: 0, top_line: 0, x_offset: 0 },
    }
}

/// A visit with another phase.
pub open spec fn visit_at(v: DocVisit, phase: VisitPhase) -> DocVisit {
    DocVisit { phase, ..v }
}

/// What a visit does next while the editor shows `view`, and where it then
/// stands.
pub open spec fn visit_next(v: DocVisit, view: EditorView) -> (DocVisit, VisitAction) {
    match v.phase {
        VisitPhase::Fresh => match doc_access_spec(v.doc, view.bound) {
            DocAccess::Absent => (visit_at(v, VisitPhase::Over), VisitAction::Finish),
            DocAccess::Bound => (visit_at(v, VisitPhase::Settled), VisitAction::Look),
            DocAccess::Swap(prior) => (
                DocVisit { phase: VisitPhase::Arrived, prior, place: view.place, ..v },
                VisitAction::Bind(v.doc),
            ),
        },
        VisitPhase::Arrived => (visit_at(v, VisitPhase::Looked), VisitAction::Look),
        VisitPhase::Looked => match v.prior {
            Some(prior) => (visit_at(v, VisitPhase::Back), VisitAction::Bind(prior)),
            None => (visit_at(v, VisitPhase::Over), VisitAction::Finish),
        },
        VisitPhase::Back => {
            let r = restoring(v.place, v.place.top_line);
            (
                visit_at(v, VisitPhase::Selected),
                VisitAction::Select { anchor: r.anchor, caret: r.caret },
            )
        },
        VisitPhase::Selected => {
            let r = restoring(v.place, view.place.top_line);
            match r.scroll {
                Some(lines) => (visit_at(v, VisitPhase::Scrolled), VisitAction::Scroll(lines)),
                None => (visit_at(v, VisitPhase::Settled), VisitAction::SetOffset(r.x_offset)),
            }
        },
        VisitPhase::Scrolled => (
            visit_at(v, VisitPhase::Settled),
            VisitAction::SetOffset(restoring(v.place, v.place.top_line).x_offset),
        ),
        VisitPhase::Settled | VisitPhase::Over => (
            visit_at(v, VisitPhase::Over),
            VisitAction::Finish,
        ),
    }
}

/// The distance that a visit scrolls by can be held.
pub open spec fn scroll_fits(v: DocVisit, view: EditorView) -> bool {
    v.phase is Selected ==> fits_isize(v.place.top_line - view.place.top_line)
}

impl DocVisit {
    /// A visit to `doc`.
    pub fn new(doc: isize) -> (v: DocVisit)
        ensures
            v == fresh_visit(doc),
    {
        DocVisit {
            phase: VisitPhase::Fresh,
            doc,
            prior: None,
            place: ViewState { caret: 0, anchor: 0, top_line: 0, x_offset: 0 },
        }
    }

    /// Go on: what to do next, while the editor shows `view`.
    pub fn step(&mut self, view: EditorView) -> (action: VisitAction)
        requires
            scroll_fits(*old(self), view),
        ensures
            (*final(self), action) == visit_next(*old(self), view),
    {
        match self.phase {
            VisitPhase::Fresh => match doc_access(self.doc, view.bound) {
                DocAccess::Absent => {
                    self.phase = VisitPhase::Over;
                    VisitAction::Finish
                },
                DocAccess::Bound => {
                    self.phase = VisitPhase::Settled;
                    VisitAction::Look
                },
                DocAccess::Swap(prior) => {
                    self.phase = VisitPhase::Arrived;
                    self.prior = prior;
                    self.place = view.place;
                    VisitAction::Bind(self.doc)
                },
            },
            VisitPhase::Arrived => {
                self.phase = VisitPhase::Looked;
                VisitAction::Look
            },
            VisitPhase::Looked => match self.prior {
                Some(prior) => {
                    self.phase = VisitPhase::Back;
                    VisitAction::Bind(prior)
                },
                None => {
                    self.phase = VisitPhase::Over;
                    VisitAction::Finish
                },
            },
            VisitPhase::Back => {
                let r: ViewRestore = restore_view(self.place, self.place.top_line);
                self.phase = VisitPhase::Selected;
                VisitAction::Select { anchor: r.anchor, caret: r.caret }
            },
            VisitPhase::Selected => {
                let r: ViewRestore = restore_view(self.place, view.place.top_line);
                match r.scroll {
                    Some(lines) => {
                        self.phase = VisitPhase::Scrolled;
                        VisitAction::Scroll(lines)
                    },
                    None => {
                        self.phase = VisitPhase::Settled;
                        VisitAction::SetOffset(r.x_offset)
                    },
                }
            },
            VisitPhase::Scrolled => {
                let r: ViewRestore = restore_view(self.place, self.place.top_line);
                self.phase = VisitPhase::Settled;
                VisitAction::SetOffset(r.x_offset)
            },
            VisitPhase::Settled | VisitPhase::Over => {
                self.phase = VisitPhase::Over;
                VisitAction::Finish
            },
        }
    }
}

/// Where a visit to `doc` stands after a row of steps, with what the editor
/// showed at each.
pub open spec fn visit_after(doc: isize, views: Seq<EditorView>) -> DocVisit
    decreases views.len(),
{
    if views.len() == 0 {
        fresh_visit(doc)
    } else {
        visit_next(visit_after(doc, views.drop_last()), views.last()).0
    }
}

/// What a visit to `doc` did at a step.
pub open spec fn visit_action(doc: isize, views: Seq<EditorView>, i: int) -> VisitAction {
    visit_next(visit_after(doc, views.take(i)), views[i]).1
}

/// How often a visit to `doc` looked in a row of steps.
pub open spec fn looks_in(doc: isize, views: Seq<EditorView>) -> nat
    decreases views.len(),
{
    if views.len() == 0 {
        0
    } else {
        looks_in(doc, views.drop_last()) + if visit_action(doc, views, views.len() - 1) is Look {
            1nat
        } else {
            0nat
        }
    }
}

/// What the editor may show after an action: where the user is in a document
/// that was just put into the view is open, a selection may scroll, and a look
/// changes nothing.
pub open spec fn shows_next(action: VisitAction, before: EditorView, after: EditorView) -> bool {
    match action {
        VisitAction::Bind(doc) => after.bound == doc,
        VisitAction::Look | VisitAction::Finish => after == before,
        VisitAction::Select { anchor, caret } => {
            &&& after.bound == before.bound
            &&& after.place.anchor == anchor
            &&& after.place.caret == caret
        },
        VisitAction::Scroll(lines) => {
            &&& after.bound == before.bound
            &&& after.place.top_line == before.place.top_line + lines
            &&& after.place.caret == before.place.caret
            &&& after.place.anchor == before.place.anchor
        },
        VisitAction::SetOffset(offset) => {
            &&& after.bound == before.bound
            &&& after.place.x_offset == offset
            &&& after.place.top_line == before.place.top_line
            &&& after.place.caret == before.place.caret
            &&& after.place.anchor == before.place.anchor
        },
    }
}

/// A row of views that the editor shows in the course of a visit to `doc`.
pub open spec fn shown_in_visit(doc: isize, views: Seq<EditorView>) -> bool {
    &&& forall|i: int|
        0 <= i < views.len() - 1 ==> shows_next(
            #[trigger] visit_action(doc, views, i),
            views[i],
            views[i + 1],
        )
    &&& forall|i: int|
        0 <= i < views.len() ==> scroll_fits(
            visit_after(doc, #[trigger] views.take(i)),
            views[i],
        )
}

/// The caret, the anchor and the first visible line are those of `first`, and
/// so is the document.
spec fn nearly_back(view: EditorView, first: EditorView) -> bool {
    &&& view.bound == first.bound
    &&& view.place.caret == first.place.caret
    &&& view.place.anchor == first.place.anchor
    &&& view.place.top_line == first.place.top_line
}

proof fn shown_up_to_the_last(doc: isize, views: Seq<EditorView>)
    requires
        views.len() > 0,
        shown_in_visit(doc, views),
    ensures
        shown_in_visit(doc, views.drop_last()),
{
    let before = views.drop_last();
    assert forall|i: int| 0 <= i < before.len() - 1 implies shows_next(
        #[trigger] visit_action(doc, before, i),
        before[i],
        before[i + 1],
    ) by {
        assert(before.take(i) =~= views.take(i));
        assert(visit_action(doc, views, i) == visit_action(doc, before, i));
    }
    assert forall|i: int| 0 <= i < before.len() implies scroll_fits(
        visit_after(doc, #[trigger] before.take(i)),
        before[i],
    ) by {
        assert(before.take(i) =~= views.take(i));
        assert(scroll_fits(visit_after(doc, views.take(i)), views[i]));
    }
}

/// The place that is put back: no anchor and no offset lies before the start.
pub open spec fn put_back(place: ViewState) -> ViewState {
    ViewState {
        anchor: at_least_zero(place.anchor as int) as isize,
        x_offset: at_least_zero(place.x_offset as int) as isize,
        ..place
    }
}

/// What the editor shows after a visit to `doc`: what it did at first, and the
/// place put back if another document was looked at.
pub open spec fn shown_after(doc: isize, first: EditorView) -> EditorView {
    if doc == 0 || doc == first.bound {
        first
    } else {
        EditorView { place: put_back(first.place), ..first }
    }
}

proof fn visits_go_out_and_back(doc: isize, views: Seq<EditorView>)
    requires
        views.len() > 0,
        shown_in_visit(doc, views),
        views[0].bound != 0,
    ensures
        ({
            let first = views[0];
            let back = shown_after(doc, first);
            let view = views.last();
            let n = views.len();
            let v = visit_after(doc, views);
            let action = visit_action(doc, views, n - 1);
            let there = v.prior == Some(first.bound) && v.place == first.place && doc != first.bound;
            &&& action is Look ==> doc != 0 && view.bound == doc
            &&& v.doc == doc
            &&& match v.phase {
                VisitPhase::Fresh => false,
                VisitPhase::Arrived => there && n == 1 && doc != 0 && action == VisitAction::Bind(
                    doc,
                ) && looks_in(doc, views) == 0,
                VisitPhase::Looked => there && n == 2 && doc != 0 && action is Look && looks_in(
                    doc,
                    views,
                ) == 1,
                VisitPhase::Back => there && n == 3 && doc != 0 && action == VisitAction::Bind(
                    first.bound,
                ) && looks_in(doc, views) == 1,
                VisitPhase::Selected => there && n == 4 && doc != 0 && view.bound == first.bound
                    && action == (VisitAction::Select {
                    anchor: back.place.anchor as usize,
                    caret: back.place.caret,
                }) && looks_in(doc, views) == 1,
                VisitPhase::Scrolled => there && n == 5 && doc != 0 && nearly_back(
                    EditorView {
                        place: ViewState { top_line: back.place.top_line, ..view.place },
                        ..view
                    },
                    back,
                ) && (action matches VisitAction::Scroll(lines) && view.place.top_line + lines
                    == first.place.top_line) && looks_in(doc, views) == 1,
                VisitPhase::Settled => n <= 6 && doc != 0 && looks_in(doc, views) == 1 && (
                (action is Look && view == back) || (action == VisitAction::SetOffset(
                    back.place.x_offset as usize,
                ) && doc != first.bound && nearly_back(view, back))),
                VisitPhase::Over => action is Finish && view == back && looks_in(doc, views)
                    == if doc == 0 {
                    0nat
                } else {
                    1nat
                },
            }
        }),
    decreases views.len(),
{
    let n = views.len();
    let before = views.drop_last();
    assert(views.take(n - 1) =~= before);
    assert(scroll_fits(visit_after(doc, views.take(n - 1)), views[n - 1]));
    if n == 1 {
        assert(visit_after(doc, before) == fresh_visit(doc));
        assert(looks_in(doc, before) == 0);
    } else {
        shown_up_to_the_last(doc, views);
        visits_go_out_and_back(doc, before);
        assert(before.take(n - 2) =~= views.take(n - 2));
        assert(visit_action(doc, views, n - 2) == visit_action(doc, before, n - 2));
        assert(shows_next(visit_action(doc, views, n - 2), views[n - 2], views[n - 1]));
    }
}

/// A visit looks at the document that was asked for, never at one that happens
/// to be in the view, and it looks once; there is nothing to look at without a
/// document. It is over after seven steps, and then the editor shows what it
/// did at first: the same document, with the caret, the anchor, the first
/// visible line and the offset where they were. An anchor or an offset before
/// the start, which no editor shows, is put back at the start.
pub proof fn the_view_comes_back(doc: isize, views: Seq<EditorView>)
    requires
        views.len() > 0,
        shown_in_visit(doc, views),
        views[0].bound != 0,
    ensures
        visit_action(doc, views, views.len() - 1) is Look ==> doc != 0 && views.last().bound == doc,
        visit_after(doc, views).phase is Over ==> views.last() == shown_after(doc, views[0]),
        visit_after(doc, views).phase is Over && views[0].place.anchor >= 0
            && views[0].place.x_offset >= 0 ==> views.last() == views[0],
        visit_after(doc, views).phase is Over ==> looks_in(doc, views) == if doc == 0 {
            0nat
        } else {
            1nat
        },
        doc == 0 ==> visit_after(doc, views).phase is Over,
        views.len() >= 7 ==> visit_after(doc, views).phase is Over,
{
    visits_go_out_and_back(doc, views);
}

/// What a visit that reads gives back: the text of the document that was
/// looked at, and none if there was nothing to look at.
pub open spec fn text_read(
    doc: isize,
    views: Seq<EditorView>,
    texts: spec_fn(isize) -> Seq<char>,
) -> Seq<char>
    decreases views.len(),
{
    if views.len() == 0 {
        Seq::empty()
    } else if visit_action(doc, views, views.len() - 1) is Look {
        texts(views.last().bound)
    } else {
        text_read(doc, views.drop_last(), texts)
    }
}

proof fn text_read_so_far(doc: isize, views: Seq<EditorView>, texts: spec_fn(isize) -> Seq<char>)
    requires
        shown_in_visit(doc, views),
        views.len() > 0 ==> views[0].bound != 0,
    ensures
        text_read(doc, views, texts) == if looks_in(doc, views) == 0 {
            Seq::empty()
        } else {
            texts(doc)
        },
    decreases views.len(),
{
    if views.len() > 0 {
        shown_up_to_the_last(doc, views);
        text_read_so_far(doc, views.drop_last(), texts);
        visits_go_out_and_back(doc, views);
    }
}

/// Reading a document that may not be in the view gives its text, and an empty
/// text without a document. It is the text that is in the view right after the
/// document's tab was activated; and what is in the view when the reading is
/// over is the text that was in it before.
pub proof fn a_reading_gives_the_text(
    doc: isize,
    views: Seq<EditorView>,
    texts: spec_fn(isize) -> Seq<char>,
)
    requires
        views.len() > 0,
        shown_in_visit(doc, views),
        views[0].bound != 0,
        visit_after(doc, views).phase is Over,
    ensures
        doc == 0 ==> text_read(doc, views, texts) == Seq::<char>::empty(),
        doc != 0 ==> text_read(doc, views, texts) == texts(
            bound_by(activation(doc, false, views[0].bound), doc, views[0].bound),
        ),
        texts(views.last().bound) == texts(views[0].bound),
{
    visits_go_out_and_back(doc, views);
    text_read_so_far(doc, views, texts);
}

/// How a tab's document gets into the view.
#[derive(Clone, Copy, PartialEq, Eq, Structural, Debug)]
pub struct Activation {
    /// The document has to be put into the view; it is not there already.
    pub bind: bool,
    /// The document is new, and gets the settings that each document has of
    /// its own.
    pub configure: bool,
}

/// Whether a tab has no document yet, so that one has to be made.
pub fn needs_document(scintilla_doc: isize) -> (r: bool)
    ensures
        r == (scintilla_doc == 0),
{
    scintilla_doc == 0
}

/// How the document `doc` of a tab, `fresh` if it was just made, gets into the
/// view while `bound` is in it.
pub open spec fn activation(doc: isize, fresh: bool, bound: isize) -> Activation {
    Activation { bind: doc != bound, configure: fresh }
}

/// What to do with the document `doc` of a tab, `fresh` if it was just made,
/// while `bound` is in the view. A document that is in the view is left
/// alone, since binding it again would lose the caret.
pub fn activate_tab(doc: isize, fresh: bool, bound: isize) -> (r: Activation)
    ensures
        r == activation(doc, fresh, bound),
{
    Activation { bind: doc != bound, configure: fresh }
}

/// The document in the view once that was done.
pub open spec fn bound_by(a: Activation, doc: isize, bound: isize) -> isize {
    if a.bind {
        doc
    } else {
        bound
    }
}

/// After a tab was activated its document is in the view: it is reached there
/// without being put in, and activating the tab once more binds nothing.
pub proof fn the_active_document_is_in_the_view(doc: isize, fresh: bool, bound: isize)
    requires
        doc != 0,
    ensures
        bound_by(activation(doc, fresh, bound), doc, bound) == doc,
        doc_access_spec(doc, bound_by(activation(doc, fresh, bound), doc, bound)) == DocAccess::Bound,
        !activation(doc, false, bound_by(activation(doc, fresh, bound), doc, bound)).bind,
{
}

/// The caret's line as a view shows it.
#[derive(Clone, Copy, PartialEq, Eq, Structural, Debug)]
pub struct CaretReading {
    pub line: isize,
    pub first_visible: isize,
    pub lines_on_screen: isize,
}

/// The number of lines to scroll by so that the caret is in the middle.
pub open spec fn centering_scroll(r: CaretReading) -> Option<int> {
    let line = at_least_zero(r.line as int);
    let first = at_least_zero(r.first_visible as int);
    let lines = if r.lines_on_screen < 1 {
        1
    } else {
        r.lines_on_screen as int
    };
    if first <= line < first + lines {
        None
    } else {
        Some(at_least_zero(line - lines / 2) - first)
    }
}

/// How far to scroll to bring the caret into view. `None` if it is in view
/// already, so that the text does not jump.
pub fn center_caret_if_offscreen(r: CaretReading) -> (scroll: Option<isize>)
    ensures
        match scroll {
            Some(n) => centering_scroll(r) == Some(n as int),
            None => centering_scroll(r) is None,
        },
{
    let line: isize = if r.line < 0 {
        0
    } else {
        r.line
    };
    let first: isize = if r.first_visible < 0 {
        0
    } else {
        r.first_visible
    };
    let lines: isize = if r.lines_on_screen < 1 {
        1
    } else {
        r.lines_on_screen
    };
    if line >= first && line - first < lines {
        return None;
    }
    let half: isize = ((lines as usize) / 2) as isize;
    let target: isize = if line < half {
        0
    } else {
        line - half
    };
    Some(target - first)
}

/// After such a scroll the caret's line is on the screen.
pub proof fn the_caret_ends_up_visible(r: CaretReading)
    requires
        centering_scroll(r) is Some,
    ensures
        ({
            let line = at_least_zero(r.line as int);
            let top = at_least_zero(r.first_visible as int) + centering_scroll(r)->Some_0;
            let lines = if r.lines_on_screen < 1 {
                1
            } else {
                r.lines_on_screen as int
            };
            top >= 0 && top <= line < top + lines
        }),
{
}

/// The kinds of line ending that a file can have.
#[derive(Clone, Copy, PartialEq, Eq, Structural, Debug)]
pub enum Eol {
    CrLf,
    Cr,
    Lf,
    Mixed,
}

/// The line ending that typed lines get.
#[derive(Clone, Copy, PartialEq, Eq, Structural, Debug)]
pub enum EolMode {
    CrLf,
    Cr,
    Lf,
}

/// The line ending for lines typed into a file: its own, or a line feed where
/// it has no single one.
pub fn eol_mode(eol: Eol) -> (m: EolMode)
    ensures
        m == match eol {
            Eol::CrLf => EolMode::CrLf,
            Eol::Cr => EolMode::Cr,
            Eol::Lf | Eol::Mixed => EolMode::Lf,
        },
{
    match eol {
        Eol::CrLf => EolMode::CrLf,
        Eol::Cr => EolMode::Cr,
        Eol::Lf | Eol::Mixed => EolMode::Lf,
    }
}

/// The opacity of the window in percent: what the setting says, at most 100,
/// while transparency is on.
pub fn opacity_percent(enabled: bool, percent: u8) -> (p: u8)
    ensures
        p == if !enabled || percent > 100 {
            100
        } else {
            percent
        },
{
    if enabled {
        if percent > 100 {
            100
        } else {
            percent
        }
    } else {
        100
    }
}

/// The editor as the status bar reads it.
#[derive(Clone, Copy, PartialEq, Eq, Structural, Debug)]
pub struct EditorReading {
    pub length: isize,
    pub lines: isize,
    pub pos: isize,
    pub caret_line: isize,
    pub caret_col: isize,
    pub overtype: bool,
}

/// What the window shows around the editor, and whether each bar is hidden.
pub struct GtkUi {
    pub status: StatusBar,
    pub tabbar_hidden: bool,
    pub toolbar_hidden: bool,
    pub menu_hidden: bool,
    pub statusbar_hidden: bool,
}

impl GtkUi {
    /// All bars showing, and an empty status bar.
    pub fn new() -> (ui: GtkUi)
        ensures
            ui.status.wf(),
            ui.status.parts().len() == PART_COUNT,
            forall|i: int| 0 <= i < PART_COUNT ==> (#[trigger] ui.status.parts()[i]).len() == 0,
            !ui.tabbar_hidden,
            !ui.toolbar_hidden,
            !ui.menu_hidden,
            !ui.statusbar_hidden,
    {
        GtkUi {
            status: StatusBar::new(),
            tabbar_hidden: false,
            toolbar_hidden: false,
            menu_hidden: false,
            statusbar_hidden: false,
        }
    }

    /// Nothing but the status bar differs between the two.
    pub open spec fn same_bars(&self, other: GtkUi) -> bool {
        &&& self.tabbar_hidden == other.tabbar_hidden
        &&& self.toolbar_hidden == other.toolbar_hidden
        &&& self.menu_hidden == other.menu_hidden
        &&& self.statusbar_hidden == other.statusbar_hidden
    }

    /// Show the length and the caret as the editor has them.
    pub fn refresh_dynamic_status(&mut self, r: EditorReading)
        requires
            old(self).status.wf(),
        ensures
            final(self).status.wf(),
            final(self).same_bars(*old(self)),
            final(self).status.parts() == old(self).status.parts()
                .update(
                    PART_LENGTH as int,
                    length_text(position_of(r.length) as nat, position_of(r.lines) as nat),
                )
                .update(
                    PART_CURSOR as int,
                    cursor_text(
                        position_of(r.caret_line),
                        position_of(r.caret_col),
                        position_of(r.pos),
                    ),
                )
                .update(PART_INSOVR as int, overtype_text(r.overtype)),
    {
        self.status.set_dynamic_parts(
            to_position(r.length),
            to_position(r.lines),
            to_position(r.caret_line),
            to_position(r.caret_col),
            to_position(r.pos),
            r.overtype,
        );
    }

    /// Show the language, the line ending and the encoding of a buffer, and
    /// then the length and the caret. A language without a name shows as
    /// plain text.
    pub fn update_status(
        &mut self,
        language: Option<&str>,
        eol_label: &str,
        encoding_label: &str,
        r: EditorReading,
    )
        requires
            old(self).status.wf(),
        ensures
            final(self).status.wf(),
            final(self).same_bars(*old(self)),
            final(self).status.parts() == old(self).status.parts()
                .update(
                    PART_LANG as int,
                    indented(
                        match language {
                            Some(name) => name@,
                            None => "Normal Text"@,
                        },
                    ),
                )
                .update(PART_EOL as int, indented(eol_label@))
                .update(PART_ENCODING as int, indented(encoding_label@))
                .update(
                    PART_LENGTH as int,
                    length_text(position_of(r.length) as nat, position_of(r.lines) as nat),
                )
                .update(
                    PART_CURSOR as int,
                    cursor_text(
                        position_of(r.caret_line),
                        position_of(r.caret_col),
                        position_of(r.pos),
                    ),
                )
                .update(PART_INSOVR as int, overtype_text(r.overtype)),
    {
        let label: &str = match language {
            Some(name) => name,
            None => "Normal Text",
        };
        self.status.set_static_parts(label, eol_label, encoding_label);
        self.refresh_dynamic_status(r);
    }

    pub fn is_tabbar_hidden(&self) -> (r: bool)
        ensures
            r == self.tabbar_hidden,
    {
        self.tabbar_hidden
    }

    /// Hide or show the tab strip; the result is whether it was hidden.
    pub fn set_tabbar_hidden(&mut self, hidden: bool) -> (prev: bool)
        ensures
            prev == old(self).tabbar_hidden,
            final(self).tabbar_hidden == hidden,
            final(self).status == old(self).status,
            final(self).toolbar_hidden == old(self).toolbar_hidden,
            final(self).menu_hidden == old(self).menu_hidden,
            final(self).statusbar_hidden == old(self).statusbar_hidden,
    {
        let prev: bool = self.tabbar_hidden;
        self.tabbar_hidden = hidden;
        prev
    }

    pub fn is_toolbar_hidden(&self) -> (r: bool)
        ensures
            r == self.toolbar_hidden,
    {
        self.toolbar_hidden
    }

    /// Hide or show the tool bar; the result is whether it was hidden.
    pub fn set_toolbar_hidden(&mut self, hidden: bool) -> (prev: bool)
        ensures
            prev == old(self).toolbar_hidden,
            final(self).toolbar_hidden == hidden,
            final(self).status == old(self).status,
            final(self).tabbar_hidden == old(self).tabbar_hidden,
            final(self).menu_hidden == old(self).menu_hidden,
            final(self).statusbar_hidden == old(self).statusbar_hidden,
    {
        let prev: bool = self.toolbar_hidden;
        self.toolbar_hidden = hidden;
        prev
    }

    pub fn is_menu_hidden(&self) -> (r: bool)
        ensures
            r == self.menu_hidden,
    {
        self.menu_hidden
    }

    /// Hide or show the menu bar; the result is whether it was hidden.
    pub fn set_menu_hidden(&mut self, hidden: bool) -> (prev: bool)
        ensures
            prev == old(self).menu_hidden,
            final(self).menu_hidden == hidden,
            final(self).status == old(self).status,
            final(self).tabbar_hidden == old(self).tabbar_hidden,
            final(self).toolbar_hidden == old(self).toolbar_hidden,
            final(self).statusbar_hidden == old(self).statusbar_hidden,
    {
        let prev: bool = self.menu_hidden;
        self.menu_hidden = hidden;
        prev
    }

    pub fn is_statusbar_hidden(&self) -> (r: bool)
        ensures
            r == self.statusbar_hidden,
    {
        self.statusbar_hidden
    }

    /// Hide or show the status bar; the result is whether it was hidden.
    pub fn set_statusbar_hidden(&mut self, hidden: bool) -> (prev: bool)
        ensures
            prev == old(self).statusbar_hidden,
            final(self).statusbar_hidden == hidden,
            final(self).status == old(self).status,
            final(self).tabbar_hidden == old(self).tabbar_hidden,
            final(self).toolbar_hidden == old(self).toolbar_hidden,
            final(self).menu_hidden == old(self).menu_hidden,
    {
        let prev: bool = self.statusbar_hidden;
        self.statusbar_hidden = hidden;
        prev
    }
}

/// Whether a buffer has to be moved off its save point to read as modified.
pub fn needs_dirty_mark(modified: bool) -> (r: bool)
    ensures
        r == !modified,
{
    !modified
}

/// Something to tell the editor about the text of a document.
#[derive(Clone, Copy, PartialEq, Eq, Structural, Debug)]
pub enum TextStep {
    /// Put a text in place of what is there.
    SetText,
    /// Forget what could be undone.
    EmptyUndoBuffer,
    /// Call the document saved as it is.
    SetSavePoint,
    GotoPos(u64),
}

/// A document as far as its history goes.
#[derive(Clone, Copy, PartialEq, Eq, Structural, Debug)]
pub struct TextHistory {
    pub modified: bool,
    pub can_undo: bool,
    pub caret: u64,
}

/// A document after something was done to its text.
pub open spec fn text_after(h: TextHistory, step: TextStep) -> TextHistory {
    match step {
        TextStep::SetText => TextHistory { modified: true, can_undo: true, caret: 0 },
        TextStep::EmptyUndoBuffer => TextHistory { can_undo: false, ..h },
        TextStep::SetSavePoint => TextHistory { modified: false, ..h },
        TextStep::GotoPos(pos) => TextHistory { caret: pos, ..h },
    }
}

/// The steps that put the text of a file into a document.
pub open spec fn load_steps(cursor: u64) -> Seq<TextStep> {
    seq![
        TextStep::SetText,
        TextStep::EmptyUndoBuffer,
        TextStep::SetSavePoint,
        TextStep::GotoPos(cursor),
    ]
}

/// The steps that put the text of a file into a document, with the caret where
/// it belongs.
pub fn set_buffer_text(cursor: u64) -> (r: Vec<TextStep>)
    ensures
        r@ == load_steps(cursor),
{
    vec![
        TextStep::SetText,
        TextStep::EmptyUndoBuffer,
        TextStep::SetSavePoint,
        TextStep::GotoPos(cursor),
    ]
}

/// The steps that put another text into an open document; none if there is no
/// document.
pub fn replace_doc_text(doc: isize) -> (r: Vec<TextStep>)
    ensures
        r@ == if doc == 0 {
            Seq::empty()
        } else {
            seq![TextStep::SetText]
        },
{
    let mut steps: Vec<TextStep> = Vec::new();
    if doc != 0 {
        steps.push(TextStep::SetText);
    }
    steps
}

/// A file that was loaded is no edit: it is not modified and cannot be undone.
/// A text that was replaced in an open document is one: it is modified, so
/// that closing asks to save it, and can be undone.
pub proof fn loads_are_no_edits(h: TextHistory, cursor: u64)
    ensures
        ({
            let s = load_steps(cursor);
            text_after(text_after(text_after(text_after(h, s[0]), s[1]), s[2]), s[3]) == (
            TextHistory { modified: false, can_undo: false, caret: cursor })
        }),
        text_after(h, TextStep::SetText).modified,
        text_after(h, TextStep::SetText).can_undo,
{
}

/// How many bytes of a document were read into a buffer: as many as the editor
/// wrote, and none if it has none or wrote none.
pub fn bytes_read(length: isize, written: isize) -> (r: usize)
    ensures
        r == if length <= 0 || written <= 0 {
            0
        } else {
            written as int
        },
{
    if length <= 0 || written <= 0 {
        0
    } else {
        written as usize
    }
}

/// A place is put back as it was: the same anchor and caret, and the first
/// visible line and the offset where they were; nothing is scrolled that is in
/// place.
pub proof fn a_place_is_put_back(snap: ViewState, current_top: isize)
    requires
        isize::MIN <= snap.top_line - current_top <= isize::MAX,
    ensures
        ({
            let r = restoring(snap, current_top);
            &&& r.caret == snap.caret
            &&& snap.anchor >= 0 ==> r.anchor == snap.anchor
            &&& snap.anchor < 0 ==> r.anchor == 0
            &&& snap.x_offset >= 0 ==> r.x_offset == snap.x_offset
            &&& snap.x_offset < 0 ==> r.x_offset == 0
            &&& r.scroll is None <==> snap.top_line == current_top
            &&& r.scroll matches Some(lines) ==> current_top + lines == snap.top_line
        }),
{
}

/// A document is reached where it is if it is in the view, and by a swap if
/// another one is; a tab without a document has none to reach.
pub proof fn a_document_is_reached_where_it_is(doc: isize, bound: isize)
    ensures
        doc == 0 <==> doc_access_spec(doc, bound) == DocAccess::Absent,
        doc != 0 && doc == bound <==> doc_access_spec(doc, bound) == DocAccess::Bound,
        doc != 0 && doc != bound && bound != 0 ==> doc_access_spec(doc, bound) == DocAccess::Swap(
            Some(bound),
        ),
        doc != 0 && bound == 0 ==> doc_access_spec(doc, bound) == DocAccess::Swap(None),
{
}

/// A visit goes out, looks and comes back: it binds the document asked for, and
/// afterwards the one from before, whose selection, first line and offset it
/// puts back in this order.
pub proof fn a_visit_goes_out_and_back(v: DocVisit, view: EditorView)
    requires
        v.phase is Selected ==> isize::MIN <= v.place.top_line - view.place.top_line <= isize::MAX,
    ensures
        ({
            let (next, action) = visit_next(v, view);
            &&& next.doc == v.doc
            &&& match v.phase {
                VisitPhase::Fresh => {
                    &&& v.doc == 0 ==> action == VisitAction::Finish && next.phase
                        == VisitPhase::Over
                    &&& v.doc != 0 && v.doc == view.bound ==> action == VisitAction::Look
                    &&& v.doc != 0 && v.doc != view.bound ==> {
                        &&& action == VisitAction::Bind(v.doc)
                        &&& next.phase == VisitPhase::Arrived
                        &&& next.place == view.place
                        &&& view.bound != 0 ==> next.prior == Some(view.bound)
                        &&& view.bound == 0 ==> next.prior is None
                    }
                },
                VisitPhase::Arrived => action == VisitAction::Look && next.phase
                    == VisitPhase::Looked && next.prior == v.prior && next.place == v.place,
                VisitPhase::Looked => {
                    &&& v.prior matches Some(prior) ==> action == VisitAction::Bind(prior)
                        && next.phase == VisitPhase::Back && next.place == v.place
                    &&& v.prior is None ==> action == VisitAction::Finish
                },
                VisitPhase::Back => {
                    &&& next.phase == VisitPhase::Selected
                    &&& next.place == v.place
                    &&& action matches VisitAction::Select { anchor, caret } && caret
                        == v.place.caret && (v.place.anchor >= 0 ==> anchor == v.place.anchor)
                },
                VisitPhase::Selected => {
                    &&& v.place.top_line != view.place.top_line ==> (
                    action matches VisitAction::Scroll(lines) && view.place.top_line + lines
                        == v.place.top_line)
                    &&& v.place.top_line == view.place.top_line && v.place.x_offset >= 0 ==> (
                    action matches VisitAction::SetOffset(offset) && offset == v.place.x_offset)
                },
                VisitPhase::Scrolled => v.place.x_offset >= 0 ==> (
                action matches VisitAction::SetOffset(offset) && offset == v.place.x_offset),
                VisitPhase::Settled | VisitPhase::Over => action == VisitAction::Finish
                    && next.phase == VisitPhase::Over,
            }
        }),
{
}

/// A tab's document is bound exactly if it is not in the view, and configured
/// exactly if it is new.
pub proof fn a_document_is_bound_once(doc: isize, fresh: bool, bound: isize, r: Activation)
    requires
        call_ensures(activate_tab, (doc, fresh, bound), r),
    ensures
        r.bind <==> doc != bound,
        r.configure <==> fresh,
{
}

/// The text scrolls only if the caret's line is not on the screen, and then it
/// scrolls until half a screen is above that line, or to the top.
pub proof fn an_unseen_caret_is_centred(r: CaretReading)
    requires
        r.line >= 0,
        r.first_visible >= 0,
        r.lines_on_screen >= 1,
    ensures
        centering_scroll(r) is None <==> r.first_visible <= r.line < r.first_visible
            + r.lines_on_screen,
        centering_scroll(r) matches Some(n) ==> {
            let top = r.first_visible + n;
            let half = r.lines_on_screen as int / 2;
            &&& r.line >= half ==> top + half == r.line
            &&& r.line < half ==> top == 0
        },
{
}

/// Typed lines end as those of the file do, and with a line feed where they
/// end in several ways.
pub proof fn typed_lines_end_as_the_others(eol: Eol, m: EolMode)
    requires
        call_ensures(eol_mode, (eol,), m),
    ensures
        m == EolMode::CrLf <==> eol == Eol::CrLf,
        m == EolMode::Cr <==> eol == Eol::Cr,
        m == EolMode::Lf <==> eol == Eol::Lf || eol == Eol::Mixed,
{
}

/// A window is as opaque as the setting says while transparency is on, and
/// fully opaque otherwise.
pub proof fn a_window_is_as_opaque_as_set(enabled: bool, percent: u8, p: u8)
    requires
        call_ensures(opacity_percent, (enabled, percent), p),
    ensures
        !enabled ==> p == 100,
        enabled && percent <= 100 ==> p == percent,
        enabled && percent > 100 ==> p == 100,
{
}

/// The bytes read are those the editor wrote.
pub proof fn what_was_written_was_read(length: isize, written: isize, r: usize)
    requires
        call_ensures(bytes_read, (length, written), r),
    ensures
        length > 0 && written > 0 ==> r == written,
        length <= 0 || written <= 0 ==> r == 0,
{
}

/// A colour keeps its red in the lowest byte, its green in the next and its
/// blue in the one after that.
pub proof fn a_colour_keeps_its_parts(rgb: (u8, u8, u8), c: u32)
    requires
        call_ensures(rgb_to_scintilla_colour, (rgb,), c),
    ensures
        c % 256 == rgb.0,
        (c / 256) % 256 == rgb.1,
        c / 65536 == rgb.2,
{
}

/// A loaded text is put in, then nothing of it can be undone and it counts as
/// saved, and the caret goes where it belongs; another text that is put into an
/// open document is just put in.
pub proof fn a_load_goes_in_order(cursor: u64, doc: isize, loaded: Vec<TextStep>, replaced: Vec<TextStep>)
    requires
        call_ensures(set_buffer_text, (cursor,), loaded),
        call_ensures(replace_doc_text, (doc,), replaced),
    ensures
        loaded@ == seq![
            TextStep::SetText,
            TextStep::EmptyUndoBuffer,
            TextStep::SetSavePoint,
            TextStep::GotoPos(cursor),
        ],
        doc == 0 ==> replaced@.len() == 0,
        doc != 0 ==> replaced@ == seq![TextStep::SetText],
{
}

/// The measures of the editor.
pub proof fn the_measures_of_the_editor()
    ensures
        TAB_WIDTH_SPACES == 4,
        LINE_NUMBER_MARGIN == 0,
        CHANGE_HISTORY_MARGIN == 4,
        CHANGE_HISTORY_MARGIN_PX == 4,
        CHANGE_HISTORY_COLOR == 255 + 256 * 167 + 65536 * 38,
{
}

/// A bar that was hidden or shown says what it was before, and is so from then
/// on; the other bars stay as they are.
pub proof fn a_bar_is_as_it_was_set(hidden: bool, was: bool)
    ensures
        forall|ui: &mut GtkUi| #[trigger]
            call_ensures(GtkUi::set_tabbar_hidden, (ui, hidden), was) ==> was == ui.tabbar_hidden
                && final(ui).tabbar_hidden == hidden && final(ui).toolbar_hidden
                == ui.toolbar_hidden && final(ui).menu_hidden == ui.menu_hidden && final(
                ui).statusbar_hidden == ui.statusbar_hidden,
        forall|ui: &mut GtkUi| #[trigger]
            call_ensures(GtkUi::set_toolbar_hidden, (ui, hidden), was) ==> was == ui.toolbar_hidden
                && final(ui).toolbar_hidden == hidden && final(ui).tabbar_hidden
                == ui.tabbar_hidden && final(ui).menu_hidden == ui.menu_hidden && final(
                ui).statusbar_hidden == ui.statusbar_hidden,
        forall|ui: &mut GtkUi| #[trigger]
            call_ensures(GtkUi::set_menu_hidden, (ui, hidden), was) ==> was == ui.menu_hidden
                && final(ui).menu_hidden == hidden && final(ui).tabbar_hidden == ui.tabbar_hidden
                && final(ui).toolbar_hidden == ui.toolbar_hidden && final(ui).statusbar_hidden
                == ui.statusbar_hidden,
        forall|ui: &mut GtkUi| #[trigger]
            call_ensures(GtkUi::set_statusbar_hidden, (ui, hidden), was) ==> was
                == ui.statusbar_hidden && final(ui).statusbar_hidden == hidden && final(
                ui).tabbar_hidden == ui.tabbar_hidden && final(ui).toolbar_hidden
                == ui.toolbar_hidden && final(ui).menu_hidden == ui.menu_hidden,
{
}

/// The status bar shows the buffer's language, line ending and encoding, then
/// the length, the caret and the way of typing, each in its part; a language
/// without a name shows as plain text.
pub proof fn the_bar_shows_the_buffer(
    name: &str,
    eol: &str,
    encoding: &str,
    r: EditorReading,
)
    requires
        0 <= r.length,
        0 <= r.lines,
        0 <= r.caret_line,
        0 <= r.caret_col,
        0 <= r.pos,
    ensures
        forall|ui: &mut GtkUi|
            ui.status.wf() && #[trigger] call_ensures(
                GtkUi::update_status,
                (ui, Some(name), eol, encoding, r),
                (),
            ) ==> {
                let parts = final(ui).status.parts();
                &&& parts[0] == indented(name@)
                &&& parts[4] == indented(eol@)
                &&& parts[5] == indented(encoding@)
                &&& parts[2] == length_text(r.length as nat, r.lines as nat)
                &&& parts[3] == cursor_text(r.caret_line as u64, r.caret_col as u64, r.pos as u64)
                &&& parts[6] == overtype_text(r.overtype)
                &&& parts[1] == ui.status.parts()[1]
            },
        forall|ui: &mut GtkUi|
            ui.status.wf() && #[trigger] call_ensures(
                GtkUi::update_status,
                (ui, None, eol, encoding, r),
                (),
            ) ==> final(ui).status.parts()[0] == indented("Normal Text"@),
{
    assert forall|bar: StatusBar| #[trigger] bar.wf() implies bar.parts().len() == 7 by {
        bar.parts_are_seven();
    }
}

/// To write the status bar hides and shows no bar.
pub proof fn writing_the_status_moves_no_bar(
    language: Option<&str>,
    eol: &str,
    encoding: &str,
    r: EditorReading,
)
    ensures
        forall|ui: &mut GtkUi| #[trigger]
            call_ensures(GtkUi::update_status, (ui, language, eol, encoding, r), ()) ==> {
                &&& final(ui).tabbar_hidden == ui.tabbar_hidden
                &&& final(ui).toolbar_hidden == ui.toolbar_hidden
                &&& final(ui).menu_hidden == ui.menu_hidden
                &&& final(ui).statusbar_hidden == ui.statusbar_hidden
            },
        forall|ui: &mut GtkUi| #[trigger]
            call_ensures(GtkUi::refresh_dynamic_status, (ui, r), ()) ==> {
                &&& final(ui).tabbar_hidden == ui.tabbar_hidden
                &&& final(ui).toolbar_hidden == ui.toolbar_hidden
                &&& final(ui).menu_hidden == ui.menu_hidden
                &&& final(ui).statusbar_hidden == ui.statusbar_hidden
            },
{
}

/// A tab needs a document exactly if it has none, and a buffer a mark exactly if
/// it does not read as modified.
pub proof fn what_is_there_is_not_made_again(doc: isize, modified: bool, needs: bool, mark: bool)
    requires
        call_ensures(needs_document, (doc,), needs),
        call_ensures(needs_dirty_mark, (modified,), mark),
    ensures
        needs <==> doc == 0,
        mark <==> !modified,
{
}

} // verus!
