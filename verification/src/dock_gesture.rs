//! The pointer gestures of the dock: dragging a caption or a tab, dragging a
//! side splitter, resizing a floating group.
//!
//! Every position is in root coordinates. The functions here decide what an
//! event means; moving panels and windows is up to the caller.
use vstd::prelude::*;
use crate::dock_geometry::{
    fits_i32, max_i32, max_of, outward, quotient, quotient_i32, resize_edge, resize_edge_spec,
    side_drag_size, DockPanel, DockRect, DockSide, WindowEdge, DOCK_CAPTION_H, DOCK_DRAG_THRESHOLD, FLOAT_RESIZE_BORDER,
};

verus! {

/// Whether an event has been dealt with.
#[derive(Clone, Copy, PartialEq, Eq, Structural, Debug)]
pub enum Propagation {
    Stop,
    Proceed,
}

/// The button that a gesture is made with.
pub const PRIMARY_BUTTON: u32 = 1;

/// What a drag moves.
#[derive(Clone, Copy, PartialEq, Eq, Structural, Debug)]
pub enum DragSubject {
    Panel(DockPanel),
    Group(u32),
}

/// Where the pointer holds the preview of a torn-off window, and how large
/// the preview is.
#[derive(Clone, Copy, PartialEq, Eq, Debug)]
pub struct Held {
    pub grab: (i32, i32),
    pub float_size: (i32, i32),
}

/// A caption or tab gesture under way.
#[derive(Clone, Copy, PartialEq, Eq, Debug)]
pub struct Drag {
    pub subject: DragSubject,
    /// The group that the gesture started on.
    pub group_id: u32,
    /// Where the button went down.
    pub start: (i32, i32),
    pub held: Held,
    /// The pressed tab, while the gesture can still be a click on it.
    pub armed_tab: Option<usize>,
    /// The pointer has travelled far enough for this to be a drag.
    pub started: bool,
    /// Escape was pressed: the release does nothing.
    pub cancelled: bool,
}

impl Drag {
    /// A drag that has started is no click any more.
    pub open spec fn wf(&self) -> bool {
        self.started ==> self.armed_tab is None
    }
}

/// A splitter gesture under way.
#[derive(Clone, Copy, PartialEq, Eq, Debug)]
pub struct SplitterDrag {
    pub side: DockSide,
    pub start: (i32, i32),
    pub size_at_start: i32,
}

/// The gestures under way.
#[derive(Clone, Copy, PartialEq, Eq, Debug)]
pub struct Gestures {
    pub drag: Option<Drag>,
    pub splitter: Option<SplitterDrag>,
}

/// What the release of a caption or tab gesture asks for.
#[derive(Clone, Copy, PartialEq, Eq, Structural, Debug)]
pub enum Release {
    /// Not the button of the gesture.
    NotOurs,
    /// Nothing to do.
    Nothing,
    /// Move the subject to whatever the preview is dropped on.
    Drop(DragSubject, DockRect),
    /// Bring a tab to the front of its group.
    SwitchTab(u32, usize),
}

/// What Escape asks for.
#[derive(Clone, Copy, PartialEq, Eq, Debug)]
pub struct EscapeEffect {
    pub hide_hint: bool,
    /// Give this side its size from before the splitter drag.
    pub restore: Option<(DockSide, i32)>,
}

/// A group as the pointer can meet it: its id, whether it floats, and its
/// rectangle if it is on screen.
#[derive(Clone, Copy, PartialEq, Eq, Structural, Debug)]
pub struct LiveGroup {
    pub id: u32,
    pub floating: bool,
    pub rect: Option<DockRect>,
}

/// The distance between two integers.
pub open spec fn distance(a: int, b: int) -> int {
    if a >= b {
        a - b
    } else {
        b - a
    }
}

/// The pointer at `cursor` is far enough from `start` for a drag.
pub open spec fn beyond_threshold(start: (i32, i32), cursor: (i32, i32)) -> bool {
    distance(cursor.0 as int, start.0 as int) >= DOCK_DRAG_THRESHOLD || distance(
        cursor.1 as int,
        start.1 as int,
    ) >= DOCK_DRAG_THRESHOLD
}

/// A gesture after the pointer moved to `cursor`.
pub open spec fn after_motion(d: Drag, cursor: (i32, i32)) -> Drag {
    if d.cancelled || d.started || !beyond_threshold(d.start, cursor) {
        d
    } else {
        Drag { started: true, armed_tab: None, ..d }
    }
}

/// The preview's rectangle with the pointer at `cursor`.
pub open spec fn preview_spec(h: Held, cursor: (i32, i32)) -> DockRect {
    DockRect {
        x: (cursor.0 - h.grab.0) as i32,
        y: (cursor.1 - h.grab.1) as i32,
        w: h.float_size.0,
        h: h.float_size.1,
    }
}

/// The preview at `cursor` has a corner that can be represented.
pub open spec fn preview_fits(h: Held, cursor: (i32, i32)) -> bool {
    fits_i32(cursor.0 - h.grab.0) && fits_i32(cursor.1 - h.grab.1)
}

/// A drag that is shown or dropped at `cursor` has a preview there that can be
/// represented.
pub open spec fn shown_preview_fits(d: Drag, cursor: (i32, i32)) -> bool {
    d.started && !d.cancelled ==> preview_fits(d.held, cursor)
}

/// What a motion to `cursor` shows can be represented.
pub open spec fn motion_fits_spec(drag: Option<Drag>, cursor: (i32, i32)) -> bool {
    drag matches Some(d) ==> shown_preview_fits(after_motion(d, cursor), cursor)
}

/// What a release of `button` at `cursor` drops can be represented.
pub open spec fn release_fits_spec(drag: Option<Drag>, button: u32, cursor: (i32, i32)) -> bool {
    button == PRIMARY_BUTTON ==> (drag matches Some(d) ==> shown_preview_fits(d, cursor))
}

/// What a release of the gesture's own button asks for.
pub open spec fn release_spec(
    drag: Option<Drag>,
    cursor: (i32, i32),
    over_armed_tab: bool,
) -> Release {
    match drag {
        None => Release::Nothing,
        Some(d) => if d.cancelled {
            Release::Nothing
        } else if d.started {
            Release::Drop(d.subject, preview_spec(d.held, cursor))
        } else {
            match d.armed_tab {
                Some(tab) => if over_armed_tab {
                    Release::SwitchTab(d.group_id, tab)
                } else {
                    Release::Nothing
                },
                None => Release::Nothing,
            }
        },
    }
}

fn travel(a: i32, b: i32) -> (r: i64)
    ensures
        r == distance(a as int, b as int),
{
    let d: i64 = a as i64 - b as i64;
    if d >= 0 {
        d
    } else {
        -d
    }
}

fn far_enough(start: (i32, i32), cursor: (i32, i32)) -> (r: bool)
    ensures
        r == beyond_threshold(start, cursor),
{
    let threshold: i64 = DOCK_DRAG_THRESHOLD as i64;
    travel(cursor.0, start.0) >= threshold || travel(cursor.1, start.1) >= threshold
}

fn corner_fits(h: Held, cursor: (i32, i32)) -> (r: bool)
    ensures
        r == preview_fits(h, cursor),
{
    let x: i64 = cursor.0 as i64 - h.grab.0 as i64;
    let y: i64 = cursor.1 as i64 - h.grab.1 as i64;
    let (low, high): (i64, i64) = (i32::MIN as i64, i32::MAX as i64);
    low <= x && x <= high && low <= y && y <= high
}

fn preview(h: Held, cursor: (i32, i32)) -> (r: DockRect)
    requires
        preview_fits(h, cursor),
    ensures
        r == preview_spec(h, cursor),
{
    DockRect {
        x: cursor.0 - h.grab.0,
        y: cursor.1 - h.grab.1,
        w: h.float_size.0,
        h: h.float_size.1,
    }
}

/// How a floating group is held when its caption is pressed at `root`: where
/// the pointer is, and at its own size, no less than `least`.
pub fn held_where_pressed(root: (i32, i32), outer: DockRect, least: (i32, i32)) -> (h: Held)
    requires
        fits_i32(root.0 - outer.x),
        fits_i32(root.1 - outer.y),
    ensures
        h.grab.0 == root.0 - outer.x,
        h.grab.1 == root.1 - outer.y,
        h.float_size.0 == max_of(outer.w as int, least.0 as int),
        h.float_size.1 == max_of(outer.h as int, least.1 as int),
{
    Held {
        grab: (root.0 - outer.x, root.1 - outer.y),
        float_size: (max_i32(outer.w, least.0), max_i32(outer.h, least.1)),
    }
}

/// How a panel torn off by its tab is held: in the middle of its caption.
pub fn held_mid_caption(size: (i32, i32)) -> (h: Held)
    ensures
        h.grab.0 == quotient(size.0 as int, 2),
        h.grab.1 == DOCK_CAPTION_H / 2,
        h.float_size == size,
{
    Held { grab: (quotient_i32(size.0, 2), DOCK_CAPTION_H / 2), float_size: size }
}

impl Gestures {
    pub open spec fn wf(&self) -> bool {
        self.drag matches Some(d) ==> d.wf()
    }

    /// No gesture under way.
    pub fn new() -> (g: Gestures)
        ensures
            g.wf(),
            g.drag is None,
            g.splitter is None,
    {
        Gestures { drag: None, splitter: None }
    }

    /// A press on the caption of group `id` at `root`. `held` says how the
    /// group is held, or is absent if the group has no widgets.
    pub fn caption_press(
        &mut self,
        button: u32,
        id: u32,
        root: (i32, i32),
        held: Option<Held>,
    ) -> (r: Propagation)
        requires
            old(self).wf(),
        ensures
            final(self).wf(),
            final(self).splitter == old(self).splitter,
            r == if button == PRIMARY_BUTTON {
                Propagation::Stop
            } else {
                Propagation::Proceed
            },
            final(self).drag == match held {
                Some(h) if button == PRIMARY_BUTTON => Some(
                    Drag {
                        subject: DragSubject::Group(id),
                        group_id: id,
                        start: root,
                        held: h,
                        armed_tab: None,
                        started: false,
                        cancelled: false,
                    },
                ),
                _ => old(self).drag,
            },
    {
        if button != PRIMARY_BUTTON {
            return Propagation::Proceed;
        }
        if let Some(h) = held {
            self.drag = Some(
                Drag {
                    subject: DragSubject::Group(id),
                    group_id: id,
                    start: root,
                    held: h,
                    armed_tab: None,
                    started: false,
                    cancelled: false,
                },
            );
        }
        Propagation::Stop
    }

    /// A press on tab `index` of group `id`, which shows `panel`. It arms a
    /// switch to that tab, which turns into a drag if the pointer travels.
    pub fn tab_press(
        &mut self,
        button: u32,
        id: u32,
        index: usize,
        panel: DockPanel,
        root: (i32, i32),
        held: Held,
    ) -> (r: Propagation)
        requires
            old(self).wf(),
        ensures
            final(self).wf(),
            final(self).splitter == old(self).splitter,
            r == if button == PRIMARY_BUTTON {
                Propagation::Stop
            } else {
                Propagation::Proceed
            },
            final(self).drag == if button == PRIMARY_BUTTON {
                Some(
                    Drag {
                        subject: DragSubject::Panel(panel),
                        group_id: id,
                        start: root,
                        held,
                        armed_tab: Some(index),
                        started: false,
                        cancelled: false,
                    },
                )
            } else {
                old(self).drag
            },
    {
        if button != PRIMARY_BUTTON {
            return Propagation::Proceed;
        }
        self.drag = Some(
            Drag {
                subject: DragSubject::Panel(panel),
                group_id: id,
                start: root,
                held,
                armed_tab: Some(index),
                started: false,
                cancelled: false,
            },
        );
        Propagation::Stop
    }

    /// Whether what a motion to `cursor` shows can be represented.
    pub fn motion_fits(&self, cursor: (i32, i32)) -> (r: bool)
        ensures
            r == motion_fits_spec(self.drag, cursor),
    {
        match self.drag {
            None => true,
            Some(d) => d.cancelled || (!d.started && !far_enough(d.start, cursor))
                || corner_fits(d.held, cursor),
        }
    }

    /// Whether what a release of `button` at `cursor` drops can be represented.
    pub fn release_fits(&self, button: u32, cursor: (i32, i32)) -> (r: bool)
        ensures
            r == release_fits_spec(self.drag, button, cursor),
    {
        match self.drag {
            None => true,
            Some(d) => button != PRIMARY_BUTTON || d.cancelled || !d.started || corner_fits(
                d.held,
                cursor,
            ),
        }
    }

    /// The pointer moved with the button down. The result is what to show a
    /// drop preview of, once the gesture is a drag.
    pub fn drag_motion(&mut self, cursor: (i32, i32)) -> (r: Option<(DragSubject, DockRect)>)
        requires
            old(self).wf(),
            motion_fits_spec(old(self).drag, cursor),
        ensures
            final(self).wf(),
            final(self).splitter == old(self).splitter,
            match old(self).drag {
                None => final(self).drag is None && r is None,
                Some(d) => {
                    let next = after_motion(d, cursor);
                    &&& final(self).drag == Some(next)
                    &&& r == if next.started && !next.cancelled {
                        Some((next.subject, preview_spec(next.held, cursor)))
                    } else {
                        None
                    }
                },
            },
    {
        match self.drag {
            None => None,
            Some(d) => {
                if d.cancelled {
                    return None;
                }
                if !d.started {
                    if !far_enough(d.start, cursor) {
                        return None;
                    }
                    self.drag = Some(Drag { started: true, armed_tab: None, ..d });
                }
                Some((d.subject, preview(d.held, cursor)))
            },
        }
    }

    /// A button went up at `cursor`. `over_armed_tab` says whether that is
    /// still on the tab that the gesture armed. Only the button that started
    /// the gesture ends it.
    pub fn drag_release(
        &mut self,
        button: u32,
        cursor: (i32, i32),
        over_armed_tab: bool,
    ) -> (r: Release)
        requires
            old(self).wf(),
            release_fits_spec(old(self).drag, button, cursor),
        ensures
            final(self).wf(),
            final(self).splitter == old(self).splitter,
            if button == PRIMARY_BUTTON {
                &&& final(self).drag is None
                &&& r == release_spec(old(self).drag, cursor, over_armed_tab)
            } else {
                &&& final(self).drag == old(self).drag
                &&& r == Release::NotOurs
            },
    {
        if button != PRIMARY_BUTTON {
            return Release::NotOurs;
        }
        let taken: Option<Drag> = self.drag;
        self.drag = None;
        match taken {
            None => Release::Nothing,
            Some(d) => {
                if d.cancelled {
                    return Release::Nothing;
                }
                if d.started {
                    return Release::Drop(d.subject, preview(d.held, cursor));
                }
                match d.armed_tab {
                    Some(tab) => if over_armed_tab {
                        Release::SwitchTab(d.group_id, tab)
                    } else {
                        Release::Nothing
                    },
                    None => Release::Nothing,
                }
            },
        }
    }

    /// The pointer grab was taken away: drop whatever is under way. `true`
    /// if a splitter was being dragged, whose last size is to be written
    /// through.
    pub fn grab_broken(&mut self) -> (splitter_was_live: bool)
        ensures
            final(self).wf(),
            final(self).drag is None,
            final(self).splitter is None,
            splitter_was_live == old(self).splitter is Some,
    {
        let live: bool = self.splitter.is_some();
        self.drag = None;
        self.splitter = None;
        live
    }

    /// A key went down. Escape cancels a drag, whose release then does
    /// nothing, and ends a splitter drag with the band back at the size it
    /// had.
    pub fn key_press(&mut self, escape: bool) -> (r: EscapeEffect)
        requires
            old(self).wf(),
        ensures
            final(self).wf(),
            !escape ==> *final(self) == *old(self) && !r.hide_hint && r.restore is None,
            escape ==> {
                &&& final(self).drag == match old(self).drag {
                    Some(d) => Some(Drag { cancelled: true, ..d }),
                    None => None,
                }
                &&& final(self).splitter is None
                &&& r.hide_hint == old(self).drag is Some
                &&& r.restore == match old(self).splitter {
                    Some(s) => Some((s.side, s.size_at_start)),
                    None => None,
                }
            },
    {
        if !escape {
            return EscapeEffect { hide_hint: false, restore: None };
        }
        let hide_hint: bool = self.drag.is_some();
        if let Some(d) = self.drag {
            self.drag = Some(Drag { cancelled: true, ..d });
        }
        let restore: Option<(DockSide, i32)> = match self.splitter {
            Some(s) => Some((s.side, s.size_at_start)),
            None => None,
        };
        self.splitter = None;
        EscapeEffect { hide_hint, restore }
    }

    /// A press on the splitter of `side`, whose band has size `size` now.
    pub fn splitter_press(
        &mut self,
        button: u32,
        side: DockSide,
        root: (i32, i32),
        size: i32,
    ) -> (r: Propagation)
        requires
            old(self).wf(),
        ensures
            final(self).wf(),
            final(self).drag == old(self).drag,
            r == if button == PRIMARY_BUTTON {
                Propagation::Stop
            } else {
                Propagation::Proceed
            },
            final(self).splitter == if button == PRIMARY_BUTTON {
                Some(SplitterDrag { side, start: root, size_at_start: size })
            } else {
                old(self).splitter
            },
    {
        if button != PRIMARY_BUTTON {
            return Propagation::Proceed;
        }
        self.splitter = Some(SplitterDrag { side, start: root, size_at_start: size });
        Propagation::Stop
    }

    /// The band size that the pointer at `cursor` proposes, while a splitter
    /// is dragged.
    pub fn splitter_proposal(&self, cursor: (i32, i32)) -> (r: Option<(DockSide, i32)>)
        requires
            self.splitter matches Some(s) ==> {
                &&& fits_i32(cursor.0 - s.start.0)
                &&& fits_i32(cursor.1 - s.start.1)
                &&& fits_i32(
                    s.size_at_start + outward(s.side, cursor.0 - s.start.0, cursor.1 - s.start.1),
                )
            },
        ensures
            r == match self.splitter {
                Some(s) => Some(
                    (
                        s.side,
                        (s.size_at_start + outward(
                            s.side,
                            cursor.0 - s.start.0,
                            cursor.1 - s.start.1,
                        )) as i32,
                    ),
                ),
                None => None,
            },
    {
        match self.splitter {
            None => None,
            Some(s) => {
                let delta: (i32, i32) = (cursor.0 - s.start.0, cursor.1 - s.start.1);
                Some((s.side, side_drag_size(s.side, s.size_at_start, delta)))
            },
        }
    }

    /// A button went up over a splitter. `None` for a button that is not the
    /// gesture's; otherwise whether the new size is to be written through.
    pub fn splitter_release(&mut self, button: u32) -> (r: Option<bool>)
        requires
            old(self).wf(),
        ensures
            final(self).wf(),
            final(self).drag == old(self).drag,
            if button == PRIMARY_BUTTON {
                &&& final(self).splitter is None
                &&& r == Some(old(self).splitter is Some)
            } else {
                &&& final(self).splitter == old(self).splitter
                &&& r is None
            },
    {
        if button != PRIMARY_BUTTON {
            return None;
        }
        let live: bool = self.splitter.is_some();
        self.splitter = None;
        Some(live)
    }
}

/// A band as it is laid out: its side and its rectangle.
#[derive(Clone, Copy, PartialEq, Eq, Structural, Debug)]
pub struct Band {
    pub side: DockSide,
    pub rect: DockRect,
}

/// A band's extent along the axis that its splitter moves on.
pub open spec fn band_extent(b: Band) -> i32 {
    match b.side {
        DockSide::Left | DockSide::Right => b.rect.w,
        DockSide::Top | DockSide::Bottom => b.rect.h,
    }
}

/// `i` is the first band on `side`.
pub open spec fn first_band(bands: Seq<Band>, side: DockSide, i: int) -> bool {
    &&& 0 <= i < bands.len()
    &&& bands[i].side == side
    &&& forall|j: int| 0 <= j < i ==> (#[trigger] bands[j]).side != side
}

/// The size to store for `side` after a proposal was laid out as `bands`: what
/// the first band on that side came out at, unless that is the size it has
/// already or there is no such band.
pub fn settled_size(bands: &Vec<Band>, side: DockSide, current: i32) -> (r: Option<i32>)
    ensures
        match r {
            Some(size) => size != current && exists|i: int| #[trigger]
                first_band(bands@, side, i) && size == band_extent(bands@[i]),
            None => forall|i: int| #[trigger]
                first_band(bands@, side, i) ==> band_extent(bands@[i]) == current,
        },
        forall|i: int| #[trigger]
            first_band(bands@, side, i) ==> {
                &&& side == DockSide::Left || side == DockSide::Right ==> (r is None
                    <==> bands@[i].rect.w == current)
                &&& side == DockSide::Top || side == DockSide::Bottom ==> (r is None
                    <==> bands@[i].rect.h == current)
            },
{
    let mut i: usize = 0;
    while i < bands.len()
        invariant
            i <= bands@.len(),
            forall|j: int| 0 <= j < i ==> (#[trigger] bands@[j]).side != side,
        decreases bands.len() - i,
    {
        let b: Band = bands[i];
        if b.side == side {
            assert(first_band(bands@, side, i as int));
            let extent: i32 = match side {
                DockSide::Left | DockSide::Right => b.rect.w,
                DockSide::Top | DockSide::Bottom => b.rect.h,
            };
            if extent != current {
                return Some(extent);
            }
            assert forall|j: int| #[trigger] first_band(bands@, side, j) implies band_extent(
                bands@[j],
            ) == current by {
                if j != i {
                    if j < i {
                        assert(bands@[j].side != side);
                    } else {
                        assert(bands@[i as int].side != side);
                    }
                }
            }
            return None;
        }
        i += 1;
    }
    None
}

/// The groups of one kind that are on screen, in order.
pub open spec fn on_screen(groups: Seq<LiveGroup>, floating: bool) -> Seq<(u32, DockRect)>
    decreases groups.len(),
{
    if groups.len() == 0 {
        Seq::empty()
    } else {
        let before = on_screen(groups.drop_last(), floating);
        let g = groups.last();
        if g.floating == floating && g.rect is Some {
            before.push((g.id, g.rect->Some_0))
        } else {
            before
        }
    }
}

/// The groups that a drop can land on, the floating ones first: they are
/// above the docked ones.
pub fn drop_zone_groups(groups: &Vec<LiveGroup>) -> (r: Vec<(u32, DockRect)>)
    ensures
        r@ == on_screen(groups@, true) + on_screen(groups@, false),
{
    let mut out: Vec<(u32, DockRect)> = Vec::new();
    collect_on_screen(groups, true, &mut out);
    collect_on_screen(groups, false, &mut out);
    assert(out@ =~= on_screen(groups@, true) + on_screen(groups@, false));
    out
}

fn collect_on_screen(groups: &Vec<LiveGroup>, floating: bool, out: &mut Vec<(u32, DockRect)>)
    ensures
        final(out)@ == old(out)@ + on_screen(groups@, floating),
{
    let ghost before = out@;
    let mut i: usize = 0;
    while i < groups.len()
        invariant
            i <= groups@.len(),
            out@ =~= before + on_screen(groups@.take(i as int), floating),
        decreases groups.len() - i,
    {
        assert(groups@.take(i + 1).drop_last() =~= groups@.take(i as int));
        let g: LiveGroup = groups[i];
        if g.floating == floating {
            if let Some(rect) = g.rect {
                out.push((g.id, rect));
            }
        }
        i += 1;
    }
    assert(groups@.take(i as int) =~= groups@);
}

/// What a press on a group's frame does: on a floating group it takes hold of
/// the edge it is near, if any; everything else proceeds.
pub fn frame_press(
    button: u32,
    floating: bool,
    at: (i32, i32),
    size: (i32, i32),
) -> (r: Option<WindowEdge>)
    requires
        fits_i32(size.0 - FLOAT_RESIZE_BORDER),
        fits_i32(size.1 - FLOAT_RESIZE_BORDER),
    ensures
        r == if button == PRIMARY_BUTTON && floating {
            resize_edge_spec(
                at.0 as int,
                at.1 as int,
                size.0 as int,
                size.1 as int,
                FLOAT_RESIZE_BORDER as int,
            )
        } else {
            None
        },
{
    if button != PRIMARY_BUTTON || !floating {
        return None;
    }
    resize_edge(at.0, at.1, size.0, size.1, FLOAT_RESIZE_BORDER)
}

/// A gesture after the pointer went through `path`.
pub open spec fn after_path(d: Drag, path: Seq<(i32, i32)>) -> Drag
    decreases path.len(),
{
    if path.len() == 0 {
        d
    } else {
        after_motion(after_path(d, path.drop_last()), path.last())
    }
}

/// The pointer stayed within the threshold all along `path`.
pub open spec fn stayed(start: (i32, i32), path: Seq<(i32, i32)>) -> bool {
    forall|i: int| 0 <= i < path.len() ==> !beyond_threshold(start, #[trigger] path[i])
}

/// A press becomes a drag exactly when the pointer has been beyond the
/// threshold at some point of its path, and stays one from then on. What the
/// gesture is about does not change on the way.
pub proof fn travel_makes_a_drag(d: Drag, path: Seq<(i32, i32)>)
    requires
        !d.started,
        !d.cancelled,
    ensures
        after_path(d, path).started <==> !stayed(d.start, path),
        after_path(d, path).subject == d.subject,
        after_path(d, path).group_id == d.group_id,
        after_path(d, path).start == d.start,
        after_path(d, path).held == d.held,
        !after_path(d, path).cancelled,
        after_path(d, path).armed_tab == if stayed(d.start, path) {
            d.armed_tab
        } else {
            None
        },
    decreases path.len(),
{
    if path.len() > 0 {
        let before = path.drop_last();
        travel_makes_a_drag(d, before);
        if stayed(d.start, path) {
            assert(stayed(d.start, before)) by {
                assert forall|i: int| 0 <= i < before.len() implies !beyond_threshold(
                    d.start,
                    #[trigger] before[i],
                ) by {
                    assert(path[i] == before[i]);
                }
            }
            assert(!beyond_threshold(d.start, path[path.len() - 1]));
        } else if stayed(d.start, before) {
            let k = choose|k: int|
                0 <= k < path.len() && beyond_threshold(d.start, #[trigger] path[k]);
            if k < before.len() {
                assert(before[k] == path[k]);
            }
        }
    }
}

/// A press that never travels is a click: its release drops nothing, and
/// switches to the armed tab if it ends on it. One that has travelled never
/// switches tabs.
pub proof fn a_click_is_no_drop(
    d: Drag,
    path: Seq<(i32, i32)>,
    cursor: (i32, i32),
    over: bool,
)
    requires
        !d.started,
        !d.cancelled,
    ensures
        stayed(d.start, path) ==> release_spec(Some(after_path(d, path)), cursor, over) == match d.armed_tab {
            Some(tab) => if over {
                Release::SwitchTab(d.group_id, tab)
            } else {
                Release::Nothing
            },
            None => Release::Nothing,
        },
        !stayed(d.start, path) ==> release_spec(Some(after_path(d, path)), cursor, over)
            == Release::Drop(d.subject, preview_spec(d.held, cursor)),
{
    travel_makes_a_drag(d, path);
}

/// Once Escape has been pressed nothing commits the gesture, wherever the
/// pointer goes before the button is released.
pub proof fn escape_cancels(d: Drag, path: Seq<(i32, i32)>, cursor: (i32, i32), over: bool)
    requires
        d.cancelled,
    ensures
        after_path(d, path) == d,
        release_spec(Some(after_path(d, path)), cursor, over) == Release::Nothing,
    decreases path.len(),
{
    if path.len() > 0 {
        escape_cancels(d, path.drop_last(), cursor, over);
    }
}

/// A press becomes a drag once the pointer is four pixels away along either
/// axis, in either direction, and not before.
pub proof fn four_pixels_make_a_drag(start: (i32, i32), cursor: (i32, i32))
    ensures
        beyond_threshold(start, cursor) <==> cursor.0 >= start.0 + 4 || cursor.0 <= start.0 - 4
            || cursor.1 >= start.1 + 4 || cursor.1 <= start.1 - 4,
        beyond_threshold(start, cursor) <==> beyond_threshold(cursor, start),
{
}

/// A preview is held where it was grabbed: its corner is as far from the
/// pointer as the grab says, wherever the pointer is, and its size is that of
/// the window to be.
pub proof fn a_preview_stays_under_the_pointer(h: Held, cursor: (i32, i32))
    requires
        i32::MIN <= cursor.0 - h.grab.0 <= i32::MAX,
        i32::MIN <= cursor.1 - h.grab.1 <= i32::MAX,
    ensures
        preview_spec(h, cursor).x + h.grab.0 == cursor.0,
        preview_spec(h, cursor).y + h.grab.1 == cursor.1,
        preview_spec(h, cursor).w == h.float_size.0,
        preview_spec(h, cursor).h == h.float_size.1,
        preview_fits(h, cursor),
{
}

/// A click on a tab, without travel, brings that tab of that group to the
/// front if the button goes up on it, and does nothing otherwise.
pub proof fn a_click_switches_to_its_tab(
    id: u32,
    index: usize,
    panel: DockPanel,
    root: (i32, i32),
    held: Held,
    p: Propagation,
    cursor: (i32, i32),
    over: bool,
    r: Release,
)
    ensures
        forall|g: &mut Gestures, later: &mut Gestures|
            (#[trigger] call_ensures(Gestures::tab_press, (g, 1, id, index, panel, root, held), p)
                && #[trigger] call_ensures(Gestures::drag_release, (later, 1, cursor, over), r)
                && *later == *final(g)) ==> {
                &&& p == Propagation::Stop
                &&& over ==> r == Release::SwitchTab(id, index)
                &&& !over ==> r == Release::Nothing
                &&& final(later).drag is None
                &&& final(later).splitter == g.splitter
            },
{
}

/// A tab that is dragged away moves its panel, and a caption that is dragged
/// moves its group: to where the pointer lets go, at the size it was held at.
pub proof fn a_drag_drops_what_was_pressed(
    id: u32,
    index: usize,
    panel: DockPanel,
    root: (i32, i32),
    held: Held,
    p: Propagation,
    away: (i32, i32),
    shown: Option<(DragSubject, DockRect)>,
    cursor: (i32, i32),
    over: bool,
    r: Release,
)
    requires
        away.0 >= root.0 + 4 || away.0 <= root.0 - 4 || away.1 >= root.1 + 4 || away.1 <= root.1
            - 4,
        i32::MIN <= away.0 - held.grab.0 <= i32::MAX,
        i32::MIN <= away.1 - held.grab.1 <= i32::MAX,
        i32::MIN <= cursor.0 - held.grab.0 <= i32::MAX,
        i32::MIN <= cursor.1 - held.grab.1 <= i32::MAX,
    ensures
        forall|g: &mut Gestures, moved: &mut Gestures, later: &mut Gestures|
            (#[trigger] call_ensures(Gestures::tab_press, (g, 1, id, index, panel, root, held), p)
                && #[trigger] call_ensures(Gestures::drag_motion, (moved, away), shown)
                && #[trigger] call_ensures(Gestures::drag_release, (later, 1, cursor, over), r)
                && *moved == *final(g) && *later == *final(moved)) ==> {
                &&& shown matches Some((subject, rect)) && subject == DragSubject::Panel(panel)
                    && rect.x + held.grab.0 == away.0 && rect.y + held.grab.1 == away.1 && rect.w
                    == held.float_size.0 && rect.h == held.float_size.1
                &&& r matches Release::Drop(subject, rect) && subject == DragSubject::Panel(panel)
                    && rect.x + held.grab.0 == cursor.0 && rect.y + held.grab.1 == cursor.1
                    && rect.w == held.float_size.0 && rect.h == held.float_size.1
                &&& final(later).drag is None
            },
        forall|g: &mut Gestures, moved: &mut Gestures, later: &mut Gestures|
            (#[trigger] call_ensures(Gestures::caption_press, (g, 1, id, root, Some(held)), p)
                && #[trigger] call_ensures(Gestures::drag_motion, (moved, away), shown)
                && #[trigger] call_ensures(Gestures::drag_release, (later, 1, cursor, over), r)
                && *moved == *final(g) && *later == *final(moved)) ==> {
                &&& shown matches Some((subject, rect)) && subject == DragSubject::Group(id)
                    && rect.x + held.grab.0 == away.0 && rect.y + held.grab.1 == away.1
                &&& r matches Release::Drop(subject, rect) && subject == DragSubject::Group(id)
                    && rect.x + held.grab.0 == cursor.0 && rect.y + held.grab.1 == cursor.1
                &&& final(later).drag is None
            },
{
}

/// Only the primary button starts or ends a gesture.
pub proof fn other_buttons_do_nothing(
    button: u32,
    id: u32,
    index: usize,
    panel: DockPanel,
    root: (i32, i32),
    held: Held,
    side: DockSide,
    size: i32,
    over: bool,
)
    requires
        button != 1,
    ensures
        forall|g: &mut Gestures, p: Propagation| #[trigger]
            call_ensures(Gestures::tab_press, (g, button, id, index, panel, root, held), p)
                ==> *final(g) == *g && p == Propagation::Proceed,
        forall|g: &mut Gestures, p: Propagation| #[trigger]
            call_ensures(Gestures::caption_press, (g, button, id, root, Some(held)), p)
                ==> *final(g) == *g && p == Propagation::Proceed,
        forall|g: &mut Gestures, p: Propagation| #[trigger]
            call_ensures(Gestures::splitter_press, (g, button, side, root, size), p) ==> *final(g)
                == *g && p == Propagation::Proceed,
        forall|g: &mut Gestures, r: Release| #[trigger]
            call_ensures(Gestures::drag_release, (g, button, root, over), r) ==> *final(g) == *g && r
                == Release::NotOurs,
        forall|g: &mut Gestures, r: Option<bool>| #[trigger]
            call_ensures(Gestures::splitter_release, (g, button), r) ==> *final(g) == *g && r is None,
{
}

/// After Escape the release of a drag does nothing, whatever it was about, and
/// a splitter that was being dragged gives its band the size it had back.
pub proof fn escape_takes_it_all_back(
    effect: EscapeEffect,
    cursor: (i32, i32),
    over: bool,
    r: Release,
)
    ensures
        forall|g: &mut Gestures, later: &mut Gestures|
            (#[trigger] call_ensures(Gestures::key_press, (g, true), effect)
                && #[trigger] call_ensures(Gestures::drag_release, (later, 1, cursor, over), r)
                && *later == *final(g)) ==> {
                &&& r == Release::Nothing
                &&& effect.hide_hint <==> g.drag is Some
                &&& effect.restore is Some <==> g.splitter is Some
                &&& g.splitter matches Some(s) ==> effect.restore == Some((s.side, s.size_at_start))
                &&& final(g).splitter is None
            },
        forall|g: &mut Gestures| #[trigger]
            call_ensures(Gestures::key_press, (g, false), effect) ==> *final(g) == *g
                && !effect.hide_hint && effect.restore is None,
{
}

/// A splitter that is dragged proposes the size its band had at the press and
/// the travel since, for the side that was pressed; the release of its button
/// ends it.
pub proof fn a_splitter_follows_from_its_press(
    side: DockSide,
    root: (i32, i32),
    size: i32,
    p: Propagation,
    cursor: (i32, i32),
    proposal: Option<(DockSide, i32)>,
    r: Option<bool>,
)
    requires
        i32::MIN <= cursor.0 - root.0 <= i32::MAX,
        i32::MIN <= cursor.1 - root.1 <= i32::MAX,
        i32::MIN <= size + (cursor.0 - root.0) <= i32::MAX,
        i32::MIN <= size - (cursor.0 - root.0) <= i32::MAX,
        i32::MIN <= size + (cursor.1 - root.1) <= i32::MAX,
        i32::MIN <= size - (cursor.1 - root.1) <= i32::MAX,
    ensures
        forall|g: &mut Gestures, later: &mut Gestures|
            (#[trigger] call_ensures(Gestures::splitter_press, (g, 1, side, root, size), p)
                && #[trigger] call_ensures(Gestures::splitter_release, (later, 1), r) && *later
                == *final(g) && call_ensures(Gestures::splitter_proposal, (later, cursor), proposal)) ==> {
                &&& p == Propagation::Stop
                &&& proposal matches Some((on, wanted)) && on == side && match side {
                    DockSide::Left => wanted - size == cursor.0 - root.0,
                    DockSide::Right => size - wanted == cursor.0 - root.0,
                    DockSide::Top => wanted - size == cursor.1 - root.1,
                    DockSide::Bottom => size - wanted == cursor.1 - root.1,
                }
                &&& r == Some(true)
                &&& final(later).splitter is None
                &&& final(later).drag == g.drag
            },
{
}

/// What settles is what the first band of a side came out at, across its
/// splitter: its width at the left or right, its height at the top or bottom.
pub proof fn a_size_settles_at_its_band(
    bands: Vec<Band>,
    side: DockSide,
    current: i32,
    k: int,
    size: i32,
)
    requires
        0 <= k < bands@.len(),
        bands@[k].side == side,
        forall|j: int| 0 <= j < k ==> (#[trigger] bands@[j]).side != side,
        call_ensures(settled_size, (&bands, side, current), Some(size)),
    ensures
        size != current,
        side == DockSide::Left || side == DockSide::Right ==> size == bands@[k].rect.w,
        side == DockSide::Top || side == DockSide::Bottom ==> size == bands@[k].rect.h,
{
    let i = choose|i: int| #[trigger]
        first_band(bands@, side, i) && size == band_extent(bands@[i]);
    if i < k {
        assert(bands@[i].side != side);
    } else if k < i {
        assert(bands@[k].side != side);
    }
}

/// Every group that is on screen can be dropped on, with its own rectangle, and
/// no other; the floating ones come first, and among themselves groups keep
/// their order.
pub proof fn every_group_on_screen_takes_drops(groups: Seq<LiveGroup>, more: Seq<LiveGroup>, g: LiveGroup)
    ensures
        on_screen(groups + more, true) == on_screen(groups, true) + on_screen(more, true),
        on_screen(groups + more, false) == on_screen(groups, false) + on_screen(more, false),
        g.rect is None ==> on_screen(seq![g], true).len() == 0 && on_screen(seq![g], false).len()
            == 0,
        g.rect matches Some(rect) ==> {
            &&& on_screen(seq![g], g.floating) == seq![(g.id, rect)]
            &&& on_screen(seq![g], !g.floating).len() == 0
        },
    decreases more.len(),
{
    reveal_with_fuel(on_screen, 2);
    assert(seq![g].drop_last() =~= Seq::<LiveGroup>::empty());
    if more.len() == 0 {
        assert(groups + more =~= groups);
        assert(on_screen(groups, true) + on_screen(more, true) =~= on_screen(groups, true));
        assert(on_screen(groups, false) + on_screen(more, false) =~= on_screen(groups, false));
    } else {
        every_group_on_screen_takes_drops(groups, more.drop_last(), g);
        assert((groups + more).drop_last() =~= groups + more.drop_last());
        assert(on_screen(groups + more, true) =~= on_screen(groups, true) + on_screen(more, true));
        assert(on_screen(groups + more, false) =~= on_screen(groups, false) + on_screen(
            more,
            false,
        ));
    }
    if g.rect is Some {
        assert(on_screen(seq![g], g.floating) =~= seq![(g.id, g.rect->0)]);
    }
}

/// Floating groups lie above docked ones, so a drop meets them first.
pub proof fn floating_groups_come_first(groups: Vec<LiveGroup>, r: Vec<(u32, DockRect)>, i: int)
    requires
        call_ensures(drop_zone_groups, (&groups,), r),
        0 <= i < r@.len(),
    ensures
        r@.len() == on_screen(groups@, true).len() + on_screen(groups@, false).len(),
        i < on_screen(groups@, true).len() ==> r@[i] == on_screen(groups@, true)[i],
        i >= on_screen(groups@, true).len() ==> r@[i] == on_screen(groups@, false)[i - on_screen(
            groups@,
            true,
        ).len()],
{
}

/// A floating group is resized by a press within six pixels of its edge, with
/// the primary button; a docked group never is, and its body never either.
pub proof fn only_the_border_of_a_float_resizes(
    button: u32,
    floating: bool,
    at: (i32, i32),
    size: (i32, i32),
    r: Option<WindowEdge>,
)
    requires
        size.0 > 12,
        size.1 > 12,
        call_ensures(frame_press, (button, floating, at, size), r),
    ensures
        r is Some <==> button == 1 && floating && (at.0 < 6 || at.0 >= size.0 - 6 || at.1 < 6
            || at.1 >= size.1 - 6),
        r matches Some(edge) ==> {
            &&& (edge == WindowEdge::NorthWest || edge == WindowEdge::North || edge
                == WindowEdge::NorthEast) <==> at.1 < 6
            &&& (edge == WindowEdge::SouthWest || edge == WindowEdge::South || edge
                == WindowEdge::SouthEast) <==> at.1 >= size.1 - 6
            &&& (edge == WindowEdge::NorthWest || edge == WindowEdge::West || edge
                == WindowEdge::SouthWest) <==> at.0 < 6
            &&& (edge == WindowEdge::NorthEast || edge == WindowEdge::East || edge
                == WindowEdge::SouthEast) <==> at.0 >= size.0 - 6
        },
{
}

/// A floating group is held where it was pressed and keeps its size, unless
/// that is too small; a panel torn off by its tab is held in the middle of its
/// caption.
pub proof fn what_is_held_where(
    root: (i32, i32),
    outer: DockRect,
    least: (i32, i32),
    h: Held,
    size: (i32, i32),
    torn: Held,
)
    requires
        size.0 >= 0,
        call_ensures(held_where_pressed, (root, outer, least), h),
        call_ensures(held_mid_caption, (size,), torn),
    ensures
        outer.x + h.grab.0 == root.0,
        outer.y + h.grab.1 == root.1,
        outer.w >= least.0 ==> h.float_size.0 == outer.w,
        outer.w < least.0 ==> h.float_size.0 == least.0,
        outer.h >= least.1 ==> h.float_size.1 == outer.h,
        outer.h < least.1 ==> h.float_size.1 == least.1,
        torn.float_size == size,
        torn.grab.1 == 11,
        2 * torn.grab.0 == size.0 || 2 * torn.grab.0 + 1 == size.0,
{
}

/// A grab that is taken away ends every gesture, and says whether a splitter
/// was being dragged.
pub proof fn a_broken_grab_ends_it_all(live: bool)
    ensures
        forall|g: &mut Gestures| #[trigger]
            call_ensures(Gestures::grab_broken, (g,), live) ==> {
                &&& final(g).drag is None
                &&& final(g).splitter is None
                &&& live <==> g.splitter is Some
            },
{
}

/// What is shown or dropped can be represented exactly if its corner can be:
/// as far from the pointer as the grab says. Nothing is shown of a gesture that
/// was cancelled or has not travelled, and nothing is dropped of one with
/// another button.
pub proof fn a_corner_has_to_fit(d: Drag, button: u32, cursor: (i32, i32), splitter: Option<SplitterDrag>)
    ensures
        ({
            let fits = i32::MIN <= cursor.0 - d.held.grab.0 <= i32::MAX && i32::MIN <= cursor.1
                - d.held.grab.1 <= i32::MAX;
            let far = cursor.0 >= d.start.0 + 4 || cursor.0 <= d.start.0 - 4 || cursor.1
                >= d.start.1 + 4 || cursor.1 <= d.start.1 - 4;
            &&& motion_fits_spec(Some(d), cursor) <==> fits || d.cancelled || (!d.started && !far)
            &&& release_fits_spec(Some(d), button, cursor) <==> fits || button != 1 || d.cancelled
                || !d.started
        }),
        motion_fits_spec(None, cursor),
        release_fits_spec(None, button, cursor),
{
}

/// A motion makes a drag of a press that has travelled, and changes nothing
/// else: not of a drag, not of a press that has not travelled, and not of a
/// gesture that was cancelled.
pub proof fn a_motion_only_starts_a_drag(d: Drag, cursor: (i32, i32))
    ensures
        ({
            let next = after_motion(d, cursor);
            let far = cursor.0 >= d.start.0 + 4 || cursor.0 <= d.start.0 - 4 || cursor.1
                >= d.start.1 + 4 || cursor.1 <= d.start.1 - 4;
            let starts = far && !d.started && !d.cancelled;
            &&& next.started <==> d.started || starts
            &&& starts ==> next.armed_tab is None
            &&& !starts ==> next.armed_tab == d.armed_tab
            &&& next.subject == d.subject
            &&& next.group_id == d.group_id
            &&& next.start == d.start
            &&& next.held == d.held
            &&& next.cancelled == d.cancelled
        }),
{
}

/// The first band of a side is a band of that side with none of it before.
pub proof fn the_first_band_is_one_of_its_side(bands: Seq<Band>, side: DockSide, i: int)
    ensures
        first_band(bands, side, i) <==> 0 <= i && i < bands.len() && bands[i].side == side
            && forall|j: int| 0 <= j < i ==> (#[trigger] bands[j]).side != side,
{
}

} // verus!
