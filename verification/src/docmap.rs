//! The Document Map: a miniature of the active buffer with a box around what
//! the main editor shows.
//!
//! Lines are counted as the editor counts them; a visible line is one that is
//! not folded away.
use vstd::prelude::*;
use crate::dock_geometry::{max_i32, max_of, quotient};
use crate::platform::{at_least_zero, fits_isize};

verus! {

/// Width that the map first opens at.
pub const DEFAULT_WIDTH_PX: i32 = 160;

/// Width below which the map is of no use.
pub const MIN_WIDTH_PX: i32 = 80;

/// Zoom of the miniature's text.
pub const MINIATURE_ZOOM: isize = -10;

/// Lines that the main editor scrolls by for one notch of the wheel.
pub const WHEEL_LINES: isize = 3;

/// The map's column: whether it shows, the width to give it when it does, and
/// a width that waits for the splitter to be laid out.
#[derive(Clone, Copy, PartialEq, Eq, Structural, Debug)]
pub struct DocMapPanel {
    pub visible: bool,
    pub width: i32,
    pub pending_map_width: Option<i32>,
}

/// The width of a map that is laid out at `live`: that, while it shows and has
/// one, else the remembered one.
pub open spec fn width_now(p: DocMapPanel, live: i32) -> i32 {
    if p.visible && live > 0 {
        live
    } else {
        p.width
    }
}

/// The column after it was shown or hidden while laid out at `live`.
pub open spec fn after_set_shown(p: DocMapPanel, visible: bool, live: i32) -> DocMapPanel {
    if visible {
        DocMapPanel {
            visible: true,
            width: p.width,
            pending_map_width: Some(max_of(p.width as int, MIN_WIDTH_PX as int) as i32),
        }
    } else {
        DocMapPanel {
            visible: false,
            width: width_now(p, live),
            pending_map_width: p.pending_map_width,
        }
    }
}

/// The splitter's position that gives the right-hand column this width.
pub open spec fn position_for(total: int, width: int) -> int {
    max_of(total - max_of(width, MIN_WIDTH_PX as int), 0)
}

impl DocMapPanel {
    /// A hidden column of the first width.
    pub fn build() -> (p: DocMapPanel)
        ensures
            p == (DocMapPanel { visible: false, width: DEFAULT_WIDTH_PX, pending_map_width: None }),
    {
        DocMapPanel { visible: false, width: DEFAULT_WIDTH_PX, pending_map_width: None }
    }

    /// The width to save, for a column laid out at `live`.
    pub fn current_width(&self, live: i32) -> (w: i32)
        ensures
            w == width_now(*self, live),
    {
        if self.visible && live > 0 {
            live
        } else {
            self.width
        }
    }

    /// Show or hide the column, laid out at `live` now. Hiding remembers the
    /// width; showing asks for it at the next layout.
    pub fn set_shown(&mut self, visible: bool, live: i32)
        ensures
            *final(self) == after_set_shown(*old(self), visible, live),
    {
        if visible {
            self.pending_map_width = Some(max_i32(self.width, MIN_WIDTH_PX));
        } else {
            self.width = self.current_width(live);
        }
        self.visible = visible;
    }

    /// The splitter was laid out over `total` pixels. The result is the
    /// position that a waiting width asks for, if there is one and the
    /// splitter is not there already. A width waits for one layout only, so
    /// what the user does afterwards stays.
    pub fn size_allocated(&mut self, total: i32, position: i32) -> (r: Option<i32>)
        requires
            old(self).pending_map_width matches Some(w) ==> total - max_of(w as int, MIN_WIDTH_PX as int)
                >= i32::MIN,
        ensures
            final(self).visible == old(self).visible,
            final(self).width == old(self).width,
            final(self).pending_map_width is None,
            match old(self).pending_map_width {
                Some(w) => r == if position_for(total as int, w as int) == position {
                    None
                } else {
                    Some(position_for(total as int, w as int) as i32)
                },
                None => r is None,
            },
    {
        match self.pending_map_width {
            Some(target) => {
                let pos: i32 = max_i32(total - max_i32(target, MIN_WIDTH_PX), 0);
                self.pending_map_width = None;
                if pos != position {
                    Some(pos)
                } else {
                    None
                }
            },
            None => None,
        }
    }

    /// Take a saved width, if it is wide enough to be of use.
    pub fn apply_saved_width(&mut self, width: Option<i32>)
        ensures
            final(self).visible == old(self).visible,
            final(self).pending_map_width == old(self).pending_map_width,
            final(self).width == match width {
                Some(w) if w >= MIN_WIDTH_PX => w,
                _ => old(self).width,
            },
    {
        if let Some(w) = width {
            if w >= MIN_WIDTH_PX {
                self.width = w;
            }
        }
    }

    /// What to do with the miniature for the document of the active tab, with
    /// `bound` in the miniature now: nothing while the map is hidden or the
    /// tab has no document; else `true` if the document has to be bound
    /// first.
    pub fn sync_to_active_tab(&self, doc: isize, bound: isize) -> (r: Option<bool>)
        ensures
            r == if !self.visible || doc == 0 {
                None
            } else {
                Some(doc != bound)
            },
    {
        if !self.visible || doc == 0 {
            None
        } else {
            Some(doc != bound)
        }
    }
}

/// The map comes back at the width it was hidden at, if that was a useful one:
/// hiding and showing again asks for the width it had.
pub proof fn the_width_survives_hiding(p: DocMapPanel, live: i32, total: i32)
    requires
        p.visible,
        live >= MIN_WIDTH_PX,
        total >= live,
    ensures
        ({
            let shown = after_set_shown(after_set_shown(p, false, live), true, 0);
            &&& shown.visible
            &&& shown.pending_map_width == Some(live)
            &&& total - position_for(total as int, live as int) == live
        }),
{
}

/// Hiding a hidden map changes nothing.
pub proof fn hiding_twice_is_hiding_once(p: DocMapPanel, live: i32, later: i32)
    ensures
        after_set_shown(after_set_shown(p, false, live), false, later) == after_set_shown(
            p,
            false,
            live,
        ),
{
}

/// The visible lines that the main editor shows, as a first line and the one
/// after the last; `None` for an empty buffer or an editor that has not been
/// laid out.
pub fn visible_window(
    first_visible: isize,
    lines_on_screen: isize,
    line_count: isize,
) -> (r: Option<(isize, isize)>)
    requires
        first_visible >= 0 && lines_on_screen > 0 ==> fits_isize(first_visible + lines_on_screen),
    ensures
        r == if first_visible < 0 || lines_on_screen <= 0 || line_count <= 0 {
            None
        } else {
            Some((first_visible, (first_visible + lines_on_screen) as isize))
        },
{
    if first_visible < 0 || lines_on_screen <= 0 || line_count <= 0 {
        return None;
    }
    Some((first_visible, first_visible + lines_on_screen))
}

/// The document lines that the box goes round, of which the second is the one
/// after the last: the lines that the two visible lines stand for, within the
/// document. `None` if there is none.
pub fn visible_doc_range(first_doc: isize, last_doc: isize, line_count: isize) -> (r: Option<
    (isize, isize),
>)
    ensures
        ({
            let last = if last_doc < line_count {
                last_doc
            } else {
                line_count
            };
            r == if first_doc < 0 || last <= first_doc {
                None
            } else {
                Some((first_doc, last))
            }
        }),
        r matches Some((first, last)) ==> 0 <= first < last <= line_count,
{
    let last: isize = if last_doc < line_count {
        last_doc
    } else {
        line_count
    };
    if first_doc < 0 || last <= first_doc {
        None
    } else {
        Some((first_doc, last))
    }
}

/// `n / d` rounded towards zero.
pub fn quotient_isize(n: isize, d: isize) -> (r: isize)
    requires
        d > 0,
    ensures
        r == quotient(n as int, d as int),
{
    if n >= 0 {
        let q: usize = (n as usize) / (d as usize);
        proof {
            let m = n as int;
            let k = d as int;
            assert(0 <= m / k <= m) by (nonlinear_arith)
                requires
                    m >= 0,
                    k >= 1,
            ;
        }
        q as isize
    } else {
        let away: i128 = -(n as i128) / (d as i128);
        proof {
            let m = -(n as int);
            let k = d as int;
            assert(0 <= m / k <= m) by (nonlinear_arith)
                requires
                    m >= 0,
                    k >= 1,
            ;
        }
        (-away) as isize
    }
}

/// The miniature's first line that puts the middle of `first..last` in the
/// middle of its `map_lines` lines.
pub open spec fn centred_first(first: int, last: int, map_lines: int) -> int {
    at_least_zero(first + (last - first) / 2 - quotient(map_lines, 2))
}

/// How far to scroll the miniature so that the box is in its middle; `None` if
/// it is there.
pub fn centre_box(
    first: isize,
    last: isize,
    map_lines: isize,
    map_first: isize,
) -> (r: Option<isize>)
    requires
        0 <= first < last,
        fits_isize(first + (last - first) / 2 - quotient(map_lines as int, 2)),
        fits_isize(
            centred_first(first as int, last as int, map_lines as int) - map_first,
        ),
    ensures
        r == if centred_first(first as int, last as int, map_lines as int) == map_first {
            None
        } else {
            Some(
                (centred_first(first as int, last as int, map_lines as int) - map_first) as isize,
            )
        },
{
    let middle: isize = first + quotient_isize(last - first, 2);
    let target: isize = middle - quotient_isize(map_lines, 2);
    let target_first: isize = if target < 0 {
        0
    } else {
        target
    };
    let delta: isize = target_first - map_first;
    if delta != 0 {
        Some(delta)
    } else {
        None
    }
}

/// The positions between which the box goes, if the miniature knows both.
pub fn overlay_positions(first_pos: isize, last_pos: isize) -> (r: Option<(usize, usize)>)
    ensures
        r == if first_pos < 0 || last_pos < 0 {
            None
        } else {
            Some((first_pos as usize, last_pos as usize))
        },
{
    if first_pos < 0 || last_pos < 0 {
        None
    } else {
        Some((first_pos as usize, last_pos as usize))
    }
}

/// The box: its top edge and its height.
pub open spec fn box_spec(top: int, bottom: int, text_height: int, width: int) -> Option<(int, int)> {
    let height = if bottom <= top {
        text_height
    } else {
        bottom - top
    };
    if height <= 0 || width <= 0 {
        None
    } else {
        Some((top, height))
    }
}

/// The box to paint, between the top of the first line and the bottom of the
/// last, or one line high where they coincide. `None` if there is nothing to
/// paint.
pub fn overlay_box(
    top: isize,
    bottom: isize,
    text_height: isize,
    width: i32,
) -> (r: Option<(isize, isize)>)
    requires
        fits_isize(top + text_height),
        fits_isize(bottom - top),
    ensures
        match r {
            Some((y, h)) => box_spec(top as int, bottom as int, text_height as int, width as int)
                == Some((y as int, h as int)),
            None => box_spec(top as int, bottom as int, text_height as int, width as int) is None,
        },
{
    let height: isize = if bottom <= top {
        text_height
    } else {
        bottom - top
    };
    if height <= 0 || width <= 0 {
        None
    } else {
        Some((top, height))
    }
}

/// The visible line of the miniature at `y` pixels from its top, for rows of
/// this height and this line at the top; never before the first.
pub fn line_at(map_first: isize, y: isize, text_height: isize) -> (line: isize)
    requires
        fits_isize(map_first + quotient(y as int, max_of(text_height as int, 1))),
    ensures
        line == at_least_zero(map_first + quotient(y as int, max_of(text_height as int, 1))),
{
    let row: isize = if text_height < 1 {
        1
    } else {
        text_height
    };
    let at: isize = map_first + quotient_isize(y, row);
    if at < 0 {
        0
    } else {
        at
    }
}

/// How far to scroll the main editor so that the visible line `target` is in
/// the middle of its lines; `None` if it is there.
pub fn scroll_to_line(target: isize, main_lines: isize, main_first: isize) -> (r: Option<isize>)
    requires
        fits_isize(target - quotient(main_lines as int, 2)),
        fits_isize(at_least_zero(target - quotient(main_lines as int, 2)) - main_first),
    ensures
        r == if at_least_zero(target - quotient(main_lines as int, 2)) == main_first {
            None
        } else {
            Some((at_least_zero(target - quotient(main_lines as int, 2)) - main_first) as isize)
        },
{
    let desired: isize = target - quotient_isize(main_lines, 2);
    let first: isize = if desired < 0 {
        0
    } else {
        desired
    };
    let delta: isize = first - main_first;
    if delta != 0 {
        Some(delta)
    } else {
        None
    }
}

/// A turn of the wheel. A smooth one comes with its lines worked out.
#[derive(Clone, Copy, PartialEq, Eq, Structural, Debug)]
pub enum Wheel {
    Up,
    Down,
    Smooth(isize),
    Other,
}

/// The lines that a turn of the wheel scrolls the main editor by; `None` if it
/// does not.
pub fn wheel_lines(w: Wheel) -> (r: Option<isize>)
    ensures
        r == match w {
            Wheel::Up => Some((-WHEEL_LINES) as isize),
            Wheel::Down => Some(WHEEL_LINES),
            Wheel::Smooth(n) => if n == 0 {
                None
            } else {
                Some(n)
            },
            Wheel::Other => None,
        },
{
    match w {
        Wheel::Up => Some(-WHEEL_LINES),
        Wheel::Down => Some(WHEEL_LINES),
        Wheel::Smooth(n) => if n == 0 {
            None
        } else {
            Some(n)
        },
        Wheel::Other => None,
    }
}

/// The map's measures.
pub proof fn the_measures_of_the_map()
    ensures
        DEFAULT_WIDTH_PX == 160,
        MIN_WIDTH_PX == 80,
        MINIATURE_ZOOM == -10,
        WHEEL_LINES == 3,
{
}

/// A map that shows has the width it is laid out at; any other has the width
/// that was remembered. To hide it remembers that width, and to show it asks
/// for the one remembered, or for eighty pixels if that is less.
pub proof fn the_map_remembers_its_width(p: DocMapPanel, live: i32)
    ensures
        p.visible && live > 0 ==> width_now(p, live) == live,
        !p.visible || live <= 0 ==> width_now(p, live) == p.width,
        !after_set_shown(p, false, live).visible,
        p.visible && live > 0 ==> after_set_shown(p, false, live).width == live,
        !p.visible || live <= 0 ==> after_set_shown(p, false, live).width == p.width,
        after_set_shown(p, false, live).pending_map_width == p.pending_map_width,
        after_set_shown(p, true, live).visible,
        after_set_shown(p, true, live).width == p.width,
        p.width >= 80 ==> after_set_shown(p, true, live).pending_map_width == Some(p.width),
        p.width < 80 ==> after_set_shown(p, true, live).pending_map_width == Some(80i32),
{
}

/// The splitter leaves the map the width it asks for, at least eighty pixels
/// of it, and never goes beyond the left edge.
pub proof fn the_splitter_leaves_the_map_its_width(total: int, width: int)
    ensures
        total >= width && width >= 80 ==> total - position_for(total, width) == width,
        total >= 80 && width < 80 ==> total - position_for(total, width) == 80,
        total < width && width >= 80 ==> position_for(total, width) == 0,
        total < 80 ==> position_for(total, width) == 0,
        position_for(total, width) >= 0,
{
}

/// A width that waits is given out at the next layout, once, unless the
/// splitter is there already.
pub proof fn a_width_waits_for_one_layout(total: i32, position: i32, first: Option<i32>, second: Option<i32>)
    ensures
        forall|p: &mut DocMapPanel, q: &mut DocMapPanel|
            (#[trigger] call_ensures(DocMapPanel::size_allocated, (p, total, position), first)
                && #[trigger] call_ensures(DocMapPanel::size_allocated, (q, total, position), second)
                && *q == *final(p)) ==> {
                &&& second is None
                &&& p.pending_map_width is None ==> first is None
                &&& p.pending_map_width matches Some(w) ==> w >= 80 && total >= w ==> {
                    &&& first is None <==> position == total - w
                    &&& first matches Some(at) ==> at == total - w
                }
                &&& final(q).width == p.width
                &&& final(q).visible == p.visible
            },
{
}

/// A saved width is taken exactly if it is at least eighty pixels.
pub proof fn a_useful_width_is_taken(w: i32)
    ensures
        forall|p: &mut DocMapPanel| #[trigger]
            call_ensures(DocMapPanel::apply_saved_width, (p, Some(w)), ()) ==> {
                &&& w >= 80 ==> final(p).width == w
                &&& w < 80 ==> final(p).width == p.width
            },
        forall|p: &mut DocMapPanel| #[trigger]
            call_ensures(DocMapPanel::apply_saved_width, (p, None), ()) ==> final(p).width == p.width,
{
}

/// The box goes round the lines that the main editor shows: from the first of
/// them, as many as there are on screen, and none beyond the document.
pub proof fn the_box_is_what_the_editor_shows(
    first_visible: isize,
    lines_on_screen: isize,
    line_count: isize,
    window: Option<(isize, isize)>,
    last_doc: isize,
    range: Option<(isize, isize)>,
)
    requires
        isize::MIN <= first_visible + lines_on_screen <= isize::MAX,
        call_ensures(visible_window, (first_visible, lines_on_screen, line_count), window),
        call_ensures(visible_doc_range, (first_visible, last_doc, line_count), range),
    ensures
        window is Some <==> first_visible >= 0 && lines_on_screen > 0 && line_count > 0,
        window matches Some((from, to)) ==> from == first_visible && to - from == lines_on_screen,
        range is Some <==> 0 <= first_visible && first_visible < last_doc && first_visible
            < line_count,
        range matches Some((from, to)) ==> from == first_visible && to <= last_doc && to
            <= line_count && (to == last_doc || to == line_count),
{
}

/// To centre the box takes the miniature's first line to where the middle of
/// the box and that of the miniature meet, or to the first line of all.
pub proof fn the_box_is_centred(first: int, last: int, map_lines: int)
    requires
        0 <= first < last,
        map_lines >= 0,
    ensures
        ({
            let middle = first + (last - first) / 2;
            &&& middle >= map_lines / 2 ==> centred_first(first, last, map_lines) + map_lines / 2
                == middle
            &&& middle < map_lines / 2 ==> centred_first(first, last, map_lines) == 0
        }),
{
}

/// The miniature and the main editor are scrolled by what they are off, and not
/// at all if they are off by nothing.
pub proof fn what_is_off_is_scrolled(
    first: isize,
    last: isize,
    map_lines: isize,
    map_first: isize,
    scrolled: Option<isize>,
    target: isize,
    main_lines: isize,
    main_first: isize,
    moved: Option<isize>,
)
    requires
        0 <= first < last,
        map_lines >= 0,
        map_first >= 0,
        target >= 0,
        main_lines >= 0,
        main_first >= 0,
        call_ensures(centre_box, (first, last, map_lines, map_first), scrolled),
        call_ensures(scroll_to_line, (target, main_lines, main_first), moved),
    ensures
        ({
            let middle = first + (last - first) / 2;
            let by = if scrolled is Some {
                scrolled->0 as int
            } else {
                0
            };
            &&& middle >= map_lines as int / 2 ==> map_first + by + map_lines as int / 2 == middle
            &&& middle < map_lines as int / 2 ==> map_first + by == 0
            &&& scrolled matches Some(n) ==> n != 0
        }),
        ({
            let by = if moved is Some {
                moved->0 as int
            } else {
                0
            };
            &&& target >= main_lines as int / 2 ==> main_first + by + main_lines as int / 2 == target
            &&& target < main_lines as int / 2 ==> main_first + by == 0
            &&& moved matches Some(n) ==> n != 0
        }),
{
    let a = map_lines as int / 2;
    let b = main_lines as int / 2;
    assert(0 <= a <= map_lines && 0 <= b <= main_lines);
    assert(0 <= (last - first) / 2 <= last - first);
}

/// The box goes from the top of its first line to the bottom of its last, or is
/// one line high where these coincide; there is none without height or width.
pub proof fn the_box_spans_its_lines(top: int, bottom: int, text_height: int, width: int)
    ensures
        width > 0 && bottom > top ==> box_spec(top, bottom, text_height, width) == Some(
            (top, bottom - top),
        ),
        width > 0 && bottom <= top && text_height > 0 ==> box_spec(top, bottom, text_height, width)
            == Some((top, text_height)),
        width <= 0 || (bottom <= top && text_height <= 0) ==> box_spec(
            top,
            bottom,
            text_height,
            width,
        ) is None,
{
}

/// A click on the miniature meets the row under it: so many rows below its
/// first line as fit above the click.
pub proof fn a_click_meets_the_row_under_it(map_first: isize, y: isize, text_height: isize, line: isize)
    requires
        map_first >= 0,
        y >= 0,
        text_height >= 1,
        call_ensures(line_at, (map_first, y, text_height), line),
    ensures
        (line - map_first) * text_height <= y < (line - map_first + 1) * text_height,
{
    let a = y as int;
    let b = text_height as int;
    let q = a / b;
    assert(q * b <= a < (q + 1) * b) by (nonlinear_arith)
        requires
            b >= 1,
            a >= 0,
            q == a / b,
    ;
    assert(q >= 0) by (nonlinear_arith)
        requires
            b >= 1,
            a >= 0,
            q == a / b,
    ;
    assert(quotient(a, b) == q);
    assert(line == map_first + q);
}

/// A notch of the wheel scrolls three lines, up or down as it is turned, and a
/// smooth turn as many lines as it comes with.
pub proof fn a_notch_is_three_lines(
    n: isize,
    up: Option<isize>,
    down: Option<isize>,
    smooth: Option<isize>,
    other: Option<isize>,
)
    requires
        call_ensures(wheel_lines, (Wheel::Up,), up),
        call_ensures(wheel_lines, (Wheel::Down,), down),
        call_ensures(wheel_lines, (Wheel::Smooth(n),), smooth),
        call_ensures(wheel_lines, (Wheel::Other,), other),
    ensures
        up == Some(-3isize),
        down == Some(3isize),
        n != 0 ==> smooth == Some(n),
        n == 0 ==> smooth is None,
        other is None,
{
}

/// The miniature is bound exactly if the map shows, the tab has a document, and
/// that is not the one bound.
pub proof fn the_map_follows_the_active_tab(p: DocMapPanel, doc: isize, bound: isize, r: Option<bool>)
    requires
        call_ensures(DocMapPanel::sync_to_active_tab, (&p, doc, bound), r),
    ensures
        r is Some <==> p.visible && doc != 0,
        r == Some(true) <==> p.visible && doc != 0 && doc != bound,
{
}

/// The box goes between two places of the miniature exactly if it knows both.
pub proof fn the_box_needs_both_places(first: isize, last: isize, r: Option<(usize, usize)>)
    requires
        call_ensures(overlay_positions, (first, last), r),
    ensures
        r is Some <==> first >= 0 && last >= 0,
        r matches Some((from, to)) ==> from == first && to == last,
{
}

} // verus!
