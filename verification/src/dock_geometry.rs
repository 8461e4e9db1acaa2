//! Rectangles and sizes of the dock: sides, splitter drags, tear-off sizes
//! and the resize border of a floating group.
use vstd::prelude::*;

verus! {

/// Height of a group's caption bar.
pub const DOCK_CAPTION_H: i32 = 22;

/// Height of the tab bar at the bottom of a group.
pub const DOCK_TAB_BAR_H: i32 = 26;

/// Pixels of pointer travel before a press becomes a drag.
pub const DOCK_DRAG_THRESHOLD: i32 = 4;

/// Width of the resize border around a floating group.
pub const FLOAT_RESIZE_BORDER: i32 = 6;

/// Smallest editor cell that the bands leave.
pub const MIN_EDITOR_W: i32 = 200;

pub const MIN_EDITOR_H: i32 = 60;

/// A side of the dock area.
#[derive(Clone, Copy, PartialEq, Eq, Structural, Debug)]
pub enum DockSide {
    Left,
    Right,
    Top,
    Bottom,
}

/// A panel that the dock can host. A plugin's panel is known by its number.
#[derive(Clone, Copy, PartialEq, Eq, Structural, Debug)]
pub enum DockPanel {
    Workspace,
    DocMap,
    Plugin(u32),
}

/// A rectangle: its corner and its size.
#[derive(Clone, Copy, PartialEq, Eq, Structural, Debug)]
pub struct DockRect {
    pub x: i32,
    pub y: i32,
    pub w: i32,
    pub h: i32,
}

/// Where a group stands.
#[derive(Clone, Copy, PartialEq, Eq, Structural, Debug)]
pub enum DockLocation {
    Side(DockSide),
    Floating(DockRect),
}

/// The edge or corner that a resize takes hold of.
#[derive(Clone, Copy, PartialEq, Eq, Structural, Debug)]
pub enum WindowEdge {
    NorthWest,
    North,
    NorthEast,
    West,
    East,
    SouthWest,
    South,
    SouthEast,
}

/// A window's saved place; fields that were never saved are absent.
#[derive(Clone, Copy, PartialEq, Eq, Structural, Debug)]
pub struct WindowGeometry {
    pub width: Option<i32>,
    pub height: Option<i32>,
    pub x: Option<i32>,
    pub y: Option<i32>,
    pub maximized: bool,
}

/// The larger of two integers.
pub open spec fn max_of(a: int, b: int) -> int {
    if a >= b {
        a
    } else {
        b
    }
}

/// The larger of two integers.
pub fn max_i32(a: i32, b: i32) -> (r: i32)
    ensures
        r == max_of(a as int, b as int),
{
    if a >= b {
        a
    } else {
        b
    }
}

/// `a / b` rounded towards zero, for a positive `b`.
pub open spec fn quotient(a: int, b: int) -> int {
    if a >= 0 {
        a / b
    } else {
        -((-a) / b)
    }
}

/// Position of a side in arrays that hold one entry per side.
pub open spec fn side_position(side: DockSide) -> int {
    match side {
        DockSide::Left => 0,
        DockSide::Right => 1,
        DockSide::Top => 2,
        DockSide::Bottom => 3,
    }
}

/// The side at a position.
pub open spec fn side_at(i: int) -> DockSide {
    if i == 0 {
        DockSide::Left
    } else if i == 1 {
        DockSide::Right
    } else if i == 2 {
        DockSide::Top
    } else {
        DockSide::Bottom
    }
}

/// Position of `side` in arrays that hold one entry per side.
pub fn side_index(side: DockSide) -> (i: usize)
    ensures
        i == side_position(side),
        i < 4,
{
    match side {
        DockSide::Left => 0,
        DockSide::Right => 1,
        DockSide::Top => 2,
        DockSide::Bottom => 3,
    }
}

/// Every side has a position of its own, and the four positions are used up.
pub proof fn sides_and_positions_match(side: DockSide, i: int)
    requires
        0 <= i < 4,
    ensures
        side_at(side_position(side)) == side,
        side_position(side_at(i)) == i,
{
}

/// How far a pointer's travel takes a band's splitter outwards.
pub open spec fn outward(side: DockSide, dx: int, dy: int) -> int {
    match side {
        DockSide::Left => dx,
        DockSide::Right => -dx,
        DockSide::Top => dy,
        DockSide::Bottom => -dy,
    }
}

/// Whether a number can be held in 32 signed bits.
pub open spec fn fits_i32(n: int) -> bool {
    i32::MIN <= n <= i32::MAX
}

/// The band size that a splitter drag proposes: the size at the press plus
/// the pointer's travel away from the band's own edge. Travel across the
/// splitter's axis counts for nothing.
pub fn side_drag_size(side: DockSide, size_at_start: i32, delta: (i32, i32)) -> (size: i32)
    requires
        fits_i32(size_at_start + outward(side, delta.0 as int, delta.1 as int)),
    ensures
        size == size_at_start + outward(side, delta.0 as int, delta.1 as int),
{
    match side {
        DockSide::Left => size_at_start + delta.0,
        DockSide::Right => size_at_start - delta.0,
        DockSide::Top => size_at_start + delta.1,
        DockSide::Bottom => size_at_start - delta.1,
    }
}

/// Dragging a splitter out and back to where it was pressed leaves the band
/// at the size it had, and opposite sides answer a travel oppositely.
pub proof fn splitter_travel_is_reversible(side: DockSide, size: int, dx: int, dy: int)
    ensures
        size + outward(side, dx, dy) + outward(side, -dx, -dy) == size,
        outward(side, 0, 0) == 0,
        outward(DockSide::Left, dx, dy) == -outward(DockSide::Right, dx, dy),
        outward(DockSide::Top, dx, dy) == -outward(DockSide::Bottom, dx, dy),
{
}

/// The size of a window torn off from a window of size `main`: a third of
/// it each way, and no less than `least`.
pub open spec fn tear_off_extent(main: int, least: int) -> int {
    max_of(quotient(main, 3), least)
}

/// The size at which a torn-off panel or group opens.
pub fn tear_off_size(main: (i32, i32), least: (i32, i32)) -> (size: (i32, i32))
    ensures
        size.0 == tear_off_extent(main.0 as int, least.0 as int),
        size.1 == tear_off_extent(main.1 as int, least.1 as int),
{
    (max_i32(quotient_i32(main.0, 3), least.0), max_i32(quotient_i32(main.1, 3), least.1))
}

/// `n / d` rounded towards zero.
pub fn quotient_i32(n: i32, d: i32) -> (r: i32)
    requires
        d > 0,
    ensures
        r == quotient(n as int, d as int),
{
    if n >= 0 {
        n / d
    } else {
        let away: i64 = -(n as i64) / (d as i64);
        proof {
            let m = -(n as int);
            let k = d as int;
            assert(0 <= m / k <= m) by (nonlinear_arith)
                requires
                    m >= 0,
                    k >= 1,
            ;
        }
        (-away) as i32
    }
}

/// The pointer's place along a source of width `source_w`, as a numerator and
/// a divisor: the offset held between the ends, over the width held above
/// zero.
pub fn grab_fraction(cursor_dx: i32, source_w: i32) -> (r: (i32, i32))
    ensures
        r.1 == max_of(source_w as int, 1),
        r.0 == if cursor_dx < 0 {
            0
        } else if cursor_dx > r.1 {
            r.1 as int
        } else {
            cursor_dx as int
        },
        0 <= r.0 <= r.1,
{
    let over: i32 = max_i32(source_w, 1);
    let at: i32 = if cursor_dx < 0 {
        0
    } else if cursor_dx > over {
        over
    } else {
        cursor_dx
    };
    (at, over)
}

/// Where the pointer holds a torn-off window of width `new_w`, given the
/// place `scaled_x` that the fraction has along it: inside the window, and
/// halfway down the caption.
pub fn grab_at(scaled_x: i32, new_w: i32) -> (r: (i32, i32))
    ensures
        r.0 == if scaled_x < 0 {
            0
        } else if scaled_x > max_of(new_w as int, 0) {
            max_of(new_w as int, 0)
        } else {
            scaled_x as int
        },
        r.1 == DOCK_CAPTION_H / 2,
        0 <= r.0 <= max_of(new_w as int, 0),
{
    let widest: i32 = max_i32(new_w, 0);
    let x: i32 = if scaled_x < 0 {
        0
    } else if scaled_x > widest {
        widest
    } else {
        scaled_x
    };
    (x, DOCK_CAPTION_H / 2)
}

/// Which edge a press in a `w` by `h` frame takes hold of: the corners first,
/// then the sides, and none in the body.
pub open spec fn edge_of(left: bool, right: bool, top: bool, bottom: bool) -> Option<WindowEdge> {
    if top && left {
        Some(WindowEdge::NorthWest)
    } else if top && right {
        Some(WindowEdge::NorthEast)
    } else if bottom && left {
        Some(WindowEdge::SouthWest)
    } else if bottom && right {
        Some(WindowEdge::SouthEast)
    } else if left {
        Some(WindowEdge::West)
    } else if right {
        Some(WindowEdge::East)
    } else if top {
        Some(WindowEdge::North)
    } else if bottom {
        Some(WindowEdge::South)
    } else {
        None
    }
}

/// The edge that a press at `(x, y)` inside a `w` by `h` frame resizes from,
/// for a margin of `border`.
pub open spec fn resize_edge_spec(x: int, y: int, w: int, h: int, border: int) -> Option<WindowEdge> {
    edge_of(x < border, x >= w - border, y < border, y >= h - border)
}

/// The edge that a press at `(x, y)` resizes from; `None` in the body.
pub fn resize_edge(x: i32, y: i32, w: i32, h: i32, border: i32) -> (r: Option<WindowEdge>)
    requires
        fits_i32(w - border),
        fits_i32(h - border),
    ensures
        r == resize_edge_spec(x as int, y as int, w as int, h as int, border as int),
{
    let left: bool = x < border;
    let right: bool = x >= w - border;
    let top: bool = y < border;
    let bottom: bool = y >= h - border;
    match (left, right, top, bottom) {
        (true, _, true, _) => Some(WindowEdge::NorthWest),
        (_, true, true, _) => Some(WindowEdge::NorthEast),
        (true, _, _, true) => Some(WindowEdge::SouthWest),
        (_, true, _, true) => Some(WindowEdge::SouthEast),
        (true, _, _, _) => Some(WindowEdge::West),
        (_, true, _, _) => Some(WindowEdge::East),
        (_, _, true, _) => Some(WindowEdge::North),
        (_, _, _, true) => Some(WindowEdge::South),
        _ => None,
    }
}

/// A press takes hold of no edge exactly where it keeps `border` pixels from
/// all four sides, and of a corner exactly where it is near one side of each
/// axis.
pub proof fn body_and_corners(x: int, y: int, w: int, h: int, border: int)
    ensures
        resize_edge_spec(x, y, w, h, border) is None <==> (border <= x < w - border && border <= y
            < h - border),
        matches!(
            resize_edge_spec(x, y, w, h, border),
            Some(WindowEdge::NorthWest) | Some(WindowEdge::NorthEast) | Some(WindowEdge::SouthWest) | Some(
                WindowEdge::SouthEast,
            )
        ) <==> ((x < border || x >= w - border) && (y < border || y >= h - border)),
{
}

/// A saved window place as a rectangle, if every field of it was saved.
pub open spec fn geometry_rect_spec(geometry: Option<WindowGeometry>) -> Option<DockRect> {
    match geometry {
        Some(g) => match (g.x, g.y, g.width, g.height) {
            (Some(x), Some(y), Some(w), Some(h)) => Some(DockRect { x, y, w, h }),
            _ => None,
        },
        None => None,
    }
}

/// A saved window place as a rectangle, if every field of it was saved.
pub fn geometry_rect(geometry: Option<WindowGeometry>) -> (r: Option<DockRect>)
    ensures
        r == geometry_rect_spec(geometry),
{
    match geometry {
        Some(g) => match (g.x, g.y, g.width, g.height) {
            (Some(x), Some(y), Some(w), Some(h)) => Some(DockRect { x, y, w, h }),
            _ => None,
        },
        None => None,
    }
}

/// The area that restored floating groups are kept within: the window as it
/// is on screen, else as it was saved, else the primary monitor.
pub fn restore_area(
    on_screen: Option<DockRect>,
    saved: Option<WindowGeometry>,
    monitor: Option<DockRect>,
) -> (r: Option<DockRect>)
    ensures
        r == if on_screen is Some {
            on_screen
        } else if geometry_rect_spec(saved) is Some {
            geometry_rect_spec(saved)
        } else {
            monitor
        },
{
    match on_screen {
        Some(r) => Some(r),
        None => match geometry_rect(saved) {
            Some(r) => Some(r),
            None => monitor,
        },
    }
}

/// The size a child of the dock area is given: its rectangle's, and at least
/// one pixel each way.
pub fn allocated_size(r: DockRect) -> (size: (i32, i32))
    ensures
        size.0 == max_of(r.w as int, 1),
        size.1 == max_of(r.h as int, 1),
{
    (max_i32(r.w, 1), max_i32(r.h, 1))
}

/// The side whose size stands for a panel's width in older session files: the
/// one it is docked on, else the one it opens on.
pub fn legacy_side(docked: Option<DockLocation>, default_side: DockSide) -> (side: DockSide)
    ensures
        side == match docked {
            Some(DockLocation::Side(s)) => s,
            _ => default_side,
        },
{
    match docked {
        Some(DockLocation::Side(s)) => s,
        _ => default_side,
    }
}

/// The measures of the dock.
pub proof fn the_measures_of_the_dock()
    ensures
        DOCK_CAPTION_H == 22,
        DOCK_TAB_BAR_H == 26,
        DOCK_DRAG_THRESHOLD == 4,
        FLOAT_RESIZE_BORDER == 6,
        MIN_EDITOR_W == 200,
        MIN_EDITOR_H == 60,
{
}

/// The larger of two is one of them, and no smaller than either.
pub proof fn the_larger_is_one_of_the_two(a: int, b: int)
    ensures
        max_of(a, b) >= a,
        max_of(a, b) >= b,
        max_of(a, b) == a || max_of(a, b) == b,
{
}

/// A quotient loses less than one divisor, and loses it towards zero.
pub proof fn a_quotient_loses_towards_zero(a: int, b: int)
    requires
        b > 0,
    ensures
        a >= 0 ==> 0 <= a - quotient(a, b) * b < b,
        a <= 0 ==> 0 <= quotient(a, b) * b - a < b,
        quotient(-a, b) == -quotient(a, b),
{
    if a >= 0 {
        let q = a / b;
        assert(0 <= a - q * b < b) by (nonlinear_arith)
            requires
                b > 0,
                q == a / b,
        ;
        assert(quotient(a, b) == q);
    }
    if a <= 0 {
        let m = -a;
        let q = m / b;
        assert(0 <= m - q * b < b) by (nonlinear_arith)
            requires
                b > 0,
                q == m / b,
        ;
        assert((-q) * b == -(q * b)) by (nonlinear_arith);
        if a == 0 {
            assert(q == 0) by (nonlinear_arith)
                requires
                    b > 0,
                    m == 0,
                    q == m / b,
            ;
        }
        assert(quotient(a, b) == -q);
    }
}

/// A splitter follows the pointer along its own axis, away from the edge that
/// its band is on: a band on the left or at the top grows with the pointer's
/// travel, one on the right or at the bottom shrinks with it.
pub proof fn a_band_follows_the_pointer(
    side: DockSide,
    start: i32,
    delta: (i32, i32),
    size: i32,
)
    requires
        call_ensures(side_drag_size, (side, start, delta), size),
    ensures
        side == DockSide::Left ==> size - start == delta.0,
        side == DockSide::Right ==> start - size == delta.0,
        side == DockSide::Top ==> size - start == delta.1,
        side == DockSide::Bottom ==> start - size == delta.1,
{
}

/// A torn-off window is a third of the main one each way, rounded down, or as
/// large as it has to be, whichever is more.
pub proof fn a_torn_off_window_is_a_third(main: (i32, i32), least: (i32, i32), size: (i32, i32))
    requires
        main.0 >= 0,
        main.1 >= 0,
        call_ensures(tear_off_size, (main, least), size),
    ensures
        size.0 >= least.0,
        size.1 >= least.1,
        3 * size.0 + 2 >= main.0,
        3 * size.1 + 2 >= main.1,
        size.0 > least.0 ==> 3 * size.0 <= main.0,
        size.1 > least.1 ==> 3 * size.1 <= main.1,
{
}

/// The place where the pointer holds a source is the pointer's own, held
/// between its ends.
pub proof fn a_grab_is_where_the_pointer_is(cursor_dx: i32, source_w: i32, r: (i32, i32))
    requires
        call_ensures(grab_fraction, (cursor_dx, source_w), r),
    ensures
        source_w >= 1 ==> r.1 == source_w,
        source_w < 1 ==> r.1 == 1,
        0 <= r.0 <= r.1,
        0 <= cursor_dx <= r.1 ==> r.0 == cursor_dx,
        cursor_dx < 0 ==> r.0 == 0,
        cursor_dx > r.1 ==> r.0 == r.1,
{
}

/// A torn-off window is held inside its width, eleven pixels below its top.
pub proof fn a_window_is_held_by_its_caption(scaled_x: i32, new_w: i32, r: (i32, i32))
    requires
        new_w >= 0,
        call_ensures(grab_at, (scaled_x, new_w), r),
    ensures
        r.1 == 11,
        0 <= r.0 <= new_w,
        0 <= scaled_x <= new_w ==> r.0 == scaled_x,
        scaled_x < 0 ==> r.0 == 0,
        scaled_x > new_w ==> r.0 == new_w,
{
}

/// A press takes hold of the edge that it is near to, along both axes: at the
/// top or bottom, at the left or right, as its edge says, for every frame that
/// is wider and higher than its two borders.
pub proof fn an_edge_is_where_the_press_is(x: int, y: int, w: int, h: int, border: int)
    requires
        w > 2 * border,
        h > 2 * border,
    ensures
        ({
            let edge = resize_edge_spec(x, y, w, h, border);
            &&& (edge == Some(WindowEdge::NorthWest) || edge == Some(WindowEdge::North) || edge
                == Some(WindowEdge::NorthEast)) <==> y < border
            &&& (edge == Some(WindowEdge::SouthWest) || edge == Some(WindowEdge::South) || edge
                == Some(WindowEdge::SouthEast)) <==> y >= h - border
            &&& (edge == Some(WindowEdge::NorthWest) || edge == Some(WindowEdge::West) || edge
                == Some(WindowEdge::SouthWest)) <==> x < border
            &&& (edge == Some(WindowEdge::NorthEast) || edge == Some(WindowEdge::East) || edge
                == Some(WindowEdge::SouthEast)) <==> x >= w - border
        }),
{
}

/// In a frame too small for its borders a corner at the top goes before one at
/// the bottom, and one at the left before one at the right.
pub proof fn the_top_left_comes_first(x: int, y: int, w: int, h: int, border: int)
    ensures
        x < border && y < border ==> resize_edge_spec(x, y, w, h, border) == Some(
            WindowEdge::NorthWest,
        ),
        x >= border && x >= w - border && y < border ==> resize_edge_spec(x, y, w, h, border)
            == Some(WindowEdge::NorthEast),
        x < border && y >= border && y >= h - border ==> resize_edge_spec(x, y, w, h, border)
            == Some(WindowEdge::SouthWest),
        x < border && border <= y < h - border ==> resize_edge_spec(x, y, w, h, border) == Some(
            WindowEdge::West,
        ),
        y < border && border <= x < w - border ==> resize_edge_spec(x, y, w, h, border) == Some(
            WindowEdge::North,
        ),
{
}

/// A saved place is a rectangle exactly if all four of its measures were saved,
/// and then it is the one they make.
pub proof fn a_place_needs_all_its_measures(g: WindowGeometry)
    ensures
        geometry_rect_spec(None) is None,
        geometry_rect_spec(Some(g)) is Some <==> g.x is Some && g.y is Some && g.width is Some
            && g.height is Some,
        geometry_rect_spec(Some(g)) matches Some(r) ==> g.x == Some(r.x) && g.y == Some(r.y)
            && g.width == Some(r.w) && g.height == Some(r.h),
{
}

/// Restored floating groups are kept where the window is; where it was, if that
/// is not known; and on the monitor, if neither is.
pub proof fn groups_are_kept_near_the_window(
    on_screen: Option<DockRect>,
    g: WindowGeometry,
    monitor: Option<DockRect>,
    r: Option<DockRect>,
)
    requires
        call_ensures(restore_area, (on_screen, Some(g), monitor), r),
    ensures
        on_screen is Some ==> r == on_screen,
        on_screen is None && g.x is Some && g.y is Some && g.width is Some && g.height is Some
            ==> r == Some(
            DockRect { x: g.x->0, y: g.y->0, w: g.width->0, h: g.height->0 },
        ),
        on_screen is None && (g.x is None || g.y is None || g.width is None || g.height is None)
            ==> r == monitor,
{
}

/// A child is given its rectangle's size, and a pixel where that has none.
pub proof fn a_child_has_a_pixel(rect: DockRect, size: (i32, i32))
    requires
        call_ensures(allocated_size, (rect,), size),
    ensures
        size.0 >= 1 && size.1 >= 1,
        rect.w >= 1 ==> size.0 == rect.w,
        rect.h >= 1 ==> size.1 == rect.h,
        rect.w < 1 ==> size.0 == 1,
        rect.h < 1 ==> size.1 == 1,
{
}

/// A docked panel's side is its own, and any other panel's is the one it opens
/// on.
pub proof fn a_panel_is_where_it_is_docked(
    docked: Option<DockLocation>,
    default_side: DockSide,
    side: DockSide,
)
    requires
        call_ensures(legacy_side, (docked, default_side), side),
    ensures
        docked is Some && docked->0 is Side ==> docked == Some(DockLocation::Side(side)),
        docked is None || docked->0 is Floating ==> side == default_side,
{
}

} // verus!
