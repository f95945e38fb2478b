//! Window geometry: docking to a screen edge as a small tab, snapping to
//! edges while dragging, keeping the window on screen, and the dock state.

use vstd::prelude::*;

verus! {

/// A point in physical pixels.
#[derive(Debug, Clone, Copy, PartialEq, Eq, Structural)]
pub struct Position {
    pub x: i32,
    pub y: i32,
}

/// A size in physical pixels.
#[derive(Debug, Clone, Copy, PartialEq, Eq, Structural)]
pub struct Size {
    pub width: u32,
    pub height: u32,
}

/// The area of a monitor in physical pixels.
#[derive(Debug, Clone, Copy, PartialEq, Eq, Structural)]
pub struct Monitor {
    pub x: i32,
    pub y: i32,
    pub width: u32,
    pub height: u32,
}

/// A screen edge.
#[derive(Debug, Clone, Copy, PartialEq, Eq, Structural)]
pub enum DockSide {
    Left,
    Right,
    Top,
    Bottom,
}

/// Where and how large the window was before it docked, and to which edge.
#[derive(Debug, Clone, Copy, PartialEq, Eq, Structural)]
pub struct DockSnapshot {
    pub side: DockSide,
    pub position: Position,
    pub size: Size,
}

/// Width of the docked tab.
pub const DOCK_WIDTH: u32 = 62;
/// Height of the docked tab.
pub const DOCK_HEIGHT: u32 = 62;
/// Gap kept between a docked or kept-inside window and the monitor edge.
pub const DOCK_MARGIN: i32 = 8;
/// How close to an edge the cursor must be to dock there.
pub const DOCK_CURSOR_THRESHOLD: i32 = 38;
/// How close to an edge a dragged window snaps to it.
pub const WINDOW_SNAP_THRESHOLD: i32 = 28;
/// How far from the edge an undocked window reappears.
pub const RELEASE_GAP: i32 = 96;

/// A value in the range of `i32`.
pub open spec fn fits(v: int) -> bool {
    i32::MIN <= v <= i32::MAX
}

/// `value.max(min).min(max)`.
pub open spec fn clamp_spec(value: int, min: int, max: int) -> int {
    let a = if value >= min { value } else { min };
    if a <= max { a } else { max }
}

/// Raises `value` to `min`, then lowers it to `max` (`max` wins when the
/// bounds cross).
pub fn clamp_i32(value: i32, min: i32, max: i32) -> (r: i32)
    ensures
        r == clamp_spec(value as int, min as int, max as int),
{
    let a = if value >= min { value } else { min };
    if a <= max { a } else { max }
}

/// The right edge of a monitor.
pub open spec fn right_edge(m: Monitor) -> int {
    m.x + (m.width as i32)
}

/// The bottom edge of a monitor.
pub open spec fn bottom_edge(m: Monitor) -> int {
    m.y + (m.height as i32)
}

/// The monitor's edges, and the tab's extreme positions on it, fit in `i32`.
pub open spec fn dock_frame_ok(m: Monitor) -> bool {
    &&& fits(right_edge(m))
    &&& fits(bottom_edge(m))
    &&& fits(m.x + DOCK_MARGIN)
    &&& fits(m.y + DOCK_MARGIN)
    &&& fits(right_edge(m) - DOCK_WIDTH)
    &&& fits(right_edge(m) - DOCK_WIDTH - DOCK_MARGIN)
    &&& fits(bottom_edge(m) - DOCK_HEIGHT)
    &&& fits(bottom_edge(m) - DOCK_HEIGHT - DOCK_MARGIN)
}

/// The tab's leftmost and rightmost, topmost and lowest positions.
pub open spec fn tab_x_min(m: Monitor) -> int { m.x + DOCK_MARGIN }
pub open spec fn tab_x_max(m: Monitor) -> int { right_edge(m) - DOCK_WIDTH - DOCK_MARGIN }
pub open spec fn tab_y_min(m: Monitor) -> int { m.y + DOCK_MARGIN }
pub open spec fn tab_y_max(m: Monitor) -> int { bottom_edge(m) - DOCK_HEIGHT - DOCK_MARGIN }

/// The tab's position on `side`, centred on the point (`cx`, `cy`) along
/// the edge and kept on the monitor.
pub open spec fn tab_position(m: Monitor, cx: int, cy: int, side: DockSide) -> Position {
    let x = clamp_spec(cx - DOCK_WIDTH / 2, tab_x_min(m), tab_x_max(m));
    let y = clamp_spec(cy - DOCK_HEIGHT / 2, tab_y_min(m), tab_y_max(m));
    match side {
        DockSide::Left => Position { x: tab_x_min(m) as i32, y: y as i32 },
        DockSide::Right => Position { x: tab_x_max(m) as i32, y: y as i32 },
        DockSide::Top => Position { x: x as i32, y: tab_y_min(m) as i32 },
        DockSide::Bottom => Position { x: x as i32, y: tab_y_max(m) as i32 },
    }
}

fn tab_position_at(m: Monitor, cx: i32, cy: i32, side: DockSide) -> (p: Position)
    requires
        dock_frame_ok(m),
        fits(cx - DOCK_WIDTH / 2),
        fits(cy - DOCK_HEIGHT / 2),
    ensures
        p == tab_position(m, cx as int, cy as int, side),
{
    let dock_w = DOCK_WIDTH as i32;
    let dock_h = DOCK_HEIGHT as i32;
    let right = m.x + m.width as i32;
    let bottom = m.y + m.height as i32;
    let x_min = m.x + DOCK_MARGIN;
    let x_max = right - dock_w - DOCK_MARGIN;
    let y_min = m.y + DOCK_MARGIN;
    let y_max = bottom - dock_h - DOCK_MARGIN;
    let x = clamp_i32(cx - dock_w / 2, x_min, x_max);
    let y = clamp_i32(cy - dock_h / 2, y_min, y_max);
    match side {
        DockSide::Left => Position { x: x_min, y },
        DockSide::Right => Position { x: x_max, y },
        DockSide::Top => Position { x, y: y_min },
        DockSide::Bottom => Position { x, y: y_max },
    }
}

/// Half of `v`, rounded toward zero (Rust's `/ 2` on a signed integer).
pub open spec fn half(v: int) -> int {
    if v >= 0 { v / 2 } else { -((-v) / 2) }
}

/// The window's centre fits in `i32`, and so does the tab's corner around it.
pub open spec fn centre_ok(pos: Position, size: Size) -> bool {
    &&& fits(pos.x + half(size.width as i32 as int))
    &&& fits(pos.y + half(size.height as i32 as int))
    &&& fits(pos.x + half(size.width as i32 as int) - DOCK_WIDTH / 2)
    &&& fits(pos.y + half(size.height as i32 as int) - DOCK_HEIGHT / 2)
}

/// Where a window at `pos` of `size` docks on `side`: the tab is centred on
/// the window's centre along the edge, kept on the monitor, against the edge.
pub fn dock_position(m: Monitor, pos: Position, size: Size, side: DockSide) -> (p: Position)
    requires
        dock_frame_ok(m),
        centre_ok(pos, size),
    ensures
        p == tab_position(
            m,
            pos.x + half(size.width as i32 as int),
            pos.y + half(size.height as i32 as int),
            side,
        ),
{
    let cx = pos.x + size.width as i32 / 2;
    let cy = pos.y + size.height as i32 / 2;
    tab_position_at(m, cx, cy, side)
}

/// The cursor and its tab corner fit in `i32`.
pub open spec fn cursor_ok(c: Position) -> bool {
    &&& fits(c.x - DOCK_WIDTH / 2)
    &&& fits(c.y - DOCK_HEIGHT / 2)
}

/// Where the tab previews while the cursor drags near `side`.
pub fn preview_position_from_cursor(m: Monitor, cursor: Position, side: DockSide) -> (p: Position)
    requires
        dock_frame_ok(m),
        cursor_ok(cursor),
    ensures
        p == tab_position(m, cursor.x as int, cursor.y as int, side),
{
    tab_position_at(m, cursor.x, cursor.y, side)
}

/// Where a docked tab follows the cursor: centred on it, kept on the monitor.
pub open spec fn visible_position(m: Monitor, c: Position) -> Position {
    Position {
        x: clamp_spec(c.x - DOCK_WIDTH / 2, tab_x_min(m), tab_x_max(m)) as i32,
        y: clamp_spec(c.y - DOCK_HEIGHT / 2, tab_y_min(m), tab_y_max(m)) as i32,
    }
}

/// Where a docked tab follows the cursor.
pub fn visible_position_from_cursor(m: Monitor, cursor: Position) -> (p: Position)
    requires
        dock_frame_ok(m),
        cursor_ok(cursor),
    ensures
        p == visible_position(m, cursor),
{
    let dock_w = DOCK_WIDTH as i32;
    let dock_h = DOCK_HEIGHT as i32;
    let right = m.x + m.width as i32;
    let bottom = m.y + m.height as i32;
    let x = clamp_i32(cursor.x - dock_w / 2, m.x + DOCK_MARGIN, right - dock_w - DOCK_MARGIN);
    let y = clamp_i32(cursor.y - dock_h / 2, m.y + DOCK_MARGIN, bottom - dock_h - DOCK_MARGIN);
    Position { x, y }
}

/// The distance of the cursor from each edge fits in `i32`.
pub open spec fn distances_ok(m: Monitor, c: Position) -> bool {
    &&& fits(right_edge(m))
    &&& fits(bottom_edge(m))
    &&& fits(c.x - m.x) && c.x - m.x != i32::MIN
    &&& fits(c.y - m.y) && c.y - m.y != i32::MIN
    &&& fits(right_edge(m) - c.x) && right_edge(m) - c.x != i32::MIN
    &&& fits(bottom_edge(m) - c.y) && bottom_edge(m) - c.y != i32::MIN
}

/// The absolute value.
pub open spec fn abs(v: int) -> int {
    if v < 0 { -v } else { v }
}

/// The cursor's distance from each edge.
pub open spec fn edge_distance(m: Monitor, c: Position, side: DockSide) -> int {
    match side {
        DockSide::Left => abs(c.x - m.x),
        DockSide::Right => abs(right_edge(m) - c.x),
        DockSide::Top => abs(c.y - m.y),
        DockSide::Bottom => abs(bottom_edge(m) - c.y),
    }
}

/// The edge the cursor docks to: among the edges within the threshold, the
/// nearest; on a tie, the first in the order left, right, top, bottom.
pub open spec fn dock_side(m: Monitor, c: Position) -> Option<DockSide> {
    let sides = seq![DockSide::Left, DockSide::Right, DockSide::Top, DockSide::Bottom];
    nearest_side(m, c, sides)
}

/// The first of `sides` with the least distance within the threshold.
pub open spec fn nearest_side(m: Monitor, c: Position, sides: Seq<DockSide>) -> Option<DockSide>
    decreases sides.len(),
{
    if sides.len() == 0 {
        None
    } else {
        let rest = nearest_side(m, c, sides.drop_last());
        let s = sides.last();
        if edge_distance(m, c, s) <= DOCK_CURSOR_THRESHOLD && (rest is None || edge_distance(
            m,
            c,
            s,
        ) < edge_distance(m, c, rest.unwrap())) {
            Some(s)
        } else {
            rest
        }
    }
}

/// The place of an edge in the order left, right, top, bottom.
pub open spec fn side_rank(s: DockSide) -> int {
    match s {
        DockSide::Left => 0,
        DockSide::Right => 1,
        DockSide::Top => 2,
        DockSide::Bottom => 3,
    }
}

/// The cursor docks to the edge it is nearest, among those within the
/// docking threshold, preferring on a tie the earlier of left, right, top,
/// bottom; it docks nowhere when every edge is farther than the threshold.
/// Each edge's distance is the cursor's distance from it along the axis
/// across that edge.
pub proof fn lemma_dock_side_nearest(m: Monitor, c: Position)
    ensures
        edge_distance(m, c, DockSide::Left) == abs(c.x - m.x),
        edge_distance(m, c, DockSide::Right) == abs(m.x + (m.width as i32) - c.x),
        edge_distance(m, c, DockSide::Top) == abs(c.y - m.y),
        edge_distance(m, c, DockSide::Bottom) == abs(m.y + (m.height as i32) - c.y),
        dock_side(m, c) is None <==> forall|s: DockSide|
            edge_distance(m, c, s) > DOCK_CURSOR_THRESHOLD,
        dock_side(m, c) matches Some(s) ==> {
            &&& edge_distance(m, c, s) <= DOCK_CURSOR_THRESHOLD
            &&& forall|o: DockSide| edge_distance(m, c, s) <= #[trigger] edge_distance(m, c, o)
            &&& forall|o: DockSide|
                side_rank(o) < side_rank(s) ==> edge_distance(m, c, s) < #[trigger] edge_distance(
                    m,
                    c,
                    o,
                )
        },
{
    reveal_with_fuel(nearest_side, 5);
    let all = seq![DockSide::Left, DockSide::Right, DockSide::Top, DockSide::Bottom];
    assert(all.drop_last() =~= seq![DockSide::Left, DockSide::Right, DockSide::Top]);
    assert(all.drop_last().drop_last() =~= seq![DockSide::Left, DockSide::Right]);
    assert(all.drop_last().drop_last().drop_last() =~= seq![DockSide::Left]);
    assert(all.drop_last().drop_last().drop_last().drop_last() =~= Seq::<DockSide>::empty());
}

/// The absolute value (`i32::abs`).
pub fn abs_i32(v: i32) -> (r: i32)
    requires
        v != i32::MIN,
    ensures
        r == abs(v as int),
{
    if v < 0 { -v } else { v }
}

/// The edge the cursor is close enough to dock to, if any.
pub fn dock_side_from_cursor(m: Monitor, cursor: Position) -> (r: Option<DockSide>)
    requires
        distances_ok(m, cursor),
    ensures
        r == dock_side(m, cursor),
{
    let right = m.x + m.width as i32;
    let bottom = m.y + m.height as i32;
    let left_d = abs_i32(cursor.x - m.x);
    let top_d = abs_i32(cursor.y - m.y);
    let right_d = abs_i32(right - cursor.x);
    let bottom_d = abs_i32(bottom - cursor.y);
    let sides = [DockSide::Left, DockSide::Right, DockSide::Top, DockSide::Bottom];
    let ds = [left_d, right_d, top_d, bottom_d];
    let ghost all = seq![DockSide::Left, DockSide::Right, DockSide::Top, DockSide::Bottom];
    let mut best: Option<DockSide> = None;
    let mut best_d: i32 = 0;
    let mut i: usize = 0;
    while i < 4
        invariant
            i <= 4,
            sides@ == all,
            forall|j: int| 0 <= j < 4 ==> ds@[j] as int == edge_distance(m, cursor, #[trigger] all[j]),
            best == nearest_side(m, cursor, all.take(i as int)),
            best is Some ==> best_d as int == edge_distance(m, cursor, best.unwrap()),
        decreases 4 - i,
    {
        assert(all.take(i + 1).drop_last() =~= all.take(i as int));
        let d = ds[i];
        if d <= DOCK_CURSOR_THRESHOLD && (best.is_none() || d < best_d) {
            best = Some(sides[i]);
            best_d = d;
        }
        i = i + 1;
    }
    assert(all.take(4) =~= all);
    best
}

} // verus!

verus! {

/// The values that snapping computes fit in `i32`.
pub open spec fn snap_ok(m: Monitor, pos: Position, size: Size) -> bool {
    let w = size.width as i32 as int;
    let h = size.height as i32 as int;
    &&& fits(right_edge(m)) && fits(bottom_edge(m))
    &&& fits(pos.x - m.x) && pos.x - m.x != i32::MIN
    &&& fits(pos.y - m.y) && pos.y - m.y != i32::MIN
    &&& fits(pos.x + w) && fits(pos.y + h)
    &&& fits(right_edge(m) - (pos.x + w)) && right_edge(m) - (pos.x + w) != i32::MIN
    &&& fits(bottom_edge(m) - (pos.y + h)) && bottom_edge(m) - (pos.y + h) != i32::MIN
    &&& fits(right_edge(m) - w) && fits(bottom_edge(m) - h)
}

/// A dragged window snaps to an edge it comes within the threshold of:
/// its left (top) side to the monitor's left (top) edge first, else its
/// right (bottom) side to the right (bottom) edge.
pub open spec fn snapped(m: Monitor, pos: Position, size: Size) -> Position {
    let w = size.width as i32 as int;
    let h = size.height as i32 as int;
    Position {
        x: if abs(pos.x - m.x) <= WINDOW_SNAP_THRESHOLD {
            m.x
        } else if abs(right_edge(m) - (pos.x + w)) <= WINDOW_SNAP_THRESHOLD {
            (right_edge(m) - w) as i32
        } else {
            pos.x
        },
        y: if abs(pos.y - m.y) <= WINDOW_SNAP_THRESHOLD {
            m.y
        } else if abs(bottom_edge(m) - (pos.y + h)) <= WINDOW_SNAP_THRESHOLD {
            (bottom_edge(m) - h) as i32
        } else {
            pos.y
        },
    }
}

/// Where a dragged window at `pos` lands after snapping to nearby edges.
pub fn snap_window_position(m: Monitor, pos: Position, size: Size) -> (p: Position)
    requires
        snap_ok(m, pos, size),
    ensures
        p == snapped(m, pos, size),
{
    let right = m.x + m.width as i32;
    let bottom = m.y + m.height as i32;
    let width = size.width as i32;
    let height = size.height as i32;
    let mut x = pos.x;
    let mut y = pos.y;
    if abs_i32(pos.x - m.x) <= WINDOW_SNAP_THRESHOLD {
        x = m.x;
    } else if abs_i32(right - (pos.x + width)) <= WINDOW_SNAP_THRESHOLD {
        x = right - width;
    }
    if abs_i32(pos.y - m.y) <= WINDOW_SNAP_THRESHOLD {
        y = m.y;
    } else if abs_i32(bottom - (pos.y + height)) <= WINDOW_SNAP_THRESHOLD {
        y = bottom - height;
    }
    Position { x, y }
}

/// The values that restoring a docked window computes fit in `i32`.
pub open spec fn restore_ok(m: Monitor, snap: DockSnapshot) -> bool {
    let w = snap.size.width as i32 as int;
    let h = snap.size.height as i32 as int;
    &&& fits(right_edge(m)) && fits(bottom_edge(m))
    &&& fits(right_edge(m) - w) && fits(right_edge(m) - w - DOCK_MARGIN)
    &&& fits(bottom_edge(m) - h) && fits(bottom_edge(m) - h - DOCK_MARGIN)
    &&& fits(m.x + DOCK_MARGIN) && fits(m.y + DOCK_MARGIN)
    &&& fits(m.x + RELEASE_GAP) && fits(m.y + RELEASE_GAP)
    &&& fits(right_edge(m) - w - RELEASE_GAP) && fits(bottom_edge(m) - h - RELEASE_GAP)
}

/// Where an undocked window reappears: its old place, kept on the monitor,
/// but moved a fixed gap away from the edge it was docked to.
pub open spec fn restored(m: Monitor, snap: DockSnapshot) -> Position {
    let w = snap.size.width as i32 as int;
    let h = snap.size.height as i32 as int;
    let x = clamp_spec(snap.position.x as int, m.x + DOCK_MARGIN, right_edge(m) - w - DOCK_MARGIN);
    let y = clamp_spec(snap.position.y as int, m.y + DOCK_MARGIN, bottom_edge(m) - h - DOCK_MARGIN);
    match snap.side {
        DockSide::Left => Position { x: (m.x + RELEASE_GAP) as i32, y: y as i32 },
        DockSide::Right => Position { x: (right_edge(m) - w - RELEASE_GAP) as i32, y: y as i32 },
        DockSide::Top => Position { x: x as i32, y: (m.y + RELEASE_GAP) as i32 },
        DockSide::Bottom => Position { x: x as i32, y: (bottom_edge(m) - h - RELEASE_GAP) as i32 },
    }
}

/// An undocked window comes back the release gap away from the edge it was
/// docked to; along that edge it keeps its old place where that lies within
/// the margins, and is brought to the nearer margin otherwise.
pub proof fn lemma_undock_lands_away_from_edge(m: Monitor, snap: DockSnapshot)
    requires
        restore_ok(m, snap),
    ensures
        ({
            let p = restored(m, snap);
            let w = snap.size.width as i32 as int;
            let h = snap.size.height as i32 as int;
            let right = m.x + (m.width as i32);
            let bottom = m.y + (m.height as i32);
            let along_x = snap.side == DockSide::Top || snap.side == DockSide::Bottom;
            &&& snap.side == DockSide::Left ==> p.x == m.x + RELEASE_GAP
            &&& snap.side == DockSide::Right ==> p.x + w == right - RELEASE_GAP
            &&& snap.side == DockSide::Top ==> p.y == m.y + RELEASE_GAP
            &&& snap.side == DockSide::Bottom ==> p.y + h == bottom - RELEASE_GAP
            &&& along_x ==> {
                &&& m.x + DOCK_MARGIN <= snap.position.x <= right - w - DOCK_MARGIN
                    ==> p.x == snap.position.x
                &&& (snap.position.x < m.x + DOCK_MARGIN && m.x + DOCK_MARGIN <= right - w
                    - DOCK_MARGIN) ==> p.x == m.x + DOCK_MARGIN
                &&& snap.position.x > right - w - DOCK_MARGIN ==> p.x == right - w - DOCK_MARGIN
            }
            &&& !along_x ==> {
                &&& m.y + DOCK_MARGIN <= snap.position.y <= bottom - h - DOCK_MARGIN
                    ==> p.y == snap.position.y
                &&& (snap.position.y < m.y + DOCK_MARGIN && m.y + DOCK_MARGIN <= bottom - h
                    - DOCK_MARGIN) ==> p.y == m.y + DOCK_MARGIN
                &&& snap.position.y > bottom - h - DOCK_MARGIN ==> p.y == bottom - h - DOCK_MARGIN
            }
        }),
{
}

/// Where an undocked window reappears.
pub fn restore_position_away_from_edge(m: Monitor, snap: DockSnapshot) -> (p: Position)
    requires
        restore_ok(m, snap),
    ensures
        p == restored(m, snap),
{
    let width = snap.size.width as i32;
    let height = snap.size.height as i32;
    let right = m.x + m.width as i32;
    let bottom = m.y + m.height as i32;
    let x_max = right - width - DOCK_MARGIN;
    let y_max = bottom - height - DOCK_MARGIN;
    let mut x = clamp_i32(snap.position.x, m.x + DOCK_MARGIN, x_max);
    let mut y = clamp_i32(snap.position.y, m.y + DOCK_MARGIN, y_max);
    match snap.side {
        DockSide::Left => {
            x = m.x + RELEASE_GAP;
        },
        DockSide::Right => {
            x = right - width - RELEASE_GAP;
        },
        DockSide::Top => {
            y = m.y + RELEASE_GAP;
        },
        DockSide::Bottom => {
            y = bottom - height - RELEASE_GAP;
        },
    }
    Position { x, y }
}

/// The values that keeping a window on screen computes fit in `i32`.
pub open spec fn inside_ok(m: Monitor, size: Size) -> bool {
    let w = size.width as i32 as int;
    let h = size.height as i32 as int;
    &&& fits(right_edge(m)) && fits(bottom_edge(m))
    &&& fits(m.x + DOCK_MARGIN) && fits(m.y + DOCK_MARGIN)
    &&& fits(right_edge(m) - w) && fits(right_edge(m) - w - DOCK_MARGIN)
    &&& fits(bottom_edge(m) - h) && fits(bottom_edge(m) - h - DOCK_MARGIN)
}

/// The larger of two values.
pub open spec fn max_spec(a: int, b: int) -> int {
    if a >= b { a } else { b }
}

/// A window moved the least to lie on the monitor with the margin; a window
/// wider or taller than the monitor keeps to its left or top margin.
pub open spec fn kept_inside(m: Monitor, pos: Position, size: Size) -> Position {
    let w = size.width as i32 as int;
    let h = size.height as i32 as int;
    let x_min = m.x + DOCK_MARGIN;
    let y_min = m.y + DOCK_MARGIN;
    let x_max = right_edge(m) - w - DOCK_MARGIN;
    let y_max = bottom_edge(m) - h - DOCK_MARGIN;
    Position {
        x: clamp_spec(pos.x as int, x_min, max_spec(x_max, x_min)) as i32,
        y: clamp_spec(pos.y as int, y_min, max_spec(y_max, y_min)) as i32,
    }
}

/// Where a window must move to stay on the monitor (its own position when
/// it already does).
pub fn keep_window_inside_monitor(m: Monitor, pos: Position, size: Size) -> (p: Position)
    requires
        inside_ok(m, size),
    ensures
        p == kept_inside(m, pos, size),
{
    let right = m.x + m.width as i32;
    let bottom = m.y + m.height as i32;
    let x_min = m.x + DOCK_MARGIN;
    let y_min = m.y + DOCK_MARGIN;
    let x_max = right - size.width as i32 - DOCK_MARGIN;
    let y_max = bottom - size.height as i32 - DOCK_MARGIN;
    let x_hi = if x_max >= x_min { x_max } else { x_min };
    let y_hi = if y_max >= y_min { y_max } else { y_min };
    Position { x: clamp_i32(pos.x, x_min, x_hi), y: clamp_i32(pos.y, y_min, y_hi) }
}

/// A window already on the monitor with the margin does not move.
pub proof fn lemma_inside_window_stays(m: Monitor, pos: Position, size: Size)
    requires
        inside_ok(m, size),
        m.x + DOCK_MARGIN <= pos.x <= right_edge(m) - (size.width as i32) - DOCK_MARGIN,
        m.y + DOCK_MARGIN <= pos.y <= bottom_edge(m) - (size.height as i32) - DOCK_MARGIN,
    ensures
        kept_inside(m, pos, size) == pos,
{
}

/// Keeping a window on screen is idempotent, and the result lies within
/// the margins whenever the window fits on the monitor.
pub proof fn lemma_keep_inside_idempotent(m: Monitor, pos: Position, size: Size)
    requires
        inside_ok(m, size),
    ensures
        kept_inside(m, kept_inside(m, pos, size), size) == kept_inside(m, pos, size),
        m.x + DOCK_MARGIN <= kept_inside(m, pos, size).x,
        m.y + DOCK_MARGIN <= kept_inside(m, pos, size).y,
        m.x + DOCK_MARGIN <= right_edge(m) - (size.width as i32) - DOCK_MARGIN
            ==> kept_inside(m, pos, size).x <= right_edge(m) - (size.width as i32) - DOCK_MARGIN,
        m.y + DOCK_MARGIN <= bottom_edge(m) - (size.height as i32) - DOCK_MARGIN
            ==> kept_inside(m, pos, size).y <= bottom_edge(m) - (size.height as i32) - DOCK_MARGIN,
{
}

/// A docked tab lies on the monitor within the margins, against its edge,
/// whenever the monitor is larger than the tab with its margins.
pub proof fn lemma_tab_on_monitor(m: Monitor, cx: int, cy: int, side: DockSide)
    requires
        dock_frame_ok(m),
        tab_x_min(m) <= tab_x_max(m),
        tab_y_min(m) <= tab_y_max(m),
    ensures
        tab_x_min(m) <= tab_position(m, cx, cy, side).x <= tab_x_max(m),
        tab_y_min(m) <= tab_position(m, cx, cy, side).y <= tab_y_max(m),
        side == DockSide::Left ==> tab_position(m, cx, cy, side).x == tab_x_min(m),
        side == DockSide::Right ==> tab_position(m, cx, cy, side).x == tab_x_max(m),
        side == DockSide::Top ==> tab_position(m, cx, cy, side).y == tab_y_min(m),
        side == DockSide::Bottom ==> tab_position(m, cx, cy, side).y == tab_y_max(m),
{
}

/// Whether a value lies in the range of `i32`.
fn fits64(v: i64) -> (b: bool)
    ensures
        b == fits(v as int),
{
    i32::MIN as i64 <= v && v <= i32::MAX as i64
}

/// Whether a value lies in the range of `i32` and is not its least value
/// (so that its absolute value does too).
fn fits64_abs(v: i64) -> (b: bool)
    ensures
        b == (fits(v as int) && v != i32::MIN),
{
    (i32::MIN as i64) < v && v <= i32::MAX as i64
}

/// Whether docking on monitor `m` stays within the range of `i32`.
pub fn dock_frame_fits(m: Monitor) -> (b: bool)
    ensures
        b == dock_frame_ok(m),
{
    let right = m.x as i64 + (m.width as i32) as i64;
    let bottom = m.y as i64 + (m.height as i32) as i64;
    fits64(right) && fits64(bottom) && fits64(m.x as i64 + 8) && fits64(m.y as i64 + 8) && fits64(
        right - 62,
    ) && fits64(right - 70) && fits64(bottom - 62) && fits64(bottom - 70)
}

/// Whether the centre of a window at `pos` of `size` stays within the range of `i32`.
pub fn centre_fits(pos: Position, size: Size) -> (b: bool)
    ensures
        b == centre_ok(pos, size),
{
    let hw = ((size.width as i32) / 2) as i64;
    let hh = ((size.height as i32) / 2) as i64;
    let cx = pos.x as i64 + hw;
    let cy = pos.y as i64 + hh;
    fits64(cx) && fits64(cy) && fits64(cx - 31) && fits64(cy - 31)
}

/// Whether the tab around the cursor stays within the range of `i32`.
pub fn cursor_fits(c: Position) -> (b: bool)
    ensures
        b == cursor_ok(c),
{
    fits64(c.x as i64 - 31) && fits64(c.y as i64 - 31)
}

/// Whether the cursor's distances to the edges of `m` stay within the range of `i32`.
pub fn distances_fit(m: Monitor, c: Position) -> (b: bool)
    ensures
        b == distances_ok(m, c),
{
    let right = m.x as i64 + (m.width as i32) as i64;
    let bottom = m.y as i64 + (m.height as i32) as i64;
    fits64(right) && fits64(bottom) && fits64_abs(c.x as i64 - m.x as i64) && fits64_abs(
        c.y as i64 - m.y as i64,
    ) && fits64_abs(right - c.x as i64) && fits64_abs(bottom - c.y as i64)
}

/// Whether snapping a window at `pos` of `size` on `m` stays within the range of `i32`.
pub fn snap_fits(m: Monitor, pos: Position, size: Size) -> (b: bool)
    ensures
        b == snap_ok(m, pos, size),
{
    let right = m.x as i64 + (m.width as i32) as i64;
    let bottom = m.y as i64 + (m.height as i32) as i64;
    let w = (size.width as i32) as i64;
    let h = (size.height as i32) as i64;
    let px = pos.x as i64;
    let py = pos.y as i64;
    fits64(right) && fits64(bottom) && fits64_abs(px - m.x as i64) && fits64_abs(py - m.y as i64)
        && fits64(px + w) && fits64(py + h) && fits64_abs(right - (px + w)) && fits64_abs(
        bottom - (py + h),
    ) && fits64(right - w) && fits64(bottom - h)
}

/// Whether restoring a window from `snap` on `m` stays within the range of `i32`.
pub fn restore_fits(m: Monitor, snap: DockSnapshot) -> (b: bool)
    ensures
        b == restore_ok(m, snap),
{
    let right = m.x as i64 + (m.width as i32) as i64;
    let bottom = m.y as i64 + (m.height as i32) as i64;
    let w = (snap.size.width as i32) as i64;
    let h = (snap.size.height as i32) as i64;
    fits64(right) && fits64(bottom) && fits64(right - w) && fits64(right - w - 8) && fits64(
        bottom - h,
    ) && fits64(bottom - h - 8) && fits64(m.x as i64 + 8) && fits64(m.y as i64 + 8) && fits64(
        m.x as i64 + 96,
    ) && fits64(m.y as i64 + 96) && fits64(right - w - 96) && fits64(bottom - h - 96)
}

/// Whether keeping a window of `size` on `m` stays within the range of `i32`.
pub fn inside_fits(m: Monitor, size: Size) -> (b: bool)
    ensures
        b == inside_ok(m, size),
{
    let right = m.x as i64 + (m.width as i32) as i64;
    let bottom = m.y as i64 + (m.height as i32) as i64;
    let w = (size.width as i32) as i64;
    let h = (size.height as i32) as i64;
    fits64(right) && fits64(bottom) && fits64(m.x as i64 + 8) && fits64(m.y as i64 + 8) && fits64(
        right - w,
    ) && fits64(right - w - 8) && fits64(bottom - h) && fits64(bottom - h - 8)
}

} // verus!

verus! {

/// Whether the window is docked, where it was before, whether a drag is
/// under way, and whether it stayed on top before docking.
pub struct DockState {
    pub docked: bool,
    pub snapshot: Option<DockSnapshot>,
    pub dragging: bool,
    pub pre_dock_always_on_top: bool,
}

/// Whether the window is docked.
pub fn is_docked(state: &DockState) -> (b: bool)
    ensures
        b == state.docked,
{
    state.docked
}

/// One operation on the dock state.
pub enum DockOp {
    TryBeginDrag,
    EndDrag,
    Remember(DockSnapshot),
    BeginDock(DockSnapshot),
    SetPreDockAlwaysOnTop(bool),
    MarkDocked,
    TakeSnapshot,
    MarkUndocked,
}

/// The dock state after one operation.
pub open spec fn dock_step(s: DockState, op: DockOp) -> DockState {
    match op {
        DockOp::TryBeginDrag => DockState { dragging: true, ..s },
        DockOp::EndDrag => DockState { dragging: false, ..s },
        DockOp::Remember(snap) => DockState { snapshot: Some(snap), ..s },
        DockOp::BeginDock(snap) => DockState {
            snapshot: if s.snapshot is Some { s.snapshot } else { Some(snap) },
            ..s
        },
        DockOp::SetPreDockAlwaysOnTop(b) => DockState { pre_dock_always_on_top: b, ..s },
        DockOp::MarkDocked => DockState { docked: true, ..s },
        DockOp::TakeSnapshot => DockState { snapshot: None, ..s },
        DockOp::MarkUndocked => DockState { docked: false, ..s },
    }
}

/// The dock state after a sequence of operations.
pub open spec fn run_dock_ops(s: DockState, ops: Seq<DockOp>) -> DockState
    decreases ops.len(),
{
    if ops.len() == 0 {
        s
    } else {
        dock_step(run_dock_ops(s, ops.drop_last()), ops.last())
    }
}

/// Whether the last of the operations that mark the window docked or
/// undocked marked it docked; nothing when there is none.
pub open spec fn last_dock_mark(ops: Seq<DockOp>) -> Option<bool>
    decreases ops.len(),
{
    if ops.len() == 0 {
        None
    } else if ops.last() is MarkDocked {
        Some(true)
    } else if ops.last() is MarkUndocked {
        Some(false)
    } else {
        last_dock_mark(ops.drop_last())
    }
}

/// The docking flag follows the last completed dock or undock: a dock ends
/// with `mark_docked` and an undock with `mark_undocked` once every step
/// that can fail has succeeded, and no other operation touches the flag.
/// From a new state the flag is down until the first dock.
pub proof fn lemma_docked_follows_last_mark(s: DockState, ops: Seq<DockOp>)
    ensures
        run_dock_ops(s, ops).docked == match last_dock_mark(ops) {
            Some(b) => b,
            None => s.docked,
        },
    decreases ops.len(),
{
    if ops.len() > 0 {
        lemma_docked_follows_last_mark(s, ops.drop_last());
    }
}

impl DockState {
    /// Not docked, nothing remembered, no drag.
    pub fn new() -> (s: Self)
        ensures
            !s.docked,
            s.snapshot is None,
            !s.dragging,
            !s.pre_dock_always_on_top,
    {
        DockState { docked: false, snapshot: None, dragging: false, pre_dock_always_on_top: false }
    }

    /// Starts a drag unless one is under way; says whether it started.
    pub fn try_begin_drag(&mut self) -> (started: bool)
        ensures
            *final(self) == dock_step(*old(self), DockOp::TryBeginDrag),
            started == !old(self).dragging,
            *final(self) == (DockState { dragging: true, ..*old(self) }),
    {
        let started = !self.dragging;
        self.dragging = true;
        started
    }

    /// Ends the drag.
    pub fn end_drag(&mut self)
        ensures
            *final(self) == dock_step(*old(self), DockOp::EndDrag),
            *final(self) == (DockState { dragging: false, ..*old(self) }),
    {
        self.dragging = false;
    }

    /// Remembers where the window was when a drag ends on an edge,
    /// replacing what was remembered.
    pub fn remember(&mut self, snap: DockSnapshot)
        ensures
            *final(self) == dock_step(*old(self), DockOp::Remember(snap)),
            *final(self) == (DockState { snapshot: Some(snap), ..*old(self) }),
    {
        self.snapshot = Some(snap);
    }

    /// Remembers where the window was as it docks, unless a place is
    /// already remembered.
    pub fn begin_dock(&mut self, snap: DockSnapshot)
        ensures
            *final(self) == dock_step(*old(self), DockOp::BeginDock(snap)),
            *final(self) == (DockState {
                snapshot: if old(self).snapshot is Some { old(self).snapshot } else { Some(snap) },
                ..*old(self)
            }),
    {
        if self.snapshot.is_none() {
            self.snapshot = Some(snap);
        }
    }

    /// Records whether the window stayed on top before docking.
    pub fn set_pre_dock_always_on_top(&mut self, on_top: bool)
        ensures
            *final(self) == dock_step(*old(self), DockOp::SetPreDockAlwaysOnTop(on_top)),
            *final(self) == (DockState { pre_dock_always_on_top: on_top, ..*old(self) }),
    {
        self.pre_dock_always_on_top = on_top;
    }

    /// Marks the window docked.
    pub fn mark_docked(&mut self)
        ensures
            *final(self) == dock_step(*old(self), DockOp::MarkDocked),
            *final(self) == (DockState { docked: true, ..*old(self) }),
    {
        self.docked = true;
    }

    /// Takes the remembered place, for undocking.
    pub fn take_snapshot(&mut self) -> (snap: Option<DockSnapshot>)
        ensures
            *final(self) == dock_step(*old(self), DockOp::TakeSnapshot),
            snap == old(self).snapshot,
            *final(self) == (DockState { snapshot: None, ..*old(self) }),
    {
        let s = self.snapshot;
        self.snapshot = None;
        s
    }

    /// Marks the window undocked; returns whether it should stay on top,
    /// as it did before docking.
    pub fn mark_undocked(&mut self) -> (on_top: bool)
        ensures
            *final(self) == dock_step(*old(self), DockOp::MarkUndocked),
            on_top == old(self).pre_dock_always_on_top,
            *final(self) == (DockState { docked: false, ..*old(self) }),
    {
        self.docked = false;
        self.pre_dock_always_on_top
    }
}

/// Docking and undocking give back the window's place: the first place
/// remembered while docking is the one that undocking restores, later
/// docks do not overwrite it, and undocking forgets it and restores the
/// on-top setting from before the dock.
pub proof fn lemma_dock_undock_roundtrip(
    s: DockState,
    first: DockSnapshot,
    second: DockSnapshot,
    on_top: bool,
)
    requires
        s.snapshot is None,
    ensures
        ({
            let s1 = DockState { snapshot: Some(first), ..s };
            let s2 = DockState {
                snapshot: if s1.snapshot is Some { s1.snapshot } else { Some(second) },
                ..s1
            };
            let s3 = DockState { pre_dock_always_on_top: on_top, docked: true, ..s2 };
            let s4 = DockState { snapshot: None, ..s3 };
            let s5 = DockState { docked: false, ..s4 };
            &&& s3.snapshot == Some(first)
            &&& s4.snapshot is None
            &&& !s5.docked
            &&& s5.pre_dock_always_on_top == on_top
        }),
{
}

/// A drag of the window by the mouse.
pub struct DragSession {
    /// The cursor's offset from the window's corner when the drag began.
    pub offset_x: i32,
    pub offset_y: i32,
    /// The window's place and size when the drag began.
    pub window_pos: Position,
    pub window_size: Size,
    /// Whether releasing near an edge docks the window.
    pub dock_on_release: bool,
    /// Where the window was last moved during the drag.
    pub last_pos: Option<Position>,
    /// The last cursor position read.
    pub last_cursor: Position,
    /// The edge whose dock preview is shown.
    pub preview_side: Option<DockSide>,
}

/// What the shell does after one cursor reading of a drag.
pub struct DragStep {
    /// Announce whether a dock preview shows, and resize the window: to the
    /// tab for a preview, back to its own size without.
    pub preview_changed: Option<bool>,
    pub resize_to: Option<Size>,
    /// Move the window here.
    pub move_to: Option<Position>,
}

/// What the shell does when the mouse button is released.
pub enum DragRelease {
    /// Remember this place and dock to its edge.
    Dock(DockSnapshot),
    /// The preview was shown but no edge is near: give the window back its
    /// size and put it under the cursor.
    Restore { size: Size, position: Position },
    /// Nothing more.
    Nothing,
}

/// The tab's size.
pub open spec fn tab_size() -> Size {
    Size { width: DOCK_WIDTH, height: DOCK_HEIGHT }
}

/// The cursor's tab corner: the tab centred on the cursor.
pub open spec fn tab_around(c: Position) -> Position {
    Position { x: (c.x - DOCK_WIDTH / 2) as i32, y: (c.y - DOCK_HEIGHT / 2) as i32 }
}

impl DragSession {
    /// The edge a cursor reading previews, when releasing docks.
    pub open spec fn step_side(self, cursor: Position, mon: Option<Monitor>) -> Option<DockSide> {
        if self.dock_on_release {
            match mon {
                Some(m) => dock_side(m, cursor),
                None => None,
            }
        } else {
            None
        }
    }

    /// The window's corner under the cursor, keeping the grab offset.
    pub open spec fn follow(self, cursor: Position) -> Position {
        Position { x: (cursor.x - self.offset_x) as i32, y: (cursor.y - self.offset_y) as i32 }
    }

    /// Where a cursor reading puts the window: the tab preview at the
    /// edge, the tab under the cursor while docked, or the window under the
    /// cursor, snapped to nearby edges when releasing docks.
    pub open spec fn step_target(self, cursor: Position, mon: Option<Monitor>, docked: bool) -> Position {
        match self.step_side(cursor, mon) {
            Some(side) => match mon {
                Some(m) => tab_position(m, cursor.x as int, cursor.y as int, side),
                None => tab_around(cursor),
            },
            None => if docked {
                match mon {
                    Some(m) => visible_position(m, cursor),
                    None => tab_around(cursor),
                }
            } else if self.dock_on_release {
                match mon {
                    Some(m) => snapped(m, self.follow(cursor), self.window_size),
                    None => self.follow(cursor),
                }
            } else {
                self.follow(cursor)
            },
        }
    }

    /// The values a cursor reading computes fit in `i32`.
    pub open spec fn step_ok(self, cursor: Position, mon: Option<Monitor>) -> bool {
        &&& cursor_ok(cursor)
        &&& fits(cursor.x - self.offset_x)
        &&& fits(cursor.y - self.offset_y)
        &&& mon matches Some(m) ==> {
            &&& dock_frame_ok(m)
            &&& distances_ok(m, cursor)
            &&& snap_ok(m, self.follow(cursor), self.window_size)
        }
    }

    /// A drag that begins with the cursor at `cursor` over a window at
    /// `window_pos` of `window_size`.
    pub fn new(window_pos: Position, window_size: Size, cursor: Position, dock_on_release: bool) -> (d: Self)
        requires
            fits(cursor.x - window_pos.x),
            fits(cursor.y - window_pos.y),
        ensures
            d.offset_x == cursor.x - window_pos.x,
            d.offset_y == cursor.y - window_pos.y,
            d.window_pos == window_pos,
            d.window_size == window_size,
            d.dock_on_release == dock_on_release,
            d.last_pos is None,
            d.last_cursor == cursor,
            d.preview_side is None,
    {
        DragSession {
            offset_x: cursor.x - window_pos.x,
            offset_y: cursor.y - window_pos.y,
            window_pos,
            window_size,
            dock_on_release,
            last_pos: None,
            last_cursor: cursor,
            preview_side: None,
        }
    }

    /// Whether a cursor reading can be handled within the ranges of `i32`.
    pub fn can_step(&self, cursor: Position, mon: Option<Monitor>) -> (b: bool)
        ensures
            b == self.step_ok(cursor, mon),
    {
        let c_ok = cursor.x >= i32::MIN + 31 && cursor.y >= i32::MIN + 31;
        if !c_ok {
            return false;
        }
        let fx = cursor.x as i64 - self.offset_x as i64;
        let fy = cursor.y as i64 - self.offset_y as i64;
        if fx < i32::MIN as i64 || fx > i32::MAX as i64 || fy < i32::MIN as i64 || fy > i32::MAX as i64 {
            return false;
        }
        match mon {
            None => true,
            Some(m) => {
                let right = m.x as i64 + (m.width as i32) as i64;
                let bottom = m.y as i64 + (m.height as i32) as i64;
                let lo = i32::MIN as i64;
                let hi = i32::MAX as i64;
                let inr = |v: i64| -> (b: bool)
                    ensures
                        b == (lo <= v <= hi),
                    { lo <= v && v <= hi };
                let inr_abs = |v: i64| -> (b: bool)
                    ensures
                        b == (lo < v <= hi),
                    { lo < v && v <= hi };
                let w = (self.window_size.width as i32) as i64;
                let h = (self.window_size.height as i32) as i64;
                let px = fx;
                let py = fy;
                inr(right) && inr(bottom) && inr(m.x as i64 + 8) && inr(m.y as i64 + 8) && inr(
                    right - 62,
                ) && inr(right - 70) && inr(bottom - 62) && inr(bottom - 70) && inr_abs(
                    cursor.x as i64 - m.x as i64,
                ) && inr_abs(cursor.y as i64 - m.y as i64) && inr_abs(right - cursor.x as i64)
                    && inr_abs(bottom - cursor.y as i64) && inr_abs(px - m.x as i64) && inr_abs(
                    py - m.y as i64,
                ) && inr(px + w) && inr(py + h) && inr_abs(right - (px + w)) && inr_abs(
                    bottom - (py + h),
                ) && inr(right - w) && inr(bottom - h)
            },
        }
    }

    /// Whether the release can be handled within the ranges of `i32`.
    pub fn can_release(&self, mon: Option<Monitor>) -> (b: bool)
        ensures
            b == ((mon matches Some(m) ==> distances_ok(m, self.last_cursor)) && fits(
                self.last_cursor.x - self.offset_x,
            ) && fits(self.last_cursor.y - self.offset_y)),
    {
        let mon_ok = match mon {
            Some(m) => distances_fit(m, self.last_cursor),
            None => true,
        };
        mon_ok && fits64(self.last_cursor.x as i64 - self.offset_x as i64) && fits64(
            self.last_cursor.y as i64 - self.offset_y as i64,
        )
    }

    /// Handles one cursor reading while the button is down: updates the
    /// preview when the edge under the cursor changes, and moves the window
    /// when its place changes.
    pub fn step(&mut self, cursor: Position, mon: Option<Monitor>, docked: bool) -> (r: DragStep)
        requires
            old(self).step_ok(cursor, mon),
        ensures
            ({
                let side = old(self).step_side(cursor, mon);
                let changed = side != old(self).preview_side;
                let target = old(self).step_target(cursor, mon, docked);
                let last = if changed { None } else { old(self).last_pos };
                &&& r.preview_changed == if changed { Some(side is Some) } else { None }
                &&& r.resize_to == if changed {
                    Some(if side is Some { tab_size() } else { old(self).window_size })
                } else {
                    None
                }
                &&& r.move_to == if last == Some(target) { None } else { Some(target) }
                &&& *final(self) == (DragSession {
                    last_cursor: cursor,
                    preview_side: side,
                    last_pos: Some(target),
                    ..*old(self)
                })
            }),
    {
        self.last_cursor = cursor;
        let side: Option<DockSide> = if self.dock_on_release {
            match mon {
                Some(m) => dock_side_from_cursor(m, cursor),
                None => None,
            }
        } else {
            None
        };
        let mut preview_changed: Option<bool> = None;
        let mut resize_to: Option<Size> = None;
        if side != self.preview_side {
            preview_changed = Some(side.is_some());
            resize_to = Some(
                if side.is_some() {
                    Size { width: DOCK_WIDTH, height: DOCK_HEIGHT }
                } else {
                    self.window_size
                },
            );
            self.preview_side = side;
            self.last_pos = None;
        }
        let fallback = Position { x: cursor.x - (DOCK_WIDTH as i32 / 2), y: cursor.y - (DOCK_HEIGHT as i32 / 2) };
        let next = match side {
            Some(s) => match mon {
                Some(m) => preview_position_from_cursor(m, cursor, s),
                None => fallback,
            },
            None => if docked {
                match mon {
                    Some(m) => visible_position_from_cursor(m, cursor),
                    None => fallback,
                }
            } else {
                let n = Position { x: cursor.x - self.offset_x, y: cursor.y - self.offset_y };
                if self.dock_on_release {
                    match mon {
                        Some(m) => snap_window_position(m, n, self.window_size),
                        None => n,
                    }
                } else {
                    n
                }
            },
        };
        let move_to = if self.last_pos == Some(next) {
            None
        } else {
            Some(next)
        };
        self.last_pos = Some(next);
        DragStep { preview_changed, resize_to, move_to }
    }

    /// What releasing the button does: dock to the edge near the last
    /// cursor reading when releasing docks and the window is not docked,
    /// remembering where the window was; or undo a shown preview.
    pub fn release(&self, mon: Option<Monitor>, docked: bool) -> (r: DragRelease)
        requires
            mon matches Some(m) ==> distances_ok(m, self.last_cursor),
            fits(self.last_cursor.x - self.offset_x),
            fits(self.last_cursor.y - self.offset_y),
        ensures
            r == if self.dock_on_release && !docked {
                match (match mon {
                    Some(m) => dock_side(m, self.last_cursor),
                    None => None,
                }) {
                    Some(side) => DragRelease::Dock(
                        DockSnapshot { side, position: self.window_pos, size: self.window_size },
                    ),
                    None => if self.preview_side is Some {
                        DragRelease::Restore {
                            size: self.window_size,
                            position: Position {
                                x: (self.last_cursor.x - self.offset_x) as i32,
                                y: (self.last_cursor.y - self.offset_y) as i32,
                            },
                        }
                    } else {
                        DragRelease::Nothing
                    },
                }
            } else {
                DragRelease::Nothing
            },
    {
        if self.dock_on_release && !docked {
            let side = match mon {
                Some(m) => dock_side_from_cursor(m, self.last_cursor),
                None => None,
            };
            match side {
                Some(s) => DragRelease::Dock(
                    DockSnapshot { side: s, position: self.window_pos, size: self.window_size },
                ),
                None => if self.preview_side.is_some() {
                    DragRelease::Restore {
                        size: self.window_size,
                        position: Position {
                            x: self.last_cursor.x - self.offset_x,
                            y: self.last_cursor.y - self.offset_y,
                        },
                    }
                } else {
                    DragRelease::Nothing
                },
            }
        } else {
            DragRelease::Nothing
        }
    }
}

/// Where a drag step puts the window. Away from a previewed edge and not
/// docked, the window's corner is the cursor less the grab offset, so the
/// window moves with the cursor; when releasing docks and the monitor is
/// known, each coordinate then snaps to a monitor edge that the window
/// comes within the snap threshold of. While docked the tab is centred on
/// the cursor and kept on the monitor. Only a drag that docks on release
/// ever previews an edge.
pub proof fn lemma_drag_follows_cursor(d: DragSession, cursor: Position, mon: Option<Monitor>, docked: bool)
    requires
        d.step_ok(cursor, mon),
    ensures
        !d.dock_on_release ==> d.step_side(cursor, mon) is None,
        ({
            let t = d.step_target(cursor, mon, docked);
            let px = cursor.x - d.offset_x;
            let py = cursor.y - d.offset_y;
            let w = d.window_size.width as i32 as int;
            let h = d.window_size.height as i32 as int;
            &&& (d.step_side(cursor, mon) is None && !docked && !(d.dock_on_release && mon is Some))
                ==> t.x == px && t.y == py
            &&& mon matches Some(m) ==> ((d.step_side(cursor, mon) is None && !docked
                && d.dock_on_release) ==> {
                &&& t.x == (if -WINDOW_SNAP_THRESHOLD <= px - m.x <= WINDOW_SNAP_THRESHOLD {
                    m.x as int
                } else if -WINDOW_SNAP_THRESHOLD <= m.x + (m.width as i32) - (px + w)
                    <= WINDOW_SNAP_THRESHOLD {
                    m.x + (m.width as i32) - w
                } else {
                    px
                })
                &&& t.y == (if -WINDOW_SNAP_THRESHOLD <= py - m.y <= WINDOW_SNAP_THRESHOLD {
                    m.y as int
                } else if -WINDOW_SNAP_THRESHOLD <= m.y + (m.height as i32) - (py + h)
                    <= WINDOW_SNAP_THRESHOLD {
                    m.y + (m.height as i32) - h
                } else {
                    py
                })
            })
            &&& mon matches Some(m) ==> ((d.step_side(cursor, mon) is None && docked) ==> {
                &&& t.x == clamp_spec(
                    cursor.x - DOCK_WIDTH / 2,
                    m.x + DOCK_MARGIN,
                    m.x + (m.width as i32) - DOCK_WIDTH - DOCK_MARGIN,
                )
                &&& t.y == clamp_spec(
                    cursor.y - DOCK_HEIGHT / 2,
                    m.y + DOCK_MARGIN,
                    m.y + (m.height as i32) - DOCK_HEIGHT - DOCK_MARGIN,
                )
            })
        }),
{
}

} // verus!

verus! {

use crate::utils::text::{push_char, push_str};

/// The start-up entry for the program: its path in double quotes.
pub fn startup_command(exe_path: &str) -> (s: String)
    ensures
        s@ == seq!['"'] + exe_path@ + seq!['"'],
{
    let mut s = String::new();
    push_char(&mut s, '"');
    push_str(&mut s, exe_path);
    push_char(&mut s, '"');
    assert(s@ =~= seq!['"'] + exe_path@ + seq!['"']);
    s
}

/// Whether removing the start-up entry went well: it was removed, or there
/// was none (status 2, file not found).
pub fn startup_removal_ok(status: u32) -> (b: bool)
    ensures
        b == (status == 0 || status == 2),
{
    status == 0 || status == 2
}

} // verus!
