//! The overlay window: click-through style bits, edge snapping, toggling.

use vstd::prelude::*;
use crate::platform::window::{Position, Size};

verus! {

/// Extended window style: clicks pass through.
pub const WS_EX_TRANSPARENT: i32 = 0x20;
/// Extended window style: layered (translucent) window.
pub const WS_EX_LAYERED: i32 = 0x80000;
/// How close to a screen edge the overlay snaps to it.
pub const OVERLAY_SNAP_MARGIN: i32 = 20;

/// The overlay window's logic; the window itself belongs to the shell.
pub struct OverlayManager;

/// What toggling the overlay does.
#[derive(Debug, Clone, Copy, PartialEq, Eq, Structural)]
pub enum OverlayToggle {
    Hide,
    Show,
    Create,
}

/// The values that snapping the overlay computes fit in `i32`.
pub open spec fn overlay_snap_ok(pos: Position, win: Size, screen: Size) -> bool {
    let w = win.width as i32 as int;
    let h = win.height as i32 as int;
    let sw = screen.width as i32 as int;
    let sh = screen.height as i32 as int;
    &&& i32::MIN <= pos.x + w <= i32::MAX
    &&& i32::MIN <= pos.y + h <= i32::MAX
    &&& i32::MIN <= sw - OVERLAY_SNAP_MARGIN && i32::MIN <= sh - OVERLAY_SNAP_MARGIN
    &&& i32::MIN <= sw - w <= i32::MAX
    &&& i32::MIN <= sh - h <= i32::MAX
}

/// Where the moved overlay snaps: to the left or right screen edge when
/// within the margin of it, and likewise to the top or bottom; nothing
/// when it is near no edge.
pub open spec fn overlay_snapped(pos: Position, win: Size, screen: Size) -> Option<Position> {
    let w = win.width as i32 as int;
    let h = win.height as i32 as int;
    let sw = screen.width as i32 as int;
    let sh = screen.height as i32 as int;
    let snap_left = pos.x < OVERLAY_SNAP_MARGIN;
    let snap_right = !snap_left && pos.x + w > sw - OVERLAY_SNAP_MARGIN;
    let snap_top = pos.y < OVERLAY_SNAP_MARGIN;
    let snap_bottom = !snap_top && pos.y + h > sh - OVERLAY_SNAP_MARGIN;
    if snap_left || snap_right || snap_top || snap_bottom {
        Some(
            Position {
                x: if snap_left { 0 } else if snap_right { (sw - w) as i32 } else { pos.x },
                y: if snap_top { 0 } else if snap_bottom { (sh - h) as i32 } else { pos.y },
            },
        )
    } else {
        None
    }
}

impl OverlayManager {
    /// The extended style that makes the overlay click-through or not:
    /// only the click-through bit changes.
    pub fn set_click_through(ex_style: i32, enable: bool) -> (r: i32)
        ensures
            enable ==> r == ex_style | WS_EX_TRANSPARENT,
            !enable ==> r == ex_style & !WS_EX_TRANSPARENT,
            (r & WS_EX_TRANSPARENT != 0) == enable,
            r & !WS_EX_TRANSPARENT == ex_style & !WS_EX_TRANSPARENT,
    {
        let r = if enable {
            ex_style | WS_EX_TRANSPARENT
        } else {
            ex_style & !WS_EX_TRANSPARENT
        };
        assert((ex_style | 0x20i32) & 0x20i32 != 0) by (bit_vector);
        assert((ex_style & !0x20i32) & 0x20i32 == 0) by (bit_vector);
        assert((ex_style | 0x20i32) & !0x20i32 == ex_style & !0x20i32) by (bit_vector);
        assert((ex_style & !0x20i32) & !0x20i32 == ex_style & !0x20i32) by (bit_vector);
        r
    }

    /// The extended style the overlay is created with: click-through and
    /// layered, other bits kept.
    pub fn create_overlay_style(ex_style: i32) -> (r: i32)
        ensures
            r == ex_style | WS_EX_TRANSPARENT | WS_EX_LAYERED,
    {
        ex_style | WS_EX_TRANSPARENT | WS_EX_LAYERED
    }

    /// Whether snapping the overlay stays within the range of `i32`.
    pub fn snap_fits(pos: Position, win: Size, screen: Size) -> (b: bool)
        ensures
            b == overlay_snap_ok(pos, win, screen),
    {
        let w = (win.width as i32) as i64;
        let h = (win.height as i32) as i64;
        let sw = (screen.width as i32) as i64;
        let sh = (screen.height as i32) as i64;
        let lo = i32::MIN as i64;
        let hi = i32::MAX as i64;
        lo <= pos.x as i64 + w && pos.x as i64 + w <= hi && lo <= pos.y as i64 + h && pos.y as i64 + h
            <= hi && lo <= sw - 20 && lo <= sh - 20 && lo <= sw - w && sw - w <= hi && lo <= sh - h
            && sh - h <= hi
    }

    /// Where the moved overlay snaps to, if it is near a screen edge.
    pub fn snap_position(pos: Position, win: Size, screen: Size) -> (r: Option<Position>)
        requires
            overlay_snap_ok(pos, win, screen),
        ensures
            r == overlay_snapped(pos, win, screen),
    {
        let margin: i32 = OVERLAY_SNAP_MARGIN;
        let sw = screen.width as i32;
        let sh = screen.height as i32;
        let w = win.width as i32;
        let h = win.height as i32;
        let mut new_x = pos.x;
        let mut new_y = pos.y;
        let mut snapped = false;
        if pos.x < margin {
            new_x = 0;
            snapped = true;
        } else if pos.x + w > sw - margin {
            new_x = sw - w;
            snapped = true;
        }
        if pos.y < margin {
            new_y = 0;
            snapped = true;
        } else if pos.y + h > sh - margin {
            new_y = sh - h;
            snapped = true;
        }
        if snapped {
            Some(Position { x: new_x, y: new_y })
        } else {
            None
        }
    }

    /// What toggling does: hide a shown overlay, show a hidden one, create
    /// a missing one.
    pub fn toggle_overlay(exists: bool, visible: bool) -> (r: OverlayToggle)
        ensures
            r == (if !exists {
                OverlayToggle::Create
            } else if visible {
                OverlayToggle::Hide
            } else {
                OverlayToggle::Show
            }),
    {
        if !exists {
            OverlayToggle::Create
        } else if visible {
            OverlayToggle::Hide
        } else {
            OverlayToggle::Show
        }
    }
}

/// Turning click-through on and then off gives back the style without the
/// click-through bit; turning it on twice is turning it on once.
pub proof fn lemma_click_through_toggles(ex_style: i32)
    ensures
        (ex_style | WS_EX_TRANSPARENT) & !WS_EX_TRANSPARENT == ex_style & !WS_EX_TRANSPARENT,
        (ex_style | WS_EX_TRANSPARENT) | WS_EX_TRANSPARENT == ex_style | WS_EX_TRANSPARENT,
        (ex_style & !WS_EX_TRANSPARENT) | WS_EX_TRANSPARENT == ex_style | WS_EX_TRANSPARENT,
{
    assert((ex_style | 0x20i32) & !0x20i32 == ex_style & !0x20i32) by (bit_vector);
    assert((ex_style | 0x20i32) | 0x20i32 == ex_style | 0x20i32) by (bit_vector);
    assert((ex_style & !0x20i32) | 0x20i32 == ex_style | 0x20i32) by (bit_vector);
}

/// The overlay stays put exactly when it keeps the margin from every screen
/// edge. A snapped overlay lies against the edges it came near, and
/// snapping it again leaves it there when it is narrower and shorter than
/// the screen less the margin.
pub proof fn lemma_overlay_snap_settles(pos: Position, win: Size, screen: Size)
    requires
        overlay_snap_ok(pos, win, screen),
    ensures
        ({
            let w = win.width as i32 as int;
            let h = win.height as i32 as int;
            let sw = screen.width as i32 as int;
            let sh = screen.height as i32 as int;
            &&& overlay_snapped(pos, win, screen) is None <==> (OVERLAY_SNAP_MARGIN <= pos.x && pos.x
                + w <= sw - OVERLAY_SNAP_MARGIN && OVERLAY_SNAP_MARGIN <= pos.y && pos.y + h <= sh
                - OVERLAY_SNAP_MARGIN)
            &&& overlay_snapped(pos, win, screen) matches Some(q) ==> {
                &&& pos.x < OVERLAY_SNAP_MARGIN ==> q.x == 0
                &&& (OVERLAY_SNAP_MARGIN <= pos.x && pos.x + w > sw - OVERLAY_SNAP_MARGIN) ==> q.x + w
                    == sw
                &&& (OVERLAY_SNAP_MARGIN <= pos.x && pos.x + w <= sw - OVERLAY_SNAP_MARGIN) ==> q.x
                    == pos.x
                &&& pos.y < OVERLAY_SNAP_MARGIN ==> q.y == 0
                &&& (OVERLAY_SNAP_MARGIN <= pos.y && pos.y + h > sh - OVERLAY_SNAP_MARGIN) ==> q.y + h
                    == sh
                &&& (OVERLAY_SNAP_MARGIN <= pos.y && pos.y + h <= sh - OVERLAY_SNAP_MARGIN) ==> q.y
                    == pos.y
                &&& (OVERLAY_SNAP_MARGIN <= sw - w && OVERLAY_SNAP_MARGIN <= sh - h)
                    ==> overlay_snapped(q, win, screen) == Some(q)
            }
        }),
{
}

} // verus!
