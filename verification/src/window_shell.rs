//! Where the heads-up display sits.

use vstd::prelude::*;

verus! {

/// Where the pill should sit, in screen coordinates.
#[derive(Debug, Clone, Copy, PartialEq, Eq, Structural)]
pub struct Placement {
    pub x: i32,
    pub y: i32,
}

/// Half of a number, toward zero.
pub open spec fn half(n: int) -> int {
    if n >= 0 {
        n / 2
    } else {
        -((-n) / 2)
    }
}

fn halved(n: i32) -> (h: i32)
    ensures
        h == half(n as int),
{
    if n >= 0 {
        n / 2
    } else if n == i32::MIN {
        -1_073_741_824
    } else {
        -((-n) / 2)
    }
}

pub open spec fn fits(n: int) -> bool {
    i32::MIN <= n <= i32::MAX
}

/// Centred in the work area, its margin above the bottom, and never above the
/// top.
pub open spec fn centered(
    left: int,
    top: int,
    right: int,
    bottom: int,
    width: int,
    height: int,
    margin: int,
) -> (int, int) {
    (
        left + half(right - left) - half(width),
        if bottom - height - margin >= top {
            bottom - height - margin
        } else {
            top
        },
    )
}

/// Bottom-centre of the work area, given the monitor rectangle and the window's
/// size. A monitor shorter than the window still shows its top edge.
pub fn bottom_center(
    work_left: i32,
    work_top: i32,
    work_right: i32,
    work_bottom: i32,
    width: i32,
    height: i32,
    bottom_margin: i32,
) -> (placement: Placement)
    requires
        fits(work_right - work_left),
        fits(work_left + half(work_right - work_left)),
        fits(work_left + half(work_right - work_left) - half(width as int)),
        fits(work_bottom - height),
        fits(work_bottom - height - bottom_margin),
    ensures
        (placement.x as int, placement.y as int) == centered(
            work_left as int,
            work_top as int,
            work_right as int,
            work_bottom as int,
            width as int,
            height as int,
            bottom_margin as int,
        ),
{
    let center: i32 = work_left + halved(work_right - work_left);
    let y: i32 = work_bottom - height - bottom_margin;
    Placement {
        x: center - halved(width),
        y: if y >= work_top {
            y
        } else {
            work_top
        },
    }
}

/// The bits of a window's style: never active, never clicked, in neither the
/// taskbar nor the window switcher, and without a raised edge.
pub const WS_EX_TRANSPARENT: u32 = 0x0000_0020;

pub const WS_EX_TOOLWINDOW: u32 = 0x0000_0080;

pub const WS_EX_WINDOWEDGE: u32 = 0x0000_0100;

pub const WS_EX_NOACTIVATE: u32 = 0x0800_0000;

/// The style of a passive overlay, from the one it has.
pub open spec fn overlay(current: u32) -> u32 {
    (current & !WS_EX_WINDOWEDGE) | WS_EX_NOACTIVATE | WS_EX_TRANSPARENT | WS_EX_TOOLWINDOW
}

pub fn overlay_style(current: u32) -> (style: u32)
    ensures
        style == overlay(current),
{
    (current & !WS_EX_WINDOWEDGE) | WS_EX_NOACTIVATE | WS_EX_TRANSPARENT | WS_EX_TOOLWINDOW
}

/// In a work area that is wide enough the pill lies between its sides, as far
/// from one as from the other. Its top edge is always on the screen, and where
/// there is room for it, it sits its margin above the bottom.
pub proof fn the_pill_stays_in_the_work_area(
    left: int,
    top: int,
    right: int,
    bottom: int,
    width: int,
    height: int,
    margin: int,
)
    requires
        0 <= width <= right - left,
    ensures
        ({
            let (x, y) = centered(left, top, right, bottom, width, height, margin);
            &&& left <= x && x + width <= right
            &&& -1 <= (x - left) - (right - (x + width)) <= 1
            &&& top <= y
            &&& height + margin <= bottom - top ==> y + height + margin == bottom
        }),
{
}

/// Making an overlay an overlay changes nothing, and it neither takes focus nor
/// clicks.
pub proof fn an_overlay_stays_passive(current: u32)
    ensures
        overlay(overlay(current)) == overlay(current),
        overlay(current) & WS_EX_NOACTIVATE != 0,
        overlay(current) & WS_EX_TRANSPARENT != 0,
        overlay(current) & WS_EX_WINDOWEDGE == 0,
{
    assert(({
        let one = (current & !0x100u32) | 0x0800_0000u32 | 0x20u32 | 0x80u32;
        let two = (one & !0x100u32) | 0x0800_0000u32 | 0x20u32 | 0x80u32;
        two == one && one & 0x0800_0000u32 != 0 && one & 0x20u32 != 0 && one & 0x100u32 == 0
    })) by (bit_vector);
}

} // verus!
