//! Geometry and message decisions of the custom window frame: where the
//! resize borders are, how pointer coordinates are unpacked, how colors and
//! styles are encoded for the window manager, and where a window is centered.
use vstd::prelude::*;

verus! {

/// Width of the client-area band reserved for resizing, in pixels.
pub const RESIZE_BORDER: i32 = 2;

/// The smallest size the window may be resized to.
pub const MIN_WIDTH: i32 = 600;

/// The smallest height the window may be resized to.
pub const MIN_HEIGHT: i32 = 400;

/// What a point of the window is, for the window manager's hit test.
#[derive(Clone, Copy, Debug, PartialEq, Eq, Structural)]
pub enum HitZone {
    TopLeft,
    TopRight,
    BottomLeft,
    BottomRight,
    Left,
    Right,
    Top,
    Bottom,
    Client,
}

/// A rectangle in screen coordinates.
#[derive(Clone, Copy, Debug, PartialEq, Eq, Structural)]
pub struct Rect {
    pub left: i32,
    pub top: i32,
    pub right: i32,
    pub bottom: i32,
}

/// The client rectangle is one whose resize bands can be computed without
/// overflow.
pub open spec fn bands_fit(r: Rect) -> bool {
    r.left + RESIZE_BORDER <= i32::MAX && r.top + RESIZE_BORDER <= i32::MAX && r.right
        - RESIZE_BORDER >= i32::MIN && r.bottom - RESIZE_BORDER >= i32::MIN
}

/// The zone of point (x, y) in a window whose client area is `r`: the corners
/// and edges within `RESIZE_BORDER` pixels of the border resize the window,
/// corners first; everything else is client area.
pub open spec fn hit_zone(x: int, y: int, r: Rect) -> HitZone {
    let b = RESIZE_BORDER as int;
    let near_left = r.left <= x < r.left + b;
    let near_right = r.right - b <= x < r.right;
    let near_top = r.top <= y < r.top + b;
    let near_bottom = r.bottom - b <= y < r.bottom;
    if near_left && near_top {
        HitZone::TopLeft
    } else if near_right && near_top {
        HitZone::TopRight
    } else if near_left && near_bottom {
        HitZone::BottomLeft
    } else if near_right && near_bottom {
        HitZone::BottomRight
    } else if near_left {
        HitZone::Left
    } else if near_right {
        HitZone::Right
    } else if near_top {
        HitZone::Top
    } else if near_bottom {
        HitZone::Bottom
    } else {
        HitZone::Client
    }
}

/// Classifies a point of the window for resizing (`hit_zone`).
pub fn hit_test(x: i32, y: i32, client: Rect) -> (z: HitZone)
    requires
        bands_fit(client),
    ensures
        z == hit_zone(x as int, y as int, client),
{
    let resize = RESIZE_BORDER;
    let (left, top, right, bottom) = (client.left, client.top, client.right, client.bottom);
    let near_left = x >= left && x < left + resize;
    let near_right = x >= right - resize && x < right;
    let near_top = y >= top && y < top + resize;
    let near_bottom = y >= bottom - resize && y < bottom;
    if near_left && near_top {
        HitZone::TopLeft
    } else if near_right && near_top {
        HitZone::TopRight
    } else if near_left && near_bottom {
        HitZone::BottomLeft
    } else if near_right && near_bottom {
        HitZone::BottomRight
    } else if near_left {
        HitZone::Left
    } else if near_right {
        HitZone::Right
    } else if near_top {
        HitZone::Top
    } else if near_bottom {
        HitZone::Bottom
    } else {
        HitZone::Client
    }
}

/// A 16-bit field read as a signed value: two's complement of the low 16
/// bits.
pub open spec fn signed_word(v: int) -> int {
    if v >= 0x8000 {
        v - 0x10000
    } else {
        v
    }
}

/// The x coordinate packed in the low word of a pointer message parameter,
/// sign-extended.
pub fn get_x_lparam(lparam: isize) -> (x: i32)
    ensures
        x as int == signed_word((lparam as u64 & 0xFFFF) as int),
{
    let low: u64 = (lparam as u64) & 0xFFFF;
    assert(low <= 0xFFFF) by (bit_vector)
        requires
            low == (lparam as u64) & 0xFFFF,
    ;
    if low >= 0x8000 {
        (low as i32) - 0x10000
    } else {
        low as i32
    }
}

/// The y coordinate packed in the second word of a pointer message
/// parameter, sign-extended.
pub fn get_y_lparam(lparam: isize) -> (y: i32)
    ensures
        y as int == signed_word(((lparam as u64 >> 16u64) & 0xFFFF) as int),
{
    let high: u64 = ((lparam as u64) >> 16u64) & 0xFFFF;
    assert(high <= 0xFFFF) by (bit_vector)
        requires
            high == ((lparam as u64) >> 16u64) & 0xFFFF,
    ;
    if high >= 0x8000 {
        (high as i32) - 0x10000
    } else {
        high as i32
    }
}

/// The window manager's color value for an RGB color: red in the low byte,
/// then green, then blue.
pub fn color32_to_dwm(r: u8, g: u8, b: u8) -> (c: u32)
    ensures
        c == r as u32 + g as u32 * 0x100 + b as u32 * 0x10000,
{
    let rr = r as u32;
    let gg = g as u32;
    let bb = b as u32;
    let c = (bb << 16u32) | (gg << 8u32) | rr;
    assert(c == rr + gg * 0x100 + bb * 0x10000) by (bit_vector)
        requires
            c == (bb << 16u32) | (gg << 8u32) | rr,
            rr <= 0xFF,
            gg <= 0xFF,
            bb <= 0xFF,
    ;
    c
}

/// The caption style bits.
pub const WS_CAPTION: u32 = 0x00C0_0000;

/// The style bits the custom frame keeps: thick (resizable) frame 0x0004_0000,
/// minimize box 0x0002_0000, maximize box 0x0001_0000, system menu
/// 0x0008_0000.
pub const FRAME_STYLE: u32 = 0x000F_0000;

/// The window style of the custom frame: the caption removed, the resizable
/// frame, minimize and maximize boxes and system menu added.
pub fn borderless_style(style: u32) -> (s: u32)
    ensures
        s == (style & !WS_CAPTION) | FRAME_STYLE,
        s & WS_CAPTION == 0,
        s & FRAME_STYLE == FRAME_STYLE,
{
    let s = (style & !WS_CAPTION) | FRAME_STYLE;
    assert(s & 0x00C0_0000u32 == 0 && s & 0x000F_0000u32 == 0x000F_0000u32) by (bit_vector)
        requires
            s == (style & !0x00C0_0000u32) | 0x000F_0000u32,
    ;
    s
}

/// Rust's integer division of `a` by two: rounded toward zero.
pub open spec fn half_toward_zero(a: int) -> int {
    if a >= 0 {
        a / 2
    } else {
        -((-a) / 2)
    }
}

/// The coordinate that centers a window of size `size` on the span from
/// `start` to `end`.
pub open spec fn centered_origin(start: int, end: int, size: int) -> int {
    start + half_toward_zero((end - start) - size)
}

/// Centers a window of size `size` on the span from `start` to `end` of the
/// work area.
pub fn center_on_span(start: i32, end: i32, size: i32) -> (o: i32)
    requires
        i32::MIN <= end - start <= i32::MAX,
        i32::MIN <= (end - start) - size <= i32::MAX,
        i32::MIN <= centered_origin(start as int, end as int, size as int) <= i32::MAX,
    ensures
        o as int == centered_origin(start as int, end as int, size as int),
{
    let d: i32 = (end - start) - size;
    let h: i32 = if d >= 0 {
        d / 2
    } else {
        -((-(d as i64) / 2) as i32)
    };
    start + h
}

/// Where a maximized window goes and how large it gets, from the monitor's
/// work area and full area, together with the minimum tracking size.
#[derive(Clone, Copy, Debug, PartialEq, Eq, Structural)]
pub struct MaximizeBounds {
    pub min_width: i32,
    pub min_height: i32,
    pub max_x: i32,
    pub max_y: i32,
    pub max_width: i32,
    pub max_height: i32,
}

/// The bounds of a maximized window: positioned at the work area's offset
/// within the monitor and sized to the work area, so it does not cover the
/// task bar.
pub fn maximize_bounds(work: Rect, monitor: Rect) -> (b: MaximizeBounds)
    requires
        i32::MIN <= work.left - monitor.left <= i32::MAX,
        i32::MIN <= work.top - monitor.top <= i32::MAX,
        i32::MIN <= work.right - work.left <= i32::MAX,
        i32::MIN <= work.bottom - work.top <= i32::MAX,
    ensures
        b.min_width == MIN_WIDTH,
        b.min_height == MIN_HEIGHT,
        b.max_x == work.left - monitor.left,
        b.max_y == work.top - monitor.top,
        b.max_width == work.right - work.left,
        b.max_height == work.bottom - work.top,
{
    MaximizeBounds {
        min_width: MIN_WIDTH,
        min_height: MIN_HEIGHT,
        max_x: work.left - monitor.left,
        max_y: work.top - monitor.top,
        max_width: work.right - work.left,
        max_height: work.bottom - work.top,
    }
}

/// What toggling full screen does.
#[derive(Clone, Copy, Debug, PartialEq, Eq, Structural)]
pub enum ShowCommand {
    Restore,
    Maximize,
}

/// Toggling full screen restores a maximized window and maximizes any other.
pub fn toggle_fullscreen_command(is_maximized: bool) -> (c: ShowCommand)
    ensures
        is_maximized ==> c is Restore,
        !is_maximized ==> c is Maximize,
{
    if is_maximized {
        ShowCommand::Restore
    } else {
        ShowCommand::Maximize
    }
}

/// The window messages counted as viewport events: move (0x0003), size
/// (0x0005), paint (0x000F), position changed (0x0047) and end of a
/// move or resize (0x0232).
pub open spec fn is_viewport_message(msg: u32) -> bool {
    msg == 0x0003 || msg == 0x0005 || msg == 0x000F || msg == 0x0047 || msg == 0x0232
}

/// Whether a window message is counted as a viewport event.
pub fn counts_as_viewport_event(msg: u32) -> (b: bool)
    ensures
        b == is_viewport_message(msg),
{
    msg == 0x0003 || msg == 0x0005 || msg == 0x000F || msg == 0x0047 || msg == 0x0232
}

/// The corner zones win over the edges they touch.
pub proof fn lemma_corners_win(x: int, y: int, r: Rect)
    requires
        r.left <= x < r.left + RESIZE_BORDER,
        r.top <= y < r.top + RESIZE_BORDER,
    ensures
        hit_zone(x, y, r) is TopLeft,
{
}

/// A point well inside the client rectangle, at least `RESIZE_BORDER` pixels
/// from every edge, is client area.
pub proof fn lemma_interior_is_client(x: int, y: int, r: Rect)
    requires
        r.left + RESIZE_BORDER <= x < r.right - RESIZE_BORDER,
        r.top + RESIZE_BORDER <= y < r.bottom - RESIZE_BORDER,
    ensures
        hit_zone(x, y, r) is Client,
{
}

} // verus!
