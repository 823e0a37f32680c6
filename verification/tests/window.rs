use eden_explorer::window::{
    borderless_style, center_on_span, color32_to_dwm, counts_as_viewport_event, get_x_lparam,
    get_y_lparam, hit_test, maximize_bounds, toggle_fullscreen_command, HitZone,
    MaximizeBounds, Rect, ShowCommand, FRAME_STYLE, MIN_HEIGHT, MIN_WIDTH, RESIZE_BORDER,
    WS_CAPTION,
};

const CLIENT: Rect = Rect { left: 100, top: 50, right: 900, bottom: 650 };

#[test]
fn corners_take_precedence_over_edges() {
    assert_eq!(hit_test(100, 50, CLIENT), HitZone::TopLeft);
    assert_eq!(hit_test(101, 51, CLIENT), HitZone::TopLeft);
    assert_eq!(hit_test(899, 50, CLIENT), HitZone::TopRight);
    assert_eq!(hit_test(100, 649, CLIENT), HitZone::BottomLeft);
    assert_eq!(hit_test(898, 648, CLIENT), HitZone::BottomRight);
}

#[test]
fn edges_and_client_area() {
    assert_eq!(hit_test(100, 300, CLIENT), HitZone::Left);
    assert_eq!(hit_test(899, 300, CLIENT), HitZone::Right);
    assert_eq!(hit_test(500, 51, CLIENT), HitZone::Top);
    assert_eq!(hit_test(500, 649, CLIENT), HitZone::Bottom);
    assert_eq!(hit_test(500, 300, CLIENT), HitZone::Client);
    assert_eq!(hit_test(100 + RESIZE_BORDER, 50 + RESIZE_BORDER, CLIENT), HitZone::Client);
}

#[test]
fn points_outside_the_client_area_are_client() {
    assert_eq!(hit_test(99, 300, CLIENT), HitZone::Client);
    assert_eq!(hit_test(900, 650, CLIENT), HitZone::Client);
}

#[test]
fn pointer_coordinates_are_sign_extended() {
    let lparam = ((0x0040_isize) << 16) | 0x0030;
    assert_eq!(get_x_lparam(lparam), 0x30);
    assert_eq!(get_y_lparam(lparam), 0x40);
    assert_eq!(get_x_lparam(0xFFFF), -1);
    assert_eq!(get_y_lparam(0xFFFF_0000), -1);
    assert_eq!(get_x_lparam(0x8000), -32768);
    assert_eq!(get_x_lparam(0x7FFF), 32767);
    assert_eq!(get_x_lparam(-2), -2);
}

#[test]
fn colors_are_packed_red_first() {
    assert_eq!(color32_to_dwm(0x12, 0x34, 0x56), 0x0056_3412);
    assert_eq!(color32_to_dwm(255, 0, 0), 0xFF);
    assert_eq!(color32_to_dwm(0, 0, 255), 0xFF_0000);
}

#[test]
fn borderless_style_drops_the_caption_and_keeps_the_frame() {
    let style = 0x00CF_0000 | 0x1000_0000;
    let s = borderless_style(style);
    assert_eq!(s & WS_CAPTION, 0);
    assert_eq!(s & FRAME_STYLE, FRAME_STYLE);
    assert_eq!(s, 0x100F_0000);
    assert_eq!(borderless_style(0), FRAME_STYLE);
}

#[test]
fn centering_rounds_toward_zero() {
    assert_eq!(center_on_span(0, 1920, 1280), 320);
    assert_eq!(center_on_span(0, 1921, 1280), 320);
    assert_eq!(center_on_span(100, 700, 800), 0);
    assert_eq!(center_on_span(0, 600, 801), -100);
}

#[test]
fn maximized_window_covers_the_work_area() {
    let work = Rect { left: 1920, top: 0, right: 3840, bottom: 1040 };
    let monitor = Rect { left: 1920, top: 0, right: 3840, bottom: 1080 };
    assert_eq!(
        maximize_bounds(work, monitor),
        MaximizeBounds {
            min_width: MIN_WIDTH,
            min_height: MIN_HEIGHT,
            max_x: 0,
            max_y: 0,
            max_width: 1920,
            max_height: 1040,
        }
    );
    let left_taskbar = Rect { left: 60, top: 0, right: 1920, bottom: 1080 };
    let full = Rect { left: 0, top: 0, right: 1920, bottom: 1080 };
    let b = maximize_bounds(left_taskbar, full);
    assert_eq!((b.max_x, b.max_width), (60, 1860));
}

#[test]
fn fullscreen_toggles() {
    assert_eq!(toggle_fullscreen_command(true), ShowCommand::Restore);
    assert_eq!(toggle_fullscreen_command(false), ShowCommand::Maximize);
}

#[test]
fn viewport_messages() {
    for msg in [0x0003, 0x0005, 0x000F, 0x0047, 0x0232] {
        assert!(counts_as_viewport_event(msg));
    }
    for msg in [0x0000, 0x0084, 0x0024, 0x0201] {
        assert!(!counts_as_viewport_event(msg));
    }
}
