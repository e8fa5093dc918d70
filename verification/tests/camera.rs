//! The camera: zoom and pan clamping, and pick/forward inversion.

use game_of_life::camera::{CURSOR_BOUND, SCALE_MAX_DEFAULT, SCALE_MIN, UNIT};
use game_of_life::{Camera, CameraEvent};

fn moved(x: i64, y: i64) -> CameraEvent {
    CameraEvent::CursorMoved { x, y }
}

#[test]
fn new_camera_is_centered_at_zoom_one() {
    let cam = Camera::new((64, 64), (1024, 768));
    assert_eq!(cam.scale, UNIT);
    assert_eq!(cam.translation_x, 0);
    assert_eq!(cam.translation_y, 0);
    assert!(!cam.moving);
    assert_eq!(cam.screen_w, 1024);
    assert_eq!(cam.screen_h, 768);
}

#[test]
fn scroll_zooms_relatively() {
    let mut cam = Camera::new((64, 64), (1024, 1024));
    cam.update(CameraEvent::Scroll { ticks: 5 });
    // One tick adds a tenth of the current zoom.
    assert_eq!(cam.scale, 1_500_000);
    cam.update(CameraEvent::Scroll { ticks: -5 });
    assert_eq!(cam.scale, 750_000);
}

#[test]
fn zoom_stays_within_bounds_after_many_scrolls() {
    let mut cam = Camera::new((64, 64), (1024, 1024));
    for _ in 0..300 {
        cam.update(CameraEvent::Scroll { ticks: 9 });
    }
    assert_eq!(cam.scale, SCALE_MAX_DEFAULT);
    for _ in 0..300 {
        cam.update(CameraEvent::Scroll { ticks: -9 });
    }
    assert_eq!(cam.scale, SCALE_MIN);
}

#[test]
fn drag_accumulates_translation() {
    let mut cam = Camera::new((64, 64), (1024, 1024));
    cam.update(CameraEvent::DragButton { pressed: true });
    // Half a screen of motion at zoom one adds one whole unit of pan.
    cam.update(moved(512, 0));
    assert_eq!(cam.translation_x, UNIT);
    assert_eq!(cam.translation_y, 0);
}

#[test]
fn translation_stays_clamped_after_long_drags() {
    let mut cam = Camera::new((64, 64), (1024, 1024));
    cam.update(CameraEvent::DragButton { pressed: true });
    let mut x: i64 = 0;
    for _ in 0..50 {
        x += 700;
        cam.update(moved(x, x));
    }
    assert_eq!(cam.translation_x, UNIT);
    assert_eq!(cam.translation_y, UNIT);
    for _ in 0..100 {
        x -= 700;
        cam.update(moved(x, x));
    }
    assert_eq!(cam.translation_x, -UNIT);
    assert_eq!(cam.translation_y, -UNIT);
}

#[test]
fn cursor_moves_without_drag_do_not_pan() {
    let mut cam = Camera::new((64, 64), (1024, 1024));
    cam.update(moved(300, 200));
    assert_eq!(cam.translation_x, 0);
    assert_eq!(cam.translation_y, 0);
    assert_eq!(cam.cursor_x, 300);
    assert_eq!(cam.cursor_y, 200);
}

#[test]
fn wild_cursor_positions_are_clamped() {
    let mut cam = Camera::new((64, 64), (1024, 1024));
    cam.update(moved(10_000_000, -10_000_000));
    assert_eq!(cam.cursor_x, CURSOR_BOUND);
    assert_eq!(cam.cursor_y, -CURSOR_BOUND);
}

#[test]
fn zero_area_resize_is_ignored() {
    let mut cam = Camera::new((64, 64), (1024, 768));
    cam.update(CameraEvent::Resized { width: 0, height: 500 });
    assert_eq!(cam.screen_w, 1024);
    assert_eq!(cam.screen_h, 768);
    cam.update(CameraEvent::Resized { width: 800, height: 600 });
    assert_eq!(cam.screen_w, 800);
    assert_eq!(cam.screen_h, 600);
}

#[test]
fn matrix_carries_aspect_correction() {
    // Grid twice as wide as tall, viewport twice as wide as tall: the
    // correction cancels and both axes scale alike.
    let cam = Camera::new((64, 32), (1024, 512));
    let m = cam.matrix();
    assert_eq!(m.scale_x, UNIT);
    assert_eq!(m.scale_y, UNIT as i128);
    // A square viewport under a grid twice as wide as tall: the vertical
    // scale halves so that cells still render square.
    let cam2 = Camera::new((64, 32), (512, 512));
    let m2 = cam2.matrix();
    assert_eq!(m2.scale_y, (UNIT / 2) as i128);
}

fn assert_round_trip(cam: &Camera, cell: [u32; 2]) {
    let (px, py) = cam.cell_screen_position(cell);
    let mut probe = *cam;
    probe.update(CameraEvent::DragButton { pressed: false });
    probe.update(moved(px, py));
    assert_eq!(probe.cursor_game_position(), cell);
}

#[test]
fn pick_recovers_cell_centers() {
    let cam = Camera::new((64, 64), (1024, 1024));
    for cell in [[0, 0], [63, 0], [0, 63], [63, 63], [32, 32], [1, 62]] {
        assert_round_trip(&cam, cell);
    }
}

#[test]
fn picked_cell_checks_the_grid_range() {
    let mut cam = Camera::new((64, 64), (1024, 1024));
    // Cell (0, 0) spans the first sixteen pixels of each axis.
    cam.update(moved(8, 8));
    assert_eq!(cam.picked_cell(), Some([0, 0]));
    assert_eq!(cam.cursor_game_position(), [0, 0]);
    // Pan the grid a full unit to the right: the cursor at the left edge now
    // sits left of the grid, and there is no cell to toggle there (while the
    // saturated position still reads zero).
    cam.update(CameraEvent::DragButton { pressed: true });
    cam.update(moved(520, 8));
    cam.update(CameraEvent::DragButton { pressed: false });
    assert_eq!(cam.translation_x, UNIT);
    cam.update(moved(0, 512));
    assert_eq!(cam.picked_cell(), None);
    assert_eq!(cam.cursor_game_position()[0], 0);
}

#[test]
fn pick_recovers_cells_after_pan_and_zoom() {
    let mut cam = Camera::new((64, 64), (1024, 1024));
    cam.update(CameraEvent::Scroll { ticks: 7 });
    cam.update(CameraEvent::DragButton { pressed: true });
    cam.update(moved(200, -120));
    cam.update(moved(40, 60));
    cam.update(CameraEvent::DragButton { pressed: false });
    cam.update(CameraEvent::Resized { width: 900, height: 700 });
    for cell in [[0, 0], [63, 63], [17, 45], [32, 32]] {
        assert_round_trip(&cam, cell);
    }
}
