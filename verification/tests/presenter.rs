//! The presenter: camera ownership and the per-frame draw values.

use game_of_life::camera::UNIT;
use game_of_life::{CameraEvent, Controller, Presenter};

#[test]
fn presenter_owns_a_fresh_camera() {
    let p = Presenter::new((64, 64), (1024, 768));
    assert_eq!(p.camera().scale, UNIT);
    assert_eq!(p.camera().translation_x, 0);
    assert_eq!(p.camera().game_w, 64);
}

#[test]
fn presenter_forwards_events_to_the_camera() {
    let mut p = Presenter::new((64, 64), (1024, 1024));
    p.update(CameraEvent::Scroll { ticks: 5 });
    assert_eq!(p.camera().scale, 1_500_000);
}

#[test]
fn frame_values_pair_transform_and_pick() {
    let mut p = Presenter::new((64, 64), (1024, 1024));
    p.update(CameraEvent::CursorMoved { x: 8, y: 8 });
    let (matrix, picked) = p.frame_values();
    assert_eq!(matrix.scale_x, UNIT);
    assert_eq!(matrix.translation_x, 0);
    assert_eq!(picked, [0, 0]);
}

#[test]
fn monitor_bound_comes_in_millihertz() {
    let c = Controller::from_monitor(Some(144_999));
    assert_eq!(c.speed(), 60);
    let mut c = c;
    c.set_speed(500);
    assert_eq!(c.speed(), 144);
    let d = Controller::from_monitor(None);
    c.set_speed(0);
    assert_eq!(d.speed(), 60);
}
