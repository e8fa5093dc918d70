//! Frame pacing: the speed budget, the frames-per-second window, and the
//! driver's per-frame decisions.

use game_of_life::{Config, Controller, Driver, Message};

#[test]
fn controller_starts_at_sixty_or_the_monitor_bound() {
    let c = Controller::new(144);
    assert_eq!(c.speed(), 60);
    let slow = Controller::new(30);
    assert_eq!(slow.speed(), 30);
}

#[test]
fn set_speed_clamps_to_the_monitor_bound() {
    let mut c = Controller::new(75);
    c.set_speed(200);
    assert_eq!(c.speed(), 75);
    c.set_speed(0);
    assert_eq!(c.speed(), 0);
    c.set_speed(40);
    assert_eq!(c.speed(), 40);
}

#[test]
fn grid_switch() {
    let mut c = Controller::new(60);
    assert!(!c.grid());
    c.set_grid(true);
    assert!(c.grid());
}

#[test]
fn fps_window_drops_entries_a_second_old() {
    let mut c = Controller::new(60);
    c.record_frame(0);
    assert_eq!(c.fps(), 1);
    c.record_frame(600);
    assert_eq!(c.fps(), 2);
    // The frame at time zero is now a full second old and leaves.
    c.record_frame(1000);
    assert_eq!(c.fps(), 2);
    c.record_frame(2600);
    assert_eq!(c.fps(), 1);
}

#[test]
fn zero_speed_never_steps() {
    let mut d = Driver::new();
    let mut now: u64 = 0;
    for _ in 0..100 {
        now += 10_000;
        let plan = d.plan_frame(now, 0);
        assert!(!plan.step);
        assert!(plan.draw);
    }
}

#[test]
fn steps_follow_the_budget() {
    let mut d = Driver::new();
    // At sixty steps per second a step is due after more than 16 ms.
    let p = d.plan_frame(16, 60);
    assert!(!p.step);
    let p = d.plan_frame(17, 60);
    assert!(p.step);
    // The step clock restarted at 17.
    let p = d.plan_frame(30, 60);
    assert!(!p.step);
    let p = d.plan_frame(34, 60);
    assert!(p.step);
}

#[test]
fn minimized_frames_skip_step_and_draw() {
    let mut d = Driver::new();
    d.on_resize(0, 500);
    let mut now: u64 = 0;
    for _ in 0..10 {
        now += 10_000;
        let plan = d.plan_frame(now, 60);
        assert!(!plan.step);
        assert!(!plan.draw);
        assert!(!plan.flip);
    }
    // A resize with both dimensions nonzero resumes the frame work.
    d.on_resize(800, 600);
    let plan = d.plan_frame(now + 10_000, 60);
    assert!(plan.step);
    assert!(plan.draw);
}

#[test]
fn flip_requests_are_carried_out_once() {
    let mut d = Driver::new();
    d.on_flip_request();
    let p = d.plan_frame(100, 0);
    assert!(p.flip);
    let p = d.plan_frame(200, 0);
    assert!(!p.flip);
}

#[test]
fn flip_requests_survive_minimized_frames() {
    let mut d = Driver::new();
    d.on_flip_request();
    d.on_resize(0, 0);
    let p = d.plan_frame(100, 60);
    assert!(!p.flip);
    d.on_resize(640, 480);
    let p = d.plan_frame(200, 60);
    assert!(p.flip);
}

#[test]
fn config_defaults_and_size() {
    let c = Config::default();
    assert_eq!(c.size(), (1024, 1024));
    let c = Config::new(320, 200);
    assert_eq!(c.size(), (320, 200));
}

#[test]
fn messages_exist_for_both_commands() {
    let m = Message::Randomize;
    let n = Message::Clear;
    assert!(matches!(m, Message::Randomize));
    assert!(matches!(n, Message::Clear));
}
