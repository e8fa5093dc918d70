//! Conway's Game of Life: a verified model of the simulation core.
//!
//! The library holds the grid evolution rule, the camera transform that maps
//! device pixels to grid cells and back, the frame-pacing rules, and the
//! per-frame decision machine of the driver loop. Rendering, windowing and
//! GPU plumbing live outside the library and consume the values computed here.

use vstd::prelude::*;

pub mod camera;
pub mod config;
pub mod controller;
pub mod driver;
pub mod presenter;
pub mod simulation;

pub use camera::Camera;
pub use camera::CameraEvent;
pub use camera::CameraMatrix;
pub use config::Config;
pub use controller::Controller;
pub use driver::Driver;
pub use driver::FramePlan;
pub use presenter::Presenter;
pub use simulation::Simulation;

verus! {

/// An out-of-band command sent from the control panel to the driver loop.
#[derive(Debug)]
pub enum Message {
    Randomize,
    Clear,
}

} // verus!
