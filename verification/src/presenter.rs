//! The presenter: owns the camera and hands the renderer the values one
//! frame of drawing needs — the view transform and the picked cell.

use vstd::prelude::*;
use crate::camera::{
    sat_u32, pick_col, pick_row, update_spec, initial_camera, Camera, CameraEvent, CameraMatrix,
    MAX_GAME_DIM, MAX_SCREEN_DIM, SCALE_MAX_DEFAULT,
};

verus! {

/// The presenter: the camera, owned for the process lifetime. The draw pass
/// itself (render pass, pipeline, push constants) lives with the renderer;
/// everything it reads from this component is verified here.
pub struct Presenter {
    pub camera: Camera,
}

impl Presenter {
    /// A presenter over a `game_size` grid in a `screen_size` viewport.
    pub fn new(game_size: (u32, u32), screen_size: (u32, u32)) -> (p: Presenter)
        requires
            1 <= game_size.0 <= MAX_GAME_DIM,
            1 <= game_size.1 <= MAX_GAME_DIM,
            1 <= screen_size.0 <= MAX_SCREEN_DIM,
            1 <= screen_size.1 <= MAX_SCREEN_DIM,
        ensures
            p.camera.wf(),
            p.camera == initial_camera(game_size, screen_size, SCALE_MAX_DEFAULT),
    {
        Presenter { camera: Camera::new(game_size, screen_size) }
    }

    /// Forwards one input event to the camera.
    pub fn update(&mut self, event: CameraEvent)
        requires
            old(self).camera.wf(),
        ensures
            final(self).camera.wf(),
            final(self).camera == update_spec(old(self).camera, event),
    {
        self.camera.update(event);
    }

    /// Returns the camera.
    pub fn camera(&self) -> (cam: &Camera)
        ensures
            cam == self.camera,
    {
        &self.camera
    }

    /// The values a draw pass reads: the view transform and the grid cell
    /// under the cursor.
    pub fn frame_values(&self) -> (r: (CameraMatrix, [u32; 2]))
        requires
            self.camera.wf(),
        ensures
            r.0.scale_x == self.camera.scale,
            r.0.scale_y == self.camera.scale * self.camera.game_h * self.camera.screen_w / (
            self.camera.game_w * self.camera.screen_h),
            r.0.translation_x == self.camera.translation_x,
            r.0.translation_y == self.camera.translation_y,
            r.1[0] == sat_u32(pick_col(self.camera, self.camera.cursor_x as int)),
            r.1[1] == sat_u32(pick_row(self.camera, self.camera.cursor_y as int)),
    {
        (self.camera.matrix(), self.camera.cursor_game_position())
    }
}

} // verus!
