//! Grid dimensions fixed at startup.

use vstd::prelude::*;

verus! {

/// The configuration of the simulation: the grid's width and height in cells,
/// fixed for the lifetime of the process.
pub struct Config {
    pub width: u32,
    pub height: u32,
}

/// The default number of cells along each axis of the grid.
pub const DEFAULT_DIM: u32 = 1024;

impl Config {
    /// Builds a configuration with the given grid dimensions.
    pub fn new(width: u32, height: u32) -> (c: Config)
        ensures
            c.width == width,
            c.height == height,
    {
        Config { width, height }
    }

    /// Returns dimensions of the simulation.
    pub fn size(&self) -> (s: (u32, u32))
        ensures
            s.0 == self.width,
            s.1 == self.height,
    {
        (self.width, self.height)
    }
}

impl Default for Config {
    /// The default grid is square, `DEFAULT_DIM` cells along each axis.
    fn default() -> (c: Config)
        ensures
            c.width == DEFAULT_DIM,
            c.height == DEFAULT_DIM,
    {
        Config { width: DEFAULT_DIM, height: DEFAULT_DIM }
    }
}

} // verus!
