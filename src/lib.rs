//! A terminal analog clock: geometry, composition, aspect correction and
//! frame differencing, with the rendering rules stated as contracts.

pub mod angle;
pub mod cli;
pub mod clock;
pub mod color;
pub mod diff;
pub mod frame;
pub mod geometry;
pub mod rescale;
pub mod theme;
