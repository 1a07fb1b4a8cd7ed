//! Screen-to-light-grid ambience: each captured frame is reduced to an 8×8 grid
//! of averaged colors, every average is shaped into a saturated device color,
//! and the batch is handed to a light grid, one frame after another.
//!
//! All arithmetic is exact integer arithmetic. Fractions (brightness,
//! intensity) are held in thousandths, and the shaping curve is stated over
//! squares so that no root or fractional power has to be taken.

pub mod color;
pub mod grid;
pub mod frame;
pub mod reduce;
pub mod config;
pub mod shape;
pub mod pipeline;
pub mod frame_loop;
