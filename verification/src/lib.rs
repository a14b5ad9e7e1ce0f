//! A grid-based snake simulation: a single snake moves across a bounded
//! grid one discrete tick at a time, eats randomly placed food, grows,
//! and dies when it runs into the border or into its own body.
//!
//! Fractional quantities (movement speed, growth per food item, the
//! leftover movement carried between ticks, and the target body length)
//! are held in fixed point, as integer counts of milli-cells: 1000
//! milli-cells make one grid cell.
//!
//! The playable region is the half-open rectangle of the bounds: the
//! snake dies the moment its head would land on the top or right border
//! line, or below the left or bottom one. Food is drawn from the same
//! region.

pub mod grid;
pub mod laws;
pub mod render;
mod rng;
pub mod state;
pub mod timestep;
