//! Conway's Game of Life on a fixed-size grid whose neighbourhoods shrink at
//! the edges instead of wrapping around.
//!
//! [`generation`] holds the mathematical model of a grid and of the
//! transition rule, [`laws`] the properties proved of that model, and
//! [`engine`] the executable grid, whose contracts are stated over the model.

pub mod generation;
pub mod laws;
pub mod engine;
mod random;
