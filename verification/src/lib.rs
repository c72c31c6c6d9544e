//! Conway's Game of Life on a fixed-size toroidal grid, with an RGBA pixel
//! buffer mirroring the grid for display.
//!
//! The grid state machine (`Universe`) owns two cell arrays of identical
//! length and advances one generation per `tick`, reporting every cell whose
//! state flipped. The pixel buffer maps each cell to a 4-byte RGBA quad:
//! alive cells are opaque white, dead cells opaque black.

pub mod laws;
pub mod model;
pub mod universe;

pub use model::Cell;
pub use model::Transition;
pub use universe::CreationError;
pub use universe::Universe;
