//! Decoding of box-drawn maze diagrams into grids of cells.

pub mod cell;
pub mod errors;
pub mod lines;
pub mod maze;
pub mod parser;
