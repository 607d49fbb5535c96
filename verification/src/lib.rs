//! Integer core of a two-dimensional acoustic wave simulator based on the
//! transmission-line matrix method: grid indexing, wall geometry, the layout of
//! the absorbing boundary and the editing decisions taken on user input.

pub mod components;
pub mod grid;
pub mod input;
pub mod math;
pub mod render;
pub mod simulation;
pub mod ui;
