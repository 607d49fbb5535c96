pub mod states;
pub mod wall;
