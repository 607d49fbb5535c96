pub mod panels;
pub mod state;
