pub mod gradient;
pub mod overlay;
