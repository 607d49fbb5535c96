pub mod constants;
pub mod fft;
pub mod transformations;
pub mod rect;
