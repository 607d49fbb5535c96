pub mod plugin;
pub mod step;
pub mod systems;
