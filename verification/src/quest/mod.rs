pub mod events;
pub mod state;
