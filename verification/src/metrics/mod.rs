pub mod discrete;
pub mod histogram;
pub mod navigation;
pub mod ratio;
