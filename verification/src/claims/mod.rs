pub mod keys;
pub mod laws;
pub mod map;
pub mod subsets;
pub mod values;
