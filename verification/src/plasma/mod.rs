pub mod dto;
pub mod heartbeat;
pub mod topology;
