pub mod arena;
pub mod chat;
pub mod game;
pub mod language;
pub mod metrics;
pub mod rank;
pub mod realm;
pub mod scene;
pub mod server;
pub mod tokens;
pub mod visitor;
