pub mod domain;
pub mod fmt_utils;
pub mod nexus;
pub mod player;
pub mod realm;
pub mod referrer;
