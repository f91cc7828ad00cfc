//! Where cached objects are kept.
pub mod cache_zone;
pub mod database;
