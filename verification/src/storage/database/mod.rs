//! Databases of object metadata.
pub mod gc;
