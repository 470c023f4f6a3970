//! The business modules that plug into the console.
pub mod team;
