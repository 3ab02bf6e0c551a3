//! Presentation helpers.
pub mod utils;
