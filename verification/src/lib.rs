//! Data-freshness core of a small member portal: the two directory feeds are
//! merged into a sorted list of office holders, feeds are loaded with a
//! fall-back to the last good snapshot, and the rendered page is cached for a
//! fixed time.

pub mod cache;
pub mod directory;
pub mod errors;
pub mod json;
pub mod laws;
pub mod loader;
pub mod page;
pub mod service;
pub mod text;
