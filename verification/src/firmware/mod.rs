//! Protection of physical memory.
pub mod domain;
