//! Board discovery and start-up.
pub mod boot;
pub mod flow;
pub mod mbox;
