//! Interfaces of the SBI extensions.
pub mod dbtr;
pub mod fwft;
pub mod mpxy;
pub mod sse;
