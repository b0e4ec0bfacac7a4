//! Verified core of a RISC-V SBI firmware.
pub mod binary;
pub mod bytes;
pub mod ext;
pub mod firmware;
pub mod platform;
pub mod rpmi;
pub mod sbi;
