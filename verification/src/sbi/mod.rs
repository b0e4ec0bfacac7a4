//! Implementations of the SBI extensions.
pub mod cppc;
pub mod dbtr;
pub mod delegation;
pub mod features;
pub mod fwft;
pub mod hart_state;
pub mod hsm;
pub mod mpxy;
pub mod nacl;
pub mod reset;
pub mod rpmi_status;
pub mod sse;
pub mod sta;
pub mod suspend;
