//! The RISC-V platform management interface: messages, queues and service groups.
pub mod backend;
pub mod base_service;
pub mod cache;
pub mod client;
pub mod cppc;
pub mod cppc_service;
pub mod mailbox;
pub mod message;
pub mod queue_idx;
pub mod servicegroup;
pub mod smq;
