//! Reset-to-entry bootstrap and trap dispatch for RISC-V cores with a
//! core-local vectored interrupt controller.
//!
//! - `field`: masked bit-field reads and read-modify-writes of one register.
//! - `clic`: the controller's register window and register layout.
//! - `controller`: per-interrupt operations and the next-pending-interrupt
//!   loop.
//! - `boot`: hart election, section initialization, the reset sequence and
//!   trap-vector programming.
//! - `trap`: cause decoding, static-table dispatch and the saved register
//!   frame.

pub mod field;
pub mod clic;
pub mod controller;
pub mod trap;
pub mod boot;
pub mod decl;

pub use clic::MemoryMapper;
pub use trap::{Interrupt, TrapFrame};
