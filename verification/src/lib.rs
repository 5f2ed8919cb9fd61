//! An instruction-accurate emulator core for a 32-bit RISC processor.
//!
//! The crate is built from four subsystems: a hierarchical, leasable
//! address-space model (`address`), a mode-banked register file with
//! program-status-register semantics (`registers`), a decoder from
//! 32-bit machine words to typed instructions (`processor`), and an
//! execution engine composing the three (`computer`).  A generic
//! key-value memory map (`memory`) predates the region model and is kept
//! for its callers.

pub mod address;
pub mod computer;
pub mod memory;
pub mod processor;
pub mod registers;
