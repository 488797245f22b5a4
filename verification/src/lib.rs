//! Startup runtime for Arm Cortex-M parts, stated over a model of the machine.
//!
//! The crate holds the rules of the vector table (which slot carries which
//! handler on which architecture) and the memory initialisation that runs
//! between reset and the application's entry point, each with a contract.

pub mod vector;
pub mod memory;
pub mod startup;
