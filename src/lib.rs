//! Task control blocks, the address spaces they own, and the single-processor
//! dispatcher of a small teaching kernel, with their behaviour proved.

pub mod config;
pub mod mm;
pub mod processor;
pub mod task;
