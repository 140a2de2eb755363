//! Shared-library health scanning: binary classification, probe-output
//! classification, result aggregation and report rendering.

pub mod elf;
pub mod text;
pub mod probe;
pub mod report;
pub mod render;
pub mod progress;
pub mod config;
pub mod audit;
