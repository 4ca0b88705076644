//! Findings and their classification.

pub mod model;
pub mod scanner;
