//! The two rule dialects and their matchers.

pub mod dockerfile;
pub mod loader;
pub mod runtime;
