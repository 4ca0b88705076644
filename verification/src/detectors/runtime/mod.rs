//! Rules for the inspected state of a running container, given as a JSON
//! document.

pub mod jsonpath;
pub mod scanner;
pub mod yaml_rules;
