//! Rules for Dockerfiles.
//!
//! A rule is evaluated at one of three scopes: on every instruction of a kind,
//! on every build stage, or once on the whole file.

pub mod context;
pub mod document;
pub mod instruction_utils;
pub mod matcher;
pub mod optional_regex;
pub mod scanner;
pub mod yaml_rules;
