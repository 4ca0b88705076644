//! The forms in which findings are handed to whatever writes them out.

pub mod exporters;
pub mod printer;
