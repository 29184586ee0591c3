//! Small helpers around pattern matching.

pub mod regex;
