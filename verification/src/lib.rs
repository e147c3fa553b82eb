//! Window-layout snapshot logic: accessibility error handling, window
//! selection and display association, and the human-readable report.

pub mod text;
pub mod ax;
pub mod model;
pub mod collector;
pub mod string_map;
pub mod screenshot;
pub mod output;
pub mod completion;
