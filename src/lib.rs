//! Line search over text: the lines of a body of text that contain a query,
//! matched exactly or after lowercasing.

pub mod text;
pub mod search;
pub mod config;
pub mod laws;
