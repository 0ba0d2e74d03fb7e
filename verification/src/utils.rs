//! Small helpers shared by the other modules.

pub mod iter;
pub mod text;
