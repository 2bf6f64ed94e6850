//! Decisions about Windows processes, their windows, and paths.

pub mod path;
pub mod process;
pub mod stop;
pub mod wait;
