//! The verified part of Swapper, which switches between saved Riot accounts.
//!
//! Nothing here touches a file, a process or a socket. A flow that alternates such work with
//! decisions is a value that says what to do next and takes note of what came of it; the program
//! around the library does the work.

pub mod codec;
pub mod detection;
pub mod identity;
pub mod json;
pub mod lcu;
pub mod notify;
pub mod number;
pub mod remote;
pub mod riot;
pub mod riot_client;
pub mod text;
pub mod unicode;
pub mod vault;
pub mod view;
pub mod windows;
