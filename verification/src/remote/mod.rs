//! Remote control: what it shows and what it may do.

pub mod catalog;
pub mod control;
pub mod laws;
pub mod lcu;
pub mod server;
pub mod service;
pub mod tailscale;
