//! Mailboxes: their kinds, their ports and their lifecycle.

pub mod kinds;
pub mod lifecycle;
pub mod listeners;
pub mod ports;
pub mod service;
