//! The rules of the HTTP API: who is let in, what a request asks for and what it is
//! answered. Serving the requests is left to the caller.

pub mod auth;
pub mod dto;
pub mod error;
pub mod routes;
pub mod server;
