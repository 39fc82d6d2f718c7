//! SMTP paths and captured messages.

pub mod address;
pub mod headers;
pub mod message;
pub mod parse;
