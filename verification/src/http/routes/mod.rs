//! The endpoints.

pub mod audit;
pub mod bounces;
pub mod emails;
pub mod events;
pub mod health;
pub mod mailtrap;
pub mod paging;
pub mod wait;
