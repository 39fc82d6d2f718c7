//! The rows of the store: their shapes, and what is written and read of them.

pub mod attachments;
pub mod audit;
pub mod bounce_rules;
pub mod columns;
pub mod emails;
pub mod forwarding;
pub mod listing;
pub mod mailboxes;
pub mod settings;
pub mod statements;
pub mod webhooks;
