//! What happens to a captured email: it is stored, announced and forwarded, and in
//! the end it is pruned.

pub mod forwarding;
pub mod ingest;
pub mod retention;
pub mod webhooks;
