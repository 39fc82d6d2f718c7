//! What requests ask with and what they are answered with.

use vstd::prelude::*;

verus! {

/// The query of a list of emails.
#[derive(Debug)]
pub struct ListMessagesQuery {
    pub mailbox_id: Option<String>,
    pub limit: Option<u32>,
    pub offset: Option<u32>,
}

/// The query of a list of mailboxes.
#[derive(Debug)]
pub struct ListMailboxesQuery {
    pub project_id: Option<String>,
}

/// What a search asks with.
#[derive(Debug)]
pub struct SearchBody {
    pub q: String,
    pub mailbox_id: Option<String>,
    pub limit: Option<u32>,
}

/// What is told of the running engine.
#[derive(Debug)]
pub struct InfoResponse {
    pub version: &'static str,
    pub uptime_sec: i64,
    pub running_mailboxes: u32,
    pub bind_host: String,
    pub http_port: u16,
}

/// How many rows went.
#[derive(Debug)]
pub struct DeletedCount {
    pub deleted: u64,
}

} // verus!
