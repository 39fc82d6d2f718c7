//! Decision core of a local mail-capture engine: SMTP path parsing, message
//! projection, mailbox lifecycle, predicates, rendering previews and the rules
//! of the HTTP surface, each with its contract.

pub mod clock;
pub mod config;
pub mod db;
pub mod error;
pub mod events;
pub mod fuzz;
pub mod http;
pub mod ident;
pub mod json;
pub mod mail;
pub mod mailbox;
pub mod matcher;
pub mod patterns;
pub mod pipeline;
pub mod recording;
pub mod rendering;
pub mod text;

pub use crate::config::{BindHost, CoreConfig};
pub use crate::db::audit::AuditEntry;
pub use crate::db::bounce_rules::BounceRule;
pub use crate::db::emails::{AttachmentMeta, EmailDetail, EmailSummary};
pub use crate::db::mailboxes::{
    CreateEphemeralInput, CreateMailboxInput, EphemeralHandle, Mailbox, UpdateMailboxInput,
};
pub use crate::db::settings::{
    AdvancedPrefs, AgentPrefs, BackendSettings, InboxPrefs, NetworkPrefs, SettingsPatch,
    SettingsSection,
};
pub use crate::error::Error;
pub use crate::events::{BounceKind, CoreEvent, EventSink, MailboxStateChange, ServerStatus};
pub use crate::mailbox::kinds::MailboxKind;
