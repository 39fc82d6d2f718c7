//! Events of the engine. Whoever embeds it implements [`EventSink`].

use vstd::prelude::*;
use vstd::string::*;

use crate::db::audit::AuditEntry;
use crate::db::emails::EmailSummary;
use crate::db::settings::SettingsSection;
use crate::text::unicode;

verus! {

/// Receives the events of the engine.
pub trait EventSink {
    fn emit(&self, event: CoreEvent);
}

/// An event of the engine.
#[derive(Debug, Clone)]
pub enum CoreEvent {
    NewEmail { mailbox_id: String, email: EmailSummary },
    MailboxStateChanged { mailbox_id: String, change: MailboxStateChange },
    ServerStatusChanged { status: ServerStatus },
    SettingsChanged { section: SettingsSection },
    AuditAppended { entry: AuditEntry },
}

/// What happened to a mailbox.
#[derive(Debug, Clone)]
pub enum MailboxStateChange {
    Created,
    Updated,
    Deleted,
    Started,
    Stopped,
    Expired,
    Failed { error: String },
}

/// The state of the servers.
#[derive(Debug, Clone)]
pub struct ServerStatus {
    pub running_mailboxes: u32,
    pub http_running: bool,
    pub errors: Vec<String>,
}

/// Whether an address bounces for good or for now.
#[derive(Debug, Clone, Copy, PartialEq, Eq, Structural)]
pub enum BounceKind {
    Hard,
    Soft,
}

/// The name of a kind of bounce.
pub open spec fn bounce_name(k: BounceKind) -> Seq<char> {
    match k {
        BounceKind::Hard => "hard"@,
        BounceKind::Soft => "soft"@,
    }
}

/// The kind of bounce that a name stands for. All but `soft` is hard.
pub open spec fn bounce_named(s: Seq<char>) -> BounceKind {
    if unicode::same_ignoring_case(s, "soft"@) {
        BounceKind::Soft
    } else {
        BounceKind::Hard
    }
}

impl BounceKind {
    /// The name of the kind.
    pub fn as_str(self) -> (r: &'static str)
        ensures
            r@ == bounce_name(self),
    {
        match self {
            BounceKind::Hard => "hard",
            BounceKind::Soft => "soft",
        }
    }

    /// The kind that a name stands for, whatever the case of its letters.
    pub fn from_str(s: &str) -> (r: Self)
        ensures
            r == bounce_named(s@),
    {
        if unicode::eq_ignoring_case(s, "soft") {
            BounceKind::Soft
        } else {
            BounceKind::Hard
        }
    }
}

/// A kind of bounce is found again by its name.
pub proof fn law_bounce_names_round_trip(k: BounceKind)
    ensures
        bounce_named(bounce_name(k)) == k,
{
    reveal_strlit("hard");
    reveal_strlit("soft");
    assert("hard"@[0] == 'h');
    assert("soft"@[0] == 's');
    if k == BounceKind::Hard {
        assert(unicode::ascii_lower("hard"@)[0] == 'h');
        assert(unicode::ascii_lower("soft"@)[0] == 's');
    }
}

} // verus!
