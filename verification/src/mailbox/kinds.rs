//! The kinds of mailboxes.

use vstd::prelude::*;
use vstd::string::*;

use crate::text::chars::str_eq;

verus! {

/// The kind of a mailbox.
#[derive(Debug, Clone, Copy, PartialEq, Eq, Structural)]
pub enum MailboxKind {
    Primary,
    Shared,
    Ephemeral,
}

/// The name of a kind.
pub open spec fn name_of(k: MailboxKind) -> Seq<char> {
    match k {
        MailboxKind::Primary => "primary"@,
        MailboxKind::Shared => "shared"@,
        MailboxKind::Ephemeral => "ephemeral"@,
    }
}

/// The kind with a given name.
pub open spec fn kind_named(s: Seq<char>) -> Option<MailboxKind> {
    if s == "primary"@ {
        Some(MailboxKind::Primary)
    } else if s == "shared"@ {
        Some(MailboxKind::Shared)
    } else if s == "ephemeral"@ {
        Some(MailboxKind::Ephemeral)
    } else {
        None
    }
}

impl MailboxKind {
    /// The name of the kind.
    pub fn as_str(self) -> (r: &'static str)
        ensures
            r@ == name_of(self),
    {
        match self {
            MailboxKind::Primary => "primary",
            MailboxKind::Shared => "shared",
            MailboxKind::Ephemeral => "ephemeral",
        }
    }

    /// The kind with the name `s`.
    pub fn from_str(s: &str) -> (r: Option<Self>)
        ensures
            r == kind_named(s@),
    {
        if str_eq(s, "primary") {
            Some(MailboxKind::Primary)
        } else if str_eq(s, "shared") {
            Some(MailboxKind::Shared)
        } else if str_eq(s, "ephemeral") {
            Some(MailboxKind::Ephemeral)
        } else {
            None
        }
    }
}

/// A kind is found again by its name, and only by its name.
pub proof fn law_kind_names_round_trip(k: MailboxKind, s: Seq<char>)
    ensures
        kind_named(name_of(k)) == Some(k),
        kind_named(s) == Some(k) ==> s == name_of(k),
{
    reveal_strlit("primary");
    reveal_strlit("shared");
    reveal_strlit("ephemeral");
    assert("primary"@.len() != "shared"@.len());
    assert("primary"@.len() != "ephemeral"@.len());
    assert("shared"@.len() != "ephemeral"@.len());
}

} // verus!
