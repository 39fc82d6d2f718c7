//! The stream of events.

use vstd::prelude::*;
use vstd::string::*;

use crate::db::audit;
use crate::db::audit::AuditEntry;
use crate::db::settings;
use crate::events::{CoreEvent, MailboxStateChange, ServerStatus};
use crate::json;
use crate::json::Json;
use crate::pipeline::webhooks;
use crate::text::chars;
use crate::text::number;

verus! {

/// The name of an event.
pub open spec fn kind_of(e: CoreEvent) -> Seq<char> {
    match e {
        CoreEvent::NewEmail { .. } => "newEmail"@,
        CoreEvent::MailboxStateChanged { .. } => "mailboxStateChanged"@,
        CoreEvent::ServerStatusChanged { .. } => "serverStatusChanged"@,
        CoreEvent::SettingsChanged { .. } => "settingsChanged"@,
        CoreEvent::AuditAppended { .. } => "auditAppended"@,
    }
}

/// The name of an event.
pub fn kind(e: &CoreEvent) -> (r: &'static str)
    ensures
        r@ == kind_of(*e),
{
    match e {
        CoreEvent::NewEmail { .. } => "newEmail",
        CoreEvent::MailboxStateChanged { .. } => "mailboxStateChanged",
        CoreEvent::ServerStatusChanged { .. } => "serverStatusChanged",
        CoreEvent::SettingsChanged { .. } => "settingsChanged",
        CoreEvent::AuditAppended { .. } => "auditAppended",
    }
}

/// An object with nothing but its kind.
pub open spec fn of_kind(name: Seq<char>) -> Map<Seq<char>, json::JsonModel> {
    Map::empty().insert("kind"@, json::JsonModel::Text(name))
}

/// A change of a mailbox as JSON.
pub open spec fn change_json(c: MailboxStateChange) -> json::JsonModel {
    json::JsonModel::Object(
        match c {
            MailboxStateChange::Created => of_kind("created"@),
            MailboxStateChange::Updated => of_kind("updated"@),
            MailboxStateChange::Deleted => of_kind("deleted"@),
            MailboxStateChange::Started => of_kind("started"@),
            MailboxStateChange::Stopped => of_kind("stopped"@),
            MailboxStateChange::Expired => of_kind("expired"@),
            MailboxStateChange::Failed { error } => of_kind("failed"@).insert(
                "error"@,
                json::JsonModel::Text(error@),
            ),
        },
    )
}

/// The state of the servers as JSON.
pub open spec fn status_json(s: ServerStatus) -> json::JsonModel {
    json::JsonModel::Object(
        Map::empty().insert(
            "runningMailboxes"@,
            json::JsonModel::Int(s.running_mailboxes as i64),
        ).insert("httpRunning"@, json::JsonModel::Bool(s.http_running)).insert(
            "errors"@,
            json::text_items(chars::seq_views(s.errors@)),
        ),
    )
}

/// JSON that may be absent.
pub open spec fn json_or_null(j: Option<json::JsonModel>) -> json::JsonModel {
    match j {
        Some(v) => v,
        None => json::JsonModel::Null,
    }
}

/// A log entry as JSON.
pub open spec fn entry_json(e: AuditEntry) -> json::JsonModel {
    json::JsonModel::Object(
        Map::empty().insert("id"@, json::JsonModel::Int(e.id)).insert(
            "at"@,
            json::JsonModel::Int(e.at),
        ).insert("actor"@, json::JsonModel::Text(e.actor@)).insert(
            "action"@,
            json::JsonModel::Text(e.action@),
        ).insert("targetKind"@, json::opt_text(chars::opt_view(e.target_kind))).insert(
            "targetId"@,
            json::opt_text(chars::opt_view(e.target_id)),
        ).insert("metadata"@, json_or_null(audit::opt_json(e.metadata))),
    )
}

/// An event as JSON: its kind, and what goes with it.
pub open spec fn event_json(e: CoreEvent) -> json::JsonModel {
    let m = of_kind(kind_of(e));
    json::JsonModel::Object(
        match e {
            CoreEvent::NewEmail { mailbox_id, email } => m.insert(
                "mailboxId"@,
                json::JsonModel::Text(mailbox_id@),
            ).insert("email"@, webhooks::summary_json(email@)),
            CoreEvent::MailboxStateChanged { mailbox_id, change } => m.insert(
                "mailboxId"@,
                json::JsonModel::Text(mailbox_id@),
            ).insert("change"@, change_json(change)),
            CoreEvent::ServerStatusChanged { status } => m.insert("status"@, status_json(status)),
            CoreEvent::SettingsChanged { section } => m.insert(
                "section"@,
                json::JsonModel::Text(settings::section_name(section)),
            ),
            CoreEvent::AuditAppended { entry } => m.insert("entry"@, entry_json(entry)),
        },
    )
}

fn start_object(kind: &str) -> (r: Vec<(String, Json)>)
    ensures
        json::members_of(r@) == of_kind(kind@),
{
    let mut m: Vec<(String, Json)> = json::no_members();
    json::put(&mut m, "kind", Json::Text(kind.to_owned()));
    m
}

fn change_to_json(c: &MailboxStateChange) -> (r: Json)
    ensures
        r@ == change_json(*c),
{
    Json::Object(
        match c {
            MailboxStateChange::Created => start_object("created"),
            MailboxStateChange::Updated => start_object("updated"),
            MailboxStateChange::Deleted => start_object("deleted"),
            MailboxStateChange::Started => start_object("started"),
            MailboxStateChange::Stopped => start_object("stopped"),
            MailboxStateChange::Expired => start_object("expired"),
            MailboxStateChange::Failed { error } => {
                let mut m: Vec<(String, Json)> = start_object("failed");
                json::put(&mut m, "error", Json::Text(error.clone()));
                m
            },
        },
    )
}

fn status_to_json(s: &ServerStatus) -> (r: Json)
    ensures
        r@ == status_json(*s),
{
    let mut m: Vec<(String, Json)> = json::no_members();
    json::put(&mut m, "runningMailboxes", Json::Int(s.running_mailboxes as i64));
    json::put(&mut m, "httpRunning", Json::Bool(s.http_running));
    json::put(&mut m, "errors", json::text_array(&s.errors));
    Json::Object(m)
}

/// A log entry as JSON.
pub fn entry_to_json(e: &AuditEntry) -> (r: Json)
    ensures
        r@ == entry_json(*e),
{
    let mut m: Vec<(String, Json)> = json::no_members();
    json::put(&mut m, "id", Json::Int(e.id));
    json::put(&mut m, "at", Json::Int(e.at));
    json::put(&mut m, "actor", Json::Text(e.actor.clone()));
    json::put(&mut m, "action", Json::Text(e.action.clone()));
    json::put(&mut m, "targetKind", json::text_or_null(&e.target_kind));
    json::put(&mut m, "targetId", json::text_or_null(&e.target_id));
    let metadata: Json = match &e.metadata {
        Some(j) => j.copy(),
        None => Json::Null,
    };
    json::put(&mut m, "metadata", metadata);
    Json::Object(m)
}

/// An event as JSON: its kind, and what goes with it.
pub fn event_to_json(e: &CoreEvent) -> (r: Json)
    ensures
        r@ == event_json(*e),
{
    let mut m: Vec<(String, Json)> = start_object(kind(e));
    match e {
        CoreEvent::NewEmail { mailbox_id, email } => {
            json::put(&mut m, "mailboxId", Json::Text(mailbox_id.clone()));
            json::put(&mut m, "email", webhooks::summary_to_json(email));
        },
        CoreEvent::MailboxStateChanged { mailbox_id, change } => {
            json::put(&mut m, "mailboxId", Json::Text(mailbox_id.clone()));
            json::put(&mut m, "change", change_to_json(change));
        },
        CoreEvent::ServerStatusChanged { status } => {
            json::put(&mut m, "status", status_to_json(status));
        },
        CoreEvent::SettingsChanged { section } => {
            json::put(&mut m, "section", Json::Text(section.as_str().to_owned()));
        },
        CoreEvent::AuditAppended { entry } => {
            json::put(&mut m, "entry", entry_to_json(entry));
        },
    }
    Json::Object(m)
}

/// What a client is told that missed `n` events: the name and the data of the line.
pub fn lagged(n: u64) -> (r: (&'static str, String))
    ensures
        r.0@ == "lagged"@,
        r.1@ == number::decimal(n as nat),
{
    ("lagged", number::to_decimal(n))
}

/// The data of a line names the same event as the line itself.
pub proof fn law_event_names_agree(e: CoreEvent)
    ensures
        json::member_text(event_json(e), "kind"@) == Some(kind_of(e)),
{
    reveal_strlit("kind");
    reveal_strlit("mailboxId");
    reveal_strlit("email");
    reveal_strlit("change");
    reveal_strlit("status");
    reveal_strlit("section");
    reveal_strlit("entry");
    assert("kind"@.len() == 4);
    assert("mailboxId"@.len() == 9 && "email"@.len() == 5 && "change"@.len() == 6);
    assert("status"@.len() == 6 && "section"@.len() == 7 && "entry"@.len() == 5);
}

proof fn lemma_event_keys()
    ensures
        "kind"@ != "mailboxId"@,
        "kind"@ != "email"@,
        "kind"@ != "change"@,
        "kind"@ != "status"@,
        "kind"@ != "section"@,
        "kind"@ != "entry"@,
        "kind"@ != "error"@,
        "mailboxId"@ != "email"@,
        "mailboxId"@ != "change"@,
        "mailboxId"@ != "status"@,
        "mailboxId"@ != "section"@,
        "mailboxId"@ != "entry"@,
        "mailboxId"@ != "error"@,
        "email"@ != "change"@,
        "email"@ != "status"@,
        "email"@ != "section"@,
        "email"@ != "entry"@,
        "email"@ != "error"@,
        "change"@ != "status"@,
        "change"@ != "section"@,
        "change"@ != "entry"@,
        "change"@ != "error"@,
        "status"@ != "section"@,
        "status"@ != "entry"@,
        "status"@ != "error"@,
        "section"@ != "entry"@,
        "section"@ != "error"@,
        "entry"@ != "error"@,
{
    reveal_strlit("kind");
    assert("kind"@.len() == 4);
    reveal_strlit("mailboxId");
    assert("mailboxId"@.len() == 9);
    reveal_strlit("email");
    assert("email"@.len() == 5);
    reveal_strlit("change");
    assert("change"@.len() == 6);
    reveal_strlit("status");
    assert("status"@.len() == 6);
    reveal_strlit("section");
    assert("section"@.len() == 7);
    reveal_strlit("entry");
    assert("entry"@.len() == 5);
    reveal_strlit("error");
    assert("error"@.len() == 5);
    assert("email"@[1] != "entry"@[1]);
    assert("email"@[1] != "error"@[1]);
    assert("change"@[0] != "status"@[0]);
    assert("entry"@[1] != "error"@[1]);
}

/// What goes with each event: the mailbox and the email, the mailbox and the change, the
/// state of the servers, the section, or the entry.
pub proof fn law_event_members(e: CoreEvent)
    ensures
        match e {
            CoreEvent::NewEmail { mailbox_id, email } => {
                &&& json::member(event_json(e), "kind"@) == Some(json::JsonModel::Text("newEmail"@))
                &&& json::member(event_json(e), "mailboxId"@) == Some(
                    json::JsonModel::Text(mailbox_id@),
                )
                &&& json::member(event_json(e), "email"@) == Some(webhooks::summary_json(email@))
            },
            CoreEvent::MailboxStateChanged { mailbox_id, change } => {
                &&& json::member(event_json(e), "kind"@) == Some(
                    json::JsonModel::Text("mailboxStateChanged"@),
                )
                &&& json::member(event_json(e), "mailboxId"@) == Some(
                    json::JsonModel::Text(mailbox_id@),
                )
                &&& json::member(event_json(e), "change"@) == Some(change_json(change))
            },
            CoreEvent::ServerStatusChanged { status } => {
                &&& json::member(event_json(e), "kind"@) == Some(
                    json::JsonModel::Text("serverStatusChanged"@),
                )
                &&& json::member(event_json(e), "status"@) == Some(status_json(status))
            },
            CoreEvent::SettingsChanged { section } => {
                &&& json::member(event_json(e), "kind"@) == Some(
                    json::JsonModel::Text("settingsChanged"@),
                )
                &&& json::member(event_json(e), "section"@) == Some(
                    json::JsonModel::Text(settings::section_name(section)),
                )
            },
            CoreEvent::AuditAppended { entry } => {
                &&& json::member(event_json(e), "kind"@) == Some(
                    json::JsonModel::Text("auditAppended"@),
                )
                &&& json::member(event_json(e), "entry"@) == Some(entry_json(entry))
            },
        },
{
    lemma_event_keys();
}

/// A change says what happened to the mailbox, and of a failure why.
pub proof fn law_change_members(c: MailboxStateChange)
    ensures
        json::member(change_json(c), "kind"@) == Some(
            json::JsonModel::Text(
                match c {
                    MailboxStateChange::Created => "created"@,
                    MailboxStateChange::Updated => "updated"@,
                    MailboxStateChange::Deleted => "deleted"@,
                    MailboxStateChange::Started => "started"@,
                    MailboxStateChange::Stopped => "stopped"@,
                    MailboxStateChange::Expired => "expired"@,
                    MailboxStateChange::Failed { .. } => "failed"@,
                },
            ),
        ),
        c matches MailboxStateChange::Failed { error } ==> json::member(change_json(c), "error"@)
            == Some(json::JsonModel::Text(error@)),
{
    lemma_event_keys();
}

proof fn lemma_entry_keys()
    ensures
        "id"@ != "at"@,
        "id"@ != "actor"@,
        "id"@ != "action"@,
        "id"@ != "targetKind"@,
        "id"@ != "targetId"@,
        "id"@ != "metadata"@,
        "at"@ != "actor"@,
        "at"@ != "action"@,
        "at"@ != "targetKind"@,
        "at"@ != "targetId"@,
        "at"@ != "metadata"@,
        "actor"@ != "action"@,
        "actor"@ != "targetKind"@,
        "actor"@ != "targetId"@,
        "actor"@ != "metadata"@,
        "action"@ != "targetKind"@,
        "action"@ != "targetId"@,
        "action"@ != "metadata"@,
        "targetKind"@ != "targetId"@,
        "targetKind"@ != "metadata"@,
        "targetId"@ != "metadata"@,
{
    reveal_strlit("id");
    assert("id"@.len() == 2);
    reveal_strlit("at");
    assert("at"@.len() == 2);
    reveal_strlit("actor");
    assert("actor"@.len() == 5);
    reveal_strlit("action");
    assert("action"@.len() == 6);
    reveal_strlit("targetKind");
    assert("targetKind"@.len() == 10);
    reveal_strlit("targetId");
    assert("targetId"@.len() == 8);
    reveal_strlit("metadata");
    assert("metadata"@.len() == 8);
    assert("id"@[0] != "at"@[0]);
    assert("targetId"@[0] != "metadata"@[0]);
}

/// An entry of the log has a member for each of its fields.
pub proof fn law_entry_members(e: AuditEntry)
    ensures
        ({
            let j = entry_json(e);
            &&& json::member(j, "id"@) == Some(json::JsonModel::Int(e.id))
            &&& json::member(j, "at"@) == Some(json::JsonModel::Int(e.at))
            &&& json::member(j, "actor"@) == Some(json::JsonModel::Text(e.actor@))
            &&& json::member(j, "action"@) == Some(json::JsonModel::Text(e.action@))
            &&& json::member(j, "targetKind"@) == Some(match e.target_kind {
                Some(t) => json::JsonModel::Text(t@),
                None => json::JsonModel::Null,
            })
            &&& json::member(j, "targetId"@) == Some(match e.target_id {
                Some(t) => json::JsonModel::Text(t@),
                None => json::JsonModel::Null,
            })
            &&& json::member(j, "metadata"@) == Some(match e.metadata {
                Some(v) => v@,
                None => json::JsonModel::Null,
            })
            &&& json::has_only(j, set!["id"@, "at"@, "actor"@, "action"@, "targetKind"@, "targetId"@, "metadata"@])
        }),
{
    lemma_entry_keys();
}

proof fn lemma_status_keys()
    ensures
        "runningMailboxes"@ != "httpRunning"@,
        "runningMailboxes"@ != "errors"@,
        "httpRunning"@ != "errors"@,
{
    reveal_strlit("runningMailboxes");
    assert("runningMailboxes"@.len() == 16);
    reveal_strlit("httpRunning");
    assert("httpRunning"@.len() == 11);
    reveal_strlit("errors");
    assert("errors"@.len() == 6);
}

/// The state of the servers has a member for each of its fields.
pub proof fn law_status_members(s: ServerStatus)
    ensures
        ({
            let j = status_json(s);
            &&& json::member(j, "runningMailboxes"@) == Some(json::JsonModel::Int(s.running_mailboxes as i64))
            &&& json::member(j, "httpRunning"@) == Some(json::JsonModel::Bool(s.http_running))
            &&& json::member(j, "errors"@) == Some(json::JsonModel::Array(chars::seq_views(s.errors@).map_values(|t: Seq<char>| json::JsonModel::Text(t))))
            &&& json::has_only(j, set!["runningMailboxes"@, "httpRunning"@, "errors"@])
        }),
{
    lemma_status_keys();
}

} // verus!
