//! Webhooks: each captured email is announced to the webhooks of its mailbox. A
//! failure is logged, and goes no further.

use vstd::prelude::*;
use vstd::string::*;

use crate::db::audit;
use crate::db::audit::AuditAppend;
use crate::db::emails;
use crate::db::emails::EmailSummary;
use crate::db::webhooks::Webhook;
use crate::json;
use crate::json::Json;
use crate::text::chars;

verus! {

/// A listed email as JSON.
pub open spec fn summary_json(s: emails::SummaryModel) -> json::JsonModel {
    json::JsonModel::Object(
        Map::empty().insert("id"@, json::JsonModel::Text(s.id)).insert(
            "mailboxId"@,
            json::JsonModel::Text(s.mailbox_id),
        ).insert("receivedAt"@, json::JsonModel::Int(s.received_at)).insert(
            "from"@,
            json::JsonModel::Text(s.from),
        ).insert("to"@, json::text_items(s.to)).insert(
            "subject"@,
            json::opt_text(s.subject),
        ).insert("hasHtml"@, json::JsonModel::Bool(s.has_html)).insert(
            "hasText"@,
            json::JsonModel::Bool(s.has_text),
        ).insert("sizeBytes"@, json::JsonModel::Int(s.size_bytes)).insert(
            "read"@,
            json::JsonModel::Bool(s.read),
        ).insert("pinned"@, json::JsonModel::Bool(s.pinned)).insert(
            "starred"@,
            json::JsonModel::Bool(s.starred),
        ).insert("tag"@, json::opt_text(s.tag)),
    )
}

/// A listed email as JSON.
pub fn summary_to_json(s: &EmailSummary) -> (r: Json)
    ensures
        r@ == summary_json(s@),
{
    let mut m: Vec<(String, Json)> = json::no_members();
    json::put(&mut m, "id", Json::Text(s.id.clone()));
    json::put(&mut m, "mailboxId", Json::Text(s.mailbox_id.clone()));
    json::put(&mut m, "receivedAt", Json::Int(s.received_at));
    json::put(&mut m, "from", Json::Text(s.from.clone()));
    json::put(&mut m, "to", json::text_array(&s.to));
    json::put(&mut m, "subject", json::text_or_null(&s.subject));
    json::put(&mut m, "hasHtml", Json::Bool(s.has_html));
    json::put(&mut m, "hasText", Json::Bool(s.has_text));
    json::put(&mut m, "sizeBytes", Json::Int(s.size_bytes));
    json::put(&mut m, "read", Json::Bool(s.read));
    json::put(&mut m, "pinned", Json::Bool(s.pinned));
    json::put(&mut m, "starred", Json::Bool(s.starred));
    json::put(&mut m, "tag", json::text_or_null(&s.tag));
    Json::Object(m)
}

/// What a webhook is sent.
pub open spec fn payload_json(mailbox_id: Seq<char>, s: emails::SummaryModel) -> json::JsonModel {
    json::JsonModel::Object(
        Map::empty().insert("event"@, json::JsonModel::Text("new_email"@)).insert(
            "mailboxId"@,
            json::JsonModel::Text(mailbox_id),
        ).insert("email"@, summary_json(s)),
    )
}

/// What a webhook is sent of a new email.
pub fn payload(mailbox_id: &str, email: &EmailSummary) -> (r: Json)
    ensures
        r@ == payload_json(mailbox_id@, email@),
{
    let mut m: Vec<(String, Json)> = json::no_members();
    json::put(&mut m, "event", Json::Text("new_email".to_owned()));
    json::put(&mut m, "mailboxId", Json::Text(mailbox_id.to_owned()));
    json::put(&mut m, "email", summary_to_json(email));
    Json::Object(m)
}

/// A request to a webhook.
#[derive(Debug)]
pub struct HookRequest {
    pub url: String,
    /// The value of the `Authorization` header, where there is one.
    pub authorization: Option<String>,
}

/// The request to a webhook.
pub fn request_for(hook: &Webhook) -> (r: HookRequest)
    ensures
        r.url == hook.url,
        r.authorization == hook.auth_header,
{
    HookRequest { url: hook.url.clone(), authorization: chars::clone_opt(&hook.auth_header) }
}

/// How a delivery ended.
#[derive(Debug)]
pub enum Delivery {
    /// The receiver answered with this status.
    Answered(u16),
    /// There was no answer; with the message.
    Failed(String),
}

/// A status of success.
pub open spec fn is_success(status: u16) -> bool {
    200 <= status < 300
}

/// The log entry on a webhook, with one more detail.
pub open spec fn failure_entry(
    hook: Webhook,
    key: Seq<char>,
    value: json::JsonModel,
) -> audit::AuditModel {
    audit::AuditModel {
        actor: "system"@,
        action: "webhook.failed"@,
        target_kind: Some("webhook"@),
        target_id: Some(hook.id@),
        metadata: Some(
            json::JsonModel::Object(
                Map::empty().insert("url"@, json::JsonModel::Text(hook.url@)).insert(key, value),
            ),
        ),
    }
}

fn failed(hook: &Webhook, key: &str, value: Json) -> (r: AuditAppend)
    ensures
        r@ == failure_entry(*hook, key@, value@),
{
    let mut m: Vec<(String, Json)> = json::no_members();
    json::put(&mut m, "url", Json::Text(hook.url.clone()));
    json::put(&mut m, key, value);
    AuditAppend {
        actor: "system".to_owned(),
        action: "webhook.failed".to_owned(),
        target_kind: Some("webhook".to_owned()),
        target_id: Some(hook.id.clone()),
        metadata: Some(Json::Object(m)),
    }
}

/// What is logged of a delivery: nothing of a success.
pub fn dispatch(hook: &Webhook, delivery: Delivery) -> (r: Option<AuditAppend>)
    ensures
        match delivery {
            Delivery::Answered(status) => if is_success(status) {
                r is None
            } else {
                r matches Some(a) && a@ == failure_entry(
                    *hook,
                    "status"@,
                    json::JsonModel::Int(status as i64),
                )
            },
            Delivery::Failed(m) => r matches Some(a) && a@ == failure_entry(
                *hook,
                "error"@,
                json::JsonModel::Text(m@),
            ),
        },
{
    match delivery {
        Delivery::Answered(status) => if status >= 200 && status < 300 {
            None
        } else {
            Some(failed(hook, "status", Json::Int(status as i64)))
        },
        Delivery::Failed(m) => Some(failed(hook, "error", Json::Text(m))),
    }
}

proof fn lemma_summary_keys()
    ensures
        "id"@ != "mailboxId"@,
        "id"@ != "receivedAt"@,
        "id"@ != "from"@,
        "id"@ != "to"@,
        "id"@ != "subject"@,
        "id"@ != "hasHtml"@,
        "id"@ != "hasText"@,
        "id"@ != "sizeBytes"@,
        "id"@ != "read"@,
        "id"@ != "pinned"@,
        "id"@ != "starred"@,
        "id"@ != "tag"@,
        "mailboxId"@ != "receivedAt"@,
        "mailboxId"@ != "from"@,
        "mailboxId"@ != "to"@,
        "mailboxId"@ != "subject"@,
        "mailboxId"@ != "hasHtml"@,
        "mailboxId"@ != "hasText"@,
        "mailboxId"@ != "sizeBytes"@,
        "mailboxId"@ != "read"@,
        "mailboxId"@ != "pinned"@,
        "mailboxId"@ != "starred"@,
        "mailboxId"@ != "tag"@,
        "receivedAt"@ != "from"@,
        "receivedAt"@ != "to"@,
        "receivedAt"@ != "subject"@,
        "receivedAt"@ != "hasHtml"@,
        "receivedAt"@ != "hasText"@,
        "receivedAt"@ != "sizeBytes"@,
        "receivedAt"@ != "read"@,
        "receivedAt"@ != "pinned"@,
        "receivedAt"@ != "starred"@,
        "receivedAt"@ != "tag"@,
        "from"@ != "to"@,
        "from"@ != "subject"@,
        "from"@ != "hasHtml"@,
        "from"@ != "hasText"@,
        "from"@ != "sizeBytes"@,
        "from"@ != "read"@,
        "from"@ != "pinned"@,
        "from"@ != "starred"@,
        "from"@ != "tag"@,
        "to"@ != "subject"@,
        "to"@ != "hasHtml"@,
        "to"@ != "hasText"@,
        "to"@ != "sizeBytes"@,
        "to"@ != "read"@,
        "to"@ != "pinned"@,
        "to"@ != "starred"@,
        "to"@ != "tag"@,
        "subject"@ != "hasHtml"@,
        "subject"@ != "hasText"@,
        "subject"@ != "sizeBytes"@,
        "subject"@ != "read"@,
        "subject"@ != "pinned"@,
        "subject"@ != "starred"@,
        "subject"@ != "tag"@,
        "hasHtml"@ != "hasText"@,
        "hasHtml"@ != "sizeBytes"@,
        "hasHtml"@ != "read"@,
        "hasHtml"@ != "pinned"@,
        "hasHtml"@ != "starred"@,
        "hasHtml"@ != "tag"@,
        "hasText"@ != "sizeBytes"@,
        "hasText"@ != "read"@,
        "hasText"@ != "pinned"@,
        "hasText"@ != "starred"@,
        "hasText"@ != "tag"@,
        "sizeBytes"@ != "read"@,
        "sizeBytes"@ != "pinned"@,
        "sizeBytes"@ != "starred"@,
        "sizeBytes"@ != "tag"@,
        "read"@ != "pinned"@,
        "read"@ != "starred"@,
        "read"@ != "tag"@,
        "pinned"@ != "starred"@,
        "pinned"@ != "tag"@,
        "starred"@ != "tag"@,
{
    reveal_strlit("id");
    assert("id"@.len() == 2);
    reveal_strlit("mailboxId");
    assert("mailboxId"@.len() == 9);
    reveal_strlit("receivedAt");
    assert("receivedAt"@.len() == 10);
    reveal_strlit("from");
    assert("from"@.len() == 4);
    reveal_strlit("to");
    assert("to"@.len() == 2);
    reveal_strlit("subject");
    assert("subject"@.len() == 7);
    reveal_strlit("hasHtml");
    assert("hasHtml"@.len() == 7);
    reveal_strlit("hasText");
    assert("hasText"@.len() == 7);
    reveal_strlit("sizeBytes");
    assert("sizeBytes"@.len() == 9);
    reveal_strlit("read");
    assert("read"@.len() == 4);
    reveal_strlit("pinned");
    assert("pinned"@.len() == 6);
    reveal_strlit("starred");
    assert("starred"@.len() == 7);
    reveal_strlit("tag");
    assert("tag"@.len() == 3);
    assert("id"@[0] != "to"@[0]);
    assert("mailboxId"@[0] != "sizeBytes"@[0]);
    assert("from"@[0] != "read"@[0]);
    assert("subject"@[0] != "hasHtml"@[0]);
    assert("subject"@[0] != "hasText"@[0]);
    assert("subject"@[1] != "starred"@[1]);
    assert("hasHtml"@[3] != "hasText"@[3]);
    assert("hasHtml"@[0] != "starred"@[0]);
    assert("hasText"@[0] != "starred"@[0]);
}

/// The JSON of a listed email has a member for each of its fields, under the name of the
/// field, and no other.
pub proof fn law_summary_members(s: emails::SummaryModel)
    ensures
        ({
            let j = summary_json(s);
            &&& json::member(j, "id"@) == Some(json::JsonModel::Text(s.id))
            &&& json::member(j, "mailboxId"@) == Some(json::JsonModel::Text(s.mailbox_id))
            &&& json::member(j, "receivedAt"@) == Some(json::JsonModel::Int(s.received_at))
            &&& json::member(j, "from"@) == Some(json::JsonModel::Text(s.from))
            &&& json::member(j, "to"@) == Some(json::JsonModel::Array(s.to.map_values(|t: Seq<char>| json::JsonModel::Text(t))))
            &&& json::member(j, "subject"@) == Some(match s.subject {
                Some(t) => json::JsonModel::Text(t),
                None => json::JsonModel::Null,
            })
            &&& json::member(j, "hasHtml"@) == Some(json::JsonModel::Bool(s.has_html))
            &&& json::member(j, "hasText"@) == Some(json::JsonModel::Bool(s.has_text))
            &&& json::member(j, "sizeBytes"@) == Some(json::JsonModel::Int(s.size_bytes))
            &&& json::member(j, "read"@) == Some(json::JsonModel::Bool(s.read))
            &&& json::member(j, "pinned"@) == Some(json::JsonModel::Bool(s.pinned))
            &&& json::member(j, "starred"@) == Some(json::JsonModel::Bool(s.starred))
            &&& json::member(j, "tag"@) == Some(match s.tag {
                Some(t) => json::JsonModel::Text(t),
                None => json::JsonModel::Null,
            })
            &&& json::has_only(j, set!["id"@, "mailboxId"@, "receivedAt"@, "from"@, "to"@, "subject"@, "hasHtml"@, "hasText"@, "sizeBytes"@, "read"@, "pinned"@, "starred"@, "tag"@])
        }),
{
    lemma_summary_keys();
}

proof fn lemma_payload_keys()
    ensures
        "event"@ != "mailboxId"@,
        "event"@ != "email"@,
        "mailboxId"@ != "email"@,
{
    reveal_strlit("event");
    assert("event"@.len() == 5);
    reveal_strlit("mailboxId");
    assert("mailboxId"@.len() == 9);
    reveal_strlit("email");
    assert("email"@.len() == 5);
    assert("event"@[1] != "email"@[1]);
}

/// A webhook is told that there is a new email, in which mailbox, and the email.
pub proof fn law_payload_members(mailbox_id: Seq<char>, s: emails::SummaryModel)
    ensures
        ({
            let j = payload_json(mailbox_id, s);
            &&& json::member(j, "event"@) == Some(json::JsonModel::Text("new_email"@))
            &&& json::member(j, "mailboxId"@) == Some(json::JsonModel::Text(mailbox_id))
            &&& json::member(j, "email"@) == Some(summary_json(s))
            &&& json::has_only(j, set!["event"@, "mailboxId"@, "email"@])
        }),
{
    lemma_payload_keys();
}

/// A delivery is a success exactly where the status is in the two hundreds.
pub proof fn law_success(status: u16)
    ensures
        is_success(status) == (status / 100 == 2),
{
}

/// The log says of a failed delivery which webhook it was, where it is, and what went
/// wrong.
pub proof fn law_failure_is_logged(hook: Webhook, key: Seq<char>, value: json::JsonModel)
    requires
        key != "url"@,
    ensures
        ({
            let e = failure_entry(hook, key, value);
            &&& e.actor == "system"@
            &&& e.action == "webhook.failed"@
            &&& e.target_kind == Some("webhook"@)
            &&& e.target_id == Some(hook.id@)
            &&& e.metadata matches Some(m) && json::member(m, "url"@) == Some(
                json::JsonModel::Text(hook.url@),
            ) && json::member(m, key) == Some(value)
        }),
{
}

} // verus!
