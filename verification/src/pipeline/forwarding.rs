//! Forwarding of captured emails to the targets of the matching rules. A failure is
//! logged, and goes no further.

use vstd::prelude::*;
use vstd::string::*;

use crate::db::audit;
use crate::db::audit::AuditAppend;
use crate::db::emails::EmailDetail;
use crate::db::forwarding::ForwardingRule;
use crate::error::Error;
use crate::json;
use crate::json::Json;

verus! {

/// The sender of forwarded mail whose own sender is unknown.
pub const FALLBACK_SENDER: &'static str = "postcrate@localhost";

/// The sender that a relay is given: that of the captured email, where it can be
/// read and is not empty.
pub fn envelope_sender(detail: Result<EmailDetail, Error>) -> (r: String)
    ensures
        r@ == match detail {
            Ok(d) => if d.from@.len() > 0 {
                d.from@
            } else {
                FALLBACK_SENDER@
            },
            Err(_) => FALLBACK_SENDER@,
        },
{
    match detail {
        Ok(d) => if d.from.as_str().is_empty() {
            FALLBACK_SENDER.to_owned()
        } else {
            d.from
        },
        Err(_) => FALLBACK_SENDER.to_owned(),
    }
}

/// The log entry on a rule that could not forward an email.
pub open spec fn failure_entry(
    rule_id: Seq<char>,
    email_id: Seq<char>,
    message: Seq<char>,
) -> audit::AuditModel {
    audit::AuditModel {
        actor: "system"@,
        action: "forwarding.failed"@,
        target_kind: Some("forwarding_rule"@),
        target_id: Some(rule_id),
        metadata: Some(
            json::JsonModel::Object(
                Map::empty().insert("emailId"@, json::JsonModel::Text(email_id)).insert(
                    "error"@,
                    json::JsonModel::Text(message),
                ),
            ),
        ),
    }
}

/// What is logged of forwarding an email by a rule: nothing of a success.
pub fn dispatch<R>(rule: &ForwardingRule<R>, email_id: &str, relayed: Result<(), Error>) -> (r:
    Option<AuditAppend>)
    ensures
        match relayed {
            Ok(_) => r is None,
            Err(e) => r matches Some(a) && a@ == failure_entry(
                rule.id@,
                email_id@,
                crate::error::message_of(e),
            ),
        },
{
    match relayed {
        Ok(_) => None,
        Err(e) => {
            let mut m: Vec<(String, Json)> = json::no_members();
            json::put(&mut m, "emailId", Json::Text(email_id.to_owned()));
            json::put(&mut m, "error", Json::Text(e.message()));
            Some(
                AuditAppend {
                    actor: "system".to_owned(),
                    action: "forwarding.failed".to_owned(),
                    target_kind: Some("forwarding_rule".to_owned()),
                    target_id: Some(rule.id.clone()),
                    metadata: Some(Json::Object(m)),
                },
            )
        },
    }
}

proof fn lemma_failure_keys()
    ensures
        "emailId"@ != "error"@,
{
    reveal_strlit("emailId");
    assert("emailId"@.len() == 7);
    reveal_strlit("error");
    assert("error"@.len() == 5);
}

/// The log says of a rule that could not forward which rule it was, which email, and why.
pub proof fn law_failure_is_logged(rule_id: Seq<char>, email_id: Seq<char>, message: Seq<char>)
    ensures
        ({
            let e = failure_entry(rule_id, email_id, message);
            &&& e.actor == "system"@
            &&& e.action == "forwarding.failed"@
            &&& e.target_kind == Some("forwarding_rule"@)
            &&& e.target_id == Some(rule_id)
            &&& e.metadata matches Some(m) && json::member(m, "emailId"@) == Some(
                json::JsonModel::Text(email_id),
            ) && json::member(m, "error"@) == Some(json::JsonModel::Text(message))
        }),
{
    lemma_failure_keys();
}

} // verus!
