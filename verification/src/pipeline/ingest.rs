//! Turns a captured envelope and the raw bytes of its message into what is stored.

use vstd::prelude::*;
use vstd::string::*;

use crate::db::attachments::AttachmentInsert;
use crate::db::columns;
use crate::db::emails;
use crate::db::emails::{EmailInsert, InsertPlan};
use crate::db::settings::InboxPrefs;
use crate::error::Error;
use crate::events::CoreEvent;
use crate::ident;
use crate::json;
use crate::json::Json;
use crate::mail::message;
use crate::mail::parse;
use crate::mail::parse::{Parsed, ParsedAttachment};
use crate::text::chars;

verus! {

/// What an SMTP session hands over besides the bytes of the message.
#[derive(Debug)]
pub struct CapturedEnvelope {
    pub mailbox_id: String,
    pub received_at: i64,
    pub mail_from: String,
    pub rcpt_to: Vec<String>,
    pub ext_smtputf8: bool,
    pub ext_8bitmime: bool,
}

/// A parsed message as the JSON that is stored.
pub open spec fn stored_json(p: parse::ParsedModel) -> json::JsonModel {
    json::JsonModel::Object(
        Map::empty().insert("headers"@, p.headers_json).insert(
            "text_body"@,
            json::opt_text(p.text_body),
        ).insert("html_body"@, json::opt_text(p.html_body)).insert(
            "has_text"@,
            json::JsonModel::Bool(p.has_text),
        ).insert("has_html"@, json::JsonModel::Bool(p.has_html)).insert(
            "subject"@,
            json::opt_text(p.header_subject),
        ).insert("from"@, json::opt_text(p.header_from)).insert(
            "to"@,
            json::opt_text(p.header_to),
        ).insert("cc"@, json::opt_text(p.header_cc)).insert(
            "message_id"@,
            json::opt_text(p.message_id),
        ).insert("in_reply_to"@, json::opt_text(p.in_reply_to)),
    )
}

/// A parsed message as the JSON that is stored.
pub fn parsed_to_json(p: &Parsed) -> (r: Json)
    ensures
        r@ == stored_json(p@),
{
    let mut m: Vec<(String, Json)> = json::no_members();
    json::put(&mut m, "headers", p.headers_json.copy());
    json::put(&mut m, "text_body", json::text_or_null(&p.text_body));
    json::put(&mut m, "html_body", json::text_or_null(&p.html_body));
    json::put(&mut m, "has_text", Json::Bool(p.has_text));
    json::put(&mut m, "has_html", Json::Bool(p.has_html));
    json::put(&mut m, "subject", json::text_or_null(&p.header_subject));
    json::put(&mut m, "from", json::text_or_null(&p.header_from));
    json::put(&mut m, "to", json::text_or_null(&p.header_to));
    json::put(&mut m, "cc", json::text_or_null(&p.header_cc));
    json::put(&mut m, "message_id", json::text_or_null(&p.message_id));
    json::put(&mut m, "in_reply_to", json::text_or_null(&p.in_reply_to));
    Json::Object(m)
}

/// `a` is what is stored of an attachment whose bytes were written under an
/// identifier and a path.
pub open spec fn is_attached(
    a: AttachmentInsert,
    att: parse::AttachmentModel,
    id: Seq<char>,
    path: Seq<char>,
) -> bool {
    &&& a.id@ == id
    &&& chars::opt_view(a.filename) == att.filename
    &&& chars::opt_view(a.content_type) == att.content_type
    &&& chars::opt_view(a.content_id) == att.content_id
    &&& a.size_bytes == columns::wrapped(att.data.len() as u64)
    &&& a.blob_path@ == path
}

/// What is stored of all attachments, in their order.
pub open spec fn all_attached(
    v: Seq<AttachmentInsert>,
    atts: Seq<parse::AttachmentModel>,
    written: Seq<(String, String)>,
) -> bool {
    &&& v.len() == atts.len()
    &&& forall|i: int|
        0 <= i < atts.len() ==> is_attached(
            #[trigger] v[i],
            atts[i],
            written[i].0@,
            written[i].1@,
        )
}

/// An attachment whose bytes were written, as it is stored.
pub fn attachment_insert(att: &ParsedAttachment, id: &str, blob_path: &str) -> (r:
    AttachmentInsert)
    ensures
        is_attached(r, att@, id@, blob_path@),
{
    AttachmentInsert {
        id: id.to_owned(),
        filename: chars::clone_opt(&att.filename),
        content_type: chars::clone_opt(&att.content_type),
        content_id: chars::clone_opt(&att.content_id),
        size_bytes: columns::wrap(att.data.len() as u64),
        blob_path: blob_path.to_owned(),
    }
}

fn attach_all(parsed: &Parsed, written: &Vec<(String, String)>) -> (r: Vec<AttachmentInsert>)
    requires
        written@.len() == parsed.attachments@.len(),
    ensures
        all_attached(r@, parsed@.attachments, written@),
{
    let mut v: Vec<AttachmentInsert> = Vec::new();
    let mut i: usize = 0;
    while i < parsed.attachments.len()
        invariant
            i <= parsed.attachments@.len(),
            written@.len() == parsed.attachments@.len(),
            v@.len() == i,
            forall|j: int|
                0 <= j < i ==> is_attached(
                    #[trigger] v@[j],
                    parsed@.attachments[j],
                    written@[j].0@,
                    written@[j].1@,
                ),
        decreases parsed.attachments@.len() - i,
    {
        let a = attachment_insert(
            &parsed.attachments[i],
            written[i].0.as_str(),
            written[i].1.as_str(),
        );
        v.push(a);
        i = i + 1;
    }
    v
}

/// `e` is what is stored of a message that was parsed to `p`, with the envelope
/// `env` and `size` raw bytes. `written` tells under which identifier and path the
/// bytes of each attachment were written.
pub open spec fn is_stored(
    e: EmailInsert,
    env: CapturedEnvelope,
    p: parse::ParsedModel,
    size: nat,
    raw_path: Seq<char>,
    written: Seq<(String, String)>,
) -> bool {
    &&& e.mailbox_id@ == env.mailbox_id@
    &&& e.received_at == env.received_at
    &&& e.smtp_from@ == env.mail_from@
    &&& chars::seq_views(e.smtp_to@) == chars::seq_views(env.rcpt_to@)
    &&& chars::opt_view(e.header_from) == p.header_from
    &&& chars::opt_view(e.header_to) == p.header_to
    &&& chars::opt_view(e.header_cc) == p.header_cc
    &&& chars::opt_view(e.header_subject) == p.header_subject
    &&& chars::opt_view(e.message_id) == p.message_id
    &&& chars::opt_view(e.in_reply_to) == p.in_reply_to
    &&& e.size_bytes == columns::wrapped(size as u64)
    &&& e.has_html == p.has_html
    &&& e.has_text == p.has_text
    &&& e.raw_path@ == raw_path
    &&& e.parsed_json@ == stored_json(p)
    &&& e.ext_smtputf8 == env.ext_smtputf8
    &&& e.ext_8bitmime == env.ext_8bitmime
    &&& all_attached(e.attachments@, p.attachments, written)
    &&& e.fts_body@ == parse::searchable(p.text_body, p.html_body)
    &&& e.tag is None
}

/// What is stored of a parsed message, once its bytes and those of its attachments
/// were written.
pub fn build_insert(
    env: &CapturedEnvelope,
    parsed: &Parsed,
    size: usize,
    raw_path: String,
    written: &Vec<(String, String)>,
) -> (r: EmailInsert)
    requires
        written@.len() == parsed.attachments@.len(),
    ensures
        is_stored(r, *env, parsed@, size as nat, raw_path@, written@),
{
    EmailInsert {
        mailbox_id: env.mailbox_id.clone(),
        received_at: env.received_at,
        smtp_from: env.mail_from.clone(),
        smtp_to: chars::clone_strings(&env.rcpt_to),
        header_from: chars::clone_opt(&parsed.header_from),
        header_to: chars::clone_opt(&parsed.header_to),
        header_cc: chars::clone_opt(&parsed.header_cc),
        header_subject: chars::clone_opt(&parsed.header_subject),
        message_id: chars::clone_opt(&parsed.message_id),
        in_reply_to: chars::clone_opt(&parsed.in_reply_to),
        size_bytes: columns::wrap(size as u64),
        has_html: parsed.has_html,
        has_text: parsed.has_text,
        raw_path,
        parsed_json: parsed_to_json(parsed),
        ext_smtputf8: env.ext_smtputf8,
        ext_8bitmime: env.ext_8bitmime,
        attachments: attach_all(parsed, written),
        fts_body: parse::fts_body(parsed),
        tag: None,
    }
}

/// The name of the file that takes the raw message: a fresh identifier.
pub fn blob_id() -> (r: String)
    ensures
        ident::is_random_uuid(r@),
{
    ident::fresh_id()
}

/// Plans the storing of a parsed message under a fresh identifier, once its bytes and
/// those of its attachments were written.
pub fn ingest_one(
    env: &CapturedEnvelope,
    parsed: &Parsed,
    size: usize,
    raw_path: String,
    written: &Vec<(String, String)>,
) -> (r: Result<(EmailInsert, InsertPlan), Error>)
    requires
        written@.len() == parsed.attachments@.len(),
    ensures
        r matches Ok(s) && {
            &&& is_stored(s.0, *env, parsed@, size as nat, raw_path@, written@)
            &&& ident::is_random_uuid(s.1.outcome.id@)
            &&& emails::plans(s.1, s.0, s.1.outcome.id@)
        },
{
    let insert: EmailInsert = build_insert(env, parsed, size, raw_path, written);
    match emails::insert(&insert) {
        Ok(plan) => Ok((insert, plan)),
        Err(e) => Err(e),
    }
}

/// How many emails a mailbox keeps; nothing where there is no limit.
pub fn retention_cap(prefs: &InboxPrefs) -> (r: Option<i64>)
    ensures
        r == if prefs.max_retained_emails > 0 {
            Some(prefs.max_retained_emails as i64)
        } else {
            None
        },
{
    if prefs.max_retained_emails > 0 {
        Some(prefs.max_retained_emails as i64)
    } else {
        None
    }
}

/// The event that an email was stored.
pub fn announce(env: CapturedEnvelope, plan: InsertPlan) -> (r: CoreEvent)
    ensures
        r matches CoreEvent::NewEmail { mailbox_id, email } && mailbox_id == env.mailbox_id
            && email@ == plan.outcome.summary@,
{
    CoreEvent::NewEmail { mailbox_id: env.mailbox_id, email: plan.outcome.summary }
}

/// What is stored of a message is what parsing its bytes gave: the detail of the email
/// shows the headers and bodies of the message, its list entry the envelope and the
/// subject, and its attachments are those of the message.
pub proof fn law_nothing_is_lost_on_the_way(
    raw: Seq<u8>,
    env: CapturedEnvelope,
    e: EmailInsert,
    plan: InsertPlan,
    raw_path: Seq<char>,
    written: Seq<(String, String)>,
    row: emails::DetailRow,
    attached: Seq<emails::MetaModel>,
)
    requires
        is_stored(
            e,
            env,
            parse::projected(message::message_in(raw)),
            raw.len(),
            raw_path,
            written,
        ),
        emails::plans(plan, e, plan.outcome.id@),
        emails::reads_back(row.summary, plan, e),
        row.parsed@ == e.parsed_json@,
    ensures
        ({
            let p = parse::projected(message::message_in(raw));
            let d = emails::detail_of(row, attached);
            &&& d.headers == p.headers_json
            &&& d.text_body == p.text_body
            &&& d.html_body == p.html_body
            &&& d.summary == plan.outcome.summary@
            &&& d.summary.mailbox_id == env.mailbox_id@
            &&& d.summary.from == env.mail_from@
            &&& d.summary.to == chars::seq_views(env.rcpt_to@)
            &&& d.summary.subject == p.header_subject
            &&& e.attachments@.len() == p.attachments.len()
        }),
{
    let p = parse::projected(message::message_in(raw));
    law_detail_shows_the_message(row, p, attached);
    emails::law_stored_email_is_listed(row.summary, plan, e, plan.outcome.id@);
}

/// Reading the detail of an email gives the headers and the bodies that parsing its
/// message gave.
pub proof fn law_detail_shows_the_message(
    row: emails::DetailRow,
    p: parse::ParsedModel,
    attached: Seq<emails::MetaModel>,
)
    requires
        row.parsed@ == stored_json(p),
    ensures
        emails::detail_of(row, attached).headers == p.headers_json,
        emails::detail_of(row, attached).text_body == p.text_body,
        emails::detail_of(row, attached).html_body == p.html_body,
{
    reveal_strlit("headers");
    reveal_strlit("text_body");
    reveal_strlit("html_body");
    reveal_strlit("has_text");
    reveal_strlit("has_html");
    reveal_strlit("subject");
    reveal_strlit("from");
    reveal_strlit("to");
    reveal_strlit("cc");
    reveal_strlit("message_id");
    reveal_strlit("in_reply_to");
    lemma_stored_keys();
}

/// The keys of the stored JSON under which a detail looks differ from the others.
proof fn lemma_stored_keys()
    ensures
        "headers"@ != "text_body"@,
        "headers"@ != "html_body"@,
        "headers"@ != "has_text"@,
        "headers"@ != "has_html"@,
        "headers"@ != "subject"@,
        "headers"@ != "from"@,
        "headers"@ != "to"@,
        "headers"@ != "cc"@,
        "headers"@ != "message_id"@,
        "headers"@ != "in_reply_to"@,
        "text_body"@ != "html_body"@,
        "text_body"@ != "has_text"@,
        "text_body"@ != "has_html"@,
        "text_body"@ != "subject"@,
        "text_body"@ != "from"@,
        "text_body"@ != "to"@,
        "text_body"@ != "cc"@,
        "text_body"@ != "message_id"@,
        "text_body"@ != "in_reply_to"@,
        "html_body"@ != "has_text"@,
        "html_body"@ != "has_html"@,
        "html_body"@ != "subject"@,
        "html_body"@ != "from"@,
        "html_body"@ != "to"@,
        "html_body"@ != "cc"@,
        "html_body"@ != "message_id"@,
        "html_body"@ != "in_reply_to"@,
        "has_text"@ != "has_html"@,
        "has_text"@ != "subject"@,
        "has_text"@ != "from"@,
        "has_text"@ != "to"@,
        "has_text"@ != "cc"@,
        "has_text"@ != "message_id"@,
        "has_text"@ != "in_reply_to"@,
        "has_html"@ != "subject"@,
        "has_html"@ != "from"@,
        "has_html"@ != "to"@,
        "has_html"@ != "cc"@,
        "has_html"@ != "message_id"@,
        "has_html"@ != "in_reply_to"@,
        "subject"@ != "from"@,
        "subject"@ != "to"@,
        "subject"@ != "cc"@,
        "subject"@ != "message_id"@,
        "subject"@ != "in_reply_to"@,
        "from"@ != "to"@,
        "from"@ != "cc"@,
        "from"@ != "message_id"@,
        "from"@ != "in_reply_to"@,
        "to"@ != "cc"@,
        "to"@ != "message_id"@,
        "to"@ != "in_reply_to"@,
        "cc"@ != "message_id"@,
        "cc"@ != "in_reply_to"@,
        "message_id"@ != "in_reply_to"@,
{
    reveal_strlit("headers");
    assert("headers"@.len() == 7);
    reveal_strlit("text_body");
    assert("text_body"@.len() == 9);
    reveal_strlit("html_body");
    assert("html_body"@.len() == 9);
    reveal_strlit("has_text");
    assert("has_text"@.len() == 8);
    reveal_strlit("has_html");
    assert("has_html"@.len() == 8);
    reveal_strlit("subject");
    assert("subject"@.len() == 7);
    reveal_strlit("from");
    assert("from"@.len() == 4);
    reveal_strlit("to");
    assert("to"@.len() == 2);
    reveal_strlit("cc");
    assert("cc"@.len() == 2);
    reveal_strlit("message_id");
    assert("message_id"@.len() == 10);
    reveal_strlit("in_reply_to");
    assert("in_reply_to"@.len() == 11);
    assert("headers"@[0] != "subject"@[0]);
    assert("text_body"@[0] != "html_body"@[0]);
    assert("has_text"@[4] != "has_html"@[4]);
    assert("to"@[0] != "cc"@[0]);
}

/// The stored JSON of a message has all its parts, each under its name, and nothing else.
pub proof fn law_stored_members(p: parse::ParsedModel)
    ensures
        ({
            let j = stored_json(p);
            &&& json::member(j, "headers"@) == Some(p.headers_json)
            &&& json::member(j, "text_body"@) == Some(match p.text_body {
                Some(t) => json::JsonModel::Text(t),
                None => json::JsonModel::Null,
            })
            &&& json::member(j, "html_body"@) == Some(match p.html_body {
                Some(t) => json::JsonModel::Text(t),
                None => json::JsonModel::Null,
            })
            &&& json::member(j, "has_text"@) == Some(json::JsonModel::Bool(p.has_text))
            &&& json::member(j, "has_html"@) == Some(json::JsonModel::Bool(p.has_html))
            &&& json::member(j, "subject"@) == Some(match p.header_subject {
                Some(t) => json::JsonModel::Text(t),
                None => json::JsonModel::Null,
            })
            &&& json::member(j, "from"@) == Some(match p.header_from {
                Some(t) => json::JsonModel::Text(t),
                None => json::JsonModel::Null,
            })
            &&& json::member(j, "to"@) == Some(match p.header_to {
                Some(t) => json::JsonModel::Text(t),
                None => json::JsonModel::Null,
            })
            &&& json::member(j, "cc"@) == Some(match p.header_cc {
                Some(t) => json::JsonModel::Text(t),
                None => json::JsonModel::Null,
            })
            &&& json::member(j, "message_id"@) == Some(match p.message_id {
                Some(t) => json::JsonModel::Text(t),
                None => json::JsonModel::Null,
            })
            &&& json::member(j, "in_reply_to"@) == Some(match p.in_reply_to {
                Some(t) => json::JsonModel::Text(t),
                None => json::JsonModel::Null,
            })
            &&& json::has_only(j, set!["headers"@, "text_body"@, "html_body"@, "has_text"@, "has_html"@, "subject"@, "from"@, "to"@, "cc"@, "message_id"@, "in_reply_to"@])
        }),
{
    lemma_stored_keys();
}

/// What is stored of a message: the envelope's mailbox, time, sender, recipients and
/// extensions, the message's headers, marks and attachments, its size, where its bytes
/// are, its parts as JSON, and its text for the index. No category is set.
pub proof fn law_stored_fields(
    e: EmailInsert,
    env: CapturedEnvelope,
    p: parse::ParsedModel,
    size: nat,
    raw_path: Seq<char>,
    written: Seq<(String, String)>,
    i: int,
)
    requires
        is_stored(e, env, p, size, raw_path, written),
        size <= i64::MAX,
    ensures
        e.mailbox_id@ == env.mailbox_id@ && e.received_at == env.received_at,
        e.smtp_from@ == env.mail_from@,
        e.smtp_to@.map_values(|t: String| t@) == env.rcpt_to@.map_values(|t: String| t@),
        e.ext_smtputf8 == env.ext_smtputf8 && e.ext_8bitmime == env.ext_8bitmime,
        chars::opt_view(e.header_from) == p.header_from && chars::opt_view(e.header_to)
            == p.header_to && chars::opt_view(e.header_cc) == p.header_cc,
        chars::opt_view(e.header_subject) == p.header_subject,
        chars::opt_view(e.message_id) == p.message_id && chars::opt_view(e.in_reply_to)
            == p.in_reply_to,
        e.has_html == p.has_html && e.has_text == p.has_text,
        e.size_bytes == size && e.raw_path@ == raw_path && e.tag is None,
        e.parsed_json@ == stored_json(p),
        p.text_body matches Some(t) ==> e.fts_body@ == t,
        p.text_body is None ==> (p.html_body matches Some(h) ==> e.fts_body@
            == parse::outside_tags(h)),
        e.attachments@.len() == p.attachments.len(),
        0 <= i < p.attachments.len() ==> {
            let a = e.attachments@[i];
            let q = p.attachments[i];
            &&& a.id@ == written[i].0@
            &&& a.blob_path@ == written[i].1@
            &&& chars::opt_view(a.filename) == q.filename
            &&& chars::opt_view(a.content_type) == q.content_type
            &&& chars::opt_view(a.content_id) == q.content_id
            &&& q.data.len() <= i64::MAX ==> a.size_bytes == q.data.len()
        },
{
    if 0 <= i < p.attachments.len() {
        assert(is_attached(e.attachments@[i], p.attachments[i], written[i].0@, written[i].1@));
    }
}

} // verus!
