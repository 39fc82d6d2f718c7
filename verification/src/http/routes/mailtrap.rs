//! The read endpoints of Mailtrap, so that tests written against it keep working. The
//! account in their paths is taken and ignored; an inbox is a mailbox.

use vstd::prelude::*;
use vstd::string::*;

use crate::config::CoreConfig;
use crate::db::emails;
use crate::db::emails::{AttachmentMeta, EmailDetail, EmailSummary};
use crate::db::mailboxes::Mailbox;
use crate::error::Error;
use crate::json;
use crate::json::Json;
use crate::text::chars;
use crate::text::words;

verus! {

/// A mailbox as an inbox.
#[derive(Debug)]
pub struct MailtrapInbox {
    pub id: String,
    pub name: String,
    pub domain: String,
    pub pop3_domain: &'static str,
    pub email_domain: String,
    pub smtp_ports: Vec<u16>,
    pub pop3_ports: Vec<u16>,
    pub emails_count: i64,
    pub emails_unread_count: i64,
    pub last_message_sent_at: Option<i64>,
    pub max_size: u64,
    pub status: &'static str,
    pub email_username: String,
}

/// An email as a message.
#[derive(Debug)]
pub struct MailtrapMessage {
    pub id: String,
    pub inbox_id: String,
    pub subject: Option<String>,
    pub sent_at: i64,
    pub from_email: String,
    pub to_email: Option<String>,
    pub is_read: bool,
    pub download_url: String,
    pub txt_url: String,
    pub html_url: String,
}

/// How many of the emails were not read.
pub open spec fn unread(v: Seq<EmailSummary>) -> nat
    decreases v.len(),
{
    if v.len() == 0 {
        0
    } else {
        unread(v.drop_last()) + if v.last().read {
            0nat
        } else {
            1nat
        }
    }
}

fn count_unread(v: &Vec<EmailSummary>) -> (r: u64)
    ensures
        r == unread(v@),
{
    let mut n: u64 = 0;
    let mut i: usize = 0;
    while i < v.len()
        invariant
            i <= v@.len(),
            n == unread(v@.take(i as int)),
            n <= i,
        decreases v@.len() - i,
    {
        assert(v@.take(i + 1).drop_last() =~= v@.take(i as int));
        if !v[i].read {
            n = n + 1;
        }
        i = i + 1;
    }
    assert(v@.take(i as int) =~= v@);
    n
}

/// A mailbox as an inbox. `recent` are its emails, the newest first, as far as they
/// could be read, and `newest` the first of them.
pub fn inbox(
    mb: Mailbox,
    cfg: &CoreConfig,
    recent: Option<Vec<EmailSummary>>,
    newest: Option<Vec<EmailSummary>>,
) -> (r: MailtrapInbox)
    ensures
        r.id@ == mb.id@,
        r.name@ == mb.name@,
        r.domain@ == cfg.ehlo_hostname@,
        r.pop3_domain@ == "unsupported"@,
        r.email_domain@ == cfg.ehlo_hostname@,
        r.smtp_ports@ == seq![mb.port],
        r.pop3_ports@.len() == 0,
        r.emails_count == mb.count,
        match recent {
            Some(v) => r.emails_unread_count == crate::db::columns::wrapped(unread(v@) as u64),
            None => r.emails_unread_count == 0,
        },
        r.last_message_sent_at == match newest {
            Some(v) => if v@.len() > 0 {
                Some(v@[0].received_at)
            } else {
                None
            },
            None => None,
        },
        r.max_size == cfg.max_message_bytes,
        r.status@ == "active"@,
        r.email_username@ == mb.name@,
{
    let emails_unread_count: i64 = match &recent {
        Some(v) => crate::db::columns::wrap(count_unread(v)),
        None => 0,
    };
    let last_message_sent_at: Option<i64> = match &newest {
        Some(v) => if v.len() > 0 {
            Some(v[0].received_at)
        } else {
            None
        },
        None => None,
    };
    let mut smtp_ports: Vec<u16> = Vec::new();
    smtp_ports.push(mb.port);
    assert(smtp_ports@ =~= seq![mb.port]);
    MailtrapInbox {
        id: mb.id,
        name: mb.name.clone(),
        domain: cfg.ehlo_hostname.clone(),
        pop3_domain: "unsupported",
        email_domain: cfg.ehlo_hostname.clone(),
        smtp_ports,
        pop3_ports: Vec::new(),
        emails_count: mb.count,
        emails_unread_count,
        last_message_sent_at,
        max_size: cfg.max_message_bytes,
        status: "active",
        email_username: mb.name,
    }
}

/// The path of one of the bodies of an email.
pub open spec fn body_path(
    account: Seq<char>,
    inbox: Seq<char>,
    id: Seq<char>,
    file: Seq<char>,
) -> Seq<char> {
    "/api/accounts/"@ + account + "/inboxes/"@ + inbox + "/messages/"@ + id + "/"@ + file
}

fn path_of(account: &str, inbox: &str, id: &str, file: &str) -> (r: String)
    ensures
        r@ == body_path(account@, inbox@, id@, file@),
{
    words::cat3(
        words::cat3(
            words::cat3(
                words::cat("/api/accounts/", account).as_str(),
                "/inboxes/",
                inbox,
            ).as_str(),
            "/messages/",
            id,
        ).as_str(),
        "/",
        file,
    )
}

/// The first of the recipients.
pub open spec fn first_of(v: Seq<Seq<char>>) -> Option<Seq<char>> {
    if v.len() > 0 {
        Some(v[0])
    } else {
        None
    }
}

fn first_recipient(v: &Vec<String>) -> (r: Option<String>)
    ensures
        chars::opt_view(r) == first_of(chars::seq_views(v@)),
{
    if v.len() > 0 {
        Some(v[0].clone())
    } else {
        None
    }
}

/// An email as a message of an inbox.
pub fn message(account: &str, inbox: &str, s: EmailSummary) -> (r: MailtrapMessage)
    ensures
        r.id@ == s@.id,
        r.inbox_id@ == s@.mailbox_id,
        chars::opt_view(r.subject) == s@.subject,
        r.sent_at == s@.received_at,
        r.from_email@ == s@.from,
        chars::opt_view(r.to_email) == first_of(s@.to),
        r.is_read == s@.read,
        r.download_url@ == body_path(account@, inbox@, s@.id, "body.eml"@),
        r.txt_url@ == body_path(account@, inbox@, s@.id, "body.txt"@),
        r.html_url@ == body_path(account@, inbox@, s@.id, "body.html"@),
{
    MailtrapMessage {
        download_url: path_of(account, inbox, s.id.as_str(), "body.eml"),
        txt_url: path_of(account, inbox, s.id.as_str(), "body.txt"),
        html_url: path_of(account, inbox, s.id.as_str(), "body.html"),
        to_email: first_recipient(&s.to),
        id: s.id,
        inbox_id: s.mailbox_id,
        subject: s.subject,
        sent_at: s.received_at,
        from_email: s.from,
        is_read: s.read,
    }
}

/// The description of an attachment as JSON.
pub open spec fn meta_json(a: emails::MetaModel) -> json::JsonModel {
    json::JsonModel::Object(
        Map::empty().insert("id"@, json::JsonModel::Text(a.id)).insert(
            "filename"@,
            json::opt_text(a.filename),
        ).insert("contentType"@, json::opt_text(a.content_type)).insert(
            "contentId"@,
            json::opt_text(a.content_id),
        ).insert("sizeBytes"@, json::JsonModel::Int(a.size_bytes)),
    )
}

fn meta_to_json(a: &AttachmentMeta) -> (r: Json)
    ensures
        r@ == meta_json(a@),
{
    let mut m: Vec<(String, Json)> = json::no_members();
    json::put(&mut m, "id", Json::Text(a.id.clone()));
    json::put(&mut m, "filename", json::text_or_null(&a.filename));
    json::put(&mut m, "contentType", json::text_or_null(&a.content_type));
    json::put(&mut m, "contentId", json::text_or_null(&a.content_id));
    json::put(&mut m, "sizeBytes", Json::Int(a.size_bytes));
    Json::Object(m)
}

fn metas_to_json(v: &Vec<AttachmentMeta>) -> (r: Json)
    ensures
        r@ == json::JsonModel::Array(
            emails::metas(v@).map_values(|a: emails::MetaModel| meta_json(a)),
        ),
{
    let mut out: Vec<Json> = Vec::new();
    let mut i: usize = 0;
    while i < v.len()
        invariant
            i <= v@.len(),
            out@.len() == i,
            forall|j: int| 0 <= j < i ==> (#[trigger] out@[j])@ == meta_json(v@[j]@),
        decreases v@.len() - i,
    {
        out.push(meta_to_json(&v[i]));
        i = i + 1;
    }
    proof {
        json::lemma_items(out@);
        assert(json::items_of(out@) =~= emails::metas(v@).map_values(
            |a: emails::MetaModel| meta_json(a),
        ));
    }
    Json::Array(out)
}

/// An email in full as a message of an inbox.
pub open spec fn message_json(account: Seq<char>, inbox: Seq<char>, d: emails::DetailModel) ->
    json::JsonModel {
    let s = d.summary;
    json::JsonModel::Object(
        Map::empty().insert("id"@, json::JsonModel::Text(s.id)).insert(
            "inbox_id"@,
            json::JsonModel::Text(s.mailbox_id),
        ).insert("subject"@, json::opt_text(s.subject)).insert(
            "from_email"@,
            json::JsonModel::Text(s.from),
        ).insert("to_email"@, json::opt_text(first_of(s.to))).insert(
            "sent_at"@,
            json::JsonModel::Int(s.received_at),
        ).insert("is_read"@, json::JsonModel::Bool(s.read)).insert(
            "text_body"@,
            json::opt_text(d.text_body),
        ).insert("html_body"@, json::opt_text(d.html_body)).insert("headers"@, d.headers).insert(
            "attachments"@,
            json::JsonModel::Array(
                d.attachments.map_values(|a: emails::MetaModel| meta_json(a)),
            ),
        ).insert(
            "download_url"@,
            json::JsonModel::Text(body_path(account, inbox, s.id, "body.eml"@)),
        ),
    )
}

/// An email in full, for a request under the path of an inbox. An email of another
/// inbox is not found there.
pub fn get_message(account: &str, inbox: &str, id: &str, d: EmailDetail) -> (r: Result<
    Json,
    Error,
>)
    ensures
        if d@.summary.mailbox_id == inbox@ {
            r matches Ok(j) && j@ == message_json(account@, inbox@, d@)
        } else {
            r matches Err(Error::EmailNotFound(i)) && i@ == id@
        },
{
    if !chars::str_eq(d.mailbox_id.as_str(), inbox) {
        return Err(Error::EmailNotFound(id.to_owned()));
    }
    let mut m: Vec<(String, Json)> = json::no_members();
    json::put(&mut m, "id", Json::Text(d.id.clone()));
    json::put(&mut m, "inbox_id", Json::Text(d.mailbox_id.clone()));
    json::put(&mut m, "subject", json::text_or_null(&d.subject));
    json::put(&mut m, "from_email", Json::Text(d.from.clone()));
    json::put(&mut m, "to_email", json::text_or_null(&first_recipient(&d.to)));
    json::put(&mut m, "sent_at", Json::Int(d.received_at));
    json::put(&mut m, "is_read", Json::Bool(d.read));
    json::put(&mut m, "text_body", json::text_or_null(&d.text_body));
    json::put(&mut m, "html_body", json::text_or_null(&d.html_body));
    json::put(&mut m, "headers", d.headers.copy());
    json::put(&mut m, "attachments", metas_to_json(&d.attachments));
    json::put(
        &mut m,
        "download_url",
        Json::Text(path_of(account, inbox, d.id.as_str(), "body.eml")),
    );
    Ok(Json::Object(m))
}

/// The plain text of an email, empty where it has none.
pub fn get_text(d: EmailDetail) -> (r: String)
    ensures
        r@ == chars::or_empty(d@.text_body),
{
    crate::db::columns::text(d.text_body)
}

/// The HTML of an email, empty where it has none.
pub fn get_html(d: EmailDetail) -> (r: String)
    ensures
        r@ == chars::or_empty(d@.html_body),
{
    crate::db::columns::text(d.html_body)
}

proof fn lemma_message_keys()
    ensures
        "id"@ != "inbox_id"@,
        "id"@ != "subject"@,
        "id"@ != "from_email"@,
        "id"@ != "to_email"@,
        "id"@ != "sent_at"@,
        "id"@ != "is_read"@,
        "id"@ != "text_body"@,
        "id"@ != "html_body"@,
        "id"@ != "headers"@,
        "id"@ != "attachments"@,
        "id"@ != "download_url"@,
        "inbox_id"@ != "subject"@,
        "inbox_id"@ != "from_email"@,
        "inbox_id"@ != "to_email"@,
        "inbox_id"@ != "sent_at"@,
        "inbox_id"@ != "is_read"@,
        "inbox_id"@ != "text_body"@,
        "inbox_id"@ != "html_body"@,
        "inbox_id"@ != "headers"@,
        "inbox_id"@ != "attachments"@,
        "inbox_id"@ != "download_url"@,
        "subject"@ != "from_email"@,
        "subject"@ != "to_email"@,
        "subject"@ != "sent_at"@,
        "subject"@ != "is_read"@,
        "subject"@ != "text_body"@,
        "subject"@ != "html_body"@,
        "subject"@ != "headers"@,
        "subject"@ != "attachments"@,
        "subject"@ != "download_url"@,
        "from_email"@ != "to_email"@,
        "from_email"@ != "sent_at"@,
        "from_email"@ != "is_read"@,
        "from_email"@ != "text_body"@,
        "from_email"@ != "html_body"@,
        "from_email"@ != "headers"@,
        "from_email"@ != "attachments"@,
        "from_email"@ != "download_url"@,
        "to_email"@ != "sent_at"@,
        "to_email"@ != "is_read"@,
        "to_email"@ != "text_body"@,
        "to_email"@ != "html_body"@,
        "to_email"@ != "headers"@,
        "to_email"@ != "attachments"@,
        "to_email"@ != "download_url"@,
        "sent_at"@ != "is_read"@,
        "sent_at"@ != "text_body"@,
        "sent_at"@ != "html_body"@,
        "sent_at"@ != "headers"@,
        "sent_at"@ != "attachments"@,
        "sent_at"@ != "download_url"@,
        "is_read"@ != "text_body"@,
        "is_read"@ != "html_body"@,
        "is_read"@ != "headers"@,
        "is_read"@ != "attachments"@,
        "is_read"@ != "download_url"@,
        "text_body"@ != "html_body"@,
        "text_body"@ != "headers"@,
        "text_body"@ != "attachments"@,
        "text_body"@ != "download_url"@,
        "html_body"@ != "headers"@,
        "html_body"@ != "attachments"@,
        "html_body"@ != "download_url"@,
        "headers"@ != "attachments"@,
        "headers"@ != "download_url"@,
        "attachments"@ != "download_url"@,
{
    reveal_strlit("id");
    assert("id"@.len() == 2);
    reveal_strlit("inbox_id");
    assert("inbox_id"@.len() == 8);
    reveal_strlit("subject");
    assert("subject"@.len() == 7);
    reveal_strlit("from_email");
    assert("from_email"@.len() == 10);
    reveal_strlit("to_email");
    assert("to_email"@.len() == 8);
    reveal_strlit("sent_at");
    assert("sent_at"@.len() == 7);
    reveal_strlit("is_read");
    assert("is_read"@.len() == 7);
    reveal_strlit("text_body");
    assert("text_body"@.len() == 9);
    reveal_strlit("html_body");
    assert("html_body"@.len() == 9);
    reveal_strlit("headers");
    assert("headers"@.len() == 7);
    reveal_strlit("attachments");
    assert("attachments"@.len() == 11);
    reveal_strlit("download_url");
    assert("download_url"@.len() == 12);
    assert("inbox_id"@[0] != "to_email"@[0]);
    assert("subject"@[1] != "sent_at"@[1]);
    assert("subject"@[0] != "is_read"@[0]);
    assert("subject"@[0] != "headers"@[0]);
    assert("sent_at"@[0] != "is_read"@[0]);
    assert("sent_at"@[0] != "headers"@[0]);
    assert("is_read"@[0] != "headers"@[0]);
    assert("text_body"@[0] != "html_body"@[0]);
}

/// An email in full has a member for each of its fields, under the name that Mailtrap
/// gives it, with the first recipient and the path of its raw bytes.
pub proof fn law_message_members(account: Seq<char>, inbox: Seq<char>, d: emails::DetailModel)
    ensures
        ({
            let j = message_json(account, inbox, d);
            &&& json::member(j, "id"@) == Some(json::JsonModel::Text(d.summary.id))
            &&& json::member(j, "inbox_id"@) == Some(json::JsonModel::Text(d.summary.mailbox_id))
            &&& json::member(j, "subject"@) == Some(match d.summary.subject {
                Some(t) => json::JsonModel::Text(t),
                None => json::JsonModel::Null,
            })
            &&& json::member(j, "from_email"@) == Some(json::JsonModel::Text(d.summary.from))
            &&& json::member(j, "to_email"@) == Some(if d.summary.to.len() > 0 {
                json::JsonModel::Text(d.summary.to[0])
            } else {
                json::JsonModel::Null
            })
            &&& json::member(j, "sent_at"@) == Some(json::JsonModel::Int(d.summary.received_at))
            &&& json::member(j, "is_read"@) == Some(json::JsonModel::Bool(d.summary.read))
            &&& json::member(j, "text_body"@) == Some(match d.text_body {
                Some(t) => json::JsonModel::Text(t),
                None => json::JsonModel::Null,
            })
            &&& json::member(j, "html_body"@) == Some(match d.html_body {
                Some(t) => json::JsonModel::Text(t),
                None => json::JsonModel::Null,
            })
            &&& json::member(j, "headers"@) == Some(d.headers)
            &&& json::member(j, "attachments"@) == Some(json::JsonModel::Array(d.attachments.map_values(|a: emails::MetaModel| meta_json(a))))
            &&& json::member(j, "download_url"@) == Some(json::JsonModel::Text("/api/accounts/"@ + account + "/inboxes/"@ + inbox + "/messages/"@ + d.summary.id + "/"@ + "body.eml"@))
            &&& json::has_only(j, set!["id"@, "inbox_id"@, "subject"@, "from_email"@, "to_email"@, "sent_at"@, "is_read"@, "text_body"@, "html_body"@, "headers"@, "attachments"@, "download_url"@])
        }),
{
    lemma_message_keys();
}

proof fn lemma_meta_keys()
    ensures
        "id"@ != "filename"@,
        "id"@ != "contentType"@,
        "id"@ != "contentId"@,
        "id"@ != "sizeBytes"@,
        "filename"@ != "contentType"@,
        "filename"@ != "contentId"@,
        "filename"@ != "sizeBytes"@,
        "contentType"@ != "contentId"@,
        "contentType"@ != "sizeBytes"@,
        "contentId"@ != "sizeBytes"@,
{
    reveal_strlit("id");
    assert("id"@.len() == 2);
    reveal_strlit("filename");
    assert("filename"@.len() == 8);
    reveal_strlit("contentType");
    assert("contentType"@.len() == 11);
    reveal_strlit("contentId");
    assert("contentId"@.len() == 9);
    reveal_strlit("sizeBytes");
    assert("sizeBytes"@.len() == 9);
    assert("contentId"@[0] != "sizeBytes"@[0]);
}

/// The description of an attachment has a member for each of its fields.
pub proof fn law_meta_members(a: emails::MetaModel)
    ensures
        ({
            let j = meta_json(a);
            &&& json::member(j, "id"@) == Some(json::JsonModel::Text(a.id))
            &&& json::member(j, "filename"@) == Some(match a.filename {
                Some(t) => json::JsonModel::Text(t),
                None => json::JsonModel::Null,
            })
            &&& json::member(j, "contentType"@) == Some(match a.content_type {
                Some(t) => json::JsonModel::Text(t),
                None => json::JsonModel::Null,
            })
            &&& json::member(j, "contentId"@) == Some(match a.content_id {
                Some(t) => json::JsonModel::Text(t),
                None => json::JsonModel::Null,
            })
            &&& json::member(j, "sizeBytes"@) == Some(json::JsonModel::Int(a.size_bytes))
            &&& json::has_only(j, set!["id"@, "filename"@, "contentType"@, "contentId"@, "sizeBytes"@])
        }),
{
    lemma_meta_keys();
}

/// The emails that count as unread are those that were not read.
pub proof fn law_unread(v: Seq<EmailSummary>)
    ensures
        unread(v) == v.filter(|s: EmailSummary| !s.read).len(),
    decreases v.len(),
{
    reveal(Seq::filter);
    if v.len() > 0 {
        law_unread(v.drop_last());
    }
}

/// Where the bodies of an email are: below its message, its inbox and the account.
pub proof fn law_body_paths(account: Seq<char>, inbox: Seq<char>, id: Seq<char>, file: Seq<char>)
    ensures
        body_path(account, inbox, id, file) == "/api/accounts/"@ + account + "/inboxes/"@ + inbox
            + "/messages/"@ + id + "/"@ + file,
{
}

} // verus!
