//! Captured emails.

use vstd::prelude::*;
use vstd::string::*;

use crate::db::attachments;
use crate::db::attachments::AttachmentInsert;
use crate::db::columns;
use crate::db::listing;
use crate::db::listing::Rank;
use crate::error::Error;
use crate::ident;
use crate::json;
use crate::json::Json;
use crate::text::chars;
use crate::text::unicode;
use crate::text::words;

verus! {

/// An email as a list shows it.
#[derive(Debug, Clone)]
pub struct EmailSummary {
    pub id: String,
    pub mailbox_id: String,
    pub received_at: i64,
    pub from: String,
    pub to: Vec<String>,
    pub subject: Option<String>,
    pub has_html: bool,
    pub has_text: bool,
    pub size_bytes: i64,
    pub read: bool,
    pub pinned: bool,
    pub starred: bool,
    pub tag: Option<String>,
}

/// What is known of an attachment without its bytes.
#[derive(Debug, Clone)]
pub struct AttachmentMeta {
    pub id: String,
    pub filename: Option<String>,
    pub content_type: Option<String>,
    pub content_id: Option<String>,
    pub size_bytes: i64,
}

/// An email with its headers, bodies and attachments.
#[derive(Debug, Clone)]
pub struct EmailDetail {
    pub id: String,
    pub mailbox_id: String,
    pub received_at: i64,
    pub from: String,
    pub to: Vec<String>,
    pub subject: Option<String>,
    pub has_html: bool,
    pub has_text: bool,
    pub size_bytes: i64,
    pub read: bool,
    pub pinned: bool,
    pub starred: bool,
    pub note: Option<String>,
    pub tag: Option<String>,
    pub headers: Json,
    pub text_body: Option<String>,
    pub html_body: Option<String>,
    pub attachments: Vec<AttachmentMeta>,
    pub message_id: Option<String>,
    pub in_reply_to: Option<String>,
    pub ext_smtputf8: bool,
    pub ext_8bitmime: bool,
}

/// A listed email as a mathematical value.
#[verifier::ext_equal]
pub struct SummaryModel {
    pub id: Seq<char>,
    pub mailbox_id: Seq<char>,
    pub received_at: i64,
    pub from: Seq<char>,
    pub to: Seq<Seq<char>>,
    pub subject: Option<Seq<char>>,
    pub has_html: bool,
    pub has_text: bool,
    pub size_bytes: i64,
    pub read: bool,
    pub pinned: bool,
    pub starred: bool,
    pub tag: Option<Seq<char>>,
}

/// An attachment's description as a mathematical value.
#[verifier::ext_equal]
pub struct MetaModel {
    pub id: Seq<char>,
    pub filename: Option<Seq<char>>,
    pub content_type: Option<Seq<char>>,
    pub content_id: Option<Seq<char>>,
    pub size_bytes: i64,
}

/// An email in full as a mathematical value.
#[verifier::ext_equal]
pub struct DetailModel {
    pub summary: SummaryModel,
    pub note: Option<Seq<char>>,
    pub headers: json::JsonModel,
    pub text_body: Option<Seq<char>>,
    pub html_body: Option<Seq<char>>,
    pub attachments: Seq<MetaModel>,
    pub message_id: Option<Seq<char>>,
    pub in_reply_to: Option<Seq<char>>,
    pub ext_smtputf8: bool,
    pub ext_8bitmime: bool,
}

impl View for EmailSummary {
    type V = SummaryModel;

    open spec fn view(&self) -> SummaryModel {
        SummaryModel {
            id: self.id@,
            mailbox_id: self.mailbox_id@,
            received_at: self.received_at,
            from: self.from@,
            to: chars::seq_views(self.to@),
            subject: chars::opt_view(self.subject),
            has_html: self.has_html,
            has_text: self.has_text,
            size_bytes: self.size_bytes,
            read: self.read,
            pinned: self.pinned,
            starred: self.starred,
            tag: chars::opt_view(self.tag),
        }
    }
}

impl View for AttachmentMeta {
    type V = MetaModel;

    open spec fn view(&self) -> MetaModel {
        MetaModel {
            id: self.id@,
            filename: chars::opt_view(self.filename),
            content_type: chars::opt_view(self.content_type),
            content_id: chars::opt_view(self.content_id),
            size_bytes: self.size_bytes,
        }
    }
}

/// The descriptions in a list.
pub open spec fn metas(v: Seq<AttachmentMeta>) -> Seq<MetaModel> {
    v.map_values(|a: AttachmentMeta| a@)
}

impl View for EmailDetail {
    type V = DetailModel;

    open spec fn view(&self) -> DetailModel {
        DetailModel {
            summary: SummaryModel {
                id: self.id@,
                mailbox_id: self.mailbox_id@,
                received_at: self.received_at,
                from: self.from@,
                to: chars::seq_views(self.to@),
                subject: chars::opt_view(self.subject),
                has_html: self.has_html,
                has_text: self.has_text,
                size_bytes: self.size_bytes,
                read: self.read,
                pinned: self.pinned,
                starred: self.starred,
                tag: chars::opt_view(self.tag),
            },
            note: chars::opt_view(self.note),
            headers: self.headers@,
            text_body: chars::opt_view(self.text_body),
            html_body: chars::opt_view(self.html_body),
            attachments: metas(self.attachments@),
            message_id: chars::opt_view(self.message_id),
            in_reply_to: chars::opt_view(self.in_reply_to),
            ext_smtputf8: self.ext_smtputf8,
            ext_8bitmime: self.ext_8bitmime,
        }
    }
}

/// An email that is about to be stored.
#[derive(Debug, Clone)]
pub struct EmailInsert {
    pub mailbox_id: String,
    pub received_at: i64,
    pub smtp_from: String,
    pub smtp_to: Vec<String>,
    pub header_from: Option<String>,
    pub header_to: Option<String>,
    pub header_cc: Option<String>,
    pub header_subject: Option<String>,
    pub message_id: Option<String>,
    pub in_reply_to: Option<String>,
    pub size_bytes: i64,
    pub has_html: bool,
    pub has_text: bool,
    pub raw_path: String,
    pub parsed_json: Json,
    pub ext_smtputf8: bool,
    pub ext_8bitmime: bool,
    pub attachments: Vec<AttachmentInsert>,
    /// The text that the search index holds.
    pub fts_body: String,
    /// A category, if one was found.
    pub tag: Option<String>,
}

/// What storing an email gives.
#[derive(Debug, Clone)]
pub struct InsertOutcome {
    pub id: String,
    pub summary: EmailSummary,
}

/// The columns of an email that are not taken over as they are.
#[derive(Debug)]
pub struct EmailRecord {
    pub id: String,
    pub smtp_to_json: String,
    pub has_html: i64,
    pub has_text: i64,
    pub read_flag: i64,
    pub ext_smtputf8: i64,
    pub ext_8bitmime: i64,
}

/// The columns of an email in the search index.
#[derive(Debug)]
pub struct IndexRecord {
    pub subject: String,
    pub sender: String,
    pub recipients: String,
    pub body: String,
    pub email_id: String,
}

/// The columns of an attachment of an email.
#[derive(Debug)]
pub struct AttachmentRecord {
    pub id: String,
    pub email_id: String,
    pub filename: Option<String>,
    pub content_type: Option<String>,
    pub content_id: Option<String>,
    pub size_bytes: i64,
    pub blob_path: String,
}

/// All that storing an email writes and gives back.
#[derive(Debug)]
pub struct InsertPlan {
    pub record: EmailRecord,
    pub attachments: Vec<AttachmentRecord>,
    pub index: IndexRecord,
    pub outcome: InsertOutcome,
}

/// The summary of an email that was just stored: it is unread and bears no marks.
pub open spec fn new_summary(e: EmailInsert, id: Seq<char>) -> SummaryModel {
    SummaryModel {
        id,
        mailbox_id: e.mailbox_id@,
        received_at: e.received_at,
        from: e.smtp_from@,
        to: chars::seq_views(e.smtp_to@),
        subject: chars::opt_view(e.header_subject),
        has_html: e.has_html,
        has_text: e.has_text,
        size_bytes: e.size_bytes,
        read: false,
        pinned: false,
        starred: false,
        tag: chars::opt_view(e.tag),
    }
}

/// The columns `a` hold the attachment `att` of the email with the identifier `id`.
pub open spec fn records_attachment(
    a: AttachmentRecord,
    att: AttachmentInsert,
    id: Seq<char>,
) -> bool {
    &&& a.id@ == att.id@
    &&& a.email_id@ == id
    &&& chars::opt_view(a.filename) == chars::opt_view(att.filename)
    &&& chars::opt_view(a.content_type) == chars::opt_view(att.content_type)
    &&& chars::opt_view(a.content_id) == chars::opt_view(att.content_id)
    &&& a.size_bytes == att.size_bytes
    &&& a.blob_path@ == att.blob_path@
}

/// The columns of all attachments of the email with the identifier `id`, in their
/// order.
pub open spec fn records_attachments(
    v: Seq<AttachmentRecord>,
    atts: Seq<AttachmentInsert>,
    id: Seq<char>,
) -> bool {
    &&& v.len() == atts.len()
    &&& forall|i: int| 0 <= i < atts.len() ==> records_attachment(#[trigger] v[i], atts[i], id)
}

/// The plan for storing `e` under the identifier `id`: the recipients are written as
/// JSON, from which they are read back.
pub open spec fn plans(p: InsertPlan, e: EmailInsert, id: Seq<char>) -> bool {
    &&& plans_with(p, e, id, json::list_text(chars::seq_views(e.smtp_to@)))
    &&& json::list_in(p.record.smtp_to_json@) == Some(chars::seq_views(e.smtp_to@))
}

/// The plan for storing `e` under the identifier `id`, with the text `to_text` for
/// its recipients.
pub open spec fn plans_with(
    p: InsertPlan,
    e: EmailInsert,
    id: Seq<char>,
    to_text: Seq<char>,
) -> bool {
    &&& p.record.id@ == id
    &&& p.record.smtp_to_json@ == to_text
    &&& p.record.has_html == columns::flag_number(e.has_html)
    &&& p.record.has_text == columns::flag_number(e.has_text)
    &&& p.record.read_flag == 0
    &&& p.record.ext_smtputf8 == columns::flag_number(e.ext_smtputf8)
    &&& p.record.ext_8bitmime == columns::flag_number(e.ext_8bitmime)
    &&& records_attachments(p.attachments@, e.attachments@, id)
    &&& p.index.subject@ == chars::or_empty(chars::opt_view(e.header_subject))
    &&& p.index.sender@ == e.smtp_from@
    &&& p.index.recipients@ == words::joined(chars::seq_views(e.smtp_to@), " "@)
    &&& p.index.body@ == e.fts_body@
    &&& p.index.email_id@ == id
    &&& p.outcome.id@ == id
    &&& p.outcome.summary@ == new_summary(e, id)
}

/// Plans the storing of an email under a fresh identifier.
pub fn insert(email: &EmailInsert) -> (r: Result<InsertPlan, Error>)
    ensures
        r matches Ok(p) && ident::is_random_uuid(p.outcome.id@) && plans(
            p,
            *email,
            p.outcome.id@,
        ),
{
    insert_as(email, ident::fresh_id())
}

/// Plans the storing of an email under the identifier `id`.
pub fn insert_as(email: &EmailInsert, id: String) -> (r: Result<InsertPlan, Error>)
    ensures
        r matches Ok(p) && plans(p, *email, id@),
{
    match json::write_list(&email.smtp_to) {
        Ok(t) => Ok(insert_with(email, id, t)),
        Err(m) => Err(Error::Json(m)),
    }
}

fn attachment_records(atts: &Vec<AttachmentInsert>, id: &str) -> (r: Vec<AttachmentRecord>)
    ensures
        records_attachments(r@, atts@, id@),
{
    let mut v: Vec<AttachmentRecord> = Vec::new();
    let mut i: usize = 0;
    while i < atts.len()
        invariant
            i <= atts@.len(),
            v@.len() == i,
            forall|k: int| 0 <= k < i ==> records_attachment(#[trigger] v@[k], atts@[k], id@),
        decreases atts@.len() - i,
    {
        let att: &AttachmentInsert = &atts[i];
        v.push(
            AttachmentRecord {
                id: att.id.clone(),
                email_id: id.to_owned(),
                filename: chars::clone_opt(&att.filename),
                content_type: chars::clone_opt(&att.content_type),
                content_id: chars::clone_opt(&att.content_id),
                size_bytes: att.size_bytes,
                blob_path: att.blob_path.clone(),
            },
        );
        i = i + 1;
    }
    v
}

/// Plans the storing of an email under the identifier `id`, with the text
/// `smtp_to_json` for its recipients.
pub fn insert_with(email: &EmailInsert, id: String, smtp_to_json: String) -> (r: InsertPlan)
    ensures
        plans_with(r, *email, id@, smtp_to_json@),
{
    let record = EmailRecord {
        id: id.clone(),
        smtp_to_json,
        has_html: columns::flag_column(email.has_html),
        has_text: columns::flag_column(email.has_text),
        read_flag: 0,
        ext_smtputf8: columns::flag_column(email.ext_smtputf8),
        ext_8bitmime: columns::flag_column(email.ext_8bitmime),
    };
    let attachments: Vec<AttachmentRecord> = attachment_records(&email.attachments, id.as_str());
    let index = IndexRecord {
        subject: columns::text(chars::clone_opt(&email.header_subject)),
        sender: email.smtp_from.clone(),
        recipients: words::join(&email.smtp_to, " "),
        body: email.fts_body.clone(),
        email_id: id.clone(),
    };
    let summary = EmailSummary {
        id: id.clone(),
        mailbox_id: email.mailbox_id.clone(),
        received_at: email.received_at,
        from: email.smtp_from.clone(),
        to: chars::clone_strings(&email.smtp_to),
        subject: chars::clone_opt(&email.header_subject),
        has_html: email.has_html,
        has_text: email.has_text,
        size_bytes: email.size_bytes,
        read: false,
        pinned: false,
        starred: false,
        tag: chars::clone_opt(&email.tag),
    };
    InsertPlan { record, attachments, index, outcome: InsertOutcome { id, summary } }
}

/// The columns of an email that a list reads.
#[derive(Debug)]
pub struct SummaryRow {
    pub id: Option<String>,
    pub mailbox_id: Option<String>,
    pub received_at: Option<i64>,
    pub smtp_from: Option<String>,
    pub smtp_to_json: Option<String>,
    pub header_subject: Option<String>,
    pub has_html: Option<i64>,
    pub has_text: Option<i64>,
    pub size_bytes: Option<i64>,
    pub read_flag: Option<i64>,
    pub pinned: Option<i64>,
    pub starred: Option<i64>,
    pub tag: Option<String>,
}

/// The columns of an email that its detail reads besides those of a list. The
/// parsed message is null where its column holds no JSON.
#[derive(Debug)]
pub struct DetailRow {
    pub summary: SummaryRow,
    pub parsed: Json,
    pub message_id: Option<String>,
    pub in_reply_to: Option<String>,
    pub ext_smtputf8: Option<i64>,
    pub ext_8bitmime: Option<i64>,
    pub note: Option<String>,
}

/// A list's columns as a summary, with the recipients that were read out of theirs.
pub open spec fn summary_with(row: SummaryRow, to: Seq<Seq<char>>) -> SummaryModel {
    SummaryModel {
        id: chars::or_empty(chars::opt_view(row.id)),
        mailbox_id: chars::or_empty(chars::opt_view(row.mailbox_id)),
        received_at: columns::number_or(row.received_at, 0),
        from: chars::or_empty(chars::opt_view(row.smtp_from)),
        to,
        subject: chars::opt_view(row.header_subject),
        has_html: columns::number_or(row.has_html, 0) != 0,
        has_text: columns::number_or(row.has_text, 0) != 0,
        size_bytes: columns::number_or(row.size_bytes, 0),
        read: columns::number_or(row.read_flag, 0) != 0,
        pinned: columns::number_or(row.pinned, 0) != 0,
        starred: columns::number_or(row.starred, 0) != 0,
        tag: chars::opt_view(row.tag),
    }
}

/// The recipients in a list's columns.
pub open spec fn recipients_in(row: SummaryRow) -> Seq<Seq<char>> {
    json::list_or_empty(chars::or_empty(chars::opt_view(row.smtp_to_json)))
}

/// A list's columns as a summary.
pub open spec fn summary_of(row: SummaryRow) -> SummaryModel {
    summary_with(row, recipients_in(row))
}

/// The columns of an email in full, with its attachments.
pub open spec fn detail_of(row: DetailRow, attached: Seq<MetaModel>) -> DetailModel {
    detail_with(row, recipients_in(row.summary), attached)
}

/// The columns of an email in full, with its attachments and the recipients that
/// were read out of theirs.
pub open spec fn detail_with(
    row: DetailRow,
    to: Seq<Seq<char>>,
    attached: Seq<MetaModel>,
) -> DetailModel {
    DetailModel {
        summary: summary_with(row.summary, to),
        note: chars::opt_view(row.note),
        headers: match json::member(row.parsed@, "headers"@) {
            Some(h) => h,
            None => json::JsonModel::Null,
        },
        text_body: json::member_text(row.parsed@, "text_body"@),
        html_body: json::member_text(row.parsed@, "html_body"@),
        attachments: attached,
        message_id: chars::opt_view(row.message_id),
        in_reply_to: chars::opt_view(row.in_reply_to),
        ext_smtputf8: columns::number_or(row.ext_smtputf8, 0) != 0,
        ext_8bitmime: columns::number_or(row.ext_8bitmime, 0) != 0,
    }
}

/// A row of a list.
pub fn row_to_summary(row: SummaryRow) -> (r: EmailSummary)
    ensures
        r@ == summary_of(row),
{
    let to: Vec<String> = read_recipients(&row);
    row_to_summary_with(row, to)
}

fn read_recipients(row: &SummaryRow) -> (r: Vec<String>)
    ensures
        chars::seq_views(r@) == recipients_in(*row),
{
    let text: String = columns::text(chars::clone_opt(&row.smtp_to_json));
    json::list_from(text.as_str())
}

/// A row of a list, with the recipients that were read out of their column.
pub fn row_to_summary_with(row: SummaryRow, to: Vec<String>) -> (r: EmailSummary)
    ensures
        r@ == summary_with(row, chars::seq_views(to@)),
{
    EmailSummary {
        id: columns::text(row.id),
        mailbox_id: columns::text(row.mailbox_id),
        received_at: columns::number(row.received_at, 0),
        from: columns::text(row.smtp_from),
        to,
        subject: row.header_subject,
        has_html: columns::flag(row.has_html, 0),
        has_text: columns::flag(row.has_text, 0),
        size_bytes: columns::number(row.size_bytes, 0),
        read: columns::flag(row.read_flag, 0),
        pinned: columns::flag(row.pinned, 0),
        starred: columns::flag(row.starred, 0),
        tag: row.tag,
    }
}

fn owned(s: Option<&str>) -> (r: Option<String>)
    ensures
        match s {
            Some(t) => chars::opt_view(r) == Some(t@),
            None => r is None,
        },
{
    match s {
        Some(t) => Some(t.to_owned()),
        None => None,
    }
}

fn text_member(j: &Json, key: &str) -> (r: Option<String>)
    ensures
        chars::opt_view(r) == json::member_text(j@, key@),
{
    match j.get(key) {
        Some(v) => owned(v.as_str()),
        None => None,
    }
}

/// An email in full. There has to be a row.
pub fn get_detail(id: &str, row: Option<DetailRow>, attached: Vec<AttachmentMeta>) -> (r: Result<
    EmailDetail,
    Error,
>)
    ensures
        match row {
            Some(c) => r matches Ok(d) && d@ == detail_of(c, metas(attached@)),
            None => r matches Err(Error::EmailNotFound(i)) && i@ == id@,
        },
{
    match row {
        None => Err(Error::EmailNotFound(id.to_owned())),
        Some(c) => {
            let to: Vec<String> = read_recipients(&c.summary);
            Ok(row_to_detail(c, to, attached))
        },
    }
}

/// An email in full out of its columns, with the recipients that were read out of
/// theirs.
pub fn row_to_detail(row: DetailRow, to: Vec<String>, attached: Vec<AttachmentMeta>) -> (r:
    EmailDetail)
    ensures
        r@ == detail_with(row, chars::seq_views(to@), metas(attached@)),
{
    let headers: Json = match row.parsed.get("headers") {
        Some(h) => h.copy(),
        None => Json::Null,
    };
    let text_body: Option<String> = text_member(&row.parsed, "text_body");
    let html_body: Option<String> = text_member(&row.parsed, "html_body");
    let s: EmailSummary = row_to_summary_with(row.summary, to);
    EmailDetail {
        id: s.id,
        mailbox_id: s.mailbox_id,
        received_at: s.received_at,
        from: s.from,
        to: s.to,
        subject: s.subject,
        has_html: s.has_html,
        has_text: s.has_text,
        size_bytes: s.size_bytes,
        read: s.read,
        pinned: s.pinned,
        starred: s.starred,
        note: row.note,
        tag: s.tag,
        headers,
        text_body,
        html_body,
        attachments: attached,
        message_id: row.message_id,
        in_reply_to: row.in_reply_to,
        ext_smtputf8: columns::flag(row.ext_smtputf8, 0),
        ext_8bitmime: columns::flag(row.ext_8bitmime, 0),
    }
}

/// The path of the raw message of an email. There has to be a row; a row without a
/// path has the empty one.
pub fn get_raw_path(id: &str, row: Option<Option<String>>) -> (r: Result<String, Error>)
    ensures
        match row {
            Some(c) => r matches Ok(p) && p@ == chars::or_empty(chars::opt_view(c)),
            None => r matches Err(Error::EmailNotFound(i)) && i@ == id@,
        },
{
    match row {
        Some(c) => Ok(columns::text(c)),
        None => Err(Error::EmailNotFound(id.to_owned())),
    }
}

/// The path of the raw message of an email that is being deleted. There has to be
/// a row with a path.
pub fn delete(id: &str, row: Option<Option<String>>) -> (r: Result<String, Error>)
    ensures
        match row {
            Some(Some(p)) => r matches Ok(q) && q@ == p@,
            _ => r matches Err(Error::EmailNotFound(i)) && i@ == id@,
        },
{
    match row {
        Some(Some(p)) => Ok(p),
        _ => Err(Error::EmailNotFound(id.to_owned())),
    }
}

/// What a change of one email comes to: it has to have changed a row. So it is
/// with marking it read, pinning it, starring it, its note and its tag.
pub fn require_changed(id: &str, rows_affected: u64) -> (r: Result<(), Error>)
    ensures
        r is Ok == (rows_affected != 0),
        r matches Err(e) ==> (e matches Error::EmailNotFound(i) && i@ == id@),
{
    if rows_affected == 0 {
        return Err(Error::EmailNotFound(id.to_owned()));
    }
    Ok(())
}

/// The ranks of emails in a mailbox: the pinned ones come first, and then the newest.
pub open spec fn mailbox_ranks(shown: Seq<EmailSummary>) -> Seq<Rank> {
    shown.map_values(
        |e: EmailSummary|
            Rank {
                group: if e.pinned {
                    0u8
                } else {
                    1u8
                },
                place: listing::latest_first(e.received_at),
            },
    )
}

/// The ranks of emails of any mailbox: the newest comes first.
pub open spec fn recent_ranks(shown: Seq<EmailSummary>) -> Seq<Rank> {
    shown.map_values(
        |e: EmailSummary| Rank { group: 0u8, place: listing::latest_first(e.received_at) },
    )
}

/// A page of the emails of a mailbox. The pinned ones come first whenever they were
/// received, and then the newest.
pub fn list(shown: Vec<EmailSummary>, limit: u32, offset: u32) -> (r: Vec<EmailSummary>)
    ensures
        listing::is_page(r@, shown@, mailbox_ranks(shown@), limit, offset),
{
    let mut ranks: Vec<Rank> = Vec::new();
    let mut i: usize = 0;
    while i < shown.len()
        invariant
            i <= shown@.len(),
            ranks@.len() == i,
            forall|k: int| 0 <= k < i ==> #[trigger] ranks@[k] == mailbox_ranks(shown@)[k],
        decreases shown@.len() - i,
    {
        let group: u8 = if shown[i].pinned {
            0
        } else {
            1
        };
        ranks.push(Rank { group, place: listing::place_latest_first(shown[i].received_at) });
        i = i + 1;
    }
    assert(ranks@ =~= mailbox_ranks(shown@));
    listing::page(shown, &ranks, limit, offset)
}

/// The most recent emails of all mailboxes, at most `limit`, the newest first.
pub fn list_recent_across(shown: Vec<EmailSummary>, limit: u32) -> (r: Vec<EmailSummary>)
    ensures
        listing::is_page(r@, shown@, recent_ranks(shown@), limit, 0),
{
    let mut ranks: Vec<Rank> = Vec::new();
    let mut i: usize = 0;
    while i < shown.len()
        invariant
            i <= shown@.len(),
            ranks@.len() == i,
            forall|k: int| 0 <= k < i ==> #[trigger] ranks@[k] == recent_ranks(shown@)[k],
        decreases shown@.len() - i,
    {
        ranks.push(
            Rank { group: 0, place: listing::place_latest_first(shown[i].received_at) },
        );
        i = i + 1;
    }
    assert(ranks@ =~= recent_ranks(shown@));
    listing::page(shown, &ranks, limit, 0)
}

/// A page of a mailbox has as many emails as there are, up to its limit. A pinned
/// email never stands behind one that is not pinned, and of two emails that are both
/// pinned or both not, the newer one never stands behind the older one.
pub proof fn law_pinned_emails_come_first(
    r: Seq<EmailSummary>,
    shown: Seq<EmailSummary>,
    limit: u32,
    offset: u32,
    k: int,
    l: int,
)
    requires
        listing::is_page(r, shown, mailbox_ranks(shown), limit, offset),
        0 <= k < l < r.len(),
    ensures
        r.len() == if offset + limit <= shown.len() {
            limit as int
        } else {
            shown.len() - offset
        },
        r[l].pinned ==> r[k].pinned,
        r[k].pinned == r[l].pinned ==> r[k].received_at >= r[l].received_at,
{
    let ranks = mailbox_ranks(shown);
    let lo = listing::page_start(offset, shown.len());
    let hi = listing::page_end(limit, offset, shown.len());
    let i = listing::lemma_place_in_part(r, shown, ranks, lo, hi, k);
    let at = listing::lemma_places_in_part(r, shown, ranks, lo, hi, k, l);
    assert(ranks[at.0].place == -1 - r[k].received_at);
    assert(ranks[at.1].place == -1 - r[l].received_at);
}

/// Of the most recent emails, a newer one never stands behind an older one.
pub proof fn law_recent_emails_come_newest_first(
    r: Seq<EmailSummary>,
    shown: Seq<EmailSummary>,
    limit: u32,
    k: int,
    l: int,
)
    requires
        listing::is_page(r, shown, recent_ranks(shown), limit, 0),
        0 <= k < l < r.len(),
    ensures
        r.len() <= limit,
        r[k].received_at >= r[l].received_at,
{
    let ranks = recent_ranks(shown);
    let hi = listing::page_end(limit, 0, shown.len());
    let i = listing::lemma_place_in_part(r, shown, ranks, 0, hi, k);
    let at = listing::lemma_places_in_part(r, shown, ranks, 0, hi, k, l);
    assert(ranks[at.0].place == -1 - r[k].received_at);
    assert(ranks[at.1].place == -1 - r[l].received_at);
}

/// What decides whether a stored email is removed, and what then goes.
#[derive(Debug)]
pub struct StoredEmail {
    pub id: String,
    pub raw_path: String,
    /// When it was received, where that is known.
    pub received_at: Option<i64>,
    pub pinned: bool,
}

/// The columns of a stored email that decide whether it is removed.
#[derive(Debug)]
pub struct StoredRow {
    pub id: Option<String>,
    pub raw_path: Option<String>,
    pub received_at: Option<i64>,
    pub pinned: Option<i64>,
}

/// A stored email out of its columns. One that does not say that it is not pinned is
/// treated as pinned.
pub fn row_to_stored(row: StoredRow) -> (r: StoredEmail)
    ensures
        r.id@ == chars::or_empty(chars::opt_view(row.id)),
        r.raw_path@ == chars::or_empty(chars::opt_view(row.raw_path)),
        r.received_at == row.received_at,
        r.pinned == (row.pinned != Some(0i64)),
{
    StoredEmail {
        id: columns::text(row.id),
        raw_path: columns::text(row.raw_path),
        received_at: row.received_at,
        pinned: columns::flag(row.pinned, 1),
    }
}

/// The emails that clearing a mailbox removes: all of them, or all that are not
/// pinned.
pub open spec fn cleared(rows: Seq<StoredEmail>, preserve_pinned: bool) -> Seq<StoredEmail> {
    rows.filter(|e: StoredEmail| !(preserve_pinned && e.pinned))
}

/// The emails of a mailbox that clearing it removes. Pinned emails are spared where
/// they are to be preserved.
pub fn clear_mailbox(rows: Vec<StoredEmail>, preserve_pinned: bool) -> (r: Vec<StoredEmail>)
    ensures
        r@ == cleared(rows@, preserve_pinned),
{
    let mut goes: Vec<bool> = Vec::new();
    let mut i: usize = 0;
    while i < rows.len()
        invariant
            i <= rows@.len(),
            goes@.len() == i,
            forall|k: int|
                0 <= k < i ==> #[trigger] goes@[k] == !(preserve_pinned && rows@[k].pinned),
        decreases rows@.len() - i,
    {
        goes.push(!(preserve_pinned && rows[i].pinned));
        i = i + 1;
    }
    proof {
        listing::lemma_selected_by(
            rows@,
            goes@,
            |e: StoredEmail| !(preserve_pinned && e.pinned),
        );
    }
    listing::select(rows, &goes)
}

/// The email is known to have been received before a time.
pub open spec fn is_older(e: StoredEmail, cutoff_ms: i64) -> bool {
    e.received_at matches Some(at) && at < cutoff_ms
}

/// The emails that were received before a time.
pub open spec fn older_than(rows: Seq<StoredEmail>, cutoff_ms: i64) -> Seq<StoredEmail> {
    rows.filter(|e: StoredEmail| is_older(e, cutoff_ms))
}

/// The emails that were received before `cutoff_ms`.
pub fn list_older_than(rows: Vec<StoredEmail>, cutoff_ms: i64) -> (r: Vec<StoredEmail>)
    ensures
        r@ == older_than(rows@, cutoff_ms),
{
    let mut goes: Vec<bool> = Vec::new();
    let mut i: usize = 0;
    while i < rows.len()
        invariant
            i <= rows@.len(),
            goes@.len() == i,
            forall|k: int| 0 <= k < i ==> #[trigger] goes@[k] == is_older(rows@[k], cutoff_ms),
        decreases rows@.len() - i,
    {
        let older: bool = match rows[i].received_at {
            Some(at) => at < cutoff_ms,
            None => false,
        };
        goes.push(older);
        i = i + 1;
    }
    proof {
        listing::lemma_selected_by(rows@, goes@, |e: StoredEmail| is_older(e, cutoff_ms));
    }
    listing::select(rows, &goes)
}

/// The emails that are not pinned.
pub open spec fn unpinned(rows: Seq<StoredEmail>) -> Seq<StoredEmail> {
    cleared(rows, true)
}

/// The rank of a stored email by its age. One of unknown age is the oldest.
pub open spec fn age_rank(e: StoredEmail) -> Rank {
    match e.received_at {
        Some(at) => Rank { group: 0u8, place: listing::latest_first(at) },
        None => Rank { group: 1u8, place: 0i64 },
    }
}

/// The ranks of stored emails: the newest comes first.
pub open spec fn age_ranks(rows: Seq<StoredEmail>) -> Seq<Rank> {
    rows.map_values(|e: StoredEmail| age_rank(e))
}

/// The email `a` is at least as new as `b`.
pub open spec fn at_least_as_new(a: StoredEmail, b: StoredEmail) -> bool {
    match (a.received_at, b.received_at) {
        (Some(x), Some(y)) => x >= y,
        (_, None) => true,
        (None, Some(_)) => false,
    }
}

/// How many of `n` emails stay; a negative number keeps them all.
pub open spec fn staying(keep_max: i64, n: nat) -> int {
    if 0 <= keep_max <= n {
        keep_max as int
    } else {
        n as int
    }
}

/// `r` is what trimming a mailbox to its `keep_max` newest emails removes. Pinned
/// emails neither go nor count.
pub open spec fn is_trimmed(r: Seq<StoredEmail>, rows: Seq<StoredEmail>, keep_max: i64) -> bool {
    let loose = unpinned(rows);
    listing::is_part(
        r,
        loose,
        age_ranks(loose),
        staying(keep_max, loose.len()),
        loose.len() as int,
    )
}

/// The emails of a mailbox that trimming it to its `keep_max` newest ones removes.
/// Pinned emails neither go nor count.
pub fn trim_mailbox(rows: Vec<StoredEmail>, keep_max: i64) -> (r: Vec<StoredEmail>)
    ensures
        is_trimmed(r@, rows@, keep_max),
{
    let loose: Vec<StoredEmail> = clear_mailbox(rows, true);
    let mut ranks: Vec<Rank> = Vec::new();
    let mut i: usize = 0;
    while i < loose.len()
        invariant
            i <= loose@.len(),
            ranks@.len() == i,
            forall|k: int| 0 <= k < i ==> #[trigger] ranks@[k] == age_ranks(loose@)[k],
        decreases loose@.len() - i,
    {
        let r: Rank = match loose[i].received_at {
            Some(at) => Rank { group: 0, place: listing::place_latest_first(at) },
            None => Rank { group: 1, place: 0 },
        };
        ranks.push(r);
        i = i + 1;
    }
    assert(ranks@ =~= age_ranks(loose@));
    let n: usize = loose.len();
    let lo: usize = if 0 <= keep_max && keep_max as u64 <= n as u64 {
        keep_max as usize
    } else {
        n
    };
    listing::part(loose, &ranks, lo, n)
}

/// Clearing a mailbox removes no pinned email where they are to be preserved, and
/// removes every other email.
pub proof fn law_pins_survive_clearing(
    rows: Seq<StoredEmail>,
    preserve_pinned: bool,
    e: StoredEmail,
)
    requires
        rows.contains(e),
    ensures
        cleared(rows, preserve_pinned).contains(e) == !(preserve_pinned && e.pinned),
{
    let p = |x: StoredEmail| !(preserve_pinned && x.pinned);
    rows.filter_lemma(p);
    let i = rows.index_of(e);
    if p(rows[i]) {
        assert(cleared(rows, preserve_pinned).contains(e));
    }
}

/// Trimming a mailbox removes no pinned email, and leaves of the others exactly as
/// many as are kept, or all where there are no more.
pub proof fn law_pins_survive_trimming(
    r: Seq<StoredEmail>,
    rows: Seq<StoredEmail>,
    keep_max: i64,
    k: int,
)
    requires
        is_trimmed(r, rows, keep_max),
        keep_max >= 0,
    ensures
        unpinned(rows).len() - r.len() == if keep_max <= unpinned(rows).len() {
            keep_max as int
        } else {
            unpinned(rows).len() as int
        },
        0 <= k < r.len() ==> !r[k].pinned && rows.contains(r[k]),
{
    let loose = unpinned(rows);
    let lo = staying(keep_max, loose.len());
    let i = listing::lemma_place_in_part(
        r,
        loose,
        age_ranks(loose),
        lo,
        loose.len() as int,
        k,
    );
    if 0 <= k < r.len() {
        lemma_cleared(rows, true, i);
    }
}

/// Trimming a mailbox removes the oldest emails: what stays and is not pinned is at
/// least as new as anything that goes.
pub proof fn law_newest_emails_stay(
    r: Seq<StoredEmail>,
    rows: Seq<StoredEmail>,
    keep_max: i64,
    e: StoredEmail,
    k: int,
)
    requires
        is_trimmed(r, rows, keep_max),
        rows.contains(e),
        !e.pinned,
        !r.contains(e),
        0 <= k < r.len(),
    ensures
        at_least_as_new(e, r[k]),
{
    let loose = unpinned(rows);
    let ranks = age_ranks(loose);
    let lo = staying(keep_max, loose.len());
    let order = choose|order: Seq<usize>| #[trigger]
        listing::is_order(order, ranks) && r == listing::picked(
            loose,
            order.subrange(lo, loose.len() as int),
        );
    law_pins_survive_clearing(rows, true, e);
    let i = loose.index_of(e);
    let n = order[lo + k];
    assert(n < loose.len());
    listing::law_every_row_is_listed_once(order, ranks, i);
    let m = choose|m: int| 0 <= m < order.len() && #[trigger] order[m] == i;
    if m >= lo {
        assert(r[m - lo] == e);
    }
    assert(listing::before(ranks, order[m] as int, order[lo + k] as int));
    assert(ranks[i] == age_rank(e));
    assert(ranks[n as int] == age_rank(r[k]));
}

/// What clearing a mailbox removes are emails of the mailbox.
proof fn lemma_cleared(rows: Seq<StoredEmail>, preserve_pinned: bool, i: int)
    requires
        0 <= i < cleared(rows, preserve_pinned).len(),
    ensures
        rows.contains(cleared(rows, preserve_pinned)[i]),
        !(preserve_pinned && cleared(rows, preserve_pinned)[i].pinned),
{
    listing::lemma_filtered(rows, |x: StoredEmail| !(preserve_pinned && x.pinned), i);
}

/// A character that a search keeps: letters, numbers, white space, and the marks
/// that occur in addresses and identifiers.
pub open spec fn is_searchable(c: char) -> bool {
    ||| unicode::is_white_space(c)
    ||| c == '.'
    ||| c == '@'
    ||| c == '_'
    ||| if (c as u32) < 0x80 {
        unicode::is_ascii_alnum(c)
    } else {
        unicode::is_alphanumeric(c)
    }
}

/// The characters of `q` that a search keeps.
pub open spec fn kept(q: Seq<char>) -> Seq<char>
    decreases q.len(),
{
    if q.len() == 0 {
        Seq::empty()
    } else if is_searchable(q.last()) {
        kept(q.drop_last()).push(q.last())
    } else {
        kept(q.drop_last())
    }
}

/// A search text without what the index could take for syntax.
pub open spec fn sanitized(q: Seq<char>) -> Seq<char> {
    words::trim(kept(q))
}

/// The words of a search, each one as the beginning of a word.
pub open spec fn prefix_terms(cleaned: Seq<char>) -> Seq<Seq<char>> {
    words::words(cleaned, words::any_space()).map_values(|w: Seq<char>| w.push('*'))
}

/// The expression that a cleaned search text asks the index for.
pub open spec fn match_expression(cleaned: Seq<char>) -> Seq<char> {
    words::joined(prefix_terms(cleaned), " "@)
}

/// Drops what the index could take for syntax. The hyphen is among it: in front of
/// a word it would exclude that word.
pub fn sanitize_fts(q: &str) -> (r: String)
    ensures
        r@ == sanitized(q@),
{
    let v: Vec<char> = chars::chars_of(q);
    let mut out = String::new();
    let mut i: usize = 0;
    assert(out@ =~= kept(v@.take(0)));
    while i < v.len()
        invariant
            i <= v@.len(),
            out@ == kept(v@.take(i as int)),
        decreases v@.len() - i,
    {
        let c: char = v[i];
        assert(v@.take(i + 1).drop_last() =~= v@.take(i as int));
        if c.is_alphanumeric() || c.is_whitespace() || c == '.' || c == '@' || c == '_' {
            out.push(c);
        }
        i = i + 1;
    }
    assert(v@.take(i as int) =~= v@);
    words::trimmed(out.as_str())
}

/// The match expression of a cleaned search text: every word has to occur, at
/// least as the beginning of a word.
pub fn build_fts_query(cleaned: &str) -> (r: String)
    ensures
        r@ == match_expression(cleaned@),
{
    let ws: Vec<String> = words::split_whitespace(cleaned);
    let mut terms: Vec<String> = Vec::new();
    let mut i: usize = 0;
    while i < ws.len()
        invariant
            i <= ws@.len(),
            terms@.len() == i,
            forall|j: int| 0 <= j < i ==> (#[trigger] terms@[j])@ == ws@[j]@.push('*'),
        decreases ws@.len() - i,
    {
        let mut t: String = ws[i].clone();
        t.push('*');
        terms.push(t);
        i = i + 1;
    }
    assert(chars::seq_views(terms@) =~= prefix_terms(cleaned@)) by {
        assert(chars::seq_views(ws@) == words::words(cleaned@, words::any_space()));
        assert forall|j: int| 0 <= j < ws@.len() implies (#[trigger] terms@[j])@
            == prefix_terms(cleaned@)[j] by {
            assert(chars::seq_views(ws@)[j] == ws@[j]@);
        }
    }
    words::join(&terms, " ")
}

/// The match expression for what a user typed; nothing where nothing can match.
pub fn search(q: &str) -> (r: Option<String>)
    ensures
        r is Some == (sanitized(q@).len() > 0),
        r matches Some(e) ==> e@ == match_expression(sanitized(q@)) && e@.len() > 0,
{
    let cleaned: String = sanitize_fts(q);
    if cleaned.as_str().is_empty() {
        return None;
    }
    proof {
        lemma_something_to_match(kept(q@));
    }
    let expression: String = build_fts_query(cleaned.as_str());
    if expression.as_str().is_empty() {
        return None;
    }
    Some(expression)
}

/// Whether a list reads the columns that a plan wrote for `e`. The marks are not
/// among what is written: they are absent or zero.
pub open spec fn reads_back(row: SummaryRow, p: InsertPlan, e: EmailInsert) -> bool {
    &&& chars::opt_view(row.id) == Some(p.record.id@)
    &&& chars::opt_view(row.mailbox_id) == Some(e.mailbox_id@)
    &&& row.received_at == Some(e.received_at)
    &&& chars::opt_view(row.smtp_from) == Some(e.smtp_from@)
    &&& chars::opt_view(row.smtp_to_json) == Some(p.record.smtp_to_json@)
    &&& chars::opt_view(row.header_subject) == chars::opt_view(e.header_subject)
    &&& row.has_html == Some(p.record.has_html)
    &&& row.has_text == Some(p.record.has_text)
    &&& row.size_bytes == Some(e.size_bytes)
    &&& row.read_flag == Some(p.record.read_flag)
    &&& columns::number_or(row.pinned, 0) == 0
    &&& columns::number_or(row.starred, 0) == 0
    &&& chars::opt_view(row.tag) == chars::opt_view(e.tag)
}

/// A list shows a stored email exactly as storing it reported it.
pub proof fn law_stored_email_is_listed(
    row: SummaryRow,
    p: InsertPlan,
    e: EmailInsert,
    id: Seq<char>,
)
    requires
        plans(p, e, id),
        reads_back(row, p, e),
    ensures
        summary_of(row) == p.outcome.summary@,
{
    assert(summary_of(row) =~= p.outcome.summary@);
}

/// A list shows a stored attachment as it was: it reads the columns that the plan wrote.
pub proof fn law_stored_attachment_is_listed(
    row: attachments::AttachmentRow,
    p: InsertPlan,
    e: EmailInsert,
    id: Seq<char>,
    i: int,
)
    requires
        plans(p, e, id),
        0 <= i < e.attachments@.len(),
        chars::opt_view(row.id) == Some(p.attachments@[i].id@),
        chars::opt_view(row.filename) == chars::opt_view(p.attachments@[i].filename),
        chars::opt_view(row.content_type) == chars::opt_view(p.attachments@[i].content_type),
        chars::opt_view(row.content_id) == chars::opt_view(p.attachments@[i].content_id),
        row.size_bytes == Some(p.attachments@[i].size_bytes),
    ensures
        p.attachments@[i].email_id@ == p.outcome.id@,
        attachments::meta_of(row) == (MetaModel {
            id: e.attachments@[i].id@,
            filename: chars::opt_view(e.attachments@[i].filename),
            content_type: chars::opt_view(e.attachments@[i].content_type),
            content_id: chars::opt_view(e.attachments@[i].content_id),
            size_bytes: e.attachments@[i].size_bytes,
        }),
{
    assert(records_attachment(p.attachments@[i], e.attachments@[i], id));
}

/// What a match expression is made of: characters that a search keeps, the star
/// behind each word and the space between two words.
pub open spec fn in_expression(c: char) -> bool {
    is_searchable(c) || c == '*' || c == ' '
}

/// Nothing that a user types reaches the index as syntax: no quote, bracket, colon,
/// caret, comma or sign stands in a match expression.
pub proof fn law_search_has_no_syntax(q: Seq<char>)
    ensures
        words::all_chars(match_expression(sanitized(q)), |c: char| in_expression(c)),
        !in_expression('"') && !in_expression('\'') && !in_expression('(') && !in_expression(')')
            && !in_expression(':') && !in_expression('^') && !in_expression(',')
            && !in_expression('-') && !in_expression('+') && !in_expression('{')
            && !in_expression('}'),
{
    let ok = |c: char| in_expression(c);
    lemma_kept_chars(q, ok);
    words::lemma_trim_chars(kept(q), ok);
    let cleaned = sanitized(q);
    words::lemma_word_chars(cleaned, words::any_space(), ok);
    let ws = words::words(cleaned, words::any_space());
    let terms = prefix_terms(cleaned);
    assert forall|k: int| 0 <= k < terms.len() implies words::all_chars(#[trigger] terms[k], ok) by {
        assert(terms[k] == ws[k].push('*'));
        assert(words::all_chars(ws[k], ok));
        assert forall|i: int| 0 <= i < terms[k].len() implies ok(#[trigger] terms[k][i]) by {
            if i < ws[k].len() {
                assert(terms[k][i] == ws[k][i]);
            }
        }
    }
    assert(words::all_chars(" "@, ok)) by {
        reveal_strlit(" ");
    }
    words::lemma_joined_chars(terms, " "@, ok);
}

proof fn lemma_kept_chars(q: Seq<char>, ok: spec_fn(char) -> bool)
    requires
        forall|c: char| is_searchable(c) ==> #[trigger] ok(c),
    ensures
        words::all_chars(kept(q), ok),
    decreases q.len(),
{
    if q.len() > 0 {
        lemma_kept_chars(q.drop_last(), ok);
        let before = kept(q.drop_last());
        assert forall|i: int| 0 <= i < kept(q).len() implies ok(#[trigger] kept(q)[i]) by {
            if i < before.len() {
                assert(ok(before[i]));
            }
        }
    }
}

/// What is left of a text after trimming, if anything, has a word to look for.
proof fn lemma_something_to_match(s: Seq<char>)
    requires
        words::trim(s).len() > 0,
    ensures
        match_expression(words::trim(s)).len() > 0,
{
    let t = words::trim(s);
    words::lemma_trim_first(s);
    let ws = words::words(t, words::any_space());
    words::lemma_word_len(t, words::any_space());
    assert(ws.len() > 0);
    let terms = prefix_terms(t);
    assert(terms.len() > 0);
    assert(terms[0] == ws[0].push('*'));
    words::lemma_joined_len(terms, " "@, 0);
}

/// What a search keeps of a text: the letters and numbers, the white space, and the dots,
/// at signs and underscores, in their order, and nothing else.
pub proof fn law_search_keeps_exactly(q: Seq<char>)
    ensures
        kept(q) == q.filter(
            |c: char|
                {
                    ||| '0' <= c <= '9'
                    ||| 'A' <= c <= 'Z'
                    ||| 'a' <= c <= 'z'
                    ||| c as u32 >= 0x80 && unicode::is_alphanumeric(c)
                    ||| unicode::is_white_space(c)
                    ||| c == '.'
                    ||| c == '@'
                    ||| c == '_'
                },
        ),
        sanitized(q) == words::trim(kept(q)),
    decreases q.len(),
{
    let ok = |c: char|
        {
            ||| '0' <= c <= '9'
            ||| 'A' <= c <= 'Z'
            ||| 'a' <= c <= 'z'
            ||| c as u32 >= 0x80 && unicode::is_alphanumeric(c)
            ||| unicode::is_white_space(c)
            ||| c == '.'
            ||| c == '@'
            ||| c == '_'
        };
    reveal(Seq::filter);
    if q.len() > 0 {
        law_search_keeps_exactly(q.drop_last());
        assert(q.drop_last().filter(ok) == kept(q.drop_last()));
        lemma_searchable(q.last());
        assert(ok(q.last()) == is_searchable(q.last()));
    } else {
        assert(q.filter(ok) =~= kept(q));
    }
    assert(q.filter(ok) == kept(q));
}

proof fn lemma_searchable(c: char)
    ensures
        is_searchable(c) == {
            ||| '0' <= c <= '9'
            ||| 'A' <= c <= 'Z'
            ||| 'a' <= c <= 'z'
            ||| c as u32 >= 0x80 && unicode::is_alphanumeric(c)
            ||| unicode::is_white_space(c)
            ||| c == '.'
            ||| c == '@'
            ||| c == '_'
        },
{
}

/// A text that is typed in plain characters reaches the index whole: letters, digits,
/// white space, dots, at signs and underscores are all kept, and only the white space
/// around the text goes.
pub proof fn law_plain_search_is_kept(q: Seq<char>)
    requires
        forall|i: int|
            0 <= i < q.len() ==> {
                ||| '0' <= #[trigger] q[i] <= '9'
                ||| 'A' <= q[i] <= 'Z'
                ||| 'a' <= q[i] <= 'z'
                ||| unicode::is_white_space(q[i])
                ||| q[i] == '.'
                ||| q[i] == '@'
                ||| q[i] == '_'
            },
    ensures
        sanitized(q) == words::trim(q),
{
    lemma_all_kept(q);
}

proof fn lemma_all_kept(q: Seq<char>)
    requires
        forall|i: int| 0 <= i < q.len() ==> is_searchable(#[trigger] q[i]),
    ensures
        kept(q) == q,
    decreases q.len(),
{
    if q.len() > 0 {
        assert forall|i: int| 0 <= i < q.drop_last().len() implies is_searchable(
            #[trigger] q.drop_last()[i],
        ) by {
            assert(is_searchable(q[i]));
        }
        lemma_all_kept(q.drop_last());
        assert(is_searchable(q[q.len() - 1]));
        assert(q =~= q.drop_last().push(q.last()));
    } else {
        assert(kept(q) =~= q);
    }
}

/// Every word that is typed is asked for, as the beginning of a word and in its place: a
/// word alone gives that word with a star, and texts with white space between them give
/// their expressions with a space between them.
pub proof fn law_every_word_is_asked_for(a: Seq<char>, space: char, b: Seq<char>)
    requires
        unicode::is_white_space(space),
    ensures
        a.len() > 0 && (forall|i: int| 0 <= i < a.len() ==> !unicode::is_white_space(#[trigger] a[i]))
            ==> match_expression(a) == a + seq!['*'],
        match_expression(Seq::empty()) == Seq::<char>::empty(),
        match_expression(a).len() > 0 && match_expression(b).len() > 0 ==> match_expression(
            a + seq![space] + b,
        ) == match_expression(a) + seq![' '] + match_expression(b),
        match_expression(a).len() == 0 ==> match_expression(a + seq![space] + b)
            == match_expression(b),
        match_expression(b).len() == 0 ==> match_expression(a + seq![space] + b)
            == match_expression(a),
{
    let sep = words::any_space();
    assert(sep(space));
    words::law_words(a, space, b, sep);
    let x = words::words(a, sep);
    let y = words::words(b, sep);
    let star = |w: Seq<char>| w.push('*');
    if a.len() > 0 && (forall|i: int| 0 <= i < a.len() ==> !unicode::is_white_space(#[trigger] a[i])) {
        assert forall|i: int| 0 <= i < a.len() implies !sep(#[trigger] a[i]) by {}
        assert(x == seq![a]);
        assert(prefix_terms(a) =~= seq![a.push('*')]);
        assert(a.push('*') =~= a + seq!['*']);
    }
    assert(prefix_terms(Seq::empty()) =~= Seq::empty());
    assert(match_expression(Seq::empty()) =~= Seq::empty());
    assert(prefix_terms(a + seq![space] + b) =~= prefix_terms(a) + prefix_terms(b));
    reveal_strlit(" ");
    assert(" "@ =~= seq![' ']);
    words::law_joined(prefix_terms(a), prefix_terms(b), Seq::empty(), " "@);
    if prefix_terms(a).len() > 0 {
        assert(prefix_terms(a)[0] == x[0].push('*'));
        words::lemma_joined_len(prefix_terms(a), " "@, 0);
    } else {
        assert(prefix_terms(a) + prefix_terms(b) =~= prefix_terms(b));
        assert(match_expression(a) =~= Seq::empty());
    }
    if prefix_terms(b).len() > 0 {
        assert(prefix_terms(b)[0] == y[0].push('*'));
        words::lemma_joined_len(prefix_terms(b), " "@, 0);
    } else {
        assert(prefix_terms(a) + prefix_terms(b) =~= prefix_terms(a));
        assert(match_expression(b) =~= Seq::empty());
    }
}

/// All that is written of an email: under its identifier the marks of its text and HTML
/// and of its extensions, unread, with the recipients as JSON that is read back as they
/// are; in the index the subject, the sender, the recipients with spaces between them and
/// the text; and what is reported is the email as a list shows it, without marks.
pub proof fn law_plan_writes_the_email(p: InsertPlan, e: EmailInsert, id: Seq<char>)
    requires
        plans(p, e, id),
    ensures
        p.record.id@ == id && p.index.email_id@ == id && p.outcome.id@ == id,
        json::list_in(p.record.smtp_to_json@) == Some(e.smtp_to@.map_values(|t: String| t@)),
        p.record.has_html == (if e.has_html {
            1i64
        } else {
            0i64
        }),
        p.record.has_text == (if e.has_text {
            1i64
        } else {
            0i64
        }),
        p.record.ext_smtputf8 == (if e.ext_smtputf8 {
            1i64
        } else {
            0i64
        }),
        p.record.ext_8bitmime == (if e.ext_8bitmime {
            1i64
        } else {
            0i64
        }),
        p.record.read_flag == 0,
        e.header_subject matches Some(s) ==> p.index.subject@ == s@,
        e.header_subject is None ==> p.index.subject@.len() == 0,
        p.index.sender@ == e.smtp_from@,
        p.index.recipients@ == words::joined(e.smtp_to@.map_values(|t: String| t@), " "@),
        p.index.body@ == e.fts_body@,
        ({
            let s = p.outcome.summary@;
            &&& s.id == id
            &&& s.mailbox_id == e.mailbox_id@
            &&& s.received_at == e.received_at
            &&& s.from == e.smtp_from@
            &&& s.to == e.smtp_to@.map_values(|t: String| t@)
            &&& s.subject == chars::opt_view(e.header_subject)
            &&& s.has_html == e.has_html && s.has_text == e.has_text
            &&& s.size_bytes == e.size_bytes
            &&& !s.read && !s.pinned && !s.starred
            &&& s.tag == chars::opt_view(e.tag)
        }),
{
}

/// What a list reads of a row: each column as it is, a mark where the number is not zero,
/// nothing, zero or no mark where the column is absent.
pub proof fn law_row_is_read(row: SummaryRow)
    ensures
        ({
            let s = summary_of(row);
            &&& row.id matches Some(t) ==> s.id == t@
            &&& row.id is None ==> s.id.len() == 0
            &&& row.mailbox_id matches Some(t) ==> s.mailbox_id == t@
            &&& row.received_at matches Some(n) ==> s.received_at == n
            &&& row.received_at is None ==> s.received_at == 0
            &&& row.smtp_from matches Some(t) ==> s.from == t@
            &&& row.smtp_from is None ==> s.from.len() == 0
            &&& s.subject == chars::opt_view(row.header_subject)
            &&& row.size_bytes matches Some(n) ==> s.size_bytes == n
            &&& s.has_html == (row.has_html is Some && row.has_html != Some(0i64))
            &&& s.has_text == (row.has_text is Some && row.has_text != Some(0i64))
            &&& s.read == (row.read_flag is Some && row.read_flag != Some(0i64))
            &&& s.pinned == (row.pinned is Some && row.pinned != Some(0i64))
            &&& s.starred == (row.starred is Some && row.starred != Some(0i64))
            &&& s.tag == chars::opt_view(row.tag)
            &&& row.smtp_to_json matches Some(t) ==> s.to == (match json::list_in(t@) {
                Some(l) => l,
                None => Seq::empty(),
            })
        }),
{
}

/// What the detail of an email reads besides: the headers and the bodies out of the parsed
/// message, where they are there and bodies are texts; the note, the identifiers and the
/// marks of the extensions out of their columns; and the attachments as they are given.
pub proof fn law_detail_is_read(row: DetailRow, attached: Seq<MetaModel>)
    ensures
        ({
            let d = detail_of(row, attached);
            &&& d.summary == summary_of(row.summary)
            &&& d.attachments == attached
            &&& d.note == chars::opt_view(row.note)
            &&& d.message_id == chars::opt_view(row.message_id)
            &&& d.in_reply_to == chars::opt_view(row.in_reply_to)
            &&& d.ext_smtputf8 == (row.ext_smtputf8 is Some && row.ext_smtputf8 != Some(0i64))
            &&& d.ext_8bitmime == (row.ext_8bitmime is Some && row.ext_8bitmime != Some(0i64))
            &&& match row.parsed@ {
                json::JsonModel::Object(m) => {
                    &&& d.headers == if m.contains_key("headers"@) {
                        m["headers"@]
                    } else {
                        json::JsonModel::Null
                    }
                    &&& d.text_body == if m.contains_key("text_body"@) {
                        json::text_of(m["text_body"@])
                    } else {
                        None
                    }
                    &&& d.html_body == if m.contains_key("html_body"@) {
                        json::text_of(m["html_body"@])
                    } else {
                        None
                    }
                },
                _ => d.headers == json::JsonModel::Null && d.text_body is None && d.html_body is None,
            }
        }),
{
}

/// What clearing removes, in the order of the rows: all, or all that are not pinned. What
/// age removes are the emails with a time before the given one.
pub proof fn law_removed_rows(rows: Seq<StoredEmail>, cutoff_ms: i64)
    ensures
        cleared(rows, false) == rows,
        cleared(rows, true) == rows.filter(|e: StoredEmail| !e.pinned),
        older_than(rows, cutoff_ms) == rows.filter(
            |e: StoredEmail| e.received_at is Some && e.received_at->0 < cutoff_ms,
        ),
    decreases rows.len(),
{
    reveal(Seq::filter);
    let kept = |e: StoredEmail| !e.pinned;
    let old = |e: StoredEmail| e.received_at is Some && e.received_at->0 < cutoff_ms;
    if rows.len() > 0 {
        let front = rows.drop_last();
        law_removed_rows(front, cutoff_ms);
        assert(front.push(rows.last()) =~= rows);
        assert(front.filter(kept) == cleared(front, true));
        assert(front.filter(old) == older_than(front, cutoff_ms));
        assert(is_older(rows.last(), cutoff_ms) == old(rows.last()));
    } else {
        assert(cleared(rows, false) =~= rows);
        assert(cleared(rows, true) =~= rows.filter(kept));
        assert(older_than(rows, cutoff_ms) =~= rows.filter(old));
    }
    assert(cleared(rows, true) =~= rows.filter(kept));
    assert(older_than(rows, cutoff_ms) =~= rows.filter(old));
}

/// Where an attachment is stored is written with it, under the identifier of the email.
pub proof fn law_attachment_rows(p: InsertPlan, e: EmailInsert, id: Seq<char>, i: int)
    requires
        plans(p, e, id),
        0 <= i < e.attachments@.len(),
    ensures
        p.attachments@.len() == e.attachments@.len(),
        p.attachments@[i].email_id@ == id,
        p.attachments@[i].id@ == e.attachments@[i].id@,
        p.attachments@[i].blob_path@ == e.attachments@[i].blob_path@,
        p.attachments@[i].size_bytes == e.attachments@[i].size_bytes,
{
    assert(records_attachment(p.attachments@[i], e.attachments@[i], id));
}

/// A negative number keeps all emails of a mailbox.
pub proof fn law_negative_number_keeps_all(
    r: Seq<StoredEmail>,
    rows: Seq<StoredEmail>,
    keep_max: i64,
)
    requires
        is_trimmed(r, rows, keep_max),
        keep_max < 0,
    ensures
        r.len() == 0,
{
    let loose = unpinned(rows);
    let n = loose.len() as int;
    let i = listing::lemma_place_in_part(r, loose, age_ranks(loose), n, n, 0);
}

/// The values of an email are those of its fields.
pub proof fn law_values_of_an_email(s: EmailSummary, d: EmailDetail)
    ensures
        s@.id == s.id@ && s@.mailbox_id == s.mailbox_id@ && s@.received_at == s.received_at,
        s@.from == s.from@ && s@.to == s.to@.map_values(|t: String| t@),
        s@.subject == chars::opt_view(s.subject) && s@.tag == chars::opt_view(s.tag),
        s@.has_html == s.has_html && s@.has_text == s.has_text && s@.size_bytes == s.size_bytes,
        s@.read == s.read && s@.pinned == s.pinned && s@.starred == s.starred,
        d@.summary.id == d.id@ && d@.summary.mailbox_id == d.mailbox_id@,
        d@.summary.received_at == d.received_at && d@.summary.from == d.from@,
        d@.summary.to == d.to@.map_values(|t: String| t@),
        d@.summary.subject == chars::opt_view(d.subject) && d@.summary.tag == chars::opt_view(d.tag),
        d@.summary.has_html == d.has_html && d@.summary.has_text == d.has_text,
        d@.summary.size_bytes == d.size_bytes && d@.summary.read == d.read,
        d@.summary.pinned == d.pinned && d@.summary.starred == d.starred,
        d@.note == chars::opt_view(d.note) && d@.headers == d.headers@,
        d@.text_body == chars::opt_view(d.text_body) && d@.html_body == chars::opt_view(d.html_body),
        d@.message_id == chars::opt_view(d.message_id),
        d@.in_reply_to == chars::opt_view(d.in_reply_to),
        d@.ext_smtputf8 == d.ext_smtputf8 && d@.ext_8bitmime == d.ext_8bitmime,
        d@.attachments.len() == d.attachments@.len(),
{
}

} // verus!
