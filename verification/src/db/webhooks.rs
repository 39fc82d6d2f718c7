//! Webhooks: where captured emails are announced.

use vstd::prelude::*;
use vstd::string::*;

use crate::clock;
use crate::db::columns;
use crate::db::listing;
use crate::error::Error;
use crate::ident;
use crate::text::chars;
use crate::text::words;

verus! {

/// A webhook.
#[derive(Debug, Clone)]
pub struct Webhook {
    pub id: String,
    /// The mailbox that the webhook is for; nothing for all mailboxes.
    pub mailbox_id: Option<String>,
    pub url: String,
    /// Sent as the `Authorization` header as it stands.
    pub auth_header: Option<String>,
    pub enabled: bool,
    pub created_at: i64,
}

/// What a webhook is created from.
#[derive(Debug, Clone)]
pub struct CreateWebhook {
    pub mailbox_id: Option<String>,
    pub url: String,
    pub auth_header: Option<String>,
    pub enabled: Option<bool>,
}

/// A choice that is made where nothing is said.
pub open spec fn or_true(b: Option<bool>) -> bool {
    match b {
        Some(x) => x,
        None => true,
    }
}

/// `w` is the webhook that `input` asks for, made at `now` under the identifier
/// `id`.
pub open spec fn is_new(w: Webhook, input: CreateWebhook, id: Seq<char>, now: i64) -> bool {
    &&& w.id@ == id
    &&& w.mailbox_id == input.mailbox_id
    &&& w.url == input.url
    &&& w.auth_header == input.auth_header
    &&& w.enabled == or_true(input.enabled)
    &&& w.created_at == now
}

/// The webhook to store, made now under a fresh identifier.
pub fn insert(input: CreateWebhook) -> (r: Webhook)
    ensures
        ident::is_random_uuid(r.id@),
        0 <= r.created_at <= clock::LAST_MILLI,
        is_new(r, input, r.id@, r.created_at),
{
    insert_as(input, ident::fresh_id(), clock::now_millis())
}

/// The webhook to store, made at `now` under the identifier `id`.
pub fn insert_as(input: CreateWebhook, id: String, now: i64) -> (r: Webhook)
    ensures
        is_new(r, input, id@, now),
{
    Webhook {
        id,
        mailbox_id: input.mailbox_id,
        url: input.url,
        auth_header: input.auth_header,
        enabled: match input.enabled {
            Some(x) => x,
            None => true,
        },
        created_at: now,
    }
}

/// What deleting a webhook comes to: there has to have been a row.
pub fn delete(id: &str, rows_affected: u64) -> (r: Result<(), Error>)
    ensures
        r is Ok == (rows_affected != 0),
        r matches Err(e) ==> (e matches Error::Invalid(m) && m@ == "webhook "@ + id@
            + " not found"@),
{
    if rows_affected == 0 {
        return Err(Error::Invalid(words::cat3("webhook ", id, " not found")));
    }
    Ok(())
}

/// The columns of a webhook.
#[derive(Debug)]
pub struct WebhookRow {
    pub id: Option<String>,
    pub mailbox_id: Option<String>,
    pub url: Option<String>,
    pub auth_header: Option<String>,
    pub enabled: Option<i64>,
    pub created_at: Option<i64>,
}

/// `w` is what the columns of a webhook say.
pub open spec fn is_read(w: Webhook, row: WebhookRow) -> bool {
    &&& w.id@ == chars::or_empty(chars::opt_view(row.id))
    &&& w.mailbox_id == row.mailbox_id
    &&& w.url@ == chars::or_empty(chars::opt_view(row.url))
    &&& w.auth_header == row.auth_header
    &&& w.enabled == (columns::number_or(row.enabled, 0) != 0)
    &&& w.created_at == columns::number_or(row.created_at, 0)
}

/// A webhook out of its columns. One that does not say whether it is enabled is not.
pub fn row_to_webhook(row: WebhookRow) -> (r: Webhook)
    ensures
        is_read(r, row),
{
    Webhook {
        id: columns::text(row.id),
        mailbox_id: row.mailbox_id,
        url: columns::text(row.url),
        auth_header: row.auth_header,
        enabled: columns::flag(row.enabled, 0),
        created_at: columns::number(row.created_at, 0),
    }
}

/// `hooks` is what `rows` say, row by row.
pub open spec fn all_read(hooks: Seq<Webhook>, rows: Seq<WebhookRow>) -> bool {
    &&& hooks.len() == rows.len()
    &&& forall|i: int| 0 <= i < rows.len() ==> is_read(#[trigger] hooks[i], rows[i])
}

/// The webhooks out of their columns.
pub fn list(rows: Vec<WebhookRow>) -> (r: Vec<Webhook>)
    ensures
        all_read(r@, rows@),
{
    let ghost all = rows@;
    let mut rest: Vec<WebhookRow> = rows;
    let mut out: Vec<Webhook> = Vec::new();
    while rest.len() > 0
        invariant
            all == rows@,
            out@.len() + rest@.len() == all.len(),
            rest@ == all.skip(out@.len() as int),
            forall|i: int| 0 <= i < out@.len() ==> is_read(#[trigger] out@[i], all[i]),
        decreases rest@.len(),
    {
        let row: WebhookRow = rest.remove(0);
        assert(row == all[out@.len() as int]);
        out.push(row_to_webhook(row));
        assert(rest@ =~= all.skip(out@.len() as int));
    }
    out
}

/// Whether something that is for one mailbox, or for all of them, is for
/// `mailbox_id`.
pub open spec fn is_for(own: Option<Seq<char>>, mailbox_id: Seq<char>) -> bool {
    own matches Some(m) ==> m == mailbox_id
}

/// Whether something that is for one mailbox, or for all of them, is for
/// `mailbox_id`.
pub fn meant_for(own: &Option<String>, mailbox_id: &str) -> (r: bool)
    ensures
        r == is_for(chars::opt_view(*own), mailbox_id@),
{
    match own {
        Some(m) => chars::str_eq(m.as_str(), mailbox_id),
        None => true,
    }
}

/// The row is that of a webhook which is enabled, and is for the mailbox or for all of
/// them.
pub open spec fn fires(row: WebhookRow, mailbox_id: Seq<char>) -> bool {
    row.enabled == Some(1i64) && is_for(chars::opt_view(row.mailbox_id), mailbox_id)
}

/// The rows of the webhooks that an email in a mailbox is announced to.
pub open spec fn firing(rows: Seq<WebhookRow>, mailbox_id: Seq<char>) -> Seq<WebhookRow> {
    rows.filter(|w: WebhookRow| fires(w, mailbox_id))
}

/// The webhooks that an email in a mailbox is announced to: those that are enabled and
/// are for that mailbox or for all of them.
pub fn list_for_mailbox(rows: Vec<WebhookRow>, mailbox_id: &str) -> (r: Vec<Webhook>)
    ensures
        all_read(r@, firing(rows@, mailbox_id@)),
{
    let mut keep: Vec<bool> = Vec::new();
    let mut i: usize = 0;
    while i < rows.len()
        invariant
            i <= rows@.len(),
            keep@.len() == i,
            forall|k: int| 0 <= k < i ==> #[trigger] keep@[k] == fires(rows@[k], mailbox_id@),
        decreases rows@.len() - i,
    {
        let on: bool = match rows[i].enabled {
            Some(n) => n == 1,
            None => false,
        };
        keep.push(on && meant_for(&rows[i].mailbox_id, mailbox_id));
        i = i + 1;
    }
    proof {
        let ghost m = mailbox_id@;
        listing::lemma_selected_by(rows@, keep@, |w: WebhookRow| fires(w, m));
    }
    list(listing::select(rows, &keep))
}

/// A webhook that is not enabled never fires. An enabled one for all mailboxes fires
/// for every mailbox, and one for a mailbox fires for that mailbox alone.
pub proof fn law_webhooks_fire_for_their_mailbox(
    rows: Seq<WebhookRow>,
    mailbox_id: Seq<char>,
    w: WebhookRow,
)
    requires
        rows.contains(w),
    ensures
        w.enabled != Some(1i64) ==> !firing(rows, mailbox_id).contains(w),
        w.enabled == Some(1i64) && w.mailbox_id is None ==> firing(rows, mailbox_id).contains(w),
        w.enabled == Some(1i64) && w.mailbox_id is Some ==> firing(rows, mailbox_id).contains(w)
            == (w.mailbox_id->0@ == mailbox_id),
{
    let p = |x: WebhookRow| fires(x, mailbox_id);
    rows.filter_lemma(p);
    let i = rows.index_of(w);
    if p(rows[i]) {
        assert(rows.filter(p).contains(rows[i]));
    }
}

/// A new webhook is what was asked for, and enabled unless that was declined.
pub proof fn law_new_webhook(w: Webhook, input: CreateWebhook, id: Seq<char>, now: i64)
    requires
        is_new(w, input, id, now),
    ensures
        w.id@ == id && w.created_at == now,
        w.mailbox_id == input.mailbox_id && w.url == input.url && w.auth_header == input.auth_header,
        w.enabled == (input.enabled != Some(false)),
{
}

/// What is read of a webhook: each column as it is, and enabled only where the column says
/// so.
pub proof fn law_row_is_read(w: Webhook, row: WebhookRow)
    requires
        is_read(w, row),
    ensures
        row.id matches Some(t) ==> w.id@ == t@,
        row.url matches Some(t) ==> w.url@ == t@,
        w.mailbox_id == row.mailbox_id && w.auth_header == row.auth_header,
        w.enabled == (row.enabled is Some && row.enabled != Some(0i64)),
        row.created_at matches Some(n) ==> w.created_at == n,
{
}

/// The webhooks that fire stand in the order of the rows, each that is enabled for the
/// mailbox or for all.
pub proof fn law_firing_rows(rows: Seq<WebhookRow>, mailbox_id: Seq<char>)
    ensures
        firing(rows, mailbox_id) == rows.filter(
            |w: WebhookRow|
                w.enabled == Some(1i64) && (w.mailbox_id is None || w.mailbox_id->0@ == mailbox_id),
        ),
    decreases rows.len(),
{
    reveal(Seq::filter);
    let q = |w: WebhookRow|
        w.enabled == Some(1i64) && (w.mailbox_id is None || w.mailbox_id->0@ == mailbox_id);
    if rows.len() > 0 {
        law_firing_rows(rows.drop_last(), mailbox_id);
        assert(rows.drop_last().filter(q) == firing(rows.drop_last(), mailbox_id));
        assert(fires(rows.last(), mailbox_id) == q(rows.last()));
    }
    assert(firing(rows, mailbox_id) =~= rows.filter(q));
}

} // verus!
