//! Rules by which captured emails are forwarded. How a relay is reached is left to
//! the parameter `R`.

use vstd::prelude::*;
use vstd::string::*;

use crate::clock;
use crate::db::columns;
use crate::db::listing;
use crate::db::webhooks;
use crate::error::Error;
use crate::ident;
use crate::json;
use crate::text::chars;
use crate::text::words;

verus! {

/// A forwarding rule.
#[derive(Debug, Clone)]
pub struct ForwardingRule<R> {
    pub id: String,
    /// The mailbox whose emails are forwarded; nothing for all mailboxes.
    pub mailbox_id: Option<String>,
    pub target_addresses: Vec<String>,
    pub relay: R,
    pub enabled: bool,
    pub created_at: i64,
}

/// What a forwarding rule is created from.
#[derive(Debug, Clone)]
pub struct CreateForwardingRule<R> {
    pub mailbox_id: Option<String>,
    pub target_addresses: Vec<String>,
    pub relay: R,
    pub enabled: Option<bool>,
}

/// `f` is the rule that `input` asks for, made at `now` under the identifier `id`.
pub open spec fn is_new<R>(
    f: ForwardingRule<R>,
    input: CreateForwardingRule<R>,
    id: Seq<char>,
    now: i64,
) -> bool {
    &&& f.id@ == id
    &&& f.mailbox_id == input.mailbox_id
    &&& f.target_addresses == input.target_addresses
    &&& f.relay == input.relay
    &&& f.enabled == webhooks::or_true(input.enabled)
    &&& f.created_at == now
}

/// A rule without targets is refused.
pub open spec fn is_refused<R>(input: CreateForwardingRule<R>, e: Error) -> bool {
    input.target_addresses@.len() == 0 && (e matches Error::Invalid(m) && m@
        == "forwarding rule needs at least one target"@)
}

/// The rule to store, made now under a fresh identifier, and its targets as the
/// column holds them.
pub fn insert<R>(input: CreateForwardingRule<R>) -> (r: Result<(ForwardingRule<R>, String), Error>)
    ensures
        r is Ok == (input.target_addresses@.len() > 0),
        r matches Ok(f) ==> {
            &&& ident::is_random_uuid(f.0.id@)
            &&& 0 <= f.0.created_at <= clock::LAST_MILLI
            &&& is_new(f.0, input, f.0.id@, f.0.created_at)
            &&& json::list_in(f.1@) == Some(chars::seq_views(input.target_addresses@))
        },
        r matches Err(e) ==> is_refused(input, e),
{
    insert_as(input, ident::fresh_id(), clock::now_millis())
}

/// The rule to store, made at `now` under the identifier `id`, and its targets as
/// the column holds them.
pub fn insert_as<R>(input: CreateForwardingRule<R>, id: String, now: i64) -> (r: Result<
    (ForwardingRule<R>, String),
    Error,
>)
    ensures
        r is Ok == (input.target_addresses@.len() > 0),
        r matches Ok(f) ==> {
            &&& is_new(f.0, input, id@, now)
            &&& f.1@ == json::list_text(chars::seq_views(input.target_addresses@))
            &&& json::list_in(f.1@) == Some(chars::seq_views(input.target_addresses@))
        },
        r matches Err(e) ==> is_refused(input, e),
{
    if input.target_addresses.len() == 0 {
        return Err(Error::Invalid("forwarding rule needs at least one target".to_owned()));
    }
    let targets: String = match json::write_list(&input.target_addresses) {
        Ok(t) => t,
        Err(m) => {
            return Err(Error::Json(m));
        },
    };
    let rule = ForwardingRule {
        id,
        mailbox_id: input.mailbox_id,
        target_addresses: input.target_addresses,
        relay: input.relay,
        enabled: match input.enabled {
            Some(x) => x,
            None => true,
        },
        created_at: now,
    };
    Ok((rule, targets))
}

/// What deleting a rule comes to: there has to have been a row.
pub fn delete(id: &str, rows_affected: u64) -> (r: Result<(), Error>)
    ensures
        r is Ok == (rows_affected != 0),
        r matches Err(e) ==> (e matches Error::Invalid(m) && m@ == "forwarding rule "@ + id@
            + " not found"@),
{
    if rows_affected == 0 {
        return Err(Error::Invalid(words::cat3("forwarding rule ", id, " not found")));
    }
    Ok(())
}

/// The columns of a rule. The relay is what was read out of its column, or the
/// message with which reading failed.
#[derive(Debug)]
pub struct ForwardingRow<R> {
    pub id: Option<String>,
    pub mailbox_id: Option<String>,
    pub target_addresses: Option<String>,
    pub relay: Result<R, String>,
    pub enabled: Option<i64>,
    pub created_at: Option<i64>,
}

/// `f` is what the columns of a rule with a readable relay say.
pub open spec fn is_read<R>(f: ForwardingRule<R>, row: ForwardingRow<R>) -> bool {
    &&& f.id@ == chars::or_empty(chars::opt_view(row.id))
    &&& f.mailbox_id == row.mailbox_id
    &&& chars::seq_views(f.target_addresses@) == json::list_or_empty(
        chars::or_empty(chars::opt_view(row.target_addresses)),
    )
    &&& row.relay == Ok::<R, String>(f.relay)
    &&& f.enabled == (columns::number_or(row.enabled, 0) != 0)
    &&& f.created_at == columns::number_or(row.created_at, 0)
}

/// A rule out of its columns. Its relay has to be readable.
pub fn row_to_rule<R>(row: ForwardingRow<R>) -> (r: Result<ForwardingRule<R>, Error>)
    ensures
        match row.relay {
            Ok(_) => r matches Ok(f) && is_read(f, row),
            Err(m) => r matches Err(Error::Json(t)) && t == m,
        },
{
    let targets: String = columns::text(row.target_addresses);
    match row.relay {
        Ok(relay) => Ok(
            ForwardingRule {
                id: columns::text(row.id),
                mailbox_id: row.mailbox_id,
                target_addresses: json::list_from(targets.as_str()),
                relay,
                enabled: columns::flag(row.enabled, 0),
                created_at: columns::number(row.created_at, 0),
            },
        ),
        Err(m) => Err(Error::Json(m)),
    }
}

/// The message of the first rule whose relay is not readable.
pub open spec fn first_complaint<R>(rows: Seq<ForwardingRow<R>>) -> Option<String>
    decreases rows.len(),
{
    if rows.len() == 0 {
        None
    } else {
        match rows[0].relay {
            Err(m) => Some(m),
            Ok(_) => first_complaint(rows.skip(1)),
        }
    }
}

/// `r` is what reading `rows` gives: all their rules, or the complaint about the first
/// one with a relay that is not readable.
pub open spec fn reads<R>(
    r: Result<Vec<ForwardingRule<R>>, Error>,
    rows: Seq<ForwardingRow<R>>,
) -> bool {
    match first_complaint(rows) {
        Some(m) => r matches Err(Error::Json(t)) && t == m,
        None => r matches Ok(v) && v@.len() == rows.len() && forall|i: int|
            0 <= i < rows.len() ==> is_read(#[trigger] v@[i], rows[i]),
    }
}

/// The rules out of their columns. All their relays have to be readable.
pub fn list<R>(rows: Vec<ForwardingRow<R>>) -> (r: Result<Vec<ForwardingRule<R>>, Error>)
    ensures
        reads(r, rows@),
{
    let ghost all = rows@;
    let mut rest: Vec<ForwardingRow<R>> = rows;
    let mut out: Vec<ForwardingRule<R>> = Vec::new();
    proof {
        assert(all.skip(0) =~= all);
    }
    while rest.len() > 0
        invariant
            all == rows@,
            out@.len() + rest@.len() == all.len(),
            rest@ == all.skip(out@.len() as int),
            first_complaint(all) == first_complaint(rest@),
            forall|i: int| 0 <= i < out@.len() ==> is_read(#[trigger] out@[i], all[i]),
        decreases rest@.len(),
    {
        let ghost here = rest@;
        let row: ForwardingRow<R> = rest.remove(0);
        assert(rest@ =~= here.skip(1));
        assert(row == all[out@.len() as int]);
        match row_to_rule(row) {
            Ok(rule) => {
                out.push(rule);
            },
            Err(e) => {
                return Err(e);
            },
        }
        assert(rest@ =~= all.skip(out@.len() as int));
    }
    Ok(out)
}

/// The rows of the rules by which an email in a mailbox is forwarded.
pub open spec fn applying<R>(rows: Seq<ForwardingRow<R>>, mailbox_id: Seq<char>) -> Seq<
    ForwardingRow<R>,
> {
    rows.filter(
        |f: ForwardingRow<R>|
            f.enabled == Some(1i64) && webhooks::is_for(chars::opt_view(f.mailbox_id), mailbox_id),
    )
}

/// The rules by which an email in a mailbox is forwarded: those that are enabled and
/// are for that mailbox or for all of them. Their relays have to be readable.
pub fn list_for_mailbox<R>(rows: Vec<ForwardingRow<R>>, mailbox_id: &str) -> (r: Result<
    Vec<ForwardingRule<R>>,
    Error,
>)
    ensures
        reads(r, applying(rows@, mailbox_id@)),
{
    let mut applies: Vec<bool> = Vec::new();
    let mut i: usize = 0;
    while i < rows.len()
        invariant
            i <= rows@.len(),
            applies@.len() == i,
            forall|k: int|
                0 <= k < i ==> #[trigger] applies@[k] == (rows@[k].enabled == Some(1i64)
                    && webhooks::is_for(chars::opt_view(rows@[k].mailbox_id), mailbox_id@)),
        decreases rows@.len() - i,
    {
        let on: bool = match rows[i].enabled {
            Some(n) => n == 1,
            None => false,
        };
        applies.push(on && webhooks::meant_for(&rows[i].mailbox_id, mailbox_id));
        i = i + 1;
    }
    proof {
        let ghost m = mailbox_id@;
        listing::lemma_selected_by(
            rows@,
            applies@,
            |f: ForwardingRow<R>|
                f.enabled == Some(1i64) && webhooks::is_for(chars::opt_view(f.mailbox_id), m),
        );
    }
    list(listing::select(rows, &applies))
}

/// A rule that is not enabled forwards nothing. An enabled one for all mailboxes
/// forwards from every mailbox, and one for a mailbox from that mailbox alone.
pub proof fn law_rules_apply_to_their_mailbox<R>(
    rows: Seq<ForwardingRow<R>>,
    mailbox_id: Seq<char>,
    f: ForwardingRow<R>,
)
    requires
        rows.contains(f),
    ensures
        f.enabled != Some(1i64) ==> !applying(rows, mailbox_id).contains(f),
        f.enabled == Some(1i64) && f.mailbox_id is None ==> applying(rows, mailbox_id).contains(f),
        f.enabled == Some(1i64) && f.mailbox_id is Some ==> applying(rows, mailbox_id).contains(f)
            == (f.mailbox_id->0@ == mailbox_id),
{
    let p = |x: ForwardingRow<R>|
        x.enabled == Some(1i64) && webhooks::is_for(chars::opt_view(x.mailbox_id), mailbox_id);
    rows.filter_lemma(p);
    let i = rows.index_of(f);
    if p(rows[i]) {
        assert(rows.filter(p).contains(rows[i]));
    }
}

/// A new rule is what was asked for, and enabled unless that was declined. One without
/// targets is refused.
pub proof fn law_new_rule<R>(
    f: ForwardingRule<R>,
    input: CreateForwardingRule<R>,
    id: Seq<char>,
    now: i64,
)
    requires
        is_new(f, input, id, now),
    ensures
        f.id@ == id && f.created_at == now,
        f.mailbox_id == input.mailbox_id && f.target_addresses == input.target_addresses,
        f.relay == input.relay,
        f.enabled == (input.enabled != Some(false)),
{
}

/// What is read of a rule: each column as it is, the targets out of their JSON, none where
/// that is no list, and enabled only where the column says so.
pub proof fn law_row_is_read<R>(f: ForwardingRule<R>, row: ForwardingRow<R>)
    requires
        is_read(f, row),
    ensures
        row.id matches Some(t) ==> f.id@ == t@,
        f.mailbox_id == row.mailbox_id,
        row.relay is Ok && row.relay->Ok_0 == f.relay,
        f.enabled == (row.enabled is Some && row.enabled != Some(0i64)),
        row.created_at matches Some(n) ==> f.created_at == n,
        row.target_addresses matches Some(t) ==> f.target_addresses@.map_values(|s: String| s@) == (
        match json::list_in(t@) {
            Some(l) => l,
            None => Seq::empty(),
        }),
{
}

/// The rules that apply stand in the order of the rows, each that is enabled for the
/// mailbox or for all; a rule that cannot be read is complained about only where no rule
/// before it is.
pub proof fn law_applying_rows<R>(rows: Seq<ForwardingRow<R>>, mailbox_id: Seq<char>)
    ensures
        applying(rows, mailbox_id) == rows.filter(
            |f: ForwardingRow<R>|
                f.enabled == Some(1i64) && (f.mailbox_id is None || f.mailbox_id->0@ == mailbox_id),
        ),
    decreases rows.len(),
{
    reveal(Seq::filter);
    let q = |f: ForwardingRow<R>|
        f.enabled == Some(1i64) && (f.mailbox_id is None || f.mailbox_id->0@ == mailbox_id);
    if rows.len() > 0 {
        law_applying_rows(rows.drop_last(), mailbox_id);
        assert(rows.drop_last().filter(q) == applying(rows.drop_last(), mailbox_id));
    }
    assert(applying(rows, mailbox_id) =~= rows.filter(q));
}

/// The first complaint is about a rule that cannot be read, with all before it readable;
/// there is none exactly where all can be read.
pub proof fn law_first_complaint<R>(rows: Seq<ForwardingRow<R>>)
    ensures
        first_complaint(rows) is None <==> forall|i: int|
            0 <= i < rows.len() ==> (#[trigger] rows[i]).relay is Ok,
        first_complaint(rows) matches Some(m) ==> exists|i: int|
            0 <= i < rows.len() && (#[trigger] rows[i]).relay == Err::<R, String>(m) && forall|j: int|
                0 <= j < i ==> (#[trigger] rows[j]).relay is Ok,
    decreases rows.len(),
{
    if rows.len() > 0 {
        let rest = rows.skip(1);
        law_first_complaint(rest);
        match rows[0].relay {
            Err(m) => {
                assert(rows[0].relay == Err::<R, String>(m));
            },
            Ok(_) => {
                if let Some(m) = first_complaint(rest) {
                    let i = choose|i: int|
                        0 <= i < rest.len() && (#[trigger] rest[i]).relay == Err::<R, String>(m)
                            && forall|j: int| 0 <= j < i ==> (#[trigger] rest[j]).relay is Ok;
                    assert(rows[i + 1].relay == Err::<R, String>(m));
                    assert forall|j: int| 0 <= j < i + 1 implies (#[trigger] rows[j]).relay is Ok by {
                        if j > 0 {
                            assert(rest[j - 1].relay is Ok);
                        }
                    }
                } else {
                    assert forall|i: int| 0 <= i < rows.len() implies (
                    #[trigger] rows[i]).relay is Ok by {
                        if i > 0 {
                            assert(rest[i - 1].relay is Ok);
                        }
                    }
                }
            },
        }
    }
}

} // verus!
